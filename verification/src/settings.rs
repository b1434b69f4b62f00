use vstd::prelude::*;

verus! {

/// The application's own settings.
#[derive(Clone, Debug)]
pub struct AppSettings {
    pub database: DatabaseSettings,
    pub html: HtmlSettings,
}

/// Where the database is and how to log in to it.
#[derive(Clone, Debug)]
pub struct DatabaseSettings {
    pub host: String,
    pub port: u16,
    pub username: String,
    pub password: String,
    pub database: String,
}

/// How pages are served and filled in.
#[derive(Clone, Debug)]
pub struct HtmlSettings {
    pub template: bool,
    pub template_index: bool,
    pub template_static: bool,
    pub count: bool,
    pub domain: String,
    pub path: String,
    pub static_path: String,
}

} // verus!
