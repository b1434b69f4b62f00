//! The logic of a URL shortener and paste service: short codes, URL
//! formatting, the database workflows for storing and reading back URLs and
//! entries, and the filling-in of page templates.

pub mod config;
pub mod database;
pub mod endpoints;
pub mod full_path;
pub mod settings;
pub mod shortener;
pub mod templating;
pub mod text;
pub mod url;
