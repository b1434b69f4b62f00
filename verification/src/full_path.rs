use vstd::prelude::*;

use crate::settings::HtmlSettings;

verus! {

/// The parts that the path of a served file is joined from, in order: the
/// HTML directory, then the static directory for a static file, then the
/// file's own path.
pub fn full_path_parts(html: &HtmlSettings, path: &str, static_: bool) -> (parts: Vec<String>)
    ensures
        static_ ==> parts@.len() == 3 && parts@[0]@ == html.path@ && parts@[1]@
            == html.static_path@ && parts@[2]@ == path@,
        !static_ ==> parts@.len() == 2 && parts@[0]@ == html.path@ && parts@[1]@ == path@,
{
    let mut parts: Vec<String> = Vec::new();
    parts.push(html.path.clone());
    if static_ {
        parts.push(html.static_path.clone());
    }
    parts.push(path.to_owned());
    parts
}

} // verus!
