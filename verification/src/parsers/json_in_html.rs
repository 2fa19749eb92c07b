use vstd::prelude::*;
use crate::parsers::html::{element_text, make_selector, parse_document, select_first_doc, selector_ok};
use crate::structs::{ParseError, Target};

verus! {

/// Pulls the JSON text embedded in a page's script element: the text
/// content of the first element matching the chapters selector. The JSON
/// parser then reads the decoded document under the same target.
pub fn extract_embedded_json(target: &Target, source: &str) -> (r: Result<String, ParseError>)
    requires
        target.tags is Some,
    ensures
        !selector_ok(target.tags->0.chapters_tag@) ==> r == Err::<String, ParseError>(
            ParseError::BadSelector,
        ),
        r matches Err(e) ==> (e == ParseError::BadSelector || e == ParseError::ScriptMissing),
{
    let tags = match &target.tags {
        Some(tg) => tg,
        None => {
            proof {
                assert(false);
            }
            return Err(ParseError::BadSelector);
        },
    };
    let html = parse_document(source);
    let selector = match make_selector(tags.chapters_tag.as_str()) {
        Ok(s) => s,
        Err(e) => {
            return Err(e);
        },
    };
    match select_first_doc(&html, &selector) {
        Some(script_tag) => Ok(element_text(&script_tag)),
        None => Err(ParseError::ScriptMissing),
    }
}

} // verus!
