use vstd::prelude::*;

use crate::links::Link;

verus! {

/// A JSON document of serde_json, carried through unread.
#[verifier::external_type_specification]
#[verifier::external_body]
pub struct ExValue(serde_json::Value);

/// The styles offered for a dataset.
#[derive(Debug)]
pub struct Styles {
    pub styles: Vec<Style>,
}

/// One style: its identifier, an optional title, and its links.
#[derive(Debug)]
pub struct Style {
    pub id: String,
    pub title: Option<String>,
    pub links: Vec<Link>,
}

/// A style sheet: its identifier and its document.
#[derive(Debug)]
pub struct Stylesheet {
    pub id: String,
    pub value: serde_json::Value,
}

} // verus!
