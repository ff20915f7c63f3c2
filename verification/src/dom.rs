//! The HTML document layer: scraper's parsed DOM, CSS selectors and
//! element handles, declared for the verifier and reached through thin
//! wrappers. A DOM value is opaque here; everything the parser reasons
//! about is extracted into plain strings first.

use vstd::prelude::*;

verus! {

#[verifier::external_type_specification]
#[verifier::external_body]
pub struct ExHtml(scraper::Html);

#[verifier::external_type_specification]
#[verifier::external_body]
pub struct ExSelector(scraper::Selector);

#[verifier::external_type_specification]
#[verifier::external_body]
pub struct ExElementRef<'a>(scraper::ElementRef<'a>);

/// Relies on scraper::Selector::parse: compiles a CSS selector group, or
/// nothing if the selector text is invalid.
#[verifier::external_body]
pub fn make_selector(sel: &str) -> Option<scraper::Selector> {
    scraper::Selector::parse(sel).ok()
}

/// Relies on scraper::Html::select: the document's elements matching the
/// selector, in document order.
#[verifier::external_body]
pub fn select_all<'a>(
    doc: &'a scraper::Html,
    sel: &scraper::Selector,
) -> Vec<scraper::ElementRef<'a>> {
    doc.select(sel).collect()
}

/// Relies on scraper::ElementRef::select: the element's descendant
/// elements matching the selector, in document order.
#[verifier::external_body]
pub fn select_in<'a>(
    el: &scraper::ElementRef<'a>,
    sel: &scraper::Selector,
) -> Vec<scraper::ElementRef<'a>> {
    el.select(sel).collect()
}

/// Relies on scraper::ElementRef::attr: the element's attribute value, if
/// the attribute is present.
#[verifier::external_body]
pub fn elem_attr(el: &scraper::ElementRef<'_>, name: &str) -> Option<String> {
    el.attr(name).map(str::to_owned)
}

/// Relies on scraper::ElementRef::text: the element's text nodes, in
/// traversal order.
#[verifier::external_body]
pub fn elem_texts(el: &scraper::ElementRef<'_>) -> Vec<String> {
    el.text().map(str::to_owned).collect()
}

} // verus!
