//! The trusted boundary to the `scraper` crate: declarations of its
//! document, selector and element types, and one thin wrapper per call the
//! extractors make.  Verus believes the contracts stated on the wrappers;
//! each doc comment names the outside function relied on.  The results are
//! opaque handles or unconstrained strings: everything the extractors
//! conclude about them is proved downstream, in functions that take these
//! results as plain values.

use vstd::prelude::*;
use crate::helper_tags::ATag;

verus! {

#[verifier::external_type_specification]
#[verifier::external_body]
pub struct ExHtml(scraper::Html);

#[verifier::external_type_specification]
#[verifier::external_body]
pub struct ExSelector(scraper::Selector);

#[verifier::external_type_specification]
#[verifier::external_body]
pub struct ExElementRef<'a>(scraper::ElementRef<'a>);

/// Rejection of a selector string that does not follow the CSS selector
/// grammar.  This is a programmer error: the selectors the extractors use
/// are fixed literals, compiled before any row is read.
pub struct InvalidSelectorError;

/// Relies on scraper::Selector::parse: compiles a CSS selector group,
/// failing exactly on text that the selector grammar refuses.
#[verifier::external_body]
pub fn get_selector(selector: &str) -> (r: Result<scraper::Selector, InvalidSelectorError>) {
    match scraper::Selector::parse(selector) {
        Ok(s) => Ok(s),
        Err(_) => Err(InvalidSelectorError),
    }
}

/// Relies on scraper::Html::select: the descendants of the document that
/// match the selector, in document order.
#[verifier::external_body]
pub fn doc_select_all<'a>(doc: &'a scraper::Html, sel: &scraper::Selector) -> (r: Vec<
    scraper::ElementRef<'a>,
>) {
    doc.select(sel).collect()
}

/// Relies on scraper::ElementRef::select: the descendants of the element
/// that match the selector, in document order.
#[verifier::external_body]
pub fn elem_select_all<'a>(el: &scraper::ElementRef<'a>, sel: &scraper::Selector) -> (r: Vec<
    scraper::ElementRef<'a>,
>) {
    el.select(sel).collect()
}

/// Relies on scraper::ElementRef::select: the first matching descendant of
/// the element in document order, or `None` when nothing matches.
#[verifier::external_body]
pub fn elem_select_first<'a>(el: &scraper::ElementRef<'a>, sel: &scraper::Selector) -> (r: Option<
    scraper::ElementRef<'a>,
>) {
    el.select(sel).next()
}

/// Relies on scraper::ElementRef::attr: the value of the named attribute,
/// or `None` when the element does not carry it.
#[verifier::external_body]
pub fn elem_attr(el: &scraper::ElementRef<'_>, name: &str) -> (r: Option<String>) {
    match el.attr(name) {
        Some(v) => Some(v.to_owned()),
        None => None,
    }
}

/// Relies on scraper::ElementRef::inner_html: the element's inner markup,
/// verbatim.
#[verifier::external_body]
pub fn elem_inner_html(el: &scraper::ElementRef<'_>) -> (r: String) {
    el.inner_html()
}

/// Relies on scraper::ElementRef::text: the element's descendant text
/// nodes, in document order, untrimmed.
#[verifier::external_body]
pub fn elem_texts(el: &scraper::ElementRef<'_>) -> (r: Vec<String>) {
    el.text().map(str::to_owned).collect()
}

/// Reads an anchor element into an `ATag`.  The element must carry an
/// `href` attribute — its absence means "this is not really a link" and
/// yields `None`, which is distinct from a link with empty text.  The
/// display text is the element's inner markup, kept verbatim.
pub(crate) fn parse_a_tag(el: &scraper::ElementRef<'_>) -> Option<ATag> {
    match elem_attr(el, "href") {
        Some(link) => Some(ATag::new(elem_inner_html(el), link)),
        None => None,
    }
}

/// The anchors below `el` that matched `sel` and carry an `href`, in
/// document order.
pub(crate) fn collect_a_tags(el: &scraper::ElementRef<'_>, sel: &scraper::Selector) -> Vec<ATag> {
    let els = elem_select_all(el, sel);
    let mut out: Vec<ATag> = Vec::new();
    let mut i: usize = 0;
    while i < els.len()
        decreases els.len() - i,
    {
        match parse_a_tag(&els[i]) {
            Some(a) => out.push(a),
            None => (),
        }
        i = i + 1;
    }
    out
}

} // verus!
