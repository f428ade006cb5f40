//! Reading tracker pages with the `scraper` crate.  A page is parsed once and
//! keeps the text it was parsed from; its elements are named by their index in
//! the parsed node tree.  What `scraper` gives for a selection, and the texts
//! and attributes of an element, are named by spec functions of the page's
//! text: the readers of pages state their results over these names.
use vstd::prelude::*;
use crate::parser::texts_view;

verus! {

/// A parsed HTML document.
#[verifier::external_type_specification]
#[verifier::external_body]
pub struct ExHtml(scraper::Html);

/// A compiled CSS selector.
#[verifier::external_type_specification]
#[verifier::external_body]
pub struct ExSelector(scraper::Selector);

/// A parsed page, with the text it was parsed from.
pub struct Page {
    doc: scraper::Html,
    text: String,
}

impl Page {
    /// The text the page was parsed from.
    pub closed spec fn body(&self) -> Seq<char> {
        self.text@
    }
}

/// A compiled CSS selector, with its text.
pub struct CssSelector {
    compiled: scraper::Selector,
    text: String,
}

impl CssSelector {
    /// The text the selector was compiled from.
    pub closed spec fn text(&self) -> Seq<char> {
        self.text@
    }
}

/// Whether `scraper::Selector::parse` accepts a selector text.
pub uninterp spec fn selector_parses(selector: Seq<char>) -> bool;

/// The elements of the page parsed from `body` that match `selector`, as
/// `scraper::Html::select` yields them (document order), each by its index in
/// the page's node tree.
pub uninterp spec fn document_matches(body: Seq<char>, selector: Seq<char>) -> Seq<usize>;

/// The descendants of element `element` of the page parsed from `body` that
/// match `selector`, as `scraper::ElementRef::select` yields them (document
/// order), each by its index; none when that index is no element.
pub uninterp spec fn descendant_matches(body: Seq<char>, element: usize, selector: Seq<char>) -> Seq<usize>;

/// The text nodes under element `element` of the page parsed from `body`, as
/// `scraper::ElementRef::text` yields them; none when that index is no element.
pub uninterp spec fn element_text(body: Seq<char>, element: usize) -> Seq<Seq<char>>;

/// The value of attribute `name` of element `element` of the page parsed from
/// `body`, as `scraper::ElementRef::attr` gives it; none when that index is no
/// element.
pub uninterp spec fn element_attribute(body: Seq<char>, element: usize, name: Seq<char>) -> Option<Seq<char>>;

/// Parses a page: calls `scraper::Html::parse_document`, which accepts any text,
/// and keeps the text.
#[verifier::external_body]
pub(crate) fn parse_page(body: &str) -> (p: Page)
    ensures
        p.body() == body@,
{
    Page { doc: scraper::Html::parse_document(body), text: body.to_string() }
}

/// Compiles a CSS selector: calls `scraper::Selector::parse`; the error is the
/// parser's message.
#[verifier::external_body]
pub(crate) fn compile_selector(selector: &str) -> (r: Result<CssSelector, String>)
    ensures
        r is Ok <==> selector_parses(selector@),
        r is Ok ==> r->Ok_0.text() == selector@,
{
    match scraper::Selector::parse(selector) {
        Ok(compiled) => Ok(CssSelector { compiled, text: selector.to_string() }),
        Err(e) => Err(e.to_string()),
    }
}

/// Calls `scraper::Html::select` on the page; each element is given by its
/// position in the page's node tree (`ego_tree`'s insertion order).
#[verifier::external_body]
pub(crate) fn select_document(page: &Page, selector: &CssSelector) -> (r: Vec<usize>)
    ensures
        r@ == document_matches(page.body(), selector.text()),
{
    let tree = &page.doc.tree;
    page.doc
        .select(&selector.compiled)
        .map(|e| tree.nodes().position(|n| n.id() == e.id()).unwrap_or(0))
        .collect()
}

/// Calls `scraper::ElementRef::select` on the element at `element` in the
/// page's node tree; a node that is no element has no descendants here.
#[verifier::external_body]
pub(crate) fn select_descendants(page: &Page, element: usize, selector: &CssSelector) -> (r: Vec<usize>)
    ensures
        r@ == descendant_matches(page.body(), element, selector.text()),
{
    let tree = &page.doc.tree;
    match tree.nodes().nth(element).and_then(scraper::ElementRef::wrap) {
        Some(el) => el
            .select(&selector.compiled)
            .map(|e| tree.nodes().position(|n| n.id() == e.id()).unwrap_or(0))
            .collect(),
        None => Vec::new(),
    }
}

/// Calls `scraper::ElementRef::text` on the element at `element` in the page's
/// node tree.
#[verifier::external_body]
pub(crate) fn text_of(page: &Page, element: usize) -> (r: Vec<String>)
    ensures
        texts_view(r@) == element_text(page.body(), element),
{
    match page.doc.tree.nodes().nth(element).and_then(scraper::ElementRef::wrap) {
        Some(el) => el.text().map(|t| t.to_string()).collect(),
        None => Vec::new(),
    }
}

/// Calls `scraper::ElementRef::attr` on the element at `element` in the page's
/// node tree.
#[verifier::external_body]
pub(crate) fn attribute_of(page: &Page, element: usize, name: &str) -> (r: Option<String>)
    ensures
        opt_string_view(r) == element_attribute(page.body(), element, name@),
{
    match page.doc.tree.nodes().nth(element).and_then(scraper::ElementRef::wrap) {
        Some(el) => el.attr(name).map(|v| v.to_string()),
        None => None,
    }
}

/// The view of an optional string.
pub open spec fn opt_string_view(o: Option<String>) -> Option<Seq<char>> {
    match o {
        Some(s) => Some(s@),
        None => None,
    }
}

/// The first of some elements, if any.
pub open spec fn first_of(s: Seq<usize>) -> Option<usize> {
    if s.len() > 0 {
        Some(s[0])
    } else {
        None
    }
}

/// The first element of the page that matches `selector`; an error when the
/// selector does not compile.
pub fn first_in_page(page: &Page, selector: &str) -> (r: Result<Option<usize>, String>)
    ensures
        r is Ok <==> selector_parses(selector@),
        r is Ok ==> r->Ok_0 == first_of(document_matches(page.body(), selector@)),
{
    let sel = compile_selector(selector)?;
    let found = select_document(page, &sel);
    if found.len() == 0 {
        Ok(None)
    } else {
        Ok(Some(found[0]))
    }
}

/// The first descendant of `element` that matches `selector`; an error when the
/// selector does not compile.
pub fn first_under(page: &Page, element: usize, selector: &str) -> (r: Result<Option<usize>, String>)
    ensures
        r is Ok <==> selector_parses(selector@),
        r is Ok ==> r->Ok_0 == first_of(descendant_matches(page.body(), element, selector@)),
{
    let sel = compile_selector(selector)?;
    let found = select_descendants(page, element, &sel);
    if found.len() == 0 {
        Ok(None)
    } else {
        Ok(Some(found[0]))
    }
}

} // verus!
