use vstd::prelude::*;

verus! {

// The selector queries that the extractors run are scraper's work: parsing a
// document and matching a CSS selector against it are deterministic functions
// of the two strings involved, so their outcomes are given names here and the
// wrappers below promise exactly those outcomes.

/// Whether `scraper::Selector::parse` accepts the selector string.
pub uninterp spec fn selector_ok(selector: Seq<char>) -> bool;

/// The concatenated descendant text of each element of the document parsed
/// from `html` that matches `selector`, in document order.
pub uninterp spec fn selected_texts(html: Seq<char>, selector: Seq<char>) -> Seq<Seq<char>>;

/// The value of the attribute named `attr` (`None` where the element does not
/// carry it) on each element of the document parsed from `html` that matches
/// `selector`, in document order.
pub uninterp spec fn selected_attrs(html: Seq<char>, selector: Seq<char>, attr: Seq<char>) -> Seq<
    Option<Seq<char>>,
>;

/// Relies on scraper 0.27: `Selector::parse` (which succeeds or fails on the
/// selector string alone), `Html::parse_document`, `Html::select` and
/// `ElementRef::text`; the selected elements come in document order and
/// `text()` yields the descendant text nodes of one element in order.
#[verifier::external_body]
pub(crate) fn css_select_texts(html: &str, selector: &str) -> (r: Option<Vec<String>>)
    ensures
        r is Some <==> selector_ok(selector@),
        r matches Some(v) ==> v.deep_view() == selected_texts(html@, selector@) && v@.len()
            == selected_texts(html@, selector@).len(),
{
    let sel = match scraper::Selector::parse(selector) {
        Ok(sel) => sel,
        Err(_) => return None,
    };
    let doc = scraper::Html::parse_document(html);
    let mut out: Vec<String> = Vec::new();
    for element in doc.select(&sel) {
        out.push(element.text().collect());
    }
    Some(out)
}

/// Relies on scraper 0.27: `Selector::parse`, `Html::parse_document`,
/// `Html::select` and `ElementRef::attr`, which returns the attribute's value
/// verbatim, or `None` where the element does not carry the attribute.
#[verifier::external_body]
pub(crate) fn css_select_attrs(html: &str, selector: &str, attr: &str) -> (r: Option<
    Vec<Option<String>>,
>)
    ensures
        r is Some <==> selector_ok(selector@),
        r matches Some(v) ==> v.deep_view() == selected_attrs(html@, selector@, attr@) && v@.len()
            == selected_attrs(html@, selector@, attr@).len(),
{
    let sel = match scraper::Selector::parse(selector) {
        Ok(sel) => sel,
        Err(_) => return None,
    };
    let doc = scraper::Html::parse_document(html);
    let mut out: Vec<Option<String>> = Vec::new();
    for element in doc.select(&sel) {
        out.push(element.attr(attr).map(|a| a.to_string()));
    }
    Some(out)
}

/// Relies on `str::chars` and `Iterator::collect`: the characters of the
/// string, in order.
#[verifier::external_body]
pub(crate) fn str_to_chars(s: &str) -> (r: Vec<char>)
    ensures
        r@ == s@,
{
    s.chars().collect()
}

/// Relies on `String::from_iter` over characters: the string made of exactly
/// these characters, in order.
#[verifier::external_body]
pub(crate) fn chars_to_string(v: &Vec<char>) -> (r: String)
    ensures
        r@ == v@,
{
    v.iter().collect()
}

} // verus!
