use vstd::prelude::*;

use crate::dom::css_select_attrs;
use crate::dom::css_select_texts;
use crate::dom::selected_attrs;
use crate::dom::selected_texts;
use crate::dom::selector_ok;
use crate::text::trim_str;
use crate::text::trimmed;

verus! {

/// Why a required field could not be extracted: the selector string itself
/// was rejected, or the selector matched no element (or the matched element
/// lacked the requested attribute).
#[derive(Debug, Clone, Copy, PartialEq, Eq, Structural)]
pub enum ExtractError {
    InvalidSelector,
    NotFound,
}

/// What extracting the first matching element's text from a document comes
/// to: the trimmed concatenation of the element's descendant text nodes, an
/// error when nothing matches.
pub open spec fn text_result(html: Seq<char>, selector: Seq<char>) -> Result<
    Seq<char>,
    ExtractError,
> {
    if !selector_ok(selector) {
        Err(ExtractError::InvalidSelector)
    } else if selected_texts(html, selector).len() == 0 {
        Err(ExtractError::NotFound)
    } else {
        Ok(trimmed(selected_texts(html, selector)[0]))
    }
}

/// What extracting an attribute from the first matching element comes to:
/// the attribute's value verbatim, an error when nothing matches or the
/// matched element lacks the attribute.
pub open spec fn attr_result(html: Seq<char>, selector: Seq<char>, attr: Seq<char>) -> Result<
    Seq<char>,
    ExtractError,
> {
    if !selector_ok(selector) {
        Err(ExtractError::InvalidSelector)
    } else if selected_attrs(html, selector, attr).len() == 0 {
        Err(ExtractError::NotFound)
    } else if selected_attrs(html, selector, attr)[0] is None {
        Err(ExtractError::NotFound)
    } else {
        Ok(selected_attrs(html, selector, attr)[0]->0)
    }
}

/// The text of the first element of the document that the selector matches,
/// with leading and trailing whitespace removed; `NotFound` when the selector
/// matches no element. Further matches are silently ignored.
pub fn extract_text(html: &str, selector: &str) -> (r: Result<String, ExtractError>)
    ensures
        r is Ok <==> text_result(html@, selector@) is Ok,
        r matches Ok(t) ==> text_result(html@, selector@) == Ok::<Seq<char>, ExtractError>(t@),
        r matches Err(e) ==> text_result(html@, selector@) == Err::<Seq<char>, ExtractError>(e),
{
    match css_select_texts(html, selector) {
        None => Err(ExtractError::InvalidSelector),
        Some(texts) => {
            if texts.len() == 0 {
                Err(ExtractError::NotFound)
            } else {
                proof {
                    assert(texts.deep_view()[0] == texts@[0]@);
                }
                Ok(trim_str(texts[0].as_str()))
            }
        },
    }
}

/// The value, verbatim, of the named attribute on the first element of the
/// document that the selector matches; `NotFound` when the selector matches
/// no element or the first match does not carry the attribute.
pub fn extract_attr(html: &str, selector: &str, attr: &str) -> (r: Result<String, ExtractError>)
    ensures
        r is Ok <==> attr_result(html@, selector@, attr@) is Ok,
        r matches Ok(t) ==> attr_result(html@, selector@, attr@) == Ok::<Seq<char>, ExtractError>(
            t@,
        ),
        r matches Err(e) ==> attr_result(html@, selector@, attr@) == Err::<Seq<char>, ExtractError>(
            e,
        ),
{
    match css_select_attrs(html, selector, attr) {
        None => Err(ExtractError::InvalidSelector),
        Some(attrs) => {
            if attrs.len() == 0 {
                Err(ExtractError::NotFound)
            } else {
                proof {
                    assert(attrs.deep_view()[0] == attrs@[0].deep_view());
                }
                match &attrs[0] {
                    None => Err(ExtractError::NotFound),
                    Some(value) => Ok(value.clone()),
                }
            }
        },
    }
}

} // verus!
