use vstd::prelude::*;

use crate::dom::css_select_attrs;
use crate::dom::css_select_texts;
use crate::dom::selected_attrs;
use crate::dom::selected_texts;
use crate::dom::selector_ok;
use crate::extract::attr_result;
use crate::extract::extract_attr;
use crate::extract::extract_text;
use crate::extract::text_result;
use crate::extract::ExtractError;
use crate::text::trim_str;
use crate::text::trimmed;

verus! {

/// One company detail page's worth of data. Immutable once assembled.
#[derive(Debug, Clone)]
pub struct CompanyRecord {
    pub name: String,
    pub description: String,
    pub logo_url: String,
}

/// One pitch detail page's worth of data. Immutable once assembled;
/// `hashtags` may be empty.
#[derive(Debug, Clone)]
pub struct PitchRecord {
    pub name: String,
    pub hashtags: Vec<String>,
}

/// The attribute values of the index page's detail links: the `href` of each
/// anchor that is the direct child of a table cell, in document order.
pub open spec fn discovered(html: Seq<char>) -> Seq<Option<Seq<char>>> {
    selected_attrs(html, "td > a"@, "href"@)
}

/// Whether every discovered anchor carries an `href` attribute.
pub open spec fn all_links_present(ls: Seq<Option<Seq<char>>>) -> bool {
    forall|i: int| 0 <= i < ls.len() ==> ls[i] is Some
}

/// What link discovery comes to: every discovered `href`, in document order;
/// an anchor without an `href` fails the whole step.
pub open spec fn links_result(html: Seq<char>) -> Result<Seq<Seq<char>>, ExtractError> {
    if !selector_ok("td > a"@) {
        Err(ExtractError::InvalidSelector)
    } else if !all_links_present(discovered(html)) {
        Err(ExtractError::NotFound)
    } else {
        Ok(Seq::new(discovered(html).len(), |i: int| discovered(html)[i]->0))
    }
}

/// What assembling a company record comes to: the trimmed name and
/// description texts and the verbatim logo `src`, the first failure of the
/// three required extractions otherwise.
pub open spec fn company_assembly(html: Seq<char>) -> Result<
    (Seq<char>, Seq<char>, Seq<char>),
    ExtractError,
> {
    match text_result(html, ".company_name"@) {
        Err(e) => Err(e),
        Ok(name) => match text_result(html, ".investor_notes"@) {
            Err(e) => Err(e),
            Ok(description) => match attr_result(html, ".company_logo > img"@, "src"@) {
                Err(e) => Err(e),
                Ok(logo_url) => Ok((name, description, logo_url)),
            },
        },
    }
}

/// What assembling a pitch record comes to: the trimmed name text and the
/// trimmed text of every anchor that is the direct child of a list item, in
/// document order; only the name is required.
pub open spec fn pitch_assembly(html: Seq<char>) -> Result<
    (Seq<char>, Seq<Seq<char>>),
    ExtractError,
> {
    match text_result(html, ".pitch_name > a"@) {
        Err(e) => Err(e),
        Ok(name) => if !selector_ok("li > a"@) {
            Err(ExtractError::InvalidSelector)
        } else {
            Ok((name, selected_texts(html, "li > a"@).map_values(|t: Seq<char>| trimmed(t))))
        },
    }
}

/// The `href` of every anchor that is the direct child of a table cell on
/// the index page, in document order; an anchor without an `href` fails the
/// whole discovery.
pub fn discover_links(html: &str) -> (r: Result<Vec<String>, ExtractError>)
    ensures
        r is Ok <==> links_result(html@) is Ok,
        r matches Ok(v) ==> links_result(html@) == Ok::<Seq<Seq<char>>, ExtractError>(v.deep_view()),
        r matches Err(e) ==> links_result(html@) == Err::<Seq<Seq<char>>, ExtractError>(e),
{
    proof {
        reveal_strlit("td > a");
        reveal_strlit("href");
    }
    match css_select_attrs(html, "td > a", "href") {
        None => Err(ExtractError::InvalidSelector),
        Some(attrs) => {
            let ghost ds = discovered(html@);
            let mut out: Vec<String> = Vec::new();
            let mut k: usize = 0;
            while k < attrs.len()
                invariant
                    k <= attrs@.len(),
                    selector_ok("td > a"@),
                    ds == discovered(html@),
                    attrs.deep_view() == ds,
                    attrs@.len() == ds.len(),
                    out@.len() == k,
                    forall|i: int| 0 <= i < k ==> ds[i] is Some,
                    forall|i: int| 0 <= i < k ==> #[trigger] out@[i]@ == ds[i]->0,
                decreases attrs@.len() - k,
            {
                proof {
                    assert(attrs.deep_view()[k as int] == attrs@[k as int].deep_view());
                }
                match &attrs[k] {
                    None => {
                        proof {
                            assert(attrs@[k as int] is None);
                            assert(ds[k as int] is None);
                            assert(!all_links_present(ds));
                        }
                        return Err(ExtractError::NotFound);
                    },
                    Some(link) => {
                        out.push(link.clone());
                    },
                }
                k += 1;
            }
            proof {
                let expected = Seq::new(ds.len(), |i: int| ds[i]->0);
                assert(out.deep_view() =~= expected);
            }
            Ok(out)
        },
    }
}

/// Assembles a company record from one detail page: the trimmed text of the
/// first `.company_name` and `.investor_notes` matches and the verbatim
/// `src` of the first `.company_logo > img` match. All three are required;
/// the first missing one aborts the assembly.
pub fn assemble_company(html: &str) -> (r: Result<CompanyRecord, ExtractError>)
    ensures
        r is Ok <==> company_assembly(html@) is Ok,
        r matches Ok(c) ==> company_assembly(html@) == Ok::<_, ExtractError>(
            (c.name@, c.description@, c.logo_url@),
        ),
        r matches Err(e) ==> company_assembly(html@) == Err::<(Seq<char>, Seq<char>, Seq<char>), ExtractError>(
            e,
        ),
{
    let name = match extract_text(html, ".company_name") {
        Err(e) => {
            return Err(e);
        },
        Ok(t) => t,
    };
    let description = match extract_text(html, ".investor_notes") {
        Err(e) => {
            return Err(e);
        },
        Ok(t) => t,
    };
    let logo_url = match extract_attr(html, ".company_logo > img", "src") {
        Err(e) => {
            return Err(e);
        },
        Ok(t) => t,
    };
    Ok(CompanyRecord { name, description, logo_url })
}

/// Assembles a pitch record from one detail page: the trimmed text of the
/// first `.pitch_name > a` match, and the trimmed text of every `li > a`
/// match in document order — zero hashtags is a valid outcome, not an error.
pub fn assemble_pitch(html: &str) -> (r: Result<PitchRecord, ExtractError>)
    ensures
        r is Ok <==> pitch_assembly(html@) is Ok,
        r matches Ok(p) ==> pitch_assembly(html@) == Ok::<_, ExtractError>(
            (p.name@, p.hashtags.deep_view()),
        ),
        r matches Err(e) ==> pitch_assembly(html@) == Err::<(Seq<char>, Seq<Seq<char>>), ExtractError>(
            e,
        ),
{
    let name = match extract_text(html, ".pitch_name > a") {
        Err(e) => {
            return Err(e);
        },
        Ok(t) => t,
    };
    let raw = match css_select_texts(html, "li > a") {
        None => {
            return Err(ExtractError::InvalidSelector);
        },
        Some(v) => v,
    };
    let ghost ts = selected_texts(html@, "li > a"@);
    let mut hashtags: Vec<String> = Vec::new();
    let mut k: usize = 0;
    while k < raw.len()
        invariant
            k <= raw@.len(),
            raw.deep_view() == ts,
            hashtags@.len() == k,
            forall|i: int| 0 <= i < k ==> #[trigger] hashtags@[i]@ == trimmed(ts[i]),
        decreases raw@.len() - k,
    {
        proof {
            assert(raw.deep_view()[k as int] == raw@[k as int]@);
        }
        hashtags.push(trim_str(raw[k].as_str()));
        k += 1;
    }
    proof {
        assert(hashtags.deep_view() =~= ts.map_values(|t: Seq<char>| trimmed(t)));
    }
    Ok(PitchRecord { name, hashtags })
}

/// Law: on detail-page HTML where the three required company selectors each
/// match at least one element and the first logo image carries a `src`,
/// assembly succeeds, and the record holds exactly the trimmed name text,
/// the trimmed description text and the verbatim `src` value.
pub proof fn lemma_company_assembly_complete(html: Seq<char>)
    requires
        selector_ok(".company_name"@),
        selector_ok(".investor_notes"@),
        selector_ok(".company_logo > img"@),
        selected_texts(html, ".company_name"@).len() > 0,
        selected_texts(html, ".investor_notes"@).len() > 0,
        selected_attrs(html, ".company_logo > img"@, "src"@).len() > 0,
        selected_attrs(html, ".company_logo > img"@, "src"@)[0] is Some,
    ensures
        company_assembly(html) == Ok::<_, ExtractError>(
            (
                trimmed(selected_texts(html, ".company_name"@)[0]),
                trimmed(selected_texts(html, ".investor_notes"@)[0]),
                selected_attrs(html, ".company_logo > img"@, "src"@)[0]->0,
            ),
        ),
{
}

/// Law: on detail-page HTML whose pitch name is present, assembly succeeds
/// and the hashtag list has exactly one entry per `li > a` match, in
/// document order, each the trimmed text of its anchor; with zero matches it
/// is empty.
pub proof fn lemma_pitch_hashtags(html: Seq<char>)
    requires
        selector_ok(".pitch_name > a"@),
        selector_ok("li > a"@),
        selected_texts(html, ".pitch_name > a"@).len() > 0,
    ensures
        pitch_assembly(html) matches Ok(p) && {
            &&& p.0 == trimmed(selected_texts(html, ".pitch_name > a"@)[0])
            &&& p.1.len() == selected_texts(html, "li > a"@).len()
            &&& forall|i: int|
                0 <= i < p.1.len() ==> p.1[i] == trimmed(selected_texts(html, "li > a"@)[i])
        },
        selected_texts(html, "li > a"@).len() == 0 ==> (pitch_assembly(html) matches Ok(p)
            && p.1.len() == 0),
{
}

/// Law: on index-page HTML with N anchors nested directly in table cells,
/// each carrying an `href`, discovery yields exactly N links, in document
/// order, each the verbatim `href`; with zero such anchors it yields the
/// empty sequence.
pub proof fn lemma_links_count(html: Seq<char>)
    requires
        selector_ok("td > a"@),
        forall|i: int| 0 <= i < discovered(html).len() ==> discovered(html)[i] is Some,
    ensures
        links_result(html) matches Ok(ls) && {
            &&& ls.len() == discovered(html).len()
            &&& forall|i: int| 0 <= i < ls.len() ==> ls[i] == discovered(html)[i]->0
        },
        discovered(html).len() == 0 ==> (links_result(html) matches Ok(ls) && ls.len() == 0),
{
}

} // verus!
