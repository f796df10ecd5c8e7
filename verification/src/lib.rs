use vstd::prelude::*;

pub mod dom;
pub mod extract;
pub mod json;
pub mod parse;
pub mod pipeline;
pub mod records;
pub mod text;

verus! {

/// The fixed base against which every discovered relative path is resolved.
pub open spec fn base_url() -> Seq<char> {
    "http://pitchdeck.business"@
}

} // verus!
