use vstd::prelude::*;

use crate::base_url;
use crate::json::companies_json;
use crate::json::companies_to_json;
use crate::json::pitches_json;
use crate::json::pitches_to_json;
use crate::records::assemble_company;
use crate::records::assemble_pitch;
use crate::records::company_assembly;
use crate::records::discover_links;
use crate::records::links_result;
use crate::records::pitch_assembly;
use crate::records::CompanyRecord;
use crate::records::PitchRecord;

verus! {

/// Which of the two extraction pipelines a run drives.
#[derive(Debug, Clone, Copy, PartialEq, Eq, Structural)]
pub enum Operation {
    Companies,
    Pitches,
}

/// Where the driver stands: before the index fetch, awaiting the detail page
/// at position `next`, or in a terminal state.
pub enum Step {
    FetchIndex,
    FetchDetail { links: Vec<String>, next: usize },
    Finished,
    Aborted,
}

/// The driver's whole state. Records accumulate in the vector that matches
/// the operation; the other stays empty.
pub struct Pipeline {
    pub op: Operation,
    pub step: Step,
    pub companies: Vec<CompanyRecord>,
    pub pitches: Vec<PitchRecord>,
}

/// What the driver asks its caller to do next: issue a blocking GET, write
/// the finished export to a file, or stop without writing anything.
pub enum Action {
    Fetch(String),
    Export { path: String, contents: String },
    Abort,
}

/// What the caller reports back about the last fetch.
pub enum Event {
    Body(String),
    Failed,
}

/// The absolute URL of a discovered relative path.
pub open spec fn detail_url(path: Seq<char>) -> Seq<char> {
    base_url() + path
}

/// The fixed index URL each pipeline starts from.
pub open spec fn index_url(op: Operation) -> Seq<char> {
    match op {
        Operation::Companies => "http://pitchdeck.business/pitch_cards/mindfulness"@,
        Operation::Pitches => "http://pitchdeck.business/company_cards/netflix"@,
    }
}

/// The fixed file each pipeline exports to.
pub open spec fn output_path(op: Operation) -> Seq<char> {
    match op {
        Operation::Companies => "companies.json"@,
        Operation::Pitches => "pitches.json"@,
    }
}

/// The finished export: the records collected so far, as JSON.
pub open spec fn export_json(p: Pipeline) -> Seq<char> {
    match p.op {
        Operation::Companies => companies_json(p.companies@),
        Operation::Pitches => pitches_json(p.pitches@),
    }
}

/// The driver's invariant: an outstanding detail fetch points inside the
/// link list, nothing accumulates before link discovery, and only the
/// vector of the chosen operation is ever filled.
pub open spec fn wf(p: Pipeline) -> bool {
    &&& (p.step matches Step::FetchDetail { links, next } ==> next < links@.len())
    &&& (p.step is FetchIndex ==> p.companies@.len() == 0 && p.pitches@.len() == 0)
    &&& (p.op is Companies ==> p.pitches@.len() == 0)
    &&& (p.op is Pitches ==> p.companies@.len() == 0)
}

/// Rejection of anything but the two recognized commands.
#[derive(Debug, Clone, Copy, PartialEq, Eq, Structural)]
pub enum ConfigError {
    UnknownCommand,
}

/// The operation a command selects: only the two named commands are valid,
/// and anything else is rejected explicitly rather than ignored.
pub fn parse_operation(cmd: &str) -> (r: Result<Operation, ConfigError>)
    ensures
        cmd@ == "companies"@ ==> r == Ok::<Operation, ConfigError>(Operation::Companies),
        cmd@ == "pitches"@ ==> r == Ok::<Operation, ConfigError>(Operation::Pitches),
        cmd@ != "companies"@ && cmd@ != "pitches"@ ==> r == Err::<Operation, ConfigError>(
            ConfigError::UnknownCommand,
        ),
{
    proof {
        reveal_strlit("companies");
        reveal_strlit("pitches");
        assert("companies"@.len() != "pitches"@.len());
    }
    if str_eq(cmd, "companies") {
        Ok(Operation::Companies)
    } else if str_eq(cmd, "pitches") {
        Ok(Operation::Pitches)
    } else {
        Err(ConfigError::UnknownCommand)
    }
}

/// Character-by-character string comparison.
fn str_eq(a: &str, b: &str) -> (r: bool)
    ensures
        r == (a@ == b@),
{
    let n = a.unicode_len();
    let m = b.unicode_len();
    if n != m {
        return false;
    }
    let mut i: usize = 0;
    while i < n
        invariant
            i <= n,
            n == a@.len(),
            n == b@.len(),
            forall|k: int| 0 <= k < i ==> a@[k] == b@[k],
        decreases n - i,
    {
        if a.get_char(i) != b.get_char(i) {
            return false;
        }
        i += 1;
    }
    proof {
        assert(a@ =~= b@);
    }
    true
}

/// The absolute fetch target for a relative detail path: the fixed base with
/// the path appended verbatim, no normalization.
pub fn make_url(path: &str) -> (r: String)
    ensures
        r@ == detail_url(path@),
{
    let mut url = String::from_str("http://pitchdeck.business");
    url.append(path);
    url
}

/// Starts a run: an empty state awaiting the operation's fixed index page.
pub fn start(op: Operation) -> (r: (Pipeline, Action))
    ensures
        wf(r.0),
        r.0.op == op,
        r.0.step is FetchIndex,
        r.0.companies@.len() == 0,
        r.0.pitches@.len() == 0,
        r.1 matches Action::Fetch(u) && u@ == index_url(op),
{
    let url = match op {
        Operation::Companies => String::from_str(
            "http://pitchdeck.business/pitch_cards/mindfulness",
        ),
        Operation::Pitches => String::from_str("http://pitchdeck.business/company_cards/netflix"),
    };
    let p = Pipeline { op, step: Step::FetchIndex, companies: Vec::new(), pitches: Vec::new() };
    (p, Action::Fetch(url))
}

/// Advances the run by one event. A failed fetch, a failed link discovery or
/// a failed assembly aborts the whole run with nothing written; otherwise
/// the driver asks for the next detail page in link order, and after the
/// last one asks for the export of everything collected, in order, to the
/// operation's fixed file.
pub fn on_event(p: Pipeline, ev: Event) -> (r: (Pipeline, Action))
    requires
        wf(p),
        p.step is FetchIndex || p.step matches Step::FetchDetail { .. },
    ensures
        wf(r.0),
        r.0.op == p.op,
        ev is Failed ==> r.0.step is Aborted && r.1 is Abort,
        p.step is FetchIndex ==> (ev matches Event::Body(h) ==> {
            &&& (links_result(h@) is Err ==> r.0.step is Aborted && r.1 is Abort)
            &&& (links_result(h@) matches Ok(ls) ==> (if ls.len() == 0 {
                &&& r.0.step is Finished
                &&& r.0.companies@ =~= p.companies@
                &&& r.0.pitches@ =~= p.pitches@
                &&& (r.1 matches Action::Export { path, contents } && path@ == output_path(p.op)
                    && contents@ == export_json(r.0))
            } else {
                &&& (r.0.step matches Step::FetchDetail { links, next } && links.deep_view() == ls
                    && next == 0)
                &&& r.0.companies@ =~= p.companies@
                &&& r.0.pitches@ =~= p.pitches@
                &&& (r.1 matches Action::Fetch(u) && u@ == detail_url(ls[0]))
            }))
        }),
        p.step matches Step::FetchDetail { links, next } ==> (ev matches Event::Body(h) ==> {
            &&& (p.op is Companies ==> {
                &&& (company_assembly(h@) is Err ==> r.0.step is Aborted && r.1 is Abort)
                &&& (company_assembly(h@) matches Ok(f) ==> {
                    &&& r.0.companies@.len() == p.companies@.len() + 1
                    &&& r.0.companies@.subrange(0, p.companies@.len() as int) =~= p.companies@
                    &&& r.0.companies@.last().name@ == f.0
                    &&& r.0.companies@.last().description@ == f.1
                    &&& r.0.companies@.last().logo_url@ == f.2
                    &&& (if next + 1 < links@.len() {
                        &&& (r.0.step matches Step::FetchDetail { links: l2, next: n2 }
                            && l2.deep_view() == links.deep_view() && n2 == next + 1)
                        &&& (r.1 matches Action::Fetch(u) && u@ == detail_url(
                            links@[next + 1]@,
                        ))
                    } else {
                        &&& r.0.step is Finished
                        &&& (r.1 matches Action::Export { path, contents } && path@
                            == output_path(p.op) && contents@ == companies_json(r.0.companies@))
                    })
                })
            })
            &&& (p.op is Pitches ==> {
                &&& (pitch_assembly(h@) is Err ==> r.0.step is Aborted && r.1 is Abort)
                &&& (pitch_assembly(h@) matches Ok(f) ==> {
                    &&& r.0.pitches@.len() == p.pitches@.len() + 1
                    &&& r.0.pitches@.subrange(0, p.pitches@.len() as int) =~= p.pitches@
                    &&& r.0.pitches@.last().name@ == f.0
                    &&& r.0.pitches@.last().hashtags.deep_view() == f.1
                    &&& (if next + 1 < links@.len() {
                        &&& (r.0.step matches Step::FetchDetail { links: l2, next: n2 }
                            && l2.deep_view() == links.deep_view() && n2 == next + 1)
                        &&& (r.1 matches Action::Fetch(u) && u@ == detail_url(
                            links@[next + 1]@,
                        ))
                    } else {
                        &&& r.0.step is Finished
                        &&& (r.1 matches Action::Export { path, contents } && path@
                            == output_path(p.op) && contents@ == pitches_json(r.0.pitches@))
                    })
                })
            })
        }),
{
    let Pipeline { op, step, companies, pitches } = p;
    match step {
        Step::FetchIndex => {
            match ev {
                Event::Failed => (
                    Pipeline { op, step: Step::Aborted, companies, pitches },
                    Action::Abort,
                ),
                Event::Body(h) => {
                    match discover_links(h.as_str()) {
                        Err(_) => (
                            Pipeline { op, step: Step::Aborted, companies, pitches },
                            Action::Abort,
                        ),
                        Ok(links) => {
                            if links.len() == 0 {
                                let contents = match op {
                                    Operation::Companies => companies_to_json(&companies),
                                    Operation::Pitches => pitches_to_json(&pitches),
                                };
                                let path = match op {
                                    Operation::Companies => String::from_str("companies.json"),
                                    Operation::Pitches => String::from_str("pitches.json"),
                                };
                                (
                                    Pipeline { op, step: Step::Finished, companies, pitches },
                                    Action::Export { path, contents },
                                )
                            } else {
                                proof {
                                    assert(links.deep_view()[0] == links@[0]@);
                                }
                                let url = make_url(links[0].as_str());
                                (
                                    Pipeline {
                                        op,
                                        step: Step::FetchDetail { links, next: 0 },
                                        companies,
                                        pitches,
                                    },
                                    Action::Fetch(url),
                                )
                            }
                        },
                    }
                },
            }
        },
        Step::FetchDetail { links, next } => {
            match ev {
                Event::Failed => (
                    Pipeline { op, step: Step::Aborted, companies, pitches },
                    Action::Abort,
                ),
                Event::Body(h) => {
                    match op {
                        Operation::Companies => {
                            match assemble_company(h.as_str()) {
                                Err(_) => (
                                    Pipeline { op, step: Step::Aborted, companies, pitches },
                                    Action::Abort,
                                ),
                                Ok(record) => {
                                    let mut companies = companies;
                                    companies.push(record);
                                    let total = links.len();
                                    let next2 = next + 1;
                                    if next2 < total {
                                        let url = make_url(links[next2].as_str());
                                        (
                                            Pipeline {
                                                op,
                                                step: Step::FetchDetail { links, next: next2 },
                                                companies,
                                                pitches,
                                            },
                                            Action::Fetch(url),
                                        )
                                    } else {
                                        let contents = companies_to_json(&companies);
                                        (
                                            Pipeline {
                                                op,
                                                step: Step::Finished,
                                                companies,
                                                pitches,
                                            },
                                            Action::Export {
                                                path: String::from_str("companies.json"),
                                                contents,
                                            },
                                        )
                                    }
                                },
                            }
                        },
                        Operation::Pitches => {
                            match assemble_pitch(h.as_str()) {
                                Err(_) => (
                                    Pipeline { op, step: Step::Aborted, companies, pitches },
                                    Action::Abort,
                                ),
                                Ok(record) => {
                                    let mut pitches = pitches;
                                    pitches.push(record);
                                    let total = links.len();
                                    let next2 = next + 1;
                                    if next2 < total {
                                        let url = make_url(links[next2].as_str());
                                        (
                                            Pipeline {
                                                op,
                                                step: Step::FetchDetail { links, next: next2 },
                                                companies,
                                                pitches,
                                            },
                                            Action::Fetch(url),
                                        )
                                    } else {
                                        let contents = pitches_to_json(&pitches);
                                        (
                                            Pipeline {
                                                op,
                                                step: Step::Finished,
                                                companies,
                                                pitches,
                                            },
                                            Action::Export {
                                                path: String::from_str("pitches.json"),
                                                contents,
                                            },
                                        )
                                    }
                                },
                            }
                        },
                    }
                },
            }
        },
        Step::Finished => {
            proof {
                assert(false);
            }
            (Pipeline { op, step: Step::Finished, companies, pitches }, Action::Abort)
        },
        Step::Aborted => {
            proof {
                assert(false);
            }
            (Pipeline { op, step: Step::Aborted, companies, pitches }, Action::Abort)
        },
    }
}

} // verus!
