//! The decisions of a run over the catalog: which profile page to fetch
//! next, and what a fetched detail changes. The caller fetches and waits.

use crate::detail::{apply_detail, code_of, market_name_of};
use crate::emitent::{emitent_views, Emitent, EmitentView};
use crate::transport::{profile_url, MARKETS_BASE_URI};
use crate::value::ParsedValue;
use vstd::prelude::*;
use vstd::string::StringExecFns;

verus! {

/// The seconds to wait after a detail was fetched.
pub const SLEEP_BETWEEN_REQUESTS: u64 = 3000;

/// The number of records whose detail is fetched in one run.
pub const DETAILS_PER_RUN: usize = 3;

/// What the caller does next.
#[derive(Debug, PartialEq, Eq)]
pub enum Step {
    /// Fetch the profile page at this address.
    Fetch(String),
    /// Nothing is left to fetch.
    Finish,
}

/// The address to fetch once `done` records have been handled: that of the
/// next record, or none where the run's share is done or the records are.
pub open spec fn address_after(records: Seq<EmitentView>, done: nat) -> Option<Seq<char>> {
    if done < records.len() && done < DETAILS_PER_RUN {
        Some(MARKETS_BASE_URI@ + "/"@ + records[done as int].uri)
    } else {
        None
    }
}

/// Decides the next step once `done` records have been handled.
pub fn next_step(records: &Vec<Emitent>, done: usize) -> (step: Step)
    ensures
        match step {
            Step::Fetch(url) => address_after(emitent_views(records@), done as nat) == Some(url@),
            Step::Finish => address_after(emitent_views(records@), done as nat) is None,
        },
{
    if done < records.len() && done < DETAILS_PER_RUN {
        Step::Fetch(profile_url(records[done].uri.as_str()))
    } else {
        Step::Finish
    }
}

/// Takes in what fetching a record's detail gave. A detail fills in the
/// record's trading code and market name, and the caller is told how many
/// seconds to wait before the next fetch. Without a detail the record stays
/// as it is, and the caller goes on at once.
pub fn after_fetch(record: &mut Emitent, fetched: Option<&ParsedValue>) -> (pause: Option<u64>)
    ensures
        match fetched {
            Some(info) => {
                &&& final(record)@ == (EmitentView {
                    code: code_of(info@),
                    market_name: market_name_of(info@),
                    ..old(record)@
                })
                &&& pause == Some(SLEEP_BETWEEN_REQUESTS)
            },
            None => final(record)@ == old(record)@ && pause is None,
        },
{
    match fetched {
        Some(info) => {
            apply_detail(record, info);
            Some(SLEEP_BETWEEN_REQUESTS)
        },
        None => None,
    }
}

/// The line that reports a detail that could not be fetched.
pub fn failure_line(message: &str) -> (line: String)
    ensures
        line@ == "Cannot get emitent data: "@ + message@,
{
    let mut line = "Cannot get emitent data: ".to_owned();
    line.append(message);
    line
}

} // verus!
