//! The literal extractor: finds the regions of a document that a pattern
//! marks, and parses what the pattern's capture groups hold.

use crate::literal::{parse_documents, parsed_documents};
use crate::pattern::{pattern_accepted, regex_captures, Pattern};
use crate::value::{views, ParsedValue, ValueView};
use vstd::prelude::*;

verus! {

/// The populated capture groups of one match, in group order. Group 0 is
/// the whole match and is no capture; a group that took no part in the match
/// is left out.
pub open spec fn populated(groups: Seq<Option<Seq<char>>>) -> Seq<Seq<char>>
    decreases groups.len(),
{
    if groups.len() <= 1 {
        Seq::empty()
    } else {
        match groups.last() {
            Some(text) => populated(groups.drop_last()).push(text),
            None => populated(groups.drop_last()),
        }
    }
}

/// The populated capture groups of a run of matches, in match order.
pub open spec fn populated_groups(matches: Seq<Seq<Option<Seq<char>>>>) -> Seq<Seq<char>>
    decreases matches.len(),
{
    if matches.len() == 0 {
        Seq::empty()
    } else {
        populated_groups(matches.drop_last()) + populated(matches.last())
    }
}

/// What parsing one captured text contributes: its documents, or nothing
/// where the text is not well formed or nests beyond the limit.
pub open spec fn documents_in(text: Seq<char>) -> Seq<ValueView> {
    match parsed_documents(text) {
        Some(documents) => documents,
        None => Seq::empty(),
    }
}

/// The documents of a run of captured texts, concatenated in order. A text
/// that is not well formed contributes nothing.
pub open spec fn documents_of(texts: Seq<Seq<char>>) -> Seq<ValueView>
    decreases texts.len(),
{
    if texts.len() == 0 {
        Seq::empty()
    } else {
        documents_of(texts.drop_last()) + documents_in(texts.last())
    }
}

/// The numbers of the captured texts that do not parse, in order.
pub open spec fn skipped_of(texts: Seq<Seq<char>>) -> Seq<usize>
    decreases texts.len(),
{
    if texts.len() == 0 {
        Seq::empty()
    } else if parsed_documents(texts.last()) is None {
        skipped_of(texts.drop_last()).push((texts.len() - 1) as usize)
    } else {
        skipped_of(texts.drop_last())
    }
}

/// The numbers of the populated captures that extraction with `pattern`
/// skips on `text`.
pub open spec fn skipped(pattern: Seq<char>, text: Seq<char>) -> Seq<usize> {
    skipped_of(populated_groups(regex_captures(pattern, text)))
}

/// What extraction with `pattern` yields on `text`: the documents of every
/// populated capture group of every match, in match order.
pub open spec fn extracted(pattern: Seq<char>, text: Seq<char>) -> Seq<ValueView> {
    documents_of(populated_groups(regex_captures(pattern, text)))
}

/// Collects the populated capture groups of `matches`.
pub fn collect_populated(matches: &Vec<Vec<Option<String>>>) -> (texts: Vec<String>)
    ensures
        texts.deep_view() == populated_groups(matches.deep_view()),
{
    let ghost all = matches.deep_view();
    let mut texts: Vec<String> = Vec::new();
    let mut i: usize = 0;
    assert(texts.deep_view() =~= populated_groups(all.take(0)));
    while i < matches.len()
        invariant
            i <= matches.len(),
            all == matches.deep_view(),
            texts.deep_view() == populated_groups(all.take(i as int)),
        decreases matches.len() - i,
    {
        let groups = &matches[i];
        let ghost shown = groups.deep_view();
        let ghost before = texts.deep_view();
        assert(all[i as int] == shown);
        let mut j: usize = 0;
        assert(texts.deep_view() =~= before + populated(shown.take(0)));
        while j < groups.len()
            invariant
                j <= groups.len(),
                shown == groups.deep_view(),
                texts.deep_view() == before + populated(shown.take(j as int)),
            decreases groups.len() - j,
        {
            let ghost held = texts.deep_view();
            assert(shown.take(j + 1).drop_last() =~= shown.take(j as int));
            assert(shown.take(j + 1).last() == shown[j as int]);
            assert(shown[j as int] == groups@[j as int].deep_view());
            if j >= 1 {
                match &groups[j] {
                    Some(text) => {
                        texts.push(text.clone());
                        assert(texts.deep_view() =~= held.push(text@));
                        assert(held.push(text@) =~= before + populated(shown.take(j + 1)));
                    },
                    None => {},
                }
            }
            j += 1;
        }
        assert(shown.take(groups.len() as int) =~= shown);
        assert(all.take(i + 1).drop_last() =~= all.take(i as int));
        assert(all.take(i + 1).last() == shown);
        i += 1;
    }
    assert(all.take(matches.len() as int) =~= all);
    texts
}

/// Adds to `found` what loading one captured text gave: its documents, or
/// nothing where the text was not well formed.
pub fn append_documents(found: &mut Vec<ParsedValue>, loaded: Option<Vec<ParsedValue>>)
    ensures
        views(final(found)@) == views(old(found)@) + (match loaded {
            Some(documents) => views(documents@),
            None => Seq::empty(),
        }),
{
    let ghost before = found@;
    match loaded {
        Some(documents) => {
            let ghost added = documents@;
            let mut documents = documents;
            found.append(&mut documents);
            assert(views(found@) =~= views(before) + views(added));
        },
        None => {
            assert(views(found@) =~= views(before) + Seq::<ValueView>::empty());
        },
    }
}

/// Parses each captured text and concatenates the documents found.
pub fn parse_captures(texts: &Vec<String>) -> (found: Vec<ParsedValue>)
    ensures
        views(found@) == documents_of(texts.deep_view()),
{
    parse_captures_noting(texts).0
}

/// Parses each captured text and concatenates the documents found. Beside
/// them it returns the numbers of the texts that did not parse and were
/// skipped, in order.
pub fn parse_captures_noting(texts: &Vec<String>) -> (outcome: (Vec<ParsedValue>, Vec<usize>))
    ensures
        views(outcome.0@) == documents_of(texts.deep_view()),
        outcome.1@ == skipped_of(texts.deep_view()),
{
    let ghost all = texts.deep_view();
    let mut found: Vec<ParsedValue> = Vec::new();
    let mut skipped: Vec<usize> = Vec::new();
    let mut i: usize = 0;
    assert(views(found@) =~= documents_of(all.take(0)));
    assert(skipped@ =~= skipped_of(all.take(0)));
    while i < texts.len()
        invariant
            i <= texts.len(),
            all == texts.deep_view(),
            views(found@) == documents_of(all.take(i as int)),
            skipped@ == skipped_of(all.take(i as int)),
        decreases texts.len() - i,
    {
        assert(all.take(i + 1).drop_last() =~= all.take(i as int));
        assert(all.take(i + 1).last() == texts@[i as int]@);
        let loaded = parse_documents(texts[i].as_str());
        if loaded.is_none() {
            skipped.push(i);
        }
        append_documents(&mut found, loaded);
        i += 1;
    }
    assert(all.take(texts.len() as int) =~= all);
    (found, skipped)
}

/// Extracts the literals that `pattern` marks in `text`: every populated
/// capture group of every non-overlapping match is parsed, and the documents
/// found are returned in match order. A capture that is not well formed is
/// skipped.
pub fn extract(pattern: &Pattern, text: &str) -> (found: Vec<ParsedValue>)
    ensures
        views(found@) == extracted(pattern.source(), text@),
{
    let matches = pattern.captures_iter(text);
    let texts = collect_populated(&matches);
    parse_captures(&texts)
}

/// Extracts as [`extract`] does, and returns beside the values the numbers
/// of the populated captures that did not parse and were skipped.
pub fn extract_noting(pattern: &Pattern, text: &str) -> (outcome: (Vec<ParsedValue>, Vec<usize>))
    ensures
        views(outcome.0@) == extracted(pattern.source(), text@),
        outcome.1@ == skipped(pattern.source(), text@),
{
    let matches = pattern.captures_iter(text);
    let texts = collect_populated(&matches);
    parse_captures_noting(&texts)
}

/// Compiles `pattern` and extracts the literals that it marks in `text`.
/// Returns `None` exactly where the pattern cannot be compiled.
pub fn extract_from_source(pattern: &str, text: &str) -> (found: Option<Vec<ParsedValue>>)
    ensures
        found is Some <==> pattern_accepted(pattern@),
        found matches Some(values) ==> views(values@) == extracted(pattern@, text@),
{
    match Pattern::new(pattern) {
        None => None,
        Some(compiled) => Some(extract(&compiled, text)),
    }
}

} // verus!
