//! The detail of one instrument: the object that its profile page embeds,
//! and the two fields that are read from it.

use crate::emitent::{Emitent, EmitentView};
use crate::error::{MinerError, ParseError};
use crate::literal::{parse_documents, parsed_documents};
use crate::pattern::{pattern_accepted, regex_first_capture, Pattern};
use crate::value::{views, ParsedValue, ValueView};
use vstd::prelude::*;

verus! {

/// The pattern that marks the object embedded in a profile page.
pub const ISSUE_PATTERN: &'static str = "Main.issue = (.*);";

/// The first of the documents that loading a capture gave, or the text of
/// the failure where loading failed or gave no document.
pub open spec fn first_document(loaded: Option<Seq<ValueView>>) -> Result<ValueView, Seq<char>> {
    match loaded {
        Some(documents) => if documents.len() > 0 {
            Ok(documents[0])
        } else {
            Err("Yaml block cannot be decoded"@)
        },
        None => Err("Yaml block cannot be decoded"@),
    }
}

/// The detail that the first capture of the first match holds, or the text
/// of the failure: there is no match, the match has no such capture, or the
/// capture holds no document.
pub open spec fn detail_of_capture(capture: Option<Option<Seq<char>>>) -> Result<
    ValueView,
    Seq<char>,
> {
    match capture {
        None => Err("Emitent captures not found"@),
        Some(None) => Err("Emitent capture doesn't exist"@),
        Some(Some(text)) => first_document(parsed_documents(text)),
    }
}

/// The detail that `pattern` finds in the page `document`.
pub open spec fn detail_in(pattern: Seq<char>, document: Seq<char>) -> Result<
    ValueView,
    Seq<char>,
> {
    detail_of_capture(regex_first_capture(pattern, document, 1))
}

/// The text of a value that is a text; none for a value that is absent or
/// has another shape.
pub open spec fn text_in(value: Option<ValueView>) -> Option<Seq<char>> {
    match value {
        Some(ValueView::Text(text)) => Some(text),
        _ => None,
    }
}

/// The text that was found, or the empty string where none was.
pub open spec fn or_empty(found: Option<Seq<char>>) -> Seq<char> {
    match found {
        Some(text) => text,
        None => Seq::empty(),
    }
}

/// The trading code that a detail holds: the text under `quote`, then
/// `code`; none where a key is missing or a value has another shape.
pub open spec fn code_in(info: ValueView) -> Option<Seq<char>> {
    match info.get("quote"@) {
        Some(quote) => text_in(quote.get("code"@)),
        None => None,
    }
}

/// The market's display name that a detail holds: the text under `quote`,
/// then `market`, then `title`; none where a key is missing or a value has
/// another shape.
pub open spec fn market_name_in(info: ValueView) -> Option<Seq<char>> {
    match info.get("quote"@) {
        Some(quote) => match quote.get("market"@) {
            Some(market) => text_in(market.get("title"@)),
            None => None,
        },
        None => None,
    }
}

/// The trading code in a detail, or the empty string where it holds none.
pub open spec fn code_of(info: ValueView) -> Seq<char> {
    or_empty(code_in(info))
}

/// The market's display name in a detail, or the empty string where it
/// holds none.
pub open spec fn market_name_of(info: ValueView) -> Seq<char> {
    or_empty(market_name_in(info))
}

/// Whether `outcome` is the failure to find a block, with the text that
/// `expected` gives, or the value that `expected` gives.
pub open spec fn reports(
    outcome: Result<ParsedValue, MinerError>,
    expected: Result<ValueView, Seq<char>>,
) -> bool {
    match outcome {
        Ok(value) => expected == Ok::<ValueView, Seq<char>>(value@),
        Err(MinerError::ParseError(ParseError::BlockNotFound(details))) => expected == Err::<
            ValueView,
            Seq<char>,
        >(details@),
        Err(_) => false,
    }
}

fn block_not_found(details: &str) -> (error: MinerError)
    ensures
        error matches MinerError::ParseError(ParseError::BlockNotFound(text)) && text@ == details@,
{
    MinerError::from(ParseError::BlockNotFound(details.to_owned()))
}

/// Compiles the pattern of the profile page. Returns `None` exactly where
/// it cannot be compiled.
pub fn issue_pattern() -> (pattern: Option<Pattern>)
    ensures
        pattern is Some <==> pattern_accepted(ISSUE_PATTERN@),
        pattern matches Some(p) ==> p.source() == ISSUE_PATTERN@,
{
    Pattern::new(ISSUE_PATTERN)
}

/// Takes the first of the documents that loading a capture gave.
pub fn select_document(loaded: Option<Vec<ParsedValue>>) -> (outcome: Result<
    ParsedValue,
    MinerError,
>)
    ensures
        reports(
            outcome,
            first_document(
                match loaded {
                    Some(documents) => Some(views(documents@)),
                    None => None,
                },
            ),
        ),
{
    match loaded {
        Some(documents) => {
            if documents.len() > 0 {
                let mut documents = documents;
                let ghost shown = views(documents@);
                let first = documents.remove(0);
                assert(first@ == shown[0]);
                Ok(first)
            } else {
                Err(block_not_found("Yaml block cannot be decoded"))
            }
        },
        None => Err(block_not_found("Yaml block cannot be decoded")),
    }
}

/// Parses what the first capture of the first match holds.
pub fn parse_capture(capture: Option<Option<String>>) -> (outcome: Result<ParsedValue, MinerError>)
    ensures
        reports(outcome, detail_of_capture(capture.deep_view())),
{
    match capture {
        None => Err(block_not_found("Emitent captures not found")),
        Some(None) => Err(block_not_found("Emitent capture doesn't exist")),
        Some(Some(text)) => {
            let loaded = parse_documents(text.as_str());
            select_document(loaded)
        },
    }
}

/// Reads the detail that a profile page embeds: the first document of what
/// the pattern's first capture holds. Fails with a block that was not found
/// where the pattern matches nowhere, or the capture holds no document.
pub fn parse_detail(pattern: &Pattern, document: &str) -> (outcome: Result<
    ParsedValue,
    MinerError,
>)
    ensures
        reports(outcome, detail_in(pattern.source(), document@)),
{
    parse_capture(pattern.first_capture(document, 1))
}

fn text_of(value: Option<&ParsedValue>) -> (text: Option<String>)
    ensures
        text.deep_view() == text_in(
            match value {
                Some(v) => Some(v@),
                None => None,
            },
        ),
{
    match value {
        Some(found) => match found.as_str() {
            Some(text) => Some(text.clone()),
            None => None,
        },
        None => None,
    }
}

fn text_or_empty(found: Option<String>) -> (text: String)
    ensures
        text@ == or_empty(found.deep_view()),
{
    match found {
        Some(text) => text,
        None => String::new(),
    }
}

/// Looks for the trading code in a detail. Returns `None` where a key is
/// missing or a value has another shape at any step.
pub fn find_code(info: &ParsedValue) -> (code: Option<String>)
    ensures
        code.deep_view() == code_in(info@),
{
    match info.get("quote") {
        Some(quote) => text_of(quote.get("code")),
        None => None,
    }
}

/// Looks for the market's display name in a detail. Returns `None` where a
/// key is missing or a value has another shape at any step.
pub fn find_market_name(info: &ParsedValue) -> (name: Option<String>)
    ensures
        name.deep_view() == market_name_in(info@),
{
    match info.get("quote") {
        Some(quote) => match quote.get("market") {
            Some(market) => text_of(market.get("title")),
            None => None,
        },
        None => None,
    }
}

/// Resolves the trading code from a detail. A missing key or a value of
/// another shape at any step gives the empty string.
pub fn resolve_code(info: &ParsedValue) -> (code: String)
    ensures
        code@ == code_of(info@),
{
    text_or_empty(find_code(info))
}

/// Resolves the market's display name from a detail. A missing key or a
/// value of another shape at any step gives the empty string.
pub fn resolve_market_name(info: &ParsedValue) -> (name: String)
    ensures
        name@ == market_name_of(info@),
{
    text_or_empty(find_market_name(info))
}

/// Fills in the trading code and the market's display name of `record`
/// from a detail, and leaves its other fields as they are.
pub fn apply_detail(record: &mut Emitent, info: &ParsedValue)
    ensures
        final(record)@ == (EmitentView {
            code: code_of(info@),
            market_name: market_name_of(info@),
            ..old(record)@
        }),
{
    record.code = resolve_code(info);
    record.market_name = resolve_market_name(info);
}

} // verus!
