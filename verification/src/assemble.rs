//! Assembly of the catalog from the text of the catalog document.

use crate::catalog::{assembled_from, join_records};
use crate::emitent::{emitent_views, Emitent, EmitentView};
use crate::error::{CatalogError, Region, Warning};
use crate::extract::{extract_noting, extracted, skipped};
use crate::index::distinct_ids;
use crate::pattern::{pattern_accepted, Pattern};
use crate::text::{normalize_document, normalized};
use crate::value::{views, ParsedValue, ValueView};
use crate::warnings::{join_warnings, join_warnings_of};
use vstd::prelude::*;

verus! {

/// The pattern that marks the array of instrument identifiers.
pub const IDS_PATTERN: &'static str = "var aEmitentIds = (\\[.*?\\]);";

/// The pattern that marks the array of display names.
pub const NAMES_PATTERN: &'static str = "var aEmitentNames = (\\[.*?\\]);";

/// The pattern that marks the array of market identifiers.
pub const MARKETS_PATTERN: &'static str = "var aEmitentMarkets = (\\[.*?\\]);";

/// The pattern that marks the mapping from identifier to URL slug.
pub const URLS_PATTERN: &'static str = "var aEmitentUrls = (\\{.*?\\});";

/// The compiled patterns of the four collections.
pub struct CatalogPatterns {
    ids: Pattern,
    names: Pattern,
    markets: Pattern,
    urls: Pattern,
}

impl CatalogPatterns {
    /// The text of the identifier pattern.
    pub closed spec fn ids_source(&self) -> Seq<char> {
        self.ids.source()
    }

    /// The text of the name pattern.
    pub closed spec fn names_source(&self) -> Seq<char> {
        self.names.source()
    }

    /// The text of the market pattern.
    pub closed spec fn markets_source(&self) -> Seq<char> {
        self.markets.source()
    }

    /// The text of the slug pattern.
    pub closed spec fn urls_source(&self) -> Seq<char> {
        self.urls.source()
    }

    /// Whether these are the patterns of the provider's catalog document.
    pub open spec fn standard(&self) -> bool {
        &&& self.ids_source() == IDS_PATTERN@
        &&& self.names_source() == NAMES_PATTERN@
        &&& self.markets_source() == MARKETS_PATTERN@
        &&& self.urls_source() == URLS_PATTERN@
    }

    /// Puts four compiled patterns together.
    pub fn new(ids: Pattern, names: Pattern, markets: Pattern, urls: Pattern) -> (patterns:
        CatalogPatterns)
        ensures
            patterns.ids_source() == ids.source(),
            patterns.names_source() == names.source(),
            patterns.markets_source() == markets.source(),
            patterns.urls_source() == urls.source(),
    {
        CatalogPatterns { ids, names, markets, urls }
    }

    /// Compiles the patterns of the provider's catalog document. Returns
    /// `None` exactly where one of them cannot be compiled.
    pub fn compile() -> (patterns: Option<CatalogPatterns>)
        ensures
            patterns is Some <==> pattern_accepted(IDS_PATTERN@) && pattern_accepted(
                NAMES_PATTERN@,
            ) && pattern_accepted(MARKETS_PATTERN@) && pattern_accepted(URLS_PATTERN@),
            patterns matches Some(p) ==> p.standard(),
    {
        let ids = match Pattern::new(IDS_PATTERN) {
            Some(pattern) => pattern,
            None => {
                return None;
            },
        };
        let names = match Pattern::new(NAMES_PATTERN) {
            Some(pattern) => pattern,
            None => {
                return None;
            },
        };
        let markets = match Pattern::new(MARKETS_PATTERN) {
            Some(pattern) => pattern,
            None => {
                return None;
            },
        };
        let urls = match Pattern::new(URLS_PATTERN) {
            Some(pattern) => pattern,
            None => {
                return None;
            },
        };
        Some(CatalogPatterns::new(ids, names, markets, urls))
    }
}

/// The one value that extraction must find for a collection: an error
/// where it found none, and another where it found several.
pub open spec fn single(values: Seq<ValueView>, region: Region) -> Result<ValueView, CatalogError> {
    if values.len() == 0 {
        Err(CatalogError::Missing(region))
    } else if values.len() > 1 {
        Err(CatalogError::Ambiguous(region))
    } else {
        Ok(values[0])
    }
}

/// The catalog that the values extracted for the four collections give.
/// The collections are examined in the order identifiers, names, markets,
/// slugs, and the first that is missing or ambiguous decides the error.
pub open spec fn catalog_of(
    ids: Seq<ValueView>,
    names: Seq<ValueView>,
    markets: Seq<ValueView>,
    urls: Seq<ValueView>,
) -> Result<Seq<EmitentView>, CatalogError> {
    match single(ids, Region::Ids) {
        Err(e) => Err(e),
        Ok(ids) => match single(names, Region::Names) {
            Err(e) => Err(e),
            Ok(names) => match single(markets, Region::Markets) {
                Err(e) => Err(e),
                Ok(markets) => match single(urls, Region::Urls) {
                    Err(e) => Err(e),
                    Ok(urls) => Ok(assembled_from(ids, names, markets, urls)),
                },
            },
        },
    }
}

/// The catalog that `patterns` find in the document `text`.
pub open spec fn catalog_in(patterns: CatalogPatterns, text: Seq<char>) -> Result<
    Seq<EmitentView>,
    CatalogError,
> {
    let document = normalized(text);
    catalog_of(
        extracted(patterns.ids_source(), document),
        extracted(patterns.names_source(), document),
        extracted(patterns.markets_source(), document),
        extracted(patterns.urls_source(), document),
    )
}

/// Checks that extraction found exactly one value for `region`.
pub fn single_value(values: &Vec<ParsedValue>, region: Region) -> (found: Result<
    &ParsedValue,
    CatalogError,
>)
    ensures
        match found {
            Ok(value) => single(views(values@), region) == Ok::<ValueView, CatalogError>(value@),
            Err(e) => single(views(values@), region) == Err::<ValueView, CatalogError>(e),
        },
{
    if values.len() == 0 {
        Err(CatalogError::Missing(region))
    } else if values.len() > 1 {
        Err(CatalogError::Ambiguous(region))
    } else {
        Ok(&values[0])
    }
}

/// Assembles the catalog from the values that extraction found for the
/// four collections. Succeeds exactly where each collection has one value.
pub fn join_extracted(
    ids: &Vec<ParsedValue>,
    names: &Vec<ParsedValue>,
    markets: &Vec<ParsedValue>,
    urls: &Vec<ParsedValue>,
) -> (catalog: Result<Vec<Emitent>, CatalogError>)
    ensures
        match catalog {
            Ok(records) => catalog_of(views(ids@), views(names@), views(markets@), views(urls@))
                == Ok::<Seq<EmitentView>, CatalogError>(emitent_views(records@)),
            Err(e) => catalog_of(views(ids@), views(names@), views(markets@), views(urls@))
                == Err::<Seq<EmitentView>, CatalogError>(e),
        },
        catalog matches Ok(records) ==> distinct_ids(emitent_views(records@)),
{
    let ids = match single_value(ids, Region::Ids) {
        Ok(value) => value,
        Err(e) => {
            return Err(e);
        },
    };
    let names = match single_value(names, Region::Names) {
        Ok(value) => value,
        Err(e) => {
            return Err(e);
        },
    };
    let markets = match single_value(markets, Region::Markets) {
        Ok(value) => value,
        Err(e) => {
            return Err(e);
        },
    };
    let urls = match single_value(urls, Region::Urls) {
        Ok(value) => value,
        Err(e) => {
            return Err(e);
        },
    };
    Ok(join_records(ids, names, markets, urls))
}

/// The warnings for the captures that extraction skipped for `region`.
pub open spec fn skipped_warnings(region: Region, skipped: Seq<usize>) -> Seq<Warning> {
    Seq::new(skipped.len(), |i: int| Warning::SkippedCapture(region, skipped[i]))
}

/// The warnings that joining the values extracted for the four collections
/// gives; none where no catalog is assembled.
pub open spec fn catalog_warnings(
    ids: Seq<ValueView>,
    names: Seq<ValueView>,
    markets: Seq<ValueView>,
    urls: Seq<ValueView>,
) -> Seq<Warning> {
    if catalog_of(ids, names, markets, urls) is Ok {
        join_warnings_of(ids[0], names[0], markets[0], urls[0])
    } else {
        Seq::empty()
    }
}

/// The warnings that assembling the catalog from the document `text`
/// gives: first the captures skipped for each collection, then what the
/// join dropped or left empty.
pub open spec fn warnings_in(patterns: CatalogPatterns, text: Seq<char>) -> Seq<Warning> {
    let document = normalized(text);
    skipped_warnings(Region::Ids, skipped(patterns.ids_source(), document)) + skipped_warnings(
        Region::Names,
        skipped(patterns.names_source(), document),
    ) + skipped_warnings(Region::Markets, skipped(patterns.markets_source(), document))
        + skipped_warnings(Region::Urls, skipped(patterns.urls_source(), document))
        + catalog_warnings(
        extracted(patterns.ids_source(), document),
        extracted(patterns.names_source(), document),
        extracted(patterns.markets_source(), document),
        extracted(patterns.urls_source(), document),
    )
}

/// Adds a warning for each capture that extraction skipped for `region`.
pub fn note_skipped(notes: &mut Vec<Warning>, region: Region, skipped: &Vec<usize>)
    ensures
        final(notes)@ == old(notes)@ + skipped_warnings(region, skipped@),
{
    let ghost before = notes@;
    let mut i: usize = 0;
    assert(notes@ =~= before + skipped_warnings(region, skipped@.take(0)));
    while i < skipped.len()
        invariant
            i <= skipped.len(),
            notes@ == before + skipped_warnings(region, skipped@.take(i as int)),
        decreases skipped.len() - i,
    {
        notes.push(Warning::SkippedCapture(region, skipped[i]));
        assert(notes@ =~= before + skipped_warnings(region, skipped@.take(i + 1)));
        i += 1;
    }
    assert(skipped@.take(skipped.len() as int) =~= skipped@);
}

/// Collects the warnings that joining the values extracted for the four
/// collections gives; none where a collection is missing or ambiguous.
pub fn extracted_warnings(
    ids: &Vec<ParsedValue>,
    names: &Vec<ParsedValue>,
    markets: &Vec<ParsedValue>,
    urls: &Vec<ParsedValue>,
) -> (notes: Vec<Warning>)
    ensures
        notes@ == catalog_warnings(views(ids@), views(names@), views(markets@), views(urls@)),
{
    if ids.len() == 1 && names.len() == 1 && markets.len() == 1 && urls.len() == 1 {
        join_warnings(&ids[0], &names[0], &markets[0], &urls[0])
    } else {
        Vec::new()
    }
}

/// Assembles the catalog as [`assemble`] does, and returns beside it the
/// warnings for what was skipped, dropped or left empty on the way.
pub fn assemble_noting(patterns: &CatalogPatterns, text: &str) -> (outcome: (
    Result<Vec<Emitent>, CatalogError>,
    Vec<Warning>,
))
    ensures
        match outcome.0 {
            Ok(records) => catalog_in(*patterns, text@) == Ok::<Seq<EmitentView>, CatalogError>(
                emitent_views(records@),
            ),
            Err(e) => catalog_in(*patterns, text@) == Err::<Seq<EmitentView>, CatalogError>(e),
        },
        outcome.0 matches Ok(records) ==> distinct_ids(emitent_views(records@)),
        outcome.1@ == warnings_in(*patterns, text@),
{
    let document = normalize_document(text);
    let (ids, skipped_ids) = extract_noting(&patterns.ids, document.as_str());
    let (names, skipped_names) = extract_noting(&patterns.names, document.as_str());
    let (markets, skipped_markets) = extract_noting(&patterns.markets, document.as_str());
    let (urls, skipped_urls) = extract_noting(&patterns.urls, document.as_str());
    let mut notes: Vec<Warning> = Vec::new();
    note_skipped(&mut notes, Region::Ids, &skipped_ids);
    let ghost first = notes@;
    note_skipped(&mut notes, Region::Names, &skipped_names);
    let ghost second = notes@;
    note_skipped(&mut notes, Region::Markets, &skipped_markets);
    let ghost third = notes@;
    note_skipped(&mut notes, Region::Urls, &skipped_urls);
    let ghost fourth = notes@;
    let mut joined = extracted_warnings(&ids, &names, &markets, &urls);
    let ghost last = joined@;
    notes.append(&mut joined);
    proof {
        let a = skipped_warnings(Region::Ids, skipped_ids@);
        let b = skipped_warnings(Region::Names, skipped_names@);
        let c = skipped_warnings(Region::Markets, skipped_markets@);
        let d = skipped_warnings(Region::Urls, skipped_urls@);
        assert(first =~= a);
        assert(second =~= a + b);
        assert(third =~= a + b + c);
        assert(fourth =~= a + b + c + d);
        assert(notes@ =~= a + b + c + d + last);
    }
    (join_extracted(&ids, &names, &markets, &urls), notes)
}

/// Assembles the catalog from the text of the catalog document: prepares
/// the text, extracts the four collections and joins them. Succeeds exactly
/// where extraction finds one value for each collection; a collection that
/// is present but empty is no failure.
pub fn assemble(patterns: &CatalogPatterns, text: &str) -> (catalog: Result<
    Vec<Emitent>,
    CatalogError,
>)
    ensures
        match catalog {
            Ok(records) => catalog_in(*patterns, text@) == Ok::<Seq<EmitentView>, CatalogError>(
                emitent_views(records@),
            ),
            Err(e) => catalog_in(*patterns, text@) == Err::<Seq<EmitentView>, CatalogError>(e),
        },
        catalog matches Ok(records) ==> distinct_ids(emitent_views(records@)),
{
    assemble_noting(patterns, text).0
}

} // verus!
