//! The failures that the library reports, and the texts that describe them.

use vstd::prelude::*;
use vstd::string::StringExecFns;

verus! {

/// The embedded data that was looked for is not in the document.
#[derive(Debug, Clone, PartialEq, Eq)]
pub enum ParseError {
    /// No usable block was found; the text says which step missed it.
    BlockNotFound(String),
}

/// One of the four collections that the catalog document embeds.
#[derive(Debug, Clone, Copy, PartialEq, Eq)]
pub enum Region {
    /// The array of instrument identifiers.
    Ids,
    /// The array of display names.
    Names,
    /// The array of market identifiers.
    Markets,
    /// The mapping from identifier to URL slug.
    Urls,
}

/// Something that was dropped or left empty on the way to the catalog. It
/// is no failure; the caller may log it.
#[derive(Debug, Clone, Copy, PartialEq, Eq)]
pub enum Warning {
    /// Of the populated captures found for the collection, the one with
    /// this number did not parse and was skipped.
    SkippedCapture(Region, usize),
    /// The value at this position of the collection has a shape that has no
    /// display string, so the empty string stands for it. For the slugs the
    /// position is that of the entry, and the value is its key or its slug.
    UnexpectedShape(Region, usize),
    /// The value at this position of the collection has no identifier at
    /// its position and was dropped.
    Orphan(Region, usize),
    /// The key of the slug entry at this position is no record's
    /// identifier, and the entry was dropped.
    UnknownSlugKey(usize),
}

/// Why no catalog could be assembled from a document.
#[derive(Debug, Clone, Copy, PartialEq, Eq)]
pub enum CatalogError {
    /// Extraction found no value for the collection.
    Missing(Region),
    /// Extraction found more than one value for the collection.
    Ambiguous(Region),
}

/// A failure of one step of the pipeline.
#[derive(Debug, Clone, PartialEq, Eq)]
pub enum MinerError {
    /// The response carried a status outside the success class.
    HttpErrorStatus(u16),
    /// The bytes of a document could not be decoded.
    EncodingError(String),
    /// A parsed value does not have the shape of a record.
    YamlConversionError(String),
    /// The embedded data was not found.
    ParseError(ParseError),
}

impl ParseError {
    /// The message of the error, as a sequence of characters.
    pub open spec fn message_text(self) -> Seq<char> {
        match self {
            ParseError::BlockNotFound(details) => "Data not found in document: "@ + details@,
        }
    }

    /// The fixed description of the error's kind.
    pub open spec fn description_text(self) -> Seq<char> {
        match self {
            ParseError::BlockNotFound(_) => "Block we're searching not found in the document"@,
        }
    }

    /// The message to show for the error.
    pub fn message(&self) -> (text: String)
        ensures
            text@ == self.message_text(),
    {
        match self {
            ParseError::BlockNotFound(details) => {
                let mut text = "Data not found in document: ".to_owned();
                text.append(details.as_str());
                text
            },
        }
    }

    /// The description of the error's kind.
    pub fn description(&self) -> (text: String)
        ensures
            text@ == self.description_text(),
    {
        match self {
            ParseError::BlockNotFound(_) => {
                "Block we're searching not found in the document".to_owned()
            },
        }
    }
}

/// A failure to find the embedded data is a failure of the pipeline.
impl From<ParseError> for MinerError {
    fn from(err: ParseError) -> (wrapped: MinerError) {
        MinerError::ParseError(err)
    }
}

impl vstd::std_specs::convert::FromSpecImpl<ParseError> for MinerError {
    open spec fn obeys_from_spec() -> bool {
        true
    }

    open spec fn from_spec(err: ParseError) -> MinerError {
        MinerError::ParseError(err)
    }
}

impl MinerError {
    /// The message of the error, as a sequence of characters.
    pub open spec fn message_text(self) -> Seq<char> {
        match self {
            MinerError::HttpErrorStatus(_) => "HTTP request unsuccessful"@,
            MinerError::EncodingError(details) => "Encoding error: "@ + details@,
            MinerError::YamlConversionError(details) => "Yaml conversion error: "@ + details@,
            MinerError::ParseError(inner) => inner.message_text(),
        }
    }

    /// The description of the error's kind.
    pub open spec fn description_text(self) -> Seq<char> {
        match self {
            MinerError::HttpErrorStatus(_) => "HTTP request unsuccessful"@,
            MinerError::EncodingError(details) => details@,
            MinerError::YamlConversionError(_) => "Cannot convet between object and Yaml"@,
            MinerError::ParseError(inner) => inner.description_text(),
        }
    }

    /// The message to show for the error.
    pub fn message(&self) -> (text: String)
        ensures
            text@ == self.message_text(),
    {
        match self {
            MinerError::HttpErrorStatus(_) => "HTTP request unsuccessful".to_owned(),
            MinerError::EncodingError(details) => {
                let mut text = "Encoding error: ".to_owned();
                text.append(details.as_str());
                text
            },
            MinerError::YamlConversionError(details) => {
                let mut text = "Yaml conversion error: ".to_owned();
                text.append(details.as_str());
                text
            },
            MinerError::ParseError(inner) => inner.message(),
        }
    }

    /// The description of the error's kind.
    pub fn description(&self) -> (text: String)
        ensures
            text@ == self.description_text(),
    {
        match self {
            MinerError::HttpErrorStatus(_) => "HTTP request unsuccessful".to_owned(),
            MinerError::EncodingError(details) => details.clone(),
            MinerError::YamlConversionError(_) => {
                "Cannot convet between object and Yaml".to_owned()
            },
            MinerError::ParseError(inner) => inner.description(),
        }
    }
}

} // verus!
