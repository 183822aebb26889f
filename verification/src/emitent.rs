//! The instrument record and its conversion from a parsed mapping.

use crate::error::MinerError;
use crate::value::{ParsedValue, ValueView};
use vstd::prelude::*;

verus! {

/// The mathematical content of an instrument record.
pub struct EmitentView {
    pub internal_id: nat,
    pub id: Seq<char>,
    pub name: Seq<char>,
    pub market_id: Seq<char>,
    pub market_name: Seq<char>,
    pub uri: Seq<char>,
    pub code: Seq<char>,
}

/// A tradable instrument of the provider's catalog.
#[derive(Debug, Clone, PartialEq, Eq)]
pub struct Emitent {
    /// The position of the instrument in the identifier collection.
    pub internal_id: u64,
    /// The provider's identifier of the instrument.
    pub id: String,
    /// The display name.
    pub name: String,
    /// The provider's tag of the market.
    pub market_id: String,
    /// The market's display name; empty until it is resolved.
    pub market_name: String,
    /// The slug of the instrument's profile page.
    pub uri: String,
    /// The trading code; empty until it is resolved.
    pub code: String,
}

impl View for Emitent {
    type V = EmitentView;

    open spec fn view(&self) -> EmitentView {
        EmitentView {
            internal_id: self.internal_id as nat,
            id: self.id@,
            name: self.name@,
            market_id: self.market_id@,
            market_name: self.market_name@,
            uri: self.uri@,
            code: self.code@,
        }
    }
}

/// The views of a run of records, in order.
pub open spec fn emitent_views(records: Seq<Emitent>) -> Seq<EmitentView> {
    Seq::new(records.len(), |i: int| records[i]@)
}

/// The record that holds only a position and an identifier.
pub open spec fn bare_record(internal_id: nat, id: Seq<char>) -> EmitentView {
    EmitentView {
        internal_id,
        id,
        name: Seq::empty(),
        market_id: Seq::empty(),
        market_name: Seq::empty(),
        uri: Seq::empty(),
        code: Seq::empty(),
    }
}

/// The unsigned number with the bit pattern of the signed 64-bit `i`.
pub open spec fn reinterpreted(i: int) -> nat {
    if i >= 0 {
        i as nat
    } else {
        (i + 0x1_0000_0000_0000_0000) as nat
    }
}

/// What converting a parsed value to a record gives: the record, or the
/// text that says which part of the value has the wrong shape.
pub open spec fn record_of(value: ValueView) -> Result<EmitentView, Seq<char>> {
    if !(value is Mapping) {
        Err("Root value is not hash"@)
    } else {
        match value.get("internal_id"@) {
            None => Err("internal_id not found"@),
            Some(ValueView::Integer(number)) => match value.get("id"@) {
                None => Err("id not found"@),
                Some(ValueView::Text(id)) => Ok(bare_record(reinterpreted(number), id)),
                Some(_) => Err("id is not string"@),
            },
            Some(_) => Err("internal_id is not int"@),
        }
    }
}

impl Default for Emitent {
    fn default() -> (record: Emitent)
        ensures
            record@ == bare_record(0, Seq::empty()),
    {
        Emitent {
            internal_id: 0,
            id: String::new(),
            name: String::new(),
            market_id: String::new(),
            market_name: String::new(),
            uri: String::new(),
            code: String::new(),
        }
    }
}

impl Emitent {
    /// The record at position `internal_id` with identifier `id` and every
    /// other field empty.
    pub fn bare(internal_id: u64, id: String) -> (record: Emitent)
        ensures
            record@ == bare_record(internal_id as nat, id@),
    {
        Emitent {
            internal_id,
            id,
            name: String::new(),
            market_id: String::new(),
            market_name: String::new(),
            uri: String::new(),
            code: String::new(),
        }
    }

    /// Reads a record from a parsed mapping with an integer under
    /// `internal_id` and a text under `id`. A negative number is taken by
    /// its bit pattern.
    pub fn from_yaml(yaml: &ParsedValue) -> (converted: Result<Emitent, MinerError>)
        ensures
            match converted {
                Ok(record) => record_of(yaml@) == Ok::<EmitentView, Seq<char>>(record@),
                Err(MinerError::YamlConversionError(details)) => record_of(yaml@) == Err::<
                    EmitentView,
                    Seq<char>,
                >(details@),
                Err(_) => false,
            },
    {
        if yaml.as_hash().is_none() {
            return Err(MinerError::YamlConversionError("Root value is not hash".to_owned()));
        }
        let number: i64 = match yaml.get("internal_id") {
            None => {
                return Err(MinerError::YamlConversionError("internal_id not found".to_owned()));
            },
            Some(found) => match found.as_i64() {
                None => {
                    return Err(
                        MinerError::YamlConversionError("internal_id is not int".to_owned()),
                    );
                },
                Some(number) => number,
            },
        };
        let id: String = match yaml.get("id") {
            None => {
                return Err(MinerError::YamlConversionError("id not found".to_owned()));
            },
            Some(found) => match found.as_str() {
                None => {
                    return Err(MinerError::YamlConversionError("id is not string".to_owned()));
                },
                Some(text) => text.clone(),
            },
        };
        let internal_id: u64 = if number >= 0 {
            number as u64
        } else {
            (number - i64::MIN) as u64 + 0x8000_0000_0000_0000u64
        };
        Ok(Emitent::bare(internal_id, id))
    }
}

} // verus!
