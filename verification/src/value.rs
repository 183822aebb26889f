//! Parsed literal values and their coercion to display strings.

use crate::text::{decimal, decimal_string};
use vstd::prelude::*;

verus! {

/// The mathematical content of a parsed literal.
pub enum ValueView {
    /// A real number, kept in the spelling it had in the source.
    Real(Seq<char>),
    Integer(int),
    Text(Seq<char>),
    Boolean(bool),
    /// An ordered sequence of values.
    Sequence(Seq<ValueView>),
    /// An ordered mapping, as its entries in iteration order.
    Mapping(Seq<(ValueView, ValueView)>),
    /// A reference to an anchored value that was not resolved.
    Alias(nat),
    Null,
    /// The marker for a value that could not be resolved.
    Invalid,
}

/// A literal value parsed from embedded page data.
#[derive(Debug, PartialEq, Eq)]
pub enum ParsedValue {
    /// A real number, kept in the spelling it had in the source.
    Real(String),
    Integer(i64),
    Text(String),
    Boolean(bool),
    /// An ordered sequence of values.
    Sequence(Vec<ParsedValue>),
    /// An ordered mapping, as its entries in iteration order.
    Mapping(Vec<(ParsedValue, ParsedValue)>),
    /// A reference to an anchored value that was not resolved.
    Alias(usize),
    Null,
    /// The marker for a value that could not be resolved.
    Invalid,
}

/// A value is viewed variant by variant: a sequence as the views of its
/// items, a mapping as the views of its entries.
impl View for ParsedValue {
    type V = ValueView;

    open spec fn view(&self) -> ValueView
        decreases self, 0nat,
    {
        match self {
            ParsedValue::Real(s) => ValueView::Real(s@),
            ParsedValue::Integer(i) => ValueView::Integer(*i as int),
            ParsedValue::Text(s) => ValueView::Text(s@),
            ParsedValue::Boolean(b) => ValueView::Boolean(*b),
            ParsedValue::Sequence(items) => ValueView::Sequence(
                views_of_prefix(items@, items@.len()),
            ),
            ParsedValue::Mapping(entries) => ValueView::Mapping(
                entry_views_of_prefix(entries@, entries@.len()),
            ),
            ParsedValue::Alias(n) => ValueView::Alias(*n as nat),
            ParsedValue::Null => ValueView::Null,
            ParsedValue::Invalid => ValueView::Invalid,
        }
    }
}

/// The views of the first `n` of `items`, in order.
pub open spec fn views_of_prefix(items: Seq<ParsedValue>, n: nat) -> Seq<ValueView>
    decreases items, n,
{
    if n == 0 || n > items.len() {
        Seq::empty()
    } else {
        views_of_prefix(items, (n - 1) as nat).push(items[n - 1].view())
    }
}

/// The views of the first `n` of `entries`, in order.
pub open spec fn entry_views_of_prefix(entries: Seq<(ParsedValue, ParsedValue)>, n: nat) -> Seq<
    (ValueView, ValueView),
>
    decreases entries, n,
{
    if n == 0 || n > entries.len() {
        Seq::empty()
    } else {
        entry_views_of_prefix(entries, (n - 1) as nat).push(
            (entries[n - 1].0.view(), entries[n - 1].1.view()),
        )
    }
}

/// The views of a run of values, in order.
pub open spec fn views(items: Seq<ParsedValue>) -> Seq<ValueView> {
    Seq::new(items.len(), |i: int| items[i]@)
}

/// The views of a run of mapping entries, in order.
pub open spec fn entry_views(entries: Seq<(ParsedValue, ParsedValue)>) -> Seq<
    (ValueView, ValueView),
> {
    Seq::new(entries.len(), |i: int| (entries[i].0@, entries[i].1@))
}

proof fn lemma_views_of_prefix(items: Seq<ParsedValue>, n: nat)
    requires
        n <= items.len(),
    ensures
        views_of_prefix(items, n) == views(items.take(n as int)),
    decreases n,
{
    let whole = views(items.take(n as int));
    if n > 0 {
        lemma_views_of_prefix(items, (n - 1) as nat);
        let shorter = views(items.take(n - 1));
        assert(views_of_prefix(items, n) == shorter.push(items[n - 1]@));
        assert forall|i: int| 0 <= i < n implies shorter.push(items[n - 1]@)[i] == whole[i] by {
            if i < n - 1 {
                assert(shorter[i] == items.take(n - 1)[i]@);
            }
            assert(whole[i] == items.take(n as int)[i]@);
        }
        assert(shorter.push(items[n - 1]@) =~= whole);
    } else {
        assert(views_of_prefix(items, n) =~= whole);
    }
}

proof fn lemma_entry_views_of_prefix(entries: Seq<(ParsedValue, ParsedValue)>, n: nat)
    requires
        n <= entries.len(),
    ensures
        entry_views_of_prefix(entries, n) == entry_views(entries.take(n as int)),
    decreases n,
{
    let whole = entry_views(entries.take(n as int));
    if n > 0 {
        lemma_entry_views_of_prefix(entries, (n - 1) as nat);
        let shorter = entry_views(entries.take(n - 1));
        let last = (entries[n - 1].0@, entries[n - 1].1@);
        assert(entry_views_of_prefix(entries, n) == shorter.push(last));
        assert forall|i: int| 0 <= i < n implies shorter.push(last)[i] == whole[i] by {
            if i < n - 1 {
                assert(shorter[i] == (entries.take(n - 1)[i].0@, entries.take(n - 1)[i].1@));
            }
            assert(whole[i] == (entries.take(n as int)[i].0@, entries.take(n as int)[i].1@));
        }
        assert(shorter.push(last) =~= whole);
    } else {
        assert(entry_views_of_prefix(entries, n) =~= whole);
    }
}

/// A sequence value is viewed as the views of its items.
pub proof fn lemma_sequence_view(items: Vec<ParsedValue>)
    ensures
        ParsedValue::Sequence(items)@ == ValueView::Sequence(views(items@)),
{
    lemma_views_of_prefix(items@, items@.len());
    assert(items@.take(items@.len() as int) =~= items@);
}

/// A mapping value is viewed as the views of its entries.
pub proof fn lemma_mapping_view(entries: Vec<(ParsedValue, ParsedValue)>)
    ensures
        ParsedValue::Mapping(entries)@ == ValueView::Mapping(entry_views(entries@)),
{
    lemma_entry_views_of_prefix(entries@, entries@.len());
    assert(entries@.take(entries@.len() as int) =~= entries@);
}

/// The value stored under the text key `key` in a run of mapping entries:
/// that of the first entry whose key is the text `key`.
pub open spec fn entry_for(entries: Seq<(ValueView, ValueView)>, key: Seq<char>) -> Option<
    ValueView,
>
    decreases entries.len(),
{
    if entries.len() == 0 {
        None
    } else if entries[0].0 == ValueView::Text(key) {
        Some(entries[0].1)
    } else {
        entry_for(entries.skip(1), key)
    }
}

impl ValueView {
    /// The items of a sequence; no items for any other value.
    pub open spec fn items(self) -> Seq<ValueView> {
        match self {
            ValueView::Sequence(items) => items,
            _ => Seq::empty(),
        }
    }

    /// The entries of a mapping; no entries for any other value.
    pub open spec fn entries(self) -> Seq<(ValueView, ValueView)> {
        match self {
            ValueView::Mapping(entries) => entries,
            _ => Seq::empty(),
        }
    }

    /// The value under the text key `key`, if this is a mapping that has one.
    pub open spec fn get(self, key: Seq<char>) -> Option<ValueView> {
        entry_for(self.entries(), key)
    }

    /// Whether the value is a scalar that has a display string of its own:
    /// a real number, an integer, a text or a boolean.
    pub open spec fn is_scalar(self) -> bool {
        self is Real || self is Integer || self is Text || self is Boolean
    }

    /// The display string of a value: a real number or a text as it is
    /// spelled, an integer in decimal, a boolean as `true` or `false`, and
    /// the empty string for every other shape.
    pub open spec fn display(self) -> Seq<char> {
        match self {
            ValueView::Real(s) => s,
            ValueView::Text(s) => s,
            ValueView::Integer(i) => decimal(i),
            ValueView::Boolean(b) => if b {
                "true"@
            } else {
                "false"@
            },
            _ => Seq::empty(),
        }
    }
}

impl ParsedValue {
    /// Tells whether the value is a scalar that has a display string of
    /// its own.
    pub fn is_scalar(&self) -> (scalar: bool)
        ensures
            scalar == self@.is_scalar(),
    {
        match self {
            ParsedValue::Real(_) => true,
            ParsedValue::Integer(_) => true,
            ParsedValue::Text(_) => true,
            ParsedValue::Boolean(_) => true,
            _ => false,
        }
    }

    /// The text of a text value.
    pub fn as_str(&self) -> (text: Option<&String>)
        ensures
            match text {
                Some(s) => self@ == ValueView::Text(s@),
                None => !(self@ is Text),
            },
    {
        match self {
            ParsedValue::Text(s) => Some(s),
            _ => None,
        }
    }

    /// The number of an integer value.
    pub fn as_i64(&self) -> (number: Option<i64>)
        ensures
            match number {
                Some(i) => self@ == ValueView::Integer(i as int),
                None => !(self@ is Integer),
            },
    {
        match self {
            ParsedValue::Integer(i) => Some(*i),
            _ => None,
        }
    }

    /// The items of a sequence value.
    pub fn as_vec(&self) -> (items: Option<&Vec<ParsedValue>>)
        ensures
            match items {
                Some(v) => self@ == ValueView::Sequence(views(v@)),
                None => !(self@ is Sequence),
            },
    {
        match self {
            ParsedValue::Sequence(items) => {
                proof {
                    lemma_sequence_view(*items);
                }
                Some(items)
            },
            _ => None,
        }
    }

    /// The entries of a mapping value.
    pub fn as_hash(&self) -> (entries: Option<&Vec<(ParsedValue, ParsedValue)>>)
        ensures
            match entries {
                Some(e) => self@ == ValueView::Mapping(entry_views(e@)),
                None => !(self@ is Mapping),
            },
    {
        match self {
            ParsedValue::Mapping(entries) => {
                proof {
                    lemma_mapping_view(*entries);
                }
                Some(entries)
            },
            _ => None,
        }
    }

    /// Looks up the value stored under the text key `key`.
    pub fn get(&self, key: &str) -> (found: Option<&ParsedValue>)
        ensures
            match found {
                Some(v) => self@.get(key@) == Some(v@),
                None => self@.get(key@) is None,
            },
    {
        match self.as_hash() {
            None => None,
            Some(entries) => find_entry(entries, key),
        }
    }
}

/// Looks up the value of the first entry whose key is the text `key`.
pub fn find_entry<'a>(entries: &'a Vec<(ParsedValue, ParsedValue)>, key: &str) -> (found: Option<
    &'a ParsedValue,
>)
    ensures
        match found {
            Some(v) => entry_for(entry_views(entries@), key@) == Some(v@),
            None => entry_for(entry_views(entries@), key@) is None,
        },
{
    let wanted = key.to_owned();
    let ghost all = entry_views(entries@);
    let mut i: usize = 0;
    assert(all.skip(0) =~= all);
    while i < entries.len()
        invariant
            i <= entries.len(),
            wanted@ == key@,
            all == entry_views(entries@),
            entry_for(all, key@) == entry_for(all.skip(i as int), key@),
        decreases entries.len() - i,
    {
        assert(all.skip(i as int)[0] == all[i as int]);
        assert(all.skip(i as int).skip(1) =~= all.skip(i + 1));
        let is_key = match &entries[i].0 {
            ParsedValue::Text(s) => *s == wanted,
            _ => false,
        };
        if is_key {
            return Some(&entries[i].1);
        }
        i += 1;
    }
    None
}

/// Coerces a parsed value to its display string. Every value has one; the
/// shapes that are no scalar give the empty string.
pub fn to_display_string(value: &ParsedValue) -> (text: String)
    ensures
        text@ == value@.display(),
        value@ is Sequence || value@ is Mapping || value@ is Alias || value@ is Null
            || value@ is Invalid ==> text@.len() == 0,
{
    match value {
        ParsedValue::Real(s) => s.clone(),
        ParsedValue::Text(s) => s.clone(),
        ParsedValue::Integer(i) => decimal_string(*i),
        ParsedValue::Boolean(b) => if *b {
            "true".to_owned()
        } else {
            "false".to_owned()
        },
        _ => String::new(),
    }
}

} // verus!
