//! Structured literals, parsed by the `yaml-rust` crate.
//!
//! The embedded data is written in a superset of JSON that the crate's
//! loader reads. The grammar is not restated here: the result of loading a
//! text is given a name, and the contracts of this library speak of it.
//!
//! The loader and the copy of its nodes descend into nested collections by
//! recursion. A text is therefore handed to the loader only where the bound
//! on its nesting is within [`MAX_NESTING`]; a text beyond it is refused
//! like one that is not well formed.

use crate::nesting::{nesting_bound, within_nesting_limit, MAX_NESTING};
use crate::value::{views, ParsedValue, ValueView};
use vstd::prelude::*;

verus! {

/// The node type of the `yaml-rust` crate, opaque to the verifier.
#[verifier::external_type_specification]
#[verifier::external_body]
pub struct ExYaml(yaml_rust::Yaml);

/// What `yaml_rust::YamlLoader::load_from_str` yields for `source`: the
/// documents found in it, or `None` where the scanner rejects the text.
pub uninterp spec fn yaml_documents(source: Seq<char>) -> Option<Seq<ValueView>>;

/// What a loaded node holds: its variant and fields, with the items of an
/// array in order and the entries of a hash in the order in which the
/// crate's map iterates.
pub uninterp spec fn yaml_content(node: yaml_rust::Yaml) -> ValueView;

/// The contents of a run of nodes, in order.
pub open spec fn yaml_contents(nodes: Seq<yaml_rust::Yaml>) -> Seq<ValueView> {
    Seq::new(nodes.len(), |i: int| yaml_content(nodes[i]))
}

/// Whether the collections of `value` nest no deeper than `limit`.
pub open spec fn nests_within(value: ValueView, limit: nat) -> bool
    decreases limit,
{
    match value {
        ValueView::Sequence(items) => limit > 0 && forall|i: int|
            0 <= i < items.len() ==> nests_within(#[trigger] items[i], (limit - 1) as nat),
        ValueView::Mapping(entries) => limit > 0 && forall|i: int|
            0 <= i < entries.len() ==> nests_within((#[trigger] entries[i]).0, (limit - 1) as nat)
                && nests_within(entries[i].1, (limit - 1) as nat),
        _ => true,
    }
}

/// What parsing `source` gives: what the loader yields where the bound on
/// the nesting of `source` is within the limit, and `None` beyond it.
pub open spec fn parsed_documents(source: Seq<char>) -> Option<Seq<ValueView>> {
    if nesting_bound(source) <= MAX_NESTING {
        yaml_documents(source)
    } else {
        None
    }
}

/// Calls `yaml_rust::YamlLoader::load_from_str` and drops the scanner's
/// error. The loader recurses once for each collection that is open, and
/// it has no more collections open at a time than the bound on the nesting
/// of the text says, so the bound keeps the recursion shallow. Assumed: the
/// call
/// succeeds exactly where [`yaml_documents`] is `Some`, the nodes returned
/// hold those documents, and none of them nests deeper than the bound
/// allows.
#[verifier::external_body]
fn load_from_str(source: &str) -> (nodes: Option<Vec<yaml_rust::Yaml>>)
    requires
        nesting_bound(source@) <= MAX_NESTING,
    ensures
        match nodes {
            Some(found) => yaml_documents(source@) == Some(yaml_contents(found@)),
            None => yaml_documents(source@) is None,
        },
        nodes matches Some(found) ==> forall|i: int|
            0 <= i < found.len() ==> nests_within(
                yaml_content(#[trigger] found[i]),
                MAX_NESTING as nat,
            ),
{
    yaml_rust::YamlLoader::load_from_str(source).ok()
}

/// Copies a loaded node into a [`ParsedValue`], variant by variant, and
/// calls itself for the items of an array and the entries of a hash: once
/// for each level, so no deeper than the node nests. Assumed: the copy's
/// view is the node's [`yaml_content`].
#[verifier::external_body]
fn value_of(node: &yaml_rust::Yaml) -> (value: ParsedValue)
    requires
        nests_within(yaml_content(*node), MAX_NESTING as nat),
    ensures
        value@ == yaml_content(*node),
{
    match node {
        yaml_rust::Yaml::Real(s) => ParsedValue::Real(s.clone()),
        yaml_rust::Yaml::Integer(i) => ParsedValue::Integer(*i),
        yaml_rust::Yaml::String(s) => ParsedValue::Text(s.clone()),
        yaml_rust::Yaml::Boolean(b) => ParsedValue::Boolean(*b),
        yaml_rust::Yaml::Array(a) => ParsedValue::Sequence(a.iter().map(value_of).collect()),
        yaml_rust::Yaml::Hash(h) => ParsedValue::Mapping(
            h.iter().map(|(k, v)| (value_of(k), value_of(v))).collect(),
        ),
        yaml_rust::Yaml::Alias(n) => ParsedValue::Alias(*n),
        yaml_rust::Yaml::Null => ParsedValue::Null,
        yaml_rust::Yaml::BadValue => ParsedValue::Invalid,
    }
}

/// Parses `source` as a stream of structured literals. Returns the
/// documents found, or `None` where the text is not well formed or the
/// bound on its nesting is beyond the limit.
pub fn parse_documents(source: &str) -> (documents: Option<Vec<ParsedValue>>)
    ensures
        match documents {
            Some(found) => parsed_documents(source@) == Some(views(found@)),
            None => parsed_documents(source@) is None,
        },
        nesting_bound(source@) > MAX_NESTING ==> documents is None,
{
    if !within_nesting_limit(source) {
        return None;
    }
    match load_from_str(source) {
        None => None,
        Some(nodes) => {
            let mut found: Vec<ParsedValue> = Vec::new();
            let mut i: usize = 0;
            while i < nodes.len()
                invariant
                    i <= nodes.len(),
                    found.len() == i,
                    views(found@) == yaml_contents(nodes@.take(i as int)),
                    forall|k: int|
                        0 <= k < nodes.len() ==> nests_within(
                            yaml_content(#[trigger] nodes[k]),
                            MAX_NESTING as nat,
                        ),
                decreases nodes.len() - i,
            {
                let ghost before = found@;
                let value = value_of(&nodes[i]);
                found.push(value);
                assert forall|k: int| 0 <= k <= i implies views(found@)[k] == yaml_contents(
                    nodes@.take(i + 1),
                )[k] by {
                    if k < i {
                        assert(views(before)[k] == yaml_contents(nodes@.take(i as int))[k]);
                    }
                }
                assert(views(found@) =~= yaml_contents(nodes@.take(i + 1)));
                i += 1;
            }
            assert(nodes@.take(nodes.len() as int) =~= nodes@);
            Some(found)
        },
    }
}

} // verus!
