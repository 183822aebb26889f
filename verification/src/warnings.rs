//! What the record assembler drops or leaves empty, told as plain values:
//! values of a shape that has no display string, values at positions that
//! have no identifier, and slug entries under unknown keys.

use crate::catalog::displays;
use crate::error::{Region, Warning};
use crate::value::{entry_views, to_display_string, views, ParsedValue, ValueView};
use vstd::prelude::*;

verus! {

/// The warnings for the first `n` items of a collection that is joined by
/// position, where the first `known` positions have an identifier: an item
/// beyond them is an orphan, and an item among them that is no scalar has
/// an unexpected shape.
pub open spec fn positional_warnings(
    region: Region,
    items: Seq<ValueView>,
    known: nat,
    n: nat,
) -> Seq<Warning>
    decreases n,
{
    if n == 0 || n > items.len() {
        Seq::empty()
    } else {
        let before = positional_warnings(region, items, known, (n - 1) as nat);
        if n - 1 >= known {
            before.push(Warning::Orphan(region, (n - 1) as usize))
        } else if !items[n - 1].is_scalar() {
            before.push(Warning::UnexpectedShape(region, (n - 1) as usize))
        } else {
            before
        }
    }
}

/// Whether `id` is one of `ids`.
pub open spec fn knows(ids: Seq<Seq<char>>, id: Seq<char>) -> bool {
    exists|i: int| 0 <= i < ids.len() && ids[i] == id
}

/// The warnings for one slug entry at position `at`: one for a key that is
/// no scalar, then one for a key that is no identifier, or else one for a
/// slug that is no scalar.
pub open spec fn entry_warnings(entry: (ValueView, ValueView), ids: Seq<Seq<char>>, at: usize) -> Seq<
    Warning,
> {
    let keyed = if entry.0.is_scalar() {
        Seq::<Warning>::empty()
    } else {
        seq![Warning::UnexpectedShape(Region::Urls, at)]
    };
    if !knows(ids, entry.0.display()) {
        keyed.push(Warning::UnknownSlugKey(at))
    } else if !entry.1.is_scalar() {
        keyed.push(Warning::UnexpectedShape(Region::Urls, at))
    } else {
        keyed
    }
}

/// The warnings for the first `n` slug entries.
pub open spec fn slug_warnings(
    entries: Seq<(ValueView, ValueView)>,
    ids: Seq<Seq<char>>,
    n: nat,
) -> Seq<Warning>
    decreases n,
{
    if n == 0 || n > entries.len() {
        Seq::empty()
    } else {
        slug_warnings(entries, ids, (n - 1) as nat) + entry_warnings(
            entries[n - 1],
            ids,
            (n - 1) as usize,
        )
    }
}

/// The warnings that joining the four parsed collections gives, in the
/// order of the join: identifiers, names, market tags, slugs.
pub open spec fn join_warnings_of(
    ids: ValueView,
    names: ValueView,
    markets: ValueView,
    urls: ValueView,
) -> Seq<Warning> {
    let known = ids.items().len();
    positional_warnings(Region::Ids, ids.items(), known, known) + positional_warnings(
        Region::Names,
        names.items(),
        known,
        names.items().len(),
    ) + positional_warnings(Region::Markets, markets.items(), known, markets.items().len())
        + slug_warnings(urls.entries(), displays(ids.items()), urls.entries().len())
}

/// The display strings of the items of a collection.
pub fn display_strings(collection: &ParsedValue) -> (texts: Vec<String>)
    ensures
        texts.deep_view() == displays(collection@.items()),
{
    let mut texts: Vec<String> = Vec::new();
    match collection.as_vec() {
        None => {
            assert(texts.deep_view() =~= displays(collection@.items()));
        },
        Some(items) => {
            let ghost shown = displays(collection@.items());
            let mut i: usize = 0;
            assert(texts.deep_view() =~= shown.take(0));
            while i < items.len()
                invariant
                    i <= items.len(),
                    texts.len() == i,
                    collection@.items() == views(items@),
                    shown == displays(collection@.items()),
                    texts.deep_view() == shown.take(i as int),
                decreases items.len() - i,
            {
                let ghost held = texts.deep_view();
                let text = to_display_string(&items[i]);
                texts.push(text);
                assert(texts.deep_view() =~= held.push(shown[i as int]));
                assert(held.push(shown[i as int]) =~= shown.take(i + 1));
                i += 1;
            }
            assert(shown.take(items.len() as int) =~= shown);
        },
    }
    texts
}

/// Tells whether `id` is one of `ids`.
pub fn knows_id(ids: &Vec<String>, id: &String) -> (known: bool)
    ensures
        known == knows(ids.deep_view(), id@),
{
    let mut i: usize = 0;
    while i < ids.len()
        invariant
            i <= ids.len(),
            forall|k: int| 0 <= k < i ==> ids.deep_view()[k] != id@,
        decreases ids.len() - i,
    {
        if ids[i] == *id {
            assert(ids.deep_view()[i as int] == id@);
            return true;
        }
        i += 1;
    }
    false
}

/// Adds the warnings for a collection that is joined by position.
pub fn note_positions(
    notes: &mut Vec<Warning>,
    region: Region,
    collection: &ParsedValue,
    known: usize,
)
    ensures
        final(notes)@ == old(notes)@ + positional_warnings(
            region,
            collection@.items(),
            known as nat,
            collection@.items().len(),
        ),
{
    let ghost before = notes@;
    let ghost all = collection@.items();
    match collection.as_vec() {
        None => {
            assert(notes@ =~= before + positional_warnings(region, all, known as nat, 0));
        },
        Some(items) => {
            let mut i: usize = 0;
            assert(notes@ =~= before + positional_warnings(region, all, known as nat, 0));
            while i < items.len()
                invariant
                    i <= items.len(),
                    all == views(items@),
                    notes@ == before + positional_warnings(region, all, known as nat, i as nat),
                decreases items.len() - i,
            {
                let ghost held = positional_warnings(region, all, known as nat, i as nat);
                if i >= known {
                    notes.push(Warning::Orphan(region, i));
                    assert(notes@ =~= before + held.push(Warning::Orphan(region, i)));
                } else if !items[i].is_scalar() {
                    notes.push(Warning::UnexpectedShape(region, i));
                    assert(notes@ =~= before + held.push(Warning::UnexpectedShape(region, i)));
                }
                i += 1;
            }
        },
    }
}

/// Adds the warnings for the slug entries, where `ids` are the display
/// strings of the identifiers.
pub fn note_slugs(notes: &mut Vec<Warning>, urls: &ParsedValue, ids: &Vec<String>)
    ensures
        final(notes)@ == old(notes)@ + slug_warnings(
            urls@.entries(),
            ids.deep_view(),
            urls@.entries().len(),
        ),
{
    let ghost before = notes@;
    let ghost all = urls@.entries();
    let ghost known = ids.deep_view();
    match urls.as_hash() {
        None => {
            assert(notes@ =~= before + slug_warnings(all, known, 0));
        },
        Some(entries) => {
            let mut i: usize = 0;
            assert(notes@ =~= before + slug_warnings(all, known, 0));
            while i < entries.len()
                invariant
                    i <= entries.len(),
                    all == entry_views(entries@),
                    known == ids.deep_view(),
                    notes@ == before + slug_warnings(all, known, i as nat),
                decreases entries.len() - i,
            {
                let ghost held = slug_warnings(all, known, i as nat);
                let ghost entry = all[i as int];
                let ghost held_notes = notes@;
                if !entries[i].0.is_scalar() {
                    notes.push(Warning::UnexpectedShape(Region::Urls, i));
                }
                let key = to_display_string(&entries[i].0);
                if !knows_id(ids, &key) {
                    notes.push(Warning::UnknownSlugKey(i));
                } else if !entries[i].1.is_scalar() {
                    notes.push(Warning::UnexpectedShape(Region::Urls, i));
                }
                assert(notes@ =~= held_notes + entry_warnings(entry, known, i));
                assert(held_notes + entry_warnings(entry, known, i) =~= before + (held
                    + entry_warnings(entry, known, i)));
                i += 1;
            }
        },
    }
}

/// Collects the warnings that joining the four parsed collections gives:
/// what [`crate::catalog::join_records`] drops or leaves empty.
pub fn join_warnings(
    ids: &ParsedValue,
    names: &ParsedValue,
    markets: &ParsedValue,
    urls: &ParsedValue,
) -> (notes: Vec<Warning>)
    ensures
        notes@ == join_warnings_of(ids@, names@, markets@, urls@),
{
    let known = display_strings(ids);
    assert(known.len() == ids@.items().len()) by {
        assert(known.deep_view().len() == displays(ids@.items()).len());
    }
    let mut notes: Vec<Warning> = Vec::new();
    note_positions(&mut notes, Region::Ids, ids, known.len());
    let ghost first = notes@;
    note_positions(&mut notes, Region::Names, names, known.len());
    let ghost second = notes@;
    note_positions(&mut notes, Region::Markets, markets, known.len());
    let ghost third = notes@;
    note_slugs(&mut notes, urls, &known);
    proof {
        let n = ids@.items().len();
        let a = positional_warnings(Region::Ids, ids@.items(), n, n);
        let b = positional_warnings(Region::Names, names@.items(), n, names@.items().len());
        let c = positional_warnings(Region::Markets, markets@.items(), n, markets@.items().len());
        let d = slug_warnings(urls@.entries(), displays(ids@.items()), urls@.entries().len());
        assert(first =~= a);
        assert(second =~= a + b);
        assert(third =~= a + b + c);
        assert(notes@ =~= a + b + c + d);
    }
    notes
}

} // verus!
