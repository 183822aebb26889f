//! The record assembler: joins the four collections that the catalog
//! document embeds into one set of instrument records.
//!
//! Identifiers, names and market tags are joined by position; the records
//! are then keyed by identifier, and the URL slugs are joined by key.

use crate::emitent::{bare_record, emitent_views, Emitent, EmitentView};
use crate::index::{
    copy_of, distinct_ids, has_id, lemma_without_keeps, with_slug, without_id, EmitentIndex,
};
use crate::value::{entry_views, to_display_string, views, ParsedValue, ValueView};
use vstd::prelude::*;

verus! {

/// The display strings of a run of values, in order.
pub open spec fn displays(values: Seq<ValueView>) -> Seq<Seq<char>> {
    Seq::new(values.len(), |i: int| values[i].display())
}

/// The display strings of the keys and values of a run of entries.
pub open spec fn slug_pairs(entries: Seq<(ValueView, ValueView)>) -> Seq<(Seq<char>, Seq<char>)> {
    Seq::new(entries.len(), |i: int| (entries[i].0.display(), entries[i].1.display()))
}

/// The record at position `i` before the records are keyed: the identifier
/// at that position, and the name and the market tag at that position where
/// there is one.
pub open spec fn positional(
    ids: Seq<Seq<char>>,
    names: Seq<Seq<char>>,
    markets: Seq<Seq<char>>,
    i: int,
) -> EmitentView {
    EmitentView {
        name: if i < names.len() {
            names[i]
        } else {
            Seq::empty()
        },
        market_id: if i < markets.len() {
            markets[i]
        } else {
            Seq::empty()
        },
        ..bare_record(i as nat, ids[i])
    }
}

/// One record for each identifier, in the order of the identifiers. A name
/// or a market tag at a position that has no identifier appears nowhere.
pub open spec fn positional_records(
    ids: Seq<Seq<char>>,
    names: Seq<Seq<char>>,
    markets: Seq<Seq<char>>,
) -> Seq<EmitentView> {
    Seq::new(ids.len(), |i: int| positional(ids, names, markets, i))
}

/// Whether the identifier of the record at position `i` occurs again
/// further on.
pub open spec fn id_recurs(records: Seq<EmitentView>, i: int) -> bool {
    exists|j: int| i < j < records.len() && records[j].id == records[i].id
}

/// Those of the first `n` records whose identifier does not occur again
/// further on, in order.
pub open spec fn rekeyed_prefix(records: Seq<EmitentView>, n: nat) -> Seq<EmitentView>
    decreases n,
{
    if n == 0 || n > records.len() {
        Seq::empty()
    } else if id_recurs(records, n - 1) {
        rekeyed_prefix(records, (n - 1) as nat)
    } else {
        rekeyed_prefix(records, (n - 1) as nat).push(records[n - 1])
    }
}

/// The records keyed by identifier: of several records with one identifier
/// the last stands, and the records keep their order.
pub open spec fn rekeyed(records: Seq<EmitentView>) -> Seq<EmitentView> {
    rekeyed_prefix(records, records.len())
}

/// The slug of the record with identifier `id`: that of the last of `slugs`
/// whose key is `id`, or `current` where there is none.
pub open spec fn slug_applied(
    slugs: Seq<(Seq<char>, Seq<char>)>,
    id: Seq<char>,
    current: Seq<char>,
) -> Seq<char>
    decreases slugs.len(),
{
    if slugs.len() == 0 {
        current
    } else if slugs.last().0 == id {
        slugs.last().1
    } else {
        slug_applied(slugs.drop_last(), id, current)
    }
}

/// `records` with each record's slug looked up in `slugs`. An entry of
/// `slugs` whose key is no record's identifier has no effect.
pub open spec fn with_slugs(records: Seq<EmitentView>, slugs: Seq<(Seq<char>, Seq<char>)>) -> Seq<
    EmitentView,
> {
    Seq::new(
        records.len(),
        |k: int| EmitentView { uri: slug_applied(slugs, records[k].id, records[k].uri), ..records[k] },
    )
}

/// The catalog assembled from the four collections.
pub open spec fn assembled(
    ids: Seq<Seq<char>>,
    names: Seq<Seq<char>>,
    markets: Seq<Seq<char>>,
    slugs: Seq<(Seq<char>, Seq<char>)>,
) -> Seq<EmitentView> {
    with_slugs(rekeyed(positional_records(ids, names, markets)), slugs)
}

/// The catalog assembled from the four parsed collections. A value that is
/// no sequence, or no mapping in the case of the slugs, counts as empty.
pub open spec fn assembled_from(
    ids: ValueView,
    names: ValueView,
    markets: ValueView,
    urls: ValueView,
) -> Seq<EmitentView> {
    assembled(
        displays(ids.items()),
        displays(names.items()),
        displays(markets.items()),
        slug_pairs(urls.entries()),
    )
}

/// `records` with the names at their positions.
pub open spec fn with_names(records: Seq<EmitentView>, names: Seq<Seq<char>>) -> Seq<EmitentView> {
    Seq::new(
        records.len(),
        |i: int|
            if i < names.len() {
                EmitentView { name: names[i], ..records[i] }
            } else {
                records[i]
            },
    )
}

/// `records` with the market tags at their positions.
pub open spec fn with_markets(records: Seq<EmitentView>, markets: Seq<Seq<char>>) -> Seq<
    EmitentView,
> {
    Seq::new(
        records.len(),
        |i: int|
            if i < markets.len() {
                EmitentView { market_id: markets[i], ..records[i] }
            } else {
                records[i]
            },
    )
}

/// Keying one more record replaces the record that had its identifier.
pub proof fn lemma_rekeyed_push(records: Seq<EmitentView>, record: EmitentView)
    ensures
        rekeyed(records.push(record)) == without_id(rekeyed(records), record.id).push(record),
{
    let longer = records.push(record);
    lemma_rekeyed_prefix_push(records, record, records.len());
    assert(!id_recurs(longer, records.len() as int));
    assert(longer[records.len() as int] == record);
}

proof fn lemma_rekeyed_prefix_push(records: Seq<EmitentView>, record: EmitentView, n: nat)
    requires
        n <= records.len(),
    ensures
        rekeyed_prefix(records.push(record), n) == without_id(
            rekeyed_prefix(records, n),
            record.id,
        ),
    decreases n,
{
    let longer = records.push(record);
    if n > 0 {
        lemma_rekeyed_prefix_push(records, record, (n - 1) as nat);
        let at = n - 1;
        let kept = rekeyed_prefix(records, (n - 1) as nat);
        assert(longer[at] == records[at]);
        assert(id_recurs(longer, at) <==> (id_recurs(records, at) || records[at].id == record.id))
            by {
            if id_recurs(longer, at) {
                let j = choose|j: int| at < j < longer.len() && longer[j].id == longer[at].id;
                if j < records.len() {
                    assert(records[j].id == records[at].id);
                }
            }
            if id_recurs(records, at) {
                let j = choose|j: int| at < j < records.len() && records[j].id == records[at].id;
                assert(longer[j].id == longer[at].id);
            }
            if records[at].id == record.id {
                assert(longer[records.len() as int].id == longer[at].id);
            }
        }
        if !id_recurs(records, at) {
            assert(kept.push(records[at]).drop_last() =~= kept);
            assert(kept.push(records[at]).last() == records[at]);
        }
    }
}

/// No identifier occurs twice among keyed records, and each of them is one
/// of the records that were keyed.
pub proof fn lemma_rekeyed_distinct(records: Seq<EmitentView>)
    ensures
        distinct_ids(rekeyed(records)),
        forall|k: int|
            0 <= k < rekeyed(records).len() ==> records.contains(#[trigger] rekeyed(records)[k]),
        rekeyed(records).len() <= records.len(),
    decreases records.len(),
{
    if records.len() > 0 {
        let shorter = records.drop_last();
        let last = records.last();
        assert(shorter.push(last) =~= records);
        lemma_rekeyed_distinct(shorter);
        lemma_rekeyed_push(shorter, last);
        lemma_without_keeps(rekeyed(shorter), last.id);
        let left = without_id(rekeyed(shorter), last.id);
        let keyed = rekeyed(records);
        assert(keyed == left.push(last));
        assert forall|i: int, j: int| 0 <= i < j < keyed.len() implies keyed[i].id
            != keyed[j].id by {
            if j == left.len() {
                assert(left[i].id != last.id) by {
                    if left[i].id == last.id {
                        assert(has_id(left, last.id));
                    }
                }
            } else {
                assert(left[i].id != left[j].id);
            }
        }
        assert forall|k: int| 0 <= k < keyed.len() implies records.contains(
            #[trigger] keyed[k],
        ) by {
            if k < left.len() {
                assert(rekeyed(shorter).contains(left[k]));
                let a = choose|a: int|
                    0 <= a < rekeyed(shorter).len() && rekeyed(shorter)[a] == left[k];
                assert(shorter.contains(rekeyed(shorter)[a]));
                let b = choose|b: int| 0 <= b < shorter.len() && shorter[b] == rekeyed(shorter)[a];
                assert(records[b] == keyed[k]);
            } else {
                assert(records[records.len() - 1] == keyed[k]);
            }
        }
    }
}

/// Looking up one more slug entry gives its slug to the records that have
/// its key.
pub proof fn lemma_with_slugs_push(
    records: Seq<EmitentView>,
    slugs: Seq<(Seq<char>, Seq<char>)>,
    entry: (Seq<char>, Seq<char>),
)
    ensures
        with_slugs(records, slugs.push(entry)) == with_slug(
            with_slugs(records, slugs),
            entry.0,
            entry.1,
        ),
{
    let longer = slugs.push(entry);
    assert(longer.drop_last() =~= slugs);
    assert(longer.last() == entry);
    assert(with_slugs(records, longer) =~= with_slug(with_slugs(records, slugs), entry.0, entry.1));
}

/// A field that is joined by position.
#[derive(Clone, Copy)]
enum Joined {
    Name,
    MarketId,
}

/// `record` with `text` in the field `field`.
spec fn with_text(record: EmitentView, field: Joined, text: Seq<char>) -> EmitentView {
    match field {
        Joined::Name => EmitentView { name: text, ..record },
        Joined::MarketId => EmitentView { market_id: text, ..record },
    }
}

/// `records` with the texts at their positions in the field `field`.
spec fn with_texts(records: Seq<EmitentView>, field: Joined, texts: Seq<Seq<char>>) -> Seq<
    EmitentView,
> {
    Seq::new(
        records.len(),
        |i: int|
            if i < texts.len() {
                with_text(records[i], field, texts[i])
            } else {
                records[i]
            },
    )
}

fn set_text(record: &Emitent, field: Joined, text: String) -> (changed: Emitent)
    ensures
        changed@ == with_text(record@, field, text@),
{
    let mut changed = copy_of(record);
    match field {
        Joined::Name => {
            changed.name = text;
        },
        Joined::MarketId => {
            changed.market_id = text;
        },
    }
    changed
}

/// Gives each record the display string of the item at its position, in
/// the field `field`. An item at a position that has no record is dropped.
fn join_by_position(records: &mut Vec<Emitent>, items: &ParsedValue, field: Joined)
    ensures
        emitent_views(final(records)@) == with_texts(
            emitent_views(old(records)@),
            field,
            displays(items@.items()),
        ),
{
    let ghost before = emitent_views(records@);
    let ghost shown = displays(items@.items());
    match items.as_vec() {
        None => {
            assert(emitent_views(records@) =~= with_texts(before, field, shown));
        },
        Some(items) => {
            let mut i: usize = 0;
            assert(emitent_views(records@) =~= with_texts(before, field, shown.take(0)));
            while i < items.len()
                invariant
                    i <= items.len(),
                    shown == displays(views(items@)),
                    records.len() == before.len(),
                    emitent_views(records@) == with_texts(before, field, shown.take(i as int)),
                decreases items.len() - i,
            {
                let ghost held = emitent_views(records@);
                if i < records.len() {
                    let text = to_display_string(&items[i]);
                    assert(text@ == shown[i as int]);
                    let changed = set_text(&records[i], field, text);
                    assert(held[i as int] == before[i as int]);
                    records.set(i, changed);
                }
                assert forall|k: int| 0 <= k < before.len() implies emitent_views(records@)[k]
                    == with_texts(before, field, shown.take(i + 1))[k] by {
                    assert(held[k] == with_texts(before, field, shown.take(i as int))[k]);
                }
                assert(emitent_views(records@) =~= with_texts(before, field, shown.take(i + 1)));
                i += 1;
            }
            assert(shown.take(items.len() as int) =~= shown);
        },
    }
}

/// Makes one record for each item of the identifier collection, in order:
/// the record's position is that of the item and its identifier is the
/// item's display string.
pub fn records_by_position(ids: &ParsedValue) -> (records: Vec<Emitent>)
    ensures
        emitent_views(records@) == positional_records(
            displays(ids@.items()),
            Seq::empty(),
            Seq::empty(),
        ),
{
    let ghost shown = displays(ids@.items());
    let ghost wanted = positional_records(shown, Seq::empty(), Seq::empty());
    let mut records: Vec<Emitent> = Vec::new();
    match ids.as_vec() {
        None => {
            assert(emitent_views(records@) =~= wanted);
        },
        Some(items) => {
            let mut i: usize = 0;
            assert(emitent_views(records@) =~= wanted.take(0));
            while i < items.len()
                invariant
                    i <= items.len(),
                    records.len() == i,
                    ids@.items() == views(items@),
                    shown == displays(ids@.items()),
                    wanted == positional_records(shown, Seq::empty(), Seq::empty()),
                    emitent_views(records@) == wanted.take(i as int),
                decreases items.len() - i,
            {
                let ghost held = emitent_views(records@);
                let id = to_display_string(&items[i]);
                assert(id@ == shown[i as int]);
                let record = Emitent::bare(i as u64, id);
                assert(record@ == wanted[i as int]);
                records.push(record);
                assert(emitent_views(records@) =~= held.push(wanted[i as int]));
                assert(held.push(wanted[i as int]) =~= wanted.take(i + 1));
                i += 1;
            }
            assert(wanted.take(items.len() as int) =~= wanted);
        },
    }
    records
}

/// Gives each record the name at its position. A name at a position that
/// has no record is dropped.
pub fn join_names(records: &mut Vec<Emitent>, names: &ParsedValue)
    ensures
        emitent_views(final(records)@) == with_names(
            emitent_views(old(records)@),
            displays(names@.items()),
        ),
{
    let ghost before = emitent_views(records@);
    join_by_position(records, names, Joined::Name);
    assert(with_texts(before, Joined::Name, displays(names@.items())) =~= with_names(
        before,
        displays(names@.items()),
    ));
}

/// Gives each record the market tag at its position. A tag at a position
/// that has no record is dropped.
pub fn join_markets(records: &mut Vec<Emitent>, markets: &ParsedValue)
    ensures
        emitent_views(final(records)@) == with_markets(
            emitent_views(old(records)@),
            displays(markets@.items()),
        ),
{
    let ghost before = emitent_views(records@);
    join_by_position(records, markets, Joined::MarketId);
    assert(with_texts(before, Joined::MarketId, displays(markets@.items())) =~= with_markets(
        before,
        displays(markets@.items()),
    ));
}

/// Keys the records by identifier. Of several records with one identifier
/// the last stands.
pub fn rekey(records: Vec<Emitent>) -> (index: EmitentIndex)
    ensures
        index@ == rekeyed(emitent_views(records@)),
{
    let ghost all = emitent_views(records@);
    let mut index = EmitentIndex::new();
    let mut records = records;
    let mut reversed: Vec<Emitent> = Vec::new();
    // Records are moved out from the back, then inserted from the front.
    while records.len() > 0
        invariant
            records.len() + reversed.len() == all.len(),
            emitent_views(records@) == all.take(records.len() as int),
            forall|k: int|
                0 <= k < reversed.len() ==> #[trigger] reversed@[k]@ == all[all.len() - 1 - k],
        decreases records.len(),
    {
        let ghost held = emitent_views(records@);
        let record = records.pop().unwrap();
        assert(record@ == held[held.len() - 1]);
        reversed.push(record);
        assert(emitent_views(records@) =~= all.take(records.len() as int));
    }
    assert(index@ =~= rekeyed(all.take(0)));
    while reversed.len() > 0
        invariant
            reversed.len() <= all.len(),
            forall|k: int|
                0 <= k < reversed.len() ==> #[trigger] reversed@[k]@ == all[all.len() - 1 - k],
            index@ == rekeyed(all.take(all.len() - reversed.len())),
        decreases reversed.len(),
    {
        let ghost done = all.len() - reversed.len();
        let record = reversed.pop().unwrap();
        assert(record@ == all[done]);
        proof {
            lemma_rekeyed_push(all.take(done), all[done]);
            assert(all.take(done).push(all[done]) =~= all.take(done + 1));
        }
        index.insert(record);
    }
    assert(all.take(all.len() as int) =~= all);
    index
}

/// Gives each record the slug stored under its identifier in the slug
/// mapping. An entry whose key is no record's identifier is dropped; of
/// several entries with one key the last stands.
pub fn apply_slugs(index: &mut EmitentIndex, urls: &ParsedValue)
    ensures
        final(index)@ == with_slugs(old(index)@, slug_pairs(urls@.entries())),
{
    let ghost before = index@;
    let ghost pairs = slug_pairs(urls@.entries());
    match urls.as_hash() {
        None => {
            assert(index@ =~= with_slugs(before, pairs));
        },
        Some(entries) => {
            let mut i: usize = 0;
            assert(index@ =~= with_slugs(before, pairs.take(0)));
            while i < entries.len()
                invariant
                    i <= entries.len(),
                    urls@.entries() == entry_views(entries@),
                    pairs == slug_pairs(urls@.entries()),
                    index@ == with_slugs(before, pairs.take(i as int)),
                decreases entries.len() - i,
            {
                let id = to_display_string(&entries[i].0);
                let uri = to_display_string(&entries[i].1);
                proof {
                    assert(pairs[i as int] == (id@, uri@));
                    lemma_with_slugs_push(before, pairs.take(i as int), pairs[i as int]);
                    assert(pairs.take(i as int).push(pairs[i as int]) =~= pairs.take(i + 1));
                }
                let _ = index.set_uri(&id, uri);
                i += 1;
            }
            assert(pairs.take(entries.len() as int) =~= pairs);
        },
    }
}

/// Joins the four parsed collections into the catalog's records.
pub fn join_records(
    ids: &ParsedValue,
    names: &ParsedValue,
    markets: &ParsedValue,
    urls: &ParsedValue,
) -> (records: Vec<Emitent>)
    ensures
        emitent_views(records@) == assembled_from(ids@, names@, markets@, urls@),
        distinct_ids(emitent_views(records@)),
{
    let mut by_position = records_by_position(ids);
    join_names(&mut by_position, names);
    join_markets(&mut by_position, markets);
    proof {
        let shown = displays(ids@.items());
        let bare = positional_records(shown, Seq::empty(), Seq::empty());
        assert(with_markets(with_names(bare, displays(names@.items())), displays(markets@.items()))
            =~= positional_records(shown, displays(names@.items()), displays(markets@.items())));
    }
    let mut by_id = rekey(by_position);
    apply_slugs(&mut by_id, urls);
    by_id.into_records()
}

} // verus!
