//! What holds of every assembled catalog.

use crate::catalog::{
    assembled, assembled_from, id_recurs, lemma_rekeyed_distinct, positional, positional_records, rekeyed,
    rekeyed_prefix, slug_applied, with_slugs,
};
use crate::assemble::catalog_of;
use crate::emitent::EmitentView;
use crate::error::{CatalogError, Region};
use crate::index::distinct_ids;
use crate::value::ValueView;
use vstd::prelude::*;

verus! {

/// No two of `ids` are equal.
pub open spec fn pairwise_distinct(ids: Seq<Seq<char>>) -> bool {
    forall|i: int, j: int| 0 <= i < j < ids.len() ==> ids[i] != ids[j]
}

proof fn lemma_rekeyed_prefix_of_distinct(records: Seq<EmitentView>, n: nat)
    requires
        distinct_ids(records),
        n <= records.len(),
    ensures
        rekeyed_prefix(records, n) == records.take(n as int),
    decreases n,
{
    if n > 0 {
        lemma_rekeyed_prefix_of_distinct(records, (n - 1) as nat);
        let at = n - 1;
        assert(!id_recurs(records, at)) by {
            if id_recurs(records, at) {
                let j = choose|j: int| at < j < records.len() && records[j].id == records[at].id;
                assert(records[at].id != records[j].id);
            }
        }
        assert(records.take(n - 1).push(records[n - 1]) =~= records.take(n as int));
    } else {
        assert(records.take(0) =~= Seq::<EmitentView>::empty());
    }
}

/// In every assembled catalog, no two records share an identifier, each
/// record stands for one position of the identifier collection, and there
/// are no more records than identifiers.
pub proof fn lemma_identifiers_are_unique(
    ids: Seq<Seq<char>>,
    names: Seq<Seq<char>>,
    markets: Seq<Seq<char>>,
    slugs: Seq<(Seq<char>, Seq<char>)>,
)
    ensures
        distinct_ids(assembled(ids, names, markets, slugs)),
        assembled(ids, names, markets, slugs).len() <= ids.len(),
        forall|k: int|
            0 <= k < assembled(ids, names, markets, slugs).len() ==> {
                let record = #[trigger] assembled(ids, names, markets, slugs)[k];
                &&& record.internal_id < ids.len()
                &&& record.id == ids[record.internal_id as int]
            },
{
    let by_position = positional_records(ids, names, markets);
    let keyed = rekeyed(by_position);
    let catalog = assembled(ids, names, markets, slugs);
    lemma_rekeyed_distinct(by_position);
    assert forall|i: int, j: int| 0 <= i < j < catalog.len() implies catalog[i].id
        != catalog[j].id by {
        assert(keyed[i].id != keyed[j].id);
    }
    assert forall|k: int| 0 <= k < catalog.len() implies {
        let record = #[trigger] catalog[k];
        &&& record.internal_id < ids.len()
        &&& record.id == ids[record.internal_id as int]
    } by {
        assert(by_position.contains(keyed[k]));
        let at = choose|at: int| 0 <= at < by_position.len() && by_position[at] == keyed[k];
        assert(by_position[at] == positional(ids, names, markets, at));
    }
}

/// Where the identifiers are pairwise distinct, the assembled catalog holds
/// exactly one record for each of them, in their order, and no two records
/// share an identifier.
pub proof fn lemma_one_record_per_identifier(
    ids: Seq<Seq<char>>,
    names: Seq<Seq<char>>,
    markets: Seq<Seq<char>>,
    slugs: Seq<(Seq<char>, Seq<char>)>,
)
    requires
        pairwise_distinct(ids),
    ensures
        assembled(ids, names, markets, slugs).len() == ids.len(),
        forall|i: int|
            0 <= i < ids.len() ==> (#[trigger] assembled(ids, names, markets, slugs)[i]).id
                == ids[i],
        forall|i: int|
            0 <= i < ids.len() ==> (#[trigger] assembled(ids, names, markets, slugs)[i])
                == (EmitentView {
                uri: slug_applied(slugs, ids[i], Seq::empty()),
                ..positional(ids, names, markets, i)
            }),
        distinct_ids(assembled(ids, names, markets, slugs)),
{
    let by_position = positional_records(ids, names, markets);
    assert(distinct_ids(by_position)) by {
        assert forall|i: int, j: int| 0 <= i < j < by_position.len() implies by_position[i].id
            != by_position[j].id by {
            assert(ids[i] != ids[j]);
        }
    }
    lemma_rekeyed_prefix_of_distinct(by_position, by_position.len());
    assert(by_position.take(by_position.len() as int) =~= by_position);
    lemma_identifiers_are_unique(ids, names, markets, slugs);
}

/// A name at a position that has no identifier is dropped: the catalog is
/// the one assembled without the names beyond the last identifier.
pub proof fn lemma_orphan_names_are_dropped(
    ids: Seq<Seq<char>>,
    names: Seq<Seq<char>>,
    markets: Seq<Seq<char>>,
    slugs: Seq<(Seq<char>, Seq<char>)>,
)
    requires
        names.len() > ids.len(),
    ensures
        assembled(ids, names, markets, slugs) == assembled(
            ids,
            names.take(ids.len() as int),
            markets,
            slugs,
        ),
{
    assert(positional_records(ids, names, markets) =~= positional_records(
        ids,
        names.take(ids.len() as int),
        markets,
    ));
}

/// A market tag at a position that has no identifier is dropped: the
/// catalog is the one assembled without the tags beyond the last
/// identifier.
pub proof fn lemma_orphan_markets_are_dropped(
    ids: Seq<Seq<char>>,
    names: Seq<Seq<char>>,
    markets: Seq<Seq<char>>,
    slugs: Seq<(Seq<char>, Seq<char>)>,
)
    requires
        markets.len() > ids.len(),
    ensures
        assembled(ids, names, markets, slugs) == assembled(
            ids,
            names,
            markets.take(ids.len() as int),
            slugs,
        ),
{
    assert(positional_records(ids, names, markets) =~= positional_records(
        ids,
        names,
        markets.take(ids.len() as int),
    ));
}

proof fn lemma_slug_applied_without(
    slugs: Seq<(Seq<char>, Seq<char>)>,
    at: int,
    id: Seq<char>,
    current: Seq<char>,
)
    requires
        0 <= at < slugs.len(),
        slugs[at].0 != id,
    ensures
        slug_applied(slugs.remove(at), id, current) == slug_applied(slugs, id, current),
    decreases slugs.len(),
{
    let shorter = slugs.drop_last();
    if at == slugs.len() - 1 {
        assert(slugs.remove(at) =~= shorter);
    } else {
        let left = slugs.remove(at);
        assert(left.last() == slugs.last());
        assert(left.drop_last() =~= shorter.remove(at));
        if slugs.last().0 != id {
            lemma_slug_applied_without(shorter, at, id, current);
        }
    }
}

/// A slug entry whose key is none of the identifiers is dropped: the
/// catalog is the one assembled without that entry.
pub proof fn lemma_unknown_slug_is_dropped(
    ids: Seq<Seq<char>>,
    names: Seq<Seq<char>>,
    markets: Seq<Seq<char>>,
    slugs: Seq<(Seq<char>, Seq<char>)>,
    at: int,
)
    requires
        0 <= at < slugs.len(),
        forall|i: int| 0 <= i < ids.len() ==> ids[i] != slugs[at].0,
    ensures
        assembled(ids, names, markets, slugs) == assembled(ids, names, markets, slugs.remove(at)),
{
    let by_position = positional_records(ids, names, markets);
    let keyed = rekeyed(by_position);
    lemma_rekeyed_distinct(by_position);
    assert forall|k: int| 0 <= k < keyed.len() implies with_slugs(keyed, slugs)[k] == with_slugs(
        keyed,
        slugs.remove(at),
    )[k] by {
        assert(by_position.contains(keyed[k]));
        let p = choose|p: int| 0 <= p < by_position.len() && by_position[p] == keyed[k];
        assert(keyed[k].id == ids[p]);
        lemma_slug_applied_without(slugs, at, keyed[k].id, keyed[k].uri);
    }
    assert(with_slugs(keyed, slugs) =~= with_slugs(keyed, slugs.remove(at)));
}

/// Whether the identifier at position `p` occurs again further on.
pub open spec fn recurs(ids: Seq<Seq<char>>, p: int) -> bool {
    exists|j: int| p < j < ids.len() && ids[j] == ids[p]
}

/// Whether one of `records` stands for the position `p`.
pub open spec fn has_position(records: Seq<EmitentView>, p: int) -> bool {
    exists|k: int| 0 <= k < records.len() && records[k].internal_id == p
}

proof fn lemma_rekeyed_prefix_positions(records: Seq<EmitentView>, n: nat)
    requires
        n <= records.len(),
        forall|i: int| 0 <= i < records.len() ==> (#[trigger] records[i]).internal_id == i,
    ensures
        forall|k: int|
            0 <= k < rekeyed_prefix(records, n).len() ==> {
                let record = #[trigger] rekeyed_prefix(records, n)[k];
                &&& record.internal_id < n
                &&& record == records[record.internal_id as int]
                &&& !id_recurs(records, record.internal_id as int)
            },
        forall|i: int, j: int|
            0 <= i < j < rekeyed_prefix(records, n).len() ==> (#[trigger] rekeyed_prefix(
                records,
                n,
            )[i]).internal_id < (#[trigger] rekeyed_prefix(records, n)[j]).internal_id,
        forall|p: int|
            0 <= p < n && !id_recurs(records, p) ==> #[trigger] has_position(
                rekeyed_prefix(records, n),
                p,
            ),
    decreases n,
{
    let kept = rekeyed_prefix(records, n);
    if n > 0 {
        let at = n - 1;
        let before = rekeyed_prefix(records, at as nat);
        lemma_rekeyed_prefix_positions(records, at as nat);
        assert forall|k: int| 0 <= k < kept.len() implies {
            let record = #[trigger] kept[k];
            &&& record.internal_id < n
            &&& record == records[record.internal_id as int]
            &&& !id_recurs(records, record.internal_id as int)
        } by {
            if k < before.len() {
                assert(kept[k] == before[k]);
            } else {
                assert(kept[k] == records[at]);
            }
        }
        assert forall|i: int, j: int| 0 <= i < j < kept.len() implies (#[trigger] kept[i]).internal_id
            < (#[trigger] kept[j]).internal_id by {
            assert(kept[i] == before[i]);
            if j < before.len() {
                assert(kept[j] == before[j]);
            } else {
                assert(kept[j] == records[at]);
            }
        }
        assert forall|p: int| 0 <= p < n && !id_recurs(records, p) implies #[trigger] has_position(
            kept,
            p,
        ) by {
            if p < at {
                assert(has_position(before, p));
                let k = choose|k: int| 0 <= k < before.len() && before[k].internal_id == p;
                assert(kept[k] == before[k]);
            } else {
                assert(kept[kept.len() - 1] == records[at]);
            }
        }
    }
}

/// The records of an assembled catalog are those of the positions whose
/// identifier does not occur again further on: each record is the record of
/// its position with its slug looked up, the records stand in the order of
/// their positions, and each such position has its record. The market name
/// and the trading code of every record are empty.
pub proof fn lemma_last_occurrences_stand(
    ids: Seq<Seq<char>>,
    names: Seq<Seq<char>>,
    markets: Seq<Seq<char>>,
    slugs: Seq<(Seq<char>, Seq<char>)>,
)
    ensures
        forall|k: int|
            0 <= k < assembled(ids, names, markets, slugs).len() ==> {
                let record = #[trigger] assembled(ids, names, markets, slugs)[k];
                let p = record.internal_id as int;
                &&& p < ids.len()
                &&& !recurs(ids, p)
                &&& record == (EmitentView {
                    uri: slug_applied(slugs, ids[p], Seq::empty()),
                    ..positional(ids, names, markets, p)
                })
                &&& record.market_name.len() == 0
                &&& record.code.len() == 0
            },
        forall|i: int, j: int|
            0 <= i < j < assembled(ids, names, markets, slugs).len() ==> (#[trigger] assembled(
                ids,
                names,
                markets,
                slugs,
            )[i]).internal_id < (#[trigger] assembled(ids, names, markets, slugs)[j]).internal_id,
        forall|p: int|
            0 <= p < ids.len() && !recurs(ids, p) ==> #[trigger] has_position(
                assembled(ids, names, markets, slugs),
                p,
            ),
{
    let by_position = positional_records(ids, names, markets);
    let keyed = rekeyed(by_position);
    let catalog = assembled(ids, names, markets, slugs);
    lemma_rekeyed_prefix_positions(by_position, by_position.len());
    assert forall|p: int| 0 <= p < ids.len() implies (id_recurs(by_position, p) <==> recurs(
        ids,
        p,
    )) by {
        if id_recurs(by_position, p) {
            let j = choose|j: int| p < j < by_position.len() && by_position[j].id == by_position[p].id;
            assert(ids[j] == ids[p]);
        }
        if recurs(ids, p) {
            let j = choose|j: int| p < j < ids.len() && ids[j] == ids[p];
            assert(by_position[j].id == by_position[p].id);
        }
    }
    assert forall|k: int| 0 <= k < catalog.len() implies {
        let record = #[trigger] catalog[k];
        let p = record.internal_id as int;
        &&& p < ids.len()
        &&& !recurs(ids, p)
        &&& record == (EmitentView {
            uri: slug_applied(slugs, ids[p], Seq::empty()),
            ..positional(ids, names, markets, p)
        })
        &&& record.market_name.len() == 0
        &&& record.code.len() == 0
    } by {
        let kept = keyed[k];
        assert(kept == by_position[kept.internal_id as int]);
    }
    assert forall|i: int, j: int| 0 <= i < j < catalog.len() implies (#[trigger] catalog[i]).internal_id
        < (#[trigger] catalog[j]).internal_id by {
        assert(keyed[i].internal_id < keyed[j].internal_id);
    }
    assert forall|p: int| 0 <= p < ids.len() && !recurs(ids, p) implies #[trigger] has_position(
        catalog,
        p,
    ) by {
        assert(has_position(keyed, p));
        let k = choose|k: int| 0 <= k < keyed.len() && keyed[k].internal_id == p;
        assert(catalog[k].internal_id == p);
    }
}

/// A collection for which extraction found nothing makes assembly fail,
/// and the first such collection is named where no collection before it is
/// missing or ambiguous.
pub proof fn lemma_absent_region_is_reported(
    ids: Seq<ValueView>,
    names: Seq<ValueView>,
    markets: Seq<ValueView>,
    urls: Seq<ValueView>,
)
    requires
        ids.len() == 0 || names.len() == 0 || markets.len() == 0 || urls.len() == 0,
    ensures
        catalog_of(ids, names, markets, urls) is Err,
        ids.len() == 0 ==> catalog_of(ids, names, markets, urls) == Err::<
            Seq<EmitentView>,
            CatalogError,
        >(CatalogError::Missing(Region::Ids)),
        ids.len() == 1 && names.len() == 0 ==> catalog_of(ids, names, markets, urls) == Err::<
            Seq<EmitentView>,
            CatalogError,
        >(CatalogError::Missing(Region::Names)),
        ids.len() == 1 && names.len() == 1 && markets.len() == 0 ==> catalog_of(
            ids,
            names,
            markets,
            urls,
        ) == Err::<Seq<EmitentView>, CatalogError>(CatalogError::Missing(Region::Markets)),
        ids.len() == 1 && names.len() == 1 && markets.len() == 1 && urls.len() == 0 ==> catalog_of(
            ids,
            names,
            markets,
            urls,
        ) == Err::<Seq<EmitentView>, CatalogError>(CatalogError::Missing(Region::Urls)),
{
}

/// Collections that are present once make assembly succeed, whatever they
/// hold: an empty collection is no failure.
pub proof fn lemma_present_regions_are_joined(
    ids: Seq<ValueView>,
    names: Seq<ValueView>,
    markets: Seq<ValueView>,
    urls: Seq<ValueView>,
)
    requires
        ids.len() == 1,
        names.len() == 1,
        markets.len() == 1,
        urls.len() == 1,
    ensures
        catalog_of(ids, names, markets, urls) == Ok::<Seq<EmitentView>, CatalogError>(
            assembled_from(ids[0], names[0], markets[0], urls[0]),
        ),
{
}

} // verus!
