//! Records keyed by their identifier: a collection in which no identifier
//! occurs twice, kept in the order in which the records were last inserted.

use crate::emitent::{emitent_views, Emitent, EmitentView};
use vstd::prelude::*;

verus! {

/// No two of `records` share an identifier.
pub open spec fn distinct_ids(records: Seq<EmitentView>) -> bool {
    forall|i: int, j: int| 0 <= i < j < records.len() ==> records[i].id != records[j].id
}

/// Whether one of `records` has the identifier `id`.
pub open spec fn has_id(records: Seq<EmitentView>, id: Seq<char>) -> bool {
    exists|k: int| 0 <= k < records.len() && records[k].id == id
}

/// `records` without those that have the identifier `id`.
pub open spec fn without_id(records: Seq<EmitentView>, id: Seq<char>) -> Seq<EmitentView>
    decreases records.len(),
{
    if records.len() == 0 {
        Seq::empty()
    } else if records.last().id == id {
        without_id(records.drop_last(), id)
    } else {
        without_id(records.drop_last(), id).push(records.last())
    }
}

/// `records` with the slug `uri` given to those that have the identifier
/// `id`.
pub open spec fn with_slug(records: Seq<EmitentView>, id: Seq<char>, uri: Seq<char>) -> Seq<
    EmitentView,
> {
    Seq::new(
        records.len(),
        |k: int|
            if records[k].id == id {
                EmitentView { uri, ..records[k] }
            } else {
                records[k]
            },
    )
}

/// Removing an identifier that no record has changes nothing.
pub proof fn lemma_without_absent(records: Seq<EmitentView>, id: Seq<char>)
    requires
        !has_id(records, id),
    ensures
        without_id(records, id) == records,
    decreases records.len(),
{
    if records.len() > 0 {
        let shorter = records.drop_last();
        assert(records.last() == records[records.len() - 1]);
        assert(!has_id(shorter, id)) by {
            if has_id(shorter, id) {
                let k = choose|k: int| 0 <= k < shorter.len() && shorter[k].id == id;
                assert(records[k].id == id);
            }
        }
        lemma_without_absent(shorter, id);
        assert(shorter.push(records.last()) =~= records);
    }
}

/// Where identifiers are distinct, removing an identifier removes the one
/// record that has it.
pub proof fn lemma_without_present(records: Seq<EmitentView>, id: Seq<char>, at: int)
    requires
        distinct_ids(records),
        0 <= at < records.len(),
        records[at].id == id,
    ensures
        without_id(records, id) == records.remove(at),
    decreases records.len(),
{
    let shorter = records.drop_last();
    if at == records.len() - 1 {
        assert(!has_id(shorter, id)) by {
            if has_id(shorter, id) {
                let k = choose|k: int| 0 <= k < shorter.len() && shorter[k].id == id;
                assert(records[k].id == records[at].id);
            }
        }
        lemma_without_absent(shorter, id);
        assert(records.remove(at) =~= shorter);
    } else {
        assert(distinct_ids(shorter)) by {
            assert forall|i: int, j: int| 0 <= i < j < shorter.len() implies shorter[i].id
                != shorter[j].id by {
                assert(records[i].id != records[j].id);
            }
        }
        assert(shorter[at].id == id);
        lemma_without_present(shorter, id, at);
        assert(records[at].id != records[records.len() - 1].id);
        assert(shorter.remove(at).push(records.last()) =~= records.remove(at));
    }
}

/// Nothing that is left after removing an identifier has it, and what is
/// left was there before.
pub proof fn lemma_without_keeps(records: Seq<EmitentView>, id: Seq<char>)
    ensures
        !has_id(without_id(records, id), id),
        forall|k: int|
            0 <= k < without_id(records, id).len() ==> records.contains(
                #[trigger] without_id(records, id)[k],
            ),
        distinct_ids(records) ==> distinct_ids(without_id(records, id)),
        without_id(records, id).len() <= records.len(),
    decreases records.len(),
{
    let left = without_id(records, id);
    if records.len() > 0 {
        let shorter = records.drop_last();
        let before = without_id(shorter, id);
        lemma_without_keeps(shorter, id);
        assert forall|k: int| 0 <= k < left.len() implies records.contains(#[trigger] left[k]) by {
            if k < before.len() {
                assert(shorter.contains(before[k]));
                let at = choose|at: int| 0 <= at < shorter.len() && shorter[at] == before[k];
                assert(records[at] == before[k]);
            } else {
                assert(left[k] == records[records.len() - 1]);
            }
        }
        if has_id(left, id) {
            let k = choose|k: int| 0 <= k < left.len() && left[k].id == id;
            if k < before.len() {
                assert(before[k].id == id);
            }
            assert(false);
        }
        if distinct_ids(records) {
            assert(distinct_ids(shorter)) by {
                assert forall|i: int, j: int| 0 <= i < j < shorter.len() implies shorter[i].id
                    != shorter[j].id by {
                    assert(records[i].id != records[j].id);
                }
            }
            assert forall|i: int, j: int| 0 <= i < j < left.len() implies left[i].id
                != left[j].id by {
                if j == before.len() {
                    assert(shorter.contains(before[i]));
                    let at = choose|at: int| 0 <= at < shorter.len() && shorter[at] == before[i];
                    assert(records[at].id != records[records.len() - 1].id);
                }
            }
        }
    }
}

/// Copies a record.
pub fn copy_of(record: &Emitent) -> (copy: Emitent)
    ensures
        copy@ == record@,
{
    Emitent {
        internal_id: record.internal_id,
        id: record.id.clone(),
        name: record.name.clone(),
        market_id: record.market_id.clone(),
        market_name: record.market_name.clone(),
        uri: record.uri.clone(),
        code: record.code.clone(),
    }
}

/// Records keyed by identifier.
pub struct EmitentIndex {
    records: Vec<Emitent>,
}

impl View for EmitentIndex {
    type V = Seq<EmitentView>;

    closed spec fn view(&self) -> Seq<EmitentView> {
        emitent_views(self.records@)
    }
}

impl EmitentIndex {
    #[verifier::type_invariant]
    spec fn keyed(&self) -> bool {
        distinct_ids(emitent_views(self.records@))
    }

    /// The index that holds no record.
    pub fn new() -> (index: EmitentIndex)
        ensures
            index@ == Seq::<EmitentView>::empty(),
    {
        let index = EmitentIndex { records: Vec::new() };
        assert(index@ =~= Seq::<EmitentView>::empty());
        index
    }

    /// The number of records.
    pub fn len(&self) -> (n: usize)
        ensures
            n == self@.len(),
    {
        self.records.len()
    }

    /// The position of the record with identifier `id`, if there is one.
    pub fn position(&self, id: &String) -> (at: Option<usize>)
        ensures
            match at {
                Some(p) => p < self@.len() && self@[p as int].id == id@,
                None => !has_id(self@, id@),
            },
    {
        let mut i: usize = 0;
        while i < self.records.len()
            invariant
                i <= self.records.len(),
                forall|k: int| 0 <= k < i ==> self@[k].id != id@,
            decreases self.records.len() - i,
        {
            if self.records[i].id == *id {
                return Some(i);
            }
            i += 1;
        }
        None
    }

    /// Stores `record` under its identifier. A record that was stored under
    /// the same identifier before is replaced.
    pub fn insert(&mut self, record: Emitent)
        ensures
            final(self)@ == without_id(old(self)@, record@.id).push(record@),
    {
        proof {
            use_type_invariant(&*self);
            lemma_without_keeps(self@, record@.id);
        }
        let ghost before = self@;
        let found = self.position(&record.id);
        match found {
            Some(p) => {
                proof {
                    lemma_without_present(before, record@.id, p as int);
                }
                self.drop_at(p);
            },
            None => {
                proof {
                    lemma_without_absent(before, record@.id);
                }
            },
        }
        self.put(record);
    }

    fn drop_at(&mut self, at: usize)
        requires
            at < old(self)@.len(),
        ensures
            final(self)@ == old(self)@.remove(at as int),
    {
        proof {
            use_type_invariant(&*self);
        }
        let ghost before = self@;
        proof {
            let left = before.remove(at as int);
            assert forall|i: int, j: int| 0 <= i < j < left.len() implies left[i].id
                != left[j].id by {
                let a = if i < at { i } else { i + 1 };
                let b = if j < at { j } else { j + 1 };
                assert(before[a].id != before[b].id);
            }
            assert(emitent_views(self.records@.remove(at as int)) =~= left);
            assert(emitent_views(Seq::<Emitent>::empty()) =~= Seq::<EmitentView>::empty());
        }
        let mut records: Vec<Emitent> = Vec::new();
        std::mem::swap(&mut self.records, &mut records);
        let _ = records.remove(at);
        self.records = records;
    }

    /// Gives the slug `uri` to the record with identifier `id`. Returns
    /// whether there is such a record; where there is none, nothing changes.
    pub fn set_uri(&mut self, id: &String, uri: String) -> (found: bool)
        ensures
            final(self)@ == with_slug(old(self)@, id@, uri@),
            found == has_id(old(self)@, id@),
    {
        proof {
            use_type_invariant(&*self);
        }
        let ghost before = self@;
        match self.position(id) {
            None => {
                assert(with_slug(before, id@, uri@) =~= before);
                false
            },
            Some(p) => {
                let ghost after = with_slug(before, id@, uri@);
                let ghost changed = EmitentView { uri: uri@, ..before[p as int] };
                proof {
                    assert forall|k: int| 0 <= k < before.len() && k != p implies before[k].id
                        != id@ by {
                        if k < p {
                            assert(before[k].id != before[p as int].id);
                        } else {
                            assert(before[p as int].id != before[k].id);
                        }
                    }
                    assert(after =~= before.update(p as int, changed));
                    assert forall|i: int, j: int| 0 <= i < j < after.len() implies after[i].id
                        != after[j].id by {
                        assert(before[i].id != before[j].id);
                    }
                    assert(emitent_views(Seq::<Emitent>::empty()) =~= Seq::<EmitentView>::empty());
                }
                let mut records: Vec<Emitent> = Vec::new();
                std::mem::swap(&mut self.records, &mut records);
                let mut updated = copy_of(&records[p]);
                updated.uri = uri;
                assert(updated@ == changed);
                records.set(p, updated);
                assert(emitent_views(records@) =~= after);
                self.records = records;
                true
            },
        }
    }

    /// Hands out the records, in the order in which they were last
    /// inserted.
    pub fn into_records(self) -> (records: Vec<Emitent>)
        ensures
            emitent_views(records@) == self@,
            distinct_ids(self@),
    {
        proof {
            use_type_invariant(&self);
        }
        self.records
    }

    fn put(&mut self, record: Emitent)
        requires
            !has_id(old(self)@, record@.id),
        ensures
            final(self)@ == old(self)@.push(record@),
    {
        proof {
            use_type_invariant(&*self);
        }
        let ghost before = self@;
        let ghost after = before.push(record@);
        assert forall|i: int, j: int| 0 <= i < j < after.len() implies after[i].id
            != after[j].id by {
            if j == before.len() {
                assert(before[i].id != record@.id);
            } else {
                assert(before[i].id != before[j].id);
            }
        }
        assert(emitent_views(self.records@.push(record)) =~= after);
        assert(emitent_views(Seq::<Emitent>::empty()) =~= Seq::<EmitentView>::empty());
        let mut records: Vec<Emitent> = Vec::new();
        std::mem::swap(&mut self.records, &mut records);
        records.push(record);
        self.records = records;
    }
}

} // verus!
