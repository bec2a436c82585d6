//! The entity store: a persistent mapping from identifier to record, one per
//! record kind.

use crate::record::Record;
use crate::stable::{
    lists_in_key_order, tree_create, tree_entries, tree_get, tree_insert, tree_region,
    tree_resume, tree_scan, MemoryRegions, StableTree,
};
use core::marker::PhantomData;
use vstd::prelude::*;

verus! {

/// Why a store operation did not go through.
#[derive(Debug, Clone, Copy, PartialEq, Eq)]
pub enum StoreError {
    /// No record is stored under the identifier.
    NotFound,
    /// The record takes more bytes than a store keeps under one identifier.
    TooLarge,
}

/// Whether a record is short enough to be stored: a store keeps at most
/// 4 GiB less one byte under one identifier.
pub open spec fn fits<R: Record>(v: R::V) -> bool {
    R::encoding(v).len() <= u32::MAX
}

/// The records that a tree's entries stand for. An entry whose bytes stand
/// for no record of kind `R` is not part of the store.
pub open spec fn decoded<R: Record>(raw: Map<u64, Seq<u8>>) -> Map<u64, R::V> {
    Map::new(
        |id: u64| raw.contains_key(id) && R::decoding(raw[id]) is Some,
        |id: u64| R::decoding(raw[id])->0,
    )
}

/// The pairs of `entries`, by ascending identifier.
pub open spec fn listing<V>(entries: Map<u64, V>) -> Seq<(u64, V)> {
    choose|all: Seq<(u64, V)>| lists_in_key_order(all, entries)
}

/// What a scan result says, record by record.
pub open spec fn scan_view<R: Record>(found: Seq<(u64, R)>) -> Seq<(u64, R::V)> {
    found.map_values(|e: (u64, R)| (e.0, e.1@))
}

/// The records among `all` that `wanted` holds of, in the order of `all`.
pub open spec fn select<V>(all: Seq<(u64, V)>, wanted: spec_fn(V) -> bool) -> Seq<V>
    decreases all.len(),
{
    if all.len() == 0 {
        Seq::empty()
    } else if wanted(all.last().1) {
        select(all.drop_last(), wanted).push(all.last().1)
    } else {
        select(all.drop_last(), wanted)
    }
}

/// What a list of records says, record by record.
pub open spec fn views<R: View>(records: Seq<R>) -> Seq<R::V> {
    records.map_values(|r: R| r@)
}

proof fn lemma_listing_keys_agree<V>(a: Seq<(u64, V)>, b: Seq<(u64, V)>, m: Map<u64, V>, n: int)
    requires
        lists_in_key_order(a, m),
        lists_in_key_order(b, m),
        0 <= n <= a.len(),
        n <= b.len(),
    ensures
        forall|i: int| 0 <= i < n ==> (#[trigger] a[i]).0 == b[i].0,
    decreases n,
{
    if n > 0 {
        lemma_listing_keys_agree(a, b, m, n - 1);
        let i = n - 1;
        let ka = a[i].0;
        let kb = b[i].0;
        assert(m.contains_key(ka));
        assert(m.contains_key(kb));
        let jb = choose|j: int| 0 <= j < b.len() && (#[trigger] b[j]).0 == ka;
        let ja = choose|j: int| 0 <= j < a.len() && (#[trigger] a[j]).0 == kb;
        if jb < i {
            assert(a[jb].0 == b[jb].0);
            assert(a[jb].0 < a[i].0);
        }
        if ja < i {
            assert(a[ja].0 == b[ja].0);
            assert(b[ja].0 < b[i].0);
        }
        if jb > i {
            assert(b[i].0 < b[jb].0);
        }
        if ja > i {
            assert(a[i].0 < a[ja].0);
        }
    }
}

/// A mapping has at most one listing by ascending identifier.
pub proof fn lemma_listing_unique<V>(a: Seq<(u64, V)>, b: Seq<(u64, V)>, m: Map<u64, V>)
    requires
        lists_in_key_order(a, m),
        lists_in_key_order(b, m),
    ensures
        a == b,
{
    let n = if a.len() <= b.len() {
        a.len() as int
    } else {
        b.len() as int
    };
    lemma_listing_keys_agree(a, b, m, n);
    if a.len() < b.len() {
        let k = b[n].0;
        assert(m.contains_key(k));
        let j = choose|j: int| 0 <= j < a.len() && (#[trigger] a[j]).0 == k;
        assert(a[j].0 == b[j].0);
        assert(b[j].0 < b[n].0);
    }
    if b.len() < a.len() {
        let k = a[n].0;
        assert(m.contains_key(k));
        let j = choose|j: int| 0 <= j < b.len() && (#[trigger] b[j]).0 == k;
        assert(a[j].0 == b[j].0);
        assert(a[j].0 < a[n].0);
    }
    assert forall|i: int| 0 <= i < a.len() implies a[i] == b[i] by {
        assert(a[i].0 == b[i].0);
        assert(m[a[i].0] == a[i].1);
        assert(m[b[i].0] == b[i].1);
    }
    assert(a =~= b);
}

/// A listing by ascending identifier is the listing.
pub proof fn lemma_listing_is<V>(all: Seq<(u64, V)>, m: Map<u64, V>)
    requires
        lists_in_key_order(all, m),
    ensures
        listing(m) == all,
        lists_in_key_order(listing(m), m),
{
    lemma_listing_unique(listing(m), all, m);
}

/// A record read back right after it was stored is the record that was
/// stored, and storing it leaves the records under other identifiers alone.
pub proof fn lemma_insert_then_get<V>(before: Map<u64, V>, id: u64, record: V)
    ensures
        before.insert(id, record).contains_key(id),
        before.insert(id, record)[id] == record,
        forall|other: u64|
            other != id ==> before.insert(id, record).contains_key(other) == before.contains_key(
                other,
            ),
        forall|other: u64|
            other != id && before.contains_key(other) ==> before.insert(id, record)[other]
                == before[other],
{
}

/// A persistent mapping from identifier to record of kind `R`.
pub struct EntityStore<R: Record> {
    tree: StableTree,
    kind: PhantomData<R>,
}

impl<R: Record> View for EntityStore<R> {
    type V = Map<u64, R::V>;

    closed spec fn view(&self) -> Map<u64, R::V> {
        decoded::<R>(tree_entries(self.tree))
    }
}

impl<R: Record> EntityStore<R> {
    /// The region of stable memory that the store was opened in.
    pub closed spec fn region(&self) -> u8 {
        tree_region(self.tree)
    }

    /// A store without records in region `id`, whatever the region held.
    pub(crate) fn create(regions: &MemoryRegions, id: u8) -> (store: Self)
        requires
            id < 255,
        ensures
            store@ == Map::<u64, R::V>::empty(),
            store.region() == id,
    {
        let store = EntityStore { tree: tree_create(regions, id), kind: PhantomData };
        assert(store@ =~= Map::<u64, R::V>::empty());
        store
    }

    /// The store that region `id` holds, or a new one if it holds none. Which
    /// records it holds depends on the memory alone.
    pub(crate) fn resume(regions: &MemoryRegions, id: u8) -> (store: Self)
        requires
            id < 255,
        ensures
            store.region() == id,
    {
        EntityStore { tree: tree_resume(regions, id), kind: PhantomData }
    }

    /// Whether `record` is short enough to be stored. Writes the record out
    /// to measure it.
    pub fn accepts(record: &R) -> (ok: bool)
        ensures
            ok == fits::<R>(record@),
    {
        record.encode().len() as u64 <= 0xFFFF_FFFF
    }

    /// Stores `record` under `id`, in place of whatever was stored there,
    /// unless the record is too large.
    pub fn insert(&mut self, id: u64, record: &R) -> (outcome: Result<(), StoreError>)
        ensures
            outcome is Ok <==> fits::<R>(record@),
            outcome is Ok ==> final(self)@ == old(self)@.insert(id, record@),
            outcome is Err ==> final(self)@ == old(self)@ && outcome->Err_0
                == StoreError::TooLarge,
            final(self).region() == old(self).region(),
    {
        let bytes = record.encode();
        if bytes.len() as u64 > 0xFFFF_FFFF {
            return Err(StoreError::TooLarge);
        }
        proof {
            R::lemma_round_trip(record@);
        }
        tree_insert(&mut self.tree, id, bytes);
        assert(self@ =~= old(self)@.insert(id, record@));
        Ok(())
    }

    /// The record stored under `id`, if there is one. A record on file is
    /// short enough to be stored again.
    pub fn get(&self, id: u64) -> (found: Option<R>)
        ensures
            match found {
                Some(record) => self@.contains_key(id) && self@[id] == record@ && fits::<R>(
                    record@,
                ),
                None => !self@.contains_key(id),
            },
    {
        match tree_get(&self.tree, id) {
            Some(bytes) => {
                let found = R::decode(bytes.as_slice());
                proof {
                    if found is Some {
                        R::lemma_one_encoding(bytes@);
                    }
                }
                found
            },
            None => None,
        }
    }

    /// Whether a record is stored under `id`.
    pub fn contains(&self, id: u64) -> (present: bool)
        ensures
            present == self@.contains_key(id),
    {
        self.get(id).is_some()
    }

    /// Every record with its identifier, by ascending identifier.
    pub fn scan(&self) -> (found: Vec<(u64, R)>)
        ensures
            scan_view(found@) == listing(self@),
            lists_in_key_order(listing(self@), self@),
    {
        let raw = tree_scan(&self.tree);
        let ghost raw_view = raw@.map_values(|e: (u64, Vec<u8>)| (e.0, e.1@));
        let ghost entries = tree_entries(self.tree);
        let mut found: Vec<(u64, R)> = Vec::new();
        let mut i: usize = 0;
        while i < raw.len()
            invariant
                i <= raw.len(),
                raw_view == raw@.map_values(|e: (u64, Vec<u8>)| (e.0, e.1@)),
                entries == tree_entries(self.tree),
                lists_in_key_order(raw_view, entries),
                forall|a: int, b: int|
                    0 <= a < b < found.len() ==> (#[trigger] found[a]).0 < (#[trigger] found[b]).0,
                forall|a: int|
                    0 <= a < found.len() ==> self@.contains_key((#[trigger] found[a]).0)
                        && self@[found[a].0] == found[a].1@,
                forall|a: int|
                    0 <= a < found.len() ==> exists|p: int|
                        0 <= p < i && (#[trigger] raw_view[p]).0 == (#[trigger] found[a]).0,
                forall|p: int|
                    0 <= p < i && R::decoding((#[trigger] raw_view[p]).1) is Some ==> exists|
                        a: int,
                    |
                        0 <= a < found.len() && (#[trigger] found[a]).0 == raw_view[p].0,
            decreases raw.len() - i,
        {
            let id = raw[i].0;
            assert(raw_view[i as int] == (raw[i as int].0, raw[i as int].1@));
            assert(entries.contains_key(id) && entries[id] == raw[i as int].1@);
            let ghost before = found@;
            match R::decode(raw[i].1.as_slice()) {
                Some(record) => {
                    found.push((id, record));
                    proof {
                        let last = before.len() as int;
                        assert(found[last].0 == id);
                        assert forall|a: int, b: int| 0 <= a < b < found.len() implies (
                        #[trigger] found[a]).0 < (#[trigger] found[b]).0 by {
                            if b == last {
                                assert(found[a] == before[a]);
                                let p = choose|p: int|
                                    0 <= p < i && (#[trigger] raw_view[p]).0 == before[a].0;
                                assert(raw_view[p].0 < raw_view[i as int].0);
                            } else {
                                assert(found[a] == before[a]);
                                assert(found[b] == before[b]);
                            }
                        }
                        assert forall|a: int| 0 <= a < found.len() implies exists|p: int|
                            0 <= p < i + 1 && (#[trigger] raw_view[p]).0 == (
                            #[trigger] found[a]).0 by {
                            if a == last {
                                assert(raw_view[i as int].0 == found[a].0);
                            } else {
                                assert(found[a] == before[a]);
                                let p = choose|p: int|
                                    0 <= p < i && (#[trigger] raw_view[p]).0 == before[a].0;
                                assert(raw_view[p].0 == found[a].0);
                            }
                        }
                        assert forall|p: int|
                            0 <= p < i + 1 && R::decoding(
                                (#[trigger] raw_view[p]).1,
                            ) is Some implies exists|a: int|
                            0 <= a < found.len() && (#[trigger] found[a]).0 == raw_view[p].0 by {
                            if p == i {
                                assert(found[last].0 == raw_view[p].0);
                            } else {
                                let a = choose|a: int|
                                    0 <= a < before.len() && (#[trigger] before[a]).0
                                        == raw_view[p].0;
                                assert(found[a] == before[a]);
                            }
                        }
                        assert forall|a: int| 0 <= a < found.len() implies self@.contains_key(
                            (#[trigger] found[a]).0,
                        ) && self@[found[a].0] == found[a].1@ by {
                            if a != last {
                                assert(found[a] == before[a]);
                            }
                        }
                    }
                },
                None => {
                    proof {
                        assert forall|a: int| 0 <= a < found.len() implies exists|p: int|
                            0 <= p < i + 1 && (#[trigger] raw_view[p]).0 == (
                            #[trigger] found[a]).0 by {
                            let p = choose|p: int|
                                0 <= p < i && (#[trigger] raw_view[p]).0 == found[a].0;
                            assert(raw_view[p].0 == found[a].0);
                        }
                    }
                },
            }
            i += 1;
        }
        proof {
            let views = scan_view(found@);
            assert forall|a: int| 0 <= a < views.len() implies (#[trigger] views[a]) == (
                found[a].0,
                found[a].1@,
            ) by {}
            assert forall|k: u64| #[trigger] self@.contains_key(k) implies exists|a: int|
                0 <= a < views.len() && (#[trigger] views[a]).0 == k by {
                let p = choose|p: int| 0 <= p < raw_view.len() && (#[trigger] raw_view[p]).0 == k;
                assert(entries[raw_view[p].0] == raw_view[p].1);
                let a = choose|a: int|
                    0 <= a < found.len() && (#[trigger] found[a]).0 == raw_view[p].0;
                assert(views[a].0 == k);
            }
            assert(lists_in_key_order(views, self@));
            lemma_listing_is(views, self@);
        }
        found
    }

    /// The records that `keep` accepts, by ascending identifier.
    pub(crate) fn select_where<F: Fn(&R) -> bool>(
        &self,
        keep: F,
        Ghost(wanted): Ghost<spec_fn(R::V) -> bool>,
    ) -> (chosen: Vec<R>)
        requires
            forall|r: &R| call_requires(keep, (r,)),
            forall|r: &R, b: bool| call_ensures(keep, (r,), b) ==> b == wanted(r@),
        ensures
            views(chosen@) == select(listing(self@), wanted),
    {
        let found = self.scan();
        let ghost all = scan_view(found@);
        let mut chosen: Vec<R> = Vec::new();
        assert(all.take(0) =~= Seq::empty());
        assert(views(chosen@) =~= Seq::empty());
        for entry in it: found
            invariant
                all == scan_view(it.seq()),
                views(chosen@) == select(all.take(it.index() as int), wanted),
                forall|r: &R| call_requires(keep, (r,)),
                forall|r: &R, b: bool| call_ensures(keep, (r,), b) ==> b == wanted(r@),
        {
            proof {
                let upto = all.take(it.index() + 1);
                assert(upto.drop_last() =~= all.take(it.index() as int));
                assert(upto.last().1 == entry.1@);
            }
            let ghost before = chosen@;
            if keep(&entry.1) {
                chosen.push(entry.1);
                assert(views(chosen@) =~= views(before).push(entry.1@));
            }
        }
        assert(all.take(all.len() as int) =~= all);
        chosen
    }

    /// Replaces the record stored under `id` by what `mutator` makes of it,
    /// unless that is too large.
    pub fn update<F: FnOnce(R) -> R>(&mut self, id: u64, mutator: F) -> (outcome: Result<
        (),
        StoreError,
    >)
        requires
            forall|record: R| call_requires(mutator, (record,)),
        ensures
            !old(self)@.contains_key(id) <==> outcome == Err::<(), StoreError>(
                StoreError::NotFound,
            ),
            outcome is Err ==> final(self)@ == old(self)@,
            final(self).region() == old(self).region(),
            old(self)@.contains_key(id) ==> exists|before: R, after: R|
                before@ == old(self)@[id] && call_ensures(mutator, (before,), after) && (
                outcome is Ok <==> fits::<R>(after@)) && (outcome is Ok ==> final(self)@ == old(
                    self,
                )@.insert(id, after@)),
    {
        match self.get(id) {
            Some(before) => {
                let ghost was = before;
                let after = mutator(before);
                let outcome = self.insert(id, &after);
                assert(was@ == old(self)@[id] && call_ensures(mutator, (was,), after) && (
                outcome is Ok <==> fits::<R>(after@)) && (outcome is Ok ==> self@ == old(
                    self,
                )@.insert(id, after@)));
                outcome
            },
            None => Err(StoreError::NotFound),
        }
    }
}

} // verus!
