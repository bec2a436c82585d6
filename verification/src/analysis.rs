//! Revenue by category.
//!
//! Amounts are carried as bit patterns and this crate does no arithmetic on
//! them. An analysis therefore lists, for each category, the amounts to add
//! up, in the order in which they are to be added.

use crate::revenue::{Revenue, RevenueView};
use crate::store::views;
use vstd::prelude::*;

verus! {

/// The amounts recorded under one category, in the order of their records.
#[derive(Debug, Clone, PartialEq, Eq)]
pub struct RevenueGroup {
    pub source: String,
    pub amount_bits: Vec<u64>,
}

impl View for RevenueGroup {
    type V = (Seq<char>, Seq<u64>);

    open spec fn view(&self) -> (Seq<char>, Seq<u64>) {
        (self.source@, self.amount_bits@)
    }
}

/// The key under which an analysis lists every amount.
pub open spec fn total_key() -> Seq<char> {
    "total"@
}

/// Whether a payment belongs to the airstrip and falls within
/// `[start_time, end_time]`, both ends included.
pub open spec fn in_window(revenue: RevenueView, airstrip_id: u64, start_time: u64, end_time: u64) -> bool {
    revenue.airstrip_id == airstrip_id && start_time <= revenue.transaction_date <= end_time
}

/// The distinct items of a list, each at the place of its first occurrence.
pub open spec fn first_occurrences(items: Seq<Seq<char>>) -> Seq<Seq<char>>
    decreases items.len(),
{
    if items.len() == 0 {
        Seq::empty()
    } else {
        let before = first_occurrences(items.drop_last());
        if before.contains(items.last()) {
            before
        } else {
            before.push(items.last())
        }
    }
}

pub open spec fn sources_of(revenues: Seq<RevenueView>) -> Seq<Seq<char>> {
    revenues.map_values(|r: RevenueView| r.source)
}

/// The amounts that count under `key`: those of its category, or all of them
/// under the total key.
pub open spec fn amounts_under(revenues: Seq<RevenueView>, key: Seq<char>) -> Seq<u64>
    decreases revenues.len(),
{
    if revenues.len() == 0 {
        Seq::empty()
    } else {
        let before = amounts_under(revenues.drop_last(), key);
        if key == total_key() || revenues.last().source == key {
            before.push(revenues.last().amount_bits)
        } else {
            before
        }
    }
}

/// The keys of an analysis: the categories in the order in which they first
/// occur, and the total key, last unless it occurs as a category.
pub open spec fn analysis_keys(revenues: Seq<RevenueView>) -> Seq<Seq<char>> {
    first_occurrences(sources_of(revenues).push(total_key()))
}

/// The analysis of a list of payments: each key with the amounts under it.
pub open spec fn analysis_of(revenues: Seq<RevenueView>) -> Seq<(Seq<char>, Seq<u64>)> {
    Seq::new(
        analysis_keys(revenues).len(),
        |i: int| (analysis_keys(revenues)[i], amounts_under(revenues, analysis_keys(revenues)[i])),
    )
}

pub open spec fn texts(items: Seq<String>) -> Seq<Seq<char>> {
    items.map_values(|s: String| s@)
}

fn contains_text(items: &Vec<String>, wanted: &String) -> (found: bool)
    ensures
        found == texts(items@).contains(wanted@),
{
    let mut i: usize = 0;
    while i < items.len()
        invariant
            i <= items.len(),
            forall|k: int| 0 <= k < i ==> texts(items@)[k] != wanted@,
        decreases items.len() - i,
    {
        if items[i] == *wanted {
            assert(texts(items@)[i as int] == wanted@);
            return true;
        }
        i += 1;
    }
    false
}

fn collect_amounts(revenues: &Vec<Revenue>, key: &String, total: &String) -> (amounts: Vec<u64>)
    requires
        total@ == total_key(),
    ensures
        amounts@ == amounts_under(views(revenues@), key@),
{
    let ghost all = views(revenues@);
    let every = *key == *total;
    let mut amounts: Vec<u64> = Vec::new();
    let mut i: usize = 0;
    assert(all.take(0) =~= Seq::empty());
    while i < revenues.len()
        invariant
            i <= revenues.len(),
            all == views(revenues@),
            every == (key@ == total_key()),
            amounts@ == amounts_under(all.take(i as int), key@),
        decreases revenues.len() - i,
    {
        proof {
            let upto = all.take(i + 1);
            assert(upto.drop_last() =~= all.take(i as int));
            assert(upto.last() == revenues[i as int]@);
        }
        if every || revenues[i].source == *key {
            amounts.push(revenues[i].amount_bits);
        }
        i += 1;
    }
    assert(all.take(i as int) =~= all);
    amounts
}

/// Groups payments by category, in the order in which the categories first
/// occur, and lists every amount under the total key.
pub fn group_by_source(revenues: &Vec<Revenue>) -> (groups: Vec<RevenueGroup>)
    ensures
        views(groups@) == analysis_of(views(revenues@)),
{
    let ghost all = views(revenues@);
    let ghost sources = sources_of(all);
    let total = "total".to_owned();
    let mut keys: Vec<String> = Vec::new();
    let mut i: usize = 0;
    assert(sources.take(0) =~= Seq::empty());
    assert(texts(keys@) =~= Seq::empty());
    while i < revenues.len()
        invariant
            i <= revenues.len(),
            all == views(revenues@),
            sources == sources_of(all),
            texts(keys@) == first_occurrences(sources.take(i as int)),
        decreases revenues.len() - i,
    {
        proof {
            let upto = sources.take(i + 1);
            assert(upto.drop_last() =~= sources.take(i as int));
            assert(upto.last() == revenues[i as int].source@);
        }
        let ghost before = keys@;
        if !contains_text(&keys, &revenues[i].source) {
            keys.push(revenues[i].source.clone());
            assert(texts(keys@) =~= texts(before).push(revenues[i as int].source@));
        }
        i += 1;
    }
    proof {
        assert(sources.take(i as int) =~= sources);
        assert(sources.push(total_key()).drop_last() =~= sources);
    }
    let ghost before = keys@;
    if !contains_text(&keys, &total) {
        keys.push(total.clone());
        assert(texts(keys@) =~= texts(before).push(total_key()));
    }
    let ghost wanted = texts(keys@);
    assert(wanted == analysis_keys(all));
    let mut groups: Vec<RevenueGroup> = Vec::new();
    assert(views(groups@) =~= analysis_of(all).take(0));
    for key in it: keys
        invariant
            all == views(revenues@),
            wanted == texts(it.seq()),
            wanted == analysis_keys(all),
            total@ == total_key(),
            views(groups@) == analysis_of(all).take(it.index() as int),
    {
        let ghost done = groups@;
        let amount_bits = collect_amounts(revenues, &key, &total);
        groups.push(RevenueGroup { source: key, amount_bits });
        proof {
            let at = it.index() as int;
            assert(wanted[at] == key@);
            assert(views(groups@) =~= views(done).push((key@, amount_bits@)));
            assert(analysis_of(all).take(at + 1) =~= analysis_of(all).take(at).push(
                analysis_of(all)[at],
            ));
        }
    }
    assert(analysis_of(all).take(wanted.len() as int) =~= analysis_of(all));
    groups
}

} // verus!
