//! The tier table: a `BTreeMap` from thresholds to tier values, read as the
//! list of its entries in increasing order of threshold. A holder's tier is
//! the number of thresholds that the held amount reaches, and the highest
//! such threshold sets the credit rate.
use vstd::prelude::*;
use std::collections::BTreeMap;
use vstd::std_specs::cmp::OrdSpec;
use vstd::std_specs::iter::IteratorSpec;
use crate::types::{TierBaseParams, TierBaseState};

verus! {

broadcast use {vstd::std_specs::btree::group_btree_axioms, vstd::laws_cmp::group_laws_cmp};

/// Thresholds strictly increase along the table.
pub open spec fn thresholds_increasing(t: Seq<(u64, TierBaseState)>) -> bool {
    forall|i: int, j: int| 0 <= i < j < t.len() ==> t[i].0 < t[j].0
}

/// The number of thresholds that `amount` reaches.
pub open spec fn tier_count(t: Seq<(u64, TierBaseState)>, amount: u64) -> nat
    decreases t.len(),
{
    if t.len() == 0 {
        0
    } else {
        tier_count(t.drop_last(), amount) + if t.last().0 <= amount {
            1nat
        } else {
            0nat
        }
    }
}

/// The credits for holding `amount`: the amount itself below the first
/// threshold, else the amount times the rate of the highest threshold reached,
/// in percent, with the fraction dropped.
pub open spec fn credit_for(t: Seq<(u64, TierBaseState)>, amount: u64) -> int {
    let c = tier_count(t, amount);
    if c == 0 {
        amount as int
    } else {
        (amount * t[c - 1].1.rate) / 100
    }
}

/// Whether the credit computation stays within its limits: where a threshold
/// is reached, the product of amount and rate fits in a `u64` and has at least
/// three decimal digits (the computation drops the last two).
pub open spec fn credit_computable(t: Seq<(u64, TierBaseState)>, amount: u64) -> bool {
    let c = tier_count(t, amount);
    c == 0 || (100 <= amount * t[c - 1].1.rate <= u64::MAX)
}

/// In an increasing table, the thresholds that `amount` reaches are exactly a
/// prefix of the table, of length `tier_count`.
pub proof fn lemma_tier_count_prefix(t: Seq<(u64, TierBaseState)>, amount: u64)
    requires
        thresholds_increasing(t),
    ensures
        tier_count(t, amount) <= t.len(),
        forall|k: int| 0 <= k < tier_count(t, amount) ==> t[k].0 <= amount,
        forall|k: int| tier_count(t, amount) <= k < t.len() ==> t[k].0 > amount,
    decreases t.len(),
{
    if t.len() > 0 {
        let d = t.drop_last();
        lemma_tier_count_prefix(d, amount);
        assert forall|k: int| 0 <= k < d.len() implies d[k] == t[k] by {}
        if t.last().0 <= amount {
            assert forall|k: int| 0 <= k < t.len() implies t[k].0 <= amount by {
                if k < t.len() - 1 {
                    assert(t[k].0 < t[t.len() - 1].0);
                }
            }
            assert(tier_count(d, amount) == d.len()) by {
                if tier_count(d, amount) < d.len() {
                    let k = tier_count(d, amount) as int;
                    assert(t[k].0 < t[t.len() - 1].0);
                }
            }
        }
    }
}

/// The number of thresholds that `amount` reaches, found by walking the
/// table from its highest threshold down.
pub fn matching_tier(t: &Vec<(u64, TierBaseState)>, amount: u64) -> (index: usize)
    requires
        thresholds_increasing(t@),
    ensures
        index == tier_count(t@, amount),
        index <= t@.len(),
{
    proof {
        lemma_tier_count_prefix(t@, amount);
    }
    let mut index = t.len();
    while index > 0 && t[index - 1].0 > amount
        invariant
            index <= t@.len(),
            thresholds_increasing(t@),
            forall|k: int| index <= k < t@.len() ==> t@[k].0 > amount,
        decreases index,
    {
        index = index - 1;
    }
    proof {
        let c = tier_count(t@, amount) as int;
        if index > 0 && t@[index - 1].0 <= amount {
            if c < index {
                assert(t@[index - 1].0 > amount);
            }
            if c > index {
                assert(t@[c - 1].0 <= amount);
            }
        } else {
            if c > index {
                assert(t@[c - 1].0 <= amount);
            }
        }
    }
    index
}

/// The credits for holding `amount`, given the number of thresholds it
/// reaches.
pub fn credit_for_amount(t: &Vec<(u64, TierBaseState)>, index: usize, amount: u64) -> (c: u64)
    requires
        index == tier_count(t@, amount),
        index <= t@.len(),
        credit_computable(t@, amount),
    ensures
        c == credit_for(t@, amount),
{
    if index == 0 {
        amount
    } else {
        // a percentage: drop the last two decimal digits of the product
        let calculated = amount * t[index - 1].1.rate;
        calculated / 100
    }
}

/// `t` lists the entries of the table `m` in increasing order of threshold.
pub open spec fn lists_table(t: Seq<(u64, TierBaseState)>, m: Map<u64, TierBaseState>) -> bool {
    &&& thresholds_increasing(t)
    &&& forall|i: int| 0 <= i < t.len() ==> m.contains_key(#[trigger] t[i].0) && m[t[i].0] == t[i].1
    &&& forall|k: u64| #[trigger] m.contains_key(k) ==> exists|i: int| 0 <= i < t.len() && t[i].0 == k
}

/// The entries of the table `m` in increasing order of threshold.
pub open spec fn table_seq(m: Map<u64, TierBaseState>) -> Seq<(u64, TierBaseState)> {
    choose|t: Seq<(u64, TierBaseState)>| lists_table(t, m)
}

/// The increasing list of a table's entries is unique.
pub proof fn lemma_lists_table_unique(
    a: Seq<(u64, TierBaseState)>,
    b: Seq<(u64, TierBaseState)>,
    m: Map<u64, TierBaseState>,
)
    requires
        lists_table(a, m),
        lists_table(b, m),
    ensures
        a == b,
    decreases a.len(),
{
    if a.len() == 0 {
        if b.len() > 0 {
            assert(m.contains_key(b[0].0));
        }
        assert(a =~= b);
    } else {
        assert(m.contains_key(a[0].0));
        let p = choose|i: int| 0 <= i < b.len() && b[i].0 == a[0].0;
        assert(m.contains_key(b[0].0));
        let q = choose|i: int| 0 <= i < a.len() && a[i].0 == b[0].0;
        assert(a[0].0 == b[0].0) by {
            if q > 0 {
                assert(a[0].0 < a[q].0);
            }
            if p > 0 {
                assert(b[0].0 < b[p].0);
            }
        }
        let k = a[0].0;
        let a1 = a.drop_first();
        let b1 = b.drop_first();
        let m1 = m.remove(k);
        assert forall|i: int| 0 <= i < a1.len() implies m1.contains_key(#[trigger] a1[i].0) && m1[a1[i].0]
            == a1[i].1 by {
            assert(a1[i] == a[i + 1]);
            assert(a[0].0 < a[i + 1].0);
        }
        assert forall|kk: u64| #[trigger] m1.contains_key(kk) implies exists|i: int|
            0 <= i < a1.len() && a1[i].0 == kk by {
            let w = choose|i: int| 0 <= i < a.len() && a[i].0 == kk;
            assert(a1[w - 1].0 == kk);
        }
        assert forall|i: int| 0 <= i < b1.len() implies m1.contains_key(#[trigger] b1[i].0) && m1[b1[i].0]
            == b1[i].1 by {
            assert(b1[i] == b[i + 1]);
            assert(b[0].0 < b[i + 1].0);
        }
        assert forall|kk: u64| #[trigger] m1.contains_key(kk) implies exists|i: int|
            0 <= i < b1.len() && b1[i].0 == kk by {
            let w = choose|i: int| 0 <= i < b.len() && b[i].0 == kk;
            assert(b1[w - 1].0 == kk);
        }
        lemma_lists_table_unique(a1, b1, m1);
        assert(a =~= b) by {
            assert forall|i: int| 0 <= i < a.len() implies a[i] == b[i] by {
                if i > 0 {
                    assert(a[i] == a1[i - 1] && b[i] == b1[i - 1]);
                }
            }
        }
    }
}

/// Every finite table has an increasing list of its entries.
pub proof fn lemma_table_seq(m: Map<u64, TierBaseState>)
    requires
        m.dom().finite(),
    ensures
        lists_table(table_seq(m), m),
    decreases m.dom().len(),
{
    if m.dom().len() == 0 {
        let t = Seq::<(u64, TierBaseState)>::empty();
        assert forall|k: u64| #[trigger] m.contains_key(k) implies exists|i: int|
            0 <= i < t.len() && t[i].0 == k by {
            assert(m.dom().contains(k));
        }
        assert(lists_table(t, m));
    } else {
        let leq = |x: u64, y: u64| x <= y;
        assert(vstd::relations::total_ordering(leq));
        m.dom().find_unique_maximal_ensures(leq);
        let top = m.dom().find_unique_maximal(leq);
        let m1 = m.remove(top);
        assert(m1.dom() =~= m.dom().remove(top));
        lemma_table_seq(m1);
        let t1 = table_seq(m1);
        let t = t1.push((top, m[top]));
        assert forall|i: int, j: int| 0 <= i < j < t.len() implies t[i].0 < t[j].0 by {
            if j < t1.len() {
                assert(t[i] == t1[i] && t[j] == t1[j]);
            } else {
                assert(t[i] == t1[i]);
                assert(m1.contains_key(t1[i].0));
                assert(leq(top, t1[i].0) ==> leq(t1[i].0, top));
            }
        }
        assert forall|i: int| 0 <= i < t.len() implies m.contains_key(#[trigger] t[i].0) && m[t[i].0]
            == t[i].1 by {
            if i < t1.len() {
                assert(t[i] == t1[i]);
                assert(m1.contains_key(t1[i].0));
            }
        }
        assert forall|k: u64| #[trigger] m.contains_key(k) implies exists|i: int|
            0 <= i < t.len() && t[i].0 == k by {
            if k == top {
                assert(t[t1.len() as int].0 == k);
            } else {
                assert(m1.contains_key(k));
                let w = choose|i: int| 0 <= i < t1.len() && t1[i].0 == k;
                assert(t[w].0 == k);
            }
        }
        assert(lists_table(t, m));
    }
}

/// Keys that a `BTreeMap` hands out in increasing order grow strictly.
proof fn lemma_increasing_keys(ks: Seq<u64>, i: int, j: int)
    requires
        vstd::std_specs::btree::increasing_seq(ks),
        0 <= i < j < ks.len(),
    ensures
        ks[i] < ks[j],
{
    assert(vstd::laws_cmp::obeys_cmp::<u64>());
    assert(ks[i].cmp_spec(&ks[j]) is Less);
}

/// The entries of a tier table in increasing order of threshold.
pub fn table_entries(m: &BTreeMap<u64, TierBaseState>) -> (r: Vec<(u64, TierBaseState)>)
    ensures
        r@ == table_seq(m@),
        lists_table(r@, m@),
{
    let mut r: Vec<(u64, TierBaseState)> = Vec::new();
    let it = m.iter();
    let ghost items = it.remaining();
    for x in iter: it
        invariant
            items == iter.seq(),
            r@.len() == iter.index(),
            forall|i: int| 0 <= i < r@.len() ==> r@[i] == (*items[i].0, *items[i].1),
    {
        r.push((*x.0, *x.1));
    }
    proof {
        let ks = items.map_values(|kv: (&u64, &TierBaseState)| *kv.0);
        assert forall|i: int, j: int| 0 <= i < j < r@.len() implies r@[i].0 < r@[j].0 by {
            assert(ks[i] == r@[i].0 && ks[j] == r@[j].0);
            lemma_increasing_keys(ks, i, j);
        }
        assert forall|k: u64| #[trigger] m@.contains_key(k) implies exists|i: int|
            0 <= i < r@.len() && r@[i].0 == k by {
            assert(items.contains((&k, &m@[k])));
            let i = choose|i: int| 0 <= i < items.len() && items[i] == (&k, &m@[k]);
            assert(r@[i].0 == k);
        }
        assert(lists_table(r@, m@));
        lemma_lists_table_unique(r@, table_seq(m@), m@);
    }
    r
}

/// The tier values that a parameter entry sets.
pub open spec fn base_of(p: TierBaseParams) -> TierBaseState {
    TierBaseState { max_alloc: p.max_alloc, rate: p.rate }
}

/// Entry `j` is the first with threshold `k`.
pub open spec fn is_first_threshold(ps: Seq<TierBaseParams>, j: int, k: u64) -> bool {
    &&& 0 <= j < ps.len()
    &&& ps[j].threshold == k
    &&& forall|i: int| 0 <= i < j ==> ps[i].threshold != k
}

/// The table built from the first `n` parameter entries: it holds each
/// threshold that occurs among them, with the values of its first
/// occurrence.
pub open spec fn table_of_prefix(ps: Seq<TierBaseParams>, n: int, m: Map<u64, TierBaseState>) -> bool {
    &&& forall|k: u64|
        #[trigger] m.contains_key(k) <==> exists|j: int| 0 <= j < n && ps[j].threshold == k
    &&& forall|k: u64|
        #[trigger] m.contains_key(k) ==> exists|j: int|
            #![trigger is_first_threshold(ps, j, k)]
            j < n && is_first_threshold(ps, j, k) && m[k] == base_of(ps[j])
}

/// The table built from a list of tier parameters: each threshold that
/// occurs in the list, once, with the values of its first occurrence.
pub open spec fn table_of_params(ps: Seq<TierBaseParams>, m: Map<u64, TierBaseState>) -> bool {
    table_of_prefix(ps, ps.len() as int, m)
}

/// Builds the tier table from a list of tier parameters. Where a threshold
/// occurs more than once, its first occurrence wins.
pub fn tier_table_from_params(ps: &Vec<TierBaseParams>) -> (r: BTreeMap<u64, TierBaseState>)
    ensures
        table_of_params(ps@, r@),
{
    let mut r: BTreeMap<u64, TierBaseState> = BTreeMap::new();
    let mut j: usize = 0;
    while j < ps.len()
        invariant
            j <= ps@.len(),
            table_of_prefix(ps@, j as int, r@),
        decreases ps@.len() - j,
    {
        let p = ps[j];
        let ghost before = r@;
        if !r.contains_key(&p.threshold) {
            r.insert(p.threshold, TierBaseState { max_alloc: p.max_alloc, rate: p.rate });
            proof {
                assert(is_first_threshold(ps@, j as int, p.threshold)) by {
                    assert forall|i: int| 0 <= i < j implies ps@[i].threshold != p.threshold by {
                        if ps@[i].threshold == p.threshold {
                            assert(before.contains_key(p.threshold));
                        }
                    }
                }
                assert forall|k: u64| #[trigger] r@.contains_key(k) implies exists|j2: int|
                    #![trigger is_first_threshold(ps@, j2, k)]
                    j2 < j + 1 && is_first_threshold(ps@, j2, k) && r@[k] == base_of(ps@[j2]) by {
                    if k != p.threshold {
                        assert(before.contains_key(k));
                    }
                }
                assert forall|k: u64| #[trigger] r@.contains_key(k) <==> exists|j2: int|
                    0 <= j2 < j + 1 && ps@[j2].threshold == k by {
                    if exists|j2: int| 0 <= j2 < j + 1 && ps@[j2].threshold == k {
                        let j2 = choose|j2: int| 0 <= j2 < j + 1 && ps@[j2].threshold == k;
                        if j2 < j {
                            assert(before.contains_key(k));
                        }
                    }
                    if r@.contains_key(k) && k != p.threshold {
                        assert(before.contains_key(k));
                    }
                }
            }
        } else {
            proof {
                assert forall|k: u64| #[trigger] r@.contains_key(k) <==> exists|j2: int|
                    0 <= j2 < j + 1 && ps@[j2].threshold == k by {
                    if exists|j2: int| 0 <= j2 < j + 1 && ps@[j2].threshold == k {
                        let j2 = choose|j2: int| 0 <= j2 < j + 1 && ps@[j2].threshold == k;
                        if j2 == j {
                            assert(r@.contains_key(k));
                        }
                    }
                }
                assert forall|k: u64| #[trigger] r@.contains_key(k) implies exists|j2: int|
                    #![trigger is_first_threshold(ps@, j2, k)]
                    j2 < j + 1 && is_first_threshold(ps@, j2, k) && r@[k] == base_of(ps@[j2]) by {
                    let j2 = choose|j2: int|
                        #![trigger is_first_threshold(ps@, j2, k)]
                        j2 < j && is_first_threshold(ps@, j2, k) && r@[k] == base_of(ps@[j2]);
                    assert(is_first_threshold(ps@, j2, k));
                }
            }
        }
        j = j + 1;
    }
    r
}

} // verus!
