//! The contract state: per-holder stakes, the tier table and the totals, with
//! the operations that stake, unstake and place credits.
use vstd::prelude::*;
use std::collections::BTreeMap;
use crate::assoc::{get_or, has_key, key_index, keys_distinct, lemma_key_index_unique, lemma_put,
    lemma_sum_values_bounds, put, sum_values, value_of};
use crate::order::{address_bytes, is_stored_before, lemma_bytes_lt_transitive, lemma_stored_before_total, stored_before};
use crate::tiers::{lemma_table_seq, table_seq, thresholds_increasing};
use crate::types::{Address, ContractAddress, LockState, TierBaseState};

verus! {

broadcast use vstd::std_specs::btree::group_btree_axioms;

/// What one holder has staked and where their credits are placed.
pub struct StakeState {
    /// Tokens staked in total.
    pub amount: u64,
    /// Number of tier thresholds that `amount` reaches (wrapped to a byte).
    pub tier: u8,
    /// Credits placed with each project.
    pub staked_ovl_credits: Vec<(ContractAddress, u64)>,
    /// Credits that the holder's stake earns.
    pub ovl_credit_amount: u64,
    /// Credits not placed with any project.
    pub available_ovl_credit_amount: u64,
    /// The locks, by their start time.
    pub locks: BTreeMap<u64, LockState>,
}

/// The mathematical picture of a `StakeState`.
#[verifier::ext_equal]
pub struct StakeView {
    pub amount: u64,
    pub tier: u8,
    pub credits: Seq<(ContractAddress, u64)>,
    pub ovl_credit_amount: u64,
    pub available: u64,
    pub locks: Map<u64, LockState>,
}

impl View for StakeState {
    type V = StakeView;

    open spec fn view(&self) -> StakeView {
        StakeView {
            amount: self.amount,
            tier: self.tier,
            credits: self.staked_ovl_credits@,
            ovl_credit_amount: self.ovl_credit_amount,
            available: self.available_ovl_credit_amount,
            locks: self.locks@,
        }
    }
}

/// The stake of a holder who has none yet.
pub open spec fn empty_stake() -> StakeView {
    StakeView {
        amount: 0,
        tier: 0,
        credits: Seq::empty(),
        ovl_credit_amount: 0,
        available: 0,
        locks: Map::empty(),
    }
}

impl StakeState {
    pub fn new() -> (r: StakeState)
        ensures
            r@ == empty_stake(),
    {
        StakeState {
            amount: 0,
            tier: 0,
            staked_ovl_credits: Vec::new(),
            ovl_credit_amount: 0,
            available_ovl_credit_amount: 0,
            locks: BTreeMap::new(),
        }
    }
}

/// The whole contract state.
pub struct State {
    pub admin: Address,
    pub paused: bool,
    /// The token contract whose tokens are staked.
    pub token_address: ContractAddress,
    /// Tier values by threshold.
    pub tier_bases: BTreeMap<u64, TierBaseState>,
    /// Each holder's stake; no holder occurs twice.
    pub stakes: Vec<(Address, StakeState)>,
    pub total_staked_amount: u64,
    /// Tokens held to pay rewards.
    pub ovl_safe_amount: u64,
}

/// The mathematical picture of a `State`.
#[verifier::ext_equal]
pub struct StateView {
    pub admin: Address,
    pub paused: bool,
    pub token_address: ContractAddress,
    /// The tier table's entries in increasing order of threshold.
    pub tier_bases: Seq<(u64, TierBaseState)>,
    pub stakes: Seq<(Address, StakeView)>,
    pub total_staked_amount: u64,
    pub ovl_safe_amount: u64,
}

pub open spec fn stakes_view(s: Seq<(Address, StakeState)>) -> Seq<(Address, StakeView)> {
    s.map_values(|p: (Address, StakeState)| (p.0, p.1@))
}

impl View for State {
    type V = StateView;

    open spec fn view(&self) -> StateView {
        StateView {
            admin: self.admin,
            paused: self.paused,
            token_address: self.token_address,
            tier_bases: table_seq(self.tier_bases@),
            stakes: stakes_view(self.stakes@),
            total_staked_amount: self.total_staked_amount,
            ovl_safe_amount: self.ovl_safe_amount,
        }
    }
}

/// The invariant of the state: the tier table's entries increase (which
/// reading them in order of threshold gives), no holder occurs twice, and no
/// project occurs twice in a holder's credits.
pub open spec fn state_wf(v: StateView) -> bool {
    &&& thresholds_increasing(v.tier_bases)
    &&& keys_distinct(v.stakes)
    &&& forall|i: int| 0 <= i < v.stakes.len() ==> keys_distinct(#[trigger] v.stakes[i].1.credits)
}

/// The stake of `owner`, or an empty one.
pub open spec fn owner_stake(v: StateView, owner: Address) -> StakeView {
    get_or(v.stakes, owner, empty_stake())
}

/// The total of the credits that a holder has placed with projects.
pub open spec fn placed_credits(s: StakeView) -> int {
    sum_values(s.credits)
}

/// `put` on the stakes keeps the invariant where the new stake's credits
/// hold no project twice.
pub proof fn lemma_put_stake_wf(v: StateView, owner: Address, s: StakeView)
    requires
        state_wf(v),
        keys_distinct(s.credits),
    ensures
        state_wf(StateView { stakes: put(v.stakes, owner, s), ..v }),
        has_key(put(v.stakes, owner, s), owner),
        value_of(put(v.stakes, owner, s), owner) == s,
{
    lemma_put(v.stakes, owner, s);
    let t = put(v.stakes, owner, s);
    assert forall|i: int| 0 <= i < t.len() implies keys_distinct(#[trigger] t[i].1.credits) by {
        if has_key(v.stakes, owner) {
            let k = key_index(v.stakes, owner);
            if i != k {
                assert(t[i] == v.stakes[i]);
            }
        } else {
            if i < v.stakes.len() {
                assert(t[i] == v.stakes[i]);
            }
        }
    }
}

/// The stake found by `owner_stake` holds no project twice.
pub proof fn lemma_owner_stake_wf(v: StateView, owner: Address)
    requires
        state_wf(v),
    ensures
        keys_distinct(owner_stake(v, owner).credits),
{
    if has_key(v.stakes, owner) {
        let k = key_index(v.stakes, owner);
        assert(keys_distinct(v.stakes[k].1.credits));
    }
}

impl State {
    /// A state with no stakes, not paused, with empty totals.
    pub fn new(admin: Address, token_address: ContractAddress, tier_bases: BTreeMap<u64, TierBaseState>) -> (r: State)
        ensures
            r@ == (StateView {
                admin,
                paused: false,
                token_address,
                tier_bases: table_seq(tier_bases@),
                stakes: Seq::empty(),
                total_staked_amount: 0,
                ovl_safe_amount: 0,
            }),
            r.tier_bases@ == tier_bases@,
            state_wf(r@),
    {
        proof {
            lemma_table_seq(tier_bases@);
        }
        let r = State {
            admin: admin,
            paused: false,
            stakes: Vec::new(),
            token_address: token_address,
            tier_bases: tier_bases,
            total_staked_amount: 0,
            ovl_safe_amount: 0,
        };
        assert(r@.stakes =~= Seq::empty());
        r
    }

    /// Where the stake of `owner` sits, if anywhere.
    pub fn find_stake(&self, owner: &Address) -> (r: Option<usize>)
        requires
            state_wf(self@),
        ensures
            match r {
                Some(i) => {
                    &&& i < self@.stakes.len()
                    &&& has_key(self@.stakes, *owner)
                    &&& key_index(self@.stakes, *owner) == i
                },
                None => !has_key(self@.stakes, *owner),
            },
    {
        let mut i: usize = 0;
        while i < self.stakes.len()
            invariant
                i <= self.stakes@.len(),
                state_wf(self@),
                forall|j: int| 0 <= j < i ==> self@.stakes[j].0 != *owner,
            decreases self.stakes@.len() - i,
        {
            if self.stakes[i].0 == *owner {
                proof {
                    assert(self@.stakes[i as int].0 == *owner);
                    lemma_key_index_unique(self@.stakes, *owner, i as int);
                }
                return Some(i);
            }
            assert(self@.stakes[i as int].0 != *owner);
            i = i + 1;
        }
        None
    }

    /// Makes sure that `owner` has a stake, adding an empty one where it has
    /// none, and answers where it sits.
    pub(crate) fn stake_entry(&mut self, owner: &Address) -> (i: usize)
        requires
            state_wf(old(self)@),
        ensures
            state_wf(final(self)@),
            final(self)@ == (StateView {
                stakes: put(old(self)@.stakes, *owner, owner_stake(old(self)@, *owner)),
                ..old(self)@
            }),
            i < final(self)@.stakes.len(),
            has_key(final(self)@.stakes, *owner),
            key_index(final(self)@.stakes, *owner) == i,
    {
        proof {
            lemma_owner_stake_wf(self@, *owner);
            lemma_put_stake_wf(self@, *owner, owner_stake(self@, *owner));
        }
        match self.find_stake(owner) {
            Some(i) => {
                proof {
                    assert(self@.stakes[i as int] == (*owner, owner_stake(self@, *owner)));
                    assert(put(self@.stakes, *owner, owner_stake(self@, *owner)) =~= self@.stakes);
                }
                i
            },
            None => {
                let ghost before = self@;
                self.stakes.push((*owner, StakeState::new()));
                proof {
                    assert(self@.stakes =~= before.stakes.push((*owner, empty_stake())));
                    lemma_key_index_unique(self@.stakes, *owner, before.stakes.len() as int);
                }
                self.stakes.len() - 1
            },
        }
    }

    /// Puts a stake into slot `i` and hands back the one that was there.
    pub(crate) fn swap_stake(&mut self, i: usize, s: StakeState) -> (prev: StakeState)
        requires
            i < old(self)@.stakes.len(),
        ensures
            final(self)@ == (StateView {
                stakes: old(self)@.stakes.update(i as int, (old(self)@.stakes[i as int].0, s@)),
                ..old(self)@
            }),
            prev@ == old(self)@.stakes[i as int].1,
    {
        let ghost before = self@;
        let mut slot = (self.stakes[i].0, s);
        self.stakes.set_and_swap(i, &mut slot);
        assert(self@.stakes =~= before.stakes.update(i as int, (before.stakes[i as int].0, s@)));
        slot.1
    }

    /// The credits that `owner` has placed, project by project, in the order
    /// in which storage lists the projects; empty where `owner` has no stake.
    pub fn get_staked_ovl_credits(&self, owner: &Address) -> (r: Vec<(ContractAddress, u64)>)
        requires
            state_wf(self@),
        ensures
            sorted_by_storage(r@),
            forall|e: (ContractAddress, u64)|
                r@.contains(e) <==> stored_credits(self@, *owner).contains(e),
    {
        match self.find_stake(owner) {
            None => {
                let r: Vec<(ContractAddress, u64)> = Vec::new();
                assert forall|e: (ContractAddress, u64)| !r@.contains(e) by {}
                r
            },
            Some(i) => {
                let credits = &self.stakes[i].1.staked_ovl_credits;
                assert(self@.stakes[i as int].1.credits == credits@);
                assert(keys_distinct(credits@));
                let mut r: Vec<(ContractAddress, u64)> = Vec::new();
                let mut j: usize = 0;
                assert(credits@.take(0) =~= Seq::<(ContractAddress, u64)>::empty());
                while j < credits.len()
                    invariant
                        j <= credits@.len(),
                        keys_distinct(credits@),
                        sorted_by_storage(r@),
                        forall|e: (ContractAddress, u64)|
                            r@.contains(e) <==> credits@.take(j as int).contains(e),
                    decreases credits@.len() - j,
                {
                    let x = credits[j];
                    let ghost before = r@;
                    proof {
                        assert forall|k: int| 0 <= k < before.len() implies before[k].0 != x.0 by {
                            assert(before.contains(before[k]));
                            let m = choose|m: int|
                                0 <= m < j && credits@.take(j as int)[m] == before[k];
                            assert(credits@[m] == before[k]);
                        }
                    }
                    insert_by_storage(&mut r, x);
                    proof {
                        let t0 = credits@.take(j as int);
                        let t1 = credits@.take(j as int + 1);
                        assert(t1 =~= t0.push(x));
                        assert forall|e: (ContractAddress, u64)|
                            t1.contains(e) <==> (t0.contains(e) || e == x) by {
                            if t1.contains(e) {
                                let m = choose|m: int| 0 <= m < t1.len() && t1[m] == e;
                                if m < j {
                                    assert(t0[m] == e);
                                }
                            }
                            if t0.contains(e) {
                                let m = choose|m: int| 0 <= m < t0.len() && t0[m] == e;
                                assert(t1[m] == e);
                            }
                            if e == x {
                                assert(t1[j as int] == e);
                            }
                        }
                    }
                    j = j + 1;
                }
                assert(credits@.take(credits@.len() as int) =~= credits@);
                r
            },
        }
    }
}

/// The credits that `owner` has placed, as stored; empty where `owner` has
/// no stake.
pub open spec fn stored_credits(v: StateView, owner: Address) -> Seq<(ContractAddress, u64)> {
    if has_key(v.stakes, owner) {
        value_of(v.stakes, owner).credits
    } else {
        Seq::empty()
    }
}

/// The credits are listed in the order in which storage lists their
/// projects.
pub open spec fn sorted_by_storage(s: Seq<(ContractAddress, u64)>) -> bool {
    forall|i: int, j: int|
        #![trigger s[i], s[j]]
        0 <= i < j < s.len() ==> stored_before(s[i].0, s[j].0)
}

/// Puts `x` into a list kept in storage order, at its place.
fn insert_by_storage(r: &mut Vec<(ContractAddress, u64)>, x: (ContractAddress, u64))
    requires
        sorted_by_storage(old(r)@),
        forall|k: int| 0 <= k < old(r)@.len() ==> old(r)@[k].0 != x.0,
    ensures
        sorted_by_storage(final(r)@),
        forall|e: (ContractAddress, u64)|
            final(r)@.contains(e) <==> (old(r)@.contains(e) || e == x),
{
    let ghost o = r@;
    let mut p: usize = 0;
    while p < r.len() && is_stored_before(&r[p].0, &x.0)
        invariant
            p <= r@.len(),
            r@ == o,
            sorted_by_storage(o),
            forall|k: int| 0 <= k < p ==> stored_before(#[trigger] o[k].0, x.0),
        decreases r@.len() - p,
    {
        p = p + 1;
    }
    proof {
        if p < o.len() {
            lemma_stored_before_total(o[p as int].0, x.0);
            assert forall|k: int| p <= k < o.len() implies stored_before(x.0, #[trigger] o[k].0) by {
                if k > p {
                    assert(stored_before(o[p as int].0, o[k].0));
                    lemma_bytes_lt_transitive(
                        address_bytes(x.0),
                        address_bytes(o[p as int].0),
                        address_bytes(o[k].0),
                    );
                }
            }
        }
    }
    r.insert(p, x);
    proof {
        let n = r@;
        assert(n == o.insert(p as int, x));
        assert forall|i: int, j: int|
            #![trigger n[i], n[j]]
            0 <= i < j < n.len() implies stored_before(n[i].0, n[j].0) by {
            if j < p {
                assert(n[i] == o[i] && n[j] == o[j]);
            } else if j == p {
                assert(n[i] == o[i]);
            } else if i < p {
                assert(n[i] == o[i] && n[j] == o[j - 1]);
                assert(stored_before(o[i].0, o[j - 1].0) || i == j - 1);
            } else if i == p {
                assert(n[j] == o[j - 1]);
            } else {
                assert(n[i] == o[i - 1] && n[j] == o[j - 1]);
            }
        }
        assert forall|e: (ContractAddress, u64)| n.contains(e) <==> (o.contains(e) || e == x) by {
            if n.contains(e) {
                let m = choose|m: int| 0 <= m < n.len() && n[m] == e;
                if m < p {
                    assert(o[m] == e);
                } else if m > p {
                    assert(o[m - 1] == e);
                }
            }
            if o.contains(e) {
                let m = choose|m: int| 0 <= m < o.len() && o[m] == e;
                if m < p {
                    assert(n[m] == e);
                } else {
                    assert(n[m + 1] == e);
                }
            }
            if e == x {
                assert(n[p as int] == e);
            }
        }
    }
}

/// The sum of a prefix is at most the sum of the whole.
pub proof fn lemma_sum_prefix<K>(s: Seq<(K, u64)>, n: int)
    requires
        0 <= n <= s.len(),
    ensures
        sum_values(s.take(n)) <= sum_values(s),
        n < s.len() ==> sum_values(s.take(n + 1)) == sum_values(s.take(n)) + s[n].1,
    decreases s.len(),
{
    if n < s.len() {
        assert(s.take(n + 1).drop_last() =~= s.take(n));
        lemma_sum_prefix(s.drop_last(), n);
        assert(s.drop_last().take(n) =~= s.take(n));
        lemma_sum_values_bounds(s.drop_last());
    } else {
        assert(s.take(n) =~= s);
    }
}

/// Adds up the credits placed with projects.
pub fn credit_total(credits: &Vec<(ContractAddress, u64)>) -> (t: u64)
    requires
        sum_values(credits@) <= u64::MAX,
    ensures
        t == sum_values(credits@),
{
    let mut total: u64 = 0;
    let mut j: usize = 0;
    while j < credits.len()
        invariant
            j <= credits@.len(),
            total == sum_values(credits@.take(j as int)),
            sum_values(credits@) <= u64::MAX,
        decreases credits@.len() - j,
    {
        proof {
            lemma_sum_prefix(credits@, j as int);
            lemma_sum_prefix(credits@, j as int + 1);
        }
        total = total + credits[j].1;
        j = j + 1;
    }
    proof {
        lemma_sum_prefix(credits@, j as int);
        assert(credits@.take(j as int) =~= credits@);
    }
    total
}

} // verus!
