//! The per-user stake record: which NFTs a user has staked and since when,
//! and the rewards they have earned.
use vstd::prelude::*;

use crate::pubkey::Pubkey;

verus! {

/// A user's stake record: the owner, the mints of the staked NFTs, and for
/// each the time (in seconds) from which it earns rewards.
#[derive(Debug)]
pub struct StakeInfo {
    pub owner: Pubkey,
    pub mints: Vec<Pubkey>,
    pub staked_times: Vec<i64>,
}

/// What a stake record holds, as mathematical values.
pub struct StakeInfoView {
    pub owner: Seq<u8>,
    pub mints: Seq<Seq<u8>>,
    pub staked_times: Seq<i64>,
}

/// The addresses of a list of keys.
pub open spec fn keys_view(keys: Seq<Pubkey>) -> Seq<Seq<u8>> {
    keys.map_values(|k: Pubkey| k@)
}

impl View for StakeInfo {
    type V = StakeInfoView;

    open spec fn view(&self) -> StakeInfoView {
        StakeInfoView {
            owner: self.owner@,
            mints: keys_view(self.mints@),
            staked_times: self.staked_times@,
        }
    }
}

/// The number of bytes that a record with `n` stakes takes: the owner (32),
/// the two length prefixes (4 each), and 32 + 8 bytes per stake.
pub open spec fn account_space(n: int) -> int {
    32 + 4 + 32 * n + 4 + 8 * n
}

/// The reward for holding a stake from `since` to `now`: one token per
/// second, the difference taken as an unsigned 64-bit number (a negative
/// difference wraps around).
pub open spec fn reward(now: i64, since: i64) -> int {
    if now >= since {
        now - since
    } else {
        now - since + 0x1_0000_0000_0000_0000
    }
}

/// `now - since` can be computed as a signed 64-bit number.
pub open spec fn elapsed_fits(now: i64, since: i64) -> bool {
    i64::MIN <= now - since <= i64::MAX
}

/// The sum of the rewards of stakes made at `times`, up to `now`.
pub open spec fn total_reward(times: Seq<i64>, now: i64) -> int
    decreases times.len(),
{
    if times.len() == 0 {
        0
    } else {
        total_reward(times.drop_last(), now) + reward(now, times.last())
    }
}

/// The position of the first occurrence of `x` in `s`, or -1.
pub open spec fn first_index(s: Seq<Seq<u8>>, x: Seq<u8>) -> int
    decreases s.len(),
{
    if s.len() == 0 {
        -1
    } else if s[0] == x {
        0
    } else {
        let r = first_index(s.drop_first(), x);
        if r < 0 {
            -1
        } else {
            r + 1
        }
    }
}

impl StakeInfoView {
    /// Both lists have one entry per stake.
    pub open spec fn well_formed(self) -> bool {
        self.mints.len() == self.staked_times.len()
    }

    /// The record with one more stake, of `mint` from `time`, at the end.
    pub open spec fn with_stake(self, mint: Seq<u8>, time: i64) -> StakeInfoView {
        StakeInfoView {
            owner: self.owner,
            mints: self.mints.push(mint),
            staked_times: self.staked_times.push(time),
        }
    }

    /// The record without the stake at position `i`.
    pub open spec fn without_stake(self, i: int) -> StakeInfoView {
        StakeInfoView {
            owner: self.owner,
            mints: self.mints.remove(i),
            staked_times: self.staked_times.remove(i),
        }
    }

    /// The record with the owner set to `owner`.
    pub open spec fn with_owner(self, owner: Seq<u8>) -> StakeInfoView {
        StakeInfoView { owner, mints: self.mints, staked_times: self.staked_times }
    }

    /// The position of the stake of `mint`, if it is staked: its first one.
    pub open spec fn stake_index(self, mint: Seq<u8>) -> Option<int> {
        let i = first_index(self.mints, mint);
        if i < 0 {
            None
        } else {
            Some(i)
        }
    }

    /// The times of the stakes, one per mint (those that `claim` reads).
    pub open spec fn claimed_times(self) -> Seq<i64> {
        self.staked_times.take(self.mints.len() as int)
    }

    /// What claiming at `now` pays: the rewards of all stakes, summed.
    pub open spec fn claim_total(self, now: i64) -> int {
        total_reward(self.claimed_times(), now)
    }

    /// A claim at `now` can be computed without overflow.
    pub open spec fn can_claim(self, now: i64) -> bool {
        &&& self.mints.len() <= self.staked_times.len()
        &&& forall|i: int|
            0 <= i < self.mints.len() ==> elapsed_fits(now, #[trigger] self.staked_times[i])
        &&& self.claim_total(now) <= u64::MAX
    }

    /// The record after a claim at `now`: every stake earns again from `now`.
    pub open spec fn claimed(self, now: i64) -> StakeInfoView {
        StakeInfoView {
            owner: self.owner,
            mints: self.mints,
            staked_times: Seq::new(
                self.staked_times.len(),
                |j: int|
                    if j < self.mints.len() {
                        now
                    } else {
                        self.staked_times[j]
                    },
            ),
        }
    }

    /// An unstake of `mint` at `now` can be computed without overflow.
    pub open spec fn can_unstake(self, mint: Seq<u8>, now: i64) -> bool {
        match self.stake_index(mint) {
            Some(i) => i < self.staked_times.len() && elapsed_fits(now, self.staked_times[i]),
            None => true,
        }
    }
}

/// `total_reward` over a longer prefix is at least as large.
pub proof fn lemma_total_reward_monotone(times: Seq<i64>, now: i64, i: int)
    requires
        0 <= i <= times.len(),
    ensures
        0 <= total_reward(times.take(i), now) <= total_reward(times, now),
    decreases times.len(),
{
    if i < times.len() {
        lemma_total_reward_monotone(times.drop_last(), now, i);
        assert(times.drop_last().take(i) =~= times.take(i));
    } else {
        assert(times.take(i) =~= times);
        lemma_total_reward_nonneg(times, now);
    }
}

/// Rewards are never negative.
pub proof fn lemma_total_reward_nonneg(times: Seq<i64>, now: i64)
    ensures
        total_reward(times, now) >= 0,
    decreases times.len(),
{
    if times.len() > 0 {
        lemma_total_reward_nonneg(times.drop_last(), now);
    }
}

/// `first_index` finds the first position at which `x` stands.
pub proof fn lemma_first_index(s: Seq<Seq<u8>>, x: Seq<u8>, i: int)
    requires
        0 <= i <= s.len(),
        forall|j: int| 0 <= j < i ==> s[j] != x,
        i < s.len() ==> s[i] == x,
    ensures
        first_index(s, x) == if i < s.len() {
            i
        } else {
            -1
        },
    decreases s.len(),
{
    if s.len() > 0 && i > 0 {
        assert forall|j: int| 0 <= j < i - 1 implies s.drop_first()[j] != x by {
            assert(s.drop_first()[j] == s[j + 1]);
        }
        lemma_first_index(s.drop_first(), x, i - 1);
    }
}

impl StakeInfo {
    /// The number of bytes of account data that a record with `size` stakes takes.
    pub fn space(size: usize) -> (r: usize)
        requires
            account_space(size as int) <= usize::MAX,
        ensures
            r == account_space(size as int),
    {
        32 + 4 + 32 * size + 4 + 8 * size
    }

    /// The number of bytes of account data the record takes as it stands.
    pub fn record_space(&self) -> (r: usize)
        requires
            account_space(self.mints@.len() as int) <= usize::MAX,
        ensures
            r == account_space(self@.mints.len() as int),
    {
        Self::space(self.mints.len())
    }

    /// The number of bytes of account data the record takes once one more
    /// stake is recorded.
    pub fn stake_space(&self) -> (r: usize)
        requires
            account_space(self.mints@.len() + 1int) <= usize::MAX,
        ensures
            r == account_space(self@.mints.len() + 1int),
    {
        Self::space(self.mints.len() + 1)
    }

    /// Records a new stake of `mint`, earning from `time`, at the end of the record.
    pub fn add_stake(&mut self, mint: Pubkey, time: i64)
        ensures
            final(self)@ == old(self)@.with_stake(mint@, time),
            final(self).mints@ == old(self).mints@.push(mint),
            final(self).staked_times@ == old(self).staked_times@.push(time),
            final(self).owner == old(self).owner,
            old(self)@.well_formed() ==> final(self)@.well_formed(),
    {
        self.mints.push(mint);
        self.staked_times.push(time);
        proof {
            assert(keys_view(self.mints@) =~= keys_view(old(self).mints@).push(mint@));
        }
    }

    /// Removes the stake at position `i`; the stakes after it move up by one.
    pub fn remove_stake(&mut self, i: usize)
        requires
            i < old(self).mints.len(),
            i < old(self).staked_times.len(),
        ensures
            final(self)@ == old(self)@.without_stake(i as int),
            final(self).mints@ == old(self).mints@.remove(i as int),
            final(self).staked_times@ == old(self).staked_times@.remove(i as int),
            final(self).owner == old(self).owner,
            old(self)@.well_formed() ==> final(self)@.well_formed(),
    {
        self.mints.remove(i);
        self.staked_times.remove(i);
        proof {
            assert(keys_view(self.mints@) =~= keys_view(old(self).mints@).remove(i as int));
        }
    }
}

/// The position of the first stake of `mint` among `mints`.
pub fn find_stake(mints: &Vec<Pubkey>, mint: &Pubkey) -> (r: Option<usize>)
    ensures
        match r {
            Some(i) => i < mints@.len() && first_index(keys_view(mints@), mint@) == i
                && keys_view(mints@)[i as int] == mint@,
            None => first_index(keys_view(mints@), mint@) == -1,
        },
{
    let n = mints.len();
    let mut i: usize = 0;
    while i < n
        invariant
            n == mints@.len(),
            i <= n,
            forall|j: int| 0 <= j < i ==> keys_view(mints@)[j] != mint@,
        decreases n - i,
    {
        if mints[i] == *mint {
            proof {
                lemma_first_index(keys_view(mints@), mint@, i as int);
            }
            return Some(i);
        }
        i = i + 1;
    }
    proof {
        lemma_first_index(keys_view(mints@), mint@, n as int);
    }
    None
}

/// `first_index` gives a position holding `x` with no `x` before it, or
/// -1 where `x` does not occur.
pub proof fn lemma_first_index_props(s: Seq<Seq<u8>>, x: Seq<u8>)
    ensures
        -1 <= first_index(s, x) < s.len(),
        first_index(s, x) >= 0 ==> s[first_index(s, x)] == x,
        forall|j: int| 0 <= j < s.len() && (first_index(s, x) < 0 || j < first_index(s, x)) ==> s[j] != x,
    decreases s.len(),
{
    if s.len() > 0 {
        lemma_first_index_props(s.drop_first(), x);
        assert forall|j: int| 0 < j < s.len() implies s[j] == s.drop_first()[j - 1] by {}
    }
}

/// Where `x` stands at position `k`, `first_index` finds a position no later.
pub proof fn lemma_first_index_le(s: Seq<Seq<u8>>, x: Seq<u8>, k: int)
    requires
        0 <= k < s.len(),
        s[k] == x,
    ensures
        0 <= first_index(s, x) <= k,
        s[first_index(s, x)] == x,
    decreases s.len(),
{
    if s[0] != x {
        assert(s.drop_first()[k - 1] == x);
        lemma_first_index_le(s.drop_first(), x, k - 1);
    }
}

} // verus!
