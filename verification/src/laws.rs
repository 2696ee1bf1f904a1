//! What holds of the program's operations taken together.
use vstd::prelude::*;

use crate::metadata::{self, NftMetadata};
use crate::stake_info::{self, StakeInfoView};

verus! {

/// Each stake makes the record's account 40 bytes larger.
pub proof fn law_space_per_stake(n: int)
    ensures
        stake_info::account_space(n + 1) == stake_info::account_space(n) + 40,
{
}

/// The account size computed before a stake (`stake_space`) is the size of
/// the record after it (`record_space`); after an unstake the record takes
/// 40 bytes less.
pub proof fn law_space_follows_record(v: StakeInfoView, mint: Seq<u8>, time: i64, i: int)
    requires
        0 <= i < v.mints.len(),
        i < v.staked_times.len(),
    ensures
        stake_info::account_space(v.with_stake(mint, time).mints.len() as int)
            == stake_info::account_space(v.mints.len() + 1int),
        stake_info::account_space(v.without_stake(i).mints.len() as int)
            == stake_info::account_space(v.mints.len() as int) - 40,
{
}

/// Unstaking an NFT right after staking it gives the record back as it was,
/// and pays the reward for the time between.
pub proof fn law_unstake_undoes_stake(v: StakeInfoView, mint: Seq<u8>, time: i64, now: i64)
    requires
        v.well_formed(),
        !v.mints.contains(mint),
        stake_info::elapsed_fits(now, time),
    ensures
        v.with_stake(mint, time).stake_index(mint) == Some(v.mints.len() as int),
        v.with_stake(mint, time).can_unstake(mint, now),
        v.with_stake(mint, time).without_stake(v.mints.len() as int) == v,
        v.with_stake(mint, time).staked_times[v.mints.len() as int] == time,
{
    let w = v.with_stake(mint, time);
    assert forall|j: int| 0 <= j < v.mints.len() implies w.mints[j] != mint by {
        assert(w.mints[j] == v.mints[j]);
    }
    stake_info::lemma_first_index(w.mints, mint, v.mints.len() as int);
    assert(w.without_stake(v.mints.len() as int).mints =~= v.mints);
    assert(w.without_stake(v.mints.len() as int).staked_times =~= v.staked_times);
}

/// A sequence of equal stake times earns nothing at that time.
proof fn lemma_total_reward_all_now(times: Seq<i64>, now: i64)
    requires
        forall|j: int| 0 <= j < times.len() ==> times[j] == now,
    ensures
        stake_info::total_reward(times, now) == 0,
    decreases times.len(),
{
    if times.len() > 0 {
        lemma_total_reward_all_now(times.drop_last(), now);
    }
}

/// A second claim at the same time pays nothing, and can be made.
pub proof fn law_claim_twice_pays_nothing(v: StakeInfoView, now: i64)
    requires
        v.can_claim(now),
    ensures
        v.claimed(now).claim_total(now) == 0,
        v.claimed(now).can_claim(now),
{
    let c = v.claimed(now);
    assert(c.mints == v.mints);
    assert forall|j: int| 0 <= j < c.claimed_times().len() implies c.claimed_times()[j] == now by {
        assert(c.claimed_times()[j] == c.staked_times[j]);
    }
    lemma_total_reward_all_now(c.claimed_times(), now);
    assert forall|i: int| 0 <= i < c.mints.len() implies stake_info::elapsed_fits(
        now,
        #[trigger] c.staked_times[i],
    ) by {
        assert(c.staked_times[i] == now);
    }
}

/// A new stake adds its own reward to what a claim pays, and leaves the
/// rewards of the other stakes as they were.
pub proof fn law_claim_counts_new_stake(v: StakeInfoView, mint: Seq<u8>, time: i64, now: i64)
    requires
        v.well_formed(),
    ensures
        v.with_stake(mint, time).claim_total(now) == v.claim_total(now) + stake_info::reward(now, time),
{
    let w = v.with_stake(mint, time);
    assert(v.claimed_times() =~= v.staked_times);
    assert(w.claimed_times() =~= v.staked_times.push(time));
    assert(v.staked_times.push(time).drop_last() =~= v.staked_times);
}

/// Removing the stake at `i` takes exactly its reward out of the total.
proof fn lemma_total_reward_remove(times: Seq<i64>, now: i64, i: int)
    requires
        0 <= i < times.len(),
    ensures
        stake_info::total_reward(times, now) == stake_info::total_reward(times.remove(i), now) + stake_info::reward(now, times[i]),
    decreases times.len(),
{
    if i == times.len() - 1 {
        assert(times.remove(i) =~= times.drop_last());
    } else {
        lemma_total_reward_remove(times.drop_last(), now, i);
        assert(times.drop_last().remove(i) =~= times.remove(i).drop_last());
        assert(times.remove(i).last() == times.last());
    }
}

/// What unstaking an NFT pays is exactly that NFT's part of what a claim at
/// the same time would pay: the claim over the remaining stakes pays the rest.
pub proof fn law_unstake_pays_its_share(v: StakeInfoView, mint: Seq<u8>, now: i64)
    requires
        v.well_formed(),
        v.stake_index(mint) is Some,
    ensures
        v.claim_total(now) == v.without_stake(v.stake_index(mint).unwrap()).claim_total(now)
            + stake_info::reward(now, v.staked_times[v.stake_index(mint).unwrap()]),
{
    let i = v.stake_index(mint).unwrap();
    lemma_first_index_bound(v.mints, mint);
    let w = v.without_stake(i);
    assert(v.claimed_times() =~= v.staked_times);
    assert(w.claimed_times() =~= v.staked_times.remove(i));
    lemma_total_reward_remove(v.staked_times, now, i);
}

/// `first_index` is -1 or a position of the sequence.
proof fn lemma_first_index_bound(s: Seq<Seq<u8>>, x: Seq<u8>)
    ensures
        -1 <= stake_info::first_index(s, x) < s.len(),
    decreases s.len(),
{
    if s.len() > 0 {
        lemma_first_index_bound(s.drop_first(), x);
    }
}

/// The NFTs that the program mints pass its own collection check, so they
/// can be staked; their creators' shares add up to 100, and the program's
/// authority is the only verified creator.
pub proof fn law_minted_nft_is_stakeable(m: NftMetadata, authority: Seq<u8>, creator: Seq<u8>)
    requires
        metadata::is_spore_metadata(m, authority, creator),
    ensures
        metadata::collection_verdict(Some(Some(metadata::creators_view(m.creators@))), authority) == Ok::<
            (),
            crate::error::CustomError,
        >(()),
        metadata::creators_view(m.creators@)[0].2 + metadata::creators_view(m.creators@)[1].2 == 100,
        forall|i: int|
            0 <= i < metadata::creators_view(m.creators@).len() && (#[trigger] metadata::creators_view(
                m.creators@,
            )[i]).1 ==> metadata::creators_view(m.creators@)[i].0 == authority,
{
    let cv = metadata::creators_view(m.creators@);
    assert(cv[0].1 && cv[0].0 == authority);
}

/// After a claim at `claimed_at`, every stake earns from `claimed_at`: an
/// unstake at `now` pays only the time since the claim.
pub proof fn law_unstake_after_claim(v: StakeInfoView, mint: Seq<u8>, claimed_at: i64, now: i64)
    requires
        v.can_claim(claimed_at),
        v.stake_index(mint) is Some,
    ensures
        v.claimed(claimed_at).stake_index(mint) == v.stake_index(mint),
        v.claimed(claimed_at).staked_times[v.stake_index(mint).unwrap()] == claimed_at,
        v.claimed(claimed_at).can_unstake(mint, now) <== stake_info::elapsed_fits(now, claimed_at),
{
    lemma_first_index_bound(v.mints, mint);
}

/// Where every time in `ts` is at most `t1`, and `t1 <= t2`, the rewards up
/// to `t2` are those up to `t1` plus those of stakes made at `t1` (`us`).
proof fn lemma_total_reward_split(ts: Seq<i64>, us: Seq<i64>, t1: i64, t2: i64)
    requires
        ts.len() == us.len(),
        t1 <= t2,
        forall|j: int| 0 <= j < ts.len() ==> ts[j] <= t1,
        forall|j: int| 0 <= j < us.len() ==> us[j] == t1,
    ensures
        stake_info::total_reward(ts, t2) == stake_info::total_reward(ts, t1)
            + stake_info::total_reward(us, t2),
    decreases ts.len(),
{
    if ts.len() > 0 {
        lemma_total_reward_split(ts.drop_last(), us.drop_last(), t1, t2);
    }
}

/// Claiming at `t1` and again at a later `t2` pays, in all, what one claim at
/// `t2` pays, where no stake is dated after `t1`.
pub proof fn law_two_claims_pay_as_one(v: StakeInfoView, t1: i64, t2: i64)
    requires
        v.mints.len() <= v.staked_times.len(),
        t1 <= t2,
        forall|j: int| 0 <= j < v.mints.len() ==> #[trigger] v.staked_times[j] <= t1,
    ensures
        v.claim_total(t1) + v.claimed(t1).claim_total(t2) == v.claim_total(t2),
{
    let c = v.claimed(t1);
    assert forall|j: int| 0 <= j < c.claimed_times().len() implies c.claimed_times()[j] == t1 by {
        assert(c.claimed_times()[j] == c.staked_times[j]);
    }
    assert forall|j: int| 0 <= j < v.claimed_times().len() implies v.claimed_times()[j] <= t1 by {
        assert(v.claimed_times()[j] == v.staked_times[j]);
    }
    lemma_total_reward_split(v.claimed_times(), c.claimed_times(), t1, t2);
}

/// The reward is exactly the elapsed seconds: one token per second held.
pub proof fn law_reward_is_elapsed_seconds(since: i64, k: i64)
    requires
        k >= 0,
        since + k <= i64::MAX,
    ensures
        stake_info::reward((since + k) as i64, since) == k,
{
}

/// A claim on a record with no stakes pays nothing; on a record with a
/// single stake made at `time <= now` it pays the seconds since `time`.
pub proof fn law_claim_pays_elapsed_seconds(v: StakeInfoView, mint: Seq<u8>, time: i64, now: i64)
    requires
        v.mints.len() == 0,
        v.staked_times.len() == 0,
        time <= now,
    ensures
        v.claim_total(now) == 0,
        v.with_stake(mint, time).claim_total(now) == now - time,
{
    law_claim_counts_new_stake(v, mint, time, now);
    assert(v.claimed_times() =~= Seq::<i64>::empty());
}

/// A claim restarts every stake at `now` and changes nothing else.
pub proof fn law_claim_restarts_every_stake(v: StakeInfoView, now: i64)
    ensures
        v.claimed(now).owner == v.owner,
        v.claimed(now).mints == v.mints,
        v.claimed(now).staked_times.len() == v.staked_times.len(),
        forall|j: int|
            0 <= j < v.staked_times.len() ==> #[trigger] v.claimed(now).staked_times[j] == if j
                < v.mints.len() {
                now
            } else {
                v.staked_times[j]
            },
{
}

/// The lamports topped up bring the account exactly to what it needs, and
/// nothing is topped up where it holds enough.
pub proof fn law_top_up_restores_rent(lamports: u64, required: u64)
    ensures
        match crate::staking::top_up_amount(lamports, required) {
            Some(t) => lamports < required && lamports + t == required,
            None => lamports >= required,
        },
{
}

/// A new stake goes at the end, paired with its time; the stakes before it
/// keep their mints and times, and the owner stays.
pub proof fn law_stake_appends_pair(v: StakeInfoView, mint: Seq<u8>, time: i64)
    ensures
        v.with_stake(mint, time).owner == v.owner,
        v.with_stake(mint, time).mints.len() == v.mints.len() + 1,
        v.with_stake(mint, time).staked_times.len() == v.staked_times.len() + 1,
        v.with_stake(mint, time).mints[v.mints.len() as int] == mint,
        v.with_stake(mint, time).staked_times[v.staked_times.len() as int] == time,
        forall|j: int|
            0 <= j < v.mints.len() ==> #[trigger] v.with_stake(mint, time).mints[j] == v.mints[j],
        forall|j: int|
            0 <= j < v.staked_times.len() ==> #[trigger] v.with_stake(mint, time).staked_times[j]
                == v.staked_times[j],
{
}

/// Removing the stake at `i` keeps every other mint paired with its own
/// time, in order: the pairs before `i` stay, those after it move up by one.
pub proof fn law_remove_keeps_pairs(v: StakeInfoView, i: int)
    requires
        v.well_formed(),
        0 <= i < v.mints.len(),
    ensures
        v.without_stake(i).owner == v.owner,
        v.without_stake(i).mints.len() == v.mints.len() - 1,
        v.without_stake(i).well_formed(),
        forall|j: int|
            0 <= j < v.mints.len() - 1 ==> (#[trigger] v.without_stake(i).mints[j], v.without_stake(
                i,
            ).staked_times[j]) == if j < i {
                (v.mints[j], v.staked_times[j])
            } else {
                (v.mints[j + 1], v.staked_times[j + 1])
            },
{
}

/// The stake of a mint is found at a position holding that mint, with no
/// stake of it before; a mint not staked is not found.
pub proof fn law_stake_index_finds_first(v: StakeInfoView, mint: Seq<u8>)
    ensures
        match v.stake_index(mint) {
            Some(i) => 0 <= i < v.mints.len() && v.mints[i] == mint && forall|j: int|
                0 <= j < i ==> v.mints[j] != mint,
            None => !v.mints.contains(mint),
        },
{
    stake_info::lemma_first_index_props(v.mints, mint);
    if v.stake_index(mint) is None && v.mints.contains(mint) {
        let k = choose|k: int| 0 <= k < v.mints.len() && v.mints[k] == mint;
        assert(v.mints[k] != mint);
    }
}

/// Unstaking one NFT leaves every other staked NFT with its own stake time:
/// found again, at the same place or one place up, with the same time.
pub proof fn law_unstake_keeps_other_stakes(v: StakeInfoView, mint: Seq<u8>, other: Seq<u8>)
    requires
        v.well_formed(),
        v.stake_index(mint) is Some,
        v.stake_index(other) is Some,
        other != mint,
    ensures
        ({
            let i = v.stake_index(mint).unwrap();
            let k = v.stake_index(other).unwrap();
            let w = v.without_stake(i);
            &&& w.stake_index(other) == Some(if k < i { k } else { k - 1 })
            &&& w.staked_times[if k < i { k } else { k - 1 }] == v.staked_times[k]
        }),
{
    let i = v.stake_index(mint).unwrap();
    let k = v.stake_index(other).unwrap();
    law_stake_index_finds_first(v, mint);
    law_stake_index_finds_first(v, other);
    let w = v.without_stake(i);
    let k2 = if k < i { k } else { k - 1 };
    assert(k != i);
    assert forall|j: int| 0 <= j < k2 implies w.mints[j] != other by {
        if j < i {
            assert(w.mints[j] == v.mints[j]);
        } else {
            assert(w.mints[j] == v.mints[j + 1]);
        }
    }
    assert(w.mints[k2] == other);
    stake_info::lemma_first_index(w.mints, other, k2);
}

/// Setting up a user's record makes that user its owner and leaves its
/// stakes as they were.
pub proof fn law_initialize_user_sets_owner(v: StakeInfoView, user: Seq<u8>)
    ensures
        v.with_owner(user).owner == user,
        v.with_owner(user).mints == v.mints,
        v.with_owner(user).staked_times == v.staked_times,
{
}

/// The record takes 40 bytes, plus 40 per stake.
pub proof fn law_space_is_linear(n: int)
    ensures
        stake_info::account_space(n) == 40 + 40 * n,
{
}

/// The collection check admits exactly the NFTs whose metadata was read and
/// lists `authority` as a verified creator; every refusal is `InvalidAccount`.
pub proof fn law_collection_check_admits_verified_authority(
    read: Option<Option<Seq<(Seq<u8>, bool, u8)>>>,
    authority: Seq<u8>,
)
    ensures
        metadata::collection_verdict(read, authority) is Ok <==> (read matches Some(Some(cs))
            && exists|i: int| 0 <= i < cs.len() && #[trigger] cs[i].1 && cs[i].0 == authority),
        metadata::collection_verdict(read, authority) is Err ==> metadata::collection_verdict(
            read,
            authority,
        ) == Err::<(), crate::error::CustomError>(crate::error::CustomError::InvalidAccount),
{
}

} // verus!
