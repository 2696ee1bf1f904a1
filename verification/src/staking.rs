//! The program's instructions on a stake record: what each decides and
//! changes, once the outside reads (clock, rent, accounts) are done.
use vstd::prelude::*;

use crate::error::CustomError;
use crate::metadata::{read_metadata_creators, Creator};
use crate::pubkey::Pubkey;
use crate::stake_info::{find_stake, StakeInfo};

verus! {

/// The lamports to move into the stake record's account so that it holds
/// `required`, where it holds `lamports` now: `None` where it holds enough.
pub fn rent_top_up(lamports: u64, required: u64) -> (r: Option<u64>)
    ensures
        match r {
            Some(t) => lamports < required && t == required - lamports,
            None => lamports >= required,
        },
{
    if lamports < required {
        Some(required - lamports)
    } else {
        None
    }
}

/// Records a stake of `mint` from `time` at the end of the user's record,
/// and returns the lamports to move into the record's account first (see
/// `rent_top_up`), where it holds `lamports` and the grown record needs
/// `lamports_required` to stay rent-exempt.
pub fn stake(
    stake_info: &mut StakeInfo,
    mint: Pubkey,
    time: i64,
    lamports: u64,
    lamports_required: u64,
) -> (top_up: Option<u64>)
    ensures
        final(stake_info)@ == old(stake_info)@.with_stake(mint@, time),
        final(stake_info).mints@ == old(stake_info).mints@.push(mint),
        final(stake_info).staked_times@ == old(stake_info).staked_times@.push(time),
        match top_up {
            Some(t) => lamports < lamports_required && t == lamports_required - lamports,
            None => lamports >= lamports_required,
        },
        old(stake_info)@.well_formed() ==> final(stake_info)@.well_formed(),
{
    let top_up = rent_top_up(lamports, lamports_required);
    stake_info.add_stake(mint, time);
    top_up
}

/// The lamports that `rent_top_up` moves: `None` where the account holds enough.
pub open spec fn top_up_amount(lamports: u64, required: u64) -> Option<u64> {
    if lamports < required {
        Some((required - lamports) as u64)
    } else {
        None
    }
}

/// Stakes an NFT whose metadata read gave `read`: refused with
/// `InvalidAccount`, the record left as it was, unless the collection check
/// admits the NFT for `authority`; else records the stake as `stake` does and
/// returns the lamports to move into the record's account.
pub fn stake_admitted(
    stake_info: &mut StakeInfo,
    read: &Option<Option<Vec<Creator>>>,
    authority: &Pubkey,
    mint: Pubkey,
    time: i64,
    lamports: u64,
    lamports_required: u64,
) -> (r: Result<Option<u64>, CustomError>)
    ensures
        match crate::metadata::collection_verdict(crate::metadata::read_view(*read), authority@) {
            Ok(_) => r == Ok::<Option<u64>, CustomError>(top_up_amount(lamports, lamports_required))
                && final(stake_info)@ == old(stake_info)@.with_stake(mint@, time)
                && final(stake_info).mints@ == old(stake_info).mints@.push(mint)
                && final(stake_info).staked_times@ == old(stake_info).staked_times@.push(time)
                && match r {
                Ok(Some(t)) => lamports < lamports_required && t == lamports_required - lamports,
                Ok(None) => lamports >= lamports_required,
                Err(_) => false,
            },
            Err(e) => r == Err::<Option<u64>, CustomError>(e) && final(stake_info)@ == old(
                stake_info,
            )@,
        },
        old(stake_info)@.well_formed() ==> final(stake_info)@.well_formed(),
{
    match crate::metadata::verify_creators(read, authority) {
        Err(e) => Err(e),
        Ok(()) => Ok(stake(stake_info, mint, time, lamports, lamports_required)),
    }
}

/// Stakes an NFT given its metadata account's data: reads the metadata, then
/// decides and records as `stake_admitted` does.
pub fn stake_nft(
    stake_info: &mut StakeInfo,
    metadata_data: &[u8],
    authority: &Pubkey,
    mint: Pubkey,
    time: i64,
    lamports: u64,
    lamports_required: u64,
) -> (r: Result<Option<u64>, CustomError>)
    ensures
        match crate::metadata::collection_verdict(
            crate::metadata::metadata_creators(metadata_data@),
            authority@,
        ) {
            Ok(_) => r == Ok::<Option<u64>, CustomError>(top_up_amount(lamports, lamports_required))
                && final(stake_info)@ == old(stake_info)@.with_stake(mint@, time)
                && final(stake_info).mints@ == old(stake_info).mints@.push(mint)
                && final(stake_info).staked_times@ == old(stake_info).staked_times@.push(time)
                && match r {
                Ok(Some(t)) => lamports < lamports_required && t == lamports_required - lamports,
                Ok(None) => lamports >= lamports_required,
                Err(_) => false,
            },
            Err(e) => r == Err::<Option<u64>, CustomError>(e) && final(stake_info)@ == old(
                stake_info,
            )@,
        },
        old(stake_info)@.well_formed() ==> final(stake_info)@.well_formed(),
{
    let read = read_metadata_creators(metadata_data);
    stake_admitted(stake_info, &read, authority, mint, time, lamports, lamports_required)
}

/// The reward for a stake held from `since` to `now`.
pub fn stake_reward(now: i64, since: i64) -> (r: u64)
    requires
        crate::stake_info::elapsed_fits(now, since),
    ensures
        r == crate::stake_info::reward(now, since),
        since <= now ==> r == now - since,
{
    let time_diff = now - since;
    let r = #[verifier::truncate] (time_diff as u64);
    assert(r == if time_diff >= 0 {
        time_diff as int
    } else {
        time_diff + 0x1_0000_0000_0000_0000
    }) by (bit_vector)
        requires
            r == time_diff as u64,
    ;
    r
}

/// Sets the owner of a new stake record to the user who created it.
pub fn initialize_user(stake_info: &mut StakeInfo, user: Pubkey)
    ensures
        final(stake_info)@ == old(stake_info)@.with_owner(user@),
        final(stake_info).owner == user,
        final(stake_info).mints@ == old(stake_info).mints@,
        final(stake_info).staked_times@ == old(stake_info).staked_times@,
        old(stake_info)@.well_formed() ==> final(stake_info)@.well_formed(),
{
    stake_info.owner = user;
}

/// Pays out the rewards of all stakes at `now`: returns their sum, and every
/// stake earns again from `now`.
pub fn claim(stake_info: &mut StakeInfo, now: i64) -> (total: u64)
    requires
        old(stake_info)@.can_claim(now),
    ensures
        total == old(stake_info)@.claim_total(now),
        final(stake_info)@ == old(stake_info)@.claimed(now),
        final(stake_info).mints@ == old(stake_info).mints@,
        final(stake_info).owner == old(stake_info).owner,
        final(stake_info).staked_times@.len() == old(stake_info).staked_times@.len(),
        forall|j: int|
            0 <= j < old(stake_info).staked_times@.len() ==> #[trigger] final(stake_info).staked_times@[j]
                == if j < old(stake_info).mints@.len() {
                now
            } else {
                old(stake_info).staked_times@[j]
            },
        old(stake_info)@.well_formed() ==> final(stake_info)@.well_formed(),
{
    let ghost old_times = stake_info.staked_times@;
    let ghost n_mints = stake_info.mints@.len();
    let mut total: u64 = 0;
    let n = stake_info.mints.len();
    let mut i: usize = 0;
    while i < n
        invariant
            n == n_mints,
            n_mints == stake_info.mints@.len(),
            stake_info.mints@ == old(stake_info).mints@,
            stake_info.owner == old(stake_info).owner,
            old_times == old(stake_info).staked_times@,
            old(stake_info)@.can_claim(now),
            i <= n,
            stake_info.staked_times@.len() == old_times.len(),
            forall|j: int|
                0 <= j < old_times.len() ==> #[trigger] stake_info.staked_times@[j] == if j < i {
                    now
                } else {
                    old_times[j]
                },
            total == crate::stake_info::total_reward(old_times.take(i as int), now),
        decreases n - i,
    {
        proof {
            crate::stake_info::lemma_total_reward_monotone(old_times.take(n as int), now, i + 1);
            assert(old_times.take(n as int).take(i + 1) =~= old_times.take(i + 1));
            assert(old_times.take(i + 1).drop_last() =~= old_times.take(i as int));
            assert(crate::stake_info::elapsed_fits(now, old(stake_info).staked_times@[i as int]));
        }
        let r = stake_reward(now, stake_info.staked_times[i]);
        total = total + r;
        stake_info.staked_times.set(i, now);
        i = i + 1;
    }
    proof {
        assert(stake_info.staked_times@ =~= old(stake_info)@.claimed(now).staked_times);
    }
    total
}

/// Ends the stake of `mint` at `now`: returns the reward it earned, and
/// removes it from the record. Refused with `NotStaked` where the user has
/// no stake of that mint.
pub fn unstake(stake_info: &mut StakeInfo, mint: &Pubkey, now: i64) -> (r: Result<u64, CustomError>)
    requires
        old(stake_info)@.can_unstake(mint@, now),
    ensures
        match old(stake_info)@.stake_index(mint@) {
            Some(i) => r == Ok::<u64, CustomError>(
                crate::stake_info::reward(now, old(stake_info)@.staked_times[i]) as u64,
            ) && final(stake_info)@ == old(stake_info)@.without_stake(i)
                && final(stake_info).mints@ == old(stake_info).mints@.remove(i)
                && final(stake_info).staked_times@ == old(stake_info).staked_times@.remove(i)
                && old(stake_info).mints@[i]@ == mint@
                && (old(stake_info).staked_times@[i] <= now ==> r == Ok::<u64, CustomError>(
                (now - old(stake_info).staked_times@[i]) as u64,
            )),
            None => r == Err::<u64, CustomError>(CustomError::NotStaked) && final(stake_info)@
                == old(stake_info)@,
        },
        r is Err <==> !old(stake_info)@.mints.contains(mint@),
        old(stake_info)@.well_formed() ==> final(stake_info)@.well_formed(),
{
    let index = match find_stake(&stake_info.mints, mint) {
        None => {
            proof {
                if old(stake_info)@.mints.contains(mint@) {
                    let k = choose|k: int| 0 <= k < old(stake_info)@.mints.len() && old(stake_info)@.mints[k] == mint@;
                    crate::stake_info::lemma_first_index_le(old(stake_info)@.mints, mint@, k);
                }
            }
            return Err(CustomError::NotStaked);
        },
        Some(index) => index,
    };
    assert(old(stake_info)@.mints[index as int] == mint@);
    let amount = stake_reward(now, stake_info.staked_times[index]);
    stake_info.remove_stake(index);
    Ok(amount)
}


impl StakeInfo {
    /// Whether `claim` at `now` can be computed: where it cannot, the
    /// program's arithmetic would overflow (or read past the times).
    pub fn claim_fits(&self, now: i64) -> (r: bool)
        ensures
            r == self@.can_claim(now),
    {
        let n = self.mints.len();
        if n > self.staked_times.len() {
            return false;
        }
        let ghost times = self@.claimed_times();
        let mut total: u64 = 0;
        let mut i: usize = 0;
        while i < n
            invariant
                n == self.mints@.len(),
                n <= self.staked_times@.len(),
                times == self@.claimed_times(),
                i <= n,
                forall|j: int| 0 <= j < i ==> crate::stake_info::elapsed_fits(now, #[trigger] self.staked_times@[j]),
                total == crate::stake_info::total_reward(times.take(i as int), now),
            decreases n - i,
        {
            proof {
                assert(times.take(i + 1).drop_last() =~= times.take(i as int));
                assert(times[i as int] == self.staked_times@[i as int]);
            }
            match now.checked_sub(self.staked_times[i]) {
                None => return false,
                Some(_) => {},
            }
            let r = stake_reward(now, self.staked_times[i]);
            match total.checked_add(r) {
                None => {
                    proof {
                        crate::stake_info::lemma_total_reward_monotone(times, now, i + 1);
                    }
                    return false;
                },
                Some(t) => {
                    total = t;
                },
            }
            i = i + 1;
        }
        proof {
            assert(times.take(n as int) =~= times);
        }
        true
    }

    /// Whether `unstake` of `mint` at `now` can be computed: where it cannot,
    /// the program would read past the times or overflow.
    pub fn unstake_fits(&self, mint: &Pubkey, now: i64) -> (r: bool)
        ensures
            r == self@.can_unstake(mint@, now),
    {
        match find_stake(&self.mints, mint) {
            None => true,
            Some(i) => i < self.staked_times.len() && now.checked_sub(self.staked_times[i]).is_some(),
        }
    }
}

} // verus!
