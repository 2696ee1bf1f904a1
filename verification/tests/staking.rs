use mycelium::stake_info::StakeInfo;
use mycelium::staking::{rent_top_up, stake_reward};
use mycelium::{claim, initialize_user, stake, unstake, CustomError, Pubkey};

fn key(b: u8) -> Pubkey {
    Pubkey::new_from_array([b; 32])
}

fn empty_record(owner: u8) -> StakeInfo {
    StakeInfo { owner: key(owner), mints: Vec::new(), staked_times: Vec::new() }
}

#[test]
fn space_of_records() {
    assert_eq!(StakeInfo::space(0), 40);
    assert_eq!(StakeInfo::space(1), 80);
    assert_eq!(StakeInfo::space(3), 160);
    // The account that `initialize_user` creates: discriminator plus an empty record.
    assert_eq!(8 + StakeInfo::space(0), 8 + 32 + 4 + 4);
}

#[test]
fn space_grows_by_forty_per_stake() {
    for n in 0..50usize {
        assert_eq!(StakeInfo::space(n + 1), StakeInfo::space(n) + 40);
    }
}

#[test]
fn add_and_remove_stakes() {
    let mut info = empty_record(1);
    info.add_stake(key(10), 100);
    info.add_stake(key(11), 200);
    info.add_stake(key(12), 300);
    assert_eq!(info.mints, vec![key(10), key(11), key(12)]);
    assert_eq!(info.staked_times, vec![100, 200, 300]);
    info.remove_stake(1);
    assert_eq!(info.mints, vec![key(10), key(12)]);
    assert_eq!(info.staked_times, vec![100, 300]);
    info.remove_stake(0);
    assert_eq!(info.mints, vec![key(12)]);
    assert_eq!(info.staked_times, vec![300]);
}

#[test]
fn initialize_user_sets_owner() {
    let mut info = empty_record(0);
    initialize_user(&mut info, key(7));
    assert_eq!(info.owner, key(7));
    assert!(info.mints.is_empty());
    assert!(info.staked_times.is_empty());
}

#[test]
fn stake_records_and_tops_up_rent() {
    let mut info = empty_record(1);
    let top_up = stake(&mut info, key(10), 1_000, 500, 890);
    assert_eq!(top_up, Some(390));
    assert_eq!(info.mints, vec![key(10)]);
    assert_eq!(info.staked_times, vec![1_000]);
    let top_up = stake(&mut info, key(11), 1_005, 2_000, 1_200);
    assert_eq!(top_up, None);
    assert_eq!(info.mints, vec![key(10), key(11)]);
    assert_eq!(info.staked_times, vec![1_000, 1_005]);
}

#[test]
fn rent_top_up_edges() {
    assert_eq!(rent_top_up(0, 0), None);
    assert_eq!(rent_top_up(10, 10), None);
    assert_eq!(rent_top_up(9, 10), Some(1));
    assert_eq!(rent_top_up(0, u64::MAX), Some(u64::MAX));
    assert_eq!(rent_top_up(u64::MAX, 0), None);
}

#[test]
fn claim_pays_elapsed_seconds_and_resets() {
    let mut info = empty_record(1);
    info.add_stake(key(10), 100);
    info.add_stake(key(11), 150);
    let total = claim(&mut info, 200);
    assert_eq!(total, 100 + 50);
    assert_eq!(info.staked_times, vec![200, 200]);
    assert_eq!(info.mints, vec![key(10), key(11)]);
}

#[test]
fn claim_twice_at_same_time_pays_nothing() {
    let mut info = empty_record(1);
    info.add_stake(key(10), 100);
    info.add_stake(key(11), 150);
    assert_eq!(claim(&mut info, 500), 750);
    assert_eq!(claim(&mut info, 500), 0);
    assert_eq!(claim(&mut info, 501), 2);
}

#[test]
fn claim_on_empty_record_pays_nothing() {
    let mut info = empty_record(1);
    assert_eq!(claim(&mut info, 12_345), 0);
    assert!(info.staked_times.is_empty());
}

#[test]
fn claim_counts_new_stake() {
    let mut a = empty_record(1);
    a.add_stake(key(10), 100);
    let mut b = empty_record(1);
    b.add_stake(key(10), 100);
    b.add_stake(key(11), 300);
    assert_eq!(claim(&mut b, 1_000), claim(&mut a, 1_000) + 700);
}

#[test]
fn claim_with_clock_behind_wraps() {
    let mut info = empty_record(1);
    info.add_stake(key(10), 100);
    // A negative elapsed time is taken as an unsigned 64-bit number.
    assert_eq!(claim(&mut info, 99), u64::MAX);
}

#[test]
fn claim_fits_checks_overflow() {
    let mut info = empty_record(1);
    info.add_stake(key(10), 101);
    info.add_stake(key(11), 101);
    // Each -1 wraps to u64::MAX; their sum overflows.
    assert!(!info.claim_fits(100));
    assert!(info.claim_fits(200));
    let mut far = empty_record(1);
    far.add_stake(key(10), i64::MIN);
    assert!(!far.claim_fits(1));
    assert!(far.claim_fits(-1));
    let mut short = empty_record(1);
    short.mints.push(key(10));
    assert!(!short.claim_fits(0));
}

#[test]
fn unstake_pays_and_removes() {
    let mut info = empty_record(1);
    info.add_stake(key(10), 100);
    info.add_stake(key(11), 150);
    info.add_stake(key(12), 175);
    assert_eq!(unstake(&mut info, &key(11), 400), Ok(250));
    assert_eq!(info.mints, vec![key(10), key(12)]);
    assert_eq!(info.staked_times, vec![100, 175]);
}

#[test]
fn unstake_not_staked_is_refused() {
    let mut info = empty_record(1);
    info.add_stake(key(10), 100);
    assert_eq!(unstake(&mut info, &key(99), 400), Err(CustomError::NotStaked));
    assert_eq!(info.mints, vec![key(10)]);
    assert_eq!(info.staked_times, vec![100]);
    let mut empty = empty_record(1);
    assert_eq!(unstake(&mut empty, &key(10), 400), Err(CustomError::NotStaked));
}

#[test]
fn unstake_takes_first_of_duplicates() {
    let mut info = empty_record(1);
    info.add_stake(key(10), 100);
    info.add_stake(key(10), 300);
    assert_eq!(unstake(&mut info, &key(10), 400), Ok(300));
    assert_eq!(info.staked_times, vec![300]);
}

#[test]
fn unstake_right_after_stake_restores_record() {
    let mut info = empty_record(1);
    info.add_stake(key(10), 100);
    let mints_before = info.mints.clone();
    let times_before = info.staked_times.clone();
    stake(&mut info, key(20), 1_000, 0, 0);
    assert_eq!(unstake(&mut info, &key(20), 1_060), Ok(60));
    assert_eq!(info.mints, mints_before);
    assert_eq!(info.staked_times, times_before);
}

#[test]
fn unstake_pays_its_share_of_claim() {
    let build = || {
        let mut info = empty_record(1);
        info.add_stake(key(10), 100);
        info.add_stake(key(11), 250);
        info.add_stake(key(12), 600);
        info
    };
    let mut whole = build();
    let total = claim(&mut whole, 1_000);
    let mut rest = build();
    let paid = unstake(&mut rest, &key(11), 1_000).unwrap();
    assert_eq!(total, claim(&mut rest, 1_000) + paid);
}

#[test]
fn unstake_fits_checks() {
    let mut info = empty_record(1);
    info.add_stake(key(10), i64::MIN);
    assert!(!info.unstake_fits(&key(10), 0));
    assert!(info.unstake_fits(&key(10), -1));
    assert!(info.unstake_fits(&key(11), 1));
    let mut short = empty_record(1);
    short.mints.push(key(10));
    assert!(!short.unstake_fits(&key(10), 0));
}

#[test]
fn find_stake_positions() {
    let mut info = empty_record(1);
    info.add_stake(key(10), 1);
    info.add_stake(key(11), 2);
    info.add_stake(key(10), 3);
    assert_eq!(mycelium::stake_info::find_stake(&info.mints, &key(10)), Some(0));
    assert_eq!(mycelium::stake_info::find_stake(&info.mints, &key(11)), Some(1));
    assert_eq!(mycelium::stake_info::find_stake(&info.mints, &key(12)), None);
}

#[test]
fn stake_reward_values() {
    assert_eq!(stake_reward(10, 3), 7);
    assert_eq!(stake_reward(3, 3), 0);
    assert_eq!(stake_reward(3, 4), u64::MAX);
    assert_eq!(stake_reward(i64::MAX, 0), i64::MAX as u64);
}

#[test]
fn pubkey_equality_and_bytes() {
    let mut bytes = [5u8; 32];
    let a = Pubkey::new_from_array(bytes);
    bytes[31] = 6;
    let b = Pubkey::new_from_array(bytes);
    assert!(a != b);
    assert!(a == Pubkey::new_from_array([5u8; 32]));
    assert_eq!(b.to_bytes(), bytes);
}

#[test]
fn record_and_stake_space() {
    let mut info = empty_record(1);
    assert_eq!(info.record_space(), 40);
    assert_eq!(info.stake_space(), 80);
    let before = info.stake_space();
    stake(&mut info, key(10), 5, 0, 0);
    assert_eq!(info.record_space(), before);
    stake(&mut info, key(11), 6, 0, 0);
    assert_eq!(info.record_space(), 120);
    unstake(&mut info, &key(10), 10).unwrap();
    assert_eq!(info.record_space(), 80);
}

#[test]
fn unstake_after_claim_pays_time_since_claim() {
    let mut info = empty_record(1);
    info.add_stake(key(10), 100);
    info.add_stake(key(11), 120);
    assert_eq!(claim(&mut info, 500), 400 + 380);
    assert_eq!(unstake(&mut info, &key(11), 530), Ok(30));
}

#[test]
fn two_claims_pay_as_one() {
    let build = || {
        let mut info = empty_record(1);
        info.add_stake(key(10), 100);
        info.add_stake(key(11), 250);
        info
    };
    let mut twice = build();
    let first = claim(&mut twice, 300);
    let second = claim(&mut twice, 1_000);
    let mut once = build();
    assert_eq!(first + second, claim(&mut once, 1_000));
}
