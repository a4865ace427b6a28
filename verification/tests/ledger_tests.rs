use pallet_fuso_reward::Error;
use pallet_fuso_reward::Pallet;
use pallet_fuso_reward::Reward;

fn ledger() -> Pallet {
    // era length 100 ticks, one million reward per era
    Pallet::new(100, 1_000_000)
}

#[test]
fn configuration_getters() {
    let p: Pallet = ledger();
    assert_eq!(p.era_duration(), 100);
    assert_eq!(p.rewards_per_era(), 1_000_000);
}

#[test]
fn fresh_accounts_and_eras_read_as_zero() {
    let p: Pallet = ledger();
    assert_eq!(p.acked_reward(1), 0);
    assert_eq!(p.total_volume(42), 0);
    assert_eq!(p.volumes(0), 0);
    assert_eq!(
        p.rewards(1),
        Reward { confirmed: 0, pending_vol: 0, last_modify: 0 }
    );
}

#[test]
fn zero_volume_is_a_no_op() {
    let mut p: Pallet = ledger();
    assert_eq!(p.save_trading(1, 0, 5), Ok(()));
    assert_eq!(p.total_volume(5), 0);
    assert_eq!(
        p.rewards(1),
        Reward { confirmed: 0, pending_vol: 0, last_modify: 0 }
    );
}

#[test]
fn trades_accumulate_into_the_eras_bucket() {
    let mut p: Pallet = ledger();
    assert_eq!(p.save_trading(1, 30, 5), Ok(()));
    assert_eq!(p.save_trading(2, 70, 99), Ok(()));
    // both trades fall in the era [0, 100)
    assert_eq!(p.total_volume(0), 100);
    assert_eq!(p.total_volume(99), 100);
    assert_eq!(p.volumes(0), 100);
    // a trade at tick 110 falls in the era [100, 200)
    assert_eq!(p.save_trading(1, 5, 110), Ok(()));
    assert_eq!(p.volumes(100), 5);
    assert_eq!(p.total_volume(199), 5);
    assert_eq!(p.total_volume(200), 0);
}

#[test]
fn same_era_rotation_only_accumulates_pending() {
    let mut p: Pallet = ledger();
    assert_eq!(p.save_trading(1, 30, 5), Ok(()));
    assert_eq!(p.save_trading(1, 70, 60), Ok(()));
    // the confirmed balance was never recomputed, the volume only accumulated
    assert_eq!(
        p.rewards(1),
        Reward { confirmed: 0, pending_vol: 100, last_modify: 0 }
    );
    assert_eq!(p.rotate_reward(0, 1, 1), Ok(0));
    assert_eq!(
        p.rewards(1),
        Reward { confirmed: 0, pending_vol: 101, last_modify: 0 }
    );
}

#[test]
fn proportional_shares_of_an_era() {
    let mut p: Pallet = ledger();
    // era [0, 100): A contributes 30, B contributes 70
    assert_eq!(p.save_trading(1, 30, 5), Ok(()));
    assert_eq!(p.save_trading(2, 70, 50), Ok(()));
    // at era start 100, a rotation touching A confirms 30% of one million
    assert_eq!(p.claim_reward(1, 100), Ok(300_000));
    // and touching B confirms 70% of it
    assert_eq!(p.claim_reward(2, 150), Ok(700_000));
}

#[test]
fn rotation_through_a_trade_confirms_the_share() {
    let mut p: Pallet = ledger();
    assert_eq!(p.save_trading(1, 30, 5), Ok(()));
    assert_eq!(p.save_trading(2, 70, 50), Ok(()));
    // a trade in the next era rotates first, then leaves the new volume pending
    assert_eq!(p.save_trading(1, 9, 130), Ok(()));
    assert_eq!(
        p.rewards(1),
        Reward { confirmed: 300_000, pending_vol: 9, last_modify: 100 }
    );
    assert_eq!(p.acked_reward(1), 300_000);
}

#[test]
fn floor_rounding_never_creates_reward() {
    let mut p: Pallet = ledger();
    // three equal contributors of an era totalling 3
    assert_eq!(p.save_trading(1, 1, 0), Ok(()));
    assert_eq!(p.save_trading(2, 1, 1), Ok(()));
    assert_eq!(p.save_trading(3, 1, 2), Ok(()));
    // each third of one million is floored; the dust is not distributed
    assert_eq!(p.claim_reward(1, 100), Ok(333_333));
    assert_eq!(p.claim_reward(2, 100), Ok(333_333));
    assert_eq!(p.claim_reward(3, 100), Ok(333_333));
    assert!(3 * 333_333u128 <= 1_000_000);
}

#[test]
fn sole_contributor_takes_the_whole_budget() {
    let mut p: Pallet = ledger();
    assert_eq!(p.save_trading(5, 12345, 7), Ok(()));
    assert_eq!(p.claim_reward(5, 100), Ok(1_000_000));
}

#[test]
fn zero_claim_changes_nothing() {
    let mut p: Pallet = ledger();
    assert_eq!(p.save_trading(1, 30, 5), Ok(()));
    // nothing is confirmed yet within the open era
    assert_eq!(p.claim_reward(1, 60), Ok(0));
    assert_eq!(
        p.rewards(1),
        Reward { confirmed: 0, pending_vol: 30, last_modify: 0 }
    );
    assert_eq!(p.total_volume(0), 30);
    // claiming for an account that never traded is also a quiet zero
    assert_eq!(p.claim_reward(77, 60), Ok(0));
    assert_eq!(p.acked_reward(77), 0);
}

#[test]
fn no_double_claim() {
    let mut p: Pallet = ledger();
    assert_eq!(p.save_trading(1, 30, 5), Ok(()));
    assert_eq!(p.save_trading(2, 70, 50), Ok(()));
    assert_eq!(p.claim_reward(1, 100), Ok(300_000));
    // an immediate second claim at the same tick withdraws nothing
    assert_eq!(p.claim_reward(1, 100), Ok(0));
    assert_eq!(p.acked_reward(1), 0);
}

#[test]
fn stale_account_skips_the_closed_era() {
    let mut p: Pallet = ledger();
    // the account has no pending volume when its era closes: no reward, no
    // error, even though the closed era has no recorded total
    assert_eq!(p.rotate_reward(100, 5, 42), Ok(0));
    assert_eq!(
        p.rewards(42),
        Reward { confirmed: 0, pending_vol: 5, last_modify: 100 }
    );
}

#[test]
fn pending_overflow_is_rejected_and_ignored() {
    let mut p: Pallet = ledger();
    assert_eq!(p.rotate_reward(0, u128::MAX, 7), Ok(0));
    assert_eq!(p.rotate_reward(0, 1, 7), Err(Error::Overflow));
    // the pending figure is exactly as it was before the failed call
    assert_eq!(
        p.rewards(7),
        Reward { confirmed: 0, pending_vol: u128::MAX, last_modify: 0 }
    );
}

#[test]
fn era_total_overflow_is_rejected_and_ignored() {
    let mut p: Pallet = ledger();
    assert_eq!(p.save_trading(7, u128::MAX, 0), Ok(()));
    assert_eq!(p.save_trading(8, 1, 50), Err(Error::Overflow));
    assert_eq!(p.total_volume(0), u128::MAX);
    assert_eq!(
        p.rewards(8),
        Reward { confirmed: 0, pending_vol: 0, last_modify: 0 }
    );
}

#[test]
fn missing_era_total_is_a_divide_by_zero() {
    let mut p: Pallet = ledger();
    // pending volume recorded without the accumulate step (rotate called raw)
    assert_eq!(p.rotate_reward(0, 5, 9), Ok(0));
    assert_eq!(p.rotate_reward(100, 1, 9), Err(Error::DivideByZero));
    // the failed rotation left the record untouched
    assert_eq!(
        p.rewards(9),
        Reward { confirmed: 0, pending_vol: 5, last_modify: 0 }
    );
}

#[test]
fn round_trip_only_shows_the_new_award() {
    let mut p: Pallet = ledger();
    assert_eq!(p.save_trading(1, 30, 5), Ok(()));
    assert_eq!(p.save_trading(2, 70, 50), Ok(()));
    assert_eq!(p.claim_reward(1, 100), Ok(300_000));
    assert_eq!(p.acked_reward(1), 0);
    // a fresh trade in the era [100, 200), alone this time
    assert_eq!(p.save_trading(1, 50, 150), Ok(()));
    // the next rotation confirms only the new award, never the claimed amount
    assert_eq!(p.claim_reward(1, 200), Ok(1_000_000));
    assert_eq!(p.acked_reward(1), 0);
}

#[test]
fn claim_keeps_the_record_while_volume_is_pending() {
    let mut p: Pallet = ledger();
    assert_eq!(p.save_trading(1, 40, 5), Ok(()));
    // the era closes and a new trade is already pending when the claim lands
    assert_eq!(p.save_trading(1, 8, 120), Ok(()));
    assert_eq!(p.claim_reward(1, 130), Ok(1_000_000));
    assert_eq!(
        p.rewards(1),
        Reward { confirmed: 0, pending_vol: 8, last_modify: 100 }
    );
}

#[test]
fn default_record_is_all_zero() {
    let r: Reward = Default::default();
    assert_eq!(
        r,
        Reward { confirmed: 0, pending_vol: 0, last_modify: 0 }
    );
}
