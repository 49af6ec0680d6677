//! Edge cases: throughput above the window size, flagged accounts, a zero
//! rate, a window clipped at the first era, and the entropy sources.

use fast_unstake::machine::FastUnstake;
use fast_unstake::randomness::{
    promotion_entropy, MaybeRandomness, NoRandomness, RandomnessError, UnsafeDeprecatedRandomness,
};
use fast_unstake::types::{AccountInfo, Error, Event, Origin, TickEnv, UnstakeRequest};

const CHECK_COST: u64 = 10;
const UNSTAKE_COST: u64 = 6;
const BIG_BUDGET: u64 = 1_000_000;

fn controller_of_stash_one() -> Option<AccountInfo> {
    Some(AccountInfo { account: 1, fully_committed: true })
}

fn env_with_era(current_era: u32) -> TickEnv {
    TickEnv {
        busy: false,
        current_era,
        bonding_duration: 3,
        era_check_cost: CHECK_COST,
        finalize_cost: UNSTAKE_COST,
        flagged_eras: vec![],
        finalize_result: Ok(()),
        entropy: 0,
    }
}

#[test]
fn rate_above_window_completes_in_two_ticks() {
    let mut m = FastUnstake::new();
    // Budget covers more than the whole window in one tick.
    m.control(Origin::Root, 5).unwrap();
    m.register_fast_unstake(Origin::Signed(2), Some(1u32), controller_of_stash_one()).unwrap();
    let env = env_with_era(3);

    // First tick: the whole window is verified, and only the window.
    let out = m.on_idle(&env, BIG_BUDGET);
    assert_eq!(out.consumed, CHECK_COST * 4);
    assert_eq!(out.events, vec![Event::Checked { stash: 1, eras: vec![3, 2, 1, 0] }]);

    // Second tick: finalization, at exactly the finalize cost.
    let out = m.on_idle(&env, BIG_BUDGET);
    assert_eq!(out.consumed, UNSTAKE_COST);
    assert_eq!(
        out.events,
        vec![Event::Unstaked { stash: 1, maybe_pool_id: Some(1), result: Ok(()) }]
    );
    assert!(m.head().is_none());
    assert_eq!(m.queue_count(), 0);
}

#[test]
fn flagged_account_is_dropped() {
    let mut m = FastUnstake::new();
    m.control(Origin::Root, 4).unwrap();
    m.register_fast_unstake(Origin::Signed(2), Some(1u32), controller_of_stash_one()).unwrap();
    // The verifier flags the account at era 2.
    let mut env = env_with_era(3);
    env.flagged_eras = vec![2];

    let out = m.on_idle(&env, BIG_BUDGET);
    // The whole batch was paid for, but the record is dropped at era 2.
    assert_eq!(out.consumed, CHECK_COST * 4);
    assert_eq!(out.events, vec![Event::Flagged { stash: 1, era: 2 }]);
    assert!(m.head().is_none());
    assert_eq!(m.queue_get(1), None);
}

#[test]
fn zero_rate_pauses_everything() {
    let mut m = FastUnstake::new();
    // The throughput setting stays at its zero default.
    m.register_fast_unstake(Origin::Signed(2), Some(1u32), controller_of_stash_one()).unwrap();
    let env = env_with_era(3);

    let out = m.on_idle(&env, BIG_BUDGET);
    assert_eq!(out.consumed, 0);
    assert!(out.events.is_empty());
    assert!(m.head().is_none());
    assert_eq!(m.queue_get(1), Some(Some(1)));
}

#[test]
fn idle_tick_with_empty_queue_consumes_nothing() {
    let mut m = FastUnstake::new();
    m.control(Origin::Root, 4).unwrap();
    let env = env_with_era(3);

    let out = m.on_idle(&env, BIG_BUDGET);
    assert_eq!(out.consumed, 0);
    assert!(out.events.is_empty());
}

#[test]
fn window_clipped_at_first_era() {
    let mut m = FastUnstake::new();
    m.control(Origin::Root, 5).unwrap();
    m.register_fast_unstake(Origin::Signed(2), None, controller_of_stash_one()).unwrap();
    // The chain is younger than the bonding duration: only eras 1 and 0 exist.
    let env = env_with_era(1);

    let out = m.on_idle(&env, BIG_BUDGET);
    assert_eq!(out.consumed, CHECK_COST * 2);
    assert_eq!(out.events, vec![Event::Checked { stash: 1, eras: vec![1, 0] }]);
    assert_eq!(
        m.head(),
        &Some(UnstakeRequest { stash: 1, checked: vec![1, 0], maybe_pool_id: None })
    );

    let out = m.on_idle(&env, BIG_BUDGET);
    assert_eq!(out.consumed, UNSTAKE_COST);
    assert!(m.head().is_none());
}

#[test]
fn deregister_after_flagged_drop_reports_not_queued() {
    let mut m = FastUnstake::new();
    m.control(Origin::Root, 4).unwrap();
    m.register_fast_unstake(Origin::Signed(2), None, controller_of_stash_one()).unwrap();
    let mut env = env_with_era(3);
    env.flagged_eras = vec![3];
    m.on_idle(&env, BIG_BUDGET);

    // The account left both the queue and the slot when it was flagged.
    assert_eq!(m.deregister(Origin::Signed(2), Some(1)), Err(Error::NotQueued));
}

#[test]
fn randomness_sources_report_their_words() {
    let beacon = UnsafeDeprecatedRandomness { output: 42, block_number: 7 };
    assert_eq!(beacon.random(b"subject"), Ok((42, 7)));
    assert_eq!(NoRandomness.random(b"subject"), Err(RandomnessError::Unavailable));
}

#[test]
fn promotion_entropy_falls_back_to_zero() {
    assert_eq!(promotion_entropy(Ok((42, 7))), 42);
    assert_eq!(promotion_entropy(Err(RandomnessError::Unavailable)), 0);
}

#[test]
fn entropy_picks_the_queue_entry_by_remainder() {
    let mut m = FastUnstake::new();
    m.control(Origin::Root, 4).unwrap();
    // Three stashes wait: 1, 3, 5.
    m.register_fast_unstake(Origin::Signed(2), None, Some(AccountInfo { account: 1, fully_committed: true })).unwrap();
    m.register_fast_unstake(Origin::Signed(4), None, Some(AccountInfo { account: 3, fully_committed: true })).unwrap();
    m.register_fast_unstake(Origin::Signed(6), None, Some(AccountInfo { account: 5, fully_committed: true })).unwrap();

    // Entropy 7 over 3 entries picks index 1: stash 3.
    let mut env = env_with_era(3);
    env.entropy = 7;
    m.on_idle(&env, BIG_BUDGET);
    assert_eq!(
        m.head(),
        &Some(UnstakeRequest { stash: 3, checked: vec![3, 2, 1, 0], maybe_pool_id: None })
    );
    assert_eq!(m.queue_count(), 2);
    assert_eq!(m.queue_get(1), Some(None));
    assert_eq!(m.queue_get(5), Some(None));
}
