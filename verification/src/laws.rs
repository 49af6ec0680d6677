//! The library's general guarantees, stated and proved once over the model.

use vstd::prelude::*;

use crate::model::{
    affordable_eras, all_clean, is_active, lemma_batch_cost_fits, lemma_queue_remove,
    lemma_unchecked_after_append, lemma_unchecked_distinct, lemma_unchecked_elements,
    lemma_window_distinct, no_dup_eras, queue_has, tick_idle, tick_selection, tick_spec,
    unchecked_in, window_eras, window_len, EnvModel, EventModel, StateModel,
};
use crate::types::{AccountId, ComputeUnits};

verus! {

/// Mutual exclusion: in every well-formed state, an account is never both
/// waiting in the pending queue and occupying the active slot.
pub proof fn lemma_mutual_exclusion(s: StateModel, account: AccountId)
    requires
        crate::model::wf(s),
    ensures
        !(queue_has(s.queue, account) && is_active(s, account)),
{
}

/// One tick keeps the state well-formed: queue keys stay unique, the active
/// account is never also queued, and the record's confirmed eras never
/// repeat. Preserving the last clause is the no-duplicate-verification
/// guarantee: an era already confirmed is never verified again.
pub proof fn lemma_tick_preserves_wf(s: StateModel, env: EnvModel, budget: ComputeUnits)
    requires
        crate::model::wf(s),
    ensures
        crate::model::wf(tick_spec(s, env, budget).state),
{
    let n = affordable_eras(s.eras_per_block, env.era_check_cost, env.finalize_cost, budget);
    if !(env.busy || s.eras_per_block == 0 || n == 0) && !(s.head is None && s.queue.len()
        == 0) {
        let (cur, queue) = tick_selection(s, env.entropy);
        match s.head {
            Some(_) => {
                assert(queue == s.queue);
            },
            None => {
                let i = (env.entropy as int) % (s.queue.len() as int);
                lemma_queue_remove(s.queue, i);
            },
        }
        let w = window_eras(env.current_era, env.bonding_duration);
        let u = unchecked_in(w, cur.checked);
        if u.len() != 0 {
            let m: int = if u.len() < n as nat {
                u.len() as int
            } else {
                n as int
            };
            let batch = u.take(m);
            if all_clean(batch, env.flagged) {
                lemma_window_distinct(env.current_era, env.bonding_duration);
                lemma_unchecked_distinct(w, cur.checked);
                lemma_unchecked_elements(w, cur.checked);
                let checked0 = cur.checked;
                let newchecked = checked0 + batch;
                assert forall|a: int, b: int|
                    0 <= a < b < newchecked.len() implies newchecked[a] != newchecked[b] by {
                    if b < checked0.len() {
                        assert(newchecked[a] == checked0[a] && newchecked[b] == checked0[b]);
                    } else if a < checked0.len() {
                        assert(newchecked[b] == u[b - checked0.len()]);
                        assert(!checked0.contains(u[b - checked0.len()]));
                        assert(newchecked[a] == checked0[a]);
                    } else {
                        assert(newchecked[a] == u[a - checked0.len()]);
                        assert(newchecked[b] == u[b - checked0.len()]);
                    }
                }
                assert(no_dup_eras(newchecked));
            }
        }
    }
}

/// No duplicate verification: after any tick from a well-formed state, the
/// active record's confirmed eras hold no repeated era number.
pub proof fn lemma_no_duplicate_verification(s: StateModel, env: EnvModel, budget: ComputeUnits)
    requires
        crate::model::wf(s),
    ensures
        match tick_spec(s, env, budget).state.head {
            Some(r) => no_dup_eras(r.checked),
            None => true,
        },
{
    lemma_tick_preserves_wf(s, env, budget);
}

/// Budget ceiling: a tick never consumes more than the budget it was given,
/// and consumes nothing while the busy signal is asserted.
pub proof fn lemma_budget_ceiling(s: StateModel, env: EnvModel, budget: ComputeUnits)
    ensures
        tick_spec(s, env, budget).consumed <= budget,
        env.busy ==> tick_spec(s, env, budget).consumed == 0,
{
    let n = affordable_eras(s.eras_per_block, env.era_check_cost, env.finalize_cost, budget);
    if !(env.busy || s.eras_per_block == 0 || n == 0) && !(s.head is None && s.queue.len()
        == 0) {
        let (cur, queue) = tick_selection(s, env.entropy);
        let u = unchecked_in(window_eras(env.current_era, env.bonding_duration), cur.checked);
        if u.len() != 0 {
            let m: int = if u.len() < n as nat {
                u.len() as int
            } else {
                n as int
            };
            lemma_batch_cost_fits(
                s.eras_per_block,
                env.era_check_cost,
                env.finalize_cost,
                budget,
                m,
            );
        }
    }
}

/// The state after `k` consecutive ticks under one environment and budget.
pub open spec fn run_ticks(s: StateModel, env: EnvModel, budget: ComputeUnits, k: nat) -> StateModel
    decreases k,
{
    if k == 0 {
        s
    } else {
        run_ticks(tick_spec(s, env, budget).state, env, budget, (k - 1) as nat)
    }
}

/// Pause correctness: any number of ticks taken while the busy signal is
/// asserted changes no state at all, so on resumption verification continues
/// exactly where it left off.
pub proof fn lemma_pause_correctness(s: StateModel, env: EnvModel, budget: ComputeUnits, k: nat)
    requires
        env.busy,
    ensures
        run_ticks(s, env, budget, k) == s,
        tick_spec(s, env, budget) == tick_idle(s),
    decreases k,
{
    if k > 0 {
        lemma_pause_correctness(s, env, budget, (k - 1) as nat);
    }
}

/// Progress: whenever the busy signal is down, the throughput setting is
/// positive, the budget affords one verification batch together with a
/// possible finalize step, and work exists, a tick records exactly one
/// outcome — a verified batch, a finalization, or a flagged account. The
/// processor never stalls silently under a sufficient budget.
pub proof fn lemma_progress(s: StateModel, env: EnvModel, budget: ComputeUnits)
    requires
        !env.busy,
        s.eras_per_block >= 1,
        affordable_eras(s.eras_per_block, env.era_check_cost, env.finalize_cost, budget) >= 1,
        s.head is Some || s.queue.len() > 0,
    ensures
        tick_spec(s, env, budget).events.len() == 1,
{
}

/// The confirmed list never outgrows the confirmation window while all its
/// eras still lie in the window. (A window that slid forward may keep stale
/// confirmed eras; only those can push the count past the window size.)
pub proof fn lemma_checked_bounded_by_window(
    checked: Seq<crate::types::EraIndex>,
    current_era: crate::types::EraIndex,
    bonding_duration: crate::types::EraIndex,
)
    requires
        no_dup_eras(checked),
        forall|k: int|
            0 <= k < checked.len() ==> window_eras(current_era, bonding_duration).contains(
                #[trigger] checked[k],
            ),
    ensures
        checked.len() <= window_len(current_era, bonding_duration),
{
    broadcast use vstd::seq_lib::seq_to_set_is_finite;

    let w = window_eras(current_era, bonding_duration);
    assert(checked.no_duplicates()) by {
        assert forall|i: int, j: int|
            0 <= i < checked.len() && 0 <= j < checked.len() && i != j implies checked[i]
            != checked[j] by {
            if i < j {
                assert(checked[i] != checked[j]);
            } else {
                assert(checked[j] != checked[i]);
            }
        }
    }
    checked.unique_seq_to_set();
    w.lemma_cardinality_of_set();
    assert(checked.to_set().subset_of(w.to_set()));
    vstd::set_lib::lemma_len_subset(checked.to_set(), w.to_set());
}

/// The active record completes at tick `t`: after `t` ticks its confirmation
/// window is fully confirmed, and the tick after that finalizes it — the
/// slot is freed and the host's finalize result is recorded for the account.
pub open spec fn completes_at(s: StateModel, env: EnvModel, budget: ComputeUnits, t: nat) -> bool {
    let r = s.head.unwrap();
    let s_t = run_ticks(s, env, budget, t);
    &&& s_t.head is Some
    &&& s_t.head.unwrap().stash == r.stash
    &&& s_t.head.unwrap().maybe_pool_id == r.maybe_pool_id
    &&& unchecked_in(
        window_eras(env.current_era, env.bonding_duration),
        s_t.head.unwrap().checked,
    ).len() == 0
    &&& run_ticks(s, env, budget, t + 1).head is None
    &&& tick_spec(s_t, env, budget).events == seq![
        EventModel::Unstaked {
            stash: r.stash,
            maybe_pool_id: r.maybe_pool_id,
            result: env.finalize_result,
        },
    ]
}

/// Eventual completion: while the busy signal stays down, the throughput
/// setting is positive, every tick's budget affords at least one
/// verification together with the finalize step, and the verifier flags no
/// window era, an active record with `k` unchecked window eras completes
/// within `k` ticks — and `k` never exceeds the window size.
pub proof fn lemma_eventual_completion(s: StateModel, env: EnvModel, budget: ComputeUnits)
    requires
        crate::model::wf(s),
        !env.busy,
        s.eras_per_block >= 1,
        affordable_eras(s.eras_per_block, env.era_check_cost, env.finalize_cost, budget) >= 1,
        all_clean(window_eras(env.current_era, env.bonding_duration), env.flagged),
        s.head is Some,
    ensures
        unchecked_in(window_eras(env.current_era, env.bonding_duration), s.head.unwrap().checked).len()
            <= window_len(env.current_era, env.bonding_duration),
        exists|t: nat|
            t <= unchecked_in(
                window_eras(env.current_era, env.bonding_duration),
                s.head.unwrap().checked,
            ).len() && completes_at(s, env, budget, t),
    decreases unchecked_in(
        window_eras(env.current_era, env.bonding_duration),
        s.head.unwrap().checked,
    ).len(),
{
    let w = window_eras(env.current_era, env.bonding_duration);
    let r = s.head.unwrap();
    let u = unchecked_in(w, r.checked);
    let n = affordable_eras(s.eras_per_block, env.era_check_cost, env.finalize_cost, budget);
    lemma_unchecked_elements(w, r.checked);
    if u.len() == 0 {
        assert(run_ticks(s, env, budget, 0) == s);
        let step = tick_spec(s, env, budget);
        assert(step.state.head is None);
        assert(run_ticks(s, env, budget, 1) == run_ticks(step.state, env, budget, 0));
        assert(completes_at(s, env, budget, 0));
    } else {
        let step = tick_spec(s, env, budget);
        let m: int = if u.len() < n as nat {
            u.len() as int
        } else {
            n as int
        };
        let batch = u.take(m);
        assert(all_clean(batch, env.flagged)) by {
            assert forall|i: int| 0 <= i < batch.len() implies !env.flagged.contains(
                #[trigger] batch[i],
            ) by {
                assert(batch[i] == u[i]);
                assert(w.contains(u[i]));
                let k = choose|k: int| 0 <= k < w.len() && w[k] == u[i];
            }
        }
        assert(step.state.head is Some);
        let r1 = step.state.head.unwrap();
        assert(r1.stash == r.stash && r1.maybe_pool_id == r.maybe_pool_id);
        assert(r1.checked == r.checked + batch);
        lemma_tick_preserves_wf(s, env, budget);
        lemma_window_distinct(env.current_era, env.bonding_duration);
        lemma_unchecked_after_append(w, r.checked, m);
        let u1 = unchecked_in(w, r1.checked);
        assert(u1 == u.skip(m));
        assert(u1.len() == u.len() - m);
        lemma_eventual_completion(step.state, env, budget);
        let t1 = choose|t1: nat| t1 <= u1.len() && completes_at(step.state, env, budget, t1);
        assert(run_ticks(s, env, budget, t1 + 1) == run_ticks(step.state, env, budget, t1));
        assert(run_ticks(s, env, budget, t1 + 2) == run_ticks(step.state, env, budget, t1 + 1));
        assert(completes_at(s, env, budget, t1 + 1));
        assert(t1 + 1 <= u.len());
    }
}

} // verus!
