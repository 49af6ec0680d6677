//! The mathematical model of the processor: ghost state, the tick transition
//! as a spec function, and well-formedness.

use vstd::prelude::*;

use crate::types::{AccountId, AccountInfo, ComputeUnits, EraIndex, Error, FinalizeError, Origin, PoolId};

verus! {

/// Model of one in-flight verification record (the active slot's contents).
pub ghost struct RequestModel {
    /// The account being processed.
    pub stash: AccountId,
    /// Era numbers already confirmed clean, in verification order.
    pub checked: Seq<EraIndex>,
    /// Destination pool the account joins after unstaking, if any.
    pub maybe_pool_id: Option<PoolId>,
}

/// Model of the whole processor state.
pub ghost struct StateModel {
    /// The pending queue: account and optional destination pool, in admission order.
    pub queue: Seq<(AccountId, Option<PoolId>)>,
    /// The active slot: at most one in-flight record.
    pub head: Option<RequestModel>,
    /// Throughput setting: eras verified per tick.
    pub eras_per_block: u32,
}

/// Model of everything one tick reads from the host's collaborators.
pub ghost struct EnvModel {
    /// The external busy signal, polled once per tick.
    pub busy: bool,
    /// The current authoritative era of the ledger.
    pub current_era: EraIndex,
    /// The confirmation window reaches from `current_era - bonding_duration`
    /// up to `current_era`.
    pub bonding_duration: EraIndex,
    /// The cost estimator's price for verifying one era this tick.
    pub era_check_cost: ComputeUnits,
    /// The fixed price of the finalize-and-unstake step.
    pub finalize_cost: ComputeUnits,
    /// Eras for which the verifier would flag the active account as unclean.
    pub flagged: Seq<EraIndex>,
    /// What the finalize call would return for the active account.
    pub finalize_result: Result<(), FinalizeError>,
    /// Entropy the promotion policy uses to pick a queue entry.
    pub entropy: u64,
}

/// Model of one recorded processing outcome.
pub ghost enum EventModel {
    /// A batch of eras was confirmed clean for `stash` in one tick.
    Checked { stash: AccountId, eras: Seq<EraIndex> },
    /// The finalize step ran for `stash`; its result is recorded either way.
    Unstaked { stash: AccountId, maybe_pool_id: Option<PoolId>, result: Result<(), FinalizeError> },
    /// The verifier flagged `stash` at `era`; processing of the account stopped.
    Flagged { stash: AccountId, era: EraIndex },
}

/// Everything one tick produces: the next state, the compute consumed,
/// and the outcomes recorded.
pub ghost struct TickStep {
    pub state: StateModel,
    pub consumed: ComputeUnits,
    pub events: Seq<EventModel>,
}

/// True when some queue entry carries `account`.
pub open spec fn queue_has(queue: Seq<(AccountId, Option<PoolId>)>, account: AccountId) -> bool {
    exists|i: int| 0 <= i < queue.len() && queue[i].0 == account
}

/// The pool id stored for `account`, when the queue holds it.
pub open spec fn queue_entry(
    queue: Seq<(AccountId, Option<PoolId>)>,
    account: AccountId,
) -> Option<Option<PoolId>> {
    if queue_has(queue, account) {
        let i = choose|i: int| 0 <= i < queue.len() && queue[i].0 == account;
        Some(queue[i].1)
    } else {
        None
    }
}

/// No two queue entries carry the same account.
pub open spec fn queue_keys_unique(queue: Seq<(AccountId, Option<PoolId>)>) -> bool {
    forall|i: int, j: int|
        0 <= i < j < queue.len() ==> queue[i].0 != queue[j].0
}

/// No era number occurs twice.
pub open spec fn no_dup_eras(checked: Seq<EraIndex>) -> bool {
    forall|i: int, j: int|
        0 <= i < j < checked.len() ==> checked[i] != checked[j]
}

/// True when `account` occupies the active slot.
pub open spec fn is_active(s: StateModel, account: AccountId) -> bool {
    match s.head {
        Some(r) => r.stash == account,
        None => false,
    }
}

/// Well-formedness of the processor state: queue keys are unique, the active
/// account is never also queued, and its confirmed eras hold no duplicate.
pub open spec fn wf(s: StateModel) -> bool {
    &&& queue_keys_unique(s.queue)
    &&& match s.head {
        Some(r) => !queue_has(s.queue, r.stash) && no_dup_eras(r.checked),
        None => true,
    }
}

/// How many eras the confirmation window spans: `bonding_duration + 1`,
/// clipped at era zero.
pub open spec fn window_len(current_era: EraIndex, bonding_duration: EraIndex) -> nat {
    if bonding_duration <= current_era {
        (bonding_duration + 1) as nat
    } else {
        (current_era + 1) as nat
    }
}

/// The confirmation window, newest era first:
/// `current_era, current_era - 1, ...` down to `current_era - bonding_duration`
/// (or era zero, whichever comes first).
pub open spec fn window_eras(current_era: EraIndex, bonding_duration: EraIndex) -> Seq<EraIndex> {
    Seq::new(window_len(current_era, bonding_duration), |i: int| (current_era - i) as EraIndex)
}

/// The window eras not yet confirmed, keeping the window's order.
/// Recomputed every tick, so a window that slid forward contributes its
/// newly relevant eras.
pub open spec fn unchecked_in(window: Seq<EraIndex>, checked: Seq<EraIndex>) -> Seq<EraIndex>
    decreases window.len(),
{
    if window.len() == 0 {
        Seq::empty()
    } else {
        let init = unchecked_in(window.drop_last(), checked);
        if checked.contains(window.last()) {
            init
        } else {
            init.push(window.last())
        }
    }
}

/// The number of eras one tick may verify: the throughput setting, lowered
/// until the batch and a possible finalize step both fit the budget.
/// Zero when even the finalize step does not fit.
pub open spec fn affordable_eras(
    rate: u32,
    era_check_cost: ComputeUnits,
    finalize_cost: ComputeUnits,
    budget: ComputeUnits,
) -> u32 {
    if finalize_cost > budget {
        0
    } else if era_check_cost == 0 {
        rate
    } else if budget / era_check_cost >= rate {
        rate
    } else {
        (budget / era_check_cost) as u32
    }
}

/// True when the verifier flags none of `eras`.
pub open spec fn all_clean(eras: Seq<EraIndex>, flagged: Seq<EraIndex>) -> bool {
    forall|i: int| 0 <= i < eras.len() ==> !flagged.contains(#[trigger] eras[i])
}

/// The first era of `eras` the verifier flags; zero when none is.
pub open spec fn first_flagged(eras: Seq<EraIndex>, flagged: Seq<EraIndex>) -> EraIndex
    decreases eras.len(),
{
    if eras.len() == 0 {
        0
    } else if flagged.contains(eras.first()) {
        eras.first()
    } else {
        first_flagged(eras.drop_first(), flagged)
    }
}

/// The position of `account` in the queue, when the queue holds it.
pub open spec fn queue_index_of(queue: Seq<(AccountId, Option<PoolId>)>, account: AccountId) -> int {
    choose|i: int| 0 <= i < queue.len() && queue[i].0 == account
}

/// Registration: a signed caller managing a fully committed account that is
/// neither queued nor active appends the account to the queue; any other
/// call fails without mutation.
pub open spec fn register_spec(
    s: StateModel,
    origin: Origin,
    maybe_pool_id: Option<PoolId>,
    managed: Option<AccountInfo>,
) -> (StateModel, Result<(), Error>) {
    match (origin, managed) {
        (Origin::Signed(_), Some(info)) => {
            if !info.fully_committed {
                (s, Err(Error::NotFullyCommitted))
            } else if queue_has(s.queue, info.account) {
                (s, Err(Error::AlreadyQueued))
            } else if is_active(s, info.account) {
                (s, Err(Error::AlreadyActive))
            } else {
                (
                    StateModel {
                        queue: s.queue.push((info.account, maybe_pool_id)),
                        head: s.head,
                        eras_per_block: s.eras_per_block,
                    },
                    Ok(()),
                )
            }
        },
        _ => (s, Err(Error::NotAuthorized)),
    }
}

/// De-registration: a signed caller managing a queued, non-active account
/// removes it from the queue; any other call fails without mutation.
/// An active account cannot be cancelled mid-flight.
pub open spec fn deregister_spec(s: StateModel, origin: Origin, managed: Option<AccountId>) -> (
    StateModel,
    Result<(), Error>,
) {
    match (origin, managed) {
        (Origin::Signed(_), Some(account)) => {
            if is_active(s, account) {
                (s, Err(Error::AlreadyActive))
            } else if !queue_has(s.queue, account) {
                (s, Err(Error::NotQueued))
            } else {
                (
                    StateModel {
                        queue: s.queue.remove(queue_index_of(s.queue, account)),
                        head: s.head,
                        eras_per_block: s.eras_per_block,
                    },
                    Ok(()),
                )
            }
        },
        _ => (s, Err(Error::NotAuthorized)),
    }
}

/// The control operation: only the control capability may overwrite the
/// throughput setting, unconditionally; nothing else changes.
pub open spec fn control_spec(s: StateModel, origin: Origin, eras_per_block: u32) -> (
    StateModel,
    Result<(), Error>,
) {
    match origin {
        Origin::Root => (
            StateModel { queue: s.queue, head: s.head, eras_per_block },
            Ok(()),
        ),
        _ => (s, Err(Error::NotAuthorized)),
    }
}

/// A tick that makes no progress: nothing consumed, nothing changed.
pub open spec fn tick_idle(s: StateModel) -> TickStep {
    TickStep { state: s, consumed: 0, events: Seq::empty() }
}

/// The record worked on this tick and the queue it leaves behind: the current
/// active record if one exists, else the queue entry picked by the entropy.
pub open spec fn tick_selection(s: StateModel, entropy: u64) -> (RequestModel, Seq<(
    AccountId,
    Option<PoolId>,
)>) {
    match s.head {
        Some(r) => (r, s.queue),
        None => {
            let i = (entropy as int) % (s.queue.len() as int);
            (
                RequestModel {
                    stash: s.queue[i].0,
                    checked: Seq::empty(),
                    maybe_pool_id: s.queue[i].1,
                },
                s.queue.remove(i),
            )
        },
    }
}

/// One tick of the processor, as a function of the starting state, the
/// host environment, and the compute budget.
///
/// The tick does nothing while the busy signal is up, while the throughput
/// setting is zero, or while the budget cannot cover both one verification
/// batch and a possible finalize step. Otherwise it works on the active
/// record, promoting one queue entry first if the slot is free, and performs
/// exactly one action: finalize a fully confirmed record, or verify the next
/// batch of unchecked window eras.
pub open spec fn tick_spec(s: StateModel, env: EnvModel, budget: ComputeUnits) -> TickStep {
    let n = affordable_eras(s.eras_per_block, env.era_check_cost, env.finalize_cost, budget);
    if env.busy || s.eras_per_block == 0 || n == 0 {
        tick_idle(s)
    } else if s.head is None && s.queue.len() == 0 {
        tick_idle(s)
    } else {
        let (cur, queue) = tick_selection(s, env.entropy);
        let unchecked = unchecked_in(window_eras(env.current_era, env.bonding_duration), cur.checked);
        if unchecked.len() == 0 {
            TickStep {
                state: StateModel { queue, head: None, eras_per_block: s.eras_per_block },
                consumed: env.finalize_cost,
                events: seq![
                    EventModel::Unstaked {
                        stash: cur.stash,
                        maybe_pool_id: cur.maybe_pool_id,
                        result: env.finalize_result,
                    },
                ],
            }
        } else {
            let m = if unchecked.len() < n as nat { unchecked.len() as int } else { n as int };
            let batch = unchecked.take(m);
            let consumed = (m * env.era_check_cost) as ComputeUnits;
            if all_clean(batch, env.flagged) {
                TickStep {
                    state: StateModel {
                        queue,
                        head: Some(
                            RequestModel {
                                stash: cur.stash,
                                checked: cur.checked + batch,
                                maybe_pool_id: cur.maybe_pool_id,
                            },
                        ),
                        eras_per_block: s.eras_per_block,
                    },
                    consumed,
                    events: seq![EventModel::Checked { stash: cur.stash, eras: batch }],
                }
            } else {
                TickStep {
                    state: StateModel { queue, head: None, eras_per_block: s.eras_per_block },
                    consumed,
                    events: seq![
                        EventModel::Flagged {
                            stash: cur.stash,
                            era: first_flagged(batch, env.flagged),
                        },
                    ],
                }
            }
        }
    }
}

/// The confirmation window never repeats an era.
pub proof fn lemma_window_distinct(current_era: EraIndex, bonding_duration: EraIndex)
    ensures
        no_dup_eras(window_eras(current_era, bonding_duration)),
{
    let w = window_eras(current_era, bonding_duration);
    assert forall|i: int, j: int| 0 <= i < j < w.len() implies w[i] != w[j] by {
        assert(w[i] == (current_era - i) as EraIndex);
        assert(w[j] == (current_era - j) as EraIndex);
    }
}

/// Every era the filter keeps comes from the window and is not yet checked,
/// and the filter never lengthens the window.
pub proof fn lemma_unchecked_elements(window: Seq<EraIndex>, checked: Seq<EraIndex>)
    ensures
        unchecked_in(window, checked).len() <= window.len(),
        forall|k: int|
            0 <= k < unchecked_in(window, checked).len() ==> window.contains(
                #[trigger] unchecked_in(window, checked)[k],
            ) && !checked.contains(unchecked_in(window, checked)[k]),
    decreases window.len(),
{
    if window.len() > 0 {
        let u = unchecked_in(window, checked);
        let init = unchecked_in(window.drop_last(), checked);
        lemma_unchecked_elements(window.drop_last(), checked);
        assert forall|k: int| 0 <= k < u.len() implies window.contains(#[trigger] u[k])
            && !checked.contains(u[k]) by {
            if k < init.len() {
                assert(u[k] == init[k]);
                let i = choose|i: int|
                    0 <= i < window.drop_last().len() && window.drop_last()[i] == init[k];
                assert(window[i] == init[k]);
            } else {
                assert(u[k] == window.last());
                assert(window[window.len() - 1] == window.last());
            }
        }
    }
}

/// Filtering a duplicate-free window keeps it duplicate-free.
pub proof fn lemma_unchecked_distinct(window: Seq<EraIndex>, checked: Seq<EraIndex>)
    requires
        no_dup_eras(window),
    ensures
        no_dup_eras(unchecked_in(window, checked)),
    decreases window.len(),
{
    if window.len() > 0 {
        let u = unchecked_in(window, checked);
        let init = unchecked_in(window.drop_last(), checked);
        assert(no_dup_eras(window.drop_last())) by {
            assert forall|i: int, j: int|
                0 <= i < j < window.drop_last().len() implies window.drop_last()[i]
                != window.drop_last()[j] by {
                assert(window[i] == window.drop_last()[i]);
                assert(window[j] == window.drop_last()[j]);
            }
        }
        lemma_unchecked_distinct(window.drop_last(), checked);
        if !checked.contains(window.last()) {
            lemma_unchecked_elements(window.drop_last(), checked);
            assert forall|i: int, j: int| 0 <= i < j < u.len() implies u[i] != u[j] by {
                if j < init.len() {
                    assert(u[i] == init[i] && u[j] == init[j]);
                } else {
                    assert(u[j] == window.last());
                    assert(u[i] == init[i]);
                    let k = choose|k: int|
                        0 <= k < window.drop_last().len() && window.drop_last()[k] == init[i];
                    assert(window[k] == init[i]);
                    assert(window[k] != window[window.len() - 1]);
                }
            }
        }
    }
}

/// Removing one queue entry keeps the keys unique, introduces no account,
/// and removes the picked account entirely.
pub proof fn lemma_queue_remove(queue: Seq<(AccountId, Option<PoolId>)>, i: int)
    requires
        queue_keys_unique(queue),
        0 <= i < queue.len(),
    ensures
        queue_keys_unique(queue.remove(i)),
        !queue_has(queue.remove(i), queue[i].0),
        forall|a: AccountId| queue_has(queue.remove(i), a) ==> queue_has(queue, a),
    decreases queue.len(),
{
    let q = queue.remove(i);
    assert forall|a: int, b: int| 0 <= a < b < q.len() implies q[a].0 != q[b].0 by {
        assert(q[a] == if a < i {
            queue[a]
        } else {
            queue[a + 1]
        });
        assert(q[b] == if b < i {
            queue[b]
        } else {
            queue[b + 1]
        });
    }
    assert forall|k: int| 0 <= k < q.len() implies q[k].0 != queue[i].0 by {
        assert(q[k] == if k < i {
            queue[k]
        } else {
            queue[k + 1]
        });
    }
    assert forall|a: AccountId| queue_has(q, a) implies queue_has(queue, a) by {
        let k = choose|k: int| 0 <= k < q.len() && q[k].0 == a;
        assert(q[k] == if k < i {
            queue[k]
        } else {
            queue[k + 1]
        });
    }
}

/// Membership in a concatenation is membership in either part.
pub proof fn lemma_contains_concat(c: Seq<EraIndex>, d: Seq<EraIndex>, x: EraIndex)
    ensures
        (c + d).contains(x) <==> c.contains(x) || d.contains(x),
{
    if (c + d).contains(x) {
        let i = choose|i: int| 0 <= i < (c + d).len() && (c + d)[i] == x;
        if i < c.len() {
            assert(c[i] == x);
        } else {
            assert(d[i - c.len()] == x);
        }
    }
    if c.contains(x) {
        let i = choose|i: int| 0 <= i < c.len() && c[i] == x;
        assert((c + d)[i] == x);
    }
    if d.contains(x) {
        let i = choose|i: int| 0 <= i < d.len() && d[i] == x;
        assert((c + d)[c.len() + i] == x);
    }
}

/// Filtering against two checked lists at once filters in two stages.
pub proof fn lemma_unchecked_concat(w: Seq<EraIndex>, c: Seq<EraIndex>, d: Seq<EraIndex>)
    ensures
        unchecked_in(w, c + d) == unchecked_in(unchecked_in(w, c), d),
    decreases w.len(),
{
    if w.len() == 0 {
        assert(unchecked_in(w, c + d) =~= unchecked_in(unchecked_in(w, c), d));
    } else {
        let x = w.last();
        let w2 = w.drop_last();
        lemma_unchecked_concat(w2, c, d);
        lemma_contains_concat(c, d, x);
        let u2 = unchecked_in(w2, c);
        if c.contains(x) {
            assert(unchecked_in(w, c) == u2);
            assert(unchecked_in(w, c + d) == unchecked_in(w2, c + d));
        } else {
            let u = u2.push(x);
            assert(unchecked_in(w, c) == u);
            assert(u.drop_last() =~= u2);
            assert(u.last() == x);
            if d.contains(x) {
                assert(unchecked_in(w, c + d) == unchecked_in(w2, c + d));
                assert(unchecked_in(u, d) == unchecked_in(u2, d));
            } else {
                assert(unchecked_in(w, c + d) == unchecked_in(w2, c + d).push(x));
                assert(unchecked_in(u, d) == unchecked_in(u2, d).push(x));
            }
        }
    }
}

/// A window whose every era is already checked leaves nothing unchecked.
pub proof fn lemma_unchecked_all_checked(w: Seq<EraIndex>, c: Seq<EraIndex>)
    requires
        forall|k: int| 0 <= k < w.len() ==> c.contains(#[trigger] w[k]),
    ensures
        unchecked_in(w, c) == Seq::<EraIndex>::empty(),
    decreases w.len(),
{
    if w.len() > 0 {
        assert(c.contains(w[w.len() - 1]));
        assert forall|k: int| 0 <= k < w.drop_last().len() implies c.contains(
            #[trigger] w.drop_last()[k],
        ) by {
            assert(w.drop_last()[k] == w[k]);
        }
        lemma_unchecked_all_checked(w.drop_last(), c);
    }
}

/// Checking the first `m` unchecked eras leaves exactly the remaining ones,
/// provided the list holds no duplicate.
pub proof fn lemma_unchecked_take_skip(u: Seq<EraIndex>, m: int)
    requires
        no_dup_eras(u),
        0 <= m <= u.len(),
    ensures
        unchecked_in(u, u.take(m)) == u.skip(m),
    decreases u.len(),
{
    if u.len() == 0 {
        assert(unchecked_in(u, u.take(m)) =~= u.skip(m));
    } else {
        let y = u.last();
        let u2 = u.drop_last();
        let b = u.take(m);
        assert(no_dup_eras(u2)) by {
            assert forall|i: int, j: int| 0 <= i < j < u2.len() implies u2[i] != u2[j] by {
                assert(u2[i] == u[i] && u2[j] == u[j]);
            }
        }
        if m <= u2.len() {
            assert(b =~= u2.take(m));
            lemma_unchecked_take_skip(u2, m);
            assert(!b.contains(y)) by {
                if b.contains(y) {
                    let k = choose|k: int| 0 <= k < b.len() && b[k] == y;
                    assert(u[k] == y && u[u.len() - 1] == y);
                }
            }
            assert(unchecked_in(u, b) == unchecked_in(u2, b).push(y));
            assert(u2.skip(m).push(y) =~= u.skip(m));
        } else {
            assert(b =~= u);
            assert(u.contains(y)) by {
                assert(u[u.len() - 1] == y);
            }
            assert(unchecked_in(u, b) == unchecked_in(u2, b));
            assert forall|k: int| 0 <= k < u2.len() implies b.contains(#[trigger] u2[k]) by {
                assert(u[k] == u2[k]);
            }
            lemma_unchecked_all_checked(u2, b);
            assert(u.skip(m) =~= Seq::<EraIndex>::empty());
        }
    }
}

/// After confirming the first `m` unchecked eras of a duplicate-free window,
/// the unchecked eras are exactly the ones after those `m`.
pub proof fn lemma_unchecked_after_append(w: Seq<EraIndex>, c: Seq<EraIndex>, m: int)
    requires
        no_dup_eras(w),
        0 <= m <= unchecked_in(w, c).len(),
    ensures
        unchecked_in(w, c + unchecked_in(w, c).take(m)) == unchecked_in(w, c).skip(m),
{
    let u = unchecked_in(w, c);
    lemma_unchecked_concat(w, c, u.take(m));
    lemma_unchecked_distinct(w, c);
    lemma_unchecked_take_skip(u, m);
}

/// A verification batch priced inside the affordable count fits the budget.
pub proof fn lemma_batch_cost_fits(
    rate: u32,
    era_check_cost: ComputeUnits,
    finalize_cost: ComputeUnits,
    budget: ComputeUnits,
    m: int,
)
    requires
        affordable_eras(rate, era_check_cost, finalize_cost, budget) > 0,
        0 <= m <= affordable_eras(rate, era_check_cost, finalize_cost, budget) as int,
    ensures
        m * era_check_cost <= budget,
{
    let c = era_check_cost as int;
    let b = budget as int;
    if c == 0 {
        assert(m * 0 == 0);
    } else {
        let q = b / c;
        vstd::arithmetic::div_mod::lemma_fundamental_div_mod(b, c);
        assert(b == c * q + b % c);
        assert(m <= q);
        vstd::arithmetic::mul::lemma_mul_inequality(m, q, c);
        assert(m * c <= q * c);
    }
}

/// The first flagged era of a batch, located by its index.
pub proof fn lemma_first_flagged_at(eras: Seq<EraIndex>, flagged: Seq<EraIndex>, fi: int)
    requires
        0 <= fi < eras.len(),
        flagged.contains(eras[fi]),
        forall|j: int| 0 <= j < fi ==> !flagged.contains(#[trigger] eras[j]),
    ensures
        first_flagged(eras, flagged) == eras[fi],
    decreases fi,
{
    if fi == 0 {
        assert(flagged.contains(eras.first()));
    } else {
        assert(!flagged.contains(eras.first()));
        lemma_first_flagged_at(eras.drop_first(), flagged, fi - 1);
        assert(eras.drop_first()[fi - 1] == eras[fi]);
    }
}

} // verus!
