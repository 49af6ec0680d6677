//! Plain data types shared by the state machine, its callers and its tests.

use vstd::prelude::*;

use crate::model::{EnvModel, EventModel, RequestModel};

verus! {

/// Account identifiers as the host ledger numbers them.
pub type AccountId = u64;

/// Identifier of a destination pool an unstaked account may join.
pub type PoolId = u32;

/// Era (epoch) numbers of the host ledger.
pub type EraIndex = u32;

/// Compute units of the host scheduler's per-tick budget.
pub type ComputeUnits = u64;

/// The provenance of a call into the admission or control API.
#[derive(Clone, Copy, PartialEq, Eq, Structural, Debug)]
pub enum Origin {
    /// A privileged caller holding the control capability.
    Root,
    /// An ordinary signed caller.
    Signed(AccountId),
}

/// Errors surfaced by the admission, withdrawal and control operations.
#[derive(Clone, Copy, PartialEq, Eq, Structural, Debug)]
pub enum Error {
    /// The caller is unsigned, lacks the control capability, or manages no account.
    NotAuthorized,
    /// The managed account has a partial withdrawal in progress.
    NotFullyCommitted,
    /// The account is already waiting in the pending queue.
    AlreadyQueued,
    /// The account currently occupies the active slot.
    AlreadyActive,
    /// The account is not in the pending queue.
    NotQueued,
}

/// Structured failure reported by the host's finalize-and-unstake step.
#[derive(Clone, Copy, PartialEq, Eq, Structural, Debug)]
pub enum FinalizeError {
    /// The destination pool rejected the join.
    PoolRejected,
    /// Any other failure of the finalize step.
    Other,
}

/// What the host's ledger says about the account a caller manages:
/// the result of the `is_manager_of` / `is_fully_committed` lookups.
#[derive(Clone, Copy, PartialEq, Eq, Structural, Debug)]
pub struct AccountInfo {
    /// The account the caller manages.
    pub account: AccountId,
    /// True when no partial withdrawal is in progress for the account.
    pub fully_committed: bool,
}

/// One in-flight verification record: the contents of the active slot.
#[derive(Debug)]
pub struct UnstakeRequest {
    /// The account being processed.
    pub stash: AccountId,
    /// Era numbers already confirmed clean, in verification order.
    pub checked: Vec<EraIndex>,
    /// Destination pool the account joins after unstaking, if any.
    pub maybe_pool_id: Option<PoolId>,
}

impl View for UnstakeRequest {
    type V = RequestModel;

    open spec fn view(&self) -> RequestModel {
        RequestModel {
            stash: self.stash,
            checked: self.checked@,
            maybe_pool_id: self.maybe_pool_id,
        }
    }
}

/// True when two era lists hold the same numbers in the same order.
pub fn era_vecs_equal(a: &Vec<EraIndex>, b: &Vec<EraIndex>) -> (r: bool)
    ensures
        r == (a@ == b@),
{
    if a.len() != b.len() {
        assert(a@ != b@) by {
            assert(a@.len() != b@.len());
        }
        return false;
    }
    let mut i: usize = 0;
    while i < a.len()
        invariant
            0 <= i <= a.len(),
            a.len() == b.len(),
            forall|j: int| 0 <= j < i ==> a@[j] == b@[j],
        decreases a.len() - i,
    {
        if a[i] != b[i] {
            return false;
        }
        i += 1;
    }
    proof {
        assert(a@ =~= b@);
    }
    true
}

/// True when two optional pool ids are equal.
pub fn pool_ids_equal(a: &Option<PoolId>, b: &Option<PoolId>) -> (r: bool)
    ensures
        r == (a == b),
{
    match (a, b) {
        (None, None) => true,
        (Some(x), Some(y)) => x == y,
        _ => false,
    }
}

impl PartialEq for UnstakeRequest {
    fn eq(&self, other: &Self) -> (r: bool) {
        self.stash == other.stash && era_vecs_equal(&self.checked, &other.checked)
            && pool_ids_equal(&self.maybe_pool_id, &other.maybe_pool_id)
    }
}

impl vstd::std_specs::cmp::PartialEqSpecImpl for UnstakeRequest {
    open spec fn obeys_eq_spec() -> bool {
        true
    }

    open spec fn eq_spec(&self, other: &Self) -> bool {
        self@ == other@
    }
}

/// One recorded processing outcome of a tick.
#[derive(Debug)]
pub enum Event {
    /// A batch of eras was confirmed clean for `stash` in one tick.
    Checked { stash: AccountId, eras: Vec<EraIndex> },
    /// The finalize step ran for `stash`; its result is recorded either way.
    Unstaked { stash: AccountId, maybe_pool_id: Option<PoolId>, result: Result<(), FinalizeError> },
    /// The verifier flagged `stash` at `era`; processing of the account stopped.
    Flagged { stash: AccountId, era: EraIndex },
}

impl View for Event {
    type V = EventModel;

    open spec fn view(&self) -> EventModel {
        match self {
            Event::Checked { stash, eras } => EventModel::Checked {
                stash: *stash,
                eras: eras@,
            },
            Event::Unstaked { stash, maybe_pool_id, result } => EventModel::Unstaked {
                stash: *stash,
                maybe_pool_id: *maybe_pool_id,
                result: *result,
            },
            Event::Flagged { stash, era } => EventModel::Flagged { stash: *stash, era: *era },
        }
    }
}

/// True when two finalize results are equal.
pub fn finalize_results_equal(
    a: &Result<(), FinalizeError>,
    b: &Result<(), FinalizeError>,
) -> (r: bool)
    ensures
        r == (a == b),
{
    match (*a, *b) {
        (Ok(u), Ok(v)) => {
            proof {
                assert(u == v);
            }
            true
        },
        (Err(x), Err(y)) => x == y,
        _ => false,
    }
}

impl PartialEq for Event {
    fn eq(&self, other: &Self) -> (r: bool) {
        match (self, other) {
            (
                Event::Checked { stash: a, eras: x },
                Event::Checked { stash: b, eras: y },
            ) => a == b && era_vecs_equal(x, y),
            (
                Event::Unstaked { stash: a, maybe_pool_id: p, result: u },
                Event::Unstaked { stash: b, maybe_pool_id: q, result: v },
            ) => a == b && pool_ids_equal(p, q) && finalize_results_equal(u, v),
            (
                Event::Flagged { stash: a, era: x },
                Event::Flagged { stash: b, era: y },
            ) => a == b && x == y,
            _ => false,
        }
    }
}

impl vstd::std_specs::cmp::PartialEqSpecImpl for Event {
    open spec fn obeys_eq_spec() -> bool {
        true
    }

    open spec fn eq_spec(&self, other: &Self) -> bool {
        self@ == other@
    }
}

/// Everything one tick reads from the host's collaborators, as plain values.
#[derive(Debug)]
pub struct TickEnv {
    /// The external busy signal, polled once per tick.
    pub busy: bool,
    /// The current authoritative era of the ledger.
    pub current_era: EraIndex,
    /// The confirmation window reaches from `current_era - bonding_duration`
    /// up to `current_era`.
    pub bonding_duration: EraIndex,
    /// The cost estimator's price for verifying one era this tick.
    pub era_check_cost: ComputeUnits,
    /// The fixed price of the finalize-and-unstake step.
    pub finalize_cost: ComputeUnits,
    /// Eras for which the verifier would flag the active account as unclean.
    pub flagged_eras: Vec<EraIndex>,
    /// What the finalize call would return for the active account.
    pub finalize_result: Result<(), FinalizeError>,
    /// Entropy the promotion policy uses to pick a queue entry.
    pub entropy: u64,
}

impl View for TickEnv {
    type V = EnvModel;

    open spec fn view(&self) -> EnvModel {
        EnvModel {
            busy: self.busy,
            current_era: self.current_era,
            bonding_duration: self.bonding_duration,
            era_check_cost: self.era_check_cost,
            finalize_cost: self.finalize_cost,
            flagged: self.flagged_eras@,
            finalize_result: self.finalize_result,
            entropy: self.entropy,
        }
    }
}

/// What one tick reports back to the host scheduler.
#[derive(Debug)]
pub struct TickOutcome {
    /// The compute actually consumed, never more than the budget supplied.
    pub consumed: ComputeUnits,
    /// The outcomes recorded during the tick, in order.
    pub events: Vec<Event>,
}

} // verus!
