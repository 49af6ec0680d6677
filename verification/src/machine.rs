//! The executable state machine: pending queue, active slot, throughput
//! setting, and the operations the host calls.

use vstd::prelude::*;

use crate::model::{
    affordable_eras, all_clean, control_spec, deregister_spec, lemma_batch_cost_fits,
    lemma_first_flagged_at, lemma_queue_remove, queue_entry, queue_has, queue_index_of,
    queue_keys_unique, register_spec, tick_selection, tick_spec, unchecked_in, window_eras,
    window_len, EventModel, StateModel,
};
use crate::types::{
    AccountId, AccountInfo, ComputeUnits, EraIndex, Error, Event, Origin, PoolId, TickEnv,
    TickOutcome, UnstakeRequest,
};

verus! {

/// True when `eras` holds `era`.
fn contains_era(eras: &Vec<EraIndex>, era: EraIndex) -> (r: bool)
    ensures
        r == eras@.contains(era),
{
    let mut i: usize = 0;
    while i < eras.len()
        invariant
            0 <= i <= eras@.len(),
            forall|j: int| 0 <= j < i ==> eras@[j] != era,
        decreases eras@.len() - i,
    {
        if eras[i] == era {
            return true;
        }
        i += 1;
    }
    false
}

/// The confirmation window, newest era first.
fn build_window(current_era: EraIndex, bonding_duration: EraIndex) -> (w: Vec<EraIndex>)
    requires
        window_len(current_era, bonding_duration) <= usize::MAX,
    ensures
        w@ == window_eras(current_era, bonding_duration),
{
    let span: u32 = if bonding_duration <= current_era {
        bonding_duration
    } else {
        current_era
    };
    let len: usize = span as usize + 1;
    let mut w: Vec<EraIndex> = Vec::new();
    let mut i: usize = 0;
    while i < len
        invariant
            0 <= i <= len,
            len == window_len(current_era, bonding_duration),
            w@.len() == i,
            forall|j: int| 0 <= j < i ==> w@[j] == (current_era - j) as EraIndex,
        decreases len - i,
    {
        w.push(current_era - (i as u32));
        i += 1;
    }
    proof {
        assert(w@ =~= window_eras(current_era, bonding_duration));
    }
    w
}

/// The window eras not yet confirmed, keeping the window's order.
fn compute_unchecked(window: &Vec<EraIndex>, checked: &Vec<EraIndex>) -> (u: Vec<EraIndex>)
    ensures
        u@ == unchecked_in(window@, checked@),
{
    let mut u: Vec<EraIndex> = Vec::new();
    let mut i: usize = 0;
    while i < window.len()
        invariant
            0 <= i <= window@.len(),
            u@ == unchecked_in(window@.take(i as int), checked@),
        decreases window@.len() - i,
    {
        let ghost prefix = window@.take(i as int);
        let ghost next = window@.take(i as int + 1);
        proof {
            assert(next.drop_last() =~= prefix);
            assert(next.last() == window@[i as int]);
        }
        if !contains_era(checked, window[i]) {
            u.push(window[i]);
        }
        i += 1;
    }
    proof {
        assert(window@.take(window@.len() as int) =~= window@);
    }
    u
}

/// A tick report that consumed nothing and recorded nothing.
fn idle_outcome() -> (out: TickOutcome)
    ensures
        out.consumed == 0,
        out.events@.map_values(|e: Event| e@) == Seq::<EventModel>::empty(),
{
    let out = TickOutcome { consumed: 0, events: Vec::new() };
    proof {
        assert(out.events@.map_values(|e: Event| e@) =~= Seq::<EventModel>::empty());
    }
    out
}

/// A one-element event list.
fn single_event(e: Event) -> (out: Vec<Event>)
    ensures
        out@.map_values(|x: Event| x@) == seq![e@],
{
    let ghost ev = e@;
    let mut out: Vec<Event> = Vec::new();
    out.push(e);
    proof {
        assert(out@.map_values(|x: Event| x@) =~= seq![ev]);
    }
    out
}

/// The fast-unstake processor: all of its durable state.
pub struct FastUnstake {
    queue: Vec<(AccountId, Option<PoolId>)>,
    head: Option<UnstakeRequest>,
    eras_per_block: u32,
}

impl View for FastUnstake {
    type V = StateModel;

    closed spec fn view(&self) -> StateModel {
        StateModel {
            queue: self.queue@,
            head: match self.head {
                Some(r) => Some(r@),
                None => None,
            },
            eras_per_block: self.eras_per_block,
        }
    }
}

impl FastUnstake {
    /// Well-formedness of the processor state.
    pub open spec fn wf(&self) -> bool {
        crate::model::wf(self@)
    }

    /// A fresh processor: empty queue, free slot, throughput zero
    /// (everything paused until the control capability raises it).
    pub fn new() -> (s: Self)
        ensures
            s@ == (StateModel { queue: Seq::empty(), head: None, eras_per_block: 0 }),
            s.wf(),
    {
        FastUnstake { queue: Vec::new(), head: None, eras_per_block: 0 }
    }

    /// The position of `account` in the queue, if present.
    fn queue_find(&self, account: AccountId) -> (r: Option<usize>)
        ensures
            match r {
                Some(i) => i < self.queue@.len() && self.queue@[i as int].0 == account,
                None => !queue_has(self@.queue, account),
            },
    {
        let mut i: usize = 0;
        while i < self.queue.len()
            invariant
                0 <= i <= self.queue@.len(),
                forall|j: int| 0 <= j < i ==> self.queue@[j].0 != account,
            decreases self.queue@.len() - i,
        {
            if self.queue[i].0 == account {
                return Some(i);
            }
            i += 1;
        }
        None
    }

    /// Pending-queue membership, for observability: the stored destination
    /// pool when the account waits in the queue, `None` otherwise.
    pub fn queue_get(&self, account: AccountId) -> (r: Option<Option<PoolId>>)
        requires
            self.wf(),
        ensures
            r == queue_entry(self@.queue, account),
    {
        match self.queue_find(account) {
            Some(i) => {
                proof {
                    let j = queue_index_of(self@.queue, account);
                    assert(0 <= j < self@.queue.len() && self@.queue[j].0 == account);
                    assert(j == i as int) by {
                        assert(queue_keys_unique(self@.queue));
                    }
                }
                Some(self.queue[i].1)
            },
            None => None,
        }
    }

    /// The number of accounts waiting in the queue.
    pub fn queue_count(&self) -> (r: usize)
        ensures
            r == self@.queue.len(),
    {
        self.queue.len()
    }

    /// The active slot's contents, for observability.
    pub fn head(&self) -> (r: &Option<UnstakeRequest>)
        ensures
            match r {
                Some(h) => self@.head == Some(h@),
                None => self@.head is None,
            },
    {
        &self.head
    }

    /// The current throughput setting: eras verified per tick.
    pub fn eras_to_check_per_block(&self) -> (r: u32)
        ensures
            r == self@.eras_per_block,
    {
        self.eras_per_block
    }

    /// Registration: admit the caller's fully committed account into the
    /// pending queue. Fails with `NotAuthorized` for an unsigned caller or
    /// one managing no account, `NotFullyCommitted` when a partial
    /// withdrawal is in progress, `AlreadyQueued` or `AlreadyActive` when
    /// the account is already tracked; no mutation on failure.
    ///
    /// `managed` is the host ledger's answer about the caller: the account
    /// the caller manages, and whether it is fully committed.
    pub fn register_fast_unstake(
        &mut self,
        origin: Origin,
        maybe_pool_id: Option<PoolId>,
        managed: Option<AccountInfo>,
    ) -> (r: Result<(), Error>)
        requires
            old(self).wf(),
        ensures
            final(self)@ == register_spec(old(self)@, origin, maybe_pool_id, managed).0,
            r == register_spec(old(self)@, origin, maybe_pool_id, managed).1,
            final(self).wf(),
            r is Err ==> final(self)@ == old(self)@,
    {
        match origin {
            Origin::Signed(_) => (),
            Origin::Root => {
                return Err(Error::NotAuthorized);
            },
        }
        let info = match managed {
            Some(info) => info,
            None => {
                return Err(Error::NotAuthorized);
            },
        };
        if !info.fully_committed {
            return Err(Error::NotFullyCommitted);
        }
        if self.queue_find(info.account).is_some() {
            return Err(Error::AlreadyQueued);
        }
        match &self.head {
            Some(h) => {
                if h.stash == info.account {
                    return Err(Error::AlreadyActive);
                }
            },
            None => (),
        }
        self.queue.push((info.account, maybe_pool_id));
        Ok(())
    }

    /// De-registration: withdraw the caller's account from the pending
    /// queue. Fails with `NotAuthorized` for an unsigned caller or one
    /// managing no account, `AlreadyActive` when the account occupies the
    /// active slot (it cannot be cancelled mid-flight), `NotQueued` when it
    /// is not waiting; no mutation on failure.
    ///
    /// `managed` is the host ledger's answer: the account the caller manages.
    pub fn deregister(&mut self, origin: Origin, managed: Option<AccountId>) -> (r: Result<
        (),
        Error,
    >)
        requires
            old(self).wf(),
        ensures
            final(self)@ == deregister_spec(old(self)@, origin, managed).0,
            r == deregister_spec(old(self)@, origin, managed).1,
            final(self).wf(),
            r is Err ==> final(self)@ == old(self)@,
    {
        match origin {
            Origin::Signed(_) => (),
            Origin::Root => {
                return Err(Error::NotAuthorized);
            },
        }
        let account = match managed {
            Some(account) => account,
            None => {
                return Err(Error::NotAuthorized);
            },
        };
        match &self.head {
            Some(h) => {
                if h.stash == account {
                    return Err(Error::AlreadyActive);
                }
            },
            None => (),
        }
        let i = match self.queue_find(account) {
            Some(i) => i,
            None => {
                return Err(Error::NotQueued);
            },
        };
        proof {
            let j = queue_index_of(self@.queue, account);
            assert(0 <= j < self@.queue.len() && self@.queue[j].0 == account);
            assert(j == i as int) by {
                assert(queue_keys_unique(self@.queue));
            }
            lemma_queue_remove(self@.queue, i as int);
        }
        self.queue.remove(i);
        Ok(())
    }

    /// One idle tick of the host scheduler.
    ///
    /// The whole tick is pinned down by [`tick_spec`]: while the busy signal
    /// is up, the throughput setting is zero, or the budget cannot cover one
    /// verification batch and a possible finalize step, nothing is consumed
    /// and nothing changes. Otherwise the tick works on the active record —
    /// promoting the queue entry picked by the environment's entropy first
    /// if the slot is free — and performs one action: it finalizes a record
    /// whose confirmation window is complete (recording the host's finalize
    /// result and freeing the slot, success or not), or it verifies the next
    /// affordable batch of unchecked window eras, appending them to the
    /// record or dropping the record at the first flagged era.
    ///
    /// The compute consumed never exceeds `remaining_weight`, and is zero
    /// whenever the busy signal is asserted.
    pub fn on_idle(&mut self, env: &TickEnv, remaining_weight: ComputeUnits) -> (out: TickOutcome)
        requires
            old(self).wf(),
            window_len(env.current_era, env.bonding_duration) <= usize::MAX,
        ensures
            final(self)@ == tick_spec(old(self)@, env@, remaining_weight).state,
            out.consumed == tick_spec(old(self)@, env@, remaining_weight).consumed,
            out.events@.map_values(|e: Event| e@) == tick_spec(
                old(self)@,
                env@,
                remaining_weight,
            ).events,
            final(self).wf(),
            out.consumed <= remaining_weight,
            env.busy ==> out.consumed == 0 && final(self)@ == old(self)@,
    {
        let ghost s0 = self@;
        let ghost step = tick_spec(s0, env@, remaining_weight);
        proof {
            crate::laws::lemma_tick_preserves_wf(s0, env@, remaining_weight);
        }
        if env.busy {
            return idle_outcome();
        }
        let rate = self.eras_per_block;
        if rate == 0 {
            return idle_outcome();
        }
        if env.finalize_cost > remaining_weight {
            proof {
                assert(affordable_eras(rate, env.era_check_cost, env.finalize_cost, remaining_weight)
                    == 0);
            }
            return idle_outcome();
        }
        let n: u32 = if env.era_check_cost == 0 {
            rate
        } else {
            let q: u64 = remaining_weight / env.era_check_cost;
            if q >= rate as u64 {
                rate
            } else {
                q as u32
            }
        };
        proof {
            assert(n == affordable_eras(rate, env.era_check_cost, env.finalize_cost, remaining_weight));
        }
        if n == 0 {
            return idle_outcome();
        }
        let mut cur: UnstakeRequest;
        if self.head.is_some() {
            let taken = self.head.take();
            cur = taken.unwrap();
        } else {
            if self.queue.len() == 0 {
                return idle_outcome();
            }
            let len64 = self.queue.len() as u64;
            let idx = (env.entropy % len64) as usize;
            let entry = self.queue.remove(idx);
            cur = UnstakeRequest { stash: entry.0, checked: Vec::new(), maybe_pool_id: entry.1 };
        }
        let ghost sel = tick_selection(s0, env@.entropy);
        proof {
            assert(cur@ == sel.0);
            assert(self@.queue == sel.1);
            assert(self@.head is None);
        }
        let window = build_window(env.current_era, env.bonding_duration);
        let unchecked = compute_unchecked(&window, &cur.checked);
        let ghost w = window_eras(env@.current_era, env@.bonding_duration);
        let ghost u = unchecked_in(w, sel.0.checked);
        proof {
            assert(unchecked@ == u);
        }
        if unchecked.len() == 0 {
            let events = single_event(
                Event::Unstaked {
                    stash: cur.stash,
                    maybe_pool_id: cur.maybe_pool_id,
                    result: env.finalize_result,
                },
            );
            return TickOutcome { consumed: env.finalize_cost, events };
        }
        let m: usize = if (n as usize) < unchecked.len() {
            n as usize
        } else {
            unchecked.len()
        };
        let ghost m_spec: int = if u.len() < n as nat {
            u.len() as int
        } else {
            n as int
        };
        proof {
            assert(m as int == m_spec);
        }
        let mut batch: Vec<EraIndex> = Vec::new();
        let mut k: usize = 0;
        while k < m
            invariant
                0 <= k <= m,
                m <= unchecked@.len(),
                batch@ == unchecked@.take(k as int),
            decreases m - k,
        {
            proof {
                assert(unchecked@.take(k as int).push(unchecked@[k as int]) =~= unchecked@.take(
                    k as int + 1,
                ));
            }
            batch.push(unchecked[k]);
            k += 1;
        }
        let ghost batch_spec = u.take(m_spec);
        proof {
            assert(batch@ == batch_spec);
        }
        let mut found: Option<usize> = None;
        let mut j: usize = 0;
        while j < batch.len()
            invariant
                0 <= j <= batch@.len(),
                match found {
                    Some(fi) => fi < batch@.len() && env@.flagged.contains(batch@[fi as int])
                        && forall|t: int|
                            0 <= t < fi ==> !env@.flagged.contains(#[trigger] batch@[t]),
                    None => forall|t: int|
                        0 <= t < j ==> !env@.flagged.contains(#[trigger] batch@[t]),
                },
            decreases batch@.len() - j,
        {
            if found.is_none() && contains_era(&env.flagged_eras, batch[j]) {
                found = Some(j);
            }
            j += 1;
        }
        proof {
            lemma_batch_cost_fits(rate, env.era_check_cost, env.finalize_cost, remaining_weight, m as int);
        }
        let consumed = (m as u64) * env.era_check_cost;
        match found {
            None => {
                proof {
                    assert(all_clean(batch_spec, env@.flagged));
                }
                let ghost checked0 = cur@.checked;
                let mut t: usize = 0;
                while t < batch.len()
                    invariant
                        0 <= t <= batch@.len(),
                        cur.checked@ == checked0 + batch@.take(t as int),
                        cur.stash == sel.0.stash,
                        cur.maybe_pool_id == sel.0.maybe_pool_id,
                    decreases batch@.len() - t,
                {
                    proof {
                        assert((checked0 + batch@.take(t as int)).push(batch@[t as int]) =~= checked0
                            + batch@.take(t as int + 1));
                    }
                    cur.checked.push(batch[t]);
                    t += 1;
                }
                proof {
                    assert(batch@.take(batch@.len() as int) =~= batch@);
                    assert(cur@.checked == checked0 + batch_spec);
                }
                let stash = cur.stash;
                let events = single_event(Event::Checked { stash, eras: batch });
                self.head = Some(cur);
                return TickOutcome { consumed, events };
            },
            Some(fi) => {
                proof {
                    assert(env@.flagged.contains(batch_spec[fi as int]));
                    assert(!all_clean(batch_spec, env@.flagged));
                    lemma_first_flagged_at(batch_spec, env@.flagged, fi as int);
                }
                let era = batch[fi];
                let stash = cur.stash;
                self.head = None;
                let events = single_event(Event::Flagged { stash, era });
                return TickOutcome { consumed, events };
            },
        }
    }

    /// The control operation: overwrite the throughput setting. Only the
    /// control capability may call it; a signed caller gets `NotAuthorized`
    /// and nothing changes.
    pub fn control(&mut self, origin: Origin, eras_per_block: u32) -> (r: Result<(), Error>)
        requires
            old(self).wf(),
        ensures
            final(self)@ == control_spec(old(self)@, origin, eras_per_block).0,
            r == control_spec(old(self)@, origin, eras_per_block).1,
            final(self).wf(),
            r is Err ==> final(self)@ == old(self)@,
    {
        match origin {
            Origin::Root => {
                self.eras_per_block = eras_per_block;
                Ok(())
            },
            Origin::Signed(_) => Err(Error::NotAuthorized),
        }
    }
}

} // verus!
