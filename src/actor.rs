use vstd::prelude::*;

use std::collections::VecDeque;

use crate::balance::{last_balance_upto, last_vault_balance, TransactionRecord};
use crate::distributor_state::{DistributorError, DistributorState};

verus! {

/// What prompts a distribution attempt.
#[derive(Clone, Debug)]
pub enum TriggerEvent {
    /// A batch of confirmed transactions that may show the vault's balance.
    Observed(Vec<TransactionRecord>),
    /// A request to check the vault's balance on the ledger.
    Explicit,
}

/// What the actor does about one event.
#[derive(Clone, Copy, Debug, PartialEq, Eq, Structural)]
pub enum Decision {
    /// No record of the batch shows the vault's balance: nothing to do.
    Ignore,
    /// Read the vault's balance from the ledger, then decide on it.
    FetchBalance,
    /// The balance is below the threshold: nothing to do.
    BelowThreshold { balance: u64, threshold: u64 },
    /// Run a round that draws `winners` holders.
    Distribute { balance: u64, winners: u64 },
}

/// The decision on a known vault balance.
pub open spec fn balance_decision(state: DistributorState, balance: u64) -> Decision {
    if (balance as int) < state.spec_threshold() {
        Decision::BelowThreshold { balance, threshold: state.spec_threshold() as u64 }
    } else {
        Decision::Distribute { balance, winners: (state.number_of_shares - 1) as u64 }
    }
}

/// The decision on an event.
pub open spec fn event_decision(state: DistributorState, event: TriggerEvent) -> Decision {
    match event {
        TriggerEvent::Observed(records) => match last_balance_upto(
            state.vault@,
            records@,
            records@.len() as int,
        ) {
            None => Decision::Ignore,
            Some(balance) => balance_decision(state, balance),
        },
        TriggerEvent::Explicit => Decision::FetchBalance,
    }
}

/// The single consumer of trigger events: a FIFO mailbox, and whether an event
/// is being handled. Events are taken one at a time, in the order they came,
/// and none while another is in hand.
pub struct Actor {
    state: DistributorState,
    mailbox: VecDeque<TriggerEvent>,
    busy: bool,
    submitted: Ghost<Seq<TriggerEvent>>,
    started: Ghost<Seq<TriggerEvent>>,
}

impl Actor {
    pub closed spec fn spec_state(&self) -> DistributorState {
        self.state
    }

    /// Events waiting, oldest first.
    pub closed spec fn pending(&self) -> Seq<TriggerEvent> {
        self.mailbox@
    }

    /// Whether an event is being handled.
    pub closed spec fn is_busy(&self) -> bool {
        self.busy
    }

    /// Every event ever submitted, in order.
    pub closed spec fn submitted(&self) -> Seq<TriggerEvent> {
        self.submitted@
    }

    /// The events taken up so far, in the order they were taken.
    pub closed spec fn started(&self) -> Seq<TriggerEvent> {
        self.started@
    }

    pub closed spec fn wf(&self) -> bool {
        &&& self.state.wf()
        &&& self.submitted@ == self.started@ + self.mailbox@
        &&& self.busy ==> self.started@.len() > 0
    }

    /// An actor over a distribution whose parameters check out.
    pub fn new(state: DistributorState) -> (r: Result<Actor, DistributorError>)
        ensures
            r is Ok <==> state.wf(),
            r is Err ==> r == Err::<Actor, DistributorError>(DistributorError::InvalidParameters),
            r matches Ok(a) ==> {
                &&& a.wf()
                &&& a.spec_state() == state
                &&& a.pending().len() == 0
                &&& a.submitted().len() == 0
                &&& !a.is_busy()
            },
    {
        match state.validate() {
            Ok(()) => Ok(
                Actor {
                    state,
                    mailbox: VecDeque::new(),
                    busy: false,
                    submitted: Ghost(Seq::empty()),
                    started: Ghost(Seq::empty()),
                },
            ),
            Err(e) => Err(e),
        }
    }

    /// The distribution this actor serves.
    pub fn state(&self) -> (r: &DistributorState)
        ensures
            *r == self.spec_state(),
    {
        &self.state
    }

    /// Queues an event behind those already waiting.
    pub fn submit(&mut self, event: TriggerEvent)
        requires
            old(self).wf(),
        ensures
            final(self).wf(),
            final(self).pending() == old(self).pending().push(event),
            final(self).submitted() == old(self).submitted().push(event),
            final(self).started() == old(self).started(),
            final(self).is_busy() == old(self).is_busy(),
            final(self).spec_state() == old(self).spec_state(),
    {
        self.submitted = Ghost(self.submitted@.push(event));
        self.mailbox.push_back(event);
        assert(self.submitted@ =~= self.started@ + self.mailbox@);
    }

    /// Takes the oldest waiting event, unless one is already in hand.
    pub fn next_message(&mut self) -> (r: Option<TriggerEvent>)
        requires
            old(self).wf(),
        ensures
            final(self).wf(),
            final(self).submitted() == old(self).submitted(),
            final(self).spec_state() == old(self).spec_state(),
            old(self).is_busy() || old(self).pending().len() == 0 ==> {
                &&& r is None
                &&& final(self).pending() == old(self).pending()
                &&& final(self).started() == old(self).started()
                &&& final(self).is_busy() == old(self).is_busy()
            },
            !old(self).is_busy() && old(self).pending().len() > 0 ==> {
                &&& r == Some(old(self).pending()[0])
                &&& final(self).pending() == old(self).pending().drop_first()
                &&& final(self).started() == old(self).started().push(old(self).pending()[0])
                &&& final(self).is_busy()
            },
    {
        if self.busy {
            return None;
        }
        match self.mailbox.pop_front() {
            None => None,
            Some(event) => {
                self.started = Ghost(self.started@.push(event));
                self.busy = true;
                assert(self.submitted@ =~= self.started@ + self.mailbox@);
                Some(event)
            },
        }
    }

    /// Marks the event in hand as handled, whatever its outcome.
    pub fn finish_message(&mut self)
        requires
            old(self).wf(),
        ensures
            final(self).wf(),
            !final(self).is_busy(),
            final(self).pending() == old(self).pending(),
            final(self).submitted() == old(self).submitted(),
            final(self).started() == old(self).started(),
            final(self).spec_state() == old(self).spec_state(),
    {
        self.busy = false;
    }

    /// The decision on a known vault balance: a round drawing all shares but the
    /// last once the balance reaches the threshold.
    pub fn distribute_tokens(&self, vault_balance: u64) -> (r: Decision)
        requires
            self.wf(),
        ensures
            r == balance_decision(self.spec_state(), vault_balance),
    {
        let threshold = self.state.threshold();
        if vault_balance < threshold {
            Decision::BelowThreshold { balance: vault_balance, threshold }
        } else {
            Decision::Distribute { balance: vault_balance, winners: self.state.number_of_shares - 1 }
        }
    }

    /// The decision on an event: a batch decides on the balance of its last
    /// record that shows the vault, an explicit trigger asks for the balance.
    pub fn handle_message(&self, event: &TriggerEvent) -> (r: Decision)
        requires
            self.wf(),
        ensures
            r == event_decision(self.spec_state(), *event),
    {
        match event {
            TriggerEvent::Observed(records) => match last_vault_balance(&self.state.vault, records) {
                None => Decision::Ignore,
                Some(balance) => self.distribute_tokens(balance),
            },
            TriggerEvent::Explicit => Decision::FetchBalance,
        }
    }
}

/// Events are taken up strictly in the order they were submitted: those taken
/// so far are the first ones submitted, and the rest wait behind them.
pub proof fn lemma_events_in_submission_order(a: &Actor)
    requires
        a.wf(),
    ensures
        a.started() == a.submitted().take(a.started().len() as int),
        a.pending() == a.submitted().skip(a.started().len() as int),
        a.is_busy() ==> a.started().len() > 0,
{
    assert(a.started() =~= a.submitted().take(a.started().len() as int));
    assert(a.pending() =~= a.submitted().skip(a.started().len() as int));
}

/// A balance below `share_size * number_of_shares` never starts a round; one at
/// or above it starts exactly one, drawing `number_of_shares - 1` winners.
pub proof fn lemma_threshold_decides(state: DistributorState, balance: u64)
    requires
        state.wf(),
    ensures
        (balance as int) < state.share_size * state.number_of_shares ==> (!(balance_decision(
            state,
            balance,
        ) is Distribute)),
        (balance as int) >= state.share_size * state.number_of_shares ==> (balance_decision(
            state,
            balance,
        ) == (Decision::Distribute { balance, winners: (state.number_of_shares - 1) as u64 })),
{
}

} // verus!
