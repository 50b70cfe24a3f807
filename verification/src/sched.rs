//! Deterministic model of the scheduler service.
//!
//! The engine wakes itself by placing calls on a future agenda.  The model
//! keeps every scheduled entry in a growing vector; an entry's address is its
//! position, and cancelling blanks the entry out.  Dispatching is outside the
//! engine: an executed or stale entry is simply never read again.

use vstd::prelude::*;
use crate::types::{BlockNumber, OriginClass, Proposal, ReferendumIndex, ScheduleAddress, TrackId};

verus! {

/// A call the engine asks the scheduler to dispatch later.
#[derive(Clone, Copy, PartialEq, Eq, Debug)]
pub enum ScheduledCall {
    /// Re-service one referendum.
    Nudge(ReferendumIndex),
    /// A deciding slot of the track freed up: pull from its queue.
    OneFewerDeciding(TrackId),
    /// Enact an approved proposal from its intended origin.
    Enact { origin: OriginClass, proposal: Proposal },
}

/// One agenda entry.
#[derive(Clone, Copy, PartialEq, Eq, Debug)]
pub struct ScheduledItem {
    /// Block at which the call dispatches.
    pub when: BlockNumber,
    /// Dispatch priority.
    pub priority: u8,
    /// Origin the call dispatches from.
    pub origin: OriginClass,
    /// The call itself.
    pub call: ScheduledCall,
    /// Key of a named entry; anonymous entries have none.
    pub name: Option<[u8; 32]>,
}

/// The agenda: scheduled entries by address, cancelled ones blanked out.
#[derive(Debug)]
pub struct Scheduler {
    pub agenda: Vec<Option<ScheduledItem>>,
}

/// Cancel one agenda entry, when the address is live.
pub open spec fn spec_cancel(agenda: Seq<Option<ScheduledItem>>, address: ScheduleAddress)
    -> Seq<Option<ScheduledItem>> {
    if address < agenda.len() {
        agenda.update(address as int, Option::None)
    } else {
        agenda
    }
}

impl View for Scheduler {
    type V = Seq<Option<ScheduledItem>>;

    open spec fn view(&self) -> Seq<Option<ScheduledItem>> {
        self.agenda@
    }
}

impl Scheduler {
    /// An empty agenda.
    pub fn new() -> (r: Self)
        ensures
            r@ == Seq::<Option<ScheduledItem>>::empty(),
    {
        Scheduler { agenda: Vec::new() }
    }

    /// Append an entry; its address is the position it was given.
    pub fn schedule(&mut self, item: ScheduledItem) -> (address: ScheduleAddress)
        ensures
            final(self)@ == old(self)@.push(Option::Some(item)),
            address == old(self)@.len(),
    {
        let address = self.agenda.len() as u64;
        self.agenda.push(Option::Some(item));
        address
    }

    /// Blank out the entry at `address`; out-of-range addresses are ignored,
    /// as the real service ignores a cancellation of an absent task.
    pub fn cancel(&mut self, address: ScheduleAddress)
        ensures
            final(self)@ == spec_cancel(old(self)@, address),
    {
        if address < self.agenda.len() as u64 {
            self.agenda.set(address as usize, Option::None);
        }
    }

    /// Read an entry; `None` for an out-of-range or cancelled address.
    pub fn get(&self, address: ScheduleAddress) -> (r: Option<ScheduledItem>)
        ensures
            r == (if address < self@.len() {
                self@[address as int]
            } else {
                Option::<ScheduledItem>::None
            }),
    {
        if address < self.agenda.len() as u64 {
            self.agenda[address as usize]
        } else {
            Option::None
        }
    }
}

} // verus!
