//! Single-slot, latest-wins handoff from the analysis path to a consumer.
//!
//! The slot starts empty, is overwritten whole by every `publish`, and is
//! read without being cleared by `poll`: repeated polls between publishes
//! observe the same value. This type captures the slot's sequential
//! semantics; a caller that shares it across threads wraps it in a
//! non-blocking lock and simply skips a `publish` or `poll` whose
//! acquisition fails, which is the documented drop-on-contention
//! behaviour.

use crate::result::FrequencyData;
use vstd::prelude::*;

verus! {

/// What a `publish` leaves in the slot: the new result, whatever was
/// there before.
pub open spec fn publish_model(
    slot: Option<FrequencyData>,
    r: FrequencyData,
) -> Option<FrequencyData> {
    Some(r)
}

/// What a `poll` returns: the slot content, which it does not clear.
pub open spec fn poll_model(slot: Option<FrequencyData>) -> Option<FrequencyData> {
    slot
}

/// The single-slot mailbox.
pub struct ResultMailbox {
    slot: Option<FrequencyData>,
}

impl ResultMailbox {
    /// The current slot content, as contracts speak of it.
    pub closed spec fn slot(self) -> Option<FrequencyData> {
        self.slot
    }

    /// An empty mailbox: nothing has been published yet.
    pub fn new() -> (m: ResultMailbox)
        ensures
            m.slot() == Option::<FrequencyData>::None,
    {
        ResultMailbox { slot: None }
    }

    /// Overwrite the slot with the newest result.
    pub fn publish(&mut self, r: FrequencyData)
        ensures
            final(self).slot() == publish_model(old(self).slot(), r),
    {
        self.slot = Some(r);
    }

    /// Read the slot without clearing it.
    pub fn poll(&self) -> (r: Option<FrequencyData>)
        ensures
            r == poll_model(self.slot()),
    {
        self.slot
    }
}

/// Latest-wins law: publishing `a` and then `b` leaves `b` in the slot,
/// whatever was there before, so a poll after the two returns `b`, never
/// `a`. Polling is read-only (`poll` borrows the mailbox immutably), so
/// repeated polls without an intervening publish keep returning `b`.
pub proof fn lemma_mailbox_latest_wins(
    slot: Option<FrequencyData>,
    a: FrequencyData,
    b: FrequencyData,
)
    ensures
        poll_model(publish_model(publish_model(slot, a), b)) == Some(b),
{
}

} // verus!
