//! A mathematical model of the queue collaborator, as far as the relay's
//! acknowledgment behaviour touches it: the pending messages keyed by their
//! acknowledgment token, an acknowledgment removing one of them, and leaving
//! a message being the pure absence of action.

use vstd::prelude::*;
use crate::ack::AckAction;

verus! {

/// The queue after the relay's action on one receipt: an acknowledgment
/// removes the message the receipt stands for (a removal the queue also
/// performs silently when the receipt has already been used or expired);
/// leaving issues no call at all.
pub open spec fn spec_queue_after_action<V>(
    q: Map<Seq<char>, V>,
    receipt: Seq<char>,
    action: AckAction,
) -> Map<Seq<char>, V> {
    match action {
        AckAction::Acknowledge => q.remove(receipt),
        AckAction::Leave => q,
    }
}

/// Acknowledging is idempotent: acknowledging a message that an earlier
/// acknowledgment already removed changes nothing, so a failed delete on an
/// already-consumed receipt is a no-op from the system's perspective.
pub proof fn lemma_ack_idempotent<V>(q: Map<Seq<char>, V>, receipt: Seq<char>)
    ensures
        spec_queue_after_action(
            spec_queue_after_action(q, receipt, AckAction::Acknowledge),
            receipt,
            AckAction::Acknowledge,
        ) == spec_queue_after_action(q, receipt, AckAction::Acknowledge),
{
    assert(q.remove(receipt).remove(receipt) =~= q.remove(receipt));
}

/// Acknowledging a message that is no longer pending leaves the queue as it
/// is.
pub proof fn lemma_ack_absent_noop<V>(q: Map<Seq<char>, V>, receipt: Seq<char>)
    requires
        !q.dom().contains(receipt),
    ensures
        spec_queue_after_action(q, receipt, AckAction::Acknowledge) == q,
{
    assert(q.remove(receipt) =~= q);
}

/// Leaving a message unacknowledged issues no call: the queue is untouched,
/// and only its own visibility timeout makes the message visible again.
pub proof fn lemma_leave_noop<V>(q: Map<Seq<char>, V>, receipt: Seq<char>)
    ensures
        spec_queue_after_action(q, receipt, AckAction::Leave) == q,
{
}

} // verus!
