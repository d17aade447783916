//! Classification of a delivery attempt's result and the acknowledgment
//! decision it drives.
//!
//! A delivery attempt either fails at the transport (no response at all) or
//! yields an HTTP status code. The status is classified into a
//! [`DeliveryOutcome`], and a pure decision function maps the outcome together
//! with the queue's receive count onto an [`AckAction`]: acknowledge (delete
//! from the queue) or leave the message for the queue's own redelivery.

use vstd::prelude::*;

verus! {

/// The result of one delivery attempt, as far as the ack decision cares.
#[derive(Clone, Copy, Debug, PartialEq, Eq, Structural)]
pub enum DeliveryOutcome {
    /// A response with a 2xx status.
    Success(u16),
    /// A response with a 4xx status.
    ClientError(u16),
    /// A response with a 5xx status, or any status outside 2xx/4xx/5xx,
    /// which is retried just as conservatively.
    ServerError(u16),
    /// No response: the endpoint was unreachable or timed out.
    NetworkFailure,
}

/// What the relay does with the queue message after a delivery attempt.
#[derive(Clone, Copy, Debug, PartialEq, Eq, Structural)]
pub enum AckAction {
    /// Delete the message from the queue: it is consumed.
    Acknowledge,
    /// Do nothing: the queue's visibility timeout will make the message
    /// visible again, which is the only retry mechanism the relay uses.
    Leave,
}

/// How a delivery attempt's result is classified: no response is a network
/// failure; 2xx is success; 4xx a client error; everything else, 5xx
/// included, is treated as a server error and so retried.
pub open spec fn spec_classify(status: Option<u16>) -> DeliveryOutcome {
    match status {
        Option::None => DeliveryOutcome::NetworkFailure,
        Option::Some(s) => if 200 <= s < 300 {
            DeliveryOutcome::Success(s)
        } else if 400 <= s < 500 {
            DeliveryOutcome::ClientError(s)
        } else {
            DeliveryOutcome::ServerError(s)
        },
    }
}

/// Classify one delivery attempt's result. `None` stands for a transport
/// failure; `Some(s)` for a response with status `s`.
pub fn classify_response(status: Option<u16>) -> (outcome: DeliveryOutcome)
    ensures
        outcome == spec_classify(status),
{
    match status {
        None => DeliveryOutcome::NetworkFailure,
        Some(s) => {
            if 200 <= s && s < 300 {
                DeliveryOutcome::Success(s)
            } else if 400 <= s && s < 500 {
                DeliveryOutcome::ClientError(s)
            } else {
                DeliveryOutcome::ServerError(s)
            }
        },
    }
}

/// The ack decision matrix, a pure function of the outcome and the queue's
/// receive count:
/// - success: acknowledge;
/// - 404: acknowledge and drop (a missing endpoint is not transient);
/// - any other 4xx on the first receive: leave, so the queue redelivers
///   exactly once;
/// - any other 4xx on a redelivery: acknowledge and drop;
/// - server errors and network failures: leave, the queue redelivers.
pub open spec fn spec_decide_ack(outcome: DeliveryOutcome, receive_count: u32) -> AckAction {
    match outcome {
        DeliveryOutcome::Success(_) => AckAction::Acknowledge,
        DeliveryOutcome::ClientError(s) => if s == 404 {
            AckAction::Acknowledge
        } else if receive_count == 1 {
            AckAction::Leave
        } else {
            AckAction::Acknowledge
        },
        DeliveryOutcome::ServerError(_) => AckAction::Leave,
        DeliveryOutcome::NetworkFailure => AckAction::Leave,
    }
}

/// Decide whether to acknowledge the message after a delivery attempt.
pub fn decide_ack(outcome: DeliveryOutcome, receive_count: u32) -> (action: AckAction)
    ensures
        action == spec_decide_ack(outcome, receive_count),
{
    match outcome {
        DeliveryOutcome::Success(_) => AckAction::Acknowledge,
        DeliveryOutcome::ClientError(s) => {
            if s == 404 {
                AckAction::Acknowledge
            } else if receive_count == 1 {
                AckAction::Leave
            } else {
                AckAction::Acknowledge
            }
        },
        DeliveryOutcome::ServerError(_) => AckAction::Leave,
        DeliveryOutcome::NetworkFailure => AckAction::Leave,
    }
}

/// Classify a delivery attempt's result and decide the acknowledgment in
/// one step, as the relay loop consumes it.
pub fn delivery_action(status: Option<u16>, receive_count: u32) -> (action: AckAction)
    ensures
        action == spec_decide_ack(spec_classify(status), receive_count),
{
    decide_ack(classify_response(status), receive_count)
}

/// The ack decision is a function of the status class and the receive count
/// alone, row by row of the matrix: success and 404 always acknowledge; a 4xx
/// other than 404 acknowledges exactly when the message has been received
/// more than once; 5xx, out-of-range statuses and transport failures always
/// leave the message to the queue.
pub proof fn lemma_ack_matrix(status: Option<u16>, receive_count: u32)
    ensures
        (match status {
            Option::Some(s) => 200 <= s < 300 ==> spec_decide_ack(
                spec_classify(status),
                receive_count,
            ) == AckAction::Acknowledge,
            Option::None => true,
        }),
        status == Option::Some(404u16) ==> spec_decide_ack(spec_classify(status), receive_count)
            == AckAction::Acknowledge,
        (match status {
            Option::Some(s) => (400 <= s < 500 && s != 404) ==> spec_decide_ack(
                spec_classify(status),
                receive_count,
            ) == (if receive_count == 1 {
                AckAction::Leave
            } else {
                AckAction::Acknowledge
            }),
            Option::None => true,
        }),
        (match status {
            Option::Some(s) => (s < 200 || (300 <= s < 400) || 500 <= s) ==> spec_decide_ack(
                spec_classify(status),
                receive_count,
            ) == AckAction::Leave,
            Option::None => spec_decide_ack(spec_classify(status), receive_count)
                == AckAction::Leave,
        }),
{
}

} // verus!
