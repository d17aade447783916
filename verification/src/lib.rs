//! A relay from a durable at-least-once message queue to a single local HTTP
//! endpoint.
//!
//! The library holds the delivery state machine: how a received queue message
//! is turned into an outbound HTTP request (body bytes, lowercase headers,
//! derived client IP), how the endpoint's response is classified, and how the
//! classification together with the queue's receive count decides whether the
//! message is acknowledged (deleted) or left for the queue's own redelivery.
//! The queue and HTTP collaborators themselves are driven by a thin runtime
//! shell outside this crate.

pub mod ack;
pub mod codec;
pub mod headers;
pub mod ip;
pub mod poll;
pub mod queue_model;
pub mod request;
pub mod summary;
pub mod text;
