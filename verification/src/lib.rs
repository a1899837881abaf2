//! A minimal event-notification core: callers register interest in socket
//! readiness (or issue asynchronous reads on the completion backend) and
//! retrieve bounded batches of (token, outcome) records.
//!
//! The kernel side of each backend — the event queue a readiness selector
//! owns, the completion port behind the completion selector — is modelled as
//! owned state inside the selector: a table of armed watches and a queue of
//! delivered records. What the kernel would report arrives through explicit
//! notification functions, so every rule of the core (interest validation,
//! one-shot delivery, bounded batches, operation-context lifetime) is stated
//! in contracts and proved.

pub mod completion;
pub mod errors;
pub mod events;
pub mod ids;
pub mod interests;
pub mod readiness;
