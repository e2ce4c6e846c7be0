//! A verified email-client session engine.
//!
//! The crate owns the logic of a single-user mail session: deriving the
//! SMTP/IMAP host pair from a user's address, serializing actions against
//! one logical connection, paging through a mailbox without re-delivering
//! messages, decoding RFC822 payloads into structured records, caching
//! detail lookups, and resolving attachment filename collisions.
//! Network and file I/O are driven by a thin outer layer that feeds
//! transport results back into the verified state machine.

pub mod address;
pub mod codec;
pub mod compose;
pub mod errors;
pub mod persist;
pub mod session;
pub mod store;
pub mod text;
