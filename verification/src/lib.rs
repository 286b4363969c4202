//! Verified core of a two-player networked chess session.
//!
//! Two endpoints exchange fixed-length frames over a reliable stream and
//! each re-validates every move of the other against its own rules
//! engine. The crate holds the wire codec, the move and fingerprint
//! encodings, and the session state machine; transport and rendering
//! stay outside, feeding the session plain events and carrying out the
//! actions it returns.

pub mod board;
pub mod codec;
pub mod coords;
pub mod session;
