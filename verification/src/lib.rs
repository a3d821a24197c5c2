//! A synchronized task store: a small "Actual" focus list with a bounded
//! capacity, an unbounded "Backlog", and the rules that keep both consistent
//! across a local snapshot and a cloud copy.
//!
//! - [`reminder`]: the task record.
//! - [`storage`]: the store and its commands, the bounded-list policy, the
//!   merge of two copies, the migration from the older format, the
//!   persistence protocol and the cloud session.
//! - [`clock`]: points in time, read and written by `chrono`.
//! - [`urlencoding`], [`text`]: percent-encoding, and text in general.
//! - [`error`], [`config`], [`updater`]: errors, constants, and the
//!   comparison of release versions.
//!
//! Every function in this crate is verified against the contract it states.
//! The few places where the crate relies on code it cannot see are marked
//! `external_body`, and each says what it takes on trust. Files, sockets and
//! requests are the caller's business: where a command leaves something to
//! write or to send, it says so in its result.

pub mod clock;
pub mod config;
pub mod error;
pub mod reminder;
pub mod storage;
pub mod text;
pub mod updater;
pub mod urlencoding;
