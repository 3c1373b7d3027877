//! Message-identity and delivery-state core of an email-transported
//! messaging engine.
//!
//! The library maintains a per-message state machine driven by unordered,
//! duplicate-prone signals (user actions, inbound mail, read receipts), a
//! quorum algorithm that decides when a group message counts as read by
//! all, an idempotent evidence store for read receipts, a tombstone-based
//! deletion pipeline, and summary derivation for chat list previews.
//!
//! Persistence, transport, cryptography and task scheduling are external
//! collaborators: they are modelled here at their interface boundary by the
//! in-memory [`context::Context`], whose tables mirror the persisted layout
//! (individual statements atomic, multi-statement sequences not).

pub mod chat;
pub mod constants;
pub mod contact;
pub mod context;
pub mod delete;
pub mod error;
pub mod events;
pub mod headerdef;
pub mod info;
pub mod job;
pub mod lot;
pub mod mdn;
pub mod message;
pub mod msgid;
pub mod param;
pub mod state;
pub mod stock;
pub mod summary;
pub mod tools;
