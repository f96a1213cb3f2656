//! A wallet ledger for a replicated key/value state store.
//!
//! An instruction arrives as a line of comma-separated text together with the
//! identity of its signer. It is decoded into a [`payload::SwPayload`], the
//! accounts it names are mapped to storage addresses, and the matching ledger
//! operation reads and writes balances in a [`state::SwState`].
pub mod address;
pub mod error;
pub mod handler;
pub mod ledger;
pub mod number;
pub mod payload;
pub mod state;
pub mod text;

