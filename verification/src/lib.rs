//! A minimal block-producing collator for a secondary chain.
//!
//! The library is split into the deterministic state-transition function
//! and its data types ([`pvf`]), the store that maps each header to the
//! state value behind it ([`store`]), the per-round production and
//! confirmation logic ([`collation`]), and the node's command-line surface
//! as plain data ([`cli`]).

pub mod cli;
pub mod collation;
pub mod pvf;
pub mod store;
