//! An authenticating gate in front of the pin operations of a
//! content-pinning service.
//!
//! A client proves control of a chain account by a detached signature over
//! its address and the content identifier, and the account must hold a
//! minimum balance. This crate holds the decisions: which requests are let
//! through, why the others are denied, and what is answered. Listening,
//! asking the chain and talking to the backend are left to whoever drives
//! [`gateway::proxy`].

pub mod codec;
pub mod gateway;
pub mod laws;
pub mod policy;
pub mod polkadot;
pub mod query;
pub mod reason;
pub mod reply;
pub mod text;
