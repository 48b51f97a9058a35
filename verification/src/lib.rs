//! QuorumCredit: a social-trust microlending protocol.
//!
//! Borrowers obtain loans backed by stakes that vouchers lock on their
//! behalf.  This crate holds the protocol's rules as verified state
//! transitions: the contract's storage is modelled by
//! [`contract::QuorumCreditContract`], auctions of defaulted collateral by
//! [`auction::AuctionBook`], monitoring counters by [`metrics`], and the
//! off-chain webhook registry by [`webhook::WebhookManager`].  Token
//! transfers and events that an operation causes are queued as effects for
//! the host to carry out.

pub mod errors;
pub mod types;
pub mod stake;
pub mod contract;
pub mod helpers;
pub mod lending;
pub mod auction;
pub mod webhook;
pub mod vouching;
pub mod openapi;
pub mod metrics;
pub mod search;
pub mod laws;
