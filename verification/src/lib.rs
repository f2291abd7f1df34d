//! Legal Officer Cases (LOCs): authenticated records binding a requester, a
//! legal officer and a typed set of evidentiary items through a lifecycle of
//! creation, item submission and acknowledgement, closing and voiding, with
//! per-operation fee computation against an in-memory ledger.

pub mod data;
pub mod store;
pub mod fees;
pub mod state;
pub mod lifecycle;
pub mod create;
pub mod items;
pub mod sponsorship;
pub mod issuer;
pub mod collection;
pub mod queries;
pub mod laws;
