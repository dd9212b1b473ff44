//! Core of a trainer package manager: file-name sanitising, payload sniffing,
//! archive entry planning, the transfer registry and the decisions taken
//! while a download streams, the acquisition pipeline, the rules of the
//! persistent store, and reading trainers out of catalog pages.
use vstd::prelude::*;

pub mod text;
pub mod sanitize;
pub mod clock;
pub mod error;
pub mod model;
pub mod sniff;
pub mod transfer;
pub mod acquire;
pub mod store;
pub mod extract;
pub mod logger;
pub mod catalog;

verus! {

} // verus!
