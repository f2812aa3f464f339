//! An HTTP file-serving endpoint's request logic: path resolution under a
//! root, the auth guard, the request dispatch table, conditional-GET
//! validators, listing entries and their order, and archive/upload planning.
use vstd::prelude::*;

pub mod archive;
pub mod auth;
pub mod cache;
pub mod dispatch;
pub mod listing;
pub mod pathres;
pub mod service;

verus! {

} // verus!
