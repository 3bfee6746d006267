//! Core of a small file-drop web service: the decisions taken while a
//! multipart upload is consumed, the summary of what was stored, and the
//! rendering of that summary into the home page.
use vstd::prelude::*;

pub mod markup;
pub mod page;
pub mod session;
pub mod summary;

verus! {

/// The largest request body accepted when no other limit is configured:
/// 250 MiB.
pub const DEFAULT_REQUEST_BODY_LIMIT: usize = 250 * 1024 * 1024;

} // verus!
