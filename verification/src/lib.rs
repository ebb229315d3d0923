//! A small service core for a media-effect queue: it hands out random route
//! tokens, plans the external fetch/filter subprocess invocations, keeps an
//! in-memory store of job results keyed by route, and decides every HTTP
//! response shape, so that the unverified shell around it only moves bytes.

pub mod base64;
pub mod errors;
pub mod http;
pub mod job;
pub mod store;
mod strutil;
pub mod token;

use vstd::prelude::*;

verus! {

} // verus!
