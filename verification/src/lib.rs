//! Client-side HTTP building blocks, verified with Verus.
//!
//! The core is the dispatch channel ([`dispatch`]): the hand-off primitive
//! between callers holding requests and the per-connection driver task,
//! with demand-gated admission control, exactly-once result delivery, and
//! deterministic cancellation on every teardown path. Around it stand the
//! `Link` header with a verified parser and serializer ([`link`]), and the
//! library's HTTP error set ([`error`]).

pub mod dispatch;
pub mod error;
pub mod link;

use vstd::prelude::*;

verus! {

/// Compile-time marker that a handle type may cross threads.
pub fn _assert_send<T: Send>() {
}

} // verus!
