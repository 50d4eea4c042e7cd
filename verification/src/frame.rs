//! Stack-frame resolution stage marker.
//!
//! Frame resolution itself runs in the host's pipeline against its symbol
//! stores; the resolver is stateless, so the crate carries only its marker
//! type.

use vstd::prelude::*;

verus! {

/// The stateless operator that resolves raw stack frames against debug
/// symbols.
#[derive(Debug, Clone, Copy, PartialEq, Eq, Structural)]
pub struct FrameResolver;

impl Default for FrameResolver {
    fn default() -> (r: Self)
        ensures
            r == FrameResolver,
    {
        FrameResolver
    }
}

} // verus!
