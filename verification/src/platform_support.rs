//! Platform capability queries.

use vstd::prelude::*;

verus! {

/// Whether the platform's rendering backend can run the game's shaders.
/// Native targets always can; only a browser build would have to consult
/// the navigator for its graphics interface, and this crate is built for
/// native targets.
pub fn is_webgpu_or_native() -> (r: bool)
    ensures
        r,
{
    true
}

} // verus!
