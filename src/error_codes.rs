//! Status codes of the error envelope.
use vstd::prelude::*;

verus! {

/// A request that the client can correct.
pub const BAD_REQUEST: u16 = 400;

/// An unknown module, device or session group.
pub const NOT_FOUND: u16 = 404;

/// A failure of the backend or of the server itself.
pub const INTERNAL_ERROR: u16 = 500;

} // verus!
