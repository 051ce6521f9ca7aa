//! Identifiers of firmware interfaces.

use vstd::prelude::*;

verus! {

/// A 128-bit identifier of a protocol, in the firmware's field order.
#[derive(Clone, Copy, Debug)]
pub struct Guid(pub u32, pub u16, pub u16, pub [u8; 8]);

} // verus!
