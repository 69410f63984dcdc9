//! Interface flags.
use vstd::prelude::*;

verus! {

/// The interface is up (`IFF_UP` of `net/if.h`).
pub const IFF_UP: u32 = 0x1;

/// The flags of an interface, as the bit set of `net/if.h`.
#[derive(PartialEq, Eq, Structural, Debug, Clone, Copy, Hash)]
pub struct InterfaceFlags {
    pub bits: u32,
}

} // verus!
