//! Memory-management definitions: address types, page constants and the
//! permission flags attached to a mapping.

pub mod page_table;
pub mod pte;

use vstd::prelude::*;

verus! {

/// Size in bytes of a translation granule (one page).
pub const PAGE_SIZE: u64 = 0x1000;

/// Guest virtual address.
pub type GuestVirtAddr = u64;
/// Guest physical address.
pub type GuestPhysAddr = u64;
/// Host virtual address.
pub type HostVirtAddr = u64;
/// Host physical address.
pub type HostPhysAddr = u64;

/// Bit for a readable region.
pub const FLAG_READ: u64 = 1;
/// Bit for a writable region.
pub const FLAG_WRITE: u64 = 2;
/// Bit for an executable region.
pub const FLAG_EXECUTE: u64 = 4;
/// Bit for a device-memory region.
pub const FLAG_DEVICE: u64 = 8;
/// Bit for a user-accessible region.
pub const FLAG_USER: u64 = 16;
/// Mask of all defined permission bits.
pub const FLAG_MASK: u64 = 0x1f;

/// Permission and type of a guest physical memory region: a bit-set over
/// readable, writable, executable, device-memory and user-accessible.
#[derive(Clone, Copy, Debug, PartialEq, Eq, Structural)]
pub struct MemFlags {
    pub(crate) bits: u64,
}

impl MemFlags {
    /// Every flags value holds only the five defined permission bits.
    #[verifier::type_invariant]
    pub(crate) open spec fn inv(self) -> bool {
        self.bits & !FLAG_MASK == 0
    }

    /// The raw bit representation of this flag set.
    pub closed spec fn spec_bits(self) -> u64 {
        self.bits
    }

    /// Returns the raw bit representation.
    #[verifier::when_used_as_spec(spec_bits)]
    pub fn bits(self) -> (r: u64)
        ensures
            r == self.spec_bits(),
    {
        self.bits
    }

    /// Builds a flag set from raw bits, dropping any undefined bit.
    pub fn from_bits_truncate(bits: u64) -> (r: Self)
        ensures
            r.spec_bits() == bits & FLAG_MASK,
    {
        proof {
            assert((bits & 0x1fu64) & !0x1fu64 == 0) by (bit_vector);
        }
        MemFlags { bits: bits & FLAG_MASK }
    }

    /// The empty flag set.
    pub fn empty() -> (r: Self)
        ensures
            r.spec_bits() == 0,
    {
        proof {
            assert(0u64 & !0x1fu64 == 0) by (bit_vector);
        }
        MemFlags { bits: 0 }
    }

    /// The set holding exactly the readable bit.
    pub fn read() -> (r: Self)
        ensures
            r.spec_bits() == FLAG_READ,
    {
        proof {
            assert(1u64 & !0x1fu64 == 0) by (bit_vector);
        }
        MemFlags { bits: FLAG_READ }
    }

    /// The set holding exactly the writable bit.
    pub fn write() -> (r: Self)
        ensures
            r.spec_bits() == FLAG_WRITE,
    {
        proof {
            assert(2u64 & !0x1fu64 == 0) by (bit_vector);
        }
        MemFlags { bits: FLAG_WRITE }
    }

    /// The set holding exactly the executable bit.
    pub fn execute() -> (r: Self)
        ensures
            r.spec_bits() == FLAG_EXECUTE,
    {
        proof {
            assert(4u64 & !0x1fu64 == 0) by (bit_vector);
        }
        MemFlags { bits: FLAG_EXECUTE }
    }

    /// The set holding exactly the device-memory bit.
    pub fn device() -> (r: Self)
        ensures
            r.spec_bits() == FLAG_DEVICE,
    {
        proof {
            assert(8u64 & !0x1fu64 == 0) by (bit_vector);
        }
        MemFlags { bits: FLAG_DEVICE }
    }

    /// The set holding exactly the user-accessible bit.
    pub fn user() -> (r: Self)
        ensures
            r.spec_bits() == FLAG_USER,
    {
        proof {
            assert(16u64 & !0x1fu64 == 0) by (bit_vector);
        }
        MemFlags { bits: FLAG_USER }
    }

    /// The union of two flag sets.
    pub fn union(self, other: Self) -> (r: Self)
        ensures
            r.spec_bits() == self.spec_bits() | other.spec_bits(),
    {
        proof {
            use_type_invariant(self);
            use_type_invariant(other);
            let a = self.bits;
            let b = other.bits;
            assert(a & !0x1fu64 == 0 && b & !0x1fu64 == 0 ==> (a | b) & !0x1fu64 == 0)
                by (bit_vector);
        }
        MemFlags { bits: self.bits | other.bits }
    }

    /// Whether every bit of `other` is also set in `self`.
    pub fn contains(self, other: Self) -> (r: bool)
        ensures
            r == (self.spec_bits() | other.spec_bits() == self.spec_bits()),
    {
        self.bits | other.bits == self.bits
    }
}

} // verus!
