//! A reference page-table-entry encoding for the generic engine: one 64-bit
//! word holding a present bit, a huge bit, the five permission bits and a
//! 4 KiB-aligned physical address. Real targets plug in their own encoding
//! through [`GenericPTE`]; this one exercises the engine and its tests.

use vstd::prelude::*;

use crate::mm::page_table::GenericPTE;
use crate::mm::{HostPhysAddr, MemFlags};

verus! {

/// Bit marking an entry as present.
pub const PTE_PRESENT: u64 = 1;
/// Bit marking an entry as a huge-frame mapping.
pub const PTE_HUGE: u64 = 2;
/// First bit of the permission-flag field.
pub const PTE_FLAGS_SHIFT: u64 = 2;
/// Mask of the physical-address field: bits 12..48.
pub const PTE_ADDR_MASK: u64 = 0xffff_ffff_f000;

/// A packed 64-bit page-table entry: bit 0 present, bit 1 huge, bits 2..7
/// the permission flags, bits 12..48 the physical address.
#[derive(Clone, Copy, Debug, PartialEq, Eq, Structural)]
pub struct SimplePte {
    bits: u64,
}

impl SimplePte {
    /// The raw 64-bit encoding.
    pub closed spec fn spec_bits(self) -> u64 {
        self.bits
    }

    /// Returns the raw 64-bit encoding.
    #[verifier::when_used_as_spec(spec_bits)]
    pub fn bits(self) -> (r: u64)
        ensures
            r == self.spec_bits(),
    {
        self.bits
    }
}

impl GenericPTE for SimplePte {
    closed spec fn spec_paddr(self) -> HostPhysAddr {
        self.bits & PTE_ADDR_MASK
    }

    closed spec fn spec_flags(self) -> MemFlags {
        MemFlags { bits: (self.bits >> PTE_FLAGS_SHIFT) & 0x1f }
    }

    closed spec fn spec_present(self) -> bool {
        self.bits & PTE_PRESENT == PTE_PRESENT
    }

    closed spec fn spec_huge(self) -> bool {
        self.bits & PTE_HUGE == PTE_HUGE
    }

    closed spec fn spec_unused(self) -> bool {
        self.bits == 0
    }

    fn new_page(paddr: HostPhysAddr, flags: MemFlags, is_huge: bool) -> (r: Self) {
        let huge_bit: u64 = if is_huge {
            PTE_HUGE
        } else {
            0
        };
        let bits: u64 = paddr | (flags.bits() << 2) | huge_bit | PTE_PRESENT;
        proof {
            use_type_invariant(flags);
            let pa = paddr;
            let fb = flags.bits;
            let hb = huge_bit;
            assert(pa % 0x1000 == 0 && pa < 0x1_0000_0000_0000 && fb & !0x1f == 0 && (hb == 0 || hb
                == 2) ==> {
                let b = pa | (fb << 2) | hb | 1u64;
                &&& b & 0xffff_ffff_f000 == pa
                &&& (b >> 2) & 0x1f == fb
                &&& b & 1 == 1
                &&& (b & 2 == 2) == (hb == 2)
                &&& b != 0
            }) by (bit_vector);
        }
        SimplePte { bits }
    }

    fn new_table(paddr: HostPhysAddr) -> (r: Self) {
        let bits: u64 = paddr | PTE_PRESENT;
        proof {
            let pa = paddr;
            assert(pa % 0x1000 == 0 && pa < 0x1_0000_0000_0000 ==> {
                let b = pa | 1u64;
                &&& b & 0xffff_ffff_f000 == pa
                &&& b & 1 == 1
                &&& b & 2 != 2
                &&& b != 0
            }) by (bit_vector);
        }
        SimplePte { bits }
    }

    fn paddr(&self) -> (r: HostPhysAddr) {
        self.bits & PTE_ADDR_MASK
    }

    fn flags(&self) -> (r: MemFlags) {
        proof {
            let b = self.bits;
            assert(((b >> 2) & 0x1f) & !0x1f == 0) by (bit_vector);
        }
        MemFlags { bits: (self.bits >> PTE_FLAGS_SHIFT) & 0x1f }
    }

    fn is_unused(&self) -> (r: bool) {
        self.bits == 0
    }

    fn is_present(&self) -> (r: bool) {
        self.bits & PTE_PRESENT == PTE_PRESENT
    }

    fn is_huge(&self) -> (r: bool) {
        self.bits & PTE_HUGE == PTE_HUGE
    }

    fn clear(&mut self) {
        self.bits = 0;
    }
}

} // verus!
