//! A generic 4-level page table: a radix tree over a pluggable entry
//! encoding, mapping guest-physical to host-physical addresses.
//!
//! The table owns the root frame and every intermediate frame it has
//! allocated, kept in one ordered collection so that teardown releases them
//! deterministically. Frames are provisioned sequentially: the frame pushed
//! at position `i` models a zeroed physical page at `FRAME_BASE + i *
//! PAGE_SIZE`. The abstract state of a table is a finite map from
//! page-aligned guest-physical addresses to `(host-physical base, flags)`
//! pairs, and every operation's contract is stated against that map.

use vstd::prelude::*;

use crate::error::{RvmError, RvmResult};
use crate::mm::{GuestPhysAddr, HostPhysAddr, MemFlags, PAGE_SIZE};

verus! {

/// Number of translation levels.
pub const LEVELS: usize = 4;
/// Entries per table frame: 9 index bits per level.
pub const ENTRY_COUNT: u64 = 512;
/// Size of the translated address space: 4 levels of 9 bits over 4 KiB pages.
pub const ADDR_SPACE_SIZE: u64 = 0x1_0000_0000_0000;
/// Physical address modeled for the root frame; the frame allocated at
/// position `i` of the owned collection sits at `FRAME_BASE + i * PAGE_SIZE`.
pub const FRAME_BASE: u64 = 0x100_0000;
/// Most frames a table may own, so that every modeled frame address fits
/// comfortably below `ADDR_SPACE_SIZE`.
pub const MAX_FRAMES: u64 = 0x10_0000;

/// Index into the level-4 (root) table: bits 39..48 of the address.
pub fn p4_index(vaddr: GuestPhysAddr) -> (r: u64)
    ensures
        r == spec_index_of(vaddr, 0),
        r < 512,
{
    proof {
        assert((vaddr >> 39) & 0x1ff < 512) by (bit_vector);
    }
    (vaddr >> 39) & (ENTRY_COUNT - 1)
}

/// Index into the level-3 table: bits 30..39 of the address.
pub fn p3_index(vaddr: GuestPhysAddr) -> (r: u64)
    ensures
        r == spec_index_of(vaddr, 1),
        r < 512,
{
    proof {
        assert((vaddr >> 30) & 0x1ff < 512) by (bit_vector);
    }
    (vaddr >> 30) & (ENTRY_COUNT - 1)
}

/// Index into the level-2 table: bits 21..30 of the address.
pub fn p2_index(vaddr: GuestPhysAddr) -> (r: u64)
    ensures
        r == spec_index_of(vaddr, 2),
        r < 512,
{
    proof {
        assert((vaddr >> 21) & 0x1ff < 512) by (bit_vector);
    }
    (vaddr >> 21) & (ENTRY_COUNT - 1)
}

/// Index into the level-1 (leaf) table: bits 12..21 of the address.
pub fn p1_index(vaddr: GuestPhysAddr) -> (r: u64)
    ensures
        r == spec_index_of(vaddr, 3),
        r < 512,
{
    proof {
        assert((vaddr >> 12) & 0x1ff < 512) by (bit_vector);
    }
    (vaddr >> 12) & (ENTRY_COUNT - 1)
}

/// The 9-bit table index of `vaddr` at translation level `level`; level 0 is
/// the root.
pub open spec fn spec_index_of(vaddr: u64, level: int) -> u64 {
    if level == 0 {
        (vaddr >> 39) & 0x1ff
    } else if level == 1 {
        (vaddr >> 30) & 0x1ff
    } else if level == 2 {
        (vaddr >> 21) & 0x1ff
    } else {
        (vaddr >> 12) & 0x1ff
    }
}

/// The page base of `addr`: the address with its low 12 bits cleared.
pub open spec fn spec_align_down(addr: u64) -> u64 {
    addr & 0xffff_ffff_ffff_f000
}

/// The in-page offset of `addr`: its low 12 bits.
pub open spec fn spec_page_offset(addr: u64) -> u64 {
    addr & 0xfff
}

/// Rounds an address down to its page base.
pub fn align_down(addr: u64) -> (r: u64)
    ensures
        r == spec_align_down(addr),
        r % PAGE_SIZE == 0,
        r <= addr,
        addr < ADDR_SPACE_SIZE ==> r < ADDR_SPACE_SIZE,
{
    proof {
        assert((addr & !0xfffu64) == (addr & 0xffff_ffff_ffff_f000u64)) by (bit_vector);
        assert((addr & 0xffff_ffff_ffff_f000u64) % 0x1000 == 0) by (bit_vector);
        assert((addr & 0xffff_ffff_ffff_f000u64) <= addr) by (bit_vector);
        assert(addr < 0x1_0000_0000_0000u64 ==> (addr & 0xffff_ffff_ffff_f000u64)
            < 0x1_0000_0000_0000u64) by (bit_vector);
    }
    addr & !(PAGE_SIZE - 1)
}

/// The offset of an address within its page.
pub fn page_offset(addr: u64) -> (r: u64)
    ensures
        r == spec_page_offset(addr),
        r < PAGE_SIZE,
        r == addr - spec_align_down(addr),
{
    proof {
        assert((addr & 0xfffu64) < 0x1000) by (bit_vector);
        assert(addr == (addr & 0xffff_ffff_ffff_f000u64) + (addr & 0xfffu64)) by (bit_vector);
        assert((addr & !0xfffu64) == (addr & 0xffff_ffff_ffff_f000u64)) by (bit_vector);
    }
    addr & (PAGE_SIZE - 1)
}

/// The capability a concrete page-table-entry encoding must supply. An
/// implementation gives each entry value an abstract reading (address,
/// flags, present/huge/unused bits) and operations whose contracts are
/// stated against that reading; the radix-tree engine relies on nothing
/// else about the encoding.
pub trait GenericPTE: Clone + Copy + Sized {
    /// The physical address this entry maps or points at.
    spec fn spec_paddr(self) -> HostPhysAddr;

    /// The permission flags this entry carries.
    spec fn spec_flags(self) -> MemFlags;

    /// Whether the entry is marked present.
    spec fn spec_present(self) -> bool;

    /// Whether the entry maps a huge frame rather than a next-level table.
    spec fn spec_huge(self) -> bool;

    /// Whether the entry is zero.
    spec fn spec_unused(self) -> bool;

    /// Creates an entry mapping a terminal page at `paddr`.
    fn new_page(paddr: HostPhysAddr, flags: MemFlags, is_huge: bool) -> (r: Self)
        requires
            paddr % PAGE_SIZE == 0,
            paddr < ADDR_SPACE_SIZE,
        ensures
            r.spec_paddr() == paddr,
            r.spec_flags() == flags,
            r.spec_present(),
            r.spec_huge() == is_huge,
            !r.spec_unused(),
    ;

    /// Creates an entry pointing at a next-level table at `paddr`.
    fn new_table(paddr: HostPhysAddr) -> (r: Self)
        requires
            paddr % PAGE_SIZE == 0,
            paddr < ADDR_SPACE_SIZE,
        ensures
            r.spec_paddr() == paddr,
            r.spec_present(),
            !r.spec_huge(),
            !r.spec_unused(),
    ;

    /// Returns the physical address mapped by this entry.
    fn paddr(&self) -> (r: HostPhysAddr)
        ensures
            r == self.spec_paddr(),
    ;

    /// Returns the flags of this entry.
    fn flags(&self) -> (r: MemFlags)
        ensures
            r == self.spec_flags(),
    ;

    /// Returns whether this entry is zero.
    fn is_unused(&self) -> (r: bool)
        ensures
            r == self.spec_unused(),
    ;

    /// Returns whether this entry is marked present.
    fn is_present(&self) -> (r: bool)
        ensures
            r == self.spec_present(),
    ;

    /// Returns whether this entry maps a huge frame.
    fn is_huge(&self) -> (r: bool)
        ensures
            r == self.spec_huge(),
    ;

    /// Sets this entry to zero.
    fn clear(&mut self)
        ensures
            final(self).spec_unused(),
    ;
}

/// One line of a diagnostic table dump: a present entry's level, its index
/// within its frame, the base of the virtual-address range it covers, and
/// the raw entry.
pub struct DumpEntry<PTE: GenericPTE> {
    /// Translation level of the frame holding the entry; 0 is the root.
    pub level: usize,
    /// Index of the entry within its frame.
    pub index: u64,
    /// Base of the virtual-address range the entry covers.
    pub vaddr: GuestPhysAddr,
    /// The raw entry.
    pub pte: PTE,
}

/// A generic 4-level page table. The `entries` vector is the concatenation
/// of all owned 512-entry frames, root first; the ghost `paths` sequence
/// records, for each owned frame, the chain of table indices that reaches it
/// from the root, which is what makes the radix tree a tree: paths are
/// unique, so no frame is shared between two subtrees.
pub struct Level4PageTable<PTE: GenericPTE> {
    root_paddr: HostPhysAddr,
    entries: Vec<PTE>,
    paths: Ghost<Seq<Seq<int>>>,
}

impl<PTE: GenericPTE> Level4PageTable<PTE> {
    /// Number of frames this table owns.
    pub closed spec fn num_frames(self) -> int {
        self.entries@.len() as int / 512
    }

    /// The entry at index `j` of the frame at position `f`.
    closed spec fn entry_at(self, f: int, j: int) -> PTE {
        self.entries@[f * 512 + j]
    }

    /// The modeled physical address of the frame at position `f`.
    pub closed spec fn frame_addr(f: int) -> int {
        FRAME_BASE as int + f * (PAGE_SIZE as int)
    }

    /// A present, non-huge entry at `(f, j)` points at an owned frame whose
    /// recorded path extends frame `f`'s path by `j`.
    spec fn is_child(self, f: int, j: int, c: int) -> bool {
        &&& 0 <= c < self.num_frames()
        &&& self.paths@[c] == self.paths@[f].push(j)
        &&& self.entry_at(f, j).spec_paddr() == Self::frame_addr(c)
    }

    /// What holds of a non-zero entry of an intermediate frame: it is a
    /// present table pointer to exactly one owned child frame.
    spec fn interior_entry_ok(self, f: int, j: int) -> bool {
        &&& self.entry_at(f, j).spec_present()
        &&& !self.entry_at(f, j).spec_huge()
        &&& exists|c: int| self.is_child(f, j, c)
    }

    /// What holds of a non-zero entry of a leaf frame: a present terminal
    /// mapping to an aligned address inside the address space.
    spec fn leaf_entry_ok(self, f: int, j: int) -> bool {
        &&& self.entry_at(f, j).spec_present()
        &&& self.entry_at(f, j).spec_paddr() % PAGE_SIZE == 0
        &&& self.entry_at(f, j).spec_paddr() < ADDR_SPACE_SIZE
    }

    /// Every frame but the root is entered in its parent frame, at the last
    /// index of its path.
    spec fn parent_ok(self, c: int) -> bool {
        &&& self.paths@[c].len() >= 1
        &&& exists|p: int|
            {
                &&& 0 <= p < self.num_frames()
                &&& #[trigger] self.paths@[p] == self.paths@[c].drop_last()
                &&& !self.entry_at(p, self.paths@[c].last()).spec_unused()
                &&& self.entry_at(p, self.paths@[c].last()).spec_paddr() == Self::frame_addr(c)
            }
    }

    /// Well-formedness: the owned frames form a radix tree. Frame 0 is the
    /// root; every non-zero interior entry points at exactly one owned
    /// frame one level down; recorded paths are unique; every non-root
    /// frame is linked from its parent.
    pub closed spec fn wf(self) -> bool {
        &&& self.entries@.len() == self.num_frames() * 512
        &&& 1 <= self.num_frames() <= MAX_FRAMES
        &&& self.root_paddr == FRAME_BASE
        &&& self.paths@.len() == self.num_frames()
        &&& self.paths@[0] == Seq::<int>::empty()
        &&& forall|f: int| 0 <= f < self.num_frames() ==> (#[trigger] self.paths@[f]).len() <= 3
        &&& forall|f: int, k: int|
            0 <= f < self.num_frames() && 0 <= k < self.paths@[f].len() ==> 0 <= #[trigger] self.paths@[f][k] < 512
        &&& forall|f1: int, f2: int|
            0 <= f1 < self.num_frames() && 0 <= f2 < self.num_frames()
                && #[trigger] self.paths@[f1] == #[trigger] self.paths@[f2] ==> f1 == f2
        &&& forall|f: int, j: int|
            0 <= f < self.num_frames() && 0 <= j < 512 && self.paths@[f].len() < 3
                && !(#[trigger] self.entry_at(f, j)).spec_unused() ==> self.interior_entry_ok(f, j)
        &&& forall|f: int, j: int|
            0 <= f < self.num_frames() && 0 <= j < 512 && self.paths@[f].len() == 3
                && !(#[trigger] self.entry_at(f, j)).spec_unused() ==> self.leaf_entry_ok(f, j)
        &&& forall|c: int| 1 <= c < self.num_frames() ==> self.parent_ok(c)
    }

    /// The frame the walk for `vaddr` reaches at `level`, or -1 where the
    /// walk meets a zero entry first.
    pub closed spec fn frame_on_path(self, vaddr: u64, level: int) -> int
        decreases level,
    {
        if level <= 0 {
            0
        } else {
            let p = self.frame_on_path(vaddr, level - 1);
            if p < 0 {
                -1
            } else {
                let e = self.entry_at(p, spec_index_of(vaddr, level - 1) as int);
                if e.spec_unused() {
                    -1
                } else {
                    (e.spec_paddr() - FRAME_BASE) / (PAGE_SIZE as int)
                }
            }
        }
    }

    /// Whether the walk for `vaddr` reaches a leaf frame at all; `unmap`
    /// and `query` fail without one, and `update` re-installs only into an
    /// existing one.
    pub closed spec fn has_leaf(self, vaddr: u64) -> bool {
        self.frame_on_path(vaddr, 3) >= 0
    }

    /// The leaf entry the walk for `vaddr` ends at.
    spec fn leaf_pte(self, vaddr: u64) -> PTE {
        self.entry_at(self.frame_on_path(vaddr, 3), spec_index_of(vaddr, 3) as int)
    }

    /// Whether `vaddr`'s page is mapped.
    pub closed spec fn is_mapped(self, vaddr: u64) -> bool {
        self.has_leaf(vaddr) && !self.leaf_pte(vaddr).spec_unused()
    }
}

/// Index extraction reversed: for any address inside the translated space,
/// recombining the four level indices and the page offset reconstructs the
/// address exactly.
pub proof fn lemma_index_recombine(vaddr: u64)
    requires
        vaddr < ADDR_SPACE_SIZE,
    ensures
        vaddr == (spec_index_of(vaddr, 0) << 39) | (spec_index_of(vaddr, 1) << 30) | (spec_index_of(
            vaddr,
            2,
        ) << 21) | (spec_index_of(vaddr, 3) << 12) | spec_page_offset(vaddr),
{
    assert(vaddr < 0x1_0000_0000_0000u64 ==> vaddr == (((vaddr >> 39) & 0x1ff) << 39) | (((vaddr
        >> 30) & 0x1ff) << 30) | (((vaddr >> 21) & 0x1ff) << 21) | (((vaddr >> 12) & 0x1ff) << 12)
        | (vaddr & 0xfff)) by (bit_vector);
}

/// An address and its page base agree on all four level indices.
proof fn lemma_indices_of_align(vaddr: u64)
    ensures
        forall|k: int| spec_index_of(spec_align_down(vaddr), k) == spec_index_of(vaddr, k),
        spec_align_down(vaddr) % PAGE_SIZE == 0,
{
    assert(((vaddr & 0xffff_ffff_ffff_f000u64) >> 39) & 0x1ff == (vaddr >> 39) & 0x1ff)
        by (bit_vector);
    assert(((vaddr & 0xffff_ffff_ffff_f000u64) >> 30) & 0x1ff == (vaddr >> 30) & 0x1ff)
        by (bit_vector);
    assert(((vaddr & 0xffff_ffff_ffff_f000u64) >> 21) & 0x1ff == (vaddr >> 21) & 0x1ff)
        by (bit_vector);
    assert(((vaddr & 0xffff_ffff_ffff_f000u64) >> 12) & 0x1ff == (vaddr >> 12) & 0x1ff)
        by (bit_vector);
    assert((vaddr & 0xffff_ffff_ffff_f000u64) % 0x1000 == 0) by (bit_vector);
}

/// Two in-space addresses with the same four level indices share their page
/// base.
proof fn lemma_same_indices_same_page(va1: u64, va2: u64)
    requires
        va1 < ADDR_SPACE_SIZE,
        va2 < ADDR_SPACE_SIZE,
        forall|k: int| 0 <= k < 4 ==> spec_index_of(va1, k) == spec_index_of(va2, k),
    ensures
        spec_align_down(va1) == spec_align_down(va2),
{
    assert(spec_index_of(va1, 0) == spec_index_of(va2, 0));
    assert(spec_index_of(va1, 1) == spec_index_of(va2, 1));
    assert(spec_index_of(va1, 2) == spec_index_of(va2, 2));
    assert(spec_index_of(va1, 3) == spec_index_of(va2, 3));
    assert((va1 < 0x1_0000_0000_0000u64 && va2 < 0x1_0000_0000_0000u64 && (va1 >> 39) & 0x1ff == (
    va2 >> 39) & 0x1ff && (va1 >> 30) & 0x1ff == (va2 >> 30) & 0x1ff && (va1 >> 21) & 0x1ff == (va2
        >> 21) & 0x1ff && (va1 >> 12) & 0x1ff == (va2 >> 12) & 0x1ff) ==> va1
        & 0xffff_ffff_ffff_f000u64 == va2 & 0xffff_ffff_ffff_f000u64) by (bit_vector);
}

impl<PTE: GenericPTE> Level4PageTable<PTE> {
    /// The walk of a well-formed table lands, at each level, on a frame
    /// whose recorded path is exactly the address's index chain so far.
    proof fn lemma_walk_path(self, vaddr: u64, level: int)
        requires
            self.wf(),
            0 <= level <= 3,
            self.frame_on_path(vaddr, level) >= 0,
        ensures
            ({
                let f = self.frame_on_path(vaddr, level);
                &&& 0 <= f < self.num_frames()
                &&& self.paths@[f].len() == level
                &&& forall|k: int|
                    0 <= k < level ==> self.paths@[f][k] == spec_index_of(vaddr, k) as int
            }),
        decreases level,
    {
        if level > 0 {
            let p = self.frame_on_path(vaddr, level - 1);
            let f = self.frame_on_path(vaddr, level);
            assert(p >= 0);
            self.lemma_walk_path(vaddr, level - 1);
            let j = spec_index_of(vaddr, level - 1) as int;
            let e = self.entry_at(p, j);
            assert(!e.spec_unused());
            assert(spec_index_of(vaddr, level - 1) < 512) by {
                lemma_spec_index_bound(vaddr);
            }
            assert(self.interior_entry_ok(p, j));
            let c = choose|c: int| self.is_child(p, j, c);
            assert(e.spec_paddr() == Self::frame_addr(c));
            assert((Self::frame_addr(c) - FRAME_BASE) / (PAGE_SIZE as int) == c) by {
                assert((c * 0x1000) / 0x1000 == c) by (nonlinear_arith);
            }
            assert(f == c);
            assert(self.paths@[f] == self.paths@[p].push(j));
        }
    }

    /// Walks depend on the level indices alone, so an address and its page
    /// base see the same frames and the same leaf entry.
    proof fn lemma_walk_of_align(self, vaddr: u64, level: int)
        requires
            0 <= level <= 3,
        ensures
            self.frame_on_path(spec_align_down(vaddr), level) == self.frame_on_path(vaddr, level),
        decreases level,
    {
        lemma_indices_of_align(vaddr);
        if level > 0 {
            self.lemma_walk_of_align(vaddr, level - 1);
        }
    }

    /// The page base of an address is mapped exactly when the address is,
    /// and to the same leaf entry.
    proof fn lemma_mapped_align(self, vaddr: u64)
        ensures
            self.is_mapped(spec_align_down(vaddr)) == self.is_mapped(vaddr),
            self.has_leaf(spec_align_down(vaddr)) == self.has_leaf(vaddr),
            self.leaf_pte(spec_align_down(vaddr)) == self.leaf_pte(vaddr),
    {
        lemma_indices_of_align(vaddr);
        self.lemma_walk_of_align(vaddr, 3);
    }

    /// Creates a page table owning a single zeroed root frame; its abstract
    /// state is the empty map.
    pub fn new() -> (r: RvmResult<Self>)
        ensures
            r matches Ok(t) && t.wf() && t@ == Map::<GuestPhysAddr,
                (HostPhysAddr, MemFlags),
            >::empty() && t.num_frames() == 1,
    {
        let mut zero = PTE::new_table(0);
        zero.clear();
        let mut entries: Vec<PTE> = Vec::new();
        let mut k: usize = 0;
        while k < 512
            invariant
                entries@.len() == k,
                k <= 512,
                zero.spec_unused(),
                forall|i: int| 0 <= i < k ==> (#[trigger] entries@[i]).spec_unused(),
            decreases 512 - k,
        {
            entries.push(zero);
            k = k + 1;
        }
        let t = Level4PageTable {
            root_paddr: FRAME_BASE,
            entries,
            paths: Ghost(Seq::empty().push(Seq::<int>::empty())),
        };
        proof {
            assert(t.num_frames() == 1);
            assert forall|f: int, j: int| 0 <= f < 1 && 0 <= j < 512 implies (#[trigger] t.entry_at(
                f,
                j,
            )).spec_unused() by {
                assert(t.entries@[f * 512 + j].spec_unused());
            }
            assert(t.wf());
            assert forall|va: u64| !t.is_mapped(va) by {
                lemma_spec_index_bound(va);
                assert(t.frame_on_path(va, 0) == 0);
                assert(t.entry_at(0, spec_index_of(va, 0) as int).spec_unused());
                assert(t.frame_on_path(va, 1) == -1);
                assert(t.frame_on_path(va, 2) == -1);
                assert(t.frame_on_path(va, 3) == -1);
            }
            assert(t@ =~= Map::<GuestPhysAddr, (HostPhysAddr, MemFlags)>::empty());
        }
        Ok(t)
    }

    /// Physical address of the page table root, for the translation base
    /// register.
    pub fn root_paddr(&self) -> (r: HostPhysAddr)
        ensures
            self.wf() ==> r == FRAME_BASE,
    {
        self.root_paddr
    }

    /// One step of the table walk: from the frame at `level` on `vaddr`'s
    /// path to the frame at the next level, or `None` at a zero entry.
    fn walk_step(&self, f: usize, level: usize, vaddr: u64) -> (r: Option<usize>)
        requires
            self.wf(),
            level < 3,
            self.frame_on_path(vaddr, level as int) == f as int,
        ensures
            match r {
                Some(c) => self.frame_on_path(vaddr, level as int + 1) == c as int && (c as int)
                    < self.num_frames(),
                None => self.frame_on_path(vaddr, level as int + 1) == -1,
            },
    {
        proof {
            self.lemma_walk_path(vaddr, level as int);
            lemma_spec_index_bound(vaddr);
        }
        let j = level_index(vaddr, level);
        let slot = f * 512 + (j as usize);
        let e = self.entries[slot];
        proof {
            assert(e == self.entry_at(f as int, j as int));
        }
        if e.is_unused() {
            None
        } else {
            proof {
                assert(self.interior_entry_ok(f as int, j as int));
                let c = choose|c: int| self.is_child(f as int, j as int, c);
                assert(e.spec_paddr() == Self::frame_addr(c));
                assert((c * 0x1000) / 0x1000 == c && c * 0x1000 >= 0) by (nonlinear_arith)
                    requires
                        c >= 0,
                ;
            }
            let c = (e.paddr() - FRAME_BASE) / PAGE_SIZE;
            Some(c as usize)
        }
    }

    /// Full walk to the leaf frame: the frame and leaf index for `vaddr`,
    /// or `None` where an intermediate entry is missing.
    fn locate(&self, vaddr: u64) -> (r: Option<(usize, u64)>)
        requires
            self.wf(),
        ensures
            match r {
                Some(fj) => {
                    &&& self.frame_on_path(vaddr, 3) == fj.0 as int
                    &&& (fj.0 as int) < self.num_frames()
                    &&& fj.1 == spec_index_of(vaddr, 3)
                    &&& fj.1 < 512
                },
                None => self.frame_on_path(vaddr, 3) == -1,
            },
    {
        let f1 = match self.walk_step(0, 0, vaddr) {
            Some(f) => f,
            None => {
                proof {
                    assert(self.frame_on_path(vaddr, 2) == -1);
                    assert(self.frame_on_path(vaddr, 3) == -1);
                }
                return None;
            },
        };
        let f2 = match self.walk_step(f1, 1, vaddr) {
            Some(f) => f,
            None => {
                proof {
                    assert(self.frame_on_path(vaddr, 3) == -1);
                }
                return None;
            },
        };
        let f3 = match self.walk_step(f2, 2, vaddr) {
            Some(f) => f,
            None => {
                return None;
            },
        };
        Some((f3, p1_index(vaddr)))
    }

    /// Replacing an entry of a leaf frame leaves every walk unchanged: the
    /// walk only reads interior frames, and a leaf frame is never interior
    /// because its recorded path already has full length.
    proof fn lemma_walk_leaf_slot_update(pre: Self, post: Self, f0: int, j0: int, va: u64, level: int)
        requires
            pre.wf(),
            post.paths == pre.paths,
            post.entries@.len() == pre.entries@.len(),
            0 <= f0 < pre.num_frames(),
            0 <= j0 < 512,
            pre.paths@[f0].len() == 3,
            forall|i: int|
                0 <= i < pre.entries@.len() && i != f0 * 512 + j0 ==> post.entries@[i]
                    == pre.entries@[i],
            0 <= level <= 3,
        ensures
            post.frame_on_path(va, level) == pre.frame_on_path(va, level),
        decreases level,
    {
        if level > 0 {
            Self::lemma_walk_leaf_slot_update(pre, post, f0, j0, va, level - 1);
            let p = pre.frame_on_path(va, level - 1);
            if p >= 0 {
                pre.lemma_walk_path(va, level - 1);
                lemma_spec_index_bound(va);
                let j = spec_index_of(va, level - 1) as int;
                assert(p != f0);
                assert(p * 512 + j != f0 * 512 + j0) by (nonlinear_arith)
                    requires
                        p != f0,
                        0 <= j < 512,
                        0 <= j0 < 512,
                ;
                assert(post.entry_at(p, j) == pre.entry_at(p, j));
            }
        }
    }

    /// Installing `z` in the leaf slot of `vaddr` preserves well-formedness
    /// and changes the abstract state at exactly `vaddr`'s page: a zero `z`
    /// removes the page, a present `z` maps it to `z`'s address and flags.
    proof fn lemma_leaf_update(pre: Self, post: Self, vaddr: u64, z: PTE)
        requires
            pre.wf(),
            vaddr < ADDR_SPACE_SIZE,
            pre.frame_on_path(vaddr, 3) >= 0,
            post.root_paddr == pre.root_paddr,
            post.paths == pre.paths,
            post.entries@ == pre.entries@.update(
                pre.frame_on_path(vaddr, 3) * 512 + spec_index_of(vaddr, 3) as int,
                z,
            ),
            z.spec_unused() || (z.spec_present() && z.spec_paddr() % PAGE_SIZE == 0
                && z.spec_paddr() < ADDR_SPACE_SIZE),
        ensures
            post.wf(),
            post.num_frames() == pre.num_frames(),
            post.frame_on_path(vaddr, 3) == pre.frame_on_path(vaddr, 3),
            post.leaf_pte(vaddr) == z,
            z.spec_unused() ==> post@ == pre@.remove(spec_align_down(vaddr)),
            !z.spec_unused() ==> post@ == pre@.insert(
                spec_align_down(vaddr),
                (z.spec_paddr(), z.spec_flags()),
            ),
    {
        let f0 = pre.frame_on_path(vaddr, 3);
        let j0 = spec_index_of(vaddr, 3) as int;
        let key = spec_align_down(vaddr);
        pre.lemma_walk_path(vaddr, 3);
        lemma_spec_index_bound(vaddr);
        lemma_align_in_space(vaddr);
        assert(post.num_frames() == pre.num_frames());
        // Well-formedness of the updated table.
        assert forall|f: int, j: int|
            0 <= f < post.num_frames() && 0 <= j < 512 && post.paths@[f].len() < 3 && !(
            #[trigger] post.entry_at(f, j)).spec_unused() implies post.interior_entry_ok(f, j) by {
            assert(f != f0);
            assert(f * 512 + j != f0 * 512 + j0) by (nonlinear_arith)
                requires
                    f != f0,
                    0 <= j < 512,
                    0 <= j0 < 512,
            ;
            assert(post.entry_at(f, j) == pre.entry_at(f, j));
            assert(pre.interior_entry_ok(f, j));
            let c = choose|c: int| pre.is_child(f, j, c);
            assert(post.is_child(f, j, c));
        }
        assert forall|f: int, j: int|
            0 <= f < post.num_frames() && 0 <= j < 512 && post.paths@[f].len() == 3 && !(
            #[trigger] post.entry_at(f, j)).spec_unused() implies post.leaf_entry_ok(f, j) by {
            if f == f0 && j == j0 {
                assert(post.entry_at(f, j) == z);
            } else {
                assert(f * 512 + j != f0 * 512 + j0) by (nonlinear_arith)
                    requires
                        f != f0 || j != j0,
                        0 <= j < 512,
                        0 <= j0 < 512,
                ;
                assert(post.entry_at(f, j) == pre.entry_at(f, j));
                assert(pre.leaf_entry_ok(f, j));
            }
        }
        assert forall|c: int| 1 <= c < post.num_frames() implies post.parent_ok(c) by {
            assert(pre.parent_ok(c));
            let p = choose|p: int|
                {
                    &&& 0 <= p < pre.num_frames()
                    &&& #[trigger] pre.paths@[p] == pre.paths@[c].drop_last()
                    &&& !pre.entry_at(p, pre.paths@[c].last()).spec_unused()
                    &&& pre.entry_at(p, pre.paths@[c].last()).spec_paddr() == Self::frame_addr(c)
                };
            assert(pre.paths@[p].len() < 3);
            assert(p != f0);
            let jl = pre.paths@[c].last();
            assert(p * 512 + jl != f0 * 512 + j0) by (nonlinear_arith)
                requires
                    p != f0,
                    0 <= jl < 512,
                    0 <= j0 < 512,
            ;
            assert(post.entry_at(p, jl) == pre.entry_at(p, jl));
        }
        assert(post.wf());
        // Walks are untouched.
        assert forall|va: u64, l: int| 0 <= l <= 3 implies post.frame_on_path(va, l)
            == pre.frame_on_path(va, l) by {
            Self::lemma_walk_leaf_slot_update(pre, post, f0, j0, va, l);
        }
        assert(post.entry_at(f0, j0) == z);
        // Any other page keeps its leaf entry.
        assert forall|va: u64|
            va < ADDR_SPACE_SIZE && va % PAGE_SIZE == 0 && va != key implies #[trigger] post.is_mapped(
            va,
        ) == pre.is_mapped(va) && (pre.is_mapped(va) ==> post.leaf_pte(va) == pre.leaf_pte(va))
            by {
            let lf = pre.frame_on_path(va, 3);
            if lf >= 0 {
                lemma_spec_index_bound(va);
                pre.lemma_walk_path(va, 3);
                let jv = spec_index_of(va, 3) as int;
                if lf == f0 && jv == j0 {
                    assert forall|k: int| 0 <= k < 4 implies spec_index_of(va, k) == spec_index_of(
                        vaddr,
                        k,
                    ) by {
                        if 0 <= k < 3 {
                            assert(pre.paths@[lf][k] == spec_index_of(va, k) as int);
                            assert(pre.paths@[f0][k] == spec_index_of(vaddr, k) as int);
                        }
                    }
                    lemma_same_indices_same_page(va, vaddr);
                    lemma_aligned_fixpoint(va);
                    assert(false);
                } else {
                    assert(lf * 512 + jv != f0 * 512 + j0) by (nonlinear_arith)
                        requires
                            lf != f0 || jv != j0,
                            0 <= jv < 512,
                            0 <= j0 < 512,
                    ;
                    assert(post.entry_at(lf, jv) == pre.entry_at(lf, jv));
                }
            }
        }
        post.lemma_mapped_align(vaddr);
        pre.lemma_mapped_align(vaddr);
        if z.spec_unused() {
            assert(post@ =~= pre@.remove(key));
        } else {
            assert(post@ =~= pre@.insert(key, (z.spec_paddr(), z.spec_flags())));
        }
    }

    /// Removes the mapping of `vaddr`'s page and returns the physical base
    /// it mapped; `InvalidParam` where the page is not mapped, the table
    /// unchanged. Intermediate frames are not reclaimed: ownership tracking
    /// frees them with the table.
    pub fn unmap(&mut self, vaddr: GuestPhysAddr) -> (r: RvmResult<HostPhysAddr>)
        requires
            old(self).wf(),
            vaddr < ADDR_SPACE_SIZE,
        ensures
            final(self).wf(),
            ({
                let key = spec_align_down(vaddr);
                if old(self)@.contains_key(key) {
                    &&& r == Ok::<HostPhysAddr, RvmError>(old(self)@[key].0)
                    &&& final(self)@ == old(self)@.remove(key)
                    &&& final(self).num_frames() == old(self).num_frames()
                } else {
                    &&& r == Err::<HostPhysAddr, RvmError>(RvmError::InvalidParam)
                    &&& *final(self) == *old(self)
                }
            }),
    {
        proof {
            self.lemma_mapped_align(vaddr);
            lemma_align_in_space(vaddr);
        }
        match self.locate(vaddr) {
            None => Err(RvmError::InvalidParam),
            Some((f, j)) => {
                let slot = f * 512 + (j as usize);
                let e = self.entries[slot];
                proof {
                    assert(e == self.leaf_pte(vaddr));
                }
                if e.is_unused() {
                    Err(RvmError::InvalidParam)
                } else {
                    let paddr = e.paddr();
                    let mut zero = e;
                    zero.clear();
                    let ghost pre = *self;
                    self.entries[slot] = zero;
                    proof {
                        Self::lemma_leaf_update(pre, *self, vaddr, zero);
                    }
                    Ok(paddr)
                }
            },
        }
    }
}

impl<PTE: GenericPTE> Level4PageTable<PTE> {
    /// The relation between a table and its successor after one frame
    /// allocation: a fresh zeroed frame is appended and a formerly zero
    /// interior entry at `(f0, j0)` now points at it.
    spec fn alloc_shape(pre: Self, post: Self, f0: int, j0: int) -> bool {
        &&& 0 <= f0 < pre.num_frames()
        &&& 0 <= j0 < 512
        &&& pre.paths@[f0].len() < 3
        &&& pre.entry_at(f0, j0).spec_unused()
        &&& post.root_paddr == pre.root_paddr
        &&& post.paths@ == pre.paths@.push(pre.paths@[f0].push(j0))
        &&& post.entries@.len() == pre.entries@.len() + 512
        &&& forall|i: int|
            0 <= i < pre.entries@.len() && i != f0 * 512 + j0 ==> post.entries@[i]
                == pre.entries@[i]
        &&& forall|i: int|
            pre.entries@.len() <= i < post.entries@.len() ==> (#[trigger] post.entries@[i]).spec_unused()
        &&& !post.entry_at(f0, j0).spec_unused()
        &&& post.entry_at(f0, j0).spec_present()
        &&& !post.entry_at(f0, j0).spec_huge()
        &&& post.entry_at(f0, j0).spec_paddr() == Self::frame_addr(pre.num_frames())
    }

    /// How walks change across one frame allocation: an address whose walk
    /// stopped at the rewritten entry now continues into the fresh (still
    /// empty) frame; every other walk is untouched.
    proof fn lemma_walk_after_alloc(pre: Self, post: Self, f0: int, j0: int, va: u64, level: int)
        requires
            pre.wf(),
            Self::alloc_shape(pre, post, f0, j0),
            0 <= level <= 3,
        ensures
            ({
                let l0 = pre.paths@[f0].len() as int;
                let c = pre.num_frames();
                let hit = pre.frame_on_path(va, l0) == f0 && spec_index_of(va, l0) as int == j0;
                if hit && level > l0 {
                    &&& pre.frame_on_path(va, level) == -1
                    &&& post.frame_on_path(va, level) == (if level == l0 + 1 {
                        c
                    } else {
                        -1
                    })
                } else {
                    post.frame_on_path(va, level) == pre.frame_on_path(va, level)
                }
            }),
        decreases level,
    {
        let l0 = pre.paths@[f0].len() as int;
        let c = pre.num_frames();
        let hit = pre.frame_on_path(va, l0) == f0 && spec_index_of(va, l0) as int == j0;
        lemma_spec_index_bound(va);
        if level > 0 {
            Self::lemma_walk_after_alloc(pre, post, f0, j0, va, level - 1);
            let idx = spec_index_of(va, level - 1) as int;
            if hit && level - 1 > l0 {
                // Both walks already died, or the fresh frame's zero
                // entries end the new walk.
                if level - 1 == l0 + 1 {
                    assert(post.frame_on_path(va, level - 1) == c);
                    assert(c * 512 + idx >= pre.entries@.len());
                    assert(c * 512 + idx < post.entries@.len());
                    assert(post.entry_at(c, idx).spec_unused());
                    assert(post.frame_on_path(va, level) == -1);
                } else {
                    assert(post.frame_on_path(va, level) == -1);
                }
                assert(pre.frame_on_path(va, level) == -1);
            } else if hit && level - 1 == l0 {
                // The walk reads exactly the rewritten entry.
                assert(pre.frame_on_path(va, level - 1) == f0);
                assert(post.frame_on_path(va, level - 1) == f0);
                assert(pre.frame_on_path(va, level) == -1);
                assert((Self::frame_addr(c) - FRAME_BASE) / (PAGE_SIZE as int) == c) by {
                    assert((c * 0x1000) / 0x1000 == c) by (nonlinear_arith);
                }
                assert(post.frame_on_path(va, level) == c);
            } else {
                // Walks agree one level up and read an untouched slot.
                let p = pre.frame_on_path(va, level - 1);
                assert(post.frame_on_path(va, level - 1) == p);
                if p >= 0 {
                    pre.lemma_walk_path(va, level - 1);
                    if p == f0 && idx == j0 {
                        assert(pre.paths@[p].len() == level - 1);
                        assert(l0 == level - 1);
                        assert(hit);
                        assert(false);
                    }
                    assert(p * 512 + idx != f0 * 512 + j0) by (nonlinear_arith)
                        requires
                            p != f0 || idx != j0,
                            0 <= idx < 512,
                            0 <= j0 < 512,
                    ;
                    assert(p * 512 + idx < pre.entries@.len()) by (nonlinear_arith)
                        requires
                            0 <= p < pre.num_frames(),
                            0 <= idx < 512,
                            pre.entries@.len() == pre.num_frames() * 512,
                    ;
                    assert(post.entry_at(p, idx) == pre.entry_at(p, idx));
                }
            }
        }
    }

    /// One frame allocation preserves well-formedness and the abstract
    /// state: the fresh frame is empty, so nothing becomes mapped.
    proof fn lemma_alloc_preserves(pre: Self, post: Self, f0: int, j0: int)
        requires
            pre.wf(),
            Self::alloc_shape(pre, post, f0, j0),
            pre.num_frames() + 1 <= MAX_FRAMES,
        ensures
            post.wf(),
            post.num_frames() == pre.num_frames() + 1,
            post@ == pre@,
    {
        let c = pre.num_frames();
        let newpath = pre.paths@[f0].push(j0);
        assert(post.entries@.len() == (c + 1) * 512);
        assert(post.num_frames() == c + 1);
        // Paths: bounds and uniqueness.
        assert(post.paths@[0] == pre.paths@[0]);
        assert forall|f1: int, f2: int|
            0 <= f1 < post.num_frames() && 0 <= f2 < post.num_frames()
                && #[trigger] post.paths@[f1] == #[trigger] post.paths@[f2] implies f1 == f2 by {
            if f1 < c && f2 < c {
                assert(pre.paths@[f1] == pre.paths@[f2]);
            } else if f1 < c && f2 == c {
                Self::lemma_no_frame_has_path(pre, f0, j0, f1);
                assert(false);
            } else if f1 == c && f2 < c {
                Self::lemma_no_frame_has_path(pre, f0, j0, f2);
                assert(false);
            }
        }
        // Interior entries.
        assert forall|f: int, j: int|
            0 <= f < post.num_frames() && 0 <= j < 512 && post.paths@[f].len() < 3 && !(
            #[trigger] post.entry_at(f, j)).spec_unused() implies post.interior_entry_ok(f, j) by {
            if f == c {
                assert(c * 512 + j >= pre.entries@.len()) by (nonlinear_arith)
                    requires
                        0 <= j,
                        pre.entries@.len() == c * 512,
                ;
                assert(c * 512 + j < post.entries@.len()) by (nonlinear_arith)
                    requires
                        j < 512,
                        post.entries@.len() == (c + 1) * 512,
                ;
                assert(post.entry_at(f, j).spec_unused());
                assert(false);
            } else if f == f0 && j == j0 {
                assert(post.is_child(f0, j0, c));
            } else {
                assert(f * 512 + j != f0 * 512 + j0) by (nonlinear_arith)
                    requires
                        f != f0 || j != j0,
                        0 <= j < 512,
                        0 <= j0 < 512,
                ;
                assert(f * 512 + j < pre.entries@.len()) by (nonlinear_arith)
                    requires
                        0 <= f < c,
                        0 <= j < 512,
                        pre.entries@.len() == c * 512,
                ;
                assert(post.entry_at(f, j) == pre.entry_at(f, j));
                assert(pre.interior_entry_ok(f, j));
                let w = choose|w: int| pre.is_child(f, j, w);
                assert(post.is_child(f, j, w));
            }
        }
        // Leaf entries.
        assert forall|f: int, j: int|
            0 <= f < post.num_frames() && 0 <= j < 512 && post.paths@[f].len() == 3 && !(
            #[trigger] post.entry_at(f, j)).spec_unused() implies post.leaf_entry_ok(f, j) by {
            if f == c {
                assert(c * 512 + j >= pre.entries@.len()) by (nonlinear_arith)
                    requires
                        0 <= j,
                        pre.entries@.len() == c * 512,
                ;
                assert(c * 512 + j < post.entries@.len()) by (nonlinear_arith)
                    requires
                        j < 512,
                        post.entries@.len() == (c + 1) * 512,
                ;
                assert(post.entry_at(f, j).spec_unused());
                assert(false);
            } else {
                assert(pre.paths@[f].len() == 3);
                assert(f != f0);
                assert(f * 512 + j != f0 * 512 + j0) by (nonlinear_arith)
                    requires
                        f != f0,
                        0 <= j < 512,
                        0 <= j0 < 512,
                ;
                assert(f * 512 + j < pre.entries@.len()) by (nonlinear_arith)
                    requires
                        0 <= f < c,
                        0 <= j < 512,
                        pre.entries@.len() == c * 512,
                ;
                assert(post.entry_at(f, j) == pre.entry_at(f, j));
                assert(pre.leaf_entry_ok(f, j));
            }
        }
        // Parent links.
        assert forall|d: int| 1 <= d < post.num_frames() implies post.parent_ok(d) by {
            if d < c {
                assert(pre.parent_ok(d));
                let p = choose|p: int|
                    {
                        &&& 0 <= p < pre.num_frames()
                        &&& #[trigger] pre.paths@[p] == pre.paths@[d].drop_last()
                        &&& !pre.entry_at(p, pre.paths@[d].last()).spec_unused()
                        &&& pre.entry_at(p, pre.paths@[d].last()).spec_paddr() == Self::frame_addr(
                            d,
                        )
                    };
                let jl = pre.paths@[d].last();
                if p == f0 && jl == j0 {
                    assert(false);
                }
                assert(p * 512 + jl != f0 * 512 + j0) by (nonlinear_arith)
                    requires
                        p != f0 || jl != j0,
                        0 <= jl < 512,
                        0 <= j0 < 512,
                ;
                assert(p * 512 + jl < pre.entries@.len()) by (nonlinear_arith)
                    requires
                        0 <= p < c,
                        0 <= jl < 512,
                        pre.entries@.len() == c * 512,
                ;
                assert(post.entry_at(p, jl) == pre.entry_at(p, jl));
                assert(post.paths@[p] == pre.paths@[p]);
                assert(post.paths@[d] == pre.paths@[d]);
            } else {
                assert(post.paths@[d] == newpath);
                assert(newpath.drop_last() =~= pre.paths@[f0]);
                assert(newpath.last() == j0);
                assert(post.paths@[f0] == pre.paths@[f0]);
            }
        }
        assert(post.wf());
        // The abstract state is untouched: the fresh frame holds nothing.
        let l0 = pre.paths@[f0].len() as int;
        assert forall|va: u64|
            va < ADDR_SPACE_SIZE && va % PAGE_SIZE == 0 implies #[trigger] post.is_mapped(va)
            == pre.is_mapped(va) && (pre.is_mapped(va) ==> post.leaf_pte(va) == pre.leaf_pte(va))
            by {
            Self::lemma_walk_after_alloc(pre, post, f0, j0, va, 3);
            lemma_spec_index_bound(va);
            let idx = spec_index_of(va, 3) as int;
            let hit = pre.frame_on_path(va, l0) == f0 && spec_index_of(va, l0) as int == j0;
            if hit {
                assert(pre.frame_on_path(va, 3) == -1);
                if post.frame_on_path(va, 3) == c {
                    assert(c * 512 + idx >= pre.entries@.len()) by (nonlinear_arith)
                        requires
                            0 <= idx,
                            pre.entries@.len() == c * 512,
                    ;
                    assert(c * 512 + idx < post.entries@.len()) by (nonlinear_arith)
                        requires
                            idx < 512,
                            post.entries@.len() == (c + 1) * 512,
                    ;
                    assert(post.entry_at(c, idx).spec_unused());
                    assert(!post.is_mapped(va));
                }
            } else {
                let lf = pre.frame_on_path(va, 3);
                if lf >= 0 {
                    pre.lemma_walk_path(va, 3);
                    assert(lf != f0);
                    assert(lf * 512 + idx != f0 * 512 + j0) by (nonlinear_arith)
                        requires
                            lf != f0,
                            0 <= idx < 512,
                            0 <= j0 < 512,
                    ;
                    assert(lf * 512 + idx < pre.entries@.len()) by (nonlinear_arith)
                        requires
                            0 <= lf < c,
                            0 <= idx < 512,
                            pre.entries@.len() == c * 512,
                    ;
                    assert(post.entry_at(lf, idx) == pre.entry_at(lf, idx));
                }
            }
        }
        assert(post@ =~= pre@);
    }

    /// No frame of a well-formed table carries the path that extending
    /// `f0` by its zero entry `j0` would create.
    proof fn lemma_no_frame_has_path(pre: Self, f0: int, j0: int, x: int)
        requires
            pre.wf(),
            0 <= f0 < pre.num_frames(),
            0 <= j0 < 512,
            pre.entry_at(f0, j0).spec_unused(),
            0 <= x < pre.num_frames(),
        ensures
            pre.paths@[x] != pre.paths@[f0].push(j0),
    {
        let newpath = pre.paths@[f0].push(j0);
        if pre.paths@[x] == newpath {
            assert(pre.paths@[x].len() == newpath.len());
            assert(newpath.len() >= 1);
            assert(x != 0);
            assert(pre.parent_ok(x));
            let p = choose|p: int|
                {
                    &&& 0 <= p < pre.num_frames()
                    &&& #[trigger] pre.paths@[p] == pre.paths@[x].drop_last()
                    &&& !pre.entry_at(p, pre.paths@[x].last()).spec_unused()
                    &&& pre.entry_at(p, pre.paths@[x].last()).spec_paddr() == Self::frame_addr(x)
                };
            assert(newpath.drop_last() =~= pre.paths@[f0]);
            assert(pre.paths@[p] == pre.paths@[f0]);
            assert(p == f0);
            assert(pre.paths@[x].last() == j0);
            assert(false);
        }
    }
}

impl<PTE: GenericPTE> Level4PageTable<PTE> {
    /// Allocates a fresh zeroed frame and links it from the zero entry at
    /// `(f0, j0)`. Nothing becomes mapped: the fresh frame is empty.
    fn alloc_frame(&mut self, f0: usize, j0: u64, Ghost(level): Ghost<int>) -> (c: usize)
        requires
            old(self).wf(),
            (f0 as int) < old(self).num_frames(),
            j0 < 512,
            old(self).paths@[f0 as int].len() == level,
            0 <= level < 3,
            old(self).entry_at(f0 as int, j0 as int).spec_unused(),
            old(self).num_frames() + 1 <= MAX_FRAMES,
        ensures
            final(self).wf(),
            final(self)@ == old(self)@,
            final(self).num_frames() == old(self).num_frames() + 1,
            c as int == old(self).num_frames(),
            forall|va: u64|
                old(self).frame_on_path(va, level) == f0 as int && #[trigger] spec_index_of(
                    va,
                    level,
                ) == j0 ==> final(self).frame_on_path(va, level + 1) == c as int,
            forall|jj: int|
                0 <= jj < 512 ==> (#[trigger] final(self).entry_at(c as int, jj)).spec_unused(),
    {
        let ghost pre = *self;
        let c = self.entries.len() / 512;
        proof {
            assert(pre.entries@.len() == pre.num_frames() * 512);
            assert((pre.num_frames() * 512) / 512 == pre.num_frames()) by (nonlinear_arith);
            assert(c as int == pre.num_frames());
        }
        let pa = FRAME_BASE + (c as u64) * PAGE_SIZE;
        proof {
            assert((0x100_0000u64 + (c as u64) * 0x1000) % 0x1000 == 0) by (nonlinear_arith)
                requires
                    c as u64 <= 0x10_0000u64,
            ;
        }
        let mut zero = PTE::new_table(0);
        zero.clear();
        let mut k: usize = 0;
        while k < 512
            invariant
                k <= 512,
                zero.spec_unused(),
                self.root_paddr == pre.root_paddr,
                self.paths == pre.paths,
                self.entries@.len() == pre.entries@.len() + k,
                forall|i: int|
                    0 <= i < pre.entries@.len() ==> self.entries@[i] == pre.entries@[i],
                forall|i: int|
                    pre.entries@.len() <= i < self.entries@.len() ==> (#[trigger] self.entries@[i]).spec_unused(),
            decreases 512 - k,
        {
            self.entries.push(zero);
            k = k + 1;
        }
        let link = PTE::new_table(pa);
        let slot = f0 * 512 + (j0 as usize);
        proof {
            assert(slot < pre.entries@.len()) by (nonlinear_arith)
                requires
                    slot == f0 * 512 + j0,
                    0 <= f0 < pre.num_frames(),
                    0 <= j0 < 512,
                    pre.entries@.len() == pre.num_frames() * 512,
            ;
        }
        self.entries[slot] = link;
        proof {
            self.paths = Ghost(pre.paths@.push(pre.paths@[f0 as int].push(j0 as int)));
            assert(Self::alloc_shape(pre, *self, f0 as int, j0 as int));
            Self::lemma_alloc_preserves(pre, *self, f0 as int, j0 as int);
            assert forall|va: u64|
                pre.frame_on_path(va, level) == f0 as int && #[trigger] spec_index_of(va, level)
                    == j0 implies self.frame_on_path(va, level + 1) == c as int by {
                Self::lemma_walk_after_alloc(pre, *self, f0 as int, j0 as int, va, level + 1);
            }
            assert forall|jj: int| 0 <= jj < 512 implies (#[trigger] self.entry_at(
                c as int,
                jj,
            )).spec_unused() by {
                assert(c * 512 + jj >= pre.entries@.len()) by (nonlinear_arith)
                    requires
                        0 <= jj,
                        pre.entries@.len() == c * 512,
                ;
                assert(c * 512 + jj < self.entries@.len()) by (nonlinear_arith)
                    requires
                        jj < 512,
                        self.entries@.len() == (c + 1) * 512,
                ;
                assert(c * 512 + jj != f0 * 512 + j0);
            }
        }
        c
    }

    /// One walk step that creates the next level where it is missing.
    fn step_create(&mut self, f: usize, level: usize, vaddr: u64) -> (r: usize)
        requires
            old(self).wf(),
            level < 3,
            old(self).frame_on_path(vaddr, level as int) == f as int,
            old(self).num_frames() + 1 <= MAX_FRAMES,
        ensures
            final(self).wf(),
            final(self)@ == old(self)@,
            old(self).num_frames() <= final(self).num_frames() <= old(self).num_frames() + 1,
            final(self).frame_on_path(vaddr, level as int + 1) == r as int,
            (r as int) < final(self).num_frames(),
            old(self).frame_on_path(vaddr, level as int + 1) >= 0 ==> *final(self) == *old(self),
            old(self).frame_on_path(vaddr, level as int + 1) < 0 ==> final(self).num_frames()
                == old(self).num_frames() + 1 && r as int == old(self).num_frames() && (forall|
                jj: int,
            |
                0 <= jj < 512 ==> (#[trigger] final(self).entry_at(r as int, jj)).spec_unused()),
    {
        proof {
            self.lemma_walk_path(vaddr, level as int);
            lemma_spec_index_bound(vaddr);
        }
        let j = level_index(vaddr, level);
        let slot = f * 512 + (j as usize);
        let e = self.entries[slot];
        proof {
            assert(e == self.entry_at(f as int, j as int));
        }
        if e.is_unused() {
            proof {
                assert(self.frame_on_path(vaddr, level as int + 1) == -1);
            }
            self.alloc_frame(f, j, Ghost(level as int))
        } else {
            proof {
                assert(self.interior_entry_ok(f as int, j as int));
                let w = choose|w: int| self.is_child(f as int, j as int, w);
                assert(e.spec_paddr() == Self::frame_addr(w));
                assert((w * 0x1000) / 0x1000 == w && w * 0x1000 >= 0) by (nonlinear_arith)
                    requires
                        w >= 0,
                ;
            }
            let cnext = (e.paddr() - FRAME_BASE) / PAGE_SIZE;
            cnext as usize
        }
    }

    /// Full walk to the leaf frame for `vaddr`, creating missing
    /// intermediate frames; afterwards the leaf frame exists. Where the
    /// whole path already existed the table is untouched; where any part
    /// was created the leaf entry is still zero.
    fn locate_or_create(&mut self, vaddr: u64) -> (r: (usize, u64))
        requires
            old(self).wf(),
            old(self).num_frames() + 3 <= MAX_FRAMES,
        ensures
            final(self).wf(),
            final(self)@ == old(self)@,
            final(self).num_frames() <= old(self).num_frames() + 3,
            final(self).frame_on_path(vaddr, 3) == r.0 as int,
            (r.0 as int) < final(self).num_frames(),
            r.1 == spec_index_of(vaddr, 3),
            r.1 < 512,
            old(self).frame_on_path(vaddr, 3) >= 0 ==> *final(self) == *old(self),
            old(self).frame_on_path(vaddr, 3) < 0 ==> final(self).leaf_pte(vaddr).spec_unused(),
    {
        proof {
            lemma_spec_index_bound(vaddr);
        }
        let ghost t0 = *self;
        let f1 = self.step_create(0, 0, vaddr);
        let ghost t1 = *self;
        let f2 = self.step_create(f1, 1, vaddr);
        let ghost t2 = *self;
        let f3 = self.step_create(f2, 2, vaddr);
        let j = p1_index(vaddr);
        proof {
            if t0.frame_on_path(vaddr, 3) >= 0 {
                assert(t0.frame_on_path(vaddr, 2) >= 0);
                assert(t0.frame_on_path(vaddr, 1) >= 0);
            } else {
                // Once a frame is created, each deeper step reads a zero
                // entry of a fresh frame and creates again, so the leaf
                // frame ends up fresh and the leaf entry zero.
                if t0.frame_on_path(vaddr, 1) >= 0 {
                    assert(t1 == t0);
                    if t1.frame_on_path(vaddr, 2) >= 0 {
                        assert(t2 == t1);
                        assert(t2.frame_on_path(vaddr, 3) < 0);
                    } else {
                        assert(t2.entry_at(f2 as int, spec_index_of(vaddr, 2) as int).spec_unused());
                        assert(t2.frame_on_path(vaddr, 3) == -1);
                    }
                } else {
                    assert(t1.entry_at(f1 as int, spec_index_of(vaddr, 1) as int).spec_unused());
                    assert(t1.frame_on_path(vaddr, 2) == -1);
                    assert(t2.entry_at(f2 as int, spec_index_of(vaddr, 2) as int).spec_unused());
                    assert(t2.frame_on_path(vaddr, 3) == -1);
                }
                assert(self.entry_at(f3 as int, spec_index_of(vaddr, 3) as int).spec_unused());
            }
        }
        (f3, j)
    }

    /// Maps `vaddr`'s page to the page of `paddr` with the given flags,
    /// creating intermediate frames as needed. Fails with `InvalidParam`
    /// and changes nothing when the page is already mapped: overwriting
    /// takes an explicit update. The caller keeps the table under
    /// [`MAX_FRAMES`] minus the at most three frames one mapping can add,
    /// so that frame provisioning cannot run out of modeled addresses.
    pub fn map(&mut self, vaddr: GuestPhysAddr, paddr: HostPhysAddr, flags: MemFlags) -> (r:
        RvmResult<()>)
        requires
            old(self).wf(),
            vaddr < ADDR_SPACE_SIZE,
            paddr < ADDR_SPACE_SIZE,
            old(self).num_frames() + 3 <= MAX_FRAMES,
        ensures
            final(self).wf(),
            final(self).num_frames() <= old(self).num_frames() + 3,
            ({
                let key = spec_align_down(vaddr);
                if old(self)@.contains_key(key) {
                    &&& r == Err::<(), RvmError>(RvmError::InvalidParam)
                    &&& *final(self) == *old(self)
                } else {
                    &&& r == Ok::<(), RvmError>(())
                    &&& final(self)@ == old(self)@.insert(
                        key,
                        (spec_align_down(paddr), flags),
                    )
                }
            }),
    {
        proof {
            self.lemma_mapped_align(vaddr);
            lemma_align_in_space(vaddr);
        }
        let (f, j) = self.locate_or_create(vaddr);
        let slot = f * 512 + (j as usize);
        proof {
            assert(slot == f * 512 + j) by (nonlinear_arith)
                requires
                    slot == f * 512 + j,
            ;
            assert(slot < self.entries@.len()) by (nonlinear_arith)
                requires
                    slot == f * 512 + j,
                    0 <= f < self.num_frames(),
                    0 <= j < 512,
                    self.entries@.len() == self.num_frames() * 512,
            ;
        }
        let e = self.entries[slot];
        proof {
            assert(e == self.leaf_pte(vaddr));
        }
        if !e.is_unused() {
            proof {
                assert(old(self).frame_on_path(vaddr, 3) >= 0);
                assert(*self == *old(self));
                assert(old(self).is_mapped(vaddr));
            }
            return Err(RvmError::InvalidParam);
        }
        proof {
            assert(!old(self).is_mapped(vaddr));
        }
        let pa = align_down(paddr);
        let pte = PTE::new_page(pa, flags, false);
        let ghost pre = *self;
        self.entries[slot] = pte;
        proof {
            Self::lemma_leaf_update(pre, *self, vaddr, pte);
        }
        Ok(())
    }

    /// Re-installs the leaf entry of `vaddr`'s mapped page, keeping any
    /// field not overridden: an omitted physical address keeps the mapped
    /// page, omitted flags keep the flags, and the huge classification is
    /// always preserved. Fails with `InvalidParam` and changes nothing
    /// where the page is not mapped.
    pub fn update(&mut self, vaddr: GuestPhysAddr, paddr: Option<HostPhysAddr>, flags: Option<
        MemFlags,
    >) -> (r: RvmResult<()>)
        requires
            old(self).wf(),
            vaddr < ADDR_SPACE_SIZE,
            paddr matches Some(p) ==> p < ADDR_SPACE_SIZE,
        ensures
            final(self).wf(),
            final(self).num_frames() == old(self).num_frames(),
            ({
                let key = spec_align_down(vaddr);
                if old(self)@.contains_key(key) {
                    let npa = match paddr {
                        Some(p) => spec_align_down(p),
                        None => old(self)@[key].0,
                    };
                    let nfl = match flags {
                        Some(fl) => fl,
                        None => old(self)@[key].1,
                    };
                    &&& r == Ok::<(), RvmError>(())
                    &&& final(self)@ == old(self)@.insert(key, (npa, nfl))
                } else {
                    &&& r == Err::<(), RvmError>(RvmError::InvalidParam)
                    &&& *final(self) == *old(self)
                }
            }),
    {
        proof {
            self.lemma_mapped_align(vaddr);
            lemma_align_in_space(vaddr);
        }
        match self.locate(vaddr) {
            None => Err(RvmError::InvalidParam),
            Some((f, j)) => {
                let slot = f * 512 + (j as usize);
                let e = self.entries[slot];
                proof {
                    assert(e == self.leaf_pte(vaddr));
                }
                if e.is_unused() {
                    Err(RvmError::InvalidParam)
                } else {
                    proof {
                        self.lemma_walk_path(vaddr, 3);
                        assert(self.leaf_entry_ok(f as int, j as int));
                    }
                    let pa = match paddr {
                        Some(p) => align_down(p),
                        None => e.paddr(),
                    };
                    let fl = match flags {
                        Some(fl) => fl,
                        None => e.flags(),
                    };
                    proof {
                        lemma_aligned_fixpoint(e.spec_paddr());
                    }
                    let pte = PTE::new_page(pa, fl, e.is_huge());
                    let ghost pre = *self;
                    self.entries[slot] = pte;
                    proof {
                        Self::lemma_leaf_update(pre, *self, vaddr, pte);
                    }
                    Ok(())
                }
            },
        }
    }
}

/// Map/query agreement: after mapping a page, a query anywhere inside that
/// page is owed success and answers with the mapped base plus the in-page
/// offset, and with the mapped flags. Stated over the abstract map that
/// `map`'s and `query`'s contracts share.
pub proof fn lemma_map_query_agreement(
    m: Map<GuestPhysAddr, (HostPhysAddr, MemFlags)>,
    vaddr: GuestPhysAddr,
    paddr: HostPhysAddr,
    flags: MemFlags,
    off: u64,
)
    requires
        vaddr < ADDR_SPACE_SIZE,
        vaddr % PAGE_SIZE == 0,
        paddr % PAGE_SIZE == 0,
        off < PAGE_SIZE,
    ensures
        ({
            let probe = (vaddr + off) as u64;
            let m2 = m.insert(vaddr, (paddr, flags));
            &&& spec_align_down(probe) == vaddr
            &&& m2.contains_key(spec_align_down(probe))
            &&& m2[spec_align_down(probe)].0 + spec_page_offset(probe) == paddr + off
            &&& m2[spec_align_down(probe)].1 == flags
        }),
{
    let probe = (vaddr + off) as u64;
    assert(vaddr % 0x1000 == 0 && vaddr < 0x1_0000_0000_0000u64 && off < 0x1000 ==> ((vaddr
        + off) as u64 & 0xffff_ffff_ffff_f000u64) == vaddr && ((vaddr + off) as u64 & 0xfffu64)
        == off) by (bit_vector);
    assert(spec_align_down(probe) == vaddr);
    assert(spec_page_offset(probe) == off);
}

impl<PTE: GenericPTE> Level4PageTable<PTE> {
    /// The lines [`Level4PageTable::dump`] reports: the traversal of the
    /// subtree under frame `f` (standing at `level`, covering addresses
    /// from `base`), bounded to levels below `limit`.
    closed spec fn spec_dump_frame(self, f: int, level: int, base: u64, limit: int) -> Seq<
        DumpEntry<PTE>,
    >
        decreases 4 - level, 513int,
    {
        if level >= limit || level > 3 {
            Seq::empty()
        } else {
            self.spec_dump_entries(f, level, base, limit, 0)
        }
    }

    /// The traversal of frame `f` from entry `j` on.
    closed spec fn spec_dump_entries(self, f: int, level: int, base: u64, limit: int, j: int) -> Seq<
        DumpEntry<PTE>,
    >
        decreases 4 - level, 512 - j,
    {
        if j < 0 || j >= 512 || level > 3 {
            Seq::empty()
        } else {
            let e = self.entry_at(f, j);
            let rest = self.spec_dump_entries(f, level, base, limit, j + 1);
            if e.spec_unused() {
                rest
            } else {
                let va = base | ((j as u64) << spec_level_shift(level));
                let line = DumpEntry {
                    level: level as usize,
                    index: j as u64,
                    vaddr: va,
                    pte: e,
                };
                if level < 3 {
                    let c = (e.spec_paddr() - FRAME_BASE) / (PAGE_SIZE as int);
                    seq![line] + self.spec_dump_frame(c, level + 1, va, limit) + rest
                } else {
                    seq![line] + rest
                }
            }
        }
    }

    /// Everything [`Level4PageTable::dump`] reports for a depth bound.
    pub closed spec fn spec_dump(self, limit: int) -> Seq<DumpEntry<PTE>> {
        self.spec_dump_frame(0, 0, 0, limit)
    }

    /// Appends the traversal of the subtree under frame `f` to `out`.
    fn dump_frame_into(
        &self,
        f: usize,
        level: usize,
        base: u64,
        limit: usize,
        out: &mut Vec<DumpEntry<PTE>>,
    )
        requires
            self.wf(),
            (f as int) < self.num_frames(),
            level <= 3,
            self.paths@[f as int].len() == level as int,
        ensures
            final(out)@ == old(out)@ + self.spec_dump_frame(
                f as int,
                level as int,
                base,
                limit as int,
            ),
        decreases 4 - level,
    {
        if level >= limit {
            proof {
                assert(old(out)@ + self.spec_dump_frame(f as int, level as int, base, limit as int)
                    =~= old(out)@);
            }
            return ;
        }
        let mut j: usize = 0;
        while j < 512
            invariant
                self.wf(),
                (f as int) < self.num_frames(),
                level <= 3,
                level < limit,
                self.paths@[f as int].len() == level as int,
                j <= 512,
                out@ + self.spec_dump_entries(f as int, level as int, base, limit as int, j as int)
                    == old(out)@ + self.spec_dump_frame(f as int, level as int, base, limit as int),
            decreases 512 - j,
        {
            let slot = f * 512 + j;
            proof {
                assert(slot < self.entries@.len()) by (nonlinear_arith)
                    requires
                        slot == f * 512 + j,
                        0 <= (f as int) && (f as int) < self.num_frames(),
                        0 <= j < 512,
                        self.entries@.len() == self.num_frames() * 512,
                ;
            }
            let e = self.entries[slot];
            proof {
                assert(e == self.entry_at(f as int, j as int));
            }
            let ghost before = out@;
            if !e.is_unused() {
                let shift = level_shift(level);
                let va = base | ((j as u64) << shift);
                out.push(DumpEntry { level, index: j as u64, vaddr: va, pte: e });
                if level < 3 {
                    proof {
                        assert(self.interior_entry_ok(f as int, j as int));
                        let w = choose|w: int| self.is_child(f as int, j as int, w);
                        assert(e.spec_paddr() == Self::frame_addr(w));
                        assert((w * 0x1000) / 0x1000 == w && w * 0x1000 >= 0) by (nonlinear_arith)
                            requires
                                w >= 0,
                        ;
                    }
                    let c = (e.paddr() - FRAME_BASE) / PAGE_SIZE;
                    self.dump_frame_into(c as usize, level + 1, va, limit, out);
                    proof {
                        let fi = f as int;
                        let li = level as int;
                        let ji = j as int;
                        let ci = (e.spec_paddr() - FRAME_BASE) / (PAGE_SIZE as int);
                        let line = DumpEntry {
                            level: level,
                            index: j as u64,
                            vaddr: va,
                            pte: e,
                        };
                        assert(out@ =~= before + seq![line] + self.spec_dump_frame(
                            ci,
                            li + 1,
                            va,
                            limit as int,
                        ));
                        assert(self.spec_dump_entries(fi, li, base, limit as int, ji) =~= seq![line]
                            + self.spec_dump_frame(ci, li + 1, va, limit as int)
                            + self.spec_dump_entries(fi, li, base, limit as int, ji + 1));
                        assert(out@ + self.spec_dump_entries(fi, li, base, limit as int, ji + 1)
                            =~= before + self.spec_dump_entries(fi, li, base, limit as int, ji));
                    }
                } else {
                    proof {
                        let fi = f as int;
                        let li = level as int;
                        let ji = j as int;
                        let line = DumpEntry {
                            level: level,
                            index: j as u64,
                            vaddr: va,
                            pte: e,
                        };
                        assert(self.spec_dump_entries(fi, li, base, limit as int, ji) =~= seq![line]
                            + self.spec_dump_entries(fi, li, base, limit as int, ji + 1));
                        assert(out@ + self.spec_dump_entries(fi, li, base, limit as int, ji + 1)
                            =~= before + self.spec_dump_entries(fi, li, base, limit as int, ji));
                    }
                }
            }
            j = j + 1;
        }
        proof {
            assert(out@ + self.spec_dump_entries(f as int, level as int, base, limit as int, 512)
                =~= out@);
        }
    }

    /// Walks the table and reports every present entry's level, index,
    /// reconstructed virtual address and raw encoding, descending only
    /// into levels below `limit`. Diagnostic only: the table is untouched.
    pub fn dump(&self, limit: usize) -> (r: Vec<DumpEntry<PTE>>)
        requires
            self.wf(),
        ensures
            r@ == self.spec_dump(limit as int),
    {
        let mut out: Vec<DumpEntry<PTE>> = Vec::new();
        self.dump_frame_into(0, 0, 0, limit, &mut out);
        proof {
            assert(out@ =~= self.spec_dump(limit as int));
        }
        out
    }
}

/// The bit position where a level's index field starts.
pub open spec fn spec_level_shift(level: int) -> u64 {
    if level == 0 {
        39
    } else if level == 1 {
        30
    } else if level == 2 {
        21
    } else {
        12
    }
}

/// The bit position where a level's index field starts.
fn level_shift(level: usize) -> (r: u64)
    requires
        level < 4,
    ensures
        r == spec_level_shift(level as int),
{
    if level == 0 {
        39
    } else if level == 1 {
        30
    } else if level == 2 {
        21
    } else {
        12
    }
}

/// A page-aligned address is its own page base.
proof fn lemma_aligned_fixpoint(va: u64)
    requires
        va % PAGE_SIZE == 0,
    ensures
        spec_align_down(va) == va,
{
    assert(va % 0x1000 == 0 ==> (va & 0xffff_ffff_ffff_f000u64) == va) by (bit_vector);
}

impl<PTE: GenericPTE> Level4PageTable<PTE> {
    /// Queries the mapping of `vaddr`: the mapped physical address (page
    /// base plus `vaddr`'s in-page offset) and the mapping's flags, or
    /// `InvalidParam` where `vaddr`'s page is not mapped.
    pub fn query(&self, vaddr: GuestPhysAddr) -> (r: RvmResult<(HostPhysAddr, MemFlags)>)
        requires
            self.wf(),
            vaddr < ADDR_SPACE_SIZE,
        ensures
            ({
                let key = spec_align_down(vaddr);
                match r {
                    Ok(pf) => self@.contains_key(key) && pf.0 == self@[key].0 + spec_page_offset(
                        vaddr,
                    ) && pf.1 == self@[key].1,
                    Err(e) => e == RvmError::InvalidParam && !self@.contains_key(key),
                }
            }),
    {
        proof {
            self.lemma_mapped_align(vaddr);
            lemma_align_in_space(vaddr);
        }
        match self.locate(vaddr) {
            None => Err(RvmError::InvalidParam),
            Some((f, j)) => {
                let slot = f * 512 + (j as usize);
                let e = self.entries[slot];
                proof {
                    assert(e == self.leaf_pte(vaddr));
                }
                if e.is_unused() {
                    Err(RvmError::InvalidParam)
                } else {
                    proof {
                        self.lemma_walk_path(vaddr, 3);
                        assert(self.leaf_entry_ok(f as int, j as int));
                    }
                    let off = page_offset(vaddr);
                    Ok((e.paddr() + off, e.flags()))
                }
            },
        }
    }
}

/// Every level index is a 9-bit value.
proof fn lemma_spec_index_bound(vaddr: u64)
    ensures
        forall|k: int| spec_index_of(vaddr, k) < 512,
{
    assert((vaddr >> 39) & 0x1ff < 512) by (bit_vector);
    assert((vaddr >> 30) & 0x1ff < 512) by (bit_vector);
    assert((vaddr >> 21) & 0x1ff < 512) by (bit_vector);
    assert((vaddr >> 12) & 0x1ff < 512) by (bit_vector);
}

/// The page base of an in-space address stays in the address space.
proof fn lemma_align_in_space(vaddr: u64)
    requires
        vaddr < ADDR_SPACE_SIZE,
    ensures
        spec_align_down(vaddr) < ADDR_SPACE_SIZE,
        spec_align_down(vaddr) % PAGE_SIZE == 0,
        spec_align_down(spec_align_down(vaddr)) == spec_align_down(vaddr),
{
    assert(vaddr < 0x1_0000_0000_0000u64 ==> (vaddr & 0xffff_ffff_ffff_f000u64)
        < 0x1_0000_0000_0000u64) by (bit_vector);
    assert((vaddr & 0xffff_ffff_ffff_f000u64) % 0x1000 == 0) by (bit_vector);
    assert(((vaddr & 0xffff_ffff_ffff_f000u64) & 0xffff_ffff_ffff_f000u64) == (vaddr
        & 0xffff_ffff_ffff_f000u64)) by (bit_vector);
}

/// The table index of an address at a given level.
fn level_index(vaddr: u64, level: usize) -> (r: u64)
    requires
        level < 4,
    ensures
        r == spec_index_of(vaddr, level as int),
        r < 512,
{
    if level == 0 {
        p4_index(vaddr)
    } else if level == 1 {
        p3_index(vaddr)
    } else if level == 2 {
        p2_index(vaddr)
    } else {
        p1_index(vaddr)
    }
}

impl<PTE: GenericPTE> View for Level4PageTable<PTE> {
    type V = Map<GuestPhysAddr, (HostPhysAddr, MemFlags)>;

    /// The abstract state: page-aligned mapped addresses to their mapping.
    closed spec fn view(&self) -> Self::V {
        Map::new(
            |va: u64| va < ADDR_SPACE_SIZE && va % PAGE_SIZE == 0 && self.is_mapped(va),
            |va: u64| (self.leaf_pte(va).spec_paddr(), self.leaf_pte(va).spec_flags()),
        )
    }
}

} // verus!
