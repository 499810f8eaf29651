use rvm_core::error::RvmError;
use rvm_core::mm::page_table::{
    align_down, p1_index, p2_index, p3_index, p4_index, page_offset, GenericPTE, Level4PageTable,
    FRAME_BASE,
};
use rvm_core::mm::pte::SimplePte;
use rvm_core::mm::MemFlags;

fn rw() -> MemFlags {
    MemFlags::read().union(MemFlags::write())
}

fn rwx() -> MemFlags {
    MemFlags::read().union(MemFlags::write()).union(MemFlags::execute())
}

#[test]
fn index_extraction_zero() {
    assert_eq!(p4_index(0), 0);
    assert_eq!(p3_index(0), 0);
    assert_eq!(p2_index(0), 0);
    assert_eq!(p1_index(0), 0);
    assert_eq!(page_offset(0), 0);
}

#[test]
fn index_extraction_top_address() {
    let va: u64 = (1u64 << 48) - 1;
    assert_eq!(p4_index(va), 511);
    assert_eq!(p3_index(va), 511);
    assert_eq!(p2_index(va), 511);
    assert_eq!(p1_index(va), 511);
    assert_eq!(page_offset(va), 0xfff);
}

#[test]
fn index_extraction_level_boundaries() {
    assert_eq!(p4_index(1u64 << 39), 1);
    assert_eq!(p3_index(1u64 << 39), 0);
    assert_eq!(p3_index(1u64 << 30), 1);
    assert_eq!(p2_index(1u64 << 30), 0);
    assert_eq!(p2_index(1u64 << 21), 1);
    assert_eq!(p1_index(1u64 << 21), 0);
    assert_eq!(p1_index(1u64 << 12), 1);
    assert_eq!(page_offset(1u64 << 12), 0);
}

#[test]
fn index_recombination() {
    for &va in &[
        0u64,
        (1u64 << 48) - 1,
        1u64 << 39,
        1u64 << 30,
        1u64 << 21,
        1u64 << 12,
        0x8000u64,
        0x1234_5678_9abcu64,
    ] {
        let rebuilt = (p4_index(va) << 39)
            | (p3_index(va) << 30)
            | (p2_index(va) << 21)
            | (p1_index(va) << 12)
            | page_offset(va);
        assert_eq!(rebuilt, va);
        assert!(p4_index(va) < 512);
        assert!(p3_index(va) < 512);
        assert!(p2_index(va) < 512);
        assert!(p1_index(va) < 512);
    }
}

#[test]
fn align_down_formula() {
    assert_eq!(align_down(0x8123), 0x8000);
    assert_eq!(align_down(0x8000), 0x8000);
    assert_eq!(align_down(0xfff), 0);
    assert_eq!(page_offset(0x8123), 0x123);
}

#[test]
fn new_table_root() {
    let t = Level4PageTable::<SimplePte>::new().unwrap();
    assert_eq!(t.root_paddr(), FRAME_BASE);
}

#[test]
fn query_of_absent_fails() {
    let t = Level4PageTable::<SimplePte>::new().unwrap();
    assert_eq!(t.query(0x8000), Err(RvmError::InvalidParam));
}

#[test]
fn unmap_of_absent_fails() {
    let mut t = Level4PageTable::<SimplePte>::new().unwrap();
    assert_eq!(t.unmap(0x8000), Err(RvmError::InvalidParam));
}

#[test]
fn update_of_absent_fails() {
    let mut t = Level4PageTable::<SimplePte>::new().unwrap();
    assert_eq!(t.update(0x8000, Some(0x9000), None), Err(RvmError::InvalidParam));
}

#[test]
fn map_then_query_with_offsets() {
    let mut t = Level4PageTable::<SimplePte>::new().unwrap();
    t.map(0x8000, 0x9000, rw()).unwrap();
    assert_eq!(t.query(0x8000), Ok((0x9000, rw())));
    assert_eq!(t.query(0x8123), Ok((0x9123, rw())));
    assert_eq!(t.query(0x8fff), Ok((0x9fff, rw())));
}

#[test]
fn double_map_rejected_and_mapping_kept() {
    let mut t = Level4PageTable::<SimplePte>::new().unwrap();
    t.map(0x8000, 0x9000, rw()).unwrap();
    assert_eq!(t.map(0x8000, 0xa000, rwx()), Err(RvmError::InvalidParam));
    assert_eq!(t.query(0x8000), Ok((0x9000, rw())));
}

#[test]
fn map_distinct_pages() {
    let mut t = Level4PageTable::<SimplePte>::new().unwrap();
    t.map(0, 0x1000, MemFlags::read()).unwrap();
    t.map(0x8000, 0x9000, rw()).unwrap();
    t.map(0xffff_ffff_f000, 0x3000, rwx()).unwrap();
    assert_eq!(t.query(0), Ok((0x1000, MemFlags::read())));
    assert_eq!(t.query(0x8000), Ok((0x9000, rw())));
    assert_eq!(t.query(0xffff_ffff_f000), Ok((0x3000, rwx())));
}

#[test]
fn unaligned_arguments_are_aligned() {
    let mut t = Level4PageTable::<SimplePte>::new().unwrap();
    t.map(0x8123, 0x9456, rw()).unwrap();
    assert_eq!(t.query(0x8000), Ok((0x9000, rw())));
    assert_eq!(t.unmap(0x8789), Ok(0x9000));
}

#[test]
fn update_flags_only() {
    let mut t = Level4PageTable::<SimplePte>::new().unwrap();
    t.map(0x8000, 0x9000, rw()).unwrap();
    t.update(0x8000, None, Some(rwx())).unwrap();
    assert_eq!(t.query(0x8000), Ok((0x9000, rwx())));
}

#[test]
fn update_paddr_only() {
    let mut t = Level4PageTable::<SimplePte>::new().unwrap();
    t.map(0x8000, 0x9000, rw()).unwrap();
    t.update(0x8000, Some(0xa000), None).unwrap();
    assert_eq!(t.query(0x8000), Ok((0xa000, rw())));
}

#[test]
fn end_to_end_scenario() {
    let mut t = Level4PageTable::<SimplePte>::new().unwrap();
    t.map(0x8000, 0x9000, rw()).unwrap();
    assert_eq!(t.query(0x8000), Ok((0x9000, rw())));
    t.update(0x8000, None, Some(rwx())).unwrap();
    assert_eq!(t.query(0x8000).unwrap().1, rwx());
    assert_eq!(t.unmap(0x8000), Ok(0x9000));
    assert_eq!(t.query(0x8000), Err(RvmError::InvalidParam));
}

#[test]
fn remap_after_unmap() {
    let mut t = Level4PageTable::<SimplePte>::new().unwrap();
    t.map(0x8000, 0x9000, rw()).unwrap();
    assert_eq!(t.unmap(0x8000), Ok(0x9000));
    t.map(0x8000, 0xb000, MemFlags::read()).unwrap();
    assert_eq!(t.query(0x8000), Ok((0xb000, MemFlags::read())));
}

#[test]
fn dump_reports_path_to_mapping() {
    let mut t = Level4PageTable::<SimplePte>::new().unwrap();
    t.map(0x8000, 0x9000, rw()).unwrap();
    let lines = t.dump(4);
    assert_eq!(lines.len(), 4);
    assert_eq!(lines[0].level, 0);
    assert_eq!(lines[0].index, 0);
    assert_eq!(lines[0].vaddr, 0);
    assert_eq!(lines[1].level, 1);
    assert_eq!(lines[2].level, 2);
    assert_eq!(lines[3].level, 3);
    assert_eq!(lines[3].index, 8);
    assert_eq!(lines[3].vaddr, 0x8000);
    assert_eq!(lines[3].pte.paddr(), 0x9000);
    assert!(lines[3].pte.is_present());
}

#[test]
fn dump_depth_bound() {
    let mut t = Level4PageTable::<SimplePte>::new().unwrap();
    t.map(0x8000, 0x9000, rw()).unwrap();
    let lines = t.dump(1);
    assert_eq!(lines.len(), 1);
    assert_eq!(lines[0].level, 0);
    assert_eq!(t.dump(0).len(), 0);
}

#[test]
fn sibling_pages_share_intermediate_frames() {
    let mut t = Level4PageTable::<SimplePte>::new().unwrap();
    t.map(0x8000, 0x9000, rw()).unwrap();
    t.map(0x9000, 0xc000, rwx()).unwrap();
    // One path of intermediate frames, two leaf entries.
    let lines = t.dump(4);
    assert_eq!(lines.len(), 5);
    assert_eq!(lines[3].level, 3);
    assert_eq!(lines[3].vaddr, 0x8000);
    assert_eq!(lines[4].level, 3);
    assert_eq!(lines[4].vaddr, 0x9000);
    assert_eq!(t.unmap(0x8000), Ok(0x9000));
    assert_eq!(t.query(0x8000), Err(RvmError::InvalidParam));
    assert_eq!(t.query(0x9000), Ok((0xc000, rwx())));
}

#[test]
fn mem_flags_operations() {
    assert_eq!(MemFlags::empty().bits(), 0);
    assert_eq!(MemFlags::read().bits(), 1);
    assert_eq!(MemFlags::write().bits(), 2);
    assert_eq!(MemFlags::execute().bits(), 4);
    assert_eq!(MemFlags::device().bits(), 8);
    assert_eq!(MemFlags::user().bits(), 16);
    assert_eq!(rw().bits(), 3);
    assert!(rwx().contains(MemFlags::write()));
    assert!(!rw().contains(MemFlags::execute()));
    assert_eq!(MemFlags::from_bits_truncate(0xff), MemFlags::from_bits_truncate(0x1f));
    assert_eq!(MemFlags::from_bits_truncate(0x3).bits(), 3);
}

#[test]
fn simple_pte_encoding() {
    let pte = SimplePte::new_page(0x9000, rw(), false);
    assert_eq!(pte.bits(), 0x9000 | (0x3 << 2) | 1);
    assert_eq!(pte.paddr(), 0x9000);
    assert_eq!(pte.flags(), rw());
    assert!(pte.is_present());
    assert!(!pte.is_huge());
    assert!(!pte.is_unused());

    let huge = SimplePte::new_page(0x20_0000, MemFlags::read(), true);
    assert!(huge.is_huge());

    let table = SimplePte::new_table(0x5000);
    assert_eq!(table.paddr(), 0x5000);
    assert!(table.is_present());
    assert!(!table.is_huge());

    let mut cleared = pte;
    cleared.clear();
    assert!(cleared.is_unused());
    assert_eq!(cleared.bits(), 0);
}
