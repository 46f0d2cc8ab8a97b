use cs2_killtimer::handles::{
    donor_entries, find_donor, find_word, handle_entries, next_region, region_scannable, table_query_step,
    scan_region, HandleEntry, Region, RegionStep, TableQuery, MEM_COMMIT, PAGE_GUARD, PAGE_NOACCESS, TABLE_INITIAL_LEN,
};

fn entry_bytes(pid: u16, handle_value: u16, granted: u32) -> Vec<u8> {
    let mut e = vec![0u8; 24];
    e[0..2].copy_from_slice(&pid.to_le_bytes());
    e[2] = 0xAA; // creator back-trace index: not read
    e[4] = 7; // object type: not read
    e[6..8].copy_from_slice(&handle_value.to_le_bytes());
    e[8..16].copy_from_slice(&0xDEAD_BEEF_u64.to_le_bytes()); // object pointer: not read
    e[16..20].copy_from_slice(&granted.to_le_bytes());
    e
}

fn table(count: u32, entries: &[(u16, u16, u32)]) -> Vec<u8> {
    let mut b = count.to_le_bytes().to_vec();
    for &(p, h, g) in entries {
        b.extend(entry_bytes(p, h, g));
    }
    b
}

#[test]
fn table_entries_are_parsed_in_order() {
    let buf = table(2, &[(0x1234, 0x44, 0x1FFFFF), (8, 0x1000, 0x0410)]);
    let es = handle_entries(&buf);
    assert_eq!(
        es,
        vec![
            HandleEntry { pid: 0x1234, handle_value: 0x44, granted_access: 0x1FFFFF },
            HandleEntry { pid: 8, handle_value: 0x1000, granted_access: 0x0410 },
        ]
    );
}

#[test]
fn table_count_is_clipped_to_the_buffer() {
    // the count says 5 but only one whole entry follows (plus a partial one)
    let mut buf = table(5, &[(3, 4, 5)]);
    buf.extend(vec![0u8; 10]);
    assert_eq!(handle_entries(&buf).len(), 1);
    // a count below what the buffer holds wins
    let buf = table(1, &[(3, 4, 5), (6, 7, 8)]);
    assert_eq!(handle_entries(&buf), vec![HandleEntry { pid: 3, handle_value: 4, granted_access: 5 }]);
    assert!(handle_entries(&[1, 0]).is_empty());
}

#[test]
fn donors_cover_the_requested_access() {
    let es = vec![
        HandleEntry { pid: 1, handle_value: 4, granted_access: 0x0010 },
        HandleEntry { pid: 2, handle_value: 8, granted_access: 0x0410 },
        HandleEntry { pid: 3, handle_value: 12, granted_access: 0x1F0FFF },
        HandleEntry { pid: 4, handle_value: 16, granted_access: 0x0400 },
    ];
    let d = donor_entries(&es, 0x0410);
    assert_eq!(d.iter().map(|e| e.pid).collect::<Vec<_>>(), vec![2, 3]);
    assert_eq!(donor_entries(&es, 0).len(), 4);
}

#[test]
fn table_query_grows_then_fails_or_succeeds() {
    let mismatch = 0xC000_0004_u32 as i32;
    assert_eq!(table_query_step(mismatch, TABLE_INITIAL_LEN, 100), TableQuery::Grow(2 * TABLE_INITIAL_LEN));
    assert_eq!(table_query_step(mismatch, 1000, 5000), TableQuery::Grow(9096));
    assert_eq!(table_query_step(0xC000_0022_u32 as i32, 1000, 0), TableQuery::Failed(0xC000_0022));
    assert_eq!(table_query_step(0, 1000, 0), TableQuery::Ready);
}

#[test]
fn only_readable_committed_regions_are_scanned() {
    assert!(region_scannable(MEM_COMMIT, 0x04));
    assert!(!region_scannable(MEM_COMMIT, 0x04 | PAGE_GUARD));
    assert!(!region_scannable(MEM_COMMIT, PAGE_NOACCESS));
    assert!(!region_scannable(0x2000, 0x04));
}

#[test]
fn region_walk_stops_on_wrap() {
    assert_eq!(next_region(0x1000, 0x2000), Some(0x3000));
    assert_eq!(next_region(0x1000, 0), None);
    assert_eq!(next_region(u64::MAX - 0xFFF, 0x1000), None);
    assert_eq!(next_region(u64::MAX - 0xFFF, 0x2000), None);
}

#[test]
fn word_scan_finds_every_slot() {
    let mut bytes = Vec::new();
    for w in [7u64, 0x2C4, 9, 0x2C4] {
        bytes.extend(w.to_le_bytes());
    }
    bytes.extend([0xC4, 0x02, 0, 0]); // a partial word is not scanned
    assert_eq!(find_word(&bytes, 0x2C4), vec![8, 24]);
    assert!(find_word(&bytes, 5).is_empty());
}

#[test]
fn first_granting_entry_that_checks_out_is_the_donor() {
    let es = vec![
        HandleEntry { pid: 1, handle_value: 4, granted_access: 0x0410 },
        HandleEntry { pid: 2, handle_value: 8, granted_access: 0x0010 },
        HandleEntry { pid: 3, handle_value: 12, granted_access: 0x1F0FFF },
        HandleEntry { pid: 4, handle_value: 16, granted_access: 0x0410 },
    ];
    let tried = std::cell::RefCell::new(Vec::new());
    let check = |e: HandleEntry| {
        tried.borrow_mut().push(e.pid);
        e.pid >= 3
    };
    assert_eq!(find_donor(&es, 0x0410, &check), Some(2));
    // entry 2 does not grant the access and is never tried
    assert_eq!(*tried.borrow(), vec![1, 3]);
    assert_eq!(find_donor(&es, 0x0410, &|_e: HandleEntry| false), None);
    assert_eq!(find_donor(&es, 0x0001_0000, &|_e: HandleEntry| true), Some(2));
}

#[test]
fn region_step_finds_the_first_slot_that_checks_out() {
    let mut bytes = Vec::new();
    for w in [0x2C4u64, 1, 0x2C4, 0x2C4] {
        bytes.extend(w.to_le_bytes());
    }
    let bytes = Some(bytes);
    let readable = Region { size: 0x1000, state: MEM_COMMIT, protect: 0x04 };
    // the first slot fails the check, the second passes
    let check = |a: u64| a >= 0x5010;
    assert_eq!(scan_region(0x5000, readable, &bytes, 0x2C4, &check), RegionStep::Found(0x5010));
    // nothing passes: on to the next region
    assert_eq!(scan_region(0x5000, readable, &bytes, 0x2C4, &|_a: u64| false), RegionStep::Next(0x6000));
    // a guard region is not scanned
    let guard = Region { size: 0x1000, state: MEM_COMMIT, protect: 0x04 | PAGE_GUARD };
    assert_eq!(scan_region(0x5000, guard, &bytes, 0x2C4, &|_a: u64| true), RegionStep::Next(0x6000));
    // an unread region is passed over, and the last region ends the walk
    assert_eq!(scan_region(u64::MAX - 0xFFF, readable, &None, 0x2C4, &|_a: u64| true), RegionStep::Done);
}
