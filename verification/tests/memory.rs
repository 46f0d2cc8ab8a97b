use cs2_killtimer::memory::Handle;

fn image(a: u64, n: usize) -> Option<Vec<u8>> {
    // bytes 0x10..0x30 hold their own low address byte; nothing else is mapped
    if a >= 0x10 && a + n as u64 <= 0x30 {
        Some((0..n as u64).map(|i| (a + i) as u8).collect())
    } else {
        None
    }
}

#[test]
fn add_and_sub_wrap() {
    let h = Handle::new(&image, 10);
    assert_eq!(h.add(5).addr(), 15);
    assert_eq!(h.add(-11).addr(), u64::MAX);
    assert_eq!(h.sub(11).addr(), u64::MAX);
    assert_eq!(h.sub(-5).addr(), 15);
    assert_eq!(h.add(7).sub(7).addr(), 10);
    let top = Handle::new(&image, u64::MAX);
    assert_eq!(top.add(1).addr(), 0);
    assert_eq!(h.sub(i64::MIN).addr(), 10u64.wrapping_add(1u64 << 63));
    assert!(Handle::new(&image, 0).is_null());
}

#[test]
fn typed_reads_are_little_endian() {
    let h = Handle::new(&image, 0x10);
    assert_eq!(h.read_or_u8(), 0x10);
    assert_eq!(h.read_or_u16(), 0x1110);
    assert_eq!(h.read_or_u32(), 0x1312_1110);
    assert_eq!(h.read_or_u64(), 0x1716_1514_1312_1110);
    assert_eq!(h.read_or_i32(), 0x1312_1110);
    assert_eq!(h.read_bytes(3), Some(vec![0x10, 0x11, 0x12]));
}

#[test]
fn failed_reads_give_zero() {
    let unmapped = Handle::new(&image, 0x2e);
    assert_eq!(unmapped.read_or_u32(), 0);
    assert_eq!(unmapped.read_bytes(4), None);
    assert_eq!(unmapped.read_or_u16(), 0x2f2e);
    let null = Handle::new(&image, 0);
    assert_eq!(null.read_or_u64(), 0);
    assert_eq!(null.read_bytes(1), None);
    assert!(null.deref().is_null());
}

#[test]
fn short_reads_fail() {
    let short = |_a: u64, n: usize| Some(vec![0xffu8; n - 1]);
    let h = Handle::new(&short, 0x100);
    assert_eq!(h.read_or_u32(), 0);
    assert_eq!(h.read_bytes(2), None);
}

#[test]
fn negative_i32_and_rip() {
    let neg = |_a: u64, n: usize| Some(vec![0xfeu8, 0xff, 0xff, 0xff].into_iter().take(n).collect::<Vec<u8>>());
    let h = Handle::new(&neg, 0x1000);
    assert_eq!(h.read_or_i32(), -2);
    // 0x1000 + 4 - 2
    assert_eq!(h.rip().addr(), 0x1002);
    let deref = Handle::new(&image, 0x18).deref();
    assert_eq!(deref.addr(), 0x1f1e_1d1c_1b1a_1918);
}
