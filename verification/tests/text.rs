use cs2_killtimer::text::{
    ascii_lowercase, contains, decimal_string, eq_ignore_ascii_case, str_eq, trimmed_starts_with,
    wide_eq_ascii, wide_str,
};

#[test]
fn decimal_formatting() {
    assert_eq!(decimal_string(0), "0");
    assert_eq!(decimal_string(7), "7");
    assert_eq!(decimal_string(10), "10");
    assert_eq!(decimal_string(1234567890), "1234567890");
    assert_eq!(decimal_string(u64::MAX), u64::MAX.to_string());
}

#[test]
fn case_and_search() {
    assert_eq!(ascii_lowercase("AbC_9Ü"), "abc_9Ü");
    assert!(eq_ignore_ascii_case("CS2.EXE", "cs2.exe"));
    assert!(!eq_ignore_ascii_case("cs2.ex", "cs2.exe"));
    assert!(contains("weapon_ak47", "ak47"));
    assert!(contains("abc", ""));
    assert!(!contains("ak4", "ak47"));
    assert!(contains("knife_karambit", "knife"));
    assert!(str_eq("same", "same"));
    assert!(!str_eq("same", "sane"));
}

#[test]
fn trimmed_prefix() {
    assert!(trimmed_starts_with("  Counter-Strike 2 ", "Counter-Strike 2"));
    assert!(trimmed_starts_with("\u{3000}Counter-Strike 2 - Direct3D", "Counter-Strike 2"));
    assert!(!trimmed_starts_with("Counter-Strike", "Counter-Strike 2"));
    assert!(!trimmed_starts_with("   ", "C"));
    assert!(trimmed_starts_with("   ", ""));
}

#[test]
fn utf16_round_trip() {
    let w = wide_str("cs2.exe");
    assert_eq!(w, "cs2.exe".encode_utf16().chain(std::iter::once(0)).collect::<Vec<u16>>());
    let s = "a\u{10437}é";
    assert_eq!(wide_str(s), s.encode_utf16().chain(std::iter::once(0)).collect::<Vec<u16>>());
    let mut buf = [0u16; 16];
    for (i, u) in "CS2.exe".encode_utf16().enumerate() {
        buf[i] = u;
    }
    assert!(wide_eq_ascii(&buf, "cs2.exe"));
    assert!(!wide_eq_ascii(&buf, "cs2.ex"));
    // no terminator: the whole slice counts
    let full: Vec<u16> = "cs2.exe".encode_utf16().collect();
    assert!(wide_eq_ascii(&full, "CS2.EXE"));
    // an unpaired surrogate decodes to U+FFFD
    assert!(wide_eq_ascii(&[0xD800, 0x41, 0], "\u{FFFD}a"));
    assert!(wide_eq_ascii(&[0xD801, 0xDC37, 0], "\u{10437}"));
}

#[test]
fn wide_strings_decode_back() {
    for s in ["cs2.exe", "Counter-Strike 2", "", "é\u{1F600}x", "\u{FFFD}"] {
        assert!(wide_eq_ascii(&wide_str(s), s), "{s}");
    }
}

#[test]
fn wide_strings_with_nul_decode_back() {
    for s in ["a\0b", "\0", "x\u{10437}\0\u{FFFD}"] {
        let w = wide_str(s);
        assert_eq!(w.len(), s.encode_utf16().count() + 1);
        assert_eq!(*w.last().unwrap(), 0);
        assert_eq!(String::from_utf16(&w[..w.len() - 1]).unwrap(), s);
    }
}
