use cs2_killtimer::weapons::Kind::{Firearm, NonBullet, Unknown};
use cs2_killtimer::weapons::{classify, display_name, is_kill_ignored, lookup, table, TABLE_LEN};

#[test]
fn table_sorted_by_id() {
    let table = table();
    assert!(table.windows(2).all(|p| p[0].id < p[1].id));
}

#[test]
fn classification() {
    assert_eq!(classify(7), Firearm); // ak47
    assert_eq!(classify(31), NonBullet); // taser
    assert_eq!(classify(44), NonBullet); // hegrenade
    assert_eq!(classify(525), NonBullet); // knife
    assert_eq!(classify(501), NonBullet); // unknown knife range
    assert_eq!(classify(9999), Unknown);
    assert!(is_kill_ignored(31));
    assert!(!is_kill_ignored(7));
}

#[test]
fn display() {
    assert_eq!(display_name(7), "ak47");
    assert_eq!(display_name(9999), "item_9999");
}

#[test]
fn table_has_every_listed_weapon() {
    let t = table();
    assert_eq!(t.len(), TABLE_LEN);
    for w in &t {
        let found = lookup(w.id).expect("listed id is found");
        assert_eq!(found.id, w.id);
        assert_eq!(found.name, w.name);
        assert_eq!(found.kind, w.kind);
    }
}

#[test]
fn lookup_misses_unlisted_ids() {
    for id in [0u16, 5, 6, 12, 15, 50, 499, 501, 527, 600, 65535] {
        assert!(lookup(id).is_none(), "id {id}");
    }
    assert_eq!(lookup(1).unwrap().name, "deagle");
    assert_eq!(lookup(526).unwrap().name, "knife_kukri");
}

#[test]
fn classify_edges_of_knife_range() {
    assert_eq!(classify(499), Unknown);
    assert_eq!(classify(500), NonBullet); // bayonet, listed
    assert_eq!(classify(599), NonBullet);
    assert_eq!(classify(600), Unknown);
    assert_eq!(classify(0), Unknown);
    assert!(is_kill_ignored(600));
    assert!(is_kill_ignored(42)); // knife
    assert!(!is_kill_ignored(61)); // usp_s
}

#[test]
fn display_names_of_edge_ids() {
    assert_eq!(display_name(0), "item_0");
    assert_eq!(display_name(65535), "item_65535");
    assert_eq!(display_name(526), "knife_kukri");
    assert_eq!(display_name(10), "famas");
}

#[test]
fn display_names_are_distinct() {
    let mut names: Vec<String> = (0..=2000u16).map(display_name).collect();
    names.push(display_name(u16::MAX));
    let mut sorted = names.clone();
    sorted.sort();
    sorted.dedup();
    assert_eq!(sorted.len(), names.len());
    assert_eq!(display_name(7), "ak47");
    assert_eq!(display_name(1000), "item_1000");
}
