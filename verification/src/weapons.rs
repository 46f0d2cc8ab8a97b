//! The weapon table: names and kinds by item definition index, and the
//! classification of kills by the weapon that made them.

use vstd::prelude::*;

use crate::text::{ascii_lower, ascii_lowercase, contains, decimal, digit_char, is_substring, push_decimal};

verus! {

/// What a weapon fires.
#[derive(Copy, Clone, Eq, PartialEq, Debug, Structural)]
pub enum Kind {
    Firearm,
    NonBullet,
    Unknown,
}

/// A known weapon.
#[derive(Copy, Clone, Debug)]
pub struct Weapon {
    pub id: u16,
    pub name: &'static str,
    pub kind: Kind,
}

/// A weapon as the contracts see it.
pub struct WeaponView {
    pub id: u16,
    pub name: Seq<char>,
    pub kind: Kind,
}

impl View for Weapon {
    type V = WeaponView;

    open spec fn view(&self) -> WeaponView {
        WeaponView { id: self.id, name: self.name@, kind: self.kind }
    }
}

/// Number of entries of the weapon table.
pub const TABLE_LEN: usize = 80;

/// Entry `i` of the weapon table. The table is sorted by id.
pub open spec fn table_entry(i: int) -> WeaponView {
    if i == 0 {
        WeaponView { id: 1, name: "deagle"@, kind: Kind::Firearm }
    } else
    if i == 1 {
        WeaponView { id: 2, name: "dual_berettas"@, kind: Kind::Firearm }
    } else
    if i == 2 {
        WeaponView { id: 3, name: "five_seven"@, kind: Kind::Firearm }
    } else
    if i == 3 {
        WeaponView { id: 4, name: "glock"@, kind: Kind::Firearm }
    } else
    if i == 4 {
        WeaponView { id: 7, name: "ak47"@, kind: Kind::Firearm }
    } else
    if i == 5 {
        WeaponView { id: 8, name: "aug"@, kind: Kind::Firearm }
    } else
    if i == 6 {
        WeaponView { id: 9, name: "awp"@, kind: Kind::Firearm }
    } else
    if i == 7 {
        WeaponView { id: 10, name: "famas"@, kind: Kind::Firearm }
    } else
    if i == 8 {
        WeaponView { id: 11, name: "g3sg1"@, kind: Kind::Firearm }
    } else
    if i == 9 {
        WeaponView { id: 13, name: "galil_ar"@, kind: Kind::Firearm }
    } else
    if i == 10 {
        WeaponView { id: 14, name: "m249"@, kind: Kind::Firearm }
    } else
    if i == 11 {
        WeaponView { id: 16, name: "m4a4"@, kind: Kind::Firearm }
    } else
    if i == 12 {
        WeaponView { id: 17, name: "mac10"@, kind: Kind::Firearm }
    } else
    if i == 13 {
        WeaponView { id: 19, name: "p90"@, kind: Kind::Firearm }
    } else
    if i == 14 {
        WeaponView { id: 23, name: "mp5sd"@, kind: Kind::Firearm }
    } else
    if i == 15 {
        WeaponView { id: 24, name: "ump45"@, kind: Kind::Firearm }
    } else
    if i == 16 {
        WeaponView { id: 25, name: "xm1014"@, kind: Kind::Firearm }
    } else
    if i == 17 {
        WeaponView { id: 26, name: "bizon"@, kind: Kind::Firearm }
    } else
    if i == 18 {
        WeaponView { id: 27, name: "mag7"@, kind: Kind::Firearm }
    } else
    if i == 19 {
        WeaponView { id: 28, name: "negev"@, kind: Kind::Firearm }
    } else
    if i == 20 {
        WeaponView { id: 29, name: "sawedoff"@, kind: Kind::Firearm }
    } else
    if i == 21 {
        WeaponView { id: 30, name: "tec9"@, kind: Kind::Firearm }
    } else
    if i == 22 {
        WeaponView { id: 31, name: "taser"@, kind: Kind::NonBullet }
    } else
    if i == 23 {
        WeaponView { id: 32, name: "p2000"@, kind: Kind::Firearm }
    } else
    if i == 24 {
        WeaponView { id: 33, name: "mp7"@, kind: Kind::Firearm }
    } else
    if i == 25 {
        WeaponView { id: 34, name: "mp9"@, kind: Kind::Firearm }
    } else
    if i == 26 {
        WeaponView { id: 35, name: "nova"@, kind: Kind::Firearm }
    } else
    if i == 27 {
        WeaponView { id: 36, name: "p250"@, kind: Kind::Firearm }
    } else
    if i == 28 {
        WeaponView { id: 37, name: "shield"@, kind: Kind::NonBullet }
    } else
    if i == 29 {
        WeaponView { id: 38, name: "scar20"@, kind: Kind::Firearm }
    } else
    if i == 30 {
        WeaponView { id: 39, name: "sg553"@, kind: Kind::Firearm }
    } else
    if i == 31 {
        WeaponView { id: 40, name: "ssg08"@, kind: Kind::Firearm }
    } else
    if i == 32 {
        WeaponView { id: 41, name: "knifegg"@, kind: Kind::NonBullet }
    } else
    if i == 33 {
        WeaponView { id: 42, name: "knife"@, kind: Kind::NonBullet }
    } else
    if i == 34 {
        WeaponView { id: 43, name: "flashbang"@, kind: Kind::NonBullet }
    } else
    if i == 35 {
        WeaponView { id: 44, name: "hegrenade"@, kind: Kind::NonBullet }
    } else
    if i == 36 {
        WeaponView { id: 45, name: "smokegrenade"@, kind: Kind::NonBullet }
    } else
    if i == 37 {
        WeaponView { id: 46, name: "molotov"@, kind: Kind::NonBullet }
    } else
    if i == 38 {
        WeaponView { id: 47, name: "decoy"@, kind: Kind::NonBullet }
    } else
    if i == 39 {
        WeaponView { id: 48, name: "incgrenade"@, kind: Kind::NonBullet }
    } else
    if i == 40 {
        WeaponView { id: 49, name: "c4"@, kind: Kind::NonBullet }
    } else
    if i == 41 {
        WeaponView { id: 57, name: "healthshot"@, kind: Kind::NonBullet }
    } else
    if i == 42 {
        WeaponView { id: 59, name: "knife_t"@, kind: Kind::NonBullet }
    } else
    if i == 43 {
        WeaponView { id: 60, name: "m4a1s"@, kind: Kind::Firearm }
    } else
    if i == 44 {
        WeaponView { id: 61, name: "usp_s"@, kind: Kind::Firearm }
    } else
    if i == 45 {
        WeaponView { id: 63, name: "cz75_auto"@, kind: Kind::Firearm }
    } else
    if i == 46 {
        WeaponView { id: 64, name: "r8_revolver"@, kind: Kind::Firearm }
    } else
    if i == 47 {
        WeaponView { id: 68, name: "tagrenade"@, kind: Kind::NonBullet }
    } else
    if i == 48 {
        WeaponView { id: 69, name: "fists"@, kind: Kind::NonBullet }
    } else
    if i == 49 {
        WeaponView { id: 70, name: "breachcharge"@, kind: Kind::NonBullet }
    } else
    if i == 50 {
        WeaponView { id: 72, name: "tablet"@, kind: Kind::NonBullet }
    } else
    if i == 51 {
        WeaponView { id: 75, name: "axe"@, kind: Kind::NonBullet }
    } else
    if i == 52 {
        WeaponView { id: 76, name: "hammer"@, kind: Kind::NonBullet }
    } else
    if i == 53 {
        WeaponView { id: 78, name: "spanner"@, kind: Kind::NonBullet }
    } else
    if i == 54 {
        WeaponView { id: 80, name: "knife_ghost"@, kind: Kind::NonBullet }
    } else
    if i == 55 {
        WeaponView { id: 81, name: "firebomb"@, kind: Kind::NonBullet }
    } else
    if i == 56 {
        WeaponView { id: 82, name: "diversion"@, kind: Kind::NonBullet }
    } else
    if i == 57 {
        WeaponView { id: 83, name: "frag_grenade"@, kind: Kind::NonBullet }
    } else
    if i == 58 {
        WeaponView { id: 84, name: "snowball"@, kind: Kind::NonBullet }
    } else
    if i == 59 {
        WeaponView { id: 85, name: "bumpmine"@, kind: Kind::NonBullet }
    } else
    if i == 60 {
        WeaponView { id: 500, name: "bayonet"@, kind: Kind::NonBullet }
    } else
    if i == 61 {
        WeaponView { id: 503, name: "knife_css"@, kind: Kind::NonBullet }
    } else
    if i == 62 {
        WeaponView { id: 505, name: "knife_flip"@, kind: Kind::NonBullet }
    } else
    if i == 63 {
        WeaponView { id: 506, name: "knife_gut"@, kind: Kind::NonBullet }
    } else
    if i == 64 {
        WeaponView { id: 507, name: "knife_karambit"@, kind: Kind::NonBullet }
    } else
    if i == 65 {
        WeaponView { id: 508, name: "knife_m9_bayonet"@, kind: Kind::NonBullet }
    } else
    if i == 66 {
        WeaponView { id: 509, name: "knife_tactical"@, kind: Kind::NonBullet }
    } else
    if i == 67 {
        WeaponView { id: 512, name: "knife_falchion"@, kind: Kind::NonBullet }
    } else
    if i == 68 {
        WeaponView { id: 514, name: "knife_survival_bowie"@, kind: Kind::NonBullet }
    } else
    if i == 69 {
        WeaponView { id: 515, name: "knife_butterfly"@, kind: Kind::NonBullet }
    } else
    if i == 70 {
        WeaponView { id: 516, name: "knife_push"@, kind: Kind::NonBullet }
    } else
    if i == 71 {
        WeaponView { id: 517, name: "knife_cord"@, kind: Kind::NonBullet }
    } else
    if i == 72 {
        WeaponView { id: 518, name: "knife_canis"@, kind: Kind::NonBullet }
    } else
    if i == 73 {
        WeaponView { id: 519, name: "knife_ursus"@, kind: Kind::NonBullet }
    } else
    if i == 74 {
        WeaponView { id: 520, name: "knife_gypsy_jackknife"@, kind: Kind::NonBullet }
    } else
    if i == 75 {
        WeaponView { id: 521, name: "knife_outdoor"@, kind: Kind::NonBullet }
    } else
    if i == 76 {
        WeaponView { id: 522, name: "knife_stiletto"@, kind: Kind::NonBullet }
    } else
    if i == 77 {
        WeaponView { id: 523, name: "knife_widowmaker"@, kind: Kind::NonBullet }
    } else
    if i == 78 {
        WeaponView { id: 525, name: "knife_skeleton"@, kind: Kind::NonBullet }
    } else
    if i == 79 {
        WeaponView { id: 526, name: "knife_kukri"@, kind: Kind::NonBullet }
    } else {
        WeaponView { id: 0, name: Seq::empty(), kind: Kind::Unknown }
    }
}

/// The weapon table, in order.
pub open spec fn table_spec() -> Seq<WeaponView> {
    Seq::new(TABLE_LEN as nat, |i: int| table_entry(i))
}

/// Entry `i` of the weapon table.
fn weapon_at(i: usize) -> (w: Weapon)
    requires
        i < TABLE_LEN,
    ensures
        w@ == table_entry(i as int),
{
    match i {
        0 => Weapon { id: 1, name: "deagle", kind: Kind::Firearm },
        1 => Weapon { id: 2, name: "dual_berettas", kind: Kind::Firearm },
        2 => Weapon { id: 3, name: "five_seven", kind: Kind::Firearm },
        3 => Weapon { id: 4, name: "glock", kind: Kind::Firearm },
        4 => Weapon { id: 7, name: "ak47", kind: Kind::Firearm },
        5 => Weapon { id: 8, name: "aug", kind: Kind::Firearm },
        6 => Weapon { id: 9, name: "awp", kind: Kind::Firearm },
        7 => Weapon { id: 10, name: "famas", kind: Kind::Firearm },
        8 => Weapon { id: 11, name: "g3sg1", kind: Kind::Firearm },
        9 => Weapon { id: 13, name: "galil_ar", kind: Kind::Firearm },
        10 => Weapon { id: 14, name: "m249", kind: Kind::Firearm },
        11 => Weapon { id: 16, name: "m4a4", kind: Kind::Firearm },
        12 => Weapon { id: 17, name: "mac10", kind: Kind::Firearm },
        13 => Weapon { id: 19, name: "p90", kind: Kind::Firearm },
        14 => Weapon { id: 23, name: "mp5sd", kind: Kind::Firearm },
        15 => Weapon { id: 24, name: "ump45", kind: Kind::Firearm },
        16 => Weapon { id: 25, name: "xm1014", kind: Kind::Firearm },
        17 => Weapon { id: 26, name: "bizon", kind: Kind::Firearm },
        18 => Weapon { id: 27, name: "mag7", kind: Kind::Firearm },
        19 => Weapon { id: 28, name: "negev", kind: Kind::Firearm },
        20 => Weapon { id: 29, name: "sawedoff", kind: Kind::Firearm },
        21 => Weapon { id: 30, name: "tec9", kind: Kind::Firearm },
        22 => Weapon { id: 31, name: "taser", kind: Kind::NonBullet },
        23 => Weapon { id: 32, name: "p2000", kind: Kind::Firearm },
        24 => Weapon { id: 33, name: "mp7", kind: Kind::Firearm },
        25 => Weapon { id: 34, name: "mp9", kind: Kind::Firearm },
        26 => Weapon { id: 35, name: "nova", kind: Kind::Firearm },
        27 => Weapon { id: 36, name: "p250", kind: Kind::Firearm },
        28 => Weapon { id: 37, name: "shield", kind: Kind::NonBullet },
        29 => Weapon { id: 38, name: "scar20", kind: Kind::Firearm },
        30 => Weapon { id: 39, name: "sg553", kind: Kind::Firearm },
        31 => Weapon { id: 40, name: "ssg08", kind: Kind::Firearm },
        32 => Weapon { id: 41, name: "knifegg", kind: Kind::NonBullet },
        33 => Weapon { id: 42, name: "knife", kind: Kind::NonBullet },
        34 => Weapon { id: 43, name: "flashbang", kind: Kind::NonBullet },
        35 => Weapon { id: 44, name: "hegrenade", kind: Kind::NonBullet },
        36 => Weapon { id: 45, name: "smokegrenade", kind: Kind::NonBullet },
        37 => Weapon { id: 46, name: "molotov", kind: Kind::NonBullet },
        38 => Weapon { id: 47, name: "decoy", kind: Kind::NonBullet },
        39 => Weapon { id: 48, name: "incgrenade", kind: Kind::NonBullet },
        40 => Weapon { id: 49, name: "c4", kind: Kind::NonBullet },
        41 => Weapon { id: 57, name: "healthshot", kind: Kind::NonBullet },
        42 => Weapon { id: 59, name: "knife_t", kind: Kind::NonBullet },
        43 => Weapon { id: 60, name: "m4a1s", kind: Kind::Firearm },
        44 => Weapon { id: 61, name: "usp_s", kind: Kind::Firearm },
        45 => Weapon { id: 63, name: "cz75_auto", kind: Kind::Firearm },
        46 => Weapon { id: 64, name: "r8_revolver", kind: Kind::Firearm },
        47 => Weapon { id: 68, name: "tagrenade", kind: Kind::NonBullet },
        48 => Weapon { id: 69, name: "fists", kind: Kind::NonBullet },
        49 => Weapon { id: 70, name: "breachcharge", kind: Kind::NonBullet },
        50 => Weapon { id: 72, name: "tablet", kind: Kind::NonBullet },
        51 => Weapon { id: 75, name: "axe", kind: Kind::NonBullet },
        52 => Weapon { id: 76, name: "hammer", kind: Kind::NonBullet },
        53 => Weapon { id: 78, name: "spanner", kind: Kind::NonBullet },
        54 => Weapon { id: 80, name: "knife_ghost", kind: Kind::NonBullet },
        55 => Weapon { id: 81, name: "firebomb", kind: Kind::NonBullet },
        56 => Weapon { id: 82, name: "diversion", kind: Kind::NonBullet },
        57 => Weapon { id: 83, name: "frag_grenade", kind: Kind::NonBullet },
        58 => Weapon { id: 84, name: "snowball", kind: Kind::NonBullet },
        59 => Weapon { id: 85, name: "bumpmine", kind: Kind::NonBullet },
        60 => Weapon { id: 500, name: "bayonet", kind: Kind::NonBullet },
        61 => Weapon { id: 503, name: "knife_css", kind: Kind::NonBullet },
        62 => Weapon { id: 505, name: "knife_flip", kind: Kind::NonBullet },
        63 => Weapon { id: 506, name: "knife_gut", kind: Kind::NonBullet },
        64 => Weapon { id: 507, name: "knife_karambit", kind: Kind::NonBullet },
        65 => Weapon { id: 508, name: "knife_m9_bayonet", kind: Kind::NonBullet },
        66 => Weapon { id: 509, name: "knife_tactical", kind: Kind::NonBullet },
        67 => Weapon { id: 512, name: "knife_falchion", kind: Kind::NonBullet },
        68 => Weapon { id: 514, name: "knife_survival_bowie", kind: Kind::NonBullet },
        69 => Weapon { id: 515, name: "knife_butterfly", kind: Kind::NonBullet },
        70 => Weapon { id: 516, name: "knife_push", kind: Kind::NonBullet },
        71 => Weapon { id: 517, name: "knife_cord", kind: Kind::NonBullet },
        72 => Weapon { id: 518, name: "knife_canis", kind: Kind::NonBullet },
        73 => Weapon { id: 519, name: "knife_ursus", kind: Kind::NonBullet },
        74 => Weapon { id: 520, name: "knife_gypsy_jackknife", kind: Kind::NonBullet },
        75 => Weapon { id: 521, name: "knife_outdoor", kind: Kind::NonBullet },
        76 => Weapon { id: 522, name: "knife_stiletto", kind: Kind::NonBullet },
        77 => Weapon { id: 523, name: "knife_widowmaker", kind: Kind::NonBullet },
        78 => Weapon { id: 525, name: "knife_skeleton", kind: Kind::NonBullet },
        79 => Weapon { id: 526, name: "knife_kukri", kind: Kind::NonBullet },
        _ => Weapon { id: 526, name: "knife_kukri", kind: Kind::NonBullet },
    }
}

/// Substrings that mark an unlisted weapon name as a firearm.
pub open spec fn firearm_hints() -> Seq<Seq<char>> {
    seq!["ak47"@, "aug"@, "awp"@, "bizon"@, "cz75"@, "deagle"@, "elite"@, "famas"@, "fiveseven"@, "g3sg1"@, "galil"@, "glock"@, "hkp2000"@, "m249"@, "m4a1"@, "mac10"@, "mag7"@, "mp5"@, "mp7"@, "mp9"@, "negev"@, "nova"@, "p2000"@, "p250"@, "p90"@, "revolver"@, "r8"@, "sawedoff"@, "scar20"@, "sg553"@, "sg556"@, "ssg08"@, "tec9"@, "ump45"@, "usp"@, "xm1014"@]
}

/// Substrings that mark an unlisted weapon name as not firing bullets.
pub open spec fn non_bullet_hints() -> Seq<Seq<char>> {
    seq!["axe"@, "bayonet"@, "bomb"@, "breachcharge"@, "bumpmine"@, "c4"@, "decoy"@, "diversion"@, "explosion"@, "firebomb"@, "fists"@, "frag_grenade"@, "grenade"@, "hammer"@, "hegrenade"@, "incgrenade"@, "incendiary"@, "inferno"@, "knife"@, "knifegg"@, "melee"@, "molly"@, "molotov"@, "nade"@, "planted_c4"@, "shield"@, "smokegrenade"@, "snowball"@, "spanner"@, "stomp_damage"@, "tagrenade"@, "tablet"@, "taser"@, "tripwire"@, "zeus"@]
}

fn firearm_hint(k: usize) -> (h: &'static str)
    requires
        k < 36,
    ensures
        h@ == firearm_hints()[k as int],
{
    match k {
        0 => "ak47",
        1 => "aug",
        2 => "awp",
        3 => "bizon",
        4 => "cz75",
        5 => "deagle",
        6 => "elite",
        7 => "famas",
        8 => "fiveseven",
        9 => "g3sg1",
        10 => "galil",
        11 => "glock",
        12 => "hkp2000",
        13 => "m249",
        14 => "m4a1",
        15 => "mac10",
        16 => "mag7",
        17 => "mp5",
        18 => "mp7",
        19 => "mp9",
        20 => "negev",
        21 => "nova",
        22 => "p2000",
        23 => "p250",
        24 => "p90",
        25 => "revolver",
        26 => "r8",
        27 => "sawedoff",
        28 => "scar20",
        29 => "sg553",
        30 => "sg556",
        31 => "ssg08",
        32 => "tec9",
        33 => "ump45",
        34 => "usp",
        35 => "xm1014",
        _ => "xm1014",
    }
}

fn non_bullet_hint(k: usize) -> (h: &'static str)
    requires
        k < 35,
    ensures
        h@ == non_bullet_hints()[k as int],
{
    match k {
        0 => "axe",
        1 => "bayonet",
        2 => "bomb",
        3 => "breachcharge",
        4 => "bumpmine",
        5 => "c4",
        6 => "decoy",
        7 => "diversion",
        8 => "explosion",
        9 => "firebomb",
        10 => "fists",
        11 => "frag_grenade",
        12 => "grenade",
        13 => "hammer",
        14 => "hegrenade",
        15 => "incgrenade",
        16 => "incendiary",
        17 => "inferno",
        18 => "knife",
        19 => "knifegg",
        20 => "melee",
        21 => "molly",
        22 => "molotov",
        23 => "nade",
        24 => "planted_c4",
        25 => "shield",
        26 => "smokegrenade",
        27 => "snowball",
        28 => "spanner",
        29 => "stomp_damage",
        30 => "tagrenade",
        31 => "tablet",
        32 => "taser",
        33 => "tripwire",
        34 => "zeus",
        _ => "zeus",
    }
}

/// Each entry's id is below the next one's.
proof fn lemma_table_adjacent()
    ensures
        forall|i: int| 0 <= i < TABLE_LEN - 1 ==> #[trigger] table_entry(i).id < table_entry(i + 1).id,
{
    assert(table_entry(0).id < table_entry(1).id);
    assert(table_entry(1).id < table_entry(2).id);
    assert(table_entry(2).id < table_entry(3).id);
    assert(table_entry(3).id < table_entry(4).id);
    assert(table_entry(4).id < table_entry(5).id);
    assert(table_entry(5).id < table_entry(6).id);
    assert(table_entry(6).id < table_entry(7).id);
    assert(table_entry(7).id < table_entry(8).id);
    assert(table_entry(8).id < table_entry(9).id);
    assert(table_entry(9).id < table_entry(10).id);
    assert(table_entry(10).id < table_entry(11).id);
    assert(table_entry(11).id < table_entry(12).id);
    assert(table_entry(12).id < table_entry(13).id);
    assert(table_entry(13).id < table_entry(14).id);
    assert(table_entry(14).id < table_entry(15).id);
    assert(table_entry(15).id < table_entry(16).id);
    assert(table_entry(16).id < table_entry(17).id);
    assert(table_entry(17).id < table_entry(18).id);
    assert(table_entry(18).id < table_entry(19).id);
    assert(table_entry(19).id < table_entry(20).id);
    assert(table_entry(20).id < table_entry(21).id);
    assert(table_entry(21).id < table_entry(22).id);
    assert(table_entry(22).id < table_entry(23).id);
    assert(table_entry(23).id < table_entry(24).id);
    assert(table_entry(24).id < table_entry(25).id);
    assert(table_entry(25).id < table_entry(26).id);
    assert(table_entry(26).id < table_entry(27).id);
    assert(table_entry(27).id < table_entry(28).id);
    assert(table_entry(28).id < table_entry(29).id);
    assert(table_entry(29).id < table_entry(30).id);
    assert(table_entry(30).id < table_entry(31).id);
    assert(table_entry(31).id < table_entry(32).id);
    assert(table_entry(32).id < table_entry(33).id);
    assert(table_entry(33).id < table_entry(34).id);
    assert(table_entry(34).id < table_entry(35).id);
    assert(table_entry(35).id < table_entry(36).id);
    assert(table_entry(36).id < table_entry(37).id);
    assert(table_entry(37).id < table_entry(38).id);
    assert(table_entry(38).id < table_entry(39).id);
    assert(table_entry(39).id < table_entry(40).id);
    assert(table_entry(40).id < table_entry(41).id);
    assert(table_entry(41).id < table_entry(42).id);
    assert(table_entry(42).id < table_entry(43).id);
    assert(table_entry(43).id < table_entry(44).id);
    assert(table_entry(44).id < table_entry(45).id);
    assert(table_entry(45).id < table_entry(46).id);
    assert(table_entry(46).id < table_entry(47).id);
    assert(table_entry(47).id < table_entry(48).id);
    assert(table_entry(48).id < table_entry(49).id);
    assert(table_entry(49).id < table_entry(50).id);
    assert(table_entry(50).id < table_entry(51).id);
    assert(table_entry(51).id < table_entry(52).id);
    assert(table_entry(52).id < table_entry(53).id);
    assert(table_entry(53).id < table_entry(54).id);
    assert(table_entry(54).id < table_entry(55).id);
    assert(table_entry(55).id < table_entry(56).id);
    assert(table_entry(56).id < table_entry(57).id);
    assert(table_entry(57).id < table_entry(58).id);
    assert(table_entry(58).id < table_entry(59).id);
    assert(table_entry(59).id < table_entry(60).id);
    assert(table_entry(60).id < table_entry(61).id);
    assert(table_entry(61).id < table_entry(62).id);
    assert(table_entry(62).id < table_entry(63).id);
    assert(table_entry(63).id < table_entry(64).id);
    assert(table_entry(64).id < table_entry(65).id);
    assert(table_entry(65).id < table_entry(66).id);
    assert(table_entry(66).id < table_entry(67).id);
    assert(table_entry(67).id < table_entry(68).id);
    assert(table_entry(68).id < table_entry(69).id);
    assert(table_entry(69).id < table_entry(70).id);
    assert(table_entry(70).id < table_entry(71).id);
    assert(table_entry(71).id < table_entry(72).id);
    assert(table_entry(72).id < table_entry(73).id);
    assert(table_entry(73).id < table_entry(74).id);
    assert(table_entry(74).id < table_entry(75).id);
    assert(table_entry(75).id < table_entry(76).id);
    assert(table_entry(76).id < table_entry(77).id);
    assert(table_entry(77).id < table_entry(78).id);
    assert(table_entry(78).id < table_entry(79).id);
    assert forall|i: int| 0 <= i < TABLE_LEN - 1 implies #[trigger] table_entry(i).id < table_entry(
        i + 1,
    ).id by {
        if i == 0 {
            assert(table_entry(0).id < table_entry(1).id);
        } else if i == 1 {
            assert(table_entry(1).id < table_entry(2).id);
        } else if i == 2 {
            assert(table_entry(2).id < table_entry(3).id);
        } else if i == 3 {
            assert(table_entry(3).id < table_entry(4).id);
        } else if i == 4 {
            assert(table_entry(4).id < table_entry(5).id);
        } else if i == 5 {
            assert(table_entry(5).id < table_entry(6).id);
        } else if i == 6 {
            assert(table_entry(6).id < table_entry(7).id);
        } else if i == 7 {
            assert(table_entry(7).id < table_entry(8).id);
        } else if i == 8 {
            assert(table_entry(8).id < table_entry(9).id);
        } else if i == 9 {
            assert(table_entry(9).id < table_entry(10).id);
        } else if i == 10 {
            assert(table_entry(10).id < table_entry(11).id);
        } else if i == 11 {
            assert(table_entry(11).id < table_entry(12).id);
        } else if i == 12 {
            assert(table_entry(12).id < table_entry(13).id);
        } else if i == 13 {
            assert(table_entry(13).id < table_entry(14).id);
        } else if i == 14 {
            assert(table_entry(14).id < table_entry(15).id);
        } else if i == 15 {
            assert(table_entry(15).id < table_entry(16).id);
        } else if i == 16 {
            assert(table_entry(16).id < table_entry(17).id);
        } else if i == 17 {
            assert(table_entry(17).id < table_entry(18).id);
        } else if i == 18 {
            assert(table_entry(18).id < table_entry(19).id);
        } else if i == 19 {
            assert(table_entry(19).id < table_entry(20).id);
        } else if i == 20 {
            assert(table_entry(20).id < table_entry(21).id);
        } else if i == 21 {
            assert(table_entry(21).id < table_entry(22).id);
        } else if i == 22 {
            assert(table_entry(22).id < table_entry(23).id);
        } else if i == 23 {
            assert(table_entry(23).id < table_entry(24).id);
        } else if i == 24 {
            assert(table_entry(24).id < table_entry(25).id);
        } else if i == 25 {
            assert(table_entry(25).id < table_entry(26).id);
        } else if i == 26 {
            assert(table_entry(26).id < table_entry(27).id);
        } else if i == 27 {
            assert(table_entry(27).id < table_entry(28).id);
        } else if i == 28 {
            assert(table_entry(28).id < table_entry(29).id);
        } else if i == 29 {
            assert(table_entry(29).id < table_entry(30).id);
        } else if i == 30 {
            assert(table_entry(30).id < table_entry(31).id);
        } else if i == 31 {
            assert(table_entry(31).id < table_entry(32).id);
        } else if i == 32 {
            assert(table_entry(32).id < table_entry(33).id);
        } else if i == 33 {
            assert(table_entry(33).id < table_entry(34).id);
        } else if i == 34 {
            assert(table_entry(34).id < table_entry(35).id);
        } else if i == 35 {
            assert(table_entry(35).id < table_entry(36).id);
        } else if i == 36 {
            assert(table_entry(36).id < table_entry(37).id);
        } else if i == 37 {
            assert(table_entry(37).id < table_entry(38).id);
        } else if i == 38 {
            assert(table_entry(38).id < table_entry(39).id);
        } else if i == 39 {
            assert(table_entry(39).id < table_entry(40).id);
        } else if i == 40 {
            assert(table_entry(40).id < table_entry(41).id);
        } else if i == 41 {
            assert(table_entry(41).id < table_entry(42).id);
        } else if i == 42 {
            assert(table_entry(42).id < table_entry(43).id);
        } else if i == 43 {
            assert(table_entry(43).id < table_entry(44).id);
        } else if i == 44 {
            assert(table_entry(44).id < table_entry(45).id);
        } else if i == 45 {
            assert(table_entry(45).id < table_entry(46).id);
        } else if i == 46 {
            assert(table_entry(46).id < table_entry(47).id);
        } else if i == 47 {
            assert(table_entry(47).id < table_entry(48).id);
        } else if i == 48 {
            assert(table_entry(48).id < table_entry(49).id);
        } else if i == 49 {
            assert(table_entry(49).id < table_entry(50).id);
        } else if i == 50 {
            assert(table_entry(50).id < table_entry(51).id);
        } else if i == 51 {
            assert(table_entry(51).id < table_entry(52).id);
        } else if i == 52 {
            assert(table_entry(52).id < table_entry(53).id);
        } else if i == 53 {
            assert(table_entry(53).id < table_entry(54).id);
        } else if i == 54 {
            assert(table_entry(54).id < table_entry(55).id);
        } else if i == 55 {
            assert(table_entry(55).id < table_entry(56).id);
        } else if i == 56 {
            assert(table_entry(56).id < table_entry(57).id);
        } else if i == 57 {
            assert(table_entry(57).id < table_entry(58).id);
        } else if i == 58 {
            assert(table_entry(58).id < table_entry(59).id);
        } else if i == 59 {
            assert(table_entry(59).id < table_entry(60).id);
        } else if i == 60 {
            assert(table_entry(60).id < table_entry(61).id);
        } else if i == 61 {
            assert(table_entry(61).id < table_entry(62).id);
        } else if i == 62 {
            assert(table_entry(62).id < table_entry(63).id);
        } else if i == 63 {
            assert(table_entry(63).id < table_entry(64).id);
        } else if i == 64 {
            assert(table_entry(64).id < table_entry(65).id);
        } else if i == 65 {
            assert(table_entry(65).id < table_entry(66).id);
        } else if i == 66 {
            assert(table_entry(66).id < table_entry(67).id);
        } else if i == 67 {
            assert(table_entry(67).id < table_entry(68).id);
        } else if i == 68 {
            assert(table_entry(68).id < table_entry(69).id);
        } else if i == 69 {
            assert(table_entry(69).id < table_entry(70).id);
        } else if i == 70 {
            assert(table_entry(70).id < table_entry(71).id);
        } else if i == 71 {
            assert(table_entry(71).id < table_entry(72).id);
        } else if i == 72 {
            assert(table_entry(72).id < table_entry(73).id);
        } else if i == 73 {
            assert(table_entry(73).id < table_entry(74).id);
        } else if i == 74 {
            assert(table_entry(74).id < table_entry(75).id);
        } else if i == 75 {
            assert(table_entry(75).id < table_entry(76).id);
        } else if i == 76 {
            assert(table_entry(76).id < table_entry(77).id);
        } else if i == 77 {
            assert(table_entry(77).id < table_entry(78).id);
        } else if i == 78 {
            assert(table_entry(78).id < table_entry(79).id);
        }
    }
}

/// The weapon table is sorted by id, strictly: no id occurs twice.
pub proof fn table_sorted_by_id()
    ensures
        forall|i: int, j: int|
            0 <= i < j < TABLE_LEN ==> #[trigger] table_entry(i).id < #[trigger] table_entry(j).id,
{
    lemma_table_adjacent();
    assert forall|i: int, j: int| 0 <= i < j < TABLE_LEN implies #[trigger] table_entry(i).id
        < #[trigger] table_entry(j).id by {
        lemma_sorted_from(i, j);
    }
}

proof fn lemma_sorted_from(i: int, j: int)
    requires
        0 <= i < j < TABLE_LEN,
        forall|k: int| 0 <= k < TABLE_LEN - 1 ==> #[trigger] table_entry(k).id < table_entry(k + 1).id,
    ensures
        table_entry(i).id < table_entry(j).id,
    decreases j - i,
{
    assert(table_entry(j - 1).id < table_entry(j).id);
    if i < j - 1 {
        lemma_sorted_from(i, j - 1);
    }
}

/// The table entry with id `id`, if the table has one.
pub open spec fn lookup_spec(id: u16) -> Option<WeaponView> {
    if exists|i: int| 0 <= i < TABLE_LEN && #[trigger] table_entry(i).id == id {
        Some(table_entry(choose|i: int| 0 <= i < TABLE_LEN && #[trigger] table_entry(i).id == id))
    } else {
        None
    }
}

/// The whole weapon table, sorted by id.
pub fn table() -> (t: Vec<Weapon>)
    ensures
        t@.len() == TABLE_LEN,
        forall|i: int| 0 <= i < TABLE_LEN ==> #[trigger] t@[i]@ == table_entry(i),
{
    let mut t: Vec<Weapon> = Vec::new();
    let mut i: usize = 0;
    while i < TABLE_LEN
        invariant
            i <= TABLE_LEN,
            t@.len() == i,
            forall|k: int| 0 <= k < i ==> #[trigger] t@[k]@ == table_entry(k),
        decreases TABLE_LEN - i,
    {
        t.push(weapon_at(i));
        i += 1;
    }
    t
}

/// The known weapon with id `id` (binary search over the table).
pub fn lookup(id: u16) -> (r: Option<Weapon>)
    ensures
        match r {
            Some(w) => lookup_spec(id) == Some(w@),
            None => lookup_spec(id) is None,
        },
{
    proof {
        table_sorted_by_id();
    }
    let mut lo: usize = 0;
    let mut hi: usize = TABLE_LEN;
    while lo < hi
        invariant
            lo <= hi <= TABLE_LEN,
            forall|i: int| 0 <= i < lo ==> #[trigger] table_entry(i).id < id,
            forall|i: int| hi <= i < TABLE_LEN ==> #[trigger] table_entry(i).id > id,
            forall|i: int, j: int|
                0 <= i < j < TABLE_LEN ==> #[trigger] table_entry(i).id < #[trigger] table_entry(j).id,
        decreases hi - lo,
    {
        let mid = lo + (hi - lo) / 2;
        let w = weapon_at(mid);
        if w.id == id {
            proof {
                let k = choose|k: int| 0 <= k < TABLE_LEN && #[trigger] table_entry(k).id == id;
                if k < mid {
                    assert(table_entry(k).id < table_entry(mid as int).id);
                } else if k > mid {
                    assert(table_entry(mid as int).id < table_entry(k).id);
                }
            }
            return Some(w);
        } else if w.id < id {
            proof {
                assert forall|i: int| 0 <= i < mid + 1 implies #[trigger] table_entry(i).id < id by {
                    if i < mid {
                        assert(table_entry(i).id < table_entry(mid as int).id);
                    }
                }
            }
            lo = mid + 1;
        } else {
            proof {
                assert forall|i: int| mid <= i < TABLE_LEN implies #[trigger] table_entry(i).id > id by {
                    if i > mid {
                        assert(table_entry(mid as int).id < table_entry(i).id);
                    }
                }
            }
            hi = mid;
        }
    }
    proof {
        assert forall|i: int| 0 <= i < TABLE_LEN implies #[trigger] table_entry(i).id != id by {
            if i < lo {
            } else {
                assert(table_entry(i).id > id);
            }
        }
    }
    None
}

/// The name a weapon id is shown under: the table name, or `item_<id>`.
pub open spec fn display_name_spec(id: u16) -> Seq<char> {
    match lookup_spec(id) {
        Some(w) => w.name,
        None => "item_"@ + decimal(id as nat),
    }
}

/// The name a weapon id is shown under: the table name, or `item_<id>` for
/// an id the table does not list.
pub fn display_name(id: u16) -> (s: String)
    ensures
        s@ == display_name_spec(id),
{
    match lookup(id) {
        Some(w) => String::from_str(w.name),
        None => {
            let mut s = String::from_str("item_");
            push_decimal(&mut s, id as u64);
            s
        },
    }
}

/// Some entry of `hints` occurs in `s`.
pub open spec fn any_hint(hints: Seq<Seq<char>>, s: Seq<char>) -> bool {
    exists|k: int| 0 <= k < hints.len() && is_substring(#[trigger] hints[k], s)
}

/// The kind of the weapon with id `id`: the table's kind for a listed id;
/// otherwise non-bullet in the knife range 500 to 599; otherwise decided by
/// the hints found in the lower-cased display name, firearm hints first.
pub open spec fn classify_spec(id: u16) -> Kind {
    match lookup_spec(id) {
        Some(w) => w.kind,
        None => if 500 <= id <= 599 {
            Kind::NonBullet
        } else if any_hint(firearm_hints(), ascii_lower(display_name_spec(id))) {
            Kind::Firearm
        } else if any_hint(non_bullet_hints(), ascii_lower(display_name_spec(id))) {
            Kind::NonBullet
        } else {
            Kind::Unknown
        },
    }
}

fn has_firearm_hint(s: &str) -> (r: bool)
    ensures
        r == any_hint(firearm_hints(), s@),
{
    let mut k: usize = 0;
    while k < 36
        invariant
            k <= 36,
            forall|j: int| 0 <= j < k ==> !is_substring(#[trigger] firearm_hints()[j], s@),
        decreases 36 - k,
    {
        if contains(s, firearm_hint(k)) {
            return true;
        }
        k += 1;
    }
    false
}

fn has_non_bullet_hint(s: &str) -> (r: bool)
    ensures
        r == any_hint(non_bullet_hints(), s@),
{
    let mut k: usize = 0;
    while k < 35
        invariant
            k <= 35,
            forall|j: int| 0 <= j < k ==> !is_substring(#[trigger] non_bullet_hints()[j], s@),
        decreases 35 - k,
    {
        if contains(s, non_bullet_hint(k)) {
            return true;
        }
        k += 1;
    }
    false
}

/// The kind of the weapon with id `id`.
pub fn classify(id: u16) -> (k: Kind)
    ensures
        k == classify_spec(id),
{
    if let Some(w) = lookup(id) {
        return w.kind;
    }
    // 500-599 is the knife range; unknown ids in it count as non-bullet.
    if 500 <= id && id <= 599 {
        return Kind::NonBullet;
    }
    let name = display_name(id);
    let lower = ascii_lowercase(name.as_str());
    if has_firearm_hint(lower.as_str()) {
        return Kind::Firearm;
    }
    if has_non_bullet_hint(lower.as_str()) {
        return Kind::NonBullet;
    }
    Kind::Unknown
}

/// A kill made with this weapon does not count for the streak: anything but a firearm.
pub open spec fn kill_ignored_spec(id: u16) -> bool {
    classify_spec(id) != Kind::Firearm
}

/// Whether a kill made with weapon `id` is left out of the streak.
pub fn is_kill_ignored(id: u16) -> (b: bool)
    ensures
        b == kill_ignored_spec(id),
{
    match classify(id) {
        Kind::Firearm => false,
        _ => true,
    }
}

/// Characters of the names `item_<id>`.
pub open spec fn in_item_alphabet(c: char) -> bool {
    c == 'i' || c == 't' || c == 'e' || c == 'm' || c == '_' || ('0' <= c && c <= '9')
}

/// An unlisted id's display name, `item_` and digits.
pub open spec fn item_name(s: Seq<char>) -> bool {
    &&& s.len() >= 5
    &&& s.subrange(0, 5) == "item_"@
    &&& forall|i: int| 5 <= i < s.len() ==> '0' <= #[trigger] s[i] && s[i] <= '9'
}

proof fn lemma_decimal_digits(n: nat)
    ensures
        forall|i: int| 0 <= i < decimal(n).len() ==> '0' <= #[trigger] decimal(n)[i] && decimal(n)[i] <= '9',
    decreases n,
{
    let d = n % 10;
    assert(0 <= d < 10);
    assert((48 + d) as u32 == 48 + d);
    assert('0' <= digit_char(d) && digit_char(d) <= '9');
    if n >= 10 {
        lemma_decimal_digits(n / 10);
        let pre = decimal(n / 10);
        assert(decimal(n) == pre.push(digit_char(d)));
        assert forall|i: int| 0 <= i < decimal(n).len() implies '0' <= #[trigger] decimal(n)[i]
            && decimal(n)[i] <= '9' by {
            if i < pre.len() {
                assert(decimal(n)[i] == pre[i]);
            }
        }
    } else {
        assert(decimal(n) == seq![digit_char(n)]);
    }
}

proof fn lemma_item_name(id: u16)
    ensures
        item_name("item_"@ + decimal(id as nat)),
        ascii_lower("item_"@ + decimal(id as nat)) == "item_"@ + decimal(id as nat),
{
    reveal_strlit("item_");
    let s = "item_"@ + decimal(id as nat);
    lemma_decimal_digits(id as nat);
    assert(s.subrange(0, 5) =~= "item_"@);
    assert forall|i: int| 5 <= i < s.len() implies '0' <= #[trigger] s[i] && s[i] <= '9' by {
        assert(s[i] == decimal(id as nat)[i - 5]);
    }
    assert forall|i: int| 0 <= i < s.len() implies #[trigger] ascii_lower(s)[i] == s[i] by {
        if i >= 5 {
            assert(s[i] == decimal(id as nat)[i - 5]);
        }
    }
    assert(ascii_lower(s) =~= s);
}

proof fn lemma_item_alphabet(s: Seq<char>)
    requires
        item_name(s),
    ensures
        forall|i: int| 0 <= i < s.len() ==> in_item_alphabet(#[trigger] s[i]),
{
    reveal_strlit("item_");
    assert forall|i: int| 0 <= i < s.len() implies in_item_alphabet(#[trigger] s[i]) by {
        if i < 5 {
            assert(s[i] == s.subrange(0, 5)[i]);
        }
    }
}

proof fn lemma_foreign_char_not_substring(h: Seq<char>, s: Seq<char>, j: int)
    requires
        item_name(s),
        0 <= j < h.len(),
        !in_item_alphabet(h[j]),
    ensures
        !is_substring(h, s),
{
    lemma_item_alphabet(s);
    if is_substring(h, s) {
        let i = choose|i: int| 0 <= i && i + h.len() <= s.len() && #[trigger] s.subrange(i, i + h.len()) == h;
        assert(s.subrange(i, i + h.len())[j] == s[i + j]);
    }
}

proof fn lemma_m249_not_in_item_name(s: Seq<char>)
    requires
        item_name(s),
    ensures
        !is_substring("m249"@, s),
{
    reveal_strlit("m249");
    reveal_strlit("item_");
    let h = "m249"@;
    if is_substring(h, s) {
        let i = choose|i: int| 0 <= i && i + h.len() <= s.len() && #[trigger] s.subrange(i, i + h.len()) == h;
        assert(s.subrange(i, i + 4)[0] == s[i]);
        assert(s.subrange(i, i + 4)[1] == s[i + 1]);
        assert(s[i] == 'm');
        if i < 5 {
            assert(s[i] == s.subrange(0, 5)[i]);
            assert(i == 3);
            assert(s[4] == s.subrange(0, 5)[4]);
        }
    }
}

proof fn lemma_no_firearm_hint(s: Seq<char>)
    requires
        item_name(s),
    ensures
        !any_hint(firearm_hints(), s),
{
    assert forall|k: int| 0 <= k < firearm_hints().len() implies !is_substring(#[trigger] firearm_hints()[k], s) by {
        if k == 0 {
            reveal_strlit("ak47");
            lemma_foreign_char_not_substring(firearm_hints()[k], s, 0);
        } else if k == 1 {
            reveal_strlit("aug");
            lemma_foreign_char_not_substring(firearm_hints()[k], s, 0);
        } else if k == 2 {
            reveal_strlit("awp");
            lemma_foreign_char_not_substring(firearm_hints()[k], s, 0);
        } else if k == 3 {
            reveal_strlit("bizon");
            lemma_foreign_char_not_substring(firearm_hints()[k], s, 0);
        } else if k == 4 {
            reveal_strlit("cz75");
            lemma_foreign_char_not_substring(firearm_hints()[k], s, 0);
        } else if k == 5 {
            reveal_strlit("deagle");
            lemma_foreign_char_not_substring(firearm_hints()[k], s, 0);
        } else if k == 6 {
            reveal_strlit("elite");
            lemma_foreign_char_not_substring(firearm_hints()[k], s, 1);
        } else if k == 7 {
            reveal_strlit("famas");
            lemma_foreign_char_not_substring(firearm_hints()[k], s, 0);
        } else if k == 8 {
            reveal_strlit("fiveseven");
            lemma_foreign_char_not_substring(firearm_hints()[k], s, 0);
        } else if k == 9 {
            reveal_strlit("g3sg1");
            lemma_foreign_char_not_substring(firearm_hints()[k], s, 0);
        } else if k == 10 {
            reveal_strlit("galil");
            lemma_foreign_char_not_substring(firearm_hints()[k], s, 0);
        } else if k == 11 {
            reveal_strlit("glock");
            lemma_foreign_char_not_substring(firearm_hints()[k], s, 0);
        } else if k == 12 {
            reveal_strlit("hkp2000");
            lemma_foreign_char_not_substring(firearm_hints()[k], s, 0);
        } else if k == 13 {
            reveal_strlit("m249");
            lemma_m249_not_in_item_name(s);
        } else if k == 14 {
            reveal_strlit("m4a1");
            lemma_foreign_char_not_substring(firearm_hints()[k], s, 2);
        } else if k == 15 {
            reveal_strlit("mac10");
            lemma_foreign_char_not_substring(firearm_hints()[k], s, 1);
        } else if k == 16 {
            reveal_strlit("mag7");
            lemma_foreign_char_not_substring(firearm_hints()[k], s, 1);
        } else if k == 17 {
            reveal_strlit("mp5");
            lemma_foreign_char_not_substring(firearm_hints()[k], s, 1);
        } else if k == 18 {
            reveal_strlit("mp7");
            lemma_foreign_char_not_substring(firearm_hints()[k], s, 1);
        } else if k == 19 {
            reveal_strlit("mp9");
            lemma_foreign_char_not_substring(firearm_hints()[k], s, 1);
        } else if k == 20 {
            reveal_strlit("negev");
            lemma_foreign_char_not_substring(firearm_hints()[k], s, 0);
        } else if k == 21 {
            reveal_strlit("nova");
            lemma_foreign_char_not_substring(firearm_hints()[k], s, 0);
        } else if k == 22 {
            reveal_strlit("p2000");
            lemma_foreign_char_not_substring(firearm_hints()[k], s, 0);
        } else if k == 23 {
            reveal_strlit("p250");
            lemma_foreign_char_not_substring(firearm_hints()[k], s, 0);
        } else if k == 24 {
            reveal_strlit("p90");
            lemma_foreign_char_not_substring(firearm_hints()[k], s, 0);
        } else if k == 25 {
            reveal_strlit("revolver");
            lemma_foreign_char_not_substring(firearm_hints()[k], s, 0);
        } else if k == 26 {
            reveal_strlit("r8");
            lemma_foreign_char_not_substring(firearm_hints()[k], s, 0);
        } else if k == 27 {
            reveal_strlit("sawedoff");
            lemma_foreign_char_not_substring(firearm_hints()[k], s, 0);
        } else if k == 28 {
            reveal_strlit("scar20");
            lemma_foreign_char_not_substring(firearm_hints()[k], s, 0);
        } else if k == 29 {
            reveal_strlit("sg553");
            lemma_foreign_char_not_substring(firearm_hints()[k], s, 0);
        } else if k == 30 {
            reveal_strlit("sg556");
            lemma_foreign_char_not_substring(firearm_hints()[k], s, 0);
        } else if k == 31 {
            reveal_strlit("ssg08");
            lemma_foreign_char_not_substring(firearm_hints()[k], s, 0);
        } else if k == 32 {
            reveal_strlit("tec9");
            lemma_foreign_char_not_substring(firearm_hints()[k], s, 2);
        } else if k == 33 {
            reveal_strlit("ump45");
            lemma_foreign_char_not_substring(firearm_hints()[k], s, 0);
        } else if k == 34 {
            reveal_strlit("usp");
            lemma_foreign_char_not_substring(firearm_hints()[k], s, 0);
        } else if k == 35 {
            reveal_strlit("xm1014");
            lemma_foreign_char_not_substring(firearm_hints()[k], s, 0);
        }
    }
}

proof fn lemma_no_non_bullet_hint(s: Seq<char>)
    requires
        item_name(s),
    ensures
        !any_hint(non_bullet_hints(), s),
{
    assert forall|k: int| 0 <= k < non_bullet_hints().len() implies !is_substring(#[trigger] non_bullet_hints()[k], s) by {
        if k == 0 {
            reveal_strlit("axe");
            lemma_foreign_char_not_substring(non_bullet_hints()[k], s, 0);
        } else if k == 1 {
            reveal_strlit("bayonet");
            lemma_foreign_char_not_substring(non_bullet_hints()[k], s, 0);
        } else if k == 2 {
            reveal_strlit("bomb");
            lemma_foreign_char_not_substring(non_bullet_hints()[k], s, 0);
        } else if k == 3 {
            reveal_strlit("breachcharge");
            lemma_foreign_char_not_substring(non_bullet_hints()[k], s, 0);
        } else if k == 4 {
            reveal_strlit("bumpmine");
            lemma_foreign_char_not_substring(non_bullet_hints()[k], s, 0);
        } else if k == 5 {
            reveal_strlit("c4");
            lemma_foreign_char_not_substring(non_bullet_hints()[k], s, 0);
        } else if k == 6 {
            reveal_strlit("decoy");
            lemma_foreign_char_not_substring(non_bullet_hints()[k], s, 0);
        } else if k == 7 {
            reveal_strlit("diversion");
            lemma_foreign_char_not_substring(non_bullet_hints()[k], s, 0);
        } else if k == 8 {
            reveal_strlit("explosion");
            lemma_foreign_char_not_substring(non_bullet_hints()[k], s, 1);
        } else if k == 9 {
            reveal_strlit("firebomb");
            lemma_foreign_char_not_substring(non_bullet_hints()[k], s, 0);
        } else if k == 10 {
            reveal_strlit("fists");
            lemma_foreign_char_not_substring(non_bullet_hints()[k], s, 0);
        } else if k == 11 {
            reveal_strlit("frag_grenade");
            lemma_foreign_char_not_substring(non_bullet_hints()[k], s, 0);
        } else if k == 12 {
            reveal_strlit("grenade");
            lemma_foreign_char_not_substring(non_bullet_hints()[k], s, 0);
        } else if k == 13 {
            reveal_strlit("hammer");
            lemma_foreign_char_not_substring(non_bullet_hints()[k], s, 0);
        } else if k == 14 {
            reveal_strlit("hegrenade");
            lemma_foreign_char_not_substring(non_bullet_hints()[k], s, 0);
        } else if k == 15 {
            reveal_strlit("incgrenade");
            lemma_foreign_char_not_substring(non_bullet_hints()[k], s, 1);
        } else if k == 16 {
            reveal_strlit("incendiary");
            lemma_foreign_char_not_substring(non_bullet_hints()[k], s, 1);
        } else if k == 17 {
            reveal_strlit("inferno");
            lemma_foreign_char_not_substring(non_bullet_hints()[k], s, 1);
        } else if k == 18 {
            reveal_strlit("knife");
            lemma_foreign_char_not_substring(non_bullet_hints()[k], s, 0);
        } else if k == 19 {
            reveal_strlit("knifegg");
            lemma_foreign_char_not_substring(non_bullet_hints()[k], s, 0);
        } else if k == 20 {
            reveal_strlit("melee");
            lemma_foreign_char_not_substring(non_bullet_hints()[k], s, 2);
        } else if k == 21 {
            reveal_strlit("molly");
            lemma_foreign_char_not_substring(non_bullet_hints()[k], s, 1);
        } else if k == 22 {
            reveal_strlit("molotov");
            lemma_foreign_char_not_substring(non_bullet_hints()[k], s, 1);
        } else if k == 23 {
            reveal_strlit("nade");
            lemma_foreign_char_not_substring(non_bullet_hints()[k], s, 0);
        } else if k == 24 {
            reveal_strlit("planted_c4");
            lemma_foreign_char_not_substring(non_bullet_hints()[k], s, 0);
        } else if k == 25 {
            reveal_strlit("shield");
            lemma_foreign_char_not_substring(non_bullet_hints()[k], s, 0);
        } else if k == 26 {
            reveal_strlit("smokegrenade");
            lemma_foreign_char_not_substring(non_bullet_hints()[k], s, 0);
        } else if k == 27 {
            reveal_strlit("snowball");
            lemma_foreign_char_not_substring(non_bullet_hints()[k], s, 0);
        } else if k == 28 {
            reveal_strlit("spanner");
            lemma_foreign_char_not_substring(non_bullet_hints()[k], s, 0);
        } else if k == 29 {
            reveal_strlit("stomp_damage");
            lemma_foreign_char_not_substring(non_bullet_hints()[k], s, 0);
        } else if k == 30 {
            reveal_strlit("tagrenade");
            lemma_foreign_char_not_substring(non_bullet_hints()[k], s, 1);
        } else if k == 31 {
            reveal_strlit("tablet");
            lemma_foreign_char_not_substring(non_bullet_hints()[k], s, 1);
        } else if k == 32 {
            reveal_strlit("taser");
            lemma_foreign_char_not_substring(non_bullet_hints()[k], s, 1);
        } else if k == 33 {
            reveal_strlit("tripwire");
            lemma_foreign_char_not_substring(non_bullet_hints()[k], s, 1);
        } else if k == 34 {
            reveal_strlit("zeus");
            lemma_foreign_char_not_substring(non_bullet_hints()[k], s, 0);
        }
    }
}

/// Character `p` of `s` as a number, zero outside `s`.
pub open spec fn char_code(s: Seq<char>, p: int) -> int {
    if 0 <= p < s.len() {
        s[p] as int
    } else {
        0
    }
}

/// A number made of a name's length and three of its characters, which
/// tells the table's names apart.
pub open spec fn name_key(s: Seq<char>) -> int {
    s.len() + 64 * (char_code(s, 0) + 128 * (char_code(s, s.len() - 1) + 128 * char_code(
        s,
        s.len() - 3,
    )))
}

/// The id of the table entry whose name has key `k`, or -1.
pub open spec fn id_by_key(k: int) -> int {
    if k == 108837126 {
        1
    } else if k == 122583309 {
        2
    } else if k == 124639626 {
        3
    } else if k == 117275077 {
        4
    } else if k == 112654404 {
        7
    } else if k == 102561859 {
        8
    } else if k == 102635587 {
        9
    } else if k == 115243397 {
        10
    } else if k == 120994245 {
        11
    } else if k == 100555208 {
        13
    } else if k == 52902724 {
        14
    } else if k == 54958916 {
        16
    } else if k == 104209221 {
        17
    } else if k == 117840899 {
        19
    } else if k == 56400709 {
        23
    } else if k == 117882181 {
        24
    } else if k == 50765318 {
        25
    } else if k == 128833669 {
        26
    } else if k == 102169412 {
        27
    } else if k == 108977029 {
        28
    } else if k == 117234888 {
        29
    } else if k == 106380548 {
        30
    } else if k == 121527557 {
        31
    } else if k == 50732037 {
        32
    } else if k == 114752323 {
        33
    } else if k == 114768707 {
        34
    } else if k == 117193604 {
        35
    } else if k == 52829188 {
        36
    } else if k == 106732742 {
        37
    } else if k == 119938246 {
        38
    } else if k == 55999685 {
        39
    } else if k == 108469445 {
        40
    } else if k == 106756807 {
        41
    } else if k == 110934725 {
        42
    } else if k == 102562185 {
        43
    } else if k == 102545929 {
        44
    } else if k == 102546636 {
        45
    } else if k == 122608455 {
        46
    } else if k == 104806661 {
        47
    } else if k == 102545994 {
        48
    } else if k == 432322 {
        49
    } else if k == 110008842 {
        57
    } else if k == 106863303 {
        59
    } else if k == 102660933 {
        60
    } else if k == 118390085 {
        61
    } else if k == 123599049 {
        63
    } else if k == 124673163 {
        64
    } else if k == 102546697 {
        68
    } else if k == 121534853 {
        69
    } else if k == 120371340 {
        70
    } else if k == 114203910 {
        72
    } else if k == 102545475 {
        75
    } else if k == 115235334 {
        76
    } else if k == 116284615 {
        78
    } else if k == 117349067 {
        80
    } else if k == 117201288 {
        81
    } else if k == 111008009 {
        82
    } else if k == 102545804 {
        83
    } else if k == 102603976 {
        84
    } else if k == 110934152 {
        85
    } else if k == 116299911 {
        500
    } else if k == 104757961 {
        503
    } else if k == 114170570 {
        505
    } else if k == 108960457 {
        506
    } else if k == 103717582 {
        507
    } else if k == 116300496 {
        508
    } else if k == 104700622 {
        509
    } else if k == 111008462 {
        512
    } else if k == 125614804 {
        514
    } else if k == 107952847 {
        515
    } else if k == 123542218 {
        516
    } else if k == 117217994 {
        517
    } else if k == 116292299 {
        518
    } else if k == 121535179 {
        519
    } else if k == 110934741 {
        520
    } else if k == 117332685 {
        521
    } else if k == 122550990 {
        522
    } else if k == 113138384 {
        523
    } else if k == 122542798 {
        525
    } else if k == 113064651 {
        526
    } else {
        -1
    }
}

/// Each table name gives back its entry's id through its key, and none
/// begins like an `item_<id>` name.
proof fn lemma_table_names()
    ensures
        forall|i: int|
            0 <= i < TABLE_LEN ==> id_by_key(name_key(#[trigger] table_entry(i).name)) == table_entry(
                i,
            ).id && !(char_code(table_entry(i).name, 0) == 'i' as int && char_code(
                table_entry(i).name,
                1,
            ) == 't' as int),
{
    assert forall|i: int| 0 <= i < TABLE_LEN implies id_by_key(
        name_key(#[trigger] table_entry(i).name),
    ) == table_entry(i).id && !(char_code(table_entry(i).name, 0) == 'i' as int && char_code(
        table_entry(i).name,
        1,
    ) == 't' as int) by {
        if i == 0 {
            reveal_strlit("deagle");
        } else if i == 1 {
            reveal_strlit("dual_berettas");
        } else if i == 2 {
            reveal_strlit("five_seven");
        } else if i == 3 {
            reveal_strlit("glock");
        } else if i == 4 {
            reveal_strlit("ak47");
        } else if i == 5 {
            reveal_strlit("aug");
        } else if i == 6 {
            reveal_strlit("awp");
        } else if i == 7 {
            reveal_strlit("famas");
        } else if i == 8 {
            reveal_strlit("g3sg1");
        } else if i == 9 {
            reveal_strlit("galil_ar");
        } else if i == 10 {
            reveal_strlit("m249");
        } else if i == 11 {
            reveal_strlit("m4a4");
        } else if i == 12 {
            reveal_strlit("mac10");
        } else if i == 13 {
            reveal_strlit("p90");
        } else if i == 14 {
            reveal_strlit("mp5sd");
        } else if i == 15 {
            reveal_strlit("ump45");
        } else if i == 16 {
            reveal_strlit("xm1014");
        } else if i == 17 {
            reveal_strlit("bizon");
        } else if i == 18 {
            reveal_strlit("mag7");
        } else if i == 19 {
            reveal_strlit("negev");
        } else if i == 20 {
            reveal_strlit("sawedoff");
        } else if i == 21 {
            reveal_strlit("tec9");
        } else if i == 22 {
            reveal_strlit("taser");
        } else if i == 23 {
            reveal_strlit("p2000");
        } else if i == 24 {
            reveal_strlit("mp7");
        } else if i == 25 {
            reveal_strlit("mp9");
        } else if i == 26 {
            reveal_strlit("nova");
        } else if i == 27 {
            reveal_strlit("p250");
        } else if i == 28 {
            reveal_strlit("shield");
        } else if i == 29 {
            reveal_strlit("scar20");
        } else if i == 30 {
            reveal_strlit("sg553");
        } else if i == 31 {
            reveal_strlit("ssg08");
        } else if i == 32 {
            reveal_strlit("knifegg");
        } else if i == 33 {
            reveal_strlit("knife");
        } else if i == 34 {
            reveal_strlit("flashbang");
        } else if i == 35 {
            reveal_strlit("hegrenade");
        } else if i == 36 {
            reveal_strlit("smokegrenade");
        } else if i == 37 {
            reveal_strlit("molotov");
        } else if i == 38 {
            reveal_strlit("decoy");
        } else if i == 39 {
            reveal_strlit("incgrenade");
        } else if i == 40 {
            reveal_strlit("c4");
        } else if i == 41 {
            reveal_strlit("healthshot");
        } else if i == 42 {
            reveal_strlit("knife_t");
        } else if i == 43 {
            reveal_strlit("m4a1s");
        } else if i == 44 {
            reveal_strlit("usp_s");
        } else if i == 45 {
            reveal_strlit("cz75_auto");
        } else if i == 46 {
            reveal_strlit("r8_revolver");
        } else if i == 47 {
            reveal_strlit("tagrenade");
        } else if i == 48 {
            reveal_strlit("fists");
        } else if i == 49 {
            reveal_strlit("breachcharge");
        } else if i == 50 {
            reveal_strlit("tablet");
        } else if i == 51 {
            reveal_strlit("axe");
        } else if i == 52 {
            reveal_strlit("hammer");
        } else if i == 53 {
            reveal_strlit("spanner");
        } else if i == 54 {
            reveal_strlit("knife_ghost");
        } else if i == 55 {
            reveal_strlit("firebomb");
        } else if i == 56 {
            reveal_strlit("diversion");
        } else if i == 57 {
            reveal_strlit("frag_grenade");
        } else if i == 58 {
            reveal_strlit("snowball");
        } else if i == 59 {
            reveal_strlit("bumpmine");
        } else if i == 60 {
            reveal_strlit("bayonet");
        } else if i == 61 {
            reveal_strlit("knife_css");
        } else if i == 62 {
            reveal_strlit("knife_flip");
        } else if i == 63 {
            reveal_strlit("knife_gut");
        } else if i == 64 {
            reveal_strlit("knife_karambit");
        } else if i == 65 {
            reveal_strlit("knife_m9_bayonet");
        } else if i == 66 {
            reveal_strlit("knife_tactical");
        } else if i == 67 {
            reveal_strlit("knife_falchion");
        } else if i == 68 {
            reveal_strlit("knife_survival_bowie");
        } else if i == 69 {
            reveal_strlit("knife_butterfly");
        } else if i == 70 {
            reveal_strlit("knife_push");
        } else if i == 71 {
            reveal_strlit("knife_cord");
        } else if i == 72 {
            reveal_strlit("knife_canis");
        } else if i == 73 {
            reveal_strlit("knife_ursus");
        } else if i == 74 {
            reveal_strlit("knife_gypsy_jackknife");
        } else if i == 75 {
            reveal_strlit("knife_outdoor");
        } else if i == 76 {
            reveal_strlit("knife_stiletto");
        } else if i == 77 {
            reveal_strlit("knife_widowmaker");
        } else if i == 78 {
            reveal_strlit("knife_skeleton");
        } else if i == 79 {
            reveal_strlit("knife_kukri");
        }
    }
}

/// The weapons the game fires bullets with, by id: every pistol, rifle,
/// shotgun, submachine gun, machine gun and sniper rifle of the game.
pub open spec fn firearm_id(id: u16) -> bool {
    id == 1 || id == 2 || id == 3 || id == 4 || id == 7 || id == 8 || id == 9 || id == 10 ||
    id == 11 || id == 13 || id == 14 || id == 16 || id == 17 || id == 19 || id == 23 ||
    id == 24 || id == 25 || id == 26 || id == 27 || id == 28 || id == 29 || id == 30 ||
    id == 32 || id == 33 || id == 34 || id == 35 || id == 36 || id == 38 || id == 39 ||
    id == 40 || id == 60 || id == 61 || id == 63 || id == 64
}

/// The listed weapons that fire no bullet, by id: knives, grenades,
/// equipment, melee weapons and the zeus.
pub open spec fn non_bullet_id(id: u16) -> bool {
    id == 31 || id == 37 || id == 41 || id == 42 || id == 43 || id == 44 || id == 45 ||
    id == 46 || id == 47 || id == 48 || id == 49 || id == 57 || id == 59 || id == 68 ||
    id == 69 || id == 70 || id == 72 || id == 75 || id == 76 || id == 78 || id == 80 ||
    id == 81 || id == 82 || id == 83 || id == 84 || id == 85 || id == 500 || id == 503 ||
    id == 505 || id == 506 || id == 507 || id == 508 || id == 509 || id == 512 || id == 514 ||
    id == 515 || id == 516 || id == 517 || id == 518 || id == 519 || id == 520 || id == 521 ||
    id == 522 || id == 523 || id == 525 || id == 526
}

/// What each id classifies as, in terms of ids alone: the firearms above
/// are firearms; the listed non-bullet weapons and the whole knife range
/// 500 to 599 are non-bullet; every other id is unknown. So a kill counts
/// for the streak exactly when it was made with one of the firearms.
pub proof fn classification_by_id(id: u16)
    ensures
        classify_spec(id) == (if firearm_id(id) {
            Kind::Firearm
        } else if non_bullet_id(id) || 500 <= id <= 599 {
            Kind::NonBullet
        } else {
            Kind::Unknown
        }),
        kill_ignored_spec(id) == !firearm_id(id),
{
    lemma_table_kinds();
    if exists|i: int| 0 <= i < TABLE_LEN && #[trigger] table_entry(i).id == id {
        let c = choose|i: int| 0 <= i < TABLE_LEN && #[trigger] table_entry(i).id == id;
        assert(lookup_spec(id) == Some(table_entry(c)));
        assert(!(firearm_id(id) && non_bullet_id(id)));
    } else {
        if firearm_id(id) || non_bullet_id(id) {
            lemma_listed_ids_in_table(id);
        }
        if !(500 <= id <= 599) {
            unlisted_ids_are_unknown(id);
        }
    }
}

/// Each table entry's kind agrees with the id lists, and every table id is on one of them.
proof fn lemma_table_kinds()
    ensures
        forall|i: int|
            0 <= i < TABLE_LEN ==> (firearm_id(#[trigger] table_entry(i).id) || non_bullet_id(table_entry(i).id))
                && (table_entry(i).kind == Kind::Firearm <==> firearm_id(table_entry(i).id))
                && (table_entry(i).kind == Kind::NonBullet <==> non_bullet_id(table_entry(i).id)),
{
    assert forall|i: int| 0 <= i < TABLE_LEN implies (firearm_id(#[trigger] table_entry(i).id) || non_bullet_id(table_entry(i).id))
        && (table_entry(i).kind == Kind::Firearm <==> firearm_id(table_entry(i).id))
        && (table_entry(i).kind == Kind::NonBullet <==> non_bullet_id(table_entry(i).id)) by {
        if i == 0 {
            assert(table_entry(0).id == 1);
        } else if i == 1 {
            assert(table_entry(1).id == 2);
        } else if i == 2 {
            assert(table_entry(2).id == 3);
        } else if i == 3 {
            assert(table_entry(3).id == 4);
        } else if i == 4 {
            assert(table_entry(4).id == 7);
        } else if i == 5 {
            assert(table_entry(5).id == 8);
        } else if i == 6 {
            assert(table_entry(6).id == 9);
        } else if i == 7 {
            assert(table_entry(7).id == 10);
        } else if i == 8 {
            assert(table_entry(8).id == 11);
        } else if i == 9 {
            assert(table_entry(9).id == 13);
        } else if i == 10 {
            assert(table_entry(10).id == 14);
        } else if i == 11 {
            assert(table_entry(11).id == 16);
        } else if i == 12 {
            assert(table_entry(12).id == 17);
        } else if i == 13 {
            assert(table_entry(13).id == 19);
        } else if i == 14 {
            assert(table_entry(14).id == 23);
        } else if i == 15 {
            assert(table_entry(15).id == 24);
        } else if i == 16 {
            assert(table_entry(16).id == 25);
        } else if i == 17 {
            assert(table_entry(17).id == 26);
        } else if i == 18 {
            assert(table_entry(18).id == 27);
        } else if i == 19 {
            assert(table_entry(19).id == 28);
        } else if i == 20 {
            assert(table_entry(20).id == 29);
        } else if i == 21 {
            assert(table_entry(21).id == 30);
        } else if i == 22 {
            assert(table_entry(22).id == 31);
        } else if i == 23 {
            assert(table_entry(23).id == 32);
        } else if i == 24 {
            assert(table_entry(24).id == 33);
        } else if i == 25 {
            assert(table_entry(25).id == 34);
        } else if i == 26 {
            assert(table_entry(26).id == 35);
        } else if i == 27 {
            assert(table_entry(27).id == 36);
        } else if i == 28 {
            assert(table_entry(28).id == 37);
        } else if i == 29 {
            assert(table_entry(29).id == 38);
        } else if i == 30 {
            assert(table_entry(30).id == 39);
        } else if i == 31 {
            assert(table_entry(31).id == 40);
        } else if i == 32 {
            assert(table_entry(32).id == 41);
        } else if i == 33 {
            assert(table_entry(33).id == 42);
        } else if i == 34 {
            assert(table_entry(34).id == 43);
        } else if i == 35 {
            assert(table_entry(35).id == 44);
        } else if i == 36 {
            assert(table_entry(36).id == 45);
        } else if i == 37 {
            assert(table_entry(37).id == 46);
        } else if i == 38 {
            assert(table_entry(38).id == 47);
        } else if i == 39 {
            assert(table_entry(39).id == 48);
        } else if i == 40 {
            assert(table_entry(40).id == 49);
        } else if i == 41 {
            assert(table_entry(41).id == 57);
        } else if i == 42 {
            assert(table_entry(42).id == 59);
        } else if i == 43 {
            assert(table_entry(43).id == 60);
        } else if i == 44 {
            assert(table_entry(44).id == 61);
        } else if i == 45 {
            assert(table_entry(45).id == 63);
        } else if i == 46 {
            assert(table_entry(46).id == 64);
        } else if i == 47 {
            assert(table_entry(47).id == 68);
        } else if i == 48 {
            assert(table_entry(48).id == 69);
        } else if i == 49 {
            assert(table_entry(49).id == 70);
        } else if i == 50 {
            assert(table_entry(50).id == 72);
        } else if i == 51 {
            assert(table_entry(51).id == 75);
        } else if i == 52 {
            assert(table_entry(52).id == 76);
        } else if i == 53 {
            assert(table_entry(53).id == 78);
        } else if i == 54 {
            assert(table_entry(54).id == 80);
        } else if i == 55 {
            assert(table_entry(55).id == 81);
        } else if i == 56 {
            assert(table_entry(56).id == 82);
        } else if i == 57 {
            assert(table_entry(57).id == 83);
        } else if i == 58 {
            assert(table_entry(58).id == 84);
        } else if i == 59 {
            assert(table_entry(59).id == 85);
        } else if i == 60 {
            assert(table_entry(60).id == 500);
        } else if i == 61 {
            assert(table_entry(61).id == 503);
        } else if i == 62 {
            assert(table_entry(62).id == 505);
        } else if i == 63 {
            assert(table_entry(63).id == 506);
        } else if i == 64 {
            assert(table_entry(64).id == 507);
        } else if i == 65 {
            assert(table_entry(65).id == 508);
        } else if i == 66 {
            assert(table_entry(66).id == 509);
        } else if i == 67 {
            assert(table_entry(67).id == 512);
        } else if i == 68 {
            assert(table_entry(68).id == 514);
        } else if i == 69 {
            assert(table_entry(69).id == 515);
        } else if i == 70 {
            assert(table_entry(70).id == 516);
        } else if i == 71 {
            assert(table_entry(71).id == 517);
        } else if i == 72 {
            assert(table_entry(72).id == 518);
        } else if i == 73 {
            assert(table_entry(73).id == 519);
        } else if i == 74 {
            assert(table_entry(74).id == 520);
        } else if i == 75 {
            assert(table_entry(75).id == 521);
        } else if i == 76 {
            assert(table_entry(76).id == 522);
        } else if i == 77 {
            assert(table_entry(77).id == 523);
        } else if i == 78 {
            assert(table_entry(78).id == 525);
        } else if i == 79 {
            assert(table_entry(79).id == 526);
        }
    }
}

/// Every id on the lists has its table entry.
proof fn lemma_listed_ids_in_table(id: u16)
    requires
        firearm_id(id) || non_bullet_id(id),
    ensures
        exists|i: int| 0 <= i < TABLE_LEN && #[trigger] table_entry(i).id == id,
{
    if id == 1 {
        assert(table_entry(0).id == id);
    } else if id == 2 {
        assert(table_entry(1).id == id);
    } else if id == 3 {
        assert(table_entry(2).id == id);
    } else if id == 4 {
        assert(table_entry(3).id == id);
    } else if id == 7 {
        assert(table_entry(4).id == id);
    } else if id == 8 {
        assert(table_entry(5).id == id);
    } else if id == 9 {
        assert(table_entry(6).id == id);
    } else if id == 10 {
        assert(table_entry(7).id == id);
    } else if id == 11 {
        assert(table_entry(8).id == id);
    } else if id == 13 {
        assert(table_entry(9).id == id);
    } else if id == 14 {
        assert(table_entry(10).id == id);
    } else if id == 16 {
        assert(table_entry(11).id == id);
    } else if id == 17 {
        assert(table_entry(12).id == id);
    } else if id == 19 {
        assert(table_entry(13).id == id);
    } else if id == 23 {
        assert(table_entry(14).id == id);
    } else if id == 24 {
        assert(table_entry(15).id == id);
    } else if id == 25 {
        assert(table_entry(16).id == id);
    } else if id == 26 {
        assert(table_entry(17).id == id);
    } else if id == 27 {
        assert(table_entry(18).id == id);
    } else if id == 28 {
        assert(table_entry(19).id == id);
    } else if id == 29 {
        assert(table_entry(20).id == id);
    } else if id == 30 {
        assert(table_entry(21).id == id);
    } else if id == 31 {
        assert(table_entry(22).id == id);
    } else if id == 32 {
        assert(table_entry(23).id == id);
    } else if id == 33 {
        assert(table_entry(24).id == id);
    } else if id == 34 {
        assert(table_entry(25).id == id);
    } else if id == 35 {
        assert(table_entry(26).id == id);
    } else if id == 36 {
        assert(table_entry(27).id == id);
    } else if id == 37 {
        assert(table_entry(28).id == id);
    } else if id == 38 {
        assert(table_entry(29).id == id);
    } else if id == 39 {
        assert(table_entry(30).id == id);
    } else if id == 40 {
        assert(table_entry(31).id == id);
    } else if id == 41 {
        assert(table_entry(32).id == id);
    } else if id == 42 {
        assert(table_entry(33).id == id);
    } else if id == 43 {
        assert(table_entry(34).id == id);
    } else if id == 44 {
        assert(table_entry(35).id == id);
    } else if id == 45 {
        assert(table_entry(36).id == id);
    } else if id == 46 {
        assert(table_entry(37).id == id);
    } else if id == 47 {
        assert(table_entry(38).id == id);
    } else if id == 48 {
        assert(table_entry(39).id == id);
    } else if id == 49 {
        assert(table_entry(40).id == id);
    } else if id == 57 {
        assert(table_entry(41).id == id);
    } else if id == 59 {
        assert(table_entry(42).id == id);
    } else if id == 60 {
        assert(table_entry(43).id == id);
    } else if id == 61 {
        assert(table_entry(44).id == id);
    } else if id == 63 {
        assert(table_entry(45).id == id);
    } else if id == 64 {
        assert(table_entry(46).id == id);
    } else if id == 68 {
        assert(table_entry(47).id == id);
    } else if id == 69 {
        assert(table_entry(48).id == id);
    } else if id == 70 {
        assert(table_entry(49).id == id);
    } else if id == 72 {
        assert(table_entry(50).id == id);
    } else if id == 75 {
        assert(table_entry(51).id == id);
    } else if id == 76 {
        assert(table_entry(52).id == id);
    } else if id == 78 {
        assert(table_entry(53).id == id);
    } else if id == 80 {
        assert(table_entry(54).id == id);
    } else if id == 81 {
        assert(table_entry(55).id == id);
    } else if id == 82 {
        assert(table_entry(56).id == id);
    } else if id == 83 {
        assert(table_entry(57).id == id);
    } else if id == 84 {
        assert(table_entry(58).id == id);
    } else if id == 85 {
        assert(table_entry(59).id == id);
    } else if id == 500 {
        assert(table_entry(60).id == id);
    } else if id == 503 {
        assert(table_entry(61).id == id);
    } else if id == 505 {
        assert(table_entry(62).id == id);
    } else if id == 506 {
        assert(table_entry(63).id == id);
    } else if id == 507 {
        assert(table_entry(64).id == id);
    } else if id == 508 {
        assert(table_entry(65).id == id);
    } else if id == 509 {
        assert(table_entry(66).id == id);
    } else if id == 512 {
        assert(table_entry(67).id == id);
    } else if id == 514 {
        assert(table_entry(68).id == id);
    } else if id == 515 {
        assert(table_entry(69).id == id);
    } else if id == 516 {
        assert(table_entry(70).id == id);
    } else if id == 517 {
        assert(table_entry(71).id == id);
    } else if id == 518 {
        assert(table_entry(72).id == id);
    } else if id == 519 {
        assert(table_entry(73).id == id);
    } else if id == 520 {
        assert(table_entry(74).id == id);
    } else if id == 521 {
        assert(table_entry(75).id == id);
    } else if id == 522 {
        assert(table_entry(76).id == id);
    } else if id == 523 {
        assert(table_entry(77).id == id);
    } else if id == 525 {
        assert(table_entry(78).id == id);
    } else if id == 526 {
        assert(table_entry(79).id == id);
    }
}

/// An id the table does not list, outside the knife range 500 to 599, is
/// of unknown kind: its display name `item_<id>` holds none of the hints.
pub proof fn unlisted_ids_are_unknown(id: u16)
    requires
        lookup_spec(id) is None,
        !(500 <= id <= 599),
    ensures
        classify_spec(id) == Kind::Unknown,
{
    lemma_item_name(id);
    lemma_no_firearm_hint("item_"@ + decimal(id as nat));
    lemma_no_non_bullet_hint("item_"@ + decimal(id as nat));
}

proof fn lemma_decimal_long(n: nat)
    ensures
        decimal(n).len() >= 1,
        n >= 10 ==> decimal(n).len() >= 2,
    decreases n,
{
    if n >= 10 {
        lemma_decimal_long(n / 10);
    }
}

/// Different numbers have different decimal representations.
proof fn lemma_decimal_injective(a: nat, b: nat)
    requires
        decimal(a) == decimal(b),
    ensures
        a == b,
    decreases a + b,
{
    lemma_decimal_long(a);
    lemma_decimal_long(b);
    if a < 10 && b < 10 {
        assert(decimal(a)[0] == digit_char(a) && decimal(b)[0] == digit_char(b));
        assert(digit_char(a) as int == 48 + a);
        assert(digit_char(b) as int == 48 + b);
    } else if a >= 10 && b >= 10 {
        let (da, db) = (decimal(a), decimal(b));
        assert(da.drop_last() =~= decimal(a / 10));
        assert(db.drop_last() =~= decimal(b / 10));
        lemma_decimal_injective(a / 10, b / 10);
        assert(da.last() == digit_char(a % 10) && db.last() == digit_char(b % 10));
        assert(digit_char(a % 10) as int == 48 + a % 10);
        assert(digit_char(b % 10) as int == 48 + b % 10);
    }
}

/// Distinct ids are shown under distinct names: the table's names differ
/// from each other, none looks like `item_<id>`, and `item_<id>` names
/// differ in their digits.
pub proof fn display_names_distinct(a: u16, b: u16)
    requires
        a != b,
    ensures
        display_name_spec(a) != display_name_spec(b),
{
    lemma_table_names();
    reveal_strlit("item_");
    if display_name_spec(a) == display_name_spec(b) {
        let na = display_name_spec(a);
        match (lookup_spec(a), lookup_spec(b)) {
            (Some(wa), Some(wb)) => {
                let ia = choose|i: int| 0 <= i < TABLE_LEN && #[trigger] table_entry(i).id == a;
                let ib = choose|i: int| 0 <= i < TABLE_LEN && #[trigger] table_entry(i).id == b;
                assert(id_by_key(name_key(table_entry(ia).name)) == table_entry(ia).id);
                assert(id_by_key(name_key(table_entry(ib).name)) == table_entry(ib).id);
            },
            (Some(wa), None) => {
                let ia = choose|i: int| 0 <= i < TABLE_LEN && #[trigger] table_entry(i).id == a;
                assert(na == table_entry(ia).name);
                assert(na[0] == 'i' && na[1] == 't');
            },
            (None, Some(wb)) => {
                let ib = choose|i: int| 0 <= i < TABLE_LEN && #[trigger] table_entry(i).id == b;
                assert(na == table_entry(ib).name);
                assert(na[0] == 'i' && na[1] == 't');
            },
            (None, None) => {
                assert(decimal(a as nat) =~= na.subrange(5, na.len() as int));
                assert(decimal(b as nat) =~= na.subrange(5, na.len() as int));
                lemma_decimal_injective(a as nat, b as nat);
            },
        }
    }
}

} // verus!
