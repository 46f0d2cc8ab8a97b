//! Game offsets: the global offsets and class-field offsets the timer reads
//! through, and their assembly from the offset dumps.

use vstd::prelude::*;
use vstd::set_lib::{lemma_int_range, lemma_len_subset, set_int_range};

use vstd::string::StringExecFns;

use crate::text::str_eq;

verus! {

/// Offsets into the game client, as published by the offset dumper.
#[derive(Debug, Clone, Copy)]
pub struct Offsets {
    pub dw_entity_list: i64,
    pub dw_game_rules: i64,
    pub dw_local_player_controller: i64,
    pub dw_local_player_pawn: i64,

    pub m_h_pawn: i64,
    pub m_p_action_tracking_services: i64,
    pub m_i_num_round_kills: i64,
    pub m_p_weapon_services: i64,
    pub m_h_active_weapon: i64,
    pub m_attribute_manager: i64,
    pub m_f_accuracy_penalty: i64,
    pub m_item: i64,
    pub m_i_item_definition_index: i64,
    pub m_i_health: i64,
    pub m_i_team_num: i64,
    pub m_life_state: i64,

    pub m_b_freeze_period: i64,
    pub m_b_warmup_period: i64,
    pub m_i_round_win_status: i64,
    pub m_b_switching_teams_at_round_reset: i64,
    pub m_b_team_intro_period: i64,
}

/// One class of the class-schema dump: its name, its parent class and its
/// own fields with their offsets.
pub struct ClassSchema {
    pub name: String,
    pub parent: Option<String>,
    pub fields: Vec<(String, i64)>,
}

/// A field list as the contracts see it.
pub open spec fn fields_view(fs: Seq<(String, i64)>) -> Seq<(Seq<char>, i64)> {
    fs.map_values(|p: (String, i64)| (p.0@, p.1))
}

/// A class as the contracts see it.
pub struct ClassView {
    pub name: Seq<char>,
    pub parent: Option<Seq<char>>,
    pub fields: Seq<(Seq<char>, i64)>,
}

impl View for ClassSchema {
    type V = ClassView;

    open spec fn view(&self) -> ClassView {
        ClassView {
            name: self.name@,
            parent: match self.parent {
                Some(p) => Some(p@),
                None => None,
            },
            fields: fields_view(self.fields@),
        }
    }
}

/// A class list as the contracts see it.
pub open spec fn classes_view(cs: Seq<ClassSchema>) -> Seq<ClassView> {
    cs.map_values(|c: ClassSchema| c@)
}

/// Index of the first class named `name`.
pub open spec fn find_class(classes: Seq<ClassView>, name: Seq<char>) -> Option<int> {
    if exists|i: int| 0 <= i < classes.len() && #[trigger] classes[i].name == name {
        Some(
            choose|i: int|
                0 <= i < classes.len() && #[trigger] classes[i].name == name && forall|j: int|
                    0 <= j < i ==> classes[j].name != name,
        )
    } else {
        None
    }
}

/// Classes met walking from the class named by `cur` up through parents,
/// after those in `path`: the walk stops at a name with no class, at a class
/// met before, or when `fuel` runs out.
pub open spec fn chain_from(
    classes: Seq<ClassView>,
    cur: Option<Seq<char>>,
    path: Seq<int>,
    fuel: nat,
) -> Seq<int>
    decreases fuel,
{
    if fuel == 0 {
        path
    } else {
        match cur {
            None => path,
            Some(name) => match find_class(classes, name) {
                None => path,
                Some(i) => if path.contains(i) {
                    path
                } else {
                    chain_from(classes, classes[i].parent, path.push(i), (fuel - 1) as nat)
                },
            },
        }
    }
}

/// The class named `name` and its ancestors, nearest first, each met once.
/// (The fuel never runs out: the walk meets each class at most once.)
pub open spec fn class_chain(classes: Seq<ClassView>, name: Seq<char>) -> Seq<int> {
    chain_from(classes, Some(name), Seq::empty(), classes.len())
}

/// Fields of the classes of `chain`, farthest ancestor first.
pub open spec fn chain_fields(classes: Seq<ClassView>, chain: Seq<int>) -> Seq<(Seq<char>, i64)>
    decreases chain.len(),
{
    if chain.len() == 0 {
        Seq::empty()
    } else {
        chain_fields(classes, chain.drop_first()) + classes[chain[0]].fields
    }
}

/// No name occurs twice. The dumps are JSON objects keyed by module, class
/// and field name, so each of their lists has distinct names; the lookups
/// here take the first (or for fields the last) entry of a name, which on
/// such lists is the one entry of that name (`unique_name_found`,
/// `unique_class_found`, `unique_field_found`).
pub open spec fn distinct_names(names: Seq<Seq<char>>) -> bool {
    forall|i: int, j: int| 0 <= i < j < names.len() ==> names[i] != names[j]
}

/// Value of the last entry named `name`.
pub open spec fn last_value(fs: Seq<(Seq<char>, i64)>, name: Seq<char>) -> Option<i64>
    decreases fs.len(),
{
    if fs.len() == 0 {
        None
    } else if fs.last().0 == name {
        Some(fs.last().1)
    } else {
        last_value(fs.drop_last(), name)
    }
}

/// Field `field` of class `class`, inherited fields included: a class's own
/// field wins over the same name in an ancestor.
pub open spec fn class_field(classes: Seq<ClassView>, class: Seq<char>, field: Seq<char>) -> Option<i64> {
    last_value(chain_fields(classes, class_chain(classes, class)), field)
}

/// A path of distinct indices below `n` that is `n` long holds every index below `n`.
proof fn lemma_full_path_contains(path: Seq<int>, n: int, i: int)
    requires
        path.no_duplicates(),
        forall|k: int| 0 <= k < path.len() ==> 0 <= #[trigger] path[k] < n,
        path.len() >= n,
        0 <= i < n,
    ensures
        path.contains(i),
{
    if !path.contains(i) {
        path.unique_seq_to_set();
        lemma_int_range(0, n);
        let s = path.to_set().insert(i);
        assert(s.subset_of(set_int_range(0, n)));
        lemma_len_subset(s, set_int_range(0, n));
        assert(!path.to_set().contains(i));
    }
}

/// More fuel than the walk can use changes nothing.
proof fn lemma_chain_fuel(classes: Seq<ClassView>, cur: Option<Seq<char>>, path: Seq<int>, fuel: nat)
    requires
        path.no_duplicates(),
        forall|k: int| 0 <= k < path.len() ==> 0 <= #[trigger] path[k] < classes.len(),
        path.len() + fuel >= classes.len(),
    ensures
        chain_from(classes, cur, path, fuel) == chain_from(classes, cur, path, fuel + 1),
    decreases fuel,
{
    if let Some(name) = cur {
        if let Some(i) = find_class(classes, name) {
            if fuel == 0 {
                lemma_find_class(classes, name);
                lemma_full_path_contains(path, classes.len() as int, i);
            } else if !path.contains(i) {
                lemma_find_class(classes, name);
                lemma_chain_fuel(classes, classes[i].parent, path.push(i), (fuel - 1) as nat);
            }
        }
    }
}

proof fn lemma_find_class(classes: Seq<ClassView>, name: Seq<char>)
    ensures
        match find_class(classes, name) {
            Some(i) => 0 <= i < classes.len() && classes[i].name == name && forall|j: int|
                0 <= j < i ==> classes[j].name != name,
            None => forall|j: int| 0 <= j < classes.len() ==> classes[j].name != name,
        },
{
    if exists|i: int| 0 <= i < classes.len() && #[trigger] classes[i].name == name {
        let w = choose|i: int| 0 <= i < classes.len() && #[trigger] classes[i].name == name;
        lemma_least_index(classes, name, w);
    }
}

proof fn lemma_least_index(classes: Seq<ClassView>, name: Seq<char>, w: int)
    requires
        0 <= w < classes.len(),
        classes[w].name == name,
    ensures
        exists|i: int|
            0 <= i < classes.len() && #[trigger] classes[i].name == name && forall|j: int|
                0 <= j < i ==> classes[j].name != name,
    decreases w,
{
    if exists|j: int| 0 <= j < w && #[trigger] classes[j].name == name {
        let j = choose|j: int| 0 <= j < w && #[trigger] classes[j].name == name;
        lemma_least_index(classes, name, j);
    } else {
        assert(forall|j: int| 0 <= j < w ==> classes[j].name != name);
    }
}

/// Index of the first class named `name`.
fn find_class_index(classes: &Vec<ClassSchema>, name: &str) -> (r: Option<usize>)
    ensures
        r matches Some(i) ==> find_class(classes_view(classes@), name@) == Some(i as int),
        r is None ==> find_class(classes_view(classes@), name@) is None,
{
    let ghost cv = classes_view(classes@);
    proof {
        lemma_find_class(cv, name@);
    }
    let mut i: usize = 0;
    while i < classes.len()
        invariant
            cv == classes_view(classes@),
            cv.len() == classes@.len(),
            i <= classes.len(),
            forall|j: int| 0 <= j < i ==> cv[j].name != name@,
            match find_class(cv, name@) {
                Some(k) => 0 <= k < cv.len() && cv[k].name == name@ && forall|j: int|
                    0 <= j < k ==> cv[j].name != name@,
                None => forall|j: int| 0 <= j < cv.len() ==> cv[j].name != name@,
            },
        decreases classes.len() - i,
    {
        if str_eq(classes[i].name.as_str(), name) {
            assert(cv[i as int].name == name@);
            return Some(i);
        }
        i += 1;
    }
    None
}

/// Indices of the class named `class_name` and of its ancestors, nearest first.
fn class_chain_indices(classes: &Vec<ClassSchema>, class_name: &str) -> (chain: Vec<usize>)
    ensures
        chain@.map_values(|i: usize| i as int) == class_chain(classes_view(classes@), class_name@),
        forall|q: int| 0 <= q < chain@.len() ==> #[trigger] chain@[q] < classes@.len(),
{
    let ghost cv = classes_view(classes@);
    let mut chain: Vec<usize> = Vec::new();
    let mut cur: Option<String> = Some(String::from_str(class_name));
    let ghost mut fuel: nat = cv.len();
    assert(chain@.map_values(|i: usize| i as int) =~= Seq::<int>::empty());
    loop
        invariant
            cv == classes_view(classes@),
            cv.len() == classes@.len(),
            chain@.len() + fuel == cv.len(),
            chain@.map_values(|i: usize| i as int).no_duplicates(),
            forall|k: int| 0 <= k < chain@.len() ==> #[trigger] chain@[k] < cv.len(),
            chain_from(
                cv,
                match cur {
                    Some(c) => Some(c@),
                    None => None,
                },
                chain@.map_values(|i: usize| i as int),
                fuel,
            ) == class_chain(cv, class_name@),
        ensures
            chain@.map_values(|i: usize| i as int) == class_chain(cv, class_name@),
            forall|k: int| 0 <= k < chain@.len() ==> #[trigger] chain@[k] < cv.len(),
        decreases fuel,
    {
        let ghost path = chain@.map_values(|i: usize| i as int);
        let name = match &cur {
            Some(n) => n,
            None => {
                proof {
                    reveal_with_fuel(chain_from, 1);
                }
                break;
            },
        };
        let idx = match find_class_index(classes, name.as_str()) {
            Some(i) => i,
            None => {
                proof {
                    if fuel > 0 {
                        assert(chain_from(cv, Some(name@), path, fuel) == path);
                    }
                }
                break;
            },
        };
        proof {
            lemma_find_class(cv, name@);
        }
        if contains_index(&chain, idx) {
            proof {
                assert(path.contains(idx as int)) by {
                    let k = choose|k: int| 0 <= k < chain@.len() && chain@[k] == idx;
                    assert(path[k] == idx as int);
                }
                lemma_chain_fuel(cv, Some(name@), path, fuel);
                assert(chain_from(cv, Some(name@), path, fuel + 1) == path);
            }
            break;
        }
        proof {
            assert(!path.contains(idx as int)) by {
                if path.contains(idx as int) {
                    let k = choose|k: int| 0 <= k < path.len() && path[k] == idx as int;
                    assert(chain@[k] == idx);
                }
            }
            if fuel == 0 {
                lemma_full_path_contains(path, cv.len() as int, idx as int);
            }
        }
        chain.push(idx);
        proof {
            assert(chain@.map_values(|i: usize| i as int) =~= path.push(idx as int));
            fuel = (fuel - 1) as nat;
        }
        cur = match &classes[idx].parent {
            Some(p) => Some(p.clone()),
            None => None,
        };
    }
    chain
}

/// Append the fields `fs` to `out`.
fn append_fields(out: &mut Vec<(String, i64)>, fs: &Vec<(String, i64)>)
    ensures
        fields_view(final(out)@) == fields_view(old(out)@) + fields_view(fs@),
{
    let mut f: usize = 0;
    while f < fs.len()
        invariant
            fields_view(out@) == fields_view(old(out)@) + fields_view(fs@).subrange(0, f as int),
            f <= fs.len(),
        decreases fs.len() - f,
    {
        let pair = &fs[f];
        let ghost prev = out@;
        let name = pair.0.clone();
        assert(name@ == fs@[f as int].0@);
        out.push((name, pair.1));
        assert(out@ == prev.push((name, pair.1)));
        assert(fields_view(out@) =~= fields_view(prev).push((fs@[f as int].0@, fs@[f as int].1)));
        f += 1;
        assert(fields_view(out@) =~= fields_view(old(out)@) + fields_view(fs@).subrange(0, f as int));
    }
    assert(fields_view(fs@).subrange(0, fs@.len() as int) =~= fields_view(fs@));
}

/// The fields of class `class_name` and of its ancestors, farthest ancestor
/// first, so that the last entry of a name is the nearest class's field.
/// The walk up through parents stops at a parent name that no class has,
/// or at a class already met.
pub fn merged_class_fields(classes: &Vec<ClassSchema>, class_name: &str) -> (r: Vec<(String, i64)>)
    ensures
        fields_view(r@) == chain_fields(
            classes_view(classes@),
            class_chain(classes_view(classes@), class_name@),
        ),
{
    let ghost cv = classes_view(classes@);
    let chain = class_chain_indices(classes, class_name);
    let ghost full = chain@.map_values(|i: usize| i as int);
    let mut out: Vec<(String, i64)> = Vec::new();
    let mut k: usize = chain.len();
    assert(full.subrange(k as int, full.len() as int) =~= Seq::<int>::empty());
    assert(fields_view(out@) =~= Seq::empty());
    while k > 0
        invariant
            cv == classes_view(classes@),
            full == chain@.map_values(|i: usize| i as int),
            forall|q: int| 0 <= q < chain@.len() ==> #[trigger] chain@[q] < classes@.len(),
            k <= chain.len(),
            fields_view(out@) == chain_fields(cv, full.subrange(k as int, full.len() as int)),
        decreases k,
    {
        k -= 1;
        let c = &classes[chain[k]];
        append_fields(&mut out, &c.fields);
        proof {
            let tail = full.subrange(k as int, full.len() as int);
            assert(tail.drop_first() =~= full.subrange(k + 1, full.len() as int));
            assert(tail[0] == chain@[k as int] as int);
            assert(cv[chain@[k as int] as int] == c@);
        }
    }
    assert(full.subrange(0, full.len() as int) =~= full);
    out
}

fn contains_index(v: &Vec<usize>, x: usize) -> (r: bool)
    ensures
        r == exists|k: int| 0 <= k < v@.len() && v@[k] == x,
{
    let mut i: usize = 0;
    while i < v.len()
        invariant
            i <= v.len(),
            forall|k: int| 0 <= k < i ==> v@[k] != x,
        decreases v.len() - i,
    {
        if v[i] == x {
            return true;
        }
        i += 1;
    }
    false
}

/// The offsets dump of one module: global offsets by name. A value that is
/// not a 64-bit integer is `None`.
pub struct ModuleOffsets {
    pub name: String,
    pub values: Vec<(String, Option<i64>)>,
}

/// The class-schema dump of one module.
pub struct ModuleSchema {
    pub name: String,
    pub classes: Vec<ClassSchema>,
}

pub open spec fn values_view(vs: Seq<(String, Option<i64>)>) -> Seq<(Seq<char>, Option<i64>)> {
    vs.map_values(|p: (String, Option<i64>)| (p.0@, p.1))
}

/// Index of the first entry of `names` equal to `name`, looking from `i` on.
pub open spec fn first_index_from(names: Seq<Seq<char>>, name: Seq<char>, i: int) -> Option<int>
    decreases names.len() - i,
{
    if i < 0 || i >= names.len() {
        None
    } else if names[i] == name {
        Some(i)
    } else {
        first_index_from(names, name, i + 1)
    }
}

/// Index of the first entry of `names` equal to `name`.
pub open spec fn first_index(names: Seq<Seq<char>>, name: Seq<char>) -> Option<int> {
    first_index_from(names, name, 0)
}

/// Global offset `name` of a module's offsets: the first entry of that
/// name, when its value is a 64-bit integer.
pub open spec fn offset_value(vals: Seq<(Seq<char>, Option<i64>)>, name: Seq<char>) -> Option<i64> {
    match first_index(vals.map_values(|p: (Seq<char>, Option<i64>)| p.0), name) {
        Some(i) => vals[i].1,
        None => None,
    }
}

/// Index of the first `None`, looking from `i` on.
pub open spec fn first_none_from(s: Seq<Option<i64>>, i: int) -> Option<int>
    decreases s.len() - i,
{
    if i < 0 || i >= s.len() {
        None
    } else if s[i] is None {
        Some(i)
    } else {
        first_none_from(s, i + 1)
    }
}

/// Names of the global offsets the timer needs, in the order they are looked up.
pub open spec fn off_names() -> Seq<Seq<char>> {
    seq!["dwEntityList"@, "dwGameRules"@, "dwLocalPlayerController"@, "dwLocalPlayerPawn"@]
}

/// Classes and names of the fields the timer needs, in the order they are looked up.
pub open spec fn field_specs() -> Seq<(Seq<char>, Seq<char>)> {
    seq![("CBasePlayerController"@, "m_hPawn"@), ("CCSPlayerController"@, "m_pActionTrackingServices"@), ("CCSPlayerController_ActionTrackingServices"@, "m_iNumRoundKills"@), ("C_BasePlayerPawn"@, "m_pWeaponServices"@), ("CPlayer_WeaponServices"@, "m_hActiveWeapon"@), ("C_EconEntity"@, "m_AttributeManager"@), ("C_CSWeaponBase"@, "m_fAccuracyPenalty"@), ("C_AttributeContainer"@, "m_Item"@), ("C_EconItemView"@, "m_iItemDefinitionIndex"@), ("C_BaseEntity"@, "m_iHealth"@), ("C_BaseEntity"@, "m_iTeamNum"@), ("C_BaseEntity"@, "m_lifeState"@), ("C_CSGameRules"@, "m_bFreezePeriod"@), ("C_CSGameRules"@, "m_bWarmupPeriod"@), ("C_CSGameRules"@, "m_iRoundWinStatus"@), ("C_CSGameRules"@, "m_bSwitchingTeamsAtRoundReset"@), ("C_CSGameRules"@, "m_bTeamIntroPeriod"@)]
}

/// The offsets made of the global offsets `o` and the field offsets `f`, in lookup order.
pub open spec fn offsets_from(o: Seq<i64>, f: Seq<i64>) -> Offsets {
    Offsets {
        dw_entity_list: o[0],
        dw_game_rules: o[1],
        dw_local_player_controller: o[2],
        dw_local_player_pawn: o[3],
        m_h_pawn: f[0],
        m_p_action_tracking_services: f[1],
        m_i_num_round_kills: f[2],
        m_p_weapon_services: f[3],
        m_h_active_weapon: f[4],
        m_attribute_manager: f[5],
        m_f_accuracy_penalty: f[6],
        m_item: f[7],
        m_i_item_definition_index: f[8],
        m_i_health: f[9],
        m_i_team_num: f[10],
        m_life_state: f[11],
        m_b_freeze_period: f[12],
        m_b_warmup_period: f[13],
        m_i_round_win_status: f[14],
        m_b_switching_teams_at_round_reset: f[15],
        m_b_team_intro_period: f[16],
    }
}

/// Why the offsets could not be assembled.
pub enum OffsetsError {
    /// The offsets dump has no `client.dll` module.
    MissingOffsetsModule,
    /// The class-schema dump has no `client.dll` module.
    MissingSchemaModule,
    /// The `client.dll` offsets lack this global offset (or its value is no integer).
    MissingOffset(String),
    /// This class, with its ancestors, lacks this field.
    MissingField(String, String),
}

/// An error as the contracts see it.
pub enum OffsetsErrorView {
    MissingOffsetsModule,
    MissingSchemaModule,
    MissingOffset(Seq<char>),
    MissingField(Seq<char>, Seq<char>),
}

impl View for OffsetsError {
    type V = OffsetsErrorView;

    open spec fn view(&self) -> OffsetsErrorView {
        match self {
            OffsetsError::MissingOffsetsModule => OffsetsErrorView::MissingOffsetsModule,
            OffsetsError::MissingSchemaModule => OffsetsErrorView::MissingSchemaModule,
            OffsetsError::MissingOffset(n) => OffsetsErrorView::MissingOffset(n@),
            OffsetsError::MissingField(c, n) => OffsetsErrorView::MissingField(c@, n@),
        }
    }
}

/// Module whose offsets the timer uses.
pub open spec fn client_module() -> Seq<char> {
    "client.dll"@
}

/// The offsets assembled from the two dumps: the `client.dll` module of
/// each (the offsets dump checked first), then the global offsets and the
/// fields in lookup order; the first one missing is the error.
pub open spec fn build_spec(offs: Seq<ModuleOffsets>, schema: Seq<ModuleSchema>) -> Result<
    Offsets,
    OffsetsErrorView,
> {
    match first_index(offs.map_values(|m: ModuleOffsets| m.name@), client_module()) {
        None => Err(OffsetsErrorView::MissingOffsetsModule),
        Some(mi) => match first_index(schema.map_values(|m: ModuleSchema| m.name@), client_module()) {
            None => Err(OffsetsErrorView::MissingSchemaModule),
            Some(si) => {
                let vals = values_view(offs[mi].values@);
                let cls = classes_view(schema[si].classes@);
                let ov = Seq::new(4, |k: int| offset_value(vals, off_names()[k]));
                let fv = Seq::new(
                    17,
                    |k: int| class_field(cls, field_specs()[k].0, field_specs()[k].1),
                );
                match first_none_from(ov, 0) {
                    Some(k) => Err(OffsetsErrorView::MissingOffset(off_names()[k])),
                    None => match first_none_from(fv, 0) {
                        Some(k) => Err(
                            OffsetsErrorView::MissingField(field_specs()[k].0, field_specs()[k].1),
                        ),
                        None => Ok(
                            offsets_from(
                                ov.map_values(|v: Option<i64>| v.unwrap()),
                                fv.map_values(|v: Option<i64>| v.unwrap()),
                            ),
                        ),
                    },
                }
            },
        },
    }
}

fn off_name(k: usize) -> (n: &'static str)
    requires
        k < 4,
    ensures
        n@ == off_names()[k as int],
{
    match k {
        0 => "dwEntityList",
        1 => "dwGameRules",
        2 => "dwLocalPlayerController",
        3 => "dwLocalPlayerPawn",
        _ => "dwLocalPlayerPawn",
    }
}

fn field_spec(k: usize) -> (r: (&'static str, &'static str))
    requires
        k < 17,
    ensures
        r.0@ == field_specs()[k as int].0,
        r.1@ == field_specs()[k as int].1,
{
    match k {
        0 => ("CBasePlayerController", "m_hPawn"),
        1 => ("CCSPlayerController", "m_pActionTrackingServices"),
        2 => ("CCSPlayerController_ActionTrackingServices", "m_iNumRoundKills"),
        3 => ("C_BasePlayerPawn", "m_pWeaponServices"),
        4 => ("CPlayer_WeaponServices", "m_hActiveWeapon"),
        5 => ("C_EconEntity", "m_AttributeManager"),
        6 => ("C_CSWeaponBase", "m_fAccuracyPenalty"),
        7 => ("C_AttributeContainer", "m_Item"),
        8 => ("C_EconItemView", "m_iItemDefinitionIndex"),
        9 => ("C_BaseEntity", "m_iHealth"),
        10 => ("C_BaseEntity", "m_iTeamNum"),
        11 => ("C_BaseEntity", "m_lifeState"),
        12 => ("C_CSGameRules", "m_bFreezePeriod"),
        13 => ("C_CSGameRules", "m_bWarmupPeriod"),
        14 => ("C_CSGameRules", "m_iRoundWinStatus"),
        15 => ("C_CSGameRules", "m_bSwitchingTeamsAtRoundReset"),
        16 => ("C_CSGameRules", "m_bTeamIntroPeriod"),
        _ => ("C_CSGameRules", "m_bTeamIntroPeriod"),
    }
}

/// A named entry of a dump: a module of the offsets or of the class-schema dump.
pub trait Named {
    spec fn name_view(&self) -> Seq<char>;

    fn name_str(&self) -> (n: &str)
        ensures
            n@ == self.name_view(),
    ;
}

impl Named for ModuleOffsets {
    open spec fn name_view(&self) -> Seq<char> {
        self.name@
    }

    fn name_str(&self) -> (n: &str) {
        self.name.as_str()
    }
}

impl Named for ModuleSchema {
    open spec fn name_view(&self) -> Seq<char> {
        self.name@
    }

    fn name_str(&self) -> (n: &str) {
        self.name.as_str()
    }
}

/// Index of the first entry of `ms` named `name`.
fn find_module<M: Named>(ms: &Vec<M>, name: &str) -> (r: Option<usize>)
    ensures
        r matches Some(i) ==> i < ms@.len() && first_index(ms@.map_values(|m: M| m.name_view()), name@)
            == Some(i as int),
        r is None ==> first_index(ms@.map_values(|m: M| m.name_view()), name@) is None,
{
    let ghost names = ms@.map_values(|m: M| m.name_view());
    let mut i: usize = 0;
    while i < ms.len()
        invariant
            names == ms@.map_values(|m: M| m.name_view()),
            i <= ms.len(),
            first_index(names, name@) == first_index_from(names, name@, i as int),
        decreases ms.len() - i,
    {
        if str_eq(ms[i].name_str(), name) {
            return Some(i);
        }
        i += 1;
    }
    None
}

/// Global offset `name`: the first entry of that name, if its value is an integer.
fn get_off(vals: &Vec<(String, Option<i64>)>, name: &str) -> (r: Option<i64>)
    ensures
        r == offset_value(values_view(vals@), name@),
{
    let ghost vv = values_view(vals@);
    let ghost names = vv.map_values(|p: (Seq<char>, Option<i64>)| p.0);
    let mut i: usize = 0;
    while i < vals.len()
        invariant
            vv == values_view(vals@),
            names == vv.map_values(|p: (Seq<char>, Option<i64>)| p.0),
            i <= vals.len(),
            first_index(names, name@) == first_index_from(names, name@, i as int),
        decreases vals.len() - i,
    {
        if str_eq(vals[i].0.as_str(), name) {
            assert(names[i as int] == name@);
            return vals[i].1;
        }
        i += 1;
    }
    None
}

/// Value of the last entry named `name`.
fn last_field(fs: &Vec<(String, i64)>, name: &str) -> (r: Option<i64>)
    ensures
        r == last_value(fields_view(fs@), name@),
{
    let ghost fv = fields_view(fs@);
    let mut i: usize = fs.len();
    assert(fv.subrange(0, i as int) =~= fv);
    while i > 0
        invariant
            fv == fields_view(fs@),
            i <= fs.len(),
            last_value(fv, name@) == last_value(fv.subrange(0, i as int), name@),
        decreases i,
    {
        let ghost pre = fv.subrange(0, i as int);
        assert(pre.drop_last() =~= fv.subrange(0, i - 1));
        i -= 1;
        if str_eq(fs[i].0.as_str(), name) {
            return Some(fs[i].1);
        }
    }
    None
}

/// Field `field` of class `class`, inherited fields included.
pub fn get_field(classes: &Vec<ClassSchema>, class: &str, field: &str) -> (r: Option<i64>)
    ensures
        r == class_field(classes_view(classes@), class@, field@),
{
    let merged = merged_class_fields(classes, class);
    last_field(&merged, field)
}

/// The global offsets in lookup order, or the index of the first missing one.
fn collect_offsets(vals: &Vec<(String, Option<i64>)>) -> (r: Result<Vec<i64>, usize>)
    ensures
        ({
            let ovs = Seq::new(4, |k: int| offset_value(values_view(vals@), off_names()[k]));
            match r {
                Ok(v) => first_none_from(ovs, 0) is None && v@ == ovs.map_values(
                    |o: Option<i64>| o.unwrap(),
                ),
                Err(k) => k < 4 && first_none_from(ovs, 0) == Some(k as int),
            }
        }),
{
    let ghost ovs = Seq::new(4, |k: int| offset_value(values_view(vals@), off_names()[k]));
    let mut ov: Vec<i64> = Vec::new();
    let mut k: usize = 0;
    while k < 4
        invariant
            k <= 4,
            ov@.len() == k,
            ovs == Seq::new(4, |j: int| offset_value(values_view(vals@), off_names()[j])),
            forall|j: int| 0 <= j < k ==> #[trigger] ovs[j] == Some(ov@[j]),
            first_none_from(ovs, 0) == first_none_from(ovs, k as int),
        decreases 4 - k,
    {
        match get_off(vals, off_name(k)) {
            Some(v) => ov.push(v),
            None => {
                return Err(k);
            },
        }
        k += 1;
    }
    assert(ovs.map_values(|o: Option<i64>| o.unwrap()) =~= ov@);
    Ok(ov)
}

/// The field offsets in lookup order, or the index of the first missing one.
fn collect_fields(classes: &Vec<ClassSchema>) -> (r: Result<Vec<i64>, usize>)
    ensures
        ({
            let fvs = Seq::new(
                17,
                |k: int| class_field(classes_view(classes@), field_specs()[k].0, field_specs()[k].1),
            );
            match r {
                Ok(v) => first_none_from(fvs, 0) is None && v@ == fvs.map_values(
                    |o: Option<i64>| o.unwrap(),
                ),
                Err(k) => k < 17 && first_none_from(fvs, 0) == Some(k as int),
            }
        }),
{
    let ghost fvs = Seq::new(
        17,
        |k: int| class_field(classes_view(classes@), field_specs()[k].0, field_specs()[k].1),
    );
    let mut fv: Vec<i64> = Vec::new();
    let mut k: usize = 0;
    while k < 17
        invariant
            k <= 17,
            fv@.len() == k,
            fvs == Seq::new(
                17,
                |j: int| class_field(classes_view(classes@), field_specs()[j].0, field_specs()[j].1),
            ),
            forall|j: int| 0 <= j < k ==> #[trigger] fvs[j] == Some(fv@[j]),
            first_none_from(fvs, 0) == first_none_from(fvs, k as int),
        decreases 17 - k,
    {
        let (cname, fname) = field_spec(k);
        match get_field(classes, cname, fname) {
            Some(v) => fv.push(v),
            None => {
                return Err(k);
            },
        }
        k += 1;
    }
    assert(fvs.map_values(|o: Option<i64>| o.unwrap()) =~= fv@);
    Ok(fv)
}

/// Assemble the offsets from the two dumps: the `client.dll` module of the
/// offsets dump (global offsets) and of the class-schema dump (fields).
pub fn build_offsets(offsets: &Vec<ModuleOffsets>, schema: &Vec<ModuleSchema>) -> (r: Result<
    Offsets,
    OffsetsError,
>)
    ensures
        match r {
            Ok(o) => build_spec(offsets@, schema@) == Ok::<Offsets, OffsetsErrorView>(o),
            Err(e) => build_spec(offsets@, schema@) == Err::<Offsets, OffsetsErrorView>(e@),
        },
{
    assert(offsets@.map_values(|m: ModuleOffsets| m.name_view()) =~= offsets@.map_values(
        |m: ModuleOffsets| m.name@,
    ));
    assert(schema@.map_values(|m: ModuleSchema| m.name_view()) =~= schema@.map_values(
        |m: ModuleSchema| m.name@,
    ));
    let mi = match find_module(offsets, "client.dll") {
        Some(i) => i,
        None => return Err(OffsetsError::MissingOffsetsModule),
    };
    let si = match find_module(schema, "client.dll") {
        Some(i) => i,
        None => return Err(OffsetsError::MissingSchemaModule),
    };
    let vals = &offsets[mi].values;
    let classes = &schema[si].classes;
    let ghost ovs = Seq::new(4, |k: int| offset_value(values_view(vals@), off_names()[k]));
    let ghost fvs = Seq::new(
        17,
        |k: int| class_field(classes_view(classes@), field_specs()[k].0, field_specs()[k].1),
    );
    let ov = match collect_offsets(vals) {
        Ok(v) => v,
        Err(k) => {
            let name = off_name(k);
            return Err(OffsetsError::MissingOffset(String::from_str(name)));
        },
    };
    let fv = match collect_fields(classes) {
        Ok(v) => v,
        Err(k) => {
            let (cname, fname) = field_spec(k);
            return Err(OffsetsError::MissingField(String::from_str(cname), String::from_str(fname)));
        },
    };
    Ok(Offsets {
        dw_entity_list: ov[0],
        dw_game_rules: ov[1],
        dw_local_player_controller: ov[2],
        dw_local_player_pawn: ov[3],
        m_h_pawn: fv[0],
        m_p_action_tracking_services: fv[1],
        m_i_num_round_kills: fv[2],
        m_p_weapon_services: fv[3],
        m_h_active_weapon: fv[4],
        m_attribute_manager: fv[5],
        m_f_accuracy_penalty: fv[6],
        m_item: fv[7],
        m_i_item_definition_index: fv[8],
        m_i_health: fv[9],
        m_i_team_num: fv[10],
        m_life_state: fv[11],
        m_b_freeze_period: fv[12],
        m_b_warmup_period: fv[13],
        m_i_round_win_status: fv[14],
        m_b_switching_teams_at_round_reset: fv[15],
        m_b_team_intro_period: fv[16],
    })
}

/// The report for an error.
pub open spec fn error_message(e: OffsetsErrorView) -> Seq<char> {
    match e {
        OffsetsErrorView::MissingOffsetsModule => "offsets.json: missing `client.dll`"@,
        OffsetsErrorView::MissingSchemaModule => "client_dll.json: missing `client.dll`"@,
        OffsetsErrorView::MissingOffset(n) => "offsets.json: missing client.dll."@ + n,
        OffsetsErrorView::MissingField(c, n) => "client_dll.json: "@ + c + "."@ + n
            + " not in schema"@,
    }
}

impl OffsetsError {
    /// The report for this error.
    pub fn message(&self) -> (m: String)
        ensures
            m@ == error_message(self@),
    {
        match self {
            OffsetsError::MissingOffsetsModule => String::from_str(
                "offsets.json: missing `client.dll`",
            ),
            OffsetsError::MissingSchemaModule => String::from_str(
                "client_dll.json: missing `client.dll`",
            ),
            OffsetsError::MissingOffset(n) => {
                let mut m = String::from_str("offsets.json: missing client.dll.");
                m.append(n.as_str());
                m
            },
            OffsetsError::MissingField(c, n) => {
                let mut m = String::from_str("client_dll.json: ");
                m.append(c.as_str());
                m.append(".");
                m.append(n.as_str());
                m.append(" not in schema");
                m
            },
        }
    }
}

/// With distinct names, the first entry of a name is the entry of that name.
pub proof fn unique_name_found(names: Seq<Seq<char>>, i: int)
    requires
        distinct_names(names),
        0 <= i < names.len(),
    ensures
        first_index(names, names[i]) == Some(i),
{
    lemma_first_index_from(names, i, 0);
}

proof fn lemma_first_index_from(names: Seq<Seq<char>>, i: int, k: int)
    requires
        distinct_names(names),
        0 <= k <= i < names.len(),
    ensures
        first_index_from(names, names[i], k) == Some(i),
    decreases i - k,
{
    if k < i {
        assert(names[k] != names[i]);
        lemma_first_index_from(names, i, k + 1);
    }
}

/// With distinct class names, the class found by a name is the class of that name.
pub proof fn unique_class_found(classes: Seq<ClassView>, i: int)
    requires
        distinct_names(classes.map_values(|c: ClassView| c.name)),
        0 <= i < classes.len(),
    ensures
        find_class(classes, classes[i].name) == Some(i),
{
    let names = classes.map_values(|c: ClassView| c.name);
    lemma_find_class(classes, classes[i].name);
    let f = find_class(classes, classes[i].name).unwrap();
    if f != i {
        assert(names[f] == classes[f].name && names[i] == classes[i].name);
        if f < i {
            assert(names[f] != names[i]);
        } else {
            assert(names[i] != names[f]);
        }
    }
}

/// With distinct field names, the last entry of a name is the entry of that name.
pub proof fn unique_field_found(fs: Seq<(Seq<char>, i64)>, i: int)
    requires
        distinct_names(fs.map_values(|p: (Seq<char>, i64)| p.0)),
        0 <= i < fs.len(),
    ensures
        last_value(fs, fs[i].0) == Some(fs[i].1),
    decreases fs.len(),
{
    let names = fs.map_values(|p: (Seq<char>, i64)| p.0);
    if i < fs.len() - 1 {
        assert(names[i] != names[fs.len() - 1]);
        let d = fs.drop_last();
        assert(d.map_values(|p: (Seq<char>, i64)| p.0) =~= names.drop_last());
        unique_field_found(d, i);
    }
}

/// No `None` from `i` on: every entry from `i` on is a value.
proof fn lemma_no_none_from(s: Seq<Option<i64>>, i: int, k: int)
    requires
        0 <= i <= k < s.len(),
        first_none_from(s, i) is None,
    ensures
        s[k] is Some,
    decreases k - i,
{
    if i < k {
        lemma_no_none_from(s, i + 1, k);
    }
}

/// The global offset `k` of `o`, in lookup order.
pub open spec fn global_offset(o: Offsets, k: int) -> i64 {
    if k == 0 {
        o.dw_entity_list
    } else if k == 1 {
        o.dw_game_rules
    } else if k == 2 {
        o.dw_local_player_controller
    } else {
        o.dw_local_player_pawn
    }
}

/// The field offset `k` of `o`, in lookup order.
pub open spec fn field_offset(o: Offsets, k: int) -> i64 {
    if k == 0 {
        o.m_h_pawn
    } else if k == 1 {
        o.m_p_action_tracking_services
    } else if k == 2 {
        o.m_i_num_round_kills
    } else if k == 3 {
        o.m_p_weapon_services
    } else if k == 4 {
        o.m_h_active_weapon
    } else if k == 5 {
        o.m_attribute_manager
    } else if k == 6 {
        o.m_f_accuracy_penalty
    } else if k == 7 {
        o.m_item
    } else if k == 8 {
        o.m_i_item_definition_index
    } else if k == 9 {
        o.m_i_health
    } else if k == 10 {
        o.m_i_team_num
    } else if k == 11 {
        o.m_life_state
    } else if k == 12 {
        o.m_b_freeze_period
    } else if k == 13 {
        o.m_b_warmup_period
    } else if k == 14 {
        o.m_i_round_win_status
    } else if k == 15 {
        o.m_b_switching_teams_at_round_reset
    } else {
        o.m_b_team_intro_period
    }
}

/// Assembled offsets are what the dumps hold: the `k`-th global offset (of
/// `off_names()`) is the `client.dll` offsets module's entry of that name,
/// and the `k`-th field offset (of `field_specs()`) is the field of that
/// name in its class or nearest ancestor of the `client.dll` class-schema
/// module.
pub proof fn built_offsets_are_looked_up(offs: Seq<ModuleOffsets>, schema: Seq<ModuleSchema>, o: Offsets)
    requires
        build_spec(offs, schema) == Ok::<Offsets, OffsetsErrorView>(o),
    ensures
        ({
            let mi = first_index(offs.map_values(|m: ModuleOffsets| m.name@), client_module()).unwrap();
            let si = first_index(schema.map_values(|m: ModuleSchema| m.name@), client_module()).unwrap();
            let vals = values_view(offs[mi].values@);
            let cls = classes_view(schema[si].classes@);
            &&& forall|k: int| 0 <= k < 4 ==> offset_value(vals, #[trigger] off_names()[k]) == Some(global_offset(o, k))
            &&& forall|k: int|
                0 <= k < 17 ==> class_field(cls, (#[trigger] field_specs()[k]).0, field_specs()[k].1) == Some(
                    field_offset(o, k),
                )
        }),
{
    let mi = first_index(offs.map_values(|m: ModuleOffsets| m.name@), client_module()).unwrap();
    let si = first_index(schema.map_values(|m: ModuleSchema| m.name@), client_module()).unwrap();
    let vals = values_view(offs[mi].values@);
    let cls = classes_view(schema[si].classes@);
    let ov = Seq::new(4, |k: int| offset_value(vals, off_names()[k]));
    let fv = Seq::new(17, |k: int| class_field(cls, field_specs()[k].0, field_specs()[k].1));
    assert(first_none_from(ov, 0) is None);
    assert(first_none_from(fv, 0) is None);
    assert(o == offsets_from(ov.map_values(|v: Option<i64>| v.unwrap()), fv.map_values(|v: Option<i64>| v.unwrap())));
    lemma_offsets_from_values(ov, fv);
}

/// The same, field by field: each offset of assembled offsets is the
/// `client.dll` entry of its name, or the field of its name in its class or
/// nearest ancestor.
pub proof fn built_offsets_by_name(offs: Seq<ModuleOffsets>, schema: Seq<ModuleSchema>, o: Offsets)
    requires
        build_spec(offs, schema) == Ok::<Offsets, OffsetsErrorView>(o),
    ensures
        ({
            let mi = first_index(offs.map_values(|m: ModuleOffsets| m.name@), client_module()).unwrap();
            let si = first_index(schema.map_values(|m: ModuleSchema| m.name@), client_module()).unwrap();
            let vals = values_view(offs[mi].values@);
            let cls = classes_view(schema[si].classes@);
            &&& offset_value(vals, "dwEntityList"@) == Some(o.dw_entity_list)
            &&& offset_value(vals, "dwGameRules"@) == Some(o.dw_game_rules)
            &&& offset_value(vals, "dwLocalPlayerController"@) == Some(o.dw_local_player_controller)
            &&& offset_value(vals, "dwLocalPlayerPawn"@) == Some(o.dw_local_player_pawn)
            &&& class_field(cls, "CBasePlayerController"@, "m_hPawn"@) == Some(o.m_h_pawn)
            &&& class_field(cls, "CCSPlayerController"@, "m_pActionTrackingServices"@) == Some(o.m_p_action_tracking_services)
            &&& class_field(cls, "CCSPlayerController_ActionTrackingServices"@, "m_iNumRoundKills"@) == Some(o.m_i_num_round_kills)
            &&& class_field(cls, "C_BasePlayerPawn"@, "m_pWeaponServices"@) == Some(o.m_p_weapon_services)
            &&& class_field(cls, "CPlayer_WeaponServices"@, "m_hActiveWeapon"@) == Some(o.m_h_active_weapon)
            &&& class_field(cls, "C_EconEntity"@, "m_AttributeManager"@) == Some(o.m_attribute_manager)
            &&& class_field(cls, "C_CSWeaponBase"@, "m_fAccuracyPenalty"@) == Some(o.m_f_accuracy_penalty)
            &&& class_field(cls, "C_AttributeContainer"@, "m_Item"@) == Some(o.m_item)
            &&& class_field(cls, "C_EconItemView"@, "m_iItemDefinitionIndex"@) == Some(o.m_i_item_definition_index)
            &&& class_field(cls, "C_BaseEntity"@, "m_iHealth"@) == Some(o.m_i_health)
            &&& class_field(cls, "C_BaseEntity"@, "m_iTeamNum"@) == Some(o.m_i_team_num)
            &&& class_field(cls, "C_BaseEntity"@, "m_lifeState"@) == Some(o.m_life_state)
            &&& class_field(cls, "C_CSGameRules"@, "m_bFreezePeriod"@) == Some(o.m_b_freeze_period)
            &&& class_field(cls, "C_CSGameRules"@, "m_bWarmupPeriod"@) == Some(o.m_b_warmup_period)
            &&& class_field(cls, "C_CSGameRules"@, "m_iRoundWinStatus"@) == Some(o.m_i_round_win_status)
            &&& class_field(cls, "C_CSGameRules"@, "m_bSwitchingTeamsAtRoundReset"@) == Some(o.m_b_switching_teams_at_round_reset)
            &&& class_field(cls, "C_CSGameRules"@, "m_bTeamIntroPeriod"@) == Some(o.m_b_team_intro_period)
        }),
{
    built_offsets_are_looked_up(offs, schema, o);
    lemma_lookup_names();
}

/// The names looked up, in lookup order.
proof fn lemma_lookup_names()
    ensures
        off_names()[0] == "dwEntityList"@,
        off_names()[1] == "dwGameRules"@,
        off_names()[2] == "dwLocalPlayerController"@,
        off_names()[3] == "dwLocalPlayerPawn"@,
        field_specs()[0] == ("CBasePlayerController"@, "m_hPawn"@),
        field_specs()[1] == ("CCSPlayerController"@, "m_pActionTrackingServices"@),
        field_specs()[2] == ("CCSPlayerController_ActionTrackingServices"@, "m_iNumRoundKills"@),
        field_specs()[3] == ("C_BasePlayerPawn"@, "m_pWeaponServices"@),
        field_specs()[4] == ("CPlayer_WeaponServices"@, "m_hActiveWeapon"@),
        field_specs()[5] == ("C_EconEntity"@, "m_AttributeManager"@),
        field_specs()[6] == ("C_CSWeaponBase"@, "m_fAccuracyPenalty"@),
        field_specs()[7] == ("C_AttributeContainer"@, "m_Item"@),
        field_specs()[8] == ("C_EconItemView"@, "m_iItemDefinitionIndex"@),
        field_specs()[9] == ("C_BaseEntity"@, "m_iHealth"@),
        field_specs()[10] == ("C_BaseEntity"@, "m_iTeamNum"@),
        field_specs()[11] == ("C_BaseEntity"@, "m_lifeState"@),
        field_specs()[12] == ("C_CSGameRules"@, "m_bFreezePeriod"@),
        field_specs()[13] == ("C_CSGameRules"@, "m_bWarmupPeriod"@),
        field_specs()[14] == ("C_CSGameRules"@, "m_iRoundWinStatus"@),
        field_specs()[15] == ("C_CSGameRules"@, "m_bSwitchingTeamsAtRoundReset"@),
        field_specs()[16] == ("C_CSGameRules"@, "m_bTeamIntroPeriod"@),
{
}

/// The offsets made of lookups that all found a value hold those values.
proof fn lemma_offsets_from_values(ov: Seq<Option<i64>>, fv: Seq<Option<i64>>)
    requires
        ov.len() == 4,
        fv.len() == 17,
        first_none_from(ov, 0) is None,
        first_none_from(fv, 0) is None,
    ensures
        ({
            let o = offsets_from(ov.map_values(|v: Option<i64>| v.unwrap()), fv.map_values(|v: Option<i64>| v.unwrap()));
            &&& ov[0] == Some(o.dw_entity_list) && ov[1] == Some(o.dw_game_rules)
            &&& ov[2] == Some(o.dw_local_player_controller) && ov[3] == Some(o.dw_local_player_pawn)
            &&& fv[0] == Some(o.m_h_pawn) && fv[1] == Some(o.m_p_action_tracking_services)
            &&& fv[2] == Some(o.m_i_num_round_kills) && fv[3] == Some(o.m_p_weapon_services)
            &&& fv[4] == Some(o.m_h_active_weapon) && fv[5] == Some(o.m_attribute_manager)
            &&& fv[6] == Some(o.m_f_accuracy_penalty) && fv[7] == Some(o.m_item)
            &&& fv[8] == Some(o.m_i_item_definition_index) && fv[9] == Some(o.m_i_health)
            &&& fv[10] == Some(o.m_i_team_num) && fv[11] == Some(o.m_life_state)
            &&& fv[12] == Some(o.m_b_freeze_period) && fv[13] == Some(o.m_b_warmup_period)
            &&& fv[14] == Some(o.m_i_round_win_status) && fv[15] == Some(o.m_b_switching_teams_at_round_reset)
            &&& fv[16] == Some(o.m_b_team_intro_period)
        }),
{
    assert forall|k: int| 0 <= k < 4 implies #[trigger] ov[k] is Some by {
        lemma_no_none_from(ov, 0, k);
    }
    assert forall|k: int| 0 <= k < 17 implies #[trigger] fv[k] is Some by {
        lemma_no_none_from(fv, 0, k);
    }
    assert(ov[0] is Some && ov[1] is Some && ov[2] is Some && ov[3] is Some);
    assert(fv[0] is Some && fv[1] is Some && fv[2] is Some && fv[3] is Some && fv[4] is Some);
    assert(fv[5] is Some && fv[6] is Some && fv[7] is Some && fv[8] is Some && fv[9] is Some);
    assert(fv[10] is Some && fv[11] is Some && fv[12] is Some && fv[13] is Some);
    assert(fv[14] is Some && fv[15] is Some && fv[16] is Some);
}

/// The value of the last entry named `name` in `a + b` is `b`'s when `b` has one.
proof fn lemma_last_value_concat(a: Seq<(Seq<char>, i64)>, b: Seq<(Seq<char>, i64)>, name: Seq<char>)
    ensures
        last_value(b, name) is Some ==> last_value(a + b, name) == last_value(b, name),
        last_value(b, name) is None ==> last_value(a + b, name) == last_value(a, name),
    decreases b.len(),
{
    if b.len() == 0 {
        assert(a + b =~= a);
    } else {
        assert((a + b).drop_last() =~= a + b.drop_last());
        assert((a + b).last() == b.last());
        lemma_last_value_concat(a, b.drop_last(), name);
    }
}

/// A class's own field wins over a field of the same name in its
/// ancestors: the merged lookup gives the class's own (last) entry.
pub proof fn own_field_wins(classes: Seq<ClassView>, class: Seq<char>, field: Seq<char>)
    requires
        find_class(classes, class) is Some,
        last_value(classes[find_class(classes, class).unwrap()].fields, field) is Some,
    ensures
        class_field(classes, class, field) == last_value(
            classes[find_class(classes, class).unwrap()].fields,
            field,
        ),
{
    let i = find_class(classes, class).unwrap();
    lemma_find_class(classes, class);
    let chain = class_chain(classes, class);
    assert(classes.len() > 0);
    let rest = chain_from(classes, classes[i].parent, seq![i], (classes.len() - 1) as nat);
    assert(Seq::<int>::empty().push(i) =~= seq![i]);
    assert(chain == rest);
    lemma_chain_prefix(classes, classes[i].parent, seq![i], (classes.len() - 1) as nat);
    assert(rest.subrange(0, 1)[0] == rest[0]);
    assert(seq![i][0] == i);
    assert(chain.len() > 0 && chain[0] == i);
    assert(chain_fields(classes, chain) == chain_fields(classes, chain.drop_first())
        + classes[chain[0]].fields);
    lemma_last_value_concat(chain_fields(classes, chain.drop_first()), classes[i].fields, field);
}

/// The walk keeps the classes already met at its front.
proof fn lemma_chain_prefix(classes: Seq<ClassView>, cur: Option<Seq<char>>, path: Seq<int>, fuel: nat)
    ensures
        chain_from(classes, cur, path, fuel).len() >= path.len(),
        chain_from(classes, cur, path, fuel).subrange(0, path.len() as int) == path,
    decreases fuel,
{
    let r = chain_from(classes, cur, path, fuel);
    if fuel > 0 {
        if let Some(name) = cur {
            if let Some(i) = find_class(classes, name) {
                if !path.contains(i) {
                    lemma_chain_prefix(classes, classes[i].parent, path.push(i), (fuel - 1) as nat);
                    assert(r.subrange(0, path.len() as int) =~= r.subrange(0, path.len() as int + 1).subrange(
                        0,
                        path.len() as int,
                    ));
                    assert(path.push(i).subrange(0, path.len() as int) =~= path);
                    return;
                }
            }
        }
    }
    assert(r.subrange(0, path.len() as int) =~= path);
}

} // verus!
