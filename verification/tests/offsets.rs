use cs2_killtimer::offsets::{
    build_offsets, get_field, merged_class_fields, ClassSchema, ModuleOffsets, ModuleSchema,
    OffsetsError,
};

fn class(name: &str, parent: Option<&str>, fields: &[(&str, i64)]) -> ClassSchema {
    ClassSchema {
        name: name.to_string(),
        parent: parent.map(|p| p.to_string()),
        fields: fields.iter().map(|(k, v)| (k.to_string(), *v)).collect(),
    }
}

fn full_classes() -> Vec<ClassSchema> {
    vec![
        class("C_BaseEntity", None, &[("m_iHealth", 0x344), ("m_iTeamNum", 0x3e3), ("m_lifeState", 0x348)]),
        class("C_BasePlayerPawn", Some("C_BaseEntity"), &[("m_pWeaponServices", 0x11a8)]),
        class("CBasePlayerController", None, &[("m_hPawn", 0x62c)]),
        class("CCSPlayerController", Some("CBasePlayerController"), &[("m_pActionTrackingServices", 0x770)]),
        class("CCSPlayerController_ActionTrackingServices", None, &[("m_iNumRoundKills", 0x110)]),
        class("CPlayer_WeaponServices", None, &[("m_hActiveWeapon", 0x58)]),
        class("C_EconEntity", None, &[("m_AttributeManager", 0x1148)]),
        class("C_CSWeaponBase", Some("C_EconEntity"), &[("m_fAccuracyPenalty", 0x1a00)]),
        class("C_AttributeContainer", None, &[("m_Item", 0x50)]),
        class("C_EconItemView", None, &[("m_iItemDefinitionIndex", 0x1ba)]),
        class(
            "C_CSGameRules",
            None,
            &[
                ("m_bFreezePeriod", 0x40),
                ("m_bWarmupPeriod", 0x41),
                ("m_iRoundWinStatus", 0xe34),
                ("m_bSwitchingTeamsAtRoundReset", 0x87c),
                ("m_bTeamIntroPeriod", 0xee4),
            ],
        ),
    ]
}

fn client_offsets() -> ModuleOffsets {
    ModuleOffsets {
        name: "client.dll".to_string(),
        values: vec![
            ("dwEntityList".to_string(), Some(0x1a1f670)),
            ("dwGameRules".to_string(), Some(0x1a31c70)),
            ("dwLocalPlayerController".to_string(), Some(0x1a6a8a0)),
            ("dwLocalPlayerPawn".to_string(), Some(0x1875c48)),
            ("dwViewMatrix".to_string(), Some(0x1a84090)),
        ],
    }
}

fn schema() -> Vec<ModuleSchema> {
    vec![ModuleSchema { name: "client.dll".to_string(), classes: full_classes() }]
}

#[test]
fn child_fields_override_parent_fields() {
    let classes = vec![
        class("Base", None, &[("a", 1), ("b", 2)]),
        class("Mid", Some("Base"), &[("b", 20), ("c", 30)]),
        class("Leaf", Some("Mid"), &[("c", 300)]),
    ];
    assert_eq!(get_field(&classes, "Leaf", "a"), Some(1));
    assert_eq!(get_field(&classes, "Leaf", "b"), Some(20));
    assert_eq!(get_field(&classes, "Leaf", "c"), Some(300));
    assert_eq!(get_field(&classes, "Mid", "c"), Some(30));
    assert_eq!(get_field(&classes, "Base", "c"), None);
    assert_eq!(get_field(&classes, "Nope", "a"), None);
    let merged = merged_class_fields(&classes, "Leaf");
    assert_eq!(
        merged,
        vec![
            ("a".to_string(), 1),
            ("b".to_string(), 2),
            ("b".to_string(), 20),
            ("c".to_string(), 30),
            ("c".to_string(), 300)
        ]
    );
}

#[test]
fn parent_cycles_and_missing_parents_stop_the_walk() {
    let classes = vec![
        class("A", Some("B"), &[("x", 1)]),
        class("B", Some("A"), &[("y", 2)]),
        class("C", Some("Missing"), &[("z", 3)]),
    ];
    assert_eq!(get_field(&classes, "A", "y"), Some(2));
    assert_eq!(get_field(&classes, "B", "x"), Some(1));
    assert_eq!(get_field(&classes, "C", "z"), Some(3));
    assert_eq!(merged_class_fields(&classes, "A").len(), 2);
}

#[test]
fn builds_offsets_from_dumps() {
    let off = build_offsets(&vec![client_offsets()], &schema()).ok().unwrap();
    assert_eq!(off.dw_entity_list, 0x1a1f670);
    assert_eq!(off.dw_local_player_pawn, 0x1875c48);
    assert_eq!(off.m_h_pawn, 0x62c);
    assert_eq!(off.m_p_action_tracking_services, 0x770);
    assert_eq!(off.m_i_health, 0x344);
    assert_eq!(off.m_p_weapon_services, 0x11a8);
    assert_eq!(off.m_attribute_manager, 0x1148);
    assert_eq!(off.m_f_accuracy_penalty, 0x1a00);
    assert_eq!(off.m_b_team_intro_period, 0xee4);
}

#[test]
fn missing_pieces_are_reported_in_order() {
    let e = build_offsets(&vec![], &schema()).err().unwrap();
    assert!(matches!(e, OffsetsError::MissingOffsetsModule));
    assert_eq!(e.message(), "offsets.json: missing `client.dll`");
    let e = build_offsets(&vec![client_offsets()], &vec![]).err().unwrap();
    assert!(matches!(e, OffsetsError::MissingSchemaModule));
    assert_eq!(e.message(), "client_dll.json: missing `client.dll`");

    let mut o = client_offsets();
    o.values.retain(|(k, _)| k != "dwGameRules" && k != "dwLocalPlayerPawn");
    let e = build_offsets(&vec![o], &schema()).err().unwrap();
    assert_eq!(e.message(), "offsets.json: missing client.dll.dwGameRules");

    let mut o = client_offsets();
    o.values[0].1 = None; // present, but not an integer
    let e = build_offsets(&vec![o], &schema()).err().unwrap();
    assert_eq!(e.message(), "offsets.json: missing client.dll.dwEntityList");

    let mut s = schema();
    s[0].classes.retain(|c| c.name != "C_BaseEntity");
    let e = build_offsets(&vec![client_offsets()], &s).err().unwrap();
    assert_eq!(e.message(), "client_dll.json: C_BaseEntity.m_iHealth not in schema");
}

#[test]
fn distinct_names_are_found_wherever_they_stand() {
    // a module list with distinct names: client.dll is found in any position
    let other = ModuleOffsets { name: "engine2.dll".to_string(), values: vec![] };
    let off = build_offsets(&vec![other, client_offsets()], &schema()).ok().unwrap();
    assert_eq!(off.dw_game_rules, 0x1a31c70);
    // every field of a class with distinct field names is found
    let classes = full_classes();
    for c in &classes {
        for (f, v) in &c.fields {
            assert_eq!(get_field(&classes, &c.name, f), Some(*v));
        }
    }
}

#[test]
fn every_built_offset_is_its_lookup() {
    let classes = full_classes();
    let o = build_offsets(&vec![client_offsets()], &schema()).ok().unwrap();
    let globals = [o.dw_entity_list, o.dw_game_rules, o.dw_local_player_controller, o.dw_local_player_pawn];
    for (k, v) in globals.iter().enumerate() {
        assert_eq!(Some(*v), client_offsets().values[k].1);
    }
    let fields = [
        ("CBasePlayerController", "m_hPawn", o.m_h_pawn),
        ("CCSPlayerController", "m_pActionTrackingServices", o.m_p_action_tracking_services),
        ("CCSPlayerController_ActionTrackingServices", "m_iNumRoundKills", o.m_i_num_round_kills),
        ("C_BasePlayerPawn", "m_pWeaponServices", o.m_p_weapon_services),
        ("CPlayer_WeaponServices", "m_hActiveWeapon", o.m_h_active_weapon),
        ("C_EconEntity", "m_AttributeManager", o.m_attribute_manager),
        ("C_CSWeaponBase", "m_fAccuracyPenalty", o.m_f_accuracy_penalty),
        ("C_AttributeContainer", "m_Item", o.m_item),
        ("C_EconItemView", "m_iItemDefinitionIndex", o.m_i_item_definition_index),
        ("C_BaseEntity", "m_iHealth", o.m_i_health),
        ("C_BaseEntity", "m_iTeamNum", o.m_i_team_num),
        ("C_BaseEntity", "m_lifeState", o.m_life_state),
        ("C_CSGameRules", "m_bFreezePeriod", o.m_b_freeze_period),
        ("C_CSGameRules", "m_bWarmupPeriod", o.m_b_warmup_period),
        ("C_CSGameRules", "m_iRoundWinStatus", o.m_i_round_win_status),
        ("C_CSGameRules", "m_bSwitchingTeamsAtRoundReset", o.m_b_switching_teams_at_round_reset),
        ("C_CSGameRules", "m_bTeamIntroPeriod", o.m_b_team_intro_period),
    ];
    for (c, f, v) in fields {
        assert_eq!(get_field(&classes, c, f), Some(v), "{c}.{f}");
    }
    // inherited: the pawn's health comes from C_BaseEntity
    assert_eq!(get_field(&classes, "C_BasePlayerPawn", "m_iHealth"), Some(o.m_i_health));
}
