use ps2_suitcase::timestamp_rules::{
    canonical_aliases_for_category, category_header, no_aliases_warning, sanitize_alias,
    CategoryRule, TimestampRules,
};

#[test]
fn unsupported_aliases_are_removed() {
    let mut rules = TimestampRules::default();
    if let Some(category) = rules
        .categories
        .iter_mut()
        .find(|category| category.key == "RAA_")
    {
        category.aliases = vec!["INVALID".to_string()];
    }

    rules.sanitize();

    let aliases = rules
        .categories
        .iter()
        .find(|category| category.key == "RAA_")
        .expect("category");

    assert!(aliases.aliases.is_empty());
}

#[test]
fn odd_spacing_is_rounded_up_to_even() {
    let mut rules = TimestampRules {
        seconds_between_items: 3,
        slots_per_category: 32,
        categories: vec![CategoryRule {
            key: "DEFAULT".to_string(),
            aliases: Vec::new(),
        }],
    };
    rules.sanitize();
    assert!(rules.seconds_between_items >= 2);
    assert_eq!(rules.seconds_between_items % 2, 0);
    assert_eq!(rules.seconds_between_items, 4);
    assert_eq!(rules.slots_per_category, 32);
}

#[test]
fn sanitize_cleans_keys_and_adds_default() {
    let mut rules = TimestampRules {
        seconds_between_items: 0,
        slots_per_category: 0,
        categories: vec![
            CategoryRule {
                key: " sys_ ".to_string(),
                aliases: vec![" boot ".to_string(), "SYS_BOOT".to_string(), "nope".to_string()],
            },
            CategoryRule {
                key: "SYS_".to_string(),
                aliases: Vec::new(),
            },
            CategoryRule {
                key: "   ".to_string(),
                aliases: Vec::new(),
            },
        ],
    };
    rules.sanitize();
    assert_eq!(rules.seconds_between_items, 2);
    assert_eq!(rules.slots_per_category, 86_400);
    assert_eq!(rules.categories.len(), 2);
    assert_eq!(rules.categories[0].key, "SYS_");
    assert_eq!(rules.categories[0].aliases, vec!["BOOT".to_string()]);
    assert_eq!(rules.categories[1].key, "DEFAULT");
}

#[test]
fn empty_rules_become_the_defaults() {
    let mut rules = TimestampRules {
        seconds_between_items: 7,
        slots_per_category: 5,
        categories: Vec::new(),
    };
    rules.sanitize();
    let defaults = TimestampRules::default();
    assert_eq!(rules.seconds_between_items, defaults.seconds_between_items);
    assert_eq!(rules.slots_per_category, defaults.slots_per_category);
    assert_eq!(rules.categories.len(), defaults.categories.len());
}

#[test]
fn aliases_map_onto_their_category() {
    let mut rules = TimestampRules::default();
    rules.sanitize();
    assert_eq!(rules.normalize_name_for_rules("boot"), Some("SYS_BOOT".to_string()));
    assert_eq!(rules.normalize_name_for_rules("SYS_BOOT"), Some("SYS_BOOT".to_string()));
    assert_eq!(
        rules.normalize_name_for_rules(" osdxmb "),
        Some("APP_OSDXMB".to_string())
    );
    assert_eq!(rules.normalize_name_for_rules("   "), None);
}

#[test]
fn categories_are_found_by_prefix_with_default_fallback() {
    let rules = TimestampRules::default();
    let (index, category) = rules.find_category("APP_TEST").expect("category");
    assert_eq!(index, 0);
    assert_eq!(category.key, "APP_");
    let (_, fallback) = rules.find_category("UNKNOWN").expect("fallback");
    assert_eq!(fallback.key, "DEFAULT");
    assert_eq!(rules.category_priority_index("APPS"), Some(1));
}

#[test]
fn payload_drops_the_prefix_and_dashes() {
    let rules = TimestampRules::default();
    assert_eq!(rules.payload_for_effective("APP_MY-GAME"), "MYGAME");
    assert_eq!(rules.payload_for_effective("APPS"), "APPS");
    assert_eq!(rules.payload_for_effective("A-B"), "AB");
}

#[test]
fn offset_counts_category_blocks_and_slots() {
    let rules = TimestampRules::default();
    // second category, slot 3: one block of 2 * 86400 seconds, then 3 slots of 2 seconds.
    assert_eq!(rules.offset_seconds_for_slot("APPS", 3), Some(2 * 86_400 + 6));
}

#[test]
fn alias_sanitizing_strips_the_key_prefix() {
    assert_eq!(sanitize_alias(" sys_boot ".to_string(), "SYS_"), Some("BOOT".to_string()));
    assert_eq!(sanitize_alias("   ".to_string(), "SYS_"), None);
    assert_eq!(sanitize_alias("SYS_".to_string(), "SYS_"), None);
    assert_eq!(canonical_aliases_for_category("ZZZ_"), vec!["BM", "MATRIXTEAM", "OPL"]);
    assert!(canonical_aliases_for_category("NOPE").is_empty());
}

#[test]
fn categories_move_up_and_down() {
    let mut rules = TimestampRules::default();
    let first = rules.categories[0].key.clone();
    let second = rules.categories[1].key.clone();

    assert!(!rules.move_category_up(0));
    assert_eq!(rules.categories[0].key, first);

    assert!(rules.move_category_up(1));
    assert_eq!(rules.categories[0].key, second);
    assert_eq!(rules.categories[1].key, first);

    assert!(rules.move_category_down(0));
    assert_eq!(rules.categories[0].key, first);
    assert_eq!(rules.categories[1].key, second);

    let last = rules.categories.len() - 1;
    assert!(!rules.move_category_down(last));
    assert!(!rules.move_category_up(rules.categories.len()));
}

#[test]
fn category_aliases_keep_only_built_in_ones_in_order() {
    let mut rules = TimestampRules::default();
    let index = rules
        .categories
        .iter()
        .position(|category| category.key == "ZZZ_")
        .expect("ZZZ_ category");
    let built_in: Vec<String> = canonical_aliases_for_category("ZZZ_")
        .into_iter()
        .map(|alias| alias.to_string())
        .collect();
    assert!(built_in.len() >= 2);

    assert_eq!(built_in, vec!["BM", "MATRIXTEAM", "OPL"]);
    let wanted = vec!["OPL".to_string(), "NOT_AN_ALIAS".to_string(), "BM".to_string()];
    assert!(rules.set_category_aliases(index, &wanted));
    assert_eq!(rules.categories[index].aliases, vec!["BM".to_string(), "OPL".to_string()]);
    assert!(!rules.set_category_aliases(index, &wanted));

    assert!(rules.set_category_aliases(index, &Vec::new()));
    assert!(rules.categories[index].aliases.is_empty());

    assert!(!rules.set_category_aliases(rules.categories.len(), &wanted));
}

#[test]
fn editor_values_are_coerced() {
    let mut rules = TimestampRules::default();
    assert!(!rules.set_seconds_between_items(2));
    assert!(rules.set_seconds_between_items(7));
    assert_eq!(rules.seconds_between_items, 8);
    assert!(rules.set_seconds_between_items(5000));
    assert_eq!(rules.seconds_between_items, 3600);
    assert!(rules.set_seconds_between_items(0));
    assert_eq!(rules.seconds_between_items, 2);
    rules.set_slots_per_category(0);
    assert_eq!(rules.slots_per_category, 1);
    rules.set_slots_per_category(500);
    assert_eq!(rules.slots_per_category, 500);
}

#[test]
fn editor_texts() {
    assert_eq!(category_header("APP_", 1), "APP_ (1 alias)");
    assert_eq!(category_header("ZZZ_", 3), "ZZZ_ (3 aliases)");
    assert_eq!(category_header("PS1_", 0), "PS1_ (0 aliases)");
    assert_eq!(
        no_aliases_warning(&canonical_aliases_for_category("RAA_")),
        "No aliases selected. Unprefixed names (RESTART, POWEROFF) will fall back to DEFAULT scheduling."
    );
}

#[test]
fn sanitizing_twice_changes_nothing_more() {
    let mut rules = TimestampRules {
        seconds_between_items: 5,
        slots_per_category: 0,
        categories: vec![
            CategoryRule { key: " app_ ".to_string(), aliases: vec![" osdxmb".to_string(), "APP_XEBPLUS".to_string(), "bad".to_string()] },
            CategoryRule { key: "APP_".to_string(), aliases: Vec::new() },
            CategoryRule { key: "   ".to_string(), aliases: Vec::new() },
        ],
    };
    rules.sanitize();
    let once: Vec<(String, Vec<String>)> =
        rules.categories.iter().map(|c| (c.key.clone(), c.aliases.clone())).collect();
    let (seconds, slots) = (rules.seconds_between_items, rules.slots_per_category);
    assert_eq!(once[0], ("APP_".to_string(), vec!["OSDXMB".to_string(), "XEBPLUS".to_string()]));
    assert_eq!(once.last().map(|c| c.0.clone()), Some("DEFAULT".to_string()));
    rules.sanitize();
    let twice: Vec<(String, Vec<String>)> =
        rules.categories.iter().map(|c| (c.key.clone(), c.aliases.clone())).collect();
    assert_eq!(once, twice);
    assert_eq!((rules.seconds_between_items, rules.slots_per_category), (seconds, slots));
}

#[test]
fn aliases_normalise_like_their_prefixed_names() {
    let mut rules = TimestampRules::default();
    rules.sanitize();
    assert_eq!(
        rules.normalize_name_for_rules("osdxmb"),
        rules.normalize_name_for_rules("APP_OSDXMB")
    );
    assert_eq!(rules.normalize_name_for_rules(" boot "), Some("SYS_BOOT".to_string()));
    assert_eq!(
        rules.normalize_name_for_rules("boot"),
        rules.normalize_name_for_rules("SYS_BOOT")
    );
}

#[test]
fn sanitized_keys_are_trimmed_upper_case_and_not_empty() {
    let mut rules = TimestampRules {
        seconds_between_items: 3,
        slots_per_category: 5,
        categories: vec![
            CategoryRule { key: "\temu_ ".to_string(), aliases: Vec::new() },
            CategoryRule { key: "Custom Key".to_string(), aliases: Vec::new() },
            CategoryRule { key: " \n ".to_string(), aliases: Vec::new() },
            CategoryRule { key: "EMU_".to_string(), aliases: Vec::new() },
        ],
    };
    rules.sanitize();
    let keys: Vec<&str> = rules.categories.iter().map(|c| c.key.as_str()).collect();
    assert_eq!(keys, vec!["EMU_", "CUSTOM KEY", "DEFAULT"]);
    for key in keys {
        assert!(!key.is_empty());
        assert_eq!(key.trim(), key);
        assert_eq!(key.to_ascii_uppercase(), key);
    }
    assert_eq!(rules.seconds_between_items, 4);
    assert_eq!(rules.slots_per_category, 5);
}

/// What the rules give a folder name: its normalised form, its category,
/// its ordering payload and the offset of its first slot.
fn rule_inputs(rules: &TimestampRules, name: &str) -> (String, Option<usize>, String, Option<i64>) {
    let effective = rules.normalize_name_for_rules(name).expect("a name");
    let category = rules.find_category(&effective).map(|(i, _)| i);
    let payload = rules.payload_for_effective(&effective);
    let offset = rules.offset_seconds_for_slot(&effective, 0);
    (effective, category, payload, offset)
}

#[test]
fn handles_aliases() {
    let mut rules = TimestampRules::default();
    rules.sanitize();
    let boot = rule_inputs(&rules, "boot");
    assert_eq!(boot.0, "SYS_BOOT");
    assert_eq!(boot, rule_inputs(&rules, "SYS_BOOT"));
}

#[test]
fn canonical_aliases_match_prefixed_names() {
    let mut rules = TimestampRules::default();
    rules.sanitize();
    let alias = rule_inputs(&rules, "osdxmb");
    assert_eq!(alias.0, "APP_OSDXMB");
    assert_eq!(alias, rule_inputs(&rules, "APP_OSDXMB"));
}
