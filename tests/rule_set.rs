use choomd::rule::Rule;
use choomd::rule_set::{
    build_rule_set, is_uppercase, owner_ids_from_integers, score_adj_from_integer,
    union_owner_ids, OwnerIdError, RuleSetError,
};

fn rule(key: &str, file_names: &[&str], oom_score_adj: i32) -> Rule {
    Rule {
        key: key.to_string(),
        command_line_file_path: vec![],
        command_line_file_name: file_names.iter().map(|s| s.to_string()).collect(),
        command_line_argument: vec![],
        current_working_directory: vec![],
        owner_user_id: vec![],
        oom_score_adj,
    }
}

#[test]
fn uppercase_keys_are_reserved() {
    assert!(is_uppercase("DEFAULT"));
    assert!(is_uppercase("RESERVED_1"));
    assert!(!is_uppercase("heavy"));
    assert!(!is_uppercase("Default"));
    assert!(!is_uppercase("straße"));
}

#[test]
fn rule_set_skips_reserved_keys_keeps_order_and_merges() {
    let default = rule("DEFAULT", &["fallback"], 100);
    let declared = vec![
        rule("b", &[], 0),
        rule("DEFAULT", &["x"], 1),
        rule("a", &["own"], -10),
        rule("OTHER", &[], 3),
    ];
    let rules = build_rule_set(&default, &declared).unwrap();
    assert_eq!(rules.len(), 2);
    assert_eq!(rules[0].key, "b");
    assert_eq!(rules[0].command_line_file_name, vec!["fallback".to_string()]);
    assert_eq!(rules[0].oom_score_adj, 100);
    assert_eq!(rules[1].key, "a");
    assert_eq!(rules[1].command_line_file_name, vec!["own".to_string()]);
    assert_eq!(rules[1].oom_score_adj, -10);
}

#[test]
fn rule_set_without_candidates_fails() {
    let default = rule("DEFAULT", &[], 100);
    assert_eq!(build_rule_set(&default, &vec![]).err(), Some(RuleSetError::NoRules));
    let only_reserved = vec![rule("DEFAULT", &[], 1)];
    assert_eq!(build_rule_set(&default, &only_reserved).err(), Some(RuleSetError::NoRules));
}

#[test]
fn rule_set_rejects_invalid_pattern() {
    let default = rule("DEFAULT", &[], 100);
    let declared = vec![rule("ok", &["python3"], 1), rule("bad", &["a***"], 1)];
    assert_eq!(
        build_rule_set(&default, &declared).err(),
        Some(RuleSetError::InvalidPattern { rule: 1 })
    );
    let bad_default = rule("DEFAULT", &["[unclosed"], 100);
    let declared = vec![rule("ok", &["python3"], 1), rule("inherits", &[], 1)];
    assert_eq!(
        build_rule_set(&bad_default, &declared).err(),
        Some(RuleSetError::InvalidPattern { rule: 1 })
    );
}

#[test]
fn score_adj_from_declared_integer() {
    assert_eq!(score_adj_from_integer(Some(500)), 500);
    assert_eq!(score_adj_from_integer(Some(-1000)), -1000);
    assert_eq!(score_adj_from_integer(None), 0);
    assert_eq!(score_adj_from_integer(Some(1i64 << 40)), 0);
}

#[test]
fn owner_ids_read_and_checked() {
    assert_eq!(owner_ids_from_integers(&vec![Some(0), Some(1000)]), Ok(vec![0, 1000]));
    assert_eq!(
        owner_ids_from_integers(&vec![Some(1), None, Some(-1)]),
        Err(OwnerIdError::NotInteger { index: 1 })
    );
    assert_eq!(
        owner_ids_from_integers(&vec![Some(1), Some(-1), None]),
        Err(OwnerIdError::OutOfRange { index: 1 })
    );
    assert_eq!(
        owner_ids_from_integers(&vec![Some(4294967296)]),
        Err(OwnerIdError::OutOfRange { index: 0 })
    );
}

#[test]
fn owner_ids_union_is_sorted_and_deduplicated() {
    assert_eq!(union_owner_ids(&vec![1000, 0, 1000], &vec![33, 0]), vec![0, 33, 1000]);
    assert_eq!(union_owner_ids(&vec![], &vec![]), Vec::<u32>::new());
}
