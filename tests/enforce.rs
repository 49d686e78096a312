use choomd::enforce::{decide, plan_pass, select_rule, Decision};
use choomd::process_snapshot::ProcessSnapshot;
use choomd::rule::Rule;
use choomd::rule_set::build_rule_set;

fn strings(v: &[&str]) -> Vec<String> {
    v.iter().map(|s| s.to_string()).collect()
}

fn rule(key: &str, file_names: &[&str], oom_score_adj: i32) -> Rule {
    Rule {
        key: key.to_string(),
        command_line_file_path: vec![],
        command_line_file_name: strings(file_names),
        command_line_argument: vec![],
        current_working_directory: vec![],
        owner_user_id: vec![],
        oom_score_adj,
    }
}

fn snapshot(pid: i32, command_line: &[&str], oom_score_adjust: i32) -> ProcessSnapshot {
    ProcessSnapshot {
        pid,
        uid: 1000,
        command_line: strings(command_line),
        current_working_directory: "/home/x".to_string(),
        oom_score: 10,
        oom_score_adjust,
    }
}

#[test]
fn already_satisfied_process_is_not_written() {
    let rules = vec![rule("db", &["postgres"], -900)];
    let p = snapshot(5, &["/usr/bin/postgres"], -900);
    assert_eq!(decide(&rules, &p), Decision::Satisfied { rule: 0 });
}

#[test]
fn earlier_declared_rule_wins() {
    let rules = vec![rule("first", &["python*"], 300), rule("second", &["python3"], 700)];
    let p = snapshot(5, &["/usr/bin/python3", "x.py"], 0);
    assert_eq!(select_rule(&rules, &p), Some(0));
    assert_eq!(decide(&rules, &p), Decision::Write { rule: 0, target: 300 });
}

#[test]
fn unmatched_process_is_left_alone() {
    let rules = vec![rule("db", &["postgres"], -900)];
    let p = snapshot(5, &["/usr/bin/vim"], 42);
    assert_eq!(select_rule(&rules, &p), None);
    assert_eq!(decide(&rules, &p), Decision::Unmatched);
}

#[test]
fn end_to_end_heavy_rule_selected() {
    let default = rule("DEFAULT", &[], 100);
    let declared = vec![rule("DEFAULT", &[], 100), rule("heavy", &["python3"], 500)];
    let rules = build_rule_set(&default, &declared).unwrap();
    assert_eq!(rules.len(), 1);
    assert_eq!(rules[0].key, "heavy");
    let p = snapshot(31, &["/usr/bin/python3", "train.py"], 0);
    let plan = plan_pass(&rules, &vec![p]);
    assert_eq!(plan, vec![Decision::Write { rule: 0, target: 500 }]);
    match plan[0] {
        Decision::Write { rule, .. } => assert_eq!(rules[rule].key, "heavy"),
        _ => panic!("expected a write"),
    }
}

#[test]
fn pass_decides_per_process_in_order() {
    let rules = vec![rule("db", &["postgres"], -900), rule("py", &["python3"], 500)];
    let snapshots = vec![
        snapshot(1, &["/usr/bin/postgres"], -900),
        snapshot(2, &["/usr/bin/python3"], 0),
        snapshot(3, &["/usr/bin/vim"], 0),
        snapshot(4, &[], 0),
    ];
    assert_eq!(
        plan_pass(&rules, &snapshots),
        vec![
            Decision::Satisfied { rule: 0 },
            Decision::Write { rule: 1, target: 500 },
            Decision::Unmatched,
            Decision::Unmatched,
        ]
    );
}

#[test]
fn empty_pass_decides_nothing() {
    let rules = vec![rule("db", &["postgres"], -900)];
    assert_eq!(plan_pass(&rules, &vec![]), Vec::<Decision>::new());
}
