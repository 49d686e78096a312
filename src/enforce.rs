use vstd::prelude::*;
use crate::process_snapshot::ProcessSnapshot;
use crate::rule::Rule;

verus! {

/// What one pass does with one process.
#[derive(Debug, PartialEq, Eq, Structural, Clone, Copy)]
pub enum Decision {
    /// No rule selects the process: it is left alone.
    Unmatched,
    /// The rule at index `rule` selects the process, whose value already equals
    /// the rule's target: nothing is written.
    Satisfied { rule: usize },
    /// The rule at index `rule` selects the process and its value differs:
    /// `target` is to be written for the process.
    Write { rule: usize, target: i32 },
}

/// `i` is the first rule, in declaration order, that selects `p`.
pub open spec fn is_first_match(rules: Seq<Rule>, p: &ProcessSnapshot, i: int) -> bool {
    &&& 0 <= i < rules.len()
    &&& rules[i].spec_matches(p)
    &&& forall|k: int| 0 <= k < i ==> !(#[trigger] rules[k]).spec_matches(p)
}

/// No rule selects `p`.
pub open spec fn no_match(rules: Seq<Rule>, p: &ProcessSnapshot) -> bool {
    forall|k: int| 0 <= k < rules.len() ==> !(#[trigger] rules[k]).spec_matches(p)
}

/// `d` is what a pass owes to `p` under `rules`.
pub open spec fn decision_for(rules: Seq<Rule>, p: &ProcessSnapshot, d: Decision) -> bool {
    match d {
        Decision::Unmatched => no_match(rules, p),
        Decision::Satisfied { rule } => {
            &&& is_first_match(rules, p, rule as int)
            &&& rules[rule as int].oom_score_adj == p.oom_score_adjust
        },
        Decision::Write { rule, target } => {
            &&& is_first_match(rules, p, rule as int)
            &&& target == rules[rule as int].oom_score_adj
            &&& target != p.oom_score_adjust
        },
    }
}

/// The index of the first rule, in declaration order, that selects
/// `process_snapshot`; `None` when no rule does.
pub fn select_rule(rules: &Vec<Rule>, process_snapshot: &ProcessSnapshot) -> (r: Option<usize>)
    ensures
        match r {
            Some(i) => is_first_match(rules@, process_snapshot, i as int),
            None => no_match(rules@, process_snapshot),
        },
{
    let mut i: usize = 0;
    while i < rules.len()
        invariant
            i <= rules@.len(),
            forall|k: int| 0 <= k < i ==> !(#[trigger] rules@[k]).spec_matches(process_snapshot),
        decreases rules.len() - i,
    {
        if rules[i].matches(process_snapshot) {
            return Some(i);
        }
        i = i + 1;
    }
    None
}

/// Decides what to do with one process: select the first matching rule and
/// compare its target with the process's current value.
pub fn decide(rules: &Vec<Rule>, process_snapshot: &ProcessSnapshot) -> (d: Decision)
    ensures
        decision_for(rules@, process_snapshot, d),
{
    match select_rule(rules, process_snapshot) {
        None => Decision::Unmatched,
        Some(i) => {
            let target = rules[i].oom_score_adj;
            if target == process_snapshot.oom_score_adjust {
                Decision::Satisfied { rule: i }
            } else {
                Decision::Write { rule: i, target }
            }
        },
    }
}

/// The decisions of one pass, one per process, in the order given.
pub fn plan_pass(rules: &Vec<Rule>, process_snapshots: &Vec<ProcessSnapshot>) -> (r: Vec<Decision>)
    ensures
        r@.len() == process_snapshots@.len(),
        forall|i: int|
            0 <= i < r@.len() ==> decision_for(rules@, &process_snapshots@[i], #[trigger] r@[i]),
{
    let mut out: Vec<Decision> = Vec::new();
    let mut i: usize = 0;
    while i < process_snapshots.len()
        invariant
            i <= process_snapshots@.len(),
            out@.len() == i,
            forall|k: int|
                0 <= k < i ==> decision_for(rules@, &process_snapshots@[k], #[trigger] out@[k]),
        decreases process_snapshots.len() - i,
    {
        let d = decide(rules, &process_snapshots[i]);
        out.push(d);
        i = i + 1;
    }
    out
}

/// A process whose value already equals the selected rule's target gets no
/// write.
pub proof fn satisfied_process_is_not_written(
    rules: Seq<Rule>,
    p: &ProcessSnapshot,
    selected: int,
    d: Decision,
)
    requires
        is_first_match(rules, p, selected),
        rules[selected].oom_score_adj == p.oom_score_adjust,
        decision_for(rules, p, d),
    ensures
        !(d is Write),
        d == (Decision::Satisfied { rule: selected as usize }),
{
    lemma_first_match_unique(rules, p, selected, d);
}

/// Of two rules that both select a process, the one declared earlier wins:
/// the later one is never the selected rule.
pub proof fn earlier_rule_wins(
    rules: Seq<Rule>,
    p: &ProcessSnapshot,
    earlier: int,
    later: int,
    d: Decision,
)
    requires
        0 <= earlier < later < rules.len(),
        rules[earlier].spec_matches(p),
        rules[later].spec_matches(p),
        decision_for(rules, p, d),
    ensures
        match d {
            Decision::Unmatched => false,
            Decision::Satisfied { rule } => rule as int <= earlier,
            Decision::Write { rule, target } => rule as int <= earlier && target
                == rules[rule as int].oom_score_adj,
        },
{
}

/// A process that no rule selects is left alone: no write is decided.
pub proof fn unmatched_process_is_left_alone(rules: Seq<Rule>, p: &ProcessSnapshot, d: Decision)
    requires
        no_match(rules, p),
        decision_for(rules, p, d),
    ensures
        d == Decision::Unmatched,
{
    match d {
        Decision::Unmatched => {},
        Decision::Satisfied { rule } => {
            assert(!rules[rule as int].spec_matches(p));
        },
        Decision::Write { rule, target } => {
            assert(!rules[rule as int].spec_matches(p));
        },
    }
}

proof fn lemma_first_match_unique(rules: Seq<Rule>, p: &ProcessSnapshot, selected: int, d: Decision)
    requires
        is_first_match(rules, p, selected),
        decision_for(rules, p, d),
    ensures
        match d {
            Decision::Unmatched => false,
            Decision::Satisfied { rule } => rule as int == selected,
            Decision::Write { rule, target } => rule as int == selected,
        },
{
    match d {
        Decision::Unmatched => {
            assert(!rules[selected].spec_matches(p));
        },
        Decision::Satisfied { rule } => {
            if (rule as int) < selected {
                assert(!rules[rule as int].spec_matches(p));
            } else if (rule as int) > selected {
                assert(!rules[selected].spec_matches(p));
            }
        },
        Decision::Write { rule, target } => {
            if (rule as int) < selected {
                assert(!rules[rule as int].spec_matches(p));
            } else if (rule as int) > selected {
                assert(!rules[selected].spec_matches(p));
            }
        },
    }
}

} // verus!
