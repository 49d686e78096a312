use vstd::prelude::*;
use crate::glob_pattern::{glob_compiles, glob_valid};
use crate::rule::{Rule, merged_list};

verus! {

/// The upper-case form of `s`, by Unicode case mapping.
pub uninterp spec fn upper_of(s: Seq<char>) -> Seq<char>;

/// Relies on `str::to_uppercase`: the result depends on the characters of `s`
/// alone.
#[verifier::external_body]
fn to_upper(s: &str) -> (r: String)
    ensures
        r@ == upper_of(s@),
{
    s.to_uppercase()
}

/// Keys that read the same in upper case are reserved: such an entry supplies
/// defaults and is never a candidate rule.
pub open spec fn is_reserved_key(key: Seq<char>) -> bool {
    upper_of(key) == key
}

/// The declared rules that are candidates for matching, in declaration order.
pub open spec fn candidates(declared: Seq<Rule>) -> Seq<Rule>
    decreases declared.len(),
{
    if declared.len() == 0 {
        Seq::empty()
    } else {
        let rest = candidates(declared.drop_last());
        if is_reserved_key(declared.last().key@) {
            rest
        } else {
            rest.push(declared.last())
        }
    }
}

/// Every pattern of the list compiles.
pub open spec fn all_globs_valid(patterns: Seq<String>) -> bool {
    forall|i: int| 0 <= i < patterns.len() ==> glob_valid(#[trigger] patterns[i]@)
}

/// Every glob pattern of `own` merged with `fallback` compiles.
pub open spec fn merged_globs_valid(own: Rule, fallback: Rule) -> bool {
    &&& all_globs_valid(
        merged_list(own.command_line_file_path@, fallback.command_line_file_path@),
    )
    &&& all_globs_valid(
        merged_list(own.command_line_file_name@, fallback.command_line_file_name@),
    )
    &&& all_globs_valid(merged_list(own.command_line_argument@, fallback.command_line_argument@))
    &&& all_globs_valid(
        merged_list(own.current_working_directory@, fallback.current_working_directory@),
    )
}

/// Why a rule set cannot be built.
#[derive(Debug, PartialEq, Eq, Structural, Clone, Copy)]
pub enum RuleSetError {
    /// The candidate rule at this index, once merged, holds a pattern that
    /// does not compile.
    InvalidPattern { rule: usize },
    /// No candidate rule is declared.
    NoRules,
}

/// Why a list of owner ids cannot be read.
#[derive(Debug, PartialEq, Eq, Structural, Clone, Copy)]
pub enum OwnerIdError {
    /// The entry at this index is not an integer.
    NotInteger { index: usize },
    /// The entry at this index is an integer outside the range of user ids.
    OutOfRange { index: usize },
}

/// Whether `s` reads the same in upper case.
pub fn is_uppercase(s: &str) -> (r: bool)
    ensures
        r == is_reserved_key(s@),
{
    let upper = to_upper(s);
    let as_given = s.to_owned();
    upper == as_given
}

fn all_compile(patterns: &Vec<String>) -> (r: bool)
    ensures
        r == all_globs_valid(patterns@),
{
    let mut i: usize = 0;
    while i < patterns.len()
        invariant
            i <= patterns@.len(),
            forall|k: int| 0 <= k < i ==> glob_valid(#[trigger] patterns@[k]@),
        decreases patterns.len() - i,
    {
        if !glob_compiles(patterns[i].as_str()) {
            return false;
        }
        i = i + 1;
    }
    true
}

/// Whether every glob pattern of `rule` compiles.
fn rule_globs_compile(rule: &Rule) -> (r: bool)
    ensures
        r == (all_globs_valid(rule.command_line_file_path@) && all_globs_valid(
            rule.command_line_file_name@,
        ) && all_globs_valid(rule.command_line_argument@) && all_globs_valid(
            rule.current_working_directory@,
        )),
{
    all_compile(&rule.command_line_file_path) && all_compile(&rule.command_line_file_name)
        && all_compile(&rule.command_line_argument) && all_compile(
        &rule.current_working_directory,
    )
}

/// The final rule list: every declared rule whose key is not reserved, in
/// declaration order, merged with `default_rule`. Fails on the first merged
/// rule that holds a pattern that does not compile, and when no candidate is
/// left.
pub fn build_rule_set(default_rule: &Rule, declared: &Vec<Rule>) -> (r: Result<
    Vec<Rule>,
    RuleSetError,
>)
    ensures
        match r {
            Ok(rules) => {
                &&& candidates(declared@).len() > 0
                &&& rules@.len() == candidates(declared@).len()
                &&& forall|i: int|
                    0 <= i < rules@.len() ==> (#[trigger] rules@[i]).is_merge_of(
                        &candidates(declared@)[i],
                        default_rule,
                    )
                &&& forall|i: int|
                    0 <= i < rules@.len() ==> merged_globs_valid(
                        #[trigger] candidates(declared@)[i],
                        *default_rule,
                    )
            },
            Err(RuleSetError::InvalidPattern { rule }) => {
                &&& rule < candidates(declared@).len()
                &&& !merged_globs_valid(candidates(declared@)[rule as int], *default_rule)
                &&& forall|i: int|
                    0 <= i < rule ==> merged_globs_valid(
                        #[trigger] candidates(declared@)[i],
                        *default_rule,
                    )
            },
            Err(RuleSetError::NoRules) => candidates(declared@).len() == 0,
        },
{
    let mut rules: Vec<Rule> = Vec::new();
    let mut i: usize = 0;
    while i < declared.len()
        invariant
            i <= declared@.len(),
            rules@.len() == candidates(declared@.subrange(0, i as int)).len(),
            forall|k: int|
                0 <= k < rules@.len() ==> (#[trigger] rules@[k]).is_merge_of(
                    &candidates(declared@.subrange(0, i as int))[k],
                    default_rule,
                ),
            forall|k: int|
                0 <= k < rules@.len() ==> merged_globs_valid(
                    #[trigger] candidates(declared@.subrange(0, i as int))[k],
                    *default_rule,
                ),
        decreases declared.len() - i,
    {
        let ghost before = declared@.subrange(0, i as int);
        let ghost after = declared@.subrange(0, i + 1);
        assert(after.drop_last() =~= before);
        assert(after.last() == declared@[i as int]);
        if !is_uppercase(declared[i].key.as_str()) {
            let merged = declared[i].merge(default_rule);
            if !rule_globs_compile(&merged) {
                assert(!merged_globs_valid(candidates(after)[rules@.len() as int], *default_rule));
                proof {
                    lemma_candidates_prefix(declared@, i + 1);
                    assert(candidates(after) =~= candidates(before).push(declared@[i as int]));
                    assert forall|k: int| 0 <= k < rules@.len() implies merged_globs_valid(
                        #[trigger] candidates(declared@)[k],
                        *default_rule,
                    ) by {
                        assert(candidates(after)[k] == candidates(before)[k]);
                        assert(candidates(declared@)[k] == candidates(after)[k]);
                    }
                }
                return Err(RuleSetError::InvalidPattern { rule: rules.len() });
            }
            rules.push(merged);
        }
        i = i + 1;
    }
    assert(declared@.subrange(0, declared@.len() as int) =~= declared@);
    if rules.len() == 0 {
        return Err(RuleSetError::NoRules);
    }
    Ok(rules)
}

/// The ids are in strictly increasing order, so each appears once.
pub open spec fn strictly_increasing(v: Seq<u32>) -> bool {
    forall|i: int, j: int| 0 <= i < j < v.len() ==> v[i] < v[j]
}

/// The target read from a declared integer: the integer itself when it fits
/// an `i32`, zero ("not set") when it does not or when none is declared.
pub open spec fn score_adj_of(value: Option<i64>) -> i32 {
    match value {
        Some(v) => if i32::MIN <= v <= i32::MAX {
            v as i32
        } else {
            0
        },
        None => 0,
    }
}

/// The target of a rule from its declared integer, if any.
pub fn score_adj_from_integer(value: Option<i64>) -> (r: i32)
    ensures
        r == score_adj_of(value),
{
    match value {
        Some(v) => if i32::MIN as i64 <= v && v <= i32::MAX as i64 {
            v as i32
        } else {
            0
        },
        None => 0,
    }
}

/// Reads a declared list of owner ids. Each entry must be an integer (`None`
/// stands for an entry of another kind) in the range of `u32`; the first entry
/// that is not gives the error.
pub fn owner_ids_from_integers(values: &Vec<Option<i64>>) -> (r: Result<Vec<u32>, OwnerIdError>)
    ensures
        match r {
            Ok(ids) => {
                &&& ids@.len() == values@.len()
                &&& forall|i: int|
                    0 <= i < ids@.len() ==> values@[i] == Some(#[trigger] ids@[i] as i64)
            },
            Err(OwnerIdError::NotInteger { index }) => {
                &&& index < values@.len()
                &&& values@[index as int] is None
                &&& forall|i: int|
                    0 <= i < index ==> (#[trigger] values@[i] matches Some(v) && 0 <= v
                        <= u32::MAX)
            },
            Err(OwnerIdError::OutOfRange { index }) => {
                &&& index < values@.len()
                &&& values@[index as int] matches Some(v) && !(0 <= v <= u32::MAX)
                &&& forall|i: int|
                    0 <= i < index ==> (#[trigger] values@[i] matches Some(v) && 0 <= v
                        <= u32::MAX)
            },
        },
{
    let mut ids: Vec<u32> = Vec::new();
    let mut i: usize = 0;
    while i < values.len()
        invariant
            i <= values@.len(),
            ids@.len() == i,
            forall|k: int| 0 <= k < i ==> values@[k] == Some(#[trigger] ids@[k] as i64),
            forall|k: int|
                0 <= k < i ==> (#[trigger] values@[k] matches Some(v) && 0 <= v <= u32::MAX),
        decreases values.len() - i,
    {
        match values[i] {
            None => {
                return Err(OwnerIdError::NotInteger { index: i });
            },
            Some(v) => {
                if v < 0 || v > u32::MAX as i64 {
                    return Err(OwnerIdError::OutOfRange { index: i });
                }
                ids.push(v as u32);
            },
        }
        i = i + 1;
    }
    Ok(ids)
}

/// Adds `x` to the strictly increasing list `v`, unless it is there already.
fn insert_sorted(v: &mut Vec<u32>, x: u32)
    requires
        strictly_increasing(old(v)@),
    ensures
        strictly_increasing(final(v)@),
        forall|y: u32| final(v)@.contains(y) <==> (old(v)@.contains(y) || y == x),
{
    let mut p: usize = 0;
    while p < v.len() && v[p] < x
        invariant
            p <= v@.len(),
            v@ == old(v)@,
            forall|k: int| 0 <= k < p ==> v@[k] < x,
        decreases v.len() - p,
    {
        p = p + 1;
    }
    if p < v.len() && v[p] == x {
        assert(v@[p as int] == x);
        assert(v@.contains(x));
        assert(forall|y: u32| v@.contains(y) <==> (old(v)@.contains(y) || y == x));
        return;
    }
    let ghost before = v@;
    v.insert(p, x);
    assert(v@ =~= before.insert(p as int, x));
    assert forall|y: u32| v@.contains(y) <==> (before.contains(y) || y == x) by {
        if before.contains(y) {
            let k = choose|k: int| 0 <= k < before.len() && before[k] == y;
            if k < p {
                assert(v@[k] == y);
            } else {
                assert(v@[k + 1] == y);
            }
        }
        if y == x {
            assert(v@[p as int] == x);
        }
        if v@.contains(y) {
            let k = choose|k: int| 0 <= k < v@.len() && v@[k] == y;
            if k < p {
                assert(before[k] == y);
            } else if k > p {
                assert(before[k - 1] == y);
            }
        }
    }
    assert(before == old(v)@);
    assert(forall|y: u32| v@.contains(y) <==> (old(v)@.contains(y) || y == x));
}

/// The owner ids of a rule: the declared ids and those resolved from owner
/// names together, each once, in increasing order.
pub fn union_owner_ids(declared: &Vec<u32>, resolved: &Vec<u32>) -> (r: Vec<u32>)
    ensures
        strictly_increasing(r@),
        forall|y: u32| r@.contains(y) <==> (declared@.contains(y) || resolved@.contains(y)),
{
    let mut out: Vec<u32> = Vec::new();
    let mut i: usize = 0;
    while i < declared.len()
        invariant
            i <= declared@.len(),
            strictly_increasing(out@),
            forall|y: u32| out@.contains(y) <==> declared@.subrange(0, i as int).contains(y),
        decreases declared.len() - i,
    {
        insert_sorted(&mut out, declared[i]);
        proof {
            let t = declared@.subrange(0, i as int);
            assert(declared@.subrange(0, i + 1) =~= t.push(declared@[i as int]));
            lemma_push_contains(t, declared@[i as int]);
        }
        i = i + 1;
    }
    assert(declared@.subrange(0, declared@.len() as int) =~= declared@);
    let mut j: usize = 0;
    while j < resolved.len()
        invariant
            j <= resolved@.len(),
            strictly_increasing(out@),
            forall|y: u32|
                out@.contains(y) <==> (declared@.contains(y) || resolved@.subrange(
                    0,
                    j as int,
                ).contains(y)),
        decreases resolved.len() - j,
    {
        insert_sorted(&mut out, resolved[j]);
        proof {
            let t = resolved@.subrange(0, j as int);
            assert(resolved@.subrange(0, j + 1) =~= t.push(resolved@[j as int]));
            lemma_push_contains(t, resolved@[j as int]);
        }
        j = j + 1;
    }
    assert(resolved@.subrange(0, resolved@.len() as int) =~= resolved@);
    out
}

proof fn lemma_push_contains(t: Seq<u32>, x: u32)
    ensures
        forall|y: u32| #[trigger] t.push(x).contains(y) <==> (t.contains(y) || y == x),
{
    assert forall|y: u32| #[trigger] t.push(x).contains(y) <==> (t.contains(y) || y == x) by {
        if t.push(x).contains(y) {
            let k = choose|k: int| 0 <= k < t.len() + 1 && t.push(x)[k] == y;
            if k < t.len() {
                assert(t[k] == y);
            }
        }
        if t.contains(y) {
            let k = choose|k: int| 0 <= k < t.len() && t[k] == y;
            assert(t.push(x)[k] == y);
        }
        if y == x {
            assert(t.push(x)[t.len() as int] == y);
        }
    }
}

proof fn lemma_candidates_prefix(declared: Seq<Rule>, n: int)
    requires
        0 <= n <= declared.len(),
    ensures
        candidates(declared.subrange(0, n)).len() <= candidates(declared).len(),
        forall|k: int|
            0 <= k < candidates(declared.subrange(0, n)).len() ==> candidates(declared)[k]
                == #[trigger] candidates(declared.subrange(0, n))[k],
    decreases declared.len() - n,
{
    if n < declared.len() {
        lemma_candidates_prefix(declared, n + 1);
        let before = declared.subrange(0, n);
        let after = declared.subrange(0, n + 1);
        assert(after.drop_last() =~= before);
        if !is_reserved_key(after.last().key@) {
            assert(candidates(after) == candidates(before).push(after.last()));
        }
        assert forall|k: int| 0 <= k < candidates(before).len() implies candidates(declared)[k]
            == #[trigger] candidates(before)[k] by {
            assert(candidates(after)[k] == candidates(before)[k]);
        }
    } else {
        assert(declared.subrange(0, n) =~= declared);
    }
}

} // verus!
