use vstd::prelude::*;
use crate::glob_pattern::{glob_matches, pattern_hits};
use crate::process_snapshot::{ProcessSnapshot, option_view, views};

verus! {

/// A named policy entry: five predicate slots and the protection value to
/// enforce on the processes it selects. An empty slot matches every process.
pub struct Rule {
    pub key: String,
    pub command_line_file_path: Vec<String>,
    pub command_line_file_name: Vec<String>,
    pub command_line_argument: Vec<String>,
    pub current_working_directory: Vec<String>,
    pub owner_user_id: Vec<u32>,
    pub oom_score_adj: i32,
}

/// A slot of glob patterns accepts `values` when it is empty or when some
/// pattern accepts some value.
pub open spec fn glob_slot_matches(patterns: Seq<String>, values: Seq<Seq<char>>) -> bool {
    patterns.len() == 0 || exists|i: int, j: int|
        0 <= i < patterns.len() && 0 <= j < values.len() && #[trigger] pattern_hits(
            patterns[i]@,
            values[j],
        )
}

/// A slot of owner ids accepts `uid` when it is empty or lists `uid`.
pub open spec fn owner_slot_matches(ids: Seq<u32>, uid: u32) -> bool {
    ids.len() == 0 || ids.contains(uid)
}

/// The values an optional string stands for: none, or that one.
pub open spec fn option_values(o: Option<Seq<char>>) -> Seq<Seq<char>> {
    match o {
        Some(v) => seq![v],
        None => Seq::empty(),
    }
}

/// The list of a slot after the merge: the rule's own unless it is empty.
pub open spec fn merged_list<T>(own: Seq<T>, fallback: Seq<T>) -> Seq<T> {
    if own.len() == 0 {
        fallback
    } else {
        own
    }
}

/// The target after the merge: zero stands for "not set".
pub open spec fn merged_score_adj(own: i32, fallback: i32) -> i32 {
    if own == 0 {
        fallback
    } else {
        own
    }
}

fn rule_matches_generic_glob(rule_values: &Vec<String>, process_snapshot_values: &Vec<String>) -> (r:
    bool)
    ensures
        r == glob_slot_matches(rule_values@, views(process_snapshot_values@)),
{
    if rule_values.len() == 0 {
        return true;
    }
    let ghost vals = views(process_snapshot_values@);
    let mut i: usize = 0;
    while i < rule_values.len()
        invariant
            i <= rule_values@.len(),
            vals == views(process_snapshot_values@),
            forall|a: int, b: int|
                0 <= a < i && 0 <= b < vals.len() ==> !#[trigger] pattern_hits(
                    rule_values@[a]@,
                    vals[b],
                ),
        decreases rule_values.len() - i,
    {
        let mut j: usize = 0;
        while j < process_snapshot_values.len()
            invariant
                i < rule_values@.len(),
                j <= process_snapshot_values@.len(),
                vals == views(process_snapshot_values@),
                forall|a: int, b: int|
                    0 <= a < i && 0 <= b < vals.len() ==> !#[trigger] pattern_hits(
                        rule_values@[a]@,
                        vals[b],
                    ),
                forall|b: int| 0 <= b < j ==> !#[trigger] pattern_hits(rule_values@[i as int]@, vals[b]),
            decreases process_snapshot_values.len() - j,
        {
            if glob_matches(rule_values[i].as_str(), process_snapshot_values[j].as_str()) {
                assert(pattern_hits(rule_values@[i as int]@, vals[j as int]));
                return true;
            }
            j = j + 1;
        }
        i = i + 1;
    }
    false
}

fn rule_matches_generic_eq(rule_values: &Vec<u32>, process_snapshot_values: &Vec<u32>) -> (r: bool)
    ensures
        r == (rule_values@.len() == 0 || exists|i: int, j: int|
            0 <= i < rule_values@.len() && 0 <= j < process_snapshot_values@.len()
                && #[trigger] rule_values@[i] == #[trigger] process_snapshot_values@[j]),
{
    if rule_values.len() == 0 {
        return true;
    }
    let mut i: usize = 0;
    while i < rule_values.len()
        invariant
            i <= rule_values@.len(),
            forall|a: int, b: int|
                0 <= a < i && 0 <= b < process_snapshot_values@.len() ==> #[trigger] rule_values@[a]
                    != #[trigger] process_snapshot_values@[b],
        decreases rule_values.len() - i,
    {
        let mut j: usize = 0;
        while j < process_snapshot_values.len()
            invariant
                i < rule_values@.len(),
                j <= process_snapshot_values@.len(),
                forall|a: int, b: int|
                    0 <= a < i && 0 <= b < process_snapshot_values@.len() ==> #[trigger] rule_values@[a]
                        != #[trigger] process_snapshot_values@[b],
                forall|b: int| 0 <= b < j ==> rule_values@[i as int] != #[trigger] process_snapshot_values@[b],
            decreases process_snapshot_values.len() - j,
        {
            if rule_values[i] == process_snapshot_values[j] {
                return true;
            }
            j = j + 1;
        }
        i = i + 1;
    }
    false
}

/// The one-element list holding the string of `o`, or the empty list.
fn option_to_vec(o: Option<String>) -> (r: Vec<String>)
    ensures
        views(r@) == option_values(option_view(o)),
{
    let mut v: Vec<String> = Vec::new();
    match o {
        Some(s) => {
            v.push(s);
        },
        None => {},
    }
    assert(views(v@) =~= option_values(option_view(o)));
    v
}

impl Rule {
    /// Whether this rule selects the process `p`: every slot accepts it.
    pub open spec fn spec_matches(&self, p: &ProcessSnapshot) -> bool {
        &&& glob_slot_matches(self.command_line_file_path@, option_values(p.spec_file_path()))
        &&& glob_slot_matches(self.command_line_file_name@, option_values(p.spec_file_name()))
        &&& glob_slot_matches(self.command_line_argument@, p.spec_arguments())
        &&& glob_slot_matches(self.current_working_directory@, seq![p.current_working_directory@])
        &&& owner_slot_matches(self.owner_user_id@, p.uid)
    }

    /// `self` is `own` with each unset field taken from `fallback`.
    pub open spec fn is_merge_of(&self, own: &Rule, fallback: &Rule) -> bool {
        &&& self.key@ == own.key@
        &&& self.command_line_file_path@ == merged_list(
            own.command_line_file_path@,
            fallback.command_line_file_path@,
        )
        &&& self.command_line_file_name@ == merged_list(
            own.command_line_file_name@,
            fallback.command_line_file_name@,
        )
        &&& self.command_line_argument@ == merged_list(
            own.command_line_argument@,
            fallback.command_line_argument@,
        )
        &&& self.current_working_directory@ == merged_list(
            own.current_working_directory@,
            fallback.current_working_directory@,
        )
        &&& self.owner_user_id@ == merged_list(own.owner_user_id@, fallback.owner_user_id@)
        &&& self.oom_score_adj == merged_score_adj(own.oom_score_adj, fallback.oom_score_adj)
    }

    /// Whether all five predicate slots are empty.
    pub open spec fn is_unconditional(&self) -> bool {
        &&& self.command_line_file_path@.len() == 0
        &&& self.command_line_file_name@.len() == 0
        &&& self.command_line_argument@.len() == 0
        &&& self.current_working_directory@.len() == 0
        &&& self.owner_user_id@.len() == 0
    }

    /// This rule with each unset field taken from `fallback`: an empty list
    /// takes the fallback's list whole, a zero target takes the fallback's
    /// target. The key stays this rule's own.
    pub fn merge(&self, other: &Rule) -> (r: Rule)
        ensures
            r.is_merge_of(self, other),
    {
        let command_line_file_path = pick_list(
            &self.command_line_file_path,
            &other.command_line_file_path,
        );
        let command_line_file_name = pick_list(
            &self.command_line_file_name,
            &other.command_line_file_name,
        );
        let command_line_argument = pick_list(
            &self.command_line_argument,
            &other.command_line_argument,
        );
        let current_working_directory = pick_list(
            &self.current_working_directory,
            &other.current_working_directory,
        );
        let owner_user_id = if self.owner_user_id.len() == 0 {
            other.owner_user_id.clone()
        } else {
            self.owner_user_id.clone()
        };
        assert(owner_user_id@ =~= merged_list(self.owner_user_id@, other.owner_user_id@));
        let oom_score_adj = if self.oom_score_adj == 0 {
            other.oom_score_adj
        } else {
            self.oom_score_adj
        };
        Rule {
            key: self.key.clone(),
            command_line_file_path,
            command_line_file_name,
            command_line_argument,
            current_working_directory,
            owner_user_id,
            oom_score_adj,
        }
    }

    fn matches_command_line_file_path(&self, process_snapshot: &ProcessSnapshot) -> (r: bool)
        ensures
            r == glob_slot_matches(
                self.command_line_file_path@,
                option_values(process_snapshot.spec_file_path()),
            ),
    {
        let values = option_to_vec(process_snapshot.command_line_file_path());
        rule_matches_generic_glob(&self.command_line_file_path, &values)
    }

    fn matches_command_line_file_name(&self, process_snapshot: &ProcessSnapshot) -> (r: bool)
        ensures
            r == glob_slot_matches(
                self.command_line_file_name@,
                option_values(process_snapshot.spec_file_name()),
            ),
    {
        let values = option_to_vec(process_snapshot.command_line_file_name());
        rule_matches_generic_glob(&self.command_line_file_name, &values)
    }

    fn matches_command_line_argument(&self, process_snapshot: &ProcessSnapshot) -> (r: bool)
        ensures
            r == glob_slot_matches(self.command_line_argument@, process_snapshot.spec_arguments()),
    {
        let values = process_snapshot.command_line_arguments();
        rule_matches_generic_glob(&self.command_line_argument, &values)
    }

    fn matches_current_working_directory(&self, process_snapshot: &ProcessSnapshot) -> (r: bool)
        ensures
            r == glob_slot_matches(
                self.current_working_directory@,
                seq![process_snapshot.current_working_directory@],
            ),
    {
        let values = vec![process_snapshot.current_working_directory.clone()];
        assert(views(values@) =~= seq![process_snapshot.current_working_directory@]);
        rule_matches_generic_glob(&self.current_working_directory, &values)
    }

    fn matches_owner_user(&self, process_snapshot: &ProcessSnapshot) -> (r: bool)
        ensures
            r == owner_slot_matches(self.owner_user_id@, process_snapshot.uid),
    {
        let values = vec![process_snapshot.uid];
        let r = rule_matches_generic_eq(&self.owner_user_id, &values);
        proof {
            if self.owner_user_id@.contains(process_snapshot.uid) {
                let i = choose|i: int|
                    0 <= i < self.owner_user_id@.len() && self.owner_user_id@[i]
                        == process_snapshot.uid;
                assert(self.owner_user_id@[i] == values@[0]);
            }
        }
        r
    }

    /// Whether this rule selects `process_snapshot`: the conjunction of its
    /// five slots, each of which accepts when it is empty.
    pub fn matches(&self, process_snapshot: &ProcessSnapshot) -> (r: bool)
        ensures
            r == self.spec_matches(process_snapshot),
    {
        self.matches_command_line_file_path(process_snapshot)
            && self.matches_command_line_file_name(process_snapshot)
            && self.matches_command_line_argument(process_snapshot)
            && self.matches_current_working_directory(process_snapshot)
            && self.matches_owner_user(process_snapshot)
    }
}

/// A rule whose five slots are all empty selects every process.
pub proof fn unconditional_rule_matches_all(rule: &Rule, p: &ProcessSnapshot)
    requires
        rule.is_unconditional(),
    ensures
        rule.spec_matches(p),
{
}

/// A rule that lists owner ids never selects a process whose owner is not
/// among them, whatever its other slots say.
pub proof fn unlisted_owner_never_matches(rule: &Rule, p: &ProcessSnapshot)
    requires
        rule.owner_user_id@.len() > 0,
        !rule.owner_user_id@.contains(p.uid),
    ensures
        !rule.spec_matches(p),
{
}

/// A merged file-name slot is the fallback's list exactly when the rule's
/// own list is empty, and the rule's own list, with nothing of the
/// fallback's, otherwise.
pub proof fn merge_keeps_or_replaces_whole_list(merged: &Rule, own: &Rule, fallback: &Rule)
    requires
        merged.is_merge_of(own, fallback),
    ensures
        own.command_line_file_name@.len() == 0 ==> merged.command_line_file_name@
            == fallback.command_line_file_name@,
        own.command_line_file_name@.len() > 0 ==> merged.command_line_file_name@
            == own.command_line_file_name@,
        own.command_line_file_path@.len() == 0 ==> merged.command_line_file_path@
            == fallback.command_line_file_path@,
        own.command_line_file_path@.len() > 0 ==> merged.command_line_file_path@
            == own.command_line_file_path@,
        own.command_line_argument@.len() == 0 ==> merged.command_line_argument@
            == fallback.command_line_argument@,
        own.command_line_argument@.len() > 0 ==> merged.command_line_argument@
            == own.command_line_argument@,
        own.current_working_directory@.len() == 0 ==> merged.current_working_directory@
            == fallback.current_working_directory@,
        own.current_working_directory@.len() > 0 ==> merged.current_working_directory@
            == own.current_working_directory@,
        own.owner_user_id@.len() == 0 ==> merged.owner_user_id@ == fallback.owner_user_id@,
        own.owner_user_id@.len() > 0 ==> merged.owner_user_id@ == own.owner_user_id@,
{
}

/// A target of zero counts as unset and takes the fallback's value; any
/// other target is kept.
pub proof fn merge_zero_target_inherits(merged: &Rule, own: &Rule, fallback: &Rule)
    requires
        merged.is_merge_of(own, fallback),
    ensures
        own.oom_score_adj == 0 ==> merged.oom_score_adj == fallback.oom_score_adj,
        own.oom_score_adj != 0 ==> merged.oom_score_adj == own.oom_score_adj,
{
}

/// `own` when it is not empty, else `fallback`, copied.
fn pick_list(own: &Vec<String>, fallback: &Vec<String>) -> (r: Vec<String>)
    ensures
        r@ == merged_list(own@, fallback@),
{
    let source = if own.len() == 0 {
        fallback
    } else {
        own
    };
    let mut out: Vec<String> = Vec::new();
    let mut i: usize = 0;
    while i < source.len()
        invariant
            i <= source@.len(),
            out@ == source@.subrange(0, i as int),
        decreases source.len() - i,
    {
        out.push(source[i].clone());
        assert(out@ =~= source@.subrange(0, i + 1));
        i = i + 1;
    }
    assert(source@.subrange(0, source@.len() as int) =~= source@);
    out
}

} // verus!
