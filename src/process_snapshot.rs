use vstd::prelude::*;
use vstd::string::StrSliceExecFns;

verus! {

/// One process as it was read during a single scan.
pub struct ProcessSnapshot {
    pub pid: i32,
    pub uid: u32,
    pub command_line: Vec<String>,
    pub current_working_directory: String,
    pub oom_score: i32,
    pub oom_score_adjust: i32,
}

/// The score recorded for a process whose score could not be read.
pub const MIN_OOM_SCORE: i32 = 0;

/// The adjustment recorded for a process whose adjustment could not be read.
pub const MIN_OOM_SCORE_ADJ: i32 = -1000;

/// The character contents of each string of `v`.
pub open spec fn views(v: Seq<String>) -> Seq<Seq<char>> {
    v.map_values(|s: String| s@)
}

/// The character contents of an optional string.
pub open spec fn option_view(o: Option<String>) -> Option<Seq<char>> {
    match o {
        Some(s) => Some(s@),
        None => None,
    }
}

/// Start of the path segment that ends at `end`: just after the last `/`
/// before `end`, or the start of the string.
pub open spec fn segment_start(s: Seq<char>, end: int) -> int
    decreases end,
{
    if end <= 0 {
        0
    } else if s[end - 1] == '/' {
        end
    } else {
        segment_start(s, end - 1)
    }
}

/// Bounds of the file-name component of `s.subrange(0, end)`, read as a Unix
/// path: the last segment that is neither empty nor `.`; there is none when
/// that segment is `..` or when no such segment exists (`""`, `/`, `.`).
pub open spec fn file_name_span(s: Seq<char>, end: int) -> Option<(int, int)>
    decreases end,
{
    if end <= 0 {
        None
    } else {
        let start = segment_start(s, end);
        if start >= end {
            file_name_span(s, end - 1)
        } else if s.subrange(start, end) == seq!['.'] {
            file_name_span(s, end - 1)
        } else if s.subrange(start, end) == seq!['.', '.'] {
            None
        } else {
            Some((start, end))
        }
    }
}

/// The file-name component of the path `s`.
pub open spec fn file_name_of(s: Seq<char>) -> Option<Seq<char>> {
    match file_name_span(s, s.len() as int) {
        Some((a, b)) => Some(s.subrange(a, b)),
        None => None,
    }
}

proof fn lemma_segment_start_bounds(s: Seq<char>, end: int)
    ensures
        0 <= segment_start(s, end),
        0 <= end ==> segment_start(s, end) <= end,
    decreases end,
{
    if end > 0 && s[end - 1] != '/' {
        lemma_segment_start_bounds(s, end - 1);
    }
}

proof fn lemma_file_name_span_bounds(s: Seq<char>, end: int)
    requires
        0 <= end <= s.len(),
    ensures
        match file_name_span(s, end) {
            Some((a, b)) => 0 <= a < b <= end,
            None => true,
        },
    decreases end,
{
    if end > 0 {
        let start = segment_start(s, end);
        lemma_segment_start_bounds(s, end);
        if start >= end {
            lemma_file_name_span_bounds(s, end - 1);
        } else if s.subrange(start, end) == seq!['.'] {
            lemma_file_name_span_bounds(s, end - 1);
        }
    }
}

fn find_segment_start(s: &str, end: usize) -> (r: usize)
    requires
        end <= s@.len(),
    ensures
        r as int == segment_start(s@, end as int),
{
    let mut j: usize = end;
    while j > 0 && s.get_char(j - 1) != '/'
        invariant
            j <= end <= s@.len(),
            segment_start(s@, end as int) == segment_start(s@, j as int),
        decreases j,
    {
        j = j - 1;
    }
    j
}

/// Bounds of the file-name component of the path `s`.
fn file_name_bounds(s: &str) -> (r: Option<(usize, usize)>)
    ensures
        match r {
            Some((a, b)) => file_name_span(s@, s@.len() as int) == Some((a as int, b as int)),
            None => file_name_span(s@, s@.len() as int) is None,
        },
{
    let n = s.unicode_len();
    let mut end: usize = n;
    loop
        invariant
            n == s@.len(),
            end <= n,
            file_name_span(s@, n as int) == file_name_span(s@, end as int),
        decreases end,
    {
        if end == 0 {
            return None;
        }
        let start = find_segment_start(s, end);
        proof {
            lemma_segment_start_bounds(s@, end as int);
        }
        if start >= end {
            end = end - 1;
        } else {
            let ghost seg = s@.subrange(start as int, end as int);
            let first = s.get_char(start);
            assert(seg[0] == first);
            if end - start == 1 && first == '.' {
                assert(seg =~= seq!['.']);
                end = end - 1;
            } else if end - start == 2 && first == '.' && s.get_char(start + 1) == '.' {
                assert(seg =~= seq!['.', '.']);
                return None;
            } else {
                assert(seg != seq!['.']) by {
                    if seg == seq!['.'] {
                        assert(seg.len() == 1);
                    }
                }
                assert(seg != seq!['.', '.']) by {
                    if seg == seq!['.', '.'] {
                        assert(seg.len() == 2);
                        assert(seg[1] == s@[start + 1]);
                    }
                }
                return Some((start, end));
            }
        }
    }
}

impl ProcessSnapshot {
    /// A snapshot from what could be read of one process; each reading that
    /// failed is replaced: owner 0, an empty command line, working directory
    /// `/`, the lowest score and the lowest adjustment.
    pub fn from_readings(
        pid: i32,
        uid: Option<u32>,
        command_line: Option<Vec<String>>,
        current_working_directory: Option<String>,
        oom_score: Option<i32>,
        oom_score_adjust: Option<i32>,
    ) -> (r: ProcessSnapshot)
        ensures
            r.pid == pid,
            r.uid == match uid {
                Some(u) => u,
                None => 0,
            },
            r.command_line@ == match command_line {
                Some(c) => c@,
                None => Seq::empty(),
            },
            r.current_working_directory@ == match current_working_directory {
                Some(d) => d@,
                None => seq!['/'],
            },
            r.oom_score == match oom_score {
                Some(v) => v,
                None => MIN_OOM_SCORE,
            },
            r.oom_score_adjust == match oom_score_adjust {
                Some(v) => v,
                None => MIN_OOM_SCORE_ADJ,
            },
    {
        let uid = match uid {
            Some(u) => u,
            None => 0,
        };
        let command_line = match command_line {
            Some(c) => c,
            None => Vec::new(),
        };
        let current_working_directory = match current_working_directory {
            Some(d) => d,
            None => {
                let root = "/";
                proof {
                    reveal_strlit("/");
                }
                root.to_owned()
            },
        };
        let oom_score = match oom_score {
            Some(v) => v,
            None => MIN_OOM_SCORE,
        };
        let oom_score_adjust = match oom_score_adjust {
            Some(v) => v,
            None => MIN_OOM_SCORE_ADJ,
        };
        ProcessSnapshot {
            pid,
            uid,
            command_line,
            current_working_directory,
            oom_score,
            oom_score_adjust,
        }
    }

    /// The first command-line element, if the command line is not empty.
    pub open spec fn spec_file_path(&self) -> Option<Seq<char>> {
        if self.command_line@.len() == 0 {
            None
        } else {
            Some(self.command_line@[0]@)
        }
    }

    /// The file-name component of the first command-line element.
    pub open spec fn spec_file_name(&self) -> Option<Seq<char>> {
        match self.spec_file_path() {
            Some(p) => file_name_of(p),
            None => None,
        }
    }

    /// The command-line elements after the first one.
    pub open spec fn spec_arguments(&self) -> Seq<Seq<char>> {
        if self.command_line@.len() == 0 {
            Seq::empty()
        } else {
            views(self.command_line@.skip(1))
        }
    }

    pub fn command_line_file_path(&self) -> (r: Option<String>)
        ensures
            option_view(r) == self.spec_file_path(),
    {
        if self.command_line.len() == 0 {
            None
        } else {
            Some(self.command_line[0].clone())
        }
    }

    pub fn command_line_file_name(&self) -> (r: Option<String>)
        ensures
            option_view(r) == self.spec_file_name(),
    {
        let path = match self.command_line_file_path() {
            Some(p) => p,
            None => return None,
        };
        let s = path.as_str();
        match file_name_bounds(s) {
            Some((a, b)) => {
                proof {
                    lemma_file_name_span_bounds(s@, s@.len() as int);
                }
                let name = s.substring_char(a, b);
                Some(name.to_owned())
            },
            None => None,
        }
    }

    pub fn command_line_arguments(&self) -> (r: Vec<String>)
        ensures
            views(r@) == self.spec_arguments(),
    {
        let mut arguments: Vec<String> = Vec::new();
        let n = self.command_line.len();
        let mut i: usize = 1;
        while i < n
            invariant
                n == self.command_line@.len(),
                1 <= i,
                i == 1 || i <= n,
                arguments@.len() == i - 1,
                forall|k: int| 0 <= k < i - 1 ==> arguments@[k]@ == self.command_line@[k + 1]@,
            decreases n - i,
        {
            arguments.push(self.command_line[i].clone());
            i = i + 1;
        }
        if n > 0 {
            assert forall|k: int| 0 <= k < arguments@.len() implies views(arguments@)[k]
                == self.spec_arguments()[k] by {
                assert(self.command_line@.skip(1)[k] == self.command_line@[k + 1]);
            }
        }
        assert(views(arguments@) =~= self.spec_arguments());
        arguments
    }
}

} // verus!
