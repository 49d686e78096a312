use vstd::prelude::*;

verus! {

/// Whether `pattern` compiles as a shell-style glob pattern.
pub uninterp spec fn glob_valid(pattern: Seq<char>) -> bool;

/// Whether the compiled glob `pattern` accepts `text`.
pub uninterp spec fn glob_accepts(pattern: Seq<char>, text: Seq<char>) -> bool;

/// A pattern that compiles and accepts `text`.
pub open spec fn pattern_hits(pattern: Seq<char>, text: Seq<char>) -> bool {
    glob_valid(pattern) && glob_accepts(pattern, text)
}

/// Relies on `glob::Pattern::new`: whether it returns `Ok` depends on the
/// characters of the pattern alone.
#[verifier::external_body]
pub(crate) fn glob_compiles(pattern: &str) -> (r: bool)
    ensures
        r == glob_valid(pattern@),
{
    glob::Pattern::new(pattern).is_ok()
}

/// Relies on `glob::Pattern::matches`, called on the pattern that
/// `glob::Pattern::new` compiles from `pattern`: the answer depends on the two
/// strings alone. A pattern that does not compile accepts nothing.
#[verifier::external_body]
pub(crate) fn glob_matches(pattern: &str, text: &str) -> (r: bool)
    ensures
        r == (glob_valid(pattern@) && glob_accepts(pattern@, text@)),
{
    match glob::Pattern::new(pattern) {
        Ok(compiled) => compiled.matches(text),
        Err(_) => false,
    }
}

} // verus!
