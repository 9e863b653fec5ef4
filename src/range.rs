//! Scopes, backends, and the old/new addresses a range string stands for.
use vstd::prelude::*;
use vstd::string::*;
use crate::text::{
    find, find_str, split_once, trim, trim_str, join3, lemma_find_bounds, lemma_find_from_none,
};

verus! {

/// The two version-control backends.
#[derive(Clone, Copy, Debug, PartialEq, Eq, Structural)]
pub enum Vcs {
    /// The linear commit VCS, with a staging area.
    Linear,
    /// The revset-based VCS, without a staging area.
    Revset,
}

/// The comparison a diff is asked for.
#[derive(Debug)]
pub enum DiffMode {
    /// A range or revision expression of the backend.
    Range(String),
    /// Working tree against the staging area (or against the current revision).
    Unstaged,
    /// Staging area against the tip of history (or the current revision's own change).
    Staged,
}

pub open spec fn two_dots() -> Seq<char> {
    seq!['.', '.']
}

pub open spec fn three_dots() -> Seq<char> {
    seq!['.', '.', '.']
}

/// `r` followed by `^`, its parent.
pub open spec fn parent_of(r: Seq<char>) -> Seq<char> {
    r + seq!['^']
}

/// The endpoints of a three-dot range `A...B`, when `r` holds one.
pub open spec fn three_dot_spec(r: Seq<char>) -> Option<(Seq<char>, Seq<char>)> {
    split_once(r, three_dots())
}

/// The old and new reference of a linear-VCS range string. `base` is what the
/// backend printed as the common ancestor of a three-dot range's endpoints,
/// if it found one.
pub open spec fn git_range_spec(r: Seq<char>, base: Option<Seq<char>>) -> (Seq<char>, Seq<char>) {
    match split_once(r, three_dots()) {
        Some((a, b)) => (
            match base {
                Some(m) => trim(m),
                None => parent_of(a),
            },
            b,
        ),
        None => match split_once(r, two_dots()) {
            Some((a, b)) => (a, b),
            None => (parent_of(r), r),
        },
    }
}

/// The old and new revision of a revset-VCS range `A..B`, both trimmed and
/// non-empty.
pub open spec fn jj_range_spec(r: Seq<char>) -> Option<(Seq<char>, Seq<char>)> {
    match split_once(r, two_dots()) {
        Some((a, b)) => if trim(a).len() > 0 && trim(b).len() > 0 {
            Some((trim(a), trim(b)))
        } else {
            None
        },
        None => None,
    }
}

pub open spec fn roots_minus(r: Seq<char>) -> Seq<char> {
    seq!['r', 'o', 'o', 't', 's', '('] + r + seq![')', '-']
}

pub open spec fn heads_of(r: Seq<char>) -> Seq<char> {
    seq!['h', 'e', 'a', 'd', 's', '('] + r + seq![')']
}

/// The old and new revision a revset-VCS expression is diffed between: the
/// two sides of a range, else the predecessor of the earliest and the latest
/// commit of the set.
pub open spec fn jj_revisions_spec(r: Seq<char>) -> (Seq<char>, Seq<char>) {
    match jj_range_spec(r) {
        Some(p) => p,
        None => (roots_minus(r), heads_of(r)),
    }
}

/// `s` cut around the first occurrence of `p`.
fn split_once_str<'a>(s: &'a str, p: &str) -> (r: Option<(&'a str, &'a str)>)
    ensures
        match r {
            Some((a, b)) => split_once(s@, p@) == Some((a@, b@)),
            None => split_once(s@, p@) is None,
        },
{
    proof {
        lemma_find_bounds(s@, p@);
    }
    match find_str(s, p) {
        Some(i) => {
            let n = s.unicode_len();
            let plen = p.unicode_len();
            Some((s.substring_char(0, i), s.substring_char(i + plen, n)))
        },
        None => None,
    }
}

/// The endpoints `A` and `B` of a three-dot range `A...B`; the caller asks the
/// backend for their common ancestor before resolving the range.
pub fn three_dot_endpoints(range: &str) -> (r: Option<(String, String)>)
    ensures
        match r {
            Some((a, b)) => three_dot_spec(range@) == Some((a@, b@)),
            None => three_dot_spec(range@) is None,
        },
{
    proof {
        reveal_strlit("...");
    }
    assert("..."@ =~= three_dots());
    match split_once_str(range, "...") {
        Some((a, b)) => Some((a.to_owned(), b.to_owned())),
        None => None,
    }
}

/// Resolves a linear-VCS range string into its old and new reference.
///
/// `A...B` gives the common ancestor (`merge_base`, the backend's output for
/// `A` and `B`, trimmed) or, when there is none, `A^`; and `B`. `A..B` gives
/// `A` and `B` as written, either possibly empty. A single reference `R`
/// gives `R^` and `R`.
pub fn parse_git_range(range: &str, merge_base: Option<&str>) -> (r: (String, String))
    ensures
        (r.0@, r.1@) == git_range_spec(range@, match merge_base {
            Some(m) => Some(m@),
            None => None,
        }),
{
    proof {
        reveal_strlit("...");
        reveal_strlit("..");
        reveal_strlit("^");
        reveal_strlit("");
    }
    assert("..."@ =~= three_dots());
    assert(".."@ =~= two_dots());
    match split_once_str(range, "...") {
        Some((a, b)) => {
            let base = match merge_base {
                Some(m) => trim_str(m).to_owned(),
                None => join3(a, "^", ""),
            };
            assert(a@ + "^"@ + ""@ =~= parent_of(a@));
            (base, b.to_owned())
        },
        None => match split_once_str(range, "..") {
            Some((a, b)) => (a.to_owned(), b.to_owned()),
            None => {
                assert(range@ + "^"@ + ""@ =~= parent_of(range@));
                (join3(range, "^", ""), range.to_owned())
            },
        },
    }
}

/// Recognises a revset-VCS range `A..B` whose trimmed sides are both
/// non-empty, and gives those sides.
pub fn parse_jj_range(revset: &str) -> (r: Option<(String, String)>)
    ensures
        match r {
            Some((a, b)) => jj_range_spec(revset@) == Some((a@, b@)),
            None => jj_range_spec(revset@) is None,
        },
{
    proof {
        reveal_strlit("..");
    }
    assert(".."@ =~= two_dots());
    match split_once_str(revset, "..") {
        Some((a, b)) => {
            let ta = trim_str(a);
            let tb = trim_str(b);
            if ta.unicode_len() > 0 && tb.unicode_len() > 0 {
                Some((ta.to_owned(), tb.to_owned()))
            } else {
                None
            }
        },
        None => None,
    }
}

/// The old and new revision a revset-VCS expression is diffed between.
///
/// A range `A..B` gives `A` and `B`; any other expression `R` gives
/// `roots(R)-` and `heads(R)`, so that a set spanning several commits still
/// yields one pair.
pub fn jj_revisions(revset: &str) -> (r: (String, String))
    ensures
        (r.0@, r.1@) == jj_revisions_spec(revset@),
{
    proof {
        reveal_strlit("roots(");
        reveal_strlit(")-");
        reveal_strlit("heads(");
        reveal_strlit(")");
    }
    match parse_jj_range(revset) {
        Some(p) => p,
        None => {
            assert("roots("@ + revset@ + ")-"@ =~= roots_minus(revset@));
            assert("heads("@ + revset@ + ")"@ =~= heads_of(revset@));
            (join3("roots(", revset, ")-"), join3("heads(", revset, ")"))
        },
    }
}

/// A range string without `..` is a single reference `R`, resolved to `R^`
/// and `R`; and a revset-VCS expression without `..` is no range.
pub proof fn lemma_single_reference(r: Seq<char>, base: Option<Seq<char>>)
    requires
        find(r, two_dots()) is None,
    ensures
        git_range_spec(r, base) == (parent_of(r), r),
        jj_range_spec(r) is None,
{
    lemma_find_bounds(r, three_dots());
    if let Some(k) = find(r, three_dots()) {
        assert(r.subrange(k, k + 2) =~= r.subrange(k, k + 3).subrange(0, 2));
        assert(three_dots().subrange(0, 2) =~= two_dots());
        lemma_find_from_none(r, two_dots(), 0, k);
    }
}

} // verus!
