//! Paths that may encode a move: `old => new`, `old -> new`, or the brace
//! form `prefix/{old => new}/suffix`.
use vstd::prelude::*;
use vstd::string::*;
use crate::text::{
    find, find_str, find_char, rfind, rfind_char, split_once, trim, trim_str, join3,
    lemma_find_bounds, lemma_rfind_below_bounds, lemma_find_in_part,
};

verus! {

/// The arrow ` => `.
pub open spec fn fat_arrow() -> Seq<char> {
    seq![' ', '=', '>', ' ']
}

/// The arrow ` -> `.
pub open spec fn thin_arrow() -> Seq<char> {
    seq![' ', '-', '>', ' ']
}

/// `s` cut at the first occurrence of `arrow`, both sides trimmed, when both
/// trimmed sides are non-empty.
pub open spec fn split_at_arrow(s: Seq<char>, arrow: Seq<char>) -> Option<(Seq<char>, Seq<char>)> {
    match split_once(s, arrow) {
        Some((l, r)) => if trim(l).len() > 0 && trim(r).len() > 0 {
            Some((trim(l), trim(r)))
        } else {
            None
        },
        None => None,
    }
}

/// `s` cut at ` => `, else at ` -> `.
pub open spec fn split_arrows(s: Seq<char>) -> Option<(Seq<char>, Seq<char>)> {
    match split_at_arrow(s, fat_arrow()) {
        Some(p) => Some(p),
        None => split_at_arrow(s, thin_arrow()),
    }
}

/// The brace form: the region between the first `{` and the last `}` holds
/// an arrow; each side is put back between the prefix and the suffix.
pub open spec fn split_braces(s: Seq<char>) -> Option<(Seq<char>, Seq<char>)> {
    match (find(s, seq!['{']), rfind(s, '}')) {
        (Some(open), Some(close)) => if open < close {
            let prefix = s.subrange(0, open);
            let suffix = s.subrange(close + 1, s.len() as int);
            match split_arrows(s.subrange(open + 1, close)) {
                Some((l, r)) => Some((prefix + l + suffix, prefix + r + suffix)),
                None => None,
            }
        } else {
            None
        },
        _ => None,
    }
}

/// The old and the new path that a reported path stands for: the brace form,
/// else the flat arrow form, else the path itself for both.
pub open spec fn display_paths(s: Seq<char>) -> (Seq<char>, Seq<char>) {
    match split_braces(s) {
        Some(p) => p,
        None => match split_arrows(s) {
            Some(p) => p,
            None => (s, s),
        },
    }
}

/// `s` cut at the first `arrow`, trimmed sides, when both are non-empty.
fn split_at_arrow_str<'a>(s: &'a str, arrow: &str) -> (r: Option<(&'a str, &'a str)>)
    requires
        arrow@.len() == 4,
    ensures
        match r {
            Some((a, b)) => split_at_arrow(s@, arrow@) == Some((a@, b@)),
            None => split_at_arrow(s@, arrow@) is None,
        },
{
    proof {
        lemma_find_bounds(s@, arrow@);
    }
    match find_str(s, arrow) {
        Some(i) => {
            let n = s.unicode_len();
            let l = trim_str(s.substring_char(0, i));
            let r = trim_str(s.substring_char(i + 4, n));
            if l.unicode_len() > 0 && r.unicode_len() > 0 {
                Some((l, r))
            } else {
                None
            }
        },
        None => None,
    }
}

/// `s` cut at ` => `, else at ` -> `.
fn split_arrows_str<'a>(s: &'a str) -> (r: Option<(&'a str, &'a str)>)
    ensures
        match r {
            Some((a, b)) => split_arrows(s@) == Some((a@, b@)),
            None => split_arrows(s@) is None,
        },
{
    proof {
        reveal_strlit(" => ");
        reveal_strlit(" -> ");
    }
    assert(" => "@ =~= fat_arrow());
    assert(" -> "@ =~= thin_arrow());
    match split_at_arrow_str(s, " => ") {
        Some(p) => Some(p),
        None => split_at_arrow_str(s, " -> "),
    }
}

/// The brace form of a move, when `s` holds one.
fn split_braces_str(s: &str) -> (r: Option<(String, String)>)
    ensures
        match r {
            Some((a, b)) => split_braces(s@) == Some((a@, b@)),
            None => split_braces(s@) is None,
        },
{
    proof {
        lemma_find_bounds(s@, seq!['{']);
        lemma_rfind_below_bounds(s@, '}', s@.len() as int);
    }
    match (find_char(s, '{'), rfind_char(s, '}')) {
        (Some(open), Some(close)) => {
            if open < close {
                let n = s.unicode_len();
                let prefix = s.substring_char(0, open);
                let suffix = s.substring_char(close + 1, n);
                match split_arrows_str(s.substring_char(open + 1, close)) {
                    Some((l, r)) => Some((join3(prefix, l, suffix), join3(prefix, r, suffix))),
                    None => None,
                }
            } else {
                None
            }
        },
        _ => None,
    }
}

/// Expands a reported path into the old and the new path it stands for.
///
/// `src/{old => new}.rs` gives `src/old.rs` and `src/new.rs`; `a => b` (or
/// `a -> b`) gives `a` and `b`; any other path stands for itself twice.
pub fn split_display_path(path: &str) -> (r: (String, String))
    ensures
        (r.0@, r.1@) == display_paths(path@),
{
    match split_braces_str(path) {
        Some(p) => p,
        None => match split_arrows_str(path) {
            Some((a, b)) => (a.to_owned(), b.to_owned()),
            None => (path.to_owned(), path.to_owned()),
        },
    }
}

/// A path that holds neither arrow stands for itself, as old and as new path.
pub proof fn lemma_plain_path_is_fixed(s: Seq<char>)
    requires
        find(s, fat_arrow()) is None,
        find(s, thin_arrow()) is None,
    ensures
        display_paths(s) == (s, s),
{
    if let (Some(open), Some(close)) = (find(s, seq!['{']), rfind(s, '}')) {
        lemma_find_bounds(s, seq!['{']);
        lemma_rfind_below_bounds(s, '}', s.len() as int);
        if open < close {
            lemma_find_in_part(s, fat_arrow(), open + 1, close);
            lemma_find_in_part(s, thin_arrow(), open + 1, close);
        }
    }
}

} // verus!
