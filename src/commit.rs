//! Reading a commit identifier out of a revset query's output.
use vstd::prelude::*;
use vstd::string::*;
use crate::text::{lines, lines_of, trim, trim_str, views};

verus! {

pub open spec fn is_hex_digit(c: char) -> bool {
    ('0' <= c && c <= '9') || ('a' <= c && c <= 'f') || ('A' <= c && c <= 'F')
}

/// Exactly forty hexadecimal digits.
pub open spec fn is_commit_id(s: Seq<char>) -> bool {
    s.len() == 40 && forall|i: int| 0 <= i < s.len() ==> is_hex_digit(#[trigger] s[i])
}

/// The trimmed lines of `ls` that are not empty once trimmed.
pub open spec fn nonblank(ls: Seq<Seq<char>>) -> Seq<Seq<char>>
    decreases ls.len(),
{
    if ls.len() == 0 {
        seq![]
    } else {
        let rest = nonblank(ls.drop_last());
        if trim(ls.last()).len() > 0 {
            rest.push(trim(ls.last()))
        } else {
            rest
        }
    }
}

/// The commit a query printed: its only non-blank line, when that line is a
/// commit identifier.
pub open spec fn commit_of_output(out: Seq<char>) -> Option<Seq<char>> {
    let ls = nonblank(lines(out));
    if ls.len() == 1 && is_commit_id(ls[0]) {
        Some(ls[0])
    } else {
        None
    }
}

fn is_hex_char(c: char) -> (r: bool)
    ensures
        r == is_hex_digit(c),
{
    ('0' <= c && c <= '9') || ('a' <= c && c <= 'f') || ('A' <= c && c <= 'F')
}

/// Whether `s` is exactly forty hexadecimal digits.
pub fn check_commit_id(s: &str) -> (r: bool)
    ensures
        r == is_commit_id(s@),
{
    let n = s.unicode_len();
    if n != 40 {
        return false;
    }
    let mut i: usize = 0;
    while i < n
        invariant
            n == s@.len(),
            i <= n,
            forall|j: int| 0 <= j < i ==> is_hex_digit(#[trigger] s@[j]),
        decreases n - i,
    {
        if !is_hex_char(s.get_char(i)) {
            return false;
        }
        i = i + 1;
    }
    true
}

/// The commit identifier that a revset-to-commit query printed.
///
/// The output must hold exactly one non-blank line, and that line, trimmed,
/// must be forty hexadecimal digits; anything else is unresolvable (`None`).
pub fn commit_from_log_output(output: &str) -> (r: Option<String>)
    ensures
        match r {
            Some(c) => commit_of_output(output@) == Some(c@),
            None => commit_of_output(output@) is None,
        },
{
    let ls = lines_of(output);
    let ghost lv = views(ls@);
    let mut kept: Vec<String> = Vec::new();
    let mut i: usize = 0;
    assert(lv.subrange(0, 0) =~= Seq::<Seq<char>>::empty());
    while i < ls.len()
        invariant
            lv == views(ls@),
            lv == lines(output@),
            i <= ls@.len(),
            views(kept@) == nonblank(lv.subrange(0, i as int)),
        decreases ls@.len() - i,
    {
        assert(lv.subrange(0, i + 1).drop_last() =~= lv.subrange(0, i as int));
        assert(lv.subrange(0, i + 1).last() == ls@[i as int]@);
        let t = trim_str(ls[i].as_str());
        if t.unicode_len() > 0 {
            let owned = t.to_owned();
            assert(views(kept@.push(owned)) =~= views(kept@).push(owned@));
            kept.push(owned);
        }
        i = i + 1;
    }
    assert(lv.subrange(0, ls@.len() as int) =~= lv);
    assert(views(kept@).len() == kept@.len());
    if kept.len() != 1 {
        return None;
    }
    assert(views(kept@)[0] == kept@[0]@);
    if check_commit_id(kept[0].as_str()) {
        Some(kept[0].clone())
    } else {
        None
    }
}

} // verus!
