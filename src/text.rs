//! Character-level text primitives, stated over `Seq<char>`.
use vstd::prelude::*;
use vstd::string::*;

verus! {

/// `p` occurs in `s` starting at index `i`.
pub open spec fn occurs_at(s: Seq<char>, p: Seq<char>, i: int) -> bool {
    0 <= i && i + p.len() <= s.len() && s.subrange(i, i + p.len()) == p
}

/// The first index at or after `i` where `p` occurs in `s`.
pub open spec fn find_from(s: Seq<char>, p: Seq<char>, i: int) -> Option<int>
    decreases s.len() + 1 - i,
{
    if i < 0 || i + p.len() > s.len() {
        None
    } else if occurs_at(s, p, i) {
        Some(i)
    } else {
        find_from(s, p, i + 1)
    }
}

/// The first index where `p` occurs in `s`.
pub open spec fn find(s: Seq<char>, p: Seq<char>) -> Option<int> {
    find_from(s, p, 0)
}

/// The last index of `c` in `s` below `n`.
pub open spec fn rfind_below(s: Seq<char>, c: char, n: int) -> Option<int>
    decreases n,
{
    if n <= 0 || n > s.len() {
        None
    } else if s[n - 1] == c {
        Some(n - 1)
    } else {
        rfind_below(s, c, n - 1)
    }
}

/// The last index of `c` in `s`.
pub open spec fn rfind(s: Seq<char>, c: char) -> Option<int> {
    rfind_below(s, c, s.len() as int)
}

/// `s` cut around the first occurrence of `p`: what stands before it and after it.
pub open spec fn split_once(s: Seq<char>, p: Seq<char>) -> Option<(Seq<char>, Seq<char>)> {
    match find(s, p) {
        Some(i) => Some((s.subrange(0, i), s.subrange(i + p.len(), s.len() as int))),
        None => None,
    }
}

pub open spec fn starts_with(s: Seq<char>, p: Seq<char>) -> bool {
    p.len() <= s.len() && s.subrange(0, p.len() as int) == p
}

/// The characters that carry the Unicode `White_Space` property.
pub open spec fn is_space(c: char) -> bool {
    ||| c == '\t' || c == '\n' || c == '\u{0B}' || c == '\u{0C}' || c == '\r' || c == ' '
    ||| c == '\u{85}' || c == '\u{A0}' || c == '\u{1680}'
    ||| ('\u{2000}' <= c && c <= '\u{200A}')
    ||| c == '\u{2028}' || c == '\u{2029}' || c == '\u{202F}' || c == '\u{205F}'
    ||| c == '\u{3000}'
}

pub open spec fn trim_start(s: Seq<char>) -> Seq<char>
    decreases s.len(),
{
    if s.len() > 0 && is_space(s[0]) {
        trim_start(s.drop_first())
    } else {
        s
    }
}

pub open spec fn trim_end(s: Seq<char>) -> Seq<char>
    decreases s.len(),
{
    if s.len() > 0 && is_space(s.last()) {
        trim_end(s.drop_last())
    } else {
        s
    }
}

/// `s` without leading and trailing white space.
pub open spec fn trim(s: Seq<char>) -> Seq<char> {
    trim_end(trim_start(s))
}

/// The pieces of `s` between occurrences of `c`; always at least one.
pub open spec fn split_char(s: Seq<char>, c: char) -> Seq<Seq<char>>
    decreases s.len(),
{
    match find(s, seq![c]) {
        Some(i) => if 0 <= i < s.len() {
            seq![s.subrange(0, i)] + split_char(s.subrange(i + 1, s.len() as int), c)
        } else {
            seq![s]
        },
        None => seq![s],
    }
}

/// `t` without one trailing carriage return.
pub open spec fn strip_cr(t: Seq<char>) -> Seq<char> {
    if t.len() > 0 && t.last() == '\r' {
        t.drop_last()
    } else {
        t
    }
}

/// The lines of `s`: split at `\n` or `\r\n`, with the final terminator optional.
pub open spec fn lines(s: Seq<char>) -> Seq<Seq<char>>
    decreases s.len(),
{
    if s.len() == 0 {
        seq![]
    } else {
        match find(s, seq!['\n']) {
            Some(i) => if 0 <= i < s.len() {
                seq![strip_cr(s.subrange(0, i))] + lines(s.subrange(i + 1, s.len() as int))
            } else {
                seq![s]
            },
            None => seq![s],
        }
    }
}

/// The views of a sequence of strings.
pub open spec fn views(v: Seq<String>) -> Seq<Seq<char>> {
    v.map_values(|x: String| x@)
}

pub proof fn lemma_find_from_bounds(s: Seq<char>, p: Seq<char>, i: int)
    ensures
        match find_from(s, p, i) {
            Some(k) => i <= k && occurs_at(s, p, k),
            None => true,
        },
    decreases s.len() + 1 - i,
{
    if i < 0 || i + p.len() > s.len() {
    } else if occurs_at(s, p, i) {
    } else {
        lemma_find_from_bounds(s, p, i + 1);
    }
}

pub proof fn lemma_find_bounds(s: Seq<char>, p: Seq<char>)
    ensures
        match find(s, p) {
            Some(k) => 0 <= k && k + p.len() <= s.len() && s.subrange(k, k + p.len()) == p,
            None => true,
        },
{
    lemma_find_from_bounds(s, p, 0);
}

pub proof fn lemma_rfind_below_bounds(s: Seq<char>, c: char, n: int)
    ensures
        match rfind_below(s, c, n) {
            Some(k) => 0 <= k < n && k < s.len() && s[k] == c,
            None => true,
        },
    decreases n,
{
    if n <= 0 || n > s.len() {
    } else if s[n - 1] == c {
    } else {
        lemma_rfind_below_bounds(s, c, n - 1);
    }
}

/// Whether `p` occurs in `s` at index `i`.
fn matches_at(s: &str, p: &str, i: usize) -> (r: bool)
    requires
        i + p@.len() <= s@.len(),
    ensures
        r == occurs_at(s@, p@, i as int),
{
    let slen = s.unicode_len();
    let plen = p.unicode_len();
    let mut j: usize = 0;
    while j < plen
        invariant
            slen == s@.len(),
            plen == p@.len(),
            i + plen <= s@.len(),
            j <= plen,
            forall|k: int| 0 <= k < j ==> s@[i + k] == p@[k],
        decreases plen - j,
    {
        if s.get_char(i + j) != p.get_char(j) {
            assert(s@.subrange(i as int, i + plen)[j as int] != p@[j as int]);
            return false;
        }
        j = j + 1;
    }
    assert(s@.subrange(i as int, i + plen) =~= p@);
    true
}

/// Whether `a` and `b` hold the same characters.
pub fn str_eq(a: &str, b: &str) -> (r: bool)
    ensures
        r == (a@ == b@),
{
    if a.unicode_len() != b.unicode_len() {
        return false;
    }
    let r = matches_at(a, b, 0);
    proof {
        assert(a@.subrange(0, b@.len() as int) =~= a@);
    }
    r
}

/// The first index where `p` occurs in `s`.
pub fn find_str(s: &str, p: &str) -> (r: Option<usize>)
    ensures
        match r {
            Some(i) => find(s@, p@) == Some(i as int),
            None => find(s@, p@) is None,
        },
{
    let slen = s.unicode_len();
    let plen = p.unicode_len();
    if plen > slen {
        return None;
    }
    let last = slen - plen;
    let mut i: usize = 0;
    loop
        invariant
            slen == s@.len(),
            plen == p@.len(),
            last == slen - plen,
            i <= last,
            find(s@, p@) == find_from(s@, p@, i as int),
        decreases last - i,
    {
        if matches_at(s, p, i) {
            return Some(i);
        }
        if i == last {
            return None;
        }
        i = i + 1;
    }
}

/// The first index of `c` in `s`.
pub fn find_char(s: &str, c: char) -> (r: Option<usize>)
    ensures
        match r {
            Some(i) => find(s@, seq![c]) == Some(i as int),
            None => find(s@, seq![c]) is None,
        },
{
    let slen = s.unicode_len();
    let mut i: usize = 0;
    while i < slen
        invariant
            slen == s@.len(),
            i <= slen,
            find(s@, seq![c]) == find_from(s@, seq![c], i as int),
        decreases slen - i,
    {
        assert(s@.subrange(i as int, i + 1) =~= seq![s@[i as int]]);
        if s.get_char(i) == c {
            return Some(i);
        }
        assert(!occurs_at(s@, seq![c], i as int)) by {
            if occurs_at(s@, seq![c], i as int) {
                assert(s@.subrange(i as int, i + 1)[0] == seq![c][0]);
            }
        }
        i = i + 1;
    }
    None
}

/// The last index of `c` in `s`.
pub fn rfind_char(s: &str, c: char) -> (r: Option<usize>)
    ensures
        match r {
            Some(i) => rfind(s@, c) == Some(i as int),
            None => rfind(s@, c) is None,
        },
{
    let mut n: usize = s.unicode_len();
    while n > 0
        invariant
            n <= s@.len(),
            rfind(s@, c) == rfind_below(s@, c, n as int),
        decreases n,
    {
        if s.get_char(n - 1) == c {
            return Some(n - 1);
        }
        n = n - 1;
    }
    None
}

/// Whether `s` starts with `p`.
pub fn starts_with_str(s: &str, p: &str) -> (r: bool)
    ensures
        r == starts_with(s@, p@),
{
    if p.unicode_len() > s.unicode_len() {
        return false;
    }
    matches_at(s, p, 0)
}

/// Whether `c` carries the Unicode `White_Space` property.
pub fn is_space_char(c: char) -> (r: bool)
    ensures
        r == is_space(c),
{
    c == '\t' || c == '\n' || c == '\u{0B}' || c == '\u{0C}' || c == '\r' || c == ' '
        || c == '\u{85}' || c == '\u{A0}' || c == '\u{1680}' || ('\u{2000}' <= c && c
        <= '\u{200A}') || c == '\u{2028}' || c == '\u{2029}' || c == '\u{202F}' || c
        == '\u{205F}' || c == '\u{3000}'
}

/// `s` without leading and trailing white space.
pub fn trim_str(s: &str) -> (r: &str)
    ensures
        r@ == trim(s@),
{
    let n = s.unicode_len();
    let mut i: usize = 0;
    assert(s@.subrange(0, n as int) =~= s@);
    while i < n && is_space_char(s.get_char(i))
        invariant
            n == s@.len(),
            i <= n,
            trim_start(s@) == trim_start(s@.subrange(i as int, n as int)),
        decreases n - i,
    {
        assert(s@.subrange(i as int, n as int).drop_first() =~= s@.subrange(i + 1, n as int));
        i = i + 1;
    }
    let t = Ghost(s@.subrange(i as int, n as int));
    let mut j: usize = n;
    assert(t@.subrange(0, (j - i) as int) =~= t@);
    while j > i && is_space_char(s.get_char(j - 1))
        invariant
            n == s@.len(),
            i <= j <= n,
            t@ == s@.subrange(i as int, n as int),
            trim_start(s@) == t@,
            trim_end(t@) == trim_end(s@.subrange(i as int, j as int)),
        decreases j,
    {
        assert(s@.subrange(i as int, j as int).drop_last() =~= s@.subrange(i as int, j - 1));
        j = j - 1;
    }
    s.substring_char(i, j)
}

/// The pieces of `s` between occurrences of `c`.
pub fn split_on(s: &str, c: char) -> (r: Vec<String>)
    ensures
        views(r@) == split_char(s@, c),
{
    let mut out: Vec<String> = Vec::new();
    let mut rest: &str = s;
    loop
        invariant
            split_char(s@, c) == views(out@) + split_char(rest@, c),
        decreases rest@.len(),
    {
        let n = rest.unicode_len();
        proof {
            lemma_find_bounds(rest@, seq![c]);
        }
        match find_char(rest, c) {
            Some(i) => {
                let head = rest.substring_char(0, i).to_owned();
                let tail = rest.substring_char(i + 1, n);
                proof {
                    assert(views(out@.push(head)) =~= views(out@).push(head@));
                    assert(split_char(rest@, c) == seq![head@] + split_char(tail@, c));
                    assert(views(out@) + split_char(rest@, c) =~= views(out@).push(head@)
                        + split_char(tail@, c));
                }
                out.push(head);
                rest = tail;
            },
            None => {
                let last = rest.to_owned();
                proof {
                    assert(views(out@.push(last)) =~= views(out@).push(last@));
                    assert(views(out@) + split_char(rest@, c) =~= views(out@).push(last@));
                }
                out.push(last);
                return out;
            },
        }
    }
}

/// `s` without one trailing carriage return.
fn strip_cr_str(t: &str) -> (r: &str)
    ensures
        r@ == strip_cr(t@),
{
    let n = t.unicode_len();
    if n > 0 && t.get_char(n - 1) == '\r' {
        t.substring_char(0, n - 1)
    } else {
        proof {
            assert(t@.subrange(0, n as int) =~= t@);
        }
        t.substring_char(0, n)
    }
}

/// The lines of `s`, split at `\n` or `\r\n`, the final terminator optional.
pub fn lines_of(s: &str) -> (r: Vec<String>)
    ensures
        views(r@) == lines(s@),
{
    let mut out: Vec<String> = Vec::new();
    let mut rest: &str = s;
    loop
        invariant
            lines(s@) == views(out@) + lines(rest@),
        decreases rest@.len(),
    {
        let n = rest.unicode_len();
        if n == 0 {
            assert(views(out@) + lines(rest@) =~= views(out@));
            return out;
        }
        proof {
            lemma_find_bounds(rest@, seq!['\n']);
        }
        match find_char(rest, '\n') {
            Some(i) => {
                let head = strip_cr_str(rest.substring_char(0, i)).to_owned();
                let tail = rest.substring_char(i + 1, n);
                proof {
                    assert(views(out@.push(head)) =~= views(out@).push(head@));
                    assert(lines(rest@) == seq![head@] + lines(tail@));
                    assert(views(out@) + lines(rest@) =~= views(out@).push(head@) + lines(
                        tail@,
                    ));
                }
                out.push(head);
                rest = tail;
            },
            None => {
                let last = rest.to_owned();
                proof {
                    assert(views(out@.push(last)) =~= views(out@).push(last@));
                    assert(views(out@) + lines(rest@) =~= views(out@).push(last@));
                }
                out.push(last);
                return out;
            },
        }
    }
}

/// The text `a`, then `b`, then `c`, as one string.
pub fn join3(a: &str, b: &str, c: &str) -> (r: String)
    ensures
        r@ == a@ + b@ + c@,
{
    let mut r = a.to_owned();
    r.append(b);
    r.append(c);
    r
}

/// The lines of a file's content; no content has no lines.
pub fn into_lines(content: Option<String>) -> (r: Vec<String>)
    ensures
        views(r@) == match content {
            Some(c) => lines(c@),
            None => Seq::<Seq<char>>::empty(),
        },
{
    match content {
        Some(c) => lines_of(c.as_str()),
        None => {
            let v: Vec<String> = Vec::new();
            assert(views(v@) =~= Seq::<Seq<char>>::empty());
            v
        },
    }
}

/// Past `i`, `p` does not occur in `s` when no search from `i` finds it.
pub proof fn lemma_find_from_none(s: Seq<char>, p: Seq<char>, i: int, j: int)
    requires
        0 <= i <= j,
        find_from(s, p, i) is None,
    ensures
        !occurs_at(s, p, j),
    decreases s.len() + 1 - i,
{
    if i + p.len() > s.len() {
    } else if i < j {
        lemma_find_from_none(s, p, i + 1, j);
    }
}

/// What occurs in a part of `s` occurs in `s`.
pub proof fn lemma_find_in_part(s: Seq<char>, p: Seq<char>, a: int, b: int)
    requires
        0 <= a <= b <= s.len(),
        find(s, p) is None,
    ensures
        find(s.subrange(a, b), p) is None,
{
    let t = s.subrange(a, b);
    lemma_find_bounds(t, p);
    if let Some(k) = find(t, p) {
        assert(s.subrange(k + a, k + a + p.len()) =~= t.subrange(k, k + p.len()));
        lemma_find_from_none(s, p, 0, k + a);
    }
}

} // verus!
