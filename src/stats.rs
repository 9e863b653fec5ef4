//! Per-file addition and deletion counts, read from a numeric diff listing.
use vstd::prelude::*;
use vstd::string::*;
use crate::text::{lines, lines_of, split_char, split_on, views};
use crate::pathmap::PathMap;
use crate::pathkey::components;

verus! {

/// Path (by its components) to (additions, deletions).
pub type FileStats = PathMap<(u32, u32)>;

pub open spec fn is_digit(c: char) -> bool {
    '0' <= c && c <= '9'
}

pub open spec fn all_digits(s: Seq<char>) -> bool {
    forall|i: int| 0 <= i < s.len() ==> is_digit(#[trigger] s[i])
}

/// The number that the decimal digits `s` write.
pub open spec fn decimal_value(s: Seq<char>) -> int
    decreases s.len(),
{
    if s.len() == 0 {
        0
    } else {
        decimal_value(s.drop_last()) * 10 + (s.last() as u32 - '0' as u32)
    }
}

/// `s` without one leading `+`.
pub open spec fn unsigned_digits(s: Seq<char>) -> Seq<char> {
    if s.len() > 0 && s[0] == '+' {
        s.drop_first()
    } else {
        s
    }
}

/// An unsigned 32-bit number in decimal: an optional `+`, then at least one
/// digit, with a value that fits.
pub open spec fn parse_u32_spec(s: Seq<char>) -> Option<u32> {
    let d = unsigned_digits(s);
    if d.len() > 0 && all_digits(d) && decimal_value(d) <= u32::MAX {
        Some(decimal_value(d) as u32)
    } else {
        None
    }
}

/// One numeric diff line `additions\tdeletions\tpath`.
pub open spec fn numstat_entry(line: Seq<char>) -> Option<(Seq<char>, (u32, u32))> {
    let parts = split_char(line, '\t');
    if parts.len() >= 3 {
        match (parse_u32_spec(parts[0]), parse_u32_spec(parts[1])) {
            (Some(a), Some(d)) => Some((parts[2], (a, d))),
            _ => None,
        }
    } else {
        None
    }
}

/// Path to counts for each well-formed line, a later line replacing an
/// earlier one for the same path.
pub open spec fn stats_of(ls: Seq<Seq<char>>) -> Map<Seq<Seq<char>>, (u32, u32)>
    decreases ls.len(),
{
    if ls.len() == 0 {
        Map::empty()
    } else {
        let m = stats_of(ls.drop_last());
        match numstat_entry(ls.last()) {
            Some((p, c)) => m.insert(components(p), c),
            None => m,
        }
    }
}

proof fn lemma_decimal_prefix(s: Seq<char>, k: int)
    requires
        all_digits(s),
        0 <= k <= s.len(),
    ensures
        0 <= decimal_value(s.subrange(0, k)) <= decimal_value(s),
    decreases s.len(),
{
    if k == s.len() {
        assert(s.subrange(0, k) =~= s);
        if s.len() > 0 {
            lemma_decimal_prefix(s.drop_last(), 0);
        }
    } else {
        assert(all_digits(s.drop_last()));
        lemma_decimal_prefix(s.drop_last(), k);
        assert(s.drop_last().subrange(0, k) =~= s.subrange(0, k));
    }
}

/// Reads an unsigned 32-bit decimal number: an optional `+`, then digits.
pub fn parse_u32(s: &str) -> (r: Option<u32>)
    ensures
        r == parse_u32_spec(s@),
{
    let n = s.unicode_len();
    let start: usize = if n > 0 && s.get_char(0) == '+' {
        1
    } else {
        0
    };
    let d = s.substring_char(start, n);
    proof {
        if start == 1 {
            assert(d@ =~= s@.drop_first());
        } else {
            assert(d@ =~= s@);
        }
        assert(d@ == unsigned_digits(s@));
    }
    let m = d.unicode_len();
    if m == 0 {
        return None;
    }
    let mut acc: u64 = 0;
    let mut i: usize = 0;
    assert(d@.subrange(0, 0) =~= Seq::<char>::empty());
    while i < m
        invariant
            m == d@.len(),
            d@ == unsigned_digits(s@),
            i <= m,
            all_digits(d@.subrange(0, i as int)),
            acc == decimal_value(d@.subrange(0, i as int)),
            acc <= u32::MAX,
        decreases m - i,
    {
        let c = d.get_char(i);
        assert(d@.subrange(0, i + 1).drop_last() =~= d@.subrange(0, i as int));
        if !('0' <= c && c <= '9') {
            assert(!all_digits(d@)) by {
                assert(!is_digit(d@[i as int]));
            }
            assert(parse_u32_spec(s@) is None);
            return None;
        }
        assert(d@.subrange(0, i + 1).last() == c);
        acc = acc * 10 + (c as u32 - '0' as u32) as u64;
        assert(all_digits(d@.subrange(0, i + 1)));
        assert(acc == decimal_value(d@.subrange(0, i + 1)));
        if acc > u32::MAX as u64 {
            proof {
                if all_digits(d@) {
                    lemma_decimal_prefix(d@, i + 1);
                }
            }
            assert(parse_u32_spec(s@) is None);
            return None;
        }
        i = i + 1;
    }
    assert(d@.subrange(0, m as int) =~= d@);
    Some(acc as u32)
}

/// The counts and path of one numeric diff line, when it is well formed.
pub fn parse_numstat_line(line: &str) -> (r: Option<(String, (u32, u32))>)
    ensures
        match r {
            Some((p, c)) => numstat_entry(line@) == Some((p@, c)),
            None => numstat_entry(line@) is None,
        },
{
    let parts = split_on(line, '\t');
    proof {
        assert(views(parts@).len() == parts@.len());
    }
    if parts.len() < 3 {
        return None;
    }
    proof {
        assert(views(parts@)[0] == parts@[0]@);
        assert(views(parts@)[1] == parts@[1]@);
        assert(views(parts@)[2] == parts@[2]@);
    }
    match (parse_u32(parts[0].as_str()), parse_u32(parts[1].as_str())) {
        (Some(a), Some(d)) => Some((parts[2].clone(), (a, d))),
        _ => None,
    }
}

/// Path to (additions, deletions) for each well-formed line of a numeric
/// diff listing; other lines are skipped.
pub fn parse_numstat(output: &str) -> (r: FileStats)
    ensures
        r.wf(),
        r@ == stats_of(lines(output@)),
{
    let ls = lines_of(output);
    let ghost lv = views(ls@);
    let mut m = FileStats::new();
    let mut i: usize = 0;
    assert(lv.subrange(0, 0) =~= Seq::<Seq<char>>::empty());
    while i < ls.len()
        invariant
            lv == views(ls@),
            lv == lines(output@),
            i <= ls@.len(),
            m.wf(),
            m@ == stats_of(lv.subrange(0, i as int)),
        decreases ls@.len() - i,
    {
        assert(lv.subrange(0, i + 1).drop_last() =~= lv.subrange(0, i as int));
        assert(lv.subrange(0, i + 1).last() == ls@[i as int]@);
        match parse_numstat_line(ls[i].as_str()) {
            Some((p, c)) => {
                m.insert(p, c);
            },
            None => {},
        }
        i = i + 1;
    }
    assert(lv.subrange(0, ls@.len() as int) =~= lv);
    m
}

} // verus!
