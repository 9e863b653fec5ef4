//! Path equality by components: repeated and trailing separators and `.`
//! components do not make two paths differ.
use vstd::prelude::*;
use vstd::string::*;
use crate::text::{split_char, split_on, str_eq, views};

verus! {

/// The pieces of a path that name something: neither empty nor `.`.
pub open spec fn normal_parts(parts: Seq<Seq<char>>) -> Seq<Seq<char>>
    decreases parts.len(),
{
    if parts.len() == 0 {
        seq![]
    } else {
        let rest = normal_parts(parts.drop_last());
        let p = parts.last();
        if p.len() == 0 || p == seq!['.'] {
            rest
        } else {
            rest.push(p)
        }
    }
}

/// The components of a path: a root marker `/` for an absolute path, or a
/// leading `.` for a path that starts with one, then the named pieces.
pub open spec fn components(s: Seq<char>) -> Seq<Seq<char>> {
    let parts = split_char(s, '/');
    let head = if s.len() > 0 && s[0] == '/' {
        seq![seq!['/']]
    } else if parts.len() > 0 && parts[0] == seq!['.'] {
        seq![seq!['.']]
    } else {
        seq![]
    };
    head + normal_parts(parts)
}

/// `a` and `b` name the same path.
pub open spec fn same_path_spec(a: Seq<char>, b: Seq<char>) -> bool {
    components(a) == components(b)
}

/// Whether `p` is exactly `.`.
fn is_dot(p: &str) -> (r: bool)
    ensures
        r == (p@ == seq!['.']),
{
    if p.unicode_len() == 1 && p.get_char(0) == '.' {
        assert(p@ =~= seq!['.']);
        true
    } else {
        false
    }
}

/// The components of a path.
pub fn path_components(s: &str) -> (r: Vec<String>)
    ensures
        views(r@) == components(s@),
{
    let parts = split_on(s, '/');
    let ghost pv = views(parts@);
    assert(pv.len() == parts@.len());
    let mut out: Vec<String> = Vec::new();
    if s.unicode_len() > 0 && s.get_char(0) == '/' {
        out.push("/".to_owned());
        proof {
            reveal_strlit("/");
            assert("/"@ =~= seq!['/']);
        }
    } else if parts.len() > 0 && is_dot(parts[0].as_str()) {
        out.push(".".to_owned());
        proof {
            reveal_strlit(".");
            assert("."@ =~= seq!['.']);
            assert(pv[0] == parts@[0]@);
        }
    } else {
        proof {
            if parts@.len() > 0 {
                assert(pv[0] == parts@[0]@);
            }
        }
    }
    let ghost head = views(out@);
    assert(head =~= (if s@.len() > 0 && s@[0] == '/' {
        seq![seq!['/']]
    } else if pv.len() > 0 && pv[0] == seq!['.'] {
        seq![seq!['.']]
    } else {
        Seq::<Seq<char>>::empty()
    })) by {
        if out@.len() > 0 {
            assert(views(out@)[0] == out@[0]@);
        }
    }
    assert(components(s@) =~= head + normal_parts(pv));
    let mut i: usize = 0;
    assert(pv.subrange(0, 0) =~= Seq::<Seq<char>>::empty());
    while i < parts.len()
        invariant
            pv == views(parts@),
            i <= parts@.len(),
            views(out@) == head + normal_parts(pv.subrange(0, i as int)),
        decreases parts@.len() - i,
    {
        assert(pv.subrange(0, i + 1).drop_last() =~= pv.subrange(0, i as int));
        assert(pv.subrange(0, i + 1).last() == parts@[i as int]@);
        let p = parts[i].as_str();
        if p.unicode_len() > 0 && !is_dot(p) {
            let owned = p.to_owned();
            assert(views(out@.push(owned)) =~= views(out@).push(owned@));
            out.push(owned);
        }
        i = i + 1;
    }
    assert(pv.subrange(0, parts@.len() as int) =~= pv);
    out
}

/// Whether `a` and `b` name the same path, component by component.
pub fn same_path(a: &str, b: &str) -> (r: bool)
    ensures
        r == same_path_spec(a@, b@),
{
    let ca = path_components(a);
    let cb = path_components(b);
    assert(views(ca@).len() == ca@.len() && views(cb@).len() == cb@.len());
    if ca.len() != cb.len() {
        return false;
    }
    let mut i: usize = 0;
    while i < ca.len()
        invariant
            ca@.len() == cb@.len(),
            views(ca@) == components(a@),
            views(cb@) == components(b@),
            i <= ca@.len(),
            forall|k: int| 0 <= k < i ==> views(ca@)[k] == views(cb@)[k],
        decreases ca@.len() - i,
    {
        if !str_eq(ca[i].as_str(), cb[i].as_str()) {
            assert(views(ca@)[i as int] != views(cb@)[i as int]);
            return false;
        }
        i = i + 1;
    }
    assert(views(ca@) =~= views(cb@));
    true
}

} // verus!
