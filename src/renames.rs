//! Rename listings of both backends, and the new-path to old-path map built
//! from them.
use vstd::prelude::*;
use vstd::string::*;
use crate::text::{
    lines, lines_of, split_char, split_on, starts_with, starts_with_str, trim, trim_str,
    views,
};
use crate::paths::{display_paths, split_display_path};
use crate::pathmap::PathMap;
use crate::pathkey::{components, same_path, same_path_spec};
use crate::range::Vcs;

verus! {

/// New path (by its components) to old path.
pub type RenameMap = PathMap<String>;

/// A revset-VCS summary line `R <path>`, where the path encodes a move.
pub open spec fn jj_summary_rename_spec(line: Seq<char>) -> Option<(Seq<char>, Seq<char>)> {
    let t = trim(line);
    if starts_with(t, seq!['R', ' ']) {
        let (o, n) = display_paths(t.subrange(2, t.len() as int));
        if !same_path_spec(o, n) {
            Some((o, n))
        } else {
            None
        }
    } else {
        None
    }
}

/// A linear-VCS name-status line `R<score>\t<old>\t<new>`, with old and new
/// non-empty once trimmed, and naming different paths.
pub open spec fn git_name_status_rename_spec(line: Seq<char>) -> Option<(Seq<char>, Seq<char>)> {
    let parts = split_char(trim(line), '\t');
    if parts.len() >= 3 && parts[0].len() > 0 && parts[0][0] == 'R' {
        let o = trim(parts[1]);
        let n = trim(parts[2]);
        if o.len() > 0 && n.len() > 0 && !same_path_spec(o, n) {
            Some((o, n))
        } else {
            None
        }
    } else {
        None
    }
}

/// The move, old path then new path, that one line of a backend's rename
/// listing reports.
pub open spec fn rename_of_line(vcs: Vcs, line: Seq<char>) -> Option<(Seq<char>, Seq<char>)> {
    match vcs {
        Vcs::Linear => git_name_status_rename_spec(line),
        Vcs::Revset => jj_summary_rename_spec(line),
    }
}

/// New path to old path for each move that the lines report, a later line
/// replacing an earlier one with the same new path.
pub open spec fn rename_map_of(vcs: Vcs, ls: Seq<Seq<char>>) -> Map<Seq<Seq<char>>, Seq<char>>
    decreases ls.len(),
{
    if ls.len() == 0 {
        Map::empty()
    } else {
        let m = rename_map_of(vcs, ls.drop_last());
        match rename_of_line(vcs, ls.last()) {
            Some((o, n)) => m.insert(components(n), o),
            None => m,
        }
    }
}

/// The old and new path of a revset-VCS summary line that reports a move.
pub fn parse_jj_summary_rename(line: &str) -> (r: Option<(String, String)>)
    ensures
        match r {
            Some((o, n)) => jj_summary_rename_spec(line@) == Some((o@, n@)),
            None => jj_summary_rename_spec(line@) is None,
        },
{
    proof {
        reveal_strlit("R ");
    }
    assert("R "@ =~= seq!['R', ' ']);
    let t = trim_str(line);
    if !starts_with_str(t, "R ") {
        return None;
    }
    let (o, n) = split_display_path(t.substring_char(2, t.unicode_len()));
    if same_path(o.as_str(), n.as_str()) {
        None
    } else {
        Some((o, n))
    }
}

/// The old and new path of a linear-VCS name-status line that reports a rename.
pub fn parse_git_name_status_rename(line: &str) -> (r: Option<(String, String)>)
    ensures
        match r {
            Some((o, n)) => git_name_status_rename_spec(line@) == Some((o@, n@)),
            None => git_name_status_rename_spec(line@) is None,
        },
{
    let parts = split_on(trim_str(line), '\t');
    proof {
        assert(views(parts@).len() == parts@.len());
    }
    if parts.len() < 3 {
        return None;
    }
    let status = parts[0].as_str();
    proof {
        assert(views(parts@)[0] == parts@[0]@);
        assert(views(parts@)[1] == parts@[1]@);
        assert(views(parts@)[2] == parts@[2]@);
    }
    if status.unicode_len() == 0 || status.get_char(0) != 'R' {
        return None;
    }
    let o = trim_str(parts[1].as_str());
    let n = trim_str(parts[2].as_str());
    if o.unicode_len() > 0 && n.unicode_len() > 0 && !same_path(o, n) {
        Some((o.to_owned(), n.to_owned()))
    } else {
        None
    }
}

/// The move that one line of a backend's rename listing reports.
fn parse_rename_line(vcs: Vcs, line: &str) -> (r: Option<(String, String)>)
    ensures
        match r {
            Some((o, n)) => rename_of_line(vcs, line@) == Some((o@, n@)),
            None => rename_of_line(vcs, line@) is None,
        },
{
    match vcs {
        Vcs::Linear => parse_git_name_status_rename(line),
        Vcs::Revset => parse_jj_summary_rename(line),
    }
}

/// New path to old path for each move in a backend's rename listing.
pub fn parse_renames(vcs: Vcs, output: &str) -> (r: RenameMap)
    ensures
        r.wf(),
        r@ == rename_map_of(vcs, lines(output@)),
{
    let ls = lines_of(output);
    let ghost lv = views(ls@);
    let mut m = RenameMap::new();
    let mut i: usize = 0;
    assert(lv.subrange(0, 0) =~= Seq::<Seq<char>>::empty());
    while i < ls.len()
        invariant
            lv == views(ls@),
            lv == lines(output@),
            i <= ls@.len(),
            m.wf(),
            m@ == rename_map_of(vcs, lv.subrange(0, i as int)),
        decreases ls@.len() - i,
    {
        assert(lv.subrange(0, i + 1).drop_last() =~= lv.subrange(0, i as int));
        assert(lv.subrange(0, i + 1).last() == ls@[i as int]@);
        match parse_rename_line(vcs, ls[i].as_str()) {
            Some((o, n)) => {
                m.insert(n, o);
            },
            None => {},
        }
        i = i + 1;
    }
    assert(lv.subrange(0, ls@.len() as int) =~= lv);
    m
}

/// New path to old path for each move in a revset-VCS `diff --summary` listing.
pub fn parse_jj_summary_renames(output: &str) -> (r: RenameMap)
    ensures
        r.wf(),
        r@ == rename_map_of(Vcs::Revset, lines(output@)),
{
    parse_renames(Vcs::Revset, output)
}

/// New path to old path for each rename in a linear-VCS `diff --name-status -M` listing.
pub fn parse_git_name_status_renames(output: &str) -> (r: RenameMap)
    ensures
        r.wf(),
        r@ == rename_map_of(Vcs::Linear, lines(output@)),
{
    parse_renames(Vcs::Linear, output)
}

} // verus!
