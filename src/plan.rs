//! What to ask each backend for: the commands for a scope, and where each
//! side's content is read from.
use vstd::prelude::*;
use vstd::string::*;
use crate::range::{
    DiffMode, Vcs, git_range_spec, jj_range_spec, jj_revisions_spec, parse_git_range,
    parse_jj_range, jj_revisions,
};
use crate::text::{join3, views};

verus! {

/// Where one side of a file's content is read from.
#[derive(Debug)]
pub enum ContentSource {
    /// The file at a commit of the linear VCS.
    Commit(String),
    /// The file in the linear VCS's staging area.
    Index,
    /// The file in the working tree, under the repository root.
    WorkingTree,
    /// The file at a revision of the revset VCS.
    Revision(String),
}

/// The model of a content source.
pub ghost enum SourceView {
    Commit(Seq<char>),
    Index,
    WorkingTree,
    Revision(Seq<char>),
}

impl View for ContentSource {
    type V = SourceView;

    open spec fn view(&self) -> SourceView {
        match self {
            ContentSource::Commit(r) => SourceView::Commit(r@),
            ContentSource::Index => SourceView::Index,
            ContentSource::WorkingTree => SourceView::WorkingTree,
            ContentSource::Revision(r) => SourceView::Revision(r@),
        }
    }
}

/// The model of a scope.
pub ghost enum ModeView {
    Range(Seq<char>),
    Unstaged,
    Staged,
}

impl View for DiffMode {
    type V = ModeView;

    open spec fn view(&self) -> ModeView {
        match self {
            DiffMode::Range(r) => ModeView::Range(r@),
            DiffMode::Unstaged => ModeView::Unstaged,
            DiffMode::Staged => ModeView::Staged,
        }
    }
}

pub open spec fn opt_str_view(o: Option<&str>) -> Option<Seq<char>> {
    match o {
        Some(s) => Some(s@),
        None => None,
    }
}

/// `a..b`.
pub open spec fn dotted(a: Seq<char>, b: Seq<char>) -> Seq<char> {
    a + seq!['.', '.'] + b
}

/// The arguments that select a scope in the linear VCS's diff commands.
pub open spec fn git_scope_spec(mode: ModeView, base: Option<Seq<char>>) -> Seq<Seq<char>> {
    match mode {
        ModeView::Range(r) => {
            let (o, n) = git_range_spec(r, base);
            seq![dotted(o, n)]
        },
        ModeView::Unstaged => seq![],
        ModeView::Staged => seq!["--cached"@],
    }
}

/// The revision the revset VCS diffs for a scope, if the scope names one.
pub open spec fn jj_scope_spec(mode: ModeView) -> Option<Seq<char>> {
    match mode {
        ModeView::Range(r) => Some(r),
        ModeView::Unstaged => None,
        ModeView::Staged => Some("@"@),
    }
}

/// The command that lists the changed files in the external tool's
/// structured form.
pub open spec fn listing_spec(mode: ModeView, vcs: Vcs, base: Option<Seq<char>>) -> Seq<
    Seq<char>,
> {
    match vcs {
        Vcs::Linear => seq!["-c"@, "diff.external=difft"@, "diff"@] + git_scope_spec(mode, base),
        Vcs::Revset => match jj_scope_spec(mode) {
            Some(r) => seq!["diff"@, "-r"@, r, "--tool"@, "difft"@],
            None => seq!["diff"@, "--tool"@, "difft"@],
        },
    }
}

/// The command that lists renames.
pub open spec fn renames_spec(mode: ModeView, vcs: Vcs, base: Option<Seq<char>>) -> Seq<
    Seq<char>,
> {
    match vcs {
        Vcs::Linear => seq!["diff"@, "--name-status"@, "-M"@] + git_scope_spec(mode, base),
        Vcs::Revset => match jj_scope_spec(mode) {
            Some(r) => seq!["diff"@, "-r"@, r, "--summary"@],
            None => seq!["diff"@, "--summary"@],
        },
    }
}

/// Where the old and the new content of each file are read from.
pub open spec fn sources_spec(mode: ModeView, vcs: Vcs, base: Option<Seq<char>>) -> (
    SourceView,
    SourceView,
) {
    match (mode, vcs) {
        (ModeView::Range(r), Vcs::Linear) => {
            let (o, n) = git_range_spec(r, base);
            (SourceView::Commit(o), SourceView::Commit(n))
        },
        (ModeView::Range(r), Vcs::Revset) => {
            let (o, n) = jj_revisions_spec(r);
            (SourceView::Revision(o), SourceView::Revision(n))
        },
        (ModeView::Unstaged, Vcs::Linear) => (SourceView::Index, SourceView::WorkingTree),
        (ModeView::Unstaged, Vcs::Revset) => (SourceView::Revision("@"@), SourceView::WorkingTree),
        (ModeView::Staged, Vcs::Linear) => (SourceView::Commit("HEAD"@), SourceView::Index),
        (ModeView::Staged, Vcs::Revset) => (SourceView::Revision("@-"@), SourceView::Revision("@"@)),
    }
}

/// The command that prints a file's content from a source, for sources that
/// a command reads.
pub open spec fn content_spec(src: SourceView, path: Seq<char>) -> Option<Seq<Seq<char>>> {
    match src {
        SourceView::Commit(r) => Some(seq!["show"@, r + seq![':'] + path]),
        SourceView::Index => Some(seq!["show"@, seq![':'] + path]),
        SourceView::WorkingTree => None,
        SourceView::Revision(r) => Some(seq!["file"@, "show"@, "-r"@, r, path]),
    }
}

/// The range whose numeric statistics stand for a revset-VCS scope, given the
/// commits that its old and new revision resolved to.
pub open spec fn jj_stats_range_spec(
    revset: Seq<char>,
    old: Option<Seq<char>>,
    new: Option<Seq<char>>,
) -> Option<Seq<char>> {
    match (old, new) {
        (Some(o), Some(n)) => Some(dotted(o, n)),
        (None, Some(n)) => if jj_range_spec(revset) is None {
            Some(dotted(n + seq!['^'], n))
        } else {
            None
        },
        _ => None,
    }
}

/// The arguments that select a scope in the linear VCS's diff commands:
/// `old..new` for a range, nothing for unstaged changes, `--cached` for
/// staged ones. `merge_base` is the backend's answer for a three-dot range.
pub fn git_scope_args(mode: &DiffMode, merge_base: Option<&str>) -> (r: Vec<String>)
    ensures
        views(r@) == git_scope_spec(mode@, opt_str_view(merge_base)),
{
    let mut v: Vec<String> = Vec::new();
    match mode {
        DiffMode::Range(range) => {
            let (o, n) = parse_git_range(range.as_str(), merge_base);
            proof {
                reveal_strlit("..");
            }
            let d = join3(o.as_str(), "..", n.as_str());
            assert(d@ =~= dotted(o@, n@));
            v.push(d);
        },
        DiffMode::Unstaged => {},
        DiffMode::Staged => {
            v.push("--cached".to_owned());
        },
    }
    assert(views(v@) =~= git_scope_spec(mode@, opt_str_view(merge_base)));
    v
}

/// The revision the revset VCS diffs for a scope: the range expression, none
/// for unstaged changes, and the current revision `@` for staged ones (the
/// revset VCS has no staging area).
pub fn jj_scope_revision(mode: &DiffMode) -> (r: Option<String>)
    ensures
        opt_view_string(r) == jj_scope_spec(mode@),
{
    match mode {
        DiffMode::Range(range) => Some(range.clone()),
        DiffMode::Unstaged => None,
        DiffMode::Staged => Some("@".to_owned()),
    }
}

pub open spec fn opt_view_string(o: Option<String>) -> Option<Seq<char>> {
    match o {
        Some(s) => Some(s@),
        None => None,
    }
}

fn push_all(v: &mut Vec<String>, extra: Vec<String>)
    ensures
        views(final(v)@) == views(old(v)@) + views(extra@),
{
    let mut i: usize = 0;
    let ghost start = views(v@);
    while i < extra.len()
        invariant
            i <= extra@.len(),
            views(v@) == start + views(extra@).subrange(0, i as int),
        decreases extra@.len() - i,
    {
        let ghost before = v@;
        v.push(extra[i].clone());
        assert(views(v@) =~= views(before) + seq![extra@[i as int]@]);
        assert(views(extra@).subrange(0, i + 1) =~= views(extra@).subrange(0, i as int) + seq![
            extra@[i as int]@,
        ]);
        i = i + 1;
    }
    assert(views(extra@).subrange(0, extra@.len() as int) =~= views(extra@));
}

/// The command (its arguments) that lists the changed files of a scope in
/// the external diff tool's structured form.
pub fn listing_command(mode: &DiffMode, vcs: Vcs, merge_base: Option<&str>) -> (r: Vec<String>)
    ensures
        views(r@) == listing_spec(mode@, vcs, opt_str_view(merge_base)),
{
    match vcs {
        Vcs::Linear => {
            let mut v = vec!["-c".to_owned(), "diff.external=difft".to_owned(), "diff".to_owned()];
            assert(views(v@) =~= seq!["-c"@, "diff.external=difft"@, "diff"@]);
            push_all(&mut v, git_scope_args(mode, merge_base));
            v
        },
        Vcs::Revset => match jj_scope_revision(mode) {
            Some(r) => {
                let v = vec![
                    "diff".to_owned(),
                    "-r".to_owned(),
                    r,
                    "--tool".to_owned(),
                    "difft".to_owned(),
                ];
                assert(views(v@) =~= listing_spec(mode@, vcs, opt_str_view(merge_base)));
                v
            },
            None => {
                let v = vec!["diff".to_owned(), "--tool".to_owned(), "difft".to_owned()];
                assert(views(v@) =~= listing_spec(mode@, vcs, opt_str_view(merge_base)));
                v
            },
        },
    }
}

/// The command (its arguments) that lists the renames of a scope.
pub fn renames_command(mode: &DiffMode, vcs: Vcs, merge_base: Option<&str>) -> (r: Vec<String>)
    ensures
        views(r@) == renames_spec(mode@, vcs, opt_str_view(merge_base)),
{
    match vcs {
        Vcs::Linear => {
            let mut v = vec!["diff".to_owned(), "--name-status".to_owned(), "-M".to_owned()];
            assert(views(v@) =~= seq!["diff"@, "--name-status"@, "-M"@]);
            push_all(&mut v, git_scope_args(mode, merge_base));
            v
        },
        Vcs::Revset => match jj_scope_revision(mode) {
            Some(r) => {
                let v = vec!["diff".to_owned(), "-r".to_owned(), r, "--summary".to_owned()];
                assert(views(v@) =~= renames_spec(mode@, vcs, opt_str_view(merge_base)));
                v
            },
            None => {
                let v = vec!["diff".to_owned(), "--summary".to_owned()];
                assert(views(v@) =~= renames_spec(mode@, vcs, opt_str_view(merge_base)));
                v
            },
        },
    }
}

/// The linear VCS's numeric statistics command for a scope.
pub fn numstat_command(mode: &DiffMode, merge_base: Option<&str>) -> (r: Vec<String>)
    ensures
        views(r@) == seq!["diff"@, "--numstat"@] + git_scope_spec(mode@, opt_str_view(merge_base)),
{
    let mut v = vec!["diff".to_owned(), "--numstat".to_owned()];
    assert(views(v@) =~= seq!["diff"@, "--numstat"@]);
    push_all(&mut v, git_scope_args(mode, merge_base));
    v
}

/// The linear VCS's numeric statistics command for an explicit range.
pub fn numstat_range_command(range: &str) -> (r: Vec<String>)
    ensures
        views(r@) == seq!["diff"@, "--numstat"@, range@],
{
    let v = vec!["diff".to_owned(), "--numstat".to_owned(), range.to_owned()];
    assert(views(v@) =~= seq!["diff"@, "--numstat"@, range@]);
    v
}

/// The command that asks the linear VCS for the common ancestor of `a` and `b`.
pub fn merge_base_command(a: &str, b: &str) -> (r: Vec<String>)
    ensures
        views(r@) == seq!["merge-base"@, a@, b@],
{
    let v = vec!["merge-base".to_owned(), a.to_owned(), b.to_owned()];
    assert(views(v@) =~= seq!["merge-base"@, a@, b@]);
    v
}

/// The command that asks the revset VCS for the commit identifiers of a revset.
pub fn commit_query_command(revset: &str) -> (r: Vec<String>)
    ensures
        views(r@) == seq!["log"@, "-r"@, revset@, "--no-graph"@, "-T"@, "commit_id"@],
{
    let v = vec![
        "log".to_owned(),
        "-r".to_owned(),
        revset.to_owned(),
        "--no-graph".to_owned(),
        "-T".to_owned(),
        "commit_id".to_owned(),
    ];
    assert(views(v@) =~= seq!["log"@, "-r"@, revset@, "--no-graph"@, "-T"@, "commit_id"@]);
    v
}

/// Where the old and the new content of each file of a scope are read from.
///
/// A linear-VCS range reads both sides at the range's commits; a revset-VCS
/// expression at its two revisions. Unstaged changes read the staging area
/// (or the current revision `@`) against the working tree. Staged changes
/// read `HEAD` against the staging area (or `@-` against `@`).
pub fn content_sources(mode: &DiffMode, vcs: Vcs, merge_base: Option<&str>) -> (r: (
    ContentSource,
    ContentSource,
))
    ensures
        (r.0@, r.1@) == sources_spec(mode@, vcs, opt_str_view(merge_base)),
{
    match (mode, vcs) {
        (DiffMode::Range(range), Vcs::Linear) => {
            let (o, n) = parse_git_range(range.as_str(), merge_base);
            (ContentSource::Commit(o), ContentSource::Commit(n))
        },
        (DiffMode::Range(range), Vcs::Revset) => {
            let (o, n) = jj_revisions(range.as_str());
            (ContentSource::Revision(o), ContentSource::Revision(n))
        },
        (DiffMode::Unstaged, Vcs::Linear) => (ContentSource::Index, ContentSource::WorkingTree),
        (DiffMode::Unstaged, Vcs::Revset) => (
            ContentSource::Revision("@".to_owned()),
            ContentSource::WorkingTree,
        ),
        (DiffMode::Staged, Vcs::Linear) => (
            ContentSource::Commit("HEAD".to_owned()),
            ContentSource::Index,
        ),
        (DiffMode::Staged, Vcs::Revset) => (
            ContentSource::Revision("@-".to_owned()),
            ContentSource::Revision("@".to_owned()),
        ),
    }
}

/// The command (its arguments) that prints `path` from a source; `None` for
/// the working tree, which is read from disk.
pub fn content_command(src: &ContentSource, path: &str) -> (r: Option<Vec<String>>)
    ensures
        match r {
            Some(v) => content_spec(src@, path@) == Some(views(v@)),
            None => content_spec(src@, path@) is None,
        },
{
    proof {
        reveal_strlit(":");
        reveal_strlit("");
    }
    assert(":"@ =~= seq![':']);
    assert(""@ =~= Seq::<char>::empty());
    match src {
        ContentSource::Commit(c) => {
            let at_ref = join3(c.as_str(), ":", path);
            assert(at_ref@ =~= c@ + seq![':'] + path@);
            let v = vec!["show".to_owned(), at_ref];
            assert(views(v@) =~= seq!["show"@, c@ + seq![':'] + path@]);
            Some(v)
        },
        ContentSource::Index => {
            let staged = join3(":", path, "");
            assert(staged@ =~= seq![':'] + path@);
            let v = vec!["show".to_owned(), staged];
            assert(views(v@) =~= seq!["show"@, seq![':'] + path@]);
            Some(v)
        },
        ContentSource::WorkingTree => None,
        ContentSource::Revision(r) => {
            let v = vec![
                "file".to_owned(),
                "show".to_owned(),
                "-r".to_owned(),
                r.clone(),
                path.to_owned(),
            ];
            assert(views(v@) =~= seq!["file"@, "show"@, "-r"@, r@, path@]);
            Some(v)
        },
    }
}

/// The range whose numeric statistics the linear VCS reports for a
/// revset-VCS expression, given the commits its old and new revision
/// resolved to (see `jj_revisions`): `old..new` when both resolved; for an
/// expression that is not a range, `new^..new` when only the new one did;
/// otherwise none, and the scope goes without statistics.
pub fn jj_stats_range(revset: &str, old: Option<String>, new: Option<String>) -> (r: Option<String>)
    ensures
        opt_view_string(r) == jj_stats_range_spec(revset@, opt_view_string(old), opt_view_string(new)),
{
    proof {
        reveal_strlit("..");
        reveal_strlit("^..");
    }
    match (old, new) {
        (Some(o), Some(n)) => {
            let d = join3(o.as_str(), "..", n.as_str());
            assert(d@ =~= dotted(o@, n@));
            Some(d)
        },
        (None, Some(n)) => {
            if parse_jj_range(revset).is_none() {
                let d = join3(n.as_str(), "^..", n.as_str());
                assert(d@ =~= dotted(n@ + seq!['^'], n@));
                Some(d)
            } else {
                None
            }
        },
        _ => None,
    }
}

/// The command that prints the repository root.
pub fn root_command(vcs: Vcs) -> (r: Vec<String>)
    ensures
        views(r@) == match vcs {
            Vcs::Linear => seq!["rev-parse"@, "--show-toplevel"@],
            Vcs::Revset => seq!["root"@],
        },
{
    match vcs {
        Vcs::Linear => {
            let v = vec!["rev-parse".to_owned(), "--show-toplevel".to_owned()];
            assert(views(v@) =~= seq!["rev-parse"@, "--show-toplevel"@]);
            v
        },
        Vcs::Revset => {
            let v = vec!["root".to_owned()];
            assert(views(v@) =~= seq!["root"@]);
            v
        },
    }
}

} // verus!
