//! Per-file preparation and rename reconciliation of the change list.
use vstd::prelude::*;
use rayon::iter::{IndexedParallelIterator, IntoParallelRefMutIterator, ParallelIterator};
use crate::paths::{display_paths, split_display_path};
use crate::pathmap::PathMap;
use crate::renames::RenameMap;
use crate::stats::FileStats;
use crate::pathkey::{components, same_path, same_path_spec};

verus! {

/// How a file changed.
#[derive(Clone, Copy, Debug, PartialEq, Eq, Structural)]
pub enum Status {
    Unchanged,
    Created,
    Deleted,
    Modified,
}

/// One entry of the diff listing: the path as the listing reported it, its
/// status, and the content the alignment engine consumes.
pub struct DiffFile<H> {
    pub path: String,
    pub status: Status,
    pub hunks: H,
}

/// What preparing one entry found: its counts, the paths its old and new
/// content are read from, and the path it moved from, if it moved.
pub struct Prepared {
    pub stats: Option<(u32, u32)>,
    pub old_path: String,
    pub new_path: String,
    pub moved_from: Option<String>,
}

/// One entry ready for display.
pub struct DisplayFile<R> {
    pub path: String,
    pub status: Status,
    pub moved_from: Option<String>,
    pub rows: R,
}

/// The model of a display entry.
pub ghost struct DisplayView<R> {
    pub path: Seq<char>,
    pub status: Status,
    pub moved_from: Option<Seq<char>>,
    pub rows: R,
}

pub open spec fn opt_view(o: Option<String>) -> Option<Seq<char>> {
    match o {
        Some(s) => Some(s@),
        None => None,
    }
}

impl<R> View for DisplayFile<R> {
    type V = DisplayView<R>;

    open spec fn view(&self) -> DisplayView<R> {
        DisplayView {
            path: self.path@,
            status: self.status,
            moved_from: opt_view(self.moved_from),
            rows: self.rows,
        }
    }
}

/// `before` became `after`, and `p` was found, by preparing it against the
/// statistics `stats`.
pub open spec fn prepared_from<H>(
    before: DiffFile<H>,
    after: DiffFile<H>,
    p: Prepared,
    stats: Map<Seq<Seq<char>>, (u32, u32)>,
) -> bool {
    let (o, n) = display_paths(before.path@);
    &&& p.stats == (if stats.contains_key(components(before.path@)) {
        Some(stats[components(before.path@)])
    } else {
        None
    })
    &&& p.old_path@ == o
    &&& p.new_path@ == n
    &&& after.hunks == before.hunks
    &&& if !same_path_spec(o, n) {
        &&& after.path@ == n
        &&& after.status == Status::Created
        &&& opt_view(p.moved_from) == Some(o)
    } else {
        &&& after.path@ == before.path@
        &&& after.status == before.status
        &&& p.moved_from is None
    }
}

/// Looks up the entry's counts and expands its reported path. An entry whose
/// path encodes a move takes the new path, becomes `Created`, and records the
/// old path as where it moved from.
pub fn prepare_file_for_display<H>(file: &mut DiffFile<H>, stats: &FileStats) -> (r: Prepared)
    requires
        stats.wf(),
    ensures
        prepared_from(*old(file), *final(file), r, stats@),
{
    let file_stats = match stats.get(file.path.as_str()) {
        Some(c) => Some(*c),
        None => None,
    };
    let (old_path, new_path) = split_display_path(file.path.as_str());
    let moved_from = if !same_path(old_path.as_str(), new_path.as_str()) {
        file.path = new_path.clone();
        file.status = Status::Created;
        Some(old_path.clone())
    } else {
        None
    };
    Prepared { stats: file_stats, old_path, new_path, moved_from }
}

/// Relies on rayon's `par_iter_mut`, `map` and `collect_into_vec`: the
/// closure runs once on each entry, and the results are collected in the
/// order of the entries.
#[verifier::external_body]
fn prepare_in_parallel<H: Send>(files: &mut Vec<DiffFile<H>>, stats: &FileStats) -> (r: Vec<
    Prepared,
>)
    requires
        stats.wf(),
    ensures
        r@.len() == old(files)@.len(),
        final(files)@.len() == old(files)@.len(),
        forall|i: int|
            0 <= i < r@.len() ==> prepared_from(
                #[trigger] old(files)@[i],
                final(files)@[i],
                r@[i],
                stats@,
            ),
{
    let mut out = Vec::new();
    files.par_iter_mut().map(|f| prepare_file_for_display(f, stats)).collect_into_vec(&mut out);
    out
}

/// Prepares every entry, in parallel, keeping the order of the listing.
pub fn prepare_all<H: Send>(files: &mut Vec<DiffFile<H>>, stats: &FileStats) -> (r: Vec<Prepared>)
    requires
        stats.wf(),
    ensures
        r@.len() == old(files)@.len(),
        final(files)@.len() == old(files)@.len(),
        forall|i: int|
            0 <= i < r@.len() ==> prepared_from(
                #[trigger] old(files)@[i],
                final(files)@[i],
                r@[i],
                stats@,
            ),
{
    prepare_in_parallel(files, stats)
}

/// `path` is the old path of some move in `m`.
pub open spec fn is_old_path(m: Map<Seq<Seq<char>>, Seq<char>>, path: Seq<char>) -> bool {
    exists|k: Seq<Seq<char>>| m.contains_key(k) && same_path_spec(#[trigger] m[k], path)
}

/// An entry whose path is the new path of a move records the old path and
/// becomes `Created`.
pub open spec fn renamed<R>(f: DisplayView<R>, m: Map<Seq<Seq<char>>, Seq<char>>) -> DisplayView<R> {
    if m.contains_key(components(f.path)) {
        DisplayView { moved_from: Some(m[components(f.path)]), status: Status::Created, ..f }
    } else {
        f
    }
}

/// A deleted entry whose path is the old path of a move: the other half of it.
pub open spec fn suppressed<R>(g: DisplayView<R>, m: Map<Seq<Seq<char>>, Seq<char>>) -> bool {
    g.status == Status::Deleted && is_old_path(m, g.path)
}

/// The entries, each renamed, without the suppressed ones, in order.
pub open spec fn reconciled<R>(fs: Seq<DisplayView<R>>, m: Map<Seq<Seq<char>>, Seq<char>>) -> Seq<
    DisplayView<R>,
>
    decreases fs.len(),
{
    if fs.len() == 0 {
        seq![]
    } else {
        let rest = reconciled(fs.drop_last(), m);
        let g = renamed(fs.last(), m);
        if suppressed(g, m) {
            rest
        } else {
            rest.push(g)
        }
    }
}

pub open spec fn display_views<R>(v: Seq<DisplayFile<R>>) -> Seq<DisplayView<R>> {
    v.map_values(|f: DisplayFile<R>| f@)
}

/// Applies the rename map to the display list: each entry whose path is a
/// move's new path records the old path and becomes `Created`; then each
/// `Deleted` entry whose path is a move's old path is dropped. The order of
/// what remains is kept.
pub fn reconcile<R>(files: Vec<DisplayFile<R>>, renames: &RenameMap) -> (r: Vec<DisplayFile<R>>)
    requires
        renames.wf(),
    ensures
        display_views(r@) == reconciled(display_views(files@), renames@),
{
    let ghost orig = display_views(files@);
    let ghost n = files@.len();
    let mut files = files;
    assert(n == files.len());
    let mut out: Vec<DisplayFile<R>> = Vec::new();
    let mut i: usize = 0;
    assert(orig.subrange(0, 0) =~= Seq::<DisplayView<R>>::empty());
    while files.len() > 0
        invariant
            renames.wf(),
            n == orig.len(),
            n <= usize::MAX,
            i + files@.len() == n,
            display_views(files@) == orig.subrange(i as int, n as int),
            display_views(out@) == reconciled(orig.subrange(0, i as int), renames@),
        decreases files@.len(),
    {
        let ghost before = files@;
        let mut f = files.remove(0);
        let ghost fv = f@;
        assert(fv == orig[i as int]) by {
            assert(display_views(before)[0] == fv);
        }
        proof {
            assert(files@ =~= before.subrange(1, before.len() as int));
            assert forall|k: int| 0 <= k < files@.len() implies display_views(files@)[k]
                == orig.subrange(i + 1, n as int)[k] by {
                assert(files@[k] == before[k + 1]);
                assert(display_views(before)[k + 1] == before[k + 1]@);
                assert(orig.subrange(i as int, n as int)[k + 1] == orig.subrange(
                    i + 1,
                    n as int,
                )[k]);
            }
            assert(display_views(files@) =~= orig.subrange(i + 1, n as int));
            assert(orig.subrange(0, i + 1).drop_last() =~= orig.subrange(0, i as int));
            assert(orig.subrange(0, i + 1).last() == fv);
        }
        match renames.get(f.path.as_str()) {
            Some(o) => {
                f.moved_from = Some(o.clone());
                f.status = Status::Created;
            },
            None => {},
        }
        assert(f@ == renamed(fv, renames@));
        let drop = match f.status {
            Status::Deleted => renames.contains_value(f.path.as_str()),
            _ => false,
        };
        if !drop {
            assert(display_views(out@.push(f)) =~= display_views(out@).push(f@));
            out.push(f);
        }
        i = i + 1;
    }
    assert(orig.subrange(0, n as int) =~= orig);
    out
}

/// Reconciliation never adds an entry, and drops an entry only when it is the
/// deleted half of a move: a `Deleted` entry whose path is the old path of
/// some move and is not itself the new path of one. Every other entry stays,
/// renamed; every entry that stays comes from the input.
pub proof fn lemma_reconcile_drops_only_move_halves<R>(
    fs: Seq<DisplayView<R>>,
    m: Map<Seq<Seq<char>>, Seq<char>>,
)
    ensures
        reconciled(fs, m).len() <= fs.len(),
        forall|i: int|
            0 <= i < fs.len() && !(fs[i].status == Status::Deleted && is_old_path(m, fs[i].path)
                && !m.contains_key(components(fs[i].path))) ==> reconciled(fs, m).contains(
                #[trigger] renamed(fs[i], m),
            ),
        forall|j: int|
            0 <= j < reconciled(fs, m).len() ==> exists|i: int|
                0 <= i < fs.len() && #[trigger] reconciled(fs, m)[j] == renamed(fs[i], m),
    decreases fs.len(),
{
    if fs.len() > 0 {
        let init = fs.drop_last();
        lemma_reconcile_drops_only_move_halves(init, m);
        let rest = reconciled(init, m);
        let g = renamed(fs.last(), m);
        assert forall|i: int|
            0 <= i < fs.len() && !(fs[i].status == Status::Deleted && is_old_path(m, fs[i].path)
                && !m.contains_key(components(fs[i].path))) implies reconciled(fs, m).contains(
            #[trigger] renamed(fs[i], m),
        ) by {
            if i < fs.len() - 1 {
                assert(init[i] == fs[i]);
                let k = choose|k: int| 0 <= k < rest.len() && rest[k] == renamed(init[i], m);
                if !suppressed(g, m) {
                    assert(rest.push(g)[k] == rest[k]);
                }
            } else {
                if !suppressed(g, m) {
                    assert(rest.push(g)[rest.len() as int] == g);
                }
            }
        }
        assert forall|j: int| 0 <= j < reconciled(fs, m).len() implies exists|i: int|
            0 <= i < fs.len() && #[trigger] reconciled(fs, m)[j] == renamed(fs[i], m) by {
            if j < rest.len() {
                let i = choose|i: int| 0 <= i < init.len() && rest[j] == renamed(init[i], m);
                assert(init[i] == fs[i]);
                if !suppressed(g, m) {
                    assert(rest.push(g)[j] == rest[j]);
                }
            } else {
                assert(reconciled(fs, m)[j] == renamed(fs[fs.len() - 1], m));
            }
        }
    }
}

} // verus!
