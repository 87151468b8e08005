//! Paths, and which watched path a changed file belongs to.
//!
//! A path is held as its text and as what the text stands for: the anchor
//! that it starts from and the names of the components below the anchor.
//! Two paths name the same place where anchor and names agree, and a
//! directory above a path has the same anchor and the first few of its
//! names.

use crate::text::{push_copies, texts};
use vstd::prelude::*;

verus! {

/// A path of the filesystem.
#[derive(Debug, PartialEq, Eq)]
pub struct FilePath {
    /// The path as it is written: what a command gets as its argument and
    /// what a header shows.
    pub text: String,
    /// What the path starts from: the text of its prefix and of its root;
    /// empty for a relative path.
    pub anchor: String,
    /// The components below the anchor, outermost first.
    pub names: Vec<String>,
}

/// A path as contracts see it.
pub struct PathView {
    /// The path as it is written.
    pub text: Seq<char>,
    /// What the path starts from.
    pub anchor: Seq<char>,
    /// The components below the anchor, outermost first.
    pub names: Seq<Seq<char>>,
}

impl View for FilePath {
    type V = PathView;

    open spec fn view(&self) -> PathView {
        PathView { text: self.text@, anchor: self.anchor@, names: texts(self.names@) }
    }
}

impl Clone for FilePath {
    fn clone(&self) -> (copy: Self)
        ensures
            copy@ == self@,
    {
        let mut names: Vec<String> = Vec::new();
        assert(texts(names@) =~= Seq::<Seq<char>>::empty());
        push_copies(&mut names, self.names.as_slice(), 0, self.names.len());
        assert(texts(names@) =~= texts(self.names@));
        FilePath { text: self.text.clone(), anchor: self.anchor.clone(), names }
    }
}

/// The paths of a sequence, as contracts see them.
pub open spec fn views(paths: Seq<FilePath>) -> Seq<PathView> {
    paths.map_values(|p: FilePath| p@)
}

/// The texts of the paths, in order.
pub open spec fn path_texts(paths: Seq<PathView>) -> Seq<Seq<char>> {
    paths.map_values(|p: PathView| p.text)
}

/// Whether two paths name the same place, however they are written.
pub open spec fn same_place(a: PathView, b: PathView) -> bool {
    a.anchor == b.anchor && a.names == b.names
}

/// Whether `root` names `child` itself or a directory above it: both start
/// from the same anchor, and the names of `root` are the first names of
/// `child`.
pub open spec fn lies_under(child: PathView, root: PathView) -> bool {
    root.anchor == child.anchor && root.names.is_prefix_of(child.names)
}

/// Whether `child` or a directory above it is one of `watched`.
pub open spec fn has_watched_ancestor(child: PathView, watched: Seq<PathView>) -> bool {
    exists|i: int| 0 <= i < watched.len() && lies_under(child, #[trigger] watched[i])
}

/// Whether `watched[i]` is the nearest of `watched` to `child`: it names
/// the child or a directory above it, none of `watched` that does so lies
/// deeper, and it is the first in `watched` to name that place.
pub open spec fn is_nearest_ancestor(child: PathView, watched: Seq<PathView>, i: int) -> bool {
    &&& 0 <= i < watched.len()
    &&& lies_under(child, watched[i])
    &&& forall|j: int|
        0 <= j < watched.len() && lies_under(child, #[trigger] watched[j]) ==> watched[j].names.len()
            <= watched[i].names.len()
    &&& forall|j: int| 0 <= j < i ==> !same_place(#[trigger] watched[j], watched[i])
}

/// Whether `root` names the directory that keeps the first `depth` names
/// of `child`.
fn is_ancestor_at(child: &FilePath, root: &FilePath, depth: usize) -> (same: bool)
    requires
        depth <= child.names.len(),
    ensures
        same == (lies_under(child@, root@) && root@.names.len() == depth),
{
    if !(root.anchor == child.anchor) || root.names.len() != depth {
        return false;
    }
    let mut k: usize = 0;
    while k < depth
        invariant
            k <= depth <= child.names.len(),
            root.names.len() == depth,
            forall|j: int| 0 <= j < k ==> root@.names[j] == child@.names[j],
        decreases depth - k,
    {
        if !(root.names[k] == child.names[k]) {
            assert(root@.names[k as int] != child@.names.subrange(0, depth as int)[k as int]);
            return false;
        }
        k += 1;
    }
    assert(root@.names =~= child@.names.subrange(0, depth as int));
    true
}

/// The first of `watched` that names the directory keeping the first
/// `depth` names of `child`.
fn first_at(child: &FilePath, watched: &[FilePath], depth: usize) -> (found: Option<usize>)
    requires
        depth <= child.names.len(),
    ensures
        match found {
            Some(i) => {
                &&& i < watched.len()
                &&& lies_under(child@, views(watched@)[i as int])
                &&& views(watched@)[i as int].names.len() == depth
                &&& forall|j: int|
                    0 <= j < i ==> !same_place(
                        #[trigger] views(watched@)[j],
                        views(watched@)[i as int],
                    )
            },
            None => forall|j: int|
                0 <= j < watched.len() && lies_under(child@, #[trigger] views(watched@)[j])
                    ==> views(watched@)[j].names.len() != depth,
        },
{
    let mut i: usize = 0;
    while i < watched.len()
        invariant
            i <= watched.len(),
            depth <= child.names.len(),
            forall|j: int|
                0 <= j < i && lies_under(child@, #[trigger] views(watched@)[j]) ==> views(
                    watched@,
                )[j].names.len() != depth,
        decreases watched.len() - i,
    {
        if is_ancestor_at(child, &watched[i], depth) {
            assert forall|j: int| 0 <= j < i implies !same_place(
                #[trigger] views(watched@)[j],
                views(watched@)[i as int],
            ) by {
                if same_place(views(watched@)[j], views(watched@)[i as int]) {
                    assert(lies_under(child@, views(watched@)[j]));
                }
            }
            return Some(i);
        }
        i += 1;
    }
    None
}

/// Walks up from `child` through itself and every directory above it, and
/// returns the first that is one of `ancestors`, as `ancestors` holds it;
/// `None` exactly where none of them is.
pub fn nearest_ancestor(child: &FilePath, ancestors: &[FilePath]) -> (nearest: Option<FilePath>)
    ensures
        match nearest {
            Some(root) => exists|i: int|
                #[trigger] is_nearest_ancestor(child@, views(ancestors@), i) && root@ == views(
                    ancestors@,
                )[i],
            None => !has_watched_ancestor(child@, views(ancestors@)),
        },
{
    let mut depth: usize = child.names.len();
    loop
        invariant
            depth <= child.names.len(),
            forall|j: int|
                0 <= j < ancestors.len() && lies_under(child@, #[trigger] views(ancestors@)[j])
                    ==> views(ancestors@)[j].names.len() <= depth,
        decreases depth,
    {
        match first_at(child, ancestors, depth) {
            Some(i) => {
                assert(is_nearest_ancestor(child@, views(ancestors@), i as int));
                return Some(ancestors[i].clone());
            },
            None => {},
        }
        if depth == 0 {
            return None;
        }
        depth -= 1;
    }
}

/// The nearest of `ancestors` to `child`, for a child that lies under one
/// of them.
pub fn find_ancestor(child: &FilePath, ancestors: &[FilePath]) -> (ancestor: FilePath)
    requires
        has_watched_ancestor(child@, views(ancestors@)),
    ensures
        exists|i: int|
            #[trigger] is_nearest_ancestor(child@, views(ancestors@), i) && ancestor@ == views(
                ancestors@,
            )[i],
{
    match nearest_ancestor(child, ancestors) {
        Some(ancestor) => ancestor,
        None => FilePath { text: String::new(), anchor: String::new(), names: Vec::new() },
    }
}

/// The texts of the paths, in order.
pub fn texts_of(paths: &[FilePath]) -> (written: Vec<String>)
    ensures
        texts(written@) == path_texts(views(paths@)),
{
    let mut written: Vec<String> = Vec::new();
    let mut i: usize = 0;
    while i < paths.len()
        invariant
            i <= paths.len(),
            texts(written@) == path_texts(views(paths@)).take(i as int),
        decreases paths.len() - i,
    {
        let ghost before = texts(written@);
        written.push(paths[i].text.clone());
        assert(texts(written@) =~= before.push(paths@[i as int].text@));
        assert(path_texts(views(paths@)).take(i + 1) =~= path_texts(views(paths@)).take(
            i as int,
        ).push(paths@[i as int].text@));
        i += 1;
    }
    assert(path_texts(views(paths@)).take(paths.len() as int) =~= path_texts(views(paths@)));
    written
}

/// There is one nearest watched ancestor: two answers for the same child
/// are the same entry of `watched`.
pub proof fn lemma_nearest_ancestor_unique(
    child: PathView,
    watched: Seq<PathView>,
    first: int,
    second: int,
)
    requires
        is_nearest_ancestor(child, watched, first),
        is_nearest_ancestor(child, watched, second),
    ensures
        first == second,
{
    let a = watched[first];
    let b = watched[second];
    assert(a.names.len() == b.names.len());
    assert(a.names =~= b.names);
    assert(same_place(a, b));
}

/// The nearest watched ancestor is the deepest: of two watched paths above
/// a child, one inside the other, the inner one is never passed over for
/// the outer.
pub proof fn lemma_inner_root_wins(
    child: PathView,
    watched: Seq<PathView>,
    nearest: int,
    inner: int,
    outer: int,
)
    requires
        is_nearest_ancestor(child, watched, nearest),
        0 <= inner < watched.len(),
        0 <= outer < watched.len(),
        lies_under(child, watched[inner]),
        lies_under(watched[inner], watched[outer]),
        !same_place(watched[inner], watched[outer]),
    ensures
        lies_under(child, watched[outer]),
        !same_place(watched[nearest], watched[outer]),
{
    let i = watched[inner];
    let o = watched[outer];
    assert(o.names =~= child.names.subrange(0, o.names.len() as int));
    if o.names.len() == i.names.len() {
        assert(o.names =~= i.names);
    }
}

/// A child with a watched path above it has a nearest one.
pub proof fn lemma_nearest_ancestor_exists(child: PathView, watched: Seq<PathView>)
    requires
        has_watched_ancestor(child, watched),
    ensures
        exists|i: int| #[trigger] is_nearest_ancestor(child, watched, i),
{
    lemma_nearest_among_first(child, watched, watched.len() as int);
    assert(watched.take(watched.len() as int) =~= watched);
    let nearest = choose|i: int| #[trigger] is_nearest_ancestor(child, watched, i);
    assert(is_nearest_ancestor(child, watched, nearest));
}

/// Where one of the first `end` of `watched` lies above `child`, one of
/// them is the nearest among them.
proof fn lemma_nearest_among_first(child: PathView, watched: Seq<PathView>, end: int)
    requires
        0 <= end <= watched.len(),
        exists|j: int| 0 <= j < end && lies_under(child, #[trigger] watched[j]),
    ensures
        exists|i: int| #[trigger] is_nearest_ancestor(child, watched.take(end), i),
    decreases end,
{
    let part = watched.take(end);
    let added = end - 1;
    if exists|j: int| 0 <= j < added && lies_under(child, #[trigger] watched[j]) {
        lemma_nearest_among_first(child, watched, added);
        let short = watched.take(added);
        let best = choose|i: int| #[trigger] is_nearest_ancestor(child, short, i);
        assert(forall|j: int| 0 <= j < added ==> short[j] == part[j]);
        let deeper = lies_under(child, part[added]) && part[added].names.len()
            > part[best].names.len();
        let nearest = if deeper {
            added
        } else {
            best
        };
        assert forall|j: int|
            0 <= j < part.len() && lies_under(child, #[trigger] part[j]) implies part[j].names.len()
            <= part[nearest].names.len() by {
            if j < added {
                assert(lies_under(child, short[j]));
            }
        }
        assert forall|j: int| 0 <= j < nearest implies !same_place(
            #[trigger] part[j],
            part[nearest],
        ) by {
            if deeper && same_place(part[j], part[added]) {
                assert(lies_under(child, short[j]));
            }
            if !deeper {
                assert(!same_place(short[j], short[best]));
            }
        }
        assert(is_nearest_ancestor(child, part, nearest));
    } else {
        assert forall|j: int| 0 <= j < added implies !same_place(
            #[trigger] part[j],
            part[added],
        ) by {
            if same_place(part[j], part[added]) {
                assert(lies_under(child, watched[j]));
            }
        }
        assert(is_nearest_ancestor(child, part, added));
    }
}

} // verus!
