//! Delete planning: what removing one entry means, and how a directory
//! tree is removed without following links and without recursion.

use vstd::prelude::*;
use vstd::string::*;
use crate::config::SecurityConfig;
use crate::copy_move::{
    child_depth, child_views, is_subdir, probed, probed_paths, ChildEntry, ChildEntryView,
    ProbedSource,
};
use crate::error::FsError;
use crate::limits::MAX_DIRECTORY_DEPTH;
use crate::path::{Platform, join, join_path};
use crate::validation::{
    all_accepted, first_refused, is_link_like, normalized, validate_paths_sandboxed, EntryMeta,
};

verus! {

/// How one entry is deleted.
#[derive(Debug, Clone, Copy, PartialEq, Eq, Structural)]
pub enum DeleteAction {
    /// Nothing: the entry is gone already.
    Skip,
    /// Move the entry to the trash.
    Trash,
    /// Remove the entry itself as a file. For a link this removes the link
    /// and leaves its target alone.
    RemoveFile,
    /// Remove the entry itself as an empty directory: a directory link on Windows.
    RemoveDir,
    /// Remove a directory with all that it holds, with a [`DeleteWalker`].
    RemoveTree,
}

/// How an entry with this link-level metadata is deleted for good. A
/// reparse point and a symbolic link are removed themselves and never
/// followed; a directory is removed as a tree; anything else as a file.
pub open spec fn permanent_plan(meta: EntryMeta, p: Platform) -> DeleteAction {
    if meta.reparse_point(p) {
        if meta.is_dir {
            DeleteAction::RemoveDir
        } else {
            DeleteAction::RemoveFile
        }
    } else if meta.is_symlink {
        DeleteAction::RemoveFile
    } else if meta.is_dir {
        DeleteAction::RemoveTree
    } else {
        DeleteAction::RemoveFile
    }
}

/// How an entry is deleted. `meta` is its link-level metadata, absent when
/// the entry no longer exists.
pub open spec fn delete_plan(meta: Option<EntryMeta>, permanent: bool, p: Platform) -> DeleteAction {
    match meta {
        None => DeleteAction::Skip,
        Some(m) => if permanent {
            permanent_plan(m, p)
        } else {
            DeleteAction::Trash
        },
    }
}

/// Plans the permanent deletion of an entry from its link-level metadata.
pub fn delete_permanent(meta: &EntryMeta, p: Platform) -> (action: DeleteAction)
    ensures
        action == permanent_plan(*meta, p),
        meta.link_like(p) ==> action != DeleteAction::RemoveTree,
{
    if crate::validation::is_reparse_point(meta, p) {
        if meta.is_dir {
            DeleteAction::RemoveDir
        } else {
            DeleteAction::RemoveFile
        }
    } else if meta.is_symlink {
        DeleteAction::RemoveFile
    } else if meta.is_dir {
        DeleteAction::RemoveTree
    } else {
        DeleteAction::RemoveFile
    }
}

/// Plans the deletion of one validated entry. `meta` is its link-level
/// metadata, absent when the entry no longer exists.
pub fn delete_entry(meta: Option<EntryMeta>, permanent: bool, p: Platform) -> (action: DeleteAction)
    ensures
        action == delete_plan(meta, permanent, p),
{
    match meta {
        None => DeleteAction::Skip,
        Some(m) => if permanent {
            delete_permanent(&m, p)
        } else {
            DeleteAction::Trash
        },
    }
}

/// One entry to delete, with the way to delete it.
#[derive(Debug, Clone, PartialEq, Eq)]
pub struct PlannedRemoval {
    /// The validated path of the entry itself: of a link, not of its target.
    pub path: String,
    pub action: DeleteAction,
}

/// Plans the deletion of entries. Every path is validated first, in order,
/// without following links and against the sandbox; the first refusal is the
/// result and nothing is deleted. Then each entry gets its action from its
/// link-level metadata: the trash unless the deletion is permanent; for a
/// permanent one, a link is removed itself and never followed, a directory
/// is removed as a tree by a [`DeleteWalker`], anything else as a file.
pub fn delete_entries_sync(
    sources: &Vec<ProbedSource>,
    permanent: bool,
    config: &SecurityConfig,
    p: Platform,
) -> (r: Result<Vec<PlannedRemoval>, FsError>)
    ensures
        match r {
            Ok(plan) => {
                &&& all_accepted(probed(sources@), sources.len() as int, *config, p)
                &&& plan.len() == sources.len()
                &&& forall|i: int|
                    0 <= i < sources.len() ==> (#[trigger] plan[i]).path@ == normalized(
                        sources[i].path@,
                        p,
                    ) && plan[i].action == delete_plan(sources[i].meta, permanent, p)
            },
            Err(e) => first_refused(probed(sources@), *config, p, e),
        },
{
    let paths = probed_paths(sources);
    let mut validated = match validate_paths_sandboxed(&paths, config, p) {
        Ok(v) => v,
        Err(e) => {
            return Err(e);
        },
    };
    let ghost checked = validated@;
    let mut reversed: Vec<PlannedRemoval> = Vec::new();
    let n = sources.len();
    while validated.len() > 0
        invariant
            n == sources.len(),
            checked.len() == n,
            validated.len() <= n,
            validated@ == checked.take(validated.len() as int),
            reversed.len() == n - validated.len(),
            forall|i: int|
                0 <= i < n ==> (#[trigger] checked[i])@ == normalized(sources[i].path@, p),
            forall|j: int|
                0 <= j < reversed.len() ==> (#[trigger] reversed[j]).path == checked[n - 1 - j]
                    && reversed[j].action == delete_plan(sources[n - 1 - j].meta, permanent, p),
        decreases validated.len(),
    {
        let i = validated.len() - 1;
        let path = validated.pop().unwrap();
        assert(path == checked[i as int]);
        assert(validated@ =~= checked.take(i as int));
        reversed.push(PlannedRemoval { path, action: delete_entry(sources[i].meta, permanent, p) });
    }
    let mut plan: Vec<PlannedRemoval> = Vec::new();
    while reversed.len() > 0
        invariant
            n == sources.len(),
            checked.len() == n,
            reversed.len() + plan.len() == n,
            forall|i: int|
                0 <= i < n ==> (#[trigger] checked[i])@ == normalized(sources[i].path@, p),
            forall|j: int|
                0 <= j < reversed.len() ==> (#[trigger] reversed[j]).path == checked[n - 1 - j]
                    && reversed[j].action == delete_plan(sources[n - 1 - j].meta, permanent, p),
            forall|i: int|
                0 <= i < plan.len() ==> (#[trigger] plan[i]).path == checked[i] && plan[i].action
                    == delete_plan(sources[i].meta, permanent, p),
        decreases reversed.len(),
    {
        let j = reversed.len() - 1;
        let next = reversed.pop().unwrap();
        assert(next.path == checked[n - 1 - j]);
        plan.push(next);
    }
    Ok(plan)
}

/// A directory on the stack of a tree removal.
#[derive(Debug, Clone, PartialEq, Eq)]
pub struct DeleteFrame {
    pub path: String,
    pub depth: usize,
    /// Whether the directory has been listed: its children are dealt with
    /// by the frames above it, and it waits to be removed itself.
    pub listed: bool,
}

/// A [`DeleteFrame`] with its path as characters.
pub struct DeleteFrameView {
    pub path: Seq<char>,
    pub depth: usize,
    pub listed: bool,
}

impl View for DeleteFrame {
    type V = DeleteFrameView;

    open spec fn view(&self) -> DeleteFrameView {
        DeleteFrameView { path: self.path@, depth: self.depth, listed: self.listed }
    }
}

/// One entry to remove at once: a file, a link, or a directory link.
#[derive(Debug, Clone, PartialEq, Eq)]
pub struct Removal {
    pub path: String,
    /// Whether the entry is removed as an empty directory rather than as a file.
    pub as_dir: bool,
}

/// A [`Removal`] with its path as characters.
pub struct RemovalView {
    pub path: Seq<char>,
    pub as_dir: bool,
}

impl View for Removal {
    type V = RemovalView;

    open spec fn view(&self) -> RemovalView {
        RemovalView { path: self.path@, as_dir: self.as_dir }
    }
}

/// What the walker asks of its caller next.
#[derive(Debug, Clone, PartialEq, Eq)]
pub enum DeleteStep {
    /// List this directory and hand the listing to [`DeleteWalker::absorb`].
    List(DeleteFrame),
    /// Remove this directory, which is empty by now.
    RemoveDir(String),
    /// The tree is gone.
    Done,
}

/// The views of the frames of `v`, in order.
pub open spec fn frame_views(v: Seq<DeleteFrame>) -> Seq<DeleteFrameView> {
    v.map_values(|f: DeleteFrame| f@)
}

/// The views of the removals of `v`, in order.
pub open spec fn removal_views(v: Seq<Removal>) -> Seq<RemovalView> {
    v.map_values(|r: Removal| r@)
}

/// The frame for the child directory `c` of the directory `dir`.
pub open spec fn frame_for(dir: DeleteFrameView, c: ChildEntryView, p: Platform) -> DeleteFrameView {
    DeleteFrameView { path: join(dir.path, c.name, p), depth: child_depth(dir.depth), listed: false }
}

/// The removal of the child `c` of the directory `dir`, which is no
/// directory to descend into. A link is removed itself: as a directory when
/// it is a directory link on Windows, otherwise as a file.
pub open spec fn removal_for(dir: DeleteFrameView, c: ChildEntryView, p: Platform) -> RemovalView {
    RemovalView {
        path: join(dir.path, c.name, p),
        as_dir: c.meta.link_like(p) && p == Platform::Windows && c.meta.is_dir,
    }
}

/// The frames that a listing puts on the stack, in listing order: one for
/// each child that is a directory and no link.
pub open spec fn child_frames(dir: DeleteFrameView, children: Seq<ChildEntryView>, p: Platform) -> Seq<
    DeleteFrameView,
>
    decreases children.len(),
{
    if children.len() == 0 {
        Seq::empty()
    } else {
        let before = child_frames(dir, children.drop_last(), p);
        if is_subdir(children.last(), p) {
            before.push(frame_for(dir, children.last(), p))
        } else {
            before
        }
    }
}

/// The entries that a listing gives to remove at once, in listing order:
/// every child that is a link or no directory.
pub open spec fn removals(dir: DeleteFrameView, children: Seq<ChildEntryView>, p: Platform) -> Seq<
    RemovalView,
>
    decreases children.len(),
{
    if children.len() == 0 {
        Seq::empty()
    } else {
        let before = removals(dir, children.drop_last(), p);
        if is_subdir(children.last(), p) {
            before
        } else {
            before.push(removal_for(dir, children.last(), p))
        }
    }
}

/// `f` is the frame of some child of the listing that is a directory and no link.
pub open spec fn descends_into(
    dir: DeleteFrameView,
    children: Seq<ChildEntryView>,
    p: Platform,
    f: DeleteFrameView,
) -> bool {
    exists|k: int|
        0 <= k < children.len() && is_subdir(#[trigger] children[k], p) && f == frame_for(
            dir,
            children[k],
            p,
        )
}

/// The removal of a tree never descends into a link: every frame that a
/// listing puts on the stack stems from a child that is a directory and no
/// link, and lies one level below the listed directory.
pub proof fn lemma_never_descends_into_links(
    dir: DeleteFrameView,
    children: Seq<ChildEntryView>,
    p: Platform,
)
    ensures
        forall|i: int|
            0 <= i < child_frames(dir, children, p).len() ==> descends_into(
                dir,
                children,
                p,
                #[trigger] child_frames(dir, children, p)[i],
            ),
        forall|i: int|
            0 <= i < child_frames(dir, children, p).len() ==> (#[trigger] child_frames(
                dir,
                children,
                p,
            )[i]).depth == child_depth(dir.depth),
    decreases children.len(),
{
    if children.len() > 0 {
        let init = children.drop_last();
        lemma_never_descends_into_links(dir, init, p);
        let all = child_frames(dir, children, p);
        assert forall|i: int| 0 <= i < all.len() implies descends_into(
            dir,
            children,
            p,
            #[trigger] all[i],
        ) by {
            if i < child_frames(dir, init, p).len() {
                assert(descends_into(dir, init, p, child_frames(dir, init, p)[i]));
                let k = choose|k: int|
                    0 <= k < init.len() && is_subdir(#[trigger] init[k], p) && child_frames(
                        dir,
                        init,
                        p,
                    )[i] == frame_for(dir, init[k], p);
                assert(children[k] == init[k]);
            } else {
                assert(is_subdir(children[children.len() - 1], p));
            }
        }
    }
}

/// A child of the listing that is a directory and no link gets a frame.
pub proof fn lemma_subdir_gets_a_frame(
    dir: DeleteFrameView,
    children: Seq<ChildEntryView>,
    p: Platform,
    k: int,
)
    requires
        0 <= k < children.len(),
        is_subdir(children[k], p),
    ensures
        child_frames(dir, children, p).contains(frame_for(dir, children[k], p)),
    decreases children.len(),
{
    let init = children.drop_last();
    let all = child_frames(dir, children, p);
    if k == children.len() - 1 {
        assert(all.last() == frame_for(dir, children[k], p));
    } else {
        lemma_subdir_gets_a_frame(dir, init, p, k);
        let before = child_frames(dir, init, p);
        let i = choose|i: int| 0 <= i < before.len() && before[i] == frame_for(dir, init[k], p);
        assert(all[i] == before[i]);
    }
}

/// The outcome of a whole removal of a tree whose directories list as
/// `listing` says, taking the steps that [`DeleteWalker::next_step`] and
/// [`DeleteWalker::absorb`] take. `None` says that `fuel` steps do not end it.
pub open spec fn removal_outcome(
    stack: Seq<DeleteFrameView>,
    listing: spec_fn(Seq<char>) -> Seq<ChildEntryView>,
    p: Platform,
    fuel: nat,
) -> Option<Result<(), FsError>>
    decreases fuel,
{
    if stack.len() == 0 {
        Some(Ok(()))
    } else if fuel == 0 {
        None
    } else {
        let top = stack.last();
        if top.listed {
            removal_outcome(stack.drop_last(), listing, p, (fuel - 1) as nat)
        } else if top.depth > MAX_DIRECTORY_DEPTH {
            Some(Err(FsError::DirectoryTooDeep))
        } else {
            removal_outcome(
                stack.drop_last().push(
                    DeleteFrameView { path: top.path, depth: top.depth, listed: true },
                ) + child_frames(top, listing(top.path), p),
                listing,
                p,
                (fuel - 1) as nat,
            )
        }
    }
}

/// At the directory of `frame` or within `n` levels below it lies a
/// directory deeper than the maximum depth, reached through directories that
/// are no links.
pub open spec fn too_deep_under(
    frame: DeleteFrameView,
    listing: spec_fn(Seq<char>) -> Seq<ChildEntryView>,
    p: Platform,
    n: nat,
) -> bool
    decreases n,
{
    frame.depth > MAX_DIRECTORY_DEPTH || (n > 0 && exists|k: int|
        0 <= k < listing(frame.path).len() && is_subdir(#[trigger] listing(frame.path)[k], p)
            && too_deep_under(
            frame_for(frame, listing(frame.path)[k], p),
            listing,
            p,
            (n - 1) as nat,
        ))
}

/// A tree that is nested deeper than the maximum depth is never removed to
/// the end: a removal whose stack holds a directory that is still to be
/// listed, with such a tree below it, fails with `DirectoryTooDeep`, however
/// many steps it is given.
pub proof fn lemma_deep_tree_is_not_removed(
    stack: Seq<DeleteFrameView>,
    listing: spec_fn(Seq<char>) -> Seq<ChildEntryView>,
    p: Platform,
    fuel: nat,
    i: int,
    n: nat,
)
    requires
        0 <= i < stack.len(),
        !stack[i].listed,
        too_deep_under(stack[i], listing, p, n),
    ensures
        removal_outcome(stack, listing, p, fuel) matches Some(r) ==> r == Err::<(), FsError>(
            FsError::DirectoryTooDeep,
        ),
    decreases fuel,
{
    if fuel > 0 {
        let top = stack.last();
        let rest = stack.drop_last();
        if top.listed {
            assert(rest[i] == stack[i]);
            lemma_deep_tree_is_not_removed(rest, listing, p, (fuel - 1) as nat, i, n);
        } else if top.depth <= MAX_DIRECTORY_DEPTH {
            let children = listing(top.path);
            let added = child_frames(top, children, p);
            let again = DeleteFrameView { path: top.path, depth: top.depth, listed: true };
            let next = rest.push(again) + added;
            if i == stack.len() - 1 {
                let k = choose|k: int|
                    0 <= k < children.len() && is_subdir(#[trigger] children[k], p)
                        && too_deep_under(frame_for(top, children[k], p), listing, p, (n - 1) as nat);
                lemma_subdir_gets_a_frame(top, children, p, k);
                let j = choose|j: int|
                    0 <= j < added.len() && added[j] == frame_for(top, children[k], p);
                assert(next[stack.len() + j] == added[j]);
                lemma_deep_tree_is_not_removed(next, listing, p, (fuel - 1) as nat, stack.len()
                    + j, (n - 1) as nat);
            } else {
                assert(next[i] == stack[i]);
                lemma_deep_tree_is_not_removed(next, listing, p, (fuel - 1) as nat, i, n);
            }
        }
    }
}

/// The iterative removal of a directory tree: a stack of directories, the
/// top one last. A directory is first listed; its files and links are
/// removed at once, its subdirectories go on the stack above it, and when it
/// comes to the top again it is empty and removed itself.
pub struct DeleteWalker {
    stack: Vec<DeleteFrame>,
}

impl DeleteWalker {
    /// The frames on the stack, the top one last.
    pub closed spec fn pending(self) -> Seq<DeleteFrame> {
        self.stack@
    }

    /// A walk that removes the directory `root`.
    pub fn new(root: &str) -> (w: DeleteWalker)
        ensures
            frame_views(w.pending()) == seq![
                DeleteFrameView { path: root@, depth: 0, listed: false },
            ],
    {
        let mut stack: Vec<DeleteFrame> = Vec::new();
        stack.push(DeleteFrame { path: String::from_str(root), depth: 0, listed: false });
        assert(frame_views(stack@) =~= seq![
            DeleteFrameView { path: root@, depth: 0, listed: false },
        ]);
        DeleteWalker { stack }
    }

    /// Takes the top frame off the stack and says what to do with it. An
    /// empty stack ends the walk. A directory that was listed is removed. A
    /// directory that was not is listed, unless it lies deeper than the
    /// maximum depth, which ends the walk with `DirectoryTooDeep`.
    pub fn next_step(&mut self) -> (r: Result<DeleteStep, FsError>)
        ensures
            old(self).pending().len() == 0 ==> r == Ok::<DeleteStep, FsError>(DeleteStep::Done)
                && final(self).pending() == old(self).pending(),
            old(self).pending().len() > 0 ==> {
                let top = old(self).pending().last();
                &&& final(self).pending() == old(self).pending().drop_last()
                &&& r == if top.listed {
                    Ok::<DeleteStep, FsError>(DeleteStep::RemoveDir(top.path))
                } else if top.depth > MAX_DIRECTORY_DEPTH {
                    Err::<DeleteStep, FsError>(FsError::DirectoryTooDeep)
                } else {
                    Ok::<DeleteStep, FsError>(DeleteStep::List(top))
                }
            },
    {
        let n = self.stack.len();
        if n == 0 {
            return Ok(DeleteStep::Done);
        }
        let top = self.stack.pop().unwrap();
        assert(self.stack@ =~= old(self).stack@.drop_last());
        if top.listed {
            Ok(DeleteStep::RemoveDir(top.path))
        } else if top.depth > MAX_DIRECTORY_DEPTH {
            Err(FsError::DirectoryTooDeep)
        } else {
            Ok(DeleteStep::List(top))
        }
    }

    /// Takes in the listing of the directory `dir`. The directory goes back
    /// on the stack as listed, and above it each child that is a directory
    /// and no link, one level deeper. Every other child is returned for
    /// removal at once, in listing order; a link among them is removed
    /// itself and never followed.
    pub fn absorb(&mut self, dir: &DeleteFrame, children: &Vec<ChildEntry>, p: Platform) -> (now:
        Vec<Removal>)
        ensures
            frame_views(final(self).pending()) == frame_views(old(self).pending()).push(
                DeleteFrameView { path: dir.path@, depth: dir.depth, listed: true },
            ) + child_frames(dir@, child_views(children@), p),
            removal_views(now@) == removals(dir@, child_views(children@), p),
    {
        let mut now: Vec<Removal> = Vec::new();
        let ghost all = child_views(children@);
        let ghost before_all = self.stack@;
        let again = DeleteFrame { path: dir.path.clone(), depth: dir.depth, listed: true };
        self.stack.push(again);
        let ghost start = frame_views(self.stack@);
        let mut i: usize = 0;
        proof {
            assert(start =~= frame_views(before_all).push(again@));
            assert(frame_views(self.stack@) =~= start + child_frames(dir@, all.take(0), p));
            assert(removal_views(now@) =~= removals(dir@, all.take(0), p));
        }
        while i < children.len()
            invariant
                i <= children.len(),
                all == child_views(children@),
                frame_views(self.stack@) == start + child_frames(dir@, all.take(i as int), p),
                removal_views(now@) == removals(dir@, all.take(i as int), p),
            decreases children.len() - i,
        {
            let child = &children[i];
            proof {
                assert(all.take(i + 1).drop_last() =~= all.take(i as int));
                assert(all.take(i + 1).last() == child@);
            }
            let path = join_path(dir.path.as_str(), child.name.as_str(), p);
            let link = is_link_like(&child.meta, p);
            if !link && child.meta.is_dir {
                let depth = if dir.depth < usize::MAX {
                    dir.depth + 1
                } else {
                    dir.depth
                };
                let ghost before = self.stack@;
                let frame = DeleteFrame { path, depth, listed: false };
                self.stack.push(frame);
                assert(frame_views(self.stack@) =~= frame_views(before).push(frame@));
                assert(start + child_frames(dir@, all.take(i as int), p).push(frame@) =~= (start
                    + child_frames(dir@, all.take(i as int), p)).push(frame@));
            } else {
                let ghost before = now@;
                let removal = Removal {
                    path,
                    as_dir: link && p == Platform::Windows && child.meta.is_dir,
                };
                now.push(removal);
                assert(removal_views(now@) =~= removal_views(before).push(removal@));
            }
            i += 1;
        }
        assert(all.take(children.len() as int) =~= all);
        now
    }
}

} // verus!
