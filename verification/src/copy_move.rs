//! Copy and move planning: which entries are copied where, how a directory
//! tree is walked without recursion, and how a batch of copies is scheduled
//! and reported.
//!
//! Nothing here copies a byte. Each function turns what the caller has read
//! from the file system into the next actions, and the caller performs them.

use std::collections::VecDeque;
use vstd::prelude::*;
use vstd::string::*;
use crate::config::SecurityConfig;
use crate::error::{maps_io_failure, FsError, IoErrorKind};
use crate::limits::{
    COPY_PROGRESS_INTERVAL, FALLBACK_PARALLELISM, MAX_DIRECTORY_DEPTH, MAX_PARALLEL_COPIES,
};
use crate::path::{Platform, file_name, join, join_path, path_file_name, same_location, same_path};
use crate::types::CopyProgress;
use crate::delete::{delete_permanent, permanent_plan, DeleteAction};
use crate::validation::{
    all_accepted, first_refused, normalized, result_view, sandboxed_outcome,
    validate_paths_sandboxed, validate_sandboxed, validated, EntryMeta, ProbedPath,
};

verus! {

/// A directory that waits to be copied: where it is, where it goes, and how
/// deep below the root of the copy it lies.
#[derive(Debug, Clone, PartialEq, Eq)]
pub struct WalkItem {
    pub src: String,
    pub dst: String,
    pub depth: usize,
}

/// A [`WalkItem`] with its paths as characters.
pub struct WalkItemView {
    pub src: Seq<char>,
    pub dst: Seq<char>,
    pub depth: usize,
}

impl View for WalkItem {
    type V = WalkItemView;

    open spec fn view(&self) -> WalkItemView {
        WalkItemView { src: self.src@, dst: self.dst@, depth: self.depth }
    }
}

/// One child of a directory, as a listing with link-level metadata reports it.
#[derive(Debug, Clone, PartialEq, Eq)]
pub struct ChildEntry {
    pub name: String,
    pub meta: EntryMeta,
}

/// A [`ChildEntry`] with its name as characters.
pub struct ChildEntryView {
    pub name: Seq<char>,
    pub meta: EntryMeta,
}

impl View for ChildEntry {
    type V = ChildEntryView;

    open spec fn view(&self) -> ChildEntryView {
        ChildEntryView { name: self.name@, meta: self.meta }
    }
}

/// One file to copy.
#[derive(Debug, Clone, PartialEq, Eq)]
pub struct FileCopy {
    pub from: String,
    pub to: String,
}

/// A [`FileCopy`] with its paths as characters.
pub struct FileCopyView {
    pub from: Seq<char>,
    pub to: Seq<char>,
}

impl View for FileCopy {
    type V = FileCopyView;

    open spec fn view(&self) -> FileCopyView {
        FileCopyView { from: self.from@, to: self.to@ }
    }
}

/// The views of the items of `v`, in order.
pub open spec fn item_views(v: Seq<WalkItem>) -> Seq<WalkItemView> {
    v.map_values(|i: WalkItem| i@)
}

/// The views of the children of `v`, in order.
pub open spec fn child_views(v: Seq<ChildEntry>) -> Seq<ChildEntryView> {
    v.map_values(|c: ChildEntry| c@)
}

/// The views of the copies of `v`, in order.
pub open spec fn copy_views(v: Seq<FileCopy>) -> Seq<FileCopyView> {
    v.map_values(|c: FileCopy| c@)
}

/// The depth of a child of a directory at depth `d`.
pub open spec fn child_depth(d: usize) -> usize {
    if d < usize::MAX {
        (d + 1) as usize
    } else {
        d
    }
}

/// The walk item for the child directory `c` of `item`.
pub open spec fn subdir_for(item: WalkItemView, c: ChildEntryView, p: Platform) -> WalkItemView {
    WalkItemView {
        src: join(item.src, c.name, p),
        dst: join(item.dst, c.name, p),
        depth: child_depth(item.depth),
    }
}

/// The copy for the child file `c` of `item`.
pub open spec fn copy_for(item: WalkItemView, c: ChildEntryView, p: Platform) -> FileCopyView {
    FileCopyView { from: join(item.src, c.name, p), to: join(item.dst, c.name, p) }
}

/// The child is a directory to descend into: a directory that is no link.
pub open spec fn is_subdir(c: ChildEntryView, p: Platform) -> bool {
    !c.meta.link_like(p) && c.meta.is_dir
}

/// The child is copied as a file: anything that is neither a link nor a directory.
pub open spec fn is_plain(c: ChildEntryView, p: Platform) -> bool {
    !c.meta.link_like(p) && !c.meta.is_dir
}

/// The directories that a listing adds to the queue, in listing order.
pub open spec fn subdirs(item: WalkItemView, children: Seq<ChildEntryView>, p: Platform) -> Seq<
    WalkItemView,
>
    decreases children.len(),
{
    if children.len() == 0 {
        Seq::empty()
    } else {
        let before = subdirs(item, children.drop_last(), p);
        if is_subdir(children.last(), p) {
            before.push(subdir_for(item, children.last(), p))
        } else {
            before
        }
    }
}

/// The files that a listing gives to copy, in listing order.
pub open spec fn file_copies(item: WalkItemView, children: Seq<ChildEntryView>, p: Platform) -> Seq<
    FileCopyView,
>
    decreases children.len(),
{
    if children.len() == 0 {
        Seq::empty()
    } else {
        let before = file_copies(item, children.drop_last(), p);
        if is_plain(children.last(), p) {
            before.push(copy_for(item, children.last(), p))
        } else {
            before
        }
    }
}

/// `w` is the walk item of some child of the listing that is a directory
/// and no link.
pub open spec fn queued_for_subdir(
    item: WalkItemView,
    children: Seq<ChildEntryView>,
    p: Platform,
    w: WalkItemView,
) -> bool {
    exists|k: int|
        0 <= k < children.len() && is_subdir(#[trigger] children[k], p) && w == subdir_for(
            item,
            children[k],
            p,
        )
}

/// `c` is the copy of some child of the listing that is neither a link nor
/// a directory.
pub open spec fn copied_for_file(
    item: WalkItemView,
    children: Seq<ChildEntryView>,
    p: Platform,
    c: FileCopyView,
) -> bool {
    exists|k: int|
        0 <= k < children.len() && is_plain(#[trigger] children[k], p) && c == copy_for(
            item,
            children[k],
            p,
        )
}

/// Every directory that a listing queues stems from a child that is a
/// directory and no link, and lies one level below the listed directory.
pub proof fn lemma_queued_are_real_directories(
    item: WalkItemView,
    children: Seq<ChildEntryView>,
    p: Platform,
)
    ensures
        forall|i: int|
            0 <= i < subdirs(item, children, p).len() ==> queued_for_subdir(
                item,
                children,
                p,
                #[trigger] subdirs(item, children, p)[i],
            ),
        forall|i: int|
            0 <= i < subdirs(item, children, p).len() ==> (#[trigger] subdirs(
                item,
                children,
                p,
            )[i]).depth == child_depth(item.depth),
    decreases children.len(),
{
    if children.len() > 0 {
        let init = children.drop_last();
        lemma_queued_are_real_directories(item, init, p);
        let all = subdirs(item, children, p);
        assert forall|i: int| 0 <= i < all.len() implies queued_for_subdir(
            item,
            children,
            p,
            #[trigger] all[i],
        ) by {
            if i < subdirs(item, init, p).len() {
                assert(queued_for_subdir(item, init, p, subdirs(item, init, p)[i]));
                let k = choose|k: int|
                    0 <= k < init.len() && is_subdir(#[trigger] init[k], p) && subdirs(
                        item,
                        init,
                        p,
                    )[i] == subdir_for(item, init[k], p);
                assert(children[k] == init[k]);
            } else {
                assert(is_subdir(children[children.len() - 1], p));
            }
        }
    }
}

/// Every file that a listing gives to copy stems from a child that is
/// neither a link nor a directory: a link in the listing is never copied.
pub proof fn lemma_copied_are_plain_files(
    item: WalkItemView,
    children: Seq<ChildEntryView>,
    p: Platform,
)
    ensures
        forall|i: int|
            0 <= i < file_copies(item, children, p).len() ==> copied_for_file(
                item,
                children,
                p,
                #[trigger] file_copies(item, children, p)[i],
            ),
    decreases children.len(),
{
    if children.len() > 0 {
        let init = children.drop_last();
        lemma_copied_are_plain_files(item, init, p);
        let all = file_copies(item, children, p);
        assert forall|i: int| 0 <= i < all.len() implies copied_for_file(
            item,
            children,
            p,
            #[trigger] all[i],
        ) by {
            if i < file_copies(item, init, p).len() {
                assert(copied_for_file(item, init, p, file_copies(item, init, p)[i]));
                let k = choose|k: int|
                    0 <= k < init.len() && is_plain(#[trigger] init[k], p) && file_copies(
                        item,
                        init,
                        p,
                    )[i] == copy_for(item, init[k], p);
                assert(children[k] == init[k]);
            } else {
                assert(is_plain(children[children.len() - 1], p));
            }
        }
    }
}

/// A listing that holds nothing but links yields no directory to descend
/// into and no file to copy.
pub proof fn lemma_links_are_skipped(item: WalkItemView, children: Seq<ChildEntryView>, p: Platform)
    requires
        forall|k: int| 0 <= k < children.len() ==> (#[trigger] children[k]).meta.link_like(p),
    ensures
        subdirs(item, children, p).len() == 0,
        file_copies(item, children, p).len() == 0,
    decreases children.len(),
{
    if children.len() > 0 {
        let init = children.drop_last();
        assert forall|k: int| 0 <= k < init.len() implies (#[trigger] init[k]).meta.link_like(
            p,
        ) by {
            assert(init[k] == children[k]);
        }
        lemma_links_are_skipped(item, init, p);
        assert(children[children.len() - 1].meta.link_like(p));
    }
}

/// A child of the listing that is a directory and no link is queued.
pub proof fn lemma_subdir_is_queued(
    item: WalkItemView,
    children: Seq<ChildEntryView>,
    p: Platform,
    k: int,
)
    requires
        0 <= k < children.len(),
        is_subdir(children[k], p),
    ensures
        subdirs(item, children, p).contains(subdir_for(item, children[k], p)),
    decreases children.len(),
{
    let init = children.drop_last();
    let all = subdirs(item, children, p);
    if k == children.len() - 1 {
        assert(all.last() == subdir_for(item, children[k], p));
    } else {
        lemma_subdir_is_queued(item, init, p, k);
        let before = subdirs(item, init, p);
        let i = choose|i: int| 0 <= i < before.len() && before[i] == subdir_for(item, init[k], p);
        assert(all[i] == before[i]);
    }
}

/// The outcome of a whole walk over a tree whose directories list as
/// `listing` says, taking the steps that [`CopyWalker::next_dir`] and
/// [`CopyWalker::absorb`] take: the first directory of the queue is taken,
/// fails the walk when it lies too deep, and otherwise has its
/// subdirectories queued. `None` says that `fuel` steps do not end the walk.
pub open spec fn walk_outcome(
    queue: Seq<WalkItemView>,
    listing: spec_fn(Seq<char>) -> Seq<ChildEntryView>,
    p: Platform,
    fuel: nat,
) -> Option<Result<(), FsError>>
    decreases fuel,
{
    if queue.len() == 0 {
        Some(Ok(()))
    } else if fuel == 0 {
        None
    } else if queue[0].depth > MAX_DIRECTORY_DEPTH {
        Some(Err(FsError::DirectoryTooDeep))
    } else {
        walk_outcome(
            queue.drop_first() + subdirs(queue[0], listing(queue[0].src), p),
            listing,
            p,
            (fuel - 1) as nat,
        )
    }
}

/// At `item` or within `n` levels below it lies a directory deeper than
/// the maximum depth, reached through directories that are no links.
pub open spec fn too_deep_below(
    item: WalkItemView,
    listing: spec_fn(Seq<char>) -> Seq<ChildEntryView>,
    p: Platform,
    n: nat,
) -> bool
    decreases n,
{
    item.depth > MAX_DIRECTORY_DEPTH || (n > 0 && exists|k: int|
        0 <= k < listing(item.src).len() && is_subdir(#[trigger] listing(item.src)[k], p)
            && too_deep_below(
            subdir_for(item, listing(item.src)[k], p),
            listing,
            p,
            (n - 1) as nat,
        ))
}

/// A tree that is nested deeper than the maximum depth is never copied to
/// the end: a walk that holds a directory with such a tree below it fails
/// with `DirectoryTooDeep`, however many steps it is given.
pub proof fn lemma_deep_tree_fails(
    queue: Seq<WalkItemView>,
    listing: spec_fn(Seq<char>) -> Seq<ChildEntryView>,
    p: Platform,
    fuel: nat,
    i: int,
    n: nat,
)
    requires
        0 <= i < queue.len(),
        too_deep_below(queue[i], listing, p, n),
    ensures
        walk_outcome(queue, listing, p, fuel) matches Some(r) ==> r == Err::<(), FsError>(
            FsError::DirectoryTooDeep,
        ),
    decreases fuel,
{
    if fuel > 0 && queue[0].depth <= MAX_DIRECTORY_DEPTH {
        let children = listing(queue[0].src);
        let added = subdirs(queue[0], children, p);
        let next = queue.drop_first() + added;
        if i == 0 {
            let k = choose|k: int|
                0 <= k < children.len() && is_subdir(#[trigger] children[k], p) && too_deep_below(
                    subdir_for(queue[0], children[k], p),
                    listing,
                    p,
                    (n - 1) as nat,
                );
            lemma_subdir_is_queued(queue[0], children, p, k);
            let j = choose|j: int|
                0 <= j < added.len() && added[j] == subdir_for(queue[0], children[k], p);
            assert(next[queue.len() - 1 + j] == added[j]);
            lemma_deep_tree_fails(next, listing, p, (fuel - 1) as nat, queue.len() - 1 + j, (n
                - 1) as nat);
        } else {
            assert(next[i - 1] == queue[i]);
            lemma_deep_tree_fails(next, listing, p, (fuel - 1) as nat, i - 1, n);
        }
    }
}

/// The queue after the first directory of `queue` has been taken and listed.
pub open spec fn queue_after(
    queue: Seq<WalkItemView>,
    listing: spec_fn(Seq<char>) -> Seq<ChildEntryView>,
    p: Platform,
) -> Seq<WalkItemView> {
    queue.drop_first() + subdirs(queue[0], listing(queue[0].src), p)
}

/// The directories that a whole walk visits within `fuel` steps, in order.
/// The steps are those of [`walk_outcome`].
pub open spec fn walk_visits(
    queue: Seq<WalkItemView>,
    listing: spec_fn(Seq<char>) -> Seq<ChildEntryView>,
    p: Platform,
    fuel: nat,
) -> Seq<WalkItemView>
    decreases fuel,
{
    if queue.len() == 0 || fuel == 0 || queue[0].depth > MAX_DIRECTORY_DEPTH {
        Seq::empty()
    } else {
        seq![queue[0]] + walk_visits(queue_after(queue, listing, p), listing, p, (fuel - 1) as nat)
    }
}

/// The files that a whole walk copies within `fuel` steps, in order.
pub open spec fn walk_copies(
    queue: Seq<WalkItemView>,
    listing: spec_fn(Seq<char>) -> Seq<ChildEntryView>,
    p: Platform,
    fuel: nat,
) -> Seq<FileCopyView>
    decreases fuel,
{
    if queue.len() == 0 || fuel == 0 || queue[0].depth > MAX_DIRECTORY_DEPTH {
        Seq::empty()
    } else {
        file_copies(queue[0], listing(queue[0].src), p) + walk_copies(
            queue_after(queue, listing, p),
            listing,
            p,
            (fuel - 1) as nat,
        )
    }
}

/// What holds of a directory holds of each of its children that is a
/// directory and no link.
pub open spec fn passed_down(
    good: spec_fn(WalkItemView) -> bool,
    listing: spec_fn(Seq<char>) -> Seq<ChildEntryView>,
    p: Platform,
) -> bool {
    forall|d: WalkItemView, k: int|
        good(d) && 0 <= k < listing(d.src).len() && is_subdir(listing(d.src)[k], p) ==> good(
            #[trigger] subdir_for(d, listing(d.src)[k], p),
        )
}

/// `c` is the copy of a child, neither link nor directory, of a directory
/// of which `good` holds.
pub open spec fn copied_from(
    good: spec_fn(WalkItemView) -> bool,
    listing: spec_fn(Seq<char>) -> Seq<ChildEntryView>,
    p: Platform,
    c: FileCopyView,
) -> bool {
    exists|d: WalkItemView, k: int|
        good(d) && 0 <= k < listing(d.src).len() && is_plain(listing(d.src)[k], p) && c
            == #[trigger] copy_for(d, listing(d.src)[k], p)
}

/// A walk never enters a link and never copies one. Whatever holds of the
/// directories that the walk starts from, and is passed down from a
/// directory to its children that are directories and no links, holds of
/// every directory that the walk visits; and every file that the walk copies
/// is a child, neither link nor directory, of such a directory.
pub proof fn lemma_walk_stays_off_links(
    queue: Seq<WalkItemView>,
    listing: spec_fn(Seq<char>) -> Seq<ChildEntryView>,
    p: Platform,
    fuel: nat,
    good: spec_fn(WalkItemView) -> bool,
)
    requires
        forall|i: int| 0 <= i < queue.len() ==> good(#[trigger] queue[i]),
        passed_down(good, listing, p),
    ensures
        forall|i: int|
            0 <= i < walk_visits(queue, listing, p, fuel).len() ==> good(
                #[trigger] walk_visits(queue, listing, p, fuel)[i],
            ),
        forall|i: int|
            0 <= i < walk_copies(queue, listing, p, fuel).len() ==> copied_from(
                good,
                listing,
                p,
                #[trigger] walk_copies(queue, listing, p, fuel)[i],
            ),
    decreases fuel,
{
    if queue.len() > 0 && fuel > 0 && queue[0].depth <= MAX_DIRECTORY_DEPTH {
        let first = queue[0];
        let children = listing(first.src);
        let added = subdirs(first, children, p);
        let next = queue_after(queue, listing, p);
        lemma_queued_are_real_directories(first, children, p);
        lemma_copied_are_plain_files(first, children, p);
        assert forall|i: int| 0 <= i < next.len() implies good(#[trigger] next[i]) by {
            if i < queue.len() - 1 {
                assert(next[i] == queue[i + 1]);
            } else {
                let w = added[i - (queue.len() - 1)];
                assert(next[i] == w);
                assert(queued_for_subdir(first, children, p, w));
                let k = choose|k: int|
                    0 <= k < children.len() && is_subdir(#[trigger] children[k], p) && w
                        == subdir_for(first, children[k], p);
                assert(good(subdir_for(first, listing(first.src)[k], p)));
            }
        }
        lemma_walk_stays_off_links(next, listing, p, (fuel - 1) as nat, good);
        let rest_visits = walk_visits(next, listing, p, (fuel - 1) as nat);
        let rest_copies = walk_copies(next, listing, p, (fuel - 1) as nat);
        let visits = walk_visits(queue, listing, p, fuel);
        let copies = walk_copies(queue, listing, p, fuel);
        let here = file_copies(first, children, p);
        assert forall|i: int| 0 <= i < visits.len() implies good(#[trigger] visits[i]) by {
            if i > 0 {
                assert(visits[i] == rest_visits[i - 1]);
            }
        }
        assert forall|i: int| 0 <= i < copies.len() implies copied_from(
            good,
            listing,
            p,
            #[trigger] copies[i],
        ) by {
            if i < here.len() {
                assert(copies[i] == here[i]);
                assert(copied_for_file(first, children, p, here[i]));
                let k = choose|k: int|
                    0 <= k < children.len() && is_plain(#[trigger] children[k], p) && here[i]
                        == copy_for(first, children[k], p);
                assert(copies[i] == copy_for(first, listing(first.src)[k], p));
            } else {
                assert(copies[i] == rest_copies[i - here.len()]);
            }
        }
    }
}

/// A directory that holds nothing but links is copied as an empty
/// directory: the walk visits it alone and copies no file.
pub proof fn lemma_directory_of_links_copies_nothing(
    root: WalkItemView,
    listing: spec_fn(Seq<char>) -> Seq<ChildEntryView>,
    p: Platform,
    fuel: nat,
)
    requires
        forall|k: int|
            0 <= k < listing(root.src).len() ==> (#[trigger] listing(root.src)[k]).meta.link_like(p),
        root.depth <= MAX_DIRECTORY_DEPTH,
        fuel > 0,
    ensures
        walk_visits(seq![root], listing, p, fuel) == seq![root],
        walk_copies(seq![root], listing, p, fuel) == Seq::<FileCopyView>::empty(),
        fuel > 1 ==> walk_outcome(seq![root], listing, p, fuel) == Some(Ok::<(), FsError>(())),
{
    lemma_links_are_skipped(root, listing(root.src), p);
    let queue = seq![root];
    let next = queue_after(queue, listing, p);
    assert(next =~= Seq::<WalkItemView>::empty());
    assert(walk_visits(next, listing, p, (fuel - 1) as nat) =~= Seq::<WalkItemView>::empty());
    assert(walk_copies(next, listing, p, (fuel - 1) as nat) =~= Seq::<FileCopyView>::empty());
    assert(walk_visits(queue, listing, p, fuel) =~= seq![root]);
    assert(walk_copies(queue, listing, p, fuel) =~= Seq::<FileCopyView>::empty());
    if fuel > 1 {
        assert(walk_outcome(next, listing, p, (fuel - 1) as nat) == Some(Ok::<(), FsError>(())));
    }
}

/// The iterative copy of a directory tree: a queue of directories that
/// wait to be copied, first in, first out. The caller takes a directory
/// with [`CopyWalker::next_dir`], creates its destination, lists it, and
/// hands the listing to [`CopyWalker::absorb`], which queues the
/// subdirectories and returns the files to copy.
pub struct CopyWalker {
    queue: VecDeque<WalkItem>,
}

impl CopyWalker {
    /// The directories that wait, the next one first.
    pub closed spec fn pending(self) -> Seq<WalkItem> {
        self.queue@
    }

    /// A walk that copies the directory `src` to `dst`.
    pub fn new(src: &str, dst: &str) -> (w: CopyWalker)
        ensures
            item_views(w.pending()) == seq![WalkItemView { src: src@, dst: dst@, depth: 0 }],
    {
        let mut queue: VecDeque<WalkItem> = VecDeque::new();
        queue.push_back(WalkItem { src: String::from_str(src), dst: String::from_str(dst), depth: 0 });
        assert(item_views(queue@) =~= seq![WalkItemView { src: src@, dst: dst@, depth: 0 }]);
        CopyWalker { queue }
    }

    /// Takes the next directory off the queue. `Ok(None)` says that the walk
    /// is over. A directory that lies deeper than the maximum depth ends the
    /// walk with `DirectoryTooDeep`.
    pub fn next_dir(&mut self) -> (r: Result<Option<WalkItem>, FsError>)
        ensures
            old(self).pending().len() == 0 ==> r == Ok::<Option<WalkItem>, FsError>(None) && final(self).pending() == old(self).pending(),
            old(self).pending().len() > 0 ==> {
                &&& final(self).pending() == old(self).pending().drop_first()
                &&& r == if old(self).pending()[0].depth > MAX_DIRECTORY_DEPTH {
                    Err::<Option<WalkItem>, FsError>(FsError::DirectoryTooDeep)
                } else {
                    Ok::<Option<WalkItem>, FsError>(Some(old(self).pending()[0]))
                }
            },
    {
        match self.queue.pop_front() {
            None => Ok(None),
            Some(item) => {
                assert(self.queue@ =~= old(self).queue@.drop_first());
                if item.depth > MAX_DIRECTORY_DEPTH {
                    Err(FsError::DirectoryTooDeep)
                } else {
                    Ok(Some(item))
                }
            },
        }
    }

    /// Takes in the listing of the directory `item`. Links are passed over.
    /// Each subdirectory joins the queue, one level deeper than `item`; each
    /// other child is returned as a file to copy, in listing order.
    pub fn absorb(&mut self, item: &WalkItem, children: &Vec<ChildEntry>, p: Platform) -> (files:
        Vec<FileCopy>)
        ensures
            item_views(final(self).pending()) == item_views(old(self).pending()) + subdirs(
                item@,
                child_views(children@),
                p,
            ),
            copy_views(files@) == file_copies(item@, child_views(children@), p),
    {
        let mut files: Vec<FileCopy> = Vec::new();
        let ghost all = child_views(children@);
        let ghost start = item_views(self.queue@);
        let mut i: usize = 0;
        assert(item_views(self.queue@) =~= start + subdirs(item@, all.take(0), p));
        assert(copy_views(files@) =~= file_copies(item@, all.take(0), p));
        while i < children.len()
            invariant
                i <= children.len(),
                all == child_views(children@),
                item_views(self.queue@) == start + subdirs(item@, all.take(i as int), p),
                copy_views(files@) == file_copies(item@, all.take(i as int), p),
            decreases children.len() - i,
        {
            let child = &children[i];
            proof {
                assert(all.take(i + 1).drop_last() =~= all.take(i as int));
                assert(all.take(i + 1).last() == child@);
            }
            let link = child.meta.is_symlink || (p == Platform::Windows && child.meta.attributes
                & crate::validation::FILE_ATTRIBUTE_REPARSE_POINT != 0);
            if !link {
                let from = join_path(item.src.as_str(), child.name.as_str(), p);
                let to = join_path(item.dst.as_str(), child.name.as_str(), p);
                if child.meta.is_dir {
                    let depth = if item.depth < usize::MAX {
                        item.depth + 1
                    } else {
                        item.depth
                    };
                    let ghost before = self.queue@;
                    let next = WalkItem { src: from, dst: to, depth };
                    self.queue.push_back(next);
                    assert(item_views(self.queue@) =~= item_views(before).push(next@));
                    assert(start + subdirs(item@, all.take(i as int), p).push(next@) =~= (start
                        + subdirs(item@, all.take(i as int), p)).push(next@));
                } else {
                    let ghost before = files@;
                    let copy = FileCopy { from, to };
                    files.push(copy);
                    assert(copy_views(files@) =~= copy_views(before).push(copy@));
                }
            }
            i += 1;
        }
        assert(all.take(children.len() as int) =~= all);
        files
    }
}

/// What to do with one source of a copy.
#[derive(Debug, Clone, PartialEq, Eq)]
pub enum CopyAction {
    /// Nothing: the source is a link, or it is the target itself.
    Skip,
    /// Copy one file.
    CopyFile(FileCopy),
    /// Copy a directory tree, with a [`CopyWalker`].
    CopyTree(FileCopy),
}

/// A [`CopyAction`] with its paths as characters.
pub enum CopyActionView {
    Skip,
    CopyFile(FileCopyView),
    CopyTree(FileCopyView),
}

impl View for CopyAction {
    type V = CopyActionView;

    open spec fn view(&self) -> CopyActionView {
        match self {
            CopyAction::Skip => CopyActionView::Skip,
            CopyAction::CopyFile(c) => CopyActionView::CopyFile(c@),
            CopyAction::CopyTree(c) => CopyActionView::CopyTree(c@),
        }
    }
}

/// The action for copying `src`, whose link-level metadata is `meta`, into
/// the directory `dest`. The target is `dest` joined with the file name of
/// `src`. A link is skipped, a directory is copied as a tree, anything else
/// as a file, unless source and target are the same location.
pub open spec fn copy_plan(src: Seq<char>, dest: Seq<char>, meta: EntryMeta, p: Platform) -> Result<
    CopyActionView,
    FsError,
> {
    match file_name(src, p) {
        None => Err(FsError::InvalidPath),
        Some(name) => {
            let pair = FileCopyView { from: src, to: join(dest, name, p) };
            if meta.link_like(p) {
                Ok(CopyActionView::Skip)
            } else if meta.is_dir {
                Ok(CopyActionView::CopyTree(pair))
            } else if same_location(src, pair.to, p) {
                Ok(CopyActionView::Skip)
            } else {
                Ok(CopyActionView::CopyFile(pair))
            }
        },
    }
}

/// `r` with its action taken by its view.
pub open spec fn copy_result_view(r: Result<CopyAction, FsError>) -> Result<CopyActionView, FsError> {
    match r {
        Ok(a) => Ok(a@),
        Err(e) => Err(e),
    }
}

/// Plans the copy of one validated source into the destination directory.
pub fn copy_single_entry(src: &str, dest: &str, meta: &EntryMeta, p: Platform) -> (r: Result<
    CopyAction,
    FsError,
>)
    ensures
        copy_result_view(r) == copy_plan(src@, dest@, *meta, p),
{
    let name = match path_file_name(src, p) {
        Some(n) => n,
        None => {
            return Err(FsError::InvalidPath);
        },
    };
    let target = join_path(dest, name.as_str(), p);
    if crate::validation::is_link_like(meta, p) {
        return Ok(CopyAction::Skip);
    }
    if meta.is_dir {
        return Ok(CopyAction::CopyTree(FileCopy { from: String::from_str(src), to: target }));
    }
    if same_path(src, target.as_str(), p) {
        return Ok(CopyAction::Skip);
    }
    Ok(CopyAction::CopyFile(FileCopy { from: String::from_str(src), to: target }))
}

/// The validated paths of a copy or a move.
#[derive(Debug, Clone, PartialEq, Eq)]
pub struct Transfer {
    /// The sources, validated without following links.
    pub sources: Vec<String>,
    /// The destination directory, resolved.
    pub destination: String,
}

/// The destination of a transfer must exist and be a directory.
pub open spec fn destination_check(meta: Option<EntryMeta>) -> Result<(), FsError> {
    match meta {
        None => Err(FsError::NotFound),
        Some(m) => if m.is_dir {
            Ok(())
        } else {
            Err(FsError::InvalidPath)
        },
    }
}

/// Checks the metadata of a destination, read through links; `None` when
/// the destination does not exist.
pub fn check_destination(meta: Option<EntryMeta>) -> (r: Result<(), FsError>)
    ensures
        r == destination_check(meta),
{
    match meta {
        None => Err(FsError::NotFound),
        Some(m) => if m.is_dir {
            Ok(())
        } else {
            Err(FsError::InvalidPath)
        },
    }
}

/// The outcome of validating the destination of a transfer, as
/// [`sandboxed_outcome`] allows it.
pub open spec fn destination_outcome(
    destination: Seq<char>,
    resolved: Option<Seq<char>>,
    config: SecurityConfig,
    p: Platform,
    out: Result<Seq<char>, FsError>,
) -> bool {
    sandboxed_outcome(validated(destination, resolved, p), config, p, out)
}

/// The transfer passes every check, with `dest` as its destination: each
/// source is accepted, the destination validates to `dest` and passes the
/// sandbox, and it exists and is a directory.
pub open spec fn transfer_accepted(
    sources: Seq<ProbedPath>,
    destination: Seq<char>,
    resolved: Option<Seq<char>>,
    destination_meta: Option<EntryMeta>,
    config: SecurityConfig,
    p: Platform,
    dest: Seq<char>,
) -> bool {
    &&& all_accepted(sources, sources.len() as int, config, p)
    &&& destination_outcome(destination, resolved, config, p, Ok(dest))
    &&& destination_check(destination_meta) is Ok
}

/// The transfer is refused with `e` by the first check that fails: a
/// source, in order; then the validation of the destination; then, for a
/// destination that passed the sandbox, the test that it is a directory.
pub open spec fn transfer_refused(
    sources: Seq<ProbedPath>,
    destination: Seq<char>,
    resolved: Option<Seq<char>>,
    destination_meta: Option<EntryMeta>,
    config: SecurityConfig,
    p: Platform,
    e: FsError,
) -> bool {
    ||| first_refused(sources, config, p, e)
    ||| all_accepted(sources, sources.len() as int, config, p) && destination_outcome(
        destination,
        resolved,
        config,
        p,
        Err(e),
    )
    ||| {
        &&& all_accepted(sources, sources.len() as int, config, p)
        &&& validated(destination, resolved, p) matches Ok(d) && destination_outcome(
            destination,
            resolved,
            config,
            p,
            Ok(d),
        )
        &&& destination_check(destination_meta) == Err::<(), FsError>(e)
    }
}

/// Validates the paths of a copy or a move before anything is touched. The
/// sources are validated in order without following links, then the
/// destination in follow mode, all against the sandbox; then the destination
/// must exist and be a directory. The first failure is the result.
pub fn validate_transfer(
    sources: &Vec<ProbedPath>,
    destination: &str,
    resolved: Option<&str>,
    destination_meta: Option<EntryMeta>,
    config: &SecurityConfig,
    p: Platform,
) -> (r: Result<Transfer, FsError>)
    ensures
        match r {
            Ok(t) => {
                &&& t.sources.len() == sources.len()
                &&& forall|i: int|
                    0 <= i < sources.len() ==> (#[trigger] t.sources[i])@ == normalized(
                        sources[i].path@,
                        p,
                    )
                &&& transfer_accepted(
                    sources@,
                    destination@,
                    match resolved {
                        Some(c) => Some(c@),
                        None => None,
                    },
                    destination_meta,
                    *config,
                    p,
                    t.destination@,
                )
            },
            Err(e) => transfer_refused(
                sources@,
                destination@,
                match resolved {
                    Some(c) => Some(c@),
                    None => None,
                },
                destination_meta,
                *config,
                p,
                e,
            ),
        },
{
    let validated_sources = match validate_paths_sandboxed(sources, config, p) {
        Ok(v) => v,
        Err(e) => {
            return Err(e);
        },
    };
    let dest = match validate_sandboxed(destination, resolved, config, p) {
        Ok(d) => d,
        Err(e) => {
            return Err(e);
        },
    };
    match check_destination(destination_meta) {
        Ok(_) => {},
        Err(e) => {
            return Err(e);
        },
    }
    Ok(Transfer { sources: validated_sources, destination: dest })
}

/// One source of a copy, with its link-level metadata where it could be read.
#[derive(Debug, Clone, PartialEq, Eq)]
pub struct ProbedSource {
    pub path: String,
    pub meta: Option<EntryMeta>,
}

/// The source as a probed path: it exists where its metadata could be read.
pub open spec fn as_probed(s: ProbedSource) -> ProbedPath {
    ProbedPath { path: s.path, exists: s.meta is Some }
}

/// The sources as probed paths, in order.
pub open spec fn probed(sources: Seq<ProbedSource>) -> Seq<ProbedPath> {
    sources.map_values(|s: ProbedSource| as_probed(s))
}

/// The sources as probed paths, for validation.
pub fn probed_paths(sources: &Vec<ProbedSource>) -> (paths: Vec<ProbedPath>)
    ensures
        paths@ == probed(sources@),
{
    let mut paths: Vec<ProbedPath> = Vec::new();
    let mut k: usize = 0;
    while k < sources.len()
        invariant
            k <= sources.len(),
            paths@ == probed(sources@).take(k as int),
        decreases sources.len() - k,
    {
        let probe = ProbedPath { path: sources[k].path.clone(), exists: sources[k].meta.is_some() };
        assert(probe == as_probed(sources[k as int]));
        paths.push(probe);
        assert(probed(sources@).take(k + 1) =~= probed(sources@).take(k as int).push(
            probed(sources@)[k as int],
        ));
        k += 1;
    }
    assert(probed(sources@).take(sources.len() as int) =~= probed(sources@));
    paths
}

/// The action for one source of a copy into `dest`: that of
/// [`copy_plan`] for its validated path and its metadata.
pub open spec fn source_plan(s: ProbedSource, dest: Seq<char>, p: Platform) -> Result<
    CopyActionView,
    FsError,
> {
    match s.meta {
        Some(m) => copy_plan(normalized(s.path@, p), dest, m, p),
        None => Err(FsError::InvalidPath),
    }
}

/// Planning fails with `e` at some source, and succeeds for every source
/// before it.
pub open spec fn first_plan_error(
    sources: Seq<ProbedSource>,
    dest: Seq<char>,
    p: Platform,
    e: FsError,
) -> bool {
    exists|i: int|
        0 <= i < sources.len() && source_plan(#[trigger] sources[i], dest, p) == Err::<
            CopyActionView,
            FsError,
        >(e) && forall|j: int| 0 <= j < i ==> source_plan(#[trigger] sources[j], dest, p) is Ok
}

/// The plan of a copy: the validated destination and one action for each
/// source, in order.
#[derive(Debug, Clone, PartialEq, Eq)]
pub struct CopyPlan {
    pub destination: String,
    pub actions: Vec<CopyAction>,
}

/// The views of the actions of `v`, in order.
pub open spec fn action_views(v: Seq<CopyAction>) -> Seq<CopyActionView> {
    v.map_values(|a: CopyAction| a@)
}

/// Plans a copy of the sources into the destination directory. First the
/// paths are validated as [`validate_transfer`] does. Then each source gets
/// its action, in order: a source that is a link is skipped, a directory is
/// copied as a tree by a [`CopyWalker`], which skips every link that it
/// meets, anything else is copied as a file. Nothing is planned unless every
/// check passes.
pub fn copy_entries_sync(
    sources: &Vec<ProbedSource>,
    destination: &str,
    resolved: Option<&str>,
    destination_meta: Option<EntryMeta>,
    config: &SecurityConfig,
    p: Platform,
) -> (r: Result<CopyPlan, FsError>)
    ensures
        match r {
            Ok(plan) => {
                &&& transfer_accepted(
                    probed(sources@),
                    destination@,
                    match resolved {
                        Some(c) => Some(c@),
                        None => None,
                    },
                    destination_meta,
                    *config,
                    p,
                    plan.destination@,
                )
                &&& plan.actions.len() == sources.len()
                &&& forall|i: int|
                    0 <= i < sources.len() ==> source_plan(
                        #[trigger] sources[i],
                        plan.destination@,
                        p,
                    ) == Ok::<CopyActionView, FsError>(plan.actions[i]@)
            },
            Err(e) => {
                ||| transfer_refused(
                    probed(sources@),
                    destination@,
                    match resolved {
                        Some(c) => Some(c@),
                        None => None,
                    },
                    destination_meta,
                    *config,
                    p,
                    e,
                )
                ||| validated(
                    destination@,
                    match resolved {
                        Some(c) => Some(c@),
                        None => None,
                    },
                    p,
                ) matches Ok(d) && transfer_accepted(
                    probed(sources@),
                    destination@,
                    match resolved {
                        Some(c) => Some(c@),
                        None => None,
                    },
                    destination_meta,
                    *config,
                    p,
                    d,
                ) && first_plan_error(sources@, d, p, e)
            },
        },
{
    let paths = probed_paths(sources);
    let transfer = match validate_transfer(&paths, destination, resolved, destination_meta, config, p) {
        Ok(t) => t,
        Err(e) => {
            return Err(e);
        },
    };
    let ghost answer = match resolved {
        Some(c) => Some(c@),
        None => None,
    };
    assert(validated(destination@, answer, p) == Ok::<Seq<char>, FsError>(transfer.destination@));
    let mut actions: Vec<CopyAction> = Vec::new();
    let mut i: usize = 0;
    while i < sources.len()
        invariant
            i <= sources.len(),
            actions.len() == i,
            transfer.sources.len() == sources.len(),
            paths@ == probed(sources@),
            answer == match resolved {
                Some(c) => Some(c@),
                None => None,
            },
            validated(destination@, answer, p) == Ok::<Seq<char>, FsError>(transfer.destination@),
            transfer_accepted(
                probed(sources@),
                destination@,
                answer,
                destination_meta,
                *config,
                p,
                transfer.destination@,
            ),
            forall|j: int|
                0 <= j < sources.len() ==> (#[trigger] transfer.sources[j])@ == normalized(
                    paths[j].path@,
                    p,
                ),
            forall|j: int|
                0 <= j < i ==> source_plan(#[trigger] sources[j], transfer.destination@, p) == Ok::<
                    CopyActionView,
                    FsError,
                >(actions[j]@),
        decreases sources.len() - i,
    {
        assert(paths[i as int] == as_probed(sources[i as int]));
        assert(transfer.sources[i as int]@ == normalized(sources[i as int].path@, p));
        let planned = match &sources[i].meta {
            Some(m) => copy_single_entry(
                transfer.sources[i].as_str(),
                transfer.destination.as_str(),
                m,
                p,
            ),
            None => Err(FsError::InvalidPath),
        };
        match planned {
            Ok(action) => {
                actions.push(action);
            },
            Err(e) => {
                assert(source_plan(sources[i as int], transfer.destination@, p) == Err::<
                    CopyActionView,
                    FsError,
                >(e));
                assert(first_plan_error(sources@, transfer.destination@, p, e));
                return Err(e);
            },
        }
        i += 1;
    }
    Ok(CopyPlan { destination: transfer.destination, actions })
}

/// The target of moving `src` into the directory `dest`.
pub open spec fn move_target_of(src: Seq<char>, dest: Seq<char>, p: Platform) -> Result<
    Seq<char>,
    FsError,
> {
    match file_name(src, p) {
        None => Err(FsError::InvalidPath),
        Some(name) => Ok(join(dest, name, p)),
    }
}

/// The target of moving `src` into the directory `dest`: `dest` joined
/// with the file name of `src`. A source without a file name is invalid.
pub fn move_target(src: &str, dest: &str, p: Platform) -> (r: Result<String, FsError>)
    ensures
        result_view(r) == move_target_of(src@, dest@, p),
{
    match path_file_name(src, p) {
        None => Err(FsError::InvalidPath),
        Some(name) => Ok(join_path(dest, name.as_str(), p)),
    }
}

/// How the rename of a move ended.
#[derive(Debug, Clone, PartialEq, Eq)]
pub enum RenameOutcome {
    /// The source now stands at the target.
    Renamed,
    /// The rename failed, with the kind of the failure, the raw error code
    /// of the operating system where there is one, and its message.
    Failed { kind: IoErrorKind, os_code: Option<i32>, detail: String },
}

/// The next action of the move of one source.
#[derive(Debug, Clone, PartialEq, Eq)]
pub enum MoveStep {
    /// Nothing: the source is the target, or the target exists already.
    Skip,
    /// Rename the source to the target, and come back with the outcome.
    Rename(FileCopy),
    /// The source is moved.
    Done,
    /// The rename crossed devices: carry out the copy, then the removal of
    /// the source.
    CopyThenRemove { copy: CopyAction, remove: DeleteAction },
    /// The move of this source fails with the error.
    Fail(FsError),
}

/// `step` is the next action of moving `src`, whose link-level metadata is
/// `meta`, into the directory `dest`. A source without a file name fails
/// with `InvalidPath`. Before the rename is tried, the move is skipped when
/// source and target are the same location or the target exists, and is a
/// rename otherwise. After a rename that succeeded the move is done. After
/// one that failed with the code `cross_device`, the source is copied as
/// [`copy_plan`] says, its links skipped, and then removed as
/// [`permanent_plan`] says; after any other failure the move fails with the
/// error of that failure.
pub open spec fn is_move_step(
    src: Seq<char>,
    dest: Seq<char>,
    target_exists: bool,
    meta: EntryMeta,
    tried: Option<RenameOutcome>,
    diagnostic: bool,
    cross_device: i32,
    p: Platform,
    step: MoveStep,
) -> bool {
    match move_target_of(src, dest, p) {
        Err(e) => step == MoveStep::Fail(e),
        Ok(target) => match tried {
            None => if same_location(src, target, p) || target_exists {
                step == MoveStep::Skip
            } else {
                step matches MoveStep::Rename(c) && c@ == (FileCopyView { from: src, to: target })
            },
            Some(RenameOutcome::Renamed) => step == MoveStep::Done,
            Some(RenameOutcome::Failed { kind, os_code, detail }) => if os_code == Some(
                cross_device,
            ) {
                match copy_plan(src, dest, meta, p) {
                    Err(e) => step == MoveStep::Fail(e),
                    Ok(a) => step matches MoveStep::CopyThenRemove { copy, remove } && copy@ == a
                        && remove == permanent_plan(meta, p),
                }
            } else {
                step matches MoveStep::Fail(e) && maps_io_failure(kind, detail@, diagnostic, e)
            },
        },
    }
}

/// The next action of the move of one validated source into the validated
/// destination directory. `tried` is the outcome of the rename, `None` as
/// long as it has not been tried; `cross_device` is the error code that
/// marks a rename across devices.
pub fn move_entries_sync(
    src: &str,
    dest: &str,
    target_exists: bool,
    meta: &EntryMeta,
    tried: Option<&RenameOutcome>,
    diagnostic: bool,
    cross_device: i32,
    p: Platform,
) -> (step: MoveStep)
    ensures
        is_move_step(
            src@,
            dest@,
            target_exists,
            *meta,
            match tried {
                Some(t) => Some(*t),
                None => None,
            },
            diagnostic,
            cross_device,
            p,
            step,
        ),
{
    let target = match move_target(src, dest, p) {
        Ok(t) => t,
        Err(e) => {
            return MoveStep::Fail(e);
        },
    };
    match tried {
        None => {
            if same_path(src, target.as_str(), p) || target_exists {
                MoveStep::Skip
            } else {
                MoveStep::Rename(FileCopy { from: String::from_str(src), to: target })
            }
        },
        Some(RenameOutcome::Renamed) => MoveStep::Done,
        Some(RenameOutcome::Failed { kind, os_code, detail }) => {
            let crossed = match os_code {
                Some(code) => *code == cross_device,
                None => false,
            };
            if crossed {
                match copy_single_entry(src, dest, meta, p) {
                    Err(e) => MoveStep::Fail(e),
                    Ok(copy) => MoveStep::CopyThenRemove { copy, remove: delete_permanent(meta, p) },
                }
            } else {
                MoveStep::Fail(FsError::from_io(*kind, detail.as_str(), diagnostic))
            }
        },
    }
}

/// The error code with which Windows reports a move across volumes.
pub const ERROR_NOT_SAME_DEVICE: i32 = 17;

/// The value of `libc::EXDEV`, the error code with which a Unix system
/// reports a rename across file systems. The value is that of the target the
/// crate is built for.
#[verifier::external_body]
fn exdev() -> (code: i32) {
    libc::EXDEV
}

/// The error code that marks a rename across devices on `p`.
pub fn cross_device_code(p: Platform) -> (code: i32)
    ensures
        p == Platform::Windows ==> code == ERROR_NOT_SAME_DEVICE,
{
    match p {
        Platform::Windows => ERROR_NOT_SAME_DEVICE,
        Platform::Unix => exdev(),
    }
}

/// The number of copies that may run at once: the parallelism of the
/// machine, four where it is unknown, at least one and at most sixteen.
pub open spec fn permits(available: Option<usize>) -> usize {
    let n = match available {
        Some(n) => n,
        None => FALLBACK_PARALLELISM,
    };
    if n < 1 {
        1
    } else if n > MAX_PARALLEL_COPIES {
        MAX_PARALLEL_COPIES
    } else {
        n
    }
}

/// The number of copies that may run at once.
pub fn parallelism(available: Option<usize>) -> (n: usize)
    ensures
        n == permits(available),
        1 <= n <= MAX_PARALLEL_COPIES,
{
    let n = match available {
        Some(n) => n,
        None => FALLBACK_PARALLELISM,
    };
    if n < 1 {
        1
    } else if n > MAX_PARALLEL_COPIES {
        MAX_PARALLEL_COPIES
    } else {
        n
    }
}

/// A progress event is due after the `current`-th completion of `total`:
/// on every fifth, and on the last.
pub open spec fn progress_due(current: nat, total: nat) -> bool {
    current == total || current % (COPY_PROGRESS_INTERVAL as nat) == 0
}

/// What the scheduler of a batch asks of its caller.
#[derive(Debug, Clone, Copy, PartialEq, Eq, Structural)]
pub enum BatchStep {
    /// Start the task with this index; a permit is taken for it.
    Start(usize),
    /// Every permit is taken or every task is started: wait for a completion.
    Wait,
    /// Every task has completed.
    Finished,
}

/// The schedule of a batch of copies: which task starts next, how many run,
/// how many are done, and the first failure.
pub struct CopyBatch {
    total: usize,
    limit: usize,
    started: usize,
    completed: usize,
    cancelled: bool,
    failure: Option<FsError>,
}

impl CopyBatch {
    /// The batch is well formed: no more tasks run than there are permits,
    /// and no more are started than there are.
    pub closed spec fn wf(self) -> bool {
        &&& 1 <= self.limit <= MAX_PARALLEL_COPIES
        &&& self.completed <= self.started <= self.total
        &&& self.started - self.completed <= self.limit
    }

    /// The number of tasks of the batch.
    pub closed spec fn total(self) -> nat {
        self.total as nat
    }

    /// The number of permits.
    pub closed spec fn limit(self) -> nat {
        self.limit as nat
    }

    /// The number of tasks started so far.
    pub closed spec fn started(self) -> nat {
        self.started as nat
    }

    /// The number of tasks completed so far.
    pub closed spec fn completed(self) -> nat {
        self.completed as nat
    }

    /// The first failure among the completed tasks.
    pub closed spec fn failure(self) -> Option<FsError> {
        self.failure
    }

    /// Whether the batch was cancelled.
    pub closed spec fn cancelled(self) -> bool {
        self.cancelled
    }

    /// The number of tasks that run.
    pub open spec fn running(self) -> nat {
        (self.started() - self.completed()) as nat
    }

    /// The counts are in bounds: no more tasks are completed than started,
    /// no more started than there are, and no more run than there are permits.
    pub open spec fn in_bounds(self) -> bool {
        &&& self.completed() <= self.started() <= self.total()
        &&& self.started() - self.completed() <= self.limit()
        &&& 1 <= self.limit() <= MAX_PARALLEL_COPIES
    }

    /// A task may start: the batch is not cancelled, a task is left to
    /// start, and a permit is free.
    pub open spec fn may_start(self) -> bool {
        !self.cancelled() && self.started() < self.total() && self.running() < self.limit()
    }

    /// A batch of `total` tasks on a machine of the given parallelism.
    pub fn new(total: usize, available: Option<usize>) -> (b: CopyBatch)
        ensures
            b.wf(),
            b.in_bounds(),
            b.total() == total,
            b.limit() == permits(available),
            b.started() == 0,
            b.completed() == 0,
            !b.cancelled(),
            b.failure().is_none(),
    {
        CopyBatch {
            total,
            limit: parallelism(available),
            started: 0,
            completed: 0,
            cancelled: false,
            failure: None,
        }
    }

    /// Cancels the batch: no further task is started. The tasks that run
    /// are left to complete.
    pub fn cancel(&mut self)
        requires
            old(self).wf(),
        ensures
            final(self).wf(),
            final(self).in_bounds(),
            final(self).cancelled(),
            final(self).total() == old(self).total(),
            final(self).limit() == old(self).limit(),
            final(self).started() == old(self).started(),
            final(self).completed() == old(self).completed(),
            final(self).failure() == old(self).failure(),
    {
        self.cancelled = true;
    }

    /// The next step of the schedule. A task starts only while a permit is
    /// free, so never more than `limit` tasks run; the tasks start in order.
    /// Once the batch is cancelled no task starts.
    pub fn next_step(&mut self) -> (step: BatchStep)
        requires
            old(self).wf(),
        ensures
            final(self).wf(),
            final(self).in_bounds(),
            final(self).total() == old(self).total(),
            final(self).limit() == old(self).limit(),
            final(self).completed() == old(self).completed(),
            final(self).failure() == old(self).failure(),
            final(self).cancelled() == old(self).cancelled(),
            final(self).running() <= final(self).limit(),
            step == if old(self).may_start() {
                BatchStep::Start(old(self).started() as usize)
            } else if old(self).running() > 0 {
                BatchStep::Wait
            } else {
                BatchStep::Finished
            },
            final(self).started() == if step is Start {
                old(self).started() + 1
            } else {
                old(self).started()
            },
    {
        if !self.cancelled && self.started < self.total && self.started - self.completed
            < self.limit {
            let index = self.started;
            self.started = self.started + 1;
            BatchStep::Start(index)
        } else if self.started > self.completed {
            BatchStep::Wait
        } else {
            BatchStep::Finished
        }
    }

    /// Records that a running task has completed with `outcome`, and
    /// returns the progress event if one is due. The counter of completions
    /// goes up by one, the permit is free again, and the first failure is
    /// kept. With no task running, nothing changes.
    pub fn complete(&mut self, outcome: Result<(), FsError>, file: &str) -> (event: Option<
        CopyProgress,
    >)
        requires
            old(self).wf(),
        ensures
            final(self).wf(),
            final(self).in_bounds(),
            final(self).total() == old(self).total(),
            final(self).limit() == old(self).limit(),
            final(self).started() == old(self).started(),
            final(self).cancelled() == old(self).cancelled(),
            old(self).running() == 0 ==> {
                &&& final(self).completed() == old(self).completed()
                &&& final(self).failure() == old(self).failure()
                &&& event is None
            },
            old(self).running() > 0 ==> {
                &&& final(self).completed() == old(self).completed() + 1
                &&& final(self).failure() == match old(self).failure() {
                    Some(e) => Some(e),
                    None => match outcome {
                        Err(e) => Some(e),
                        Ok(_) => None,
                    },
                }
                &&& event is Some <==> progress_due(final(self).completed(), final(self).total())
                &&& event matches Some(e) ==> {
                    &&& e.current == final(self).completed()
                    &&& e.total == final(self).total()
                    &&& e.file@ == file@
                }
            },
    {
        if self.started == self.completed {
            return None;
        }
        self.completed = self.completed + 1;
        if self.failure.is_none() {
            if let Err(e) = outcome {
                self.failure = Some(e);
            }
        }
        if self.completed == self.total || self.completed % COPY_PROGRESS_INTERVAL == 0 {
            Some(
                CopyProgress {
                    current: self.completed,
                    total: self.total,
                    file: String::from_str(file),
                },
            )
        } else {
            None
        }
    }

    /// Whether every task has completed.
    pub fn is_finished(&self) -> (b: bool)
        requires
            self.wf(),
        ensures
            b == (self.completed() == self.total()),
    {
        self.completed == self.total
    }

    /// The result of the batch: the first failure; or `Cancelled` when no
    /// task failed but the batch was cancelled before every task was started;
    /// or success.
    pub fn into_result(self) -> (r: Result<(), FsError>)
        ensures
            r == match self.failure() {
                Some(e) => Err::<(), FsError>(e),
                None => if self.cancelled() && self.started() < self.total() {
                    Err::<(), FsError>(FsError::Cancelled)
                } else {
                    Ok::<(), FsError>(())
                },
            },
    {
        match self.failure {
            Some(e) => Err(e),
            None => if self.cancelled && self.started < self.total {
                Err(FsError::Cancelled)
            } else {
                Ok(())
            },
        }
    }
}

/// The counts that are reported among the first `k` completions of a batch
/// of `total` tasks, in order.
pub open spec fn reported(total: nat, k: nat) -> Seq<nat>
    decreases k,
{
    if k == 0 {
        Seq::empty()
    } else if progress_due(k, total) {
        reported(total, (k - 1) as nat).push(k)
    } else {
        reported(total, (k - 1) as nat)
    }
}

/// The reported counts among the first `k` completions rise strictly and
/// lie between 1 and `k`.
pub proof fn lemma_reported_rise(total: nat, k: nat)
    ensures
        forall|i: int|
            0 <= i < reported(total, k).len() ==> 1 <= (#[trigger] reported(total, k)[i]) <= k,
        forall|i: int, j: int|
            0 <= i < j < reported(total, k).len() ==> (#[trigger] reported(total, k)[i]) < (
            #[trigger] reported(total, k)[j]),
    decreases k,
{
    if k > 0 {
        lemma_reported_rise(total, (k - 1) as nat);
        let before = reported(total, (k - 1) as nat);
        let now = reported(total, k);
        assert forall|i: int| 0 <= i < now.len() implies 1 <= (#[trigger] now[i]) <= k by {
            if i < before.len() {
                assert(now[i] == before[i]);
            }
        }
        assert forall|i: int, j: int| 0 <= i < j < now.len() implies (#[trigger] now[i]) < (
        #[trigger] now[j]) by {
            assert(now[i] == before[i]);
            if j < before.len() {
                assert(now[j] == before[j]);
            }
        }
    }
}

/// The completions of a batch count up from 1 to `total`, one by one; of
/// these counts the reported ones rise strictly, every fifth is among them,
/// and the last one reported is `total` itself.
pub proof fn lemma_last_completion_is_reported(total: nat)
    requires
        total > 0,
    ensures
        progress_due(total, total),
        reported(total, total).len() > 0,
        reported(total, total).last() == total,
        forall|i: int, j: int|
            0 <= i < j < reported(total, total).len() ==> (#[trigger] reported(total, total)[i])
                < (#[trigger] reported(total, total)[j]),
        forall|k: nat| k % 5 == 0 ==> progress_due(k, total),
{
    lemma_reported_rise(total, total);
}

} // verus!
