//! Directory listings: building the entries of one directory level, sorting
//! them, handing them out in batches, and the size rules of the read path.

use std::collections::VecDeque;
use vstd::prelude::*;
use vstd::seq_lib::{lemma_multiset_commutative, to_multiset_build, to_multiset_remove};
use crate::error::FsError;
use crate::limits::{MAX_CONTENT_FILE_SIZE, STATS_THRESHOLD_BATCHES, STREAM_BATCH_SIZE};
use crate::path::Platform;
use crate::text::to_chars;
use crate::types::{entry_of, DirectoryStats, FileEntry, FileEntryView, FileTime};
use crate::config::SecurityConfig;
use crate::validation::{
    result_view, sandbox_decides, sandbox_outcome, validate_sandboxed, validated, EntryMeta,
};

verus! {

/// Lexicographic order on character sequences: character by character, a
/// proper prefix before its extensions.
pub open spec fn lex_le(a: Seq<char>, b: Seq<char>) -> bool
    decreases a.len(),
{
    if a.len() == 0 {
        true
    } else if b.len() == 0 {
        false
    } else if a[0] != b[0] {
        a[0] < b[0]
    } else {
        lex_le(a.drop_first(), b.drop_first())
    }
}

/// The order of a listing: directories before everything else, and within
/// each group by lowercase name.
pub open spec fn listed_before(a: FileEntryView, b: FileEntryView) -> bool {
    if a.is_dir != b.is_dir {
        a.is_dir
    } else {
        lex_le(a.name_lower, b.name_lower)
    }
}

/// Every entry stands before all that follow it.
pub open spec fn sorted(s: Seq<FileEntryView>) -> bool {
    forall|i: int, j: int| 0 <= i < j < s.len() ==> listed_before(#[trigger] s[i], #[trigger] s[j])
}

/// The views of the entries of `v`, in order.
pub open spec fn entry_views(v: Seq<FileEntry>) -> Seq<FileEntryView> {
    v.map_values(|e: FileEntry| e@)
}

/// Of two character sequences one stands before the other.
pub proof fn lemma_lex_total(a: Seq<char>, b: Seq<char>)
    ensures
        lex_le(a, b) || lex_le(b, a),
    decreases a.len(),
{
    if a.len() > 0 && b.len() > 0 && a[0] == b[0] {
        lemma_lex_total(a.drop_first(), b.drop_first());
    }
}

/// The lexicographic order is transitive.
pub proof fn lemma_lex_transitive(a: Seq<char>, b: Seq<char>, c: Seq<char>)
    requires
        lex_le(a, b),
        lex_le(b, c),
    ensures
        lex_le(a, c),
    decreases a.len(),
{
    if a.len() > 0 && b.len() > 0 && c.len() > 0 && a[0] == b[0] && b[0] == c[0] {
        lemma_lex_transitive(a.drop_first(), b.drop_first(), c.drop_first());
    }
}

/// Of two entries one is listed before the other.
pub proof fn lemma_listed_total(a: FileEntryView, b: FileEntryView)
    ensures
        listed_before(a, b) || listed_before(b, a),
{
    lemma_lex_total(a.name_lower, b.name_lower);
}

/// The order of a listing is transitive.
pub proof fn lemma_listed_transitive(a: FileEntryView, b: FileEntryView, c: FileEntryView)
    requires
        listed_before(a, b),
        listed_before(b, c),
    ensures
        listed_before(a, c),
{
    if a.is_dir == b.is_dir && b.is_dir == c.is_dir {
        lemma_lex_transitive(a.name_lower, b.name_lower, c.name_lower);
    }
}

/// Whether `a` stands before `b` in lexicographic order, or is equal to it.
fn chars_le(a: &Vec<char>, b: &Vec<char>) -> (r: bool)
    ensures
        r == lex_le(a@, b@),
{
    let mut i: usize = 0;
    assert(a@.skip(0) =~= a@ && b@.skip(0) =~= b@);
    loop
        invariant
            i <= a.len(),
            i <= b.len(),
            lex_le(a@, b@) == lex_le(a@.skip(i as int), b@.skip(i as int)),
        decreases a.len() - i,
    {
        if i == a.len() {
            return true;
        }
        if i == b.len() {
            return false;
        }
        proof {
            assert(a@.skip(i as int)[0] == a@[i as int]);
            assert(b@.skip(i as int)[0] == b@[i as int]);
            assert(a@.skip(i as int).drop_first() =~= a@.skip(i + 1));
            assert(b@.skip(i as int).drop_first() =~= b@.skip(i + 1));
        }
        if a[i] != b[i] {
            return a[i] < b[i];
        }
        i += 1;
    }
}

/// An entry with its sort key: the characters of its lowercase name.
struct Keyed {
    key: Vec<char>,
    entry: FileEntry,
}

spec fn keyed_ok(k: Keyed) -> bool {
    k.key@ == k.entry.name_lower@
}

spec fn all_keyed_ok(s: Seq<Keyed>) -> bool {
    forall|i: int| 0 <= i < s.len() ==> keyed_ok(#[trigger] s[i])
}

spec fn keyed_views(s: Seq<Keyed>) -> Seq<FileEntryView> {
    s.map_values(|k: Keyed| k.entry@)
}

fn keyed_before(a: &Keyed, b: &Keyed) -> (r: bool)
    requires
        keyed_ok(*a),
        keyed_ok(*b),
    ensures
        r == listed_before(a.entry@, b.entry@),
{
    if a.entry.is_dir != b.entry.is_dir {
        a.entry.is_dir
    } else {
        chars_le(&a.key, &b.key)
    }
}

/// Merges two sorted runs into one, taking from the left run on ties.
fn merge(left: VecDeque<Keyed>, right: VecDeque<Keyed>) -> (out: VecDeque<Keyed>)
    requires
        all_keyed_ok(left@),
        all_keyed_ok(right@),
        sorted(keyed_views(left@)),
        sorted(keyed_views(right@)),
    ensures
        all_keyed_ok(out@),
        sorted(keyed_views(out@)),
        keyed_views(out@).to_multiset() == keyed_views(left@).to_multiset().add(
            keyed_views(right@).to_multiset(),
        ),
{
    broadcast use vstd::multiset::group_multiset_axioms;

    let mut l = left;
    let mut r = right;
    let mut out: VecDeque<Keyed> = VecDeque::new();
    let ghost whole = keyed_views(left@).to_multiset().add(keyed_views(right@).to_multiset());
    assert(keyed_views(out@) =~= Seq::<FileEntryView>::empty());
    proof {
        let none = Seq::<FileEntryView>::empty();
        lemma_multiset_commutative(none, keyed_views(l@));
        assert(none + keyed_views(l@) =~= keyed_views(l@));
    }
    while l.len() > 0 && r.len() > 0
        invariant
            all_keyed_ok(l@),
            all_keyed_ok(r@),
            all_keyed_ok(out@),
            sorted(keyed_views(l@)),
            sorted(keyed_views(r@)),
            sorted(keyed_views(out@)),
            forall|i: int, j: int|
                0 <= i < out@.len() && 0 <= j < l@.len() ==> listed_before(
                    #[trigger] keyed_views(out@)[i],
                    #[trigger] keyed_views(l@)[j],
                ),
            forall|i: int, j: int|
                0 <= i < out@.len() && 0 <= j < r@.len() ==> listed_before(
                    #[trigger] keyed_views(out@)[i],
                    #[trigger] keyed_views(r@)[j],
                ),
            keyed_views(out@).to_multiset().add(keyed_views(l@).to_multiset()).add(
                keyed_views(r@).to_multiset(),
            ) =~= whole,
        decreases l.len() + r.len(),
    {
        let ghost lv = keyed_views(l@);
        let ghost rv = keyed_views(r@);
        let ghost ov = keyed_views(out@);
        let take_left = keyed_before(&l[0], &r[0]);
        if take_left {
            let x = l.pop_front().unwrap();
            proof {
                assert(keyed_views(l@) =~= lv.remove(0));
                to_multiset_remove(lv, 0);
                to_multiset_build(ov, x.entry@);
                assert forall|j: int| 0 <= j < rv.len() implies listed_before(
                    x.entry@,
                    #[trigger] rv[j],
                ) by {
                    if j > 0 {
                        lemma_listed_transitive(x.entry@, rv[0], rv[j]);
                    }
                }
                assert forall|j: int| 0 <= j < lv.len() - 1 implies listed_before(
                    x.entry@,
                    #[trigger] keyed_views(l@)[j],
                ) by {
                    assert(keyed_views(l@)[j] == lv[j + 1]);
                }
                assert forall|i: int, j: int| 0 <= i < j < lv.len() - 1 implies listed_before(
                    #[trigger] keyed_views(l@)[i],
                    #[trigger] keyed_views(l@)[j],
                ) by {
                    assert(keyed_views(l@)[i] == lv[i + 1]);
                    assert(keyed_views(l@)[j] == lv[j + 1]);
                }
                assert forall|i: int, j: int|
                    0 <= i < ov.len() && 0 <= j < lv.len() - 1 implies listed_before(
                    #[trigger] ov[i],
                    #[trigger] keyed_views(l@)[j],
                ) by {
                    assert(keyed_views(l@)[j] == lv[j + 1]);
                }
            }
            out.push_back(x);
            proof {
                assert(keyed_views(out@) =~= ov.push(x.entry@));
                assert(x.entry@ == lv[0]);
                assert(lv.contains(lv[0]));
                vstd::seq_lib::to_multiset_contains(lv, lv[0]);
                assert(ov.push(lv[0]).to_multiset().add(lv.remove(0).to_multiset()) =~= ov.to_multiset().add(
                    lv.to_multiset(),
                ));
            }
        } else {
            let x = r.pop_front().unwrap();
            proof {
                assert(keyed_views(r@) =~= rv.remove(0));
                to_multiset_remove(rv, 0);
                to_multiset_build(ov, x.entry@);
                lemma_listed_total(lv[0], rv[0]);
                assert forall|j: int| 0 <= j < lv.len() implies listed_before(
                    x.entry@,
                    #[trigger] lv[j],
                ) by {
                    if j > 0 {
                        lemma_listed_transitive(x.entry@, lv[0], lv[j]);
                    }
                }
                assert forall|j: int| 0 <= j < rv.len() - 1 implies listed_before(
                    x.entry@,
                    #[trigger] keyed_views(r@)[j],
                ) by {
                    assert(keyed_views(r@)[j] == rv[j + 1]);
                }
                assert forall|i: int, j: int| 0 <= i < j < rv.len() - 1 implies listed_before(
                    #[trigger] keyed_views(r@)[i],
                    #[trigger] keyed_views(r@)[j],
                ) by {
                    assert(keyed_views(r@)[i] == rv[i + 1]);
                    assert(keyed_views(r@)[j] == rv[j + 1]);
                }
                assert forall|i: int, j: int|
                    0 <= i < ov.len() && 0 <= j < rv.len() - 1 implies listed_before(
                    #[trigger] ov[i],
                    #[trigger] keyed_views(r@)[j],
                ) by {
                    assert(keyed_views(r@)[j] == rv[j + 1]);
                }
            }
            out.push_back(x);
            proof {
                assert(keyed_views(out@) =~= ov.push(x.entry@));
                assert(x.entry@ == rv[0]);
                assert(rv.contains(rv[0]));
                vstd::seq_lib::to_multiset_contains(rv, rv[0]);
                assert(ov.push(rv[0]).to_multiset().add(lv.to_multiset()).add(
                    rv.remove(0).to_multiset(),
                ) =~= ov.to_multiset().add(lv.to_multiset()).add(rv.to_multiset()));
            }
        }
    }
    let ghost ov = keyed_views(out@);
    let ghost lv = keyed_views(l@);
    let ghost rv = keyed_views(r@);
    out.append(&mut l);
    out.append(&mut r);
    proof {
        assert(keyed_views(out@) =~= ov + lv + rv);
        lemma_multiset_commutative(ov, lv);
        lemma_multiset_commutative(ov + lv, rv);
        assert(lv.len() == 0 || rv.len() == 0);
    }
    out
}

/// Sorts a run by merging its sorted halves.
fn merge_sort(run: VecDeque<Keyed>) -> (out: VecDeque<Keyed>)
    requires
        all_keyed_ok(run@),
    ensures
        all_keyed_ok(out@),
        sorted(keyed_views(out@)),
        keyed_views(out@).to_multiset() == keyed_views(run@).to_multiset(),
    decreases run@.len(),
{
    if run.len() <= 1 {
        return run;
    }
    let mut left = run;
    let mid = left.len() / 2;
    let right = left.split_off(mid);
    proof {
        assert(keyed_views(run@) =~= keyed_views(left@) + keyed_views(right@));
        lemma_multiset_commutative(keyed_views(left@), keyed_views(right@));
    }
    let sorted_left = merge_sort(left);
    let sorted_right = merge_sort(right);
    merge(sorted_left, sorted_right)
}

/// Sorts the entries of a listing: directories first, then by lowercase
/// name. The result holds the same entries, each as often as before.
pub fn sort_entries(entries: Vec<FileEntry>) -> (out: Vec<FileEntry>)
    ensures
        sorted(entry_views(out@)),
        entry_views(out@).to_multiset() == entry_views(entries@).to_multiset(),
        out.len() == entries.len(),
{
    broadcast use vstd::multiset::group_multiset_axioms;

    let mut rest = entries;
    let mut run: VecDeque<Keyed> = VecDeque::new();
    assert(entry_views(rest@) + keyed_views(run@) =~= entry_views(entries@));
    while rest.len() > 0
        invariant
            all_keyed_ok(run@),
            entry_views(rest@) + keyed_views(run@) == entry_views(entries@),
        decreases rest.len(),
    {
        let ghost before_rest = rest@;
        let ghost before_run = run@;
        let entry = rest.pop().unwrap();
        let key = to_chars(entry.name_lower.as_str());
        run.push_front(Keyed { key, entry });
        proof {
            assert(keyed_views(run@) =~= seq![entry@] + keyed_views(before_run));
            assert(entry_views(before_rest) =~= entry_views(rest@).push(entry@));
            assert(entry_views(rest@) + keyed_views(run@) =~= entry_views(before_rest)
                + keyed_views(before_run));
        }
    }
    assert(keyed_views(run@) =~= entry_views(entries@));
    let mut ordered = merge_sort(run);
    let ghost target = keyed_views(ordered@);
    let mut out: Vec<FileEntry> = Vec::new();
    assert(entry_views(out@) + keyed_views(ordered@) =~= target);
    while ordered.len() > 0
        invariant
            entry_views(out@) + keyed_views(ordered@) == target,
        decreases ordered@.len(),
    {
        let ghost before_out = out@;
        let ghost before = ordered@;
        let k = ordered.pop_front().unwrap();
        out.push(k.entry);
        proof {
            assert(entry_views(out@) =~= entry_views(before_out).push(k.entry@));
            assert(keyed_views(before) =~= seq![k.entry@] + keyed_views(ordered@));
            assert(entry_views(out@) + keyed_views(ordered@) =~= entry_views(before_out)
                + keyed_views(before));
        }
    }
    assert(entry_views(out@) =~= target);
    proof {
        vstd::seq_lib::to_multiset_len(entry_views(out@));
        vstd::seq_lib::to_multiset_len(entry_views(entries@));
    }
    out
}

/// One child of a directory as the listing reports it. The metadata is
/// absent where it could not be read.
#[derive(Debug, Clone, PartialEq, Eq)]
pub struct ListedChild {
    pub path: String,
    pub meta: Option<EntryMeta>,
    pub modified: Option<FileTime>,
    pub created: Option<FileTime>,
}

/// The entry that a listed child gives: none where its metadata is absent
/// or its path has no file name.
pub open spec fn entry_for(c: ListedChild, p: Platform) -> Option<FileEntryView> {
    match c.meta {
        None => None,
        Some(meta) => entry_of(c.path@, meta, c.modified, c.created, p),
    }
}

/// The entries of a listing in listing order, the children without an
/// entry left out.
pub open spec fn listed_entries(children: Seq<ListedChild>, p: Platform) -> Seq<FileEntryView>
    decreases children.len(),
{
    if children.len() == 0 {
        Seq::empty()
    } else {
        let before = listed_entries(children.drop_last(), p);
        match entry_for(children.last(), p) {
            Some(e) => before.push(e),
            None => before,
        }
    }
}

/// Builds the entry of one listed child; none where its metadata is absent
/// or its path has no file name.
pub fn build_entry(child: &ListedChild, p: Platform) -> (entry: Option<FileEntry>)
    ensures
        match entry {
            Some(e) => Some(e@),
            None => None,
        } == entry_for(*child, p),
{
    match &child.meta {
        Some(meta) => FileEntry::from_dir_entry(
            child.path.as_str(),
            meta,
            child.modified,
            child.created,
            p,
        ),
        None => None,
    }
}

/// Builds the entries of one directory level, in listing order. A child
/// whose metadata could not be read is skipped.
pub fn build_entries(children: &Vec<ListedChild>, p: Platform) -> (out: Vec<FileEntry>)
    ensures
        entry_views(out@) == listed_entries(children@, p),
{
    let mut out: Vec<FileEntry> = Vec::new();
    let mut i: usize = 0;
    assert(entry_views(out@) =~= listed_entries(children@.take(0), p));
    while i < children.len()
        invariant
            i <= children.len(),
            entry_views(out@) == listed_entries(children@.take(i as int), p),
        decreases children.len() - i,
    {
        let child = &children[i];
        proof {
            assert(children@.take(i + 1).drop_last() =~= children@.take(i as int));
            assert(children@.take(i + 1).last() == *child);
        }
        if let Some(entry) = build_entry(child, p) {
            let ghost before = out@;
            out.push(entry);
            assert(entry_views(out@) =~= entry_views(before).push(entry@));
        }
        i += 1;
    }
    assert(children@.take(children.len() as int) =~= children@);
    out
}

/// `v` is a listing of the children: their entries, each as often as the
/// children give it, sorted with directories first and then by lowercase name.
pub open spec fn is_listing_of(v: Seq<FileEntry>, children: Seq<ListedChild>, p: Platform) -> bool {
    &&& sorted(entry_views(v))
    &&& entry_views(v).to_multiset() == listed_entries(children, p).to_multiset()
    &&& v.len() == listed_entries(children, p).len()
}

/// The listing of one directory level: the entries of the children, sorted
/// with directories first and then by lowercase name.
pub fn list_entries(children: &Vec<ListedChild>, p: Platform) -> (out: Vec<FileEntry>)
    ensures
        is_listing_of(out@, children@, p),
{
    sort_entries(build_entries(children, p))
}

/// What reading a directory promises of its outcome `r`. The error of the
/// validation of `path` is passed on. A validated path that the sandbox
/// refuses gives `AccessDenied`. For one that it accepts, a directory that
/// could not be read gives `ReadDirectoryFailed`, and one that could gives a
/// listing of its children.
pub open spec fn listed_outcome(
    path: Seq<char>,
    resolved: Option<Seq<char>>,
    children: Option<Seq<ListedChild>>,
    config: SecurityConfig,
    p: Platform,
    r: Result<Vec<FileEntry>, FsError>,
) -> bool {
    match validated(path, resolved, p) {
        Err(e) => r == Err::<Vec<FileEntry>, FsError>(e),
        Ok(c) => {
            ||| sandbox_outcome(c, config, p, false) && r == Err::<Vec<FileEntry>, FsError>(
                FsError::AccessDenied,
            )
            ||| sandbox_outcome(c, config, p, true) && match children {
                None => r == Err::<Vec<FileEntry>, FsError>(FsError::ReadDirectoryFailed),
                Some(listed) => r matches Ok(v) && is_listing_of(v@, listed, p),
            }
        },
    }
}

/// Read directory contents. The path is validated in follow mode and
/// checked against the sandbox. `children` is what the directory at the
/// validated path holds, `None` when it could not be read.
pub fn read_directory_sync(
    path: &str,
    resolved: Option<&str>,
    children: Option<&Vec<ListedChild>>,
    config: &SecurityConfig,
    p: Platform,
) -> (r: Result<Vec<FileEntry>, FsError>)
    ensures
        listed_outcome(
            path@,
            match resolved {
                Some(c) => Some(c@),
                None => None,
            },
            match children {
                Some(listed) => Some(listed@),
                None => None,
            },
            *config,
            p,
            r,
        ),
{
    match validate_sandboxed(path, resolved, config, p) {
        Err(e) => Err(e),
        Ok(_) => match children {
            None => Err(FsError::ReadDirectoryFailed),
            Some(listed) => Ok(list_entries(listed, p)),
        },
    }
}

/// The number of entries above which a directory counts as large.
pub open spec fn stats_threshold() -> nat {
    (STREAM_BATCH_SIZE * STATS_THRESHOLD_BATCHES) as nat
}

/// The statistics of a directory with `entries` children. Counting stops
/// with the first entry above the threshold.
pub open spec fn stats_of(entries: nat) -> DirectoryStats {
    if entries > stats_threshold() {
        DirectoryStats { count: (stats_threshold() + 1) as usize, exceeded_threshold: true }
    } else {
        DirectoryStats { count: entries as usize, exceeded_threshold: false }
    }
}

/// The number of entries that a caller needs to see at most to get the
/// statistics of a directory.
pub fn stats_probe_limit() -> (n: usize)
    ensures
        n == stats_threshold() + 1,
{
    STREAM_BATCH_SIZE * STATS_THRESHOLD_BATCHES + 1
}

/// The statistics of a directory, from the number of entries seen.
pub fn directory_stats(entries: usize) -> (stats: DirectoryStats)
    ensures
        stats == stats_of(entries as nat),
{
    let threshold = STREAM_BATCH_SIZE * STATS_THRESHOLD_BATCHES;
    if entries > threshold {
        DirectoryStats { count: threshold + 1, exceeded_threshold: true }
    } else {
        DirectoryStats { count: entries, exceeded_threshold: false }
    }
}

/// The statistics of a readable directory with `seen` entries, or the
/// error of one that could not be read.
pub open spec fn stats_result(seen: Option<usize>) -> Result<DirectoryStats, FsError> {
    match seen {
        None => Err(FsError::ReadDirectoryFailed),
        Some(n) => Ok(stats_of(n as nat)),
    }
}

/// Get directory statistics. The path is validated in follow mode and
/// checked against the sandbox. `seen` is the number of entries seen in the
/// directory at the validated path, `None` when it could not be read.
pub fn get_directory_stats(
    path: &str,
    resolved: Option<&str>,
    seen: Option<usize>,
    config: &SecurityConfig,
    p: Platform,
) -> (r: Result<DirectoryStats, FsError>)
    ensures
        match validated(
            path@,
            match resolved {
                Some(c) => Some(c@),
                None => None,
            },
            p,
        ) {
            Err(e) => r == Err::<DirectoryStats, FsError>(e),
            Ok(c) => sandbox_decides(c, *config, p, r, stats_result(seen)),
        },
{
    match validate_sandboxed(path, resolved, config, p) {
        Err(e) => Err(e),
        Ok(_) => match seen {
            None => Err(FsError::ReadDirectoryFailed),
            Some(n) => Ok(directory_stats(n)),
        },
    }
}

/// A file may be read as text when it is no larger than the limit.
pub open spec fn content_size_check(len: u64) -> Result<(), FsError> {
    if len > MAX_CONTENT_FILE_SIZE {
        Err(FsError::FileTooLarge)
    } else {
        Ok(())
    }
}

/// Whether a file of this size may be read as text.
pub fn check_content_size(len: u64) -> (r: Result<(), FsError>)
    ensures
        r == content_size_check(len),
{
    if len > MAX_CONTENT_FILE_SIZE {
        Err(FsError::FileTooLarge)
    } else {
        Ok(())
    }
}

/// The path to read for a file of `len` bytes at the validated path `c`,
/// or `FileTooLarge`.
pub open spec fn content_path(c: Seq<char>, len: u64) -> Result<Seq<char>, FsError> {
    match content_size_check(len) {
        Err(e) => Err(e),
        Ok(_) => Ok(c),
    }
}

/// Plans the reading of a file as text. The path is validated in follow
/// mode and checked against the sandbox; then a file of more than the limit,
/// `len` being its size, is refused with `FileTooLarge`. The result is the
/// path to read.
pub fn get_file_content(
    path: &str,
    resolved: Option<&str>,
    len: u64,
    config: &SecurityConfig,
    p: Platform,
) -> (r: Result<String, FsError>)
    ensures
        match validated(
            path@,
            match resolved {
                Some(c) => Some(c@),
                None => None,
            },
            p,
        ) {
            Err(e) => r == Err::<String, FsError>(e),
            Ok(c) => sandbox_decides(c, *config, p, result_view(r), content_path(c, len)),
        },
{
    match validate_sandboxed(path, resolved, config, p) {
        Err(e) => Err(e),
        Ok(file) => match check_content_size(len) {
            Err(e) => Err(e),
            Ok(_) => Ok(file),
        },
    }
}

/// Collects the entries of a streamed listing into batches of fixed size.
pub struct StreamBatcher {
    batch: Vec<FileEntry>,
}

impl StreamBatcher {
    /// The entries that wait for the batch to fill.
    pub closed spec fn waiting(self) -> Seq<FileEntry> {
        self.batch@
    }

    /// The batcher is well formed: fewer entries wait than a batch holds.
    pub open spec fn wf(self) -> bool {
        self.waiting().len() < STREAM_BATCH_SIZE
    }

    /// A batcher with nothing waiting.
    pub fn new() -> (b: StreamBatcher)
        ensures
            b.wf(),
            b.waiting() == Seq::<FileEntry>::empty(),
    {
        StreamBatcher { batch: Vec::new() }
    }

    /// Takes in one entry. When it completes a batch, the batch is returned
    /// for emission and nothing waits; otherwise the entry waits.
    pub fn push(&mut self, entry: FileEntry) -> (full: Option<Vec<FileEntry>>)
        requires
            old(self).wf(),
        ensures
            final(self).wf(),
            match full {
                Some(batch) => {
                    &&& batch@ == old(self).waiting().push(entry)
                    &&& batch.len() == STREAM_BATCH_SIZE
                    &&& final(self).waiting() == Seq::<FileEntry>::empty()
                },
                None => {
                    &&& final(self).waiting() == old(self).waiting().push(entry)
                    &&& old(self).waiting().len() + 1 < STREAM_BATCH_SIZE
                },
            },
    {
        self.batch.push(entry);
        if self.batch.len() >= STREAM_BATCH_SIZE {
            let mut full: Vec<FileEntry> = Vec::new();
            core::mem::swap(&mut full, &mut self.batch);
            Some(full)
        } else {
            None
        }
    }

    /// Ends the stream: the entries that still wait form the last batch,
    /// which is emitted unless it is empty.
    pub fn finish(self) -> (last: Option<Vec<FileEntry>>)
        requires
            self.wf(),
        ensures
            match last {
                Some(batch) => batch@ == self.waiting() && batch.len() > 0,
                None => self.waiting().len() == 0,
            },
    {
        if self.batch.len() > 0 {
            Some(self.batch)
        } else {
            None
        }
    }
}

/// The batches of a whole stream: full batches in order, then the rest.
pub open spec fn batches_of(entries: Seq<FileEntry>) -> Seq<Seq<FileEntry>>
    decreases entries.len(),
{
    if entries.len() == 0 {
        Seq::empty()
    } else if entries.len() <= STREAM_BATCH_SIZE {
        seq![entries]
    } else {
        seq![entries.take(STREAM_BATCH_SIZE as int)] + batches_of(
            entries.skip(STREAM_BATCH_SIZE as int),
        )
    }
}

/// The batches of a stream, joined in order, are the stream; none is
/// empty and none is larger than the batch size.
pub proof fn lemma_batches_cover_the_stream(entries: Seq<FileEntry>)
    ensures
        batches_of(entries).flatten() == entries,
        forall|i: int|
            0 <= i < batches_of(entries).len() ==> 0 < (#[trigger] batches_of(entries)[i]).len()
                <= STREAM_BATCH_SIZE,
    decreases entries.len(),
{
    if entries.len() == 0 {
        assert(batches_of(entries).flatten() =~= entries);
    } else if entries.len() <= STREAM_BATCH_SIZE {
        let one = seq![entries];
        assert(one.drop_first() =~= Seq::<Seq<FileEntry>>::empty());
        assert(one.flatten() =~= entries + one.drop_first().flatten());
        assert(one.flatten() =~= entries);
    } else {
        let head = entries.take(STREAM_BATCH_SIZE as int);
        let tail = entries.skip(STREAM_BATCH_SIZE as int);
        lemma_batches_cover_the_stream(tail);
        let all = batches_of(entries);
        assert(all.drop_first() =~= batches_of(tail));
        assert(all.flatten() =~= head + batches_of(tail).flatten());
        assert(head + tail =~= entries);
    }
}

/// Splits the entries of a listing into the batches of a stream.
pub fn read_directory_stream(entries: Vec<FileEntry>) -> (batches: Vec<Vec<FileEntry>>)
    ensures
        batches@.map_values(|b: Vec<FileEntry>| b@) == batches_of(entries@),
{
    let ghost all = entries@;
    let mut batcher = StreamBatcher::new();
    let mut out: Vec<Vec<FileEntry>> = Vec::new();
    let ghost mut done: int = 0;
    assert(out@.map_values(|b: Vec<FileEntry>| b@) =~= Seq::<Seq<FileEntry>>::empty());
    assert(all.skip(0) =~= all);
    for entry in it: entries
        invariant
            it.seq() == all,
            batcher.wf(),
            0 <= done <= it.index(),
            batcher.waiting() == all.subrange(done, it.index()),
            out@.map_values(|b: Vec<FileEntry>| b@) + batches_of(all.skip(done)) == batches_of(all),
    {
        let ghost i = it.index();
        let ghost shown = out@.map_values(|b: Vec<FileEntry>| b@);
        assert(all.subrange(done, i).push(all[i]) =~= all.subrange(done, i + 1));
        if let Some(full) = batcher.push(entry) {
            proof {
                let rest = all.skip(done);
                assert(rest.len() >= STREAM_BATCH_SIZE);
                assert(rest.take(STREAM_BATCH_SIZE as int) =~= full@);
                assert(rest.skip(STREAM_BATCH_SIZE as int) =~= all.skip(i + 1));
                if rest.len() == STREAM_BATCH_SIZE {
                    assert(rest =~= full@);
                    assert(batches_of(all.skip(i + 1)) =~= Seq::<Seq<FileEntry>>::empty());
                }
                assert(batches_of(rest) =~= seq![full@] + batches_of(all.skip(i + 1)));
            }
            out.push(full);
            proof {
                assert(out@.map_values(|b: Vec<FileEntry>| b@) =~= shown.push(full@));
                assert(shown.push(full@) + batches_of(all.skip(i + 1)) =~= shown + (seq![full@]
                    + batches_of(all.skip(i + 1))));
                done = i + 1;
                assert(all.subrange(done, i + 1) =~= Seq::<FileEntry>::empty());
            }
        }
    }
    let ghost shown = out@.map_values(|b: Vec<FileEntry>| b@);
    let ghost rest = all.skip(done);
    assert(rest =~= batcher.waiting());
    if let Some(last) = batcher.finish() {
        out.push(last);
        proof {
            assert(batches_of(rest) =~= seq![rest]);
            assert(out@.map_values(|b: Vec<FileEntry>| b@) =~= shown.push(last@));
            assert(shown.push(last@) =~= shown + seq![rest]);
        }
    } else {
        assert(shown + batches_of(rest) =~= shown);
    }
    out
}

} // verus!
