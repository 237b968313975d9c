//! Search matching: which entries match a query, which lines of a file
//! match it, and the bookkeeping of a running search.
//!
//! The walk over the directory tree and the reading of files are the
//! caller's. Each visited entry is handed to [`process_search_entry`], and
//! its outcome to a [`SearchSession`], which counts, throttles progress and
//! stops at the quota.

use vstd::prelude::*;
use vstd::string::*;
use crate::config::SecurityConfig;
use crate::error::FsError;
use crate::validation::{sandboxed_outcome, validate_sandboxed, validated};
use crate::limits::{
    DEFAULT_SEARCH_DEPTH, DEFAULT_MAX_SEARCH_RESULTS, MAX_CONTENT_MATCHES_PER_FILE, MAX_MATCH_LINE_CHARS,
    MAX_SEARCH_FILE_SIZE, MAX_WALK_ENTRIES, SEARCH_PROGRESS_INTERVAL,
};
use crate::path::{Platform, extension, file_name, path_extension, path_file_name};
use crate::text::{
    eq_ignore_ascii_case, find_bytes, first_match, lowercase, same_ignoring_ascii_case, take_chars,
    to_lowercase, utf8,
};

verus! {

/// A content match within a file (line-based).
#[derive(Debug, Clone, PartialEq, Eq)]
pub struct ContentMatch {
    /// Number of the line, counted from 1.
    pub line_number: u64,
    /// The line, cut after its first 200 characters.
    pub line_content: String,
    /// Byte offset of the match within the line that was searched.
    pub match_start: u64,
    /// Byte offset just past the match.
    pub match_end: u64,
}

/// A [`ContentMatch`] with its text as characters.
pub struct ContentMatchView {
    pub line_number: u64,
    pub line_content: Seq<char>,
    pub match_start: u64,
    pub match_end: u64,
}

impl View for ContentMatch {
    type V = ContentMatchView;

    open spec fn view(&self) -> ContentMatchView {
        ContentMatchView {
            line_number: self.line_number,
            line_content: self.line_content@,
            match_start: self.match_start,
            match_end: self.match_end,
        }
    }
}

/// A search result entry.
#[derive(Debug, Clone, PartialEq, Eq)]
pub struct SearchResult {
    pub path: String,
    pub name: String,
    pub is_dir: bool,
    pub matches: Vec<ContentMatch>,
}

/// A [`SearchResult`] with its text as characters.
pub struct SearchResultView {
    pub path: Seq<char>,
    pub name: Seq<char>,
    pub is_dir: bool,
    pub matches: Seq<ContentMatchView>,
}

impl View for SearchResult {
    type V = SearchResultView;

    open spec fn view(&self) -> SearchResultView {
        SearchResultView {
            path: self.path@,
            name: self.name@,
            is_dir: self.is_dir,
            matches: match_views(self.matches@),
        }
    }
}

/// Options for file search operations.
#[derive(Debug, Clone, PartialEq, Eq)]
pub struct SearchOptions {
    pub query: String,
    pub search_path: String,
    pub search_content: bool,
    pub case_sensitive: bool,
    pub max_results: Option<u32>,
    pub file_extensions: Option<Vec<String>>,
}

/// Progress information for search operations.
#[derive(Debug, Clone, PartialEq, Eq)]
pub struct SearchProgress {
    pub scanned: usize,
    pub found: usize,
    pub current_path: String,
}

/// The views of the matches of `v`, in order.
pub open spec fn match_views(v: Seq<ContentMatch>) -> Seq<ContentMatchView> {
    v.map_values(|m: ContentMatch| m@)
}

/// The lines of `v` as characters; `None` stands for a line that could not be read.
pub open spec fn line_views(v: Seq<Option<String>>) -> Seq<Option<Seq<char>>> {
    v.map_values(
        |l: Option<String>|
            match l {
                Some(s) => Some(s@),
                None => None,
            },
    )
}

/// The text as it is compared: itself when case matters, its lowercase
/// equivalent when it does not.
pub open spec fn folded(s: Seq<char>, case_sensitive: bool) -> Seq<char> {
    if case_sensitive {
        s
    } else {
        lowercase(s)
    }
}

/// The query occurs in the text, both folded as the case rule says.
pub open spec fn contains_query(text: Seq<char>, query: Seq<char>, case_sensitive: bool) -> bool {
    first_match(utf8(folded(text, case_sensitive)), utf8(folded(query, case_sensitive))).is_some()
}

/// The line as it is kept in a match: its first 200 characters.
pub open spec fn kept_line(line: Seq<char>) -> Seq<char> {
    line.take(
        if line.len() >= MAX_MATCH_LINE_CHARS {
            MAX_MATCH_LINE_CHARS as int
        } else {
            line.len() as int
        },
    )
}

/// The match of the query in line number `number`, if the line holds it:
/// the first occurrence, in bytes of the folded line.
pub open spec fn line_match(line: Seq<char>, number: int, query: Seq<char>, case_sensitive: bool) -> Option<
    ContentMatchView,
> {
    let needle = utf8(folded(query, case_sensitive));
    match first_match(utf8(folded(line, case_sensitive)), needle) {
        None => None,
        Some(start) => Some(
            ContentMatchView {
                line_number: number as u64,
                line_content: kept_line(line),
                match_start: start as u64,
                match_end: (start + needle.len()) as u64,
            },
        ),
    }
}

/// The matches of all lines, in order. Lines count from 1, unreadable lines included.
pub open spec fn all_matches(lines: Seq<Option<Seq<char>>>, query: Seq<char>, case_sensitive: bool) -> Seq<
    ContentMatchView,
>
    decreases lines.len(),
{
    if lines.len() == 0 {
        Seq::empty()
    } else {
        let before = all_matches(lines.drop_last(), query, case_sensitive);
        match lines.last() {
            None => before,
            Some(line) => match line_match(line, lines.len() as int, query, case_sensitive) {
                None => before,
                Some(m) => before.push(m),
            },
        }
    }
}

/// The matches that a content search records: the first ten of all.
pub open spec fn content_matches(
    lines: Seq<Option<Seq<char>>>,
    query: Seq<char>,
    case_sensitive: bool,
) -> Seq<ContentMatchView> {
    let all = all_matches(lines, query, case_sensitive);
    if all.len() >= MAX_CONTENT_MATCHES_PER_FILE {
        all.take(MAX_CONTENT_MATCHES_PER_FILE as int)
    } else {
        all
    }
}

/// The matches of the first `i` lines are the first matches of all lines.
pub proof fn lemma_all_matches_prefix(
    lines: Seq<Option<Seq<char>>>,
    query: Seq<char>,
    case_sensitive: bool,
    i: int,
)
    requires
        0 <= i <= lines.len(),
    ensures
        all_matches(lines.take(i), query, case_sensitive).is_prefix_of(
            all_matches(lines, query, case_sensitive),
        ),
    decreases lines.len() - i,
{
    if i == lines.len() {
        assert(lines.take(i) =~= lines);
    } else {
        lemma_all_matches_prefix(lines, query, case_sensitive, i + 1);
        let next = lines.take(i + 1);
        assert(next.drop_last() =~= lines.take(i));
        let a = all_matches(lines.take(i), query, case_sensitive);
        let b = all_matches(next, query, case_sensitive);
        let c = all_matches(lines, query, case_sensitive);
        assert(a.is_prefix_of(b));
        assert(a =~= c.subrange(0, a.len() as int)) by {
            assert(b =~= c.subrange(0, b.len() as int));
        }
    }
}

/// Searches the lines of a file for the query. A line that could not be
/// read is passed over but counted. At most ten matches are recorded, and
/// the scan ends with the tenth.
pub fn search_file_content(lines: &Vec<Option<String>>, options: &SearchOptions) -> (matches: Vec<
    ContentMatch,
>)
    ensures
        match_views(matches@) == content_matches(
            line_views(lines@),
            options.query@,
            options.case_sensitive,
        ),
        matches.len() <= MAX_CONTENT_MATCHES_PER_FILE,
{
    let mut out: Vec<ContentMatch> = Vec::new();
    let needle = if options.case_sensitive {
        options.query.clone()
    } else {
        to_lowercase(options.query.as_str())
    };
    let ghost all_lines = line_views(lines@);
    let ghost q = options.query@;
    let ghost cs = options.case_sensitive;
    let mut i: usize = 0;
    assert(match_views(out@) =~= all_matches(all_lines.take(0), q, cs));
    while i < lines.len()
        invariant
            i <= lines.len(),
            all_lines == line_views(lines@),
            q == options.query@,
            cs == options.case_sensitive,
            needle@ == folded(q, cs),
            out.len() < MAX_CONTENT_MATCHES_PER_FILE,
            match_views(out@) == all_matches(all_lines.take(i as int), q, cs),
        decreases lines.len() - i,
    {
        proof {
            assert(all_lines.take(i + 1).drop_last() =~= all_lines.take(i as int));
            assert(all_lines.take(i + 1).last() == all_lines[i as int]);
        }
        if let Some(line) = &lines[i] {
            let hay = if options.case_sensitive {
                line.clone()
            } else {
                to_lowercase(line.as_str())
            };
            assert(hay@ == folded(line@, cs));
            let hay_bytes = hay.as_str().as_bytes();
            let needle_bytes = needle.as_str().as_bytes();
            let hay_len = hay_bytes.len();
            if let Some(start) = find_bytes(hay_bytes, needle_bytes) {
                let ghost before = out@;
                proof {
                    crate::text::lemma_first_match_from(hay_bytes@, needle_bytes@, 0);
                    assert(start + needle_bytes@.len() <= hay_len);
                }
                let found = ContentMatch {
                    line_number: (i as u64) + 1,
                    line_content: take_chars(line.as_str(), MAX_MATCH_LINE_CHARS),
                    match_start: start as u64,
                    match_end: (start + needle_bytes.len()) as u64,
                };
                proof {
                    assert(line_match(line@, i + 1, q, cs) == Some(found@));
                }
                out.push(found);
                assert(match_views(out@) =~= match_views(before).push(found@));
                if out.len() >= MAX_CONTENT_MATCHES_PER_FILE {
                    proof {
                        lemma_all_matches_prefix(all_lines, q, cs, i + 1);
                    }
                    return out;
                }
            }
        }
        i += 1;
    }
    assert(all_lines.take(lines.len() as int) =~= all_lines);
    out
}

/// The views of the strings of `v`, in order.
pub open spec fn extension_views(v: Seq<String>) -> Seq<Seq<char>> {
    v.map_values(|s: String| s@)
}

/// Some extension of `list` is `ext`, ASCII case aside.
pub open spec fn lists_extension(list: Seq<Seq<char>>, ext: Seq<char>) -> bool {
    exists|i: int| 0 <= i < list.len() && same_ignoring_ascii_case(#[trigger] list[i], ext)
}

/// The extension filter admits the entry: there is no filter, or the entry
/// is a directory, or its extension is on the list.
pub open spec fn extension_allowed(
    path: Seq<char>,
    is_dir: bool,
    allowed: Option<Seq<Seq<char>>>,
    p: Platform,
) -> bool {
    match allowed {
        None => true,
        Some(list) => if is_dir {
            true
        } else {
            match extension(path, p) {
                Some(ext) => lists_extension(list, ext),
                None => false,
            }
        },
    }
}

/// Whether the content of the entry is to be searched: content search is
/// on, the entry is a regular file, and its size is known and within the limit.
pub open spec fn wants_content(options: SearchOptions, is_file: bool, size: Option<u64>) -> bool {
    options.search_content && is_file && size is Some && size->0 <= MAX_SEARCH_FILE_SIZE
}

/// The allowed extensions of the options, as characters.
pub open spec fn allowed_extensions(options: SearchOptions) -> Option<Seq<Seq<char>>> {
    match options.file_extensions {
        Some(list) => Some(extension_views(list@)),
        None => None,
    }
}

/// The result for one visited entry. `content` holds the lines of the file
/// where the caller has read them.
pub open spec fn entry_result(
    path: Seq<char>,
    is_dir: bool,
    is_file: bool,
    size: Option<u64>,
    content: Option<Seq<Option<Seq<char>>>>,
    options: SearchOptions,
    p: Platform,
) -> Option<SearchResultView> {
    match file_name(path, p) {
        None => None,
        Some(name) => {
            let found = if wants_content(options, is_file, size) && content is Some {
                content_matches(content->0, options.query@, options.case_sensitive)
            } else {
                Seq::empty()
            };
            if !extension_allowed(path, is_dir, allowed_extensions(options), p) {
                None
            } else if contains_query(name, options.query@, options.case_sensitive) || found.len()
                > 0 {
                Some(SearchResultView { path, name, is_dir, matches: found })
            } else {
                None
            }
        },
    }
}

/// Whether the caller is to read the file before it hands the entry to
/// [`process_search_entry`].
pub fn needs_content(options: &SearchOptions, is_file: bool, size: Option<u64>) -> (b: bool)
    ensures
        b == wants_content(*options, is_file, size),
{
    match size {
        Some(n) => options.search_content && is_file && n <= MAX_SEARCH_FILE_SIZE,
        None => false,
    }
}

fn passes_extension_filter(path: &str, is_dir: bool, options: &SearchOptions, p: Platform) -> (b:
    bool)
    ensures
        b == extension_allowed(path@, is_dir, allowed_extensions(*options), p),
{
    match &options.file_extensions {
        None => true,
        Some(list) => {
            if is_dir {
                return true;
            }
            match path_extension(path, p) {
                None => false,
                Some(ext) => {
                    let ghost views = extension_views(list@);
                    let mut i: usize = 0;
                    while i < list.len()
                        invariant
                            i <= list.len(),
                            views == extension_views(list@),
                            !is_dir,
                            extension(path@, p) == Some(ext@),
                            allowed_extensions(*options) == Some(views),
                            forall|j: int|
                                0 <= j < i ==> !same_ignoring_ascii_case(#[trigger] views[j], ext@),
                        decreases list.len() - i,
                    {
                        assert(views[i as int] == list[i as int]@);
                        if eq_ignore_ascii_case(list[i].as_str(), ext.as_str()) {
                            assert(same_ignoring_ascii_case(views[i as int], ext@));
                            return true;
                        }
                        i += 1;
                    }
                    false
                },
            }
        },
    }
}

fn name_contains_query(name: &str, options: &SearchOptions) -> (b: bool)
    ensures
        b == contains_query(name@, options.query@, options.case_sensitive),
{
    if options.case_sensitive {
        find_bytes(name.as_bytes(), options.query.as_str().as_bytes()).is_some()
    } else {
        let hay = to_lowercase(name);
        let needle = to_lowercase(options.query.as_str());
        find_bytes(hay.as_str().as_bytes(), needle.as_str().as_bytes()).is_some()
    }
}

/// Processes a single entry for search matching. The entry is passed over
/// when it has no file name or the extension filter excludes it. It is a
/// result when its name holds the query or its content has a match; the
/// content counts only where [`needs_content`] asks for it.
pub fn process_search_entry(
    path: &str,
    is_dir: bool,
    is_file: bool,
    size: Option<u64>,
    content: Option<&Vec<Option<String>>>,
    options: &SearchOptions,
    p: Platform,
) -> (r: Option<SearchResult>)
    ensures
        match r {
            Some(found) => Some(found@),
            None => None,
        } == entry_result(
            path@,
            is_dir,
            is_file,
            size,
            match content {
                Some(lines) => Some(line_views(lines@)),
                None => None,
            },
            *options,
            p,
        ),
{
    let name = match path_file_name(path, p) {
        Some(n) => n,
        None => {
            return None;
        },
    };
    if !passes_extension_filter(path, is_dir, options, p) {
        return None;
    }
    let name_matches = name_contains_query(name.as_str(), options);
    let mut matches: Vec<ContentMatch> = Vec::new();
    assert(match_views(matches@) =~= Seq::<ContentMatchView>::empty());
    if needs_content(options, is_file, size) {
        if let Some(lines) = content {
            matches = search_file_content(lines, options);
        }
    }
    if name_matches || matches.len() > 0 {
        Some(SearchResult { path: String::from_str(path), name, is_dir, matches })
    } else {
        None
    }
}

/// What a caller needs to walk the tree of a search.
#[derive(Debug, Clone, PartialEq, Eq)]
pub struct SearchPlan {
    /// The validated root of the walk.
    pub root: String,
    /// How many levels below the root the walk descends.
    pub max_depth: usize,
    /// Whether the walk follows symbolic links: never.
    pub follow_links: bool,
    /// How many entries the walk may produce.
    pub max_entries: usize,
}

/// Validates the root of a search against the sandbox, once, and fixes the
/// bounds of the walk: ten levels deep, no link followed, at most 200,000
/// entries.
pub fn begin_search(
    options: &SearchOptions,
    resolved: Option<&str>,
    config: &SecurityConfig,
    p: Platform,
) -> (r: Result<SearchPlan, FsError>)
    ensures
        sandboxed_outcome(
            validated(
                options.search_path@,
                match resolved {
                    Some(c) => Some(c@),
                    None => None,
                },
                p,
            ),
            *config,
            p,
            match r {
                Ok(plan) => Ok(plan.root@),
                Err(e) => Err(e),
            },
        ),
        r matches Ok(plan) ==> plan.max_depth == DEFAULT_SEARCH_DEPTH && !plan.follow_links
            && plan.max_entries == MAX_WALK_ENTRIES,
{
    match validate_sandboxed(options.search_path.as_str(), resolved, config, p) {
        Err(e) => Err(e),
        Ok(root) => Ok(
            SearchPlan {
                root,
                max_depth: DEFAULT_SEARCH_DEPTH,
                follow_links: false,
                max_entries: MAX_WALK_ENTRIES,
            },
        ),
    }
}

/// The options of a search by name only: no content search, case ignored,
/// no extension filter.
pub fn search_by_name(search_path: String, query: String, max_results: Option<u32>) -> (options:
    SearchOptions)
    ensures
        options.query == query,
        options.search_path == search_path,
        !options.search_content,
        !options.case_sensitive,
        options.max_results == max_results,
        options.file_extensions.is_none(),
{
    SearchOptions {
        query,
        search_path,
        search_content: false,
        case_sensitive: false,
        max_results,
        file_extensions: None,
    }
}

/// The options of a search in file contents: content search on, case
/// ignored, with the given extension filter.
pub fn search_content(
    search_path: String,
    query: String,
    extensions: Option<Vec<String>>,
    max_results: Option<u32>,
) -> (options: SearchOptions)
    ensures
        options.query == query,
        options.search_path == search_path,
        options.search_content,
        !options.case_sensitive,
        options.max_results == max_results,
        options.file_extensions == extensions,
{
    SearchOptions {
        query,
        search_path,
        search_content: true,
        case_sensitive: false,
        max_results,
        file_extensions: extensions,
    }
}

/// The number of results after which a search stops.
pub open spec fn result_cap(max_results: Option<u32>) -> nat {
    match max_results {
        Some(n) => n as nat,
        None => DEFAULT_MAX_SEARCH_RESULTS as nat,
    }
}

/// What a finished search hands back.
#[derive(Debug, Clone, PartialEq, Eq)]
pub struct SearchReport {
    /// The results, at most as many as were asked for.
    pub results: Vec<SearchResult>,
    /// The final progress event.
    pub progress: SearchProgress,
    /// The payload of the completion event: the number of results.
    pub completed: usize,
}

/// The bookkeeping of one running search: how many entries were scanned,
/// which results were found, and whether to go on.
pub struct SearchSession {
    limit: usize,
    scanned: usize,
    cancelled: bool,
    results: Vec<SearchResult>,
}

impl SearchSession {
    /// The session is well formed: it holds no more results than its limit
    /// and has scanned no more entries than the cap allows.
    pub closed spec fn wf(self) -> bool {
        self.results.len() <= self.limit && self.scanned <= MAX_WALK_ENTRIES
    }

    /// The number of results at which the search stops.
    pub closed spec fn limit(self) -> nat {
        self.limit as nat
    }

    /// The number of entries scanned so far.
    pub closed spec fn scanned(self) -> nat {
        self.scanned as nat
    }

    /// The results found so far, in the order in which they were handed in.
    pub closed spec fn results(self) -> Seq<SearchResult> {
        self.results@
    }

    /// Whether the search was cancelled.
    pub closed spec fn cancelled(self) -> bool {
        self.cancelled
    }

    /// The search is over: it was cancelled, the quota of results is met,
    /// or the cap on scanned entries is reached.
    pub open spec fn stopped(self) -> bool {
        self.cancelled() || self.results().len() >= self.limit() || self.scanned()
            >= MAX_WALK_ENTRIES
    }

    /// A session for a search with these options, nothing scanned yet.
    pub fn new(options: &SearchOptions) -> (s: SearchSession)
        ensures
            s.wf(),
            s.limit() == result_cap(options.max_results),
            s.scanned() == 0,
            !s.cancelled(),
            s.results() == Seq::<SearchResult>::empty(),
    {
        let limit: usize = match options.max_results {
            Some(n) => n as usize,
            None => DEFAULT_MAX_SEARCH_RESULTS as usize,
        };
        SearchSession { limit, scanned: 0, cancelled: false, results: Vec::new() }
    }

    /// The progress event that opens a search.
    pub fn initial_progress(options: &SearchOptions) -> (e: SearchProgress)
        ensures
            e.scanned == 0,
            e.found == 0,
            e.current_path@ == options.search_path@,
    {
        SearchProgress { scanned: 0, found: 0, current_path: options.search_path.clone() }
    }

    /// Whether work that has not begun is to be dropped.
    pub fn should_stop(&self) -> (b: bool)
        ensures
            b == self.stopped(),
    {
        self.cancelled || self.results.len() >= self.limit || self.scanned >= MAX_WALK_ENTRIES
    }

    /// Cancels the search: work that has not begun is dropped, and what was
    /// found so far stays.
    pub fn cancel(&mut self)
        requires
            old(self).wf(),
        ensures
            final(self).wf(),
            final(self).cancelled(),
            final(self).stopped(),
            final(self).limit() == old(self).limit(),
            final(self).scanned() == old(self).scanned(),
            final(self).results() == old(self).results(),
    {
        self.cancelled = true;
    }

    /// The number of results found so far.
    pub fn found(&self) -> (n: usize)
        requires
            self.wf(),
        ensures
            n == self.results().len(),
            n <= self.limit(),
    {
        self.results.len()
    }

    /// Records one scanned entry and what matching made of it. Once the
    /// search has stopped, nothing is recorded. Otherwise the entry is
    /// counted, a result is kept, and a progress event is due when the number
    /// of entries scanned before this one is a multiple of the interval.
    pub fn visit(&mut self, path: &str, outcome: Option<SearchResult>) -> (progress: Option<
        SearchProgress,
    >)
        requires
            old(self).wf(),
        ensures
            final(self).wf(),
            final(self).limit() == old(self).limit(),
            final(self).cancelled() == old(self).cancelled(),
            final(self).results().len() <= final(self).limit(),
            old(self).stopped() ==> {
                &&& final(self).scanned() == old(self).scanned()
                &&& final(self).results() == old(self).results()
                &&& progress is None
            },
            !old(self).stopped() ==> {
                &&& final(self).scanned() == old(self).scanned() + 1
                &&& final(self).results() == match outcome {
                    Some(r) => old(self).results().push(r),
                    None => old(self).results(),
                }
                &&& progress is Some <==> old(self).scanned() % (SEARCH_PROGRESS_INTERVAL as nat)
                    == 0
                &&& progress matches Some(e) ==> {
                    &&& e.scanned == old(self).scanned()
                    &&& e.found == old(self).results().len()
                    &&& e.current_path@ == path@
                }
            },
    {
        if self.cancelled || self.results.len() >= self.limit || self.scanned >= MAX_WALK_ENTRIES {
            return None;
        }
        let progress = if self.scanned % SEARCH_PROGRESS_INTERVAL == 0 {
            Some(
                SearchProgress {
                    scanned: self.scanned,
                    found: self.results.len(),
                    current_path: String::from_str(path),
                },
            )
        } else {
            None
        };
        self.scanned = self.scanned + 1;
        if let Some(r) = outcome {
            self.results.push(r);
        }
        progress
    }

    /// Ends the search. `total_entries` is the number of entries that the
    /// walk produced. The report holds the results, the final progress event
    /// and the payload of the completion event.
    pub fn finish(self, total_entries: usize) -> (report: SearchReport)
        requires
            self.wf(),
        ensures
            report.results@ == self.results(),
            report.results.len() <= self.limit(),
            report.progress.scanned == total_entries,
            report.progress.found == report.results.len(),
            report.progress.current_path@ == Seq::<char>::empty(),
            report.completed == report.results.len(),
    {
        let found = self.results.len();
        SearchReport {
            results: self.results,
            progress: SearchProgress { scanned: total_entries, found, current_path: String::new() },
            completed: found,
        }
    }
}

/// The outcomes that are results, in order.
pub open spec fn hits(outcomes: Seq<Option<SearchResult>>) -> Seq<SearchResult>
    decreases outcomes.len(),
{
    if outcomes.len() == 0 {
        Seq::empty()
    } else {
        match outcomes.last() {
            Some(r) => hits(outcomes.drop_last()).push(r),
            None => hits(outcomes.drop_last()),
        }
    }
}

/// The results of a search over entries whose outcomes are known: the
/// first `cap` results in the order of the walk, the walk itself cut off at
/// the cap on scanned entries.
pub open spec fn collected(outcomes: Seq<Option<SearchResult>>, cap: nat) -> Seq<SearchResult> {
    let walked = if outcomes.len() > MAX_WALK_ENTRIES {
        outcomes.take(MAX_WALK_ENTRIES as int)
    } else {
        outcomes
    };
    let all = hits(walked);
    if all.len() > cap {
        all.take(cap as int)
    } else {
        all
    }
}

/// The results among the first `i` outcomes are the first results of all.
pub proof fn lemma_hits_prefix(outcomes: Seq<Option<SearchResult>>, i: int)
    requires
        0 <= i <= outcomes.len(),
    ensures
        hits(outcomes.take(i)).is_prefix_of(hits(outcomes)),
    decreases outcomes.len() - i,
{
    if i == outcomes.len() {
        assert(outcomes.take(i) =~= outcomes);
    } else {
        lemma_hits_prefix(outcomes, i + 1);
        let next = outcomes.take(i + 1);
        assert(next.drop_last() =~= outcomes.take(i));
        let a = hits(outcomes.take(i));
        let b = hits(next);
        let c = hits(outcomes);
        assert(a.is_prefix_of(b));
        assert(a =~= c.subrange(0, a.len() as int)) by {
            assert(b =~= c.subrange(0, b.len() as int));
        }
    }
}

/// Runs a whole search over entries whose outcomes are known, in the order
/// of the walk, and returns its results.
pub fn collect_results(outcomes: Vec<Option<SearchResult>>, options: &SearchOptions) -> (results:
    Vec<SearchResult>)
    ensures
        results@ == collected(outcomes@, result_cap(options.max_results)),
        results.len() <= result_cap(options.max_results),
{
    let mut session = SearchSession::new(options);
    let total = outcomes.len();
    let ghost all = outcomes@;
    let ghost cap = result_cap(options.max_results);
    let ghost walked = if all.len() > MAX_WALK_ENTRIES {
        all.take(MAX_WALK_ENTRIES as int)
    } else {
        all
    };
    assert(session.results() =~= hits(walked.take(0)));
    for outcome in it: outcomes
        invariant
            it.seq() == all,
            session.wf(),
            !session.cancelled(),
            session.limit() == cap,
            walked == if all.len() > MAX_WALK_ENTRIES {
                all.take(MAX_WALK_ENTRIES as int)
            } else {
                all
            },
            session.results().len() <= cap,
            !session.stopped() ==> {
                &&& session.scanned() == it.index()
                &&& it.index() <= walked.len()
                &&& session.results() == hits(walked.take(it.index()))
            },
            session.stopped() ==> session.results() == collected(all, cap),
    {
        let ghost i = it.index();
        let ghost was_stopped = session.stopped();
        proof {
            if !was_stopped {
                assert(i < walked.len());
                assert(walked.take(i + 1).drop_last() =~= walked.take(i));
                assert(walked.take(i + 1).last() == all[i]);
                lemma_hits_prefix(walked, i + 1);
            }
        }
        let _ = session.visit("", outcome);
        proof {
            if !was_stopped && session.stopped() {
                if session.results().len() < cap {
                    assert(walked.take(i + 1) =~= walked);
                } else {
                    assert(session.results() =~= hits(walked).take(cap as int));
                }
            }
        }
    }
    proof {
        if !session.stopped() {
            assert(walked =~= all);
            assert(walked.take(all.len() as int) =~= walked);
        }
    }
    session.finish(total).results
}

} // verus!
