//! Operational limits that bound traversal, streaming, search and copying.

use vstd::prelude::*;

verus! {

/// Maximum directory traversal depth.
pub const MAX_DIRECTORY_DEPTH: usize = 100;

/// Batch size for streaming directory contents.
pub const STREAM_BATCH_SIZE: usize = 100;

/// Number of streamed batches after which a directory counts as large.
pub const STATS_THRESHOLD_BATCHES: usize = 20;

/// Progress update interval for search operations.
pub const SEARCH_PROGRESS_INTERVAL: usize = 100;

/// Maximum entries to walk during search.
pub const MAX_WALK_ENTRIES: usize = 200_000;

/// Maximum characters for text preview.
pub const MAX_PREVIEW_CHARS: usize = 10_000;

/// Maximum file size for content reading (10 MB).
pub const MAX_CONTENT_FILE_SIZE: u64 = 10 * 1024 * 1024;

/// Maximum file size for content search (4 MB).
pub const MAX_SEARCH_FILE_SIZE: u64 = 4 * 1024 * 1024;

/// Default search depth.
pub const DEFAULT_SEARCH_DEPTH: usize = 10;

/// Default cap on the number of search results.
pub const DEFAULT_MAX_SEARCH_RESULTS: u32 = 500;

/// Maximum content matches recorded per file.
pub const MAX_CONTENT_MATCHES_PER_FILE: usize = 10;

/// Maximum characters of a matching line kept in a content match.
pub const MAX_MATCH_LINE_CHARS: usize = 200;

/// Maximum parallel copy operations.
pub const MAX_PARALLEL_COPIES: usize = 16;

/// Parallelism assumed when the machine does not report its own.
pub const FALLBACK_PARALLELISM: usize = 4;

/// A copy progress event is emitted on every completion whose count is a
/// multiple of this, and on the last one.
pub const COPY_PROGRESS_INTERVAL: usize = 5;

} // verus!
