//! The core of a sandboxed file manager.
//!
//! The library decides; it never touches a file system. A caller reads what
//! an operation needs to know (whether a path exists, what it resolves to,
//! what a directory holds), hands it over as plain values, and gets back
//! what to do: an error, a validated path, the next directory to visit, the
//! files to copy, a progress event. Every function states in its contract
//! what it returns, over the lexical path model of [`path`].
//!
//! - [`path`]: paths as character sequences: components, parent, file name,
//!   extension, prefix test, join.
//! - [`validation`]: absolute-path and traversal checks, the sandbox of
//!   allowed roots and denied patterns, file-name rules.
//! - [`config`]: the sandbox policy and its defaults.
//! - [`copy_move`], [`delete`]: planning of copy, move and delete, with
//!   queue- and stack-driven tree walks that skip links and bound the depth,
//!   and the schedule of a parallel copy batch with its progress events.
//! - [`search`]: name and content matching, and the session that counts,
//!   throttles progress and stops at the quota.
//! - [`listing`]: entries of a directory, their order, streaming in batches.
//! - [`ops`]: checks before creating and renaming.
//! - [`watcher`]: the table of active directory watches.
//! - [`preview`], [`drives`], [`types`], [`error`], [`limits`], [`text`]:
//!   previews, drive list, records, errors, limits, string helpers.

pub mod config;
pub mod copy_move;
pub mod delete;
pub mod drives;
pub mod error;
pub mod limits;
pub mod listing;
pub mod ops;
pub mod path;
pub mod preview;
pub mod search;
pub mod text;
pub mod types;
pub mod validation;
pub mod watcher;
