//! Path validation and sandbox enforcement.
//!
//! Validation never reads a file system. What the file system says about a
//! path (its resolved form, or whether it exists) is handed in by the caller,
//! and every lexical test is made first, so a path that is refused for its
//! shape is refused whatever the file system would have said.

use vstd::prelude::*;
use vstd::string::*;
use crate::config::SecurityConfig;
use crate::error::FsError;
use crate::path::{
    Platform, is_absolute, has_traversal, starts_with, file_name, is_dot, is_dotdot,
    path_is_absolute, has_traversal_components, path_starts_with, path_file_name,
};
use crate::text::{push_char, string_of, to_chars};

verus! {

/// What link-level metadata reports of an entry.
#[derive(Debug, Clone, Copy, PartialEq, Eq, Structural)]
pub struct EntryMeta {
    /// The entry is a directory.
    pub is_dir: bool,
    /// The entry is a regular file.
    pub is_file: bool,
    /// The entry is a symbolic link.
    pub is_symlink: bool,
    /// Size in bytes.
    pub len: u64,
    /// The attribute bits of a Windows entry; zero elsewhere.
    pub attributes: u32,
}

/// The Windows attribute bit of a hidden entry.
pub const FILE_ATTRIBUTE_HIDDEN: u32 = 0x2;

/// The Windows attribute bit of a reparse point.
pub const FILE_ATTRIBUTE_REPARSE_POINT: u32 = 0x400;

/// A path together with whether link-level metadata could be read for it.
#[derive(Debug, Clone)]
pub struct ProbedPath {
    /// The path as the caller gave it.
    pub path: String,
    /// Whether the entry exists, the final link not followed.
    pub exists: bool,
}

/// The path begins with `\\?\`.
pub open spec fn has_verbatim_prefix(s: Seq<char>) -> bool {
    s.len() >= 4 && s[0] == '\\' && s[1] == '\\' && s[2] == '?' && s[3] == '\\'
}

/// The path in the form that comparisons use: on Windows without the
/// extended-length prefix, elsewhere unchanged.
pub open spec fn normalized(s: Seq<char>, p: Platform) -> Seq<char> {
    if p == Platform::Windows && has_verbatim_prefix(s) {
        s.subrange(4, s.len() as int)
    } else {
        s
    }
}

/// The tests that need no file system: the path is absolute and has no `..`.
pub open spec fn lexical_check(path: Seq<char>, p: Platform) -> Result<(), FsError> {
    if !is_absolute(path, p) {
        Err(FsError::PathNotAbsolute)
    } else if has_traversal(path, p) {
        Err(FsError::InvalidPath)
    } else {
        Ok(())
    }
}

/// The outcome of follow-mode validation. `resolved` is the canonical form
/// that the file system gave for `path`, `None` when it could not resolve it.
/// A canonical form is absolute and has no `..`; anything else that is
/// handed in as one is refused like a path that did not resolve.
pub open spec fn validated(path: Seq<char>, resolved: Option<Seq<char>>, p: Platform) -> Result<
    Seq<char>,
    FsError,
> {
    match lexical_check(path, p) {
        Err(e) => Err(e),
        Ok(_) => match resolved {
            None => Err(FsError::InvalidPath),
            Some(c) => if lexical_check(c, p) is Err {
                Err(FsError::InvalidPath)
            } else {
                Ok(normalized(c, p))
            },
        },
    }
}

/// What validation accepts stems from a path that is absolute and has no
/// `..` component: in follow mode the resolved form, in no-follow mode the
/// path itself. On Unix, where nothing is stripped from it, that is the
/// validated path.
pub proof fn lemma_validated_paths_are_absolute(
    path: Seq<char>,
    resolved: Seq<char>,
    exists: bool,
    p: Platform,
)
    ensures
        validated(path, Some(resolved), p) is Ok ==> is_absolute(resolved, p) && !has_traversal(
            resolved,
            p,
        ),
        validated_no_follow(path, exists, p) is Ok ==> is_absolute(path, p) && !has_traversal(
            path,
            p,
        ),
        p == Platform::Unix ==> (validated(path, Some(resolved), p) matches Ok(v) ==> is_absolute(
            v,
            p,
        ) && !has_traversal(v, p)),
        p == Platform::Unix ==> (validated_no_follow(path, exists, p) matches Ok(v)
            ==> is_absolute(v, p) && !has_traversal(v, p)),
{
}

/// The outcome of no-follow validation. `exists` says whether link-level
/// metadata could be read for `path`.
pub open spec fn validated_no_follow(path: Seq<char>, exists: bool, p: Platform) -> Result<
    Seq<char>,
    FsError,
> {
    match lexical_check(path, p) {
        Err(e) => Err(e),
        Ok(_) => if exists {
            Ok(normalized(path, p))
        } else {
            Err(FsError::InvalidPath)
        },
    }
}

/// `r` is `expected`, strings compared by their characters.
pub open spec fn yields(r: Result<String, FsError>, expected: Result<Seq<char>, FsError>) -> bool {
    match expected {
        Ok(s) => r matches Ok(t) && t@ == s,
        Err(e) => r == Err::<String, FsError>(e),
    }
}

/// Some root, in normalized form, is a component-wise prefix of `path`.
pub open spec fn covered_by(path: Seq<char>, roots: Seq<Seq<char>>, p: Platform) -> bool {
    exists|i: int| 0 <= i < roots.len() && starts_with(path, normalized(#[trigger] roots[i], p), p)
}

/// The path lies under one of the roots, both taken in normalized form.
pub open spec fn under_some_root(path: Seq<char>, roots: Seq<Seq<char>>, p: Platform) -> bool {
    covered_by(normalized(path, p), roots, p)
}

/// What `glob::Pattern::new(pattern)` followed by `Pattern::matches(text)`
/// gives: `None` when the pattern does not compile, otherwise whether the
/// compiled pattern matches the whole of `text`.
pub uninterp spec fn glob_verdict(pattern: Seq<char>, text: Seq<char>) -> Option<bool>;

/// No character of `s` is a backslash. On such text the glob matcher treats
/// every platform alike.
pub open spec fn portable(s: Seq<char>) -> bool {
    !s.contains('\\')
}

/// `s` with every backslash written as a slash.
pub open spec fn with_slashes(s: Seq<char>) -> Seq<char> {
    s.map_values(
        |c: char|
            if c == '\\' {
                '/'
            } else {
                c
            },
    )
}

/// The text as the matcher gets it: on Windows, where both characters
/// separate, with every backslash written as a slash; elsewhere as it is.
pub open spec fn match_text(s: Seq<char>, p: Platform) -> Seq<char> {
    if p == Platform::Windows {
        with_slashes(s)
    } else {
        s
    }
}

/// The pattern compiles and matches the whole path, both taken as the
/// matcher gets them.
pub open spec fn denies(pattern: Seq<char>, path: Seq<char>, p: Platform) -> bool {
    glob_verdict(match_text(pattern, p), match_text(path, p)) == Some(true)
}

/// Some denied pattern matches the path.
pub open spec fn denied_by_some(patterns: Seq<Seq<char>>, path: Seq<char>, p: Platform) -> bool {
    exists|i: int| 0 <= i < patterns.len() && denies(#[trigger] patterns[i], path, p)
}

/// Every pattern is free of backslashes.
pub open spec fn all_portable(patterns: Seq<Seq<char>>) -> bool {
    forall|i: int| 0 <= i < patterns.len() ==> portable(#[trigger] patterns[i])
}

/// The sandbox verdict on a path: inside an allowed root, and matched by no
/// denied pattern.
pub open spec fn permitted(path: Seq<char>, config: SecurityConfig, p: Platform) -> bool {
    &&& under_some_root(path, config.roots(), p)
    &&& !denied_by_some(config.patterns(), normalized(path, p), p)
}

/// The matcher decides on this pattern and this path alike on every
/// platform: what it gets of them holds no backslash. On Windows that is
/// always so, since it gets them with slashes.
pub open spec fn decided(pattern: Seq<char>, path: Seq<char>, p: Platform) -> bool {
    p == Platform::Windows || (portable(pattern) && portable(path))
}

/// The pattern may let `path` pass: where the matcher decides alike on
/// every platform, the pattern does not deny the path.
pub open spec fn may_pass(pattern: Seq<char>, path: Seq<char>, p: Platform) -> bool {
    decided(pattern, path, p) ==> !denies(pattern, path, p)
}

/// The pattern may deny `path`: where the matcher decides alike on every
/// platform, the pattern does deny the path.
pub open spec fn may_deny(pattern: Seq<char>, path: Seq<char>, p: Platform) -> bool {
    decided(pattern, path, p) ==> denies(pattern, path, p)
}

/// What the sandbox check promises of its result `ok` for `path`. A path
/// is accepted only under an allowed root and only if every denied pattern
/// may let it pass; it is refused only outside every root or if some denied
/// pattern may deny it.
pub open spec fn sandbox_outcome(path: Seq<char>, config: SecurityConfig, p: Platform, ok: bool) -> bool {
    if ok {
        &&& under_some_root(path, config.roots(), p)
        &&& forall|i: int|
            0 <= i < config.patterns().len() ==> may_pass(
                #[trigger] config.patterns()[i],
                normalized(path, p),
                p,
            )
    } else {
        ||| !under_some_root(path, config.roots(), p)
        ||| exists|i: int|
            0 <= i < config.patterns().len() && may_deny(
                #[trigger] config.patterns()[i],
                normalized(path, p),
                p,
            )
    }
}

/// The sandbox check is exact for this path and this policy: the platform
/// is Windows, or neither the path nor any pattern holds a backslash.
pub open spec fn exactly_decided(path: Seq<char>, config: SecurityConfig, p: Platform) -> bool {
    p == Platform::Windows || (portable(normalized(path, p)) && all_portable(config.patterns()))
}

/// Text with slashes for backslashes holds no backslash.
pub proof fn lemma_slashes_are_portable(s: Seq<char>)
    ensures
        portable(with_slashes(s)),
{
    assert forall|i: int| 0 <= i < with_slashes(s).len() implies with_slashes(s)[i] != '\\' by {}
}

/// Where the sandbox check is exact, a path is accepted if and only if it
/// lies under an allowed root and no denied pattern matches it. That is so
/// for every path and every pattern on Windows, and elsewhere where neither
/// the path nor any pattern holds a backslash.
pub proof fn lemma_sandbox_is_exact(path: Seq<char>, config: SecurityConfig, p: Platform, ok: bool)
    requires
        exactly_decided(path, config, p),
    ensures
        sandbox_outcome(path, config, p, ok) <==> ok == permitted(path, config, p),
{
    let norm = normalized(path, p);
    let patterns = config.patterns();
    if sandbox_outcome(path, config, p, ok) {
        if ok {
            assert forall|i: int| 0 <= i < patterns.len() implies !denies(
                #[trigger] patterns[i],
                norm,
                p,
            ) by {
                assert(may_pass(patterns[i], norm, p));
            }
        }
    }
    if ok == permitted(path, config, p) {
        if !ok && under_some_root(path, config.roots(), p) {
            let i = choose|i: int|
                0 <= i < patterns.len() && denies(#[trigger] patterns[i], norm, p);
            assert(may_deny(patterns[i], norm, p));
        }
    }
}

/// Without denied patterns the roots alone decide.
pub proof fn lemma_roots_decide_without_patterns(
    path: Seq<char>,
    config: SecurityConfig,
    p: Platform,
    ok: bool,
)
    requires
        config.patterns().len() == 0,
    ensures
        sandbox_outcome(path, config, p, ok) <==> ok == under_some_root(path, config.roots(), p),
{
}

/// Compiles `pattern` with `glob::Pattern::new` and matches `text` against it
/// with `Pattern::matches`. `None` stands for a pattern that does not
/// compile. The crate decides both from the two strings alone, except that on
/// a Windows target it also reads `\` as a separator; so the result is named
/// only when neither string holds a backslash.
#[verifier::external_body]
fn glob_match(pattern: &str, text: &str) -> (r: Option<bool>)
    ensures
        portable(pattern@) && portable(text@) ==> r == glob_verdict(pattern@, text@),
{
    match glob::Pattern::new(pattern) {
        Ok(compiled) => Some(compiled.matches(text)),
        Err(_) => None,
    }
}

/// The text as the matcher gets it on `p`.
fn to_match_text(s: &str, p: Platform) -> (r: String)
    ensures
        r@ == match_text(s@, p),
{
    if p != Platform::Windows {
        return String::from_str(s);
    }
    let chars = to_chars(s);
    let mut out = String::new();
    let mut i: usize = 0;
    while i < chars.len()
        invariant
            i <= chars.len(),
            chars@ == s@,
            out@ == with_slashes(s@).take(i as int),
        decreases chars.len() - i,
    {
        let c = chars[i];
        push_char(
            &mut out,
            if c == '\\' {
                '/'
            } else {
                c
            },
        );
        assert(with_slashes(s@).take(i + 1) =~= with_slashes(s@).take(i as int).push(
            with_slashes(s@)[i as int],
        ));
        i += 1;
    }
    assert(with_slashes(s@).take(chars.len() as int) =~= with_slashes(s@));
    out
}

/// Normalize path for consistent handling. On Windows this removes the
/// extended-length prefix `\\?\`; elsewhere the path is returned as it is.
pub fn normalize_windows_path(path: String, p: Platform) -> (r: String)
    ensures
        r@ == normalized(path@, p),
{
    if p == Platform::Windows {
        let chars = to_chars(path.as_str());
        if chars.len() >= 4 && chars[0] == '\\' && chars[1] == '\\' && chars[2] == '?' && chars[3]
            == '\\' {
            return string_of(&chars, 4, chars.len());
        }
    }
    path
}

/// The lexical part of validation, which callers run before they ask the
/// file system anything about `path`.
pub fn precheck_path(path: &str, p: Platform) -> (r: Result<(), FsError>)
    ensures
        r == lexical_check(path@, p),
{
    if !path_is_absolute(path, p) {
        return Err(FsError::PathNotAbsolute);
    }
    if has_traversal_components(path, p) {
        return Err(FsError::InvalidPath);
    }
    Ok(())
}

/// Validate an absolute path in follow mode. `resolved` is the canonical
/// form that the file system gave for `path`, `None` when it gave none.
///
/// # Errors
/// - `PathNotAbsolute` if the path is relative
/// - `InvalidPath` if the path has a `..` component, did not resolve, or
///   resolved to something that is no absolute path without `..`
pub fn validate_path(path: &str, resolved: Option<&str>, p: Platform) -> (r: Result<String, FsError>)
    ensures
        yields(
            r,
            validated(
                path@,
                match resolved {
                    Some(c) => Some(c@),
                    None => None,
                },
                p,
            ),
        ),
{
    match precheck_path(path, p) {
        Err(e) => Err(e),
        Ok(_) => match resolved {
            None => Err(FsError::InvalidPath),
            Some(c) => {
                if precheck_path(c, p).is_err() {
                    Err(FsError::InvalidPath)
                } else {
                    Ok(normalize_windows_path(String::from_str(c), p))
                }
            },
        },
    }
}

/// Validate a path without following a final symbolic link. `exists` says
/// whether link-level metadata could be read for `path`.
pub fn validate_path_no_follow(path: &str, exists: bool, p: Platform) -> (r: Result<
    String,
    FsError,
>)
    ensures
        yields(r, validated_no_follow(path@, exists, p)),
{
    match precheck_path(path, p) {
        Err(e) => Err(e),
        Ok(_) => {
            if exists {
                Ok(normalize_windows_path(String::from_str(path), p))
            } else {
                Err(FsError::InvalidPath)
            }
        },
    }
}

/// Whether one of the allowed roots is a component-wise prefix of the path.
fn in_allowed_roots(path: &str, config: &SecurityConfig, p: Platform) -> (b: bool)
    ensures
        b == covered_by(path@, config.roots(), p),
{
    let mut i: usize = 0;
    while i < config.allowed_roots.len()
        invariant
            i <= config.allowed_roots.len(),
            forall|j: int|
                0 <= j < i ==> !starts_with(path@, normalized(#[trigger] config.roots()[j], p), p),
        decreases config.allowed_roots.len() - i,
    {
        let root = normalize_windows_path(config.allowed_roots[i].clone(), p);
        assert(config.roots()[i as int] == config.allowed_roots@[i as int]@);
        if path_starts_with(path, root.as_str(), p) {
            return true;
        }
        i += 1;
    }
    false
}

/// Check that a path is within the security sandbox: under an allowed root,
/// and matched by no denied pattern. A pattern that does not compile denies
/// nothing. On Windows the matcher gets pattern and path with slashes for
/// backslashes, so that it reads both as separators wherever it runs.
pub fn check_sandbox(path: &str, config: &SecurityConfig, p: Platform) -> (r: Result<(), FsError>)
    ensures
        r is Err ==> r == Err::<(), FsError>(FsError::AccessDenied),
        !under_some_root(path@, config.roots(), p) ==> r is Err,
        sandbox_outcome(path@, *config, p, r is Ok),
        exactly_decided(path@, *config, p) ==> (r is Ok <==> permitted(path@, *config, p)),
{
    proof {
        if exactly_decided(path@, *config, p) {
            lemma_sandbox_is_exact(path@, *config, p, true);
            lemma_sandbox_is_exact(path@, *config, p, false);
        }
    }
    let norm = normalize_windows_path(String::from_str(path), p);
    if !in_allowed_roots(norm.as_str(), config, p) {
        return Err(FsError::AccessDenied);
    }
    let text = to_match_text(norm.as_str(), p);
    let mut i: usize = 0;
    while i < config.denied_patterns.len()
        invariant
            i <= config.denied_patterns.len(),
            norm@ == normalized(path@, p),
            text@ == match_text(norm@, p),
            forall|j: int| 0 <= j < i ==> may_pass(#[trigger] config.patterns()[j], norm@, p),
        decreases config.denied_patterns.len() - i,
    {
        let pattern = to_match_text(config.denied_patterns[i].as_str(), p);
        assert(config.patterns()[i as int] == config.denied_patterns[i as int]@);
        proof {
            lemma_slashes_are_portable(config.patterns()[i as int]);
            lemma_slashes_are_portable(norm@);
        }
        if let Some(true) = glob_match(pattern.as_str(), text.as_str()) {
            assert(may_deny(config.patterns()[i as int], norm@, p));
            return Err(FsError::AccessDenied);
        }
        i += 1;
    }
    Ok(())
}

/// `r` with its string taken by its characters.
pub open spec fn result_view(r: Result<String, FsError>) -> Result<Seq<char>, FsError> {
    match r {
        Ok(s) => Ok(s@),
        Err(e) => Err(e),
    }
}

/// The sandbox decides the outcome `out` for `path`: either the path is
/// accepted and the outcome is `allowed`, or it is refused and the outcome
/// is `AccessDenied`; and the verdict is what [`sandbox_outcome`] says of it.
pub open spec fn sandbox_decides<T>(
    path: Seq<char>,
    config: SecurityConfig,
    p: Platform,
    out: Result<T, FsError>,
    allowed: Result<T, FsError>,
) -> bool {
    ||| sandbox_outcome(path, config, p, true) && out == allowed
    ||| sandbox_outcome(path, config, p, false) && out == Err::<T, FsError>(FsError::AccessDenied)
}

/// What sandboxed validation promises of its outcome `out`, given what
/// plain validation yields: its error is passed on; a validated path is
/// returned unchanged or refused with `AccessDenied`, as the sandbox decides.
pub open spec fn sandboxed_outcome(
    plain: Result<Seq<char>, FsError>,
    config: SecurityConfig,
    p: Platform,
    out: Result<Seq<char>, FsError>,
) -> bool {
    match plain {
        Err(e) => out == Err::<Seq<char>, FsError>(e),
        Ok(c) => sandbox_decides(c, config, p, out, Ok(c)),
    }
}

/// Validate path and check against the security sandbox. The sandbox is
/// checked on the resolved path, never on the path as given.
pub fn validate_sandboxed(
    path: &str,
    resolved: Option<&str>,
    config: &SecurityConfig,
    p: Platform,
) -> (r: Result<String, FsError>)
    ensures
        sandboxed_outcome(
            validated(
                path@,
                match resolved {
                    Some(c) => Some(c@),
                    None => None,
                },
                p,
            ),
            *config,
            p,
            result_view(r),
        ),
{
    match validate_path(path, resolved, p) {
        Err(e) => Err(e),
        Ok(canonical) => match check_sandbox(canonical.as_str(), config, p) {
            Err(e) => Err(e),
            Ok(_) => Ok(canonical),
        },
    }
}

/// Validate path without following symlinks and check the sandbox.
pub fn validate_sandboxed_no_follow(
    path: &str,
    exists: bool,
    config: &SecurityConfig,
    p: Platform,
) -> (r: Result<String, FsError>)
    ensures
        sandboxed_outcome(validated_no_follow(path@, exists, p), *config, p, result_view(r)),
{
    match validate_path_no_follow(path, exists, p) {
        Err(e) => Err(e),
        Ok(checked) => match check_sandbox(checked.as_str(), config, p) {
            Err(e) => Err(e),
            Ok(_) => Ok(checked),
        },
    }
}

/// What no-follow sandboxed validation may yield for the probed path `q`.
pub open spec fn probe_outcome(
    q: ProbedPath,
    config: SecurityConfig,
    p: Platform,
    out: Result<Seq<char>, FsError>,
) -> bool {
    sandboxed_outcome(validated_no_follow(q.path@, q.exists, p), config, p, out)
}

/// The probed path is accepted: validation may yield its normalized path.
pub open spec fn accepted(q: ProbedPath, config: SecurityConfig, p: Platform) -> bool {
    probe_outcome(q, config, p, Ok(normalized(q.path@, p)))
}

/// Each of the first `n` paths is accepted.
pub open spec fn all_accepted(paths: Seq<ProbedPath>, n: int, config: SecurityConfig, p: Platform) -> bool {
    forall|j: int| 0 <= j < n ==> accepted(#[trigger] paths[j], config, p)
}

/// Some path is refused with `e`, and every path before it is accepted.
pub open spec fn first_refused(
    paths: Seq<ProbedPath>,
    config: SecurityConfig,
    p: Platform,
    e: FsError,
) -> bool {
    exists|i: int|
        0 <= i < paths.len() && probe_outcome(#[trigger] paths[i], config, p, Err(e))
            && all_accepted(paths, i, config, p)
}

/// Validate multiple paths with sandboxing (no symlink follow). The paths
/// are taken in order and the first failure ends the run: either every path
/// is accepted and returned in normalized form, or the error is that of the
/// first path that is not.
pub fn validate_paths_sandboxed(paths: &Vec<ProbedPath>, config: &SecurityConfig, p: Platform) -> (r:
    Result<Vec<String>, FsError>)
    ensures
        match r {
            Ok(v) => {
                &&& v.len() == paths.len()
                &&& forall|i: int|
                    0 <= i < paths.len() ==> (#[trigger] v[i])@ == normalized(paths[i].path@, p)
                &&& all_accepted(paths@, paths.len() as int, *config, p)
            },
            Err(e) => first_refused(paths@, *config, p, e),
        },
{
    let mut out: Vec<String> = Vec::new();
    let mut i: usize = 0;
    while i < paths.len()
        invariant
            i <= paths.len(),
            out.len() == i,
            forall|j: int| 0 <= j < i ==> (#[trigger] out[j])@ == normalized(paths[j].path@, p),
            all_accepted(paths@, i as int, *config, p),
        decreases paths.len() - i,
    {
        match validate_sandboxed_no_follow(paths[i].path.as_str(), paths[i].exists, config, p) {
            Err(e) => {
                assert(probe_outcome(paths[i as int], *config, p, Err(e)));
                return Err(e);
            },
            Ok(checked) => {
                assert(accepted(paths[i as int], *config, p));
                out.push(checked);
            },
        }
        i += 1;
    }
    Ok(out)
}

/// A path that validates but lies outside every allowed root is refused
/// with `AccessDenied`, whatever the denied patterns are.
pub proof fn lemma_outside_roots_is_denied(
    canonical: Seq<char>,
    config: SecurityConfig,
    p: Platform,
    out: Result<Seq<char>, FsError>,
)
    requires
        sandboxed_outcome(Ok(canonical), config, p, out),
        !under_some_root(canonical, config.roots(), p),
    ensures
        out == Err::<Seq<char>, FsError>(FsError::AccessDenied),
{
}

/// A path with a `..` component fails validation in both modes, and with
/// the same error whatever the file system says of it: the lexical test
/// alone decides, so no lookup is needed to refuse it.
pub proof fn lemma_traversal_fails_without_lookup(
    path: Seq<char>,
    p: Platform,
    resolved: Option<Seq<char>>,
    exists: bool,
)
    requires
        has_traversal(path, p),
    ensures
        lexical_check(path, p) is Err,
        validated(path, resolved, p) == Err::<Seq<char>, FsError>(lexical_check(path, p)->Err_0),
        validated_no_follow(path, exists, p) == Err::<Seq<char>, FsError>(
            lexical_check(path, p)->Err_0,
        ),
        is_absolute(path, p) ==> lexical_check(path, p) == Err::<(), FsError>(FsError::InvalidPath),
{
}

/// A character that no file name may hold: a path separator or NUL.
pub open spec fn is_forbidden_everywhere(c: char) -> bool {
    c == '/' || c == '\\' || c == '\0'
}

/// A character that no Windows file name may hold.
pub open spec fn is_forbidden_on_windows(c: char) -> bool {
    c == '<' || c == '>' || c == '"' || c == '|' || c == '?' || c == '*' || c == ':'
}

/// The rules that hold on every platform: non-empty, not `.` or `..`, no
/// separator and no NUL.
pub open spec fn basic_name_ok(name: Seq<char>) -> bool {
    &&& name.len() > 0
    &&& !is_dot(name)
    &&& !is_dotdot(name)
    &&& forall|i: int| 0 <= i < name.len() ==> !is_forbidden_everywhere(#[trigger] name[i])
}

/// Index of the first `.` at or after `i`, or the length of `name`.
pub open spec fn first_dot_from(name: Seq<char>, i: int) -> int
    decreases name.len() - i,
{
    if i >= name.len() {
        name.len() as int
    } else if name[i] == '.' {
        i
    } else {
        first_dot_from(name, i + 1)
    }
}

/// The length of `name[..n]` without its trailing spaces and dots.
pub open spec fn trimmed_len(name: Seq<char>, n: int) -> int
    decreases n,
{
    if n > 0 && (name[n - 1] == ' ' || name[n - 1] == '.') {
        trimmed_len(name, n - 1)
    } else {
        n
    }
}

/// The part of the name that is compared with the device names: what stands
/// before the first dot, trailing spaces removed.
pub open spec fn device_stem(name: Seq<char>) -> Seq<char> {
    name.take(trimmed_len(name, first_dot_from(name, 0)))
}

/// `c` is the letter `upper`, in either case.
pub open spec fn is_letter(c: char, upper: char, lower: char) -> bool {
    c == upper || c == lower
}

/// `d` is one of the device names `CON`, `PRN`, `AUX`, `NUL`, `COM1`..`COM9`,
/// `LPT1`..`LPT9`, in any mix of upper and lower case.
pub open spec fn is_reserved_device(d: Seq<char>) -> bool {
    ||| d.len() == 3 && is_letter(d[0], 'C', 'c') && is_letter(d[1], 'O', 'o') && is_letter(
        d[2],
        'N',
        'n',
    )
    ||| d.len() == 3 && is_letter(d[0], 'P', 'p') && is_letter(d[1], 'R', 'r') && is_letter(
        d[2],
        'N',
        'n',
    )
    ||| d.len() == 3 && is_letter(d[0], 'A', 'a') && is_letter(d[1], 'U', 'u') && is_letter(
        d[2],
        'X',
        'x',
    )
    ||| d.len() == 3 && is_letter(d[0], 'N', 'n') && is_letter(d[1], 'U', 'u') && is_letter(
        d[2],
        'L',
        'l',
    )
    ||| d.len() == 4 && is_letter(d[0], 'C', 'c') && is_letter(d[1], 'O', 'o') && is_letter(
        d[2],
        'M',
        'm',
    ) && '1' <= d[3] && d[3] <= '9'
    ||| d.len() == 4 && is_letter(d[0], 'L', 'l') && is_letter(d[1], 'P', 'p') && is_letter(
        d[2],
        'T',
        't',
    ) && '1' <= d[3] && d[3] <= '9'
}

/// The rules of Windows: no reserved character, no device name before the
/// first dot, no space or dot at the end.
pub open spec fn windows_name_ok(name: Seq<char>) -> bool {
    &&& forall|i: int| 0 <= i < name.len() ==> !is_forbidden_on_windows(#[trigger] name[i])
    &&& !is_reserved_device(device_stem(name))
    &&& !(name.len() > 0 && (name.last() == ' ' || name.last() == '.'))
}

/// A name is acceptable when it meets the basic rules and, on Windows, the
/// rules of Windows.
pub open spec fn filename_ok(name: Seq<char>, p: Platform) -> bool {
    basic_name_ok(name) && (p == Platform::Windows ==> windows_name_ok(name))
}

fn letter_is(c: char, upper: char, lower: char) -> (b: bool)
    ensures
        b == is_letter(c, upper, lower),
{
    c == upper || c == lower
}

fn reserved_device(chars: &Vec<char>, n: usize) -> (b: bool)
    requires
        n <= chars.len(),
    ensures
        b == is_reserved_device(chars@.take(n as int)),
{
    let ghost d = chars@.take(n as int);
    if n == 3 {
        assert(d[0] == chars[0] && d[1] == chars[1] && d[2] == chars[2]);
        (letter_is(chars[0], 'C', 'c') && letter_is(chars[1], 'O', 'o') && letter_is(
            chars[2],
            'N',
            'n',
        )) || (letter_is(chars[0], 'P', 'p') && letter_is(chars[1], 'R', 'r') && letter_is(
            chars[2],
            'N',
            'n',
        )) || (letter_is(chars[0], 'A', 'a') && letter_is(chars[1], 'U', 'u') && letter_is(
            chars[2],
            'X',
            'x',
        )) || (letter_is(chars[0], 'N', 'n') && letter_is(chars[1], 'U', 'u') && letter_is(
            chars[2],
            'L',
            'l',
        ))
    } else if n == 4 {
        assert(d[0] == chars[0] && d[1] == chars[1] && d[2] == chars[2] && d[3] == chars[3]);
        ((letter_is(chars[0], 'C', 'c') && letter_is(chars[1], 'O', 'o') && letter_is(
            chars[2],
            'M',
            'm',
        )) || (letter_is(chars[0], 'L', 'l') && letter_is(chars[1], 'P', 'p') && letter_is(
            chars[2],
            'T',
            't',
        ))) && '1' <= chars[3] && chars[3] <= '9'
    } else {
        false
    }
}

/// Check a name against the rules of Windows.
pub fn validate_windows_name(name: &str) -> (r: Result<(), FsError>)
    ensures
        r == if windows_name_ok(name@) {
            Ok::<(), FsError>(())
        } else {
            Err::<(), FsError>(FsError::InvalidName)
        },
{
    let chars = to_chars(name);
    let n = chars.len();
    let mut i: usize = 0;
    while i < n
        invariant
            i <= n,
            n == chars.len(),
            chars@ == name@,
            forall|j: int| 0 <= j < i ==> !is_forbidden_on_windows(#[trigger] name@[j]),
        decreases n - i,
    {
        let c = chars[i];
        if c == '<' || c == '>' || c == '"' || c == '|' || c == '?' || c == '*' || c == ':' {
            return Err(FsError::InvalidName);
        }
        i += 1;
    }
    let mut dot: usize = 0;
    while dot < n && chars[dot] != '.'
        invariant
            dot <= n,
            n == chars.len(),
            chars@ == name@,
            first_dot_from(name@, 0) == first_dot_from(name@, dot as int),
        decreases n - dot,
    {
        dot += 1;
    }
    let mut end: usize = dot;
    while end > 0 && (chars[end - 1] == ' ' || chars[end - 1] == '.')
        invariant
            end <= dot <= n,
            n == chars.len(),
            chars@ == name@,
            trimmed_len(name@, dot as int) == trimmed_len(name@, end as int),
        decreases end,
    {
        end -= 1;
    }
    if reserved_device(&chars, end) {
        return Err(FsError::InvalidName);
    }
    if n > 0 && (chars[n - 1] == ' ' || chars[n - 1] == '.') {
        return Err(FsError::InvalidName);
    }
    Ok(())
}

/// Validate a filename component: a name, not a path. It must be non-empty
/// and not `.` or `..`, hold no path separator and no NUL, and on Windows
/// meet the rules of [`validate_windows_name`].
pub fn validate_filename(name: &str, p: Platform) -> (r: Result<(), FsError>)
    ensures
        r == if filename_ok(name@, p) {
            Ok::<(), FsError>(())
        } else {
            Err::<(), FsError>(FsError::InvalidName)
        },
{
    let chars = to_chars(name);
    let n = chars.len();
    if n == 0 {
        return Err(FsError::InvalidName);
    }
    if (n == 1 && chars[0] == '.') || (n == 2 && chars[0] == '.' && chars[1] == '.') {
        return Err(FsError::InvalidName);
    }
    let mut i: usize = 0;
    while i < n
        invariant
            i <= n,
            n == chars.len(),
            chars@ == name@,
            forall|j: int| 0 <= j < i ==> !is_forbidden_everywhere(#[trigger] name@[j]),
        decreases n - i,
    {
        let c = chars[i];
        if c == '/' || c == '\\' || c == '\0' {
            return Err(FsError::InvalidName);
        }
        i += 1;
    }
    if p == Platform::Windows {
        return validate_windows_name(name);
    }
    Ok(())
}

/// An entry counts as hidden when, on Windows, its attributes are known and
/// carry the hidden bit; otherwise when its file name begins with a dot.
pub open spec fn hidden(path: Seq<char>, attributes: Option<u32>, p: Platform) -> bool {
    if p == Platform::Windows && attributes is Some {
        attributes->0 & FILE_ATTRIBUTE_HIDDEN != 0
    } else {
        match file_name(path, p) {
            Some(name) => name.len() > 0 && name[0] == '.',
            None => false,
        }
    }
}

/// Check if a path is hidden. `attributes` holds the attribute bits of the
/// entry where they could be read.
pub fn is_hidden(path: &str, attributes: Option<u32>, p: Platform) -> (b: bool)
    ensures
        b == hidden(path@, attributes, p),
{
    if p == Platform::Windows {
        if let Some(bits) = attributes {
            return bits & FILE_ATTRIBUTE_HIDDEN != 0;
        }
    }
    match path_file_name(path, p) {
        Some(name) => {
            let chars = to_chars(name.as_str());
            chars.len() > 0 && chars[0] == '.'
        },
        None => false,
    }
}

impl EntryMeta {
    /// The entry is a Windows reparse point: a symlink, a junction, a mount point.
    pub open spec fn reparse_point(self, p: Platform) -> bool {
        p == Platform::Windows && self.attributes & FILE_ATTRIBUTE_REPARSE_POINT != 0
    }

    /// The entry redirects to another location: a symbolic link or a reparse point.
    pub open spec fn link_like(self, p: Platform) -> bool {
        self.is_symlink || self.reparse_point(p)
    }
}

/// Check if metadata indicates a Windows reparse point (symlink, junction, etc.).
pub fn is_reparse_point(meta: &EntryMeta, p: Platform) -> (b: bool)
    ensures
        b == meta.reparse_point(p),
{
    p == Platform::Windows && meta.attributes & FILE_ATTRIBUTE_REPARSE_POINT != 0
}

/// Check if metadata represents a symlink or reparse point.
pub fn is_link_like(meta: &EntryMeta, p: Platform) -> (b: bool)
    ensures
        b == meta.link_like(p),
{
    if meta.is_symlink {
        return true;
    }
    is_reparse_point(meta, p)
}

} // verus!
