//! Lexical path model.
//!
//! A path is a sequence of characters. Nothing here touches a file system: a
//! path is split at separators into segments, empty segments and `.` segments
//! are ignored (a lone leading `.` stands for the current directory), and
//! every function is stated over that reading. The separator set depends on
//! the [`Platform`], which callers pass explicitly.

use vstd::prelude::*;
use crate::text::{to_chars, string_of, push_char};

verus! {

/// The path conventions a caller works under.
#[derive(Clone, Copy, Debug, PartialEq, Eq, Structural)]
pub enum Platform {
    /// `/` separates; a path is absolute when it begins with `/`.
    Unix,
    /// `/` and `\` separate; a path is absolute when it begins with a drive
    /// (`C:\`) or with two separators (a network or extended-length path).
    Windows,
}

impl Platform {
    /// Whether `c` separates path segments.
    pub open spec fn is_separator(self, c: char) -> bool {
        c == '/' || (self == Platform::Windows && c == '\\')
    }

    /// The separator written when two paths are joined.
    pub open spec fn main_separator(self) -> char {
        if self == Platform::Windows {
            '\\'
        } else {
            '/'
        }
    }

    /// Whether `c` separates path segments.
    pub fn separates(self, c: char) -> (b: bool)
        ensures
            b == self.is_separator(c),
    {
        c == '/' || (self == Platform::Windows && c == '\\')
    }

    /// The separator written when two paths are joined.
    pub fn separator(self) -> (c: char)
        ensures
            c == self.main_separator(),
            self.is_separator(c),
    {
        if self == Platform::Windows {
            '\\'
        } else {
            '/'
        }
    }
}

/// Whether `c` is one of `a`..`z` or `A`..`Z`.
pub open spec fn is_ascii_letter(c: char) -> bool {
    ('a' <= c && c <= 'z') || ('A' <= c && c <= 'Z')
}

/// The path begins with a separator.
pub open spec fn has_root(s: Seq<char>, p: Platform) -> bool {
    s.len() > 0 && p.is_separator(s[0])
}

/// The path begins with a drive letter and a colon.
pub open spec fn has_drive(s: Seq<char>) -> bool {
    s.len() >= 2 && is_ascii_letter(s[0]) && s[1] == ':'
}

/// The path names a location independently of any current directory.
pub open spec fn is_absolute(s: Seq<char>, p: Platform) -> bool {
    match p {
        Platform::Unix => has_root(s, p),
        Platform::Windows => {
            ||| (has_drive(s) && s.len() >= 3 && p.is_separator(s[2]))
            ||| (s.len() >= 2 && p.is_separator(s[0]) && p.is_separator(s[1]))
        },
    }
}

/// A `..` segment begins at index `i`.
pub open spec fn parent_dir_at(s: Seq<char>, p: Platform, i: int) -> bool {
    &&& 0 <= i
    &&& i + 2 <= s.len()
    &&& s[i] == '.'
    &&& s[i + 1] == '.'
    &&& (i == 0 || p.is_separator(s[i - 1]))
    &&& (i + 2 == s.len() || p.is_separator(s[i + 2]))
}

/// Some segment of the path is `..`.
pub open spec fn has_traversal(s: Seq<char>, p: Platform) -> bool {
    exists|i: int| parent_dir_at(s, p, i)
}

/// Where the last component ends: the length of `s` once trailing separators
/// and trailing `.` segments are set aside. Zero when no component is left.
pub open spec fn name_end(s: Seq<char>, p: Platform) -> int
    decreases s.len(),
{
    if s.len() == 0 {
        0
    } else if p.is_separator(s.last()) {
        name_end(s.drop_last(), p)
    } else if s.last() == '.' && s.len() >= 2 && p.is_separator(s[s.len() - 2]) {
        name_end(s.drop_last(), p)
    } else {
        s.len() as int
    }
}

/// Where the separator-free run that ends at `end` begins.
pub open spec fn segment_start(s: Seq<char>, p: Platform, end: int) -> int
    decreases end,
{
    if end <= 0 {
        0
    } else if p.is_separator(s[end - 1]) {
        end
    } else {
        segment_start(s, p, end - 1)
    }
}

/// The segment is `.`.
pub open spec fn is_dot(seg: Seq<char>) -> bool {
    seg.len() == 1 && seg[0] == '.'
}

/// The segment is `..`.
pub open spec fn is_dotdot(seg: Seq<char>) -> bool {
    seg.len() == 2 && seg[0] == '.' && seg[1] == '.'
}

/// The segment `s[b..e]` is a bare drive (`C:`) at the start of a Windows path.
pub open spec fn is_drive_prefix(s: Seq<char>, p: Platform, b: int, e: int) -> bool {
    p == Platform::Windows && b == 0 && e == 2 && has_drive(s)
}

/// The final component of the path, when it is an ordinary name: `None` for
/// an empty path, a root, a bare drive, `.` and a path that ends in `..`.
pub open spec fn file_name(s: Seq<char>, p: Platform) -> Option<Seq<char>> {
    let e = name_end(s, p);
    let b = segment_start(s, p, e);
    let seg = s.subrange(b, e);
    if e == 0 || is_dot(seg) || is_dotdot(seg) || is_drive_prefix(s, p, b, e) {
        None
    } else {
        Some(seg)
    }
}

/// A prefix of length `n` that is nothing but a root: `/`, or `C:\`.
pub open spec fn is_bare_root(s: Seq<char>, p: Platform, n: int) -> bool {
    n == 1 || (p == Platform::Windows && n == 3 && has_drive(s))
}

/// Where the directory part ends within `s[..n]`: trailing separators and
/// trailing `.` segments are dropped, a root is kept.
pub open spec fn dir_end(s: Seq<char>, p: Platform, n: int) -> int
    decreases n,
{
    if n <= 0 {
        0
    } else if is_bare_root(s, p, n) {
        n
    } else if p.is_separator(s[n - 1]) {
        dir_end(s, p, n - 1)
    } else if s[n - 1] == '.' && n >= 2 && p.is_separator(s[n - 2]) {
        dir_end(s, p, n - 1)
    } else {
        n
    }
}

/// The path without its final component: `None` when there is no component
/// to remove (an empty path, a root, a bare drive).
pub open spec fn parent(s: Seq<char>, p: Platform) -> Option<Seq<char>> {
    let e = name_end(s, p);
    let b = segment_start(s, p, e);
    if e == 0 || is_drive_prefix(s, p, b, e) {
        None
    } else {
        Some(s.take(dir_end(s, p, b)))
    }
}

/// Index of the last `.` in `name`, or -1.
pub open spec fn last_dot(name: Seq<char>) -> int
    decreases name.len(),
{
    if name.len() == 0 {
        -1
    } else if name.last() == '.' {
        name.len() - 1
    } else {
        last_dot(name.drop_last())
    }
}

/// What follows the last `.` of the file name; `None` when the path has no
/// file name, the name has no `.`, or its only `.` is the first character.
pub open spec fn extension(s: Seq<char>, p: Platform) -> Option<Seq<char>> {
    match file_name(s, p) {
        None => None,
        Some(name) => {
            let d = last_dot(name);
            if d <= 0 {
                None
            } else {
                Some(name.subrange(d + 1, name.len() as int))
            }
        },
    }
}

/// The components of the path in order, the root excepted.
pub open spec fn names(s: Seq<char>, p: Platform) -> Seq<Seq<char>>
    decreases s.len(),
{
    let e = name_end(s, p);
    let b = segment_start(s, p, e);
    if e <= 0 || e > s.len() || b < 0 || b >= e {
        Seq::empty()
    } else {
        names(s.take(b), p).push(s.subrange(b, e))
    }
}

/// `base` is a prefix of `path`, component by component: both are rooted or
/// neither is, and the components of `base` are the first components of `path`.
pub open spec fn starts_with(path: Seq<char>, base: Seq<char>, p: Platform) -> bool {
    &&& has_root(path, p) == has_root(base, p)
    &&& names(base, p).is_prefix_of(names(path, p))
}

/// Two paths with the same root and the same components.
pub open spec fn same_location(a: Seq<char>, b: Seq<char>, p: Platform) -> bool {
    starts_with(a, b, p) && starts_with(b, a, p)
}

/// `base` extended by `name`: `name` alone when it is rooted or absolute,
/// otherwise `base`, a separator unless `base` is empty or ends in one, and `name`.
pub open spec fn join(base: Seq<char>, name: Seq<char>, p: Platform) -> Seq<char> {
    if has_root(name, p) || is_absolute(name, p) {
        name
    } else if base.len() == 0 || p.is_separator(base.last()) {
        base + name
    } else {
        base.push(p.main_separator()) + name
    }
}

proof fn lemma_segment_start_bounds(s: Seq<char>, p: Platform, end: int)
    requires
        0 <= end <= s.len(),
    ensures
        0 <= segment_start(s, p, end) <= end,
        forall|k: int| segment_start(s, p, end) <= k < end ==> !p.is_separator(#[trigger] s[k]),
        segment_start(s, p, end) == 0 || p.is_separator(s[segment_start(s, p, end) - 1]),
    decreases end,
{
    if end > 0 && !p.is_separator(s[end - 1]) {
        lemma_segment_start_bounds(s, p, end - 1);
    }
}

proof fn lemma_name_end_bounds(s: Seq<char>, p: Platform)
    ensures
        0 <= name_end(s, p) <= s.len(),
        name_end(s, p) > 0 ==> !p.is_separator(s[name_end(s, p) - 1]),
    decreases s.len(),
{
    if s.len() > 0 {
        lemma_name_end_bounds(s.drop_last(), p);
    }
}

proof fn lemma_name_end_take(s: Seq<char>, p: Platform, e: int)
    requires
        0 < e <= s.len(),
    ensures
        p.is_separator(s[e - 1]) || (s[e - 1] == '.' && e >= 2 && p.is_separator(s[e - 2]))
            ==> name_end(s.take(e), p) == name_end(s.take(e - 1), p),
        !(p.is_separator(s[e - 1]) || (s[e - 1] == '.' && e >= 2 && p.is_separator(s[e - 2])))
            ==> name_end(s.take(e), p) == e,
{
    assert(s.take(e).drop_last() =~= s.take(e - 1));
}

proof fn lemma_segment_start_take(s: Seq<char>, p: Platform, n: int, end: int)
    requires
        0 <= end <= n <= s.len(),
    ensures
        segment_start(s.take(n), p, end) == segment_start(s, p, end),
    decreases end,
{
    if end > 0 && !p.is_separator(s[end - 1]) {
        lemma_segment_start_take(s, p, n, end - 1);
    }
}

/// Index where the last component of `chars` ends.
fn find_name_end(chars: &Vec<char>, n: usize, p: Platform) -> (e: usize)
    requires
        n <= chars.len(),
    ensures
        e as int == name_end(chars@.take(n as int), p),
        e <= n,
{
    let mut e: usize = n;
    while e > 0 && (p.separates(chars[e - 1]) || (chars[e - 1] == '.' && e >= 2 && p.separates(
        chars[e - 2],
    )))
        invariant
            e <= n <= chars.len(),
            name_end(chars@.take(n as int), p) == name_end(chars@.take(e as int), p),
        decreases e,
    {
        proof {
            lemma_name_end_take(chars@.take(n as int), p, e as int);
            assert(chars@.take(n as int).take(e as int) =~= chars@.take(e as int));
            assert(chars@.take(n as int).take(e - 1) =~= chars@.take(e - 1));
        }
        e -= 1;
    }
    proof {
        if e > 0 {
            lemma_name_end_take(chars@, p, e as int);
        }
    }
    e
}

/// Index where the separator-free run ending at `end` begins.
fn find_segment_start(chars: &Vec<char>, end: usize, p: Platform) -> (b: usize)
    requires
        end <= chars.len(),
    ensures
        b as int == segment_start(chars@, p, end as int),
        b <= end,
{
    let mut b: usize = end;
    while b > 0 && !p.separates(chars[b - 1])
        invariant
            b <= end <= chars.len(),
            segment_start(chars@, p, end as int) == segment_start(chars@, p, b as int),
        decreases b,
    {
        b -= 1;
    }
    b
}

fn is_letter(c: char) -> (b: bool)
    ensures
        b == is_ascii_letter(c),
{
    ('a' <= c && c <= 'z') || ('A' <= c && c <= 'Z')
}

fn starts_with_drive(chars: &Vec<char>) -> (b: bool)
    ensures
        b == has_drive(chars@),
{
    chars.len() >= 2 && is_letter(chars[0]) && chars[1] == ':'
}

/// Whether the path is absolute under `p`.
pub fn path_is_absolute(path: &str, p: Platform) -> (b: bool)
    ensures
        b == is_absolute(path@, p),
{
    let chars = to_chars(path);
    match p {
        Platform::Unix => chars.len() > 0 && p.separates(chars[0]),
        Platform::Windows => {
            (starts_with_drive(&chars) && chars.len() >= 3 && p.separates(chars[2])) || (chars.len()
                >= 2 && p.separates(chars[0]) && p.separates(chars[1]))
        },
    }
}

/// Whether some segment of the path is `..`.
pub fn has_traversal_components(path: &str, p: Platform) -> (b: bool)
    ensures
        b == has_traversal(path@, p),
{
    let chars = to_chars(path);
    let n = chars.len();
    let mut i: usize = 0;
    while i < n
        invariant
            n == chars.len(),
            chars@ == path@,
            i <= n,
            forall|j: int| 0 <= j < i ==> !parent_dir_at(path@, p, j),
        decreases n - i,
    {
        if n - i >= 2 && chars[i] == '.' && chars[i + 1] == '.' && (i == 0 || p.separates(
            chars[i - 1],
        )) && (i + 2 == n || p.separates(chars[i + 2])) {
            assert(parent_dir_at(path@, p, i as int));
            return true;
        }
        i += 1;
    }
    false
}

/// The bounds of the final component within `chars`, when it is a file name.
fn file_name_range(chars: &Vec<char>, p: Platform) -> (r: Option<(usize, usize)>)
    ensures
        match r {
            Some((b, e)) => b <= e <= chars.len() && file_name(chars@, p) == Some(
                chars@.subrange(b as int, e as int),
            ) && b as int == segment_start(chars@, p, name_end(chars@, p)) && e as int == name_end(
                chars@,
                p,
            ),
            None => file_name(chars@, p).is_none(),
        },
{
    assert(chars@.take(chars.len() as int) =~= chars@);
    let e = find_name_end(chars, chars.len(), p);
    let b = find_segment_start(chars, e, p);
    if e == 0 {
        return None;
    }
    if e - b == 1 && chars[b] == '.' {
        return None;
    }
    if e - b == 2 && chars[b] == '.' && chars[b + 1] == '.' {
        return None;
    }
    if p == Platform::Windows && b == 0 && e == 2 && starts_with_drive(chars) {
        return None;
    }
    Some((b, e))
}

/// The final component of the path, or the empty string when there is none.
pub fn get_filename(path: &str, p: Platform) -> (name: String)
    ensures
        name@ == match file_name(path@, p) {
            Some(n) => n,
            None => Seq::<char>::empty(),
        },
{
    let chars = to_chars(path);
    match file_name_range(&chars, p) {
        Some((b, e)) => string_of(&chars, b, e),
        None => String::new(),
    }
}

/// The final component of the path, when it is an ordinary name.
pub fn path_file_name(path: &str, p: Platform) -> (name: Option<String>)
    ensures
        name.is_some() == file_name(path@, p).is_some(),
        name matches Some(n) ==> file_name(path@, p) == Some(n@),
{
    let chars = to_chars(path);
    match file_name_range(&chars, p) {
        Some((b, e)) => Some(string_of(&chars, b, e)),
        None => None,
    }
}

/// The path without its final component.
pub fn path_parent(path: &str, p: Platform) -> (dir: Option<String>)
    ensures
        dir.is_some() == parent(path@, p).is_some(),
        dir matches Some(d) ==> parent(path@, p) == Some(d@),
{
    let chars = to_chars(path);
    assert(chars@.take(chars.len() as int) =~= chars@);
    let e = find_name_end(&chars, chars.len(), p);
    let b = find_segment_start(&chars, e, p);
    if e == 0 || (p == Platform::Windows && b == 0 && e == 2 && starts_with_drive(&chars)) {
        return None;
    }
    let mut n: usize = b;
    while n > 0 && !(n == 1 || (p == Platform::Windows && n == 3 && starts_with_drive(&chars)))
        && (p.separates(chars[n - 1]) || (chars[n - 1] == '.' && n >= 2 && p.separates(
        chars[n - 2],
    )))
        invariant
            n <= b <= chars.len(),
            dir_end(chars@, p, b as int) == dir_end(chars@, p, n as int),
        decreases n,
    {
        n -= 1;
    }
    let d = string_of(&chars, 0, n);
    assert(chars@.subrange(0, n as int) =~= chars@.take(n as int));
    Some(d)
}

proof fn lemma_last_dot_take(name: Seq<char>, n: int)
    requires
        0 < n <= name.len(),
    ensures
        name[n - 1] == '.' ==> last_dot(name.take(n)) == n - 1,
        name[n - 1] != '.' ==> last_dot(name.take(n)) == last_dot(name.take(n - 1)),
{
    assert(name.take(n).drop_last() =~= name.take(n - 1));
}

/// The extension of the file name, as written (without the dot).
pub fn path_extension(path: &str, p: Platform) -> (ext: Option<String>)
    ensures
        ext.is_some() == extension(path@, p).is_some(),
        ext matches Some(x) ==> extension(path@, p) == Some(x@),
{
    let chars = to_chars(path);
    match file_name_range(&chars, p) {
        None => None,
        Some((b, e)) => {
            let ghost name = chars@.subrange(b as int, e as int);
            let mut d: usize = e;
            assert(name.take((d - b) as int) =~= name);
            while d > b && chars[d - 1] != '.'
                invariant
                    b <= d <= e <= chars.len(),
                    name == chars@.subrange(b as int, e as int),
                    last_dot(name) == last_dot(name.take((d - b) as int)),
                decreases d,
            {
                proof {
                    lemma_last_dot_take(name, (d - b) as int);
                }
                d -= 1;
            }
            proof {
                if d > b {
                    lemma_last_dot_take(name, (d - b) as int);
                }
            }
            // `d - 1` holds the last dot, when `d > b`.
            if d - b <= 1 {
                None
            } else {
                let x = string_of(&chars, d, e);
                assert(chars@.subrange(d as int, e as int) =~= name.subrange(
                    (d - 1 - b) + 1,
                    name.len() as int,
                ));
                Some(x)
            }
        },
    }
}

/// `base` extended by `name`.
pub fn join_path(base: &str, name: &str, p: Platform) -> (r: String)
    ensures
        r@ == join(base@, name@, p),
{
    let b = to_chars(base);
    let n = to_chars(name);
    let rooted = n.len() > 0 && p.separates(n[0]);
    let absolute = match p {
        Platform::Unix => rooted,
        Platform::Windows => {
            (starts_with_drive(&n) && n.len() >= 3 && p.separates(n[2])) || (n.len() >= 2
                && p.separates(n[0]) && p.separates(n[1]))
        },
    };
    let mut out = String::new();
    if !(rooted || absolute) {
        out = string_of(&b, 0, b.len());
        assert(b@.subrange(0, b.len() as int) =~= b@);
        if b.len() > 0 && !p.separates(b[b.len() - 1]) {
            push_char(&mut out, p.separator());
        }
    }
    let ghost head = out@;
    let mut i: usize = 0;
    while i < n.len()
        invariant
            i <= n.len(),
            out@ == head + n@.take(i as int),
        decreases n.len() - i,
    {
        push_char(&mut out, n[i]);
        i += 1;
        assert(n@.take(i as int) =~= n@.take(i - 1).push(n@[i - 1]));
        assert(head + n@.take(i as int) =~= (head + n@.take(i - 1)).push(n@[i - 1]));
    }
    assert(n@.take(n.len() as int) =~= n@);
    assert(Seq::<char>::empty() + n@ =~= n@);
    out
}

proof fn lemma_names_step(s: Seq<char>, p: Platform, n: int)
    requires
        0 <= n <= s.len(),
    ensures
        ({
            let e = name_end(s.take(n), p);
            let b = segment_start(s, p, e);
            &&& 0 <= b <= e <= n
            &&& e > 0 ==> b < e && names(s.take(n), p) == names(s.take(b), p).push(
                s.subrange(b, e),
            )
            &&& e == 0 ==> names(s.take(n), p) == Seq::<Seq<char>>::empty()
        }),
{
    let t = s.take(n);
    lemma_name_end_bounds(t, p);
    let e = name_end(t, p);
    lemma_segment_start_take(s, p, n, e);
    lemma_segment_start_bounds(s, p, e);
    let b = segment_start(s, p, e);
    if e > 0 {
        lemma_segment_start_bounds(s, p, e - 1);
        assert(!p.is_separator(s[e - 1]));
        assert(t.take(b) =~= s.take(b));
        assert(t.subrange(b, e) =~= s.subrange(b, e));
    }
}

/// The component ranges of `chars`, last component first.
fn name_ranges(chars: &Vec<char>, p: Platform) -> (r: Vec<(usize, usize)>)
    ensures
        r.len() == names(chars@, p).len(),
        forall|k: int|
            0 <= k < r.len() ==> (#[trigger] r[k]).0 <= r[k].1 <= chars.len() && names(
                chars@,
                p,
            )[r.len() - 1 - k] == chars@.subrange(r[k].0 as int, r[k].1 as int),
{
    let mut out: Vec<(usize, usize)> = Vec::new();
    let mut n: usize = chars.len();
    assert(chars@.take(n as int) =~= chars@);
    loop
        invariant
            n <= chars.len(),
            names(chars@, p).len() == names(chars@.take(n as int), p).len() + out.len(),
            forall|k: int|
                0 <= k < names(chars@.take(n as int), p).len() ==> names(chars@, p)[k] == names(
                    chars@.take(n as int),
                    p,
                )[k],
            forall|k: int|
                0 <= k < out.len() ==> (#[trigger] out[k]).0 <= out[k].1 <= chars.len() && names(
                    chars@,
                    p,
                )[names(chars@, p).len() - 1 - k] == chars@.subrange(
                    out[k].0 as int,
                    out[k].1 as int,
                ),
        decreases n,
    {
        let e = find_name_end(chars, n, p);
        let b = find_segment_start(chars, e, p);
        proof {
            lemma_names_step(chars@, p, n as int);
        }
        if e == 0 {
            return out;
        }
        out.push((b, e));
        n = b;
    }
}

/// Whether the characters of two ranges agree.
fn ranges_equal(a: &Vec<char>, ar: (usize, usize), b: &Vec<char>, br: (usize, usize)) -> (r: bool)
    requires
        ar.0 <= ar.1 <= a.len(),
        br.0 <= br.1 <= b.len(),
    ensures
        r == (a@.subrange(ar.0 as int, ar.1 as int) == b@.subrange(br.0 as int, br.1 as int)),
{
    let ghost x = a@.subrange(ar.0 as int, ar.1 as int);
    let ghost y = b@.subrange(br.0 as int, br.1 as int);
    if ar.1 - ar.0 != br.1 - br.0 {
        assert(x.len() != y.len());
        return false;
    }
    let len = ar.1 - ar.0;
    let mut i: usize = 0;
    while i < len
        invariant
            i <= len,
            len == ar.1 - ar.0,
            len == br.1 - br.0,
            ar.1 <= a.len(),
            br.1 <= b.len(),
            x == a@.subrange(ar.0 as int, ar.1 as int),
            y == b@.subrange(br.0 as int, br.1 as int),
            forall|j: int| 0 <= j < i ==> x[j] == y[j],
        decreases len - i,
    {
        if a[ar.0 + i] != b[br.0 + i] {
            assert(x[i as int] != y[i as int]);
            return false;
        }
        i += 1;
    }
    assert(x =~= y);
    true
}

/// Whether `base` is a prefix of `path`, component by component.
pub fn path_starts_with(path: &str, base: &str, p: Platform) -> (r: bool)
    ensures
        r == starts_with(path@, base@, p),
{
    let pc = to_chars(path);
    let bc = to_chars(base);
    let p_root = pc.len() > 0 && p.separates(pc[0]);
    let b_root = bc.len() > 0 && p.separates(bc[0]);
    if p_root != b_root {
        return false;
    }
    let pr = name_ranges(&pc, p);
    let br = name_ranges(&bc, p);
    let ghost pn = names(path@, p);
    let ghost bn = names(base@, p);
    if br.len() > pr.len() {
        return false;
    }
    let count = br.len();
    let mut k: usize = 0;
    while k < count
        invariant
            k <= count,
            count == br.len(),
            count <= pr.len(),
            pc@ == path@,
            bc@ == base@,
            pn == names(path@, p),
            bn == names(base@, p),
            pr.len() == pn.len(),
            br.len() == bn.len(),
            forall|j: int|
                0 <= j < pr.len() ==> (#[trigger] pr[j]).0 <= pr[j].1 <= pc.len() && pn[pr.len() - 1
                    - j] == pc@.subrange(pr[j].0 as int, pr[j].1 as int),
            forall|j: int|
                0 <= j < br.len() ==> (#[trigger] br[j]).0 <= br[j].1 <= bc.len() && bn[br.len() - 1
                    - j] == bc@.subrange(br[j].0 as int, br[j].1 as int),
            forall|j: int| 0 <= j < k ==> pn[j] == bn[j],
        decreases count - k,
    {
        let pi = pr.len() - 1 - k;
        let bi = br.len() - 1 - k;
        if !ranges_equal(&pc, pr[pi], &bc, br[bi]) {
            assert(pn[k as int] != bn[k as int]);
            assert(pn.subrange(0, bn.len() as int)[k as int] == pn[k as int]);
            return false;
        }
        k += 1;
    }
    assert(pn.subrange(0, bn.len() as int) =~= bn);
    true
}

/// Whether two paths have the same root and the same components.
pub fn same_path(a: &str, b: &str, p: Platform) -> (r: bool)
    ensures
        r == same_location(a@, b@, p),
{
    path_starts_with(a, b, p) && path_starts_with(b, a, p)
}

} // verus!
