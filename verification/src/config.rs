//! The sandbox policy: allowed roots and denied patterns.

use vstd::prelude::*;
use vstd::string::*;
use crate::error::FsError;
use crate::path::{Platform, same_location, same_path};

verus! {

/// Security configuration for sandboxing file operations.
#[derive(Debug, Clone)]
pub struct SecurityConfig {
    /// Allowed root directories for file operations.
    pub allowed_roots: Vec<String>,
    /// Glob patterns for denied paths.
    pub denied_patterns: Vec<String>,
}

/// Access to the shared policy. An operation takes one snapshot and works
/// on it to its end, so it never sees the policy change under it. A failure
/// to read the policy is an error and never counts as permission.
pub trait ConfigExt {
    fn get_config(&self) -> Result<SecurityConfig, String>;
}

/// The views of the strings of `v`, in order.
pub open spec fn texts(v: Seq<String>) -> Seq<Seq<char>> {
    v.map_values(|s: String| s@)
}

/// The deny patterns that protect the directories of the operating system.
pub open spec fn default_denied(p: Platform) -> Seq<Seq<char>> {
    match p {
        Platform::Windows => seq![
            "**/Windows/System32/**"@,
            "**/Windows/SysWOW64/**"@,
            "**/Program Files/**"@,
            "**/Program Files (x86)/**"@,
            "**/ProgramData/**"@,
        ],
        Platform::Unix => seq![
            "/etc/**"@,
            "/usr/**"@,
            "/bin/**"@,
            "/sbin/**"@,
            "/var/**"@,
            "/proc/**"@,
            "/sys/**"@,
        ],
    }
}

/// Some root of `roots` is the same location as `path`.
pub open spec fn lists_location(roots: Seq<Seq<char>>, path: Seq<char>, p: Platform) -> bool {
    exists|i: int| 0 <= i < roots.len() && same_location(#[trigger] roots[i], path, p)
}

/// `roots` extended, in order, by each mount that it does not list yet.
pub open spec fn with_mounts(roots: Seq<Seq<char>>, mounts: Seq<Seq<char>>, p: Platform) -> Seq<
    Seq<char>,
>
    decreases mounts.len(),
{
    if mounts.len() == 0 {
        roots
    } else {
        let before = with_mounts(roots, mounts.drop_last(), p);
        if lists_location(before, mounts.last(), p) {
            before
        } else {
            before.push(mounts.last())
        }
    }
}

/// The roots of the default policy: the directories that are known, in the
/// order home, documents, downloads, and then the temporary directory.
pub open spec fn default_roots(
    home: Option<Seq<char>>,
    documents: Option<Seq<char>>,
    downloads: Option<Seq<char>>,
    temp: Seq<char>,
) -> Seq<Seq<char>> {
    let a: Seq<Seq<char>> = match home {
        Some(h) => seq![h],
        None => seq![],
    };
    let b = match documents {
        Some(d) => a.push(d),
        None => a,
    };
    let c = match downloads {
        Some(d) => b.push(d),
        None => b,
    };
    c.push(temp)
}

fn push_text(list: &mut Vec<String>, text: &str)
    ensures
        texts(final(list)@) == texts(old(list)@).push(text@),
{
    let s = String::from_str(text);
    list.push(s);
    assert(texts(list@) =~= texts(old(list)@).push(text@));
}

/// Whether some root of `roots` is the same location as `path`.
fn lists(roots: &Vec<String>, path: &str, p: Platform) -> (b: bool)
    ensures
        b == lists_location(texts(roots@), path@, p),
{
    let mut i: usize = 0;
    while i < roots.len()
        invariant
            i <= roots.len(),
            forall|j: int| 0 <= j < i ==> !same_location(#[trigger] texts(roots@)[j], path@, p),
        decreases roots.len() - i,
    {
        let root = roots[i].as_str();
        assert(texts(roots@)[i as int] == root@);
        if same_path(root, path, p) {
            return true;
        }
        i += 1;
    }
    false
}

fn copy_texts(list: &Vec<String>) -> (out: Vec<String>)
    ensures
        texts(out@) == texts(list@),
{
    let mut out: Vec<String> = Vec::new();
    let mut i: usize = 0;
    while i < list.len()
        invariant
            i <= list.len(),
            texts(out@) == texts(list@).take(i as int),
        decreases list.len() - i,
    {
        let ghost before = out@;
        let s = list[i].clone();
        out.push(s);
        assert(texts(out@) =~= texts(before).push(s@));
        assert(texts(list@).take(i + 1) =~= texts(list@).take(i as int).push(list[i as int]@));
        i += 1;
    }
    assert(texts(list@).take(list.len() as int) =~= texts(list@));
    out
}

/// The policy that an operation works on, given what reading the shared
/// policy gave: a copy of it, or `Internal` where it could not be read.
pub fn policy_snapshot(read: Option<&SecurityConfig>) -> (r: Result<SecurityConfig, FsError>)
    ensures
        match read {
            Some(shared) => r matches Ok(own) && own.roots() == shared.roots() && own.patterns()
                == shared.patterns(),
            None => r == Err::<SecurityConfig, FsError>(FsError::Internal),
        },
{
    match read {
        Some(shared) => Ok(shared.snapshot()),
        None => Err(FsError::Internal),
    }
}

impl SecurityConfig {
    /// A copy of the policy with the same roots and the same patterns.
    pub fn snapshot(&self) -> (own: SecurityConfig)
        ensures
            own.roots() == self.roots(),
            own.patterns() == self.patterns(),
    {
        SecurityConfig {
            allowed_roots: copy_texts(&self.allowed_roots),
            denied_patterns: copy_texts(&self.denied_patterns),
        }
    }

    /// The allowed roots, as character sequences.
    pub open spec fn roots(self) -> Seq<Seq<char>> {
        texts(self.allowed_roots@)
    }

    /// The denied patterns, as character sequences.
    pub open spec fn patterns(self) -> Seq<Seq<char>> {
        texts(self.denied_patterns@)
    }

    /// The patterns that every default policy denies on `p`.
    pub fn default_denied_patterns(p: Platform) -> (v: Vec<String>)
        ensures
            texts(v@) == default_denied(p),
    {
        let mut v: Vec<String> = Vec::new();
        assert(texts(v@) =~= Seq::<Seq<char>>::empty());
        match p {
            Platform::Windows => {
                push_text(&mut v, "**/Windows/System32/**");
                push_text(&mut v, "**/Windows/SysWOW64/**");
                push_text(&mut v, "**/Program Files/**");
                push_text(&mut v, "**/Program Files (x86)/**");
                push_text(&mut v, "**/ProgramData/**");
            },
            Platform::Unix => {
                push_text(&mut v, "/etc/**");
                push_text(&mut v, "/usr/**");
                push_text(&mut v, "/bin/**");
                push_text(&mut v, "/sbin/**");
                push_text(&mut v, "/var/**");
                push_text(&mut v, "/proc/**");
                push_text(&mut v, "/sys/**");
            },
        }
        assert(texts(v@) =~= default_denied(p));
        v
    }

    /// The default policy. The caller supplies the user's directories as far
    /// as the system knows them, and the temporary directory.
    pub fn default_config(
        home: Option<String>,
        documents: Option<String>,
        downloads: Option<String>,
        temp: String,
        p: Platform,
    ) -> (config: SecurityConfig)
        ensures
            config.roots() == default_roots(
                match home {
                    Some(h) => Some(h@),
                    None => None,
                },
                match documents {
                    Some(d) => Some(d@),
                    None => None,
                },
                match downloads {
                    Some(d) => Some(d@),
                    None => None,
                },
                temp@,
            ),
            config.patterns() == default_denied(p),
    {
        let mut roots: Vec<String> = Vec::new();
        assert(texts(roots@) =~= Seq::<Seq<char>>::empty());
        if let Some(h) = home {
            let ghost before = roots@;
            roots.push(h);
            assert(texts(roots@) =~= texts(before).push(h@));
        }
        if let Some(d) = documents {
            let ghost before = roots@;
            roots.push(d);
            assert(texts(roots@) =~= texts(before).push(d@));
        }
        if let Some(d) = downloads {
            let ghost before = roots@;
            roots.push(d);
            assert(texts(roots@) =~= texts(before).push(d@));
        }
        let ghost before = roots@;
        roots.push(temp);
        assert(texts(roots@) =~= texts(before).push(temp@));
        SecurityConfig {
            allowed_roots: roots,
            denied_patterns: SecurityConfig::default_denied_patterns(p),
        }
    }

    /// Extends the allowed roots with the mount points of the mounted disks,
    /// skipping each one that is already listed.
    pub fn with_mounted_disks(self, mounts: &Vec<String>, p: Platform) -> (config: SecurityConfig)
        ensures
            config.roots() == with_mounts(self.roots(), texts(mounts@), p),
            config.patterns() == self.patterns(),
    {
        let mut config = self;
        let mut i: usize = 0;
        assert(texts(mounts@).take(0) =~= Seq::<Seq<char>>::empty());
        while i < mounts.len()
            invariant
                i <= mounts.len(),
                config.patterns() == self.patterns(),
                config.roots() == with_mounts(self.roots(), texts(mounts@).take(i as int), p),
            decreases mounts.len() - i,
        {
            let mount = mounts[i].as_str();
            proof {
                let upto = texts(mounts@).take(i + 1);
                assert(upto.drop_last() =~= texts(mounts@).take(i as int));
                assert(upto.last() == mount@);
            }
            if !lists(&config.allowed_roots, mount, p) {
                push_text(&mut config.allowed_roots, mount);
            }
            i += 1;
        }
        assert(texts(mounts@).take(mounts.len() as int) =~= texts(mounts@));
        config
    }
}

} // verus!
