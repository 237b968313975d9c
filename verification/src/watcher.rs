//! The table of active directory watches.
//!
//! Each watch has a stop flag. A worker that serves a watch asks the table
//! whether to go on; starting a new watch on a directory stops the one
//! before it, and a worker that ends removes its own entry, never that of
//! its successor.

use vstd::prelude::*;
use vstd::string::*;
use crate::error::FsError;
use crate::text::same_text;

verus! {

/// The state of one watch: the token of the worker that serves it, and
/// whether it was told to stop.
#[derive(Debug, Clone, Copy, PartialEq, Eq, Structural)]
pub struct WatchFlag {
    pub token: u64,
    pub stopped: bool,
}

struct Watch {
    key: String,
    flag: WatchFlag,
}

/// The flag of the first entry of `s` with this key.
spec fn lookup(s: Seq<Watch>, key: Seq<char>) -> Option<WatchFlag>
    decreases s.len(),
{
    if s.len() == 0 {
        None
    } else if s[0].key@ == key {
        Some(s[0].flag)
    } else {
        lookup(s.drop_first(), key)
    }
}

/// Index of the first entry of `s` with this key, or the length of `s`.
spec fn position(s: Seq<Watch>, key: Seq<char>) -> int
    decreases s.len(),
{
    if s.len() == 0 {
        0
    } else if s[0].key@ == key {
        0
    } else {
        1 + position(s.drop_first(), key)
    }
}

proof fn lemma_position(s: Seq<Watch>, key: Seq<char>)
    ensures
        0 <= position(s, key) <= s.len(),
        forall|j: int| 0 <= j < position(s, key) ==> (#[trigger] s[j]).key@ != key,
        position(s, key) < s.len() ==> s[position(s, key)].key@ == key && lookup(s, key) == Some(
            s[position(s, key)].flag,
        ),
        position(s, key) == s.len() ==> lookup(s, key).is_none(),
    decreases s.len(),
{
    if s.len() > 0 && s[0].key@ != key {
        let rest = s.drop_first();
        lemma_position(rest, key);
        assert forall|j: int| 0 <= j < position(s, key) implies (#[trigger] s[j]).key@ != key by {
            if j > 0 {
                assert(s[j] == rest[j - 1]);
            }
        }
    }
}

proof fn lemma_lookup_update(s: Seq<Watch>, i: int, w: Watch, key: Seq<char>)
    requires
        0 <= i < s.len(),
        s[i].key@ == w.key@,
    ensures
        lookup(s.update(i, w), key) == if key == w.key@ && position(s, key) == i {
            Some(w.flag)
        } else {
            lookup(s, key)
        },
    decreases s.len(),
{
    let t = s.update(i, w);
    if i == 0 {
        assert(t.drop_first() =~= s.drop_first());
    } else {
        assert(t.drop_first() =~= s.drop_first().update(i - 1, w));
        if s[0].key@ != key {
            lemma_lookup_update(s.drop_first(), i - 1, w, key);
        }
    }
}

proof fn lemma_lookup_push(s: Seq<Watch>, w: Watch, key: Seq<char>)
    ensures
        lookup(s.push(w), key) == match lookup(s, key) {
            Some(f) => Some(f),
            None => if key == w.key@ {
                Some(w.flag)
            } else {
                None
            },
        },
    decreases s.len(),
{
    if s.len() == 0 {
        assert(s.push(w).drop_first() =~= s);
    } else {
        assert(s.push(w).drop_first() =~= s.drop_first().push(w));
        if s[0].key@ != key {
            lemma_lookup_push(s.drop_first(), w, key);
        }
    }
}

proof fn lemma_lookup_remove(s: Seq<Watch>, i: int, key: Seq<char>)
    requires
        0 <= i < s.len(),
        i == position(s, s[i].key@),
        forall|a: int, b: int|
            0 <= a < b < s.len() ==> (#[trigger] s[a]).key@ != (#[trigger] s[b]).key@,
    ensures
        lookup(s.remove(i), key) == if key == s[i].key@ {
            None
        } else {
            lookup(s, key)
        },
    decreases s.len(),
{
    let t = s.remove(i);
    if i == 0 {
        assert(t =~= s.drop_first());
        if key == s[0].key@ {
            lemma_position(t, key);
            if position(t, key) < t.len() {
                assert(t[position(t, key)] == s[position(t, key) + 1]);
            }
        }
    } else {
        assert(t.drop_first() =~= s.drop_first().remove(i - 1));
        assert(t[0] == s[0]);
        let rest = s.drop_first();
        assert(rest[i - 1] == s[i]);
        assert forall|a: int, b: int| 0 <= a < b < rest.len() implies (#[trigger] rest[a]).key@ != (
        #[trigger] rest[b]).key@ by {
            assert(rest[a] == s[a + 1]);
            assert(rest[b] == s[b + 1]);
        }
        if s[0].key@ != key {
            lemma_lookup_remove(rest, i - 1, key);
        }
    }
}

/// State for managing directory watchers.
pub struct WatcherState {
    watches: Vec<Watch>,
    issued: u64,
}

impl WatcherState {
    /// The table is well formed: no directory has two entries, and every
    /// token in it was issued.
    pub closed spec fn wf(self) -> bool {
        &&& forall|a: int, b: int|
            0 <= a < b < self.watches@.len() ==> (#[trigger] self.watches@[a]).key@ != (
            #[trigger] self.watches@[b]).key@
        &&& forall|a: int|
            0 <= a < self.watches@.len() ==> (#[trigger] self.watches@[a]).flag.token
                < self.issued
    }

    /// The flag of the watch on the directory `key`, if there is one.
    pub closed spec fn flag(self, key: Seq<char>) -> Option<WatchFlag> {
        lookup(self.watches@, key)
    }

    /// The number of tokens issued so far; the next token.
    pub closed spec fn issued(self) -> u64 {
        self.issued
    }

    /// The worker with this token is to end its watch on `key`: the watch
    /// is no longer its own, or it was told to stop.
    pub open spec fn must_stop(self, key: Seq<char>, token: u64) -> bool {
        match self.flag(key) {
            Some(f) => f.token != token || f.stopped,
            None => true,
        }
    }

    /// A table without watches.
    pub fn new() -> (s: WatcherState)
        ensures
            s.wf(),
            s.issued() == 0,
            forall|key: Seq<char>| s.flag(key).is_none(),
    {
        WatcherState { watches: Vec::new(), issued: 0 }
    }

    fn find(&self, key: &str) -> (i: usize)
        ensures
            i as int == position(self.watches@, key@),
            i <= self.watches@.len(),
    {
        let mut i: usize = 0;
        assert(self.watches@.skip(0) =~= self.watches@);
        while i < self.watches.len()
            invariant
                i <= self.watches@.len(),
                position(self.watches@, key@) == i + position(self.watches@.skip(i as int), key@),
            decreases self.watches@.len() - i,
        {
            proof {
                assert(self.watches@.skip(i as int)[0] == self.watches@[i as int]);
                assert(self.watches@.skip(i as int).drop_first() =~= self.watches@.skip(i + 1));
            }
            if same_text(self.watches[i].key.as_str(), key) {
                return i;
            }
            i += 1;
        }
        i
    }

    /// Starts a watch on `key` and returns the token of its worker. A
    /// watch that was there before is replaced, so its worker will be told to
    /// stop. Fails with `Internal` once the tokens are used up.
    pub fn watch(&mut self, key: &str) -> (r: Result<u64, FsError>)
        requires
            old(self).wf(),
        ensures
            final(self).wf(),
            match r {
                Ok(token) => {
                    &&& token == old(self).issued()
                    &&& final(self).issued() == token + 1
                    &&& final(self).flag(key@) == Some(WatchFlag { token, stopped: false })
                    &&& old(self).flag(key@) matches Some(f) ==> final(self).must_stop(
                        key@,
                        f.token,
                    )
                    &&& forall|other: Seq<char>|
                        other != key@ ==> final(self).flag(other) == old(self).flag(other)
                },
                Err(e) => {
                    &&& e == FsError::Internal
                    &&& old(self).issued() == u64::MAX
                    &&& final(self).issued() == old(self).issued()
                    &&& forall|other: Seq<char>| final(self).flag(other) == old(self).flag(other)
                },
            },
    {
        if self.issued == u64::MAX {
            return Err(FsError::Internal);
        }
        let token = self.issued;
        let i = self.find(key);
        let fresh = Watch { key: String::from_str(key), flag: WatchFlag { token, stopped: false } };
        proof {
            lemma_position(self.watches@, key@);
        }
        if i < self.watches.len() {
            proof {
                assert forall|other: Seq<char>| true implies lookup(
                    self.watches@.update(i as int, fresh),
                    other,
                ) == if other == key@ {
                    Some(fresh.flag)
                } else {
                    lookup(self.watches@, other)
                } by {
                    lemma_lookup_update(self.watches@, i as int, fresh, other);
                }
            }
            self.watches.set(i, fresh);
        } else {
            proof {
                assert forall|other: Seq<char>| true implies lookup(
                    self.watches@.push(fresh),
                    other,
                ) == if other == key@ {
                    Some(fresh.flag)
                } else {
                    lookup(self.watches@, other)
                } by {
                    lemma_lookup_push(self.watches@, fresh, other);
                }
            }
            self.watches.push(fresh);
        }
        self.issued = self.issued + 1;
        Ok(token)
    }

    /// Tells the worker of the watch on `key` to stop. The entry stays until
    /// the worker ends. Without a watch on `key` nothing changes.
    pub fn unwatch(&mut self, key: &str)
        requires
            old(self).wf(),
        ensures
            final(self).wf(),
            final(self).issued() == old(self).issued(),
            final(self).flag(key@) == match old(self).flag(key@) {
                Some(f) => Some(WatchFlag { token: f.token, stopped: true }),
                None => None,
            },
            forall|other: Seq<char>|
                other != key@ ==> final(self).flag(other) == old(self).flag(other),
    {
        let i = self.find(key);
        proof {
            lemma_position(self.watches@, key@);
        }
        if i < self.watches.len() {
            let token = self.watches[i].flag.token;
            let stopped = Watch {
                key: String::from_str(key),
                flag: WatchFlag { token, stopped: true },
            };
            proof {
                assert forall|other: Seq<char>| true implies lookup(
                    self.watches@.update(i as int, stopped),
                    other,
                ) == if other == key@ {
                    Some(stopped.flag)
                } else {
                    lookup(self.watches@, other)
                } by {
                    lemma_lookup_update(self.watches@, i as int, stopped, other);
                }
            }
            self.watches.set(i, stopped);
        }
    }

    /// Whether the worker with this token is to end its watch on `key`.
    pub fn should_stop(&self, key: &str, token: u64) -> (b: bool)
        ensures
            b == self.must_stop(key@, token),
    {
        let i = self.find(key);
        proof {
            lemma_position(self.watches@, key@);
        }
        if i < self.watches.len() {
            self.watches[i].flag.token != token || self.watches[i].flag.stopped
        } else {
            true
        }
    }

    /// The worker with this token has ended its watch on `key`. Its entry
    /// is removed if it is still its own; the entry of a successor stays.
    pub fn finish(&mut self, key: &str, token: u64)
        requires
            old(self).wf(),
        ensures
            final(self).wf(),
            final(self).issued() == old(self).issued(),
            final(self).flag(key@) == match old(self).flag(key@) {
                Some(f) => if f.token == token {
                    None
                } else {
                    Some(f)
                },
                None => None,
            },
            forall|other: Seq<char>|
                other != key@ ==> final(self).flag(other) == old(self).flag(other),
    {
        let i = self.find(key);
        proof {
            lemma_position(self.watches@, key@);
        }
        if i < self.watches.len() && self.watches[i].flag.token == token {
            proof {
                assert forall|other: Seq<char>| true implies lookup(
                    self.watches@.remove(i as int),
                    other,
                ) == if other == key@ {
                    None
                } else {
                    lookup(self.watches@, other)
                } by {
                    lemma_lookup_remove(self.watches@, i as int, other);
                }
            }
            let _ = self.watches.remove(i);
        }
    }
}

} // verus!
