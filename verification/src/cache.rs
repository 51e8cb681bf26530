use vstd::prelude::*;

use crate::token::constant_time_str_eq;

verus! {

/// The server-side half of one issued session: the public key names
/// the slot, the body is the stored secret, and the entry counts as
/// absent from `expires_at` on.
pub struct SessionEntry {
    pub key: String,
    pub body: String,
    pub expires_at: u64,
}

/// The denormalized authorized-repository names of one uid.
pub struct RepoSet {
    pub uid: String,
    pub names: Vec<String>,
}

/// The logical content of the session cache.
///
/// Expiry is modeled by comparison against the caller-supplied clock
/// at every read: an entry past its expiry is indistinguishable from
/// one that was never written, which is exactly the absence semantics
/// the backing store provides. Repository sets are stored without an
/// expiry.
pub struct SessionCache {
    pub sessions: Vec<SessionEntry>,
    pub repo_sets: Vec<RepoSet>,
}

impl SessionCache {
    pub open spec fn keys_unique(self) -> bool {
        forall|i: int, j: int|
            0 <= i < self.sessions@.len() && 0 <= j < self.sessions@.len() && i != j
                ==> (#[trigger] self.sessions@[i]).key@ != (#[trigger] self.sessions@[j]).key@
    }

    pub open spec fn repo_uids_unique(self) -> bool {
        forall|i: int, j: int|
            0 <= i < self.repo_sets@.len() && 0 <= j < self.repo_sets@.len() && i != j
                ==> (#[trigger] self.repo_sets@[i]).uid@ != (#[trigger] self.repo_sets@[j]).uid@
    }

    /// The cache invariant: one slot per key, one set per uid.
    pub open spec fn wf(self) -> bool {
        self.keys_unique() && self.repo_uids_unique()
    }

    pub open spec fn has_session(self, key: Seq<char>) -> bool {
        exists|i: int| 0 <= i < self.sessions@.len() && (#[trigger] self.sessions@[i]).key@ == key
    }

    pub open spec fn session_index(self, key: Seq<char>) -> int {
        choose|i: int|
            0 <= i < self.sessions@.len() && (#[trigger] self.sessions@[i]).key@ == key
    }

    /// The stored secret of a key (meaningful when the key is present).
    pub open spec fn session_body(self, key: Seq<char>) -> Seq<char> {
        self.sessions@[self.session_index(key)].body@
    }

    /// The instant from which the entry counts as absent.
    pub open spec fn session_expiry(self, key: Seq<char>) -> u64 {
        self.sessions@[self.session_index(key)].expires_at
    }

    /// A key resolves at `now` only if it was stored and its TTL has
    /// not yet elapsed.
    pub open spec fn live_session(self, key: Seq<char>, now: u64) -> bool {
        self.has_session(key) && now < self.session_expiry(key)
    }

    pub open spec fn has_repo_set(self, uid: Seq<char>) -> bool {
        exists|i: int|
            0 <= i < self.repo_sets@.len() && (#[trigger] self.repo_sets@[i]).uid@ == uid
    }

    pub open spec fn repo_set_index(self, uid: Seq<char>) -> int {
        choose|i: int|
            0 <= i < self.repo_sets@.len() && (#[trigger] self.repo_sets@[i]).uid@ == uid
    }

    /// The cached repository names of a uid, as character sequences.
    pub open spec fn repo_set_of(self, uid: Seq<char>) -> Seq<Seq<char>> {
        self.repo_sets@[self.repo_set_index(uid)].names.deep_view()
    }

    /// An empty cache.
    pub fn new() -> (c: SessionCache)
        ensures
            c.wf(),
            c.sessions@.len() == 0,
            c.repo_sets@.len() == 0,
    {
        SessionCache { sessions: Vec::new(), repo_sets: Vec::new() }
    }

    fn find_session(&self, key: &str) -> (r: Option<usize>)
        ensures
            match r {
                Some(i) => i < self.sessions@.len() && self.sessions@[i as int].key@ == key@,
                None => !self.has_session(key@),
            },
    {
        let n = self.sessions.len();
        let mut i: usize = 0;
        while i < n
            invariant
                n == self.sessions@.len(),
                i <= n,
                forall|j: int| 0 <= j < i ==> (#[trigger] self.sessions@[j]).key@ != key@,
            decreases n - i,
        {
            if constant_time_str_eq(self.sessions[i].key.as_str(), key) {
                return Some(i);
            }
            i += 1;
        }
        None
    }

    /// Store the secret half of a session under its key, expiring
    /// `ttl` seconds after `now`. A colliding key is overwritten
    /// silently; every other slot is untouched.
    pub fn put_session(&mut self, key: String, body: String, ttl: u64, now: u64)
        requires
            old(self).wf(),
            now + ttl <= u64::MAX,
        ensures
            final(self).wf(),
            final(self).repo_sets == old(self).repo_sets,
            final(self).has_session(key@),
            final(self).session_body(key@) == body@,
            final(self).session_expiry(key@) == now + ttl,
            forall|k: Seq<char>|
                k != key@ ==> #[trigger] final(self).has_session(k) == old(self).has_session(k),
            forall|k: Seq<char>|
                k != key@ && old(self).has_session(k) ==> #[trigger] final(self).session_body(k)
                    == old(self).session_body(k) && final(self).session_expiry(k) == old(
                    self,
                ).session_expiry(k),
    {
        let ghost old_cache = *self;
        let ghost key_view = key@;
        match self.find_session(key.as_str()) {
            Some(i) => {
                self.sessions.remove(i);
                proof {
                    lemma_remove_keeps_others(old_cache, *self, i as int);
                }
            },
            None => {
            },
        }
        let ghost mid_cache = *self;
        proof {
            assert(!mid_cache.has_session(key@));
        }
        self.sessions.push(SessionEntry { key, body, expires_at: now + ttl });
        proof {
            let n = self.sessions@.len() - 1;
            assert(self.sessions@[n].key@ == key_view);
            assert(self.has_session(key_view));
            assert forall|i: int, j: int|
                0 <= i < self.sessions@.len() && 0 <= j < self.sessions@.len() && i != j implies (
            #[trigger] self.sessions@[i]).key@ != (#[trigger] self.sessions@[j]).key@ by {
                if i < n && j < n {
                    assert(self.sessions@[i] == mid_cache.sessions@[i]);
                    assert(self.sessions@[j] == mid_cache.sessions@[j]);
                } else if i == n {
                    assert(self.sessions@[j] == mid_cache.sessions@[j]);
                } else {
                    assert(self.sessions@[i] == mid_cache.sessions@[i]);
                }
            }
            assert(self.session_index(key@) == n) by {
                let i = self.session_index(key@);
                assert(self.sessions@[i].key@ == key@);
                if i != n {
                    assert(self.sessions@[i] == mid_cache.sessions@[i]);
                }
            }
            assert forall|k: Seq<char>| k != key@ implies #[trigger] self.has_session(k)
                == old_cache.has_session(k) by {
                assert(mid_cache.has_session(k) == old_cache.has_session(k));
                if mid_cache.has_session(k) {
                    let i = mid_cache.session_index(k);
                    assert(self.sessions@[i] == mid_cache.sessions@[i]);
                    assert(self.has_session(k));
                }
                if self.has_session(k) {
                    let i = self.session_index(k);
                    assert(i != n);
                    assert(self.sessions@[i] == mid_cache.sessions@[i]);
                    assert(mid_cache.has_session(k));
                }
            }
            assert forall|k: Seq<char>| k != key@ && old_cache.has_session(k) implies #[trigger] self.session_body(k)
                == old_cache.session_body(k) && self.session_expiry(k) == old_cache.session_expiry(
                k,
            ) by {
                assert(mid_cache.has_session(k) == old_cache.has_session(k));
                assert(mid_cache.has_session(k) ==> mid_cache.session_body(k)
                    == old_cache.session_body(k) && mid_cache.session_expiry(k)
                    == old_cache.session_expiry(k));
                let i = self.session_index(k);
                assert(self.has_session(k));
                assert(self.sessions@[i].key@ == k);
                assert(i != n);
                assert(self.sessions@[i] == mid_cache.sessions@[i]);
                assert(mid_cache.has_session(k)) by {
                    assert(mid_cache.sessions@[i].key@ == k);
                }
                let j = mid_cache.session_index(k);
                assert(j == i) by {
                    if j != i {
                        assert(mid_cache.sessions@[j].key@ != mid_cache.sessions@[i].key@);
                    }
                }
            }
        }
    }

    /// Read the stored secret of a key at `now`. Absence — expired,
    /// evicted or never set — is a normal outcome, not an error.
    pub fn get_session(&self, key: &str, now: u64) -> (r: Option<String>)
        requires
            self.wf(),
        ensures
            match r {
                Some(b) => self.live_session(key@, now) && b@ == self.session_body(key@),
                None => !self.live_session(key@, now),
            },
    {
        match self.find_session(key) {
            Some(i) => {
                proof {
                    let k = self.session_index(key@);
                    assert(self.sessions@[k].key@ == key@);
                    if k != i {
                        assert(self.sessions@[k].key@ != self.sessions@[i as int].key@);
                    }
                }
                if now < self.sessions[i].expires_at {
                    Some(self.sessions[i].body.clone())
                } else {
                    None
                }
            },
            None => None,
        }
    }

    fn find_repo_set(&self, uid: &str) -> (r: Option<usize>)
        ensures
            match r {
                Some(i) => i < self.repo_sets@.len() && self.repo_sets@[i as int].uid@ == uid@,
                None => !self.has_repo_set(uid@),
            },
    {
        let n = self.repo_sets.len();
        let mut i: usize = 0;
        while i < n
            invariant
                n == self.repo_sets@.len(),
                i <= n,
                forall|j: int| 0 <= j < i ==> (#[trigger] self.repo_sets@[j]).uid@ != uid@,
            decreases n - i,
        {
            if constant_time_str_eq(self.repo_sets[i].uid.as_str(), uid) {
                return Some(i);
            }
            i += 1;
        }
        None
    }

    /// Whether the repository set of a uid has been materialized.
    pub fn contains_repo_set(&self, uid: &str) -> (r: bool)
        ensures
            r == self.has_repo_set(uid@),
    {
        self.find_repo_set(uid).is_some()
    }

    /// The cached repository names of a uid, copied out.
    pub fn get_repo_set(&self, uid: &str) -> (r: Option<Vec<String>>)
        requires
            self.wf(),
        ensures
            match r {
                Some(names) => self.has_repo_set(uid@) && names.deep_view() == self.repo_set_of(
                    uid@,
                ),
                None => !self.has_repo_set(uid@),
            },
    {
        match self.find_repo_set(uid) {
            Some(i) => {
                proof {
                    let k = self.repo_set_index(uid@);
                    assert(self.repo_sets@[k].uid@ == uid@);
                    if k != i {
                        assert(self.repo_sets@[k].uid@ != self.repo_sets@[i as int].uid@);
                    }
                }
                Some(clone_names(&self.repo_sets[i].names))
            },
            None => None,
        }
    }

    /// Materialize the repository set of a uid, with no expiry. Only
    /// an absent uid is populated, mirroring the lazy first-access
    /// load; sessions and every other uid are untouched.
    pub fn populate_repo_set(&mut self, uid: String, names: Vec<String>)
        requires
            old(self).wf(),
            !old(self).has_repo_set(uid@),
        ensures
            final(self).wf(),
            final(self).sessions == old(self).sessions,
            final(self).has_repo_set(uid@),
            final(self).repo_set_of(uid@) == names.deep_view(),
            forall|u: Seq<char>|
                u != uid@ ==> #[trigger] final(self).has_repo_set(u) == old(self).has_repo_set(u),
            forall|u: Seq<char>|
                u != uid@ && old(self).has_repo_set(u) ==> #[trigger] final(self).repo_set_of(u)
                    == old(self).repo_set_of(u),
    {
        let ghost old_cache = *self;
        let ghost uid_view = uid@;
        self.repo_sets.push(RepoSet { uid, names });
        proof {
            let n = self.repo_sets@.len() - 1;
            assert(self.repo_sets@[n].uid@ == uid_view);
            assert(self.has_repo_set(uid_view));
            assert forall|i: int, j: int|
                0 <= i < self.repo_sets@.len() && 0 <= j < self.repo_sets@.len() && i != j implies (
            #[trigger] self.repo_sets@[i]).uid@ != (#[trigger] self.repo_sets@[j]).uid@ by {
                if i < n && j < n {
                    assert(self.repo_sets@[i] == old_cache.repo_sets@[i]);
                    assert(self.repo_sets@[j] == old_cache.repo_sets@[j]);
                } else if i == n {
                    assert(self.repo_sets@[j] == old_cache.repo_sets@[j]);
                } else {
                    assert(self.repo_sets@[i] == old_cache.repo_sets@[i]);
                }
            }
            assert(self.repo_set_index(uid@) == n) by {
                let i = self.repo_set_index(uid@);
                assert(self.repo_sets@[i].uid@ == uid@);
                if i != n {
                    assert(self.repo_sets@[i] == old_cache.repo_sets@[i]);
                }
            }
            assert forall|u: Seq<char>| u != uid@ implies #[trigger] self.has_repo_set(u)
                == old_cache.has_repo_set(u) by {
                if old_cache.has_repo_set(u) {
                    let i = old_cache.repo_set_index(u);
                    assert(self.repo_sets@[i] == old_cache.repo_sets@[i]);
                    assert(self.has_repo_set(u));
                }
                if self.has_repo_set(u) {
                    let i = self.repo_set_index(u);
                    assert(i != n);
                    assert(self.repo_sets@[i] == old_cache.repo_sets@[i]);
                    assert(old_cache.has_repo_set(u));
                }
            }
            assert forall|u: Seq<char>| u != uid@ && old_cache.has_repo_set(u) implies #[trigger] self.repo_set_of(
                u,
            ) == old_cache.repo_set_of(u) by {
                let i = self.repo_set_index(u);
                assert(self.has_repo_set(u));
                assert(self.repo_sets@[i].uid@ == u);
                assert(i != n);
                assert(self.repo_sets@[i] == old_cache.repo_sets@[i]);
                assert(old_cache.has_repo_set(u)) by {
                    assert(old_cache.repo_sets@[i].uid@ == u);
                }
                let j = old_cache.repo_set_index(u);
                assert(j == i) by {
                    if j != i {
                        assert(old_cache.repo_sets@[j].uid@ != old_cache.repo_sets@[i].uid@);
                    }
                }
            }
        }
    }
}

/// Removing one session entry leaves every other key resolving as
/// before.
proof fn lemma_remove_keeps_others(pre: SessionCache, post: SessionCache, idx: int)
    requires
        pre.keys_unique(),
        0 <= idx < pre.sessions@.len(),
        post.sessions@ == pre.sessions@.remove(idx),
    ensures
        post.keys_unique(),
        forall|k: Seq<char>|
            k != pre.sessions@[idx].key@ ==> #[trigger] post.has_session(k) == pre.has_session(k),
        !post.has_session(pre.sessions@[idx].key@),
        forall|k: Seq<char>|
            k != pre.sessions@[idx].key@ && pre.has_session(k) ==> #[trigger] post.session_body(k)
                == pre.session_body(k) && post.session_expiry(k) == pre.session_expiry(k),
{
    assert forall|i: int| 0 <= i < post.sessions@.len() implies post.sessions@[i] == pre.sessions@[
        if i < idx {
            i
        } else {
            i + 1
        }
    ] by {}
    assert(post.keys_unique()) by {
        assert forall|i: int, j: int|
            0 <= i < post.sessions@.len() && 0 <= j < post.sessions@.len() && i != j implies (
        #[trigger] post.sessions@[i]).key@ != (#[trigger] post.sessions@[j]).key@ by {
            let oi = if i < idx {
                i
            } else {
                i + 1
            };
            let oj = if j < idx {
                j
            } else {
                j + 1
            };
            assert(post.sessions@[i] == pre.sessions@[oi]);
            assert(post.sessions@[j] == pre.sessions@[oj]);
        }
    }
    assert(!post.has_session(pre.sessions@[idx].key@)) by {
        if post.has_session(pre.sessions@[idx].key@) {
            let i = post.session_index(pre.sessions@[idx].key@);
            let oi = if i < idx {
                i
            } else {
                i + 1
            };
            assert(post.sessions@[i] == pre.sessions@[oi]);
            assert(pre.sessions@[oi].key@ == pre.sessions@[idx].key@);
        }
    }
    assert forall|k: Seq<char>| k != pre.sessions@[idx].key@ implies #[trigger] post.has_session(k)
        == pre.has_session(k) by {
        if pre.has_session(k) {
            let i = pre.session_index(k);
            assert(pre.sessions@[i].key@ == k);
            assert(i != idx);
            let pi = if i < idx {
                i
            } else {
                i - 1
            };
            assert(post.sessions@[pi] == pre.sessions@[i]);
            assert(post.has_session(k));
        }
        if post.has_session(k) {
            let i = post.session_index(k);
            let oi = if i < idx {
                i
            } else {
                i + 1
            };
            assert(post.sessions@[i] == pre.sessions@[oi]);
            assert(pre.has_session(k));
        }
    }
    assert forall|k: Seq<char>| k != pre.sessions@[idx].key@ && pre.has_session(k) implies #[trigger] post.session_body(
        k,
    ) == pre.session_body(k) && post.session_expiry(k) == pre.session_expiry(k) by {
        let i = pre.session_index(k);
        assert(pre.sessions@[i].key@ == k);
        assert(i != idx);
        let pi = if i < idx {
            i
        } else {
            i - 1
        };
        assert(post.sessions@[pi] == pre.sessions@[i]);
        assert(post.has_session(k));
        let j = post.session_index(k);
        assert(j == pi) by {
            if j != pi {
                assert(post.sessions@[j].key@ != post.sessions@[pi].key@);
            }
        }
    }
}

/// Two caches with the same session table resolve every key alike.
pub proof fn lemma_session_views_agree(a: SessionCache, b: SessionCache, k: Seq<char>)
    requires
        a.keys_unique(),
        a.sessions@ == b.sessions@,
    ensures
        a.has_session(k) == b.has_session(k),
        a.has_session(k) ==> a.session_body(k) == b.session_body(k) && a.session_expiry(k)
            == b.session_expiry(k),
{
    if a.has_session(k) {
        let i = a.session_index(k);
        assert(b.sessions@[i].key@ == k);
        assert(b.has_session(k));
        let j = b.session_index(k);
        assert(b.sessions@[j].key@ == k);
        if i != j {
            assert(a.sessions@[i].key@ != a.sessions@[j].key@);
        }
    }
    if b.has_session(k) {
        let i = b.session_index(k);
        assert(a.sessions@[i].key@ == k);
        assert(a.has_session(k));
    }
}

/// Two caches with the same repository-set table resolve every uid
/// alike.
pub proof fn lemma_repo_views_agree(a: SessionCache, b: SessionCache, u: Seq<char>)
    requires
        a.repo_uids_unique(),
        a.repo_sets@ == b.repo_sets@,
    ensures
        a.has_repo_set(u) == b.has_repo_set(u),
        a.has_repo_set(u) ==> a.repo_set_of(u) == b.repo_set_of(u),
{
    if a.has_repo_set(u) {
        let i = a.repo_set_index(u);
        assert(b.repo_sets@[i].uid@ == u);
        assert(b.has_repo_set(u));
        let j = b.repo_set_index(u);
        assert(b.repo_sets@[j].uid@ == u);
        if i != j {
            assert(a.repo_sets@[i].uid@ != a.repo_sets@[j].uid@);
        }
    }
    if b.has_repo_set(u) {
        let i = b.repo_set_index(u);
        assert(a.repo_sets@[i].uid@ == u);
        assert(a.has_repo_set(u));
    }
}

/// Copy a list of names, element for element.
fn clone_names(v: &Vec<String>) -> (r: Vec<String>)
    ensures
        r@ == v@,
{
    let n = v.len();
    let mut out: Vec<String> = Vec::new();
    let mut i: usize = 0;
    while i < n
        invariant
            n == v@.len(),
            i <= n,
            out@ =~= v@.subrange(0, i as int),
        decreases n - i,
    {
        out.push(v[i].clone());
        i += 1;
    }
    proof {
        assert(out@ =~= v@);
    }
    out
}

} // verus!
