use vstd::prelude::*;

use crate::errors::AuthError;
use crate::hashing;
use crate::hashing::{argon2_verifies, phc_usable};
use crate::token::constant_time_str_eq;

verus! {

/// One row of the account table.
pub struct Account {
    /// Unique human-chosen identifier, immutable once created.
    pub user: String,
    /// Self-describing memory-hard hash of the account's password.
    pub password_hash: String,
    /// Stable, globally unique identifier, independent of `user`.
    pub uid: String,
}

/// One row of the repository-authorization table: the uid and the
/// whitespace-delimited names of the repositories it may access.
pub struct RepoAuth {
    pub uid: String,
    pub repos: String,
}

/// The logical content of the durable credential store: the schema
/// version marker, the account table and the authorization table.
pub struct CredentialStore {
    pub version: String,
    pub accounts: Vec<Account>,
    pub repo_auth: Vec<RepoAuth>,
}

/// The on-disk layout version this library reads and writes.
pub open spec fn current_version() -> Seq<char> {
    seq!['2']
}

/// The one older layout the migrator understands. Its account rows
/// had no uid column.
pub open spec fn previous_version() -> Seq<char> {
    seq!['1']
}

/// A word character of a username: ASCII letter, digit or underscore.
/// The ASCII class is deliberate — usernames are login identifiers
/// typed into a web form and compared byte for byte, so the character
/// set is kept small and unambiguous rather than Unicode-aware.
pub open spec fn is_word_char(c: char) -> bool {
    ('a' <= c && c <= 'z') || ('A' <= c && c <= 'Z') || ('0' <= c && c <= '9') || c == '_'
}

/// A username is one or more word characters, fewer than 21.
pub open spec fn valid_username(s: Seq<char>) -> bool {
    1 <= s.len() < 21 && forall|i: int| 0 <= i < s.len() ==> is_word_char(#[trigger] s[i])
}

fn is_word_char_exec(c: char) -> (r: bool)
    ensures
        r == is_word_char(c),
{
    ('a' <= c && c <= 'z') || ('A' <= c && c <= 'Z') || ('0' <= c && c <= '9') || c == '_'
}

/// Decide whether a string may be used as a username.
pub fn validate_username(user: &str) -> (r: bool)
    ensures
        r == valid_username(user@),
{
    let n = user.unicode_len();
    if n == 0 || n >= 21 {
        return false;
    }
    let mut i: usize = 0;
    while i < n
        invariant
            n == user@.len(),
            i <= n,
            forall|j: int| 0 <= j < i ==> is_word_char(#[trigger] user@[j]),
        decreases n - i,
    {
        if !is_word_char_exec(user.get_char(i)) {
            return false;
        }
        i += 1;
    }
    true
}

/// Relies on `uuid::Uuid::new_v4` and its hyphenated rendering: a
/// fresh random (version 4) UUID written in the 36-character
/// hyphenated form. Nothing is promised of the value beyond its
/// documented length.
#[verifier::external_body]
pub(crate) fn new_uid() -> (r: String)
    ensures
        r@.len() == 36,
{
    uuid::Uuid::new_v4().to_hyphenated().to_string()
}

impl CredentialStore {
    /// No two accounts share a username.
    pub open spec fn users_unique(self) -> bool {
        forall|i: int, j: int|
            0 <= i < self.accounts@.len() && 0 <= j < self.accounts@.len() && i != j
                ==> (#[trigger] self.accounts@[i]).user@ != (#[trigger] self.accounts@[j]).user@
    }

    /// No two accounts share a uid.
    pub open spec fn uids_unique(self) -> bool {
        forall|i: int, j: int|
            0 <= i < self.accounts@.len() && 0 <= j < self.accounts@.len() && i != j
                ==> (#[trigger] self.accounts@[i]).uid@ != (#[trigger] self.accounts@[j]).uid@
    }

    /// No two authorization rows name the same uid.
    pub open spec fn repo_uids_unique(self) -> bool {
        forall|i: int, j: int|
            0 <= i < self.repo_auth@.len() && 0 <= j < self.repo_auth@.len() && i != j
                ==> (#[trigger] self.repo_auth@[i]).uid@ != (#[trigger] self.repo_auth@[j]).uid@
    }

    /// The store invariant: both identifier columns are unique.
    pub open spec fn wf(self) -> bool {
        self.users_unique() && self.uids_unique() && self.repo_uids_unique()
    }

    pub open spec fn contains_user(self, user: Seq<char>) -> bool {
        exists|i: int| 0 <= i < self.accounts@.len() && (#[trigger] self.accounts@[i]).user@ == user
    }

    pub open spec fn contains_uid(self, uid: Seq<char>) -> bool {
        exists|i: int| 0 <= i < self.accounts@.len() && (#[trigger] self.accounts@[i]).uid@ == uid
    }

    /// The row index of a username (meaningful when present; unique
    /// under the invariant).
    pub open spec fn user_index(self, user: Seq<char>) -> int {
        choose|i: int|
            0 <= i < self.accounts@.len() && (#[trigger] self.accounts@[i]).user@ == user
    }

    /// The account row of a username.
    pub open spec fn account_for(self, user: Seq<char>) -> Account {
        self.accounts@[self.user_index(user)]
    }

    /// The hash string stored for a username.
    pub open spec fn stored_hash_of(self, user: Seq<char>) -> Seq<char> {
        self.account_for(user).password_hash@
    }

    /// A submitted pair is good when the account exists and the
    /// password verifies against its stored hash.
    pub open spec fn credentials_good(self, user: Seq<char>, password: Seq<char>) -> bool {
        self.contains_user(user) && argon2_verifies(password, self.stored_hash_of(user))
    }

    /// A freshly initialized store: empty tables at the current
    /// layout version.
    pub fn new() -> (st: CredentialStore)
        ensures
            st.wf(),
            st.version@ == current_version(),
            st.accounts@.len() == 0,
            st.repo_auth@.len() == 0,
    {
        let version = String::from_str("2");
        proof {
            reveal_strlit("2");
            assert(version@ =~= current_version());
        }
        CredentialStore { version, accounts: Vec::new(), repo_auth: Vec::new() }
    }

    /// Find the row index of a username.
    pub fn find_account(&self, user: &str) -> (r: Option<usize>)
        ensures
            match r {
                Some(i) => i < self.accounts@.len() && self.accounts@[i as int].user@ == user@,
                None => !self.contains_user(user@),
            },
    {
        let n = self.accounts.len();
        let mut i: usize = 0;
        while i < n
            invariant
                n == self.accounts@.len(),
                i <= n,
                forall|j: int| 0 <= j < i ==> (#[trigger] self.accounts@[j]).user@ != user@,
            decreases n - i,
        {
            if constant_time_str_eq(self.accounts[i].user.as_str(), user) {
                return Some(i);
            }
            i += 1;
        }
        None
    }

    /// Add a new account: validate the username, refuse a duplicate,
    /// and store the username with the given hash string and uid.
    ///
    /// The username and password rules and the duplicate check mirror
    /// the administrative `adduser` command; a uid collision is the
    /// unexpected fatal case, since uids are drawn with 122 bits of
    /// randomness.
    pub fn insert_account(&mut self, user: &str, password_hash: String, uid: String) -> (r: Result<
        (),
        AuthError,
    >)
        requires
            old(self).wf(),
        ensures
            final(self).wf(),
            final(self).version == old(self).version,
            final(self).repo_auth == old(self).repo_auth,
            r is Err ==> *final(self) == *old(self),
            r == Ok::<(), AuthError>(()) <==> valid_username(user@) && !old(self).contains_user(
                user@,
            ) && !old(self).contains_uid(uid@),
            r == Err::<(), AuthError>(AuthError::Malformed) <==> !valid_username(user@),
            r == Err::<(), AuthError>(AuthError::Conflict) <==> valid_username(user@) && old(
                self,
            ).contains_user(user@),
            r == Err::<(), AuthError>(AuthError::Fatal) <==> valid_username(user@) && !old(
                self,
            ).contains_user(user@) && old(self).contains_uid(uid@),
            r is Ok ==> final(self).accounts@.len() == old(self).accounts@.len() + 1
                && final(self).accounts@.drop_last() == old(self).accounts@
                && final(self).accounts@.last().user@ == user@
                && final(self).accounts@.last().password_hash@ == password_hash@
                && final(self).accounts@.last().uid@ == uid@,
    {
        if !validate_username(user) {
            return Err(AuthError::Malformed);
        }
        if self.find_account(user).is_some() {
            return Err(AuthError::Conflict);
        }
        if self.find_uid(&uid).is_some() {
            return Err(AuthError::Fatal);
        }
        let account = Account { user: String::from_str(user), password_hash, uid };
        let ghost old_accounts = self.accounts@;
        self.accounts.push(account);
        proof {
            assert(self.accounts@.drop_last() =~= old_accounts);
            assert forall|i: int, j: int|
                0 <= i < self.accounts@.len() && 0 <= j < self.accounts@.len() && i != j implies (
            #[trigger] self.accounts@[i]).user@ != (#[trigger] self.accounts@[j]).user@ by {
                if i == self.accounts@.len() - 1 {
                    assert(self.accounts@[j] == old_accounts[j]);
                } else if j == self.accounts@.len() - 1 {
                    assert(self.accounts@[i] == old_accounts[i]);
                } else {
                    assert(self.accounts@[i] == old_accounts[i]);
                    assert(self.accounts@[j] == old_accounts[j]);
                }
            }
            assert forall|i: int, j: int|
                0 <= i < self.accounts@.len() && 0 <= j < self.accounts@.len() && i != j implies (
            #[trigger] self.accounts@[i]).uid@ != (#[trigger] self.accounts@[j]).uid@ by {
                if i == self.accounts@.len() - 1 {
                    assert(self.accounts@[j] == old_accounts[j]);
                } else if j == self.accounts@.len() - 1 {
                    assert(self.accounts@[i] == old_accounts[i]);
                } else {
                    assert(self.accounts@[i] == old_accounts[i]);
                    assert(self.accounts@[j] == old_accounts[j]);
                }
            }
        }
        Ok(())
    }

    /// Find the row index of a uid in the account table.
    fn find_uid(&self, uid: &str) -> (r: Option<usize>)
        ensures
            match r {
                Some(i) => i < self.accounts@.len() && self.accounts@[i as int].uid@ == uid@,
                None => !self.contains_uid(uid@),
            },
    {
        let n = self.accounts.len();
        let mut i: usize = 0;
        while i < n
            invariant
                n == self.accounts@.len(),
                i <= n,
                forall|j: int| 0 <= j < i ==> (#[trigger] self.accounts@[j]).uid@ != uid@,
            decreases n - i,
        {
            if constant_time_str_eq(self.accounts[i].uid.as_str(), uid) {
                return Some(i);
            }
            i += 1;
        }
        None
    }

    /// Create an account from a plaintext password: hash it with a
    /// fresh salt, draw a fresh uid, and insert.
    ///
    /// On success the new store's last row holds the new account and
    /// the submitted pair verifies against what was stored — the
    /// creation-time guarantee of the password subsystem.
    pub fn add_account(&mut self, user: &str, password: &str) -> (r: Result<(), AuthError>)
        requires
            old(self).wf(),
        ensures
            final(self).wf(),
            final(self).version == old(self).version,
            final(self).repo_auth == old(self).repo_auth,
            r is Err ==> *final(self) == *old(self),
            r == Err::<(), AuthError>(AuthError::Malformed) <==> !valid_username(user@)
                || password@.len() == 0,
            r == Err::<(), AuthError>(AuthError::Conflict) <==> valid_username(user@)
                && password@.len() > 0 && old(self).contains_user(user@),
            r matches Err(e) ==> e == AuthError::Malformed || e == AuthError::Conflict || e
                == AuthError::Fatal,
            r is Ok ==> valid_username(user@) && !old(self).contains_user(user@),
            r is Ok ==> final(self).accounts@.len() == old(self).accounts@.len() + 1
                && final(self).accounts@.drop_last() == old(self).accounts@
                && final(self).accounts@.last().user@ == user@,
            r is Ok ==> final(self).credentials_good(user@, password@) && phc_usable(
                final(self).stored_hash_of(user@),
            ),
    {
        if password.unicode_len() == 0 {
            return Err(AuthError::Malformed);
        }
        if !validate_username(user) {
            return Err(AuthError::Malformed);
        }
        if self.find_account(user).is_some() {
            return Err(AuthError::Conflict);
        }
        let password_hash = match hashing::hash_password(password) {
            Ok(h) => h,
            Err(_) => {
                return Err(AuthError::Fatal);
            },
        };
        let uid = new_uid();
        let ghost hash_view = password_hash@;
        let r = self.insert_account(user, password_hash, uid);
        match r {
            Ok(()) => {
                proof {
                    let n = self.accounts@.len() - 1;
                    assert(self.contains_user(user@)) by {
                        assert(self.accounts@[n].user@ == user@);
                    }
                    assert(self.user_index(user@) == n) by {
                        let i = self.user_index(user@);
                        assert(self.accounts@[i].user@ == user@);
                        if i != n {
                            assert(self.accounts@[i].user@ != self.accounts@[n].user@);
                        }
                    }
                    assert(self.stored_hash_of(user@) == hash_view);
                }
                Ok(())
            },
            Err(e) => Err(e),
        }
    }

    /// Delete the account of a username. Deleting an absent username
    /// is the expected `NotFound` outcome; on success exactly that
    /// one row is gone and the username no longer resolves.
    pub fn delete_account(&mut self, user: &str) -> (r: Result<(), AuthError>)
        requires
            old(self).wf(),
        ensures
            final(self).wf(),
            final(self).version == old(self).version,
            final(self).repo_auth == old(self).repo_auth,
            r == Ok::<(), AuthError>(()) <==> old(self).contains_user(user@),
            r is Err ==> r == Err::<(), AuthError>(AuthError::NotFound) && *final(self) == *old(
                self,
            ),
            r is Ok ==> exists|i: int|
                0 <= i < old(self).accounts@.len() && (#[trigger] old(self).accounts@[i]).user@
                    == user@ && final(self).accounts@ == old(self).accounts@.remove(i),
            r is Ok ==> !final(self).contains_user(user@),
    {
        let idx = match self.find_account(user) {
            Some(i) => i,
            None => {
                return Err(AuthError::NotFound);
            },
        };
        let ghost old_accounts = self.accounts@;
        self.accounts.remove(idx);
        proof {
            assert forall|i: int, j: int|
                0 <= i < self.accounts@.len() && 0 <= j < self.accounts@.len() && i != j implies (
            #[trigger] self.accounts@[i]).user@ != (#[trigger] self.accounts@[j]).user@ by {
                let oi = if i < idx {
                    i
                } else {
                    i + 1
                };
                let oj = if j < idx {
                    j
                } else {
                    j + 1
                };
                assert(self.accounts@[i] == old_accounts[oi]);
                assert(self.accounts@[j] == old_accounts[oj]);
            }
            assert forall|i: int, j: int|
                0 <= i < self.accounts@.len() && 0 <= j < self.accounts@.len() && i != j implies (
            #[trigger] self.accounts@[i]).uid@ != (#[trigger] self.accounts@[j]).uid@ by {
                let oi = if i < idx {
                    i
                } else {
                    i + 1
                };
                let oj = if j < idx {
                    j
                } else {
                    j + 1
                };
                assert(self.accounts@[i] == old_accounts[oi]);
                assert(self.accounts@[j] == old_accounts[oj]);
            }
            assert(!self.contains_user(user@)) by {
                if self.contains_user(user@) {
                    let i = choose|i: int|
                        0 <= i < self.accounts@.len() && (#[trigger] self.accounts@[i]).user@
                            == user@;
                    let oi = if i < idx {
                        i
                    } else {
                        i + 1
                    };
                    assert(self.accounts@[i] == old_accounts[oi]);
                    assert(old_accounts[oi].user@ == old_accounts[idx as int].user@);
                }
            }
        }
        Ok(())
    }

    /// The usernames of every account, in table order.
    pub fn list_users(&self) -> (r: Vec<String>)
        ensures
            r@.len() == self.accounts@.len(),
            forall|i: int| 0 <= i < r@.len() ==> (#[trigger] r@[i])@ == self.accounts@[i].user@,
    {
        let mut out: Vec<String> = Vec::new();
        let n = self.accounts.len();
        let mut i: usize = 0;
        while i < n
            invariant
                n == self.accounts@.len(),
                i <= n,
                out@.len() == i,
                forall|j: int| 0 <= j < i ==> (#[trigger] out@[j])@ == self.accounts@[j].user@,
            decreases n - i,
        {
            out.push(self.accounts[i].user.clone());
            i += 1;
        }
        out
    }

    /// Drop every row and return to an empty store at the current
    /// layout, as the administrative reset does.
    pub fn reset(&mut self)
        ensures
            final(self).wf(),
            final(self).version@ == current_version(),
            final(self).accounts@.len() == 0,
            final(self).repo_auth@.len() == 0,
    {
        *self = CredentialStore::new();
    }

    pub open spec fn has_repo_auth(self, uid: Seq<char>) -> bool {
        exists|i: int|
            0 <= i < self.repo_auth@.len() && (#[trigger] self.repo_auth@[i]).uid@ == uid
    }

    /// The authorization row index of a uid.
    pub open spec fn repo_auth_index(self, uid: Seq<char>) -> int {
        choose|i: int|
            0 <= i < self.repo_auth@.len() && (#[trigger] self.repo_auth@[i]).uid@ == uid
    }

    /// The whitespace-delimited repository names stored for a uid.
    pub open spec fn repos_of(self, uid: Seq<char>) -> Seq<char> {
        self.repo_auth@[self.repo_auth_index(uid)].repos@
    }

    /// Look up the authorization row of a uid.
    pub fn find_repo_auth(&self, uid: &str) -> (r: Option<String>)
        requires
            self.wf(),
        ensures
            match r {
                Some(repos) => self.has_repo_auth(uid@) && repos@ == self.repos_of(uid@),
                None => !self.has_repo_auth(uid@),
            },
    {
        let n = self.repo_auth.len();
        let mut i: usize = 0;
        while i < n
            invariant
                self.wf(),
                n == self.repo_auth@.len(),
                i <= n,
                forall|j: int| 0 <= j < i ==> (#[trigger] self.repo_auth@[j]).uid@ != uid@,
            decreases n - i,
        {
            if constant_time_str_eq(self.repo_auth[i].uid.as_str(), uid) {
                proof {
                    let k = self.repo_auth_index(uid@);
                    assert(self.repo_auth@[k].uid@ == uid@);
                    if k != i {
                        assert(self.repo_auth@[k].uid@ != self.repo_auth@[i as int].uid@);
                    }
                }
                return Some(self.repo_auth[i].repos.clone());
            }
            i += 1;
        }
        None
    }
}

} // verus!
