use vstd::prelude::*;

use crate::errors::AuthError;
use crate::store::{current_version, new_uid, previous_version, Account, CredentialStore};
use crate::token::constant_time_str_eq;

verus! {

/// One account row of the previous on-disk layout, which had no uid
/// column.
pub struct OldAccount {
    pub user: String,
    pub password_hash: String,
}

/// The uniqueness invariant the previous layout already enforced on
/// its username column.
pub open spec fn old_users_unique(rows: Seq<OldAccount>) -> bool {
    forall|i: int, j: int|
        0 <= i < rows.len() && 0 <= j < rows.len() && i != j ==> (#[trigger] rows[i]).user@ != (
        #[trigger] rows[j]).user@
}

/// Pairwise distinctness of the identifiers to be assigned.
pub open spec fn uids_distinct(uids: Seq<String>) -> bool {
    forall|p: int, q: int|
        0 <= p < q < uids.len() ==> (#[trigger] uids[p])@ != (#[trigger] uids[q])@
}

/// Build the current-layout store from the rows of an old-layout
/// snapshot, assigning the given fresh identifiers row by row.
///
/// Nothing is written unless every precondition of the upgrade holds:
/// a version marker other than the expected previous version is the
/// safe no-op mismatch report; a snapshot that breaks the old
/// layout's own username uniqueness is the duplicate error; a
/// defective identifier supply is fatal. On success the new store
/// holds exactly the old rows, user and password hash unchanged and
/// in order, each with its assigned uid.
pub fn migrate_accounts_with(version: &str, rows: &Vec<OldAccount>, uids: &Vec<String>) -> (r:
    Result<CredentialStore, AuthError>)
    ensures
        r is Ok <==> version@ == previous_version() && old_users_unique(rows@) && uids@.len()
            == rows@.len() && uids_distinct(uids@),
        r == Err::<CredentialStore, AuthError>(AuthError::VersionMismatch) <==> version@
            != previous_version(),
        r == Err::<CredentialStore, AuthError>(AuthError::Conflict) <==> version@
            == previous_version() && !old_users_unique(rows@),
        r matches Err(e) ==> e == AuthError::VersionMismatch || e == AuthError::Conflict || e
            == AuthError::Fatal,
        r matches Ok(st) ==> st.wf() && st.version@ == current_version() && st.accounts@.len()
            == rows@.len() && st.repo_auth@.len() == 0 && forall|i: int|
            0 <= i < rows@.len() ==> (#[trigger] st.accounts@[i]).user@ == rows@[i].user@
                && st.accounts@[i].password_hash@ == rows@[i].password_hash@
                && st.accounts@[i].uid@ == uids@[i]@,
{
    proof {
        reveal_strlit("1");
        assert("1"@ =~= previous_version());
    }
    if !constant_time_str_eq(version, "1") {
        return Err(AuthError::VersionMismatch);
    }
    let n = rows.len();
    let mut a: usize = 0;
    while a < n
        invariant
            version@ == previous_version(),
            n == rows@.len(),
            a <= n,
            forall|p: int, q: int|
                0 <= p < q < a ==> (#[trigger] rows@[p]).user@ != (#[trigger] rows@[q]).user@,
        decreases n - a,
    {
        let mut b: usize = 0;
        while b < a
            invariant
                version@ == previous_version(),
                n == rows@.len(),
                b <= a < n,
                forall|p: int| 0 <= p < b ==> (#[trigger] rows@[p]).user@ != rows@[a as int].user@,
            decreases a - b,
        {
            if constant_time_str_eq(rows[b].user.as_str(), rows[a].user.as_str()) {
                return Err(AuthError::Conflict);
            }
            b += 1;
        }
        a += 1;
    }
    proof {
        assert forall|p: int, q: int|
            0 <= p < rows@.len() && 0 <= q < rows@.len() && p != q implies (
        #[trigger] rows@[p]).user@ != (#[trigger] rows@[q]).user@ by {
            if p < q {
                assert(rows@[p].user@ != rows@[q].user@);
            } else {
                assert(rows@[q].user@ != rows@[p].user@);
            }
        }
    }
    if uids.len() != n {
        return Err(AuthError::Fatal);
    }
    let mut i: usize = 0;
    while i < n
        invariant
            version@ == previous_version(),
            old_users_unique(rows@),
            n == rows@.len(),
            n == uids@.len(),
            i <= n,
            forall|p: int, q: int|
                0 <= p < q < i ==> (#[trigger] uids@[p])@ != (#[trigger] uids@[q])@,
        decreases n - i,
    {
        let mut j: usize = 0;
        while j < i
            invariant
                version@ == previous_version(),
                old_users_unique(rows@),
                n == uids@.len(),
                j <= i < n,
                forall|p: int| 0 <= p < j ==> (#[trigger] uids@[p])@ != uids@[i as int]@,
            decreases i - j,
        {
            if constant_time_str_eq(uids[j].as_str(), uids[i].as_str()) {
                return Err(AuthError::Fatal);
            }
            j += 1;
        }
        i += 1;
    }
    let mut accounts: Vec<Account> = Vec::new();
    let mut k: usize = 0;
    while k < n
        invariant
            n == rows@.len(),
            n == uids@.len(),
            k <= n,
            accounts@.len() == k,
            forall|p: int|
                0 <= p < k ==> (#[trigger] accounts@[p]).user@ == rows@[p].user@
                    && accounts@[p].password_hash@ == rows@[p].password_hash@
                    && accounts@[p].uid@ == uids@[p]@,
        decreases n - k,
    {
        accounts.push(
            Account {
                user: rows[k].user.clone(),
                password_hash: rows[k].password_hash.clone(),
                uid: uids[k].clone(),
            },
        );
        k += 1;
    }
    let version_out = String::from_str("2");
    proof {
        reveal_strlit("2");
        assert(version_out@ =~= current_version());
    }
    let st = CredentialStore { version: version_out, accounts, repo_auth: Vec::new() };
    proof {
        assert forall|a: int, b: int|
            0 <= a < st.accounts@.len() && 0 <= b < st.accounts@.len() && a != b implies (
        #[trigger] st.accounts@[a]).user@ != (#[trigger] st.accounts@[b]).user@ by {
            assert(rows@[a].user@ != rows@[b].user@);
        }
        assert forall|a: int, b: int|
            0 <= a < st.accounts@.len() && 0 <= b < st.accounts@.len() && a != b implies (
        #[trigger] st.accounts@[a]).uid@ != (#[trigger] st.accounts@[b]).uid@ by {
            if a < b {
                assert(uids@[a]@ != uids@[b]@);
            } else {
                assert(uids@[b]@ != uids@[a]@);
            }
        }
    }
    Ok(st)
}

/// Upgrade an old-layout snapshot: check its version marker, then
/// copy every account into a current-layout store, drawing a fresh
/// random uid for each row.
///
/// A version other than the expected previous one is reported as a
/// mismatch with nothing built; a snapshot with a duplicated
/// username — which the old layout's own uniqueness column rules out,
/// so it means the snapshot was not read from such a store — is the
/// duplicate error; the (overwhelmingly unlikely) collision among
/// freshly drawn uids is detected and fatal rather than silently
/// violating the new store's uniqueness invariant.
pub fn migrate_accounts(version: &str, rows: &Vec<OldAccount>) -> (r: Result<
    CredentialStore,
    AuthError,
>)
    ensures
        r == Err::<CredentialStore, AuthError>(AuthError::VersionMismatch) <==> version@
            != previous_version(),
        r == Err::<CredentialStore, AuthError>(AuthError::Conflict) <==> version@
            == previous_version() && !old_users_unique(rows@),
        r matches Err(e) ==> e == AuthError::VersionMismatch || e == AuthError::Conflict || e
            == AuthError::Fatal,
        r matches Ok(st) ==> st.wf() && st.version@ == current_version() && st.accounts@.len()
            == rows@.len() && st.repo_auth@.len() == 0 && forall|i: int|
            0 <= i < rows@.len() ==> (#[trigger] st.accounts@[i]).user@ == rows@[i].user@
                && st.accounts@[i].password_hash@ == rows@[i].password_hash@,
{
    let n = rows.len();
    let mut uids: Vec<String> = Vec::new();
    let mut i: usize = 0;
    while i < n
        invariant
            uids@.len() == i,
            i <= n,
        decreases n - i,
    {
        uids.push(new_uid());
        i += 1;
    }
    migrate_accounts_with(version, rows, &uids)
}

} // verus!
