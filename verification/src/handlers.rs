use vstd::prelude::*;

use crate::cache::{lemma_repo_views_agree, lemma_session_views_agree, SessionCache};
use crate::errors::AuthError;
use crate::hashing;
use crate::hashing::phc_usable;
use crate::repos::{split_repo_names, split_ws};
use crate::store::CredentialStore;
use crate::token;
use crate::token::{
    constant_time_str_eq, decode, encoding_of, lemma_encoding_injective, valid_field, Token,
};

verus! {

/// The template context of the login form page: the URL the form
/// posts to and the URL to return to after a successful login.
pub struct Meta {
    pub action: String,
    pub redirect: String,
}

impl Meta {
    pub fn new(action: String, redirect: String) -> (m: Meta)
        ensures
            m.action@ == action@,
            m.redirect@ == redirect@,
    {
        Meta { action, redirect }
    }
}

/// The root URL may be served without authentication when the
/// deployment opts in.
pub open spec fn bypass_granted(bypass_root: bool, current_url: Seq<char>) -> bool {
    bypass_root && current_url == seq!['/']
}

pub fn should_bypass(bypass_root: bool, current_url: &str) -> (r: bool)
    ensures
        r == bypass_granted(bypass_root, current_url@),
{
    proof {
        reveal_strlit("/");
        assert("/"@ =~= seq!['/']);
    }
    bypass_root && constant_time_str_eq(current_url, "/")
}

/// A presented token grants access only when its public key still
/// resolves to a live cache slot and the stored secret equals the
/// token's body. The comparison is constant-time, and a mismatch in
/// even the last byte, an expired slot, or an absent slot all deny.
pub fn token_grants_access(cache: &SessionCache, t: &Token, now: u64) -> (r: bool)
    requires
        cache.wf(),
    ensures
        r == (cache.live_session(t.key@, now) && cache.session_body(t.key@) == t.body@),
{
    match cache.get_session(t.key.as_str(), now) {
        Some(stored) => t.eq_body(stored.as_str()),
        None => false,
    }
}

/// Whether a raw cookie value is the encoding of a key/body pair such
/// that the key names a live session whose stored secret is exactly
/// the body.
pub open spec fn cookie_grants(cache: SessionCache, cookie: Seq<char>, now: u64) -> bool {
    exists|k: Seq<char>, b: Seq<char>|
        valid_field(k) && valid_field(b) && cookie == encoding_of(k, b) && cache.live_session(
            k,
            now,
        ) && cache.session_body(k) == b
}

/// Decision of the cookie-check path: grant for the optional root
/// bypass, else exactly when the cookie value proves possession of a
/// live session. Every failure — unparseable cookie, absent or
/// expired slot, wrong secret — collapses to the same deny.
pub fn authenticate_cookie(
    cache: &SessionCache,
    bypass_root: bool,
    current_url: &str,
    cookie_value: &str,
    now: u64,
) -> (r: bool)
    requires
        cache.wf(),
    ensures
        r == (bypass_granted(bypass_root, current_url@) || cookie_grants(
            *cache,
            cookie_value@,
            now,
        )),
{
    if should_bypass(bypass_root, current_url) {
        return true;
    }
    match decode(cookie_value) {
        Ok(t) => {
            let granted = token_grants_access(cache, &t, now);
            proof {
                if !granted && cookie_grants(*cache, cookie_value@, now) {
                    let (k, b) = choose|k: Seq<char>, b: Seq<char>|
                        valid_field(k) && valid_field(b) && cookie_value@ == encoding_of(k, b)
                            && cache.live_session(k, now) && cache.session_body(k) == b;
                    lemma_encoding_injective(k, b, t.key@, t.body@);
                }
            }
            granted
        },
        Err(_) => {
            proof {
                if cookie_grants(*cache, cookie_value@, now) {
                    let (k, b) = choose|k: Seq<char>, b: Seq<char>|
                        valid_field(k) && valid_field(b) && cookie_value@ == encoding_of(k, b)
                            && cache.live_session(k, now) && cache.session_body(k) == b;
                    assert(token::decodable(cookie_value@));
                }
            }
            false
        },
    }
}

/// In a cache whose only live key is `k0`, holding `b0`, every cookie
/// value other than the encoding of `(k0, b0)` is denied: the altered
/// value either fails to parse, names no live slot, or carries the
/// wrong secret. This is the altered-cookie half of the login
/// round trip, stated for such a cache because in one with several
/// live sessions an altered value could coincide with another
/// session's own cookie.
pub proof fn lemma_altered_cookie_denied(
    cache: SessionCache,
    k0: Seq<char>,
    b0: Seq<char>,
    s: Seq<char>,
    now: u64,
)
    requires
        forall|k: Seq<char>| #[trigger] cache.live_session(k, now) ==> k == k0,
        cache.has_session(k0) ==> cache.session_body(k0) == b0,
        s != encoding_of(k0, b0),
    ensures
        !cookie_grants(cache, s, now),
{
    if cookie_grants(cache, s, now) {
        let (k, b) = choose|k: Seq<char>, b: Seq<char>|
            valid_field(k) && valid_field(b) && s == encoding_of(k, b) && cache.live_session(
                k,
                now,
            ) && cache.session_body(k) == b;
        assert(k == k0);
        assert(b == b0);
    }
}

/// Look up a submitted username and check the password against the
/// stored hash. The result carries the verdict and the account's uid.
/// A verdict is owed, and given, whenever the account exists and its
/// stored hash is usable; an absent account is the expected
/// `NotFound`, and a stored hash this system could not have written
/// is exactly the data-integrity error.
pub fn check_credentials(store: &CredentialStore, user: &str, password: &str) -> (r: Result<
    (bool, String),
    AuthError,
>)
    requires
        store.wf(),
    ensures
        r == Err::<(bool, String), AuthError>(AuthError::NotFound) <==> !store.contains_user(
            user@,
        ),
        r == Err::<(bool, String), AuthError>(AuthError::Malformed) <==> store.contains_user(
            user@,
        ) && !phc_usable(store.stored_hash_of(user@)),
        r is Ok <==> store.contains_user(user@) && phc_usable(store.stored_hash_of(user@)),
        r matches Err(e) ==> e == AuthError::NotFound || e == AuthError::Malformed,
        r matches Ok(p) ==> p.0 == store.credentials_good(user@, password@) && p.1@
            == store.account_for(user@).uid@,
{
    let idx = match store.find_account(user) {
        Some(i) => i,
        None => {
            return Err(AuthError::NotFound);
        },
    };
    proof {
        assert(store.contains_user(user@));
        let k = store.user_index(user@);
        assert(store.accounts@[k].user@ == user@);
        if k != idx {
            assert(store.accounts@[k].user@ != store.accounts@[idx as int].user@);
        }
    }
    let uid = store.accounts[idx].uid.clone();
    match hashing::verify_password(password, store.accounts[idx].password_hash.as_str()) {
        Ok(b) => Ok((b, uid)),
        Err(_) => Err(AuthError::Malformed),
    }
}

/// How one login leaves the repository-set half of the cache, for the
/// account's uid: an already materialized set is reused untouched; an
/// absent one is loaded from the store's authorization row and split
/// into its names; a uid without a row stays unmaterialized. No other
/// uid changes.
pub open spec fn repo_sets_after_login(
    store: CredentialStore,
    pre: SessionCache,
    post: SessionCache,
    uid: Seq<char>,
) -> bool {
    &&& (forall|u: Seq<char>| u != uid ==> #[trigger] post.has_repo_set(u) == pre.has_repo_set(u))
    &&& (forall|u: Seq<char>|
        u != uid && pre.has_repo_set(u) ==> #[trigger] post.repo_set_of(u) == pre.repo_set_of(u))
    &&& (pre.has_repo_set(uid) ==> post.repo_sets@ == pre.repo_sets@)
    &&& (!pre.has_repo_set(uid) && store.has_repo_auth(uid) ==> post.has_repo_set(uid)
        && post.repo_set_of(uid) == split_ws(store.repos_of(uid)))
    &&& (!pre.has_repo_set(uid) && !store.has_repo_auth(uid) ==> post.repo_sets@ == pre.repo_sets@)
}

/// Every session other than `key` resolves after as before.
pub open spec fn sessions_preserved_except(
    pre: SessionCache,
    post: SessionCache,
    key: Seq<char>,
) -> bool {
    &&& (forall|k: Seq<char>| k != key ==> #[trigger] post.has_session(k) == pre.has_session(k))
    &&& (forall|k: Seq<char>|
        k != key && pre.has_session(k) ==> #[trigger] post.session_body(k) == pre.session_body(k)
            && post.session_expiry(k) == pre.session_expiry(k))
}

/// Core of the login path: look the account up, lazily materialize
/// its repository set, verify the password, and on success mint a
/// fresh token and store its secret half under its key with the
/// session TTL.
///
/// `Ok(Some(token))` is returned exactly when the submitted pair
/// verifies; a wrong password is the ordinary `Ok(None)` deny, an
/// unknown username is `NotFound` whatever the cache holds, a stored
/// hash this system could not have written is exactly the
/// data-integrity error, and the session table is only ever touched
/// by a successful login.
pub fn process_login(
    store: &CredentialStore,
    cache: &mut SessionCache,
    user: &str,
    password: &str,
    now: u64,
    ttl: u64,
) -> (r: Result<Option<Token>, AuthError>)
    requires
        store.wf(),
        old(cache).wf(),
        now + ttl <= u64::MAX,
    ensures
        final(cache).wf(),
        r == Err::<Option<Token>, AuthError>(AuthError::NotFound) <==> !store.contains_user(user@),
        r == Err::<Option<Token>, AuthError>(AuthError::NotFound) ==> *final(cache) == *old(cache),
        r == Err::<Option<Token>, AuthError>(AuthError::Malformed) <==> store.contains_user(user@)
            && !phc_usable(store.stored_hash_of(user@)),
        r matches Err(e) ==> e == AuthError::NotFound || e == AuthError::Malformed,
        store.contains_user(user@) ==> repo_sets_after_login(
            *store,
            *old(cache),
            *final(cache),
            store.account_for(user@).uid@,
        ),
        r matches Ok(opt) ==> (opt is Some <==> store.credentials_good(user@, password@)),
        r == Ok::<Option<Token>, AuthError>(None) ==> final(cache).sessions@ == old(
            cache,
        ).sessions@,
        r is Err ==> final(cache).sessions@ == old(cache).sessions@,
        r matches Ok(Some(t)) ==> t.wf() && final(cache).has_session(t.key@)
            && final(cache).session_body(t.key@) == t.body@ && final(cache).session_expiry(t.key@)
            == now + ttl && sessions_preserved_except(*old(cache), *final(cache), t.key@),
{
    let ghost pre = *old(cache);
    let idx = match store.find_account(user) {
        Some(i) => i,
        None => {
            return Err(AuthError::NotFound);
        },
    };
    proof {
        assert(store.contains_user(user@));
        let k = store.user_index(user@);
        assert(store.accounts@[k].user@ == user@);
        if k != idx {
            assert(store.accounts@[k].user@ != store.accounts@[idx as int].user@);
        }
    }
    let ghost uid_view = store.accounts@[idx as int].uid@;
    if !cache.contains_repo_set(store.accounts[idx].uid.as_str()) {
        match store.find_repo_auth(store.accounts[idx].uid.as_str()) {
            Some(repos) => {
                let names = split_repo_names(repos.as_str());
                cache.populate_repo_set(store.accounts[idx].uid.clone(), names);
            },
            None => {
            },
        }
    }
    let ghost mid = *cache;
    proof {
        assert(repo_sets_after_login(*store, pre, mid, uid_view));
        assert(mid.sessions@ == pre.sessions@);
    }
    let verdict = match hashing::verify_password(
        password,
        store.accounts[idx].password_hash.as_str(),
    ) {
        Ok(b) => b,
        Err(_) => {
            return Err(AuthError::Malformed);
        },
    };
    if !verdict {
        return Ok(None);
    }
    let t = token::mint(user);
    cache.put_session(t.key.clone(), t.body.clone(), ttl, now);
    proof {
        assert(cache.repo_sets@ == mid.repo_sets@);
        assert(repo_sets_after_login(*store, pre, *cache, uid_view)) by {
            assert forall|u: Seq<char>| u != uid_view implies #[trigger] cache.has_repo_set(u)
                == pre.has_repo_set(u) by {
                lemma_repo_views_agree(*cache, mid, u);
            }
            assert forall|u: Seq<char>| u != uid_view && pre.has_repo_set(u) implies #[trigger] cache.repo_set_of(
                u,
            ) == pre.repo_set_of(u) by {
                lemma_repo_views_agree(*cache, mid, u);
            }
            if !pre.has_repo_set(uid_view) && store.has_repo_auth(uid_view) {
                lemma_repo_views_agree(*cache, mid, uid_view);
            }
        }
        assert(sessions_preserved_except(pre, *cache, t.key@)) by {
            assert forall|k: Seq<char>| k != t.key@ implies #[trigger] cache.has_session(k)
                == pre.has_session(k) by {
                lemma_session_views_agree(mid, pre, k);
            }
            assert forall|k: Seq<char>| k != t.key@ && pre.has_session(k) implies #[trigger] cache.session_body(
                k,
            ) == pre.session_body(k) && cache.session_expiry(k) == pre.session_expiry(k) by {
                lemma_session_views_agree(mid, pre, k);
            }
        }
    }
    Ok(Some(t))
}

/// Drive the login decision against an empty deployment: with no
/// accounts in the store, a posted login must fail at the
/// account-lookup stage, whatever the cache holds.
pub fn test_auth_post() -> (denied: bool)
    ensures
        denied,
{
    let store = CredentialStore::new();
    let mut cache = SessionCache::new();
    let r = process_login(&store, &mut cache, "operator", "hunter2", 0, 600);
    match r {
        Err(AuthError::NotFound) => true,
        _ => false,
    }
}

} // verus!
