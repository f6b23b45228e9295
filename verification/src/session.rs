//! Dashboard sessions: verifying the operator password, issuing rotating
//! session login tokens, and checking them against a time-to-live window.
//!
//! One token row is the credential for one browser session.  The raw
//! secret travels only inside the client's session cookie, paired with the
//! row's identifier; only its weak-profile hash is stored.  A token is
//! accepted strictly before `created_at + ttl_seconds` and rejected from
//! that instant on; expiry is logical — the row may still exist — and a
//! lookup treats an expired row exactly like a missing one.

use vstd::prelude::*;

use crate::errors::StoreError;
use crate::hashing::{
    argon2_check_key_against_hash, argon2_hash_key, hash_verifies, setup_strong_argon2,
    setup_weak_argon2, utf8_bytes,
};
use crate::ids::new_row_id;
use crate::secrets::{
    all_alphanumeric, generate_secret, lemma_ascii_utf8_len, DASHBOARD_SESSION_SECRET_LENGTH,
};

verus! {

/// A dashboard login token row: an opaque identifier, the weak-profile
/// hash of the session secret, and the creation time in Unix seconds.
#[derive(Debug)]
pub struct DashboardLoginToken {
    pub id: u128,
    pub token_hash: String,
    pub created_at: i64,
}

/// The mathematical content of a token row.
#[verifier::ext_equal]
pub struct TokenModel {
    pub id: u128,
    pub token_hash: Seq<char>,
    pub created_at: i64,
}

impl View for DashboardLoginToken {
    type V = TokenModel;

    open spec fn view(&self) -> TokenModel {
        TokenModel { id: self.id, token_hash: self.token_hash@, created_at: self.created_at }
    }
}

impl Clone for DashboardLoginToken {
    fn clone(&self) -> (other: Self)
        ensures
            other@ == self@,
    {
        DashboardLoginToken {
            id: self.id,
            token_hash: self.token_hash.clone(),
            created_at: self.created_at,
        }
    }
}

/// The payload of the dashboard session cookie: a token row identifier
/// paired with the raw session secret.
pub struct DashboardSessionLoginTokenData {
    pub id: u128,
    pub token: String,
}

/// The dashboard's login form input.
pub struct PostLoginRequest {
    pub password: String,
}

/// A token issued at `created_at` is accepted strictly before
/// `created_at + ttl_seconds` and rejected from that instant on.
pub open spec fn token_live(token: TokenModel, now: i64, ttl_seconds: u64) -> bool {
    now < token.created_at + ttl_seconds
}

/// Index of the first token row carrying `id`, or -1 when no row does.
pub open spec fn token_index(rows: Seq<TokenModel>, id: u128) -> int
    decreases rows.len(),
{
    if rows.len() == 0 {
        -1
    } else if rows[0].id == id {
        0
    } else {
        let rest = token_index(rows.drop_first(), id);
        if rest == -1 {
            -1
        } else {
            rest + 1
        }
    }
}

/// Token row identifiers are pairwise distinct.
pub open spec fn unique_token_ids(rows: Seq<TokenModel>) -> bool {
    forall|i: int, j: int|
        0 <= i < j < rows.len() ==> (#[trigger] rows[i]).id != (#[trigger] rows[j]).id
}

/// `token_index` is a first-match scan: it stays in bounds, a result of -1
/// means no row matches, and a non-negative result names the first
/// matching row.
pub proof fn lemma_token_index_props(rows: Seq<TokenModel>, id: u128)
    ensures
        -1 <= token_index(rows, id) < rows.len(),
        token_index(rows, id) == -1 ==> forall|j: int|
            0 <= j < rows.len() ==> (#[trigger] rows[j]).id != id,
        token_index(rows, id) >= 0 ==> rows[token_index(rows, id)].id == id,
        token_index(rows, id) >= 0 ==> forall|j: int|
            0 <= j < token_index(rows, id) ==> (#[trigger] rows[j]).id != id,
    decreases rows.len(),
{
    if rows.len() == 0 {
    } else if rows[0].id == id {
    } else {
        lemma_token_index_props(rows.drop_first(), id);
        let rest = token_index(rows.drop_first(), id);
        if rest == -1 {
            assert forall|j: int| 0 <= j < rows.len() implies (#[trigger] rows[j]).id != id by {
                if j >= 1 {
                    assert(rows.drop_first()[j - 1] == rows[j]);
                }
            }
        } else {
            assert(rows.drop_first()[rest] == rows[rest + 1]);
            assert forall|j: int| 0 <= j < rest + 1 implies (#[trigger] rows[j]).id != id by {
                if j >= 1 {
                    assert(rows.drop_first()[j - 1] == rows[j]);
                }
            }
        }
    }
}

/// The store of dashboard login token rows, keyed by identifier.
///
/// This is the in-memory form of the persisted `dashboard_login_tokens`
/// relation.  Rows are created on successful login and never updated;
/// they die logically by falling outside the time-to-live window.
pub struct TokenStore {
    rows: Vec<DashboardLoginToken>,
}

impl View for TokenStore {
    type V = Seq<TokenModel>;

    closed spec fn view(&self) -> Seq<TokenModel> {
        self.rows@.map_values(|t: DashboardLoginToken| t@)
    }
}

impl TokenStore {
    /// Row identifiers are unique.
    pub open spec fn wf(self) -> bool {
        unique_token_ids(self@)
    }

    /// An empty store.
    pub fn new() -> (store: Self)
        ensures
            store@ =~= Seq::<TokenModel>::empty(),
            store.wf(),
    {
        TokenStore { rows: Vec::new() }
    }

    /// Number of stored rows, expired ones included.
    pub fn len(&self) -> (n: usize)
        ensures
            n == self@.len(),
    {
        self.rows.len()
    }

    /// Position of the row stored under `id`, if any.
    fn index_of_id(&self, id: u128) -> (position: Option<usize>)
        ensures
            match position {
                Some(i) => token_index(self@, id) == i as int,
                None => token_index(self@, id) == -1,
            },
    {
        let n = self.rows.len();
        let mut i: usize = 0;
        while i < n
            invariant
                0 <= i <= n,
                n == self@.len(),
                forall|j: int| 0 <= j < i ==> (#[trigger] self@[j]).id != id,
            decreases n - i,
        {
            if self.rows[i].id == id {
                proof {
                    assert(self@[i as int] == self.rows@[i as int]@);
                    lemma_token_index_props(self@, id);
                }
                return Some(i);
            }
            i += 1;
        }
        proof {
            lemma_token_index_props(self@, id);
        }
        None
    }

    /// Persist a new token row under a freshly drawn identifier, recording
    /// `now` as its creation time.  A clash of the drawn identifier is an
    /// infrastructure error and leaves the store unchanged.
    pub fn create_dashboard_login_token(&mut self, token_hash: &str, now: i64) -> (created: Result<
        DashboardLoginToken,
        StoreError,
    >)
        requires
            old(self).wf(),
        ensures
            final(self).wf(),
            match created {
                Ok(row) => {
                    &&& row@.token_hash == token_hash@
                    &&& row@.created_at == now
                    &&& token_index(old(self)@, row@.id) == -1
                    &&& final(self)@ =~= old(self)@.push(row@)
                },
                Err(e) => {
                    &&& e == StoreError::DuplicateId
                    &&& final(self)@ == old(self)@
                    &&& old(self)@.len() > 0
                },
            },
    {
        let id = new_row_id();
        if self.index_of_id(id).is_some() {
            return Err(StoreError::DuplicateId);
        }
        let row = DashboardLoginToken { id, token_hash: token_hash.to_owned(), created_at: now };
        let returned = row.clone();
        self.rows.push(row);
        proof {
            lemma_token_index_props(old(self)@, id);
            assert(self@ =~= old(self)@.push(returned@));
        }
        Ok(returned)
    }

    /// Fetch a copy of the row stored under `id`, whatever its age.
    pub fn get_token(&self, id: u128) -> (row: Option<DashboardLoginToken>)
        ensures
            match row {
                Some(token) => token_index(self@, id) >= 0 && token@ == self@[token_index(
                    self@,
                    id,
                )],
                None => token_index(self@, id) == -1,
            },
    {
        match self.index_of_id(id) {
            Some(i) => {
                proof {
                    lemma_token_index_props(self@, id);
                    assert(self@[i as int] == self.rows@[i as int]@);
                }
                Some(self.rows[i].clone())
            },
            None => None,
        }
    }

    /// Fetch a copy of the row stored under `id`, but only while it is
    /// inside the time-to-live window: an expired row is reported exactly
    /// like a missing one, never through a separate channel.
    pub fn get_dashboard_login_token(&self, id: u128, now: i64, ttl_seconds: u64) -> (row: Option<
        DashboardLoginToken,
    >)
        ensures
            match row {
                Some(token) => {
                    &&& token_index(self@, id) >= 0
                    &&& token@ == self@[token_index(self@, id)]
                    &&& token_live(token@, now, ttl_seconds)
                },
                None => token_index(self@, id) == -1 || !token_live(
                    self@[token_index(self@, id)],
                    now,
                    ttl_seconds,
                ),
            },
    {
        match self.get_token(id) {
            Some(token) => {
                if is_live(token.created_at, now, ttl_seconds) {
                    Some(token)
                } else {
                    None
                }
            },
            None => None,
        }
    }
}

/// Executable form of the time-to-live comparison, widened so it cannot
/// overflow.
pub(crate) fn is_live(created_at: i64, now: i64, ttl_seconds: u64) -> (live: bool)
    ensures
        live == (now < created_at + ttl_seconds),
{
    (now as i128) < (created_at as i128) + (ttl_seconds as i128)
}

/// A freshly generated raw session token together with its weak-profile
/// hash.
pub struct GenerateLoginTokenAndHash {
    pub token: String,
    pub hash: String,
}

/// Generate a dashboard session secret and its hash.  The secret is 96
/// alphanumeric characters and verifies against the returned hash.
pub fn generate_dashboard_login_token() -> (generated: GenerateLoginTokenAndHash)
    ensures
        generated.token@.len() == DASHBOARD_SESSION_SECRET_LENGTH as nat,
        all_alphanumeric(generated.token@),
        hash_verifies(utf8_bytes(generated.token@), generated.hash@),
{
    let token = generate_secret(DASHBOARD_SESSION_SECRET_LENGTH);
    proof {
        lemma_ascii_utf8_len(token@);
    }
    let profile = setup_weak_argon2();
    let hash = argon2_hash_key(&profile, token.as_str());
    GenerateLoginTokenAndHash { token, hash }
}

/// Whether a session credential `(id, secret)` is accepted against the
/// stored token rows at query time `now`: some row carries `id`, is still
/// inside the time-to-live window, and the secret verifies against its
/// stored hash.
pub open spec fn session_accepted(
    rows: Seq<TokenModel>,
    id: u128,
    secret: Seq<u8>,
    now: i64,
    ttl_seconds: u64,
) -> bool {
    exists|i: int|
        0 <= i < rows.len() && (#[trigger] rows[i]).id == id && token_live(
            rows[i],
            now,
            ttl_seconds,
        ) && hash_verifies(secret, rows[i].token_hash)
}

/// Check a session credential: look up the token row by identifier inside
/// the time-to-live window, then verify the presented secret against its
/// stored hash.  An expired or unknown row and a failed verification all
/// yield the same rejection.
pub fn check_session(
    store: &TokenStore,
    id: u128,
    secret: &str,
    now: i64,
    ttl_seconds: u64,
) -> (accepted: bool)
    requires
        store.wf(),
    ensures
        accepted == session_accepted(store@, id, utf8_bytes(secret@), now, ttl_seconds),
{
    proof {
        lemma_token_index_props(store@, id);
    }
    match store.get_dashboard_login_token(id, now, ttl_seconds) {
        Some(token) => {
            let profile = setup_weak_argon2();
            let verified = argon2_check_key_against_hash(&profile, secret, token.token_hash.as_str());
            proof {
                let i = token_index(store@, id);
                if verified {
                    assert(session_accepted(store@, id, utf8_bytes(secret@), now, ttl_seconds));
                } else {
                    assert forall|j: int|
                        0 <= j < store@.len() && (#[trigger] store@[j]).id == id implies j == i by {
                        if j < i {
                            assert(store@[j].id != id);
                        }
                    }
                }
            }
            verified
        },
        None => {
            proof {
                let i = token_index(store@, id);
                if i >= 0 {
                    assert forall|j: int|
                        0 <= j < store@.len() && (#[trigger] store@[j]).id == id implies j == i by {
                        if j < i {
                            assert(store@[j].id != id);
                        }
                    }
                }
            }
            false
        },
    }
}

/// Check the operator password against the configured admin password
/// hash.  On success only, generate a fresh session secret, persist a new
/// token row hashed under the weak profile, and return the row identifier
/// and raw secret for the client's session cookie.  On failure no row is
/// created.  An identifier clash is an infrastructure error, distinct from
/// a rejected password, and also creates no row.
pub fn attempt_log_in_dashboard_session(
    store: &mut TokenStore,
    admin_password_hash: &str,
    password: &str,
    now: i64,
) -> (outcome: Result<Option<DashboardSessionLoginTokenData>, StoreError>)
    requires
        old(store).wf(),
    ensures
        final(store).wf(),
        match outcome {
            Ok(Some(data)) => {
                &&& hash_verifies(utf8_bytes(password@), admin_password_hash@)
                &&& data.token@.len() == DASHBOARD_SESSION_SECRET_LENGTH as nat
                &&& all_alphanumeric(data.token@)
                &&& token_index(old(store)@, data.id) == -1
                &&& final(store)@.len() == old(store)@.len() + 1
                &&& final(store)@ =~= old(store)@.push(final(store)@.last())
                &&& final(store)@.last().id == data.id
                &&& final(store)@.last().created_at == now
                &&& hash_verifies(utf8_bytes(data.token@), final(store)@.last().token_hash)
            },
            Ok(None) => {
                &&& !hash_verifies(utf8_bytes(password@), admin_password_hash@)
                &&& final(store)@ == old(store)@
            },
            Err(e) => {
                &&& hash_verifies(utf8_bytes(password@), admin_password_hash@)
                &&& e == StoreError::DuplicateId
                &&& final(store)@ == old(store)@
                &&& old(store)@.len() > 0
            },
        },
{
    let profile = setup_strong_argon2();
    if !argon2_check_key_against_hash(&profile, password, admin_password_hash) {
        return Ok(None);
    }
    let generated = generate_dashboard_login_token();
    let row = store.create_dashboard_login_token(generated.hash.as_str(), now)?;
    Ok(Some(DashboardSessionLoginTokenData { id: row.id, token: generated.token }))
}

/// The per-row acceptance decision, for callers that fetched the token
/// row under the presented identifier from an outside store themselves:
/// the row must exist, carry the identifier, be inside the time-to-live
/// window, and the presented secret must verify against its stored hash.
/// A missing row and every failed condition yield the same rejection.
pub fn accept_fetched_token(
    token: Option<&DashboardLoginToken>,
    id: u128,
    secret: &str,
    now: i64,
    ttl_seconds: u64,
) -> (accepted: bool)
    ensures
        accepted == match token {
            Some(row) => row@.id == id && token_live(row@, now, ttl_seconds) && hash_verifies(
                utf8_bytes(secret@),
                row@.token_hash,
            ),
            None => false,
        },
{
    match token {
        Some(row) => {
            if row.id != id {
                return false;
            }
            if !is_live(row.created_at, now, ttl_seconds) {
                return false;
            }
            let profile = setup_weak_argon2();
            argon2_check_key_against_hash(&profile, secret, row.token_hash.as_str())
        },
        None => false,
    }
}

/// The time-to-live window law: against a store with pairwise distinct row
/// identifiers, a credential whose secret verifies against the row issued
/// at time `T` is accepted at exactly the query times in `[T, T + ttl)`
/// — accepted strictly before `T + ttl`, rejected from that instant on.
pub proof fn lemma_session_ttl_window(
    rows: Seq<TokenModel>,
    i: int,
    secret: Seq<u8>,
    now: i64,
    ttl_seconds: u64,
)
    requires
        unique_token_ids(rows),
        0 <= i < rows.len(),
        hash_verifies(secret, rows[i].token_hash),
    ensures
        session_accepted(rows, rows[i].id, secret, now, ttl_seconds) <==> now < rows[i].created_at
            + ttl_seconds,
{
    if now < rows[i].created_at + ttl_seconds {
        assert(session_accepted(rows, rows[i].id, secret, now, ttl_seconds));
    } else {
        assert forall|j: int|
            0 <= j < rows.len() && (#[trigger] rows[j]).id == rows[i].id implies j == i by {}
    }
}

} // verus!
