//! Platform credentials: issuing and verifying long-lived API keys for
//! machine clients, and the store of platform rows they are checked
//! against.
//!
//! A platform row holds an opaque identifier, a display name and the
//! strong-profile hash of its API key.  The raw key is generated once,
//! returned to the caller, and never stored.

use vstd::prelude::*;
use vstd::multiset::Multiset;
use vstd::std_specs::iter::IteratorSpec;

use crate::errors::StoreError;
use crate::hashing::{
    argon2_check_key_against_hash, argon2_hash_key, hash_verifies, setup_strong_argon2, utf8_bytes,
};
use crate::ids::new_row_id;
use crate::secrets::{
    all_alphanumeric, generate_secret, lemma_ascii_utf8_len, PLATFORM_API_KEY_LENGTH,
};

verus! {

/// A machine client: an opaque identifier, a display name, and the
/// strong-profile hash of its API key.
#[derive(Debug)]
pub struct Platform {
    pub id: u128,
    pub name: String,
    pub api_key_hash: String,
}

/// The mathematical content of a platform row.
#[verifier::ext_equal]
pub struct PlatformModel {
    pub id: u128,
    pub name: Seq<char>,
    pub api_key_hash: Seq<char>,
}

impl View for Platform {
    type V = PlatformModel;

    open spec fn view(&self) -> PlatformModel {
        PlatformModel { id: self.id, name: self.name@, api_key_hash: self.api_key_hash@ }
    }
}

impl Clone for Platform {
    fn clone(&self) -> (other: Self)
        ensures
            other@ == self@,
    {
        Platform { id: self.id, name: self.name.clone(), api_key_hash: self.api_key_hash.clone() }
    }
}

/// A freshly issued raw API key together with its strong-profile hash.
pub struct PlatformApiKeyAndHash {
    pub api_key: String,
    pub api_key_hash: String,
}

/// Generate a platform API key and its hash.  The key is 69 alphanumeric
/// characters and verifies against the returned hash.
pub fn generate_platform_api_key() -> (generated: PlatformApiKeyAndHash)
    ensures
        generated.api_key@.len() == PLATFORM_API_KEY_LENGTH as nat,
        all_alphanumeric(generated.api_key@),
        hash_verifies(utf8_bytes(generated.api_key@), generated.api_key_hash@),
{
    let api_key = generate_secret(PLATFORM_API_KEY_LENGTH);
    proof {
        lemma_ascii_utf8_len(api_key@);
    }
    let profile = setup_strong_argon2();
    let api_key_hash = argon2_hash_key(&profile, api_key.as_str());
    PlatformApiKeyAndHash { api_key, api_key_hash }
}

/// True exactly when the presented key matches the platform's stored hash.
pub fn check_platform_api_key(platform: &Platform, api_key: &str) -> (ok: bool)
    ensures
        ok == hash_verifies(utf8_bytes(api_key@), platform.api_key_hash@),
{
    let profile = setup_strong_argon2();
    argon2_check_key_against_hash(&profile, api_key, platform.api_key_hash.as_str())
}

/// Index of the first row carrying `id`, or -1 when no row does.
pub open spec fn platform_index(rows: Seq<PlatformModel>, id: u128) -> int
    decreases rows.len(),
{
    if rows.len() == 0 {
        -1
    } else if rows[0].id == id {
        0
    } else {
        let rest = platform_index(rows.drop_first(), id);
        if rest == -1 {
            -1
        } else {
            rest + 1
        }
    }
}

/// The row stored under `id`, if any.
pub open spec fn find_platform(rows: Seq<PlatformModel>, id: u128) -> Option<PlatformModel> {
    let i = platform_index(rows, id);
    if i == -1 {
        None
    } else {
        Some(rows[i])
    }
}

/// `platform_index` is a first-match scan: it stays in bounds, a result of
/// -1 means no row matches, and a non-negative result names the first
/// matching row.
pub proof fn lemma_platform_index_props(rows: Seq<PlatformModel>, id: u128)
    ensures
        -1 <= platform_index(rows, id) < rows.len(),
        platform_index(rows, id) == -1 ==> forall|j: int|
            0 <= j < rows.len() ==> (#[trigger] rows[j]).id != id,
        platform_index(rows, id) >= 0 ==> rows[platform_index(rows, id)].id == id,
        platform_index(rows, id) >= 0 ==> forall|j: int|
            0 <= j < platform_index(rows, id) ==> (#[trigger] rows[j]).id != id,
    decreases rows.len(),
{
    if rows.len() == 0 {
    } else if rows[0].id == id {
    } else {
        lemma_platform_index_props(rows.drop_first(), id);
        let rest = platform_index(rows.drop_first(), id);
        if rest == -1 {
            assert forall|j: int| 0 <= j < rows.len() implies (#[trigger] rows[j]).id != id by {
                if j >= 1 {
                    assert(rows.drop_first()[j - 1] == rows[j]);
                }
            }
        } else {
            assert(rows.drop_first()[rest] == rows[rest + 1]);
            assert forall|j: int| 0 <= j < rest + 1 implies (#[trigger] rows[j]).id != id by {
                if j >= 1 {
                    assert(rows.drop_first()[j - 1] == rows[j]);
                }
            }
        }
    }
}

/// The models of a sequence of platform rows.
pub open spec fn models(rows: Seq<Platform>) -> Seq<PlatformModel> {
    rows.map_values(|p: Platform| p@)
}

/// Lexicographic order on byte strings: ascending byte by byte, a proper
/// prefix before its extensions.
pub open spec fn bytes_le(a: Seq<u8>, b: Seq<u8>) -> bool
    decreases a.len(),
{
    if a.len() == 0 {
        true
    } else if b.len() == 0 {
        false
    } else if a[0] < b[0] {
        true
    } else if a[0] > b[0] {
        false
    } else {
        bytes_le(a.drop_first(), b.drop_first())
    }
}

/// Names order ascending by the lexicographic order of their UTF-8
/// encodings; two equal names order both ways.
pub open spec fn name_le(a: Seq<char>, b: Seq<char>) -> bool {
    bytes_le(utf8_bytes(a), utf8_bytes(b))
}

proof fn lemma_bytes_le_reflexive(a: Seq<u8>)
    ensures
        bytes_le(a, a),
    decreases a.len(),
{
    if a.len() > 0 {
        lemma_bytes_le_reflexive(a.drop_first());
    }
}

proof fn lemma_bytes_le_total(a: Seq<u8>, b: Seq<u8>)
    ensures
        bytes_le(a, b) || bytes_le(b, a),
    decreases a.len(),
{
    if a.len() > 0 && b.len() > 0 && a[0] == b[0] {
        lemma_bytes_le_total(a.drop_first(), b.drop_first());
    }
}

proof fn lemma_bytes_le_transitive(a: Seq<u8>, b: Seq<u8>, c: Seq<u8>)
    requires
        bytes_le(a, b),
        bytes_le(b, c),
    ensures
        bytes_le(a, c),
    decreases a.len(),
{
    if a.len() > 0 && a[0] == c[0] {
        lemma_bytes_le_transitive(a.drop_first(), b.drop_first(), c.drop_first());
    }
}

proof fn lemma_name_le_reflexive(a: Seq<char>)
    ensures
        name_le(a, a),
{
    lemma_bytes_le_reflexive(utf8_bytes(a));
}

proof fn lemma_name_le_total(a: Seq<char>, b: Seq<char>)
    ensures
        name_le(a, b) || name_le(b, a),
{
    lemma_bytes_le_total(utf8_bytes(a), utf8_bytes(b));
}

proof fn lemma_name_le_transitive(a: Seq<char>, b: Seq<char>, c: Seq<char>)
    requires
        name_le(a, b),
        name_le(b, c),
    ensures
        name_le(a, c),
{
    lemma_bytes_le_transitive(utf8_bytes(a), utf8_bytes(b), utf8_bytes(c));
}

proof fn lemma_bytes_le_skip(a: Seq<u8>, b: Seq<u8>, i: int)
    requires
        0 <= i <= a.len(),
        i <= b.len(),
        forall|j: int| 0 <= j < i ==> a[j] == b[j],
    ensures
        bytes_le(a, b) == bytes_le(a.skip(i), b.skip(i)),
    decreases i,
{
    if i == 0 {
        assert(a.skip(0) =~= a);
        assert(b.skip(0) =~= b);
    } else {
        let arest = a.drop_first();
        let brest = b.drop_first();
        assert(forall|j: int| 0 <= j < arest.len() ==> #[trigger] arest[j] == a[j + 1]);
        assert(forall|j: int| 0 <= j < brest.len() ==> #[trigger] brest[j] == b[j + 1]);
        lemma_bytes_le_skip(arest, brest, i - 1);
        assert(arest.skip(i - 1) =~= a.skip(i));
        assert(brest.skip(i - 1) =~= b.skip(i));
    }
}

/// Compare two names for ascending order by their UTF-8 bytes.
fn name_le_exec(a: &str, b: &str) -> (le: bool)
    ensures
        le == name_le(a@, b@),
{
    let a_bytes = a.as_bytes();
    let b_bytes = b.as_bytes();
    let a_len = a_bytes.len();
    let b_len = b_bytes.len();
    let mut i: usize = 0;
    while i < a_len && i < b_len
        invariant
            0 <= i <= a_len,
            i <= b_len,
            a_len == a_bytes@.len(),
            b_len == b_bytes@.len(),
            a_bytes@ == utf8_bytes(a@),
            b_bytes@ == utf8_bytes(b@),
            forall|j: int| 0 <= j < i ==> a_bytes@[j] == b_bytes@[j],
        decreases a_len - i,
    {
        if a_bytes[i] != b_bytes[i] {
            proof {
                lemma_bytes_le_skip(a_bytes@, b_bytes@, i as int);
                assert(a_bytes@.skip(i as int)[0] == a_bytes@[i as int]);
                assert(b_bytes@.skip(i as int)[0] == b_bytes@[i as int]);
            }
            return a_bytes[i] < b_bytes[i];
        }
        i += 1;
    }
    proof {
        lemma_bytes_le_skip(a_bytes@, b_bytes@, i as int);
        if i < b_len {
            assert(b_bytes@.skip(i as int).len() > 0);
        }
    }
    a_len <= b_len
}

/// The store of platform rows, keyed by identifier.
///
/// This is the in-memory form of the persisted `platforms` relation; row
/// identifiers are unique, as the primary key makes them in the relational
/// store.
pub struct PlatformStore {
    rows: Vec<Platform>,
}

impl View for PlatformStore {
    type V = Seq<PlatformModel>;

    closed spec fn view(&self) -> Seq<PlatformModel> {
        models(self.rows@)
    }
}

impl PlatformStore {
    /// Row identifiers are unique.
    pub open spec fn wf(self) -> bool {
        forall|i: int, j: int|
            0 <= i < j < self@.len() ==> (#[trigger] self@[i]).id != (#[trigger] self@[j]).id
    }

    /// An empty store.
    pub fn new() -> (store: Self)
        ensures
            store@ =~= Seq::<PlatformModel>::empty(),
            store.wf(),
    {
        PlatformStore { rows: Vec::new() }
    }

    /// Number of stored rows.
    pub fn len(&self) -> (n: usize)
        ensures
            n == self@.len(),
    {
        self.rows.len()
    }

    /// Position of the row stored under `id`, if any.
    fn index_of_id(&self, id: u128) -> (position: Option<usize>)
        ensures
            match position {
                Some(i) => platform_index(self@, id) == i as int,
                None => platform_index(self@, id) == -1,
            },
    {
        let n = self.rows.len();
        let mut i: usize = 0;
        while i < n
            invariant
                0 <= i <= n,
                n == self@.len(),
                forall|j: int| 0 <= j < i ==> (#[trigger] self@[j]).id != id,
            decreases n - i,
        {
            if self.rows[i].id == id {
                proof {
                    assert(self@[i as int] == self.rows@[i as int]@);
                    lemma_platform_index_props(self@, id);
                }
                return Some(i);
            }
            i += 1;
        }
        proof {
            lemma_platform_index_props(self@, id);
        }
        None
    }

    /// Issue a platform: generate an API key, hash it under the strong
    /// profile, persist a new row, and hand back the raw key exactly once.
    /// The key is unrecoverable afterward by design.  A clash of the
    /// freshly drawn row identifier is an infrastructure error and leaves
    /// the store unchanged.
    pub fn create_platform(&mut self, name: &str) -> (issued: Result<(String, Platform), StoreError>)
        requires
            old(self).wf(),
        ensures
            final(self).wf(),
            match issued {
                Ok((api_key, platform)) => {
                    &&& api_key@.len() == PLATFORM_API_KEY_LENGTH as nat
                    &&& all_alphanumeric(api_key@)
                    &&& hash_verifies(utf8_bytes(api_key@), platform@.api_key_hash)
                    &&& platform@.name == name@
                    &&& platform_index(old(self)@, platform@.id) == -1
                    &&& final(self)@ =~= old(self)@.push(platform@)
                },
                Err(e) => {
                    &&& e == StoreError::DuplicateId
                    &&& final(self)@ == old(self)@
                    &&& old(self)@.len() > 0
                },
            },
    {
        let id = new_row_id();
        if self.index_of_id(id).is_some() {
            return Err(StoreError::DuplicateId);
        }
        let generated = generate_platform_api_key();
        let platform = Platform {
            id,
            name: name.to_owned(),
            api_key_hash: generated.api_key_hash,
        };
        let returned = platform.clone();
        self.rows.push(platform);
        proof {
            lemma_platform_index_props(old(self)@, id);
            assert(self@ =~= old(self)@.push(returned@));
        }
        Ok((generated.api_key, returned))
    }

    /// Fetch a copy of the platform stored under `id`.
    pub fn get_platform(&self, id: u128) -> (row: Option<Platform>)
        ensures
            match row {
                Some(platform) => find_platform(self@, id) == Some(platform@),
                None => find_platform(self@, id) is None,
            },
    {
        match self.index_of_id(id) {
            Some(i) => {
                proof {
                    lemma_platform_index_props(self@, id);
                }
                Some(self.rows[i].clone())
            },
            None => None,
        }
    }

    /// Fetch a copy of the first platform whose name matches `name`, case
    /// insensitively.
    pub fn get_platform_by_name(&self, name: &str) -> (row: Option<Platform>)
        ensures
            match row {
                Some(platform) => {
                    &&& platform_name_index(self@, name@) >= 0
                    &&& platform@ == self@[platform_name_index(self@, name@)]
                },
                None => platform_name_index(self@, name@) == -1,
            },
    {
        let wanted = to_uppercase(name);
        let n = self.rows.len();
        let mut i: usize = 0;
        while i < n
            invariant
                0 <= i <= n,
                n == self@.len(),
                wanted@ == upper_of(name@),
                forall|j: int| 0 <= j < i ==> !names_match((#[trigger] self@[j]).name, name@),
            decreases n - i,
        {
            let candidate = to_uppercase(self.rows[i].name.as_str());
            if candidate == wanted {
                proof {
                    assert(self@[i as int] == self.rows@[i as int]@);
                    lemma_platform_name_index_props(self@, name@);
                }
                return Some(self.rows[i].clone());
            }
            i += 1;
        }
        proof {
            lemma_platform_name_index_props(self@, name@);
        }
        None
    }

    /// Copies of all stored rows — each exactly once — ascending by name
    /// under the lexicographic order of the names' UTF-8 encodings; rows
    /// with equal names come in no fixed order.
    pub fn get_platforms(&self) -> (rows: Vec<Platform>)
        ensures
            rows@.len() == self@.len(),
            models(rows@).to_multiset() == self@.to_multiset(),
            forall|i: int, j: int|
                0 <= i < j < rows@.len() ==> name_le(
                    (#[trigger] rows@[i])@.name,
                    (#[trigger] rows@[j])@.name,
                ),
    {
        broadcast use vstd::seq_lib::group_to_multiset_ensures;
        broadcast use vstd::multiset::group_multiset_axioms;

        let n = self.rows.len();
        let mut remaining: Vec<Platform> = Vec::new();
        let mut i: usize = 0;
        while i < n
            invariant
                0 <= i <= n,
                n == self@.len(),
                remaining@.len() == i,
                forall|j: int| 0 <= j < i ==> (#[trigger] remaining@[j])@ == self@[j],
            decreases n - i,
        {
            proof {
                assert(self@[i as int] == self.rows@[i as int]@);
            }
            remaining.push(self.rows[i].clone());
            i += 1;
        }
        proof {
            assert(models(remaining@) =~= self@);
        }
        let mut sorted: Vec<Platform> = Vec::new();
        while remaining.len() > 0
            invariant
                sorted@.len() + remaining@.len() == self@.len(),
                models(sorted@).to_multiset().add(models(remaining@).to_multiset())
                    == self@.to_multiset(),
                forall|a: int, b: int|
                    0 <= a < b < sorted@.len() ==> name_le(
                        (#[trigger] sorted@[a])@.name,
                        (#[trigger] sorted@[b])@.name,
                    ),
                forall|a: int, b: int|
                    0 <= a < sorted@.len() && 0 <= b < remaining@.len() ==> name_le(
                        (#[trigger] sorted@[a])@.name,
                        (#[trigger] remaining@[b])@.name,
                    ),
            decreases remaining@.len(),
        {
            let remaining_len = remaining.len();
            let mut least: usize = 0;
            let mut k: usize = 1;
            proof {
                lemma_name_le_reflexive(remaining@[0]@.name);
            }
            while k < remaining_len
                invariant
                    0 <= least < k <= remaining_len,
                    remaining_len == remaining@.len(),
                    forall|j: int|
                        0 <= j < k ==> name_le(
                            remaining@[least as int]@.name,
                            (#[trigger] remaining@[j])@.name,
                        ),
                decreases remaining_len - k,
            {
                if name_le_exec(
                    remaining[k].name.as_str(),
                    remaining[least].name.as_str(),
                ) {
                    proof {
                        let candidate = remaining@[k as int]@.name;
                        lemma_name_le_reflexive(candidate);
                        assert forall|j: int|
                            0 <= j < k + 1 implies name_le(
                            candidate,
                            (#[trigger] remaining@[j])@.name,
                        ) by {
                            if j < k {
                                lemma_name_le_transitive(
                                    candidate,
                                    remaining@[least as int]@.name,
                                    remaining@[j]@.name,
                                );
                            }
                        }
                    }
                    least = k;
                } else {
                    proof {
                        lemma_name_le_total(
                            remaining@[least as int]@.name,
                            remaining@[k as int]@.name,
                        );
                    }
                }
                k += 1;
            }
            let ghost old_sorted = sorted@;
            let ghost old_remaining = remaining@;
            let row = remaining.remove(least);
            sorted.push(row);
            proof {
                let m = least as int;
                let moved = old_remaining[m]@;
                old_remaining.remove_ensures(m);
                models(old_remaining).remove_ensures(m);
                assert(models(remaining@) =~= models(old_remaining).remove(m));
                assert(models(sorted@) =~= models(old_sorted).push(moved));
                assert(models(old_remaining)[m] == moved);
                assert(models(old_remaining).contains(moved));
                models(old_remaining).to_multiset_ensures();
                models(old_sorted).to_multiset_ensures();
                assert(models(old_remaining).to_multiset().count(moved) > 0);
                assert(models(old_remaining).remove(m).to_multiset() =~= models(
                    old_remaining,
                ).to_multiset().remove(moved));
                assert(models(old_sorted).push(moved).to_multiset() =~= models(
                    old_sorted,
                ).to_multiset().insert(moved));
                assert(models(sorted@).to_multiset().add(models(remaining@).to_multiset())
                    =~= self@.to_multiset());
                assert forall|a: int, b: int|
                    0 <= a < b < sorted@.len() implies name_le(
                    (#[trigger] sorted@[a])@.name,
                    (#[trigger] sorted@[b])@.name,
                ) by {
                    if b == sorted@.len() - 1 {
                        assert(sorted@[b]@ == moved);
                        assert(sorted@[a] == old_sorted[a]);
                    }
                }
                assert forall|a: int, b: int|
                    0 <= a < sorted@.len() && 0 <= b < remaining@.len() implies name_le(
                    (#[trigger] sorted@[a])@.name,
                    (#[trigger] remaining@[b])@.name,
                ) by {
                    let old_b: int = if b < m {
                        b
                    } else {
                        b + 1
                    };
                    assert(remaining@[b] == old_remaining[old_b]);
                    if a == sorted@.len() - 1 {
                        assert(sorted@[a]@ == moved);
                        assert(name_le(moved.name, old_remaining[old_b]@.name));
                    } else {
                        assert(sorted@[a] == old_sorted[a]);
                    }
                }
            }
        }
        proof {
            assert(models(remaining@).to_multiset() =~= Multiset::<PlatformModel>::empty());
            assert(models(sorted@).to_multiset() =~= self@.to_multiset());
        }
        sorted
    }

    /// Overwrite the fields of the platform stored under `id` with the
    /// values set in `update_data`; unset fields keep their stored value.
    /// Returns a copy of the updated row, or `None` when no row carries
    /// `id`.
    pub fn update_platform(&mut self, id: u128, update_data: &UpdatePlatformData) -> (updated: Option<
        Platform,
    >)
        requires
            old(self).wf(),
        ensures
            final(self).wf(),
            match updated {
                Some(platform) => {
                    &&& platform_index(old(self)@, id) >= 0
                    &&& platform@ == updated_model(
                        old(self)@[platform_index(old(self)@, id)],
                        update_data,
                    )
                    &&& final(self)@ =~= old(self)@.update(
                        platform_index(old(self)@, id),
                        platform@,
                    )
                },
                None => platform_index(old(self)@, id) == -1 && final(self)@ == old(self)@,
            },
    {
        match self.index_of_id(id) {
            Some(i) => {
                proof {
                    lemma_platform_index_props(self@, id);
                    assert(self@[i as int] == self.rows@[i as int]@);
                }
                let name = match &update_data.name {
                    Some(new_name) => new_name.clone(),
                    None => self.rows[i].name.clone(),
                };
                let api_key_hash = match &update_data.api_key_hash {
                    Some(new_hash) => new_hash.clone(),
                    None => self.rows[i].api_key_hash.clone(),
                };
                let row = Platform { id: self.rows[i].id, name, api_key_hash };
                let returned = row.clone();
                self.rows[i] = row;
                proof {
                    assert(self@ =~= old(self)@.update(i as int, returned@));
                    assert forall|a: int, b: int|
                        0 <= a < b < self@.len() implies (#[trigger] self@[a]).id != (
                    #[trigger] self@[b]).id by {
                        assert(self@[a].id == old(self)@[a].id);
                        assert(self@[b].id == old(self)@[b].id);
                    }
                }
                Some(returned)
            },
            None => None,
        }
    }

    /// Remove the platform stored under `id`, returning a copy of the
    /// removed row, or `None` when no row carries `id`.
    pub fn delete_platform(&mut self, id: u128) -> (deleted: Option<Platform>)
        requires
            old(self).wf(),
        ensures
            final(self).wf(),
            match deleted {
                Some(platform) => {
                    &&& platform_index(old(self)@, id) >= 0
                    &&& platform@ == old(self)@[platform_index(old(self)@, id)]
                    &&& final(self)@ =~= old(self)@.remove(platform_index(old(self)@, id))
                },
                None => platform_index(old(self)@, id) == -1 && final(self)@ == old(self)@,
            },
    {
        match self.index_of_id(id) {
            Some(i) => {
                proof {
                    lemma_platform_index_props(self@, id);
                    assert(self@[i as int] == self.rows@[i as int]@);
                }
                let removed = self.rows.remove(i);
                proof {
                    assert(self@ =~= old(self)@.remove(i as int));
                    assert forall|a: int, b: int|
                        0 <= a < b < self@.len() implies (#[trigger] self@[a]).id != (
                    #[trigger] self@[b]).id by {
                        let olda: int = if a < i as int { a } else { a + 1 };
                        let oldb: int = if b < i as int { b } else { b + 1 };
                        assert(self@[a] == old(self)@[olda]);
                        assert(self@[b] == old(self)@[oldb]);
                    }
                }
                Some(removed)
            },
            None => None,
        }
    }
}

/// How the dashboard's create-platform action ended: either a platform
/// was issued, or the name was already taken and nothing changed.
pub enum CreatePlatformOutcome {
    Created(String, Platform),
    NameAlreadyInUse,
}

impl PlatformStore {
    /// The dashboard's create-platform action: refuse a name some stored
    /// platform already carries, case insensitively, and otherwise issue
    /// the platform.  Name uniqueness is this caller-level rule; the
    /// store itself does not impose it.
    pub fn create_platform_unique(&mut self, name: &str) -> (outcome: Result<
        CreatePlatformOutcome,
        StoreError,
    >)
        requires
            old(self).wf(),
        ensures
            final(self).wf(),
            match outcome {
                Ok(CreatePlatformOutcome::NameAlreadyInUse) => {
                    &&& platform_name_index(old(self)@, name@) >= 0
                    &&& final(self)@ == old(self)@
                },
                Ok(CreatePlatformOutcome::Created(api_key, platform)) => {
                    &&& platform_name_index(old(self)@, name@) == -1
                    &&& api_key@.len() == PLATFORM_API_KEY_LENGTH as nat
                    &&& all_alphanumeric(api_key@)
                    &&& hash_verifies(utf8_bytes(api_key@), platform@.api_key_hash)
                    &&& platform@.name == name@
                    &&& platform_index(old(self)@, platform@.id) == -1
                    &&& final(self)@ =~= old(self)@.push(platform@)
                },
                Err(e) => {
                    &&& e == StoreError::DuplicateId
                    &&& final(self)@ == old(self)@
                    &&& old(self)@.len() > 0
                },
            },
    {
        if self.get_platform_by_name(name).is_some() {
            return Ok(CreatePlatformOutcome::NameAlreadyInUse);
        }
        match self.create_platform(name) {
            Ok((api_key, platform)) => Ok(CreatePlatformOutcome::Created(api_key, platform)),
            Err(e) => Err(e),
        }
    }

    /// The dashboard's reset action: draw a fresh API key, hash it under
    /// the strong profile, and overwrite the stored hash of the platform
    /// under `id`, leaving its name untouched.  The new raw key is handed
    /// back exactly once; `None` when no platform carries `id`.
    pub fn reset_api_key(&mut self, id: u128) -> (reset: Option<(String, Platform)>)
        requires
            old(self).wf(),
        ensures
            final(self).wf(),
            match reset {
                Some(issued) => {
                    &&& platform_index(old(self)@, id) >= 0
                    &&& issued.0@.len() == PLATFORM_API_KEY_LENGTH as nat
                    &&& all_alphanumeric(issued.0@)
                    &&& hash_verifies(utf8_bytes(issued.0@), issued.1@.api_key_hash)
                    &&& issued.1@.id == old(self)@[platform_index(old(self)@, id)].id
                    &&& issued.1@.name == old(self)@[platform_index(old(self)@, id)].name
                    &&& final(self)@ =~= old(self)@.update(
                        platform_index(old(self)@, id),
                        issued.1@,
                    )
                },
                None => platform_index(old(self)@, id) == -1 && final(self)@ == old(self)@,
            },
    {
        let generated = generate_platform_api_key();
        let update_data = UpdatePlatformData {
            name: None,
            api_key_hash: Some(generated.api_key_hash),
        };
        match self.update_platform(id, &update_data) {
            Some(platform) => Some((generated.api_key, platform)),
            None => None,
        }
    }
}

/// The dashboard's create-platform form input.
pub struct PostCreatePlatformRequest {
    pub name: String,
}

impl PostCreatePlatformRequest {
    /// A platform name must run from 2 to 28 characters.
    pub open spec fn valid(self) -> bool {
        2 <= self.name@.len() <= 28
    }

    /// Check the name-length rule.
    pub fn validate(&self) -> (ok: bool)
        ensures
            ok == self.valid(),
    {
        broadcast use vstd::string::next_postcondition, vstd::string::axiom_spec_iter;

        let mut remaining_chars = self.name.as_str().chars();
        let mut counted: usize = 0;
        proof {
            assert(remaining_chars.remaining() =~= self.name@.skip(0));
        }
        while counted < 29
            invariant
                0 <= counted <= 29,
                counted <= self.name@.len(),
                remaining_chars.remaining() =~= self.name@.skip(counted as int),
            decreases 29 - counted,
        {
            let next_char = remaining_chars.next();
            if next_char.is_none() {
                return 2 <= counted && counted <= 28;
            }
            proof {
                assert(self.name@.skip(counted as int).drop_first() =~= self.name@.skip(
                    counted as int + 1));
            }
            counted += 1;
        }
        false
    }
}

/// A partial overwrite of a platform row: fields set to `Some` replace the
/// stored value, fields left `None` keep it.
pub struct UpdatePlatformData {
    pub name: Option<String>,
    pub api_key_hash: Option<String>,
}

/// The row that results from applying `update_data` to a stored row.
pub open spec fn updated_model(row: PlatformModel, update_data: &UpdatePlatformData) -> PlatformModel {
    PlatformModel {
        id: row.id,
        name: match update_data.name {
            Some(new_name) => new_name@,
            None => row.name,
        },
        api_key_hash: match update_data.api_key_hash {
            Some(new_hash) => new_hash@,
            None => row.api_key_hash,
        },
    }
}

/// The Unicode uppercase form of a string, used for case-insensitive name
/// matching.
pub uninterp spec fn upper_of(s: Seq<char>) -> Seq<char>;

/// Relies on str::to_uppercase: the Unicode uppercase form of the string,
/// a function of its characters alone.
#[verifier::external_body]
fn to_uppercase(s: &str) -> (upper: String)
    ensures
        upper@ == upper_of(s@),
{
    s.to_uppercase()
}

/// Case-insensitive equality of two names.
pub open spec fn names_match(a: Seq<char>, b: Seq<char>) -> bool {
    upper_of(a) == upper_of(b)
}

/// Index of the first row whose name matches `name` case insensitively,
/// or -1 when no row does.
pub open spec fn platform_name_index(rows: Seq<PlatformModel>, name: Seq<char>) -> int
    decreases rows.len(),
{
    if rows.len() == 0 {
        -1
    } else if names_match(rows[0].name, name) {
        0
    } else {
        let rest = platform_name_index(rows.drop_first(), name);
        if rest == -1 {
            -1
        } else {
            rest + 1
        }
    }
}

/// `platform_name_index` is a first-match scan, like `platform_index`.
pub proof fn lemma_platform_name_index_props(rows: Seq<PlatformModel>, name: Seq<char>)
    ensures
        -1 <= platform_name_index(rows, name) < rows.len(),
        platform_name_index(rows, name) == -1 ==> forall|j: int|
            0 <= j < rows.len() ==> !names_match((#[trigger] rows[j]).name, name),
        platform_name_index(rows, name) >= 0 ==> names_match(
            rows[platform_name_index(rows, name)].name,
            name,
        ),
        platform_name_index(rows, name) >= 0 ==> forall|j: int|
            0 <= j < platform_name_index(rows, name) ==> !names_match(
                (#[trigger] rows[j]).name,
                name,
            ),
    decreases rows.len(),
{
    if rows.len() == 0 {
    } else if names_match(rows[0].name, name) {
    } else {
        lemma_platform_name_index_props(rows.drop_first(), name);
        let rest = platform_name_index(rows.drop_first(), name);
        if rest == -1 {
            assert forall|j: int|
                0 <= j < rows.len() implies !names_match((#[trigger] rows[j]).name, name) by {
                if j >= 1 {
                    assert(rows.drop_first()[j - 1] == rows[j]);
                }
            }
        } else {
            assert(rows.drop_first()[rest] == rows[rest + 1]);
            assert forall|j: int|
                0 <= j < rest + 1 implies !names_match((#[trigger] rows[j]).name, name) by {
                if j >= 1 {
                    assert(rows.drop_first()[j - 1] == rows[j]);
                }
            }
        }
    }
}

} // verus!
