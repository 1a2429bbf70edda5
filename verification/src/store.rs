use vstd::prelude::*;

use crate::models::{ApiKey, KeyRequestDTO, Users};

verus! {

/// True when some stored user has this email.
pub open spec fn has_email(users: Seq<Users>, email: Seq<char>) -> bool {
    exists|i: int| 0 <= i < users.len() && (#[trigger] users[i]).email@ == email
}

/// The stored user with this email, when the store holds one.  The store
/// keeps emails unique, so at most one record matches.
pub open spec fn user_with_email(users: Seq<Users>, email: Seq<char>) -> Option<Users> {
    if has_email(users, email) {
        Some(users[choose|i: int| 0 <= i < users.len() && (#[trigger] users[i]).email@ == email])
    } else {
        None
    }
}

/// True when some stored user has this id.
pub open spec fn has_user_id(users: Seq<Users>, id: i32) -> bool {
    exists|i: int| 0 <= i < users.len() && (#[trigger] users[i]).id == id
}

/// True when some stored key has this key value.
pub open spec fn has_key_value(keys: Seq<ApiKey>, v: u128) -> bool {
    exists|i: int| 0 <= i < keys.len() && (#[trigger] keys[i]).key_value == v
}

/// The stored key with this key value, when the store holds one.  The store
/// keeps key values unique, so at most one record matches.
pub open spec fn key_with_value(keys: Seq<ApiKey>, v: u128) -> Option<ApiKey> {
    if has_key_value(keys, v) {
        Some(keys[choose|i: int| 0 <= i < keys.len() && (#[trigger] keys[i]).key_value == v])
    } else {
        None
    }
}

/// True when some stored key has this id.
pub open spec fn has_key_id(keys: Seq<ApiKey>, id: i32) -> bool {
    exists|i: int| 0 <= i < keys.len() && (#[trigger] keys[i]).id == id
}

/// The keys owned by one user, in store order.
pub open spec fn keys_of_user(keys: Seq<ApiKey>, uid: i32) -> Seq<ApiKey> {
    keys.filter(|k: ApiKey| k.user_id == uid)
}

/// The usage records of one key, in store order.
pub open spec fn requests_of_key(reqs: Seq<KeyRequestDTO>, kid: i32) -> Seq<KeyRequestDTO> {
    reqs.filter(|r: KeyRequestDTO| r.api_key_id == kid)
}

/// All keys, with the enabled flag of the key holding this value set to
/// `enabled` and every other key unchanged.
pub open spec fn set_enabled(keys: Seq<ApiKey>, v: u128, enabled: bool) -> Seq<ApiKey> {
    keys.map_values(
        |k: ApiKey|
            if k.key_value == v {
                (ApiKey { is_enabled: enabled, ..k })
            } else {
                k
            },
    )
}

/// The rows a left outer join contributes for one key: one row per usage
/// record of the key, or a single row with an absent record when the key
/// has never been used.
pub open spec fn rows_for_key(k: ApiKey, reqs: Seq<KeyRequestDTO>) -> Seq<
    (ApiKey, Option<KeyRequestDTO>),
> {
    let used = requests_of_key(reqs, k.id).map_values(|r: KeyRequestDTO| (k, Some(r)));
    if used.len() == 0 {
        seq![(k, None)]
    } else {
        used
    }
}

/// The left outer join of a sequence of keys with the usage log: every key
/// appears even when it has no usage record.
pub open spec fn left_join(keys: Seq<ApiKey>, reqs: Seq<KeyRequestDTO>) -> Seq<
    (ApiKey, Option<KeyRequestDTO>),
>
    decreases keys.len(),
{
    if keys.len() == 0 {
        Seq::empty()
    } else {
        left_join(keys.drop_last(), reqs) + rows_for_key(keys.last(), reqs)
    }
}

/// With pairwise distinct emails, the user found by email is the one at any
/// matching index.
pub proof fn lemma_user_with_email_at(users: Seq<Users>, email: Seq<char>, i: int)
    requires
        forall|a: int, b: int|
            0 <= a < b < users.len() ==> (#[trigger] users[a]).email@ != (
            #[trigger] users[b]).email@,
        0 <= i < users.len(),
        users[i].email@ == email,
    ensures
        has_email(users, email),
        user_with_email(users, email) == Some(users[i]),
{
    assert(has_email(users, email)) by {
        assert((users[i]).email@ == email);
    }
    let j = choose|j: int| 0 <= j < users.len() && (#[trigger] users[j]).email@ == email;
    if i < j {
        assert(users[i].email@ != users[j].email@);
    } else if j < i {
        assert(users[j].email@ != users[i].email@);
    }
}

/// With pairwise distinct key values, the key found by value is the one at
/// any matching index.
pub proof fn lemma_key_with_value_at(keys: Seq<ApiKey>, v: u128, i: int)
    requires
        forall|a: int, b: int|
            0 <= a < b < keys.len() ==> (#[trigger] keys[a]).key_value != (
            #[trigger] keys[b]).key_value,
        0 <= i < keys.len(),
        keys[i].key_value == v,
    ensures
        has_key_value(keys, v),
        key_with_value(keys, v) == Some(keys[i]),
{
    assert(has_key_value(keys, v)) by {
        assert((keys[i]).key_value == v);
    }
    let j = choose|j: int| 0 <= j < keys.len() && (#[trigger] keys[j]).key_value == v;
    if i < j {
        assert(keys[i].key_value != keys[j].key_value);
    } else if j < i {
        assert(keys[j].key_value != keys[i].key_value);
    }
}

/// The relational store: users, API keys and usage records, plus the next
/// surrogate id of each table.
pub struct Db {
    pub users: Vec<Users>,
    pub api_keys: Vec<ApiKey>,
    pub key_requests: Vec<KeyRequestDTO>,
    pub next_user_id: i32,
    pub next_api_key_id: i32,
    pub next_request_id: i32,
}

impl Db {
    /// Well-formedness of the store: ids are unique and below the table's
    /// next id, emails and key values are unique, and every foreign
    /// reference resolves.
    pub open spec fn wf(self) -> bool {
        &&& 1 <= self.next_user_id
        &&& 1 <= self.next_api_key_id
        &&& 1 <= self.next_request_id
        &&& forall|i: int|
            0 <= i < self.users@.len() ==> 1 <= (#[trigger] self.users@[i]).id
                < self.next_user_id
        &&& forall|i: int, j: int|
            0 <= i < j < self.users@.len() ==> (#[trigger] self.users@[i]).id
                != (#[trigger] self.users@[j]).id
        &&& forall|i: int, j: int|
            0 <= i < j < self.users@.len() ==> (#[trigger] self.users@[i]).email@
                != (#[trigger] self.users@[j]).email@
        &&& forall|i: int|
            0 <= i < self.api_keys@.len() ==> 1 <= (#[trigger] self.api_keys@[i]).id
                < self.next_api_key_id
        &&& forall|i: int, j: int|
            0 <= i < j < self.api_keys@.len() ==> (#[trigger] self.api_keys@[i]).id
                != (#[trigger] self.api_keys@[j]).id
        &&& forall|i: int, j: int|
            0 <= i < j < self.api_keys@.len() ==> (#[trigger] self.api_keys@[i]).key_value
                != (#[trigger] self.api_keys@[j]).key_value
        &&& forall|i: int|
            0 <= i < self.api_keys@.len() ==> has_user_id(
                self.users@,
                (#[trigger] self.api_keys@[i]).user_id,
            )
        &&& forall|i: int|
            0 <= i < self.key_requests@.len() ==> 1 <= (#[trigger] self.key_requests@[i]).id
                < self.next_request_id
        &&& forall|i: int, j: int|
            0 <= i < j < self.key_requests@.len() ==> (#[trigger] self.key_requests@[i]).id
                != (#[trigger] self.key_requests@[j]).id
        &&& forall|i: int|
            0 <= i < self.key_requests@.len() ==> has_key_id(
                self.api_keys@,
                (#[trigger] self.key_requests@[i]).api_key_id,
            )
    }

    /// An empty store.
    pub fn new() -> (db: Db)
        ensures
            db.wf(),
            db.users@.len() == 0,
            db.api_keys@.len() == 0,
            db.key_requests@.len() == 0,
            db.next_user_id == 1,
            db.next_api_key_id == 1,
            db.next_request_id == 1,
    {
        Db {
            users: Vec::new(),
            api_keys: Vec::new(),
            key_requests: Vec::new(),
            next_user_id: 1,
            next_api_key_id: 1,
            next_request_id: 1,
        }
    }
}

} // verus!
