use vstd::prelude::*;

use crate::models::{ApiError, ApiKey, KeyRequestDTO, NewApiKey, NewKeyRequest, NewUser, Users};
use crate::store::{
    has_email, has_key_id, has_key_value, has_user_id, key_with_value, keys_of_user,
    left_join, lemma_key_with_value_at, lemma_user_with_email_at, requests_of_key, rows_for_key,
    user_with_email, Db,
};

verus! {

broadcast use vstd::seq_lib::group_filter_ensures, crate::seqtools::lemma_filter_push;

/// Two user records that agree on every field; the salts are compared by
/// their contents.
pub open spec fn user_like(a: Users, b: Users) -> bool {
    &&& a.id == b.id
    &&& a.email == b.email
    &&& a.pw_hash == b.pw_hash
    &&& a.salt@ == b.salt@
}

/// A byte-for-byte copy of a buffer.
fn copy_bytes(v: &Vec<u8>) -> (r: Vec<u8>)
    ensures
        r@ == v@,
{
    let mut out: Vec<u8> = Vec::new();
    let mut i: usize = 0;
    while i < v.len()
        invariant
            i <= v@.len(),
            out@ == v@.subrange(0, i as int),
        decreases v@.len() - i,
    {
        out.push(v[i]);
        proof {
            assert(out@ =~= v@.subrange(0, i + 1 as int));
        }
        i += 1;
    }
    proof {
        assert(v@.subrange(0, v@.len() as int) =~= v@);
    }
    out
}

/// The position of the user with this email, if the store holds one.
fn find_user_index(users: &Vec<Users>, email: &String) -> (r: Option<usize>)
    ensures
        r matches Some(i) ==> i < users@.len() && users@[i as int].email@ == email@,
        r is None ==> !has_email(users@, email@),
{
    let mut i: usize = 0;
    while i < users.len()
        invariant
            i <= users@.len(),
            forall|m: int| 0 <= m < i ==> (#[trigger] users@[m]).email@ != email@,
        decreases users@.len() - i,
    {
        if users[i].email == *email {
            return Some(i);
        }
        i += 1;
    }
    None
}

/// The position of the key with this value, if the store holds one.
fn find_key_index(keys: &Vec<ApiKey>, v: u128) -> (r: Option<usize>)
    ensures
        r matches Some(i) ==> i < keys@.len() && keys@[i as int].key_value == v,
        r is None ==> !has_key_value(keys@, v),
{
    let mut i: usize = 0;
    while i < keys.len()
        invariant
            i <= keys@.len(),
            forall|m: int| 0 <= m < i ==> (#[trigger] keys@[m]).key_value != v,
        decreases keys@.len() - i,
    {
        if keys[i].key_value == v {
            return Some(i);
        }
        i += 1;
    }
    None
}

/// Whether the store holds a key with this value.
fn contains_key_value(keys: &Vec<ApiKey>, v: u128) -> (r: bool)
    ensures
        r == has_key_value(keys@, v),
{
    match find_key_index(keys, v) {
        Some(_) => true,
        None => false,
    }
}

/// Whether the store holds a key with this id.
fn contains_key_id(keys: &Vec<ApiKey>, id: i32) -> (r: bool)
    ensures
        r == has_key_id(keys@, id),
{
    let mut i: usize = 0;
    while i < keys.len()
        invariant
            i <= keys@.len(),
            forall|m: int| 0 <= m < i ==> (#[trigger] keys@[m]).id != id,
        decreases keys@.len() - i,
    {
        if keys[i].id == id {
            return true;
        }
        i += 1;
    }
    false
}

/// Inserts a user record.  Fails with `ConstraintViolation` if the email
/// already exists, and with `InternalError` if the id space is exhausted;
/// otherwise appends the record with the next user id and returns it.
pub fn create_user(
    conn: &mut Db,
    email_input: String,
    pw_hash_input: String,
    salt_input: Vec<u8>,
) -> (r: Result<NewUser, ApiError>)
    requires
        old(conn).wf(),
    ensures
        final(conn).wf(),
        has_email(old(conn).users@, email_input@) ==> r == Err::<NewUser, ApiError>(
            ApiError::ConstraintViolation,
        ) && *final(conn) == *old(conn),
        !has_email(old(conn).users@, email_input@) && old(conn).next_user_id == i32::MAX ==> r
            == Err::<NewUser, ApiError>(ApiError::InternalError) && *final(conn) == *old(conn),
        !has_email(old(conn).users@, email_input@) && old(conn).next_user_id < i32::MAX ==> ({
            &&& r is Ok
            &&& (r->Ok_0).email == email_input
            &&& (r->Ok_0).pw_hash == pw_hash_input
            &&& (r->Ok_0).salt@ == salt_input@
            &&& final(conn).users@ == old(conn).users@.push(
                Users {
                    id: old(conn).next_user_id,
                    email: email_input,
                    pw_hash: pw_hash_input,
                    salt: salt_input,
                },
            )
            &&& final(conn).next_user_id == old(conn).next_user_id + 1
            &&& final(conn).api_keys == old(conn).api_keys
            &&& final(conn).key_requests == old(conn).key_requests
            &&& final(conn).next_api_key_id == old(conn).next_api_key_id
            &&& final(conn).next_request_id == old(conn).next_request_id
        }),
{
    match find_user_index(&conn.users, &email_input) {
        Some(_) => Err(ApiError::ConstraintViolation),
        None => {
            if conn.next_user_id == i32::MAX {
                return Err(ApiError::InternalError);
            }
            let nu = NewUser {
                email: email_input.clone(),
                pw_hash: pw_hash_input.clone(),
                salt: copy_bytes(&salt_input),
            };
            let rec = Users {
                id: conn.next_user_id,
                email: email_input,
                pw_hash: pw_hash_input,
                salt: salt_input,
            };
            conn.users.push(rec);
            conn.next_user_id = conn.next_user_id + 1;
            proof {
                assert forall|i: int| 0 <= i < conn.api_keys@.len() implies has_user_id(
                    conn.users@,
                    (#[trigger] conn.api_keys@[i]).user_id,
                ) by {
                    let id = conn.api_keys@[i].user_id;
                    assert(has_user_id(old(conn).users@, id));
                    let w = choose|w: int|
                        0 <= w < old(conn).users@.len() && (#[trigger] old(
                            conn,
                        ).users@[w]).id == id;
                    assert(conn.users@[w].id == id);
                }
            }
            Ok(nu)
        },
    }
}

/// Looks a user up by exact email match; an absent user is not an error.
pub fn find_user(conn: &Db, input_email: &String) -> (r: Result<Option<Users>, ApiError>)
    requires
        conn.wf(),
    ensures
        r is Ok,
        (r->Ok_0) is Some <==> has_email(conn.users@, input_email@),
        (r->Ok_0) matches Some(u) ==> user_like(
            u,
            user_with_email(conn.users@, input_email@).unwrap(),
        ),
{
    match find_user_index(&conn.users, input_email) {
        Some(i) => {
            proof {
                lemma_user_with_email_at(conn.users@, input_email@, i as int);
            }
            let u = &conn.users[i];
            Ok(
                Some(
                    Users {
                        id: u.id,
                        email: u.email.clone(),
                        pw_hash: u.pw_hash.clone(),
                        salt: copy_bytes(&u.salt),
                    },
                ),
            )
        },
        None => Ok(None),
    }
}

/// Looks a key up by its value; an absent key is not an error.
pub fn get_single_api_key(conn: &Db, input_key: u128) -> (r: Result<Option<ApiKey>, ApiError>)
    requires
        conn.wf(),
    ensures
        r == Ok::<Option<ApiKey>, ApiError>(key_with_value(conn.api_keys@, input_key)),
{
    match find_key_index(&conn.api_keys, input_key) {
        Some(i) => {
            proof {
                lemma_key_with_value_at(conn.api_keys@, input_key, i as int);
            }
            Ok(Some(conn.api_keys[i]))
        },
        None => Ok(None),
    }
}

/// Sets the enabled flag of the key holding this value.  Fails with
/// `NotFound` when no key matches; a flip to the state the key is already
/// in succeeds and changes nothing.
#[verifier::loop_isolation(false)]
fn set_key_enabled(conn: &mut Db, input_key: u128, enabled: bool) -> (r: Result<u128, ApiError>)
    requires
        old(conn).wf(),
    ensures
        final(conn).wf(),
        !has_key_value(old(conn).api_keys@, input_key) ==> r == Err::<u128, ApiError>(
            ApiError::NotFound,
        ) && *final(conn) == *old(conn),
        has_key_value(old(conn).api_keys@, input_key) ==> ({
            &&& r == Ok::<u128, ApiError>(input_key)
            &&& final(conn).api_keys@ == crate::store::set_enabled(
                old(conn).api_keys@,
                input_key,
                enabled,
            )
            &&& final(conn).users == old(conn).users
            &&& final(conn).key_requests == old(conn).key_requests
            &&& final(conn).next_user_id == old(conn).next_user_id
            &&& final(conn).next_api_key_id == old(conn).next_api_key_id
            &&& final(conn).next_request_id == old(conn).next_request_id
        }),
{
    let ghost target = crate::store::set_enabled(old(conn).api_keys@, input_key, enabled);
    let n = conn.api_keys.len();
    let mut i: usize = 0;
    let mut found: bool = false;
    while i < n
        invariant
            i <= n,
            n == conn.api_keys@.len(),
            conn.users == old(conn).users,
            conn.key_requests == old(conn).key_requests,
            conn.next_user_id == old(conn).next_user_id,
            conn.next_api_key_id == old(conn).next_api_key_id,
            conn.next_request_id == old(conn).next_request_id,
            target == crate::store::set_enabled(old(conn).api_keys@, input_key, enabled),
            forall|m: int| i <= m < n ==> conn.api_keys@[m] == old(conn).api_keys@[m],
            forall|m: int| 0 <= m < i ==> conn.api_keys@[m] == target[m],
            found <==> exists|m: int|
                0 <= m < i && (#[trigger] old(conn).api_keys@[m]).key_value == input_key,
            !found ==> conn.api_keys == old(conn).api_keys,
        decreases n - i,
    {
        if conn.api_keys[i].key_value == input_key {
            let k = conn.api_keys[i];
            conn.api_keys[i] = (ApiKey { is_enabled: enabled, ..k });
            found = true;
            proof {
                assert((old(conn).api_keys@[i as int]).key_value == input_key);
            }
        }
        i += 1;
    }
    proof {
        if found {
            assert(conn.api_keys@ =~= target);
        }
        assert forall|m: int| 0 <= m < conn.api_keys@.len() implies (#[trigger] conn.api_keys@[m]).id
            == old(conn).api_keys@[m].id && conn.api_keys@[m].key_value
            == old(conn).api_keys@[m].key_value && conn.api_keys@[m].user_id
            == old(conn).api_keys@[m].user_id by {}
        assert forall|m: int| 0 <= m < conn.api_keys@.len() implies has_user_id(
            conn.users@,
            (#[trigger] conn.api_keys@[m]).user_id,
        ) by {
            assert(has_user_id(old(conn).users@, old(conn).api_keys@[m].user_id));
        }
        assert forall|m: int| 0 <= m < conn.key_requests@.len() implies has_key_id(
            conn.api_keys@,
            (#[trigger] conn.key_requests@[m]).api_key_id,
        ) by {
            let id = conn.key_requests@[m].api_key_id;
            assert(has_key_id(old(conn).api_keys@, id));
            let w = choose|w: int|
                0 <= w < old(conn).api_keys@.len() && (#[trigger] old(conn).api_keys@[w]).id == id;
            assert(conn.api_keys@[w].id == id);
        }
    }
    if found {
        Ok(input_key)
    } else {
        proof {
            assert(!has_key_value(old(conn).api_keys@, input_key));
        }
        Err(ApiError::NotFound)
    }
}

/// Disables the key holding this value; fails with `NotFound` when no key
/// matches, and is idempotent otherwise.
pub fn disable_api_key(conn: &mut Db, input_key: u128) -> (r: Result<u128, ApiError>)
    requires
        old(conn).wf(),
    ensures
        final(conn).wf(),
        !has_key_value(old(conn).api_keys@, input_key) ==> r == Err::<u128, ApiError>(
            ApiError::NotFound,
        ) && *final(conn) == *old(conn),
        has_key_value(old(conn).api_keys@, input_key) ==> ({
            &&& r == Ok::<u128, ApiError>(input_key)
            &&& final(conn).api_keys@ == crate::store::set_enabled(
                old(conn).api_keys@,
                input_key,
                false,
            )
            &&& final(conn).users == old(conn).users
            &&& final(conn).key_requests == old(conn).key_requests
            &&& final(conn).next_user_id == old(conn).next_user_id
            &&& final(conn).next_api_key_id == old(conn).next_api_key_id
            &&& final(conn).next_request_id == old(conn).next_request_id
        }),
{
    set_key_enabled(conn, input_key, false)
}

/// Enables the key holding this value; fails with `NotFound` when no key
/// matches, and is idempotent otherwise.
pub fn enable_api_key(conn: &mut Db, input_key: u128) -> (r: Result<u128, ApiError>)
    requires
        old(conn).wf(),
    ensures
        final(conn).wf(),
        !has_key_value(old(conn).api_keys@, input_key) ==> r == Err::<u128, ApiError>(
            ApiError::NotFound,
        ) && *final(conn) == *old(conn),
        has_key_value(old(conn).api_keys@, input_key) ==> ({
            &&& r == Ok::<u128, ApiError>(input_key)
            &&& final(conn).api_keys@ == crate::store::set_enabled(
                old(conn).api_keys@,
                input_key,
                true,
            )
            &&& final(conn).users == old(conn).users
            &&& final(conn).key_requests == old(conn).key_requests
            &&& final(conn).next_user_id == old(conn).next_user_id
            &&& final(conn).next_api_key_id == old(conn).next_api_key_id
            &&& final(conn).next_request_id == old(conn).next_request_id
        }),
{
    set_key_enabled(conn, input_key, true)
}

/// Inserts a key with this value for the user with this email, enabled from
/// the start.  Fails with `PreconditionFailed` when the owning user does
/// not exist, with `ConstraintViolation` when the value is already issued
/// (key values are globally unique), and with `InternalError` when the id
/// space is exhausted.
pub fn create_api_key_with_value(conn: &mut Db, input_email: &String, val: u128) -> (r: Result<
    NewApiKey,
    ApiError,
>)
    requires
        old(conn).wf(),
    ensures
        final(conn).wf(),
        !has_email(old(conn).users@, input_email@) ==> r == Err::<NewApiKey, ApiError>(
            ApiError::PreconditionFailed,
        ) && *final(conn) == *old(conn),
        has_email(old(conn).users@, input_email@) && has_key_value(old(conn).api_keys@, val) ==> r
            == Err::<NewApiKey, ApiError>(ApiError::ConstraintViolation) && *final(conn) == *old(
            conn,
        ),
        has_email(old(conn).users@, input_email@) && !has_key_value(old(conn).api_keys@, val)
            && old(conn).next_api_key_id == i32::MAX ==> r == Err::<NewApiKey, ApiError>(
            ApiError::InternalError,
        ) && *final(conn) == *old(conn),
        has_email(old(conn).users@, input_email@) && !has_key_value(old(conn).api_keys@, val)
            && old(conn).next_api_key_id < i32::MAX ==> ({
            &&& r is Ok
            &&& (r->Ok_0) == (NewApiKey {
                user_id: user_with_email(old(conn).users@, input_email@).unwrap().id,
                key_value: val,
                is_enabled: true,
            })
            &&& final(conn).api_keys@ == old(conn).api_keys@.push(
                ApiKey {
                    id: old(conn).next_api_key_id,
                    user_id: (r->Ok_0).user_id,
                    key_value: val,
                    is_enabled: true,
                },
            )
            &&& final(conn).next_api_key_id == old(conn).next_api_key_id + 1
            &&& final(conn).users == old(conn).users
            &&& final(conn).key_requests == old(conn).key_requests
            &&& final(conn).next_user_id == old(conn).next_user_id
            &&& final(conn).next_request_id == old(conn).next_request_id
        }),
{
    let uid: i32;
    match find_user_index(&conn.users, input_email) {
        None => {
            return Err(ApiError::PreconditionFailed);
        },
        Some(i) => {
            proof {
                lemma_user_with_email_at(conn.users@, input_email@, i as int);
            }
            uid = conn.users[i].id;
        },
    }
    if contains_key_value(&conn.api_keys, val) {
        return Err(ApiError::ConstraintViolation);
    }
    if conn.next_api_key_id == i32::MAX {
        return Err(ApiError::InternalError);
    }
    let rec = ApiKey { id: conn.next_api_key_id, user_id: uid, key_value: val, is_enabled: true };
    conn.api_keys.push(rec);
    conn.next_api_key_id = conn.next_api_key_id + 1;
    proof {
        assert forall|i: int| 0 <= i < conn.key_requests@.len() implies has_key_id(
            conn.api_keys@,
            (#[trigger] conn.key_requests@[i]).api_key_id,
        ) by {
            let id = conn.key_requests@[i].api_key_id;
            assert(has_key_id(old(conn).api_keys@, id));
            let w = choose|w: int|
                0 <= w < old(conn).api_keys@.len() && (#[trigger] old(conn).api_keys@[w]).id == id;
            assert(conn.api_keys@[w].id == id);
        }
        assert(has_user_id(conn.users@, uid));
    }
    Ok(NewApiKey { user_id: uid, key_value: val, is_enabled: true })
}

/// Creates a key for the user with this email: a freshly drawn random key
/// value, enabled from the start.  Fails with `PreconditionFailed` when the
/// owning user does not exist, with `InternalError` when the id space is
/// exhausted, and with `ConstraintViolation` in the negligible case that
/// the drawn value is already issued; on success the returned key value was
/// never issued before.
pub fn create_new_api_key(conn: &mut Db, input_email: &String) -> (r: Result<NewApiKey, ApiError>)
    requires
        old(conn).wf(),
    ensures
        final(conn).wf(),
        !has_email(old(conn).users@, input_email@) ==> r == Err::<NewApiKey, ApiError>(
            ApiError::PreconditionFailed,
        ) && *final(conn) == *old(conn),
        has_email(old(conn).users@, input_email@) && old(conn).next_api_key_id == i32::MAX ==> (r
            == Err::<NewApiKey, ApiError>(ApiError::InternalError) || r == Err::<
            NewApiKey,
            ApiError,
        >(ApiError::ConstraintViolation)) && *final(conn) == *old(conn),
        has_email(old(conn).users@, input_email@) && old(conn).next_api_key_id < i32::MAX ==> ({
            ||| r == Err::<NewApiKey, ApiError>(ApiError::ConstraintViolation) && *final(conn)
                == *old(conn)
            ||| ({
                &&& r is Ok
                &&& (r->Ok_0).user_id == user_with_email(
                    old(conn).users@,
                    input_email@,
                ).unwrap().id
                &&& (r->Ok_0).is_enabled
                &&& !has_key_value(old(conn).api_keys@, (r->Ok_0).key_value)
                &&& final(conn).api_keys@ == old(conn).api_keys@.push(
                    ApiKey {
                        id: old(conn).next_api_key_id,
                        user_id: (r->Ok_0).user_id,
                        key_value: (r->Ok_0).key_value,
                        is_enabled: true,
                    },
                )
                &&& final(conn).next_api_key_id == old(conn).next_api_key_id + 1
                &&& final(conn).users == old(conn).users
                &&& final(conn).key_requests == old(conn).key_requests
                &&& final(conn).next_user_id == old(conn).next_user_id
                &&& final(conn).next_request_id == old(conn).next_request_id
            })
        }),
{
    let val = crate::capabilities::new_key_value();
    create_api_key_with_value(conn, input_email, val)
}

/// Appends a usage record for the key holding this value, stamped with the
/// current time.  Fails with `PreconditionFailed` when the key does not
/// resolve, and with `InternalError` when the id space is exhausted.
pub fn save_api_request(conn: &mut Db, input_key: u128) -> (r: Result<NewKeyRequest, ApiError>)
    requires
        old(conn).wf(),
    ensures
        final(conn).wf(),
        !has_key_value(old(conn).api_keys@, input_key) ==> r == Err::<NewKeyRequest, ApiError>(
            ApiError::PreconditionFailed,
        ) && *final(conn) == *old(conn),
        has_key_value(old(conn).api_keys@, input_key) && old(conn).next_request_id == i32::MAX
            ==> r == Err::<NewKeyRequest, ApiError>(ApiError::InternalError) && *final(conn)
            == *old(conn),
        has_key_value(old(conn).api_keys@, input_key) && old(conn).next_request_id < i32::MAX
            ==> ({
            &&& r is Ok
            &&& (r->Ok_0).api_key_id == key_with_value(
                old(conn).api_keys@,
                input_key,
            ).unwrap().id
            &&& final(conn).key_requests@ == old(conn).key_requests@.push(
                KeyRequestDTO {
                    id: old(conn).next_request_id,
                    api_key_id: (r->Ok_0).api_key_id,
                    date_time: (r->Ok_0).date_time,
                },
            )
            &&& final(conn).next_request_id == old(conn).next_request_id + 1
            &&& final(conn).users == old(conn).users
            &&& final(conn).api_keys == old(conn).api_keys
            &&& final(conn).next_user_id == old(conn).next_user_id
            &&& final(conn).next_api_key_id == old(conn).next_api_key_id
        }),
{
    let kid: i32;
    match find_key_index(&conn.api_keys, input_key) {
        None => {
            return Err(ApiError::PreconditionFailed);
        },
        Some(i) => {
            proof {
                lemma_key_with_value_at(conn.api_keys@, input_key, i as int);
            }
            kid = conn.api_keys[i].id;
        },
    }
    if conn.next_request_id == i32::MAX {
        return Err(ApiError::InternalError);
    }
    let ts = crate::capabilities::now_timestamp();
    let rec = KeyRequestDTO { id: conn.next_request_id, api_key_id: kid, date_time: ts };
    conn.key_requests.push(rec);
    conn.next_request_id = conn.next_request_id + 1;
    proof {
        assert(has_key_id(conn.api_keys@, kid));
    }
    Ok(NewKeyRequest { api_key_id: kid, date_time: ts })
}

/// Removes every user whose email matches, in place.
#[verifier::loop_isolation(false)]
fn retain_users_not_email(users: &mut Vec<Users>, email: &String)
    ensures
        final(users)@ == old(users)@.filter(|u: Users| u.email@ != email@),
{
    let ghost orig = old(users)@;
    let mut i: usize = 0;
    let ghost mut j: int = 0;
    while i < users.len()
        invariant
            0 <= j <= orig.len(),
            i == orig.subrange(0, j).filter(|u: Users| u.email@ != email@).len(),
            users@ == orig.subrange(0, j).filter(|u: Users| u.email@ != email@) + orig.subrange(
                j,
                orig.len() as int,
            ),
        decreases orig.len() - j,
    {
        proof {
            assert(users@[i as int] == orig[j]);
            assert(orig.subrange(0, j + 1) =~= orig.subrange(0, j).push(orig[j]));
        }
        if users[i].email == *email {
            users.remove(i);
            proof {
                assert(users@ =~= orig.subrange(0, j + 1).filter(|u: Users| u.email@ != email@)
                    + orig.subrange(j + 1, orig.len() as int));
            }
        } else {
            i += 1;
            proof {
                assert(users@ =~= orig.subrange(0, j + 1).filter(|u: Users| u.email@ != email@)
                    + orig.subrange(j + 1, orig.len() as int));
            }
        }
        proof {
            j = j + 1;
        }
    }
    proof {
        assert(j == orig.len());
        assert(orig.subrange(0, orig.len() as int) =~= orig);
        assert(users@ =~= orig.filter(|u: Users| u.email@ != email@));
    }
}

/// Removes every key owned by this user, in place.
#[verifier::loop_isolation(false)]
fn retain_keys_not_user(keys: &mut Vec<ApiKey>, uid: i32)
    ensures
        final(keys)@ == old(keys)@.filter(|k: ApiKey| k.user_id != uid),
{
    let ghost orig = old(keys)@;
    let mut i: usize = 0;
    let ghost mut j: int = 0;
    while i < keys.len()
        invariant
            0 <= j <= orig.len(),
            i == orig.subrange(0, j).filter(|k: ApiKey| k.user_id != uid).len(),
            keys@ == orig.subrange(0, j).filter(|k: ApiKey| k.user_id != uid) + orig.subrange(
                j,
                orig.len() as int,
            ),
        decreases orig.len() - j,
    {
        proof {
            assert(keys@[i as int] == orig[j]);
            assert(orig.subrange(0, j + 1) =~= orig.subrange(0, j).push(orig[j]));
        }
        if keys[i].user_id == uid {
            keys.remove(i);
            proof {
                assert(keys@ =~= orig.subrange(0, j + 1).filter(|k: ApiKey| k.user_id != uid)
                    + orig.subrange(j + 1, orig.len() as int));
            }
        } else {
            i += 1;
            proof {
                assert(keys@ =~= orig.subrange(0, j + 1).filter(|k: ApiKey| k.user_id != uid)
                    + orig.subrange(j + 1, orig.len() as int));
            }
        }
        proof {
            j = j + 1;
        }
    }
    proof {
        assert(j == orig.len());
        assert(orig.subrange(0, orig.len() as int) =~= orig);
        assert(keys@ =~= orig.filter(|k: ApiKey| k.user_id != uid));
    }
}

/// Removes every key with this value, in place.
#[verifier::loop_isolation(false)]
fn retain_keys_not_value(keys: &mut Vec<ApiKey>, v: u128)
    ensures
        final(keys)@ == old(keys)@.filter(|k: ApiKey| k.key_value != v),
{
    let ghost orig = old(keys)@;
    let mut i: usize = 0;
    let ghost mut j: int = 0;
    while i < keys.len()
        invariant
            0 <= j <= orig.len(),
            i == orig.subrange(0, j).filter(|k: ApiKey| k.key_value != v).len(),
            keys@ == orig.subrange(0, j).filter(|k: ApiKey| k.key_value != v) + orig.subrange(
                j,
                orig.len() as int,
            ),
        decreases orig.len() - j,
    {
        proof {
            assert(keys@[i as int] == orig[j]);
            assert(orig.subrange(0, j + 1) =~= orig.subrange(0, j).push(orig[j]));
        }
        if keys[i].key_value == v {
            keys.remove(i);
            proof {
                assert(keys@ =~= orig.subrange(0, j + 1).filter(|k: ApiKey| k.key_value != v)
                    + orig.subrange(j + 1, orig.len() as int));
            }
        } else {
            i += 1;
            proof {
                assert(keys@ =~= orig.subrange(0, j + 1).filter(|k: ApiKey| k.key_value != v)
                    + orig.subrange(j + 1, orig.len() as int));
            }
        }
        proof {
            j = j + 1;
        }
    }
    proof {
        assert(j == orig.len());
        assert(orig.subrange(0, orig.len() as int) =~= orig);
        assert(keys@ =~= orig.filter(|k: ApiKey| k.key_value != v));
    }
}

/// Removes every usage record whose key is no longer stored, in place.
#[verifier::loop_isolation(false)]
fn retain_requests_resolving(reqs: &mut Vec<KeyRequestDTO>, keys: &Vec<ApiKey>)
    ensures
        final(reqs)@ == old(reqs)@.filter(
            |q: KeyRequestDTO| has_key_id(keys@, q.api_key_id),
        ),
{
    let ghost orig = old(reqs)@;
    let mut i: usize = 0;
    let ghost mut j: int = 0;
    while i < reqs.len()
        invariant
            0 <= j <= orig.len(),
            i == orig.subrange(0, j).filter(
                |q: KeyRequestDTO| has_key_id(keys@, q.api_key_id),
            ).len(),
            reqs@ == orig.subrange(0, j).filter(
                |q: KeyRequestDTO| has_key_id(keys@, q.api_key_id),
            ) + orig.subrange(j, orig.len() as int),
        decreases orig.len() - j,
    {
        proof {
            assert(reqs@[i as int] == orig[j]);
            assert(orig.subrange(0, j + 1) =~= orig.subrange(0, j).push(orig[j]));
        }
        let resolves = contains_key_id(keys, reqs[i].api_key_id);
        if !resolves {
            reqs.remove(i);
            proof {
                assert(reqs@ =~= orig.subrange(0, j + 1).filter(
                    |q: KeyRequestDTO| has_key_id(keys@, q.api_key_id),
                ) + orig.subrange(j + 1, orig.len() as int));
            }
        } else {
            i += 1;
            proof {
                assert(reqs@ =~= orig.subrange(0, j + 1).filter(
                    |q: KeyRequestDTO| has_key_id(keys@, q.api_key_id),
                ) + orig.subrange(j + 1, orig.len() as int));
            }
        }
        proof {
            j = j + 1;
        }
    }
    proof {
        assert(j == orig.len());
        assert(orig.subrange(0, orig.len() as int) =~= orig);
        assert(reqs@ =~= orig.filter(|q: KeyRequestDTO| has_key_id(keys@, q.api_key_id)));
    }
}

/// Deletes the key holding this value and, to keep referential integrity,
/// every usage record that referenced it.  Fails with `NotFound` when no
/// key matches.
pub fn delete_api_key(conn: &mut Db, input_key: u128) -> (r: Result<u128, ApiError>)
    requires
        old(conn).wf(),
    ensures
        final(conn).wf(),
        !has_key_value(old(conn).api_keys@, input_key) ==> r == Err::<u128, ApiError>(
            ApiError::NotFound,
        ) && *final(conn) == *old(conn),
        has_key_value(old(conn).api_keys@, input_key) ==> ({
            &&& r == Ok::<u128, ApiError>(input_key)
            &&& final(conn).api_keys@ == old(conn).api_keys@.filter(
                |k: ApiKey| k.key_value != input_key,
            )
            &&& final(conn).key_requests@ == old(conn).key_requests@.filter(
                |q: KeyRequestDTO| has_key_id(final(conn).api_keys@, q.api_key_id),
            )
            &&& final(conn).users == old(conn).users
            &&& final(conn).next_user_id == old(conn).next_user_id
            &&& final(conn).next_api_key_id == old(conn).next_api_key_id
            &&& final(conn).next_request_id == old(conn).next_request_id
        }),
{
    if !contains_key_value(&conn.api_keys, input_key) {
        return Err(ApiError::NotFound);
    }
    retain_keys_not_value(&mut conn.api_keys, input_key);
    retain_requests_resolving(&mut conn.key_requests, &conn.api_keys);
    proof {
        let kf = |k: ApiKey| k.key_value != input_key;
        crate::seqtools::lemma_filter_distinct_by(old(conn).api_keys@, kf, |k: ApiKey| k.id);
        assert forall|i: int| 0 <= i < conn.users@.len() implies exists|w: int|
            0 <= w < old(conn).users@.len() && old(conn).users@[w] == (
            #[trigger] conn.users@[i]) by {
            assert(old(conn).users@[i] == conn.users@[i]);
        }
        lemma_keys_filter_wf(*old(conn), *conn, kf);
        assert forall|m: int| 0 <= m < conn.api_keys@.len() implies has_user_id(
            conn.users@,
            (#[trigger] conn.api_keys@[m]).user_id,
        ) by {
            assert(old(conn).api_keys@.contains(conn.api_keys@[m]));
            let w = choose|w: int|
                0 <= w < old(conn).api_keys@.len() && old(conn).api_keys@[w]
                    == conn.api_keys@[m];
            assert(has_user_id(old(conn).users@, old(conn).api_keys@[w].user_id));
        }
    }
    Ok(input_key)
}

/// Deletes the user with this email and, to keep referential integrity,
/// every key the user owned and every usage record of those keys.  An
/// absent user leaves the store unchanged.
pub fn delete_user(conn: &mut Db, input_email: &String)
    requires
        old(conn).wf(),
    ensures
        final(conn).wf(),
        !has_email(old(conn).users@, input_email@) ==> *final(conn) == *old(conn),
        has_email(old(conn).users@, input_email@) ==> ({
            let uid = user_with_email(old(conn).users@, input_email@).unwrap().id;
            &&& final(conn).users@ == old(conn).users@.filter(
                |u: Users| u.email@ != input_email@,
            )
            &&& final(conn).api_keys@ == old(conn).api_keys@.filter(
                |k: ApiKey| k.user_id != uid,
            )
            &&& final(conn).key_requests@ == old(conn).key_requests@.filter(
                |q: KeyRequestDTO| has_key_id(final(conn).api_keys@, q.api_key_id),
            )
            &&& final(conn).next_user_id == old(conn).next_user_id
            &&& final(conn).next_api_key_id == old(conn).next_api_key_id
            &&& final(conn).next_request_id == old(conn).next_request_id
        }),
{
    let idx: usize;
    match find_user_index(&conn.users, input_email) {
        None => {
            return ;
        },
        Some(i) => {
            idx = i;
        },
    }
    proof {
        lemma_user_with_email_at(conn.users@, input_email@, idx as int);
    }
    let uid = conn.users[idx].id;
    retain_users_not_email(&mut conn.users, input_email);
    retain_keys_not_user(&mut conn.api_keys, uid);
    retain_requests_resolving(&mut conn.key_requests, &conn.api_keys);
    proof {
        let uf = |u: Users| u.email@ != input_email@;
        crate::seqtools::lemma_filter_distinct_by(old(conn).users@, uf, |u: Users| u.id);
        crate::seqtools::lemma_filter_distinct_by(old(conn).users@, uf, |u: Users| u.email@);
        crate::seqtools::lemma_filter_distinct_by(
            old(conn).api_keys@,
            |k: ApiKey| k.user_id != uid,
            |k: ApiKey| k.id,
        );
        lemma_keys_filter_wf(*old(conn), *conn, |k: ApiKey| k.user_id != uid);
        assert forall|m: int| 0 <= m < conn.api_keys@.len() implies has_user_id(
            conn.users@,
            (#[trigger] conn.api_keys@[m]).user_id,
        ) by {
            let k = conn.api_keys@[m];
            assert(old(conn).api_keys@.contains(k));
            assert(k.user_id != uid);
            let w = choose|w: int|
                0 <= w < old(conn).users@.len() && (#[trigger] old(conn).users@[w]).id
                    == k.user_id;
            if old(conn).users@[w].email@ == input_email@ {
                lemma_user_with_email_at(old(conn).users@, input_email@, w);
                assert(old(conn).users@[w].id == uid);
            }
            assert(uf(old(conn).users@[w]));
            old(conn).users@.lemma_filter_contains(uf, w);
            assert(conn.users@.contains(old(conn).users@[w]));
            let x = choose|x: int|
                0 <= x < conn.users@.len() && conn.users@[x] == old(conn).users@[w];
            assert(conn.users@[x].id == k.user_id);
        }
    }
}

/// Loads every key of the user with this email, left-joined with the usage
/// log: one row per usage record of a key, and a row with an absent record
/// for a key that was never used.  Fails with `NotFound` when the user does
/// not exist.
#[verifier::loop_isolation(false)]
pub fn get_all_api_key_data(conn: &Db, input_email: &String) -> (r: Result<
    Vec<(ApiKey, Option<KeyRequestDTO>)>,
    ApiError,
>)
    requires
        conn.wf(),
    ensures
        !has_email(conn.users@, input_email@) ==> r == Err::<
            Vec<(ApiKey, Option<KeyRequestDTO>)>,
            ApiError,
        >(ApiError::NotFound),
        has_email(conn.users@, input_email@) ==> ({
            &&& r is Ok
            &&& (r->Ok_0)@ == left_join(
                keys_of_user(
                    conn.api_keys@,
                    user_with_email(conn.users@, input_email@).unwrap().id,
                ),
                conn.key_requests@,
            )
        }),
{
    let uid: i32;
    match find_user_index(&conn.users, input_email) {
        None => {
            return Err(ApiError::NotFound);
        },
        Some(i) => {
            proof {
                lemma_user_with_email_at(conn.users@, input_email@, i as int);
            }
            uid = conn.users[i].id;
        },
    }
    let mut out: Vec<(ApiKey, Option<KeyRequestDTO>)> = Vec::new();
    let nk = conn.api_keys.len();
    let mut i: usize = 0;
    while i < nk
        invariant
            i <= nk,
            out@ == left_join(
                keys_of_user(conn.api_keys@.subrange(0, i as int), uid),
                conn.key_requests@,
            ),
        decreases nk - i,
    {
        let k = conn.api_keys[i];
        let ghost kpref = keys_of_user(conn.api_keys@.subrange(0, i as int), uid);
        proof {
            assert(conn.api_keys@.subrange(0, i + 1 as int) =~= conn.api_keys@.subrange(
                0,
                i as int,
            ).push(k));
        }
        if k.user_id == uid {
            let ghost ob = out@;
            let mut any: bool = false;
            let nr = conn.key_requests.len();
            let mut j: usize = 0;
            while j < nr
                invariant
                    j <= nr,
                    out@.len() == ob.len() + requests_of_key(
                        conn.key_requests@.subrange(0, j as int),
                        k.id,
                    ).len(),
                    forall|m: int| 0 <= m < ob.len() ==> out@[m] == ob[m],
                    forall|m: int|
                        0 <= m < requests_of_key(
                            conn.key_requests@.subrange(0, j as int),
                            k.id,
                        ).len() ==> out@[ob.len() + m] == (
                        k,
                        Some(
                            requests_of_key(conn.key_requests@.subrange(0, j as int), k.id)[m],
                        ),
                    ),
                    any == (requests_of_key(
                        conn.key_requests@.subrange(0, j as int),
                        k.id,
                    ).len() > 0),
                decreases nr - j,
            {
                let q = conn.key_requests[j];
                proof {
                    assert(conn.key_requests@.subrange(0, j + 1 as int)
                        =~= conn.key_requests@.subrange(0, j as int).push(q));
                }
                if q.api_key_id == k.id {
                    out.push((k, Some(q)));
                    any = true;
                }
                j += 1;
            }
            proof {
                assert(conn.key_requests@.subrange(0, nr as int) =~= conn.key_requests@);
            }
            if !any {
                out.push((k, None));
            }
            proof {
                assert(out@ =~= ob + rows_for_key(k, conn.key_requests@));
                assert((kpref.push(k)).drop_last() =~= kpref);
                assert(left_join(kpref.push(k), conn.key_requests@) == left_join(
                    kpref,
                    conn.key_requests@,
                ) + rows_for_key(k, conn.key_requests@));
            }
        }
        i += 1;
    }
    proof {
        assert(conn.api_keys@.subrange(0, nk as int) =~= conn.api_keys@);
    }
    Ok(out)
}

/// After the keys were filtered and the usage records were restricted to
/// the keys that survived, a well-formed store with unchanged users and
/// counters is well-formed again.
proof fn lemma_keys_filter_wf(pre: Db, post: Db, kf: spec_fn(ApiKey) -> bool)
    requires
        pre.wf(),
        post.api_keys@ == pre.api_keys@.filter(kf),
        post.key_requests@ == pre.key_requests@.filter(
            |q: KeyRequestDTO| has_key_id(post.api_keys@, q.api_key_id),
        ),
        forall|i: int, j: int|
            0 <= i < j < post.users@.len() ==> (#[trigger] post.users@[i]).id != (
            #[trigger] post.users@[j]).id,
        forall|i: int, j: int|
            0 <= i < j < post.users@.len() ==> (#[trigger] post.users@[i]).email@ != (
            #[trigger] post.users@[j]).email@,
        forall|i: int|
            0 <= i < post.users@.len() ==> exists|w: int|
                0 <= w < pre.users@.len() && pre.users@[w] == (#[trigger] post.users@[i]),
        post.next_user_id == pre.next_user_id,
        post.next_api_key_id == pre.next_api_key_id,
        post.next_request_id == pre.next_request_id,
    ensures
        forall|i: int|
            0 <= i < post.users@.len() ==> 1 <= (#[trigger] post.users@[i]).id
                < post.next_user_id,
        forall|i: int|
            0 <= i < post.api_keys@.len() ==> 1 <= (#[trigger] post.api_keys@[i]).id
                < post.next_api_key_id,
        forall|i: int, j: int|
            0 <= i < j < post.api_keys@.len() ==> (#[trigger] post.api_keys@[i]).id != (
            #[trigger] post.api_keys@[j]).id,
        forall|i: int, j: int|
            0 <= i < j < post.api_keys@.len() ==> (#[trigger] post.api_keys@[i]).key_value != (
            #[trigger] post.api_keys@[j]).key_value,
        forall|i: int|
            0 <= i < post.key_requests@.len() ==> 1 <= (#[trigger] post.key_requests@[i]).id
                < post.next_request_id,
        forall|i: int, j: int|
            0 <= i < j < post.key_requests@.len() ==> (#[trigger] post.key_requests@[i]).id != (
            #[trigger] post.key_requests@[j]).id,
        forall|i: int|
            0 <= i < post.key_requests@.len() ==> has_key_id(
                post.api_keys@,
                (#[trigger] post.key_requests@[i]).api_key_id,
            ),
{
    broadcast use vstd::seq_lib::group_filter_ensures;

    crate::seqtools::lemma_filter_distinct_by(pre.api_keys@, kf, |k: ApiKey| k.id);
    crate::seqtools::lemma_filter_distinct_by(pre.api_keys@, kf, |k: ApiKey| k.key_value);
    let qf = |q: KeyRequestDTO| has_key_id(post.api_keys@, q.api_key_id);
    crate::seqtools::lemma_filter_distinct_by(pre.key_requests@, qf, |q: KeyRequestDTO| q.id);
    assert forall|i: int| 0 <= i < post.users@.len() implies 1 <= (#[trigger] post.users@[i]).id
        < post.next_user_id by {
        let w = choose|w: int|
            0 <= w < pre.users@.len() && pre.users@[w] == (#[trigger] post.users@[i]);
        assert(1 <= pre.users@[w].id < pre.next_user_id);
    }
    assert forall|i: int| 0 <= i < post.api_keys@.len() implies 1 <= (
    #[trigger] post.api_keys@[i]).id < post.next_api_key_id by {
        assert(pre.api_keys@.contains(post.api_keys@[i]));
        let w = choose|w: int|
            0 <= w < pre.api_keys@.len() && pre.api_keys@[w] == post.api_keys@[i];
        assert(1 <= pre.api_keys@[w].id < pre.next_api_key_id);
    }
    assert forall|i: int| 0 <= i < post.key_requests@.len() implies 1 <= (
    #[trigger] post.key_requests@[i]).id < post.next_request_id by {
        assert(pre.key_requests@.contains(post.key_requests@[i]));
        let w = choose|w: int|
            0 <= w < pre.key_requests@.len() && pre.key_requests@[w] == post.key_requests@[i];
        assert(1 <= pre.key_requests@[w].id < pre.next_request_id);
    }
    assert forall|i: int| 0 <= i < post.key_requests@.len() implies has_key_id(
        post.api_keys@,
        (#[trigger] post.key_requests@[i]).api_key_id,
    ) by {
        assert(qf(post.key_requests@[i]));
    }
}

} // verus!
