use vstd::prelude::*;

use crate::actions::{
    create_new_api_key, disable_api_key, find_user, get_all_api_key_data, get_single_api_key,
    save_api_request,
};
use crate::capabilities::{argon2_digest, argon2_verify, hash_password, random_salt,
    verify_password};
use crate::models::{ApiError, ApiKey, ApiKeyRequest, KeyRequestDTO, SignInSignUp};
use crate::store::{
    has_email, has_key_value, has_user_id, key_with_value, keys_of_user, left_join,
    lemma_user_with_email_at, user_with_email, Db,
};

verus! {

/// Whether a login with these credentials is accepted: the user exists and
/// the password-hash capability accepts the password against the stored
/// digest.
pub open spec fn login_accepts(db: Db, email: Seq<char>, password: Seq<char>) -> bool {
    &&& has_email(db.users@, email)
    &&& argon2_verify(user_with_email(db.users@, email).unwrap().pw_hash@, password)
}

/// Registers a user: a malformed body is rejected with `BadRequest`, an
/// email that already exists with `ConstraintViolation`, and an exhausted
/// id space with `InternalError`; otherwise a fresh random salt is drawn,
/// the password digest is derived, the user is stored, and the email is
/// echoed back.  After success a login with the same credentials is
/// accepted and the new user owns no keys.
pub fn register(body: Option<SignInSignUp>, conn: &mut Db) -> (r: Result<String, ApiError>)
    requires
        old(conn).wf(),
    ensures
        final(conn).wf(),
        r is Err ==> *final(conn) == *old(conn),
        r == Err::<String, ApiError>(ApiError::BadRequest) <==> body is None,
        r == Err::<String, ApiError>(ApiError::ConstraintViolation) <==> (body is Some
            && has_email(old(conn).users@, body.unwrap().email@)),
        r is Err ==> (r == Err::<String, ApiError>(ApiError::BadRequest) || r == Err::<
            String,
            ApiError,
        >(ApiError::ConstraintViolation) || r == Err::<String, ApiError>(ApiError::InternalError)),
        body is Some && !has_email(old(conn).users@, body.unwrap().email@) && old(
            conn,
        ).next_user_id < i32::MAX && 4 * body.unwrap().password@.len() <= 0xFFFF_FFFFu64 ==> r
            is Ok,
        r is Ok ==> body is Some && ({
            let b = body.unwrap();
            let u = final(conn).users@.last();
            &&& r == Ok::<String, ApiError>(b.email)
            &&& final(conn).users@ == old(conn).users@.push(u)
            &&& u.id == old(conn).next_user_id
            &&& u.email == b.email
            &&& u.salt@.len() == 32
            &&& u.pw_hash@ == argon2_digest(b.password@, u.salt@)
            &&& argon2_verify(u.pw_hash@, b.password@)
            &&& login_accepts(*final(conn), b.email@, b.password@)
            &&& keys_of_user(final(conn).api_keys@, u.id).len() == 0
            &&& final(conn).next_user_id == old(conn).next_user_id + 1
            &&& final(conn).api_keys == old(conn).api_keys
            &&& final(conn).key_requests == old(conn).key_requests
            &&& final(conn).next_api_key_id == old(conn).next_api_key_id
            &&& final(conn).next_request_id == old(conn).next_request_id
        }),
{
    let b: SignInSignUp;
    match body {
        None => {
            return Err(ApiError::BadRequest);
        },
        Some(inner) => {
            b = inner;
        },
    }
    match find_user(conn, &b.email) {
        Err(_) => {
            return Err(ApiError::InternalError);
        },
        Ok(Some(_)) => {
            return Err(ApiError::ConstraintViolation);
        },
        Ok(None) => {},
    }
    if conn.next_user_id == i32::MAX {
        return Err(ApiError::InternalError);
    }
    let salt = random_salt();
    let digest: String;
    match hash_password(b.password.as_str(), &salt) {
        None => {
            return Err(ApiError::InternalError);
        },
        Some(d) => {
            digest = d;
        },
    }
    match crate::actions::create_user(conn, b.email.clone(), digest, salt) {
        Err(e) => {
            proof {
                assert(false);
            }
            Err(e)
        },
        Ok(_) => {
            proof {
                let u = conn.users@.last();
                lemma_user_with_email_at(conn.users@, b.email@, conn.users@.len() - 1);
                assert forall|m: int| 0 <= m < conn.api_keys@.len() implies !((#[trigger] conn.api_keys@[m]).user_id
                    == u.id) by {
                    assert(has_user_id(old(conn).users@, conn.api_keys@[m].user_id));
                    let w = choose|w: int|
                        0 <= w < old(conn).users@.len() && (#[trigger] old(conn).users@[w]).id
                            == conn.api_keys@[m].user_id;
                    assert(old(conn).users@[w].id < old(conn).next_user_id);
                }
                crate::seqtools::lemma_filter_none(
                    conn.api_keys@,
                    |k: ApiKey| k.user_id == u.id,
                );
            }
            Ok(b.email)
        },
    }
}

/// Logs a user in: a malformed body is rejected with `BadRequest`, an
/// unknown email with `Unauthorized`, and a password that the stored digest
/// does not accept with `Forbidden` — such a login never succeeds.  On a
/// match the caller's full key-and-usage listing is returned.
pub fn login(body: Option<SignInSignUp>, conn: &Db) -> (r: Result<
    Vec<(ApiKey, Option<KeyRequestDTO>)>,
    ApiError,
>)
    requires
        conn.wf(),
    ensures
        r == Err::<Vec<(ApiKey, Option<KeyRequestDTO>)>, ApiError>(ApiError::BadRequest) <==> body
            is None,
        r == Err::<Vec<(ApiKey, Option<KeyRequestDTO>)>, ApiError>(ApiError::Unauthorized) <==> (
        body is Some && !has_email(conn.users@, body.unwrap().email@)),
        r == Err::<Vec<(ApiKey, Option<KeyRequestDTO>)>, ApiError>(ApiError::Forbidden) <==> (body
            is Some && has_email(conn.users@, body.unwrap().email@) && !argon2_verify(
            user_with_email(conn.users@, body.unwrap().email@).unwrap().pw_hash@,
            body.unwrap().password@,
        )),
        r is Ok <==> (body is Some && login_accepts(
            *conn,
            body.unwrap().email@,
            body.unwrap().password@,
        )),
        body is Some && login_accepts(*conn, body.unwrap().email@, body.unwrap().password@) ==> (
        r->Ok_0)@ == left_join(
            keys_of_user(
                conn.api_keys@,
                user_with_email(conn.users@, body.unwrap().email@).unwrap().id,
            ),
            conn.key_requests@,
        ),
{
    let b: SignInSignUp;
    match body {
        None => {
            return Err(ApiError::BadRequest);
        },
        Some(inner) => {
            b = inner;
        },
    }
    let u: crate::models::Users;
    match find_user(conn, &b.email) {
        Err(_) => {
            proof {
                assert(false);
            }
            return Err(ApiError::InternalError);
        },
        Ok(None) => {
            return Err(ApiError::Unauthorized);
        },
        Ok(Some(found)) => {
            u = found;
        },
    }
    if verify_password(u.pw_hash.as_str(), b.password.as_str()) {
        match get_all_api_key_data(conn, &b.email) {
            Err(_) => {
                proof {
                    assert(false);
                }
                Err(ApiError::InternalError)
            },
            Ok(data) => Ok(data),
        }
    } else {
        Err(ApiError::Forbidden)
    }
}

/// Ends a session: allowed exactly when a session exists, and otherwise
/// rejected with `Forbidden`.
pub fn logout(identity: Option<String>) -> (r: Result<(), ApiError>)
    ensures
        identity is Some <==> r == Ok::<(), ApiError>(()),
        identity is None <==> r == Err::<(), ApiError>(ApiError::Forbidden),
{
    match identity {
        Some(_) => Ok(()),
        None => Err(ApiError::Forbidden),
    }
}

/// Disables a key for an authenticated caller: no session is rejected with
/// `Forbidden`, a malformed body with `BadRequest`, an unknown key with
/// `NotFound`; otherwise the key's enabled flag is cleared, idempotently.
pub fn delete_key(identity: Option<String>, body: Option<ApiKeyRequest>, conn: &mut Db) -> (r:
    Result<u128, ApiError>)
    requires
        old(conn).wf(),
    ensures
        final(conn).wf(),
        r is Err ==> *final(conn) == *old(conn),
        r == Err::<u128, ApiError>(ApiError::Forbidden) <==> identity is None,
        r == Err::<u128, ApiError>(ApiError::BadRequest) <==> (identity is Some && body is None),
        identity is Some && body is Some && !has_key_value(
            old(conn).api_keys@,
            body.unwrap().api_key,
        ) ==> r == Err::<u128, ApiError>(ApiError::NotFound),
        identity is Some && body is Some && has_key_value(
            old(conn).api_keys@,
            body.unwrap().api_key,
        ) ==> ({
            &&& r == Ok::<u128, ApiError>(body.unwrap().api_key)
            &&& final(conn).api_keys@ == crate::store::set_enabled(
                old(conn).api_keys@,
                body.unwrap().api_key,
                false,
            )
            &&& final(conn).users == old(conn).users
            &&& final(conn).key_requests == old(conn).key_requests
            &&& final(conn).next_user_id == old(conn).next_user_id
            &&& final(conn).next_api_key_id == old(conn).next_api_key_id
            &&& final(conn).next_request_id == old(conn).next_request_id
        }),
{
    if identity.is_none() {
        return Err(ApiError::Forbidden);
    }
    let bd: ApiKeyRequest;
    match body {
        None => {
            return Err(ApiError::BadRequest);
        },
        Some(inner) => {
            bd = inner;
        },
    }
    disable_api_key(conn, bd.api_key)
}

/// Creates a key for the authenticated caller and returns the caller's full
/// key-and-usage listing: no session is rejected with `Forbidden`, a
/// session whose user no longer exists with `PreconditionFailed`.
pub fn get_api_key(identity: Option<String>, conn: &mut Db) -> (r: Result<
    Vec<(ApiKey, Option<KeyRequestDTO>)>,
    ApiError,
>)
    requires
        old(conn).wf(),
    ensures
        final(conn).wf(),
        r is Err ==> *final(conn) == *old(conn),
        r == Err::<Vec<(ApiKey, Option<KeyRequestDTO>)>, ApiError>(ApiError::Forbidden) <==> identity
            is None,
        identity is Some && !has_email(old(conn).users@, identity.unwrap()@) ==> r == Err::<
            Vec<(ApiKey, Option<KeyRequestDTO>)>,
            ApiError,
        >(ApiError::PreconditionFailed),
        identity is Some && has_email(old(conn).users@, identity.unwrap()@) && old(
            conn,
        ).next_api_key_id == i32::MAX ==> (r == Err::<
            Vec<(ApiKey, Option<KeyRequestDTO>)>,
            ApiError,
        >(ApiError::InternalError) || r == Err::<Vec<(ApiKey, Option<KeyRequestDTO>)>, ApiError>(
            ApiError::ConstraintViolation,
        )),
        identity is Some && has_email(old(conn).users@, identity.unwrap()@) && old(
            conn,
        ).next_api_key_id < i32::MAX ==> ({
            ||| r == Err::<Vec<(ApiKey, Option<KeyRequestDTO>)>, ApiError>(
                ApiError::ConstraintViolation,
            )
            ||| ({
                let uid = user_with_email(old(conn).users@, identity.unwrap()@).unwrap().id;
                let k = final(conn).api_keys@.last();
                &&& r is Ok
                &&& (r->Ok_0)@ == left_join(
                    keys_of_user(final(conn).api_keys@, uid),
                    final(conn).key_requests@,
                )
                &&& final(conn).api_keys@ == old(conn).api_keys@.push(k)
                &&& k.user_id == uid
                &&& k.is_enabled
                &&& !has_key_value(old(conn).api_keys@, k.key_value)
                &&& final(conn).users == old(conn).users
                &&& final(conn).key_requests == old(conn).key_requests
                &&& final(conn).next_user_id == old(conn).next_user_id
                &&& final(conn).next_request_id == old(conn).next_request_id
            })
        }),
{
    let email: String;
    match identity {
        None => {
            return Err(ApiError::Forbidden);
        },
        Some(e) => {
            email = e;
        },
    }
    match create_new_api_key(conn, &email) {
        Err(e) => Err(e),
        Ok(_) => {
            match get_all_api_key_data(conn, &email) {
                Err(_) => {
                    proof {
                        assert(false);
                    }
                    Err(ApiError::InternalError)
                },
                Ok(data) => Ok(data),
            }
        },
    }
}

/// Whether a proxied action with this key value is authorized for this
/// authenticated email: the key exists, the user exists, and the user owns
/// the key.
pub open spec fn invoke_authorized(db: Db, email: Seq<char>, keyv: u128) -> bool {
    &&& has_key_value(db.api_keys@, keyv)
    &&& has_email(db.users@, email)
    &&& key_with_value(db.api_keys@, keyv).unwrap().user_id == user_with_email(
        db.users@,
        email,
    ).unwrap().id
}

/// Authorizes and records one proxied action: no session is rejected with
/// `Forbidden`, a malformed body with `BadRequest`, an unknown key with
/// `NotFound`, a key the caller does not own with `Forbidden`, and a
/// disabled key with `PreconditionFailed` — then no usage record is
/// written.  For an enabled key one usage record is appended and the key
/// value is returned so the caller can issue the outbound call.
pub fn get_photo(identity: Option<String>, body: Option<ApiKeyRequest>, conn: &mut Db) -> (r:
    Result<u128, ApiError>)
    requires
        old(conn).wf(),
    ensures
        final(conn).wf(),
        r is Err ==> *final(conn) == *old(conn),
        r == Err::<u128, ApiError>(ApiError::Forbidden) <==> (identity is None || (identity
            is Some && body is Some && has_key_value(old(conn).api_keys@, body.unwrap().api_key)
            && !invoke_authorized(*old(conn), identity.unwrap()@, body.unwrap().api_key))),
        r == Err::<u128, ApiError>(ApiError::BadRequest) <==> (identity is Some && body is None),
        r == Err::<u128, ApiError>(ApiError::NotFound) <==> (identity is Some && body is Some
            && !has_key_value(old(conn).api_keys@, body.unwrap().api_key)),
        r == Err::<u128, ApiError>(ApiError::PreconditionFailed) <==> (identity is Some && body
            is Some && invoke_authorized(*old(conn), identity.unwrap()@, body.unwrap().api_key)
            && !key_with_value(old(conn).api_keys@, body.unwrap().api_key).unwrap().is_enabled),
        identity is Some && body is Some && invoke_authorized(
            *old(conn),
            identity.unwrap()@,
            body.unwrap().api_key,
        ) && key_with_value(old(conn).api_keys@, body.unwrap().api_key).unwrap().is_enabled ==> ({
            let okey = key_with_value(old(conn).api_keys@, body.unwrap().api_key);
            &&& old(conn).next_request_id == i32::MAX ==> r == Err::<u128, ApiError>(
                ApiError::InternalError,
            )
            &&& old(conn).next_request_id < i32::MAX ==> ({
                let q = final(conn).key_requests@.last();
                &&& r == Ok::<u128, ApiError>(body.unwrap().api_key)
                &&& final(conn).key_requests@ == old(conn).key_requests@.push(q)
                &&& q.id == old(conn).next_request_id
                &&& q.api_key_id == okey.unwrap().id
                &&& final(conn).next_request_id == old(conn).next_request_id + 1
                &&& final(conn).users == old(conn).users
                &&& final(conn).api_keys == old(conn).api_keys
                &&& final(conn).next_user_id == old(conn).next_user_id
                &&& final(conn).next_api_key_id == old(conn).next_api_key_id
            })
        }),
{
    let email: String;
    match identity {
        None => {
            return Err(ApiError::Forbidden);
        },
        Some(e) => {
            email = e;
        },
    }
    let bd: ApiKeyRequest;
    match body {
        None => {
            return Err(ApiError::BadRequest);
        },
        Some(inner) => {
            bd = inner;
        },
    }
    let key: ApiKey;
    match get_single_api_key(conn, bd.api_key) {
        Err(_) => {
            proof {
                assert(false);
            }
            return Err(ApiError::InternalError);
        },
        Ok(None) => {
            return Err(ApiError::NotFound);
        },
        Ok(Some(k)) => {
            key = k;
        },
    }
    let owner_ok: bool;
    match find_user(conn, &email) {
        Err(_) => {
            proof {
                assert(false);
            }
            return Err(ApiError::InternalError);
        },
        Ok(None) => {
            return Err(ApiError::Forbidden);
        },
        Ok(Some(u)) => {
            owner_ok = key.user_id == u.id;
        },
    }
    if !owner_ok {
        return Err(ApiError::Forbidden);
    }
    if !key.is_enabled {
        return Err(ApiError::PreconditionFailed);
    }
    match save_api_request(conn, bd.api_key) {
        Err(e) => Err(e),
        Ok(_) => Ok(bd.api_key),
    }
}

/// Turns the outbound node call's outcome into the response: the body is
/// passed through verbatim, and a transport failure surfaces as
/// `InternalError`.
pub fn get_photo_response(node_response: Option<String>) -> (r: Result<String, ApiError>)
    ensures
        node_response matches Some(t) ==> r == Ok::<String, ApiError>(t),
        node_response is None ==> r == Err::<String, ApiError>(ApiError::InternalError),
{
    match node_response {
        Some(t) => Ok(t),
        None => Err(ApiError::InternalError),
    }
}

/// Echoes the request body back unchanged.
pub fn echo(req_body: String) -> (r: String)
    ensures
        r == req_body,
{
    req_body
}

} // verus!
