use ipfs_proxy::endpoints::{
    delete_key, echo, get_api_key, get_photo, get_photo_response, login, logout, register,
};
use ipfs_proxy::models::{ApiError, ApiKeyRequest, SignInSignUp};
use ipfs_proxy::store::Db;

fn creds(email: &str, password: &str) -> SignInSignUp {
    SignInSignUp { email: String::from(email), password: String::from(password) }
}

#[test]
fn register_then_login_succeeds_with_empty_listing() {
    let mut db = Db::new();
    let r = register(Some(creds("a@x.com", "pw1")), &mut db);
    assert_eq!(r, Ok(String::from("a@x.com")));
    assert_eq!(db.users.len(), 1);
    assert_eq!(db.users[0].salt.len(), 32);
    let l = login(Some(creds("a@x.com", "pw1")), &db).unwrap();
    assert_eq!(l.len(), 0);
}

#[test]
fn login_with_wrong_password_is_forbidden() {
    let mut db = Db::new();
    register(Some(creds("a@x.com", "pw1")), &mut db).unwrap();
    assert_eq!(login(Some(creds("a@x.com", "pw2")), &db), Err(ApiError::Forbidden));
    assert_eq!(login(Some(creds("a@x.com", "")), &db), Err(ApiError::Forbidden));
    // a correct retry still succeeds
    assert!(login(Some(creds("a@x.com", "pw1")), &db).is_ok());
}

#[test]
fn login_unknown_email_is_unauthorized() {
    let mut db = Db::new();
    register(Some(creds("a@x.com", "pw1")), &mut db).unwrap();
    assert_eq!(login(Some(creds("b@x.com", "pw1")), &db), Err(ApiError::Unauthorized));
}

#[test]
fn malformed_bodies_are_bad_requests() {
    let mut db = Db::new();
    register(Some(creds("a@x.com", "pw1")), &mut db).unwrap();
    assert_eq!(register(None, &mut db), Err(ApiError::BadRequest));
    assert_eq!(login(None, &db), Err(ApiError::BadRequest));
    let id = Some(String::from("a@x.com"));
    assert_eq!(delete_key(id.clone(), None, &mut db), Err(ApiError::BadRequest));
    assert_eq!(get_photo(id, None, &mut db), Err(ApiError::BadRequest));
}

#[test]
fn duplicate_email_is_a_constraint_violation() {
    let mut db = Db::new();
    register(Some(creds("a@x.com", "pw1")), &mut db).unwrap();
    assert_eq!(
        register(Some(creds("a@x.com", "other")), &mut db),
        Err(ApiError::ConstraintViolation)
    );
    assert_eq!(db.users.len(), 1);
}

#[test]
fn unauthenticated_requests_are_forbidden() {
    let mut db = Db::new();
    register(Some(creds("a@x.com", "pw1")), &mut db).unwrap();
    assert_eq!(logout(None), Err(ApiError::Forbidden));
    assert_eq!(logout(Some(String::from("a@x.com"))), Ok(()));
    assert_eq!(
        delete_key(None, Some(ApiKeyRequest { api_key: 7 }), &mut db),
        Err(ApiError::Forbidden)
    );
    assert_eq!(get_api_key(None, &mut db), Err(ApiError::Forbidden));
    assert_eq!(
        get_photo(None, Some(ApiKeyRequest { api_key: 7 }), &mut db),
        Err(ApiError::Forbidden)
    );
}

#[test]
fn stale_identity_fails_key_creation() {
    let mut db = Db::new();
    assert_eq!(
        get_api_key(Some(String::from("ghost@x.com")), &mut db),
        Err(ApiError::PreconditionFailed)
    );
}

#[test]
fn created_key_is_enabled_and_fresh() {
    let mut db = Db::new();
    register(Some(creds("a@x.com", "pw1")), &mut db).unwrap();
    let listing = get_api_key(Some(String::from("a@x.com")), &mut db).unwrap();
    assert_eq!(listing.len(), 1);
    let (key, usage) = &listing[0];
    assert!(key.is_enabled);
    assert!(usage.is_none());
    assert_eq!(db.api_keys.len(), 1);
    assert_eq!(db.api_keys[0].user_id, db.users[0].id);
}

#[test]
fn ten_thousand_keys_are_unique_and_enabled() {
    let mut db = Db::new();
    register(Some(creds("a@x.com", "pw1")), &mut db).unwrap();
    let email = String::from("a@x.com");
    let mut seen = std::collections::HashSet::new();
    for _ in 0..10_000 {
        let k = ipfs_proxy::actions::create_new_api_key(&mut db, &email).unwrap();
        assert!(k.is_enabled);
        assert!(seen.insert(k.key_value), "key value issued twice");
    }
    assert_eq!(db.api_keys.len(), 10_000);
}

#[test]
fn disabled_key_fails_with_precondition_and_writes_no_usage() {
    let mut db = Db::new();
    register(Some(creds("a@x.com", "pw1")), &mut db).unwrap();
    let id = Some(String::from("a@x.com"));
    let listing = get_api_key(id.clone(), &mut db).unwrap();
    let keyv = listing[0].0.key_value;
    assert_eq!(delete_key(id.clone(), Some(ApiKeyRequest { api_key: keyv }), &mut db), Ok(keyv));
    assert!(!db.api_keys[0].is_enabled);
    let usage_before = db.key_requests.len();
    assert_eq!(
        get_photo(id, Some(ApiKeyRequest { api_key: keyv }), &mut db),
        Err(ApiError::PreconditionFailed)
    );
    assert_eq!(db.key_requests.len(), usage_before);
}

#[test]
fn disabling_an_unknown_key_is_not_found() {
    let mut db = Db::new();
    register(Some(creds("a@x.com", "pw1")), &mut db).unwrap();
    let id = Some(String::from("a@x.com"));
    assert_eq!(
        delete_key(id.clone(), Some(ApiKeyRequest { api_key: 424242 }), &mut db),
        Err(ApiError::NotFound)
    );
    assert_eq!(
        get_photo(id, Some(ApiKeyRequest { api_key: 424242 }), &mut db),
        Err(ApiError::NotFound)
    );
}

#[test]
fn enable_after_disable_restores_and_is_idempotent() {
    let mut db = Db::new();
    register(Some(creds("a@x.com", "pw1")), &mut db).unwrap();
    let id = Some(String::from("a@x.com"));
    let listing = get_api_key(id.clone(), &mut db).unwrap();
    let keyv = listing[0].0.key_value;
    assert_eq!(ipfs_proxy::actions::disable_api_key(&mut db, keyv), Ok(keyv));
    assert!(!db.api_keys[0].is_enabled);
    assert_eq!(ipfs_proxy::actions::enable_api_key(&mut db, keyv), Ok(keyv));
    assert!(db.api_keys[0].is_enabled);
    // the second call reports no error and leaves exactly one enabled state
    assert_eq!(ipfs_proxy::actions::enable_api_key(&mut db, keyv), Ok(keyv));
    assert!(db.api_keys[0].is_enabled);
    assert_eq!(db.api_keys.len(), 1);
}

#[test]
fn a_caller_cannot_invoke_a_key_it_does_not_own() {
    let mut db = Db::new();
    register(Some(creds("a@x.com", "pw1")), &mut db).unwrap();
    register(Some(creds("b@x.com", "pw2")), &mut db).unwrap();
    let listing = get_api_key(Some(String::from("a@x.com")), &mut db).unwrap();
    let keyv = listing[0].0.key_value;
    let usage_before = db.key_requests.len();
    assert_eq!(
        get_photo(Some(String::from("b@x.com")), Some(ApiKeyRequest { api_key: keyv }), &mut db),
        Err(ApiError::Forbidden)
    );
    assert_eq!(db.key_requests.len(), usage_before);
}

#[test]
fn end_to_end_scenario() {
    let mut db = Db::new();
    // register, then login with the same credentials
    assert_eq!(register(Some(creds("a@x.com", "pw1")), &mut db), Ok(String::from("a@x.com")));
    let listing = login(Some(creds("a@x.com", "pw1")), &db).unwrap();
    assert_eq!(listing.len(), 0);
    // obtain a key: one key, enabled
    let id = Some(String::from("a@x.com"));
    let listing = get_api_key(id.clone(), &mut db).unwrap();
    assert_eq!(listing.len(), 1);
    assert!(listing[0].0.is_enabled);
    let keyv = listing[0].0.key_value;
    // invoke: authorized, one new usage row, response passed through
    assert_eq!(db.key_requests.len(), 0);
    assert_eq!(get_photo(id.clone(), Some(ApiKeyRequest { api_key: keyv }), &mut db), Ok(keyv));
    assert_eq!(db.key_requests.len(), 1);
    assert_eq!(
        get_photo_response(Some(String::from("node says hi"))),
        Ok(String::from("node says hi"))
    );
    // disable the key, invoke again: rejected, usage unchanged
    assert_eq!(delete_key(id.clone(), Some(ApiKeyRequest { api_key: keyv }), &mut db), Ok(keyv));
    assert_eq!(
        get_photo(id, Some(ApiKeyRequest { api_key: keyv }), &mut db),
        Err(ApiError::PreconditionFailed)
    );
    assert_eq!(db.key_requests.len(), 1);
}

#[test]
fn node_transport_failure_is_an_internal_error() {
    assert_eq!(get_photo_response(None), Err(ApiError::InternalError));
}

#[test]
fn echo_returns_the_body_unchanged() {
    assert_eq!(echo(String::from("ping")), String::from("ping"));
    assert_eq!(echo(String::new()), String::new());
}

#[test]
fn error_reasons_are_fixed_strings() {
    assert_eq!(ApiError::BadRequest.reason(), "bad request");
    assert_eq!(ApiError::Unauthorized.reason(), "unauthorized");
    assert_eq!(ApiError::Forbidden.reason(), "forbidden");
    assert_eq!(ApiError::NotFound.reason(), "not found");
    assert_eq!(ApiError::ConstraintViolation.reason(), "constraint violation");
    assert_eq!(ApiError::PreconditionFailed.reason(), "precondition failed");
    assert_eq!(ApiError::InternalError.reason(), "internal error");
}
