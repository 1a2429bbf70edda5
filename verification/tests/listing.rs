use ipfs_proxy::actions::{
    create_new_api_key, create_user, delete_api_key, delete_user, find_user,
    get_all_api_key_data, get_single_api_key, save_api_request,
};
use ipfs_proxy::endpoints::{get_api_key, get_photo, register};
use ipfs_proxy::models::{ApiError, ApiKeyRequest, SignInSignUp};
use ipfs_proxy::store::Db;

fn creds(email: &str, password: &str) -> SignInSignUp {
    SignInSignUp { email: String::from(email), password: String::from(password) }
}

#[test]
fn listing_pairs_unused_keys_with_absent_usage() {
    let mut db = Db::new();
    register(Some(creds("a@x.com", "pw1")), &mut db).unwrap();
    let email = String::from("a@x.com");
    let k1 = create_new_api_key(&mut db, &email).unwrap();
    let k2 = create_new_api_key(&mut db, &email).unwrap();
    let rows = get_all_api_key_data(&db, &email).unwrap();
    assert_eq!(rows.len(), 2);
    assert_eq!(rows[0].0.key_value, k1.key_value);
    assert_eq!(rows[1].0.key_value, k2.key_value);
    assert!(rows[0].1.is_none());
    assert!(rows[1].1.is_none());
}

#[test]
fn listing_shows_every_usage_of_an_invoked_key() {
    let mut db = Db::new();
    register(Some(creds("a@x.com", "pw1")), &mut db).unwrap();
    let email = String::from("a@x.com");
    let id = Some(email.clone());
    let k1 = create_new_api_key(&mut db, &email).unwrap();
    let k2 = create_new_api_key(&mut db, &email).unwrap();
    for _ in 0..3 {
        get_photo(id.clone(), Some(ApiKeyRequest { api_key: k1.key_value }), &mut db).unwrap();
    }
    let rows = get_all_api_key_data(&db, &email).unwrap();
    // three rows carry a usage record of the invoked key, one row pairs the
    // other key with an absent record
    let used: Vec<_> = rows
        .iter()
        .filter(|(k, u)| k.key_value == k1.key_value && u.is_some())
        .collect();
    assert_eq!(used.len(), 3);
    for (k, u) in &used {
        assert_eq!(u.as_ref().unwrap().api_key_id, k.id);
    }
    let unused: Vec<_> = rows.iter().filter(|(k, _)| k.key_value == k2.key_value).collect();
    assert_eq!(unused.len(), 1);
    assert!(unused[0].1.is_none());
    assert_eq!(rows.len(), 4);
}

#[test]
fn listing_for_an_unknown_user_is_not_found() {
    let db = Db::new();
    assert_eq!(
        get_all_api_key_data(&db, &String::from("ghost@x.com")),
        Err(ApiError::NotFound)
    );
}

#[test]
fn find_user_reports_absent_users_without_error() {
    let mut db = Db::new();
    let stored = create_user(
        &mut db,
        String::from("a@x.com"),
        String::from("digest"),
        vec![1, 2, 3, 4, 5, 6, 7, 8],
    )
    .unwrap();
    assert_eq!(stored.email, "a@x.com");
    let found = find_user(&db, &String::from("a@x.com")).unwrap().unwrap();
    assert_eq!(found.email, "a@x.com");
    assert_eq!(found.pw_hash, "digest");
    assert_eq!(found.salt, vec![1, 2, 3, 4, 5, 6, 7, 8]);
    assert!(find_user(&db, &String::from("b@x.com")).unwrap().is_none());
}

#[test]
fn usage_records_reference_the_resolved_key() {
    let mut db = Db::new();
    register(Some(creds("a@x.com", "pw1")), &mut db).unwrap();
    let email = String::from("a@x.com");
    let k = create_new_api_key(&mut db, &email).unwrap();
    let rec = save_api_request(&mut db, k.key_value).unwrap();
    let stored = get_single_api_key(&db, k.key_value).unwrap().unwrap();
    assert_eq!(rec.api_key_id, stored.id);
    assert_eq!(db.key_requests.len(), 1);
    assert_eq!(db.key_requests[0].api_key_id, stored.id);
    assert_eq!(db.key_requests[0].date_time, rec.date_time);
    assert_eq!(
        save_api_request(&mut db, 999_999),
        Err(ApiError::PreconditionFailed)
    );
}

#[test]
fn deleting_a_key_removes_its_usage_records() {
    let mut db = Db::new();
    register(Some(creds("a@x.com", "pw1")), &mut db).unwrap();
    let email = String::from("a@x.com");
    let k1 = create_new_api_key(&mut db, &email).unwrap();
    let k2 = create_new_api_key(&mut db, &email).unwrap();
    save_api_request(&mut db, k1.key_value).unwrap();
    save_api_request(&mut db, k2.key_value).unwrap();
    assert_eq!(delete_api_key(&mut db, k1.key_value), Ok(k1.key_value));
    assert_eq!(db.api_keys.len(), 1);
    assert_eq!(db.api_keys[0].key_value, k2.key_value);
    assert_eq!(db.key_requests.len(), 1);
    assert_eq!(db.key_requests[0].api_key_id, db.api_keys[0].id);
    assert_eq!(delete_api_key(&mut db, k1.key_value), Err(ApiError::NotFound));
}

#[test]
fn deleting_a_user_removes_its_keys_and_their_usage() {
    let mut db = Db::new();
    register(Some(creds("a@x.com", "pw1")), &mut db).unwrap();
    register(Some(creds("b@x.com", "pw2")), &mut db).unwrap();
    let a = String::from("a@x.com");
    let b = String::from("b@x.com");
    let ka = create_new_api_key(&mut db, &a).unwrap();
    let kb = create_new_api_key(&mut db, &b).unwrap();
    save_api_request(&mut db, ka.key_value).unwrap();
    save_api_request(&mut db, kb.key_value).unwrap();
    delete_user(&mut db, &a);
    assert_eq!(db.users.len(), 1);
    assert_eq!(db.users[0].email, "b@x.com");
    assert_eq!(db.api_keys.len(), 1);
    assert_eq!(db.api_keys[0].key_value, kb.key_value);
    assert_eq!(db.key_requests.len(), 1);
    assert_eq!(db.key_requests[0].api_key_id, db.api_keys[0].id);
    // deleting an absent user changes nothing
    delete_user(&mut db, &a);
    assert_eq!(db.users.len(), 1);
    assert_eq!(db.api_keys.len(), 1);
}

#[test]
fn key_creation_requires_an_existing_user() {
    let mut db = Db::new();
    assert_eq!(
        create_new_api_key(&mut db, &String::from("ghost@x.com")),
        Err(ApiError::PreconditionFailed)
    );
}

#[test]
fn listing_reflects_keys_created_through_the_endpoint() {
    let mut db = Db::new();
    register(Some(creds("a@x.com", "pw1")), &mut db).unwrap();
    let id = Some(String::from("a@x.com"));
    let first = get_api_key(id.clone(), &mut db).unwrap();
    assert_eq!(first.len(), 1);
    let second = get_api_key(id, &mut db).unwrap();
    assert_eq!(second.len(), 2);
    assert_ne!(second[0].0.key_value, second[1].0.key_value);
}
