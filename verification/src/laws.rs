use vstd::prelude::*;

use crate::endpoints::{invoke_authorized, login_accepts};
use crate::models::{ApiKey, KeyRequestDTO};
use crate::store::{
    has_email, has_key_value, key_with_value, keys_of_user, left_join, lemma_key_with_value_at,
    requests_of_key, rows_for_key, set_enabled, user_with_email, Db,
};

verus! {

/// After a registration left a store in which a login with the credentials
/// is accepted and the new user owns no keys, that login succeeds and
/// returns an empty key listing.
pub proof fn lemma_register_then_login_empty(db: Db, email: Seq<char>, password: Seq<char>)
    requires
        db.wf(),
        login_accepts(db, email, password),
        keys_of_user(db.api_keys@, user_with_email(db.users@, email).unwrap().id).len() == 0,
    ensures
        left_join(
            keys_of_user(db.api_keys@, user_with_email(db.users@, email).unwrap().id),
            db.key_requests@,
        ) == Seq::<(ApiKey, Option<KeyRequestDTO>)>::empty(),
{
    let uk = keys_of_user(db.api_keys@, user_with_email(db.users@, email).unwrap().id);
    assert(uk =~= Seq::<ApiKey>::empty());
}

/// Setting the enabled flag of one key touches that key alone: it still
/// resolves, its id and owner are unchanged, and its flag is exactly the
/// one that was set.
pub proof fn lemma_set_enabled_resolves(keys: Seq<ApiKey>, v: u128, b: bool)
    requires
        forall|i: int, j: int|
            0 <= i < j < keys.len() ==> (#[trigger] keys[i]).key_value != (
            #[trigger] keys[j]).key_value,
        has_key_value(keys, v),
    ensures
        has_key_value(set_enabled(keys, v, b), v),
        key_with_value(set_enabled(keys, v, b), v) is Some,
        key_with_value(set_enabled(keys, v, b), v).unwrap().is_enabled == b,
        key_with_value(set_enabled(keys, v, b), v).unwrap().id == key_with_value(
            keys,
            v,
        ).unwrap().id,
        key_with_value(set_enabled(keys, v, b), v).unwrap().user_id == key_with_value(
            keys,
            v,
        ).unwrap().user_id,
{
    let s2 = set_enabled(keys, v, b);
    let w = choose|w: int| 0 <= w < keys.len() && (#[trigger] keys[w]).key_value == v;
    assert(forall|i: int|
        0 <= i < keys.len() ==> (#[trigger] s2[i]).key_value == keys[i].key_value);
    lemma_key_with_value_at(keys, v, w);
    lemma_key_with_value_at(s2, v, w);
    assert(s2[w] == (ApiKey { is_enabled: b, ..keys[w] }));
}

/// Setting the enabled flag of one key twice is the same as setting it
/// once with the last value: re-enabling an enabled key, or enabling a
/// disabled key, leaves exactly one enabled state.
pub proof fn lemma_set_enabled_overwrites(keys: Seq<ApiKey>, v: u128, first: bool, last: bool)
    ensures
        set_enabled(set_enabled(keys, v, first), v, last) == set_enabled(keys, v, last),
{
    assert(set_enabled(set_enabled(keys, v, first), v, last) =~= set_enabled(keys, v, last));
}

/// After a key is disabled, it still resolves and still belongs to the same
/// owner, but it is disabled: by the proxied-action contract, invoking it
/// is rejected with `PreconditionFailed` and appends no usage record.
pub proof fn lemma_disable_then_invoke(pre: Db, mid: Db, email: Seq<char>, v: u128)
    requires
        pre.wf(),
        has_key_value(pre.api_keys@, v),
        mid.users@ == pre.users@,
        mid.api_keys@ == set_enabled(pre.api_keys@, v, false),
    ensures
        has_key_value(mid.api_keys@, v),
        !key_with_value(mid.api_keys@, v).unwrap().is_enabled,
        invoke_authorized(mid, email, v) <==> invoke_authorized(pre, email, v),
{
    lemma_set_enabled_resolves(pre.api_keys@, v, false);
}

/// A key listing taken while no stored usage record references any of the
/// listed keys pairs every key with an absent usage entry.
pub proof fn lemma_join_all_unused(keys: Seq<ApiKey>, reqs: Seq<KeyRequestDTO>)
    requires
        forall|i: int|
            0 <= i < keys.len() ==> requests_of_key(reqs, (#[trigger] keys[i]).id).len() == 0,
    ensures
        left_join(keys, reqs).len() == keys.len(),
        forall|i: int|
            0 <= i < keys.len() ==> left_join(keys, reqs)[i] == (
                keys[i],
                None::<KeyRequestDTO>,
            ),
    decreases keys.len(),
{
    if keys.len() > 0 {
        let dl = keys.drop_last();
        assert(forall|i: int| 0 <= i < dl.len() ==> dl[i] == keys[i]);
        lemma_join_all_unused(dl, reqs);
        assert(requests_of_key(reqs, keys[keys.len() - 1].id).len() == 0);
        assert(rows_for_key(keys.last(), reqs) == seq![(keys.last(), None::<KeyRequestDTO>)]);
    }
}

/// The rows of a key listing whose key has this id and which carry a usage
/// record.
pub open spec fn used_rows_of_key(
    rows: Seq<(ApiKey, Option<KeyRequestDTO>)>,
    kid: i32,
) -> Seq<(ApiKey, Option<KeyRequestDTO>)> {
    rows.filter(|p: (ApiKey, Option<KeyRequestDTO>)| p.0.id == kid && p.1 is Some)
}

/// Every row of a key listing lists one of the joined keys.
pub proof fn lemma_join_row_keys(keys: Seq<ApiKey>, reqs: Seq<KeyRequestDTO>)
    ensures
        forall|i: int|
            0 <= i < left_join(keys, reqs).len() ==> exists|m: int|
                0 <= m < keys.len() && (#[trigger] left_join(keys, reqs)[i]).0 == keys[m],
    decreases keys.len(),
{
    if keys.len() > 0 {
        let dl = keys.drop_last();
        lemma_join_row_keys(dl, reqs);
        let lj = left_join(keys, reqs);
        let ljd = left_join(dl, reqs);
        assert forall|i: int| 0 <= i < lj.len() implies exists|m: int|
            0 <= m < keys.len() && (#[trigger] lj[i]).0 == keys[m] by {
            if i < ljd.len() {
                assert(lj[i] == ljd[i]);
                let m = choose|m: int| 0 <= m < dl.len() && ljd[i].0 == dl[m];
                assert(lj[i].0 == keys[m]);
            } else {
                assert(lj[i] == rows_for_key(keys.last(), reqs)[i - ljd.len()]);
                assert(lj[i].0 == keys[keys.len() - 1]);
            }
        }
    }
}

/// For one of the joined keys, the listing carries exactly one row per
/// stored usage record of that key: after the key was used, the listing
/// shows every use.
pub proof fn lemma_join_usage_count(keys: Seq<ApiKey>, reqs: Seq<KeyRequestDTO>, m: int)
    requires
        forall|i: int, j: int|
            0 <= i < j < keys.len() ==> (#[trigger] keys[i]).id != (#[trigger] keys[j]).id,
        0 <= m < keys.len(),
    ensures
        used_rows_of_key(left_join(keys, reqs), keys[m].id).len() == requests_of_key(
            reqs,
            keys[m].id,
        ).len(),
    decreases keys.len(),
{
    let kid = keys[m].id;
    let pred = |p: (ApiKey, Option<KeyRequestDTO>)| p.0.id == kid && p.1 is Some;
    let dl = keys.drop_last();
    let ljd = left_join(dl, reqs);
    let rk = rows_for_key(keys.last(), reqs);
    assert(forall|i: int| 0 <= i < dl.len() ==> dl[i] == keys[i]);
    Seq::<(ApiKey, Option<KeyRequestDTO>)>::filter_distributes_over_add(ljd, rk, pred);
    let used = requests_of_key(reqs, keys.last().id).map_values(
        |q: KeyRequestDTO| (keys.last(), Some(q)),
    );
    assert(forall|i: int| 0 <= i < used.len() ==> (#[trigger] used[i]).0 == keys.last());
    if m == keys.len() - 1 {
        lemma_join_row_keys(dl, reqs);
        assert forall|i: int| 0 <= i < ljd.len() implies !pred(#[trigger] ljd[i]) by {
            let w = choose|w: int| 0 <= w < dl.len() && ljd[i].0 == dl[w];
            assert(keys[w].id != kid);
        }
        crate::seqtools::lemma_filter_none(ljd, pred);
        if used.len() == 0 {
            assert(rk == seq![(keys.last(), None::<KeyRequestDTO>)]);
            assert(forall|i: int| 0 <= i < rk.len() ==> !pred(#[trigger] rk[i]));
            crate::seqtools::lemma_filter_none(rk, pred);
        } else {
            assert(rk == used);
            assert(forall|i: int| 0 <= i < rk.len() ==> pred(#[trigger] rk[i]));
            crate::seqtools::lemma_filter_all(rk, pred);
        }
    } else {
        lemma_join_usage_count(dl, reqs, m);
        assert(keys.last().id != kid);
        assert(forall|i: int| 0 <= i < rk.len() ==> !pred(#[trigger] rk[i]));
        crate::seqtools::lemma_filter_none(rk, pred);
    }
}

} // verus!
