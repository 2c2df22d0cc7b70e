use floppa_dns::account::{create_account, get_user, login, logout};
use floppa_dns::addr::Address;
use floppa_dns::auth::{authenticate, bearer_token, parse_bearer};
use floppa_dns::domain::{create_domain, delete_domain, list_domains, update_domain, update_request};
use floppa_dns::err::ApiError;
use floppa_dns::store::{DomainRow, Store};

fn v(b: &[u8]) -> Vec<u8> {
    b.to_vec()
}

#[test]
fn register_then_wrong_password_is_unauthorized() {
    let mut store = Store::new();
    create_account(&mut store, v(b"alice"), &v(b"right horse"), 1).unwrap();
    let r = login(&mut store, &v(b"alice"), &v(b"wrong horse"));
    assert_eq!(r, Err(ApiError::Unauthorized));
}

#[test]
fn unknown_user_login_is_unauthorized() {
    let mut store = Store::new();
    let r = login(&mut store, &v(b"nobody"), &v(b"pw"));
    assert_eq!(r, Err(ApiError::Unauthorized));
}

#[test]
fn correct_password_logs_in_with_fresh_tokens() {
    let mut store = Store::new();
    let t0 = create_account(&mut store, v(b"alice"), &v(b"pw"), 1).unwrap();
    let t1 = login(&mut store, &v(b"alice"), &v(b"pw")).unwrap();
    let t2 = login(&mut store, &v(b"alice"), &v(b"pw")).unwrap();
    assert_ne!(t1, t2);
    assert_ne!(t0, t1);
    assert_ne!(t0, t2);
    assert_eq!(authenticate(&store, t1).unwrap(), v(b"alice"));
    assert_eq!(authenticate(&store, t2).unwrap(), v(b"alice"));
}

#[test]
fn duplicate_username_is_conflict() {
    let mut store = Store::new();
    create_account(&mut store, v(b"alice"), &v(b"pw1"), 1).unwrap();
    let r = create_account(&mut store, v(b"alice"), &v(b"pw2"), 2);
    assert_eq!(r, Err(ApiError::Conflict));
}

#[test]
fn overlong_username_is_bad_request() {
    let mut store = Store::new();
    let name = vec![b'a'; 65];
    let r = create_account(&mut store, name, &v(b"pw"), 1);
    assert_eq!(r, Err(ApiError::BadRequest));
    let ok = vec![b'a'; 64];
    assert!(create_account(&mut store, ok, &v(b"pw"), 1).is_ok());
}

#[test]
fn get_user_reports_identity_and_creation_time() {
    let mut store = Store::new();
    let t = create_account(&mut store, v(b"alice"), &v(b"pw"), 41).unwrap();
    let (who, created) = get_user(&store, t).unwrap();
    assert_eq!(who, v(b"alice"));
    assert_eq!(created, 41);
    assert_eq!(get_user(&store, t.wrapping_add(1)), Err(ApiError::Unauthorized));
}

#[test]
fn logout_revokes_and_is_idempotent() {
    let mut store = Store::new();
    let t = create_account(&mut store, v(b"alice"), &v(b"pw"), 1).unwrap();
    logout(&mut store, t);
    assert_eq!(authenticate(&store, t), Err(ApiError::Unauthorized));
    logout(&mut store, t);
    assert_eq!(authenticate(&store, t), Err(ApiError::Unauthorized));
}

#[test]
fn duplicate_domain_is_conflict_whoever_asks() {
    let mut store = Store::new();
    let ta = create_account(&mut store, v(b"alice"), &v(b"pw"), 1).unwrap();
    let tb = create_account(&mut store, v(b"bob"), &v(b"pw"), 2).unwrap();
    assert!(create_domain(&mut store, ta, v(b"web")).is_ok());
    assert_eq!(create_domain(&mut store, tb, v(b"web")), Err(ApiError::Conflict));
    assert_eq!(create_domain(&mut store, ta, v(b"web")), Err(ApiError::Conflict));
    assert_eq!(list_domains(&store, tb).unwrap(), Vec::<DomainRow>::new());
}

#[test]
fn overlong_domain_name_is_bad_request() {
    let mut store = Store::new();
    let t = create_account(&mut store, v(b"alice"), &v(b"pw"), 1).unwrap();
    let name = vec![b'x'; 64];
    assert_eq!(create_domain(&mut store, t, name), Err(ApiError::BadRequest));
    let ok = vec![b'x'; 63];
    assert!(create_domain(&mut store, t, ok).is_ok());
}

#[test]
fn create_domain_needs_a_live_session() {
    let mut store = Store::new();
    let r = create_domain(&mut store, 12345, v(b"web"));
    assert_eq!(r, Err(ApiError::Unauthorized));
}

#[test]
fn only_the_owner_may_mutate() {
    let mut store = Store::new();
    let ta = create_account(&mut store, v(b"alice"), &v(b"pw"), 1).unwrap();
    let tb = create_account(&mut store, v(b"bob"), &v(b"pw"), 2).unwrap();
    create_domain(&mut store, tb, v(b"bobs")).unwrap();
    update_domain(&mut store, tb, &v(b"bobs"), &None, &Some(Address::V4(0x7f00_0001))).unwrap();

    // alice's token neither updates nor deletes bob's binding, and the
    // refusal does not reveal whether the name exists.
    let r = update_domain(&mut store, ta, &v(b"bobs"), &None, &Some(Address::V4(0x0a00_0001)));
    assert_eq!(r, Err(ApiError::Forbidden));
    let r = delete_domain(&mut store, ta, &v(b"bobs"));
    assert_eq!(r, Err(ApiError::Forbidden));
    let r = update_domain(&mut store, ta, &v(b"nosuch"), &None, &Some(Address::V4(1)));
    assert_eq!(r, Err(ApiError::Forbidden));

    let bobs = list_domains(&store, tb).unwrap();
    assert_eq!(
        bobs,
        vec![DomainRow { name: v(b"bobs"), owner: v(b"bob"), ipv4: Some(0x7f00_0001), ipv6: None }]
    );

    // the owner's token still works.
    assert!(update_domain(&mut store, tb, &v(b"bobs"), &None, &Some(Address::V4(2))).is_ok());
    assert!(delete_domain(&mut store, tb, &v(b"bobs")).is_ok());
    assert_eq!(list_domains(&store, tb).unwrap(), Vec::<DomainRow>::new());
}

#[test]
fn update_clears_one_family_at_a_time() {
    let mut store = Store::new();
    let t = create_account(&mut store, v(b"alice"), &v(b"pw"), 1).unwrap();
    create_domain(&mut store, t, v(b"dual")).unwrap();
    update_domain(&mut store, t, &v(b"dual"), &None, &Some(Address::V4(4))).unwrap();
    update_domain(&mut store, t, &v(b"dual"), &None, &Some(Address::V6(6))).unwrap();
    let rows = list_domains(&store, t).unwrap();
    assert_eq!(rows[0].ipv4, Some(4));
    assert_eq!(rows[0].ipv6, Some(6));

    // an explicit type with an empty body clears that family only.
    update_domain(&mut store, t, &v(b"dual"), &Some(v(b"ipv4")), &None).unwrap();
    let rows = list_domains(&store, t).unwrap();
    assert_eq!(rows[0].ipv4, None);
    assert_eq!(rows[0].ipv6, Some(6));
}

#[test]
fn update_request_decision_table() {
    assert_eq!(update_request(&None, &None), Err(ApiError::BadRequest));
    assert_eq!(update_request(&None, &Some(Address::V4(1))), Ok((floppa_dns::addr::Family::V4, Some(Address::V4(1)))));
    assert_eq!(update_request(&None, &Some(Address::V6(1))), Ok((floppa_dns::addr::Family::V6, Some(Address::V6(1)))));
    assert_eq!(update_request(&Some(v(b"ipv4")), &None), Ok((floppa_dns::addr::Family::V4, None)));
    assert_eq!(update_request(&Some(v(b"ipv6")), &None), Ok((floppa_dns::addr::Family::V6, None)));
    assert_eq!(
        update_request(&Some(v(b"ipv4")), &Some(Address::V6(1))),
        Err(ApiError::BadRequest)
    );
    assert_eq!(
        update_request(&Some(v(b"ipv6")), &Some(Address::V4(1))),
        Err(ApiError::BadRequest)
    );
    assert_eq!(update_request(&Some(v(b"mx")), &Some(Address::V4(1))), Err(ApiError::BadRequest));
}

#[test]
fn list_domains_is_owner_scoped_and_ordered() {
    let mut store = Store::new();
    let ta = create_account(&mut store, v(b"alice"), &v(b"pw"), 1).unwrap();
    let tb = create_account(&mut store, v(b"bob"), &v(b"pw"), 2).unwrap();
    create_domain(&mut store, ta, v(b"one")).unwrap();
    create_domain(&mut store, tb, v(b"two")).unwrap();
    create_domain(&mut store, ta, v(b"three")).unwrap();
    let names: Vec<Vec<u8>> = list_domains(&store, ta).unwrap().into_iter().map(|d| d.name).collect();
    assert_eq!(names, vec![v(b"one"), v(b"three")]);
    let names: Vec<Vec<u8>> = list_domains(&store, tb).unwrap().into_iter().map(|d| d.name).collect();
    assert_eq!(names, vec![v(b"two")]);
    assert_eq!(list_domains(&store, 999), Err(ApiError::Unauthorized));
}

#[test]
fn bearer_header_is_split_on_spaces() {
    assert_eq!(bearer_token(&v(b"Bearer abc")), Some(v(b"abc")));
    assert_eq!(bearer_token(&v(b"Bearer abc def")), Some(v(b"abc")));
    assert_eq!(bearer_token(&v(b"Bearer  x")), Some(v(b"")));
    assert_eq!(bearer_token(&v(b"token")), None);
    assert_eq!(bearer_token(&v(b"")), None);
}

#[test]
fn bearer_tokens_parse_as_128_bit_identifiers() {
    let r = parse_bearer(&v(b"Bearer 550e8400-e29b-41d4-a716-446655440000"));
    assert_eq!(r, Some(0x550e_8400_e29b_41d4_a716_4466_5544_0000));
    assert_eq!(parse_bearer(&v(b"Bearer not-a-token")), None);
    assert_eq!(parse_bearer(&v(b"Bearer")), None);
    assert_eq!(parse_bearer(&v(b"550e8400-e29b-41d4-a716-446655440000")), None);
}

#[test]
fn minted_tokens_round_trip_through_their_text() {
    // the transport sends tokens out as text and reads them back from
    // the Authorization header; a minted token must survive that trip.
    let mut store = Store::new();
    let t = create_account(&mut store, v(b"alice"), &v(b"pw"), 1).unwrap();
    let text = uuid::Uuid::from_u128(t).to_string();
    let header = format!("Bearer {}", text).into_bytes();
    assert_eq!(parse_bearer(&header), Some(t));
    assert_eq!(authenticate(&store, parse_bearer(&header).unwrap()).unwrap(), v(b"alice"));
}

#[test]
fn error_status_codes_match_the_transport() {
    assert_eq!(ApiError::BadRequest.status(), 400);
    assert_eq!(ApiError::Unauthorized.status(), 401);
    assert_eq!(ApiError::Forbidden.status(), 403);
    assert_eq!(ApiError::Conflict.status(), 403);
    assert_eq!(ApiError::Internal.status(), 500);
}
