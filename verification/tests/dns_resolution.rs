use floppa_dns::addr::Address;
use floppa_dns::dns::{DnsAnswer, DnsCode, DnsMessage, RecordKind, Resolver};
use floppa_dns::domain::{create_domain, update_domain};
use floppa_dns::account::create_account;
use floppa_dns::store::Store;

fn v(b: &[u8]) -> Vec<u8> {
    b.to_vec()
}

fn resolver_with_v4_default() -> Resolver {
    Resolver::new(v(b"example.com."), Some(0x0102_0304), None)
}

fn question(name: &[u8], qtype: RecordKind) -> DnsMessage {
    DnsMessage::Question { name: v(name), qtype }
}

fn store_with_foo_bound_to_9999() -> (Store, u128) {
    let mut store = Store::new();
    let token = create_account(&mut store, v(b"alice"), &v(b"sekrit"), 7).unwrap();
    create_domain(&mut store, token, v(b"foo")).unwrap();
    update_domain(
        &mut store,
        token,
        &v(b"foo"),
        &Some(v(b"ipv4")),
        &Some(Address::V4(0x0909_0909)),
    )
    .unwrap();
    (store, token)
}

#[test]
fn out_of_zone_is_refused() {
    let r = resolver_with_v4_default();
    let store = Store::new();
    for qtype in [RecordKind::A, RecordKind::Aaaa, RecordKind::Other] {
        let a = floppa_dns::dns::resolve(&r, &store, &question(b"bar.other.net.", qtype));
        assert_eq!(a, DnsAnswer::Failure(DnsCode::Refused));
    }
}

#[test]
fn non_query_is_not_implemented() {
    let r = resolver_with_v4_default();
    let store = Store::new();
    let a = floppa_dns::dns::resolve(&r, &store, &DnsMessage::NonQuery);
    assert_eq!(a, DnsAnswer::Failure(DnsCode::NotImplemented));
}

#[test]
fn malformed_is_format_error() {
    let r = resolver_with_v4_default();
    let store = Store::new();
    let a = floppa_dns::dns::resolve(&r, &store, &DnsMessage::Malformed);
    assert_eq!(a, DnsAnswer::Failure(DnsCode::FormatError));
}

#[test]
fn unbound_label_gets_default() {
    let r = resolver_with_v4_default();
    let store = Store::new();
    let a = floppa_dns::dns::resolve(&r, &store, &question(b"foo.example.com.", RecordKind::A));
    assert_eq!(
        a,
        DnsAnswer::Answer { name: v(b"foo.example.com."), ttl: 300, addr: Address::V4(0x0102_0304) }
    );
}

#[test]
fn unbound_label_without_default_gets_empty() {
    let r = Resolver::new(v(b"example.com."), None, None);
    let store = Store::new();
    let a = floppa_dns::dns::resolve(&r, &store, &question(b"foo.example.com.", RecordKind::A));
    assert_eq!(a, DnsAnswer::Empty);
}

#[test]
fn apex_query_gets_default() {
    let r = resolver_with_v4_default();
    let store = Store::new();
    let a = floppa_dns::dns::resolve(&r, &store, &question(b"example.com.", RecordKind::A));
    assert_eq!(
        a,
        DnsAnswer::Answer { name: v(b"example.com."), ttl: 300, addr: Address::V4(0x0102_0304) }
    );
}

#[test]
fn other_record_type_in_zone_gets_empty_success() {
    let r = resolver_with_v4_default();
    let (store, _) = store_with_foo_bound_to_9999();
    let a = floppa_dns::dns::resolve(&r, &store, &question(b"foo.example.com.", RecordKind::Other));
    assert_eq!(a, DnsAnswer::Empty);
}

#[test]
fn bound_label_overrides_default() {
    let r = resolver_with_v4_default();
    let (store, _) = store_with_foo_bound_to_9999();
    let a = floppa_dns::dns::resolve(&r, &store, &question(b"foo.example.com.", RecordKind::A));
    assert_eq!(
        a,
        DnsAnswer::Answer { name: v(b"foo.example.com."), ttl: 300, addr: Address::V4(0x0909_0909) }
    );
}

#[test]
fn bound_label_with_unset_family_falls_back() {
    // v6 is unset on the binding and no v6 default is configured: an
    // AAAA question is a successful empty answer, not an error.
    let r = resolver_with_v4_default();
    let (store, _) = store_with_foo_bound_to_9999();
    let a = floppa_dns::dns::resolve(&r, &store, &question(b"foo.example.com.", RecordKind::Aaaa));
    assert_eq!(a, DnsAnswer::Empty);
}

#[test]
fn zone_scenario_end_to_end() {
    // zone example.com., default v4 1.2.3.4; foo unbound resolves to the
    // default, then a binding 9.9.9.9 overrides it, AAAA stays empty,
    // and an out-of-zone name is refused.
    let r = resolver_with_v4_default();
    let mut store = Store::new();

    let q = question(b"foo.example.com.", RecordKind::A);
    let a = floppa_dns::dns::resolve(&r, &store, &q);
    assert_eq!(
        a,
        DnsAnswer::Answer { name: v(b"foo.example.com."), ttl: 300, addr: Address::V4(0x0102_0304) }
    );

    let token = create_account(&mut store, v(b"owner"), &v(b"pw"), 0).unwrap();
    create_domain(&mut store, token, v(b"foo")).unwrap();
    update_domain(
        &mut store,
        token,
        &v(b"foo"),
        &Some(v(b"ipv4")),
        &Some(Address::V4(0x0909_0909)),
    )
    .unwrap();

    let a = floppa_dns::dns::resolve(&r, &store, &q);
    assert_eq!(
        a,
        DnsAnswer::Answer { name: v(b"foo.example.com."), ttl: 300, addr: Address::V4(0x0909_0909) }
    );

    let a = floppa_dns::dns::resolve(&r, &store, &question(b"foo.example.com.", RecordKind::Aaaa));
    assert_eq!(a, DnsAnswer::Empty);

    let a = floppa_dns::dns::resolve(&r, &store, &question(b"bar.other.net.", RecordKind::A));
    assert_eq!(a, DnsAnswer::Failure(DnsCode::Refused));
}

#[test]
fn v6_binding_answers_aaaa() {
    let r = Resolver::new(v(b"example.com."), Some(0x0102_0304), None);
    let mut store = Store::new();
    let token = create_account(&mut store, v(b"alice"), &v(b"pw"), 0).unwrap();
    create_domain(&mut store, token, v(b"six")).unwrap();
    update_domain(&mut store, token, &v(b"six"), &Some(v(b"ipv6")), &Some(Address::V6(0x2001)))
        .unwrap();
    let a = floppa_dns::dns::resolve(&r, &store, &question(b"six.example.com.", RecordKind::Aaaa));
    assert_eq!(
        a,
        DnsAnswer::Answer { name: v(b"six.example.com."), ttl: 300, addr: Address::V6(0x2001) }
    );
}
