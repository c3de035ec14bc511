use kv_node::resolver::{Endpoint, Ipv4, Resolver};

const LOOPBACK: Ipv4 = Ipv4 { a: 127, b: 0, c: 0, d: 1 };

#[test]
fn resolve_adds_the_base_port() {
    let r = Resolver::new(8080);
    assert_eq!(r.resolve(2), Endpoint { host: LOOPBACK, port: 8082 });
    assert_eq!(Resolver::new(11000).resolve(1).port, 11001);
}

#[test]
fn resolve_is_repeatable_and_injective() {
    let r = Resolver::new(8080);
    assert_eq!(r.resolve(1), r.resolve(1));
    assert_ne!(r.resolve(1), r.resolve(2));
}

#[test]
fn resolve_at_the_port_limit() {
    let r = Resolver::new(65000);
    assert!(r.can_resolve(535));
    assert_eq!(r.try_resolve(535), Some(Endpoint { host: LOOPBACK, port: 65535 }));
    assert!(!r.can_resolve(536));
    assert_eq!(r.try_resolve(536), None);
    assert_eq!(r.try_resolve(u64::MAX), None);
}
