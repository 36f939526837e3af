use trojan_relay::addr::IpAddress;
use trojan_relay::resolver::{select_preferred, DnsResolver, DEFAULT_DNS_CACHE_SECS};

#[test]
fn query_hits_before_expiry() {
    let mut resolver = DnsResolver::new();
    assert_eq!(DEFAULT_DNS_CACHE_SECS, 10);
    resolver.update_dns(b"example.test", IpAddress::V4([10, 0, 0, 1]), 100);
    // expired_at == 110: fresh strictly before it.
    assert_eq!(
        resolver.query_dns(b"example.test", 100),
        Some(IpAddress::V4([10, 0, 0, 1]))
    );
    assert_eq!(
        resolver.query_dns(b"example.test", 109),
        Some(IpAddress::V4([10, 0, 0, 1]))
    );
}

#[test]
fn query_misses_absent_domain() {
    let mut resolver = DnsResolver::new();
    assert_eq!(resolver.query_dns(b"nx.test", 0), None);
}

#[test]
fn expired_entry_is_evicted() {
    let mut resolver = DnsResolver::new();
    resolver.update_dns(b"example.test", IpAddress::V4([10, 0, 0, 1]), 100);
    // expired_at == 110; at exactly 110 the entry no longer counts.
    assert_eq!(resolver.query_dns(b"example.test", 110), None);
    // Evicted: even an earlier clock finds nothing now.
    assert_eq!(resolver.query_dns(b"example.test", 100), None);
}

#[test]
fn refresh_extends_lifetime() {
    let mut resolver = DnsResolver::new();
    resolver.update_dns(b"example.test", IpAddress::V4([10, 0, 0, 1]), 100);
    resolver.update_dns(b"example.test", IpAddress::V4([10, 0, 0, 2]), 105);
    assert_eq!(
        resolver.query_dns(b"example.test", 112),
        Some(IpAddress::V4([10, 0, 0, 2]))
    );
}

#[test]
fn cache_timeout_is_configurable() {
    let mut resolver = DnsResolver::new();
    resolver.set_cache_timeout(60);
    resolver.update_dns(b"example.test", IpAddress::V4([10, 0, 0, 1]), 100);
    assert_eq!(
        resolver.query_dns(b"example.test", 159),
        Some(IpAddress::V4([10, 0, 0, 1]))
    );
    assert_eq!(resolver.query_dns(b"example.test", 160), None);
}

#[test]
fn entries_do_not_shadow_each_other() {
    let mut resolver = DnsResolver::new();
    resolver.update_dns(b"a.test", IpAddress::V4([1, 1, 1, 1]), 100);
    resolver.update_dns(b"b.test", IpAddress::V4([2, 2, 2, 2]), 100);
    assert_eq!(
        resolver.query_dns(b"a.test", 101),
        Some(IpAddress::V4([1, 1, 1, 1]))
    );
    assert_eq!(
        resolver.query_dns(b"b.test", 101),
        Some(IpAddress::V4([2, 2, 2, 2]))
    );
}

#[test]
fn first_ipv4_is_preferred() {
    let v6 = IpAddress::V6([0; 16]);
    let a = IpAddress::V4([10, 0, 0, 1]);
    let b = IpAddress::V4([10, 0, 0, 2]);
    assert_eq!(select_preferred(&vec![v6, a, b]), Some(a));
    assert_eq!(select_preferred(&vec![a, v6, b]), Some(a));
}

#[test]
fn first_ipv6_is_the_fallback() {
    let v6a = IpAddress::V6([1; 16]);
    let v6b = IpAddress::V6([2; 16]);
    assert_eq!(select_preferred(&vec![v6a, v6b]), Some(v6a));
    assert_eq!(select_preferred(&vec![]), None);
}
