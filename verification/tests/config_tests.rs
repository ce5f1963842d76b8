use zzdns::config::{
    bind_addr_text, get_cache_max_size, get_cache_max_ttl, get_preload_domain_count,
    get_preloader_filename, select_upstreams, upstream_addr_text, AddrKind,
};
use zzdns::Config;

fn config() -> Config {
    Config {
        port: 3053,
        server: vec!["8.8.8.8".to_string(), "[::1]:53".to_string()],
        preload_domain_count: 100,
        cache_max_size: 4096,
        cache_max_ttl: 600,
        preload_domain_file: "config/domains.txt".to_string(),
    }
}

#[test]
fn getters_give_the_configured_values() {
    let c = config();
    assert_eq!(get_cache_max_ttl(&c), 600);
    assert_eq!(get_cache_max_size(&c), 4096);
    assert_eq!(get_preload_domain_count(&c), 100);
    assert_eq!(get_preloader_filename(&c), "config/domains.txt");
}

#[test]
fn bind_address_is_every_interface_at_the_port() {
    let mut c = config();
    assert_eq!(bind_addr_text(&c), "0.0.0.0:3053");
    c.port = 0;
    assert_eq!(bind_addr_text(&c), "0.0.0.0:0");
    c.port = 65535;
    assert_eq!(bind_addr_text(&c), "0.0.0.0:65535");
    c.port = 53;
    assert_eq!(bind_addr_text(&c), "0.0.0.0:53");
}

#[test]
fn upstream_without_port_gets_port_53() {
    assert_eq!(upstream_addr_text("8.8.8.8"), "8.8.8.8:53");
    assert_eq!(upstream_addr_text(""), ":53");
}

#[test]
fn upstream_with_port_is_kept() {
    assert_eq!(upstream_addr_text("1.1.1.1:5353"), "1.1.1.1:5353");
    assert_eq!(upstream_addr_text("[::1]"), "[::1]");
}

#[test]
fn upstream_address_given_the_default_port_twice_is_unchanged() {
    for item in ["8.8.8.8", "1.1.1.1:5353", "dns.example", ""] {
        let once = upstream_addr_text(item);
        assert_eq!(upstream_addr_text(&once), once);
        assert!(once.contains(':'));
    }
}

#[test]
fn only_ipv4_upstreams_are_used_in_order() {
    let kinds = vec![AddrKind::V4, AddrKind::V6, AddrKind::Invalid, AddrKind::V4];
    assert_eq!(select_upstreams(&kinds), vec![0, 3]);
    assert_eq!(select_upstreams(&vec![]), Vec::<usize>::new());
    assert_eq!(select_upstreams(&vec![AddrKind::V6, AddrKind::Invalid]), Vec::<usize>::new());
}
