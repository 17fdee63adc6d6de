use tlstun::error::{ConfigFault, TunnelError};
use tlstun::pool::IpPool;

fn drain(pool: &mut IpPool) -> Vec<String> {
    let mut out = Vec::new();
    while let Ok(ip) = pool.get_ip() {
        out.push(ip);
        if out.len() > 70000 {
            break;
        }
    }
    out
}

#[test]
fn network_pool_of_mask_30_has_two_hosts() {
    let mut pool = IpPool::new("clients", "10.0.0.0/30").unwrap();
    assert!(!pool.is_host_mode());
    assert_eq!(pool.available(), 2);
    assert_eq!(drain(&mut pool), vec!["10.0.0.1".to_string(), "10.0.0.2".to_string()]);
}

#[test]
fn network_pool_size_is_two_less_than_block() {
    for (mask, size) in [(30u32, 2usize), (29, 6), (28, 14), (24, 254), (22, 1022), (16, 65534)] {
        let pool = IpPool::new("clients", &format!("172.16.0.0/{}", mask)).unwrap();
        assert_eq!(pool.available(), size);
        assert_eq!(pool.available(), (1usize << (32 - mask)) - 2);
    }
}

#[test]
fn network_pool_excludes_network_and_broadcast() {
    let mut pool = IpPool::new("clients", "173.75.1.0/24").unwrap();
    let all = drain(&mut pool);
    assert_eq!(all.len(), 254);
    assert_eq!(all[0], "173.75.1.1");
    assert_eq!(all[253], "173.75.1.254");
    assert!(!all.contains(&"173.75.1.0".to_string()));
    assert!(!all.contains(&"173.75.1.255".to_string()));
}

#[test]
fn network_pool_crosses_octet_boundaries() {
    let mut pool = IpPool::new("clients", "10.1.254.0/23").unwrap();
    let all = drain(&mut pool);
    assert_eq!(all.len(), 510);
    assert_eq!(all[0], "10.1.254.1");
    assert_eq!(all[254], "10.1.254.255");
    assert_eq!(all[255], "10.1.255.0");
    assert_eq!(all[509], "10.1.255.254");
}

#[test]
fn network_pool_starts_at_the_block_of_its_base() {
    let mut pool = IpPool::new("clients", "192.168.7.77/29").unwrap();
    let all = drain(&mut pool);
    let expected: Vec<String> = (73..=78).map(|h| format!("192.168.7.{}", h)).collect();
    assert_eq!(all, expected);
}

#[test]
fn network_pool_at_the_top_of_the_address_space() {
    let mut pool = IpPool::new("clients", "255.255.255.255/30").unwrap();
    assert_eq!(drain(&mut pool), vec!["255.255.255.253".to_string(), "255.255.255.254".to_string()]);
}

#[test]
fn network_pool_never_issues_an_address_twice() {
    let mut pool = IpPool::new("clients", "10.9.8.0/26").unwrap();
    let mut all = drain(&mut pool);
    assert_eq!(all.len(), 62);
    all.sort();
    all.dedup();
    assert_eq!(all.len(), 62);
}

#[test]
fn allocated_address_is_absent_until_released() {
    let mut pool = IpPool::new("clients", "10.0.0.0/29").unwrap();
    let first = pool.get_ip().unwrap();
    let second = pool.get_ip().unwrap();
    assert_ne!(first, second);
    pool.free_ip(&first).unwrap();
    let mut rest = drain(&mut pool);
    assert_eq!(rest.iter().filter(|ip| **ip == first).count(), 1);
    assert!(!rest.contains(&second));
    rest.sort();
    rest.dedup();
    assert_eq!(rest.len(), 5);
}

#[test]
fn release_after_allocate_keeps_pool_size() {
    let mut pool = IpPool::new("clients", "10.0.0.0/28").unwrap();
    let before = pool.available();
    let ip = pool.get_ip().unwrap();
    assert_eq!(pool.available(), before - 1);
    assert!(pool.free_ip(&ip).is_ok());
    assert_eq!(pool.available(), before);
}

#[test]
fn network_pool_hands_out_in_order_and_queues_releases_last() {
    let mut pool = IpPool::new("clients", "10.0.0.0/29").unwrap();
    assert_eq!(pool.get_ip().unwrap(), "10.0.0.1");
    assert_eq!(pool.get_ip().unwrap(), "10.0.0.2");
    pool.free_ip("10.0.0.1").unwrap();
    assert_eq!(
        drain(&mut pool),
        vec!["10.0.0.3", "10.0.0.4", "10.0.0.5", "10.0.0.6", "10.0.0.1"]
    );
}

#[test]
fn empty_network_pool_is_exhausted() {
    let mut pool = IpPool::new("clients", "10.0.0.0/30").unwrap();
    pool.get_ip().unwrap();
    pool.get_ip().unwrap();
    assert_eq!(pool.get_ip(), Err(TunnelError::PoolExhausted));
    assert_eq!(pool.available(), 0);
    assert_eq!(pool.get_ip(), Err(TunnelError::PoolExhausted));
    pool.free_ip("10.0.0.2").unwrap();
    assert_eq!(pool.get_ip().unwrap(), "10.0.0.2");
}

#[test]
fn host_pool_always_returns_its_address() {
    let mut pool = IpPool::new("server", "173.75.2.1").unwrap();
    assert!(pool.is_host_mode());
    for _ in 0..5 {
        assert_eq!(pool.get_ip().unwrap(), "173.75.2.1");
        assert_eq!(pool.available(), 1);
    }
}

#[test]
fn host_pool_ignores_releases() {
    let mut pool = IpPool::new("server", "173.75.2.1").unwrap();
    assert!(pool.free_ip("173.75.2.1").is_ok());
    assert!(pool.free_ip("10.0.0.9").is_ok());
    assert_eq!(pool.available(), 1);
    assert_eq!(pool.get_ip().unwrap(), "173.75.2.1");
    assert_eq!(pool.get_ip().unwrap(), "173.75.2.1");
}

#[test]
fn host_pool_keeps_any_text_without_a_slash() {
    let mut pool = IpPool::new("server", "gateway.example").unwrap();
    assert!(pool.is_host_mode());
    assert_eq!(pool.get_ip().unwrap(), "gateway.example");
}

#[test]
fn mask_above_30_is_a_config_error() {
    for text in ["10.0.0.0/31", "10.0.0.0/32", "10.0.0.0/33", "10.0.0.0/255"] {
        let r = IpPool::new("clients", text);
        assert_eq!(r.err(), Some(TunnelError::ConfigError(ConfigFault::MaskTooLarge)), "{}", text);
    }
    assert!(IpPool::new("clients", "10.0.0.0/30").is_ok());
}

#[test]
fn mask_is_checked_before_the_address() {
    let r = IpPool::new("clients", "not.an.address/31");
    assert_eq!(r.err(), Some(TunnelError::ConfigError(ConfigFault::MaskTooLarge)));
}

#[test]
fn malformed_configuration_is_a_config_error() {
    for text in [
        "10.0.0.0/",
        "/24",
        "10.0.0/24",
        "10.0.0.0.0/24",
        "10.0.0.256/24",
        "10.0.0.x/24",
        "10.0.0.0/x",
        "10.0.0.0/256",
        "10.0.0.0/-1",
        "10.0.0.0/24/1",
        "10..0.0/24",
        "10.0.0.0 /24",
        "10.0.0.0/ 24",
        "10.0.0.0/2\u{664}",
    ] {
        let r = IpPool::new("clients", text);
        assert_eq!(r.err(), Some(TunnelError::ConfigError(ConfigFault::Malformed)), "{}", text);
    }
}

#[test]
fn octets_may_carry_a_plus_sign_and_leading_zeros() {
    let mut pool = IpPool::new("clients", "+10.000.0.008/030").unwrap();
    assert_eq!(drain(&mut pool), vec!["10.0.0.9".to_string(), "10.0.0.10".to_string()]);
}

#[test]
fn pool_keeps_its_name() {
    assert_eq!(IpPool::new("client IP pool", "10.0.0.0/30").unwrap().name(), "client IP pool");
    assert_eq!(IpPool::new("Server_ips", "173.75.2.1").unwrap().name(), "Server_ips");
}

#[test]
fn test_new_accepts_what_new_accepts() {
    let host = IpPool::test_new("test", "173.75.2.1").unwrap();
    assert!(host.is_host_mode());
    let net = IpPool::test_new("test", "173.75.1.0/24").unwrap();
    assert!(!net.is_host_mode());
    assert_eq!(net.available(), 0);
    assert_eq!(IpPool::test_new("test", "0.0.0.0/0").unwrap().available(), 0);
}

#[test]
fn test_new_refuses_what_new_refuses() {
    assert_eq!(
        IpPool::test_new("test", "173.75.1.0/31").err(),
        Some(TunnelError::ConfigError(ConfigFault::MaskTooLarge))
    );
    assert_eq!(
        IpPool::test_new("test", "173.75.1.0/24/8").err(),
        Some(TunnelError::ConfigError(ConfigFault::Malformed))
    );
    assert_eq!(
        IpPool::test_new("test", "173.75.1/24").err(),
        Some(TunnelError::ConfigError(ConfigFault::Malformed))
    );
}

#[test]
fn errors_describe_themselves() {
    assert_eq!(
        TunnelError::ConfigError(ConfigFault::MaskTooLarge).message(),
        "Network mask cannot be larger than 30"
    );
    assert_eq!(TunnelError::ConfigError(ConfigFault::Malformed).message(), "Not a valid network address");
    assert_eq!(TunnelError::PoolExhausted.message(), "No ip left");
}
