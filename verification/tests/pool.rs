use minecraft_ipv6::checker::NameChecker;
use minecraft_ipv6::pool::{default_addresses, subnet_addresses, IdentityPool};
use minecraft_ipv6::round::MonitorError;

#[test]
fn pool_settings_are_fixed() {
    let s = IdentityPool::new(vec![1, 2]).settings();
    assert_eq!(s.timeout_secs, 10);
    assert_eq!(s.tcp_keepalive_secs, 60);
    assert_eq!(s.pool_idle_timeout_secs, 60);
    assert_eq!(s.pool_max_idle_per_host, 50);
    let checker = NameChecker::new(vec!["t".to_string()], vec![5, 6]);
    assert_eq!(checker.pool.settings(), s);
    assert_eq!(IdentityPool::new(Vec::new()).settings(), s);
}

#[test]
fn acquire_draws_from_the_pool() {
    let addresses: Vec<u128> = vec![10, 20, 30, 40];
    let pool = IdentityPool::new(addresses.clone());
    assert_eq!(pool.size(), 4);
    assert_eq!(pool.addresses(), &addresses);
    let mut seen = std::collections::HashSet::new();
    for _ in 0..400 {
        let a = pool.acquire();
        assert!(addresses.contains(&a));
        seen.insert(a);
    }
    // with 400 draws from 4 addresses, each stays away with chance (3/4)^400
    assert_eq!(seen.len(), 4);
}

#[test]
fn acquire_from_a_pool_of_one() {
    let pool = IdentityPool::new(vec![0xfe80u128 << 112]);
    for _ in 0..10 {
        assert_eq!(pool.acquire(), 0xfe80u128 << 112);
    }
}

#[test]
fn subnet_addresses_count_up_from_the_prefix() {
    let prefix: u128 = 0x2a0e_97c0_003e_0ada_0000_0000_0000_0000;
    let addresses = subnet_addresses(prefix, 100);
    assert_eq!(addresses.len(), 100);
    assert_eq!(addresses[0], prefix);
    assert_eq!(addresses[1], prefix + 1);
    assert_eq!(addresses[99], prefix + 0x63);
    assert_eq!(addresses[99], 0x2a0e_97c0_003e_0ada_0000_0000_0000_0063);
    assert_eq!(addresses[16], 0x2a0e_97c0_003e_0ada_0000_0000_0000_0010);
    assert!(subnet_addresses(prefix, 0).is_empty());
    assert_eq!(subnet_addresses(u128::MAX - 1, 1), vec![u128::MAX - 1]);
}

#[test]
fn probe_request_names_the_identifier() {
    let checker = NameChecker::new(vec!["t".to_string()], vec![5, 6]);
    let request = checker.probe_request("069a79f444e94726a5befca90e38aaf5");
    assert_eq!(
        request.url,
        "https://sessionserver.mojang.com/session/minecraft/profile/069a79f444e94726a5befca90e38aaf5"
    );
    assert!(request.source == 5 || request.source == 6);
    let request = checker.probe_request("");
    assert_eq!(
        request.url,
        "https://sessionserver.mojang.com/session/minecraft/profile/"
    );
}

#[test]
fn default_pool_is_the_first_hundred_of_the_subnet() {
    let addresses = default_addresses();
    assert_eq!(addresses.len(), 100);
    assert_eq!(addresses[0], 0x2a0e_97c0_003e_0ada_0000_0000_0000_0000);
    assert_eq!(addresses[99], 0x2a0e_97c0_003e_0ada_0000_0000_0000_0063);
    let mut sorted = addresses.clone();
    sorted.dedup();
    assert_eq!(sorted.len(), 100);
}

#[test]
fn monitor_errors_in_words() {
    assert_eq!(
        MonitorError::NoCredentials.message(),
        "No authentication tokens available"
    );
    assert!(!MonitorError::UnknownTarget.message().is_empty());
    assert!(!MonitorError::OutOfTurn.message().is_empty());
    assert!(!MonitorError::RoundInProgress.message().is_empty());
}
