use lumina_core::attestation::relay_ticket::{generate_relay_keypair, RelayTicket, TicketError};
use lumina_core::net::relay::endpoint_cache::{CacheConfig, CacheError, EndpointCache};
use lumina_core::net::relay::relay_registry::RelayRegistry;
use lumina_core::net::relay::stun_bind::{StunBindHandler, StunBindingRequest};

use rand::Rng;

fn now_secs() -> u64 {
    std::time::SystemTime::now().duration_since(std::time::UNIX_EPOCH).unwrap().as_secs()
}

#[test]
fn test_ticket_sign_and_verify() {
    let (sk, vk) = generate_relay_keypair();
    let ticket = RelayTicket::new(&sk, "relay_node_a", "peer_12345", 1, 300);
    assert!(ticket.verify(&vk, 0).is_ok());
}

#[test]
fn test_expired_ticket_rejected() {
    let (sk, vk) = generate_relay_keypair();
    let mut ticket = RelayTicket::new(&sk, "relay", "peer", 1, 1);
    ticket.expiry = now_secs() - 1;
    assert!(matches!(ticket.verify(&vk, 0), Err(TicketError::Expired)));
}

#[test]
fn test_replay_attack_rejected() {
    let (sk, vk) = generate_relay_keypair();
    let ticket = RelayTicket::new(&sk, "relay", "peer", 1, 300);
    assert!(matches!(ticket.verify(&vk, 5), Err(TicketError::ReplayDetected)));
}

#[test]
fn test_tampered_signature_rejected() {
    let (sk, vk) = generate_relay_keypair();
    let mut ticket = RelayTicket::new(&sk, "relay", "peer", 1, 300);
    ticket.target_id = "attacker_peer".to_string();
    assert!(matches!(ticket.verify(&vk, 0), Err(TicketError::InvalidSignature)));
}

#[test]
fn ticket_fields_and_signature_text() {
    let (sk, vk) = generate_relay_keypair();
    let ticket = RelayTicket::new_at(&sk, "r", "t", 3, 10, 1_000);
    assert_eq!(ticket.expiry, 1_010);
    assert_eq!(ticket.signature.len(), 128);
    assert!(ticket.signature.chars().all(|c| c.is_ascii_hexdigit() && !c.is_ascii_uppercase()));
    let other = RelayTicket::new_at(&sk, "r", "t", 3, 10, 1_000);
    assert_eq!(ticket.signature, other.signature);
    let key = vk;
    assert!(ticket.verify_at(&key, 0, 1_010).is_ok());
    assert!(matches!(ticket.verify_at(&key, 0, 1_011), Err(TicketError::Expired)));
    assert!(matches!(ticket.verify_at(&key, 4, 1_000), Err(TicketError::ReplayDetected)));
}

#[test]
fn ticket_signed_with_fixed_secret_verifies_under_its_public_key() {
    let sk = [7u8; 32];
    let public = ed25519_dalek::SigningKey::from_bytes(&sk).verifying_key().to_bytes();
    let ticket = RelayTicket::new_at(&sk, "relay_node_a", "peer_12345", 9, 60, 5_000);
    // signing is deterministic: the same key and fields give the same text
    let again = RelayTicket::new_at(&[7u8; 32], "relay_node_a", "peer_12345", 9, 60, 5_000);
    assert_eq!(ticket.signature, again.signature);
    for now in [0u64, 5_000, 5_060] {
        assert!(ticket.verify_at(&public, 9, now).is_ok());
    }
    assert!(matches!(ticket.verify_at(&public, 10, 5_000), Err(TicketError::ReplayDetected)));
    assert!(matches!(ticket.verify_at(&public, 0, 5_061), Err(TicketError::Expired)));
    // another key's public half refuses it
    let other = ed25519_dalek::SigningKey::from_bytes(&[8u8; 32]).verifying_key().to_bytes();
    assert!(matches!(ticket.verify_at(&other, 0, 5_000), Err(TicketError::InvalidSignature)));
}

#[test]
fn generated_keys_pair_up_and_differ() {
    let (sk, vk) = generate_relay_keypair();
    assert_eq!(vk, ed25519_dalek::SigningKey::from_bytes(&sk).verifying_key().to_bytes());
    let (sk2, _) = generate_relay_keypair();
    assert_ne!(sk, sk2);
    let ticket = RelayTicket::new(&sk, "relay", "peer", 4, 300);
    assert!(ticket.verify(&vk, 4).is_ok());
}

#[test]
fn malformed_signatures_are_key_errors() {
    let (sk, vk) = generate_relay_keypair();
    let key = vk;
    let mut ticket = RelayTicket::new_at(&sk, "r", "t", 1, 10, 0);
    ticket.signature = "zz".to_string();
    match ticket.verify_at(&key, 0, 0) {
        Err(TicketError::KeyError(m)) => assert!(m.starts_with("hex decode: ")),
        _ => panic!("expected a hex error"),
    }
    ticket.signature = "abcd".to_string();
    match ticket.verify_at(&key, 0, 0) {
        Err(TicketError::KeyError(m)) => assert_eq!(m, "bad signature length"),
        _ => panic!("expected a length error"),
    }
}

fn setup_cache() -> (EndpointCache, [u8; 32]) {
    let (sk, vk) = generate_relay_keypair();
    let mut cache = EndpointCache::new(CacheConfig { poison_threshold: 3, penalty_window_secs: 60, ..Default::default() });
    cache.register_relay("relay_a".to_string(), vk);
    (cache, sk)
}

#[test]
fn test_put_and_get_endpoint() {
    let (mut cache, sk) = setup_cache();
    let ticket = RelayTicket::new(&sk, "relay_a", "peer_1", 1, 300);
    assert!(cache.put_endpoint("peer_1", ticket).is_ok());

    let endpoints = cache.get_endpoints("peer_1");
    assert_eq!(endpoints.len(), 1);
    assert_eq!(endpoints[0].relay_id, "relay_a");
}

#[test]
fn test_target_mismatch_rejected() {
    let (mut cache, sk) = setup_cache();
    let ticket = RelayTicket::new(&sk, "relay_a", "peer_1", 1, 300);
    let result = cache.put_endpoint("peer_WRONG", ticket);
    assert!(matches!(result, Err(CacheError::TargetMismatch)));
}

#[test]
fn test_unregistered_relay_rejected() {
    let (cache_sk, _cache_vk) = generate_relay_keypair();
    let mut cache = EndpointCache::new(CacheConfig::default());
    let ticket = RelayTicket::new(&cache_sk, "relay_b", "peer_1", 1, 300);
    let result = cache.put_endpoint("peer_1", ticket);
    assert!(result.is_err());
    match result {
        Err(CacheError::TicketInvalid(TicketError::KeyError(m))) => assert_eq!(m, "relay relay_b not registered"),
        _ => panic!("expected an unregistered relay"),
    }
}

#[test]
fn test_poison_blacklist_triggers() {
    let (mut cache, sk) = setup_cache();
    for _ in 0..3 {
        let mut ticket = RelayTicket::new(&sk, "relay_a", "peer_1", 1, 300);
        ticket.target_id = "tampered".to_string();
        cache.report_poison_attempt("relay_a");
    }
    assert!(cache.is_blacklisted("relay_a"));
    let good_ticket = RelayTicket::new(&sk, "relay_a", "peer_1", 2, 300);
    assert!(matches!(cache.put_endpoint("peer_1", good_ticket), Err(CacheError::PeerBlacklisted)));
}

#[test]
fn test_max_endpoints_per_peer_eviction() {
    let (mut cache, sk) = setup_cache();
    for i in 1..=17 {
        let ticket = RelayTicket::new(&sk, "relay_a", "peer_1", i, 300);
        cache.put_endpoint("peer_1", ticket).unwrap();
    }
    let endpoints = cache.get_endpoints("peer_1");
    assert!(endpoints.len() <= 16);
}

#[test]
fn test_cache_full_error() {
    let (mut cache, sk) = setup_cache();
    cache.config.max_cache_entries = 2;
    cache.put_endpoint("p1", RelayTicket::new(&sk, "relay_a", "p1", 1, 300)).unwrap();
    cache.put_endpoint("p2", RelayTicket::new(&sk, "relay_a", "p2", 2, 300)).unwrap();
    let result = cache.put_endpoint("p3", RelayTicket::new(&sk, "relay_a", "p3", 3, 300));
    assert!(matches!(result, Err(CacheError::CacheFull)));
}

#[test]
fn test_stats() {
    let (mut cache, sk) = setup_cache();
    cache.put_endpoint("peer_1", RelayTicket::new(&sk, "relay_a", "peer_1", 1, 300)).unwrap();
    let stats = cache.stats();
    assert_eq!(stats.total_entries, 1);
    assert_eq!(stats.unique_peers, 1);
    assert_eq!(stats.registered_relays, 1);
}

#[test]
fn eviction_drops_the_oldest_entry() {
    let (mut cache, sk) = setup_cache();
    cache.config.max_endpoints_per_peer = 2;
    let t0 = now_secs() * 1000;
    cache.put_endpoint_at("p", RelayTicket::new(&sk, "relay_a", "p", 1, 300), t0 + 30).unwrap();
    cache.put_endpoint_at("p", RelayTicket::new(&sk, "relay_a", "p", 2, 300), t0 + 10).unwrap();
    cache.put_endpoint_at("p", RelayTicket::new(&sk, "relay_a", "p", 3, 300), t0 + 20).unwrap();
    let endpoints = cache.get_endpoints_at("p", t0 + 40);
    let epochs: Vec<u64> = endpoints.iter().map(|e| e.ticket.epoch).collect();
    assert_eq!(epochs, vec![1, 3]);
}

#[test]
fn replayed_epochs_are_refused_and_entries_expire() {
    let (mut cache, sk) = setup_cache();
    let t0 = now_secs() * 1000;
    cache.put_endpoint_at("p", RelayTicket::new(&sk, "relay_a", "p", 5, 300), t0).unwrap();
    let stale = RelayTicket::new(&sk, "relay_a", "p", 4, 300);
    assert!(matches!(cache.put_endpoint_at("p", stale, t0), Err(CacheError::TicketInvalid(TicketError::ReplayDetected))));
    assert_eq!(cache.get_endpoints_at("p", t0 + 300_000).len(), 1);
    assert_eq!(cache.get_endpoints_at("p", t0 + 300_001).len(), 0);
}

#[test]
fn poison_window_restarts_after_it_lapses() {
    let (mut cache, _sk) = setup_cache();
    assert!(!cache.report_poison_attempt_at("relay_a", 0));
    assert!(!cache.report_poison_attempt_at("relay_a", 1_000));
    assert!(!cache.report_poison_attempt_at("relay_a", 61_001));
    assert!(!cache.report_poison_attempt_at("relay_a", 62_000));
    assert!(cache.report_poison_attempt_at("relay_a", 63_000));
    assert!(cache.is_blacklisted("relay_a"));
    assert_eq!(cache.stats().blacklisted_relays, 1);
}

#[test]
fn unregistering_drops_the_relays_entries() {
    let (mut cache, sk) = setup_cache();
    cache.put_endpoint("p1", RelayTicket::new(&sk, "relay_a", "p1", 1, 300)).unwrap();
    cache.unregister_relay("relay_a");
    let stats = cache.stats();
    assert_eq!(stats.total_entries, 0);
    assert_eq!(stats.unique_peers, 0);
    assert_eq!(stats.registered_relays, 0);
}

#[test]
fn test_register_and_query() {
    let (_sk, vk) = generate_relay_keypair();
    let mut registry = RelayRegistry::new();
    let info = registry.register_relay("relay_1", &vk);
    assert!(info.active);
    assert!(registry.is_active("relay_1"));
    assert!(!registry.is_active("unknown"));
}

#[test]
fn test_deactivate() {
    let (_, vk) = generate_relay_keypair();
    let mut registry = RelayRegistry::new();
    registry.register_relay("relay_1", &vk);
    registry.deactivate_relay("relay_1");
    assert!(!registry.is_active("relay_1"));
    assert_eq!(registry.active_relays().len(), 0);
}

#[test]
fn test_sync_to_cache() {
    let (_, vk) = generate_relay_keypair();
    let mut registry = RelayRegistry::new();
    registry.register_relay("relay_1", &vk);

    let config = CacheConfig::default();
    let mut cache = EndpointCache::new(config);
    registry.sync_to_cache(&mut cache);

    let stats = cache.stats();
    assert_eq!(stats.registered_relays, 1);
}

#[test]
fn sync_skips_inactive_relays() {
    let (_, vk) = generate_relay_keypair();
    let mut registry = RelayRegistry::new();
    registry.register_relay("relay_1", &vk);
    registry.register_relay("relay_2", &vk);
    registry.deactivate_relay("relay_2");
    let mut cache = EndpointCache::new(CacheConfig::default());
    registry.sync_to_cache(&mut cache);
    assert_eq!(cache.stats().registered_relays, 1);
}

#[test]
fn test_handle_request_generates_ticket() {
    let (sk, vk) = generate_relay_keypair();
    let mut handler = StunBindHandler::new(300);
    let request = StunBindingRequest::new("peer_123", "relay_alpha");
    let response = handler.handle_request(&request, &sk);
    assert!(response.ticket.verify(&vk, 0).is_ok());
    assert_eq!(response.ticket.target_id, "peer_123");
    assert_eq!(response.ticket.relay_id, "relay_alpha");
    assert_eq!(response.relay_endpoint, "turn://relay_alpha.example.com:3478");
    assert_eq!(response.ticket.epoch, 1);
}

#[test]
fn test_validate_good_response() {
    let (sk, vk) = generate_relay_keypair();
    let mut handler = StunBindHandler::new(300);
    let mut cache = EndpointCache::new(CacheConfig::default());
    let mut registry = RelayRegistry::new();
    registry.register_relay("relay_alpha", &vk);
    registry.sync_to_cache(&mut cache);

    let request = StunBindingRequest::new("peer_123", "relay_alpha");
    let response = handler.handle_request(&request, &sk);
    let result = handler.validate_response(&response, &mut cache);
    assert!(result.is_ok());
}

#[test]
fn test_validate_bad_response_reports_poison() {
    let (sk, vk) = generate_relay_keypair();
    let mut handler = StunBindHandler::new(300);
    let mut cache = EndpointCache::new(CacheConfig { poison_threshold: 2, penalty_window_secs: 60, ..Default::default() });
    let mut registry = RelayRegistry::new();
    registry.register_relay("relay_bad", &vk);
    registry.sync_to_cache(&mut cache);

    let request = StunBindingRequest::new("peer_123", "relay_bad");
    let mut response = handler.handle_request(&request, &sk);
    response.ticket.target_id = "tampered_target".to_string();

    let result = handler.validate_response(&response, &mut cache);
    assert!(result.is_err());

    cache.report_poison_attempt("relay_bad");
    assert!(cache.is_blacklisted("relay_bad"));
}

#[test]
fn fuzz_1000_malicious_bindings_no_poisoning() {
    let (_honest_sk, honest_vk) = generate_relay_keypair();
    let (attacker_sk, attacker_vk) = generate_relay_keypair();

    let mut registry = RelayRegistry::new();
    registry.register_relay("honest_relay", &honest_vk);
    registry.register_relay("attacker", &attacker_vk);

    let mut cache = EndpointCache::new(CacheConfig {
        poison_threshold: 5,
        penalty_window_secs: 60,
        entry_ttl_secs: 300,
        max_endpoints_per_peer: 16,
        max_cache_entries: 10_000,
    });
    registry.sync_to_cache(&mut cache);

    let _handler = StunBindHandler::new(300);
    let mut rng = rand::thread_rng();
    let mut successful_poisons = 0;

    for i in 0..1_000usize {
        let target_id = format!("victim_peer_{}", rng.gen_range(0..10));
        let fake_relay_id = format!("evil_relay_{}", rng.gen_range(0..5));
        let mut ticket = RelayTicket::new(&attacker_sk, &fake_relay_id, &target_id, i as u64 + 1, 300);
        if rng.gen_bool(0.5) {
            ticket.target_id = format!("evil_target_{}", rng.gen_range(0..100));
        }
        if rng.gen_bool(0.3) {
            ticket.signature = hex::encode(vec![0u8; 64]);
        }
        if rng.gen_bool(0.2) {
            ticket.expiry = 0;
        }
        if cache.put_endpoint(&target_id, ticket).is_ok() {
            successful_poisons += 1;
        }
    }

    assert_eq!(successful_poisons, 0);
    assert_eq!(cache.stats().total_entries, 0);
}

#[test]
fn fuzz_attacker_blacklisted_after_threshold() {
    let (_honest_sk, honest_vk) = generate_relay_keypair();
    let (attacker_sk, attacker_vk) = generate_relay_keypair();

    let mut registry = RelayRegistry::new();
    registry.register_relay("honest_relay", &honest_vk);
    registry.register_relay("attacker", &attacker_vk);

    let mut cache = EndpointCache::new(CacheConfig { poison_threshold: 5, penalty_window_secs: 60, ..Default::default() });
    registry.sync_to_cache(&mut cache);

    for i in 0..5 {
        let mut ticket = RelayTicket::new(&attacker_sk, "attacker", "victim", i + 1, 300);
        ticket.target_id = "tampered".to_string();
        cache.report_poison_attempt("attacker");
    }

    assert!(cache.is_blacklisted("attacker"));

    let valid_ticket = RelayTicket::new(&attacker_sk, "attacker", "victim", 6, 300);
    assert!(cache.put_endpoint("victim", valid_ticket).is_err());
}

#[test]
fn fuzz_honest_relay_works_fine() {
    let (honest_sk, honest_vk) = generate_relay_keypair();

    let mut registry = RelayRegistry::new();
    registry.register_relay("honest_relay", &honest_vk);

    let mut cache = EndpointCache::new(CacheConfig::default());
    registry.sync_to_cache(&mut cache);

    for i in 0..100 {
        let ticket = RelayTicket::new(&honest_sk, "honest_relay", "honest_peer", i + 1, 300);
        assert!(cache.put_endpoint("honest_peer", ticket).is_ok(), "Honest relay ticket #{} failed", i);
    }

    assert!(!cache.is_blacklisted("honest_relay"));
    assert!(cache.stats().blacklisted_relays == 0);
}
