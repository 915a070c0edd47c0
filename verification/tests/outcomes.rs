use minecraft_ipv6::outcome::{
    classify_claim, classify_probe, is_rate_limited, settle_claim, settle_probe, Emphasis, Reply,
    Target,
};

fn target(name: &str, identifier: &str) -> Target {
    Target { name: name.to_string(), identifier: identifier.to_string() }
}

#[test]
fn probe_no_content_means_available() {
    assert_eq!(classify_probe(204), (true, 204));
    assert_eq!(classify_probe(200), (false, 200));
    assert_eq!(classify_probe(404), (false, 404));
    assert_eq!(classify_probe(429), (false, 429));
    assert_eq!(classify_probe(500), (false, 500));
}

#[test]
fn claim_ok_means_claimed() {
    assert_eq!(classify_claim(200), (true, 200));
    assert_eq!(classify_claim(204), (false, 204));
    assert_eq!(classify_claim(403), (false, 403));
    assert_eq!(classify_claim(429), (false, 429));
}

#[test]
fn only_429_is_a_rate_limit() {
    assert!(is_rate_limited(429));
    assert!(!is_rate_limited(204));
    assert!(!is_rate_limited(428));
    assert!(!is_rate_limited(430));
    assert!(!is_rate_limited(503));
}

#[test]
fn available_name_calls_for_a_claim() {
    let t = target("alice", "uuid-1");
    assert!(settle_probe(&t, &Reply::Status(204)).is_none());
}

#[test]
fn held_name_is_reported_by_its_status() {
    let t = target("bob", "uuid-2");
    let r = settle_probe(&t, &Reply::Status(404)).unwrap();
    assert_eq!(r.name, "bob");
    assert_eq!(r.identifier, "uuid-2");
    assert_eq!(r.status, "404");
    assert!(!r.important);
    assert_eq!(r.emphasis, Emphasis::Neutral);
    let r = settle_probe(&t, &Reply::Status(200)).unwrap();
    assert_eq!(r.status, "200");
    assert_eq!(r.emphasis, Emphasis::Neutral);
}

#[test]
fn rate_limited_lookup_is_reported_as_429() {
    let t = target("carol", "uuid-3");
    let r = settle_probe(&t, &Reply::Status(429)).unwrap();
    assert_eq!(r.status, "429");
    assert!(!r.important);
    assert_eq!(r.emphasis, Emphasis::Negative);
}

#[test]
fn failed_lookup_is_reported_as_error() {
    let t = target("dave", "uuid-4");
    let r = settle_probe(&t, &Reply::Failed("connection refused".to_string())).unwrap();
    assert_eq!(r.status, "error: connection refused");
    assert!(!r.important);
    assert_eq!(r.emphasis, Emphasis::Failure);
}

#[test]
fn claim_answers_are_reported() {
    let t = target("alice", "uuid-1");
    let r = settle_claim(&t, &Reply::Status(200));
    assert_eq!(r.status, "claimed (200)");
    assert!(r.important);
    assert_eq!(r.emphasis, Emphasis::Positive);
    assert_eq!(r.name, "alice");
    assert_eq!(r.identifier, "uuid-1");
    let r = settle_claim(&t, &Reply::Status(403));
    assert_eq!(r.status, "failed to claim (403)");
    assert!(!r.important);
    assert_eq!(r.emphasis, Emphasis::Neutral);
    let r = settle_claim(&t, &Reply::Status(429));
    assert_eq!(r.status, "failed to claim (429)");
    let r = settle_claim(&t, &Reply::Failed("timed out".to_string()));
    assert_eq!(r.status, "error: timed out");
    assert_eq!(r.emphasis, Emphasis::Failure);
}
