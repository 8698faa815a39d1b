use gg_core::clients::ClientTracker;
use gg_core::config::ClientTimeout;

fn ten_minutes() -> ClientTimeout {
    ClientTimeout { secs: 600, nanos: 0 }
}

#[test]
fn alive_before_anyone_connects() {
    let mut t = ClientTracker::new(ten_minutes());
    let check = t.is_dead(10_000_000);
    assert!(!check.is_dead && !check.send_shutdown);
    assert!(!t.has_ever_connected());
}

#[test]
fn heartbeat_tracks_clients() {
    let mut t = ClientTracker::new(ten_minutes());
    let first = t.keep_alive("a".to_string(), 0);
    assert!(first.is_new && !first.cancelled_departure);
    let again = t.keep_alive("a".to_string(), 5);
    assert!(!again.is_new);
    t.keep_alive("b".to_string(), 5);
    assert_eq!(t.client_count(), 2);
    assert!(t.has_ever_connected());
}

#[test]
fn reload_cancels_departure() {
    let mut t = ClientTracker::new(ten_minutes());
    t.keep_alive("a".to_string(), 0);
    t.last_rites("a".to_string());
    let back = t.keep_alive("a".to_string(), 1);
    assert!(back.cancelled_departure);
    assert_eq!(t.client_count(), 1);
}

#[test]
fn last_departure_shuts_down_once() {
    let mut t = ClientTracker::new(ten_minutes());
    t.keep_alive("a".to_string(), 0);
    t.keep_alive("b".to_string(), 0);
    t.last_rites("a".to_string());
    assert!(!t.depart(&"a".to_string()));
    t.last_rites("b".to_string());
    assert!(t.depart(&"b".to_string()));
    assert_eq!(t.client_count(), 0);
    // the signal is sent only once
    assert!(!t.depart(&"b".to_string()));
    let check = t.is_dead(1);
    assert!(check.is_dead && !check.send_shutdown);
}

#[test]
fn silent_clients_time_out() {
    let mut t = ClientTracker::new(ten_minutes());
    t.keep_alive("a".to_string(), 0);
    let within = t.is_dead(600_000);
    assert!(!within.is_dead);
    let after = t.is_dead(600_001);
    assert!(after.is_dead && after.send_shutdown);
    assert_eq!(t.client_count(), 0);
}

#[test]
fn configured_timeout_applies() {
    let mut t = ClientTracker::new(ClientTimeout { secs: 60, nanos: 0 });
    t.keep_alive("a".to_string(), 0);
    t.keep_alive("b".to_string(), 100_000);
    // a has been silent for two minutes, b for twenty seconds
    let first = t.is_dead(120_000);
    assert!(!first.is_dead && !first.send_shutdown);
    assert_eq!(t.client_count(), 1);
    // now b too has been silent for longer than a minute
    let second = t.is_dead(160_001);
    assert!(second.is_dead && second.send_shutdown);
    assert_eq!(t.client_count(), 0);
}

#[test]
fn sub_second_timeout_counts_nanoseconds() {
    let mut t = ClientTracker::new(ClientTimeout { secs: 0, nanos: 1_500_000 });
    t.keep_alive("a".to_string(), 10);
    assert!(!t.is_dead(11).is_dead);
    assert!(t.is_dead(12).is_dead);
}
