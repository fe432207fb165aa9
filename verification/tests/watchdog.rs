use dodemansknop::engine::Engine;
use dodemansknop::schedule::{run_schedule, Ping};

fn ping(at: u64, key: &str) -> Ping {
    Ping { at, key: key.to_string() }
}

/// The alerts a trace owes, computed directly from the rule: a ping expires
/// when no later ping of the same key arrives strictly within the grace
/// period.
fn expected_alerts(pings: &[Ping], grace: u64) -> Vec<(u64, String)> {
    let mut out = Vec::new();
    for i in 0..pings.len() {
        let mut renewed = false;
        for j in (i + 1)..pings.len() {
            if pings[j].key == pings[i].key && pings[j].at < pings[i].at + grace {
                renewed = true;
            }
        }
        if !renewed {
            out.push((pings[i].at + grace, pings[i].key.clone()));
        }
    }
    out
}

#[test]
fn single_ping_alerts_once() {
    let pings = vec![ping(0, "svc-a")];
    let alerts = run_schedule(1000, &pings);
    assert_eq!(alerts.len(), 1);
    assert_eq!(alerts[0].at, 1000);
    assert_eq!(alerts[0].key, "svc-a");
}

#[test]
fn reset_ping_defers_alert() {
    // Grace period 5 s; pings at t=0 and t=3 s: nothing fires at t=5 s, the
    // one alert comes at t=8 s.
    let pings = vec![ping(0, "svc"), ping(3000, "svc")];
    let alerts = run_schedule(5000, &pings);
    assert_eq!(alerts.len(), 1);
    assert!(alerts.iter().all(|a| a.at != 5000));
    assert_eq!(alerts[0].at, 8000);
    assert_eq!(alerts[0].key, "svc");
}

#[test]
fn renewed_key_quiet_until_pings_stop() {
    // Grace period 1 s; pings at 0, 0.5, 0.9 and 1.3 s: no alert through
    // t=1.3 s, then exactly one at t=2.3 s.
    let pings = vec![
        ping(0, "svc-b"),
        ping(500, "svc-b"),
        ping(900, "svc-b"),
        ping(1300, "svc-b"),
    ];
    let alerts = run_schedule(1000, &pings);
    assert_eq!(alerts.len(), 1);
    assert!(alerts.iter().all(|a| a.at > 1300));
    assert_eq!(alerts[0].at, 2300);
    assert_eq!(alerts[0].key, "svc-b");
}

#[test]
fn renewal_at_deadline_is_too_late() {
    // A renewal arriving exactly one grace period after the prior ping does
    // not save it: the gap reached the grace period.
    let pings = vec![ping(0, "k"), ping(1000, "k")];
    let alerts = run_schedule(1000, &pings);
    assert_eq!(alerts.len(), 2);
    assert_eq!((alerts[0].at, alerts[0].key.as_str()), (1000, "k"));
    assert_eq!((alerts[1].at, alerts[1].key.as_str()), (2000, "k"));
}

#[test]
fn interleaved_keys_alert_once_each() {
    // Two keys renewed in lockstep, then silence: one alert per key, at the
    // last ping's deadline.
    let mut pings = Vec::new();
    for i in 0..50u64 {
        let key = if i % 2 == 0 { "even" } else { "odd" };
        pings.push(ping(i * 100, key));
    }
    let alerts = run_schedule(250, &pings);
    assert_eq!(alerts.len(), 2);
    assert_eq!((alerts[0].at, alerts[0].key.as_str()), (4800 + 250, "even"));
    assert_eq!((alerts[1].at, alerts[1].key.as_str()), (4900 + 250, "odd"));
}

#[test]
fn replay_matches_rule_under_stress() {
    // A dense interleaving of five keys, checked against the expiry rule
    // computed directly, for several grace periods.
    let keys = ["a", "b", "c", "d", "e"];
    let mut pings = Vec::new();
    for i in 0..200u64 {
        let key = keys[(i % 5) as usize];
        // Uneven arrival times, still nondecreasing.
        let at = i * 37 + (i % 3) * 11;
        pings.push(ping(at, key));
    }
    for grace in [1, 150, 250, 1000, 10_000] {
        let got: Vec<(u64, String)> =
            run_schedule(grace, &pings).into_iter().map(|a| (a.at, a.key)).collect();
        assert_eq!(got, expected_alerts(&pings, grace));
    }
}

#[test]
fn engine_epoch_supersedes_stale_expiry() {
    // A renewal invalidates the prior handle: the stale expiry is a no-op,
    // the current one fires exactly once.
    let mut eng = Engine::new(5000);
    let first = eng.register_ping("k".to_string());
    let second = eng.register_ping("k".to_string());
    assert_ne!(first, second);
    assert!(!eng.handle_expiry(&"k".to_string(), first));
    assert!(eng.handle_expiry(&"k".to_string(), second));
    // The handle fired and was removed: it cannot fire twice.
    assert!(!eng.handle_expiry(&"k".to_string(), second));
}

#[test]
fn engine_keys_are_independent() {
    let mut eng = Engine::new(5000);
    let ea = eng.register_ping("a".to_string());
    let eb = eng.register_ping("b".to_string());
    assert!(eng.handle_expiry(&"a".to_string(), ea));
    assert!(eng.handle_expiry(&"b".to_string(), eb));
}

#[test]
fn engine_unknown_key_never_fires() {
    let mut eng = Engine::new(5000);
    let ea = eng.register_ping("a".to_string());
    assert!(!eng.handle_expiry(&"b".to_string(), ea));
}

#[test]
fn engine_deadline_is_one_grace_period_out() {
    let eng = Engine::new(5000);
    assert_eq!(eng.grace(), 5000);
    assert_eq!(eng.deadline_after(1234), 6234);
    assert!(eng.can_register());
}
