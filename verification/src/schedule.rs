//! The meaning of the watchdog over time, and the proof that the engine
//! implements it.
//!
//! A trace is a sequence of pings ordered by arrival time. A ping expires
//! when no later ping for the same key arrives strictly within the grace
//! period; each expiring ping owes exactly one alert, at its deadline.
//! `run_schedule` replays a trace against the engine the way the process
//! does — registering each ping, and delivering each scheduled expiry when
//! its deadline comes, before any ping that arrives at or after it — and is
//! proved to emit exactly the owed alerts, in deadline order.

use vstd::prelude::*;

use crate::engine::Engine;

verus! {

/// A heartbeat for `key`, received at time `at` (milliseconds).
pub struct Ping {
    pub at: u64,
    pub key: String,
}

/// A missed deadline: at time `at`, `key` had gone a full grace period
/// without a renewal.
pub struct Alert {
    pub at: u64,
    pub key: String,
}

/// Is the ping at index `i` renewed in time: does a later ping for the same
/// key arrive strictly before this ping's deadline?
pub open spec fn renewed_in_time(pings: Seq<Ping>, grace: u64, i: int) -> bool {
    exists|j: int|
        i < j < pings.len() && pings[j].key@ == pings[i].key@ && pings[j].at < pings[i].at + grace
}

/// Does the ping at index `i` expire: a full grace period passes with no
/// renewal for its key?
pub open spec fn expires(pings: Seq<Ping>, grace: u64, i: int) -> bool {
    !renewed_in_time(pings, grace, i)
}

/// The alert the ping at index `i` owes if it expires: its key, at its
/// deadline.
pub open spec fn alert_of(pings: Seq<Ping>, grace: u64, i: int) -> (int, Seq<char>) {
    (pings[i].at + grace, pings[i].key@)
}

/// The alerts owed by the pings from index `i` on, in index order.
pub open spec fn alerts_from(pings: Seq<Ping>, grace: u64, i: int) -> Seq<(int, Seq<char>)>
    decreases pings.len() - i,
{
    if 0 <= i && i < pings.len() {
        if expires(pings, grace, i) {
            seq![alert_of(pings, grace, i)] + alerts_from(pings, grace, i + 1)
        } else {
            alerts_from(pings, grace, i + 1)
        }
    } else {
        Seq::empty()
    }
}

/// All alerts a trace owes: one per expiring ping, in index order — which is
/// also deadline order, since the trace is ordered by arrival time.
pub open spec fn watchdog_alerts(pings: Seq<Ping>, grace: u64) -> Seq<(int, Seq<char>)> {
    alerts_from(pings, grace, 0)
}

/// The alerts of a run, as (deadline, key) pairs.
pub open spec fn alert_views(v: Seq<Alert>) -> Seq<(int, Seq<char>)> {
    v.map(|_i: int, a: Alert| (a.at as int, a.key@))
}

/// A well-formed trace: pings ordered by arrival time, every deadline
/// representable.
pub open spec fn trace_wf(pings: Seq<Ping>, grace: u64) -> bool {
    &&& forall|i: int, j: int| 0 <= i < j < pings.len() ==> pings[i].at <= pings[j].at
    &&& forall|i: int| 0 <= i < pings.len() ==> pings[i].at + grace <= u64::MAX
}

/// Among the first `i` pings, is the ping at `p` the latest one for its key?
pub open spec fn current_reg(pings: Seq<Ping>, p: int, i: int) -> bool {
    forall|j: int| p < j < i ==> pings[j].key@ != pings[p].key@
}

/// The state of a replay after the first `i` pings have been registered and
/// the first `fired` scheduled expiries have been delivered:
/// - the engine has handed out one epoch per registered ping, in order;
/// - the registry holds exactly the keys whose latest registration has not
///   yet seen its expiry delivered, each at that registration's epoch;
/// - no undelivered expiry's deadline has passed any registered ping;
/// - the alerts emitted so far are the owed alerts of the pings whose
///   expiries were delivered.
spec fn replay_inv(
    pings: Seq<Ping>,
    grace: u64,
    eng: Engine,
    epochs: Seq<u64>,
    alerts: Seq<Alert>,
    i: int,
    fired: int,
) -> bool {
    &&& 0 <= fired <= i <= pings.len()
    &&& eng.inv()
    &&& eng.epoch_bound() == i
    &&& epochs.len() == i
    &&& (forall|p: int| 0 <= p < i ==> (#[trigger] epochs[p]) == p)
    &&& (forall|p: int|
        fired <= p < i && #[trigger] current_reg(pings, p, i) ==> eng.contains_key(pings[p].key@)
            && eng.epoch_of(pings[p].key@) == epochs[p])
    &&& (forall|k: Seq<char>|
        #[trigger] eng.contains_key(k) ==> exists|p: int|
            fired <= p < i && current_reg(pings, p, i) && pings[p].key@ == k)
    &&& (forall|f: int, j: int|
        #![trigger pings[f].at, pings[j].at]
        fired <= f < j < i ==> pings[j].at < pings[f].at + grace)
    &&& alerts_from(pings, grace, 0) == alert_views(alerts) + alerts_from(pings, grace, fired)
}

/// Delivers the expiry scheduled for ping `fired` to the engine, exactly when
/// its deadline has come: after every ping that arrived before the deadline,
/// and before any ping arriving at or after it (`i` is the next ping still to
/// arrive, `pings.len()` when none is left). The engine's epoch check makes
/// the expiry fire exactly when the ping expired.
fn deliver_expiry(
    eng: &mut Engine,
    pings: &Vec<Ping>,
    grace: u64,
    epochs: &Vec<u64>,
    alerts: &mut Vec<Alert>,
    fired: usize,
    Ghost(i): Ghost<int>,
)
    requires
        trace_wf(pings@, grace),
        replay_inv(pings@, grace, *old(eng), epochs@, old(alerts)@, i, fired as int),
        (fired as int) < i,
        i == pings@.len() || pings@[fired as int].at + grace <= pings@[i].at,
    ensures
        replay_inv(pings@, grace, *final(eng), epochs@, final(alerts)@, i, fired as int + 1),
{
    let ghost ps = pings@;
    let ghost f = fired as int;
    let ghost pre = *eng;
    let ghost pre_alerts = alerts@;

    proof {
        // The engine's epoch check answers "is this ping still the latest of
        // its key", and that in turn decides "did this ping expire".
        if current_reg(ps, f, i) {
            assert forall|j: int|
                f < j < ps.len() && ps[j].key@ == ps[f].key@ implies !(ps[j].at < ps[f].at
                + grace) by {
                if j < i {
                    assert(ps[j].key@ != ps[f].key@);
                } else {
                    assert(i < ps.len());
                    if i < j {
                        assert(ps[i].at <= ps[j].at);
                    }
                }
            }
            assert(expires(ps, grace, f));
        } else {
            assert(exists|j: int| f < j < i && ps[j].key@ == ps[f].key@);
            let j = choose|j: int| f < j < i && ps[j].key@ == ps[f].key@;
            assert(f < j < i && ps[j].key@ == ps[f].key@);
            assert(ps[j].at < ps[f].at + grace);
            assert(renewed_in_time(ps, grace, f));
        }
    }

    let epoch = epochs[fired];
    let did_fire = eng.handle_expiry(&pings[fired].key, epoch);

    proof {
        assert(epoch == f);
        if current_reg(ps, f, i) {
            assert(pre.contains_key(ps[f].key@) && pre.epoch_of(ps[f].key@) == epochs@[f]);
            assert(did_fire);
        } else {
            if pre.contains_key(ps[f].key@) {
                let p = choose|p: int|
                    f <= p < i && current_reg(ps, p, i) && ps[p].key@ == ps[f].key@;
                assert(f <= p < i && current_reg(ps, p, i) && ps[p].key@ == ps[f].key@);
                assert(p != f);
                assert(pre.epoch_of(ps[f].key@) == epochs@[p]);
                assert(epochs@[p] == p && p != f);
                assert(!did_fire);
            }
            assert(!did_fire);
            assert(!expires(ps, grace, f));
        }
        assert(did_fire == expires(ps, grace, f));
    }

    if did_fire {
        let at = pings[fired].at + grace;
        let key = pings[fired].key.clone();
        alerts.push(Alert { at, key });
    }

    proof {
        let ghost av = alert_of(ps, grace, f);
        // The owed-alert accounting moves one step: the alerts owed from
        // `f` are this ping's (when it expired) plus those owed from `f + 1`.
        if did_fire {
            assert(alert_views(alerts@) =~= alert_views(pre_alerts).push(av));
            assert(alerts_from(ps, grace, f) == seq![av] + alerts_from(ps, grace, f + 1));
            assert(alert_views(pre_alerts) + alerts_from(ps, grace, f) =~= alert_views(alerts@)
                + alerts_from(ps, grace, f + 1));
        } else {
            assert(alerts_from(ps, grace, f) == alerts_from(ps, grace, f + 1));
        }

        // The registry still matches the trace, one delivery later.
        assert forall|p: int|
            f + 1 <= p < i && current_reg(ps, p, i) implies eng.contains_key(ps[p].key@)
            && eng.epoch_of(ps[p].key@) == epochs@[p] by {
            if did_fire {
                assert(current_reg(ps, f, i));
                if ps[p].key@ == ps[f].key@ {
                    assert(ps[p].key@ != ps[f].key@);  // from current_reg(f, i) with j == p
                }
                assert(pre.contains_key(ps[p].key@) && pre.epoch_of(ps[p].key@) == epochs@[p]);
            } else {
                assert(pre.contains_key(ps[p].key@) && pre.epoch_of(ps[p].key@) == epochs@[p]);
            }
        }
        assert forall|k: Seq<char>| eng.contains_key(k) implies exists|p: int|
            f + 1 <= p < i && current_reg(ps, p, i) && ps[p].key@ == k by {
            if did_fire {
                assert(k != ps[f].key@);
                assert(pre.contains_key(k));
            }
            let p = choose|p: int| f <= p < i && current_reg(ps, p, i) && ps[p].key@ == k;
            assert(f <= p < i && current_reg(ps, p, i) && ps[p].key@ == k);
            if p == f {
                assert(did_fire);
                assert(!eng.contains_key(ps[f].key@));
            }
            assert(f + 1 <= p);
        }
    }
}

/// Replays a trace of pings against a fresh engine, scheduling one expiry
/// per ping and delivering each at its deadline, and returns the alerts the
/// engine raised. The result is exactly one alert per missed deadline: an
/// alert (at `p.at + grace`, for `p.key`) for each ping `p` that no later
/// ping of the same key renewed strictly within the grace period — and no
/// other alert, in deadline order. In particular, an expiry already in
/// flight when its key is pinged again never yields a spurious alert.
pub fn run_schedule(grace: u64, pings: &Vec<Ping>) -> (alerts: Vec<Alert>)
    requires
        trace_wf(pings@, grace),
    ensures
        alert_views(alerts@) == watchdog_alerts(pings@, grace),
{
    let ghost ps = pings@;
    let mut eng = Engine::new(grace);
    let mut epochs: Vec<u64> = Vec::new();
    let mut alerts: Vec<Alert> = Vec::new();
    let mut fired: usize = 0;
    let mut i: usize = 0;

    proof {
        assert(alert_views(alerts@) =~= Seq::<(int, Seq<char>)>::empty());
        assert(alerts_from(ps, grace, 0) =~= alert_views(alerts@) + alerts_from(ps, grace, 0));
    }

    while i < pings.len()
        invariant
            trace_wf(ps, grace),
            ps == pings@,
            epochs@.len() == i,
            replay_inv(ps, grace, eng, epochs@, alerts@, i as int, fired as int),
        decreases ps.len() - i,
    {
        while fired < i && pings[fired].at + grace <= pings[i].at
            invariant
                trace_wf(ps, grace),
                ps == pings@,
                i < ps.len(),
                replay_inv(ps, grace, eng, epochs@, alerts@, i as int, fired as int),
            decreases i - fired,
        {
            deliver_expiry(&mut eng, pings, grace, &epochs, &mut alerts, fired, Ghost(i as int));
            fired = fired + 1;
        }

        proof {
            // Every still-scheduled expiry is for a ping this new arrival
            // renews in time: its deadline has not come yet.
            assert forall|f: int| fired <= f < i implies ps[i as int].at < ps[f].at + grace by {
                assert(!(fired < i && ps[fired as int].at + grace <= ps[i as int].at));
                if (fired as int) < f {
                    assert(ps[fired as int].at <= ps[f].at);
                }
            }
        }

        let key = pings[i].key.clone();
        let ghost pre = eng;
        let epoch = eng.register_ping(key);
        epochs.push(epoch);

        proof {
            assert forall|p: int|
                fired <= p < i + 1 && #[trigger] current_reg(ps, p, i + 1) implies eng.contains_key(
                ps[p].key@,
            ) && eng.epoch_of(ps[p].key@) == epochs@[p] by {
                if p == i {
                    assert(eng.contains_key(ps[p].key@) && eng.epoch_of(ps[p].key@) == epoch);
                } else {
                    assert(ps[i as int].key@ != ps[p].key@);  // current_reg(p, i + 1) at j == i
                    assert(current_reg(ps, p, i as int));
                    assert(pre.contains_key(ps[p].key@) && pre.epoch_of(ps[p].key@) == epochs@[p]);
                }
            }
            assert forall|k: Seq<char>| #[trigger] eng.contains_key(k) implies exists|p: int|
                fired <= p < i + 1 && current_reg(ps, p, i + 1) && ps[p].key@ == k by {
                if k == ps[i as int].key@ {
                    assert(current_reg(ps, i as int, i + 1) && ps[i as int].key@ == k);
                    assert(fired <= (i as int) && (i as int) < i + 1);
                } else {
                    assert(pre.contains_key(k));
                    let p = choose|p: int|
                        fired <= p < i && current_reg(ps, p, i as int) && ps[p].key@ == k;
                    assert(fired <= p < i && current_reg(ps, p, i as int) && ps[p].key@ == k);
                    assert(current_reg(ps, p, i + 1));
                }
            }
            assert(forall|p: int| 0 <= p < i + 1 ==> (#[trigger] epochs@[p]) == p);
            assert(forall|f: int, j: int|
                #![trigger ps[f].at, ps[j].at]
                fired <= f < j < i + 1 ==> ps[j].at < ps[f].at + grace);
        }

        i = i + 1;
    }

    while fired < pings.len()
        invariant
            trace_wf(ps, grace),
            ps == pings@,
            replay_inv(ps, grace, eng, epochs@, alerts@, ps.len() as int, fired as int),
        decreases ps.len() - fired,
    {
        deliver_expiry(
            &mut eng,
            pings,
            grace,
            &epochs,
            &mut alerts,
            fired,
            Ghost(ps.len() as int),
        );
        fired = fired + 1;
    }

    proof {
        assert(alerts_from(ps, grace, ps.len() as int) =~= Seq::<(int, Seq<char>)>::empty());
        assert(alert_views(alerts@) + alerts_from(ps, grace, ps.len() as int) =~= alert_views(
            alerts@,
        ));
    }
    alerts
}

/// How many of these alerts are for key `k`.
pub open spec fn count_alerts_for(alerts: Seq<(int, Seq<char>)>, k: Seq<char>) -> int
    decreases alerts.len(),
{
    if alerts.len() == 0 {
        0
    } else {
        (if alerts[0].1 == k {
            1int
        } else {
            0int
        }) + count_alerts_for(alerts.drop_first(), k)
    }
}

/// How many pings of key `k` from index `i` on expire.
spec fn count_expiring(pings: Seq<Ping>, grace: u64, k: Seq<char>, i: int) -> int
    decreases pings.len() - i,
{
    if 0 <= i && i < pings.len() {
        (if expires(pings, grace, i) && pings[i].key@ == k {
            1int
        } else {
            0int
        }) + count_expiring(pings, grace, k, i + 1)
    } else {
        0
    }
}

/// The owed alerts hold one alert for key `k` per expiring ping of key `k`.
proof fn lemma_count_alerts(pings: Seq<Ping>, grace: u64, k: Seq<char>, i: int)
    ensures
        count_alerts_for(alerts_from(pings, grace, i), k) == count_expiring(pings, grace, k, i),
    decreases pings.len() - i,
{
    if 0 <= i && i < pings.len() {
        lemma_count_alerts(pings, grace, k, i + 1);
        if expires(pings, grace, i) {
            let av = alert_of(pings, grace, i);
            let rest = alerts_from(pings, grace, i + 1);
            assert((seq![av] + rest).drop_first() =~= rest);
            assert((seq![av] + rest)[0] == av);
            assert((seq![av] + rest).len() == 1 + rest.len());
        }
    }
}

/// An expiring ping's alert stands among the owed alerts.
proof fn lemma_alert_present(pings: Seq<Ping>, grace: u64, i: int, from: int)
    requires
        0 <= from <= i < pings.len(),
        expires(pings, grace, i),
    ensures
        alerts_from(pings, grace, from).contains(alert_of(pings, grace, i)),
    decreases i - from,
{
    if from == i {
        let s = alerts_from(pings, grace, from);
        assert(s[0] == alert_of(pings, grace, i));
        assert(s.contains(alert_of(pings, grace, i)));
    } else {
        lemma_alert_present(pings, grace, i, from + 1);
        let rest = alerts_from(pings, grace, from + 1);
        let idx = choose|idx: int| 0 <= idx < rest.len() && rest[idx] == alert_of(pings, grace, i);
        if expires(pings, grace, from) {
            let s = seq![alert_of(pings, grace, from)] + rest;
            assert(s[idx + 1] == alert_of(pings, grace, i));
            assert(s.contains(alert_of(pings, grace, i)));
        }
    }
}

/// Every owed alert is some expiring ping's alert.
proof fn lemma_alert_source(pings: Seq<Ping>, grace: u64, from: int, a: (int, Seq<char>))
    requires
        alerts_from(pings, grace, from).contains(a),
    ensures
        exists|i: int|
            from <= i < pings.len() && expires(pings, grace, i) && a == alert_of(pings, grace, i),
    decreases pings.len() - from,
{
    if 0 <= from && from < pings.len() {
        let rest = alerts_from(pings, grace, from + 1);
        if expires(pings, grace, from) {
            let s = seq![alert_of(pings, grace, from)] + rest;
            let idx = choose|idx: int| 0 <= idx < s.len() && s[idx] == a;
            if idx == 0 {
                assert(from <= from < pings.len() && expires(pings, grace, from) && a == alert_of(
                    pings,
                    grace,
                    from,
                ));
            } else {
                assert(rest[idx - 1] == a);
                assert(rest.contains(a));
                lemma_alert_source(pings, grace, from + 1, a);
                let i = choose|i: int|
                    from + 1 <= i < pings.len() && expires(pings, grace, i) && a == alert_of(
                        pings,
                        grace,
                        i,
                    );
                assert(from <= i < pings.len() && expires(pings, grace, i) && a == alert_of(
                    pings,
                    grace,
                    i,
                ));
            }
        } else {
            lemma_alert_source(pings, grace, from + 1, a);
            let i = choose|i: int|
                from + 1 <= i < pings.len() && expires(pings, grace, i) && a == alert_of(
                    pings,
                    grace,
                    i,
                );
            assert(from <= i < pings.len() && expires(pings, grace, i) && a == alert_of(
                pings,
                grace,
                i,
            ));
        }
    } else {
        assert(false);
    }
}

/// Under the hypotheses of the renewal law, key `k` has exactly one expiring
/// ping from `i` on: its last one, when `i` has not passed it yet.
proof fn lemma_count_expiring_single(
    pings: Seq<Ping>,
    grace: u64,
    k: Seq<char>,
    last: int,
    i: int,
)
    requires
        0 <= last < pings.len(),
        0 <= i <= pings.len(),
        pings[last].key@ == k,
        forall|j: int| last < j < pings.len() ==> pings[j].key@ != k,
        forall|j: int|
            0 <= j < last && pings[j].key@ == k ==> #[trigger] renewed_in_time(pings, grace, j),
    ensures
        count_expiring(pings, grace, k, i) == if i <= last {
            1int
        } else {
            0int
        },
    decreases pings.len() - i,
{
    if i < pings.len() {
        lemma_count_expiring_single(pings, grace, k, last, i + 1);
        if pings[i].key@ == k {
            if i < last {
                assert(renewed_in_time(pings, grace, i));
                assert(!expires(pings, grace, i));
            } else if i == last {
                assert(expires(pings, grace, i));
            }
        }
    }
}

/// Law: while a key keeps being renewed — every ping of the key before its
/// last one sees another ping of the key strictly within the grace period —
/// the watchdog owes the key no alert during the renewals: its one and only
/// alert is at the last ping's deadline, one grace period after the last
/// ping.
pub proof fn lemma_renewed_key_alerts(pings: Seq<Ping>, grace: u64, k: Seq<char>, last: int)
    requires
        0 <= last < pings.len(),
        pings[last].key@ == k,
        forall|j: int| last < j < pings.len() ==> pings[j].key@ != k,
        forall|j: int|
            0 <= j < last && pings[j].key@ == k ==> #[trigger] renewed_in_time(pings, grace, j),
    ensures
        watchdog_alerts(pings, grace).contains((pings[last].at + grace, k)),
        count_alerts_for(watchdog_alerts(pings, grace), k) == 1,
        forall|a: (int, Seq<char>)|
            watchdog_alerts(pings, grace).contains(a) && a.1 == k ==> a.0 == pings[last].at
                + grace,
{
    assert(expires(pings, grace, last));
    lemma_alert_present(pings, grace, last, 0);
    lemma_count_alerts(pings, grace, k, 0);
    lemma_count_expiring_single(pings, grace, k, last, 0);
    assert forall|a: (int, Seq<char>)|
        watchdog_alerts(pings, grace).contains(a) && a.1 == k implies a.0 == pings[last].at
        + grace by {
        lemma_alert_source(pings, grace, 0, a);
        let i = choose|i: int|
            0 <= i < pings.len() && expires(pings, grace, i) && a == alert_of(pings, grace, i);
        assert(pings[i].key@ == k);
        if i < last {
            assert(renewed_in_time(pings, grace, i));
        }
        assert(i == last);
    }
}

/// Law: a key pinged exactly once in the trace is owed exactly one alert: at
/// that ping's deadline, one grace period after the ping.
pub proof fn lemma_single_ping_one_alert(pings: Seq<Ping>, grace: u64, k: Seq<char>, only: int)
    requires
        0 <= only < pings.len(),
        pings[only].key@ == k,
        forall|j: int| 0 <= j < pings.len() && j != only ==> pings[j].key@ != k,
    ensures
        watchdog_alerts(pings, grace).contains((pings[only].at + grace, k)),
        count_alerts_for(watchdog_alerts(pings, grace), k) == 1,
        forall|a: (int, Seq<char>)|
            watchdog_alerts(pings, grace).contains(a) && a.1 == k ==> a.0 == pings[only].at
                + grace,
{
    lemma_renewed_key_alerts(pings, grace, k, only);
}

} // verus!
