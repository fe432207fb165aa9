//! The alert dispatcher's contract: alerts are delivered one at a time, in
//! the order they were raised, and a failed delivery never blocks or drops a
//! later one.
//!
//! Delivery itself is I/O; the loop that performs it hands each attempt's
//! outcome back, and this module's accounting is proved over those outcomes:
//! one attempt per alert, in order, whatever each attempt returned.

use vstd::prelude::*;

verus! {

/// One delivery attempt: the alerted key, and whether the notifier reported
/// success.
pub struct DispatchRecord {
    pub key: String,
    pub delivered: bool,
}

/// Accounts for one batch of alert events given the outcome of each delivery
/// attempt: every alert gets exactly one record, in the order the alerts
/// were raised — a failed attempt (a `false` outcome) never stops or
/// reorders the attempts that follow it.
pub fn dispatch_all(alerts: &Vec<String>, outcomes: &Vec<bool>) -> (log: Vec<DispatchRecord>)
    requires
        outcomes@.len() == alerts@.len(),
    ensures
        log@.len() == alerts@.len(),
        forall|i: int|
            0 <= i < log@.len() ==> (#[trigger] log@[i]).key@ == alerts@[i]@ && log@[i].delivered
                == outcomes@[i],
{
    let mut log: Vec<DispatchRecord> = Vec::new();
    let mut i: usize = 0;
    while i < alerts.len()
        invariant
            outcomes@.len() == alerts@.len(),
            i <= alerts@.len(),
            log@.len() == i,
            forall|j: int|
                0 <= j < i ==> (#[trigger] log@[j]).key@ == alerts@[j]@ && log@[j].delivered
                    == outcomes@[j],
        decreases alerts@.len() - i,
    {
        let key = alerts[i].clone();
        let delivered = outcomes[i];
        log.push(DispatchRecord { key, delivered });
        i = i + 1;
    }
    log
}

} // verus!
