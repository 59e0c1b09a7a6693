//! One monitoring cycle's bookkeeping.
//!
//! Each cycle captures the minute-truncated current time and, for every
//! configured site, turns the probe's status code into a fact insert, a
//! site upsert, and — when the `success` flag flipped against the
//! previous persisted fact — one notification message.  The caller runs
//! the probes and the sleep; [`record_outcome`] and [`run_cycle`] do the
//! deciding and the bookkeeping.

use vstd::prelude::*;
use crate::detector::{
    evaluate_transition, is_success_code, notification_message, previous_success, spec_message,
    spec_transition, status_success, Transition,
};
use crate::model::{SiteFactModel, SiteFullModel, SiteModel};
use crate::store::{
    spec_insert_fact, spec_last_fact, spec_upsert_site, FactStore,
};
use crate::timestamp::Timestamp;

verus! {

/// Seconds between the end of one cycle and the start of the next.
pub const CYCLE_INTERVAL_SECS: u64 = 60;

/// Status codes fit the persisted small-integer column; HTTP keeps them
/// to three digits.
pub const MAX_STATUS_CODE: u16 = 999;

/// The fact one site's probe outcome persists this cycle.
pub open spec fn spec_outcome_fact(site: SiteModel, now: Timestamp, code: u16) -> SiteFactModel {
    SiteFactModel {
        site: site.site,
        tstamp: now,
        success: is_success_code(code as int),
        status_code: code as i16,
    }
}

/// The notification this outcome triggers, judged against the facts as
/// they stood before this site's write: `None` when the `success` flag
/// did not flip.
pub open spec fn spec_outcome_transition(
    facts: Seq<SiteFactModel>,
    site: SiteModel,
    code: u16,
) -> Option<Transition> {
    spec_transition(
        previous_success(spec_last_fact(facts, site.site@)),
        is_success_code(code as int),
    )
}

/// Builds the row a probe outcome contributes to this cycle's writes.
pub fn outcome_row(site: &SiteModel, now: Timestamp, status_code: u16) -> (r: SiteFullModel)
    requires
        status_code <= MAX_STATUS_CODE,
    ensures
        r.site == site.site,
        r.name == site.name,
        r.tstamp == now,
        r.success == is_success_code(status_code as int),
        r.status_code == status_code as i16,
{
    SiteFullModel {
        site: site.site.clone(),
        name: site.name.clone(),
        tstamp: now,
        success: status_success(status_code),
        status_code: status_code as i16,
    }
}

/// Handles one site's probe outcome: decides the notification against
/// the site's last persisted fact, records the fact (a duplicate minute
/// is a no-op), and upserts the site row.  Returns the message to send,
/// if any; exactly one per flip of `success`, none otherwise.
pub fn record_outcome(
    store: &mut FactStore,
    site: &SiteModel,
    now: Timestamp,
    status_code: u16,
) -> (note: Option<String>)
    requires
        old(store).wf(),
        now.minute_truncated(),
        status_code <= MAX_STATUS_CODE,
    ensures
        final(store).wf(),
        final(store).facts@ == spec_insert_fact(
            old(store).facts@,
            spec_outcome_fact(*site, now, status_code),
        ),
        final(store).sites@ == spec_upsert_site(old(store).sites@, *site),
        note is Some <==> spec_outcome_transition(old(store).facts@, *site, status_code) is Some,
        note matches Some(msg) ==> spec_outcome_transition(old(store).facts@, *site, status_code)
            matches Some(t) && msg@ == spec_message(site.name@, status_code as int, t),
{
    let current = status_success(status_code);
    let tr = {
        let prev_fact = store.last_fact(site.site.as_str());
        evaluate_transition(prev_fact, current)
    };
    let note = match tr {
        Some(t) => Some(notification_message(site.name.as_str(), status_code, t)),
        None => None,
    };
    let row = outcome_row(site, now, status_code);
    store.insert_fact_if_absent(row.fact());
    store.upsert_site(row.site_record());
    note
}

/// The facts after the first `n` sites of the cycle have been recorded.
pub open spec fn spec_cycle_facts(
    facts: Seq<SiteFactModel>,
    config: Seq<SiteModel>,
    outcomes: Seq<u16>,
    now: Timestamp,
    n: int,
) -> Seq<SiteFactModel>
    decreases n,
{
    if n <= 0 {
        facts
    } else {
        spec_insert_fact(
            spec_cycle_facts(facts, config, outcomes, now, n - 1),
            spec_outcome_fact(config[n - 1], now, outcomes[n - 1]),
        )
    }
}

/// The site rows after the first `n` sites of the cycle have been
/// upserted.
pub open spec fn spec_cycle_sites(rows: Seq<SiteModel>, config: Seq<SiteModel>, n: int) -> Seq<
    SiteModel,
>
    decreases n,
{
    if n <= 0 {
        rows
    } else {
        spec_upsert_site(spec_cycle_sites(rows, config, n - 1), config[n - 1])
    }
}

/// The notification messages the first `n` sites of the cycle produce,
/// each judged against the facts as they stood before that site's write.
pub open spec fn spec_cycle_notes(
    facts: Seq<SiteFactModel>,
    config: Seq<SiteModel>,
    outcomes: Seq<u16>,
    now: Timestamp,
    n: int,
) -> Seq<Seq<char>>
    decreases n,
{
    if n <= 0 {
        Seq::empty()
    } else {
        let prior = spec_cycle_notes(facts, config, outcomes, now, n - 1);
        let before = spec_cycle_facts(facts, config, outcomes, now, n - 1);
        match spec_outcome_transition(before, config[n - 1], outcomes[n - 1]) {
            Some(t) => prior.push(
                spec_message(config[n - 1].name@, outcomes[n - 1] as int, t),
            ),
            None => prior,
        }
    }
}

/// Records one whole cycle: every configured site's outcome at the same
/// truncated minute, in configuration order.  Returns the notification
/// messages the cycle produced.
pub fn run_cycle(
    store: &mut FactStore,
    config: &Vec<SiteModel>,
    outcomes: &Vec<u16>,
    now: Timestamp,
) -> (notes: Vec<String>)
    requires
        old(store).wf(),
        now.minute_truncated(),
        config@.len() == outcomes@.len(),
        forall|i: int| 0 <= i < outcomes@.len() ==> (#[trigger] outcomes@[i]) <= MAX_STATUS_CODE,
    ensures
        final(store).wf(),
        final(store).facts@ == spec_cycle_facts(
            old(store).facts@,
            config@,
            outcomes@,
            now,
            config@.len() as int,
        ),
        final(store).sites@ == spec_cycle_sites(
            old(store).sites@,
            config@,
            config@.len() as int,
        ),
        notes@.map_values(|s: String| s@) == spec_cycle_notes(
            old(store).facts@,
            config@,
            outcomes@,
            now,
            config@.len() as int,
        ),
{
    let ghost facts0 = store.facts@;
    let ghost rows0 = store.sites@;
    let n = config.len();
    let mut notes: Vec<String> = Vec::new();
    let mut k: usize = 0;
    proof {
        assert(notes@.map_values(|s: String| s@) =~= Seq::<Seq<char>>::empty());
    }
    while k < n
        invariant
            k <= n,
            n == config@.len(),
            n == outcomes@.len(),
            now.minute_truncated(),
            forall|i: int| 0 <= i < outcomes@.len() ==> (#[trigger] outcomes@[i])
                <= MAX_STATUS_CODE,
            store.wf(),
            store.facts@ == spec_cycle_facts(facts0, config@, outcomes@, now, k as int),
            store.sites@ == spec_cycle_sites(rows0, config@, k as int),
            notes@.map_values(|s: String| s@) == spec_cycle_notes(
                facts0,
                config@,
                outcomes@,
                now,
                k as int,
            ),
        decreases n - k,
    {
        let ghost notes_prev = notes@;
        let note = record_outcome(store, &config[k], now, outcomes[k]);
        if let Some(msg) = note {
            notes.push(msg);
        }
        proof {
            assert(notes@.map_values(|s: String| s@) =~= spec_cycle_notes(
                facts0,
                config@,
                outcomes@,
                now,
                k + 1,
            ));
        }
        k += 1;
    }
    notes
}

/// After a fact with a site's key is in the store, it stays there
/// through every later insert.
proof fn lemma_fact_key_stable(
    facts: Seq<SiteFactModel>,
    f: SiteFactModel,
    site: Seq<char>,
    ts: Timestamp,
)
    requires
        crate::store::fact_key_present(facts, site, ts),
    ensures
        crate::store::fact_key_present(spec_insert_fact(facts, f), site, ts),
{
    let w = choose|w: int|
        0 <= w < facts.len() && (#[trigger] facts[w]).site@ == site && facts[w].tstamp == ts;
    assert(spec_insert_fact(facts, f)[w] == facts[w]);
}

/// Once per site per cycle: after a cycle runs, every configured site
/// has a fact at the cycle's minute.
pub proof fn lemma_cycle_covers_sites(
    facts: Seq<SiteFactModel>,
    config: Seq<SiteModel>,
    outcomes: Seq<u16>,
    now: Timestamp,
    n: int,
)
    requires
        0 <= n <= config.len(),
        config.len() == outcomes.len(),
    ensures
        forall|i: int|
            0 <= i < n ==> crate::store::fact_key_present(
                spec_cycle_facts(facts, config, outcomes, now, n),
                (#[trigger] config[i]).site@,
                now,
            ),
    decreases n,
{
    if n > 0 {
        lemma_cycle_covers_sites(facts, config, outcomes, now, n - 1);
        let before = spec_cycle_facts(facts, config, outcomes, now, n - 1);
        let f = spec_outcome_fact(config[n - 1], now, outcomes[n - 1]);
        let after = spec_insert_fact(before, f);
        assert forall|i: int|
            0 <= i < n implies crate::store::fact_key_present(
            after,
            (#[trigger] config[i]).site@,
            now,
        ) by {
            if i < n - 1 {
                lemma_fact_key_stable(before, f, config[i].site@, now);
            } else {
                if !crate::store::fact_key_present(before, f.site@, f.tstamp) {
                    assert(after[before.len() as int] == f);
                }
            }
        }
    }
}

} // verus!
