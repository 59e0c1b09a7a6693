//! The fact store: reachability facts and site rows, and the queries the
//! cycle runs against them.
//!
//! Facts are append-mostly, keyed by `(site, timestamp)`, with at most
//! one fact per site per truncated minute; a duplicate insert is a no-op,
//! never an overwrite and never an error.  Site rows are keyed by site
//! and upserted every cycle so the display name tracks the latest
//! configuration.  The aggregation query joins each requested site's most
//! recent fact with its trailing 24-hour uptime ratio and orders the rows
//! by display name.

use vstd::prelude::*;
use crate::model::{SiteFactModel, SiteModel, SiteStatModel, UptimeRatio};
use crate::strkit::{lex_le, lemma_lex_le_total, lemma_lex_le_trans, str_eq, str_le};
use crate::timestamp::Timestamp;

verus! {

/// Two facts collide when they share the `(site, timestamp)` key.
pub open spec fn same_key(a: SiteFactModel, b: SiteFactModel) -> bool {
    a.site@ == b.site@ && a.tstamp == b.tstamp
}

/// Some fact carries the given `(site, timestamp)` key.
pub open spec fn fact_key_present(facts: Seq<SiteFactModel>, site: Seq<char>, ts: Timestamp) -> bool {
    exists|i: int|
        0 <= i < facts.len() && (#[trigger] facts[i]).site@ == site && facts[i].tstamp == ts
}

/// Some fact belongs to the given site.
pub open spec fn has_fact_for(facts: Seq<SiteFactModel>, site: Seq<char>) -> bool {
    exists|i: int| 0 <= i < facts.len() && (#[trigger] facts[i]).site@ == site
}

/// Some site row carries the given site key.
pub open spec fn site_key_present(sites: Seq<SiteModel>, site: Seq<char>) -> bool {
    exists|i: int| 0 <= i < sites.len() && (#[trigger] sites[i]).site@ == site
}

/// Fact well-formedness: keys are unique and every timestamp lies on a
/// minute boundary.
pub open spec fn facts_wf(facts: Seq<SiteFactModel>) -> bool {
    &&& forall|i: int, j: int|
        0 <= i < j < facts.len() ==> !same_key(#[trigger] facts[i], #[trigger] facts[j])
    &&& forall|i: int| 0 <= i < facts.len() ==> (#[trigger] facts[i]).tstamp.minute_truncated()
}

/// Site-row well-formedness: site keys are unique.
pub open spec fn sites_wf(sites: Seq<SiteModel>) -> bool {
    forall|i: int, j: int|
        0 <= i < j < sites.len() ==> (#[trigger] sites[i]).site@ != (#[trigger] sites[j]).site@
}

/// What a fact insert does: nothing when the key is already present,
/// an append otherwise.
pub open spec fn spec_insert_fact(facts: Seq<SiteFactModel>, f: SiteFactModel) -> Seq<
    SiteFactModel,
> {
    if fact_key_present(facts, f.site@, f.tstamp) {
        facts
    } else {
        facts.push(f)
    }
}

/// What a site upsert does: replaces the row with the same key, or
/// appends the row when its key is new.
pub open spec fn spec_upsert_site(sites: Seq<SiteModel>, s: SiteModel) -> Seq<SiteModel> {
    let replaced = Seq::new(
        sites.len(),
        |i: int| if sites[i].site@ == s.site@ {
            s
        } else {
            sites[i]
        },
    );
    if site_key_present(sites, s.site@) {
        replaced
    } else {
        replaced.push(s)
    }
}

/// The site's most recent fact: the first fact carrying the site's key
/// whose timestamp no later fact for the site exceeds.
pub open spec fn spec_last_fact(facts: Seq<SiteFactModel>, site: Seq<char>) -> Option<
    SiteFactModel,
>
    decreases facts.len(),
{
    if facts.len() == 0 {
        None
    } else {
        let prev = spec_last_fact(facts.drop_last(), site);
        let f = facts.last();
        if f.site@ == site && (prev is None || prev.unwrap().tstamp.lt(f.tstamp)) {
            Some(f)
        } else {
            prev
        }
    }
}

/// The first site row carrying the given key.
pub open spec fn spec_site_record(sites: Seq<SiteModel>, site: Seq<char>) -> Option<SiteModel>
    decreases sites.len(),
{
    if sites.len() == 0 {
        None
    } else {
        let prev = spec_site_record(sites.drop_last(), site);
        if prev is Some {
            prev
        } else if sites.last().site@ == site {
            Some(sites.last())
        } else {
            None
        }
    }
}

/// The fact lies in the trailing 24-hour window of `now` and belongs to
/// the site.
pub open spec fn fact_in_window(f: SiteFactModel, site: Seq<char>, now: Timestamp) -> bool {
    f.site@ == site && f.tstamp.in_trailing_day(now)
}

/// How many facts of the site lie in the trailing 24-hour window.
pub open spec fn window_count(facts: Seq<SiteFactModel>, site: Seq<char>, now: Timestamp) -> nat
    decreases facts.len(),
{
    if facts.len() == 0 {
        0
    } else {
        window_count(facts.drop_last(), site, now) + if fact_in_window(facts.last(), site, now) {
            1nat
        } else {
            0nat
        }
    }
}

/// How many of those facts were successful.
pub open spec fn window_up_count(facts: Seq<SiteFactModel>, site: Seq<char>, now: Timestamp) -> nat
    decreases facts.len(),
{
    if facts.len() == 0 {
        0
    } else {
        window_up_count(facts.drop_last(), site, now) + if fact_in_window(facts.last(), site, now)
            && facts.last().success {
            1nat
        } else {
            0nat
        }
    }
}

/// The window counts are exactly the sizes of the filtered histories:
/// `total` counts every fact of the site in the trailing day, `up` the
/// successful ones among them — so `up / total` is the arithmetic mean
/// of `success` as 0/1 over the window.
pub proof fn lemma_window_counts_are_filter_sizes(
    facts: Seq<SiteFactModel>,
    site: Seq<char>,
    now: Timestamp,
)
    ensures
        window_count(facts, site, now) == facts.filter(
            |f: SiteFactModel| fact_in_window(f, site, now),
        ).len(),
        window_up_count(facts, site, now) == facts.filter(
            |f: SiteFactModel| fact_in_window(f, site, now) && f.success,
        ).len(),
    decreases facts.len(),
{
    reveal(Seq::filter);
    if facts.len() > 0 {
        lemma_window_counts_are_filter_sizes(facts.drop_last(), site, now);
    }
}

/// A site appears on the status page exactly when it has a site row, at
/// least one fact ever, and at least one fact in the trailing 24-hour
/// window.
pub open spec fn stat_exists(
    facts: Seq<SiteFactModel>,
    sites: Seq<SiteModel>,
    site: Seq<char>,
    now: Timestamp,
) -> bool {
    &&& spec_site_record(sites, site) is Some
    &&& spec_last_fact(facts, site) is Some
    &&& window_count(facts, site, now) > 0
}

/// A status row is correct when its site qualifies for the page, its name
/// comes from the site row, its fact fields come from the site's most
/// recent fact, and its ratio counts the trailing 24-hour window.
pub open spec fn stat_correct(
    facts: Seq<SiteFactModel>,
    sites: Seq<SiteModel>,
    s: SiteStatModel,
    now: Timestamp,
) -> bool {
    &&& stat_exists(facts, sites, s.site@, now)
    &&& spec_site_record(sites, s.site@) matches Some(rec) && rec.name@ == s.name@
    &&& spec_last_fact(facts, s.site@) matches Some(f) && f.tstamp == s.tstamp && f.success
        == s.success && f.status_code == s.status_code
    &&& s.avg.up == window_up_count(facts, s.site@, now)
    &&& s.avg.total == window_count(facts, s.site@, now)
}

/// The rows of the status page are ordered by display name.
pub open spec fn sorted_by_name(s: Seq<SiteStatModel>) -> bool {
    forall|i: int, j: int|
        0 <= i < j < s.len() ==> lex_le((#[trigger] s[i]).name@, (#[trigger] s[j]).name@)
}

/// No two rows of the status page share a site.
pub open spec fn distinct_sites(s: Seq<SiteStatModel>) -> bool {
    forall|i: int, j: int|
        0 <= i < j < s.len() ==> (#[trigger] s[i]).site@ != (#[trigger] s[j]).site@
}

/// The reachability history and site rows the monitor maintains.
pub struct FactStore {
    pub facts: Vec<SiteFactModel>,
    pub sites: Vec<SiteModel>,
}

impl FactStore {
    /// Keys unique on both tables, timestamps minute-truncated.
    pub open spec fn wf(self) -> bool {
        facts_wf(self.facts@) && sites_wf(self.sites@)
    }

    /// An empty store.
    pub fn new() -> (r: FactStore)
        ensures
            r.wf(),
            r.facts@ =~= Seq::<SiteFactModel>::empty(),
            r.sites@ =~= Seq::<SiteModel>::empty(),
    {
        FactStore { facts: Vec::new(), sites: Vec::new() }
    }

    /// Whether a fact with this `(site, timestamp)` key is recorded.
    pub fn contains_fact_key(&self, site: &str, ts: &Timestamp) -> (r: bool)
        ensures
            r == fact_key_present(self.facts@, site@, *ts),
    {
        let n = self.facts.len();
        let mut i: usize = 0;
        while i < n
            invariant
                i <= n,
                n == self.facts@.len(),
                forall|j: int|
                    0 <= j < i ==> !((#[trigger] self.facts@[j]).site@ == site@
                        && self.facts@[j].tstamp == *ts),
            decreases n - i,
        {
            if str_eq(self.facts[i].site.as_str(), site) && self.facts[i].tstamp == *ts {
                return true;
            }
            i += 1;
        }
        false
    }

    /// Records a fact unless its `(site, timestamp)` key is already
    /// present; a duplicate is silently ignored.  Returns whether the
    /// fact was stored.
    pub fn insert_fact_if_absent(&mut self, fact: SiteFactModel) -> (inserted: bool)
        requires
            old(self).wf(),
            fact.tstamp.minute_truncated(),
        ensures
            final(self).wf(),
            final(self).facts@ == spec_insert_fact(old(self).facts@, fact),
            final(self).sites@ == old(self).sites@,
            inserted == !fact_key_present(old(self).facts@, fact.site@, fact.tstamp),
    {
        if self.contains_fact_key(fact.site.as_str(), &fact.tstamp) {
            false
        } else {
            proof {
                assert forall|i: int| 0 <= i < self.facts@.len() implies !same_key(
                    self.facts@[i],
                    fact,
                ) by {
                    if same_key(self.facts@[i], fact) {
                        assert(fact_key_present(self.facts@, fact.site@, fact.tstamp));
                    }
                }
            }
            self.facts.push(fact);
            true
        }
    }

    /// Inserts the site row or, when its key is present, replaces it so
    /// the display name tracks the latest configuration.
    pub fn upsert_site(&mut self, site: SiteModel)
        requires
            old(self).wf(),
        ensures
            final(self).wf(),
            final(self).sites@ == spec_upsert_site(old(self).sites@, site),
            final(self).facts@ == old(self).facts@,
    {
        let ghost orig = self.sites@;
        let n = self.sites.len();
        let mut found: Option<usize> = None;
        let mut i: usize = 0;
        while i < n
            invariant
                i <= n,
                n == self.sites@.len(),
                match found {
                    None => forall|j: int|
                        0 <= j < i ==> (#[trigger] self.sites@[j]).site@ != site.site@,
                    Some(fi) => fi < i && self.sites@[fi as int].site@ == site.site@,
                },
            decreases n - i,
        {
            if found.is_none() && str_eq(self.sites[i].site.as_str(), site.site.as_str()) {
                found = Some(i);
            }
            i += 1;
        }
        match found {
            Some(fi) => {
                self.sites.set(fi, site);
                proof {
                    assert(site_key_present(orig, site.site@));
                    assert forall|j: int|
                        0 <= j < orig.len() && j != fi implies (#[trigger] orig[j]).site@
                        != site.site@ by {
                        if j < fi {
                            assert(orig[fi as int].site@ != orig[j].site@);
                        } else {
                            assert(orig[fi as int].site@ != orig[j].site@);
                        }
                    }
                    assert(self.sites@ =~= spec_upsert_site(orig, site));
                    assert forall|p: int, q: int|
                        0 <= p < q < self.sites@.len() implies (#[trigger] self.sites@[p]).site@
                        != (#[trigger] self.sites@[q]).site@ by {
                        assert(orig[p].site@ != orig[q].site@);
                    }
                }
            },
            None => {
                self.sites.push(site);
                proof {
                    assert(!site_key_present(orig, site.site@));
                    assert(self.sites@ =~= spec_upsert_site(orig, site));
                    assert forall|p: int, q: int|
                        0 <= p < q < self.sites@.len() implies (#[trigger] self.sites@[p]).site@
                        != (#[trigger] self.sites@[q]).site@ by {
                        if q < orig.len() {
                            assert(orig[p].site@ != orig[q].site@);
                        }
                    }
                }
            },
        }
    }

    /// The site's most recent recorded fact, if any.
    pub fn last_fact(&self, site: &str) -> (r: Option<&SiteFactModel>)
        ensures
            match r {
                None => spec_last_fact(self.facts@, site@) is None,
                Some(f) => spec_last_fact(self.facts@, site@) == Some(*f),
            },
    {
        let n = self.facts.len();
        let mut best: Option<usize> = None;
        let mut i: usize = 0;
        proof {
            assert(self.facts@.take(0) =~= Seq::<SiteFactModel>::empty());
        }
        while i < n
            invariant
                i <= n,
                n == self.facts@.len(),
                match best {
                    None => spec_last_fact(self.facts@.take(i as int), site@) is None,
                    Some(b) => b < i && spec_last_fact(self.facts@.take(i as int), site@)
                        == Some(self.facts@[b as int]),
                },
            decreases n - i,
        {
            proof {
                assert(self.facts@.take(i + 1).drop_last() =~= self.facts@.take(i as int));
                assert(self.facts@.take(i + 1).last() == self.facts@[i as int]);
            }
            if str_eq(self.facts[i].site.as_str(), site) {
                let replace = match best {
                    None => true,
                    Some(b) => self.facts[b].tstamp.is_before(&self.facts[i].tstamp),
                };
                if replace {
                    best = Some(i);
                }
            }
            i += 1;
        }
        proof {
            assert(self.facts@.take(n as int) =~= self.facts@);
        }
        match best {
            None => None,
            Some(b) => Some(&self.facts[b]),
        }
    }

    /// The first site row carrying the given key, if any.
    pub fn find_site(&self, site: &str) -> (r: Option<&SiteModel>)
        ensures
            match r {
                None => spec_site_record(self.sites@, site@) is None,
                Some(s) => spec_site_record(self.sites@, site@) == Some(*s),
            },
    {
        let n = self.sites.len();
        let mut found: Option<usize> = None;
        let mut i: usize = 0;
        proof {
            assert(self.sites@.take(0) =~= Seq::<SiteModel>::empty());
        }
        while i < n
            invariant
                i <= n,
                n == self.sites@.len(),
                match found {
                    None => spec_site_record(self.sites@.take(i as int), site@) is None,
                    Some(b) => b < i && spec_site_record(self.sites@.take(i as int), site@)
                        == Some(self.sites@[b as int]),
                },
            decreases n - i,
        {
            proof {
                assert(self.sites@.take(i + 1).drop_last() =~= self.sites@.take(i as int));
                assert(self.sites@.take(i + 1).last() == self.sites@[i as int]);
            }
            if found.is_none() && str_eq(self.sites[i].site.as_str(), site) {
                found = Some(i);
            }
            i += 1;
        }
        proof {
            assert(self.sites@.take(n as int) =~= self.sites@);
        }
        match found {
            None => None,
            Some(b) => Some(&self.sites[b]),
        }
    }

    /// Counts the site's facts in the trailing 24-hour window of `now`,
    /// and how many of them were successful.  Returns `(up, total)`.
    pub fn window_counts(&self, site: &str, now: &Timestamp) -> (r: (u64, u64))
        ensures
            r.0 == window_up_count(self.facts@, site@, *now),
            r.1 == window_count(self.facts@, site@, *now),
            r.0 <= r.1 <= self.facts@.len(),
    {
        let n = self.facts.len();
        let mut up: u64 = 0;
        let mut total: u64 = 0;
        let mut i: usize = 0;
        proof {
            assert(self.facts@.take(0) =~= Seq::<SiteFactModel>::empty());
        }
        while i < n
            invariant
                i <= n,
                n == self.facts@.len(),
                up == window_up_count(self.facts@.take(i as int), site@, *now),
                total == window_count(self.facts@.take(i as int), site@, *now),
                up <= total <= i,
            decreases n - i,
        {
            proof {
                assert(self.facts@.take(i + 1).drop_last() =~= self.facts@.take(i as int));
                assert(self.facts@.take(i + 1).last() == self.facts@[i as int]);
            }
            if str_eq(self.facts[i].site.as_str(), site) && self.facts[i].tstamp.is_in_trailing_day(
                now,
            ) {
                total = total + 1;
                if self.facts[i].success {
                    up = up + 1;
                }
            }
            i += 1;
        }
        proof {
            assert(self.facts@.take(n as int) =~= self.facts@);
        }
        (up, total)
    }

    /// The status row for one requested site: its most recent fact joined
    /// with its trailing 24-hour uptime ratio and its display name.
    /// Nothing is produced for a site without a site row, without any
    /// fact, or without a fact in the window.
    pub fn site_stat_for(&self, site: &str, now: &Timestamp) -> (r: Option<SiteStatModel>)
        ensures
            r is Some <==> stat_exists(self.facts@, self.sites@, site@, *now),
            r matches Some(s) ==> stat_correct(self.facts@, self.sites@, s, *now) && s.site@
                == site@,
    {
        let rec = self.find_site(site);
        let lf = self.last_fact(site);
        let (up, total) = self.window_counts(site, now);
        match (rec, lf) {
            (Some(rec), Some(f)) => {
                if total > 0 {
                    Some(
                        SiteStatModel {
                            site: site.to_owned(),
                            name: rec.name.clone(),
                            tstamp: f.tstamp,
                            success: f.success,
                            status_code: f.status_code,
                            avg: UptimeRatio { up, total },
                        },
                    )
                } else {
                    None
                }
            },
            _ => None,
        }
    }

    /// The status page query: one row per requested site that qualifies,
    /// ordered by display name.  Sites absent from the request never
    /// appear, however many facts they still have.
    pub fn aggregated_status(&self, site_keys: &Vec<String>, now: &Timestamp) -> (r: Vec<
        SiteStatModel,
    >)
        requires
            forall|i: int, j: int|
                0 <= i < j < site_keys@.len() ==> (#[trigger] site_keys@[i])@
                    != (#[trigger] site_keys@[j])@,
        ensures
            sorted_by_name(r@),
            distinct_sites(r@),
            forall|x: SiteStatModel|
                r@.contains(x) ==> stat_correct(self.facts@, self.sites@, x, *now),
            forall|x: SiteStatModel|
                #[trigger] r@.contains(x) ==> exists|i: int|
                    0 <= i < site_keys@.len() && (#[trigger] site_keys@[i])@ == x.site@,
            forall|i: int|
                0 <= i < site_keys@.len() ==> (stat_exists(
                    self.facts@,
                    self.sites@,
                    (#[trigger] site_keys@[i])@,
                    *now,
                ) <==> exists|x: SiteStatModel|
                    #[trigger] r@.contains(x) && x.site@ == site_keys@[i]@),
    {
        let m = site_keys.len();
        let mut out: Vec<SiteStatModel> = Vec::new();
        let mut k: usize = 0;
        while k < m
            invariant
                k <= m,
                m == site_keys@.len(),
                forall|i: int, j: int|
                    0 <= i < j < site_keys@.len() ==> (#[trigger] site_keys@[i])@
                        != (#[trigger] site_keys@[j])@,
                sorted_by_name(out@),
                distinct_sites(out@),
                forall|x: SiteStatModel|
                    out@.contains(x) ==> stat_correct(self.facts@, self.sites@, x, *now),
                forall|x: SiteStatModel|
                    #[trigger] out@.contains(x) ==> exists|i: int|
                        0 <= i < k && (#[trigger] site_keys@[i])@ == x.site@,
                forall|i: int|
                    0 <= i < k ==> (stat_exists(
                        self.facts@,
                        self.sites@,
                        (#[trigger] site_keys@[i])@,
                        *now,
                    ) <==> exists|x: SiteStatModel|
                        #[trigger] out@.contains(x) && x.site@ == site_keys@[i]@),
            decreases m - k,
        {
            let ghost prev_out = out@;
            match self.site_stat_for(site_keys[k].as_str(), now) {
                Some(s) => {
                    proof {
                        assert forall|x: SiteStatModel|
                            out@.contains(x) implies x.site@ != s.site@ by {
                            let i = choose|i: int| 0 <= i < k && (site_keys@[i])@ == x.site@;
                            assert((site_keys@[i])@ != (site_keys@[k as int])@);
                        }
                    }
                    insert_sorted(&mut out, s);
                    proof {
                        assert(s.site@ == (site_keys@[k as int])@);
                        assert forall|i: int|
                            0 <= i < k + 1 implies (stat_exists(
                            self.facts@,
                            self.sites@,
                            (#[trigger] site_keys@[i])@,
                            *now,
                        ) <==> exists|x: SiteStatModel|
                            #[trigger] out@.contains(x) && x.site@ == site_keys@[i]@) by {
                            if i < k {
                                if stat_exists(self.facts@, self.sites@, (site_keys@[i])@, *now) {
                                    let x = choose|x: SiteStatModel|
                                        prev_out.contains(x) && x.site@ == site_keys@[i]@;
                                    assert(out@.contains(x));
                                } else {
                                    if exists|x: SiteStatModel|
                                        #[trigger] out@.contains(x) && x.site@
                                            == site_keys@[i]@ {
                                        let x = choose|x: SiteStatModel|
                                            out@.contains(x) && x.site@ == site_keys@[i]@;
                                        assert((site_keys@[i])@ != (site_keys@[k as int])@);
                                        assert(prev_out.contains(x));
                                    }
                                }
                            } else {
                                assert(out@.contains(s));
                            }
                        }
                    }
                },
                None => {
                    proof {
                        assert forall|i: int|
                            0 <= i < k + 1 implies (stat_exists(
                            self.facts@,
                            self.sites@,
                            (#[trigger] site_keys@[i])@,
                            *now,
                        ) <==> exists|x: SiteStatModel|
                            #[trigger] out@.contains(x) && x.site@ == site_keys@[i]@) by {
                            if i == k {
                                if exists|x: SiteStatModel|
                                    #[trigger] out@.contains(x) && x.site@ == site_keys@[i]@ {
                                    let x = choose|x: SiteStatModel|
                                        out@.contains(x) && x.site@ == site_keys@[i]@;
                                    let w = choose|w: int|
                                        0 <= w < k && (site_keys@[w])@ == x.site@;
                                    assert((site_keys@[w])@ != (site_keys@[k as int])@);
                                }
                            }
                        }
                    }
                },
            }
            k += 1;
        }
        out
    }
}

/// Inserts a status row into a name-ordered vector, keeping the order
/// and the one-row-per-site property.
fn insert_sorted(out: &mut Vec<SiteStatModel>, s: SiteStatModel)
    requires
        sorted_by_name(old(out)@),
        distinct_sites(old(out)@),
        forall|x: SiteStatModel| old(out)@.contains(x) ==> x.site@ != s.site@,
    ensures
        final(out)@.len() == old(out)@.len() + 1,
        forall|x: SiteStatModel|
            #[trigger] final(out)@.contains(x) <==> old(out)@.contains(x) || x == s,
        sorted_by_name(final(out)@),
        distinct_sites(final(out)@),
{
    let ghost orig = out@;
    let n = out.len();
    let mut p: usize = 0;
    while p < n
        invariant_except_break
            p <= n,
            n == out@.len(),
            out@ == orig,
            forall|q: int| 0 <= q < p ==> lex_le((#[trigger] out@[q]).name@, s.name@),
        ensures
            p <= n,
            n == out@.len(),
            out@ == orig,
            forall|q: int| 0 <= q < p ==> lex_le((#[trigger] out@[q]).name@, s.name@),
            p < n ==> !lex_le(out@[p as int].name@, s.name@),
        decreases n - p,
    {
        if !str_le(out[p].name.as_str(), s.name.as_str()) {
            break ;
        }
        p += 1;
    }
    proof {
        if p < n {
            lemma_lex_le_total(orig[p as int].name@, s.name@);
        }
    }
    out.insert(p, s);
    proof {
        orig.insert_ensures(p as int, s);
        assert forall|x: SiteStatModel|
            #[trigger] out@.contains(x) implies (orig.contains(x) || x == s) by {
            let w = choose|w: int| 0 <= w < out@.len() && out@[w] == x;
            if w < p {
                assert(orig[w] == x);
            } else if w > p {
                assert(orig[w - 1] == x);
            }
        }
        assert forall|x: SiteStatModel|
            (orig.contains(x) || x == s) implies #[trigger] out@.contains(x) by {
            if x == s {
                assert(out@[p as int] == x);
            } else {
                let w = choose|w: int| 0 <= w < orig.len() && orig[w] == x;
                if w < p {
                    assert(out@[w] == x);
                } else {
                    assert(out@[w + 1] == x);
                }
            }
        }
        assert forall|i: int, j: int|
            0 <= i < j < out@.len() implies lex_le(
            (#[trigger] out@[i]).name@,
            (#[trigger] out@[j]).name@,
        ) by {
            if j < p {
                assert(out@[i] == orig[i] && out@[j] == orig[j]);
            } else if j == p {
                assert(out@[i] == orig[i] && out@[j] == s);
            } else {
                if i < p {
                    assert(out@[i] == orig[i] && out@[j] == orig[j - 1]);
                    assert(lex_le(orig[i].name@, orig[j - 1].name@));
                } else if i == p {
                    assert(out@[i] == s && out@[j] == orig[j - 1]);
                    assert(lex_le(s.name@, orig[p as int].name@));
                    if j - 1 > p {
                        assert(lex_le(orig[p as int].name@, orig[j - 1].name@));
                        lemma_lex_le_trans(s.name@, orig[p as int].name@, orig[j - 1].name@);
                    }
                } else {
                    assert(out@[i] == orig[i - 1] && out@[j] == orig[j - 1]);
                }
            }
        }
        assert forall|i: int, j: int|
            0 <= i < j < out@.len() implies (#[trigger] out@[i]).site@ != (
            #[trigger] out@[j]).site@ by {
            if j < p {
                assert(out@[i] == orig[i] && out@[j] == orig[j]);
            } else if j == p {
                assert(out@[i] == orig[i] && out@[j] == s);
                assert(orig.contains(orig[i]));
            } else {
                if i < p {
                    assert(out@[i] == orig[i] && out@[j] == orig[j - 1]);
                } else if i == p {
                    assert(out@[i] == s && out@[j] == orig[j - 1]);
                    assert(orig.contains(orig[j - 1]));
                } else {
                    assert(out@[i] == orig[i - 1] && out@[j] == orig[j - 1]);
                }
            }
        }
    }
}

/// A duplicate insert of the same `(site, timestamp)` key is a no-op:
/// repeating an insert leaves exactly the facts of the first insert.
pub proof fn lemma_insert_fact_idempotent(facts: Seq<SiteFactModel>, f: SiteFactModel)
    ensures
        spec_insert_fact(spec_insert_fact(facts, f), f) == spec_insert_fact(facts, f),
{
    let once = spec_insert_fact(facts, f);
    if !fact_key_present(facts, f.site@, f.tstamp) {
        assert(once[facts.len() as int] == f);
        assert(fact_key_present(once, f.site@, f.tstamp));
    }
}

/// Every recorded fact of a well-formed store has a minute-truncated
/// timestamp: no seconds within the minute and no sub-second component.
pub proof fn lemma_facts_minute_truncated(store: FactStore)
    requires
        store.wf(),
    ensures
        forall|i: int|
            0 <= i < store.facts@.len() ==> (#[trigger] store.facts@[i]).tstamp.minute_truncated(),
{
}

/// What "most recent fact" means: the fact returned belongs to the site
/// and carries its greatest timestamp, and nothing is returned exactly
/// when the site has no fact.
pub proof fn lemma_last_fact_props(facts: Seq<SiteFactModel>, site: Seq<char>)
    ensures
        spec_last_fact(facts, site) is None <==> !has_fact_for(facts, site),
        spec_last_fact(facts, site) matches Some(f) ==> facts.contains(f) && f.site@ == site
            && forall|i: int|
            0 <= i < facts.len() && (#[trigger] facts[i]).site@ == site ==> facts[i].tstamp.le(
                f.tstamp,
            ),
    decreases facts.len(),
{
    if facts.len() > 0 {
        let rest = facts.drop_last();
        let l = facts.last();
        lemma_last_fact_props(rest, site);
        let prev = spec_last_fact(rest, site);
        assert(forall|i: int| 0 <= i < facts.len() - 1 ==> facts[i] == #[trigger] rest[i]);
        if spec_last_fact(facts, site) is None {
            assert forall|i: int|
                0 <= i < facts.len() implies (#[trigger] facts[i]).site@ != site by {
                if i < facts.len() - 1 {
                    if facts[i].site@ == site {
                        assert(rest[i].site@ == site);
                        assert(has_fact_for(rest, site));
                    }
                }
            }
        } else {
            let f = spec_last_fact(facts, site).unwrap();
            if prev is Some && f == prev.unwrap() {
                let w = choose|w: int| 0 <= w < rest.len() && rest[w] == f;
                assert(facts[w] == f);
            } else {
                assert(facts[facts.len() - 1] == f);
            }
            assert(facts.contains(f));
            assert forall|i: int|
                0 <= i < facts.len() && (#[trigger] facts[i]).site@ == site implies facts[i]
                .tstamp.le(f.tstamp) by {
                if i < facts.len() - 1 {
                    assert(rest[i] == facts[i]);
                    assert(has_fact_for(rest, site));
                    let pf = prev.unwrap();
                    assert(facts[i].tstamp.le(pf.tstamp));
                }
            }
        }
    }
}


} // verus!
