//! The data the monitor works with: configured sites, recorded facts, and
//! the aggregated rows of the published status page.

use vstd::prelude::*;
use crate::timestamp::Timestamp;

verus! {

/// A configured site: the URL to probe and the name shown on the page.
#[derive(Debug)]
pub struct SiteModel {
    pub site: String,
    pub name: String,
}

impl Clone for SiteModel {
    fn clone(&self) -> (r: Self)
        ensures
            r == *self,
    {
        SiteModel { site: self.site.clone(), name: self.name.clone() }
    }
}

/// One recorded probe outcome: at most one per site per truncated minute.
#[derive(Debug)]
pub struct SiteFactModel {
    pub site: String,
    pub tstamp: Timestamp,
    pub success: bool,
    pub status_code: i16,
}

impl Clone for SiteFactModel {
    fn clone(&self) -> (r: Self)
        ensures
            r == *self,
    {
        SiteFactModel {
            site: self.site.clone(),
            tstamp: self.tstamp,
            success: self.success,
            status_code: self.status_code,
        }
    }
}

/// A probe outcome joined with the site's display name, the unit one cycle
/// produces per site before it is split into a fact row and a site row.
#[derive(Debug)]
pub struct SiteFullModel {
    pub site: String,
    pub name: String,
    pub tstamp: Timestamp,
    pub success: bool,
    pub status_code: i16,
}

impl SiteFullModel {
    /// The fact row this outcome persists.
    pub fn fact(&self) -> (r: SiteFactModel)
        ensures
            r.site == self.site,
            r.tstamp == self.tstamp,
            r.success == self.success,
            r.status_code == self.status_code,
    {
        SiteFactModel {
            site: self.site.clone(),
            tstamp: self.tstamp,
            success: self.success,
            status_code: self.status_code,
        }
    }

    /// The site row this outcome upserts.
    pub fn site_record(&self) -> (r: SiteModel)
        ensures
            r.site == self.site,
            r.name == self.name,
    {
        SiteModel { site: self.site.clone(), name: self.name.clone() }
    }
}

/// Mean of `success` over the facts of the trailing 24-hour window, kept
/// as the exact ratio `up / total` with `total >= 1`.
#[derive(Clone, Copy, PartialEq, Eq, Structural, Debug)]
pub struct UptimeRatio {
    pub up: u64,
    pub total: u64,
}

/// One row of the published status page: the site's most recent fact plus
/// its trailing 24-hour uptime ratio.
#[derive(Debug)]
pub struct SiteStatModel {
    pub site: String,
    pub name: String,
    pub tstamp: Timestamp,
    pub success: bool,
    pub status_code: i16,
    pub avg: UptimeRatio,
}

impl Clone for SiteStatModel {
    fn clone(&self) -> (r: Self)
        ensures
            r == *self,
    {
        SiteStatModel {
            site: self.site.clone(),
            name: self.name.clone(),
            tstamp: self.tstamp,
            success: self.success,
            status_code: self.status_code,
            avg: self.avg,
        }
    }
}

} // verus!
