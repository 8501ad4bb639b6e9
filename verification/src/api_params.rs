//! Query parameters of the claimable-balance listing endpoints, with
//! their defaults and the bounds the queries enforce.

use vstd::prelude::*;

verus! {

/// The page size used when a listing request names none.
pub fn default_limit() -> (r: i64)
    ensures
        r == 50,
{
    50
}

/// The look-ahead window, in days, used when an expiry request names none.
pub fn default_days() -> (r: i64)
    ensures
        r == 30,
{
    30
}

/// Filters and paging of a balance listing request.
#[derive(Debug, Clone)]
pub struct ListParams {
    pub claimed: Option<bool>,
    pub asset_code: Option<String>,
    pub limit: i64,
    pub offset: i64,
}

impl ListParams {
    /// The page size actually used: the requested one held to 1..=500.
    pub fn effective_limit(&self) -> (r: i64)
        ensures
            r == if self.limit < 1 {
                1int
            } else if self.limit > 500 {
                500int
            } else {
                self.limit as int
            },
    {
        if self.limit < 1 {
            1
        } else if self.limit > 500 {
            500
        } else {
            self.limit
        }
    }

    /// The offset actually used: never negative.
    pub fn effective_offset(&self) -> (r: i64)
        ensures
            r == if self.offset < 0 {
                0int
            } else {
                self.offset as int
            },
    {
        if self.offset < 0 {
            0
        } else {
            self.offset
        }
    }
}

impl Default for ListParams {
    /// No filters, the default page size, and the first page.
    fn default() -> (p: Self)
        ensures
            p.claimed is None,
            p.asset_code is None,
            p.limit == 50,
            p.offset == 0,
    {
        ListParams { claimed: Option::None, asset_code: Option::None, limit: default_limit(), offset: 0 }
    }
}

/// The look-ahead window of an expiring-balance request.
#[derive(Debug, Clone, Copy, PartialEq, Eq, Structural)]
pub struct ExpiringParams {
    pub days: i64,
}

impl ExpiringParams {
    /// The window actually used: the requested one held to 1..=365.
    pub fn effective_days(&self) -> (r: i64)
        ensures
            r == if self.days < 1 {
                1int
            } else if self.days > 365 {
                365int
            } else {
                self.days as int
            },
    {
        if self.days < 1 {
            1
        } else if self.days > 365 {
            365
        } else {
            self.days
        }
    }
}

impl Default for ExpiringParams {
    /// The default thirty-day window.
    fn default() -> (p: Self)
        ensures
            p.days == 30,
    {
        ExpiringParams { days: default_days() }
    }
}

} // verus!
