//! Pagination shared by the list endpoints: turns an optional `{page, limit}`
//! query into a concrete `{page, limit, offset}` and computes the number of
//! pages a result set spans.
//!
//! `page` defaults to 1 and is clamped to a minimum of 1. `limit` defaults
//! to 10 and is likewise clamped to a minimum of 1, so the page count below
//! never divides by zero.

use vstd::prelude::*;

verus! {

/// The default `limit` when a list request names none.
pub const DEFAULT_LIMIT: u32 = 10;

/// The pagination block of a list response.
#[derive(Debug, Clone, Copy, PartialEq, Eq, Structural)]
pub struct Pagination {
    /// How many rows the caller owns in all, across every page.
    pub total: u64,
    /// The 1-based page that was returned.
    pub page: u32,
    /// The page size that was applied.
    pub limit: u32,
    /// How many pages the `total` rows span under `limit`.
    pub total_pages: u64,
}

/// The effective page number: the given one, defaulted to 1 and clamped to
/// a minimum of 1.
pub open spec fn spec_effective_page(page: Option<u32>) -> u32 {
    match page {
        Option::None => 1u32,
        Option::Some(p) => if p < 1 { 1u32 } else { p },
    }
}

/// The effective page size: the given one, defaulted to 10 and clamped to
/// a minimum of 1.
pub open spec fn spec_effective_limit(limit: Option<u32>) -> u32 {
    match limit {
        Option::None => DEFAULT_LIMIT,
        Option::Some(l) => if l < 1 { 1u32 } else { l },
    }
}

/// How many rows the pages before `page` hold.
pub open spec fn spec_offset(page: u32, limit: u32) -> int {
    (page - 1) * limit
}

/// How many pages `total` rows span at `limit` rows per page: the
/// quotient, rounded up.
pub open spec fn spec_total_pages(total: int, limit: int) -> int {
    if total % limit == 0 {
        total / limit
    } else {
        total / limit + 1
    }
}

/// The effective page number of a list request.
pub fn effective_page(page: Option<u32>) -> (p: u32)
    ensures
        p == spec_effective_page(page),
        p >= 1,
{
    match page {
        Option::None => 1,
        Option::Some(p) => if p < 1 { 1 } else { p },
    }
}

/// The effective page size of a list request.
pub fn effective_limit(limit: Option<u32>) -> (l: u32)
    ensures
        l == spec_effective_limit(limit),
        l >= 1,
{
    match limit {
        Option::None => DEFAULT_LIMIT,
        Option::Some(l) => if l < 1 { 1 } else { l },
    }
}

/// The offset into the row set at which `page` starts.
pub fn offset_of(page: u32, limit: u32) -> (off: u64)
    requires
        page >= 1,
    ensures
        off == spec_offset(page, limit),
{
    let p = page as u64;
    let l = limit as u64;
    proof {
        assert((p - 1) * l <= 0xffff_fffe_0000_0000u64) by (nonlinear_arith)
            requires
                1 <= p <= 0xffff_ffffu64,
                l <= 0xffff_ffffu64,
        ;
    }
    (p - 1) * l
}

/// The number of pages `total` rows span at `limit` rows per page.
pub fn total_pages(total: u64, limit: u32) -> (pages: u64)
    requires
        limit >= 1,
    ensures
        pages == spec_total_pages(total as int, limit as int),
{
    let l = limit as u64;
    if total % l == 0 {
        total / l
    } else {
        proof {
            assert(l != 1) by {
                assert(total as int % 1int == 0);
            };
            assert(total != 0) by {
                assert(0int % (l as int) == 0);
            };
            vstd::arithmetic::div_mod::lemma_div_decreases(total as int, l as int);
        }
        total / l + 1
    }
}

} // verus!
