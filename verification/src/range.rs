//! The range planner: resolves the inclusive height interval to scan and
//! lays it out as pages of bounded span.

use vstd::prelude::*;

use crate::errors::ScanError;
use crate::Scan;

verus! {

/// The largest number of block heights one page request may span.
pub const MAX_BLOCK_RANGE: u32 = 50;

/// One page of the scan: the inclusive interval of block heights a single
/// block request asks the endpoint for.
#[derive(Debug, Clone, Copy, PartialEq, Eq, Structural)]
pub struct PageRequest {
    /// The first height of the page.
    pub start: u32,
    /// The last height of the page, inclusive.
    pub end: u32,
}

/// What end-height resolution returns: the explicit end when one was given,
/// otherwise the queried chain height; a height query that failed (`queried`
/// absent when needed) is an endpoint failure, and an end that does not lie
/// strictly above the start is an invalid range.
pub open spec fn spec_end_height(start: u32, end: Option<u32>, queried: Option<u32>) -> Result<
    u32,
    ScanError,
> {
    match (end, queried) {
        (Some(e), _) => if e > start {
            Ok(e)
        } else {
            Err(ScanError::InvalidRange)
        },
        (None, Some(q)) => if q > start {
            Ok(q)
        } else {
            Err(ScanError::InvalidRange)
        },
        (None, None) => Err(ScanError::EndpointUnavailable),
    }
}

impl Scan {
    /// Returns the height the scan stops at. When the configuration has no
    /// explicit end, the caller queries the endpoint for its latest height
    /// first and hands the answer in as `queried_height` (`None` when that
    /// query failed at the transport level).
    pub fn parse_end_height(&self, queried_height: Option<u32>) -> (r: Result<u32, ScanError>)
        ensures
            r == spec_end_height(self.start, self.end, queried_height),
    {
        let end = match self.end {
            Some(height) => height,
            None => match queried_height {
                Some(height) => height,
                None => {
                    return Err(ScanError::EndpointUnavailable);
                },
            },
        };
        if end > self.start {
            Ok(end)
        } else {
            Err(ScanError::InvalidRange)
        }
    }

    /// A scan with no explicit end that starts at height zero walks the whole
    /// chain; that is worth an advisory to the caller, not an error.
    pub fn full_chain_advisory(&self) -> (r: bool)
        ensures
            r == (self.end is None && self.start == 0),
    {
        self.end.is_none() && self.start == 0
    }
}

/// The page layout of the inclusive range [start, end]: page `i` starts at
/// `start + i * MAX_BLOCK_RANGE` and runs to the end of the range or the end
/// of the page, whichever comes first.
pub open spec fn spec_page_plan(start: u32, end: u32) -> Seq<PageRequest>
    recommends
        start <= end,
{
    Seq::new(
        ((end - start) / (MAX_BLOCK_RANGE as int) + 1) as nat,
        |i: int|
            PageRequest {
                start: (start + i * (MAX_BLOCK_RANGE as int)) as u32,
                end: if start + i * (MAX_BLOCK_RANGE as int) + (MAX_BLOCK_RANGE as int) - 1
                    <= end {
                    (start + i * (MAX_BLOCK_RANGE as int) + (MAX_BLOCK_RANGE as int) - 1) as u32
                } else {
                    end
                },
            },
    )
}

/// Lays the validated range [start, end] out as consecutive page requests,
/// each spanning at most `MAX_BLOCK_RANGE` heights.
pub fn plan_pages(start: u32, end: u32) -> (r: Vec<PageRequest>)
    requires
        start <= end,
    ensures
        r@ == spec_page_plan(start, end),
{
    let mut pages: Vec<PageRequest> = Vec::new();
    let mut cur: u32 = start;
    loop
        invariant
            start <= cur <= end,
            cur as int == start + pages@.len() * (MAX_BLOCK_RANGE as int),
            pages@ == spec_page_plan(start, end).take(pages@.len() as int),
            pages@.len() < spec_page_plan(start, end).len(),
        decreases end - cur,
    {
        let remaining: u64 = (end - cur) as u64 + 1;
        let span: u64 = if remaining < MAX_BLOCK_RANGE as u64 {
            remaining
        } else {
            MAX_BLOCK_RANGE as u64
        };
        let page_end: u32 = (cur as u64 + span - 1) as u32;
        let ghost n = pages@.len() as int;
        pages.push(PageRequest { start: cur, end: page_end });
        proof {
            assert(0 <= n < spec_page_plan(start, end).len());
            assert(spec_page_plan(start, end)[n] == PageRequest { start: cur, end: page_end });
            assert(pages@ =~= spec_page_plan(start, end).take(n + 1));
        }
        if page_end >= end {
            proof {
                let plan = spec_page_plan(start, end);
                assert(((end - start) / (MAX_BLOCK_RANGE as int) + 1) == n + 1) by {
                    lemma_div_of_offset(end - start, n, end - cur);
                };
                assert(pages@ =~= plan);
            }
            return pages;
        }
        cur = page_end + 1;
        proof {
            assert(pages@.len() < spec_page_plan(start, end).len()) by {
                lemma_div_lower_bound(end - start, pages@.len() as int, end - cur);
            };
        }
    }
}

/// Helper: if `d == k * 50 + rem` with `0 <= rem < 50`, then `d / 50 == k`.
proof fn lemma_div_of_offset(d: int, k: int, rem: int)
    requires
        0 <= rem < MAX_BLOCK_RANGE as int,
        0 <= k,
        d == k * (MAX_BLOCK_RANGE as int) + rem,
    ensures
        d / (MAX_BLOCK_RANGE as int) == k,
{
    assert(d / (MAX_BLOCK_RANGE as int) == k) by (nonlinear_arith)
        requires
            0 <= rem < MAX_BLOCK_RANGE as int,
            0 <= k,
            d == k * (MAX_BLOCK_RANGE as int) + rem,
    ;
}

/// Helper: if `d == k * 50 + rem` with `0 <= rem`, then `k <= d / 50`.
proof fn lemma_div_lower_bound(d: int, k: int, rem: int)
    requires
        0 <= k,
        0 <= rem,
        d == k * (MAX_BLOCK_RANGE as int) + rem,
    ensures
        k <= d / (MAX_BLOCK_RANGE as int),
{
    assert(k <= d / (MAX_BLOCK_RANGE as int)) by (nonlinear_arith)
        requires
            0 <= k,
            0 <= rem,
            d == k * (MAX_BLOCK_RANGE as int) + rem,
    ;
}

/// Law: the page plan of a validated range covers [start, end] contiguously,
/// without gaps or overlaps; each page spans at most `MAX_BLOCK_RANGE`
/// heights; and the number of pages is exactly the span divided by
/// `MAX_BLOCK_RANGE`, rounded up.
pub proof fn lemma_page_plan_covers(start: u32, end: u32)
    requires
        start <= end,
    ensures
        spec_page_plan(start, end).len() == ((end - start) + (MAX_BLOCK_RANGE as int))
            / (MAX_BLOCK_RANGE as int),
        spec_page_plan(start, end)[0].start == start,
        spec_page_plan(start, end).last().end == end,
        forall|i: int|
            0 <= i < spec_page_plan(start, end).len() ==> (#[trigger] spec_page_plan(start, end)[i]).start
                <= spec_page_plan(start, end)[i].end,
        forall|i: int|
            0 <= i < spec_page_plan(start, end).len() ==> (#[trigger] spec_page_plan(start, end)[i]).end
                - spec_page_plan(start, end)[i].start < MAX_BLOCK_RANGE as int,
        forall|i: int|
            0 <= i < spec_page_plan(start, end).len() - 1 ==> (#[trigger] spec_page_plan(
                start,
                end,
            )[i + 1]).start == spec_page_plan(start, end)[i].end + 1,
{
    let m = MAX_BLOCK_RANGE as int;
    let d = end - start;
    let n = d / m + 1;
    assert(0 <= d / m && m * (d / m) + d % m == d && 0 <= d % m < m) by {
        vstd::arithmetic::div_mod::lemma_fundamental_div_mod(d, m);
        vstd::arithmetic::div_mod::lemma_div_pos_is_pos(d, m);
        vstd::arithmetic::div_mod::lemma_mod_bound(d, m);
    };
    assert((d + m) / m == n) by {
        lemma_div_of_offset(d + m, n, d % m);
        assert(d + m == n * m + d % m) by (nonlinear_arith)
            requires
                d == (d / m) * m + d % m,
                n == d / m + 1,
        ;
    };
    assert forall|i: int| 0 <= i < n implies start + #[trigger] (i * m) + (m - 1) <= end || i == n
        - 1 by {
        if i < n - 1 {
            assert(i * m + m <= (d / m) * m) by (nonlinear_arith)
                requires
                    i + 1 <= d / m,
                    m > 0,
            ;
            assert((d / m) * m <= d) by (nonlinear_arith)
                requires
                    d == (d / m) * m + d % m,
                    d % m >= 0,
            ;
        }
    };
    assert forall|i: int| 0 <= i < n implies 0 <= #[trigger] (i * m) <= d by {
        assert(0 <= i * m && i * m <= (d / m) * m) by (nonlinear_arith)
            requires
                0 <= i <= d / m,
                m > 0,
        ;
        assert((d / m) * m <= d) by (nonlinear_arith)
            requires
                d == (d / m) * m + d % m,
                d % m >= 0,
        ;
    };
}

} // verus!
