//! Paged queries: a 0-based page number and a strictly positive page size.
//!
//! The default paging is "unbounded": page 0 with the largest possible page
//! size, so that a single page saturates to the whole result set.

use vstd::prelude::*;

verus! {

/// Paging window for catalog queries.
pub struct DBPaging {
    pub page_num: u32,
    pub page_size: u32,
}

impl DBPaging {
    /// A paging value is meaningful only with a positive page size.
    pub open spec fn wf(&self) -> bool {
        self.page_size > 0
    }

    /// Index of the first item of the page, in the full ordered result.
    pub fn offset(&self) -> (r: u64)
        ensures
            r == self.page_num as int * self.page_size as int,
    {
        let a = self.page_num as u64;
        let b = self.page_size as u64;
        proof {
            assert(a * b <= 0xFFFF_FFFF * 0xFFFF_FFFF) by (nonlinear_arith)
                requires a <= 0xFFFF_FFFF && b <= 0xFFFF_FFFF;
        }
        a * b
    }

    /// Number of items a full page holds.
    pub fn limit(&self) -> (r: u64)
        ensures
            r == self.page_size,
    {
        self.page_size as u64
    }
}

impl Default for DBPaging {
    /// The default window: everything, as one saturated page.
    fn default() -> (r: Self)
        ensures
            r.page_num == 0,
            r.page_size == u32::MAX,
            r.wf(),
    {
        DBPaging { page_num: 0, page_size: u32::MAX }
    }
}

/// The part of the ordered result `s` that the window `(off, lim)` selects:
/// `lim` items starting at `off`, clipped to the end of `s`.
pub open spec fn page_of<T>(s: Seq<T>, off: int, lim: int) -> Seq<T> {
    let start = if off <= s.len() as int { off } else { s.len() as int };
    let end = if off + lim <= s.len() as int { off + lim } else { s.len() as int };
    if start <= end {
        s.subrange(start, end)
    } else {
        Seq::empty()
    }
}

} // verus!
