//! Pagination of list endpoints: clamped page parameters, limit/offset
//! derivation, and page metadata with exact ceiling-division page counts.

use vstd::prelude::*;

verus! {

/// Raw page parameters as a client sent them.
#[derive(Debug)]
pub struct PaginationParams {
    pub page: Option<u32>,
    pub page_size: Option<u32>,
}

/// Page metadata returned beside every list page.
#[derive(Debug)]
pub struct PaginationMeta {
    pub total_records: i64,
    pub page: u32,
    pub page_size: u32,
    pub total_pages: u32,
}

/// A page of results with its metadata.
#[derive(Debug)]
pub struct PaginatedResponse<T> {
    pub data: Vec<T>,
    pub meta: PaginationMeta,
}

/// The page number after defaulting and clamping: at least 1, default 1.
pub open spec fn norm_page(p: Option<u32>) -> u32 {
    match p {
        Some(v) => if v >= 1 {
            v
        } else {
            1u32
        },
        None => 1u32,
    }
}

/// The page size after defaulting and clamping to 1..100, default 10.
pub open spec fn norm_page_size(p: Option<u32>) -> u32 {
    match p {
        Some(v) => if v < 1 {
            1u32
        } else if v > 100 {
            100u32
        } else {
            v
        },
        None => 10u32,
    }
}

impl PaginationParams {
    /// Defaults and clamps the raw parameters, returning
    /// `(limit, offset, page, page_size)` for the query.
    pub fn normalize(&self) -> (r: (i64, i64, u32, u32))
        ensures
            r.2 == norm_page(self.page),
            r.3 == norm_page_size(self.page_size),
            r.0 == r.3 as int,
            r.1 == (r.2 - 1) * (r.3 as int),
    {
        let page: u32 = match self.page {
            Some(v) => if v >= 1 {
                v
            } else {
                1
            },
            None => 1,
        };
        let page_size: u32 = match self.page_size {
            Some(v) => if v < 1 {
                1
            } else if v > 100 {
                100
            } else {
                v
            },
            None => 10,
        };
        let limit = page_size as i64;
        let p1 = (page - 1) as i64;
        proof {
            assert(0 <= p1 * limit <= 4294967295i64 * 100) by (nonlinear_arith)
                requires
                    0 <= p1 <= 4294967295i64,
                    0 <= limit <= 100,
            ;
        }
        let offset = p1 * limit;
        (limit, offset, page, page_size)
    }
}

/// The number of pages needed for `count` records at `page_size` per page:
/// ceiling division, at least 1, capped at the `u32` maximum.
pub open spec fn spec_total_pages(count: int, page_size: int) -> int {
    if count == 0 {
        1
    } else {
        let ceil = (count - 1) / page_size + 1;
        if ceil > u32::MAX {
            u32::MAX as int
        } else {
            ceil
        }
    }
}

impl<T> PaginatedResponse<T> {
    /// Builds a page around the given data.
    pub fn new(data: Vec<T>, count: i64, page: u32, page_size: u32) -> (r: PaginatedResponse<T>)
        requires
            count >= 0,
            page_size >= 1,
        ensures
            r.data == data,
            r.meta.total_records == count,
            r.meta.page == page,
            r.meta.page_size == page_size,
            r.meta.total_pages == spec_total_pages(count as int, page_size as int),
    {
        let total_pages: u32 = if count == 0 {
            1
        } else {
            let ps = page_size as i64;
            proof {
                vstd::arithmetic::div_mod::lemma_div_nonincreasing(count - 1, ps as int);
            }
            let ceil = (count - 1) / ps + 1;
            if ceil > u32::MAX as i64 {
                u32::MAX
            } else {
                ceil as u32
            }
        };
        PaginatedResponse {
            data,
            meta: PaginationMeta { total_records: count, page, page_size, total_pages },
        }
    }
}

/// Filters accepted by the car listing.
#[derive(Debug)]
pub struct CarFilter {
    pub brand: Option<String>,
    pub status: Option<String>,
}

/// The full query string of the car listing: paging plus filters.
#[derive(Debug)]
pub struct CarSearchQuery {
    pub page: Option<u32>,
    pub page_size: Option<u32>,
    pub brand: Option<String>,
    pub status: Option<String>,
}

impl CarSearchQuery {
    /// The paging part of the query.
    pub fn pagination(&self) -> (r: PaginationParams)
        ensures
            r.page == self.page,
            r.page_size == self.page_size,
    {
        PaginationParams { page: self.page, page_size: self.page_size }
    }

    /// The filter part of the query.
    pub fn filter(&self) -> (r: CarFilter)
        ensures
            option_string_view(r.brand) == option_string_view(self.brand),
            option_string_view(r.status) == option_string_view(self.status),
    {
        CarFilter { brand: clone_opt_string(&self.brand), status: clone_opt_string(&self.status) }
    }
}

/// The view of an optional string.
pub open spec fn option_string_view(s: Option<String>) -> Option<Seq<char>> {
    match s {
        Some(v) => Some(v@),
        None => None,
    }
}

/// Copies an optional string.
pub fn clone_opt_string(s: &Option<String>) -> (r: Option<String>)
    ensures
        option_string_view(r) == option_string_view(*s),
{
    match s {
        Some(v) => Some(v.clone()),
        None => None,
    }
}

} // verus!
