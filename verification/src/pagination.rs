//! Page boundaries for the two listing views: a requested page and limit
//! against the live item count, with both defaulted when absent or zero.

use vstd::prelude::*;

use crate::contract::TippingContract;
use crate::types::Metadata;

verus! {

/// The requested page, defaulting to the first when absent or zero.
pub open spec fn spec_page_number(page_number: Option<u64>) -> u64 {
    match page_number {
        Some(n) => if n == 0 {
            1
        } else {
            n
        },
        None => 1,
    }
}

/// The requested page size, defaulting to five when absent or zero.
pub open spec fn spec_page_limit(page_limit: Option<u64>) -> u64 {
    match page_limit {
        Some(l) => if l == 0 {
            5
        } else {
            l
        },
        None => 5,
    }
}

/// Ceiling of `a / b` for positive `b`.
pub open spec fn ceil_div(a: int, b: int) -> int {
    (a + b - 1) / b
}

/// The page boundaries for `total_item` items: `items_per_page` is the limit
/// capped at the item count, the page count its ceiling quotient (zero when
/// there is nothing to page), and the current, previous and next pages are
/// set only where they exist.
pub open spec fn spec_metadata(
    total_item: u64,
    page_number: Option<u64>,
    page_limit: Option<u64>,
) -> Metadata {
    let page = spec_page_number(page_number) as int;
    let limit = spec_page_limit(page_limit);
    let items_per_page: u64 = if limit > total_item {
        total_item
    } else {
        limit
    };
    let total_pages: int = if items_per_page == 0 {
        0
    } else {
        ceil_div(total_item as int, items_per_page as int)
    };
    Metadata {
        total_item_count: total_item,
        total_page_count: total_pages as u64,
        items_per_page,
        current_page: if page <= total_pages {
            Some(page as u64)
        } else {
            None
        },
        next_page: if page <= total_pages && page != total_pages {
            Some((page + 1) as u64)
        } else {
            None
        },
        previous_page: if page <= total_pages && page != 1 {
            Some((page - 1) as u64)
        } else {
            None
        },
    }
}

/// The page count never exceeds the item count.
pub proof fn lemma_total_pages_le(total_item: int, items_per_page: int)
    requires
        1 <= items_per_page <= total_item,
    ensures
        1 <= ceil_div(total_item, items_per_page) <= total_item,
{
    assert(1 <= (total_item + items_per_page - 1) / items_per_page <= total_item)
        by (nonlinear_arith)
        requires
            1 <= items_per_page <= total_item,
    ;
}

/// Every page the metadata reports starts inside the listing.
pub proof fn lemma_page_range(total: int, items_per_page: int, page: int)
    requires
        1 <= items_per_page,
        1 <= page,
        page <= ceil_div(total, items_per_page),
        1 <= total,
    ensures
        0 <= (page - 1) * items_per_page < total,
{
    assert(0 <= (page - 1) * items_per_page < total) by (nonlinear_arith)
        requires
            1 <= items_per_page,
            1 <= page,
            page <= (total + items_per_page - 1) / items_per_page,
            1 <= total,
    ;
}

impl TippingContract {
    /// Computes the page boundaries for a listing of `total_item` items.
    pub fn metadata(&self, total_item: u64, page_number: Option<u64>, page_limit: Option<u64>) -> (r:
        Metadata)
        ensures
            r == spec_metadata(total_item, page_number, page_limit),
    {
        let page: u64 = match page_number {
            Some(n) => if n == 0 {
                1
            } else {
                n
            },
            None => 1,
        };
        let limit: u64 = match page_limit {
            Some(l) => if l == 0 {
                5
            } else {
                l
            },
            None => 5,
        };
        let items_per_page: u64 = if limit > total_item {
            total_item
        } else {
            limit
        };
        let total_page_count: u64 = if items_per_page == 0 {
            0
        } else {
            proof {
                lemma_total_pages_le(total_item as int, items_per_page as int);
            }
            (((total_item as u128) + (items_per_page as u128) - 1) / (items_per_page as u128)) as u64
        };
        let mut meta = Metadata {
            total_item_count: total_item,
            total_page_count,
            items_per_page,
            current_page: None,
            next_page: None,
            previous_page: None,
        };
        if page <= meta.total_page_count {
            meta.current_page = Some(page);
            if page != 1 {
                meta.previous_page = Some(page - 1);
            }
            if page != meta.total_page_count {
                meta.next_page = Some(page + 1);
            }
        }
        meta
    }
}

} // verus!
