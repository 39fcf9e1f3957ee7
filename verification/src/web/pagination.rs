//! Page-number arithmetic for paginated listings.
use vstd::prelude::*;

verus! {

/// Half-width of the page number window shown in pagination bar.
pub const HALF_PAGES: i32 = 3;

#[derive(Debug, Clone)]
pub struct Pagination {
    pub current_page: i32,
    pub total_pages: i32,
    pub total_items: i64,
    pub has_previous: bool,
    pub has_next: bool,
    pub previous_page: i32,
    pub next_page: i32,
    /// Page numbers to display in the pagination bar.
    pub page_range: Vec<i32>,
}

/// Ceiling of `a / b` for a positive divisor.
pub open spec fn ceil_div(a: int, b: int) -> int {
    (a + b - 1) / b
}

/// Number of pages: one for an empty listing, otherwise enough pages of
/// `per_page` items to hold every item.
pub open spec fn page_count(per_page: int, total: int) -> int {
    if total == 0 {
        1
    } else {
        ceil_div(total, per_page)
    }
}

pub open spec fn clamp_spec(v: int, lo: int, hi: int) -> int {
    if v < lo {
        lo
    } else if v > hi {
        hi
    } else {
        v
    }
}

pub open spec fn max_spec(a: int, b: int) -> int {
    if a >= b {
        a
    } else {
        b
    }
}

pub open spec fn min_spec(a: int, b: int) -> int {
    if a <= b {
        a
    } else {
        b
    }
}

impl Pagination {
    /// The pagination state for a request of `page` with `per_page` items per
    /// page over `total` items.
    pub open spec fn describes(&self, page: int, per_page: int, total: int) -> bool {
        let pages = page_count(per_page, total);
        let cur = clamp_spec(page, 0, pages - 1);
        let start = max_spec(cur - HALF_PAGES, 0);
        let end = min_spec(cur + HALF_PAGES, pages - 1);
        &&& self.total_pages == pages
        &&& self.current_page == cur
        &&& self.total_items == total
        &&& self.has_previous == (cur > 0)
        &&& self.has_next == (cur < pages - 1)
        &&& self.previous_page == max_spec(cur - 1, 0)
        &&& self.next_page == min_spec(cur + 1, pages - 1)
        &&& self.page_range@.len() == end - start + 1
        &&& forall|i: int| 0 <= i < self.page_range@.len() ==> #[trigger] self.page_range@[i] == start + i
    }

    pub fn new(current_page: i32, items_per_page: i32, total_items: i64) -> (p: Self)
        requires
            items_per_page > 0,
            0 <= total_items <= 9007199254740992,
            page_count(items_per_page as int, total_items as int) <= i32::MAX - HALF_PAGES,
        ensures
            p.describes(current_page as int, items_per_page as int, total_items as int),
    {
        let total_pages: i32 = if total_items == 0 {
            1
        } else {
            let per = items_per_page as i64;
            let q = (total_items + per - 1) / per;
            q as i32
        };
        proof {
            assert(total_pages >= 1) by (nonlinear_arith)
                requires
                    total_items == 0 ==> total_pages == 1,
                    total_items > 0 ==> total_pages == (total_items + items_per_page - 1)
                        / (items_per_page as int),
                    items_per_page > 0,
                    total_items >= 0,
            ;
        }
        let current_page = if current_page < 0 {
            0
        } else if current_page > total_pages - 1 {
            total_pages - 1
        } else {
            current_page
        };
        let has_previous = current_page > 0;
        let has_next = current_page < total_pages - 1;
        let start = if current_page - HALF_PAGES > 0 {
            current_page - HALF_PAGES
        } else {
            0
        };
        let end = if current_page + HALF_PAGES < total_pages - 1 {
            current_page + HALF_PAGES
        } else {
            total_pages - 1
        };
        let mut page_range: Vec<i32> = Vec::new();
        let mut k = start;
        while k <= end
            invariant
                0 <= start <= k,
                k <= end + 1,
                end < i32::MAX,
                page_range@.len() == k - start,
                forall|i: int| 0 <= i < page_range@.len() ==> #[trigger] page_range@[i] == start + i,
            decreases end + 1 - k,
        {
            page_range.push(k);
            k += 1;
        }
        Pagination {
            current_page,
            total_pages,
            total_items,
            has_previous,
            has_next,
            previous_page: if current_page - 1 > 0 {
                current_page - 1
            } else {
                0
            },
            next_page: if current_page + 1 < total_pages - 1 {
                current_page + 1
            } else {
                total_pages - 1
            },
            page_range,
        }
    }
}


/// The pages hold every item and none is empty: with `total` items, `per_page`
/// to a page, the page count `n` has `(n - 1) * per_page < total <= n *
/// per_page`; an empty listing has one page.
pub proof fn lemma_pages_hold_every_item(per_page: int, total: int)
    requires
        per_page > 0,
        total >= 0,
    ensures
        total == 0 ==> page_count(per_page, total) == 1,
        total > 0 ==> (page_count(per_page, total) - 1) * per_page < total <= page_count(
            per_page,
            total,
        ) * per_page,
{
    if total > 0 {
        let x = total + per_page - 1;
        let n = x / per_page;
        vstd::arithmetic::div_mod::lemma_fundamental_div_mod(x, per_page);
        vstd::arithmetic::div_mod::lemma_mod_pos_bound(x, per_page);
        let r = x % per_page;
        assert(x == per_page * n + r);
        assert((n - 1) * per_page < total <= n * per_page) by (nonlinear_arith)
            requires
                x == per_page * n + r,
                0 <= r < per_page,
                x == total + per_page - 1,
                per_page > 0,
        ;
    }
}

/// The pagination of a listing holds every item on its pages, and none of
/// its pages is empty.
pub proof fn lemma_pagination_covers_items(p: Pagination, page: int, per_page: int, total: int)
    requires
        per_page > 0,
        total >= 0,
        p.describes(page, per_page, total),
    ensures
        total > 0 ==> (p.total_pages - 1) * per_page < total <= p.total_pages * per_page,
        total == 0 ==> p.total_pages == 1,
{
    lemma_pages_hold_every_item(per_page, total);
}

} // verus!
