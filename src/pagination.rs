//! Page-based pagination: page-number parsing, page counts and page windows.
use vstd::prelude::*;
use crate::text::{parse_u64, parsed_u64};

verus! {

/// Rows per page of every listing, unless a listing takes its own setting.
pub const PAGE_SIZE: u64 = 10;

/// Number of pages that `count` rows fill at `per_page` rows a page (rounded up).
pub open spec fn page_count(count: int, per_page: int) -> int {
    if count % per_page == 0 {
        count / per_page
    } else {
        count / per_page + 1
    }
}

/// Index of the first row of 1-based page `page`; pages below 1 count as page 1.
pub open spec fn page_start(page: int, per_page: int) -> int {
    if page <= 1 {
        0
    } else {
        (page - 1) * per_page
    }
}

/// The rows that page `page` shows out of `items`.
pub open spec fn page_items<T>(items: Seq<T>, page: int, per_page: int) -> Seq<T> {
    let s = page_start(page, per_page);
    if s >= items.len() {
        Seq::empty()
    } else if s + per_page >= items.len() {
        items.subrange(s, items.len() as int)
    } else {
        items.subrange(s, s + per_page)
    }
}

/// The rows of pages 1 to `n`, one page after another.
pub open spec fn first_pages<T>(items: Seq<T>, per_page: int, n: nat) -> Seq<T>
    decreases n,
{
    if n == 0 {
        Seq::empty()
    } else {
        first_pages(items, per_page, (n - 1) as nat) + page_items(items, n as int, per_page)
    }
}

proof fn lemma_first_pages_prefix<T>(items: Seq<T>, per_page: int, n: nat)
    requires
        per_page > 0,
    ensures
        n * per_page <= items.len() ==> first_pages(items, per_page, n) == items.subrange(
            0,
            n * per_page,
        ),
        n * per_page > items.len() ==> first_pages(items, per_page, n) == items,
    decreases n,
{
    if n > 0 {
        let m = (n - 1) as nat;
        lemma_first_pages_prefix(items, per_page, m);
        assert(m * per_page + per_page == n * per_page) by (nonlinear_arith)
            requires m == n - 1;
        assert(page_start(n as int, per_page) == m * per_page) by (nonlinear_arith)
            requires m == n - 1, n >= 1;
        assert(m * per_page >= 0) by (nonlinear_arith)
            requires per_page > 0;
        if m * per_page >= items.len() {
            assert(first_pages(items, per_page, m) == items);
            assert(page_items(items, n as int, per_page) == Seq::<T>::empty());
            assert(first_pages(items, per_page, n) =~= items);
        } else if n * per_page <= items.len() {
            assert(first_pages(items, per_page, n) =~= items.subrange(0, n * per_page));
        } else {
            assert(first_pages(items, per_page, n) =~= items);
        }
    } else {
        assert(first_pages(items, per_page, n) =~= items.subrange(0, 0));
    }
}

proof fn lemma_page_count_covers(count: int, per_page: int)
    requires
        per_page > 0,
        count >= 0,
    ensures
        page_count(count, per_page) >= 0,
        page_count(count, per_page) * per_page >= count,
        (page_count(count, per_page) - 1) * per_page < count || count == 0,
{
    let q = count / per_page;
    let r = count % per_page;
    assert(count == q * per_page + r && 0 <= r < per_page && q >= 0) by (nonlinear_arith)
        requires q == count / per_page, r == count % per_page, per_page > 0, count >= 0;
    if r == 0 {
        assert((q - 1) * per_page < count || count == 0) by (nonlinear_arith)
            requires count == q * per_page, per_page > 0, q >= 0;
    } else {
        assert((q + 1) * per_page >= count) by (nonlinear_arith)
            requires count == q * per_page + r, r < per_page;
        assert(q * per_page < count) by (nonlinear_arith)
            requires count == q * per_page + r, r > 0;
    }
}

/// Reading pages 1 to the last page in turn gives back the whole ordered
/// result: every row once, in its place, none left out.
pub proof fn lemma_pages_cover_all<T>(items: Seq<T>, per_page: int)
    requires
        per_page > 0,
    ensures
        first_pages(items, per_page, page_count(items.len() as int, per_page) as nat) == items,
{
    let n = page_count(items.len() as int, per_page);
    lemma_page_count_covers(items.len() as int, per_page);
    lemma_first_pages_prefix(items, per_page, n as nat);
    if n * per_page <= items.len() {
        assert(items.subrange(0, n * per_page) =~= items);
    }
}

/// A page number of zero or below shows what page 1 shows.
pub proof fn lemma_page_floor<T>(items: Seq<T>, page: int, per_page: int)
    requires
        page <= 1,
    ensures
        page_items(items, page, per_page) == page_items(items, 1, per_page),
{
}

/// A page number past the last page shows no rows (and is no error).
pub proof fn lemma_page_past_end<T>(items: Seq<T>, page: int, per_page: int)
    requires
        per_page > 0,
        page > page_count(items.len() as int, per_page),
    ensures
        page_items(items, page, per_page) == Seq::<T>::empty(),
{
    let n = page_count(items.len() as int, per_page);
    lemma_page_count_covers(items.len() as int, per_page);
    assert((page - 1) * per_page >= n * per_page) by (nonlinear_arith)
        requires page - 1 >= n, per_page > 0;
    if page <= 1 {
        assert(n * per_page == 0) by (nonlinear_arith)
            requires n == 0;
    }
    assert(page_start(page, per_page) >= items.len());
}

/// The page a request asks for: a positive whole number, or page 1 when the
/// parameter is absent, unparsable, zero or negative.
pub open spec fn requested_page(param: Option<&str>) -> u64 {
    match param {
        Some(t) => match parsed_u64(t@) {
            Some(v) => if v >= 1 { v } else { 1 },
            None => 1,
        },
        None => 1,
    }
}

/// The page size a setting asks for: a positive whole number, else `PAGE_SIZE`.
pub open spec fn requested_page_size(setting: Option<&str>) -> u64 {
    match setting {
        Some(t) => match parsed_u64(t@) {
            Some(v) => if v >= 1 { v } else { PAGE_SIZE },
            None => PAGE_SIZE,
        },
        None => PAGE_SIZE,
    }
}

/// Reads the `page` query parameter.
pub fn page_number(param: Option<&str>) -> (r: u64)
    ensures
        r == requested_page(param),
        r >= 1,
{
    match param {
        Some(t) => match parse_u64(t) {
            Some(v) => if v >= 1 { v } else { 1 },
            None => 1,
        },
        None => 1,
    }
}

/// Reads a page-size setting; absent, unparsable or zero gives `PAGE_SIZE`.
pub fn page_size_setting(setting: Option<&str>) -> (r: u64)
    ensures
        r == requested_page_size(setting),
        r >= 1,
{
    match setting {
        Some(t) => match parse_u64(t) {
            Some(v) => if v >= 1 { v } else { PAGE_SIZE },
            None => PAGE_SIZE,
        },
        None => PAGE_SIZE,
    }
}

/// Number of pages for `count` rows (`count.div_ceil(per_page)`).
pub fn total_pages(count: u64, per_page: u64) -> (r: u64)
    requires
        per_page > 0,
    ensures
        r == page_count(count as int, per_page as int),
{
    let q = count / per_page;
    if count % per_page == 0 {
        q
    } else {
        proof {
            assert(q * per_page <= count) by (nonlinear_arith)
                requires q == count / per_page, per_page > 0;
            assert(q < count || q == 0) by (nonlinear_arith)
                requires q == count / per_page, per_page > 0, count % per_page != 0;
        }
        q + 1
    }
}

/// Metadata that accompanies every page.
#[derive(Debug)]
pub struct ResponseMetadata {
    pub count: u64,
    pub per_page: u64,
    pub total_page: u64,
    pub current_url: Option<String>,
}

impl ResponseMetadata {
    /// Metadata for `count` matching rows shown `per_page` at a time.
    pub fn new(count: u64, per_page: u64, current_url: Option<String>) -> (r: ResponseMetadata)
        requires
            per_page > 0,
        ensures
            r.count == count,
            r.per_page == per_page,
            r.total_page == page_count(count as int, per_page as int),
            r.current_url == current_url,
    {
        ResponseMetadata { count, per_page, total_page: total_pages(count, per_page), current_url }
    }
}

/// One page of rows with its metadata.
#[derive(Debug)]
pub struct Paginated<T> {
    pub data: Vec<T>,
    pub meta: ResponseMetadata,
}

/// Cuts page `page` out of the full ordered result `items`.
pub fn page_of<T>(items: Vec<T>, page: u64, per_page: u64) -> (r: Vec<T>)
    requires
        per_page > 0,
    ensures
        r@ == page_items(items@, page as int, per_page as int),
{
    let n = items.len();
    let idx: u64 = if page == 0 { 0 } else { page - 1 };
    proof {
        if page <= 1 {
            assert(idx == 0);
            assert(idx * per_page == 0) by (nonlinear_arith)
                requires idx == 0;
        }
    }
    let start_wide = idx.checked_mul(per_page);
    let start = match start_wide {
        Some(s) => {
            if s >= n as u64 {
                return Vec::new();
            }
            s as usize
        },
        None => {
            return Vec::new();
        },
    };
    assert(start == page_start(page as int, per_page as int));
    let mut items = items;
    let mut rest = items.split_off(start);
    if per_page as u128 >= (n - start) as u128 {
        rest
    } else {
        rest.truncate(per_page as usize);
        rest
    }
}

/// Pages the full ordered result `items` and reports its metadata.
pub fn paginate<T>(items: Vec<T>, page: u64, per_page: u64, current_url: Option<String>) -> (r:
    Paginated<T>)
    requires
        per_page > 0,
    ensures
        r.data@ == page_items(items@, page as int, per_page as int),
        r.meta.count == items@.len(),
        r.meta.per_page == per_page,
        r.meta.total_page == page_count(items@.len() as int, per_page as int),
        r.meta.current_url == current_url,
{
    let count = items.len() as u64;
    let meta = ResponseMetadata::new(count, per_page, current_url);
    Paginated { data: page_of(items, page, per_page), meta }
}

} // verus!
