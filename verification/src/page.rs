//! What a page of results shows.

use vstd::prelude::*;

verus! {

/// The number of results to a page unless another is chosen.
pub const DEFAULT_PAGE_SIZE: usize = 20;

/// The fewest and the most results to a page.
pub const MIN_PAGE_SIZE: usize = 10;

pub const MAX_PAGE_SIZE: usize = 100;

/// Brings a page size into the range from `MIN_PAGE_SIZE` to `MAX_PAGE_SIZE`.
pub fn clamp_page_size(size: usize) -> (r: usize)
    ensures
        MIN_PAGE_SIZE <= r <= MAX_PAGE_SIZE,
        r == if size < MIN_PAGE_SIZE {
            MIN_PAGE_SIZE
        } else if size > MAX_PAGE_SIZE {
            MAX_PAGE_SIZE
        } else {
            size
        },
{
    if size < MIN_PAGE_SIZE {
        MIN_PAGE_SIZE
    } else if size > MAX_PAGE_SIZE {
        MAX_PAGE_SIZE
    } else {
        size
    }
}

/// The part of the results that a page shows, and the page it is.
#[derive(Clone, Copy, Debug, PartialEq, Eq, Structural)]
pub struct PageRange {
    pub page: usize,
    pub from: usize,
    pub to: usize,
}

/// The range of page `page` among `len` results, `page_size` to a page. A
/// page that begins behind the last result is replaced by the first page.
pub open spec fn spec_page_range(page: usize, page_size: usize, len: usize) -> PageRange {
    if page * page_size <= len {
        PageRange {
            page,
            from: (page * page_size) as usize,
            to: if (page + 1) * page_size <= len {
                ((page + 1) * page_size) as usize
            } else {
                len
            },
        }
    } else {
        PageRange { page: 0, from: 0, to: if page_size <= len { page_size } else { len } }
    }
}

/// The range of results to show for a page.
pub fn page_range(page: usize, page_size: usize, len: usize) -> (r: PageRange)
    ensures
        r == spec_page_range(page, page_size, len),
        r.from <= r.to <= len,
        r.to - r.from <= page_size,
{
    assert(page * page_size <= 0xFFFF_FFFF_FFFF_FFFF * 0xFFFF_FFFF_FFFF_FFFF) by (nonlinear_arith)
        requires
            0 <= page <= 0xFFFF_FFFF_FFFF_FFFF,
            0 <= page_size <= 0xFFFF_FFFF_FFFF_FFFF,
    ;
    let begin: u128 = (page as u128) * (page_size as u128);
    assert(begin == page * page_size) by (nonlinear_arith)
        requires
            begin == (page as int) * (page_size as int),
    ;
    assert((page + 1) * page_size == page * page_size + page_size) by (nonlinear_arith);
    if begin <= len as u128 {
        let from = begin as usize;
        let to = if page_size <= len - from {
            from + page_size
        } else {
            len
        };
        PageRange { page, from, to }
    } else {
        PageRange { page: 0, from: 0, to: if page_size <= len { page_size } else { len } }
    }
}

/// Whether a page follows the given one.
pub fn has_next_page(page: usize, page_size: usize, len: usize) -> (r: bool)
    ensures
        r == ((page + 1) * page_size < len),
{
    assert((page + 1) * page_size <= 0x1_0000_0000_0000_0000 * 0xFFFF_FFFF_FFFF_FFFF) by (nonlinear_arith)
        requires
            0 <= page <= 0xFFFF_FFFF_FFFF_FFFF,
            0 <= page_size <= 0xFFFF_FFFF_FFFF_FFFF,
    ;
    let end: u128 = (page as u128 + 1) * (page_size as u128);
    assert(end == (page + 1) * page_size) by (nonlinear_arith)
        requires
            end == ((page as int) + 1) * (page_size as int),
    ;
    end < len as u128
}

/// The number of pages that the page counter shows.
pub fn page_count(page_size: usize, len: usize) -> (r: usize)
    requires
        page_size > 0,
        len < usize::MAX,
    ensures
        r == len / page_size + 1,
{
    let pages = len / page_size;
    assert(pages <= len) by (nonlinear_arith)
        requires
            pages == len as int / page_size as int,
            page_size > 0,
            len >= 0,
    ;
    pages + 1
}

/// How long ago something was, as it is shown.
#[derive(Clone, Copy, Debug, PartialEq, Eq, Structural)]
pub enum Age {
    Years(i64),
    OneYear,
    Months(i64),
    Days(i64),
}

/// How a number of days is shown: in years from two years on, as one year
/// from 365 days on, in months from 30 days on, else in days.
pub fn age_of(days: i64) -> (age: Age)
    ensures
        age == if days >= 2 * 365 {
            Age::Years((days / 365) as i64)
        } else if days >= 365 {
            Age::OneYear
        } else if days >= 30 {
            Age::Months((days / 30) as i64)
        } else {
            Age::Days(days)
        },
{
    if days >= 2 * 365 {
        Age::Years(days / 365)
    } else if days >= 365 {
        Age::OneYear
    } else if days >= 30 {
        Age::Months(days / 30)
    } else {
        Age::Days(days)
    }
}

} // verus!
