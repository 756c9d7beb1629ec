//! Cutting long lists into pages.

use vstd::prelude::*;

verus! {

/// A page of a list: its number, its length, and how many items stand before it.
#[derive(Clone, Copy, Debug, PartialEq, Eq, Structural)]
pub struct Page {
    pub page: u32,
    pub page_size: u32,
    pub offset: u64,
}

/// The number of the page that is asked for: at least the first.
pub open spec fn page_number(page: Option<u32>) -> u32 {
    match page {
        Some(number) => if number == 0 {
            1
        } else {
            number
        },
        None => 1,
    }
}

/// The length of the page that is asked for: one to a hundred.
pub open spec fn page_length(page_size: Option<u32>, default: u32) -> u32 {
    let wanted = match page_size {
        Some(length) => length,
        None => default,
    };
    if wanted < 1 {
        1
    } else if wanted > 100 {
        100
    } else {
        wanted
    }
}

/// Whether a page is the one that a query asks for.
pub open spec fn is_page(
    found: Page,
    page: Option<u32>,
    page_size: Option<u32>,
    default: u32,
) -> bool {
    &&& found.page == page_number(page)
    &&& found.page_size == page_length(page_size, default)
    &&& found.offset == (found.page - 1) * found.page_size
}

/// The page that a query asks for.
pub fn page_of(page: Option<u32>, page_size: Option<u32>, default: u32) -> (r: Page)
    ensures
        is_page(r, page, page_size, default),
        1 <= r.page,
        1 <= r.page_size <= 100,
{
    let number: u32 = match page {
        Some(given) => if given == 0 {
            1
        } else {
            given
        },
        None => 1,
    };
    let wanted: u32 = match page_size {
        Some(given) => given,
        None => default,
    };
    let length: u32 = if wanted < 1 {
        1
    } else if wanted > 100 {
        100
    } else {
        wanted
    };
    assert((number - 1) * length <= 0xffff_ffff * 100) by (nonlinear_arith)
        requires
            1 <= number <= 0xffff_ffff,
            length <= 100,
    ;
    Page { page: number, page_size: length, offset: (number as u64 - 1) * length as u64 }
}

/// Pages of the same length follow each other without gap or overlap.
pub proof fn pages_are_adjacent(
    this: Page,
    next: Page,
    number: u32,
    page_size: Option<u32>,
    default: u32,
)
    requires
        1 <= number < u32::MAX,
        is_page(this, Some(number), page_size, default),
        is_page(next, Some((number + 1) as u32), page_size, default),
    ensures
        next.page_size == this.page_size,
        next.offset == this.offset + this.page_size,
{
    let length = this.page_size as int;
    assert(number * length == (number - 1) * length + length) by (nonlinear_arith);
}

/// A page is the one that is asked for: the first where none is, of the usual length where none is
/// named, and never of fewer than one nor of more than a hundred items. Before it stand all the
/// items of the pages before.
pub proof fn pages_are_those_asked_for(
    page: Option<u32>,
    page_size: Option<u32>,
    default: u32,
    r: Page,
)
    requires
        1 <= default <= 100,
        call_ensures(page_of, (page, page_size, default), r),
    ensures
        page is None ==> r.page == 1,
        page is Some && page->0 >= 1 ==> r.page == page->0,
        page is Some && page->0 == 0 ==> r.page == 1,
        page_size is None ==> r.page_size == default,
        page_size is Some && 1 <= page_size->0 <= 100 ==> r.page_size == page_size->0,
        page_size is Some && page_size->0 > 100 ==> r.page_size == 100,
        page_size is Some && page_size->0 == 0 ==> r.page_size == 1,
        r.offset == (r.page - 1) * r.page_size,
{
}

/// Item after item, every place in a list stands on exactly one page of a given length.
pub proof fn every_place_is_on_one_page(
    page_size: Option<u32>,
    default: u32,
    first: Page,
    second: Page,
    one: u32,
    other: u32,
    place: int,
)
    requires
        1 <= one,
        1 <= other,
        call_ensures(page_of, (Some(one), page_size, default), first),
        call_ensures(page_of, (Some(other), page_size, default), second),
        first.offset <= place < first.offset + first.page_size,
        second.offset <= place < second.offset + second.page_size,
    ensures
        one == other,
{
    let length = first.page_size as int;
    assert(one == other) by (nonlinear_arith)
        requires
            length >= 1,
            (one - 1) * length <= place < (one - 1) * length + length,
            (other - 1) * length <= place < (other - 1) * length + length,
    ;
}

} // verus!
