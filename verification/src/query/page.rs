//! The third step of a listing: cutting one page out of the records.
//!
//! Pages are counted from 1. Page `p` of size `l` covers the positions from
//! `(p - 1) * l` up to, but without, `p * l`, as far as the records reach.
//! A page that lies beyond the records is empty, and so are page 0 and a
//! page of size 0: no request for a page is an error.

use vstd::prelude::*;
use crate::query::QueryOptions;

verus! {

/// The position `x`, moved into `0..=total` where it lies outside.
pub open spec fn clip(x: int, total: nat) -> int {
    if x < 0 {
        0
    } else if x > total {
        total as int
    } else {
        x
    }
}

/// The position of the first record of the page among `total` records.
pub open spec fn page_start(page: nat, limit: nat, total: nat) -> int {
    clip((page - 1) * limit, total)
}

/// The position after the last record of the page among `total` records.
pub open spec fn page_end(page: nat, limit: nat, total: nat) -> int {
    clip((page * limit) as int, total)
}

/// The records of `data` that stand on the page.
pub open spec fn page_of<T>(data: Seq<T>, page: nat, limit: nat) -> Seq<T> {
    data.subrange(page_start(page, limit, data.len()), page_end(page, limit, data.len()))
}

/// The number of records on a page from 1 on: a full page where that many
/// records are left after the pages before it, else what is left of them.
pub open spec fn page_len(page: nat, limit: nat, total: nat) -> int {
    let left = total - (page - 1) * limit;
    let left = if left < 0 { 0 } else { left };
    if limit <= left {
        limit as int
    } else {
        left
    }
}

/// A page never starts after its end, and from page 1 on it holds
/// `page_len` records.
pub proof fn lemma_page_bounds(page: nat, limit: nat, total: nat)
    ensures
        0 <= page_start(page, limit, total) <= page_end(page, limit, total) <= total,
        page >= 1 ==> page_end(page, limit, total) - page_start(page, limit, total) == page_len(
            page,
            limit,
            total,
        ),
{
    assert(page * limit == (page - 1) * limit + limit) by (nonlinear_arith);
    if page >= 1 {
        assert((page - 1) * limit >= 0) by (nonlinear_arith)
            requires
                page >= 1,
                limit >= 0,
        ;
    }
}

/// Cuts the page that `options` asks for out of `data`, and tells how many
/// records there were before the cut.
pub fn apply_pagination<T>(data: Vec<T>, options: &QueryOptions) -> (reply: (Vec<T>, usize))
    ensures
        reply.0@ == page_of(data@, options@.page, options@.limit),
        reply.1 == data@.len(),
        options.page >= 1 ==> reply.0@.len() == page_len(
            options@.page,
            options@.limit,
            data@.len(),
        ),
{
    let total: usize = data.len();
    let mut rest = data;
    proof {
        lemma_page_bounds(options@.page, options@.limit, total as nat);
    }
    if options.page == 0 {
        assert((options@.page - 1) * options@.limit <= 0 && options@.page * options@.limit == 0)
            by (nonlinear_arith)
            requires
                options@.page == 0,
                options@.limit >= 0,
        ;
        rest.truncate(0);
        return (rest, total);
    }
    let before: u64 = options.page as u64 - 1;
    let limit: u64 = options.limit as u64;
    assert(before * limit <= 0xFFFF_FFFF * 0xFFFF_FFFF) by (nonlinear_arith)
        requires
            0 <= before <= 0xFFFF_FFFF,
            0 <= limit <= 0xFFFF_FFFF,
    ;
    let first: u64 = before * limit;
    let last: u64 = first + limit;
    assert(last == options@.page * options@.limit) by (nonlinear_arith)
        requires
            last == before * limit + limit,
            before == options@.page - 1,
            limit == options@.limit,
    ;
    let start: usize = if first > total as u64 {
        total
    } else {
        first as usize
    };
    let end: usize = if last > total as u64 {
        total
    } else {
        last as usize
    };
    rest.truncate(end);
    let page = rest.split_off(start);
    (page, total)
}

} // verus!
