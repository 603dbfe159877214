//! A ledger endpoint's history listing as a mathematical model, and what a
//! pagination collects from it.

use crate::rpc_client::lemma_stitch_length;
use crate::rpc_client::pager_after;
use crate::rpc_client::request_after;
use crate::rpc_client::stitch;
use crate::rpc_client::PagerView;
use crate::rpc_client::SignatureRequestView;
use vstd::math::min;
use vstd::prelude::*;

verus! {

/// Where in `history` the page behind the cursor `before` starts: at the most
/// recent reference without a cursor, right behind the cursor otherwise. A
/// cursor that the history does not hold leaves nothing to serve.
pub open spec fn page_start(history: Seq<Seq<char>>, before: Option<Seq<char>>) -> int {
    match before {
        None => 0,
        Some(cursor) => if history.contains(cursor) {
            history.index_of(cursor) + 1
        } else {
            history.len() as int
        },
    }
}

/// How many references an endpoint with page size `size` serves at most when
/// asked with `limit`.
pub open spec fn page_length(size: nat, limit: Option<usize>) -> int {
    match limit {
        None => size as int,
        Some(limit) => min(size as int, limit as int),
    }
}

/// The page with which an endpoint that holds `history`, most recent
/// reference first, and serves up to `size` references at a time answers
/// `request`.
pub open spec fn served_page(
    history: Seq<Seq<char>>,
    size: nat,
    request: SignatureRequestView,
) -> Seq<Seq<char>> {
    let start = page_start(history, request.before);
    let end = min(start + page_length(size, request.limit), history.len() as int);
    history.subrange(start, end)
}

/// What a pagination in state `pager` has collected when it ends, given that
/// each of its requests is answered from `history` with pages of up to `size`
/// references.
pub open spec fn paginate(history: Seq<Seq<char>>, size: nat, pager: PagerView) -> Seq<Seq<char>>
    decreases pager.max_length - pager.collected.len(),
{
    match request_after(pager) {
        None => pager.collected,
        Some(request) => {
            let next = pager_after(pager, served_page(history, size, request));
            if next.exhausted {
                next.collected
            } else {
                proof {
                    lemma_stitch_length(
                        pager.collected,
                        served_page(history, size, request),
                        pager.max_length,
                    );
                }
                paginate(history, size, next)
            }
        },
    }
}

/// A pagination that holds the `held` most recent references of `history` and
/// is handed the references from `held` up to `end` holds the `end` most
/// recent ones afterwards, or as many as its bound allows.
proof fn lemma_stitch_next_segment(history: Seq<Seq<char>>, held: int, end: int, max: nat)
    requires
        history.no_duplicates(),
        0 <= held <= end <= history.len(),
        held <= max,
    ensures
        stitch(history.take(held), history.subrange(held, end), max) == history.take(
            min(end, max as int),
        ),
    decreases end - held,
{
    let page = history.subrange(held, end);
    if held == end {
        assert(page.len() == 0);
    } else {
        lemma_stitch_next_segment(history, held, end - 1, max);
        assert(page.drop_last() =~= history.subrange(held, end - 1));
        assert(page.last() == history[end - 1]);
        let before = history.take(min(end - 1, max as int));
        if end - 1 < max {
            assert(!before.contains(history[end - 1])) by {
                if before.contains(history[end - 1]) {
                    let i = choose|i: int| 0 <= i < before.len() && before[i] == history[end - 1];
                    assert(history[i] == history[end - 1]);
                }
            }
            assert(before.push(history[end - 1]) =~= history.take(end));
        }
    }
}

/// The cursor behind the `held` most recent references points at the next one.
proof fn lemma_page_start(history: Seq<Seq<char>>, held: int)
    requires
        history.no_duplicates(),
        0 < held <= history.len(),
    ensures
        page_start(history, Some(history[held - 1])) == held,
{
    let cursor = history[held - 1];
    assert(history.contains(cursor));
    let found = history.index_of(cursor);
    assert(0 <= found < history.len() && history[found] == cursor);
}

/// A pagination that holds a prefix of the history ends with the longest
/// prefix that its bound allows.
proof fn lemma_paginate_from_prefix(history: Seq<Seq<char>>, size: nat, pager: PagerView, held: int)
    requires
        history.no_duplicates(),
        size >= 1,
        0 <= held <= history.len(),
        held <= pager.max_length,
        pager.collected == history.take(held),
        pager.exhausted ==> held == min(history.len() as int, pager.max_length as int),
    ensures
        paginate(history, size, pager) == history.take(
            min(history.len() as int, pager.max_length as int),
        ),
    decreases pager.max_length - held,
{
    match request_after(pager) {
        None => {},
        Some(request) => {
            if held > 0 {
                lemma_page_start(history, held);
                assert(pager.collected.last() == history[held - 1]);
            }
            let start = page_start(history, request.before);
            assert(start == held);
            let end = min(start + page_length(size, request.limit), history.len() as int);
            lemma_stitch_next_segment(history, held, end, pager.max_length);
            let next = pager_after(pager, served_page(history, size, request));
            if !next.exhausted {
                lemma_paginate_from_prefix(history, size, next, min(end, pager.max_length as int));
            }
        },
    }
}

/// Pagination is complete: against an endpoint that holds a history of
/// distinct references and serves at least one reference per page, a fresh
/// pagination bounded by `max_length` ends with exactly the `max_length` most
/// recent references, or with the whole history where that is shorter, in the
/// history's order. This holds whatever the endpoint's page size is in
/// relation to the history's length.
pub proof fn law_pagination_complete(history: Seq<Seq<char>>, size: nat, max_length: nat)
    requires
        history.no_duplicates(),
        size >= 1,
    ensures
        paginate(
            history,
            size,
            PagerView { collected: Seq::empty(), max_length, exhausted: false },
        ) == history.take(min(history.len() as int, max_length as int)),
        paginate(
            history,
            size,
            PagerView { collected: Seq::empty(), max_length, exhausted: false },
        ).no_duplicates(),
{
    let fresh = PagerView { collected: Seq::empty(), max_length, exhausted: false };
    assert(history.take(0) =~= Seq::<Seq<char>>::empty());
    lemma_paginate_from_prefix(history, size, fresh, 0);
}

} // verus!
