use vstd::prelude::*;

verus! {

/// Offsets of the neighbouring pages of a listing window, if any.
#[derive(Debug, Clone, Copy, PartialEq, Eq, Structural)]
pub struct PageLinks {
    pub prev: Option<u64>,
    pub next: Option<u64>,
}

/// A previous page exists when the window starts at or after a full page.
pub open spec fn has_prev(limit: int, offset: int) -> bool {
    offset != 0 && offset >= limit
}

/// A next page exists when rows remain beyond the current window.
pub open spec fn has_next(limit: int, offset: int, number_matched: int) -> bool {
    number_matched > offset + limit
}

/// The neighbouring page offsets for a window of `limit` rows starting at
/// `offset`, when `number_matched` rows satisfy the predicate.
pub fn paginate(limit: u64, offset: u64, number_matched: u64) -> (r: PageLinks)
    ensures
        r.prev.is_some() <==> has_prev(limit as int, offset as int),
        r.prev.is_some() ==> r.prev.unwrap() == offset - limit,
        r.next.is_some() <==> has_next(limit as int, offset as int, number_matched as int),
        r.next.is_some() ==> r.next.unwrap() == offset + limit,
{
    let prev = if offset != 0 && offset >= limit {
        Some(offset - limit)
    } else {
        None
    };
    let next = if offset <= u64::MAX - limit && number_matched > offset + limit {
        Some(offset + limit)
    } else {
        None
    };
    PageLinks { prev, next }
}

/// Following the `next` link and then that page's `prev` link leads back to
/// the original offset, for any positive page size.
pub proof fn lemma_next_then_prev(limit: u64, offset: u64, number_matched: u64)
    requires
        limit >= 1,
        has_next(limit as int, offset as int, number_matched as int),
    ensures
        offset + limit <= u64::MAX,
        has_prev(limit as int, offset + limit),
        (offset + limit) - limit == offset,
{
}

/// Following the `prev` link and then that page's `next` link leads back to
/// the original offset: the current window proves rows remain beyond it.
pub proof fn lemma_prev_then_next(limit: u64, offset: u64, number_matched: u64)
    requires
        limit >= 1,
        has_prev(limit as int, offset as int),
        number_matched > offset,
    ensures
        has_next(limit as int, offset - limit, number_matched as int),
        (offset - limit) + limit == offset,
{
}

} // verus!
