//! The cross-operation guarantees of the store, stated and proved once.
//!
//! Each law here relates the contracts of several operations over the same
//! spec-level contents, so a reader sees the guarantee stated outright
//! rather than having to derive it from the individual `ensures` clauses.

use crate::coin::{CoinView, find_coin};
use crate::event::MakerEventView;
use crate::market::{MarketRegistrationEventView, find_market};
use vstd::prelude::*;

verus! {

/// Round-trip fidelity of coin registration: once `create_coin` has
/// appended a record, the backend lookup on its
/// `(account_address, module_name, struct_name)` identity returns exactly
/// that record — every field value identical, absent optional fields
/// included. A second registration of the same identity therefore finds it
/// already present, and by `create_coin`'s contract must fail with a
/// constraint violation instead of creating or overwriting a row.
pub proof fn lemma_registered_coin_found(coins: Seq<CoinView>, c: CoinView)
    ensures
        find_coin(coins.push(c), c.identity()) == Some(c),
{
    assert(coins.push(c).last() == c);
}

/// Round-trip fidelity of market registration: once `register_market` has
/// appended a record, the backend lookup on its `market_id` returns exactly
/// that record, with the lot, tick, and minimum size decimals bit-for-bit
/// as given. A second registration of the same `market_id` therefore finds
/// it already present, and by `register_market`'s contract must fail with a
/// constraint violation instead of creating or overwriting a row.
pub proof fn lemma_registered_market_found(
    markets: Seq<MarketRegistrationEventView>,
    m: MarketRegistrationEventView,
)
    ensures
        find_market(markets.push(m), m.market_id) == Some(m),
{
    assert(markets.push(m).last() == m);
}

/// The maker event log is immutable history: an accepted event appends
/// exactly one row at the end, and every previously inserted row keeps its
/// position and its value. Because `add_maker_event` also leaves the market
/// table unchanged, repeating the same call with the same logical event
/// appends again rather than replacing anything.
pub proof fn lemma_event_log_append(events: Seq<MakerEventView>, e: MakerEventView)
    ensures
        events.push(e).len() == events.len() + 1,
        forall|j: int| 0 <= j < events.len() ==> #[trigger] events.push(e)[j] == events[j],
        events.push(e).last() == e,
        events.is_prefix_of(events.push(e)),
{
    assert(events.push(e).subrange(0, events.len() as int) =~= events);
}

} // verus!
