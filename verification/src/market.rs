//! Market registration records.
//!
//! A market is a trading pair: a base asset, a quote asset, and the
//! granularity rules (lot, tick, and minimum size) orders on it must obey.
//! The chain assigns each market an arbitrary-precision `market_id`, unique
//! across all registrations; a registration is immutable once written.

use crate::numeric::{BigUint, Decimal, DecimalView, Timestamp, wf_digits};
use vstd::prelude::*;

verus! {

/// The base side of a market: either a registered coin or a free-text
/// generic asset. Exactly one of the two carries the base identity, which
/// this shape enforces structurally.
#[derive(Debug)]
pub enum BaseAsset {
    /// The base is the registered coin with this surrogate id.
    Registered(i32),
    /// The base is not a registered coin; the text names it.
    Generic(String),
}

/// The mathematical shape of a [`BaseAsset`].
pub enum BaseAssetView {
    Registered(i32),
    Generic(Seq<char>),
}

impl View for BaseAsset {
    type V = BaseAssetView;

    open spec fn view(&self) -> BaseAssetView {
        match self {
            BaseAsset::Registered(id) => BaseAssetView::Registered(*id),
            BaseAsset::Generic(name) => BaseAssetView::Generic(name@),
        }
    }
}

impl Clone for BaseAsset {
    /// A clone carries the same base-asset identity.
    fn clone(&self) -> (res: Self)
        ensures
            res@ == self@,
    {
        match self {
            BaseAsset::Registered(id) => BaseAsset::Registered(*id),
            BaseAsset::Generic(name) => BaseAsset::Generic(name.clone()),
        }
    }
}

/// The mathematical shape of a stored [`MarketRegistrationEvent`] row.
pub struct MarketRegistrationEventView {
    pub market_id: Seq<u8>,
    pub time: Timestamp,
    pub base: BaseAssetView,
    pub quote_id: i32,
    pub lot_size: DecimalView,
    pub tick_size: DecimalView,
    pub min_size: DecimalView,
    pub underwriter_id: Seq<u8>,
}

impl MarketRegistrationEventView {
    /// Every numeric and timestamp field is well formed.
    pub open spec fn wf(self) -> bool {
        &&& wf_digits(self.market_id)
        &&& self.time.wf()
        &&& self.lot_size.wf()
        &&& self.tick_size.wf()
        &&& self.min_size.wf()
        &&& wf_digits(self.underwriter_id)
    }
}

/// A persisted market registration record, keyed by `market_id`.
#[derive(Debug)]
pub struct MarketRegistrationEvent {
    pub market_id: BigUint,
    pub time: Timestamp,
    pub base: BaseAsset,
    pub quote_id: i32,
    pub lot_size: Decimal,
    pub tick_size: Decimal,
    pub min_size: Decimal,
    pub underwriter_id: BigUint,
}

impl View for MarketRegistrationEvent {
    type V = MarketRegistrationEventView;

    open spec fn view(&self) -> MarketRegistrationEventView {
        MarketRegistrationEventView {
            market_id: self.market_id@,
            time: self.time,
            base: self.base@,
            quote_id: self.quote_id,
            lot_size: self.lot_size@,
            tick_size: self.tick_size@,
            min_size: self.min_size@,
            underwriter_id: self.underwriter_id@,
        }
    }
}

impl Clone for MarketRegistrationEvent {
    /// A clone carries every field value of the row unchanged.
    fn clone(&self) -> (res: Self)
        ensures
            res@ == self@,
    {
        MarketRegistrationEvent {
            market_id: self.market_id.clone(),
            time: self.time,
            base: self.base.clone(),
            quote_id: self.quote_id,
            lot_size: self.lot_size.clone(),
            tick_size: self.tick_size.clone(),
            min_size: self.min_size.clone(),
            underwriter_id: self.underwriter_id.clone(),
        }
    }
}

/// The views of a sequence of stored market registration rows.
pub open spec fn market_views(s: Seq<MarketRegistrationEvent>) -> Seq<MarketRegistrationEventView> {
    Seq::new(s.len(), |i: int| s[i]@)
}

/// The backend lookup on the unique market id: scans from the most recently
/// inserted row; with market ids unique, at most one row matches.
pub open spec fn find_market(
    markets: Seq<MarketRegistrationEventView>,
    market_id: Seq<u8>,
) -> Option<MarketRegistrationEventView>
    decreases markets.len(),
{
    if markets.len() == 0 {
        None
    } else if markets.last().market_id == market_id {
        Some(markets.last())
    } else {
        find_market(markets.drop_last(), market_id)
    }
}

/// When a lookup misses, no row at all carries the market id.
pub proof fn lemma_find_market_none(markets: Seq<MarketRegistrationEventView>, market_id: Seq<u8>)
    requires
        find_market(markets, market_id) is None,
    ensures
        forall|i: int| 0 <= i < markets.len() ==> #[trigger] markets[i].market_id != market_id,
    decreases markets.len(),
{
    if markets.len() > 0 {
        lemma_find_market_none(markets.drop_last(), market_id);
        assert forall|i: int| 0 <= i < markets.len() implies #[trigger] markets[i].market_id
            != market_id by {
            if i < markets.len() - 1 {
                assert(markets.drop_last()[i] == markets[i]);
                assert(markets.drop_last()[i].market_id != market_id);
            } else {
                assert(markets[i] == markets.last());
            }
        }
    }
}

/// A market that a lookup finds is still found after any further
/// registration: rows are appended and never displaced.
pub proof fn lemma_find_market_push(
    markets: Seq<MarketRegistrationEventView>,
    market_id: Seq<u8>,
    m: MarketRegistrationEventView,
)
    requires
        find_market(markets, market_id) is Some,
    ensures
        find_market(markets.push(m), market_id) is Some,
{
    assert(markets.push(m).drop_last() =~= markets);
}

} // verus!
