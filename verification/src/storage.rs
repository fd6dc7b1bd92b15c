//! The storage backend contract, as a verified model.
//!
//! [`Storage`] holds the three append-target tables and enforces exactly the
//! constraints the persistence layer relies on: coin identities are unique,
//! market ids are unique, and a maker event is accepted only when its market
//! is already registered. Each operation is a single atomic append — either
//! the full record becomes durably visible, or the store is left untouched
//! and a distinct failure is surfaced. No record is ever updated or removed.

use crate::coin::{Coin, CoinView, coin_views, find_coin, lemma_find_coin_none, opt_str_view,
    opt_string_view};
use crate::error::DbError;
use crate::event::{MakerEvent, MakerEventType, MakerEventView, Side, maker_event_views,
    opt_id_view};
use crate::market::{BaseAsset, MarketRegistrationEvent, MarketRegistrationEventView, find_market,
    lemma_find_market_none, lemma_find_market_push, market_views};
use crate::numeric::{BigUint, Decimal, Timestamp};
use vstd::prelude::*;

verus! {

/// The mathematical contents of the store: the three tables as sequences of
/// row views, in insertion order.
pub struct StorageView {
    pub coins: Seq<CoinView>,
    pub markets: Seq<MarketRegistrationEventView>,
    pub maker_events: Seq<MakerEventView>,
}

impl StorageView {
    /// The backend constraints: every row is well formed, coin surrogate ids
    /// are assigned consecutively from one, coin identities and market ids
    /// are unique, and every maker event references a registered market.
    pub open spec fn wf(self) -> bool {
        &&& forall|i: int| 0 <= i < self.coins.len() ==> (#[trigger] self.coins[i]).wf()
        &&& forall|i: int|
            0 <= i < self.coins.len() ==> (#[trigger] self.coins[i]).id as int == i + 1
        &&& forall|i: int, j: int|
            0 <= i < j < self.coins.len() ==> (#[trigger] self.coins[i]).identity() != (
            #[trigger] self.coins[j]).identity()
        &&& forall|i: int| 0 <= i < self.markets.len() ==> (#[trigger] self.markets[i]).wf()
        &&& forall|i: int, j: int|
            0 <= i < j < self.markets.len() ==> (#[trigger] self.markets[i]).market_id != (
            #[trigger] self.markets[j]).market_id
        &&& forall|i: int|
            0 <= i < self.maker_events.len() ==> (#[trigger] self.maker_events[i]).wf()
        &&& forall|i: int|
            0 <= i < self.maker_events.len() ==> find_market(
                self.markets,
                (#[trigger] self.maker_events[i]).market_id,
            ) is Some
    }
}

/// The shared storage backend: three append-only tables.
#[derive(Debug)]
pub struct Storage {
    pub coins: Vec<Coin>,
    pub markets: Vec<MarketRegistrationEvent>,
    pub maker_events: Vec<MakerEvent>,
}

impl View for Storage {
    type V = StorageView;

    open spec fn view(&self) -> StorageView {
        StorageView {
            coins: coin_views(self.coins@),
            markets: market_views(self.markets@),
            maker_events: maker_event_views(self.maker_events@),
        }
    }
}

impl Storage {
    /// The backend constraints hold of the current contents.
    pub open spec fn wf(&self) -> bool {
        self@.wf()
    }

    /// An empty store, before any registration.
    pub fn new() -> (s: Storage)
        ensures
            s.wf(),
            s@.coins == Seq::<CoinView>::empty(),
            s@.markets == Seq::<MarketRegistrationEventView>::empty(),
            s@.maker_events == Seq::<MakerEventView>::empty(),
    {
        let s = Storage { coins: Vec::new(), markets: Vec::new(), maker_events: Vec::new() };
        proof {
            assert(s@.coins =~= Seq::<CoinView>::empty());
            assert(s@.markets =~= Seq::<MarketRegistrationEventView>::empty());
            assert(s@.maker_events =~= Seq::<MakerEventView>::empty());
        }
        s
    }
}

/// Converts an optional borrowed display string into an owned one,
/// preserving absence exactly.
fn opt_str_to_owned(o: Option<&str>) -> (r: Option<String>)
    ensures
        opt_string_view(r) == opt_str_view(o),
{
    match o {
        Some(s) => Some(s.to_owned()),
        None => None,
    }
}

/// Registers a coin the first time its fully-qualified on-chain type is
/// observed: one atomic insert of one row, with the next surrogate id.
/// Inserting an identity that already exists fails with a constraint
/// violation and writes nothing, so that asset identity stays immutable.
pub fn create_coin(
    store: &mut Storage,
    account_address: &str,
    module_name: &str,
    struct_name: &str,
    symbol: Option<&str>,
    name: Option<&str>,
    decimals: Option<i16>,
) -> (r: Result<Coin, DbError>)
    requires
        old(store).wf(),
        account_address@.len() > 0,
        module_name@.len() > 0,
        struct_name@.len() > 0,
        match decimals {
            Some(d) => d >= 0,
            None => true,
        },
        old(store)@.coins.len() < 0x7fff_ffff,
    ensures
        final(store).wf(),
        final(store)@.markets == old(store)@.markets,
        final(store)@.maker_events == old(store)@.maker_events,
        match r {
            Ok(c) => ({
                &&& find_coin(
                    old(store)@.coins,
                    (account_address@, module_name@, struct_name@),
                ) is None
                &&& c@.account_address == account_address@
                &&& c@.module_name == module_name@
                &&& c@.struct_name == struct_name@
                &&& c@.symbol == opt_str_view(symbol)
                &&& c@.name == opt_str_view(name)
                &&& c@.decimals == decimals
                &&& c@.id as int == old(store)@.coins.len() + 1
                &&& final(store)@.coins == old(store)@.coins.push(c@)
            }),
            Err(e) => ({
                &&& e == DbError::DuplicateCoin
                &&& find_coin(
                    old(store)@.coins,
                    (account_address@, module_name@, struct_name@),
                ) is Some
                &&& final(store)@ == old(store)@
            }),
        },
{
    let ghost all = coin_views(store.coins@);
    let ghost ident = (account_address@, module_name@, struct_name@);
    let addr = account_address.to_owned();
    let modl = module_name.to_owned();
    let strct = struct_name.to_owned();
    proof {
        assert(all.subrange(0, all.len() as int) =~= all);
    }
    let mut i: usize = store.coins.len();
    while i > 0
        invariant
            i <= store.coins@.len(),
            *store == *old(store),
            old(store).wf(),
            all == coin_views(store.coins@),
            ident == (account_address@, module_name@, struct_name@),
            addr@ == account_address@,
            modl@ == module_name@,
            strct@ == struct_name@,
            find_coin(all, ident) == find_coin(all.subrange(0, i as int), ident),
        decreases i,
    {
        i = i - 1;
        let c = &store.coins[i];
        if c.account_address == addr && c.module_name == modl && c.struct_name == strct {
            proof {
                assert(all[i as int] == store.coins@[i as int]@);
                assert(all.subrange(0, i as int + 1).last() == all[i as int]);
                assert(all[i as int].identity() == ident);
            }
            return Err(DbError::DuplicateCoin);
        }
        proof {
            assert(all.subrange(0, i as int + 1).last() == all[i as int]);
            assert(all[i as int].identity() != ident);
            assert(all.subrange(0, i as int + 1).drop_last() =~= all.subrange(0, i as int));
        }
    }
    proof {
        assert(all.subrange(0, 0) =~= Seq::<CoinView>::empty());
        assert(find_coin(all, ident) is None);
        lemma_find_coin_none(all, ident);
    }
    let id: i32 = (store.coins.len() as i32) + 1;
    let coin = Coin {
        id,
        account_address: addr,
        module_name: modl,
        struct_name: strct,
        symbol: opt_str_to_owned(symbol),
        name: opt_str_to_owned(name),
        decimals,
    };
    let result = coin.clone();
    proof {
        assert(coin@ == result@);
    }
    store.coins.push(coin);
    proof {
        let newc = coin_views(store.coins@);
        assert(newc =~= all.push(result@));
        assert(final(store)@.markets =~= old(store)@.markets);
        assert(final(store)@.maker_events =~= old(store)@.maker_events);
        assert forall|a: int, b: int| 0 <= a < b < newc.len() implies (
        #[trigger] newc[a]).identity() != (#[trigger] newc[b]).identity() by {
            if b < all.len() {
                assert(newc[a] == all[a]);
                assert(newc[b] == all[b]);
            } else {
                assert(newc[a] == all[a]);
                assert(all[a].identity() != ident);
                assert(newc[b].identity() == ident);
            }
        }
    }
    Ok(result)
}

/// Records the creation of a trading market under a fresh chain-assigned
/// `market_id`: one atomic insert of one row, preserved bit-for-bit. A
/// duplicate `market_id` fails with a constraint violation and writes
/// nothing, preserving one registration per market.
pub fn register_market(
    store: &mut Storage,
    market_id: BigUint,
    time: Timestamp,
    base: BaseAsset,
    quote_id: i32,
    lot_size: Decimal,
    tick_size: Decimal,
    min_size: Decimal,
    underwriter_id: BigUint,
) -> (r: Result<MarketRegistrationEvent, DbError>)
    requires
        old(store).wf(),
        market_id.wf(),
        time.wf(),
        lot_size.wf(),
        tick_size.wf(),
        min_size.wf(),
        underwriter_id.wf(),
    ensures
        final(store).wf(),
        final(store)@.coins == old(store)@.coins,
        final(store)@.maker_events == old(store)@.maker_events,
        match r {
            Ok(m) => ({
                &&& find_market(old(store)@.markets, market_id@) is None
                &&& m@ == (MarketRegistrationEventView {
                    market_id: market_id@,
                    time,
                    base: base@,
                    quote_id,
                    lot_size: lot_size@,
                    tick_size: tick_size@,
                    min_size: min_size@,
                    underwriter_id: underwriter_id@,
                })
                &&& final(store)@.markets == old(store)@.markets.push(m@)
                &&& find_market(final(store)@.markets, market_id@) == Some(m@)
            }),
            Err(e) => ({
                &&& e == DbError::DuplicateMarket
                &&& find_market(old(store)@.markets, market_id@) is Some
                &&& final(store)@ == old(store)@
            }),
        },
{
    let ghost all = market_views(store.markets@);
    proof {
        assert(all.subrange(0, all.len() as int) =~= all);
    }
    let mut i: usize = store.markets.len();
    while i > 0
        invariant
            i <= store.markets@.len(),
            *store == *old(store),
            old(store).wf(),
            all == market_views(store.markets@),
            find_market(all, market_id@) == find_market(all.subrange(0, i as int), market_id@),
        decreases i,
    {
        i = i - 1;
        let m = &store.markets[i];
        if m.market_id == market_id {
            proof {
                assert(all[i as int] == store.markets@[i as int]@);
                assert(all.subrange(0, i as int + 1).last() == all[i as int]);
            }
            return Err(DbError::DuplicateMarket);
        }
        proof {
            assert(all.subrange(0, i as int + 1).last() == all[i as int]);
            assert(all.subrange(0, i as int + 1).drop_last() =~= all.subrange(0, i as int));
        }
    }
    proof {
        assert(all.subrange(0, 0) =~= Seq::<MarketRegistrationEventView>::empty());
        assert(find_market(all, market_id@) is None);
        lemma_find_market_none(all, market_id@);
    }
    let record = MarketRegistrationEvent {
        market_id,
        time,
        base,
        quote_id,
        lot_size,
        tick_size,
        min_size,
        underwriter_id,
    };
    let result = record.clone();
    proof {
        assert(record@ == result@);
    }
    store.markets.push(record);
    proof {
        let newm = market_views(store.markets@);
        assert(newm =~= all.push(result@));
        assert(final(store)@.coins =~= old(store)@.coins);
        assert(final(store)@.maker_events =~= old(store)@.maker_events);
        assert(newm.last() == result@);
        assert forall|a: int, b: int| 0 <= a < b < newm.len() implies (
        #[trigger] newm[a]).market_id != (#[trigger] newm[b]).market_id by {
            if b < all.len() {
                assert(newm[a] == all[a]);
                assert(newm[b] == all[b]);
            } else {
                assert(newm[a] == all[a]);
                assert(all[a].market_id != market_id@);
                assert(newm[b].market_id == market_id@);
            }
        }
        assert forall|k: int| 0 <= k < final(store)@.maker_events.len() implies find_market(
            newm,
            (#[trigger] final(store)@.maker_events[k]).market_id,
        ) is Some by {
            assert(old(store)@.maker_events[k] == final(store)@.maker_events[k]);
            lemma_find_market_push(all, old(store)@.maker_events[k].market_id, result@);
        }
    }
    Ok(result)
}

/// Appends one maker event to the durable history: one atomic insert that
/// never mutates or removes a previously inserted row. An event whose
/// `market_id` matches no registered market fails with a foreign-key
/// constraint violation, and no row is inserted.
pub fn add_maker_event(
    store: &mut Storage,
    market_id: BigUint,
    side: Side,
    market_order_id: BigUint,
    user_address: &str,
    custodian_id: Option<BigUint>,
    event_type: MakerEventType,
    size: Decimal,
    price: Decimal,
    time: Timestamp,
) -> (r: Result<MakerEvent, DbError>)
    requires
        old(store).wf(),
        market_id.wf(),
        market_order_id.wf(),
        match custodian_id {
            Some(c) => c.wf(),
            None => true,
        },
        size.wf(),
        price.wf(),
        time.wf(),
    ensures
        final(store).wf(),
        final(store)@.coins == old(store)@.coins,
        final(store)@.markets == old(store)@.markets,
        old(store)@.maker_events.is_prefix_of(final(store)@.maker_events),
        match r {
            Ok(e) => ({
                &&& find_market(old(store)@.markets, market_id@) is Some
                &&& e@ == (MakerEventView {
                    market_id: market_id@,
                    side,
                    market_order_id: market_order_id@,
                    user_address: user_address@,
                    custodian_id: opt_id_view(custodian_id),
                    event_type,
                    size: size@,
                    price: price@,
                    time,
                })
                &&& final(store)@.maker_events == old(store)@.maker_events.push(e@)
            }),
            Err(err) => ({
                &&& err == DbError::UnknownMarket
                &&& find_market(old(store)@.markets, market_id@) is None
                &&& final(store)@ == old(store)@
            }),
        },
{
    let ghost all = market_views(store.markets@);
    proof {
        assert(all.subrange(0, all.len() as int) =~= all);
    }
    let mut found = false;
    let mut i: usize = store.markets.len();
    while i > 0 && !found
        invariant
            i <= store.markets@.len(),
            *store == *old(store),
            all == market_views(store.markets@),
            !found ==> find_market(all, market_id@) == find_market(
                all.subrange(0, i as int),
                market_id@,
            ),
            found ==> find_market(all, market_id@) is Some,
        decreases i,
    {
        i = i - 1;
        let m = &store.markets[i];
        if m.market_id == market_id {
            proof {
                assert(all[i as int] == store.markets@[i as int]@);
                assert(all.subrange(0, i as int + 1).last() == all[i as int]);
            }
            found = true;
        } else {
            proof {
                assert(all.subrange(0, i as int + 1).last() == all[i as int]);
                assert(all.subrange(0, i as int + 1).drop_last() =~= all.subrange(0, i as int));
            }
        }
    }
    if !found {
        proof {
            assert(all.subrange(0, 0) =~= Seq::<MarketRegistrationEventView>::empty());
            assert(find_market(all, market_id@) is None);
            assert(old(store)@.maker_events.is_prefix_of(final(store)@.maker_events));
        }
        return Err(DbError::UnknownMarket);
    }
    let event = MakerEvent {
        market_id,
        side,
        market_order_id,
        user_address: user_address.to_owned(),
        custodian_id,
        event_type,
        size,
        price,
        time,
    };
    let result = event.clone();
    proof {
        assert(event@ == result@);
    }
    store.maker_events.push(event);
    proof {
        let newe = maker_event_views(store.maker_events@);
        let olde = old(store)@.maker_events;
        assert(newe =~= olde.push(result@));
        assert(final(store)@.coins =~= old(store)@.coins);
        assert(final(store)@.markets =~= old(store)@.markets);
        assert(olde.push(result@).subrange(0, olde.len() as int) =~= olde);
        assert forall|k: int| 0 <= k < newe.len() implies find_market(
            final(store)@.markets,
            (#[trigger] newe[k]).market_id,
        ) is Some by {
            if k < olde.len() {
                assert(newe[k] == olde[k]);
            } else {
                assert(newe[k] == result@);
            }
        }
    }
    Ok(result)
}

/// The backend lookup on the unique coin identity
/// `(account_address, module_name, struct_name)`: returns the registered
/// row, field for field as it was inserted, or nothing.
pub fn lookup_coin(
    store: &Storage,
    account_address: &str,
    module_name: &str,
    struct_name: &str,
) -> (r: Option<Coin>)
    ensures
        match r {
            Some(c) => find_coin(store@.coins, (account_address@, module_name@, struct_name@))
                == Some(c@),
            None => find_coin(store@.coins, (account_address@, module_name@, struct_name@))
                is None,
        },
{
    let ghost all = coin_views(store.coins@);
    let ghost ident = (account_address@, module_name@, struct_name@);
    let addr = account_address.to_owned();
    let modl = module_name.to_owned();
    let strct = struct_name.to_owned();
    proof {
        assert(all.subrange(0, all.len() as int) =~= all);
    }
    let mut i: usize = store.coins.len();
    while i > 0
        invariant
            i <= store.coins@.len(),
            all == coin_views(store.coins@),
            ident == (account_address@, module_name@, struct_name@),
            addr@ == account_address@,
            modl@ == module_name@,
            strct@ == struct_name@,
            find_coin(all, ident) == find_coin(all.subrange(0, i as int), ident),
        decreases i,
    {
        i = i - 1;
        let c = &store.coins[i];
        if c.account_address == addr && c.module_name == modl && c.struct_name == strct {
            proof {
                assert(all[i as int] == store.coins@[i as int]@);
                assert(all.subrange(0, i as int + 1).last() == all[i as int]);
                assert(all[i as int].identity() == ident);
            }
            return Some(c.clone());
        }
        proof {
            assert(all.subrange(0, i as int + 1).last() == all[i as int]);
            assert(all[i as int].identity() != ident);
            assert(all.subrange(0, i as int + 1).drop_last() =~= all.subrange(0, i as int));
        }
    }
    proof {
        assert(all.subrange(0, 0) =~= Seq::<CoinView>::empty());
    }
    None
}

/// The backend lookup on the unique market id: returns the registered row,
/// field for field as it was inserted, or nothing.
pub fn lookup_market(store: &Storage, market_id: &BigUint) -> (r: Option<MarketRegistrationEvent>)
    ensures
        match r {
            Some(m) => find_market(store@.markets, market_id@) == Some(m@),
            None => find_market(store@.markets, market_id@) is None,
        },
{
    let ghost all = market_views(store.markets@);
    proof {
        assert(all.subrange(0, all.len() as int) =~= all);
    }
    let mut i: usize = store.markets.len();
    while i > 0
        invariant
            i <= store.markets@.len(),
            all == market_views(store.markets@),
            find_market(all, market_id@) == find_market(all.subrange(0, i as int), market_id@),
        decreases i,
    {
        i = i - 1;
        let m = &store.markets[i];
        if m.market_id == *market_id {
            proof {
                assert(all[i as int] == store.markets@[i as int]@);
                assert(all.subrange(0, i as int + 1).last() == all[i as int]);
            }
            return Some(m.clone());
        }
        proof {
            assert(all.subrange(0, i as int + 1).last() == all[i as int]);
            assert(all.subrange(0, i as int + 1).drop_last() =~= all.subrange(0, i as int));
        }
    }
    proof {
        assert(all.subrange(0, 0) =~= Seq::<MarketRegistrationEventView>::empty());
    }
    None
}

/// How many maker event rows the history holds.
pub fn maker_event_count(store: &Storage) -> (n: usize)
    ensures
        n == store@.maker_events.len(),
{
    store.maker_events.len()
}

/// The maker event row at a position of the append-only history.
pub fn maker_event_at(store: &Storage, i: usize) -> (r: &MakerEvent)
    requires
        i < store@.maker_events.len(),
    ensures
        r@ == store@.maker_events[i as int],
{
    &store.maker_events[i]
}

/// How many coin rows the store holds.
pub fn coin_count(store: &Storage) -> (n: usize)
    ensures
        n == store@.coins.len(),
{
    store.coins.len()
}

/// How many market registration rows the store holds.
pub fn market_count(store: &Storage) -> (n: usize)
    ensures
        n == store@.markets.len(),
{
    store.markets.len()
}

} // verus!
