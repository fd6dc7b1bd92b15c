//! The append-only maker event log.
//!
//! A maker event records one thing that happened to a resting order on a
//! registered market: it entered the book, matched, was cancelled by its
//! owner, or was evicted. Events form an immutable history; rows are only
//! ever appended, never updated or removed.

use crate::numeric::{BigUint, Decimal, DecimalView, Timestamp, wf_digits};
use vstd::prelude::*;

verus! {

/// The side of the book a resting order sits on.
#[derive(Clone, Copy, PartialEq, Eq, Structural, Debug)]
pub enum Side {
    Buy,
    Sell,
}

/// What happened to the resting order: the closed, exhaustive classification
/// of maker-side events. Unknown values are rejected at the boundary rather
/// than defaulted.
#[derive(Clone, Copy, PartialEq, Eq, Structural, Debug)]
pub enum MakerEventType {
    /// The order entered the book.
    Place,
    /// The order matched, partially or fully.
    Fill,
    /// The owner removed the order.
    Cancel,
    /// The order was removed by an administrative or capacity rule.
    Evict,
}

/// The view of an optional arbitrary-precision id.
pub open spec fn opt_id_view(o: Option<BigUint>) -> Option<Seq<u8>> {
    match o {
        Some(u) => Some(u@),
        None => None,
    }
}

/// An optional id is either absent or well formed.
pub open spec fn opt_id_wf(o: Option<Seq<u8>>) -> bool {
    match o {
        Some(d) => wf_digits(d),
        None => true,
    }
}

/// The mathematical shape of a stored [`MakerEvent`] row.
pub struct MakerEventView {
    pub market_id: Seq<u8>,
    pub side: Side,
    pub market_order_id: Seq<u8>,
    pub user_address: Seq<char>,
    pub custodian_id: Option<Seq<u8>>,
    pub event_type: MakerEventType,
    pub size: DecimalView,
    pub price: DecimalView,
    pub time: Timestamp,
}

impl MakerEventView {
    /// Every numeric and timestamp field is well formed.
    pub open spec fn wf(self) -> bool {
        &&& wf_digits(self.market_id)
        &&& wf_digits(self.market_order_id)
        &&& opt_id_wf(self.custodian_id)
        &&& self.size.wf()
        &&& self.price.wf()
        &&& self.time.wf()
    }
}

/// A persisted maker event row. An absent `custodian_id` means the order's
/// assets are self-custodied.
#[derive(Debug)]
pub struct MakerEvent {
    pub market_id: BigUint,
    pub side: Side,
    pub market_order_id: BigUint,
    pub user_address: String,
    pub custodian_id: Option<BigUint>,
    pub event_type: MakerEventType,
    pub size: Decimal,
    pub price: Decimal,
    pub time: Timestamp,
}

impl View for MakerEvent {
    type V = MakerEventView;

    open spec fn view(&self) -> MakerEventView {
        MakerEventView {
            market_id: self.market_id@,
            side: self.side,
            market_order_id: self.market_order_id@,
            user_address: self.user_address@,
            custodian_id: opt_id_view(self.custodian_id),
            event_type: self.event_type,
            size: self.size@,
            price: self.price@,
            time: self.time,
        }
    }
}

/// Clones an optional id, preserving absence exactly.
fn clone_opt_id(o: &Option<BigUint>) -> (r: Option<BigUint>)
    ensures
        opt_id_view(r) == opt_id_view(*o),
{
    match o {
        Some(u) => Some(u.clone()),
        None => None,
    }
}

impl Clone for MakerEvent {
    /// A clone carries every field value of the row unchanged.
    fn clone(&self) -> (res: Self)
        ensures
            res@ == self@,
    {
        MakerEvent {
            market_id: self.market_id.clone(),
            side: self.side,
            market_order_id: self.market_order_id.clone(),
            user_address: self.user_address.clone(),
            custodian_id: clone_opt_id(&self.custodian_id),
            event_type: self.event_type,
            size: self.size.clone(),
            price: self.price.clone(),
            time: self.time,
        }
    }
}

/// The views of a sequence of stored maker event rows.
pub open spec fn maker_event_views(s: Seq<MakerEvent>) -> Seq<MakerEventView> {
    Seq::new(s.len(), |i: int| s[i]@)
}

} // verus!
