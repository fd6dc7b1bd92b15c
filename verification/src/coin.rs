//! Fungible-asset metadata records.
//!
//! A coin is identified by its fully-qualified on-chain type
//! `(account_address, module_name, struct_name)`; that identity is globally
//! unique and immutable once registered. Display attributes are optional.

use vstd::prelude::*;

verus! {

/// The view of an optional display string.
pub open spec fn opt_string_view(o: Option<String>) -> Option<Seq<char>> {
    match o {
        Some(s) => Some(s@),
        None => None,
    }
}

/// The view of an optional borrowed display string.
pub open spec fn opt_str_view(o: Option<&str>) -> Option<Seq<char>> {
    match o {
        Some(s) => Some(s@),
        None => None,
    }
}

/// The mathematical shape of a stored [`Coin`] row.
pub struct CoinView {
    pub id: i32,
    pub account_address: Seq<char>,
    pub module_name: Seq<char>,
    pub struct_name: Seq<char>,
    pub symbol: Option<Seq<char>>,
    pub name: Option<Seq<char>>,
    pub decimals: Option<i16>,
}

impl CoinView {
    /// The globally unique on-chain identity of the asset.
    pub open spec fn identity(self) -> (Seq<char>, Seq<char>, Seq<char>) {
        (self.account_address, self.module_name, self.struct_name)
    }

    /// The identity parts are non-empty and a declared precision exponent is
    /// non-negative.
    pub open spec fn wf(self) -> bool {
        &&& self.account_address.len() > 0
        &&& self.module_name.len() > 0
        &&& self.struct_name.len() > 0
        &&& match self.decimals {
            Some(d) => d >= 0,
            None => true,
        }
    }
}

/// A persisted coin record, including the backend-assigned surrogate id.
#[derive(Debug)]
pub struct Coin {
    pub id: i32,
    pub account_address: String,
    pub module_name: String,
    pub struct_name: String,
    pub symbol: Option<String>,
    pub name: Option<String>,
    pub decimals: Option<i16>,
}

impl View for Coin {
    type V = CoinView;

    open spec fn view(&self) -> CoinView {
        CoinView {
            id: self.id,
            account_address: self.account_address@,
            module_name: self.module_name@,
            struct_name: self.struct_name@,
            symbol: opt_string_view(self.symbol),
            name: opt_string_view(self.name),
            decimals: self.decimals,
        }
    }
}

/// Clones an optional display string, preserving absence exactly.
fn clone_opt_string(o: &Option<String>) -> (r: Option<String>)
    ensures
        opt_string_view(r) == opt_string_view(*o),
{
    match o {
        Some(s) => Some(s.clone()),
        None => None,
    }
}

impl Clone for Coin {
    /// A clone carries every field value of the row unchanged.
    fn clone(&self) -> (res: Self)
        ensures
            res@ == self@,
    {
        Coin {
            id: self.id,
            account_address: self.account_address.clone(),
            module_name: self.module_name.clone(),
            struct_name: self.struct_name.clone(),
            symbol: clone_opt_string(&self.symbol),
            name: clone_opt_string(&self.name),
            decimals: self.decimals,
        }
    }
}

/// The views of a sequence of stored coin rows.
pub open spec fn coin_views(s: Seq<Coin>) -> Seq<CoinView> {
    Seq::new(s.len(), |i: int| s[i]@)
}

/// The backend lookup on the unique coin identity: scans from the most
/// recently inserted row; with identities unique, at most one row matches.
pub open spec fn find_coin(
    coins: Seq<CoinView>,
    ident: (Seq<char>, Seq<char>, Seq<char>),
) -> Option<CoinView>
    decreases coins.len(),
{
    if coins.len() == 0 {
        None
    } else if coins.last().identity() == ident {
        Some(coins.last())
    } else {
        find_coin(coins.drop_last(), ident)
    }
}

/// When a lookup misses, no row at all carries the identity.
pub proof fn lemma_find_coin_none(coins: Seq<CoinView>, ident: (Seq<char>, Seq<char>, Seq<char>))
    requires
        find_coin(coins, ident) is None,
    ensures
        forall|i: int| 0 <= i < coins.len() ==> #[trigger] coins[i].identity() != ident,
    decreases coins.len(),
{
    if coins.len() > 0 {
        lemma_find_coin_none(coins.drop_last(), ident);
        assert forall|i: int| 0 <= i < coins.len() implies #[trigger] coins[i].identity()
            != ident by {
            if i < coins.len() - 1 {
                assert(coins.drop_last()[i] == coins[i]);
                assert(coins.drop_last()[i].identity() != ident);
            } else {
                assert(coins[i] == coins.last());
            }
        }
    }
}

} // verus!
