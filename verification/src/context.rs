//! Context shared across the evaluation of a Ledger.
use crate::account::{Account, AccountStore};
use crate::commodity::{CommodityStore, CommodityTag};
use vstd::prelude::*;

verus! {

/// Context object extensively used across Ledger file evaluation.
pub struct ReportContext {
    /// Registered accounts.
    pub accounts: AccountStore,
    /// Registered commodities.
    pub commodities: CommodityStore,
}

impl ReportContext {
    /// Creates an empty context.
    pub fn new() -> (r: Self)
        ensures
            r.accounts@.names.len() == 0,
            r.accounts@.aliases.len() == 0,
            r.commodities@.intern.names.len() == 0,
            r.commodities@.intern.aliases.len() == 0,
            r.commodities@.formatting.len() == 0,
    {
        ReportContext { accounts: AccountStore::new(), commodities: CommodityStore::new() }
    }

    /// Returns the account of `value`, or `None` if not registered.
    pub fn account(&self, value: &str) -> (r: Option<Account>)
        ensures
            r == match self.accounts@.resolve(value@) {
                Some(n) => Some(Account(n as usize)),
                None => None::<Account>,
            },
            r matches Some(a) ==> self.accounts@.resolve(value@) == Some(a.0 as nat),
    {
        self.accounts.resolve(value)
    }

    /// Returns the commodity of `value`, or `None` if not registered.
    pub fn commodity(&self, value: &str) -> (r: Option<CommodityTag>)
        ensures
            r == match self.commodities@.intern.resolve(value@) {
                Some(n) => Some(CommodityTag(n as usize)),
                None => None::<CommodityTag>,
            },
    {
        self.commodities.resolve(value)
    }

    /// Returns the [`CommodityStore`].
    pub fn commodity_store(&self) -> (r: &CommodityStore)
        ensures
            r == &self.commodities,
    {
        &self.commodities
    }

    /// The commodities, to change them.
    pub fn commodity_store_mut(&mut self) -> (r: &mut CommodityStore)
        ensures
            *r == old(self).commodities,
            final(self).commodities == *final(r),
            final(self).accounts == old(self).accounts,
    {
        &mut self.commodities
    }
}

} // verus!
