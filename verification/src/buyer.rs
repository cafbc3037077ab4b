//! The record of what one buyer has put into one sale.

use vstd::prelude::*;
use crate::error::ContributorError;
use crate::model::{addition_outcome, BuyerView};

verus! {

/// One buyer's contributions to one sale, asset by asset in the order of
/// the sale's accepted assets, and whether the buyer has settled.
#[derive(Clone, Debug, PartialEq, Eq)]
pub struct Buyer {
    pub(crate) sale_id: [u8; 32],
    pub(crate) owner: [u8; 32],
    pub(crate) contributions: Vec<u64>,
    pub(crate) claimed: bool,
}

impl View for Buyer {
    type V = BuyerView;

    open(crate) spec fn view(&self) -> BuyerView {
        BuyerView {
            sale_id: self.sale_id@,
            owner: self.owner@,
            contributions: self.contributions@,
            claimed: self.claimed,
        }
    }
}

impl Buyer {
    /// The record of `owner` in the sale `sale_id`, which accepts `assets`
    /// assets: nothing contributed, nothing claimed.
    pub fn new(sale_id: [u8; 32], owner: [u8; 32], assets: usize) -> (buyer: Buyer)
        ensures
            buyer@ == BuyerView::fresh(sale_id@, owner@, assets as nat),
    {
        let mut contributions: Vec<u64> = Vec::new();
        let mut i: usize = 0;
        while i < assets
            invariant
                i <= assets,
                contributions@ == Seq::new(i as nat, |k: int| 0u64),
            decreases assets - i,
        {
            contributions.push(0);
            i += 1;
            assert(contributions@ =~= Seq::new(i as nat, |k: int| 0u64));
        }
        Buyer { sale_id, owner, contributions, claimed: false }
    }

    /// Puts a record together from what was stored of it.
    pub fn restore(
        sale_id: [u8; 32],
        owner: [u8; 32],
        contributions: Vec<u64>,
        claimed: bool,
    ) -> (buyer: Buyer)
        ensures
            buyer@ == (BuyerView {
                sale_id: sale_id@,
                owner: owner@,
                contributions: contributions@,
                claimed,
            }),
    {
        Buyer { sale_id, owner, contributions, claimed }
    }

    /// Adds `amount` to what the buyer has contributed of asset number
    /// `asset`. A rejected addition leaves the record as it was.
    pub fn add(&mut self, asset: usize, amount: u64) -> (done: Result<(), ContributorError>)
        ensures
            done == addition_outcome(old(self)@, asset as int, amount),
            done is Ok ==> final(self)@ == old(self)@.credited(asset as int, amount),
            done is Err ==> *final(self) == *old(self),
    {
        if amount == 0 {
            return Err(ContributorError::ZeroContribution);
        }
        if asset >= self.contributions.len() {
            return Err(ContributorError::UnsupportedAsset);
        }
        match self.contributions[asset].checked_add(amount) {
            Some(sum) => {
                self.contributions[asset] = sum;
                Ok(())
            },
            None => Err(ContributorError::ContributionCapExceeded),
        }
    }

    /// The sale that the record belongs to.
    pub fn sale_id(&self) -> (sale_id: &[u8; 32])
        ensures
            sale_id@ == self@.sale_id,
    {
        &self.sale_id
    }

    /// The buyer.
    pub fn owner(&self) -> (owner: &[u8; 32])
        ensures
            owner@ == self@.owner,
    {
        &self.owner
    }

    /// What the buyer has contributed, asset by asset.
    pub fn contributions(&self) -> (contributions: &Vec<u64>)
        ensures
            contributions@ == self@.contributions,
    {
        &self.contributions
    }

    /// Whether the buyer has settled.
    pub fn claimed(&self) -> (claimed: bool)
        ensures
            claimed == self@.claimed,
    {
        self.claimed
    }
}

} // verus!
