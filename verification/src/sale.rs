//! The sale: its terms, its running totals and its lifecycle.

use vstd::prelude::*;
use crate::buyer::Buyer;
use crate::bytes::same_bytes;
use crate::error::ContributorError;
use crate::message::SaleInit;
use crate::model::{
    accepts_at, asset_index, caps, closing_outcome, contribution_outcome, distinct_assets,
    lemma_asset_index_unique, lemma_token_value_monotone, terms_valid, token_value, AssetTerms,
    SaleStatus, SaleView,
};

verus! {

/// An asset that a sale accepts: how many sale tokens one unit of it buys,
/// and how much of it the sale takes in all.
#[derive(Clone, Copy, Debug, PartialEq, Eq)]
pub struct AcceptedAsset {
    pub asset: [u8; 32],
    pub conversion_rate: u64,
    pub cap: u64,
}

impl View for AcceptedAsset {
    type V = AssetTerms;

    open spec fn view(&self) -> AssetTerms {
        AssetTerms { asset: self.asset@, conversion_rate: self.conversion_rate, cap: self.cap }
    }
}

/// The terms that a list of accepted assets stands for.
pub open spec fn terms_of(assets: Seq<AcceptedAsset>) -> Seq<AssetTerms> {
    Seq::new(assets.len(), |i: int| assets[i]@)
}

/// Whether a sale can be opened on `assets`: at most 255 of them, none
/// listed twice, and a greatest supply that fits 64 bits.
pub fn terms_are_valid(assets: &Vec<AcceptedAsset>) -> (valid: bool)
    ensures
        valid == terms_valid(terms_of(assets@)),
{
    let ghost terms = terms_of(assets@);
    let n: usize = assets.len();
    if n > 255 {
        return false;
    }
    let mut j: usize = 0;
    while j < n
        invariant
            j <= n == assets@.len(),
            terms == terms_of(assets@),
            forall|a: int, b: int| 0 <= a < b < j ==> terms[a].asset != terms[b].asset,
        decreases n - j,
    {
        let mut i: usize = 0;
        while i < j
            invariant
                i <= j < n == assets@.len(),
                terms == terms_of(assets@),
                forall|a: int| 0 <= a < i ==> terms[a].asset != terms[j as int].asset,
            decreases j - i,
        {
            if same_bytes(&assets[i].asset, &assets[j].asset) {
                assert(terms[i as int].asset == terms[j as int].asset);
                return false;
            }
            i += 1;
        }
        j += 1;
    }
    assert(distinct_assets(terms));
    let mut supply: u64 = 0;
    let mut k: usize = 0;
    while k < n
        invariant
            k <= n == assets@.len(),
            terms == terms_of(assets@),
            supply == token_value(caps(terms), terms, k as int),
        decreases n - k,
    {
        let cap: u128 = assets[k].cap as u128;
        let rate: u128 = assets[k].conversion_rate as u128;
        assert(cap * rate <= 0xffff_ffff_ffff_ffff * 0xffff_ffff_ffff_ffff) by (nonlinear_arith)
            requires
                0 <= cap <= 0xffff_ffff_ffff_ffff,
                0 <= rate <= 0xffff_ffff_ffff_ffff,
        ;
        let sum: u128 = supply as u128 + cap * rate;
        assert(sum == token_value(caps(terms), terms, k + 1));
        if sum > u64::MAX as u128 {
            proof {
                lemma_token_value_monotone(caps(terms), caps(terms), terms, k + 1, n as int);
            }
            return false;
        }
        supply = sum as u64;
        k += 1;
    }
    true
}

/// One sale: the terms it was opened on, what has come in of each
/// accepted asset, and where it stands.
#[derive(Clone, Debug, PartialEq, Eq)]
pub struct Sale {
    pub(crate) id: [u8; 32],
    pub(crate) sale_token: [u8; 32],
    pub(crate) accepted: Vec<AcceptedAsset>,
    pub(crate) totals: Vec<u64>,
    pub(crate) status: SaleStatus,
    pub(crate) sealed_sequence: Option<u64>,
    pub(crate) aborted_sequence: Option<u64>,
}

impl View for Sale {
    type V = SaleView;

    open(crate) spec fn view(&self) -> SaleView {
        SaleView {
            id: self.id@,
            sale_token: self.sale_token@,
            assets: terms_of(self.accepted@),
            totals: self.totals@,
            status: self.status,
            sealed_sequence: self.sealed_sequence,
            aborted_sequence: self.aborted_sequence,
        }
    }
}

impl Sale {
    /// The invariant of a sale: see [`SaleView::wf`].
    pub open spec fn wf(&self) -> bool {
        self@.wf()
    }

    /// Opens the sale that `init` announces.
    ///
    /// Fails with `MalformedSaleTerms` exactly where the terms are not
    /// valid: more than 255 assets, an asset listed twice, or caps that
    /// could buy more sale tokens than 64 bits hold.
    pub fn initialize(init: SaleInit) -> (opened: Result<Sale, ContributorError>)
        ensures
            match opened {
                Ok(sale) => terms_valid(init@.assets) && sale@ == SaleView::opened(init@)
                    && sale.wf(),
                Err(e) => e == ContributorError::MalformedSaleTerms && !terms_valid(
                    init@.assets,
                ),
            },
    {
        if !terms_are_valid(&init.accepted) {
            return Err(ContributorError::MalformedSaleTerms);
        }
        let n: usize = init.accepted.len();
        let mut totals: Vec<u64> = Vec::new();
        let mut i: usize = 0;
        while i < n
            invariant
                i <= n,
                totals@ == Seq::new(i as nat, |k: int| 0u64),
            decreases n - i,
        {
            totals.push(0);
            i += 1;
            assert(totals@ =~= Seq::new(i as nat, |k: int| 0u64));
        }
        let sale = Sale {
            id: init.sale_id,
            sale_token: init.sale_token,
            accepted: init.accepted,
            totals,
            status: SaleStatus::Open,
            sealed_sequence: None,
            aborted_sequence: None,
        };
        assert(sale@.totals =~= SaleView::opened(init@).totals);
        Ok(sale)
    }

    /// Puts a sale together from what was stored of it.
    ///
    /// `None` exactly where the parts do not make a well-formed sale:
    /// terms that are not valid, totals that do not match the accepted
    /// assets or exceed a cap, or a status that the recorded sequence
    /// numbers contradict.
    pub fn restore(
        id: [u8; 32],
        sale_token: [u8; 32],
        accepted: Vec<AcceptedAsset>,
        totals: Vec<u64>,
        status: SaleStatus,
        sealed_sequence: Option<u64>,
        aborted_sequence: Option<u64>,
    ) -> (restored: Option<Sale>)
        ensures
            match restored {
                Some(sale) => sale.wf() && sale@ == (SaleView {
                    id: id@,
                    sale_token: sale_token@,
                    assets: terms_of(accepted@),
                    totals: totals@,
                    status,
                    sealed_sequence,
                    aborted_sequence,
                }),
                None => !(SaleView {
                    id: id@,
                    sale_token: sale_token@,
                    assets: terms_of(accepted@),
                    totals: totals@,
                    status,
                    sealed_sequence,
                    aborted_sequence,
                }).wf(),
            },
    {
        if !terms_are_valid(&accepted) {
            return None;
        }
        if totals.len() != accepted.len() {
            return None;
        }
        let mut i: usize = 0;
        while i < totals.len()
            invariant
                i <= totals@.len() == accepted@.len(),
                forall|k: int| 0 <= k < i ==> #[trigger] totals@[k] <= terms_of(accepted@)[k].cap,
            decreases totals@.len() - i,
        {
            if totals[i] > accepted[i].cap {
                assert(totals@[i as int] > terms_of(accepted@)[i as int].cap);
                return None;
            }
            i += 1;
        }
        let consistent = match status {
            SaleStatus::Open => sealed_sequence.is_none() && aborted_sequence.is_none(),
            SaleStatus::Sealed => sealed_sequence.is_some() && aborted_sequence.is_none(),
            SaleStatus::Aborted => sealed_sequence.is_none() && aborted_sequence.is_some(),
        };
        if !consistent {
            return None;
        }
        Some(Sale { id, sale_token, accepted, totals, status, sealed_sequence, aborted_sequence })
    }

    /// Whether `buyer` is a record of this sale that the sale's totals
    /// cover: of this sale's id, with one contribution for each accepted
    /// asset, none above the asset's total.
    pub fn covers(&self, buyer: &Buyer) -> (covered: bool)
        requires
            self.wf(),
        ensures
            covered == self@.holds(buyer@),
    {
        if !same_bytes(&buyer.sale_id, &self.id) {
            return false;
        }
        if buyer.contributions.len() != self.accepted.len() {
            return false;
        }
        let mut i: usize = 0;
        while i < self.accepted.len()
            invariant
                i <= self.accepted@.len() == self.totals@.len() == buyer.contributions@.len(),
                forall|k: int| 0 <= k < i ==> #[trigger] buyer.contributions@[k] <= self.totals@[k],
            decreases self.accepted@.len() - i,
        {
            if buyer.contributions[i] > self.totals[i] {
                assert(buyer@.contributions[i as int] > self@.totals[i as int]);
                return false;
            }
            i += 1;
        }
        true
    }

    /// The id of the sale.
    pub fn id(&self) -> (id: &[u8; 32])
        ensures
            id@ == self@.id,
    {
        &self.id
    }

    /// The asset that the sale distributes.
    pub fn sale_token(&self) -> (asset: &[u8; 32])
        ensures
            asset@ == self@.sale_token,
    {
        &self.sale_token
    }

    /// The accepted assets, in the order that the sale was opened with.
    pub fn accepted(&self) -> (accepted: &Vec<AcceptedAsset>)
        ensures
            terms_of(accepted@) == self@.assets,
    {
        &self.accepted
    }

    /// What has come in of each accepted asset, in their order.
    pub fn totals(&self) -> (totals: &Vec<u64>)
        ensures
            totals@ == self@.totals,
    {
        &self.totals
    }

    /// Where the sale stands.
    pub fn status(&self) -> (status: SaleStatus)
        ensures
            status == self@.status,
    {
        self.status
    }

    /// The number of the message that sealed the sale.
    pub fn sealed_sequence(&self) -> (sequence: Option<u64>)
        ensures
            sequence == self@.sealed_sequence,
    {
        self.sealed_sequence
    }

    /// The number of the message that aborted the sale.
    pub fn aborted_sequence(&self) -> (sequence: Option<u64>)
        ensures
            sequence == self@.aborted_sequence,
    {
        self.aborted_sequence
    }

    /// The place of `asset` among the accepted assets.
    pub fn asset_index(&self, asset: &[u8; 32]) -> (index: Option<usize>)
        requires
            self.wf(),
        ensures
            match index {
                Some(i) => asset_index(self@.assets, asset@) == Some(i as int),
                None => asset_index(self@.assets, asset@) is None,
            },
    {
        let ghost terms = self@.assets;
        let mut i: usize = 0;
        while i < self.accepted.len()
            invariant
                i <= self.accepted@.len(),
                terms == terms_of(self.accepted@),
                distinct_assets(terms),
                forall|k: int| 0 <= k < i ==> !accepts_at(terms, asset@, k),
            decreases self.accepted@.len() - i,
        {
            if same_bytes(&self.accepted[i].asset, asset) {
                proof {
                    assert(accepts_at(terms, asset@, i as int));
                    lemma_asset_index_unique(terms, asset@, i as int);
                }
                return Some(i);
            }
            i += 1;
        }
        None
    }

    /// Decides on a contribution of `amount` of `asset` without recording
    /// it: the place of the asset where the contribution is accepted.
    pub fn check_contribution(&self, asset: &[u8; 32], amount: u64) -> (decision: Result<
        usize,
        ContributorError,
    >)
        requires
            self.wf(),
        ensures
            match contribution_outcome(self@, asset@, amount) {
                Ok(i) => decision == Ok::<usize, ContributorError>(i as usize) && 0 <= i
                    < self@.assets.len(),
                Err(e) => decision == Err::<usize, ContributorError>(e),
            },
    {
        match self.status {
            SaleStatus::Open => {},
            _ => {
                return Err(ContributorError::SaleNotOpen);
            },
        }
        let i = match self.asset_index(asset) {
            Some(i) => i,
            None => {
                return Err(ContributorError::UnsupportedAsset);
            },
        };
        assert(self@.assets[i as int].cap == self.accepted@[i as int].cap);
        if amount > self.accepted[i].cap - self.totals[i] {
            return Err(ContributorError::ContributionCapExceeded);
        }
        if amount == 0 {
            return Err(ContributorError::ZeroContribution);
        }
        Ok(i)
    }

    /// Records a contribution of `amount` of `asset` by `buyer`.
    ///
    /// The sale must be open (`SaleNotOpen`), the asset accepted
    /// (`UnsupportedAsset`), the asset's total with this amount within its
    /// cap (`ContributionCapExceeded`: nothing of the amount is taken), and
    /// the amount more than zero (`ZeroContribution`). Then the asset's
    /// total and the buyer's contribution both grow by `amount`. A rejected
    /// contribution leaves the sale and the buyer's record as they were.
    pub fn record_contribution(&mut self, buyer: &mut Buyer, asset: &[u8; 32], amount: u64) -> (done:
        Result<(), ContributorError>)
        requires
            old(self).wf(),
            old(self)@.holds(old(buyer)@),
        ensures
            match contribution_outcome(old(self)@, asset@, amount) {
                Ok(i) => done is Ok && final(self)@ == old(self)@.credited(i, amount)
                    && final(buyer)@ == old(buyer)@.credited(i, amount),
                Err(e) => done == Err::<(), ContributorError>(e) && *final(self) == *old(self)
                    && *final(buyer) == *old(buyer),
            },
            final(self).wf(),
            final(self)@.holds(final(buyer)@),
    {
        let i = self.check_contribution(asset, amount)?;
        assert(buyer@.contributions[i as int] <= self@.totals[i as int]);
        buyer.add(i, amount)?;
        self.totals[i] = self.totals[i] + amount;
        proof {
            assert(final(self)@.totals =~= old(self)@.credited(i as int, amount).totals);
        }
        Ok(())
    }

    /// Seals the sale on the conductor's message numbered `sequence`.
    ///
    /// Fails with `DuplicateSealMessage` where the sale is no longer open
    /// or has seen the message; the sale then stays as it was.
    pub fn seal(&mut self, sequence: u64) -> (done: Result<(), ContributorError>)
        requires
            old(self).wf(),
        ensures
            done == closing_outcome(old(self)@, sequence),
            done is Ok ==> final(self)@ == old(self)@.sealed(sequence),
            done is Err ==> *final(self) == *old(self),
            final(self)@ == old(self)@.seal_offered(sequence),
            final(self).wf(),
    {
        self.check_closing(sequence)?;
        self.status = SaleStatus::Sealed;
        self.sealed_sequence = Some(sequence);
        Ok(())
    }

    /// Aborts the sale on the conductor's message numbered `sequence`.
    ///
    /// Fails with `DuplicateSealMessage` where the sale is no longer open
    /// or has seen the message; the sale then stays as it was.
    pub fn abort(&mut self, sequence: u64) -> (done: Result<(), ContributorError>)
        requires
            old(self).wf(),
        ensures
            done == closing_outcome(old(self)@, sequence),
            done is Ok ==> final(self)@ == old(self)@.aborted(sequence),
            done is Err ==> *final(self) == *old(self),
            final(self)@ == old(self)@.abort_offered(sequence),
            final(self).wf(),
    {
        self.check_closing(sequence)?;
        self.status = SaleStatus::Aborted;
        self.aborted_sequence = Some(sequence);
        Ok(())
    }

    /// Decides on a message numbered `sequence` that is to seal or abort the
    /// sale, without applying it: `DuplicateSealMessage` where the sale is
    /// no longer open or has seen the message.
    pub fn check_closing(&self, sequence: u64) -> (decision: Result<(), ContributorError>)
        ensures
            decision == closing_outcome(self@, sequence),
    {
        let is_open = match self.status {
            SaleStatus::Open => true,
            _ => false,
        };
        let sealed_by = match self.sealed_sequence {
            Some(seen) => seen == sequence,
            None => false,
        };
        let aborted_by = match self.aborted_sequence {
            Some(seen) => seen == sequence,
            None => false,
        };
        if is_open && !sealed_by && !aborted_by {
            Ok(())
        } else {
            Err(ContributorError::DuplicateSealMessage)
        }
    }
}

} // verus!
