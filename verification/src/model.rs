//! The sale as a mathematical state machine: the values that the entities
//! stand for, what each operation decides and the state that it leaves.
//!
//! The executable types of this crate are specified by these functions.

use vstd::prelude::*;
use crate::error::ContributorError;

verus! {

/// Where a sale stands. A sale starts open and is sealed or aborted once;
/// it never leaves either of the two.
#[derive(Clone, Copy, Debug, PartialEq, Eq, Structural)]
pub enum SaleStatus {
    Open,
    Sealed,
    Aborted,
}

/// An accepted asset: how many sale tokens one unit of it buys, and how
/// much of it the sale takes in all.
pub struct AssetTerms {
    pub asset: Seq<u8>,
    pub conversion_rate: u64,
    pub cap: u64,
}

/// What a sale holds.
pub struct SaleView {
    pub id: Seq<u8>,
    pub sale_token: Seq<u8>,
    pub assets: Seq<AssetTerms>,
    pub totals: Seq<u64>,
    pub status: SaleStatus,
    pub sealed_sequence: Option<u64>,
    pub aborted_sequence: Option<u64>,
}

/// What the message that announces a sale says of it.
pub struct SaleInitView {
    pub sale_id: Seq<u8>,
    pub sale_token: Seq<u8>,
    pub assets: Seq<AssetTerms>,
}

/// What the record of one buyer in one sale holds.
pub struct BuyerView {
    pub sale_id: Seq<u8>,
    pub owner: Seq<u8>,
    pub contributions: Seq<u64>,
    pub claimed: bool,
}

/// One movement of tokens that the vault is asked to make.
pub struct TransferView {
    pub asset: Seq<u8>,
    pub amount: u64,
}

/// What a buyer is owed at settlement.
pub enum SettlementView {
    /// The sale was sealed: `amount` of the sale token.
    Allocation { recipient: Seq<u8>, asset: Seq<u8>, amount: u64 },
    /// The sale was aborted: every contribution back, asset by asset.
    Refund { recipient: Seq<u8>, transfers: Seq<TransferView> },
}

/// Whether `assets[i]` is the asset `asset`.
pub open spec fn accepts_at(assets: Seq<AssetTerms>, asset: Seq<u8>, i: int) -> bool {
    0 <= i < assets.len() && assets[i].asset == asset
}

/// The place of `asset` among `assets`, if it is accepted.
pub open spec fn asset_index(assets: Seq<AssetTerms>, asset: Seq<u8>) -> Option<int> {
    if exists|i: int| accepts_at(assets, asset, i) {
        Some(choose|i: int| accepts_at(assets, asset, i))
    } else {
        None
    }
}

/// No asset is listed twice.
pub open spec fn distinct_assets(assets: Seq<AssetTerms>) -> bool {
    forall|i: int, j: int|
        0 <= i < j < assets.len() ==> (#[trigger] assets[i]).asset != (#[trigger] assets[j]).asset
}

/// The sale tokens that the first `n` of `amounts` buy at the rates of
/// `assets`: the sum of amount times conversion rate.
pub open spec fn token_value(amounts: Seq<u64>, assets: Seq<AssetTerms>, n: int) -> int
    decreases n,
{
    if n <= 0 {
        0
    } else {
        token_value(amounts, assets, n - 1) + amounts[n - 1] * assets[n - 1].conversion_rate
    }
}

/// The caps of `assets`, in their order.
pub open spec fn caps(assets: Seq<AssetTerms>) -> Seq<u64> {
    Seq::new(assets.len(), |i: int| assets[i].cap)
}

/// The most sale tokens that a sale on these terms can ever owe: what the
/// caps buy.
pub open spec fn max_supply(assets: Seq<AssetTerms>) -> int {
    token_value(caps(assets), assets, assets.len() as int)
}

/// Terms that a sale can be opened on: at most 255 assets, so that one
/// byte of a message can count them, with ids of 32 bytes, none listed
/// twice, and a greatest supply that fits 64 bits, so that every
/// allocation can be paid out exactly.
pub open spec fn terms_valid(assets: Seq<AssetTerms>) -> bool {
    &&& assets.len() <= 255
    &&& forall|i: int| 0 <= i < assets.len() ==> (#[trigger] assets[i]).asset.len() == 32
    &&& distinct_assets(assets)
    &&& max_supply(assets) <= u64::MAX
}

impl SaleView {
    /// The invariant of a sale.
    pub open spec fn wf(self) -> bool {
        &&& self.id.len() == 32
        &&& self.sale_token.len() == 32
        &&& terms_valid(self.assets)
        &&& self.totals.len() == self.assets.len()
        &&& forall|i: int|
            0 <= i < self.assets.len() ==> #[trigger] self.totals[i] <= self.assets[i].cap
        &&& match self.status {
            SaleStatus::Open => self.sealed_sequence is None && self.aborted_sequence is None,
            SaleStatus::Sealed => self.sealed_sequence is Some && self.aborted_sequence is None,
            SaleStatus::Aborted => self.sealed_sequence is None && self.aborted_sequence is Some,
        }
    }

    /// The sale that `init` announces, open and with nothing contributed.
    pub open spec fn opened(init: SaleInitView) -> SaleView {
        SaleView {
            id: init.sale_id,
            sale_token: init.sale_token,
            assets: init.assets,
            totals: Seq::new(init.assets.len(), |i: int| 0u64),
            status: SaleStatus::Open,
            sealed_sequence: None,
            aborted_sequence: None,
        }
    }

    /// Whether `buyer` is a record of this sale that its totals cover.
    pub open spec fn holds(self, buyer: BuyerView) -> bool {
        &&& buyer.sale_id == self.id
        &&& buyer.owner.len() == 32
        &&& buyer.contributions.len() == self.assets.len()
        &&& forall|i: int|
            0 <= i < self.assets.len() ==> #[trigger] buyer.contributions[i] <= self.totals[i]
    }

    /// The sale after `amount` more of its asset number `i` came in.
    pub open spec fn credited(self, i: int, amount: u64) -> SaleView {
        SaleView { totals: self.totals.update(i, (self.totals[i] + amount) as u64), ..self }
    }

    /// The sale after the message numbered `sequence` sealed it.
    pub open spec fn sealed(self, sequence: u64) -> SaleView {
        SaleView { status: SaleStatus::Sealed, sealed_sequence: Some(sequence), ..self }
    }

    /// The sale after the message numbered `sequence` aborted it.
    pub open spec fn aborted(self, sequence: u64) -> SaleView {
        SaleView { status: SaleStatus::Aborted, aborted_sequence: Some(sequence), ..self }
    }

    /// Whether a message numbered `sequence` has sealed or aborted this sale.
    pub open spec fn has_seen(self, sequence: u64) -> bool {
        self.sealed_sequence == Some(sequence) || self.aborted_sequence == Some(sequence)
    }
}

impl BuyerView {
    /// The record of a buyer who has not contributed yet.
    pub open spec fn fresh(sale_id: Seq<u8>, owner: Seq<u8>, assets: nat) -> BuyerView {
        BuyerView { sale_id, owner, contributions: Seq::new(assets, |i: int| 0u64), claimed: false }
    }

    /// The record after `amount` more of asset number `i` was contributed.
    pub open spec fn credited(self, i: int, amount: u64) -> BuyerView {
        BuyerView {
            contributions: self.contributions.update(i, (self.contributions[i] + amount) as u64),
            ..self
        }
    }

    /// The record after the buyer has settled.
    pub open spec fn settled(self) -> BuyerView {
        BuyerView { claimed: true, ..self }
    }
}

/// What becomes of adding `amount` of asset number `asset` to the record
/// `buyer`: the amount must be more than zero, the asset one of the
/// record's, and the sum must fit 64 bits; they are asked in this order.
pub open spec fn addition_outcome(buyer: BuyerView, asset: int, amount: u64) -> Result<
    (),
    ContributorError,
> {
    if amount == 0 {
        Err(ContributorError::ZeroContribution)
    } else if !(0 <= asset < buyer.contributions.len()) {
        Err(ContributorError::UnsupportedAsset)
    } else if buyer.contributions[asset] + amount > u64::MAX {
        Err(ContributorError::ContributionCapExceeded)
    } else {
        Ok(())
    }
}

/// What becomes of a contribution of `amount` of `asset` to `sale`: the
/// place of the asset where it is accepted, else the reason why not.
///
/// The sale must be open, the asset accepted, the cap kept, and the
/// amount more than zero, and they are asked in this order.
pub open spec fn contribution_outcome(sale: SaleView, asset: Seq<u8>, amount: u64) -> Result<
    int,
    ContributorError,
> {
    if sale.status != SaleStatus::Open {
        Err(ContributorError::SaleNotOpen)
    } else {
        match asset_index(sale.assets, asset) {
            None => Err(ContributorError::UnsupportedAsset),
            Some(i) => if sale.totals[i] + amount > sale.assets[i].cap {
                Err(ContributorError::ContributionCapExceeded)
            } else if amount == 0 {
                Err(ContributorError::ZeroContribution)
            } else {
                Ok(i)
            },
        }
    }
}

/// What becomes of a message numbered `sequence` that is to seal or abort
/// `sale`: it is taken only while the sale is open and has not seen it.
pub open spec fn closing_outcome(sale: SaleView, sequence: u64) -> Result<(), ContributorError> {
    if sale.status != SaleStatus::Open || sale.has_seen(sequence) {
        Err(ContributorError::DuplicateSealMessage)
    } else {
        Ok(())
    }
}

impl SaleView {
    /// The sale after a message numbered `sequence` was offered to seal
    /// it: as it was where the message is rejected.
    pub open spec fn seal_offered(self, sequence: u64) -> SaleView {
        if closing_outcome(self, sequence) is Ok {
            self.sealed(sequence)
        } else {
            self
        }
    }

    /// The sale after a message numbered `sequence` was offered to abort
    /// it: as it was where the message is rejected.
    pub open spec fn abort_offered(self, sequence: u64) -> SaleView {
        if closing_outcome(self, sequence) is Ok {
            self.aborted(sequence)
        } else {
            self
        }
    }
}

/// Every contribution of `buyer`, each as a transfer of its own asset.
pub open spec fn refunds(assets: Seq<AssetTerms>, contributions: Seq<u64>) -> Seq<TransferView> {
    Seq::new(
        assets.len(),
        |i: int| TransferView { asset: assets[i].asset, amount: contributions[i] },
    )
}

/// The sale tokens that `contributions` buy at the rates of `assets`.
pub open spec fn allocation(assets: Seq<AssetTerms>, contributions: Seq<u64>) -> int {
    token_value(contributions, assets, assets.len() as int)
}

/// What `buyer` is owed by `sale`, or the reason why nothing: the sale
/// must no longer be open and the buyer must not have settled before.
pub open spec fn settlement_outcome(sale: SaleView, buyer: BuyerView) -> Result<
    SettlementView,
    ContributorError,
> {
    if sale.status == SaleStatus::Open {
        Err(ContributorError::SaleStillOpen)
    } else if buyer.claimed {
        Err(ContributorError::AlreadyClaimed)
    } else if sale.status == SaleStatus::Aborted {
        Ok(
            SettlementView::Refund {
                recipient: buyer.owner,
                transfers: refunds(sale.assets, buyer.contributions),
            },
        )
    } else {
        Ok(
            SettlementView::Allocation {
                recipient: buyer.owner,
                asset: sale.sale_token,
                amount: allocation(sale.assets, buyer.contributions) as u64,
            },
        )
    }
}

/// In a list without repeats an asset has one place only, so that finding
/// it anywhere is finding its index.
pub proof fn lemma_asset_index_unique(assets: Seq<AssetTerms>, asset: Seq<u8>, i: int)
    requires
        distinct_assets(assets),
        accepts_at(assets, asset, i),
    ensures
        asset_index(assets, asset) == Some(i),
{
    let j = choose|j: int| accepts_at(assets, asset, j);
    if j < i {
        assert(assets[j].asset != assets[i].asset);
    } else if i < j {
        assert(assets[i].asset != assets[j].asset);
    }
}

/// Larger amounts buy at least as many tokens, and so do more of them.
pub proof fn lemma_token_value_monotone(
    low: Seq<u64>,
    high: Seq<u64>,
    assets: Seq<AssetTerms>,
    m: int,
    n: int,
)
    requires
        0 <= m <= n <= assets.len(),
        low.len() == assets.len(),
        high.len() == assets.len(),
        forall|i: int| 0 <= i < n ==> low[i] <= high[i],
    ensures
        0 <= token_value(low, assets, m) <= token_value(high, assets, n),
    decreases n,
{
    if n > 0 {
        let rate = assets[n - 1].conversion_rate;
        if m == n {
            lemma_token_value_monotone(low, high, assets, m - 1, n - 1);
            assert(low[n - 1] * rate <= high[n - 1] * rate) by (nonlinear_arith)
                requires
                    low[n - 1] <= high[n - 1],
                    0 <= rate,
            ;
        } else {
            lemma_token_value_monotone(low, high, assets, m, n - 1);
            assert(0 <= high[n - 1] * rate) by (nonlinear_arith)
                requires
                    0 <= high[n - 1],
                    0 <= rate,
            ;
        }
    }
}

/// Whatever a buyer of a well-formed sale is allocated fits 64 bits.
pub proof fn lemma_allocation_fits(sale: SaleView, buyer: BuyerView, n: int)
    requires
        sale.wf(),
        sale.holds(buyer),
        0 <= n <= sale.assets.len(),
    ensures
        0 <= token_value(buyer.contributions, sale.assets, n) <= allocation(
            sale.assets,
            buyer.contributions,
        ) <= max_supply(sale.assets) <= u64::MAX,
{
    let len = sale.assets.len() as int;
    lemma_token_value_monotone(buyer.contributions, buyer.contributions, sale.assets, n, len);
    lemma_token_value_monotone(buyer.contributions, caps(sale.assets), sale.assets, len, len);
}

} // verus!
