//! Settlement: what a buyer is owed once the sale is sealed or aborted.

use vstd::prelude::*;
use crate::buyer::Buyer;
use crate::error::ContributorError;
use crate::model::{
    lemma_allocation_fits, refunds, settlement_outcome, token_value, SaleStatus, SettlementView,
    TransferView,
};
use crate::sale::{terms_of, Sale};

verus! {

/// One movement of tokens that the vault is asked to make: `amount` of
/// `asset`, out of the escrow.
#[derive(Clone, Copy, Debug, PartialEq, Eq)]
pub struct Transfer {
    pub asset: [u8; 32],
    pub amount: u64,
}

impl View for Transfer {
    type V = TransferView;

    open spec fn view(&self) -> TransferView {
        TransferView { asset: self.asset@, amount: self.amount }
    }
}

/// What the vault is to hand a buyer at settlement.
#[derive(Clone, Debug, PartialEq, Eq)]
pub enum SettlementInstruction {
    /// The sale was sealed: `amount` of the sale token `asset`.
    Allocation { recipient: [u8; 32], asset: [u8; 32], amount: u64 },
    /// The sale was aborted: every contribution back, one transfer for
    /// each accepted asset in the sale's order.
    Refund { recipient: [u8; 32], transfers: Vec<Transfer> },
}

impl View for SettlementInstruction {
    type V = SettlementView;

    open spec fn view(&self) -> SettlementView {
        match *self {
            SettlementInstruction::Allocation { recipient, asset, amount } => {
                SettlementView::Allocation { recipient: recipient@, asset: asset@, amount }
            },
            SettlementInstruction::Refund { recipient, transfers } => SettlementView::Refund {
                recipient: recipient@,
                transfers: Seq::new(transfers@.len(), |i: int| transfers@[i]@),
            },
        }
    }
}

/// Settles `buyer` against `sale`, once and for all.
///
/// Fails with `SaleStillOpen` while the sale is open and with
/// `AlreadyClaimed` where the buyer has settled before; the record then
/// stays as it was. Else the record is marked as claimed before anything
/// is computed, and nothing else of it changes. For an aborted sale the
/// instruction returns every contribution as it was recorded, asset by
/// asset; for a sealed sale it allocates the sum, over the accepted
/// assets, of contribution times conversion rate, in the sale token.
pub fn settle(sale: &Sale, buyer: &mut Buyer) -> (settled: Result<
    SettlementInstruction,
    ContributorError,
>)
    requires
        sale.wf(),
        sale@.holds(old(buyer)@),
    ensures
        match settlement_outcome(sale@, old(buyer)@) {
            Ok(owed) => settled matches Ok(instruction) && instruction@ == owed && final(buyer)@
                == old(buyer)@.settled(),
            Err(e) => settled matches Err(err) && err == e && *final(buyer) == *old(buyer),
        },
        sale@.holds(final(buyer)@),
{
    let aborted = match sale.status {
        SaleStatus::Open => {
            return Err(ContributorError::SaleStillOpen);
        },
        SaleStatus::Sealed => false,
        SaleStatus::Aborted => true,
    };
    if buyer.claimed {
        return Err(ContributorError::AlreadyClaimed);
    }
    buyer.claimed = true;
    let n: usize = sale.accepted.len();
    let ghost terms = sale@.assets;
    let ghost contributions = buyer@.contributions;
    if aborted {
        let mut transfers: Vec<Transfer> = Vec::new();
        let mut i: usize = 0;
        while i < n
            invariant
                i <= n == sale.accepted@.len() == buyer.contributions@.len(),
                terms == terms_of(sale.accepted@),
                contributions == buyer.contributions@,
                transfers@.len() == i,
                forall|k: int| 0 <= k < i ==> (#[trigger] transfers@[k])@ == refunds(
                    terms,
                    contributions,
                )[k],
            decreases n - i,
        {
            transfers.push(Transfer { asset: sale.accepted[i].asset, amount: buyer.contributions[i] });
            i += 1;
        }
        let instruction = SettlementInstruction::Refund { recipient: buyer.owner, transfers };
        assert(instruction@->Refund_transfers =~= refunds(terms, contributions));
        Ok(instruction)
    } else {
        let mut amount: u64 = 0;
        let mut i: usize = 0;
        while i < n
            invariant
                i <= n == sale.accepted@.len() == buyer.contributions@.len(),
                sale.wf(),
                sale@.holds(buyer@),
                terms == sale@.assets,
                terms == terms_of(sale.accepted@),
                contributions == buyer@.contributions,
                contributions == buyer.contributions@,
                amount == token_value(contributions, terms, i as int),
            decreases n - i,
        {
            proof {
                lemma_allocation_fits(sale@, buyer@, i as int);
                lemma_allocation_fits(sale@, buyer@, i + 1);
                assert(terms[i as int].conversion_rate == sale.accepted@[i as int].conversion_rate);
            }
            amount = amount + buyer.contributions[i] * sale.accepted[i].conversion_rate;
            i += 1;
        }
        proof {
            lemma_allocation_fits(sale@, buyer@, n as int);
        }
        Ok(
            SettlementInstruction::Allocation {
                recipient: buyer.owner,
                asset: sale.sale_token,
                amount,
            },
        )
    }
}

} // verus!
