//! What holds of every sale, whatever is asked of it and in whatever order.

use vstd::prelude::*;
use crate::error::ContributorError;
use crate::ledger::{
    buyer_index, claim_outcome, contributed, lemma_books_hold, lemma_buyer_index_unique,
    lemma_claim_keeps_books, lemma_contribution_keeps_books, owned_at, Contribution, Event,
    LedgerView,
};
use crate::model::{
    accepts_at, allocation, asset_index, caps, closing_outcome, contribution_outcome,
    lemma_allocation_fits, lemma_token_value_monotone, max_supply, settlement_outcome,
    token_value, AssetTerms, BuyerView, SaleStatus, SaleView, SettlementView,
};

verus! {

/// The books stay in balance under contributions: however many are
/// offered, by whom and in what order, accepted or rejected, the buyers
/// together have then contributed of each accepted asset exactly the
/// sale's total of it.
pub proof fn lemma_contributions_balance(ledger: LedgerView, offers: Seq<Contribution>)
    requires
        ledger.wf(),
        forall|k: int| 0 <= k < offers.len() ==> (#[trigger] offers[k]).owner.len() == 32,
    ensures
        ledger.offered_all(offers).wf(),
        forall|a: int|
            0 <= a < ledger.offered_all(offers).sale.assets.len() ==> contributed(
                ledger.offered_all(offers).buyers,
                a,
            ) == #[trigger] ledger.offered_all(offers).sale.totals[a],
    decreases offers.len(),
{
    if offers.len() > 0 {
        let earlier = offers.drop_last();
        let offer = offers.last();
        lemma_contributions_balance(ledger, earlier);
        let books = ledger.offered_all(earlier);
        match contribution_outcome(books.sale, offer.asset, offer.amount) {
            Ok(i) => {
                assert(accepts_at(books.sale.assets, offer.asset, i));
                lemma_contribution_keeps_books(books, offer.owner, i, offer.amount);
            },
            Err(_) => {},
        }
    }
    let after = ledger.offered_all(offers);
    assert(after.balanced());
}

/// The books stay in balance through the whole life of a sale: whatever
/// is asked of them, and in whatever order (contributions, messages that
/// seal or abort, claims, each accepted or rejected), they stay
/// well-formed, and the buyers together have contributed of each accepted
/// asset exactly the sale's total of it. A settlement moves nothing.
pub proof fn lemma_books_stay_balanced(ledger: LedgerView, history: Seq<Event>)
    requires
        ledger.wf(),
        forall|k: int|
            0 <= k < history.len() ==> (#[trigger] history[k] matches Event::Offer(c)
                ==> c.owner.len() == 32),
    ensures
        ledger.after_all(history).wf(),
        forall|a: int|
            0 <= a < ledger.after_all(history).sale.assets.len() ==> contributed(
                ledger.after_all(history).buyers,
                a,
            ) == #[trigger] ledger.after_all(history).sale.totals[a],
    decreases history.len(),
{
    if history.len() > 0 {
        let earlier = history.drop_last();
        lemma_books_stay_balanced(ledger, earlier);
        let books = ledger.after_all(earlier);
        match history.last() {
            Event::Offer(c) => {
                match contribution_outcome(books.sale, c.asset, c.amount) {
                    Ok(i) => {
                        assert(accepts_at(books.sale.assets, c.asset, i));
                        lemma_contribution_keeps_books(books, c.owner, i, c.amount);
                    },
                    Err(_) => {},
                }
            },
            Event::Seal(sequence) => {
                lemma_closing_keeps_books(books, books.seal_offered(sequence));
            },
            Event::Abort(sequence) => {
                lemma_closing_keeps_books(books, books.abort_offered(sequence));
            },
            Event::Claim(owner) => {
                match claim_outcome(books, owner) {
                    Ok(_) => {
                        let j = buyer_index(books.buyers, owner)->0;
                        assert(owned_at(books.buyers, owner, j));
                        lemma_claim_keeps_books(books, j);
                    },
                    Err(_) => {},
                }
            },
        }
    }
    let after = ledger.after_all(history);
    assert(after.balanced());
}

/// Books whose sale changes nothing but where it stands stay well-formed.
proof fn lemma_closing_keeps_books(ledger: LedgerView, next: LedgerView)
    requires
        ledger.wf(),
        next.sale.wf(),
        next.buyers == ledger.buyers,
        next.sale.id == ledger.sale.id,
        next.sale.assets == ledger.sale.assets,
        next.sale.totals == ledger.sale.totals,
    ensures
        next.wf(),
{
    assert forall|j: int| 0 <= j < next.buyers.len() implies #[trigger] next.records(j) by {
        assert(ledger.records(j));
    }
    assert forall|a: int| 0 <= a < next.sale.assets.len() implies
        contributed(next.buyers, a) == #[trigger] next.sale.totals[a]
    by {
        assert(contributed(ledger.buyers, a) == ledger.sale.totals[a]);
    }
}

/// Contributions only add: whatever is offered, the sale keeps its id, its
/// terms and its status, no total and no recorded contribution shrinks,
/// and no record is lost or changes its owner.
pub proof fn lemma_contributions_only_add(ledger: LedgerView, offer: Contribution)
    requires
        ledger.wf(),
        offer.owner.len() == 32,
    ensures
        ledger.offered(offer).sale.id == ledger.sale.id,
        ledger.offered(offer).sale.assets == ledger.sale.assets,
        ledger.offered(offer).sale.status == ledger.sale.status,
        ledger.offered(offer).buyers.len() >= ledger.buyers.len(),
        forall|a: int|
            0 <= a < ledger.sale.assets.len() ==> ledger.offered(offer).sale.totals[a]
                >= #[trigger] ledger.sale.totals[a],
        forall|j: int, a: int|
            0 <= j < ledger.buyers.len() && 0 <= a < ledger.sale.assets.len() ==> ledger.offered(
                offer,
            ).buyers[j].owner == ledger.buyers[j].owner && ledger.offered(
                offer,
            ).buyers[j].contributions[a] >= #[trigger] ledger.buyers[j].contributions[a],
{
    match contribution_outcome(ledger.sale, offer.asset, offer.amount) {
        Ok(i) => {
            assert(accepts_at(ledger.sale.assets, offer.asset, i));
            lemma_contribution_keeps_books(ledger, offer.owner, i, offer.amount);
            let next = ledger.offered(offer);
            match buyer_index(ledger.buyers, offer.owner) {
                Some(k) => {
                    assert(owned_at(ledger.buyers, offer.owner, k));
                    assert(ledger.records(k));
                    lemma_books_hold(ledger, k);
                },
                None => {},
            }
            assert forall|j: int, a: int|
                0 <= j < ledger.buyers.len() && 0 <= a < ledger.sale.assets.len() implies
                next.buyers[j].owner == ledger.buyers[j].owner
                    && next.buyers[j].contributions[a]
                    >= #[trigger] ledger.buyers[j].contributions[a]
            by {
                assert(ledger.records(j));
            }
        },
        Err(_) => {},
    }
}

/// A contribution that would push an asset's total above its cap is
/// rejected as `ContributionCapExceeded`, whole, and leaves the sale's
/// totals and every record as they were.
pub proof fn lemma_over_cap_is_rejected(ledger: LedgerView, offer: Contribution, i: int)
    requires
        ledger.sale.status == SaleStatus::Open,
        asset_index(ledger.sale.assets, offer.asset) == Some(i),
        ledger.sale.totals[i] + offer.amount > ledger.sale.assets[i].cap,
    ensures
        contribution_outcome(ledger.sale, offer.asset, offer.amount) == Err::<
            int,
            ContributorError,
        >(ContributorError::ContributionCapExceeded),
        ledger.offered(offer) == ledger,
{
}

/// A sale is sealed or aborted at most once, and never both: once a
/// message has sealed or aborted it, every further message to seal or to
/// abort it fails with `DuplicateSealMessage` and leaves it as it is.
pub proof fn lemma_closed_once(sale: SaleView, first: u64, second: u64)
    requires
        closing_outcome(sale, first) is Ok,
    ensures
        sale.seal_offered(first).status == SaleStatus::Sealed,
        sale.abort_offered(first).status == SaleStatus::Aborted,
        closing_outcome(sale.seal_offered(first), second) == Err::<(), ContributorError>(
            ContributorError::DuplicateSealMessage,
        ),
        closing_outcome(sale.abort_offered(first), second) == Err::<(), ContributorError>(
            ContributorError::DuplicateSealMessage,
        ),
        sale.seal_offered(first).seal_offered(second) == sale.seal_offered(first),
        sale.seal_offered(first).abort_offered(second) == sale.seal_offered(first),
        sale.abort_offered(first).seal_offered(second) == sale.abort_offered(first),
        sale.abort_offered(first).abort_offered(second) == sale.abort_offered(first),
{
}

/// A sale that is sealed or aborted stays so: it takes no message to seal
/// or abort it and no contribution.
pub proof fn lemma_closed_is_final(sale: SaleView, sequence: u64, asset: Seq<u8>, amount: u64)
    requires
        sale.status != SaleStatus::Open,
    ensures
        sale.seal_offered(sequence) == sale,
        sale.abort_offered(sequence) == sale,
        contribution_outcome(sale, asset, amount) == Err::<int, ContributorError>(
            ContributorError::SaleNotOpen,
        ),
{
}

/// A buyer settles at most once: after a settlement, a second one for
/// the same record fails with `AlreadyClaimed` and so yields no further
/// instruction, whether the sale was sealed or aborted.
pub proof fn lemma_settled_once(sale: SaleView, buyer: BuyerView)
    requires
        settlement_outcome(sale, buyer) is Ok,
    ensures
        settlement_outcome(sale, buyer.settled()) == Err::<SettlementView, ContributorError>(
            ContributorError::AlreadyClaimed,
        ),
{
}

/// A buyer claims at most once from the books of a sale: after a claim
/// that was settled, a second claim of the same buyer fails with
/// `AlreadyClaimed`.
pub proof fn lemma_claimed_once(ledger: LedgerView, owner: Seq<u8>)
    requires
        ledger.wf(),
        claim_outcome(ledger, owner) is Ok,
    ensures
        claim_outcome(ledger.claimed_by(buyer_index(ledger.buyers, owner)->0), owner) == Err::<
            SettlementView,
            ContributorError,
        >(ContributorError::AlreadyClaimed),
{
    let j = buyer_index(ledger.buyers, owner)->0;
    assert(owned_at(ledger.buyers, owner, j));
    let after = ledger.claimed_by(j);
    assert(owned_at(after.buyers, owner, j));
    assert forall|a: int, b: int| 0 <= a < b < after.buyers.len() implies
        (#[trigger] after.buyers[a]).owner != (#[trigger] after.buyers[b]).owner
    by {
        assert(ledger.buyers[a].owner != ledger.buyers[b].owner);
    }
    lemma_buyer_index_unique(after.buyers, owner, j);
}

/// The refund of an aborted sale is exact: one transfer for each accepted
/// asset, in the sale's order, of the amount that the buyer's record
/// holds of that asset, with no conversion.
pub proof fn lemma_refund_is_exact(sale: SaleView, buyer: BuyerView)
    requires
        sale.status == SaleStatus::Aborted,
        !buyer.claimed,
    ensures
        settlement_outcome(sale, buyer) matches Ok(SettlementView::Refund { recipient, transfers })
            && recipient == buyer.owner && transfers.len() == sale.assets.len() && forall|
            i: int,
        |
            0 <= i < sale.assets.len() ==> (#[trigger] transfers[i]).asset == sale.assets[i].asset
                && transfers[i].amount == buyer.contributions[i],
{
}

/// The sale tokens that the buyers with the records `buyers` are
/// allocated together.
pub open spec fn allocated(buyers: Seq<BuyerView>, assets: Seq<AssetTerms>) -> int
    decreases buyers.len(),
{
    if buyers.len() == 0 {
        0
    } else {
        allocated(buyers.drop_last(), assets) + allocation(assets, buyers.last().contributions)
    }
}

/// The sale tokens that what all buyers together have contributed of the
/// first `n` assets buys.
pub open spec fn pooled_value(buyers: Seq<BuyerView>, assets: Seq<AssetTerms>, n: int) -> int
    decreases n,
{
    if n <= 0 {
        0
    } else {
        pooled_value(buyers, assets, n - 1) + contributed(buyers, n - 1) * assets[n
            - 1].conversion_rate
    }
}

/// One more record adds to the pooled value what its contributions buy.
proof fn lemma_pooled_value_push(
    buyers: Seq<BuyerView>,
    record: BuyerView,
    assets: Seq<AssetTerms>,
    n: int,
)
    ensures
        pooled_value(buyers.push(record), assets, n) == pooled_value(buyers, assets, n)
            + token_value(record.contributions, assets, n),
    decreases n,
{
    if n > 0 {
        lemma_pooled_value_push(buyers, record, assets, n - 1);
        let rate = assets[n - 1].conversion_rate as int;
        let pool = contributed(buyers, n - 1);
        let own = record.contributions[n - 1] as int;
        assert(buyers.push(record).drop_last() =~= buyers);
        assert(contributed(buyers.push(record), n - 1) == pool + own);
        assert((pool + own) * rate == pool * rate + own * rate) by (nonlinear_arith);
    }
}

/// What the buyers are allocated together is what their pooled
/// contributions buy.
proof fn lemma_allocated_is_pooled(buyers: Seq<BuyerView>, assets: Seq<AssetTerms>)
    ensures
        allocated(buyers, assets) == pooled_value(buyers, assets, assets.len() as int),
    decreases buyers.len(),
{
    let n = assets.len() as int;
    if buyers.len() == 0 {
        lemma_nothing_pooled(buyers, assets, n);
    } else {
        lemma_allocated_is_pooled(buyers.drop_last(), assets);
        lemma_pooled_value_push(buyers.drop_last(), buyers.last(), assets, n);
        assert(buyers.drop_last().push(buyers.last()) =~= buyers);
    }
}

/// Without buyers nothing is pooled.
proof fn lemma_nothing_pooled(buyers: Seq<BuyerView>, assets: Seq<AssetTerms>, n: int)
    requires
        buyers.len() == 0,
    ensures
        pooled_value(buyers, assets, n) == 0,
    decreases n,
{
    if n > 0 {
        lemma_nothing_pooled(buyers, assets, n - 1);
    }
}

/// In balanced books the pooled contributions buy what the totals buy.
proof fn lemma_pooled_is_total(ledger: LedgerView, n: int)
    requires
        ledger.balanced(),
        0 <= n <= ledger.sale.assets.len(),
    ensures
        pooled_value(ledger.buyers, ledger.sale.assets, n) == token_value(
            ledger.sale.totals,
            ledger.sale.assets,
            n,
        ),
    decreases n,
{
    if n > 0 {
        lemma_pooled_is_total(ledger, n - 1);
        assert(contributed(ledger.buyers, n - 1) == ledger.sale.totals[n - 1]);
    }
}

/// Allocations never exceed the supply: summed over all buyers of a
/// sale, they are exactly the sale tokens that the sale's totals buy at
/// the conversion rates, which is at most what the caps buy and fits 64
/// bits. Every term is a product of integers, so that nothing is rounded.
pub proof fn lemma_allocations_within_supply(ledger: LedgerView)
    requires
        ledger.wf(),
    ensures
        allocated(ledger.buyers, ledger.sale.assets) == token_value(
            ledger.sale.totals,
            ledger.sale.assets,
            ledger.sale.assets.len() as int,
        ),
        allocated(ledger.buyers, ledger.sale.assets) <= max_supply(ledger.sale.assets) <= u64::MAX,
        forall|j: int|
            0 <= j < ledger.buyers.len() ==> 0 <= #[trigger] allocation(
                ledger.sale.assets,
                ledger.buyers[j].contributions,
            ) <= u64::MAX,
{
    let assets = ledger.sale.assets;
    let n = assets.len() as int;
    lemma_allocated_is_pooled(ledger.buyers, assets);
    lemma_pooled_is_total(ledger, n);
    lemma_token_value_monotone(ledger.sale.totals, caps(assets), assets, n, n);
    assert forall|j: int| 0 <= j < ledger.buyers.len() implies
        0 <= #[trigger] allocation(assets, ledger.buyers[j].contributions) <= u64::MAX
    by {
        lemma_books_hold(ledger, j);
        lemma_allocation_fits(ledger.sale, ledger.buyers[j], n);
    }
}

} // verus!
