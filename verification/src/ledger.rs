//! The books of one sale: the sale together with the records of all its
//! buyers, kept so that the records always add up to the sale's totals.

use vstd::prelude::*;
use crate::attestation::{attestation_payload, build_attestation, OutboundMessage};
use crate::buyer::Buyer;
use crate::bytes::same_bytes;
use crate::error::ContributorError;
use crate::message::SaleInit;
use crate::model::{
    closing_outcome, contribution_outcome, settlement_outcome, terms_valid, BuyerView,
    SaleInitView, SaleStatus, SaleView, SettlementView,
};
use crate::sale::Sale;
use crate::settlement::{settle, SettlementInstruction};

verus! {

/// What the books of a sale hold: the sale and one record for each buyer
/// who has contributed, in the order of their first contributions.
pub struct LedgerView {
    pub sale: SaleView,
    pub buyers: Seq<BuyerView>,
}

/// A contribution that a buyer offers: `amount` of `asset`, by `owner`.
pub struct Contribution {
    pub owner: Seq<u8>,
    pub asset: Seq<u8>,
    pub amount: u64,
}

/// Something that is asked of the books of a sale.
pub enum Event {
    /// A buyer offers a contribution.
    Offer(Contribution),
    /// The conductor's message numbered so seals the sale.
    Seal(u64),
    /// The conductor's message numbered so aborts the sale.
    Abort(u64),
    /// The buyer of this id claims what the sale owes.
    Claim(Seq<u8>),
}

/// Whether `buyers[j]` is the record of `owner`.
pub open spec fn owned_at(buyers: Seq<BuyerView>, owner: Seq<u8>, j: int) -> bool {
    0 <= j < buyers.len() && buyers[j].owner == owner
}

/// The place of the record of `owner` among `buyers`, if there is one.
pub open spec fn buyer_index(buyers: Seq<BuyerView>, owner: Seq<u8>) -> Option<int> {
    if exists|j: int| owned_at(buyers, owner, j) {
        Some(choose|j: int| owned_at(buyers, owner, j))
    } else {
        None
    }
}

/// No buyer has two records.
pub open spec fn distinct_owners(buyers: Seq<BuyerView>) -> bool {
    forall|i: int, j: int|
        0 <= i < j < buyers.len() ==> (#[trigger] buyers[i]).owner != (#[trigger] buyers[j]).owner
}

/// What all of `buyers` together have contributed of asset number `asset`.
pub open spec fn contributed(buyers: Seq<BuyerView>, asset: int) -> int
    decreases buyers.len(),
{
    if buyers.len() == 0 {
        0
    } else {
        contributed(buyers.drop_last(), asset) + buyers.last().contributions[asset]
    }
}

impl LedgerView {
    /// The books of the sale that `init` announces: open, without buyers.
    pub open spec fn opened(init: SaleInitView) -> LedgerView {
        LedgerView { sale: SaleView::opened(init), buyers: Seq::empty() }
    }

    /// The records add up: of each accepted asset, the buyers together
    /// have contributed exactly the sale's total.
    pub open spec fn balanced(self) -> bool {
        forall|a: int|
            0 <= a < self.sale.assets.len() ==> contributed(self.buyers, a)
                == #[trigger] self.sale.totals[a]
    }

    /// Whether `buyers[j]` is laid out as a record of this sale.
    pub open spec fn records(self, j: int) -> bool {
        &&& self.buyers[j].sale_id == self.sale.id
        &&& self.buyers[j].owner.len() == 32
        &&& self.buyers[j].contributions.len() == self.sale.assets.len()
    }

    /// The invariant of the books: a well-formed sale, one record for each
    /// buyer, each laid out for this sale, and records that add up.
    pub open spec fn wf(self) -> bool {
        &&& self.sale.wf()
        &&& distinct_owners(self.buyers)
        &&& forall|j: int| 0 <= j < self.buyers.len() ==> #[trigger] self.records(j)
        &&& self.balanced()
    }

    /// The books after `owner` contributed `amount` of asset number `i`:
    /// the sale's total and the buyer's record grow by `amount`, and a
    /// buyer without a record gets one first.
    pub open spec fn contributed_by(self, owner: Seq<u8>, i: int, amount: u64) -> LedgerView {
        let sale = self.sale.credited(i, amount);
        match buyer_index(self.buyers, owner) {
            Some(j) => LedgerView {
                sale,
                buyers: self.buyers.update(j, self.buyers[j].credited(i, amount)),
            },
            None => LedgerView {
                sale,
                buyers: self.buyers.push(
                    BuyerView::fresh(self.sale.id, owner, self.sale.assets.len()).credited(
                        i,
                        amount,
                    ),
                ),
            },
        }
    }

    /// The books after the buyer with record number `j` has settled.
    pub open spec fn claimed_by(self, j: int) -> LedgerView {
        LedgerView { buyers: self.buyers.update(j, self.buyers[j].settled()), ..self }
    }

    /// The books after the contribution `c` was offered: as they were
    /// where it is rejected.
    pub open spec fn offered(self, c: Contribution) -> LedgerView {
        match contribution_outcome(self.sale, c.asset, c.amount) {
            Ok(i) => self.contributed_by(c.owner, i, c.amount),
            Err(_) => self,
        }
    }

    /// The books after a message numbered `sequence` was offered to seal
    /// the sale: no record changes.
    pub open spec fn seal_offered(self, sequence: u64) -> LedgerView {
        LedgerView { sale: self.sale.seal_offered(sequence), ..self }
    }

    /// The books after a message numbered `sequence` was offered to abort
    /// the sale: no record changes.
    pub open spec fn abort_offered(self, sequence: u64) -> LedgerView {
        LedgerView { sale: self.sale.abort_offered(sequence), ..self }
    }

    /// The books after `owner` claimed: the buyer's record is marked where
    /// the claim is settled, and nothing changes where it is rejected.
    pub open spec fn claim_offered(self, owner: Seq<u8>) -> LedgerView {
        match claim_outcome(self, owner) {
            Ok(_) => self.claimed_by(buyer_index(self.buyers, owner)->0),
            Err(_) => self,
        }
    }

    /// The books after `event`.
    pub open spec fn after(self, event: Event) -> LedgerView {
        match event {
            Event::Offer(c) => self.offered(c),
            Event::Seal(sequence) => self.seal_offered(sequence),
            Event::Abort(sequence) => self.abort_offered(sequence),
            Event::Claim(owner) => self.claim_offered(owner),
        }
    }

    /// The books after the events of `history`, one after the other.
    pub open spec fn after_all(self, history: Seq<Event>) -> LedgerView
        decreases history.len(),
    {
        if history.len() == 0 {
            self
        } else {
            self.after_all(history.drop_last()).after(history.last())
        }
    }

    /// The books after the contributions `cs` were offered one by one.
    pub open spec fn offered_all(self, cs: Seq<Contribution>) -> LedgerView
        decreases cs.len(),
    {
        if cs.len() == 0 {
            self
        } else {
            self.offered_all(cs.drop_last()).offered(cs.last())
        }
    }
}

/// What the buyer `owner` is owed by the books, or why nothing: a buyer
/// without a record is `UnknownBuyer`.
pub open spec fn claim_outcome(ledger: LedgerView, owner: Seq<u8>) -> Result<
    SettlementView,
    ContributorError,
> {
    match buyer_index(ledger.buyers, owner) {
        Some(j) => settlement_outcome(ledger.sale, ledger.buyers[j]),
        None => Err(ContributorError::UnknownBuyer),
    }
}

/// Where no buyer has two records, finding a buyer's record anywhere is
/// finding its index.
pub proof fn lemma_buyer_index_unique(buyers: Seq<BuyerView>, owner: Seq<u8>, j: int)
    requires
        distinct_owners(buyers),
        owned_at(buyers, owner, j),
    ensures
        buyer_index(buyers, owner) == Some(j),
{
    let k = choose|k: int| owned_at(buyers, owner, k);
    if k < j {
        assert(buyers[k].owner != buyers[j].owner);
    } else if j < k {
        assert(buyers[j].owner != buyers[k].owner);
    }
}

/// Replacing one record changes what the buyers have contributed by the
/// difference between the two records.
pub proof fn lemma_contributed_update(buyers: Seq<BuyerView>, j: int, record: BuyerView, asset: int)
    requires
        0 <= j < buyers.len(),
    ensures
        contributed(buyers.update(j, record), asset) == contributed(buyers, asset)
            - buyers[j].contributions[asset] + record.contributions[asset],
    decreases buyers.len(),
{
    let updated = buyers.update(j, record);
    if j == buyers.len() - 1 {
        assert(updated.drop_last() =~= buyers.drop_last());
    } else {
        assert(updated.drop_last() =~= buyers.drop_last().update(j, record));
        lemma_contributed_update(buyers.drop_last(), j, record, asset);
    }
}

/// A new record adds what it holds to what the buyers have contributed.
pub proof fn lemma_contributed_push(buyers: Seq<BuyerView>, record: BuyerView, asset: int)
    ensures
        contributed(buyers.push(record), asset) == contributed(buyers, asset)
            + record.contributions[asset],
{
    assert(buyers.push(record).drop_last() =~= buyers);
}

/// No buyer has contributed more of an asset than all buyers together.
pub proof fn lemma_contributed_covers(buyers: Seq<BuyerView>, j: int, asset: int)
    requires
        0 <= j < buyers.len(),
    ensures
        0 <= buyers[j].contributions[asset] <= contributed(buyers, asset),
    decreases buyers.len(),
{
    lemma_contributed_nonnegative(buyers.drop_last(), asset);
    if j < buyers.len() - 1 {
        lemma_contributed_covers(buyers.drop_last(), j, asset);
    }
}

/// What buyers have contributed is never negative.
pub proof fn lemma_contributed_nonnegative(buyers: Seq<BuyerView>, asset: int)
    ensures
        0 <= contributed(buyers, asset),
    decreases buyers.len(),
{
    if buyers.len() > 0 {
        lemma_contributed_nonnegative(buyers.drop_last(), asset);
    }
}

/// In books that are well-formed, the sale's totals cover every record.
pub proof fn lemma_books_hold(ledger: LedgerView, j: int)
    requires
        ledger.wf(),
        0 <= j < ledger.buyers.len(),
    ensures
        ledger.sale.holds(ledger.buyers[j]),
{
    assert(ledger.records(j));
    assert forall|a: int| 0 <= a < ledger.sale.assets.len() implies
        #[trigger] ledger.buyers[j].contributions[a] <= ledger.sale.totals[a]
    by {
        lemma_contributed_covers(ledger.buyers, j, a);
    }
}

/// An accepted contribution leaves the books well-formed.
pub proof fn lemma_contribution_keeps_books(ledger: LedgerView, owner: Seq<u8>, i: int, amount: u64)
    requires
        ledger.wf(),
        owner.len() == 32,
        0 <= i < ledger.sale.assets.len(),
        ledger.sale.status == SaleStatus::Open,
        ledger.sale.totals[i] + amount <= ledger.sale.assets[i].cap,
    ensures
        ledger.contributed_by(owner, i, amount).wf(),
{
    let next = ledger.contributed_by(owner, i, amount);
    let n = ledger.sale.assets.len();
    assert(next.sale.wf());
    match buyer_index(ledger.buyers, owner) {
        Some(j) => {
            assert(owned_at(ledger.buyers, owner, j));
            assert(ledger.records(j));
            lemma_books_hold(ledger, j);
            let record = ledger.buyers[j].credited(i, amount);
            assert forall|k: int| 0 <= k < next.buyers.len() implies
                #[trigger] next.records(k)
            by {
                assert(ledger.records(k));
            }
            assert forall|a: int| 0 <= a < n implies
                contributed(next.buyers, a) == #[trigger] next.sale.totals[a]
            by {
                lemma_contributed_update(ledger.buyers, j, record, a);
                assert(contributed(ledger.buyers, a) == ledger.sale.totals[a]);
            }
        },
        None => {
            let record = BuyerView::fresh(ledger.sale.id, owner, n).credited(i, amount);
            assert forall|k: int| 0 <= k < next.buyers.len() implies
                #[trigger] next.records(k)
            by {
                if k < ledger.buyers.len() {
                    assert(ledger.records(k));
                }
            }
            assert forall|a: int, b: int| 0 <= a < b < next.buyers.len() implies
                (#[trigger] next.buyers[a]).owner != (#[trigger] next.buyers[b]).owner
            by {
                if b == ledger.buyers.len() {
                    assert(!owned_at(ledger.buyers, owner, a));
                }
            }
            assert forall|a: int| 0 <= a < n implies
                contributed(next.buyers, a) == #[trigger] next.sale.totals[a]
            by {
                lemma_contributed_push(ledger.buyers, record, a);
                assert(contributed(ledger.buyers, a) == ledger.sale.totals[a]);
            }
        },
    }
}

/// A settlement leaves the books well-formed: it moves no contribution.
pub proof fn lemma_claim_keeps_books(ledger: LedgerView, j: int)
    requires
        ledger.wf(),
        0 <= j < ledger.buyers.len(),
    ensures
        ledger.claimed_by(j).wf(),
{
    let next = ledger.claimed_by(j);
    assert forall|k: int| 0 <= k < next.buyers.len() implies #[trigger] next.records(k) by {
        assert(ledger.records(k));
    }
    assert forall|a: int| 0 <= a < ledger.sale.assets.len() implies
        contributed(next.buyers, a) == #[trigger] next.sale.totals[a]
    by {
        lemma_contributed_update(ledger.buyers, j, ledger.buyers[j].settled(), a);
        assert(contributed(ledger.buyers, a) == ledger.sale.totals[a]);
    }
}

/// The books of one sale.
#[derive(Clone, Debug, PartialEq, Eq)]
pub struct SaleLedger {
    pub(crate) sale: Sale,
    pub(crate) buyers: Vec<Buyer>,
}

impl View for SaleLedger {
    type V = LedgerView;

    open(crate) spec fn view(&self) -> LedgerView {
        LedgerView {
            sale: self.sale@,
            buyers: Seq::new(self.buyers@.len(), |j: int| self.buyers@[j]@),
        }
    }
}

impl SaleLedger {
    /// The invariant of the books: see [`LedgerView::wf`].
    pub open spec fn wf(&self) -> bool {
        self@.wf()
    }

    /// Opens the books of the sale that `init` announces.
    ///
    /// Fails with `MalformedSaleTerms` exactly where the terms are not valid.
    pub fn initialize(init: SaleInit) -> (opened: Result<SaleLedger, ContributorError>)
        ensures
            match opened {
                Ok(ledger) => terms_valid(init@.assets) && ledger@ == LedgerView::opened(init@)
                    && ledger.wf(),
                Err(e) => e == ContributorError::MalformedSaleTerms && !terms_valid(
                    init@.assets,
                ),
            },
    {
        let sale = Sale::initialize(init)?;
        let ledger = SaleLedger { sale, buyers: Vec::new() };
        assert(ledger@.buyers =~= Seq::empty());
        Ok(ledger)
    }

    /// The sale.
    pub fn sale(&self) -> (sale: &Sale)
        ensures
            sale@ == self@.sale,
    {
        &self.sale
    }

    /// How many buyers have a record.
    pub fn buyer_count(&self) -> (count: usize)
        ensures
            count == self@.buyers.len(),
    {
        self.buyers.len()
    }

    /// The place of the record of `owner`.
    pub fn buyer_index(&self, owner: &[u8; 32]) -> (index: Option<usize>)
        requires
            self.wf(),
        ensures
            match index {
                Some(j) => buyer_index(self@.buyers, owner@) == Some(j as int) && j
                    < self@.buyers.len(),
                None => buyer_index(self@.buyers, owner@) is None,
            },
    {
        let mut j: usize = 0;
        while j < self.buyers.len()
            invariant
                j <= self.buyers@.len(),
                distinct_owners(self@.buyers),
                forall|k: int| 0 <= k < j ==> !owned_at(self@.buyers, owner@, k),
            decreases self.buyers@.len() - j,
        {
            if same_bytes(&self.buyers[j].owner, owner) {
                proof {
                    assert(owned_at(self@.buyers, owner@, j as int));
                    lemma_buyer_index_unique(self@.buyers, owner@, j as int);
                }
                return Some(j);
            }
            j += 1;
        }
        None
    }

    /// The record of `owner`, if the buyer has contributed.
    pub fn buyer(&self, owner: &[u8; 32]) -> (record: Option<&Buyer>)
        requires
            self.wf(),
        ensures
            match buyer_index(self@.buyers, owner@) {
                Some(j) => record matches Some(r) && r@ == self@.buyers[j],
                None => record is None,
            },
    {
        match self.buyer_index(owner) {
            Some(j) => Some(&self.buyers[j]),
            None => None,
        }
    }

    /// Records a contribution of `amount` of `asset` by `owner`.
    ///
    /// The contribution is decided as [`Sale::record_contribution`] says.
    /// Where it is accepted, the sale's total and the buyer's record grow
    /// by `amount`; a buyer who contributes for the first time gets a
    /// record. Where it is rejected the books stay as they were.
    pub fn contribute(&mut self, owner: &[u8; 32], asset: &[u8; 32], amount: u64) -> (done: Result<
        (),
        ContributorError,
    >)
        requires
            old(self).wf(),
        ensures
            match contribution_outcome(old(self)@.sale, asset@, amount) {
                Ok(i) => done is Ok && final(self)@ == old(self)@.contributed_by(
                    owner@,
                    i,
                    amount,
                ),
                Err(e) => done == Err::<(), ContributorError>(e) && *final(self) == *old(self),
            },
            final(self)@ == old(self)@.offered(
                Contribution { owner: owner@, asset: asset@, amount },
            ),
            final(self).wf(),
    {
        // Decided before anything is borrowed for writing: a rejected
        // contribution must not touch the books.
        let i = self.sale.check_contribution(asset, amount)?;
        let ghost before = self@;
        proof {
            lemma_contribution_keeps_books(before, owner@, i as int, amount);
        }
        match self.buyer_index(owner) {
            Some(j) => {
                proof {
                    lemma_books_hold(before, j as int);
                }
                self.sale.record_contribution(&mut self.buyers[j], asset, amount)?;
                assert(self@.buyers =~= before.contributed_by(owner@, i as int, amount).buyers);
            },
            None => {
                let mut record = Buyer::new(self.sale.id, *owner, self.sale.accepted.len());
                self.sale.record_contribution(&mut record, asset, amount)?;
                self.buyers.push(record);
                assert(self@.buyers =~= before.contributed_by(owner@, i as int, amount).buyers);
            },
        }
        Ok(())
    }

    /// Seals the sale on the conductor's message numbered `sequence`; see
    /// [`Sale::seal`]. No record changes.
    pub fn seal(&mut self, sequence: u64) -> (done: Result<(), ContributorError>)
        requires
            old(self).wf(),
        ensures
            done == closing_outcome(old(self)@.sale, sequence),
            done is Ok ==> final(self)@ == (LedgerView {
                sale: old(self)@.sale.sealed(sequence),
                ..old(self)@
            }),
            done is Err ==> *final(self) == *old(self),
            final(self)@ == old(self)@.seal_offered(sequence),
            final(self).wf(),
    {
        let done = self.sale.seal(sequence);
        proof {
            assert forall|j: int| 0 <= j < self@.buyers.len() implies
                #[trigger] self@.records(j)
            by {
                assert(old(self)@.records(j));
            }
        }
        done
    }

    /// Aborts the sale on the conductor's message numbered `sequence`; see
    /// [`Sale::abort`]. No record changes.
    pub fn abort(&mut self, sequence: u64) -> (done: Result<(), ContributorError>)
        requires
            old(self).wf(),
        ensures
            done == closing_outcome(old(self)@.sale, sequence),
            done is Ok ==> final(self)@ == (LedgerView {
                sale: old(self)@.sale.aborted(sequence),
                ..old(self)@
            }),
            done is Err ==> *final(self) == *old(self),
            final(self)@ == old(self)@.abort_offered(sequence),
            final(self).wf(),
    {
        let done = self.sale.abort(sequence);
        proof {
            assert forall|j: int| 0 <= j < self@.buyers.len() implies
                #[trigger] self@.records(j)
            by {
                assert(old(self)@.records(j));
            }
        }
        done
    }

    /// Decides on a claim of `owner` without settling it: the place of the
    /// buyer's record where the claim would be settled.
    pub fn check_claim(&self, owner: &[u8; 32]) -> (decision: Result<usize, ContributorError>)
        requires
            self.wf(),
        ensures
            match claim_outcome(self@, owner@) {
                Ok(_) => decision matches Ok(j) && buyer_index(self@.buyers, owner@) == Some(
                    j as int,
                ) && j < self@.buyers.len(),
                Err(e) => decision == Err::<usize, ContributorError>(e),
            },
    {
        let j = match self.buyer_index(owner) {
            Some(j) => j,
            None => {
                return Err(ContributorError::UnknownBuyer);
            },
        };
        match self.sale.status {
            SaleStatus::Open => {
                return Err(ContributorError::SaleStillOpen);
            },
            _ => {},
        }
        if self.buyers[j].claimed {
            return Err(ContributorError::AlreadyClaimed);
        }
        Ok(j)
    }

    /// Settles the buyer `owner`, once and for all.
    ///
    /// Fails with `UnknownBuyer` where the buyer has no record, and else as
    /// [`settle`] does; the books then stay as they were. A settlement
    /// marks the buyer's record as claimed and touches nothing else: no
    /// other record, no total.
    pub fn claim(&mut self, owner: &[u8; 32]) -> (settled: Result<
        SettlementInstruction,
        ContributorError,
    >)
        requires
            old(self).wf(),
        ensures
            match claim_outcome(old(self)@, owner@) {
                Ok(owed) => settled matches Ok(instruction) && instruction@ == owed
                    && final(self)@ == old(self)@.claimed_by(
                    buyer_index(old(self)@.buyers, owner@)->0,
                ),
                Err(e) => settled matches Err(err) && err == e && *final(self) == *old(self),
            },
            final(self)@ == old(self)@.claim_offered(owner@),
            final(self).wf(),
    {
        // Decided before the record is borrowed for writing: a rejected
        // claim must not touch the books.
        let j = self.check_claim(owner)?;
        let ghost before = self@;
        proof {
            lemma_books_hold(before, j as int);
            lemma_claim_keeps_books(before, j as int);
        }
        let settled = settle(&self.sale, &mut self.buyers[j]);
        assert(self@.buyers =~= before.claimed_by(j as int).buyers);
        settled
    }

    /// Attests what the sale has collected so far; see [`build_attestation`].
    pub fn attest(&self) -> (built: Result<OutboundMessage, ContributorError>)
        requires
            self.wf(),
        ensures
            match built {
                Ok(message) => self@.sale.status == SaleStatus::Open && message.payload@
                    == attestation_payload(self@.sale),
                Err(e) => e == ContributorError::SaleNotOpen && self@.sale.status
                    != SaleStatus::Open,
            },
    {
        build_attestation(&self.sale)
    }
}

} // verus!
