//! The registry: every sale that the contributor has opened, behind the
//! operations that it offers at its boundary.

use vstd::prelude::*;
use crate::attestation::{attestation_payload, OutboundMessage};
use crate::bytes::same_bytes;
use crate::custodian::{Custodian, CustodianView};
use crate::error::ContributorError;
use crate::ledger::{claim_outcome, buyer_index, LedgerView, SaleLedger};
use crate::message::{
    DecodedMessage, DecodedView, MessageData, MessageView, PAYLOAD_SALE_ABORTED,
    PAYLOAD_SALE_INIT, PAYLOAD_SALE_SEALED,
};
use crate::model::{
    closing_outcome, contribution_outcome, terms_valid, SaleStatus, SettlementView,
};
use crate::settlement::SettlementInstruction;

verus! {

/// What the registry holds: the custodian, and the books of each sale in
/// the order in which the sales were opened.
pub struct RegistryView {
    pub custodian: CustodianView,
    pub ledgers: Seq<LedgerView>,
}

/// Whether `ledgers[k]` holds the books of the sale `sale_id`.
pub open spec fn sale_at(ledgers: Seq<LedgerView>, sale_id: Seq<u8>, k: int) -> bool {
    0 <= k < ledgers.len() && ledgers[k].sale.id == sale_id
}

/// The place of the books of the sale `sale_id`, if it has been opened.
pub open spec fn ledger_index(ledgers: Seq<LedgerView>, sale_id: Seq<u8>) -> Option<int> {
    if exists|k: int| sale_at(ledgers, sale_id, k) {
        Some(choose|k: int| sale_at(ledgers, sale_id, k))
    } else {
        None
    }
}

/// No two sales share an id.
pub open spec fn distinct_sales(ledgers: Seq<LedgerView>) -> bool {
    forall|i: int, j: int|
        0 <= i < j < ledgers.len() ==> (#[trigger] ledgers[i]).sale.id
            != (#[trigger] ledgers[j]).sale.id
}

impl RegistryView {
    /// The invariant of the registry: well-formed books, one for each sale.
    pub open spec fn wf(self) -> bool {
        &&& distinct_sales(self.ledgers)
        &&& forall|k: int| 0 <= k < self.ledgers.len() ==> (#[trigger] self.ledgers[k]).wf()
    }

    /// The registry with `ledger` in place of its books number `k`.
    pub open spec fn with_ledger(self, k: int, ledger: LedgerView) -> RegistryView {
        RegistryView { ledgers: self.ledgers.update(k, ledger), ..self }
    }

    /// The books that `msg` opens in this registry: the message must
    /// verify as a sale init, no sale of that id may exist yet, and the
    /// terms must be valid, asked in this order.
    pub open spec fn opening(self, msg: MessageView) -> Result<LedgerView, ContributorError> {
        match self.custodian.verified(msg, PAYLOAD_SALE_INIT, None) {
            Ok(DecodedView::SaleInit(init)) => if ledger_index(self.ledgers, init.sale_id)
                is Some {
                Err(ContributorError::SaleAlreadyExists)
            } else if !terms_valid(init.assets) {
                Err(ContributorError::MalformedSaleTerms)
            } else {
                Ok(LedgerView::opened(init))
            },
            Ok(_) => Err(ContributorError::UnexpectedMessageType),
            Err(e) => Err(e),
        }
    }

    /// The place of the books that `msg` seals or aborts, by the kind
    /// `payload_type` of the two: the message must verify as one of that
    /// kind, its sale must have been opened, and the sale must still be
    /// open to it, asked in this order.
    pub open spec fn closing(self, msg: MessageView, payload_type: u8) -> Result<
        int,
        ContributorError,
    > {
        match self.custodian.verified(msg, payload_type, None) {
            Ok(DecodedView::SaleSealed { sale_id }) | Ok(DecodedView::SaleAborted { sale_id }) => {
                match ledger_index(self.ledgers, sale_id) {
                    Some(k) => match closing_outcome(self.ledgers[k].sale, msg.sequence) {
                        Ok(_) => Ok(k),
                        Err(e) => Err(e),
                    },
                    None => Err(ContributorError::UnknownSale),
                }
            },
            Ok(_) => Err(ContributorError::UnexpectedMessageType),
            Err(e) => Err(e),
        }
    }

    /// The place of the books and of the asset that a contribution of
    /// `amount` of `asset` to the sale `sale_id` goes to: the sale must
    /// have been opened, and must accept the contribution.
    pub open spec fn contributing(self, sale_id: Seq<u8>, asset: Seq<u8>, amount: u64) -> Result<
        (int, int),
        ContributorError,
    > {
        match ledger_index(self.ledgers, sale_id) {
            Some(k) => match contribution_outcome(self.ledgers[k].sale, asset, amount) {
                Ok(i) => Ok((k, i)),
                Err(e) => Err(e),
            },
            None => Err(ContributorError::UnknownSale),
        }
    }

    /// What `buyer` is owed by the sale `sale_id`, with the place of its
    /// books: the sale must have been opened, and its books must owe the
    /// buyer a settlement.
    pub open spec fn claiming(self, sale_id: Seq<u8>, buyer: Seq<u8>) -> Result<
        (int, SettlementView),
        ContributorError,
    > {
        match ledger_index(self.ledgers, sale_id) {
            Some(k) => match claim_outcome(self.ledgers[k], buyer) {
                Ok(owed) => Ok((k, owed)),
                Err(e) => Err(e),
            },
            None => Err(ContributorError::UnknownSale),
        }
    }
}

/// Where no two sales share an id, finding a sale's books anywhere is
/// finding their index.
pub proof fn lemma_ledger_index_unique(ledgers: Seq<LedgerView>, sale_id: Seq<u8>, k: int)
    requires
        distinct_sales(ledgers),
        sale_at(ledgers, sale_id, k),
    ensures
        ledger_index(ledgers, sale_id) == Some(k),
{
    let c = choose|c: int| sale_at(ledgers, sale_id, c);
    if c < k {
        assert(ledgers[c].sale.id != ledgers[k].sale.id);
    } else if k < c {
        assert(ledgers[k].sale.id != ledgers[c].sale.id);
    }
}

/// Books that change while their sale keeps its id leave the registry
/// well-formed.
pub proof fn lemma_ledger_change_keeps_registry(registry: RegistryView, k: int, ledger: LedgerView)
    requires
        registry.wf(),
        0 <= k < registry.ledgers.len(),
        ledger.wf(),
        ledger.sale.id == registry.ledgers[k].sale.id,
    ensures
        registry.with_ledger(k, ledger).wf(),
{
    let next = registry.with_ledger(k, ledger);
    assert forall|i: int, j: int| 0 <= i < j < next.ledgers.len() implies
        (#[trigger] next.ledgers[i]).sale.id != (#[trigger] next.ledgers[j]).sale.id
    by {
        assert(registry.ledgers[i].sale.id != registry.ledgers[j].sale.id);
    }
    assert forall|j: int| 0 <= j < next.ledgers.len() implies
        (#[trigger] next.ledgers[j]).wf()
    by {
        if j != k {
            assert(registry.ledgers[j].wf());
        }
    }
}

/// Every sale that the contributor has opened, with the custodian that
/// decides whose messages are believed.
#[derive(Clone, Debug, PartialEq, Eq)]
pub struct SaleRegistry {
    pub(crate) custodian: Custodian,
    pub(crate) ledgers: Vec<SaleLedger>,
}

impl View for SaleRegistry {
    type V = RegistryView;

    open(crate) spec fn view(&self) -> RegistryView {
        RegistryView {
            custodian: self.custodian@,
            ledgers: Seq::new(self.ledgers@.len(), |k: int| self.ledgers@[k]@),
        }
    }
}

impl SaleRegistry {
    /// The invariant of the registry: see [`RegistryView::wf`].
    pub open spec fn wf(&self) -> bool {
        self@.wf()
    }

    /// A registry without sales, which believes the conductor that
    /// `custodian` trusts.
    pub fn new(custodian: Custodian) -> (registry: SaleRegistry)
        ensures
            registry@ == (RegistryView { custodian: custodian@, ledgers: Seq::empty() }),
            registry.wf(),
    {
        let registry = SaleRegistry { custodian, ledgers: Vec::new() };
        assert(registry@.ledgers =~= Seq::empty());
        registry
    }

    /// The custodian.
    pub fn custodian(&self) -> (custodian: &Custodian)
        ensures
            custodian@ == self@.custodian,
    {
        &self.custodian
    }

    /// How many sales have been opened.
    pub fn sale_count(&self) -> (count: usize)
        ensures
            count == self@.ledgers.len(),
    {
        self.ledgers.len()
    }

    /// The place of the books of the sale `sale_id`.
    pub fn ledger_index(&self, sale_id: &[u8; 32]) -> (index: Option<usize>)
        requires
            self.wf(),
        ensures
            match index {
                Some(k) => ledger_index(self@.ledgers, sale_id@) == Some(k as int) && k
                    < self@.ledgers.len(),
                None => ledger_index(self@.ledgers, sale_id@) is None,
            },
    {
        let mut k: usize = 0;
        while k < self.ledgers.len()
            invariant
                k <= self.ledgers@.len(),
                distinct_sales(self@.ledgers),
                forall|c: int| 0 <= c < k ==> !sale_at(self@.ledgers, sale_id@, c),
            decreases self.ledgers@.len() - k,
        {
            if same_bytes(&self.ledgers[k].sale.id, sale_id) {
                proof {
                    assert(sale_at(self@.ledgers, sale_id@, k as int));
                    lemma_ledger_index_unique(self@.ledgers, sale_id@, k as int);
                }
                return Some(k);
            }
            k += 1;
        }
        None
    }

    /// The books of the sale `sale_id`, if it has been opened.
    pub fn ledger(&self, sale_id: &[u8; 32]) -> (books: Option<&SaleLedger>)
        requires
            self.wf(),
        ensures
            match ledger_index(self@.ledgers, sale_id@) {
                Some(k) => books matches Some(b) && b@ == self@.ledgers[k] && b.wf(),
                None => books is None,
            },
    {
        match self.ledger_index(sale_id) {
            Some(k) => Some(&self.ledgers[k]),
            None => None,
        }
    }

    /// Opens the sale that the conductor's message `msg` announces.
    ///
    /// Fails with `UntrustedOrigin` or `UnexpectedMessageType` where the
    /// message does not verify as a sale init, with `MalformedSaleTerms`
    /// where its length does not fit the assets that it counts or its
    /// terms are not valid, and with `SaleAlreadyExists` where a sale of
    /// its id has been opened before. The registry then stays as it was.
    pub fn initialize_sale(&mut self, msg: MessageData) -> (done: Result<(), ContributorError>)
        requires
            old(self).wf(),
        ensures
            match old(self)@.opening(msg@) {
                Ok(books) => done is Ok && final(self)@ == (RegistryView {
                    ledgers: old(self)@.ledgers.push(books),
                    ..old(self)@
                }),
                Err(e) => done == Err::<(), ContributorError>(e) && *final(self) == *old(self),
            },
            final(self).wf(),
    {
        let init = match self.custodian.verify(msg, PAYLOAD_SALE_INIT, None)? {
            DecodedMessage::SaleInit(init) => init,
            _ => {
                return Err(ContributorError::UnexpectedMessageType);
            },
        };
        if self.ledger_index(&init.sale_id).is_some() {
            return Err(ContributorError::SaleAlreadyExists);
        }
        let books = SaleLedger::initialize(init)?;
        let ghost before = self@;
        self.ledgers.push(books);
        proof {
            assert(self@.ledgers =~= before.ledgers.push(books@));
            assert forall|i: int, j: int| 0 <= i < j < self@.ledgers.len() implies
                (#[trigger] self@.ledgers[i]).sale.id != (#[trigger] self@.ledgers[j]).sale.id
            by {
                if j == before.ledgers.len() {
                    assert(!sale_at(before.ledgers, books@.sale.id, i));
                } else {
                    assert(before.ledgers[i].sale.id != before.ledgers[j].sale.id);
                }
            }
            assert forall|k: int| 0 <= k < self@.ledgers.len() implies
                (#[trigger] self@.ledgers[k]).wf()
            by {
                if k < before.ledgers.len() {
                    assert(before.ledgers[k].wf());
                }
            }
        }
        Ok(())
    }

    /// Records a contribution of `amount` of `asset` by `buyer` to the
    /// sale `sale_id`.
    ///
    /// Fails with `UnknownSale` where no such sale has been opened, and
    /// else as [`SaleLedger::contribute`] does; the registry then stays
    /// as it was. No other sale is touched.
    pub fn contribute(
        &mut self,
        sale_id: &[u8; 32],
        buyer: &[u8; 32],
        asset: &[u8; 32],
        amount: u64,
    ) -> (done: Result<(), ContributorError>)
        requires
            old(self).wf(),
        ensures
            match old(self)@.contributing(sale_id@, asset@, amount) {
                Ok((k, i)) => done is Ok && final(self)@ == old(self)@.with_ledger(
                    k,
                    old(self)@.ledgers[k].contributed_by(buyer@, i, amount),
                ),
                Err(e) => done == Err::<(), ContributorError>(e) && *final(self) == *old(self),
            },
            final(self).wf(),
    {
        let k = match self.ledger_index(sale_id) {
            Some(k) => k,
            None => {
                return Err(ContributorError::UnknownSale);
            },
        };
        let ghost before = self@;
        assert(before.ledgers[k as int].wf());
        // Decided before the books are borrowed for writing: a rejected
        // contribution must not touch the registry.
        let _ = self.ledgers[k].sale.check_contribution(asset, amount)?;
        let done = self.ledgers[k].contribute(buyer, asset, amount);
        proof {
            assert(self@.ledgers =~= before.ledgers.update(k as int, self.ledgers@[k as int]@));
            lemma_ledger_change_keeps_registry(before, k as int, self.ledgers@[k as int]@);
        }
        done
    }

    /// Attests what the sale `sale_id` has collected so far.
    ///
    /// Fails with `UnknownSale` where no such sale has been opened and
    /// with `SaleNotOpen` once it is sealed or aborted. Nothing changes.
    pub fn report_attestation(&self, sale_id: &[u8; 32]) -> (built: Result<
        OutboundMessage,
        ContributorError,
    >)
        requires
            self.wf(),
        ensures
            match ledger_index(self@.ledgers, sale_id@) {
                Some(k) => match built {
                    Ok(message) => self@.ledgers[k].sale.status == SaleStatus::Open
                        && message.payload@ == attestation_payload(self@.ledgers[k].sale),
                    Err(e) => e == ContributorError::SaleNotOpen && self@.ledgers[k].sale.status
                        != SaleStatus::Open,
                },
                None => built matches Err(e) && e == ContributorError::UnknownSale,
            },
    {
        match self.ledger(sale_id) {
            Some(books) => books.attest(),
            None => Err(ContributorError::UnknownSale),
        }
    }

    /// Seals the sale that the conductor's message `msg` names.
    ///
    /// Fails with `UntrustedOrigin` or `UnexpectedMessageType` where the
    /// message does not verify as a sealing, with `UnknownSale` where its
    /// sale has not been opened, and with `DuplicateSealMessage` where the
    /// sale is no longer open. The registry then stays as it was.
    pub fn apply_seal(&mut self, msg: MessageData) -> (done: Result<(), ContributorError>)
        requires
            old(self).wf(),
        ensures
            match old(self)@.closing(msg@, PAYLOAD_SALE_SEALED) {
                Ok(k) => done is Ok && final(self)@ == old(self)@.with_ledger(
                    k,
                    LedgerView {
                        sale: old(self)@.ledgers[k].sale.sealed(msg.sequence),
                        ..old(self)@.ledgers[k]
                    },
                ),
                Err(e) => done == Err::<(), ContributorError>(e) && *final(self) == *old(self),
            },
            final(self).wf(),
    {
        let sequence: u64 = msg.sequence;
        let sale_id = match self.custodian.verify(msg, PAYLOAD_SALE_SEALED, None)? {
            DecodedMessage::SaleSealed { sale_id } => sale_id,
            _ => {
                return Err(ContributorError::UnexpectedMessageType);
            },
        };
        let k = match self.ledger_index(&sale_id) {
            Some(k) => k,
            None => {
                return Err(ContributorError::UnknownSale);
            },
        };
        let ghost before = self@;
        assert(before.ledgers[k as int].wf());
        // Decided before the books are borrowed for writing: a rejected
        // message must not touch the registry.
        self.ledgers[k].sale.check_closing(sequence)?;
        let done = self.ledgers[k].seal(sequence);
        proof {
            assert(self@.ledgers =~= before.ledgers.update(k as int, self.ledgers@[k as int]@));
            lemma_ledger_change_keeps_registry(before, k as int, self.ledgers@[k as int]@);
        }
        done
    }

    /// Aborts the sale that the conductor's message `msg` names.
    ///
    /// Fails with `UntrustedOrigin` or `UnexpectedMessageType` where the
    /// message does not verify as an abort, with `UnknownSale` where its
    /// sale has not been opened, and with `DuplicateSealMessage` where the
    /// sale is no longer open. The registry then stays as it was.
    pub fn apply_abort(&mut self, msg: MessageData) -> (done: Result<(), ContributorError>)
        requires
            old(self).wf(),
        ensures
            match old(self)@.closing(msg@, PAYLOAD_SALE_ABORTED) {
                Ok(k) => done is Ok && final(self)@ == old(self)@.with_ledger(
                    k,
                    LedgerView {
                        sale: old(self)@.ledgers[k].sale.aborted(msg.sequence),
                        ..old(self)@.ledgers[k]
                    },
                ),
                Err(e) => done == Err::<(), ContributorError>(e) && *final(self) == *old(self),
            },
            final(self).wf(),
    {
        let sequence: u64 = msg.sequence;
        let sale_id = match self.custodian.verify(msg, PAYLOAD_SALE_ABORTED, None)? {
            DecodedMessage::SaleAborted { sale_id } => sale_id,
            _ => {
                return Err(ContributorError::UnexpectedMessageType);
            },
        };
        let k = match self.ledger_index(&sale_id) {
            Some(k) => k,
            None => {
                return Err(ContributorError::UnknownSale);
            },
        };
        let ghost before = self@;
        assert(before.ledgers[k as int].wf());
        // Decided before the books are borrowed for writing: a rejected
        // message must not touch the registry.
        self.ledgers[k].sale.check_closing(sequence)?;
        let done = self.ledgers[k].abort(sequence);
        proof {
            assert(self@.ledgers =~= before.ledgers.update(k as int, self.ledgers@[k as int]@));
            lemma_ledger_change_keeps_registry(before, k as int, self.ledgers@[k as int]@);
        }
        done
    }

    /// Settles `buyer` in the sale `sale_id`, once and for all.
    ///
    /// Fails with `UnknownSale` where no such sale has been opened, and
    /// else as [`SaleLedger::claim`] does; the registry then stays as it
    /// was. A settlement marks the buyer's record as claimed and touches
    /// nothing else.
    pub fn claim(&mut self, sale_id: &[u8; 32], buyer: &[u8; 32]) -> (settled: Result<
        SettlementInstruction,
        ContributorError,
    >)
        requires
            old(self).wf(),
        ensures
            match old(self)@.claiming(sale_id@, buyer@) {
                Ok((k, owed)) => settled matches Ok(instruction) && instruction@ == owed
                    && final(self)@ == old(self)@.with_ledger(
                    k,
                    old(self)@.ledgers[k].claimed_by(
                        buyer_index(old(self)@.ledgers[k].buyers, buyer@)->0,
                    ),
                ),
                Err(e) => settled matches Err(err) && err == e && *final(self) == *old(self),
            },
            final(self).wf(),
    {
        let k = match self.ledger_index(sale_id) {
            Some(k) => k,
            None => {
                return Err(ContributorError::UnknownSale);
            },
        };
        let ghost before = self@;
        assert(before.ledgers[k as int].wf());
        // Decided before the books are borrowed for writing: a rejected
        // claim must not touch the registry.
        let _ = self.ledgers[k].check_claim(buyer)?;
        let settled = self.ledgers[k].claim(buyer);
        proof {
            assert(self@.ledgers =~= before.ledgers.update(k as int, self.ledgers@[k as int]@));
            lemma_ledger_change_keeps_registry(before, k as int, self.ledgers@[k as int]@);
        }
        settled
    }
}

} // verus!
