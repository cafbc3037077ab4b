//! What the conductor's messages do to a sale.

use vstd::prelude::*;
use crate::custodian::{Custodian, CustodianView};
use crate::error::ContributorError;
use crate::message::{
    DecodedMessage, DecodedView, MessageData, MessageView, PAYLOAD_SALE_ABORTED,
    PAYLOAD_SALE_INIT, PAYLOAD_SALE_SEALED,
};
use crate::model::{closing_outcome, terms_valid, SaleView};
use crate::sale::Sale;

verus! {

/// The sale that `msg` opens, as `custodian` sees it: the message must
/// verify as a sale init, and its terms must be valid.
pub open spec fn init_outcome(custodian: CustodianView, msg: MessageView) -> Result<
    SaleView,
    ContributorError,
> {
    match custodian.verified(msg, PAYLOAD_SALE_INIT, None) {
        Ok(DecodedView::SaleInit(init)) => if terms_valid(init.assets) {
            Ok(SaleView::opened(init))
        } else {
            Err(ContributorError::MalformedSaleTerms)
        },
        Ok(_) => Err(ContributorError::UnexpectedMessageType),
        Err(e) => Err(e),
    }
}

/// What becomes of `msg` where it is to seal or abort `sale`, by the kind
/// `payload_type` of the two: the message must verify as one of that kind
/// about this sale, and the sale must still be open to it.
pub open spec fn close_outcome(
    custodian: CustodianView,
    sale: SaleView,
    msg: MessageView,
    payload_type: u8,
) -> Result<(), ContributorError> {
    match custodian.verified(msg, payload_type, Some(sale.id)) {
        Ok(_) => closing_outcome(sale, msg.sequence),
        Err(e) => Err(e),
    }
}

/// Opens the sale that the conductor's message `msg` announces.
///
/// Fails with `UntrustedOrigin` where the message is not the trusted
/// conductor's, with `UnexpectedMessageType` where it is no sale init,
/// and with `MalformedSaleTerms` where its length does not fit the assets
/// that it counts or its terms are not valid.
pub fn init_sale(custodian: &Custodian, msg: MessageData) -> (opened: Result<Sale, ContributorError>)
    ensures
        match init_outcome(custodian@, msg@) {
            Ok(sale) => opened matches Ok(s) && s@ == sale && s.wf(),
            Err(e) => opened matches Err(err) && err == e,
        },
{
    match custodian.verify(msg, PAYLOAD_SALE_INIT, None)? {
        DecodedMessage::SaleInit(init) => Sale::initialize(init),
        _ => Err(ContributorError::UnexpectedMessageType),
    }
}

/// Seals `sale` on the conductor's message `msg`.
///
/// Fails with `UntrustedOrigin`, `UnexpectedMessageType` or `SaleMismatch`
/// where the message does not verify as a sealing of this sale, and with
/// `DuplicateSealMessage` where the sale is no longer open. The sale then
/// stays as it was.
pub fn sale_sealed(custodian: &Custodian, sale: &mut Sale, msg: MessageData) -> (done: Result<
    (),
    ContributorError,
>)
    requires
        old(sale).wf(),
    ensures
        done == close_outcome(custodian@, old(sale)@, msg@, PAYLOAD_SALE_SEALED),
        done is Ok ==> final(sale)@ == old(sale)@.sealed(msg.sequence),
        done is Err ==> *final(sale) == *old(sale),
        final(sale).wf(),
{
    let sequence: u64 = msg.sequence;
    let _ = custodian.verify(msg, PAYLOAD_SALE_SEALED, Some(sale.id))?;
    sale.seal(sequence)
}

/// Aborts `sale` on the conductor's message `msg`.
///
/// Fails with `UntrustedOrigin`, `UnexpectedMessageType` or `SaleMismatch`
/// where the message does not verify as an abort of this sale, and with
/// `DuplicateSealMessage` where the sale is no longer open. The sale then
/// stays as it was.
pub fn sale_aborted(custodian: &Custodian, sale: &mut Sale, msg: MessageData) -> (done: Result<
    (),
    ContributorError,
>)
    requires
        old(sale).wf(),
    ensures
        done == close_outcome(custodian@, old(sale)@, msg@, PAYLOAD_SALE_ABORTED),
        done is Ok ==> final(sale)@ == old(sale)@.aborted(msg.sequence),
        done is Err ==> *final(sale) == *old(sale),
        final(sale).wf(),
{
    let sequence: u64 = msg.sequence;
    let _ = custodian.verify(msg, PAYLOAD_SALE_ABORTED, Some(sale.id))?;
    sale.abort(sequence)
}

} // verus!
