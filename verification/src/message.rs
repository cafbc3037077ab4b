//! Messages that the cross-chain transport has authenticated, and the
//! layout of their payloads.
//!
//! Every payload about a sale starts with one byte that tells its kind and
//! the 32 bytes of the sale's id. Integers are big-endian.
//!
//! | kind        | after the sale id                                            |
//! |-------------|--------------------------------------------------------------|
//! | sale init   | sale token (32), count (1), count x asset (32), rate (8), cap (8) |
//! | attestation | count (1), count x asset (32), total (8)                     |
//! | sealed      | nothing that the contributor reads                           |
//! | aborted     | nothing that the contributor reads                           |

use vstd::prelude::*;
use crate::bytes::{be_value, read_bytes32, read_u64_be};
use crate::error::ContributorError;
use crate::model::{AssetTerms, SaleInitView};
use crate::sale::{terms_of, AcceptedAsset};

verus! {

/// Tag of the message that announces a sale.
pub const PAYLOAD_SALE_INIT: u8 = 1;

/// Tag of the message that reports the contributions collected so far.
pub const PAYLOAD_ATTEST_CONTRIBUTIONS: u8 = 2;

/// Tag of the message that seals a sale.
pub const PAYLOAD_SALE_SEALED: u8 = 3;

/// Tag of the message that aborts a sale.
pub const PAYLOAD_SALE_ABORTED: u8 = 4;

/// Where the sale id starts in the payload of every message about a sale.
pub const INDEX_SALE_ID: usize = 1;

/// Length of the tag and the sale id that lead every message about a sale.
pub const SALE_HEADER_LEN: usize = 33;

/// Where the list of accepted assets starts in a sale init payload, after
/// the sale token and the count.
pub const INDEX_ACCEPTED_ASSETS: usize = 66;

/// Length of one accepted asset in a sale init payload.
pub const ACCEPTED_ASSET_LEN: usize = 48;

/// Where the list of totals starts in an attestation payload, after the count.
pub const INDEX_ASSET_TOTALS: usize = 34;

/// Length of one asset with its total in an attestation payload.
pub const ASSET_TOTAL_LEN: usize = 40;

/// A message as the transport hands it over: where it comes from, its
/// place in the emitter's sequence, and its payload.
#[derive(Clone, Debug, PartialEq, Eq)]
pub struct MessageData {
    pub emitter_chain: u16,
    pub emitter_address: [u8; 32],
    pub sequence: u64,
    pub payload: Vec<u8>,
}

/// What a [`MessageData`] holds.
pub struct MessageView {
    pub emitter_chain: u16,
    pub emitter_address: Seq<u8>,
    pub sequence: u64,
    pub payload: Seq<u8>,
}

impl View for MessageData {
    type V = MessageView;

    open spec fn view(&self) -> MessageView {
        MessageView {
            emitter_chain: self.emitter_chain,
            emitter_address: self.emitter_address@,
            sequence: self.sequence,
            payload: self.payload@,
        }
    }
}

/// The body of the message that announces a sale: its id, the asset that
/// it distributes, and the assets that it accepts with their terms.
#[derive(Clone, Debug, PartialEq, Eq)]
pub struct SaleInit {
    pub sale_id: [u8; 32],
    pub sale_token: [u8; 32],
    pub accepted: Vec<AcceptedAsset>,
}

impl View for SaleInit {
    type V = SaleInitView;

    open spec fn view(&self) -> SaleInitView {
        SaleInitView {
            sale_id: self.sale_id@,
            sale_token: self.sale_token@,
            assets: terms_of(self.accepted@),
        }
    }
}

/// An accepted asset and what a sale has collected of it.
#[derive(Clone, Copy, Debug, PartialEq, Eq)]
pub struct AssetTotal {
    pub asset: [u8; 32],
    pub total: u64,
}

/// What an [`AssetTotal`] holds.
pub struct AssetTotalView {
    pub asset: Seq<u8>,
    pub total: u64,
}

impl View for AssetTotal {
    type V = AssetTotalView;

    open spec fn view(&self) -> AssetTotalView {
        AssetTotalView { asset: self.asset@, total: self.total }
    }
}

/// The body of the message that reports what a sale has collected.
#[derive(Clone, Debug, PartialEq, Eq)]
pub struct Attestation {
    pub sale_id: [u8; 32],
    pub totals: Vec<AssetTotal>,
}

/// What an [`Attestation`] holds.
pub struct AttestationView {
    pub sale_id: Seq<u8>,
    pub totals: Seq<AssetTotalView>,
}

impl View for Attestation {
    type V = AttestationView;

    open spec fn view(&self) -> AttestationView {
        AttestationView {
            sale_id: self.sale_id@,
            totals: Seq::new(self.totals@.len(), |i: int| self.totals@[i]@),
        }
    }
}

/// The body of a message, by its kind.
#[derive(Clone, Debug, PartialEq, Eq)]
pub enum DecodedMessage {
    SaleInit(SaleInit),
    Attestation(Attestation),
    SaleSealed { sale_id: [u8; 32] },
    SaleAborted { sale_id: [u8; 32] },
}

/// What a [`DecodedMessage`] holds.
pub enum DecodedView {
    SaleInit(SaleInitView),
    Attestation(AttestationView),
    SaleSealed { sale_id: Seq<u8> },
    SaleAborted { sale_id: Seq<u8> },
}

impl View for DecodedMessage {
    type V = DecodedView;

    open spec fn view(&self) -> DecodedView {
        match *self {
            DecodedMessage::SaleInit(init) => DecodedView::SaleInit(init@),
            DecodedMessage::Attestation(attestation) => DecodedView::Attestation(attestation@),
            DecodedMessage::SaleSealed { sale_id } => DecodedView::SaleSealed { sale_id: sale_id@ },
            DecodedMessage::SaleAborted { sale_id } => DecodedView::SaleAborted {
                sale_id: sale_id@,
            },
        }
    }
}

/// Whether `payload` is long enough to name a sale.
pub open spec fn names_sale(payload: Seq<u8>) -> bool {
    payload.len() >= SALE_HEADER_LEN
}

/// The id of the sale that `payload` is about.
pub open spec fn sale_id_of(payload: Seq<u8>) -> Seq<u8> {
    payload.subrange(INDEX_SALE_ID as int, SALE_HEADER_LEN as int)
}

/// The accepted asset that stands at `at` in a sale init payload.
pub open spec fn terms_at(payload: Seq<u8>, at: int) -> AssetTerms {
    AssetTerms {
        asset: payload.subrange(at, at + 32),
        conversion_rate: be_value(payload.subrange(at + 32, at + 40)) as u64,
        cap: be_value(payload.subrange(at + 40, at + 48)) as u64,
    }
}

/// What a sale init payload announces. The payload has to be exactly as
/// long as the number of assets that it counts asks for.
pub open spec fn sale_init_of(payload: Seq<u8>) -> Option<SaleInitView> {
    if payload.len() >= INDEX_ACCEPTED_ASSETS && payload.len() == INDEX_ACCEPTED_ASSETS
        + ACCEPTED_ASSET_LEN * payload[65] {
        Some(
            SaleInitView {
                sale_id: sale_id_of(payload),
                sale_token: payload.subrange(33, 65),
                assets: Seq::new(
                    payload[65] as nat,
                    |i: int| terms_at(payload, INDEX_ACCEPTED_ASSETS + ACCEPTED_ASSET_LEN * i),
                ),
            },
        )
    } else {
        None
    }
}

/// The asset and total that stand at `at` in an attestation payload.
pub open spec fn total_at(payload: Seq<u8>, at: int) -> AssetTotalView {
    AssetTotalView {
        asset: payload.subrange(at, at + 32),
        total: be_value(payload.subrange(at + 32, at + 40)) as u64,
    }
}

/// What an attestation payload reports. The payload has to be exactly as
/// long as the number of assets that it counts asks for.
pub open spec fn attestation_of(payload: Seq<u8>) -> Option<AttestationView> {
    if payload.len() >= INDEX_ASSET_TOTALS && payload.len() == INDEX_ASSET_TOTALS + ASSET_TOTAL_LEN
        * payload[33] {
        Some(
            AttestationView {
                sale_id: sale_id_of(payload),
                totals: Seq::new(
                    payload[33] as nat,
                    |i: int| total_at(payload, INDEX_ASSET_TOTALS + ASSET_TOTAL_LEN * i),
                ),
            },
        )
    } else {
        None
    }
}

/// The body that `payload` holds, by the kind that its first byte tells.
///
/// A sale init whose length does not fit its count is `MalformedSaleTerms`;
/// an unknown kind, and any other payload that is not laid out as its kind
/// asks, is `UnexpectedMessageType`.
pub open spec fn decoded(payload: Seq<u8>) -> Result<DecodedView, ContributorError> {
    if payload.len() == 0 {
        Err(ContributorError::UnexpectedMessageType)
    } else if payload[0] == PAYLOAD_SALE_INIT {
        match sale_init_of(payload) {
            Some(init) => Ok(DecodedView::SaleInit(init)),
            None => Err(ContributorError::MalformedSaleTerms),
        }
    } else if payload[0] == PAYLOAD_ATTEST_CONTRIBUTIONS {
        match attestation_of(payload) {
            Some(attestation) => Ok(DecodedView::Attestation(attestation)),
            None => Err(ContributorError::UnexpectedMessageType),
        }
    } else if payload[0] == PAYLOAD_SALE_SEALED && names_sale(payload) {
        Ok(DecodedView::SaleSealed { sale_id: sale_id_of(payload) })
    } else if payload[0] == PAYLOAD_SALE_ABORTED && names_sale(payload) {
        Ok(DecodedView::SaleAborted { sale_id: sale_id_of(payload) })
    } else {
        Err(ContributorError::UnexpectedMessageType)
    }
}

/// Reads the body of a sale init payload; `None` where its length does not
/// fit the number of assets that it counts.
pub fn decode_sale_init(payload: &[u8]) -> (init: Option<SaleInit>)
    ensures
        match sale_init_of(payload@) {
            Some(announced) => init matches Some(i) && i@ == announced,
            None => init is None,
        },
{
    let len: usize = payload.len();
    if len < INDEX_ACCEPTED_ASSETS {
        return None;
    }
    let n: usize = payload[65] as usize;
    if len - INDEX_ACCEPTED_ASSETS != ACCEPTED_ASSET_LEN * n {
        return None;
    }
    let sale_id = read_bytes32(payload, INDEX_SALE_ID);
    let sale_token = read_bytes32(payload, 33);
    let mut accepted: Vec<AcceptedAsset> = Vec::new();
    let mut i: usize = 0;
    while i < n
        invariant
            i <= n <= 255,
            len == payload@.len() == INDEX_ACCEPTED_ASSETS + ACCEPTED_ASSET_LEN * n,
            accepted@.len() == i,
            forall|k: int|
                0 <= k < i ==> (#[trigger] accepted@[k])@ == terms_at(
                    payload@,
                    INDEX_ACCEPTED_ASSETS + ACCEPTED_ASSET_LEN * k,
                ),
        decreases n - i,
    {
        let at: usize = INDEX_ACCEPTED_ASSETS + ACCEPTED_ASSET_LEN * i;
        let asset = read_bytes32(payload, at);
        let conversion_rate = read_u64_be(payload, at + 32);
        let cap = read_u64_be(payload, at + 40);
        accepted.push(AcceptedAsset { asset, conversion_rate, cap });
        i += 1;
    }
    let init = SaleInit { sale_id, sale_token, accepted };
    assert(init@.assets =~= sale_init_of(payload@)->0.assets);
    Some(init)
}

/// Reads the body of an attestation payload; `None` where its length does
/// not fit the number of assets that it counts.
pub fn decode_attestation(payload: &[u8]) -> (attestation: Option<Attestation>)
    ensures
        match attestation_of(payload@) {
            Some(reported) => attestation matches Some(a) && a@ == reported,
            None => attestation is None,
        },
{
    let len: usize = payload.len();
    if len < INDEX_ASSET_TOTALS {
        return None;
    }
    let n: usize = payload[33] as usize;
    if len - INDEX_ASSET_TOTALS != ASSET_TOTAL_LEN * n {
        return None;
    }
    let sale_id = read_bytes32(payload, INDEX_SALE_ID);
    let mut totals: Vec<AssetTotal> = Vec::new();
    let mut i: usize = 0;
    while i < n
        invariant
            i <= n <= 255,
            len == payload@.len() == INDEX_ASSET_TOTALS + ASSET_TOTAL_LEN * n,
            totals@.len() == i,
            forall|k: int|
                0 <= k < i ==> (#[trigger] totals@[k])@ == total_at(
                    payload@,
                    INDEX_ASSET_TOTALS + ASSET_TOTAL_LEN * k,
                ),
        decreases n - i,
    {
        let at: usize = INDEX_ASSET_TOTALS + ASSET_TOTAL_LEN * i;
        let asset = read_bytes32(payload, at);
        let total = read_u64_be(payload, at + 32);
        totals.push(AssetTotal { asset, total });
        i += 1;
    }
    let attestation = Attestation { sale_id, totals };
    assert(attestation@.totals =~= attestation_of(payload@)->0.totals);
    Some(attestation)
}

/// Reads the body of `payload`, by the kind that its first byte tells.
pub fn decode_message(payload: &[u8]) -> (body: Result<DecodedMessage, ContributorError>)
    ensures
        match decoded(payload@) {
            Ok(held) => body matches Ok(b) && b@ == held,
            Err(e) => body matches Err(err) && err == e,
        },
{
    if payload.len() == 0 {
        return Err(ContributorError::UnexpectedMessageType);
    }
    let kind: u8 = payload[0];
    if kind == PAYLOAD_SALE_INIT {
        match decode_sale_init(payload) {
            Some(init) => Ok(DecodedMessage::SaleInit(init)),
            None => Err(ContributorError::MalformedSaleTerms),
        }
    } else if kind == PAYLOAD_ATTEST_CONTRIBUTIONS {
        match decode_attestation(payload) {
            Some(attestation) => Ok(DecodedMessage::Attestation(attestation)),
            None => Err(ContributorError::UnexpectedMessageType),
        }
    } else if kind == PAYLOAD_SALE_SEALED && payload.len() >= SALE_HEADER_LEN {
        Ok(DecodedMessage::SaleSealed { sale_id: read_bytes32(payload, INDEX_SALE_ID) })
    } else if kind == PAYLOAD_SALE_ABORTED && payload.len() >= SALE_HEADER_LEN {
        Ok(DecodedMessage::SaleAborted { sale_id: read_bytes32(payload, INDEX_SALE_ID) })
    } else {
        Err(ContributorError::UnexpectedMessageType)
    }
}

} // verus!
