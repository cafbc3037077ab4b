//! The custodian: whom the contributor trusts, and the checks that every
//! inbound message has to pass.

use vstd::prelude::*;
use vstd::string::StringSliceAdditionalSpecFns;
use crate::bytes::{read_bytes32, same_bytes};
use crate::error::ContributorError;
use crate::message::{
    decode_message, decoded, names_sale, sale_id_of, DecodedMessage, DecodedView, MessageData,
    MessageView, INDEX_SALE_ID, SALE_HEADER_LEN,
};
use crate::text::{decimal_u16, hex_decode, hex_decoded, parse_decimal_u16};

verus! {

/// Chain id of the contributor's own chain, on which no conductor lives.
pub const CONTRIBUTOR_CHAIN: u16 = 1;

/// Holds the escrow for all sales and names the one conductor whose
/// messages are believed.
#[derive(Clone, Debug, PartialEq, Eq)]
pub struct Custodian {
    pub(crate) owner: [u8; 32],
    pub(crate) nonce: u32,
    pub(crate) conductor_chain: u16,
    pub(crate) conductor_address: [u8; 32],
}

/// What a [`Custodian`] holds.
pub struct CustodianView {
    pub owner: Seq<u8>,
    pub nonce: u32,
    pub conductor_chain: u16,
    pub conductor_address: Seq<u8>,
}

impl View for Custodian {
    type V = CustodianView;

    open(crate) spec fn view(&self) -> CustodianView {
        CustodianView {
            owner: self.owner@,
            nonce: self.nonce,
            conductor_chain: self.conductor_chain,
            conductor_address: self.conductor_address@,
        }
    }
}

impl CustodianView {
    /// Whether `msg` was emitted by the conductor that this custodian trusts.
    pub open spec fn trusts(self, msg: MessageView) -> bool {
        msg.emitter_chain == self.conductor_chain && msg.emitter_address
            == self.conductor_address
    }

    /// The verdict on `msg` where a message of kind `payload_type` is
    /// expected: first its origin, then its kind.
    pub open spec fn verdict(self, msg: MessageView, payload_type: u8) -> Result<
        (),
        ContributorError,
    > {
        if !self.trusts(msg) {
            Err(ContributorError::UntrustedOrigin)
        } else if msg.payload.len() == 0 || msg.payload[0] != payload_type {
            Err(ContributorError::UnexpectedMessageType)
        } else {
            Ok(())
        }
    }

    /// The verdict on `msg` where it is to be applied to the sale `sale_id`:
    /// origin, kind, and then the sale that it names.
    pub open spec fn verdict_for_sale(
        self,
        msg: MessageView,
        payload_type: u8,
        sale_id: Seq<u8>,
    ) -> Result<(), ContributorError> {
        if self.verdict(msg, payload_type) is Err {
            self.verdict(msg, payload_type)
        } else if !names_sale(msg.payload) || sale_id_of(msg.payload) != sale_id {
            Err(ContributorError::SaleMismatch)
        } else {
            Ok(())
        }
    }

    /// What verifying `msg` gives where a message of kind `expected_type`
    /// is expected and, with a `target`, one about that sale: the verdict
    /// on where it comes from, its kind and its sale, and then its body.
    pub open spec fn verified(
        self,
        msg: MessageView,
        expected_type: u8,
        target: Option<Seq<u8>>,
    ) -> Result<DecodedView, ContributorError> {
        let verdict = match target {
            Some(sale_id) => self.verdict_for_sale(msg, expected_type, sale_id),
            None => self.verdict(msg, expected_type),
        };
        match verdict {
            Ok(_) => decoded(msg.payload),
            Err(e) => Err(e),
        }
    }
}

/// The conductor address that `text` configures: 64 hexadecimal digits.
pub open spec fn configured_address(text: Seq<u8>) -> Option<Seq<u8>> {
    match hex_decoded(text) {
        Some(bytes) => if bytes.len() == 32 {
            Some(bytes)
        } else {
            None
        },
        None => None,
    }
}

impl Custodian {
    /// Reads the conductor's chain id from its configured text: a decimal
    /// number of at most 65535, which a `+` may lead. Any other text is an
    /// `InvalidConductorChain`.
    pub fn conductor_chain(chain: &str) -> (id: Result<u16, ContributorError>)
        ensures
            id == match decimal_u16(chain.spec_bytes()) {
                Some(n) => Ok::<u16, ContributorError>(n),
                None => Err(ContributorError::InvalidConductorChain),
            },
    {
        match parse_decimal_u16(chain) {
            Some(n) => Ok(n),
            None => Err(ContributorError::InvalidConductorChain),
        }
    }

    /// Reads the conductor's address from its configured text: 64
    /// hexadecimal digits, which spell its 32 bytes. Any other text is an
    /// `InvalidConductorAddress`.
    pub fn conductor_address(address: &str) -> (id: Result<[u8; 32], ContributorError>)
        ensures
            match configured_address(address.spec_bytes()) {
                Some(bytes) => id matches Ok(a) && a@ == bytes,
                None => id == Err::<[u8; 32], ContributorError>(
                    ContributorError::InvalidConductorAddress,
                ),
            },
    {
        match hex_decode(address) {
            Ok(decoded) => {
                if decoded.len() == 32 {
                    let addr = read_bytes32(decoded.as_slice(), 0);
                    assert(decoded@.subrange(0, 32) =~= decoded@);
                    Ok(addr)
                } else {
                    Err(ContributorError::InvalidConductorAddress)
                }
            },
            Err(_) => Err(ContributorError::InvalidConductorAddress),
        }
    }

    /// Puts a custodian together from what was stored of it and the
    /// conductor that it is to trust.
    pub fn restore(
        owner: [u8; 32],
        nonce: u32,
        conductor_chain: u16,
        conductor_address: [u8; 32],
    ) -> (custodian: Custodian)
        ensures
            custodian@ == (CustodianView {
                owner: owner@,
                nonce,
                conductor_chain,
                conductor_address: conductor_address@,
            }),
    {
        Custodian { owner, nonce, conductor_chain, conductor_address }
    }

    /// Hands the custodian to `owner` and restarts its message counter.
    /// The conductor that it trusts stays.
    pub fn new(&mut self, owner: &[u8; 32]) -> (done: Result<(), ContributorError>)
        ensures
            done is Ok,
            final(self)@ == (CustodianView { owner: owner@, nonce: 0, ..old(self)@ }),
    {
        self.owner = *owner;
        self.nonce = 0;
        Ok(())
    }

    /// The escrow owner.
    pub fn owner(&self) -> (owner: &[u8; 32])
        ensures
            owner@ == self@.owner,
    {
        &self.owner
    }

    /// The counter that numbers the custodian's outbound messages.
    pub fn nonce(&self) -> (nonce: u32)
        ensures
            nonce == self@.nonce,
    {
        self.nonce
    }

    /// The chain of the trusted conductor.
    pub fn trusted_chain(&self) -> (chain: u16)
        ensures
            chain == self@.conductor_chain,
    {
        self.conductor_chain
    }

    /// The address of the trusted conductor.
    pub fn trusted_address(&self) -> (address: &[u8; 32])
        ensures
            address@ == self@.conductor_address,
    {
        &self.conductor_address
    }

    /// Checks that `msg` comes from the trusted conductor and is of kind
    /// `payload_type`, and hands it back if so.
    pub fn parse_and_verify_conductor_vaa(&self, msg: MessageData, payload_type: u8) -> (verified:
        Result<MessageData, ContributorError>)
        ensures
            verified == match self@.verdict(msg@, payload_type) {
                Ok(_) => Ok::<MessageData, ContributorError>(msg),
                Err(e) => Err(e),
            },
    {
        if msg.emitter_chain != self.conductor_chain {
            return Err(ContributorError::UntrustedOrigin);
        }
        if !same_bytes(&msg.emitter_address, &self.conductor_address) {
            return Err(ContributorError::UntrustedOrigin);
        }
        if msg.payload.len() == 0 || msg.payload[0] != payload_type {
            return Err(ContributorError::UnexpectedMessageType);
        }
        Ok(msg)
    }

    /// The id of the sale that `payload` is about.
    pub fn get_sale_id_from_payload(payload: &[u8]) -> (sale_id: [u8; 32])
        requires
            names_sale(payload@),
        ensures
            sale_id@ == sale_id_of(payload@),
    {
        read_bytes32(payload, INDEX_SALE_ID)
    }

    /// The id of the sale that `msg` is about; `UnexpectedMessageType`
    /// where its payload is too short to name one.
    pub fn get_sale_id_from_vaa(msg: &MessageData) -> (sale_id: Result<[u8; 32], ContributorError>)
        ensures
            if names_sale(msg@.payload) {
                sale_id matches Ok(id) && id@ == sale_id_of(msg@.payload)
            } else {
                sale_id == Err::<[u8; 32], ContributorError>(
                    ContributorError::UnexpectedMessageType,
                )
            },
    {
        if msg.payload.len() < SALE_HEADER_LEN {
            return Err(ContributorError::UnexpectedMessageType);
        }
        Ok(Custodian::get_sale_id_from_payload(msg.payload.as_slice()))
    }

    /// Checks `msg` as [`Custodian::parse_and_verify_conductor_vaa`] does,
    /// and also that it is about the sale `sale_id`.
    pub fn parse_and_verify_conductor_vaa_and_sale(
        &self,
        msg: MessageData,
        payload_type: u8,
        sale_id: [u8; 32],
    ) -> (verified: Result<MessageData, ContributorError>)
        ensures
            verified == match self@.verdict_for_sale(msg@, payload_type, sale_id@) {
                Ok(_) => Ok::<MessageData, ContributorError>(msg),
                Err(e) => Err(e),
            },
    {
        let msg = self.parse_and_verify_conductor_vaa(msg, payload_type)?;
        if msg.payload.len() < SALE_HEADER_LEN {
            return Err(ContributorError::SaleMismatch);
        }
        let named = Custodian::get_sale_id_from_payload(msg.payload.as_slice());
        if !same_bytes(&named, &sale_id) {
            return Err(ContributorError::SaleMismatch);
        }
        Ok(msg)
    }
}

impl Custodian {
    /// Verifies `msg` and reads its body.
    ///
    /// The message must come from the trusted conductor
    /// (`UntrustedOrigin`), be of the kind `expected_type`
    /// (`UnexpectedMessageType`) and, where a `target` is given, be about
    /// that sale (`SaleMismatch`); then its body must be laid out as its
    /// kind asks. Nothing is changed: keeping track of the sequence numbers
    /// that have been seen is left to the caller.
    pub fn verify(&self, msg: MessageData, expected_type: u8, target: Option<[u8; 32]>) -> (body:
        Result<DecodedMessage, ContributorError>)
        ensures
            match self@.verified(
                msg@,
                expected_type,
                match target {
                    Some(sale_id) => Some(sale_id@),
                    None => None,
                },
            ) {
                Ok(held) => body matches Ok(b) && b@ == held,
                Err(e) => body matches Err(err) && err == e,
            },
    {
        let msg = match target {
            Some(sale_id) => self.parse_and_verify_conductor_vaa_and_sale(
                msg,
                expected_type,
                sale_id,
            )?,
            None => self.parse_and_verify_conductor_vaa(msg, expected_type)?,
        };
        decode_message(msg.payload.as_slice())
    }
}

impl Default for Custodian {
    /// A custodian that nobody owns yet and that trusts chain 0, address 0.
    fn default() -> (custodian: Custodian)
        ensures
            custodian@ == (CustodianView {
                owner: Seq::new(32, |i: int| 0u8),
                nonce: 0,
                conductor_chain: 0,
                conductor_address: Seq::new(32, |i: int| 0u8),
            }),
    {
        let custodian = Custodian {
            owner: [0u8; 32],
            nonce: 0,
            conductor_chain: 0,
            conductor_address: [0u8; 32],
        };
        assert(custodian.owner@ =~= Seq::new(32, |i: int| 0u8));
        assert(custodian.conductor_address@ =~= Seq::new(32, |i: int| 0u8));
        custodian
    }
}

/// Names the conductor that `config` trusts from now on.
///
/// A conductor on the contributor's own chain is refused with
/// `InvalidConductor`, an address that is not 32 bytes long with
/// `InvalidConductorAddress`; `config` then stays as it was.
pub fn create_config(config: &mut Custodian, conductor_chain: u16, conductor_address: Vec<u8>) -> (done:
    Result<(), ContributorError>)
    ensures
        done == if conductor_chain == CONTRIBUTOR_CHAIN {
            Err::<(), ContributorError>(ContributorError::InvalidConductor)
        } else if conductor_address@.len() != 32 {
            Err(ContributorError::InvalidConductorAddress)
        } else {
            Ok(())
        },
        done is Err ==> *final(config) == *old(config),
        done is Ok ==> final(config)@ == (CustodianView {
            conductor_chain,
            conductor_address: conductor_address@,
            ..old(config)@
        }),
{
    if conductor_chain == CONTRIBUTOR_CHAIN {
        return Err(ContributorError::InvalidConductor);
    }
    if conductor_address.len() != 32 {
        return Err(ContributorError::InvalidConductorAddress);
    }
    let address = read_bytes32(conductor_address.as_slice(), 0);
    assert(conductor_address@.subrange(0, 32) =~= conductor_address@);
    config.conductor_chain = conductor_chain;
    config.conductor_address = address;
    Ok(())
}

} // verus!
