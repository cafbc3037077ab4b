//! Seeds from which the storage layer derives where an entity is kept.
//!
//! A seed list is a list of byte strings. The same entity always gives
//! the same list, and the lists of different kinds of entity differ.

use vstd::prelude::*;
use crate::bytes::{be_bytes, push_be, push_bytes};

verus! {

/// The byte strings that a seed list holds.
pub open spec fn parts(seeds: Vec<Vec<u8>>) -> Seq<Seq<u8>> {
    Seq::new(seeds@.len(), |i: int| seeds@[i]@)
}

/// The bytes of the word `state`, which leads the seeds of a sale's state.
pub open spec fn state_seed() -> Seq<u8> {
    seq![0x73u8, 0x74u8, 0x61u8, 0x74u8, 0x65u8]
}

/// The bytes of the word `metadata`, which leads the seeds of a token's
/// metadata.
pub open spec fn metadata_seed() -> Seq<u8> {
    seq![0x6du8, 0x65u8, 0x74u8, 0x61u8, 0x64u8, 0x61u8, 0x74u8, 0x61u8]
}

/// What the state of a sale is derived from.
#[derive(Clone, Copy, Debug, PartialEq, Eq)]
pub struct SaleStateDerivationData {
    pub sale_id: u128,
}

/// What the custody account of a token is derived from.
#[derive(Clone, Copy, Debug, PartialEq, Eq)]
pub struct CustodyAccountDerivationData {
    pub mint: [u8; 32],
}

/// What the registration of a foreign endpoint is derived from.
#[derive(Clone, Copy, Debug, PartialEq, Eq)]
pub struct EndpointDerivationData {
    pub emitter_chain: u16,
    pub emitter_address: [u8; 32],
}

/// What the metadata account of a token is derived from.
#[derive(Clone, Copy, Debug, PartialEq, Eq)]
pub struct SplTokenMetaDerivationData {
    pub mint: [u8; 32],
}

/// `spl_token_metadata::id`, as bytes.
///
/// Trusted: nothing is claimed of the id but that it is 32 bytes, which
/// its type says.
#[verifier::external_body]
fn token_metadata_program() -> (program: [u8; 32]) {
    spl_token_metadata::id().to_bytes()
}

/// The seeds of the metadata that the program `program` keeps for the
/// token `mint`: the word `metadata`, the program's id, the mint.
pub fn token_metadata_seeds(program: &[u8; 32], mint: &[u8; 32]) -> (seeds: Vec<Vec<u8>>)
    ensures
        parts(seeds) == seq![metadata_seed(), program@, mint@],
{
    let mut word: Vec<u8> = Vec::new();
    word.push(0x6d);
    word.push(0x65);
    word.push(0x74);
    word.push(0x61);
    word.push(0x64);
    word.push(0x61);
    word.push(0x74);
    word.push(0x61);
    assert(word@ =~= metadata_seed());
    let mut id: Vec<u8> = Vec::new();
    push_bytes(&mut id, program.as_slice());
    assert(id@ =~= program@);
    let mut token: Vec<u8> = Vec::new();
    push_bytes(&mut token, mint.as_slice());
    assert(token@ =~= mint@);
    let mut seeds: Vec<Vec<u8>> = Vec::new();
    seeds.push(word);
    seeds.push(id);
    seeds.push(token);
    assert(parts(seeds) =~= seq![metadata_seed(), program@, mint@]);
    seeds
}

impl SaleStateDerivationData {
    /// The word `state`, then the sale id in 16 bytes, big-endian.
    pub fn seeds(&self) -> (seeds: Vec<Vec<u8>>)
        ensures
            parts(seeds) == seq![state_seed(), be_bytes(self.sale_id as nat, 16)],
    {
        let mut word: Vec<u8> = Vec::new();
        word.push(0x73);
        word.push(0x74);
        word.push(0x61);
        word.push(0x74);
        word.push(0x65);
        assert(word@ =~= state_seed());
        let mut id: Vec<u8> = Vec::new();
        push_be(&mut id, self.sale_id, 16);
        assert(id@ =~= be_bytes(self.sale_id as nat, 16));
        let mut seeds: Vec<Vec<u8>> = Vec::new();
        seeds.push(word);
        seeds.push(id);
        assert(parts(seeds) =~= seq![state_seed(), be_bytes(self.sale_id as nat, 16)]);
        seeds
    }
}

impl CustodyAccountDerivationData {
    /// The mint, and nothing else.
    pub fn seeds(&self) -> (seeds: Vec<Vec<u8>>)
        ensures
            parts(seeds) == seq![self.mint@],
    {
        let mut token: Vec<u8> = Vec::new();
        push_bytes(&mut token, self.mint.as_slice());
        assert(token@ =~= self.mint@);
        let mut seeds: Vec<Vec<u8>> = Vec::new();
        seeds.push(token);
        assert(parts(seeds) =~= seq![self.mint@]);
        seeds
    }
}

impl EndpointDerivationData {
    /// The emitter's chain in 2 bytes, big-endian, then its address.
    pub fn seeds(&self) -> (seeds: Vec<Vec<u8>>)
        ensures
            parts(seeds) == seq![be_bytes(self.emitter_chain as nat, 2), self.emitter_address@],
    {
        let mut chain: Vec<u8> = Vec::new();
        push_be(&mut chain, self.emitter_chain as u128, 2);
        assert(chain@ =~= be_bytes(self.emitter_chain as nat, 2));
        let mut address: Vec<u8> = Vec::new();
        push_bytes(&mut address, self.emitter_address.as_slice());
        assert(address@ =~= self.emitter_address@);
        let mut seeds: Vec<Vec<u8>> = Vec::new();
        seeds.push(chain);
        seeds.push(address);
        assert(parts(seeds) =~= seq![
            be_bytes(self.emitter_chain as nat, 2),
            self.emitter_address@,
        ]);
        seeds
    }
}

impl SplTokenMetaDerivationData {
    /// The word `metadata`, the id of the token metadata program, and the
    /// mint; see [`token_metadata_seeds`].
    pub fn seeds(&self) -> (seeds: Vec<Vec<u8>>)
        ensures
            parts(seeds).len() == 3,
            parts(seeds)[0] == metadata_seed(),
            parts(seeds)[1].len() == 32,
            parts(seeds)[2] == self.mint@,
    {
        let program = token_metadata_program();
        token_metadata_seeds(&program, &self.mint)
    }
}

} // verus!
