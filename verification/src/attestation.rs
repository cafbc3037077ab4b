//! The report of a sale's totals that goes out to the conductor.

use vstd::prelude::*;
use crate::bytes::{
    be_bytes, lemma_be_bytes_len, lemma_be_round_trip, lemma_span_of_words, push_be, push_bytes,
};
use crate::error::ContributorError;
use crate::message::{
    attestation_of, AssetTotalView, AttestationView, PAYLOAD_ATTEST_CONTRIBUTIONS,
};
use crate::model::{AssetTerms, SaleStatus, SaleView};
use crate::sale::{terms_of, Sale};

verus! {

/// A message for the transport to carry to the conductor.
#[derive(Clone, Debug, PartialEq, Eq)]
pub struct OutboundMessage {
    pub payload: Vec<u8>,
}

/// The first `n` accepted assets, each followed by its total in 8 bytes.
pub open spec fn attested_totals(assets: Seq<AssetTerms>, totals: Seq<u64>, n: int) -> Seq<u8>
    decreases n,
{
    if n <= 0 {
        Seq::empty()
    } else {
        attested_totals(assets, totals, n - 1) + assets[n - 1].asset + be_bytes(
            totals[n - 1] as nat,
            8,
        )
    }
}

/// The payload that attests what `sale` has collected: the tag, the sale
/// id, the number of accepted assets and, for each, its id and its total.
pub open spec fn attestation_payload(sale: SaleView) -> Seq<u8> {
    seq![PAYLOAD_ATTEST_CONTRIBUTIONS] + sale.id + seq![sale.assets.len() as u8] + attested_totals(
        sale.assets,
        sale.totals,
        sale.assets.len() as int,
    )
}

/// What an attestation of `sale` reports: each accepted asset with its total.
pub open spec fn attested(sale: SaleView) -> AttestationView {
    AttestationView {
        sale_id: sale.id,
        totals: Seq::new(
            sale.assets.len(),
            |i: int| AssetTotalView { asset: sale.assets[i].asset, total: sale.totals[i] },
        ),
    }
}

/// Attests what `sale` has collected so far, for the conductor.
///
/// Fails with `SaleNotOpen` once the sale is sealed or aborted. The sale
/// is not changed, so an attestation can be built as often as wanted and
/// always tells the totals of the moment.
pub fn build_attestation(sale: &Sale) -> (built: Result<OutboundMessage, ContributorError>)
    requires
        sale.wf(),
    ensures
        match built {
            Ok(message) => sale@.status == SaleStatus::Open && message.payload@
                == attestation_payload(sale@),
            Err(e) => e == ContributorError::SaleNotOpen && sale@.status != SaleStatus::Open,
        },
{
    match sale.status {
        SaleStatus::Open => {},
        _ => {
            return Err(ContributorError::SaleNotOpen);
        },
    }
    let n: usize = sale.accepted.len();
    let mut payload: Vec<u8> = Vec::new();
    payload.push(PAYLOAD_ATTEST_CONTRIBUTIONS);
    push_bytes(&mut payload, sale.id.as_slice());
    payload.push(n as u8);
    let ghost head = payload@;
    assert(head =~= seq![PAYLOAD_ATTEST_CONTRIBUTIONS] + sale@.id + seq![n as u8]);
    let mut i: usize = 0;
    while i < n
        invariant
            i <= n == sale.accepted@.len() == sale.totals@.len(),
            sale@.assets == terms_of(sale.accepted@),
            sale@.totals == sale.totals@,
            payload@ == head + attested_totals(sale@.assets, sale@.totals, i as int),
        decreases n - i,
    {
        push_bytes(&mut payload, sale.accepted[i].asset.as_slice());
        push_be(&mut payload, sale.totals[i] as u128, 8);
        i += 1;
        assert(payload@ =~= head + attested_totals(sale@.assets, sale@.totals, i as int));
    }
    Ok(OutboundMessage { payload })
}

/// The list of totals takes 40 bytes for each asset, and each asset and
/// its total stand in it where the layout says.
proof fn lemma_attested_totals(assets: Seq<AssetTerms>, totals: Seq<u64>, n: int, i: int)
    requires
        0 <= i < n <= assets.len(),
        totals.len() == assets.len(),
        forall|k: int| 0 <= k < assets.len() ==> (#[trigger] assets[k]).asset.len() == 32,
    ensures
        attested_totals(assets, totals, n).len() == 40 * n,
        attested_totals(assets, totals, n).subrange(40 * i, 40 * i + 32) == assets[i].asset,
        attested_totals(assets, totals, n).subrange(40 * i + 32, 40 * i + 40) == be_bytes(
            totals[i] as nat,
            8,
        ),
    decreases n,
{
    let all = attested_totals(assets, totals, n);
    let before = attested_totals(assets, totals, n - 1);
    let last = be_bytes(totals[n - 1] as nat, 8);
    lemma_be_bytes_len(totals[n - 1] as nat, 8);
    lemma_attested_len(assets, totals, n - 1);
    assert(assets[n - 1].asset.len() == 32);
    if i < n - 1 {
        lemma_attested_totals(assets, totals, n - 1, i);
        assert(all.subrange(40 * i, 40 * i + 32) =~= before.subrange(40 * i, 40 * i + 32));
        assert(all.subrange(40 * i + 32, 40 * i + 40) =~= before.subrange(
            40 * i + 32,
            40 * i + 40,
        ));
    } else {
        assert(all.subrange(40 * i, 40 * i + 32) =~= assets[i].asset);
        assert(all.subrange(40 * i + 32, 40 * i + 40) =~= last);
    }
}

/// The list of totals takes 40 bytes for each asset.
proof fn lemma_attested_len(assets: Seq<AssetTerms>, totals: Seq<u64>, n: int)
    requires
        0 <= n <= assets.len(),
        totals.len() == assets.len(),
        forall|k: int| 0 <= k < assets.len() ==> (#[trigger] assets[k]).asset.len() == 32,
    ensures
        attested_totals(assets, totals, n).len() == 40 * n,
    decreases n,
{
    if n > 0 {
        lemma_attested_len(assets, totals, n - 1);
        lemma_be_bytes_len(totals[n - 1] as nat, 8);
        assert(assets[n - 1].asset.len() == 32);
    }
}

/// An attestation says what the sale holds: read back, its payload gives
/// the sale's id and, for each accepted asset in order, the asset and the
/// total that the sale had of it.
pub proof fn lemma_attestation_reads_back(sale: SaleView)
    requires
        sale.wf(),
    ensures
        attestation_of(attestation_payload(sale)) == Some(attested(sale)),
{
    let n = sale.assets.len() as int;
    let payload = attestation_payload(sale);
    let list = attested_totals(sale.assets, sale.totals, n);
    lemma_attested_len(sale.assets, sale.totals, n);
    assert(payload.len() == 34 + 40 * n);
    assert(payload[33] == n as u8);
    assert(payload.subrange(1, 33) =~= sale.id);
    let read = attestation_of(payload)->0;
    assert forall|i: int| 0 <= i < n implies read.totals[i] == attested(sale).totals[i] by {
        lemma_attested_totals(sale.assets, sale.totals, n, i);
        let at = 34 + 40 * i;
        assert(payload.subrange(at, at + 32) =~= list.subrange(40 * i, 40 * i + 32));
        assert(payload.subrange(at + 32, at + 40) =~= list.subrange(40 * i + 32, 40 * i + 40));
        lemma_span_of_words();
        lemma_be_round_trip(sale.totals[i] as nat, 8);
    }
    assert(read.totals =~= attested(sale).totals);
}

} // verus!
