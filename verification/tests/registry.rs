use icco_contributor::custodian::{create_config, Custodian};
use icco_contributor::error::ContributorError;
use icco_contributor::instructions::{init_sale, sale_aborted, sale_sealed};
use icco_contributor::message::{
    decode_attestation, AssetTotal, MessageData, PAYLOAD_ATTEST_CONTRIBUTIONS,
    PAYLOAD_SALE_ABORTED, PAYLOAD_SALE_INIT, PAYLOAD_SALE_SEALED,
};
use icco_contributor::model::SaleStatus;
use icco_contributor::registry::SaleRegistry;
use icco_contributor::sale::AcceptedAsset;
use icco_contributor::settlement::{SettlementInstruction, Transfer};

const CONDUCTOR: [u8; 32] = [0xc0; 32];
const SALE: [u8; 32] = [0x5a; 32];
const OTHER_SALE: [u8; 32] = [0x5b; 32];
const TOKEN: [u8; 32] = [0x70; 32];
const USDC: [u8; 32] = [0x0c; 32];
const WETH: [u8; 32] = [0x0e; 32];
const A: [u8; 32] = [0xa1; 32];
const B: [u8; 32] = [0xb0; 32];

fn trusting_custodian() -> Custodian {
    let mut custodian = Custodian::default();
    custodian.new(&[0x0f; 32]).unwrap();
    create_config(&mut custodian, 2, CONDUCTOR.to_vec()).unwrap();
    custodian
}

fn from_conductor(sequence: u64, payload: Vec<u8>) -> MessageData {
    MessageData { emitter_chain: 2, emitter_address: CONDUCTOR, sequence, payload }
}

fn init_message(sale_id: [u8; 32], assets: &[([u8; 32], u64, u64)]) -> MessageData {
    let mut payload = vec![PAYLOAD_SALE_INIT];
    payload.extend_from_slice(&sale_id);
    payload.extend_from_slice(&TOKEN);
    payload.push(assets.len() as u8);
    for (asset, rate, cap) in assets {
        payload.extend_from_slice(asset);
        payload.extend_from_slice(&rate.to_be_bytes());
        payload.extend_from_slice(&cap.to_be_bytes());
    }
    from_conductor(1, payload)
}

fn closing_message(kind: u8, sale_id: [u8; 32], sequence: u64) -> MessageData {
    let mut payload = vec![kind];
    payload.extend_from_slice(&sale_id);
    from_conductor(sequence, payload)
}

fn registry_with_usdc_sale() -> SaleRegistry {
    let mut registry = SaleRegistry::new(trusting_custodian());
    registry.initialize_sale(init_message(SALE, &[(USDC, 2, 1000)])).unwrap();
    registry
}

fn usdc_total(registry: &SaleRegistry) -> u64 {
    registry.ledger(&SALE).unwrap().sale().totals()[0]
}

#[test]
fn sealed_sale_scenario() {
    let mut registry = registry_with_usdc_sale();
    assert_eq!(registry.contribute(&SALE, &A, &USDC, 600), Ok(()));
    assert_eq!(usdc_total(&registry), 600);
    assert_eq!(
        registry.contribute(&SALE, &B, &USDC, 500),
        Err(ContributorError::ContributionCapExceeded)
    );
    assert_eq!(usdc_total(&registry), 600);
    assert_eq!(registry.contribute(&SALE, &B, &USDC, 400), Ok(()));
    assert_eq!(usdc_total(&registry), 1000);
    assert_eq!(registry.apply_seal(closing_message(PAYLOAD_SALE_SEALED, SALE, 2)), Ok(()));
    assert_eq!(
        registry.claim(&SALE, &A),
        Ok(SettlementInstruction::Allocation { recipient: A, asset: TOKEN, amount: 1200 })
    );
    assert_eq!(
        registry.claim(&SALE, &B),
        Ok(SettlementInstruction::Allocation { recipient: B, asset: TOKEN, amount: 800 })
    );
    assert_eq!(registry.claim(&SALE, &A), Err(ContributorError::AlreadyClaimed));
}

#[test]
fn aborted_sale_scenario() {
    let mut registry = registry_with_usdc_sale();
    assert_eq!(registry.contribute(&SALE, &A, &USDC, 600), Ok(()));
    assert_eq!(
        registry.contribute(&SALE, &B, &USDC, 500),
        Err(ContributorError::ContributionCapExceeded)
    );
    assert_eq!(registry.contribute(&SALE, &B, &USDC, 400), Ok(()));
    assert_eq!(registry.apply_abort(closing_message(PAYLOAD_SALE_ABORTED, SALE, 2)), Ok(()));
    assert_eq!(
        registry.claim(&SALE, &A),
        Ok(SettlementInstruction::Refund {
            recipient: A,
            transfers: vec![Transfer { asset: USDC, amount: 600 }],
        })
    );
    assert_eq!(
        registry.claim(&SALE, &B),
        Ok(SettlementInstruction::Refund {
            recipient: B,
            transfers: vec![Transfer { asset: USDC, amount: 400 }],
        })
    );
    assert_eq!(registry.claim(&SALE, &B), Err(ContributorError::AlreadyClaimed));
}

#[test]
fn new_registry_is_empty() {
    let registry = SaleRegistry::new(trusting_custodian());
    assert_eq!(registry.sale_count(), 0);
    assert_eq!(registry.custodian(), &trusting_custodian());
    assert_eq!(registry.ledger(&SALE), None);
    assert_eq!(registry.ledger_index(&SALE), None);
}

#[test]
fn sale_is_opened_from_its_terms() {
    let mut registry = SaleRegistry::new(trusting_custodian());
    assert_eq!(registry.initialize_sale(init_message(SALE, &[(USDC, 2, 1000), (WETH, 5, 10)])), Ok(()));
    assert_eq!(registry.sale_count(), 1);
    assert_eq!(registry.ledger_index(&SALE), Some(0));
    let sale = registry.ledger(&SALE).unwrap().sale();
    assert_eq!(sale.id(), &SALE);
    assert_eq!(sale.sale_token(), &TOKEN);
    assert_eq!(sale.status(), SaleStatus::Open);
    assert_eq!(
        sale.accepted(),
        &vec![
            AcceptedAsset { asset: USDC, conversion_rate: 2, cap: 1000 },
            AcceptedAsset { asset: WETH, conversion_rate: 5, cap: 10 },
        ]
    );
    assert_eq!(sale.totals(), &vec![0u64, 0]);
}

#[test]
fn sale_is_opened_once_only() {
    let mut registry = registry_with_usdc_sale();
    registry.contribute(&SALE, &A, &USDC, 600).unwrap();
    let before = registry.clone();
    assert_eq!(
        registry.initialize_sale(init_message(SALE, &[(USDC, 2, 1000)])),
        Err(ContributorError::SaleAlreadyExists)
    );
    assert_eq!(
        registry.initialize_sale(init_message(SALE, &[(USDC, 2, 1000), (USDC, 2, 1000)])),
        Err(ContributorError::SaleAlreadyExists)
    );
    assert_eq!(registry, before);
    assert_eq!(registry.initialize_sale(init_message(OTHER_SALE, &[(WETH, 1, 1)])), Ok(()));
    assert_eq!(registry.sale_count(), 2);
    assert_eq!(registry.ledger_index(&OTHER_SALE), Some(1));
}

#[test]
fn sale_with_malformed_terms_is_not_opened() {
    let mut registry = SaleRegistry::new(trusting_custodian());
    let before = registry.clone();
    assert_eq!(
        registry.initialize_sale(init_message(SALE, &[(USDC, 2, 1000), (USDC, 3, 10)])),
        Err(ContributorError::MalformedSaleTerms)
    );
    assert_eq!(
        registry.initialize_sale(init_message(SALE, &[(USDC, u64::MAX, 2)])),
        Err(ContributorError::MalformedSaleTerms)
    );
    let mut cut = init_message(SALE, &[(USDC, 2, 1000)]);
    cut.payload.pop();
    assert_eq!(registry.initialize_sale(cut), Err(ContributorError::MalformedSaleTerms));
    assert_eq!(registry, before);
}

#[test]
fn sale_is_opened_by_the_conductor_only() {
    let mut registry = SaleRegistry::new(trusting_custodian());
    let before = registry.clone();
    let mut foreign = init_message(SALE, &[(USDC, 2, 1000)]);
    foreign.emitter_chain = 4;
    assert_eq!(registry.initialize_sale(foreign), Err(ContributorError::UntrustedOrigin));
    let mut forged = init_message(SALE, &[(USDC, 2, 1000)]);
    forged.emitter_address = [0xc1; 32];
    assert_eq!(registry.initialize_sale(forged), Err(ContributorError::UntrustedOrigin));
    assert_eq!(
        registry.initialize_sale(closing_message(PAYLOAD_SALE_SEALED, SALE, 1)),
        Err(ContributorError::UnexpectedMessageType)
    );
    assert_eq!(
        registry.initialize_sale(from_conductor(1, vec![])),
        Err(ContributorError::UnexpectedMessageType)
    );
    assert_eq!(registry, before);
}

#[test]
fn contribution_needs_a_sale() {
    let mut registry = registry_with_usdc_sale();
    let before = registry.clone();
    assert_eq!(registry.contribute(&OTHER_SALE, &A, &USDC, 1), Err(ContributorError::UnknownSale));
    assert_eq!(registry.contribute(&SALE, &A, &WETH, 1), Err(ContributorError::UnsupportedAsset));
    assert_eq!(registry.contribute(&SALE, &A, &USDC, 0), Err(ContributorError::ZeroContribution));
    assert_eq!(registry, before);
}

#[test]
fn sales_are_kept_apart() {
    let mut registry = registry_with_usdc_sale();
    registry.initialize_sale(init_message(OTHER_SALE, &[(USDC, 7, 100)])).unwrap();
    registry.contribute(&SALE, &A, &USDC, 600).unwrap();
    let other = registry.ledger(&OTHER_SALE).unwrap().clone();
    registry.contribute(&SALE, &B, &USDC, 10).unwrap();
    registry.apply_seal(closing_message(PAYLOAD_SALE_SEALED, SALE, 5)).unwrap();
    assert_eq!(registry.ledger(&OTHER_SALE), Some(&other));
    assert_eq!(registry.contribute(&OTHER_SALE, &A, &USDC, 100), Ok(()));
    assert_eq!(registry.contribute(&SALE, &A, &USDC, 1), Err(ContributorError::SaleNotOpen));
    assert_eq!(registry.claim(&OTHER_SALE, &A), Err(ContributorError::SaleStillOpen));
    assert_eq!(
        registry.claim(&SALE, &A),
        Ok(SettlementInstruction::Allocation { recipient: A, asset: TOKEN, amount: 1200 })
    );
    registry.apply_abort(closing_message(PAYLOAD_SALE_ABORTED, OTHER_SALE, 6)).unwrap();
    assert_eq!(
        registry.claim(&OTHER_SALE, &A),
        Ok(SettlementInstruction::Refund {
            recipient: A,
            transfers: vec![Transfer { asset: USDC, amount: 100 }],
        })
    );
}

#[test]
fn attestation_reports_the_totals_of_the_moment() {
    let mut registry = registry_with_usdc_sale();
    registry.contribute(&SALE, &A, &USDC, 600).unwrap();
    let first = registry.report_attestation(&SALE).unwrap();
    assert_eq!(first.payload[0], PAYLOAD_ATTEST_CONTRIBUTIONS);
    assert_eq!(
        decode_attestation(&first.payload).unwrap().totals,
        vec![AssetTotal { asset: USDC, total: 600 }]
    );
    assert_eq!(registry.report_attestation(&SALE), Ok(first));
    registry.contribute(&SALE, &B, &USDC, 400).unwrap();
    let second = registry.report_attestation(&SALE).unwrap();
    assert_eq!(
        decode_attestation(&second.payload).unwrap().totals,
        vec![AssetTotal { asset: USDC, total: 1000 }]
    );
    assert_eq!(registry.report_attestation(&OTHER_SALE), Err(ContributorError::UnknownSale));
    registry.apply_seal(closing_message(PAYLOAD_SALE_SEALED, SALE, 2)).unwrap();
    assert_eq!(registry.report_attestation(&SALE), Err(ContributorError::SaleNotOpen));
}

#[test]
fn sealing_is_believed_from_the_conductor_only() {
    let mut registry = registry_with_usdc_sale();
    let before = registry.clone();
    let mut foreign = closing_message(PAYLOAD_SALE_SEALED, SALE, 2);
    foreign.emitter_chain = 1;
    assert_eq!(registry.apply_seal(foreign.clone()), Err(ContributorError::UntrustedOrigin));
    assert_eq!(registry.apply_abort(foreign), Err(ContributorError::UntrustedOrigin));
    assert_eq!(
        registry.apply_seal(closing_message(PAYLOAD_SALE_ABORTED, SALE, 2)),
        Err(ContributorError::UnexpectedMessageType)
    );
    assert_eq!(
        registry.apply_abort(closing_message(PAYLOAD_SALE_SEALED, SALE, 2)),
        Err(ContributorError::UnexpectedMessageType)
    );
    assert_eq!(
        registry.apply_seal(closing_message(PAYLOAD_SALE_SEALED, OTHER_SALE, 2)),
        Err(ContributorError::UnknownSale)
    );
    assert_eq!(
        registry.apply_abort(closing_message(PAYLOAD_SALE_ABORTED, OTHER_SALE, 2)),
        Err(ContributorError::UnknownSale)
    );
    assert_eq!(registry, before);
    assert_eq!(registry.ledger(&SALE).unwrap().sale().status(), SaleStatus::Open);
}

#[test]
fn seal_and_abort_exclude_each_other() {
    let mut sealed = registry_with_usdc_sale();
    assert_eq!(sealed.apply_seal(closing_message(PAYLOAD_SALE_SEALED, SALE, 2)), Ok(()));
    assert_eq!(sealed.ledger(&SALE).unwrap().sale().sealed_sequence(), Some(2));
    let before = sealed.clone();
    for sequence in [2, 3] {
        assert_eq!(
            sealed.apply_seal(closing_message(PAYLOAD_SALE_SEALED, SALE, sequence)),
            Err(ContributorError::DuplicateSealMessage)
        );
        assert_eq!(
            sealed.apply_abort(closing_message(PAYLOAD_SALE_ABORTED, SALE, sequence)),
            Err(ContributorError::DuplicateSealMessage)
        );
    }
    assert_eq!(sealed, before);
    let mut aborted = registry_with_usdc_sale();
    assert_eq!(aborted.apply_abort(closing_message(PAYLOAD_SALE_ABORTED, SALE, 2)), Ok(()));
    assert_eq!(aborted.ledger(&SALE).unwrap().sale().aborted_sequence(), Some(2));
    let before = aborted.clone();
    for sequence in [2, 3] {
        assert_eq!(
            aborted.apply_seal(closing_message(PAYLOAD_SALE_SEALED, SALE, sequence)),
            Err(ContributorError::DuplicateSealMessage)
        );
        assert_eq!(
            aborted.apply_abort(closing_message(PAYLOAD_SALE_ABORTED, SALE, sequence)),
            Err(ContributorError::DuplicateSealMessage)
        );
    }
    assert_eq!(aborted, before);
}

#[test]
fn claim_needs_sale_and_buyer() {
    let mut registry = registry_with_usdc_sale();
    registry.contribute(&SALE, &A, &USDC, 600).unwrap();
    let open = registry.clone();
    assert_eq!(registry.claim(&OTHER_SALE, &A), Err(ContributorError::UnknownSale));
    assert_eq!(registry.claim(&SALE, &B), Err(ContributorError::UnknownBuyer));
    assert_eq!(registry.claim(&SALE, &A), Err(ContributorError::SaleStillOpen));
    assert_eq!(registry, open);
}

#[test]
fn init_sale_opens_a_sale_for_the_caller() {
    let custodian = trusting_custodian();
    let sale = init_sale(&custodian, init_message(SALE, &[(USDC, 2, 1000)])).unwrap();
    assert_eq!(sale.id(), &SALE);
    assert_eq!(sale.status(), SaleStatus::Open);
    assert_eq!(sale.accepted(), &vec![AcceptedAsset { asset: USDC, conversion_rate: 2, cap: 1000 }]);
    let mut foreign = init_message(SALE, &[(USDC, 2, 1000)]);
    foreign.emitter_chain = 9;
    assert_eq!(init_sale(&custodian, foreign), Err(ContributorError::UntrustedOrigin));
    assert_eq!(
        init_sale(&custodian, closing_message(PAYLOAD_SALE_ABORTED, SALE, 1)),
        Err(ContributorError::UnexpectedMessageType)
    );
    assert_eq!(
        init_sale(&custodian, init_message(SALE, &[(USDC, 2, 1000), (USDC, 2, 1000)])),
        Err(ContributorError::MalformedSaleTerms)
    );
}

#[test]
fn sale_sealed_applies_to_the_named_sale_only() {
    let custodian = trusting_custodian();
    let mut sale = init_sale(&custodian, init_message(SALE, &[(USDC, 2, 1000)])).unwrap();
    let open = sale.clone();
    assert_eq!(
        sale_sealed(&custodian, &mut sale, closing_message(PAYLOAD_SALE_SEALED, OTHER_SALE, 3)),
        Err(ContributorError::SaleMismatch)
    );
    assert_eq!(
        sale_sealed(&custodian, &mut sale, closing_message(PAYLOAD_SALE_ABORTED, SALE, 3)),
        Err(ContributorError::UnexpectedMessageType)
    );
    let mut foreign = closing_message(PAYLOAD_SALE_SEALED, SALE, 3);
    foreign.emitter_address[5] = 0;
    assert_eq!(sale_sealed(&custodian, &mut sale, foreign), Err(ContributorError::UntrustedOrigin));
    assert_eq!(sale, open);
    assert_eq!(sale_sealed(&custodian, &mut sale, closing_message(PAYLOAD_SALE_SEALED, SALE, 3)), Ok(()));
    assert_eq!(sale.status(), SaleStatus::Sealed);
    assert_eq!(sale.sealed_sequence(), Some(3));
    let sealed = sale.clone();
    assert_eq!(
        sale_sealed(&custodian, &mut sale, closing_message(PAYLOAD_SALE_SEALED, SALE, 3)),
        Err(ContributorError::DuplicateSealMessage)
    );
    assert_eq!(
        sale_aborted(&custodian, &mut sale, closing_message(PAYLOAD_SALE_ABORTED, SALE, 4)),
        Err(ContributorError::DuplicateSealMessage)
    );
    assert_eq!(sale, sealed);
}

#[test]
fn sale_aborted_applies_to_the_named_sale_only() {
    let custodian = trusting_custodian();
    let mut sale = init_sale(&custodian, init_message(SALE, &[(USDC, 2, 1000)])).unwrap();
    let open = sale.clone();
    assert_eq!(
        sale_aborted(&custodian, &mut sale, closing_message(PAYLOAD_SALE_ABORTED, OTHER_SALE, 3)),
        Err(ContributorError::SaleMismatch)
    );
    assert_eq!(
        sale_aborted(&custodian, &mut sale, closing_message(PAYLOAD_SALE_SEALED, SALE, 3)),
        Err(ContributorError::UnexpectedMessageType)
    );
    assert_eq!(sale, open);
    assert_eq!(sale_aborted(&custodian, &mut sale, closing_message(PAYLOAD_SALE_ABORTED, SALE, 3)), Ok(()));
    assert_eq!(sale.status(), SaleStatus::Aborted);
    assert_eq!(sale.aborted_sequence(), Some(3));
    assert_eq!(
        sale_sealed(&custodian, &mut sale, closing_message(PAYLOAD_SALE_SEALED, SALE, 4)),
        Err(ContributorError::DuplicateSealMessage)
    );
}
