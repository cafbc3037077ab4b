use icco_contributor::attestation::build_attestation;
use icco_contributor::bytes::{push_be, push_bytes, read_bytes32, read_u64_be, same_bytes};
use icco_contributor::error::ContributorError;
use icco_contributor::message::{
    decode_attestation, decode_message, decode_sale_init, AssetTotal, Attestation,
    DecodedMessage, SaleInit, PAYLOAD_ATTEST_CONTRIBUTIONS, PAYLOAD_SALE_ABORTED,
    PAYLOAD_SALE_INIT, PAYLOAD_SALE_SEALED,
};
use icco_contributor::buyer::Buyer;
use icco_contributor::sale::{AcceptedAsset, Sale};

const SALE: [u8; 32] = [0x5a; 32];
const TOKEN: [u8; 32] = [0x70; 32];
const USDC: [u8; 32] = [0x0c; 32];
const WETH: [u8; 32] = [0x0e; 32];

fn init_payload_of(sale_id: [u8; 32], token: [u8; 32], assets: &[([u8; 32], u64, u64)]) -> Vec<u8> {
    let mut payload = vec![PAYLOAD_SALE_INIT];
    payload.extend_from_slice(&sale_id);
    payload.extend_from_slice(&token);
    payload.push(assets.len() as u8);
    for (asset, rate, cap) in assets {
        payload.extend_from_slice(asset);
        payload.extend_from_slice(&rate.to_be_bytes());
        payload.extend_from_slice(&cap.to_be_bytes());
    }
    payload
}

fn two_asset_sale() -> Sale {
    Sale::initialize(SaleInit {
        sale_id: SALE,
        sale_token: TOKEN,
        accepted: vec![
            AcceptedAsset { asset: USDC, conversion_rate: 2, cap: 1000 },
            AcceptedAsset { asset: WETH, conversion_rate: 3000, cap: 0x0102_0304_0506 },
        ],
    })
    .unwrap()
}

#[test]
fn bytes_are_compared_whole() {
    let a = [3u8; 32];
    let mut b = a;
    assert!(same_bytes(&a, &b));
    b[31] = 4;
    assert!(!same_bytes(&a, &b));
    b = a;
    b[0] = 4;
    assert!(!same_bytes(&a, &b));
}

#[test]
fn big_endian_integers_are_read() {
    let bytes = [0xaa, 0x01, 0x02, 0x03, 0x04, 0x05, 0x06, 0x07, 0x08, 0xbb];
    assert_eq!(read_u64_be(&bytes, 1), 0x0102_0304_0506_0708);
    assert_eq!(read_u64_be(&[0xff; 8], 0), u64::MAX);
    assert_eq!(read_u64_be(&[0, 0, 0, 0, 0, 0, 1, 0], 0), 256);
}

#[test]
fn big_endian_integers_are_written() {
    let mut out = vec![0xaa];
    push_be(&mut out, 0x0102_0304_0506_0708, 8);
    assert_eq!(out, vec![0xaa, 1, 2, 3, 4, 5, 6, 7, 8]);
    let mut out = Vec::new();
    push_be(&mut out, 0x1234_5678, 2);
    assert_eq!(out, vec![0x56, 0x78]);
    let mut out = Vec::new();
    push_be(&mut out, u128::MAX - 1, 16);
    assert_eq!(out, (u128::MAX - 1).to_be_bytes().to_vec());
    let mut out = vec![1];
    push_be(&mut out, 77, 0);
    assert_eq!(out, vec![1]);
}

#[test]
fn written_integers_read_back() {
    for value in [0u64, 1, 255, 256, 600, 0x0102_0304_0506_0708, u64::MAX] {
        let mut out = Vec::new();
        push_be(&mut out, value as u128, 8);
        assert_eq!(out, value.to_be_bytes().to_vec());
        assert_eq!(read_u64_be(&out, 0), value);
    }
}

#[test]
fn bytes_are_read_and_appended() {
    let mut bytes = vec![9u8; 3];
    let id: Vec<u8> = (0..32).collect();
    push_bytes(&mut bytes, &id);
    assert_eq!(bytes.len(), 35);
    assert_eq!(read_bytes32(&bytes, 3).to_vec(), id);
}

#[test]
fn sale_init_is_decoded() {
    let payload = init_payload_of(SALE, TOKEN, &[(USDC, 2, 1000), (WETH, 3000, 5)]);
    assert_eq!(payload.len(), 66 + 2 * 48);
    let expected = SaleInit {
        sale_id: SALE,
        sale_token: TOKEN,
        accepted: vec![
            AcceptedAsset { asset: USDC, conversion_rate: 2, cap: 1000 },
            AcceptedAsset { asset: WETH, conversion_rate: 3000, cap: 5 },
        ],
    };
    assert_eq!(decode_sale_init(&payload), Some(expected.clone()));
    assert_eq!(decode_message(&payload), Ok(DecodedMessage::SaleInit(expected)));
}

#[test]
fn sale_init_without_assets_is_decoded() {
    let payload = init_payload_of(SALE, TOKEN, &[]);
    assert_eq!(
        decode_sale_init(&payload),
        Some(SaleInit { sale_id: SALE, sale_token: TOKEN, accepted: vec![] })
    );
}

#[test]
fn sale_init_of_the_wrong_length_is_malformed() {
    let payload = init_payload_of(SALE, TOKEN, &[(USDC, 2, 1000)]);
    let mut short = payload.clone();
    short.pop();
    let mut long = payload.clone();
    long.push(0);
    let mut miscounted = payload.clone();
    miscounted[65] = 2;
    for bad in [short, long, miscounted, payload[..65].to_vec(), vec![PAYLOAD_SALE_INIT]] {
        assert_eq!(decode_sale_init(&bad), None);
        assert_eq!(decode_message(&bad), Err(ContributorError::MalformedSaleTerms));
    }
}

#[test]
fn sealing_and_abort_are_decoded() {
    let mut payload = vec![PAYLOAD_SALE_SEALED];
    payload.extend_from_slice(&SALE);
    assert_eq!(decode_message(&payload), Ok(DecodedMessage::SaleSealed { sale_id: SALE }));
    payload[0] = PAYLOAD_SALE_ABORTED;
    payload.extend_from_slice(&[1, 2, 3]);
    assert_eq!(decode_message(&payload), Ok(DecodedMessage::SaleAborted { sale_id: SALE }));
}

#[test]
fn payloads_of_no_kind_are_unexpected() {
    assert_eq!(decode_message(&[]), Err(ContributorError::UnexpectedMessageType));
    assert_eq!(decode_message(&[0; 40]), Err(ContributorError::UnexpectedMessageType));
    assert_eq!(decode_message(&[5; 40]), Err(ContributorError::UnexpectedMessageType));
    assert_eq!(
        decode_message(&[PAYLOAD_SALE_SEALED; 32]),
        Err(ContributorError::UnexpectedMessageType)
    );
    assert_eq!(
        decode_message(&[PAYLOAD_SALE_ABORTED]),
        Err(ContributorError::UnexpectedMessageType)
    );
    assert_eq!(
        decode_message(&[PAYLOAD_ATTEST_CONTRIBUTIONS; 35]),
        Err(ContributorError::UnexpectedMessageType)
    );
}

#[test]
fn attestation_lists_each_asset_with_its_total() {
    let mut sale = two_asset_sale();
    let mut buyer = Buyer::new(SALE, [1u8; 32], 2);
    sale.record_contribution(&mut buyer, &USDC, 600).unwrap();
    sale.record_contribution(&mut buyer, &WETH, 0x0102_0304_0506).unwrap();
    let mut expected = vec![PAYLOAD_ATTEST_CONTRIBUTIONS];
    expected.extend_from_slice(&SALE);
    expected.push(2);
    expected.extend_from_slice(&USDC);
    expected.extend_from_slice(&[0, 0, 0, 0, 0, 0, 0x02, 0x58]);
    expected.extend_from_slice(&WETH);
    expected.extend_from_slice(&[0, 0, 1, 2, 3, 4, 5, 6]);
    assert_eq!(build_attestation(&sale).unwrap().payload, expected);
}

#[test]
fn attestation_is_a_snapshot_that_changes_nothing() {
    let mut sale = two_asset_sale();
    let mut buyer = Buyer::new(SALE, [1u8; 32], 2);
    let empty = build_attestation(&sale).unwrap();
    assert_eq!(build_attestation(&sale).unwrap(), empty);
    let before = sale.clone();
    let _ = build_attestation(&sale).unwrap();
    assert_eq!(sale, before);
    sale.record_contribution(&mut buyer, &USDC, 1).unwrap();
    let later = build_attestation(&sale).unwrap();
    assert_ne!(later, empty);
    assert_eq!(build_attestation(&sale).unwrap(), later);
}

#[test]
fn attestation_reads_back() {
    let mut sale = two_asset_sale();
    let mut buyer = Buyer::new(SALE, [1u8; 32], 2);
    sale.record_contribution(&mut buyer, &USDC, 999).unwrap();
    sale.record_contribution(&mut buyer, &WETH, 12345).unwrap();
    let payload = build_attestation(&sale).unwrap().payload;
    let expected = Attestation {
        sale_id: SALE,
        totals: vec![
            AssetTotal { asset: USDC, total: 999 },
            AssetTotal { asset: WETH, total: 12345 },
        ],
    };
    assert_eq!(decode_attestation(&payload), Some(expected.clone()));
    assert_eq!(decode_message(&payload), Ok(DecodedMessage::Attestation(expected)));
}

#[test]
fn attestation_of_the_wrong_length_is_refused() {
    let sale = two_asset_sale();
    let mut payload = build_attestation(&sale).unwrap().payload;
    payload.push(0);
    assert_eq!(decode_attestation(&payload), None);
    assert_eq!(decode_attestation(&payload[..33]), None);
}

#[test]
fn attestation_needs_an_open_sale() {
    let mut sealed = two_asset_sale();
    sealed.seal(1).unwrap();
    assert_eq!(build_attestation(&sealed), Err(ContributorError::SaleNotOpen));
    let mut aborted = two_asset_sale();
    aborted.abort(1).unwrap();
    assert_eq!(build_attestation(&aborted), Err(ContributorError::SaleNotOpen));
}
