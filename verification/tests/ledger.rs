use icco_contributor::error::ContributorError;
use icco_contributor::ledger::SaleLedger;
use icco_contributor::message::{decode_attestation, AssetTotal, SaleInit};
use icco_contributor::model::SaleStatus;
use icco_contributor::sale::AcceptedAsset;
use icco_contributor::settlement::{SettlementInstruction, Transfer};

const SALE: [u8; 32] = [0x5a; 32];
const TOKEN: [u8; 32] = [0x70; 32];
const USDC: [u8; 32] = [0x0c; 32];
const WETH: [u8; 32] = [0x0e; 32];
const DAI: [u8; 32] = [0x0d; 32];
const ALICE: [u8; 32] = [0xa1; 32];
const BOB: [u8; 32] = [0xb0; 32];
const CAROL: [u8; 32] = [0xca; 32];

fn open_books() -> SaleLedger {
    SaleLedger::initialize(SaleInit {
        sale_id: SALE,
        sale_token: TOKEN,
        accepted: vec![
            AcceptedAsset { asset: USDC, conversion_rate: 2, cap: 1000 },
            AcceptedAsset { asset: WETH, conversion_rate: 3000, cap: 50 },
        ],
    })
    .unwrap()
}

fn sum_of_records(books: &SaleLedger, owners: &[[u8; 32]], asset: usize) -> u64 {
    owners
        .iter()
        .filter_map(|owner| books.buyer(owner))
        .map(|record| record.contributions()[asset])
        .sum()
}

fn allocation_in(instruction: SettlementInstruction) -> u64 {
    match instruction {
        SettlementInstruction::Allocation { amount, .. } => amount,
        other => panic!("no allocation: {:?}", other),
    }
}

#[test]
fn books_open_without_buyers() {
    let books = open_books();
    assert_eq!(books.buyer_count(), 0);
    assert_eq!(books.sale().totals(), &vec![0u64, 0]);
    assert_eq!(books.sale().status(), SaleStatus::Open);
    assert_eq!(books.buyer(&ALICE), None);
    assert_eq!(books.buyer_index(&ALICE), None);
}

#[test]
fn books_refuse_malformed_terms() {
    let twice = SaleInit {
        sale_id: SALE,
        sale_token: TOKEN,
        accepted: vec![
            AcceptedAsset { asset: USDC, conversion_rate: 2, cap: 1000 },
            AcceptedAsset { asset: USDC, conversion_rate: 2, cap: 1000 },
        ],
    };
    assert_eq!(SaleLedger::initialize(twice), Err(ContributorError::MalformedSaleTerms));
}

#[test]
fn first_contribution_creates_the_record() {
    let mut books = open_books();
    assert_eq!(books.contribute(&ALICE, &WETH, 5), Ok(()));
    assert_eq!(books.buyer_count(), 1);
    let record = books.buyer(&ALICE).unwrap();
    assert_eq!(record.owner(), &ALICE);
    assert_eq!(record.sale_id(), &SALE);
    assert_eq!(record.contributions(), &vec![0u64, 5]);
    assert!(!record.claimed());
    assert_eq!(books.contribute(&ALICE, &USDC, 6), Ok(()));
    assert_eq!(books.buyer_count(), 1);
    assert_eq!(books.buyer(&ALICE).unwrap().contributions(), &vec![6u64, 5]);
}

#[test]
fn rejected_first_contribution_creates_no_record() {
    let mut books = open_books();
    let before = books.clone();
    assert_eq!(books.contribute(&ALICE, &USDC, 1001), Err(ContributorError::ContributionCapExceeded));
    assert_eq!(books.contribute(&ALICE, &USDC, 0), Err(ContributorError::ZeroContribution));
    assert_eq!(books.contribute(&ALICE, &DAI, 1), Err(ContributorError::UnsupportedAsset));
    assert_eq!(books, before);
    assert_eq!(books.buyer_count(), 0);
}

#[test]
fn records_add_up_to_the_totals() {
    let mut books = open_books();
    let owners = [ALICE, BOB, CAROL];
    let offers: [([u8; 32], [u8; 32], u64); 12] = [
        (ALICE, USDC, 100),
        (BOB, USDC, 250),
        (ALICE, WETH, 10),
        (CAROL, DAI, 5),
        (CAROL, USDC, 0),
        (BOB, WETH, 41),
        (BOB, WETH, 40),
        (CAROL, USDC, 650),
        (ALICE, USDC, 1),
        (CAROL, USDC, 50),
        (ALICE, USDC, 100),
        (BOB, USDC, 1),
    ];
    for (owner, asset, amount) in offers {
        let _ = books.contribute(&owner, &asset, amount);
        for asset in 0..2 {
            assert_eq!(sum_of_records(&books, &owners, asset), books.sale().totals()[asset]);
        }
    }
    assert_eq!(books.sale().totals(), &vec![1000u64, 50]);
    assert_eq!(books.buyer(&ALICE).unwrap().contributions(), &vec![100u64, 10]);
    assert_eq!(books.buyer(&BOB).unwrap().contributions(), &vec![250u64, 40]);
    assert_eq!(books.buyer(&CAROL).unwrap().contributions(), &vec![650u64, 0]);
}

#[test]
fn contribution_over_the_cap_changes_nothing() {
    let mut books = open_books();
    books.contribute(&ALICE, &USDC, 600).unwrap();
    books.contribute(&BOB, &USDC, 1).unwrap();
    let before = books.clone();
    assert_eq!(books.contribute(&BOB, &USDC, 400), Err(ContributorError::ContributionCapExceeded));
    assert_eq!(books, before);
    assert_eq!(books.sale().totals()[0], 601);
    assert_eq!(books.buyer(&BOB).unwrap().contributions(), &vec![1u64, 0]);
}

#[test]
fn closing_the_books_touches_no_record() {
    let mut books = open_books();
    books.contribute(&ALICE, &USDC, 600).unwrap();
    let record = books.buyer(&ALICE).unwrap().clone();
    assert_eq!(books.seal(4), Ok(()));
    assert_eq!(books.sale().status(), SaleStatus::Sealed);
    assert_eq!(books.sale().sealed_sequence(), Some(4));
    assert_eq!(books.buyer(&ALICE), Some(&record));
    let sealed = books.clone();
    assert_eq!(books.abort(5), Err(ContributorError::DuplicateSealMessage));
    assert_eq!(books.seal(5), Err(ContributorError::DuplicateSealMessage));
    assert_eq!(books, sealed);
    assert_eq!(books.contribute(&ALICE, &USDC, 1), Err(ContributorError::SaleNotOpen));
    assert_eq!(books, sealed);
}

#[test]
fn aborted_books_are_not_sealed() {
    let mut books = open_books();
    assert_eq!(books.abort(4), Ok(()));
    assert_eq!(books.sale().status(), SaleStatus::Aborted);
    let aborted = books.clone();
    assert_eq!(books.seal(4), Err(ContributorError::DuplicateSealMessage));
    assert_eq!(books.seal(9), Err(ContributorError::DuplicateSealMessage));
    assert_eq!(books, aborted);
}

#[test]
fn claim_settles_one_buyer_only() {
    let mut books = open_books();
    books.contribute(&ALICE, &USDC, 600).unwrap();
    books.contribute(&BOB, &USDC, 400).unwrap();
    books.contribute(&BOB, &WETH, 2).unwrap();
    books.seal(4).unwrap();
    let bob = books.buyer(&BOB).unwrap().clone();
    let totals = books.sale().totals().clone();
    assert_eq!(books.check_claim(&ALICE), Ok(0));
    assert_eq!(
        books.claim(&ALICE),
        Ok(SettlementInstruction::Allocation { recipient: ALICE, asset: TOKEN, amount: 1200 })
    );
    assert!(books.buyer(&ALICE).unwrap().claimed());
    assert_eq!(books.buyer(&ALICE).unwrap().contributions(), &vec![600u64, 0]);
    assert_eq!(books.buyer(&BOB), Some(&bob));
    assert_eq!(books.sale().totals(), &totals);
    assert_eq!(
        books.claim(&BOB),
        Ok(SettlementInstruction::Allocation { recipient: BOB, asset: TOKEN, amount: 800 + 6000 })
    );
}

#[test]
fn second_claim_is_refused() {
    let mut books = open_books();
    books.contribute(&ALICE, &USDC, 600).unwrap();
    books.abort(4).unwrap();
    assert!(books.claim(&ALICE).is_ok());
    let claimed = books.clone();
    assert_eq!(books.check_claim(&ALICE), Err(ContributorError::AlreadyClaimed));
    assert_eq!(books.claim(&ALICE), Err(ContributorError::AlreadyClaimed));
    assert_eq!(books, claimed);
}

#[test]
fn claim_needs_a_record_and_a_closed_sale() {
    let mut books = open_books();
    books.contribute(&ALICE, &USDC, 600).unwrap();
    let open = books.clone();
    assert_eq!(books.claim(&ALICE), Err(ContributorError::SaleStillOpen));
    assert_eq!(books.claim(&BOB), Err(ContributorError::UnknownBuyer));
    assert_eq!(books, open);
    books.seal(4).unwrap();
    assert_eq!(books.claim(&BOB), Err(ContributorError::UnknownBuyer));
}

#[test]
fn refunds_return_what_was_recorded() {
    let mut books = open_books();
    books.contribute(&ALICE, &USDC, 600).unwrap();
    books.contribute(&BOB, &WETH, 9).unwrap();
    books.contribute(&ALICE, &WETH, 1).unwrap();
    books.abort(4).unwrap();
    assert_eq!(
        books.claim(&BOB),
        Ok(SettlementInstruction::Refund {
            recipient: BOB,
            transfers: vec![Transfer { asset: USDC, amount: 0 }, Transfer { asset: WETH, amount: 9 }],
        })
    );
    assert_eq!(
        books.claim(&ALICE),
        Ok(SettlementInstruction::Refund {
            recipient: ALICE,
            transfers: vec![Transfer { asset: USDC, amount: 600 }, Transfer { asset: WETH, amount: 1 }],
        })
    );
}

#[test]
fn allocations_add_up_to_what_the_totals_buy() {
    let mut books = open_books();
    books.contribute(&ALICE, &USDC, 333).unwrap();
    books.contribute(&BOB, &USDC, 334).unwrap();
    books.contribute(&CAROL, &USDC, 333).unwrap();
    books.contribute(&ALICE, &WETH, 17).unwrap();
    books.contribute(&CAROL, &WETH, 30).unwrap();
    books.seal(4).unwrap();
    let supply = 1000 * 2 + 47 * 3000;
    let mut allocated = 0u64;
    for owner in [ALICE, BOB, CAROL] {
        allocated += allocation_in(books.claim(&owner).unwrap());
    }
    assert_eq!(allocated, supply);
    assert!(allocated <= 1000 * 2 + 50 * 3000);
}

#[test]
fn books_attest_their_totals() {
    let mut books = open_books();
    books.contribute(&ALICE, &USDC, 600).unwrap();
    books.contribute(&BOB, &WETH, 9).unwrap();
    let message = books.attest().unwrap();
    let read = decode_attestation(&message.payload).unwrap();
    assert_eq!(read.sale_id, SALE);
    assert_eq!(
        read.totals,
        vec![AssetTotal { asset: USDC, total: 600 }, AssetTotal { asset: WETH, total: 9 }]
    );
    books.seal(1).unwrap();
    assert_eq!(books.attest(), Err(ContributorError::SaleNotOpen));
}
