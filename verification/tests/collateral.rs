use collateral::collateral::{
    get_random_number, interest_due, oracle_query_key, random_in_range, BalanceUpdate, Collateral,
    CollateralError, LoanPayout,
};
use collateral::encoding::decimal_text;

const OWNER: [u8; 32] = [1u8; 32];
const USER: [u8; 32] = [2u8; 32];
const OTHER: [u8; 32] = [3u8; 32];
const APES: [u8; 20] = [0x11u8; 20];
const PUNKS: [u8; 20] = [0xabu8; 20];

fn contract() -> Collateral {
    let mut c = Collateral::new(OWNER, false, None, None);
    c.register_nft_collection(OWNER, APES, 1, 2, [0u8; 32]).unwrap();
    c
}

#[test]
fn new_uses_defaults() {
    let c = Collateral::new(OWNER, true, None, None);
    assert_eq!(c.interest_rate(), 15);
    assert_eq!(c.scoin_asset_id(), 4242);
    assert!(c.using_mock());
    assert_eq!(c.owner(), OWNER);
}

#[test]
fn new_takes_given_settings() {
    let c = Collateral::new(OWNER, false, Some(99), Some(20));
    assert_eq!(c.interest_rate(), 20);
    assert_eq!(c.scoin_asset_id(), 99);
    assert!(!c.using_mock());
}

#[test]
fn only_owner_registers_collections() {
    let mut c = Collateral::new(OWNER, false, None, None);
    assert!(matches!(c.register_nft_collection(USER, APES, 1, 2, [0u8; 32]), Err(CollateralError::CallerIsNotOwner)));
    assert!(matches!(c.registered_nft_collection(APES), Err(CollateralError::UnknownCollection)));
    assert!(matches!(c.register_nft_collection(OWNER, APES, 1, 2, [0u8; 32]), Ok(None)));
    assert_eq!(c.registered_nft_collection(APES).unwrap(), (1, 2));
    c.register_nft_collection(OWNER, APES, 3, 4, [0u8; 32]).unwrap();
    assert_eq!(c.registered_nft_collection(APES).unwrap(), (3, 4));
}

#[test]
fn deposit_raises_loan_limit() {
    let mut c = contract();
    c.deposit_nft(USER, APES, 7, 1000, 10).unwrap();
    assert_eq!(c.loan_status(USER).unwrap(), (2000, 0, 10));
    assert_eq!(c.my_loan_status(USER).unwrap(), (2000, 0, 10));
    let events = c.take_events();
    assert_eq!(events, vec![BalanceUpdate { account: USER, loan_limit: 2000, loan_open: 0 }]);
    assert!(c.take_events().is_empty());
}

#[test]
fn second_deposit_announces_update_then_new_limit() {
    let mut c = contract();
    c.deposit_nft(USER, APES, 7, 1000, 10).unwrap();
    c.take_events();
    c.deposit_nft(USER, APES, 8, 500, 11).unwrap();
    assert_eq!(c.loan_status(USER).unwrap(), (3000, 0, 11));
    let events = c.take_events();
    assert_eq!(
        events,
        vec![
            BalanceUpdate { account: USER, loan_limit: 2000, loan_open: 0 },
            BalanceUpdate { account: USER, loan_limit: 3000, loan_open: 0 },
        ]
    );
}

#[test]
fn deposit_of_unregistered_collection_is_refused() {
    let mut c = contract();
    assert!(matches!(c.deposit_nft(USER, PUNKS, 7, 1000, 10), Err(CollateralError::UnknownCollection)));
    assert!(matches!(c.loan_status(USER), Err(CollateralError::UnknownUser)));
}

#[test]
fn deposit_limit_saturates() {
    let mut c = contract();
    c.deposit_nft(USER, APES, 7, u128::MAX, 10).unwrap();
    assert_eq!(c.loan_status(USER).unwrap(), (u128::MAX, 0, 10));
}

#[test]
fn withdraw_of_unknown_collection_or_token_is_refused() {
    let mut c = contract();
    c.deposit_nft(USER, APES, 7, 1000, 10).unwrap();
    assert!(matches!(c.withdraw_nft(USER, PUNKS, 7, 11), Err(CollateralError::UnknownCollection)));
    assert!(matches!(c.withdraw_nft(USER, APES, 8, 11), Err(CollateralError::NotOwnerOfNft)));
    assert!(matches!(c.withdraw_nft(OTHER, APES, 7, 11), Err(CollateralError::NotOwnerOfNft)));
}

#[test]
fn deposit_then_withdraw_restores_limit() {
    let mut c = contract();
    c.deposit_nft(USER, APES, 7, 1000, 10).unwrap();
    let limit = c.withdraw_nft(USER, APES, 7, 10).unwrap();
    assert_eq!(limit, 0);
    c.complete_withdrawal(USER, APES, 7, limit, 10);
    assert_eq!(c.loan_status(USER).unwrap(), (0, 0, 10));
    assert!(matches!(c.withdraw_nft(USER, APES, 7, 11), Err(CollateralError::NotOwnerOfNft)));
}

#[test]
fn withdraw_refused_when_open_loan_too_large() {
    let mut c = contract();
    c.deposit_nft(USER, APES, 7, 1000, 10).unwrap();
    c.loans_insert(&USER, 2000, 1500, 12);
    assert!(matches!(c.withdraw_nft(USER, APES, 7, 12), Err(CollateralError::OpenLoanTooLarge)));
    assert_eq!(c.loan_status(USER).unwrap(), (2000, 1500, 12));
}

#[test]
fn withdraw_allowed_when_open_loan_covered() {
    let mut c = contract();
    c.deposit_nft(USER, APES, 7, 1000, 10).unwrap();
    c.deposit_nft(USER, APES, 8, 1000, 10).unwrap();
    c.loans_insert(&USER, 4000, 1500, 12);
    assert_eq!(c.withdraw_nft(USER, APES, 7, 12).unwrap(), 2000);
    c.complete_withdrawal(USER, APES, 7, 2000, 12);
    assert_eq!(c.loan_status(USER).unwrap(), (2000, 1500, 12));
}

#[test]
fn update_adds_interest_for_elapsed_blocks() {
    let mut c = contract();
    c.loans_insert(&USER, 0, 1_000_000, 10);
    assert_eq!(c.update_loan_status(USER, 20).unwrap(), (0, 1_000_150, 20));
    assert_eq!(c.loan_status(USER).unwrap(), (0, 1_000_150, 20));
}

#[test]
fn update_adds_nothing_without_elapsed_blocks() {
    let mut c = contract();
    c.loans_insert(&USER, 5, 1_000_000, 30);
    assert_eq!(c.update_loan_status(USER, 10).unwrap(), (5, 1_000_000, 10));
    assert_eq!(c.update_loan_status(USER, 10).unwrap(), (5, 1_000_000, 10));
}

#[test]
fn update_of_unknown_user_writes_nothing() {
    let mut c = contract();
    assert_eq!(c.update_loan_status(USER, 30).unwrap(), (0, 0, 30));
    assert!(matches!(c.loan_status(USER), Err(CollateralError::UnknownUser)));
    assert!(c.take_events().is_empty());
}

#[test]
fn interest_formula() {
    assert_eq!(interest_due(10, 20, 15, 1_000_000), 150);
    assert_eq!(interest_due(20, 10, 15, 1_000_000), 0);
    assert_eq!(interest_due(7, 7, 15, 1_000_000), 0);
    assert_eq!(interest_due(1, 2, 1, 999_999), 0);
    assert_eq!(interest_due(0, 100, 15, 2_000_000), 3_000);
    assert_eq!(interest_due(0, u32::MAX, u32::MAX, u128::MAX), u64::MAX / 1_000_000);
    // the open loan enters modulo 2^64
    assert_eq!(interest_due(0, 1, 1, (1u128 << 64) + 2_000_000), 2);
}

#[test]
fn repay_takes_amount_then_rest() {
    let mut c = contract();
    c.loans_insert(&USER, 100, 500, 5);
    assert_eq!(c.repay_loan(USER, Some(200), 5).unwrap(), 200);
    c.record_repayment(USER, 200);
    assert_eq!(c.loan_status(USER).unwrap(), (100, 300, 5));
    assert_eq!(c.repay_loan(USER, Some(1000), 5).unwrap(), 300);
    assert_eq!(c.repay_loan(USER, None, 5).unwrap(), 300);
    c.record_repayment(USER, 300);
    assert_eq!(c.loan_status(USER).unwrap(), (100, 0, 5));
    assert!(matches!(c.repay_loan(USER, None, 5), Err(CollateralError::AmountCannotBeZero)));
}

#[test]
fn repay_by_unknown_user_is_refused() {
    let mut c = contract();
    assert!(matches!(c.repay_loan(USER, Some(10), 5), Err(CollateralError::AmountCannotBeZero)));
}

#[test]
fn oracle_key_is_lowercase_hex() {
    assert_eq!(oracle_query_key(&APES), format!("nft/0x{}", "11".repeat(20)));
    assert_eq!(oracle_query_key(&PUNKS), format!("nft/0x{}", "ab".repeat(20)));
    let mut mixed = [0u8; 20];
    mixed[0] = 0x0f;
    mixed[19] = 0xf0;
    let key = oracle_query_key(&mixed);
    assert_eq!(key.len(), 46);
    assert!(key.starts_with("nft/0x0f00"));
    assert!(key.ends_with("00f0"));
}

#[test]
fn test_query_oracle_reports_key_and_value() {
    let c = contract();
    match c.test_query_oracle(APES, String::from("1500000")) {
        Err(CollateralError::Custom(m)) => assert_eq!(m, format!("nft/0x{} : 1500000", "11".repeat(20))),
        other => panic!("unexpected {:?}", other),
    }
}

#[test]
fn random_number_scaling() {
    assert_eq!(random_in_range(u64::MAX, 5, 9), 9);
    assert_eq!(random_in_range(123, 5, 9), 5);
    assert_eq!(random_in_range(0, 7, 7), 7);
    assert_eq!(get_random_number([0u8; 32], 1_000_000, 2_000_000), 1_000_000);
}

#[test]
fn mock_populate_oracle_gives_key_and_price() {
    let c = Collateral::new(OWNER, true, None, None);
    let entry = c.mock_populate_oracle(PUNKS, [9u8; 32]);
    assert_eq!(entry.key, format!("nft/0x{}", "ab".repeat(20)));
    assert_eq!(entry.value, "1000000");
}

#[test]
fn mock_registration_answers_oracle_entry() {
    let mut c = Collateral::new(OWNER, true, None, None);
    match c.register_nft_collection(OWNER, PUNKS, 1, 2, [3u8; 32]) {
        Ok(Some(entry)) => {
            assert_eq!(entry.key, format!("nft/0x{}", "ab".repeat(20)));
            assert_eq!(entry.value, "1000000");
        }
        other => panic!("unexpected {:?}", other.map(|e| e.map(|w| w.key))),
    }
    assert_eq!(c.registered_nft_collection(PUNKS).unwrap(), (1, 2));
    assert!(matches!(c.register_nft_collection(USER, APES, 1, 2, [3u8; 32]), Err(CollateralError::CallerIsNotOwner)));
}

#[test]
fn decimal_text_renders_numbers() {
    assert_eq!(decimal_text(0), "0");
    assert_eq!(decimal_text(9), "9");
    assert_eq!(decimal_text(10), "10");
    assert_eq!(decimal_text(1_234_567_890), "1234567890");
    assert_eq!(decimal_text(u64::MAX), u64::MAX.to_string());
}

#[test]
fn error_messages() {
    assert_eq!(CollateralError::UnknownCollection.message(), "Unknown Collection");
    assert_eq!(CollateralError::TransferFailed.message(), "transfer failed");
    assert_eq!(CollateralError::FloorPriceRetrievalFailed.message(), "floor price retrieval failed");
    assert_eq!(CollateralError::NotOwnerOfNft.message(), "Not owner of NFT.");
    assert_eq!(
        CollateralError::OpenLoanTooLarge.message(),
        "open loan is too large to allow withdrawal of nft"
    );
    assert_eq!(CollateralError::ApproveFailed.message(), "approve failed");
    assert_eq!(CollateralError::AmountCannotBeZero.message(), "Amount cannot be 0");
    assert_eq!(CollateralError::UnknownUser.message(), "Unknown User");
    assert_eq!(CollateralError::InsufficientLoanBalance.message(), "Insufficient loan balance");
    assert_eq!(CollateralError::Custom(String::from("x")).message(), "x");
}

#[test]
fn take_loan_within_limit_is_recorded() {
    let mut c = Collateral::new(OWNER, false, Some(77), None);
    c.register_nft_collection(OWNER, APES, 1, 2, [0u8; 32]).unwrap();
    c.deposit_nft(USER, APES, 7, 1000, 10).unwrap();
    let p = c.take_loan(USER, 500, 10).unwrap();
    assert_eq!(p, LoanPayout { asset_id: 77, to: USER, amount: 500 });
    c.record_loan(USER, 500, 10);
    assert_eq!(c.loan_status(USER).unwrap(), (2000, 500, 10));
    assert!(matches!(c.take_loan(USER, 1501, 10), Err(CollateralError::InsufficientLoanBalance)));
    assert_eq!(c.loan_status(USER).unwrap(), (2000, 500, 10));
    let p = c.take_loan(USER, 1500, 10).unwrap();
    c.record_loan(USER, p.amount, 10);
    assert_eq!(c.loan_status(USER).unwrap(), (2000, 2000, 10));
}

#[test]
fn take_loan_without_limit_is_refused() {
    let mut c = contract();
    assert!(matches!(c.take_loan(OTHER, 1, 5), Err(CollateralError::InsufficientLoanBalance)));
    assert!(matches!(c.loan_status(OTHER), Err(CollateralError::UnknownUser)));
    assert!(c.take_loan(OTHER, 0, 5).is_ok());
}

#[test]
fn take_loan_counts_accrued_interest() {
    let mut c = contract();
    c.loans_insert(&USER, 1_000_150, 1_000_000, 10);
    // 10 blocks at 15 per million raise the open loan to 1_000_150
    assert!(matches!(c.take_loan(USER, 1, 20), Err(CollateralError::InsufficientLoanBalance)));
    assert_eq!(c.loan_status(USER).unwrap(), (1_000_150, 1_000_150, 20));
}

#[test]
fn record_loan_emits_no_event() {
    let mut c = contract();
    c.deposit_nft(USER, APES, 7, 1000, 10).unwrap();
    c.take_events();
    let p = c.take_loan(USER, 300, 10).unwrap();
    assert_eq!(
        c.take_events(),
        vec![BalanceUpdate { account: USER, loan_limit: 2000, loan_open: 0 }]
    );
    c.record_loan(USER, p.amount, 10);
    assert!(c.take_events().is_empty());
    assert_eq!(c.loan_status(USER).unwrap(), (2000, 300, 10));
}
