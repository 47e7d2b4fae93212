use pump_curve::account::{check_balance, native_sync_amount, Address, TokenAccountState};
use pump_curve::error::PumpFunError;

fn native() -> [u8; 32] {
    [
        6, 155, 136, 87, 254, 171, 129, 132, 251, 104, 127, 99, 70, 24, 192, 53, 218, 196, 57, 220, 26,
        235, 59, 85, 152, 160, 240, 0, 0, 0, 0, 1,
    ]
}

#[test]
fn native_mint_is_recognised() {
    assert!(Address { bytes: native() }.is_native_mint());
    assert_eq!(Address::native_mint().bytes, native());
    let mut other = native();
    other[31] = 2;
    assert!(!Address { bytes: other }.is_native_mint());
    assert!(!Address { bytes: [0u8; 32] }.is_native_mint());
}

#[test]
fn balance_of_token_account() {
    let ata = TokenAccountState { mint: Address { bytes: [9u8; 32] }, amount: 500 };
    assert!(check_balance(&ata, 500));
    assert!(check_balance(&ata, 0));
    assert!(!check_balance(&ata, 501));
}

#[test]
fn native_account_always_suffices() {
    let ata = TokenAccountState { mint: Address { bytes: native() }, amount: 0 };
    assert!(check_balance(&ata, u64::MAX));
}

#[test]
fn sync_amount_is_the_shortfall() {
    assert_eq!(native_sync_amount(100, 250, 1_000), Ok(150));
    assert_eq!(native_sync_amount(100, 250, 150), Ok(150));
    assert_eq!(native_sync_amount(300, 250, 0), Ok(0));
    assert_eq!(native_sync_amount(250, 250, 0), Ok(0));
}

#[test]
fn sync_amount_needs_native_funds() {
    assert_eq!(native_sync_amount(100, 250, 149), Err(PumpFunError::InsufficientFund));
}
