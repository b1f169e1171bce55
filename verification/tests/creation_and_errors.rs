use farm_tokenization::address::Address;
use farm_tokenization::buy_shares::{buy_shares, BuyShares};
use farm_tokenization::errors::ErrorCode;
use farm_tokenization::initialize_farm::{initialize_farm, InitializeFarm};
use farm_tokenization::ledger::AssetLedger;
use farm_tokenization::registry::Registry;

const ISSUER: u64 = 1;
const OWNER: u64 = 10;
const INVESTOR: u64 = 20;

fn payment_mint() -> Address {
    Address::Key { id: 100 }
}

fn farm_addr() -> Address {
    Address::FarmRecord { owner: OWNER }
}

fn share_mint() -> Address {
    Address::ShareMint { owner: OWNER }
}

fn payer_ata() -> Address {
    Address::Key { id: 200 }
}

fn share_ata() -> Address {
    Address::Key { id: 201 }
}

fn setup(total_shares: u64, funding: u64) -> (Registry, AssetLedger) {
    let mut reg = Registry::new();
    let mut led = AssetLedger::new();
    led.create_mint(payment_mint(), Address::Key { id: ISSUER }).unwrap();
    let accounts = InitializeFarm { owner: OWNER, payment_mint: payment_mint() };
    initialize_farm(&mut reg, &mut led, accounts, total_shares, 5).unwrap();
    led.create_account(payer_ata(), payment_mint(), Address::Key { id: INVESTOR }).unwrap();
    if funding > 0 {
        led.mint_to(payment_mint(), payer_ata(), Address::Key { id: ISSUER }, funding).unwrap();
    }
    led.create_account(share_ata(), share_mint(), Address::Key { id: INVESTOR }).unwrap();
    (reg, led)
}

fn ctx() -> BuyShares {
    BuyShares {
        farm: farm_addr(),
        payer: INVESTOR,
        payer_ata: payer_ata(),
        investor_farm_token_ata: share_ata(),
    }
}

fn bal(led: &AssetLedger, a: Address) -> u64 {
    led.balance(a).unwrap()
}

#[test]
fn repeated_initialize_is_idempotent() {
    let (mut reg, mut led) = setup(1000, 0);
    let accounts = InitializeFarm { owner: OWNER, payment_mint: payment_mint() };
    // a repeat, even with a different configuration, changes nothing
    initialize_farm(&mut reg, &mut led, accounts, 9999, 77).unwrap();
    assert_eq!(reg.farms.len(), 1);
    assert_eq!(reg.farms[0].total_shares, 1000);
    assert_eq!(reg.farms[0].price_per_share, 5);
    assert_eq!(reg.farms[0].minted_shares, 0);
}

#[test]
fn initialize_rejects_zero_supply() {
    let mut reg = Registry::new();
    let mut led = AssetLedger::new();
    led.create_mint(payment_mint(), Address::Key { id: ISSUER }).unwrap();
    let accounts = InitializeFarm { owner: OWNER, payment_mint: payment_mint() };
    let denied = initialize_farm(&mut reg, &mut led, accounts, 0, 5);
    assert_eq!(denied, Err(ErrorCode::InvalidConfiguration));
    assert_eq!(reg.farms.len(), 0);
    assert_eq!(led.mints.len(), 1);
    assert_eq!(led.accounts.len(), 0);
}

#[test]
fn initialize_rejects_derived_payment_asset() {
    let mut reg = Registry::new();
    let mut led = AssetLedger::new();
    let accounts = InitializeFarm {
        owner: OWNER,
        payment_mint: Address::ShareMint { owner: 99 },
    };
    let denied = initialize_farm(&mut reg, &mut led, accounts, 1000, 5);
    assert_eq!(denied, Err(ErrorCode::InvalidConfiguration));
    assert_eq!(reg.farms.len(), 0);
}

#[test]
fn initialize_requires_existing_payment_asset() {
    let mut reg = Registry::new();
    let mut led = AssetLedger::new();
    let accounts = InitializeFarm { owner: OWNER, payment_mint: payment_mint() };
    let denied = initialize_farm(&mut reg, &mut led, accounts, 1000, 5);
    assert_eq!(denied, Err(ErrorCode::AccountNotFound));
    assert_eq!(reg.farms.len(), 0);
}

#[test]
fn initialize_rejects_squatted_derived_address() {
    let mut reg = Registry::new();
    let mut led = AssetLedger::new();
    led.create_mint(payment_mint(), Address::Key { id: ISSUER }).unwrap();
    // something already sits where the farm's share mint would go
    led.create_mint(share_mint(), Address::Key { id: 99 }).unwrap();
    let accounts = InitializeFarm { owner: OWNER, payment_mint: payment_mint() };
    let denied = initialize_farm(&mut reg, &mut led, accounts, 1000, 5);
    assert_eq!(denied, Err(ErrorCode::AccountInUse));
    assert_eq!(reg.farms.len(), 0);
    assert_eq!(led.accounts.len(), 0);
}

#[test]
fn zero_amount_rejected_and_state_unchanged() {
    let (mut reg, mut led) = setup(1000, 10_000);
    let denied = buy_shares(&mut reg, &mut led, ctx(), 0, 500);
    assert_eq!(denied, Err(ErrorCode::InvalidShares));
    assert_eq!(reg.farms[0].minted_shares, 0);
    assert_eq!(reg.stakes.len(), 0);
    assert_eq!(bal(&led, payer_ata()), 10_000);
    assert_eq!(bal(&led, Address::PaymentVault { owner: OWNER }), 0);
    assert_eq!(bal(&led, share_ata()), 0);
}

#[test]
fn oversubscription_rejected_and_state_unchanged() {
    let (mut reg, mut led) = setup(1000, 10_000);
    let denied = buy_shares(&mut reg, &mut led, ctx(), 1001, 5_000);
    assert_eq!(denied, Err(ErrorCode::SupplyExceeded));
    assert_eq!(reg.farms[0].minted_shares, 0);
    assert_eq!(reg.stakes.len(), 0);
    assert_eq!(bal(&led, payer_ata()), 10_000);
    assert_eq!(bal(&led, Address::PaymentVault { owner: OWNER }), 0);
    assert_eq!(bal(&led, share_ata()), 0);
}

#[test]
fn counter_overflow_rejected() {
    let (mut reg, mut led) = setup(u64::MAX, 10);
    buy_shares(&mut reg, &mut led, ctx(), u64::MAX, 0).unwrap();
    assert_eq!(reg.farms[0].minted_shares, u64::MAX);
    let denied = buy_shares(&mut reg, &mut led, ctx(), 1, 0);
    assert_eq!(denied, Err(ErrorCode::ArithmeticOverflow));
    assert_eq!(reg.farms[0].minted_shares, u64::MAX);
    assert_eq!(reg.stakes[0].quantity, u64::MAX);
}

#[test]
fn missing_farm_rejected() {
    let (mut reg, mut led) = setup(1000, 10_000);
    let mut bad = ctx();
    bad.farm = Address::FarmRecord { owner: 99 };
    let denied = buy_shares(&mut reg, &mut led, bad, 10, 50);
    assert_eq!(denied, Err(ErrorCode::AccountNotFound));
    assert_eq!(reg.farms[0].minted_shares, 0);
}

#[test]
fn insufficient_balance_rejected_and_state_unchanged() {
    let (mut reg, mut led) = setup(1000, 100);
    let denied = buy_shares(&mut reg, &mut led, ctx(), 10, 500);
    assert_eq!(denied, Err(ErrorCode::InsufficientBalance));
    assert_eq!(reg.farms[0].minted_shares, 0);
    assert_eq!(reg.stakes.len(), 0);
    assert_eq!(bal(&led, payer_ata()), 100);
    assert_eq!(bal(&led, share_ata()), 0);
}

#[test]
fn unauthorized_payment_account_rejected() {
    let (mut reg, mut led) = setup(1000, 0);
    // an account the investor does not control
    let foreign = Address::Key { id: 300 };
    led.create_account(foreign, payment_mint(), Address::Key { id: 99 }).unwrap();
    led.mint_to(payment_mint(), foreign, Address::Key { id: ISSUER }, 1_000).unwrap();
    let mut bad = ctx();
    bad.payer_ata = foreign;
    let denied = buy_shares(&mut reg, &mut led, bad, 10, 50);
    assert_eq!(denied, Err(ErrorCode::Unauthorized));
    assert_eq!(bal(&led, foreign), 1_000);
}

#[test]
fn wrong_asset_payment_account_rejected() {
    let (mut reg, mut led) = setup(1000, 10_000);
    // paying out of the share-asset account is a mint mismatch
    let mut bad = ctx();
    bad.payer_ata = share_ata();
    let denied = buy_shares(&mut reg, &mut led, bad, 10, 0);
    assert_eq!(denied, Err(ErrorCode::AccountMismatch));
    assert_eq!(reg.farms[0].minted_shares, 0);
}

#[test]
fn wrong_asset_share_account_rejected() {
    let (mut reg, mut led) = setup(1000, 10_000);
    // receiving shares into the payment account is a mint mismatch
    let mut bad = ctx();
    bad.investor_farm_token_ata = payer_ata();
    let denied = buy_shares(&mut reg, &mut led, bad, 10, 50);
    assert_eq!(denied, Err(ErrorCode::AccountMismatch));
    assert_eq!(reg.farms[0].minted_shares, 0);
    assert_eq!(bal(&led, payer_ata()), 10_000);
}

#[test]
fn ledger_transfer_moves_exact_amounts() {
    let mut led = AssetLedger::new();
    led.create_mint(payment_mint(), Address::Key { id: ISSUER }).unwrap();
    let a = Address::Key { id: 50 };
    let b = Address::Key { id: 51 };
    led.create_account(a, payment_mint(), Address::Key { id: 2 }).unwrap();
    led.create_account(b, payment_mint(), Address::Key { id: 3 }).unwrap();
    led.mint_to(payment_mint(), a, Address::Key { id: ISSUER }, 1_000).unwrap();
    led.transfer(a, b, Address::Key { id: 2 }, 400).unwrap();
    assert_eq!(bal(&led, a), 600);
    assert_eq!(bal(&led, b), 400);
    let denied = led.transfer(a, b, Address::Key { id: 2 }, 601);
    assert_eq!(denied, Err(ErrorCode::InsufficientBalance));
    assert_eq!(bal(&led, a), 600);
}

#[test]
fn ledger_rejects_duplicate_creation() {
    let mut led = AssetLedger::new();
    led.create_mint(payment_mint(), Address::Key { id: ISSUER }).unwrap();
    let denied = led.create_mint(payment_mint(), Address::Key { id: 2 });
    assert_eq!(denied, Err(ErrorCode::AccountInUse));
    let a = Address::Key { id: 50 };
    led.create_account(a, payment_mint(), Address::Key { id: 2 }).unwrap();
    let denied = led.create_account(a, payment_mint(), Address::Key { id: 2 });
    assert_eq!(denied, Err(ErrorCode::AccountInUse));
    let denied = led.create_account(Address::Key { id: 51 }, Address::Key { id: 999 }, Address::Key { id: 2 });
    assert_eq!(denied, Err(ErrorCode::AccountNotFound));
}

#[test]
fn ledger_mint_requires_its_authority() {
    let mut led = AssetLedger::new();
    led.create_mint(payment_mint(), Address::Key { id: ISSUER }).unwrap();
    let a = Address::Key { id: 50 };
    led.create_account(a, payment_mint(), Address::Key { id: 2 }).unwrap();
    let denied = led.mint_to(payment_mint(), a, Address::Key { id: 2 }, 10);
    assert_eq!(denied, Err(ErrorCode::Unauthorized));
    assert_eq!(bal(&led, a), 0);
}
