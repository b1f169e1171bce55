use farm_tokenization::address::Address;
use farm_tokenization::buy_shares::{buy_shares, BuyShares};
use farm_tokenization::errors::ErrorCode;
use farm_tokenization::initialize_farm::{initialize_farm, InitializeFarm};
use farm_tokenization::ledger::AssetLedger;
use farm_tokenization::registry::Registry;
use farm_tokenization::{farm_initialize, share_buying};

const ISSUER: u64 = 1;
const OWNER: u64 = 10;
const INVESTOR: u64 = 20;
const INVESTOR_B: u64 = 30;

fn payment_mint() -> Address {
    Address::Key { id: 100 }
}

fn farm_addr() -> Address {
    Address::FarmRecord { owner: OWNER }
}

fn share_mint() -> Address {
    Address::ShareMint { owner: OWNER }
}

fn payer_ata() -> Address {
    Address::Key { id: 200 }
}

fn share_ata() -> Address {
    Address::Key { id: 201 }
}

/// A registry and ledger with one farm, plus a funded investor with a
/// payment account and an empty share account.
fn setup(total_shares: u64, funding: u64) -> (Registry, AssetLedger) {
    let mut reg = Registry::new();
    let mut led = AssetLedger::new();
    led.create_mint(payment_mint(), Address::Key { id: ISSUER }).unwrap();
    let accounts = InitializeFarm { owner: OWNER, payment_mint: payment_mint() };
    initialize_farm(&mut reg, &mut led, accounts, total_shares, 5).unwrap();
    led.create_account(payer_ata(), payment_mint(), Address::Key { id: INVESTOR }).unwrap();
    if funding > 0 {
        led.mint_to(payment_mint(), payer_ata(), Address::Key { id: ISSUER }, funding).unwrap();
    }
    led.create_account(share_ata(), share_mint(), Address::Key { id: INVESTOR }).unwrap();
    (reg, led)
}

fn ctx() -> BuyShares {
    BuyShares {
        farm: farm_addr(),
        payer: INVESTOR,
        payer_ata: payer_ata(),
        investor_farm_token_ata: share_ata(),
    }
}

fn bal(led: &AssetLedger, a: Address) -> u64 {
    led.balance(a).unwrap()
}

#[test]
fn initialize_then_buy_updates_all_state() {
    let (mut reg, mut led) = setup(1000, 10_000);
    assert_eq!(reg.farms.len(), 1);
    assert_eq!(reg.farms[0].minted_shares, 0);
    assert_eq!(reg.farms[0].total_shares, 1000);
    assert_eq!(reg.farms[0].price_per_share, 5);

    buy_shares(&mut reg, &mut led, ctx(), 100, 500).unwrap();

    assert_eq!(reg.farms[0].minted_shares, 100);
    assert_eq!(reg.stakes.len(), 1);
    assert_eq!(reg.stakes[0].owner, INVESTOR);
    assert_eq!(reg.stakes[0].quantity, 100);
    assert!(reg.stakes[0].is_initialized);
    assert_eq!(bal(&led, payer_ata()), 9_500);
    assert_eq!(bal(&led, Address::PaymentVault { owner: OWNER }), 500);
    assert_eq!(bal(&led, share_ata()), 100);
}

#[test]
fn two_sequential_buys_accumulate() {
    let (mut reg, mut led) = setup(1000, 10_000);
    buy_shares(&mut reg, &mut led, ctx(), 10, 50).unwrap();
    buy_shares(&mut reg, &mut led, ctx(), 10, 50).unwrap();
    assert_eq!(reg.stakes.len(), 1);
    assert_eq!(reg.stakes[0].quantity, 20);
    assert_eq!(reg.farms[0].minted_shares, 20);
    assert_eq!(bal(&led, share_ata()), 20);
    assert_eq!(bal(&led, Address::PaymentVault { owner: OWNER }), 100);
}

#[test]
fn competing_buys_never_overmint() {
    let (mut reg, mut led) = setup(1000, 100_000);
    // a second investor with their own accounts
    let b_pay = Address::Key { id: 210 };
    let b_share = Address::Key { id: 211 };
    led.create_account(b_pay, payment_mint(), Address::Key { id: INVESTOR_B }).unwrap();
    led.mint_to(payment_mint(), b_pay, Address::Key { id: ISSUER }, 100_000).unwrap();
    led.create_account(b_share, share_mint(), Address::Key { id: INVESTOR_B }).unwrap();
    let ctx_b = BuyShares {
        farm: farm_addr(),
        payer: INVESTOR_B,
        payer_ata: b_pay,
        investor_farm_token_ata: b_share,
    };

    // combined demand of 800 + 300 exceeds the cap of 1000
    buy_shares(&mut reg, &mut led, ctx(), 800, 4_000).unwrap();
    let denied = buy_shares(&mut reg, &mut led, ctx_b, 300, 1_500);
    assert_eq!(denied, Err(ErrorCode::SupplyExceeded));
    assert_eq!(reg.farms[0].minted_shares, 800);
    // only what still fits can be bought
    buy_shares(&mut reg, &mut led, ctx_b, 200, 1_000).unwrap();
    assert_eq!(reg.farms[0].minted_shares, 1000);
    assert!(reg.farms[0].minted_shares <= reg.farms[0].total_shares);
}

#[test]
fn stake_sum_matches_minted_across_investors() {
    let (mut reg, mut led) = setup(1000, 100_000);
    let b_pay = Address::Key { id: 210 };
    let b_share = Address::Key { id: 211 };
    led.create_account(b_pay, payment_mint(), Address::Key { id: INVESTOR_B }).unwrap();
    led.mint_to(payment_mint(), b_pay, Address::Key { id: ISSUER }, 100_000).unwrap();
    led.create_account(b_share, share_mint(), Address::Key { id: INVESTOR_B }).unwrap();
    let ctx_b = BuyShares {
        farm: farm_addr(),
        payer: INVESTOR_B,
        payer_ata: b_pay,
        investor_farm_token_ata: b_share,
    };

    buy_shares(&mut reg, &mut led, ctx(), 150, 750).unwrap();
    buy_shares(&mut reg, &mut led, ctx_b, 250, 1_250).unwrap();
    buy_shares(&mut reg, &mut led, ctx(), 50, 250).unwrap();

    let total: u64 = reg.stakes.iter().map(|s| s.quantity).sum();
    assert_eq!(total, reg.farms[0].minted_shares);
    assert_eq!(reg.farms[0].minted_shares, 450);
    assert_eq!(reg.stakes.len(), 2);
}

#[test]
fn debt_claimed_reset_on_every_purchase() {
    let (mut reg, mut led) = setup(1000, 10_000);
    buy_shares(&mut reg, &mut led, ctx(), 10, 50).unwrap();
    assert_eq!(reg.stakes[0].debt_claimed, 0);
    // even if something left a residue, the next purchase clears it
    reg.stakes[0].debt_claimed = 77;
    buy_shares(&mut reg, &mut led, ctx(), 10, 50).unwrap();
    assert_eq!(reg.stakes[0].debt_claimed, 0);
}

#[test]
fn entry_wrappers_behave_like_operations() {
    let mut reg = Registry::new();
    let mut led = AssetLedger::new();
    led.create_mint(payment_mint(), Address::Key { id: ISSUER }).unwrap();
    let accounts = InitializeFarm { owner: OWNER, payment_mint: payment_mint() };
    farm_initialize(&mut reg, &mut led, accounts, 1000, 5).unwrap();
    led.create_account(payer_ata(), payment_mint(), Address::Key { id: INVESTOR }).unwrap();
    led.mint_to(payment_mint(), payer_ata(), Address::Key { id: ISSUER }, 600).unwrap();
    led.create_account(share_ata(), share_mint(), Address::Key { id: INVESTOR }).unwrap();
    share_buying(&mut reg, &mut led, ctx(), 100, 500).unwrap();
    assert_eq!(reg.farms[0].minted_shares, 100);
    assert_eq!(reg.stakes[0].quantity, 100);
    assert_eq!(bal(&led, payer_ata()), 100);
}
