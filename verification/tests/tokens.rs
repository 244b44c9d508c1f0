use vault_system::errors::Error;
use vault_system::usdc_token::UsdcToken;
use vault_system::vault_share_token::VaultShareToken;

const ADMIN: u64 = 1;

fn usdc() -> UsdcToken {
    let mut t = UsdcToken::new();
    let r = t.initialize(ADMIN, "USD Coin".to_string(), "USDC".to_string(), 6);
    assert_eq!(r, Ok(()));
    t
}

fn shares() -> VaultShareToken {
    let mut t = VaultShareToken::new();
    let r = t.initialize(ADMIN, "Vault Share".to_string(), "VSHARE".to_string(), 7);
    assert_eq!(r, Ok(()));
    t
}

#[test]
fn usdc_initialize_once() {
    let mut t = usdc();
    let r = t.initialize(2, "Other".to_string(), "OTH".to_string(), 2);
    assert_eq!(r, Err(Error::AlreadyInitialized));
    assert_eq!(t.admin, ADMIN);
    assert_eq!(t.decimals, 6);
}

#[test]
fn usdc_mint_and_balance() {
    let mut t = usdc();
    assert_eq!(t.mint(ADMIN, 10, 1_000), Ok(()));
    assert_eq!(t.mint(ADMIN, 10, 500), Ok(()));
    assert_eq!(t.balance(10), 1_500);
    assert_eq!(t.balance(11), 0);
}

#[test]
fn usdc_mint_requires_admin() {
    let mut t = usdc();
    assert_eq!(t.mint(10, 10, 1_000), Err(Error::NotAuthorized));
    assert_eq!(t.balance(10), 0);
}

#[test]
fn usdc_transfer_moves_balance() {
    let mut t = usdc();
    assert_eq!(t.mint(ADMIN, 10, 1_000), Ok(()));
    assert_eq!(t.transfer(10, 10, 11, 400), Ok(()));
    assert_eq!(t.balance(10), 600);
    assert_eq!(t.balance(11), 400);
}

#[test]
fn usdc_transfer_requires_funds_and_owner() {
    let mut t = usdc();
    assert_eq!(t.mint(ADMIN, 10, 100), Ok(()));
    assert_eq!(t.transfer(10, 10, 11, 200), Err(Error::InsufficientBalance));
    assert_eq!(t.transfer(11, 10, 11, 50), Err(Error::NotAuthorized));
    assert_eq!(t.balance(10), 100);
    assert_eq!(t.balance(11), 0);
}

#[test]
fn usdc_transfer_from_spends_allowance() {
    let mut t = usdc();
    assert_eq!(t.mint(ADMIN, 10, 1_000), Ok(()));
    assert_eq!(t.approve(10, 10, 20, 300), Ok(()));
    assert_eq!(t.transfer_from(20, 20, 10, 30, 200), Ok(()));
    assert_eq!(t.balance(10), 800);
    assert_eq!(t.balance(30), 200);
    // only 100 of the allowance is left
    assert_eq!(
        t.transfer_from(20, 20, 10, 30, 150),
        Err(Error::InsufficientAllowance)
    );
    assert_eq!(t.transfer_from(20, 20, 10, 30, 100), Ok(()));
    assert_eq!(t.balance(30), 300);
}

#[test]
fn usdc_transfer_from_requires_balance() {
    let mut t = usdc();
    assert_eq!(t.mint(ADMIN, 10, 50), Ok(()));
    assert_eq!(t.approve(10, 10, 20, 300), Ok(()));
    assert_eq!(
        t.transfer_from(20, 20, 10, 30, 100),
        Err(Error::InsufficientBalance)
    );
    assert_eq!(t.balance(10), 50);
}

#[test]
fn usdc_approve_requires_owner() {
    let mut t = usdc();
    assert_eq!(t.approve(20, 10, 20, 300), Err(Error::NotAuthorized));
}

#[test]
fn share_metadata() {
    let t = shares();
    assert_eq!(t.decimals(), 7);
    assert_eq!(t.name(), "Vault Share");
    assert_eq!(t.symbol(), "VSHARE");
}

#[test]
fn share_initialize_once() {
    let mut t = shares();
    let r = t.initialize(2, "Other".to_string(), "OTH".to_string(), 2);
    assert_eq!(r, Err(Error::AlreadyInitialized));
    assert_eq!(t.symbol(), "VSHARE");
}

#[test]
fn share_mint_and_burn() {
    let mut t = shares();
    assert_eq!(t.mint(ADMIN, 10, 1_000), Ok(()));
    assert_eq!(t.balance_of(10), 1_000);
    assert_eq!(t.burn(ADMIN, 10, 400), Ok(()));
    assert_eq!(t.balance_of(10), 600);
}

#[test]
fn share_mint_and_burn_require_admin() {
    let mut t = shares();
    assert_eq!(t.mint(10, 10, 1_000), Err(Error::NotAuthorized));
    assert_eq!(t.burn(10, 10, 1), Err(Error::NotAuthorized));
    assert_eq!(t.balance_of(10), 0);
}

#[test]
fn share_burn_requires_balance() {
    let mut t = shares();
    assert_eq!(t.mint(ADMIN, 10, 100), Ok(()));
    assert_eq!(t.burn(ADMIN, 10, 200), Err(Error::InsufficientBalance));
    assert_eq!(t.balance_of(10), 100);
}
