use vault_system::errors::Error;
use vault_system::vault::Vault;
use vault_system::vault::VaultState;

fn funded_vault(cap: i128) -> Vault {
    let mut v = Vault::new();
    let r = v.initialize(1, 2, 3, 4, cap, vec![2000, 3000], vec![500_000, 500_000], 1000);
    assert_eq!(r, Ok(()));
    v
}

#[test]
fn test_initialize_and_deposit() {
    let mut v = Vault::new();

    let admin: u64 = 10;
    let borrower: u64 = 11;
    let token: u64 = 12;
    let share_token: u64 = 13;

    let cap: i128 = 1_000_000;
    let dates: Vec<u64> = vec![2000, 3000];
    let amts: Vec<i128> = vec![500_000, 500_000];
    let funding_duration: u64 = 1000;

    let r = v.initialize(
        admin,
        borrower,
        token,
        share_token,
        cap,
        dates,
        amts,
        funding_duration,
    );
    assert_eq!(r, Ok(()));

    let stored_cap: i128 = v.cap;
    assert_eq!(stored_cap, cap);

    let state: VaultState = v.get_vault_info().0;
    assert_eq!(state, VaultState::Funding);
}

#[test]
fn initialize_twice_fails() {
    let mut v = funded_vault(1_000_000);
    let r = v.initialize(5, 6, 7, 8, 9, vec![], vec![], 0);
    assert_eq!(r, Err(Error::AlreadyInitialized));
    // the first configuration is untouched
    assert_eq!(v.cap, 1_000_000);
    assert_eq!(v.borrower, 2);
}

#[test]
fn schedule_mismatch_writes_nothing() {
    let mut v = Vault::new();
    let r = v.initialize(1, 2, 3, 4, 1_000_000, vec![2000, 3000], vec![500_000], 1000);
    assert_eq!(r, Err(Error::ScheduleMismatch));
    assert!(!v.initialized);
    // a later, well-formed initialization still succeeds
    let r = v.initialize(1, 2, 3, 4, 1_000_000, vec![2000], vec![1_000_000], 1000);
    assert_eq!(r, Ok(()));
}

#[test]
fn two_depositors_claim_pro_rata() {
    let d1: u64 = 21;
    let d2: u64 = 22;
    let mut v = funded_vault(1_000_000);

    assert_eq!(v.deposit(d1, 500_000), Ok(()));
    assert_eq!(v.deposit(d2, 500_000), Ok(()));
    let (_, raised, _) = v.get_vault_info();
    assert_eq!(raised, 1_000_000);

    assert_eq!(v.repay(2, 200_000), Ok(()));
    let (_, _, repaid) = v.get_vault_info();
    assert_eq!(repaid, 200_000);

    assert_eq!(v.claim(d1), 100_000);
    assert_eq!(v.claim(d1), 0);
}

#[test]
fn claim_before_repayment_records_nothing() {
    let d: u64 = 31;
    let mut v = funded_vault(1_000_000);
    assert_eq!(v.deposit(d, 300), Ok(()));
    // nothing repaid yet: nothing due, and no watermark is written
    assert_eq!(v.claim(d), 0);
    assert_eq!(v.repay(2, 300), Ok(()));
    // the full share arrives later, so the early claim recorded nothing
    assert_eq!(v.claim(d), 300);
}

#[test]
fn deposit_outside_funding_fails() {
    let mut v = funded_vault(1_000_000);
    // a phase change forced from outside this core
    v.state = VaultState::Repayment;
    assert_eq!(v.deposit(41, 500), Err(Error::WrongPhase));
    let (_, raised, _) = v.get_vault_info();
    assert_eq!(raised, 0);
}

#[test]
fn repay_by_non_borrower_fails() {
    let mut v = funded_vault(1_000_000);
    assert_eq!(v.repay(99, 500), Err(Error::NotAuthorized));
    let (_, _, repaid) = v.get_vault_info();
    assert_eq!(repaid, 0);
}

#[test]
fn totals_never_decrease() {
    let mut v = funded_vault(1_000_000);
    let mut last_raised: i128 = 0;
    for _ in 0..4 {
        assert_eq!(v.deposit(51, 250), Ok(()));
        let (_, raised, _) = v.get_vault_info();
        assert!(raised >= last_raised);
        last_raised = raised;
    }
    assert_eq!(last_raised, 1000);
    let mut last_repaid: i128 = 0;
    for _ in 0..4 {
        assert_eq!(v.repay(2, 100), Ok(()));
        let (_, _, repaid) = v.get_vault_info();
        assert!(repaid >= last_repaid);
        last_repaid = repaid;
    }
    assert_eq!(last_repaid, 400);
}

#[test]
fn claim_zero_guards() {
    let mut v = funded_vault(1_000_000);
    // no deposit at all
    assert_eq!(v.claim(61), 0);
    assert_eq!(v.deposit(62, 400), Ok(()));
    // raised > 0 but repaid == 0
    assert_eq!(v.claim(62), 0);
}

#[test]
fn floor_division_rounds_down_and_catches_up() {
    let d1: u64 = 71;
    let d2: u64 = 72;
    let mut v = funded_vault(1_000_000);
    assert_eq!(v.deposit(d1, 100), Ok(()));
    assert_eq!(v.deposit(d2, 50), Ok(()));
    assert_eq!(v.repay(2, 100), Ok(()));
    // 100 * 100 / 150 rounds down to 66
    assert_eq!(v.claim(d1), 66);
    assert_eq!(v.claim(d1), 0);
    assert_eq!(v.repay(2, 50), Ok(()));
    // the full entitlement 100 * 150 / 150 = 100 is recomputed fresh,
    // so the claim catches up to 100 - 66 = 34
    assert_eq!(v.claim(d1), 34);
    // 50 * 150 / 150 = 50, all at once
    assert_eq!(v.claim(d2), 50);
}

#[test]
fn state_symbols_round_trip() {
    let states = [
        VaultState::Funding,
        VaultState::Funded,
        VaultState::Repayment,
        VaultState::Claimable,
        VaultState::Closed,
    ];
    for s in states {
        assert_eq!(VaultState::from_symbol(&s.to_symbol()), s);
    }
    assert_eq!(VaultState::Funding.to_symbol(), "funding");
    assert_eq!(VaultState::Funded.to_symbol(), "funded");
    assert_eq!(VaultState::Repayment.to_symbol(), "repay");
    assert_eq!(VaultState::Claimable.to_symbol(), "claim");
    assert_eq!(VaultState::Closed.to_symbol(), "closed");
}
