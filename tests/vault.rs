use arbitrage::address::{token_account_address, vault_address, Address};
use arbitrage::errors::Error;
use arbitrage::instructions::{create_vault, CreateVault};
use arbitrage::ledger::{same_address, AccountData, AccountEntry, Ledger};
use arbitrage::state::{fee_from_arg, CreateVaultArgs, Vault, VAULT_SPACE};

const PROGRAM: Address = [7u8; 32];
const MINT: Address = [1u8; 32];
const MANAGER: Address = [2u8; 32];
const PAYER: Address = [3u8; 32];

const VAULT_RENT: u64 = (128 + 193) * 6960;
const CUSTODY_RENT: u64 = (128 + 165) * 6960;

fn name(tag: &str) -> [u8; 32] {
    let mut n = [0u8; 32];
    n[..tag.len()].copy_from_slice(tag.as_bytes());
    n
}

fn ledger_with(payer_lamports: u64) -> Ledger {
    let mut l = Ledger::new();
    l.insert_if_absent(AccountEntry { address: MINT, lamports: 1_461_600, space: 82, data: AccountData::Mint })
        .unwrap();
    l.insert_if_absent(AccountEntry { address: PAYER, lamports: payer_lamports, space: 0, data: AccountData::Wallet })
        .unwrap();
    l
}

fn context(n: &[u8; 32]) -> CreateVault {
    let (vault, _) = vault_address(&PROGRAM, n).unwrap();
    let (custody, _) = token_account_address(&PROGRAM, &vault).unwrap();
    CreateVault {
        vault,
        token_account: custody,
        token_mint: MINT,
        manager: MANAGER,
        manager_is_signer: true,
        payer: PAYER,
        payer_is_signer: true,
    }
}

fn args(n: [u8; 32]) -> CreateVaultArgs {
    CreateVaultArgs { name: n, profit_share: 20, fee: 150 }
}

fn snapshot(l: &Ledger) -> Vec<(Address, u64, usize)> {
    l.accounts.iter().map(|a| (a.address, a.lamports, a.space)).collect()
}

#[test]
fn vault_address_is_deterministic() {
    let n = name("alpha");
    assert_eq!(vault_address(&PROGRAM, &n), vault_address(&PROGRAM, &n));
    let (v, _) = vault_address(&PROGRAM, &n).unwrap();
    assert_eq!(token_account_address(&PROGRAM, &v), token_account_address(&PROGRAM, &v));
}

#[test]
fn distinct_names_give_distinct_addresses() {
    let (a, _) = vault_address(&PROGRAM, &name("alpha")).unwrap();
    let (b, _) = vault_address(&PROGRAM, &name("beta")).unwrap();
    assert_ne!(a, b);
    let (c, _) = vault_address(&[8u8; 32], &name("alpha")).unwrap();
    assert_ne!(a, c);
}

#[test]
fn derived_address_is_not_the_seed() {
    let n = name("alpha");
    let (v, _) = vault_address(&PROGRAM, &n).unwrap();
    assert_ne!(v, n);
    let (t, _) = token_account_address(&PROGRAM, &v).unwrap();
    assert_ne!(t, v);
}

#[test]
fn create_vault_populates_record_and_custody() {
    let n = name("alpha");
    let mut l = ledger_with(10_000_000);
    let ctx = context(&n);
    let (_, bump) = vault_address(&PROGRAM, &n).unwrap();
    assert_eq!(create_vault(&mut l, &PROGRAM, &ctx, &args(n), 1_700_000_000), Ok(()));
    assert_eq!(l.accounts.len(), 4);
    let rec = l.accounts[2];
    let custody = l.accounts[3];
    assert_eq!(rec.address, ctx.vault);
    assert_eq!(rec.space, 193);
    assert_eq!(rec.lamports, VAULT_RENT);
    match rec.data {
        AccountData::Vault(v) => {
            assert_eq!(v.pubkey, rec.address);
            assert_eq!(v.token_account, custody.address);
            assert_eq!(v.name, n);
            assert_eq!(v.bump, bump);
            assert_eq!(v.manager, MANAGER);
            assert_eq!(v.total_shares, 0);
            assert_eq!(v.total_deposits, 0);
            assert_eq!(v.total_withdraws, 0);
            assert_eq!(v.min_deposit_amount, 0);
            assert_eq!(v.fee, 150);
            assert_eq!(v.ts, 1_700_000_000);
        }
        _ => panic!("no vault record"),
    }
    assert_eq!(custody.address, ctx.token_account);
    assert_eq!(custody.space, 165);
    assert_eq!(custody.lamports, CUSTODY_RENT);
    match custody.data {
        AccountData::TokenAccount { mint, authority } => {
            assert_eq!(mint, MINT);
            assert_eq!(authority, ctx.vault);
        }
        _ => panic!("no custody account"),
    }
    assert_eq!(l.balance(&PAYER), 10_000_000 - VAULT_RENT - CUSTODY_RENT);
    assert_eq!(l.balance(&PAYER), 5_726_560);
}

#[test]
fn second_create_with_same_name_is_rejected() {
    let n = name("alpha");
    let mut l = ledger_with(100_000_000);
    let ctx = context(&n);
    assert_eq!(create_vault(&mut l, &PROGRAM, &ctx, &args(n), 1), Ok(()));
    let after_first = snapshot(&l);
    let mut other = ctx;
    other.manager = [9u8; 32];
    assert_eq!(create_vault(&mut l, &PROGRAM, &other, &CreateVaultArgs { name: n, profit_share: 1, fee: 2 }, 2), Err(Error::AccountAlreadyExists));
    assert_eq!(snapshot(&l), after_first);
    assert_eq!(l.accounts.len(), 4);
}

#[test]
fn two_vaults_with_distinct_names() {
    let mut l = ledger_with(100_000_000);
    let a = name("alpha");
    let b = name("beta");
    assert_eq!(create_vault(&mut l, &PROGRAM, &context(&a), &args(a), 1), Ok(()));
    assert_eq!(create_vault(&mut l, &PROGRAM, &context(&b), &args(b), 1), Ok(()));
    assert_eq!(l.accounts.len(), 6);
    assert_eq!(l.balance(&PAYER), 100_000_000 - 2 * (VAULT_RENT + CUSTODY_RENT));
}

#[test]
fn missing_manager_signature_is_rejected() {
    let n = name("alpha");
    let mut l = ledger_with(10_000_000);
    let mut ctx = context(&n);
    ctx.manager_is_signer = false;
    let before = snapshot(&l);
    assert_eq!(create_vault(&mut l, &PROGRAM, &ctx, &args(n), 1), Err(Error::MissingSignature));
    assert_eq!(snapshot(&l), before);
}

#[test]
fn missing_payer_signature_is_rejected() {
    let n = name("alpha");
    let mut l = ledger_with(10_000_000);
    let mut ctx = context(&n);
    ctx.payer_is_signer = false;
    assert_eq!(create_vault(&mut l, &PROGRAM, &ctx, &args(n), 1), Err(Error::MissingSignature));
    assert_eq!(l.accounts.len(), 2);
}

#[test]
fn insufficient_funds_is_rejected() {
    let n = name("alpha");
    let mut l = ledger_with(VAULT_RENT + CUSTODY_RENT - 1);
    let before = snapshot(&l);
    assert_eq!(create_vault(&mut l, &PROGRAM, &context(&n), &args(n), 1), Err(Error::InsufficientFunds));
    assert_eq!(snapshot(&l), before);
}

#[test]
fn exact_funds_suffice() {
    let n = name("alpha");
    let mut l = ledger_with(VAULT_RENT + CUSTODY_RENT);
    assert_eq!(create_vault(&mut l, &PROGRAM, &context(&n), &args(n), 1), Ok(()));
    assert_eq!(l.balance(&PAYER), 0);
}

#[test]
fn unknown_payer_is_rejected() {
    let n = name("alpha");
    let mut l = ledger_with(10_000_000);
    let mut ctx = context(&n);
    ctx.payer = [4u8; 32];
    assert_eq!(create_vault(&mut l, &PROGRAM, &ctx, &args(n), 1), Err(Error::InsufficientFunds));
    assert_eq!(l.accounts.len(), 2);
}

#[test]
fn wrong_vault_address_is_rejected() {
    let n = name("alpha");
    let mut l = ledger_with(10_000_000);
    let ctx = context(&name("beta"));
    assert_eq!(create_vault(&mut l, &PROGRAM, &ctx, &args(n), 1), Err(Error::InvalidAccount));
    assert_eq!(l.accounts.len(), 2);
}

#[test]
fn wrong_custody_address_is_rejected() {
    let n = name("alpha");
    let mut l = ledger_with(10_000_000);
    let mut ctx = context(&n);
    ctx.token_account = [5u8; 32];
    assert_eq!(create_vault(&mut l, &PROGRAM, &ctx, &args(n), 1), Err(Error::InvalidAccount));
    assert_eq!(l.accounts.len(), 2);
}

#[test]
fn missing_mint_is_rejected() {
    let n = name("alpha");
    let mut l = ledger_with(10_000_000);
    let mut ctx = context(&n);
    ctx.token_mint = [6u8; 32];
    assert_eq!(create_vault(&mut l, &PROGRAM, &ctx, &args(n), 1), Err(Error::InvalidTokenMint));
    assert_eq!(l.accounts.len(), 2);
}

#[test]
fn mint_that_is_a_wallet_is_rejected() {
    let n = name("alpha");
    let mut l = ledger_with(10_000_000);
    let mut ctx = context(&n);
    ctx.token_mint = PAYER;
    assert_eq!(create_vault(&mut l, &PROGRAM, &ctx, &args(n), 1), Err(Error::InvalidTokenMint));
    assert_eq!(l.accounts.len(), 2);
}

#[test]
fn vault_space_is_fixed() {
    assert_eq!(VAULT_SPACE, 193);
    let a = Vault::new(&args(name("a")), 1, &[0u8; 32], &MANAGER, &[0u8; 32], 0);
    let b = Vault::new(&CreateVaultArgs { name: [255u8; 32], profit_share: u32::MAX, fee: u32::MAX }, 255, &[9u8; 32], &MANAGER, &[9u8; 32], i64::MAX);
    assert_eq!(a.to_bytes().len(), 193);
    assert_eq!(b.to_bytes().len(), 193);
}

#[test]
fn fee_argument_widens_exactly() {
    assert_eq!(fee_from_arg(0), 0);
    assert_eq!(fee_from_arg(150), 150);
    assert_eq!(fee_from_arg(u32::MAX), 4_294_967_295);
    let v = Vault::new(&CreateVaultArgs { name: [0u8; 32], profit_share: 0, fee: u32::MAX }, 0, &[0u8; 32], &MANAGER, &[0u8; 32], 0);
    assert_eq!(v.fee, 4_294_967_295);
}

#[test]
fn insert_if_absent_refuses_taken_address() {
    let mut l = ledger_with(5);
    let r = l.insert_if_absent(AccountEntry { address: PAYER, lamports: 9, space: 0, data: AccountData::Wallet });
    assert_eq!(r, Err(Error::AccountAlreadyExists));
    assert_eq!(l.balance(&PAYER), 5);
    assert_eq!(l.find(&PAYER), Some(1));
    assert_eq!(l.find(&[0u8; 32]), None);
    assert_eq!(l.balance(&[0u8; 32]), 0);
}

#[test]
fn same_address_compares_all_bytes() {
    let a = [3u8; 32];
    let mut b = a;
    assert!(same_address(&a, &b));
    b[31] = 4;
    assert!(!same_address(&a, &b));
}

#[test]
fn create_vault_moves_lamports_without_creating_any() {
    let n = name("gamma");
    let mut l = ledger_with(50_000_000);
    let total = |l: &Ledger| l.accounts.iter().map(|a| a.lamports as u128).sum::<u128>();
    let before = total(&l);
    assert_eq!(create_vault(&mut l, &PROGRAM, &context(&n), &args(n), 3), Ok(()));
    assert_eq!(total(&l), before);
    assert_eq!(l.balance(&PAYER), 50_000_000 - 4_273_440);
}
