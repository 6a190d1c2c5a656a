use vstd::prelude::*;
use crate::address::{
    spec_token_account_address, spec_vault_address, token_account_address, vault_address, Address,
};
use crate::errors::Error;
use crate::ledger::{
    addresses_unique, balance_of, has_account, index_of, is_mint, minimum_balance, rent_exempt_minimum,
    same_address, AccountData, AccountEntry, Ledger,
};
use crate::state::{spec_new_vault, CreateVaultArgs, Vault, VAULT_SPACE};

verus! {

/// The accounts that vault creation works on.
#[derive(Clone, Copy, Debug)]
pub struct CreateVault {
    /// Where the vault record is to be created.
    pub vault: Address,
    /// Where the custody account is to be created.
    pub token_account: Address,
    /// The token type the custody account will hold.
    pub token_mint: Address,
    /// The vault's manager.
    pub manager: Address,
    /// Whether the manager signed.
    pub manager_is_signer: bool,
    /// Who pays for the storage of the new accounts.
    pub payer: Address,
    /// Whether the payer signed.
    pub payer_is_signer: bool,
}

/// Relies on `Pack::LEN` of spl-token's `state::Account`: a token account
/// takes 165 bytes.
#[verifier::external_body]
fn token_account_len() -> (r: usize)
    ensures
        r == 165,
{
    <anchor_spl::token::spl_token::state::Account as anchor_lang::solana_program::program_pack::Pack>::LEN
}

/// Bytes of storage of a custody account.
pub open spec fn token_account_space() -> int {
    165
}

/// Lamports the payer hands over to create a vault: the rent-exempt minimum
/// of the record and of the custody account.
pub open spec fn creation_cost() -> int {
    rent_exempt_minimum(VAULT_SPACE as int) + rent_exempt_minimum(token_account_space())
}

/// The vault record's account as creation leaves it.
pub open spec fn new_vault_entry(ctx: CreateVault, args: CreateVaultArgs, bump: u8, now: i64) -> AccountEntry {
    AccountEntry {
        address: ctx.vault,
        lamports: rent_exempt_minimum(VAULT_SPACE as int) as u64,
        space: VAULT_SPACE,
        data: AccountData::Vault(spec_new_vault(args, bump, ctx.vault, ctx.manager, ctx.token_account, now)),
    }
}

/// The custody account as creation leaves it: typed to the mint, spendable
/// by the vault's address alone.
pub open spec fn new_custody_entry(ctx: CreateVault) -> AccountEntry {
    AccountEntry {
        address: ctx.token_account,
        lamports: rent_exempt_minimum(token_account_space()) as u64,
        space: token_account_space() as usize,
        data: AccountData::TokenAccount { mint: ctx.token_mint, authority: ctx.vault },
    }
}

/// The ledger after creating a vault, or the reason creation is rejected.
/// The checks come in this order: signatures, the two derived addresses,
/// that both addresses are free, the mint, the payer's funds.
pub open spec fn create_vault_result(
    l: Seq<AccountEntry>,
    program_id: Seq<u8>,
    ctx: CreateVault,
    args: CreateVaultArgs,
    now: i64,
) -> Result<Seq<AccountEntry>, Error> {
    if !ctx.manager_is_signer || !ctx.payer_is_signer {
        Err(Error::MissingSignature)
    } else {
        match spec_vault_address(program_id, args.name@) {
            None => Err(Error::InvalidAccount),
            Some((va, bump)) => if va != ctx.vault@ {
                Err(Error::InvalidAccount)
            } else {
                match spec_token_account_address(program_id, va) {
                    None => Err(Error::InvalidAccount),
                    Some((ta, _)) => if ta != ctx.token_account@ {
                        Err(Error::InvalidAccount)
                    } else if has_account(l, va) || has_account(l, ta) || ta == va {
                        Err(Error::AccountAlreadyExists)
                    } else if !is_mint(l, ctx.token_mint@) {
                        Err(Error::InvalidTokenMint)
                    } else if !has_account(l, ctx.payer@) || balance_of(l, ctx.payer@) < creation_cost() {
                        Err(Error::InsufficientFunds)
                    } else {
                        let p = index_of(l, ctx.payer@);
                        let debited = AccountEntry {
                            lamports: (l[p].lamports - creation_cost()) as u64,
                            ..l[p]
                        };
                        Ok(l.update(p, debited).push(new_vault_entry(ctx, args, bump, now)).push(
                            new_custody_entry(ctx),
                        ))
                    },
                }
            },
        }
    }
}

/// Creates a vault: in one step, the vault record at the address derived
/// from `args.name` and its custody account at the address derived from the
/// record's, paid for by the payer. On any error the ledger is left as it
/// was.
pub fn create_vault(
    ledger: &mut Ledger,
    program_id: &Address,
    ctx: &CreateVault,
    args: &CreateVaultArgs,
    now: i64,
) -> (r: Result<(), Error>)
    requires
        old(ledger).wf(),
    ensures
        final(ledger).wf(),
        match create_vault_result(old(ledger)@, program_id@, *ctx, *args, now) {
            Ok(l) => r is Ok && final(ledger)@ == l,
            Err(e) => r == Err::<(), Error>(e) && final(ledger)@ == old(ledger)@,
        },
        r is Ok ==> {
            let n = old(ledger)@.len() as int;
            let rec = final(ledger)@[n];
            let custody = final(ledger)@[n + 1];
            &&& final(ledger)@.len() == n + 2
            &&& rec.address@ == ctx.vault@
            &&& custody.address@ == ctx.token_account@
            &&& rec.data matches AccountData::Vault(v) && v.pubkey@ == rec.address@
                && v.token_account@ == custody.address@ && v.total_shares == 0 && v.total_deposits == 0
                && v.total_withdraws == 0 && v.name@ == args.name@ && v.manager@ == ctx.manager@
                && spec_vault_address(program_id@, v.name@) == Some((rec.address@, v.bump))
                && spec_token_account_address(program_id@, rec.address@) is Some
                && spec_token_account_address(program_id@, rec.address@)->Some_0.0 == custody.address@
            &&& custody.data matches AccountData::TokenAccount { mint, authority } && authority@
                == rec.address@ && mint@ == ctx.token_mint@
        },
        !ctx.manager_is_signer ==> r == Err::<(), Error>(Error::MissingSignature) && final(ledger)@ == old(
            ledger,
        )@,
        balance_of(old(ledger)@, ctx.payer@) < creation_cost() ==> r is Err && final(ledger)@ == old(
            ledger,
        )@,
{
    if !ctx.manager_is_signer || !ctx.payer_is_signer {
        return Err(Error::MissingSignature);
    }
    let (va, bump) = match vault_address(program_id, &args.name) {
        Some(p) => p,
        None => return Err(Error::InvalidAccount),
    };
    if !same_address(&va, &ctx.vault) {
        return Err(Error::InvalidAccount);
    }
    let (ta, _) = match token_account_address(program_id, &va) {
        Some(p) => p,
        None => return Err(Error::InvalidAccount),
    };
    if !same_address(&ta, &ctx.token_account) {
        return Err(Error::InvalidAccount);
    }
    if ledger.find(&ctx.vault).is_some() || ledger.find(&ctx.token_account).is_some() || same_address(
        &ctx.token_account,
        &ctx.vault,
    ) {
        return Err(Error::AccountAlreadyExists);
    }
    match ledger.find(&ctx.token_mint) {
        Some(i) => match ledger.accounts[i].data {
            AccountData::Mint => {},
            _ => return Err(Error::InvalidTokenMint),
        },
        None => return Err(Error::InvalidTokenMint),
    }
    let vault_rent = minimum_balance(VAULT_SPACE);
    let custody_space = token_account_len();
    let custody_rent = minimum_balance(custody_space);
    let cost = vault_rent + custody_rent;
    let p = match ledger.find(&ctx.payer) {
        Some(i) => i,
        None => return Err(Error::InsufficientFunds),
    };
    let payer = ledger.accounts[p];
    if payer.lamports < cost {
        return Err(Error::InsufficientFunds);
    }
    let debited = AccountEntry { lamports: payer.lamports - cost, ..payer };
    let record = Vault::new(args, bump, &ctx.vault, &ctx.manager, &ctx.token_account, now);
    let ghost l0 = ledger@;
    ledger.accounts.set(p, debited);
    ledger.accounts.push(AccountEntry { address: ctx.vault, lamports: vault_rent, space: VAULT_SPACE, data: AccountData::Vault(record) });
    ledger.accounts.push(
        AccountEntry {
            address: ctx.token_account,
            lamports: custody_rent,
            space: custody_space,
            data: AccountData::TokenAccount { mint: ctx.token_mint, authority: ctx.vault },
        },
    );
    proof {
        let l1 = l0.update(p as int, debited);
        let n = l0.len() as int;
        assert forall|i: int, j: int|
            0 <= i < ledger@.len() && 0 <= j < ledger@.len() && i != j
            implies (#[trigger] ledger@[i]).address@ != (#[trigger] ledger@[j]).address@ by {
            if i < n {
                assert(ledger@[i].address@ == l0[i].address@);
                if j < n {
                    assert(ledger@[j].address@ == l0[j].address@);
                } else if ledger@[i].address@ == ledger@[j].address@ {
                    assert(has_account(l0, ledger@[j].address@));
                }
            } else if j < n {
                assert(ledger@[j].address@ == l0[j].address@);
                if ledger@[i].address@ == ledger@[j].address@ {
                    assert(has_account(l0, ledger@[i].address@));
                }
            }
        }
    }
    Ok(())
}

/// Two creations under one name: once the first has succeeded, the second is
/// rejected, so the ledger stays as the single success left it. Where the
/// second is signed and names the accounts derived from that name, it is
/// rejected as a duplicate.
pub proof fn lemma_second_create_rejected(
    l0: Seq<AccountEntry>,
    program_id: Seq<u8>,
    ctx1: CreateVault,
    args1: CreateVaultArgs,
    now1: i64,
    ctx2: CreateVault,
    args2: CreateVaultArgs,
    now2: i64,
)
    requires
        addresses_unique(l0),
        create_vault_result(l0, program_id, ctx1, args1, now1) is Ok,
        args2.name@ == args1.name@,
    ensures
        ({
            let l1 = create_vault_result(l0, program_id, ctx1, args1, now1)->Ok_0;
            &&& create_vault_result(l1, program_id, ctx2, args2, now2) is Err
            &&& ctx2.manager_is_signer && ctx2.payer_is_signer && ctx2.vault@ == ctx1.vault@
                && ctx2.token_account@ == ctx1.token_account@ ==> create_vault_result(
                l1,
                program_id,
                ctx2,
                args2,
                now2,
            ) == Err::<Seq<AccountEntry>, Error>(Error::AccountAlreadyExists)
        }),
{
    let l1 = create_vault_result(l0, program_id, ctx1, args1, now1)->Ok_0;
    let n = l0.len() as int;
    assert(l1[n].address@ == ctx1.vault@);
    assert(has_account(l1, ctx1.vault@));
}

/// The lamports held over all accounts of `l`.
pub open spec fn total_lamports(l: Seq<AccountEntry>) -> int
    decreases l.len(),
{
    if l.len() == 0 {
        0
    } else {
        total_lamports(l.drop_last()) + l.last().lamports
    }
}

proof fn lemma_total_lamports_update(l: Seq<AccountEntry>, i: int, e: AccountEntry)
    requires
        0 <= i < l.len(),
    ensures
        total_lamports(l.update(i, e)) == total_lamports(l) - l[i].lamports + e.lamports,
    decreases l.len(),
{
    if i == l.len() - 1 {
        assert(l.update(i, e).drop_last() =~= l.drop_last());
    } else {
        assert(l.update(i, e).drop_last() =~= l.drop_last().update(i, e));
        lemma_total_lamports_update(l.drop_last(), i, e);
    }
}

proof fn lemma_total_lamports_push(l: Seq<AccountEntry>, e: AccountEntry)
    ensures
        total_lamports(l.push(e)) == total_lamports(l) + e.lamports,
{
    assert(l.push(e).drop_last() =~= l);
}

/// Creating a vault moves lamports and creates none: what the payer gives up
/// is exactly what the record and the custody account hold, so the ledger's
/// total is unchanged.
pub proof fn lemma_create_vault_conserves_lamports(
    l: Seq<AccountEntry>,
    program_id: Seq<u8>,
    ctx: CreateVault,
    args: CreateVaultArgs,
    now: i64,
)
    requires
        addresses_unique(l),
        create_vault_result(l, program_id, ctx, args, now) is Ok,
    ensures
        total_lamports(create_vault_result(l, program_id, ctx, args, now)->Ok_0) == total_lamports(l),
{
    let (va, bump) = spec_vault_address(program_id, args.name@)->Some_0;
    let p = index_of(l, ctx.payer@);
    let debited = AccountEntry { lamports: (l[p].lamports - creation_cost()) as u64, ..l[p] };
    let l1 = l.update(p, debited);
    let l2 = l1.push(new_vault_entry(ctx, args, bump, now));
    lemma_total_lamports_update(l, p, debited);
    lemma_total_lamports_push(l1, new_vault_entry(ctx, args, bump, now));
    lemma_total_lamports_push(l2, new_custody_entry(ctx));
}

} // verus!
