use vstd::prelude::*;
use crate::address::Address;

verus! {

/// Length of the tag that precedes an account's fields and names its type.
pub const DISCRIMINATOR_LEN: usize = 8;

/// Bytes the vault record takes on the ledger: the tag, then `bump` (1),
/// `name` (32), `pubkey`, `manager` and `token_account` (32 each),
/// `total_shares` (16), `fee` and `ts` (8 each), `total_deposits`,
/// `total_withdraws` and `min_deposit_amount` (8 each).
pub const VAULT_SPACE: usize = DISCRIMINATOR_LEN + 1 + 32 + 32 + 32 + 32 + 16 + 8 + 8 + 8 + 8 + 8;

/// The vault record: metadata and accounting counters of one vault.
#[derive(Clone, Copy, Debug)]
pub struct Vault {
    /// The bump that, with the name, reproduces the vault's address.
    pub bump: u8,
    /// The vault's name; its address is derived from it.
    pub name: [u8; 32],
    /// The vault's own address.
    pub pubkey: Address,
    /// The principal who may update the vault's parameters.
    pub manager: Address,
    /// The custody account that holds the vault's tokens.
    pub token_account: Address,
    /// The sum of all outstanding shares.
    pub total_shares: u128,
    /// The profit-sharing fee.
    pub fee: i64,
    /// When the vault was created.
    pub ts: i64,
    /// Lifetime deposits.
    pub total_deposits: u64,
    /// Lifetime withdrawals.
    pub total_withdraws: u64,
    /// The smallest deposit accepted.
    pub min_deposit_amount: u64,
}

/// The arguments of vault creation.
#[derive(Clone, Copy, Debug)]
pub struct CreateVaultArgs {
    pub name: [u8; 32],
    /// Accepted, and not stored by the record.
    pub profit_share: u32,
    pub fee: u32,
}

/// The sizes of the record's fields, in their order on the ledger.
pub open spec fn vault_field_sizes() -> Seq<nat> {
    seq![1, 32, 32, 32, 32, 16, 8, 8, 8, 8, 8]
}

/// The sum of the first `n` entries of `s`.
pub open spec fn sum_prefix(s: Seq<nat>, n: int) -> nat
    decreases n,
{
    if n <= 0 {
        0
    } else {
        sum_prefix(s, n - 1) + s[n - 1]
    }
}

/// The stored fee of a vault created with the fee argument `fee`: the same
/// number, widened to a signed 64-bit value.
pub fn fee_from_arg(fee: u32) -> (r: i64)
    ensures
        r as int == fee as int,
{
    fee as i64
}

/// The record of a vault freshly created at `pubkey` with custody account
/// `token_account`: identity fields from the arguments, all counters zero.
pub open spec fn spec_new_vault(
    args: CreateVaultArgs,
    bump: u8,
    pubkey: Address,
    manager: Address,
    token_account: Address,
    now: i64,
) -> Vault {
    Vault {
        bump,
        name: args.name,
        pubkey,
        manager,
        token_account,
        total_shares: 0,
        fee: args.fee as i64,
        ts: now,
        total_deposits: 0,
        total_withdraws: 0,
        min_deposit_amount: 0,
    }
}

impl Vault {
    /// Builds the record of a freshly created vault.
    pub fn new(
        args: &CreateVaultArgs,
        bump: u8,
        pubkey: &Address,
        manager: &Address,
        token_account: &Address,
        now: i64,
    ) -> (r: Vault)
        ensures
            r == spec_new_vault(*args, bump, *pubkey, *manager, *token_account, now),
    {
        Vault {
            bump,
            name: args.name,
            pubkey: *pubkey,
            manager: *manager,
            token_account: *token_account,
            total_shares: 0,
            fee: fee_from_arg(args.fee),
            ts: now,
            total_deposits: 0,
            total_withdraws: 0,
            min_deposit_amount: 0,
        }
    }
}

/// The record's storage size is the tag plus the sum of its field sizes, the
/// same for every record.
pub proof fn lemma_vault_space_is_fixed()
    ensures
        VAULT_SPACE == DISCRIMINATOR_LEN + sum_prefix(vault_field_sizes(), vault_field_sizes().len() as int),
        VAULT_SPACE == 193,
{
    reveal_with_fuel(sum_prefix, 12);
}

} // verus!
