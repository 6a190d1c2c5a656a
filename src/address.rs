use vstd::prelude::*;

verus! {

/// A 32-byte ledger address.
pub type Address = [u8; 32];

/// Seed prefix of the vault record's address: the bytes of `vault`.
pub const PREFIX_SEED: [u8; 5] = [118, 97, 117, 108, 116];

/// Seed prefix of the custody account's address: the bytes of
/// `vault_token_account`.
pub const TOKEN_ACCOUNT_PREFIX_SEED: [u8; 19] = [
    118, 97, 117, 108, 116, 95, 116, 111, 107, 101, 110, 95, 97, 99, 99, 111, 117, 110, 116,
];

/// The mathematical value of a derived address and its bump.
pub open spec fn derived_view(r: Option<(Address, u8)>) -> Option<(Seq<u8>, u8)> {
    match r {
        Some((a, b)) => Some((a@, b)),
        None => None,
    }
}

/// What the ledger's program-address search yields for the seeds
/// `[prefix, key]` under `program_id`: the first off-curve address found
/// counting the bump down from 255, with that bump.
pub uninterp spec fn program_address(prefix: Seq<u8>, key: Seq<u8>, program_id: Seq<u8>) -> Option<(Seq<u8>, u8)>;

/// Relies on `Pubkey::try_find_program_address` of solana-program: on the
/// host it hashes the seeds, the bump and the program id and takes the first
/// bump that gives an off-curve point, so the result depends on its
/// arguments alone.
#[verifier::external_body]
fn find_program_address(prefix: &[u8], key: &Address, program_id: &Address) -> (r: Option<(Address, u8)>)
    ensures
        derived_view(r) == program_address(prefix@, key@, program_id@),
{
    let program = anchor_lang::prelude::Pubkey::new_from_array(*program_id);
    match anchor_lang::prelude::Pubkey::try_find_program_address(&[prefix, key.as_slice()], &program) {
        Some((a, b)) => Some((a.to_bytes(), b)),
        None => None,
    }
}

/// The vault record's address and bump for the vault called `name`.
pub open spec fn spec_vault_address(program_id: Seq<u8>, name: Seq<u8>) -> Option<(Seq<u8>, u8)> {
    program_address(PREFIX_SEED@, name, program_id)
}

/// The custody account's address and bump for the vault at `vault`.
pub open spec fn spec_token_account_address(program_id: Seq<u8>, vault: Seq<u8>) -> Option<(Seq<u8>, u8)> {
    program_address(TOKEN_ACCOUNT_PREFIX_SEED@, vault, program_id)
}

/// The seed bytes, before the bump, from which the vault's address is hashed.
pub open spec fn vault_seed_bytes(name: Seq<u8>) -> Seq<u8> {
    PREFIX_SEED@ + name
}

/// Derives the vault record's address from the vault's name.
pub fn vault_address(program_id: &Address, name: &[u8; 32]) -> (r: Option<(Address, u8)>)
    ensures
        derived_view(r) == spec_vault_address(program_id@, name@),
{
    let prefix = PREFIX_SEED;
    find_program_address(prefix.as_slice(), name, program_id)
}

/// Derives the custody account's address from the vault record's address.
pub fn token_account_address(program_id: &Address, vault: &Address) -> (r: Option<(Address, u8)>)
    ensures
        derived_view(r) == spec_token_account_address(program_id@, vault@),
{
    let prefix = TOKEN_ACCOUNT_PREFIX_SEED;
    find_program_address(prefix.as_slice(), vault, program_id)
}

/// Deriving the vault's address twice from the same name, under the same
/// program, gives the same address and bump.
pub proof fn lemma_vault_address_deterministic(program_id: Seq<u8>, name1: Seq<u8>, name2: Seq<u8>)
    requires
        name1 == name2,
    ensures
        spec_vault_address(program_id, name1) == spec_vault_address(program_id, name2),
{
}

/// Distinct 32-byte names give distinct seed bytes for the vault's address.
/// That the hash of distinct seeds gives distinct addresses is a property of
/// the hash, which this crate does not state.
pub proof fn lemma_vault_seeds_distinct(name1: Seq<u8>, name2: Seq<u8>)
    requires
        name1.len() == 32,
        name2.len() == 32,
        name1 != name2,
    ensures
        vault_seed_bytes(name1) != vault_seed_bytes(name2),
{
    assert(PREFIX_SEED@.len() == 5);
    if vault_seed_bytes(name1) == vault_seed_bytes(name2) {
        assert(vault_seed_bytes(name1).subrange(5, 37) =~= name1);
        assert(vault_seed_bytes(name2).subrange(5, 37) =~= name2);
    }
}

} // verus!
