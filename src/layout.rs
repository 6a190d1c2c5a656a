use vstd::prelude::*;
use crate::errors::Error;
use crate::state::{sum_prefix, vault_field_sizes, Vault, VAULT_SPACE};

verus! {

/// The bytes of `account:Vault`, whose hash gives the record's tag.
pub const VAULT_TAG_PREIMAGE: [u8; 13] = [97, 99, 99, 111, 117, 110, 116, 58, 86, 97, 117, 108, 116];

/// The SHA-256 digest of `data`.
pub uninterp spec fn sha256_of(data: Seq<u8>) -> Seq<u8>;

/// Relies on `hash::hash` of solana-program: the SHA-256 digest of `data`.
#[verifier::external_body]
fn sha256(data: &[u8]) -> (r: [u8; 32])
    ensures
        r@ == sha256_of(data@),
{
    anchor_lang::solana_program::hash::hash(data).to_bytes()
}

/// The tag that opens a vault record: the first eight bytes of the hash of
/// `account:Vault`.
pub open spec fn spec_vault_discriminator() -> Seq<u8> {
    sha256_of(VAULT_TAG_PREIMAGE@).subrange(0, 8)
}

/// The `n` low bytes of `x`, least significant first.
pub open spec fn le_bytes(x: nat, n: nat) -> Seq<u8>
    decreases n,
{
    if n == 0 {
        Seq::empty()
    } else {
        seq![(x % 256) as u8] + le_bytes(x / 256, (n - 1) as nat)
    }
}

/// The 64-bit two's complement encoding of `x`, as an unsigned number.
pub open spec fn twos64(x: i64) -> nat {
    if x >= 0 {
        x as nat
    } else {
        (x + 0x1_0000_0000_0000_0000) as nat
    }
}

/// The 64-bit two's complement encoding of `x`.
fn twos64_of(x: i64) -> (r: u128)
    ensures
        r as nat == twos64(x),
        r < 0x1_0000_0000_0000_0000,
{
    if x >= 0 {
        x as u128
    } else {
        (x as i128 + 0x1_0000_0000_0000_0000i128) as u128
    }
}

/// The record as it is stored: the tag, then each field in order, integers
/// little-endian, signed ones in two's complement.
pub open spec fn spec_vault_bytes(v: Vault) -> Seq<u8> {
    spec_vault_discriminator() + seq![v.bump] + v.name@ + v.pubkey@ + v.manager@ + v.token_account@
        + le_bytes(v.total_shares as nat, 16) + le_bytes(twos64(v.fee), 8) + le_bytes(twos64(v.ts), 8) + le_bytes(v.total_deposits as nat, 8) + le_bytes(v.total_withdraws as nat, 8) + le_bytes(
        v.min_deposit_amount as nat,
        8,
    )
}

proof fn lemma_le_bytes_len(x: nat, n: nat)
    ensures
        le_bytes(x, n).len() == n,
    decreases n,
{
    if n > 0 {
        lemma_le_bytes_len(x / 256, (n - 1) as nat);
    }
}

/// Appends the `n` low bytes of `x`, least significant first.
fn push_le(out: &mut Vec<u8>, x: u128, n: usize)
    ensures
        final(out)@ == old(out)@ + le_bytes(x as nat, n as nat),
{
    let mut v: u128 = x;
    let mut i: usize = 0;
    while i < n
        invariant
            i <= n,
            out@ + le_bytes(v as nat, (n - i) as nat) == old(out)@ + le_bytes(x as nat, n as nat),
        decreases n - i,
    {
        let ghost before = out@;
        out.push((v % 256) as u8);
        proof {
            assert(le_bytes(v as nat, (n - i) as nat) == seq![(v % 256) as u8] + le_bytes(
                (v / 256) as nat,
                (n - i - 1) as nat,
            ));
            assert(out@ + le_bytes((v / 256) as nat, (n - i - 1) as nat) =~= before + le_bytes(
                v as nat,
                (n - i) as nat,
            ));
        }
        v = v / 256;
        i = i + 1;
    }
    assert(out@ =~= out@ + le_bytes(v as nat, 0));
}

/// `256` to the power `n`.
pub open spec fn pow256(n: nat) -> nat
    decreases n,
{
    if n == 0 {
        1
    } else {
        256 * pow256((n - 1) as nat)
    }
}

/// The inverse of `twos64` on 64-bit numbers.
pub open spec fn from_twos64(u: nat) -> int {
    if u < 0x8000_0000_0000_0000 {
        u as int
    } else {
        u - 0x1_0000_0000_0000_0000
    }
}

proof fn lemma_le_bytes_injective(x: nat, y: nat, n: nat)
    requires
        x < pow256(n),
        y < pow256(n),
        le_bytes(x, n) == le_bytes(y, n),
    ensures
        x == y,
    decreases n,
{
    if n == 0 {
        assert(x == 0 && y == 0);
    } else {
        assert(le_bytes(x, n)[0] == (x % 256) as u8);
        assert(le_bytes(y, n)[0] == (y % 256) as u8);
        assert(x % 256 == y % 256);
        assert(le_bytes(x / 256, (n - 1) as nat) =~= le_bytes(x, n).subrange(1, le_bytes(x, n).len() as int));
        assert(le_bytes(y / 256, (n - 1) as nat) =~= le_bytes(y, n).subrange(1, le_bytes(y, n).len() as int));
        let p = pow256((n - 1) as nat);
        assert(x / 256 < p) by (nonlinear_arith)
            requires x < 256 * p;
        assert(y / 256 < p) by (nonlinear_arith)
            requires y < 256 * p;
        lemma_le_bytes_injective(x / 256, y / 256, (n - 1) as nat);
        assert(x == 256 * (x / 256) + x % 256) by (nonlinear_arith);
        assert(y == 256 * (y / 256) + y % 256) by (nonlinear_arith);
    }
}

/// Reads `n` bytes of `data` from `start` as a little-endian number.
fn read_le(data: &[u8], start: usize, n: usize) -> (r: u128)
    requires
        start + n <= data@.len(),
        n <= 16,
    ensures
        le_bytes(r as nat, n as nat) == data@.subrange(start as int, start + n),
        (r as nat) < pow256(n as nat),
{
    let len = data.len();
    let mut r: u128 = 0;
    let mut k: usize = n;
    proof {
        reveal_with_fuel(pow256, 17);
        assert(pow256(16) == 0x1_0000_0000_0000_0000_0000_0000_0000_0000);
    }
    while k > 0
        invariant
            k <= n,
            n <= 16,
            len == data@.len(),
            start + n <= data@.len(),
            le_bytes(r as nat, (n - k) as nat) == data@.subrange(start + k, start + n),
            (r as nat) < pow256((n - k) as nat),
            pow256((n - k) as nat) <= pow256(16),
            pow256(16) == 0x1_0000_0000_0000_0000_0000_0000_0000_0000,
        decreases k,
    {
        k = k - 1;
        let b = data[start + k];
        let ghost m: nat = (n - k - 1) as nat;
        let ghost p = pow256(m);
        proof {
            assert(pow256(m + 1) == 256 * p);
            assert((r as nat) * 256 + (b as nat) < 256 * p) by (nonlinear_arith)
                requires (r as nat) < p, (b as nat) < 256;
            lemma_pow256_mono((m + 1) as nat, 16);
        }
        let r2: u128 = r * 256 + b as u128;
        proof {
            assert(r2 % 256 == b as u128) by (nonlinear_arith)
                requires r2 == r * 256 + b as u128, b < 256;
            assert(r2 / 256 == r) by (nonlinear_arith)
                requires r2 == r * 256 + b as u128, b < 256;
            assert(le_bytes(r2 as nat, m + 1) == seq![b] + le_bytes(r as nat, m));
            assert(le_bytes(r2 as nat, m + 1) =~= data@.subrange(start + k, start + n));
        }
        r = r2;
    }
    r
}

proof fn lemma_pow256_mono(a: nat, b: nat)
    requires
        a <= b,
    ensures
        pow256(a) <= pow256(b),
    decreases b,
{
    if a < b {
        lemma_pow256_mono(a, (b - 1) as nat);
    }
}

/// Copies 32 bytes of `data` from `start`.
fn read_array(data: &[u8], start: usize) -> (r: [u8; 32])
    requires
        start + 32 <= data@.len(),
    ensures
        r@ == data@.subrange(start as int, start + 32),
{
    let len = data.len();
    let mut a: [u8; 32] = [0u8; 32];
    let mut i: usize = 0;
    while i < 32
        invariant
            i <= 32,
            start + 32 <= data@.len(),
            len == data@.len(),
            forall|k: int| 0 <= k < i ==> a@[k] == data@[start + k],
        decreases 32 - i,
    {
        a[i] = data[start + i];
        i = i + 1;
    }
    assert(a@ =~= data@.subrange(start as int, start + 32));
    a
}

/// Appends all of `bytes`.
fn push_all(out: &mut Vec<u8>, bytes: &[u8])
    ensures
        final(out)@ == old(out)@ + bytes@,
{
    let mut i: usize = 0;
    while i < bytes.len()
        invariant
            i <= bytes@.len(),
            out@ == old(out)@ + bytes@.subrange(0, i as int),
        decreases bytes@.len() - i,
    {
        out.push(bytes[i]);
        assert(bytes@.subrange(0, i + 1) =~= bytes@.subrange(0, i as int).push(bytes@[i as int]));
        i = i + 1;
    }
    assert(bytes@.subrange(0, bytes@.len() as int) =~= bytes@);
}

/// The record's tag.
pub fn vault_discriminator() -> (r: Vec<u8>)
    ensures
        r@ == spec_vault_discriminator(),
        r@.len() == 8,
{
    let preimage = VAULT_TAG_PREIMAGE;
    let digest = sha256(preimage.as_slice());
    let mut r: Vec<u8> = Vec::new();
    push_all(&mut r, &digest.as_slice()[0..8]);
    assert(r@ =~= spec_vault_discriminator());
    r
}

/// The signed number whose 64-bit two's complement encoding is `u`.
fn from_twos64_of(u: u128) -> (r: i64)
    requires
        u < 0x1_0000_0000_0000_0000,
    ensures
        r as int == from_twos64(u as nat),
{
    if u < 0x8000_0000_0000_0000 {
        u as i64
    } else {
        (u as i128 - 0x1_0000_0000_0000_0000i128) as i64
    }
}

proof fn lemma_twos64_round_trip(u: nat)
    requires
        u < 0x1_0000_0000_0000_0000,
    ensures
        i64::MIN <= from_twos64(u) <= i64::MAX,
        twos64(from_twos64(u) as i64) == u,
{
}

proof fn lemma_concat_split(a: Seq<u8>, b: Seq<u8>, c: Seq<u8>, d: Seq<u8>)
    requires
        a + b == c + d,
        b.len() == d.len(),
    ensures
        a == c,
        b == d,
{
    assert(a =~= (a + b).subrange(0, a.len() as int));
    assert(c =~= (c + d).subrange(0, c.len() as int));
    assert(b =~= (a + b).subrange(a.len() as int, (a + b).len() as int));
    assert(d =~= (c + d).subrange(c.len() as int, (c + d).len() as int));
}

/// Every record is stored in the same number of bytes, whatever its fields
/// hold: the tag, then the sum of the field sizes.
pub proof fn lemma_vault_bytes_len(v: Vault)
    ensures
        spec_vault_bytes(v).len() == spec_vault_discriminator().len() + sum_prefix(
            vault_field_sizes(),
            vault_field_sizes().len() as int,
        ),
{
    reveal_with_fuel(sum_prefix, 12);
    lemma_le_bytes_len(v.total_shares as nat, 16);
    lemma_le_bytes_len(twos64(v.fee), 8);
    lemma_le_bytes_len(twos64(v.ts), 8);
    lemma_le_bytes_len(v.total_deposits as nat, 8);
    lemma_le_bytes_len(v.total_withdraws as nat, 8);
    lemma_le_bytes_len(v.min_deposit_amount as nat, 8);
}

/// The stored bytes determine the record: two records stored as the same
/// bytes are the same record, so reading back what a record was stored as
/// gives that record.
pub proof fn lemma_vault_bytes_injective(v1: Vault, v2: Vault)
    requires
        spec_vault_bytes(v1) == spec_vault_bytes(v2),
    ensures
        v1 == v2,
{
    reveal_with_fuel(pow256, 17);
    lemma_le_bytes_len(v1.total_shares as nat, 16);
    lemma_le_bytes_len(v2.total_shares as nat, 16);
    lemma_le_bytes_len(twos64(v1.fee), 8);
    lemma_le_bytes_len(twos64(v2.fee), 8);
    lemma_le_bytes_len(twos64(v1.ts), 8);
    lemma_le_bytes_len(twos64(v2.ts), 8);
    lemma_le_bytes_len(v1.total_deposits as nat, 8);
    lemma_le_bytes_len(v2.total_deposits as nat, 8);
    lemma_le_bytes_len(v1.total_withdraws as nat, 8);
    lemma_le_bytes_len(v2.total_withdraws as nat, 8);
    lemma_le_bytes_len(v1.min_deposit_amount as nat, 8);
    lemma_le_bytes_len(v2.min_deposit_amount as nat, 8);
    let d = spec_vault_discriminator();
    let a0 = d + seq![v1.bump];
    let b0 = d + seq![v2.bump];
    let a1 = a0 + v1.name@;
    let b1 = b0 + v2.name@;
    let a2 = a1 + v1.pubkey@;
    let b2 = b1 + v2.pubkey@;
    let a3 = a2 + v1.manager@;
    let b3 = b2 + v2.manager@;
    let a4 = a3 + v1.token_account@;
    let b4 = b3 + v2.token_account@;
    let a5 = a4 + le_bytes(v1.total_shares as nat, 16);
    let b5 = b4 + le_bytes(v2.total_shares as nat, 16);
    let a6 = a5 + le_bytes(twos64(v1.fee), 8);
    let b6 = b5 + le_bytes(twos64(v2.fee), 8);
    let a7 = a6 + le_bytes(twos64(v1.ts), 8);
    let b7 = b6 + le_bytes(twos64(v2.ts), 8);
    let a8 = a7 + le_bytes(v1.total_deposits as nat, 8);
    let b8 = b7 + le_bytes(v2.total_deposits as nat, 8);
    let a9 = a8 + le_bytes(v1.total_withdraws as nat, 8);
    let b9 = b8 + le_bytes(v2.total_withdraws as nat, 8);
    lemma_concat_split(a9, le_bytes(v1.min_deposit_amount as nat, 8), b9, le_bytes(v2.min_deposit_amount as nat, 8));
    lemma_concat_split(a8, le_bytes(v1.total_withdraws as nat, 8), b8, le_bytes(v2.total_withdraws as nat, 8));
    lemma_concat_split(a7, le_bytes(v1.total_deposits as nat, 8), b7, le_bytes(v2.total_deposits as nat, 8));
    lemma_concat_split(a6, le_bytes(twos64(v1.ts), 8), b6, le_bytes(twos64(v2.ts), 8));
    lemma_concat_split(a5, le_bytes(twos64(v1.fee), 8), b5, le_bytes(twos64(v2.fee), 8));
    lemma_concat_split(a4, le_bytes(v1.total_shares as nat, 16), b4, le_bytes(v2.total_shares as nat, 16));
    lemma_concat_split(a3, v1.token_account@, b3, v2.token_account@);
    lemma_concat_split(a2, v1.manager@, b2, v2.manager@);
    lemma_concat_split(a1, v1.pubkey@, b1, v2.pubkey@);
    lemma_concat_split(a0, v1.name@, b0, v2.name@);
    lemma_concat_split(d, seq![v1.bump], d, seq![v2.bump]);
    assert(seq![v1.bump][0] == seq![v2.bump][0]);
    lemma_le_bytes_injective(v1.min_deposit_amount as nat, v2.min_deposit_amount as nat, 8);
    lemma_le_bytes_injective(v1.total_withdraws as nat, v2.total_withdraws as nat, 8);
    lemma_le_bytes_injective(v1.total_deposits as nat, v2.total_deposits as nat, 8);
    lemma_le_bytes_injective(twos64(v1.ts), twos64(v2.ts), 8);
    lemma_le_bytes_injective(twos64(v1.fee), twos64(v2.fee), 8);
    lemma_le_bytes_injective(v1.total_shares as nat, v2.total_shares as nat, 16);
    assert(v1.name =~= v2.name);
    assert(v1.pubkey =~= v2.pubkey);
    assert(v1.manager =~= v2.manager);
    assert(v1.token_account =~= v2.token_account);
}

impl Vault {
    /// The record as it is stored on the ledger; always `VAULT_SPACE` bytes.
    pub fn to_bytes(&self) -> (r: Vec<u8>)
        ensures
            r@ == spec_vault_bytes(*self),
            r@.len() == VAULT_SPACE,
    {
        let mut out = vault_discriminator();
        out.push(self.bump);
        push_all(&mut out, self.name.as_slice());
        push_all(&mut out, self.pubkey.as_slice());
        push_all(&mut out, self.manager.as_slice());
        push_all(&mut out, self.token_account.as_slice());
        push_le(&mut out, self.total_shares, 16);
        push_le(&mut out, twos64_of(self.fee), 8);
        push_le(&mut out, twos64_of(self.ts), 8);
        push_le(&mut out, self.total_deposits as u128, 8);
        push_le(&mut out, self.total_withdraws as u128, 8);
        push_le(&mut out, self.min_deposit_amount as u128, 8);
        proof {
            lemma_le_bytes_len(self.total_shares as nat, 16);
            lemma_le_bytes_len(twos64(self.fee), 8);
            lemma_le_bytes_len(twos64(self.ts), 8);
            lemma_le_bytes_len(self.total_deposits as nat, 8);
            lemma_le_bytes_len(self.total_withdraws as nat, 8);
            lemma_le_bytes_len(self.min_deposit_amount as nat, 8);
            assert(out@ =~= spec_vault_bytes(*self));
        }
        out
    }

    /// Reads a record from stored bytes: they open with the record's tag and
    /// hold at least `VAULT_SPACE` bytes, the first `VAULT_SPACE` of which are
    /// the record's encoding; anything else is not a vault record.
    pub fn try_from_bytes(data: &[u8]) -> (r: Result<Vault, Error>)
        ensures
            r is Ok <==> data@.len() >= VAULT_SPACE && data@.subrange(0, 8) == spec_vault_discriminator(),
            r matches Ok(v) ==> spec_vault_bytes(v) == data@.subrange(0, VAULT_SPACE as int),
            r matches Err(e) ==> e == Error::InvalidAccount,
    {
        if data.len() < VAULT_SPACE {
            return Err(Error::InvalidAccount);
        }
        let tag = vault_discriminator();
        let mut i: usize = 0;
        while i < 8
            invariant
                i <= 8,
                tag@.len() == 8,
                tag@ == spec_vault_discriminator(),
                data@.len() >= VAULT_SPACE,
                forall|k: int| 0 <= k < i ==> data@[k] == tag@[k],
            decreases 8 - i,
        {
            if data[i] != tag[i] {
                proof {
                    assert(data@.subrange(0, 8)[i as int] == data@[i as int]);
                    assert(data@.subrange(0, 8) != spec_vault_discriminator());
                }
                return Err(Error::InvalidAccount);
            }
            i = i + 1;
        }
        assert(data@.subrange(0, 8) =~= tag@);
        let shares = read_le(data, 137, 16);
        let fee = read_le(data, 153, 8);
        let ts = read_le(data, 161, 8);
        let deposits = read_le(data, 169, 8);
        let withdraws = read_le(data, 177, 8);
        let min_deposit = read_le(data, 185, 8);
        proof {
            reveal_with_fuel(pow256, 17);
            lemma_twos64_round_trip(fee as nat);
            lemma_twos64_round_trip(ts as nat);
        }
        let v = Vault {
            bump: data[8],
            name: read_array(data, 9),
            pubkey: read_array(data, 41),
            manager: read_array(data, 73),
            token_account: read_array(data, 105),
            total_shares: shares,
            fee: from_twos64_of(fee),
            ts: from_twos64_of(ts),
            total_deposits: deposits as u64,
            total_withdraws: withdraws as u64,
            min_deposit_amount: min_deposit as u64,
        };
        proof {
            let s = data@;
            assert(s.subrange(8, 9) =~= seq![v.bump]);
            assert(s.subrange(0, VAULT_SPACE as int) =~= s.subrange(0, 8) + s.subrange(8, 9) + s.subrange(9, 41)
                + s.subrange(41, 73) + s.subrange(73, 105) + s.subrange(105, 137) + s.subrange(137, 153)
                + s.subrange(153, 161) + s.subrange(161, 169) + s.subrange(169, 177) + s.subrange(177, 185)
                + s.subrange(185, 193));
            assert(twos64(v.fee) == fee as nat);
            assert(twos64(v.ts) == ts as nat);
        }
        Ok(v)
    }
}

} // verus!
