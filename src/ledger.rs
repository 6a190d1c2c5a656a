use vstd::prelude::*;
use crate::address::Address;
use crate::errors::Error;
use crate::state::Vault;

verus! {

/// The largest account data length the ledger allows.
pub const MAX_PERMITTED_DATA_LENGTH: usize = 10485760;

/// What an account on the ledger holds.
#[derive(Clone, Copy, Debug)]
pub enum AccountData {
    /// A plain account that only holds lamports.
    Wallet,
    /// A token type descriptor.
    Mint,
    /// A token-holding account of type `mint` whose spending authority is
    /// `authority`.
    TokenAccount { mint: Address, authority: Address },
    /// A vault record.
    Vault(Vault),
}

/// One account on the ledger.
#[derive(Clone, Copy, Debug)]
pub struct AccountEntry {
    pub address: Address,
    pub lamports: u64,
    /// Bytes of storage allocated to the account.
    pub space: usize,
    pub data: AccountData,
}

/// The ledger: a store of accounts keyed by address.
pub struct Ledger {
    pub accounts: Vec<AccountEntry>,
}

/// The lamports that keep an account of `data_len` bytes free of rent under
/// the default rent rules: 3480 lamports per byte-year, for two years, over
/// the data and 128 bytes of overhead.
pub open spec fn rent_exempt_minimum(data_len: int) -> int {
    (128 + data_len) * 6960
}

/// Relies on `Rent::minimum_balance` of solana-program over `Rent::default()`:
/// `(128 + data_len) * 3480` as a float, times 2.0, as an integer. Up to the
/// ledger's largest account the product stays below 2^53, so it is exact.
#[verifier::external_body]
pub(crate) fn minimum_balance(data_len: usize) -> (r: u64)
    requires
        data_len <= MAX_PERMITTED_DATA_LENGTH,
    ensures
        r as int == rent_exempt_minimum(data_len as int),
{
    anchor_lang::prelude::Rent::default().minimum_balance(data_len)
}

/// Whether some account of `l` lives at `addr`.
pub open spec fn has_account(l: Seq<AccountEntry>, addr: Seq<u8>) -> bool {
    exists|i: int| 0 <= i < l.len() && (#[trigger] l[i]).address@ == addr
}

/// The position of the account at `addr`, where there is one.
pub open spec fn index_of(l: Seq<AccountEntry>, addr: Seq<u8>) -> int {
    choose|i: int| 0 <= i < l.len() && (#[trigger] l[i]).address@ == addr
}

/// The lamports held at `addr`; none where no account lives there.
pub open spec fn balance_of(l: Seq<AccountEntry>, addr: Seq<u8>) -> int {
    if has_account(l, addr) {
        l[index_of(l, addr)].lamports as int
    } else {
        0
    }
}

/// Whether a token type descriptor lives at `addr`.
pub open spec fn is_mint(l: Seq<AccountEntry>, addr: Seq<u8>) -> bool {
    has_account(l, addr) && l[index_of(l, addr)].data is Mint
}

/// No two accounts share an address.
pub open spec fn addresses_unique(l: Seq<AccountEntry>) -> bool {
    forall|i: int, j: int|
        0 <= i < l.len() && 0 <= j < l.len() && i != j ==> (#[trigger] l[i]).address@ != (#[trigger] l[j]).address@
}

/// Whether two addresses are the same.
pub fn same_address(a: &Address, b: &Address) -> (r: bool)
    ensures
        r == (a@ == b@),
{
    let mut i: usize = 0;
    while i < 32
        invariant
            i <= 32,
            a@.len() == 32,
            b@.len() == 32,
            forall|k: int| 0 <= k < i ==> a@[k] == b@[k],
        decreases 32 - i,
    {
        if a[i] != b[i] {
            return false;
        }
        i = i + 1;
    }
    assert(a@ =~= b@);
    true
}

impl Ledger {
    /// The accounts of the ledger.
    pub open spec fn view(&self) -> Seq<AccountEntry> {
        self.accounts@
    }

    /// Well-formed: every address holds at most one account.
    pub open spec fn wf(&self) -> bool {
        addresses_unique(self@)
    }

    /// An empty ledger.
    pub fn new() -> (r: Ledger)
        ensures
            r@ == Seq::<AccountEntry>::empty(),
            r.wf(),
    {
        Ledger { accounts: Vec::new() }
    }

    /// The position of the account at `addr`, or `None` where there is none.
    pub fn find(&self, addr: &Address) -> (r: Option<usize>)
        requires
            self.wf(),
        ensures
            r matches Some(i) ==> i < self@.len() && self@[i as int].address@ == addr@
                && i == index_of(self@, addr@),
            r is None <==> !has_account(self@, addr@),
    {
        let mut i: usize = 0;
        while i < self.accounts.len()
            invariant
                i <= self@.len(),
                self.wf(),
                forall|k: int| 0 <= k < i ==> (#[trigger] self@[k]).address@ != addr@,
            decreases self@.len() - i,
        {
            if same_address(&self.accounts[i].address, addr) {
                proof {
                    assert(self@[i as int].address@ == addr@);
                    assert(has_account(self@, addr@));
                    let j = index_of(self@, addr@);
                    assert(self@[j].address@ == addr@);
                    assert(j == i);
                }
                return Some(i);
            }
            i = i + 1;
        }
        None
    }

    /// The lamports held at `addr`; zero where no account lives there.
    pub fn balance(&self, addr: &Address) -> (r: u64)
        requires
            self.wf(),
        ensures
            r as int == balance_of(self@, addr@),
    {
        match self.find(addr) {
            Some(i) => self.accounts[i].lamports,
            None => 0,
        }
    }

    /// Creates `entry` where its address is free; fails, leaving the ledger as
    /// it was, where an account already lives there.
    pub fn insert_if_absent(&mut self, entry: AccountEntry) -> (r: Result<(), Error>)
        requires
            old(self).wf(),
        ensures
            final(self).wf(),
            has_account(old(self)@, entry.address@) ==> r == Err::<(), Error>(Error::AccountAlreadyExists)
                && final(self)@ == old(self)@,
            !has_account(old(self)@, entry.address@) ==> r is Ok && final(self)@ == old(self)@.push(entry),
    {
        match self.find(&entry.address) {
            Some(_) => Err(Error::AccountAlreadyExists),
            None => {
                self.accounts.push(entry);
                proof {
                    assert forall|i: int, j: int|
                        0 <= i < self@.len() && 0 <= j < self@.len() && i != j
                        implies (#[trigger] self@[i]).address@ != (#[trigger] self@[j]).address@ by {
                        if i == self@.len() - 1 {
                            assert(old(self)@[j] == self@[j]);
                        } else if j == self@.len() - 1 {
                            assert(old(self)@[i] == self@[i]);
                        } else {
                            assert(old(self)@[i] == self@[i]);
                            assert(old(self)@[j] == self@[j]);
                        }
                    }
                }
                Ok(())
            }
        }
    }
}

} // verus!
