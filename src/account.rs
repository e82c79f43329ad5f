use vstd::prelude::*;

use crate::instruction::{from_le, le_bytes, push_le, read_le};

verus! {

/// The length of an account address or a program identifier.
pub const KEY_LEN: usize = 32;

/// An account as the host hands it to one invocation.
#[derive(Debug, Clone)]
pub struct AccountRef {
    pub address: [u8; 32],
    /// The account's holder authorized this invocation.
    pub is_signer: bool,
    /// The invocation may change the account.
    pub is_writable: bool,
    /// The program that owns the account.
    pub owner: [u8; 32],
    pub lamports: u64,
    pub data: Vec<u8>,
}

/// What an account holds, as plain values.
pub struct AccountState {
    pub address: Seq<u8>,
    pub is_signer: bool,
    pub is_writable: bool,
    pub owner: Seq<u8>,
    pub lamports: u64,
    pub data: Seq<u8>,
}

impl AccountState {
    /// The same account with its data buffer replaced.
    pub open spec fn with_data(self, data: Seq<u8>) -> AccountState {
        AccountState { data, ..self }
    }
}

impl View for AccountRef {
    type V = AccountState;

    open spec fn view(&self) -> AccountState {
        AccountState {
            address: self.address@,
            is_signer: self.is_signer,
            is_writable: self.is_writable,
            owner: self.owner@,
            lamports: self.lamports,
            data: self.data@,
        }
    }
}

/// The states of a list of accounts.
pub open spec fn accounts_view(accounts: Seq<AccountRef>) -> Seq<AccountState> {
    accounts.map_values(|a: AccountRef| a@)
}

/// What an instruction demands of one of its accounts.
#[derive(Debug, Clone, Copy, PartialEq, Eq, Structural)]
pub struct AccountRequirement {
    pub signer: bool,
    pub writable: bool,
    /// The account must be owned by this program.
    pub owned: bool,
}

/// Whether two keys are equal.
pub fn same_key(a: &[u8; 32], b: &[u8; 32]) -> (r: bool)
    ensures
        r == (a@ == b@),
{
    let mut i: usize = 0;
    while i < KEY_LEN
        invariant
            i <= KEY_LEN,
            a@.len() == KEY_LEN,
            b@.len() == KEY_LEN,
            forall|j: int| 0 <= j < i ==> a@[j] == b@[j],
        decreases KEY_LEN - i,
    {
        if a[i] != b[i] {
            return false;
        }
        i = i + 1;
    }
    assert(a@ =~= b@);
    true
}

/// The counter kept little-endian in the first eight bytes of a state
/// account's data.
pub open spec fn counter_of(data: Seq<u8>) -> u64
    recommends
        data.len() >= 8,
{
    from_le(data.subrange(0, 8))
}

/// The data with its counter replaced by `v`; the rest stays.
pub open spec fn with_counter(data: Seq<u8>, v: u64) -> Seq<u8> {
    le_bytes(v) + data.subrange(8, data.len() as int)
}

/// Reads the counter of a state account's data.
pub fn load_counter(data: &Vec<u8>) -> (r: u64)
    requires
        data@.len() >= 8,
    ensures
        r == counter_of(data@),
{
    read_le(data.as_slice(), 0)
}

/// Overwrites the counter of a state account's data with `v`.
pub fn store_counter(data: &mut Vec<u8>, v: u64)
    requires
        old(data)@.len() >= 8,
    ensures
        final(data)@ == with_counter(old(data)@, v),
{
    let mut out: Vec<u8> = Vec::new();
    push_le(&mut out, v);
    let mut i: usize = 8;
    while i < data.len()
        invariant
            8 <= i <= data@.len(),
            out@ == le_bytes(v) + data@.subrange(8, i as int),
        decreases data@.len() - i,
    {
        out.push(data[i]);
        assert(data@.subrange(8, i + 1) =~= data@.subrange(8, i as int).push(data@[i as int]));
        i = i + 1;
    }
    *data = out;
}

} // verus!
