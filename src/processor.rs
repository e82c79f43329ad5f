use vstd::prelude::*;

use crate::account::{
    accounts_view, counter_of, load_counter, same_key, store_counter, with_counter, AccountRef,
    AccountRequirement, AccountState,
};
use crate::error::DispatchError;
use crate::instruction::Instruction;

verus! {

/// The first requirement that `account` breaks, checked in the order
/// signer, writable, owner.
pub open spec fn requirement_error(
    req: AccountRequirement,
    account: AccountState,
    program_id: Seq<u8>,
) -> Option<DispatchError> {
    if req.signer && !account.is_signer {
        Some(DispatchError::MissingRequiredSignature)
    } else if req.writable && !account.is_writable {
        Some(DispatchError::AccountNotWritable)
    } else if req.owned && account.owner != program_id {
        Some(DispatchError::IncorrectProgramOwner)
    } else {
        None
    }
}

/// The error of the first account from position `k` on that breaks its
/// requirement.
pub open spec fn first_violation(
    reqs: Seq<AccountRequirement>,
    accounts: Seq<AccountState>,
    program_id: Seq<u8>,
    k: int,
) -> Option<DispatchError>
    decreases reqs.len() - k,
{
    if 0 <= k < reqs.len() {
        match requirement_error(reqs[k], accounts[k], program_id) {
            Some(e) => Some(e),
            None => first_violation(reqs, accounts, program_id, k + 1),
        }
    } else {
        None
    }
}

/// The error that validating `accounts` against `reqs` reports, if any:
/// too few accounts first, then the first broken requirement.
pub open spec fn validation(
    reqs: Seq<AccountRequirement>,
    accounts: Seq<AccountState>,
    program_id: Seq<u8>,
) -> Option<DispatchError> {
    if accounts.len() < reqs.len() {
        Some(DispatchError::NotEnoughAccounts)
    } else {
        first_violation(reqs, accounts, program_id, 0)
    }
}

/// The first `n` accounts have pairwise different addresses.
pub open spec fn distinct_addresses(accounts: Seq<AccountState>, n: int) -> bool {
    forall|i: int, j: int|
        0 <= i < n && 0 <= j < n && i != j ==> accounts[i].address != accounts[j].address
}

/// What an instruction's handler does to accounts that passed validation.
pub open spec fn execution(ix: Instruction, accounts: Seq<AccountState>) -> Result<
    Seq<AccountState>,
    DispatchError,
> {
    match ix {
        Instruction::Noop => Ok(accounts),
        Instruction::Initialize { value } => {
            let state = accounts[0];
            if state.data.len() < 8 {
                Err(DispatchError::AccountDataTooSmall)
            } else {
                Ok(accounts.update(0, state.with_data(with_counter(state.data, value))))
            }
        },
        Instruction::Transfer { amount } => {
            let from = accounts[0];
            let to = accounts[1];
            if from.data.len() < 8 || to.data.len() < 8 {
                Err(DispatchError::AccountDataTooSmall)
            } else if counter_of(from.data) < amount {
                Err(DispatchError::InsufficientFunds)
            } else if counter_of(to.data) + amount > u64::MAX {
                Err(DispatchError::ArithmeticOverflow)
            } else {
                let debited = (counter_of(from.data) - amount) as u64;
                let credited = (counter_of(to.data) + amount) as u64;
                Ok(
                    accounts.update(0, from.with_data(with_counter(from.data, debited))).update(
                        1,
                        to.with_data(with_counter(to.data, credited)),
                    ),
                )
            }
        },
    }
}

/// The result of one invocation: the accounts afterwards, or the error.
pub open spec fn outcome(
    program_id: Seq<u8>,
    accounts: Seq<AccountState>,
    payload: Seq<u8>,
) -> Result<Seq<AccountState>, DispatchError> {
    match Instruction::decoding(payload) {
        None => Err(DispatchError::MalformedInstruction),
        Some(ix) => match validation(ix.account_requirements(), accounts, program_id) {
            Some(e) => Err(e),
            None => if !distinct_addresses(accounts, ix.distinct_count() as int) {
                Err(DispatchError::DuplicateAccount)
            } else {
                execution(ix, accounts)
            },
        },
    }
}

/// Requirements that hold up to position `k` leave the verdict to the rest.
pub proof fn lemma_violation_from(
    reqs: Seq<AccountRequirement>,
    accounts: Seq<AccountState>,
    program_id: Seq<u8>,
    k: int,
)
    requires
        0 <= k <= reqs.len(),
        forall|j: int|
            0 <= j < k ==> requirement_error(#[trigger] reqs[j], accounts[j], program_id) is None,
    ensures
        first_violation(reqs, accounts, program_id, 0) == first_violation(
            reqs,
            accounts,
            program_id,
            k,
        ),
    decreases k,
{
    if k > 0 {
        lemma_violation_from(reqs, accounts, program_id, k - 1);
    }
}

/// Checks `accounts` against `reqs`, in order, and reports the first
/// failure.
pub fn validate_accounts(
    program_id: &[u8; 32],
    reqs: &Vec<AccountRequirement>,
    accounts: &Vec<AccountRef>,
) -> (r: Result<(), DispatchError>)
    ensures
        r == match validation(reqs@, accounts_view(accounts@), program_id@) {
            Some(e) => Err(e),
            None => Ok(()),
        },
{
    let ghost view = accounts_view(accounts@);
    if accounts.len() < reqs.len() {
        return Err(DispatchError::NotEnoughAccounts);
    }
    let mut k: usize = 0;
    while k < reqs.len()
        invariant
            k <= reqs@.len() <= accounts@.len(),
            view == accounts_view(accounts@),
            first_violation(reqs@, view, program_id@, 0) == first_violation(
                reqs@,
                view,
                program_id@,
                k as int,
            ),
        decreases reqs@.len() - k,
    {
        let req = reqs[k];
        let account = &accounts[k];
        assert(view[k as int] == account@);
        if req.signer && !account.is_signer {
            return Err(DispatchError::MissingRequiredSignature);
        }
        if req.writable && !account.is_writable {
            return Err(DispatchError::AccountNotWritable);
        }
        if req.owned && !same_key(&account.owner, program_id) {
            return Err(DispatchError::IncorrectProgramOwner);
        }
        k = k + 1;
    }
    Ok(())
}

/// Whether the first `n` accounts have pairwise different addresses.
pub fn addresses_distinct(accounts: &Vec<AccountRef>, n: usize) -> (r: bool)
    requires
        n <= accounts@.len(),
    ensures
        r == distinct_addresses(accounts_view(accounts@), n as int),
{
    let ghost view = accounts_view(accounts@);
    let mut i: usize = 0;
    while i < n
        invariant
            i <= n <= accounts@.len(),
            view == accounts_view(accounts@),
            forall|p: int, q: int|
                0 <= p < i && p < q < n ==> view[p].address != view[q].address,
        decreases n - i,
    {
        let mut j: usize = i + 1;
        while j < n
            invariant
                i < n <= accounts@.len(),
                i + 1 <= j <= n,
                view == accounts_view(accounts@),
                forall|p: int, q: int|
                    0 <= p < i && p < q < n ==> view[p].address != view[q].address,
                forall|q: int| i < q < j ==> view[i as int].address != view[q].address,
            decreases n - j,
        {
            if same_key(&accounts[i].address, &accounts[j].address) {
                assert(!distinct_addresses(view, n as int)) by {
                    assert(view[i as int].address == view[j as int].address);
                }
                return false;
            }
            j = j + 1;
        }
        i = i + 1;
    }
    assert(distinct_addresses(view, n as int)) by {
        assert forall|p: int, q: int|
            0 <= p < n && 0 <= q < n && p != q implies view[p].address != view[q].address by {
            if q < p {
                assert(view[q].address != view[p].address);
            }
        }
    }
    true
}

/// Stores `value` as the counter of the first account.
fn initialize(accounts: &mut Vec<AccountRef>, value: u64) -> (r: Result<(), DispatchError>)
    requires
        old(accounts)@.len() >= 1,
    ensures
        match execution(Instruction::Initialize { value }, accounts_view(old(accounts)@)) {
            Ok(after) => r is Ok && accounts_view(final(accounts)@) == after,
            Err(e) => r == Err::<(), DispatchError>(e) && final(accounts)@ == old(accounts)@,
        },
{
    if accounts[0].data.len() < 8 {
        return Err(DispatchError::AccountDataTooSmall);
    }
    let ghost before = accounts_view(accounts@);
    store_counter(&mut accounts[0].data, value);
    assert(accounts_view(accounts@) =~= before.update(
        0,
        before[0].with_data(with_counter(before[0].data, value)),
    ));
    Ok(())
}

/// Moves `amount` from the counter of the first account to the second's.
fn transfer(accounts: &mut Vec<AccountRef>, amount: u64) -> (r: Result<(), DispatchError>)
    requires
        old(accounts)@.len() >= 2,
    ensures
        match execution(Instruction::Transfer { amount }, accounts_view(old(accounts)@)) {
            Ok(after) => r is Ok && accounts_view(final(accounts)@) == after,
            Err(e) => r == Err::<(), DispatchError>(e) && final(accounts)@ == old(accounts)@,
        },
{
    if accounts[0].data.len() < 8 || accounts[1].data.len() < 8 {
        return Err(DispatchError::AccountDataTooSmall);
    }
    let from_balance = load_counter(&accounts[0].data);
    let to_balance = load_counter(&accounts[1].data);
    if from_balance < amount {
        return Err(DispatchError::InsufficientFunds);
    }
    if to_balance > u64::MAX - amount {
        return Err(DispatchError::ArithmeticOverflow);
    }
    let ghost before = accounts_view(accounts@);
    store_counter(&mut accounts[0].data, from_balance - amount);
    store_counter(&mut accounts[1].data, to_balance + amount);
    assert(accounts_view(accounts@) =~= before.update(
        0,
        before[0].with_data(with_counter(before[0].data, (from_balance - amount) as u64)),
    ).update(1, before[1].with_data(with_counter(before[1].data, (to_balance + amount) as u64))));
    Ok(())
}

/// The program's entry point: decodes the payload, validates the accounts
/// against the instruction's requirements and runs its handler.
///
/// Nothing is written before every check has passed, so a failed
/// invocation leaves every account as it was.
pub fn process_instruction(
    program_id: &[u8; 32],
    accounts: &mut Vec<AccountRef>,
    instruction_data: &[u8],
) -> (r: Result<(), DispatchError>)
    ensures
        match outcome(program_id@, accounts_view(old(accounts)@), instruction_data@) {
            Ok(after) => r is Ok && accounts_view(final(accounts)@) == after,
            Err(e) => r == Err::<(), DispatchError>(e) && final(accounts)@ == old(accounts)@,
        },
{
    let ix = match Instruction::unpack(instruction_data) {
        Ok(ix) => ix,
        Err(e) => return Err(e),
    };
    let reqs = ix.requirements();
    match validate_accounts(program_id, &reqs, accounts) {
        Ok(()) => {},
        Err(e) => return Err(e),
    }
    if !addresses_distinct(accounts, ix.distinct_accounts()) {
        return Err(DispatchError::DuplicateAccount);
    }
    match ix {
        Instruction::Noop => Ok(()),
        Instruction::Initialize { value } => initialize(accounts, value),
        Instruction::Transfer { amount } => transfer(accounts, amount),
    }
}

} // verus!
