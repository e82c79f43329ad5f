//! Properties of the dispatcher as a whole, proved over the specifications
//! that the executable functions are held to.
use vstd::prelude::*;

use crate::account::AccountState;
use crate::error::DispatchError;
use crate::instruction::{lemma_decoding_is_encoding, lemma_encoding_decodes, Instruction};
use crate::processor::{first_violation, lemma_violation_from, outcome, requirement_error, validation};

verus! {

/// Decoding the encoding of any instruction yields that same instruction.
pub proof fn lemma_round_trip(ix: Instruction)
    ensures
        Instruction::decoding(ix.encoding()) == Some(ix),
{
    lemma_encoding_decodes(ix);
}

/// A payload that is the encoding of no instruction is rejected as
/// malformed, whatever the accounts.
pub proof fn lemma_unknown_payload_rejected(
    program_id: Seq<u8>,
    accounts: Seq<AccountState>,
    payload: Seq<u8>,
)
    requires
        forall|ix: Instruction| ix.encoding() != payload,
    ensures
        outcome(program_id, accounts, payload) == Err::<Seq<AccountState>, DispatchError>(
            DispatchError::MalformedInstruction,
        ),
{
    lemma_decoding_is_encoding(payload);
    if let Some(ix) = Instruction::decoding(payload) {
        assert(ix.encoding() == payload);
    }
}

/// One account fewer than an instruction requires is reported as too few
/// accounts.
pub proof fn lemma_one_account_short(
    ix: Instruction,
    program_id: Seq<u8>,
    accounts: Seq<AccountState>,
)
    requires
        accounts.len() + 1 == ix.account_requirements().len(),
    ensures
        outcome(program_id, accounts, ix.encoding()) == Err::<Seq<AccountState>, DispatchError>(
            DispatchError::NotEnoughAccounts,
        ),
{
    lemma_encoding_decodes(ix);
}

/// With enough accounts, and every account before position `k` meeting its
/// requirement, validation reports what the account at `k` breaks.
proof fn lemma_violation_at(
    ix: Instruction,
    program_id: Seq<u8>,
    accounts: Seq<AccountState>,
    k: int,
)
    requires
        accounts.len() >= ix.account_requirements().len(),
        0 <= k < ix.account_requirements().len(),
        forall|j: int|
            0 <= j < k ==> requirement_error(
                #[trigger] ix.account_requirements()[j],
                accounts[j],
                program_id,
            ) is None,
        requirement_error(ix.account_requirements()[k], accounts[k], program_id) is Some,
    ensures
        outcome(program_id, accounts, ix.encoding()) == Err::<Seq<AccountState>, DispatchError>(
            requirement_error(ix.account_requirements()[k], accounts[k], program_id)->0,
        ),
{
    let reqs = ix.account_requirements();
    lemma_encoding_decodes(ix);
    lemma_violation_from(reqs, accounts, program_id, k);
}

/// Clearing the signer flag of an account that must sign is reported as a
/// missing signature, provided the accounts before it are in order.
pub proof fn lemma_missing_signer(
    ix: Instruction,
    program_id: Seq<u8>,
    accounts: Seq<AccountState>,
    k: int,
)
    requires
        accounts.len() >= ix.account_requirements().len(),
        0 <= k < ix.account_requirements().len(),
        ix.account_requirements()[k].signer,
        forall|j: int|
            0 <= j < k ==> requirement_error(
                #[trigger] ix.account_requirements()[j],
                accounts[j],
                program_id,
            ) is None,
    ensures
        outcome(
            program_id,
            accounts.update(k, AccountState { is_signer: false, ..accounts[k] }),
            ix.encoding(),
        ) == Err::<Seq<AccountState>, DispatchError>(DispatchError::MissingRequiredSignature),
{
    let changed = accounts.update(k, AccountState { is_signer: false, ..accounts[k] });
    lemma_violation_at(ix, program_id, changed, k);
}

/// Giving an account that must belong to this program another owner is
/// reported as an incorrect owner, provided the account is otherwise in
/// order and so are the accounts before it.
pub proof fn lemma_foreign_owner(
    ix: Instruction,
    program_id: Seq<u8>,
    accounts: Seq<AccountState>,
    k: int,
    other: Seq<u8>,
)
    requires
        accounts.len() >= ix.account_requirements().len(),
        0 <= k < ix.account_requirements().len(),
        ix.account_requirements()[k].owned,
        other != program_id,
        ix.account_requirements()[k].signer ==> accounts[k].is_signer,
        ix.account_requirements()[k].writable ==> accounts[k].is_writable,
        forall|j: int|
            0 <= j < k ==> requirement_error(
                #[trigger] ix.account_requirements()[j],
                accounts[j],
                program_id,
            ) is None,
    ensures
        outcome(
            program_id,
            accounts.update(k, AccountState { owner: other, ..accounts[k] }),
            ix.encoding(),
        ) == Err::<Seq<AccountState>, DispatchError>(DispatchError::IncorrectProgramOwner),
{
    let changed = accounts.update(k, AccountState { owner: other, ..accounts[k] });
    lemma_violation_at(ix, program_id, changed, k);
}

/// Where an instruction expects distinct accounts, valid accounts that
/// repeat an address among them are rejected as duplicates.
pub proof fn lemma_duplicate_rejected(
    ix: Instruction,
    program_id: Seq<u8>,
    accounts: Seq<AccountState>,
    i: int,
    j: int,
)
    requires
        validation(ix.account_requirements(), accounts, program_id) is None,
        0 <= i < j < ix.distinct_count(),
        accounts[i].address == accounts[j].address,
    ensures
        outcome(program_id, accounts, ix.encoding()) == Err::<Seq<AccountState>, DispatchError>(
            DispatchError::DuplicateAccount,
        ),
{
    lemma_encoding_decodes(ix);
}

/// A successful invocation keeps the list of accounts and everything but
/// their data, and changes data only of writable accounts owned by this
/// program; one that expects distinct accounts succeeds only on distinct
/// addresses.
pub proof fn lemma_writes_confined(
    program_id: Seq<u8>,
    accounts: Seq<AccountState>,
    payload: Seq<u8>,
)
    ensures
        outcome(program_id, accounts, payload) matches Ok(after) ==> {
            &&& after.len() == accounts.len()
            &&& forall|i: int|
                0 <= i < accounts.len() ==> (#[trigger] after[i]).with_data(accounts[i].data)
                    == accounts[i]
            &&& forall|i: int|
                0 <= i < accounts.len() && (#[trigger] after[i]).data != accounts[i].data ==> {
                    &&& accounts[i].is_writable
                    &&& accounts[i].owner == program_id
                }
        },
        Instruction::decoding(payload) matches Some(ix) ==> (outcome(
            program_id,
            accounts,
            payload,
        ) is Ok ==> forall|i: int, j: int|
            0 <= i < j < ix.distinct_count() ==> accounts[i].address != accounts[j].address),
{
    if let Some(ix) = Instruction::decoding(payload) {
        let reqs = ix.account_requirements();
        if outcome(program_id, accounts, payload) is Ok {
            reveal_with_fuel(first_violation, 3);
            assert(validation(reqs, accounts, program_id) is None);
            assert(reqs.len() >= 1 ==> requirement_error(reqs[0], accounts[0], program_id) is None);
            assert(reqs.len() >= 2 ==> requirement_error(reqs[1], accounts[1], program_id) is None);
        }
    }
}

/// The instruction that does nothing succeeds on any accounts and leaves
/// them as they were.
pub proof fn lemma_noop_changes_nothing(program_id: Seq<u8>, accounts: Seq<AccountState>)
    ensures
        outcome(program_id, accounts, Instruction::Noop.encoding()) == Ok::<
            Seq<AccountState>,
            DispatchError,
        >(accounts),
{
    lemma_encoding_decodes(Instruction::Noop);
}

} // verus!
