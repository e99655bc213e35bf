//! The laws of the handler, stated over `spec_process` and proved once and
//! for all. The codec's round-trip law lives beside the codec itself
//! (`crate::codec::lemma_round_trip`).

use vstd::prelude::*;
use crate::codec::{lemma_encode_len, lemma_round_trip, spec_decode, spec_encode};
use crate::handler::{config_wf, spec_process, updated_record, AccountModel, ConfigModel};
use crate::record::{encoded_len, RecordModel};
use crate::HandlerError;

verus! {

/// Empty-list guard: invoking with no accounts fails with `MissingAccount`
/// and touches no buffer.
pub proof fn lemma_empty_list_guard(
    program_id: Seq<u8>,
    accounts: Seq<AccountModel>,
    config: ConfigModel,
)
    requires
        accounts.len() == 0,
    ensures
        spec_process(program_id, accounts, config) == (
            accounts,
            Err::<(), HandlerError>(HandlerError::MissingAccount),
        ),
{
}

/// Ownership gate: when the first account's owner differs from the invoking
/// identity, the invocation fails with `IncorrectOwner` and every account is
/// left byte-for-byte unchanged.
pub proof fn lemma_ownership_gate(
    program_id: Seq<u8>,
    accounts: Seq<AccountModel>,
    config: ConfigModel,
)
    requires
        accounts.len() > 0,
        accounts[0].owner != program_id,
    ensures
        spec_process(program_id, accounts, config) == (
            accounts,
            Err::<(), HandlerError>(HandlerError::IncorrectOwner),
        ),
{
}

/// Corruption guard: when the first account's buffer does not decode as a
/// record, the invocation fails with `MalformedRecord` and every account is
/// left byte-for-byte unchanged.
pub proof fn lemma_corruption_guard(
    program_id: Seq<u8>,
    accounts: Seq<AccountModel>,
    config: ConfigModel,
)
    requires
        accounts.len() > 0,
        accounts[0].owner == program_id,
        spec_decode(accounts[0].data) is None,
    ensures
        spec_process(program_id, accounts, config) == (
            accounts,
            Err::<(), HandlerError>(HandlerError::MalformedRecord),
        ),
{
}

/// Capacity guard: when the stored record decodes but the updated record's
/// encoding would exceed the buffer, the invocation fails with
/// `EncodingOverflow` and every account is left byte-for-byte unchanged.
pub proof fn lemma_capacity_guard(
    program_id: Seq<u8>,
    accounts: Seq<AccountModel>,
    config: ConfigModel,
    m: RecordModel,
)
    requires
        accounts.len() > 0,
        accounts[0].owner == program_id,
        spec_decode(accounts[0].data) == Some(m),
        config_wf(config),
        encoded_len(updated_record(m, config)) > accounts[0].data.len(),
    ensures
        spec_process(program_id, accounts, config) == (
            accounts,
            Err::<(), HandlerError>(HandlerError::EncodingOverflow),
        ),
{
    lemma_encode_len(updated_record(m, config));
}

/// Monotonic sequence: a well-formed stored record owned by the invoking
/// identity, with room for the updated encoding, is rewritten so that its
/// counter steps by one and its text fields take the configured values; the
/// rewritten prefix decodes back to exactly that record, and the buffer's
/// length never changes.
pub proof fn lemma_monotonic_sequence(
    program_id: Seq<u8>,
    accounts: Seq<AccountModel>,
    config: ConfigModel,
    m: RecordModel,
)
    requires
        accounts.len() > 0,
        accounts[0].owner == program_id,
        spec_decode(accounts[0].data) == Some(m),
        config_wf(config),
        encoded_len(updated_record(m, config)) <= accounts[0].data.len(),
    ensures
        ({
            let u = updated_record(m, config);
            let outcome = spec_process(program_id, accounts, config);
            &&& outcome.1 == Ok::<(), HandlerError>(())
            &&& m.uniqueid < u32::MAX ==> u.uniqueid == m.uniqueid + 1
            &&& u.bridename == config.bridename
            &&& u.groomname == config.groomname
            &&& u.timestamp == config.timestamp
            &&& outcome.0[0].data.subrange(0, encoded_len(u)) == spec_encode(u)
            &&& spec_decode(spec_encode(u)) == Some(u)
            &&& outcome.0[0].data.len() == accounts[0].data.len()
            &&& outcome.0[0].owner == accounts[0].owner
            &&& outcome.0.len() == accounts.len()
        }),
{
    let u = updated_record(m, config);
    lemma_encode_len(u);
    lemma_round_trip(u);
    let e = spec_encode(u);
    let outcome = spec_process(program_id, accounts, config);
    assert(outcome.0[0].data.subrange(0, e.len() as int) =~= e);
}

/// Idempotent no-op on failure: a failed invocation leaves the accounts
/// exactly as they were, so invoking again with the same identity and
/// configuration fails with the same error.
pub proof fn lemma_failure_idempotent(
    program_id: Seq<u8>,
    accounts: Seq<AccountModel>,
    config: ConfigModel,
    e: HandlerError,
)
    requires
        spec_process(program_id, accounts, config).1 == Err::<(), HandlerError>(e),
    ensures
        spec_process(program_id, accounts, config).0 == accounts,
        spec_process(program_id, spec_process(program_id, accounts, config).0, config) == (
            accounts,
            Err::<(), HandlerError>(e),
        ),
{
}

/// The handler never creates, destroys, or resizes a storage slot: whatever
/// the outcome, the account list keeps its length, every owner is unchanged,
/// and every buffer keeps its byte length.
pub proof fn lemma_slots_preserved(
    program_id: Seq<u8>,
    accounts: Seq<AccountModel>,
    config: ConfigModel,
)
    ensures
        ({
            let next = spec_process(program_id, accounts, config).0;
            &&& next.len() == accounts.len()
            &&& forall|i: int|
                0 <= i < accounts.len() ==> #[trigger] next[i].owner == accounts[i].owner
            &&& forall|i: int|
                0 <= i < accounts.len() ==> #[trigger] next[i].data.len()
                    == accounts[i].data.len()
        }),
{
}

} // verus!
