//! The record handler: validates ownership of the first account, decodes its
//! buffer, applies the deterministic update, and re-encodes the record in
//! place. Every failure leaves every account byte-for-byte unchanged.

use vstd::prelude::*;
use vstd::slice::{slice_subrange, slice_to_vec};
use vstd::utf8::valid_utf8;
use crate::codec::{spec_decode, spec_encode};
use crate::record::{encoded_len, record_wf, RecordModel, RegistryAccount};
use crate::text::lemma_ascii_valid_utf8;
use crate::HandlerError;

verus! {

/// An identity as the host presents it: an opaque run of bytes, compared
/// only for equality.
#[derive(Clone, Debug, PartialEq, Eq)]
pub struct Identity {
    pub bytes: Vec<u8>,
}

impl View for Identity {
    type V = Seq<u8>;

    open spec fn view(&self) -> Seq<u8> {
        self.bytes@
    }
}

impl Identity {
    /// Byte-for-byte equality of two identities.
    pub fn same_as(&self, other: &Identity) -> (r: bool)
        ensures
            r == (self@ == other@),
    {
        let n = self.bytes.len();
        if n != other.bytes.len() {
            assert(self@ != other@);
            return false;
        }
        for i in 0..n
            invariant
                n == self.bytes@.len(),
                n == other.bytes@.len(),
                forall|j: int| 0 <= j < i ==> self.bytes@[j] == other.bytes@[j],
        {
            if self.bytes[i] != other.bytes[i] {
                assert(self@[i as int] != other@[i as int]);
                return false;
            }
        }
        proof {
            assert(self@ =~= other@);
        }
        true
    }
}

/// Model of one account: the owner's identity bytes and the buffer contents.
#[verifier::ext_equal]
pub struct AccountModel {
    pub owner: Seq<u8>,
    pub data: Seq<u8>,
}

/// A host-managed account: a fixed-capacity byte buffer together with the
/// identity that owns it.
#[derive(Clone, Debug)]
pub struct Account {
    pub owner: Identity,
    pub data: Vec<u8>,
}

impl View for Account {
    type V = AccountModel;

    open spec fn view(&self) -> AccountModel {
        AccountModel { owner: self.owner@, data: self.data@ }
    }
}

/// The models of a list of accounts.
pub open spec fn accounts_model(s: Seq<Account>) -> Seq<AccountModel> {
    s.map_values(|a: Account| a@)
}

/// The deployment-fixed values written into the record on every successful
/// invocation, held as UTF-8 bytes.
pub struct HandlerConfig {
    pub bridename: Vec<u8>,
    pub groomname: Vec<u8>,
    pub timestamp: Vec<u8>,
}

/// Model of a configuration.
#[verifier::ext_equal]
pub struct ConfigModel {
    pub bridename: Seq<u8>,
    pub groomname: Seq<u8>,
    pub timestamp: Seq<u8>,
}

impl View for HandlerConfig {
    type V = ConfigModel;

    open spec fn view(&self) -> ConfigModel {
        ConfigModel {
            bridename: self.bridename@,
            groomname: self.groomname@,
            timestamp: self.timestamp@,
        }
    }
}

/// Well-formedness of a configuration: each field is UTF-8 text and a record
/// holding the three fields is always encodable.
pub open spec fn config_wf(c: ConfigModel) -> bool {
    &&& valid_utf8(c.bridename)
    &&& valid_utf8(c.groomname)
    &&& valid_utf8(c.timestamp)
    &&& 16 + c.bridename.len() + c.groomname.len() + c.timestamp.len() <= u32::MAX
}

/// The record after one successful update: the counter stepped by one
/// (wrapping to zero at the 32-bit limit) and the text fields set to the
/// configured values.
pub open spec fn updated_record(m: RecordModel, c: ConfigModel) -> RecordModel {
    RecordModel {
        uniqueid: if m.uniqueid == u32::MAX {
            0
        } else {
            (m.uniqueid + 1) as u32
        },
        bridename: c.bridename,
        groomname: c.groomname,
        timestamp: c.timestamp,
    }
}

/// What one invocation does: the resulting account list paired with the
/// handler's result. On any error the account list is returned unchanged; on
/// success the first account's buffer carries the re-encoded record over its
/// first bytes, keeps its remaining bytes, and never changes length.
pub open spec fn spec_process(
    program_id: Seq<u8>,
    accounts: Seq<AccountModel>,
    config: ConfigModel,
) -> (Seq<AccountModel>, Result<(), HandlerError>) {
    if accounts.len() == 0 {
        (accounts, Err(HandlerError::MissingAccount))
    } else if accounts[0].owner != program_id {
        (accounts, Err(HandlerError::IncorrectOwner))
    } else {
        match spec_decode(accounts[0].data) {
            None => (accounts, Err(HandlerError::MalformedRecord)),
            Some(m) => {
                let e = spec_encode(updated_record(m, config));
                if e.len() > accounts[0].data.len() {
                    (accounts, Err(HandlerError::EncodingOverflow))
                } else {
                    let changed = AccountModel {
                        owner: accounts[0].owner,
                        data: e + accounts[0].data.skip(e.len() as int),
                    };
                    (accounts.update(0, changed), Ok(()))
                }
            },
        }
    }
}

/// Overwrites the first `bytes.len()` bytes of `data` with `bytes`, keeping
/// the tail and the overall length.
fn overwrite_prefix(data: &mut Vec<u8>, bytes: &Vec<u8>)
    requires
        bytes@.len() <= old(data)@.len(),
    ensures
        final(data)@ == bytes@ + old(data)@.skip(bytes@.len() as int),
        final(data)@.len() == old(data)@.len(),
{
    let mut out = slice_to_vec(bytes.as_slice());
    let mut tail = slice_to_vec(slice_subrange(data.as_slice(), bytes.len(), data.len()));
    out.append(&mut tail);
    assert(out@ =~= bytes@ + data@.skip(bytes@.len() as int));
    *data = out;
}

/// Runs one invocation against an explicit configuration.
///
/// The contract is exactly `spec_process` on the models of the inputs: the
/// returned result matches, and the accounts afterwards match. In particular
/// the first account is rewritten only when `Ok` is returned, and then only
/// its record prefix.
pub fn process_with_config(
    program_id: &Identity,
    accounts: &mut Vec<Account>,
    _instruction_data: &[u8],
    config: &HandlerConfig,
) -> (r: Result<(), HandlerError>)
    requires
        config_wf(config@),
    ensures
        ({
            let outcome = spec_process(program_id@, accounts_model(old(accounts)@), config@);
            &&& accounts_model(final(accounts)@) == outcome.0
            &&& r == outcome.1
        }),
{
    let ghost accs0 = accounts_model(old(accounts)@);
    if accounts.len() == 0 {
        return Err(HandlerError::MissingAccount);
    }
    assert(accs0[0] == accounts@[0]@);
    if !accounts[0].owner.same_as(program_id) {
        return Err(HandlerError::IncorrectOwner);
    }
    let rec = match RegistryAccount::try_from_slice(accounts[0].data.as_slice()) {
        Ok(rec) => rec,
        Err(e) => {
            return Err(e);
        },
    };
    let new_uniqueid: u32 = if rec.uniqueid == u32::MAX {
        0
    } else {
        rec.uniqueid + 1
    };
    let updated = RegistryAccount {
        uniqueid: new_uniqueid,
        bridename: slice_to_vec(config.bridename.as_slice()),
        groomname: slice_to_vec(config.groomname.as_slice()),
        timestamp: slice_to_vec(config.timestamp.as_slice()),
    };
    proof {
        assert(updated@ =~= updated_record(rec@, config@));
        assert(record_wf(updated@));
        assert(encoded_len(updated@) <= u32::MAX <= usize::MAX);
    }
    let bytes = updated.serialize();
    if bytes.len() > accounts[0].data.len() {
        return Err(HandlerError::EncodingOverflow);
    }
    let mut account = accounts.remove(0);
    overwrite_prefix(&mut account.data, &bytes);
    let ghost changed = account;
    accounts.insert(0, account);
    proof {
        let outcome = spec_process(program_id@, accs0, config@);
        assert(accounts@ =~= old(accounts)@.update(0, changed));
        assert(accounts_model(accounts@) =~~= outcome.0);
    }
    Ok(())
}

/// The configured values bound into `process_instruction` for this
/// deployment: the two party names and the recorded timestamp.
pub open spec fn default_config_model() -> ConfigModel {
    ConfigModel {
        bridename: seq![65u8, 108, 101, 110, 97],
        groomname: seq![65u8, 108, 101, 120],
        timestamp: seq![83u8, 101, 112, 116, 101, 109, 98, 101, 114, 32, 51, 44, 32, 50, 48, 50,
            49],
    }
}

/// Every field of the deployment configuration is ASCII, so the
/// configuration is well formed.
pub proof fn lemma_default_config_wf()
    ensures
        config_wf(default_config_model()),
{
    let c = default_config_model();
    assert forall|k: int| 0 <= k < c.bridename.len() implies #[trigger] c.bridename[k]
        < 0x80 by {}
    assert forall|k: int| 0 <= k < c.groomname.len() implies #[trigger] c.groomname[k]
        < 0x80 by {}
    assert forall|k: int| 0 <= k < c.timestamp.len() implies #[trigger] c.timestamp[k]
        < 0x80 by {}
    lemma_ascii_valid_utf8(c.bridename);
    lemma_ascii_valid_utf8(c.groomname);
    lemma_ascii_valid_utf8(c.timestamp);
}

/// Builds the deployment-fixed configuration.
pub fn default_config() -> (c: HandlerConfig)
    ensures
        c@ == default_config_model(),
        config_wf(c@),
{
    let c = HandlerConfig {
        bridename: vec![65u8, 108, 101, 110, 97],
        groomname: vec![65u8, 108, 101, 120],
        timestamp: vec![83u8, 101, 112, 116, 101, 109, 98, 101, 114, 32, 51, 44, 32, 50, 48, 50,
            49],
    };
    proof {
        assert(c@ =~~= default_config_model());
        lemma_default_config_wf();
    }
    c
}

/// The program entrypoint's implementation: one invocation with the
/// deployment-fixed configuration bound in. The instruction payload is
/// ignored; every invocation performs the same fixed update.
pub fn process_instruction(
    program_id: &Identity,
    accounts: &mut Vec<Account>,
    instruction_data: &[u8],
) -> (r: Result<(), HandlerError>)
    ensures
        ({
            let outcome = spec_process(
                program_id@,
                accounts_model(old(accounts)@),
                default_config_model(),
            );
            &&& accounts_model(final(accounts)@) == outcome.0
            &&& r == outcome.1
        }),
{
    let config = default_config();
    process_with_config(program_id, accounts, instruction_data, &config)
}

} // verus!
