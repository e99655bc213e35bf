//! The registry record: the structured value stored in an account's buffer.

use vstd::prelude::*;
use vstd::utf8::valid_utf8;

verus! {

/// Mathematical model of a registry record: the update counter together with
/// the UTF-8 bytes of the three text fields.
#[verifier::ext_equal]
pub struct RecordModel {
    pub uniqueid: u32,
    pub bridename: Seq<u8>,
    pub groomname: Seq<u8>,
    pub timestamp: Seq<u8>,
}

/// Well-formedness of a record: each text field is well-formed UTF-8 and is
/// short enough for its 4-byte length prefix.
pub open spec fn record_wf(m: RecordModel) -> bool {
    &&& valid_utf8(m.bridename)
    &&& valid_utf8(m.groomname)
    &&& valid_utf8(m.timestamp)
    &&& m.bridename.len() <= u32::MAX
    &&& m.groomname.len() <= u32::MAX
    &&& m.timestamp.len() <= u32::MAX
}

/// Number of bytes in the fixed-format encoding of `m`: a 4-byte counter and
/// three length-prefixed text fields.
pub open spec fn encoded_len(m: RecordModel) -> int {
    16 + m.bridename.len() as int + m.groomname.len() as int + m.timestamp.len() as int
}

/// The state stored in a registry account: an update counter, the two party
/// names, and a human-readable timestamp of the last update. The text fields
/// are held as their UTF-8 bytes; the decoder only ever produces well-formed
/// text.
#[derive(Clone, Debug, PartialEq, Eq)]
pub struct RegistryAccount {
    pub uniqueid: u32,
    pub bridename: Vec<u8>,
    pub groomname: Vec<u8>,
    pub timestamp: Vec<u8>,
}

impl View for RegistryAccount {
    type V = RecordModel;

    open spec fn view(&self) -> RecordModel {
        RecordModel {
            uniqueid: self.uniqueid,
            bridename: self.bridename@,
            groomname: self.groomname@,
            timestamp: self.timestamp@,
        }
    }
}

impl RegistryAccount {
    /// The struct invariant; every record the decoder returns satisfies it.
    pub open spec fn wf(&self) -> bool {
        record_wf(self@)
    }
}

} // verus!
