//! Tests of the handler: the ownership gate, the guards, the update itself,
//! and the fixed behaviour after a failure.

use marriage_registry::handler::{
    default_config, process_instruction, process_with_config, Account, HandlerConfig, Identity,
};
use marriage_registry::record::RegistryAccount;
use marriage_registry::HandlerError;

fn program_id() -> Identity {
    Identity { bytes: vec![7; 32] }
}

fn other_id() -> Identity {
    Identity { bytes: vec![8; 32] }
}

/// An account whose buffer holds exactly one encoded record with the given
/// counter and the deployment-fixed text values, owned by `owner`.
fn stock_account(owner: Identity, uniqueid: u32) -> Account {
    let rec = RegistryAccount {
        uniqueid,
        bridename: b"Alena".to_vec(),
        groomname: b"Alex".to_vec(),
        timestamp: b"September 3, 2021".to_vec(),
    };
    Account { owner, data: rec.serialize() }
}

#[test]
fn empty_list_returns_missing_account() {
    let mut accounts: Vec<Account> = Vec::new();
    let res = process_instruction(&program_id(), &mut accounts, &[]);
    assert_eq!(res, Err(HandlerError::MissingAccount));
    assert!(accounts.is_empty());
}

#[test]
fn wrong_owner_returns_incorrect_owner_and_leaves_buffer() {
    let mut accounts = vec![stock_account(other_id(), 3)];
    let before = accounts[0].data.clone();
    let res = process_instruction(&program_id(), &mut accounts, &[]);
    assert_eq!(res, Err(HandlerError::IncorrectOwner));
    assert_eq!(accounts[0].data, before);
    assert_eq!(accounts[0].owner.bytes, other_id().bytes);
}

#[test]
fn success_increments_sequence_and_sets_fields() {
    let mut accounts = vec![stock_account(program_id(), 5)];
    let len_before = accounts[0].data.len();
    let res = process_instruction(&program_id(), &mut accounts, &[1, 2, 3]);
    assert_eq!(res, Ok(()));
    assert_eq!(accounts[0].data.len(), len_before);
    let rec = RegistryAccount::try_from_slice(&accounts[0].data).unwrap();
    assert_eq!(rec.uniqueid, 6);
    assert_eq!(rec.bridename, b"Alena".to_vec());
    assert_eq!(rec.groomname, b"Alex".to_vec());
    assert_eq!(rec.timestamp, b"September 3, 2021".to_vec());
}

#[test]
fn payload_is_ignored() {
    let mut with_payload = vec![stock_account(program_id(), 9)];
    let mut without_payload = vec![stock_account(program_id(), 9)];
    let r1 = process_instruction(&program_id(), &mut with_payload, &[0xff; 64]);
    let r2 = process_instruction(&program_id(), &mut without_payload, &[]);
    assert_eq!(r1, r2);
    assert_eq!(with_payload[0].data, without_payload[0].data);
}

#[test]
fn only_first_account_is_touched() {
    let mut accounts = vec![
        stock_account(program_id(), 1),
        stock_account(program_id(), 2),
    ];
    let second_before = accounts[1].data.clone();
    let res = process_instruction(&program_id(), &mut accounts, &[]);
    assert_eq!(res, Ok(()));
    assert_eq!(accounts[1].data, second_before);
    assert_eq!(RegistryAccount::try_from_slice(&accounts[1].data).unwrap().uniqueid, 2);
}

#[test]
fn sequence_wraps_to_zero_at_limit() {
    // The counter steps by one and wraps at the 32-bit limit.
    let mut accounts = vec![stock_account(program_id(), u32::MAX)];
    let res = process_instruction(&program_id(), &mut accounts, &[]);
    assert_eq!(res, Ok(()));
    let rec = RegistryAccount::try_from_slice(&accounts[0].data).unwrap();
    assert_eq!(rec.uniqueid, 0);
}

#[test]
fn corrupt_buffer_returns_malformed_record() {
    // Declared text length points past the buffer end.
    let mut data = vec![1, 0, 0, 0];
    data.extend_from_slice(&[99, 0, 0, 0, 65, 65]);
    let mut accounts = vec![Account { owner: program_id(), data: data.clone() }];
    let res = process_instruction(&program_id(), &mut accounts, &[]);
    assert_eq!(res, Err(HandlerError::MalformedRecord));
    assert_eq!(accounts[0].data, data);
}

#[test]
fn too_small_buffer_returns_encoding_overflow() {
    // The stored record decodes, but the updated record's text fields need
    // more room than the buffer has.
    let rec = RegistryAccount {
        uniqueid: 4,
        bridename: Vec::new(),
        groomname: Vec::new(),
        timestamp: Vec::new(),
    };
    let data = rec.serialize();
    assert_eq!(data.len(), 16);
    let mut accounts = vec![Account { owner: program_id(), data: data.clone() }];
    let res = process_instruction(&program_id(), &mut accounts, &[]);
    assert_eq!(res, Err(HandlerError::EncodingOverflow));
    assert_eq!(accounts[0].data, data);
}

#[test]
fn failures_repeat_identically() {
    // For every error kind, invoking again on the unchanged state fails the
    // same way.
    let cases: Vec<(Vec<Account>, HandlerError)> = vec![
        (Vec::new(), HandlerError::MissingAccount),
        (vec![stock_account(other_id(), 1)], HandlerError::IncorrectOwner),
        (
            vec![Account { owner: program_id(), data: vec![1, 2, 3] }],
            HandlerError::MalformedRecord,
        ),
        (
            vec![Account {
                owner: program_id(),
                data: RegistryAccount {
                    uniqueid: 0,
                    bridename: Vec::new(),
                    groomname: Vec::new(),
                    timestamp: Vec::new(),
                }
                .serialize(),
            }],
            HandlerError::EncodingOverflow,
        ),
    ];
    for (mut accounts, expected) in cases {
        let datas: Vec<Vec<u8>> = accounts.iter().map(|a| a.data.clone()).collect();
        let first = process_instruction(&program_id(), &mut accounts, &[]);
        assert_eq!(first, Err(expected));
        let second = process_instruction(&program_id(), &mut accounts, &[]);
        assert_eq!(second, Err(expected));
        let datas_after: Vec<Vec<u8>> = accounts.iter().map(|a| a.data.clone()).collect();
        assert_eq!(datas, datas_after);
    }
}

#[test]
fn shrinking_update_leaves_trailing_bytes() {
    // When the stored text is longer than the configured text, the update
    // succeeds and overwrites only the record's prefix; the buffer keeps its
    // length, so the leftover tail makes the next decode fail.
    let rec = RegistryAccount {
        uniqueid: 11,
        bridename: b"Alena Alena Alena Alena".to_vec(),
        groomname: b"Alex".to_vec(),
        timestamp: b"September 3, 2021".to_vec(),
    };
    let mut accounts = vec![Account { owner: program_id(), data: rec.serialize() }];
    let len_before = accounts[0].data.len();
    let res = process_instruction(&program_id(), &mut accounts, &[]);
    assert_eq!(res, Ok(()));
    assert_eq!(accounts[0].data.len(), len_before);
    assert!(RegistryAccount::try_from_slice(&accounts[0].data).is_err());
    let second = process_instruction(&program_id(), &mut accounts, &[]);
    assert_eq!(second, Err(HandlerError::MalformedRecord));
}

#[test]
fn explicit_config_is_honoured() {
    let config = HandlerConfig {
        bridename: b"Ada".to_vec(),
        groomname: b"Alan".to_vec(),
        timestamp: b"June 21, 1948".to_vec(),
    };
    let rec = RegistryAccount {
        uniqueid: 0,
        bridename: b"Ada".to_vec(),
        groomname: b"Alan".to_vec(),
        timestamp: b"June 21, 1948".to_vec(),
    };
    let mut accounts = vec![Account { owner: program_id(), data: rec.serialize() }];
    let res = process_with_config(&program_id(), &mut accounts, &[], &config);
    assert_eq!(res, Ok(()));
    let back = RegistryAccount::try_from_slice(&accounts[0].data).unwrap();
    assert_eq!(back.uniqueid, 1);
    assert_eq!(back.timestamp, b"June 21, 1948".to_vec());
}

#[test]
fn default_config_holds_deployment_values() {
    let c = default_config();
    assert_eq!(c.bridename, b"Alena".to_vec());
    assert_eq!(c.groomname, b"Alex".to_vec());
    assert_eq!(c.timestamp, b"September 3, 2021".to_vec());
}

#[test]
fn utf8_check_is_exposed_through_decoding() {
    // A field of continuation bytes reaches the UTF-8 check with the right
    // length and is rejected there, not by the length checks.
    let mut bytes = vec![0, 0, 0, 0];
    bytes.extend_from_slice(&[2, 0, 0, 0, 0x80, 0x80]);
    bytes.extend_from_slice(&[0, 0, 0, 0]);
    bytes.extend_from_slice(&[0, 0, 0, 0]);
    let mut accounts = vec![Account { owner: program_id(), data: bytes.clone() }];
    let res = process_instruction(&program_id(), &mut accounts, &[]);
    assert_eq!(res, Err(HandlerError::MalformedRecord));
    assert_eq!(accounts[0].data, bytes);
}
