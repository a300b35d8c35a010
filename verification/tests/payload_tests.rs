use additional_accounts_request::error::CallError;
use additional_accounts_request::identifier::ResourceIdentifier;
use additional_accounts_request::payload::{IAccountMeta, PreflightPayload};

fn payload_id(fill: u8) -> ResourceIdentifier {
    ResourceIdentifier::new([fill; 32])
}

fn counting_id() -> ResourceIdentifier {
    let mut bytes = [0u8; 32];
    for (i, byte) in bytes.iter_mut().enumerate() {
        *byte = i as u8;
    }
    ResourceIdentifier::new(bytes)
}

fn descriptor(fill: u8, signer: bool, writable: bool) -> IAccountMeta {
    IAccountMeta {
        pubkey: payload_id(fill),
        signer,
        writable,
    }
}

fn record(fill: u8, signer: u8, writable: u8) -> Vec<u8> {
    let mut bytes = vec![fill; 32];
    bytes.push(signer);
    bytes.push(writable);
    bytes
}

#[test]
fn empty_payload_encodes_to_a_zero_count() {
    let payload = PreflightPayload { accounts: vec![] };
    assert_eq!(payload.encode(), Ok(vec![0, 0, 0, 0]));
}

#[test]
fn one_descriptor_encodes_to_count_and_record() {
    let payload = PreflightPayload {
        accounts: vec![IAccountMeta {
            pubkey: counting_id(),
            signer: true,
            writable: false,
        }],
    };
    let mut expected = vec![1, 0, 0, 0];
    expected.extend(0u8..32);
    expected.push(1);
    expected.push(0);
    assert_eq!(payload.encode(), Ok(expected));
}

#[test]
fn descriptors_are_encoded_in_order() {
    let payload = PreflightPayload {
        accounts: vec![
            descriptor(7, false, true),
            descriptor(9, true, true),
            descriptor(8, false, false),
        ],
    };
    let mut expected = vec![3, 0, 0, 0];
    expected.extend(record(7, 0, 1));
    expected.extend(record(9, 1, 1));
    expected.extend(record(8, 0, 0));
    let bytes = payload.encode().unwrap();
    assert_eq!(bytes.len(), 4 + 3 * 34);
    assert_eq!(bytes, expected);
}

#[test]
fn count_is_little_endian() {
    let accounts: Vec<IAccountMeta> = (0..258u32)
        .map(|i| descriptor((i % 251) as u8, false, false))
        .collect();
    let bytes = PreflightPayload { accounts }.encode().unwrap();
    assert_eq!(&bytes[..4], &[2, 1, 0, 0]);
    assert_eq!(bytes.len(), 4 + 258 * 34);
}

#[test]
fn decode_reads_count_and_records() {
    let mut bytes = vec![2, 0, 0, 0];
    bytes.extend(record(5, 1, 0));
    bytes.extend(record(6, 0, 1));
    let payload = PreflightPayload::decode(&bytes).unwrap();
    assert_eq!(
        payload,
        PreflightPayload {
            accounts: vec![descriptor(5, true, false), descriptor(6, false, true)],
        }
    );
}

#[test]
fn decode_of_zero_count_is_the_empty_payload() {
    assert_eq!(
        PreflightPayload::decode(&[0, 0, 0, 0]),
        Ok(PreflightPayload { accounts: vec![] })
    );
}

#[test]
fn decode_inverts_encode() {
    let payload = PreflightPayload {
        accounts: vec![
            descriptor(1, true, true),
            descriptor(2, false, true),
            descriptor(1, false, false),
            IAccountMeta {
                pubkey: counting_id(),
                signer: true,
                writable: false,
            },
        ],
    };
    let bytes = payload.encode().unwrap();
    assert_eq!(PreflightPayload::decode(&bytes), Ok(payload));
}

#[test]
fn encode_inverts_decode() {
    let mut bytes = vec![3, 0, 0, 0];
    bytes.extend(record(0xff, 1, 1));
    bytes.extend(record(0, 0, 0));
    bytes.extend(record(0x80, 0, 1));
    let payload = PreflightPayload::decode(&bytes).unwrap();
    assert_eq!(payload.encode(), Ok(bytes));
}

#[test]
fn decode_rejects_a_missing_count() {
    assert_eq!(PreflightPayload::decode(&[]), Err(CallError::FormatError));
    assert_eq!(PreflightPayload::decode(&[0]), Err(CallError::FormatError));
    assert_eq!(
        PreflightPayload::decode(&[0, 0, 0]),
        Err(CallError::FormatError)
    );
}

#[test]
fn decode_rejects_a_truncated_record() {
    let mut bytes = vec![1, 0, 0, 0];
    bytes.extend(record(3, 0, 0));
    bytes.pop();
    assert_eq!(PreflightPayload::decode(&bytes), Err(CallError::FormatError));
}

#[test]
fn decode_rejects_a_count_above_the_records() {
    let mut bytes = vec![2, 0, 0, 0];
    bytes.extend(record(3, 0, 0));
    assert_eq!(PreflightPayload::decode(&bytes), Err(CallError::FormatError));
}

#[test]
fn decode_rejects_a_count_below_the_records() {
    let mut bytes = vec![1, 0, 0, 0];
    bytes.extend(record(3, 0, 0));
    bytes.extend(record(4, 0, 0));
    assert_eq!(PreflightPayload::decode(&bytes), Err(CallError::FormatError));
}

#[test]
fn decode_rejects_bytes_behind_the_last_record() {
    let mut bytes = vec![1, 0, 0, 0];
    bytes.extend(record(3, 0, 0));
    bytes.push(0);
    assert_eq!(PreflightPayload::decode(&bytes), Err(CallError::FormatError));
    assert_eq!(
        PreflightPayload::decode(&[0, 0, 0, 0, 0]),
        Err(CallError::FormatError)
    );
}

#[test]
fn decode_rejects_a_huge_count() {
    assert_eq!(
        PreflightPayload::decode(&[0xff, 0xff, 0xff, 0xff]),
        Err(CallError::FormatError)
    );
    assert_eq!(
        PreflightPayload::decode(&[0, 0, 0, 1]),
        Err(CallError::FormatError)
    );
}

#[test]
fn decode_rejects_a_flag_that_is_neither_zero_nor_one() {
    let mut bytes = vec![1, 0, 0, 0];
    bytes.extend(record(3, 2, 0));
    assert_eq!(PreflightPayload::decode(&bytes), Err(CallError::FormatError));
    let mut bytes = vec![2, 0, 0, 0];
    bytes.extend(record(3, 1, 0));
    bytes.extend(record(4, 0, 0xff));
    assert_eq!(PreflightPayload::decode(&bytes), Err(CallError::FormatError));
}

#[test]
fn identifier_keeps_its_bytes() {
    let id = counting_id();
    let bytes = id.to_bytes();
    assert_eq!(bytes[0], 0);
    assert_eq!(bytes[31], 31);
    assert_eq!(ResourceIdentifier::new(bytes), id);
}

#[test]
fn identifiers_differ_where_one_byte_differs() {
    let mut bytes = [4u8; 32];
    let id = ResourceIdentifier::new(bytes);
    bytes[31] = 5;
    assert_ne!(ResourceIdentifier::new(bytes), id);
    bytes[31] = 4;
    bytes[0] = 5;
    assert_ne!(ResourceIdentifier::new(bytes), id);
    bytes[0] = 4;
    assert_eq!(ResourceIdentifier::new(bytes), id);
}
