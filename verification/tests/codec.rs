use thumbor::codec::{decode_token, encode_token};
use thumbor::error::ServiceError;
use thumbor::ops::{Operation, ResizeMode, SampleFilter};

fn hex(bytes: &[u8]) -> String {
    let mut s = String::new();
    for b in bytes {
        s.push_str(&format!("{:02x}", b));
    }
    s
}

#[test]
fn round_trip_every_variant() {
    let ops = vec![
        Operation::Crop { x1: 10, y1: 10, x2: 90, y2: 90 },
        Operation::Contrast { level: -120 },
        Operation::FlipH,
        Operation::FlipV,
        Operation::Filter { kind: 3 },
        Operation::Resize {
            width: 500,
            height: 800,
            mode: ResizeMode::Normal,
            sample: SampleFilter::CatmullRom,
        },
        Operation::Resize {
            width: 40,
            height: 40,
            mode: ResizeMode::ContentAware,
            sample: SampleFilter::Undefined,
        },
        Operation::Watermark { x: 20, y: 20 },
        Operation::Unknown { tag: 9 },
    ];
    let token = encode_token(&ops);
    let decoded = decode_token(token.as_str()).expect("token must decode");
    assert_eq!(decoded, ops);
}

#[test]
fn round_trip_extreme_values() {
    let ops = vec![
        Operation::Crop { x1: 0, y1: 0, x2: u32::MAX, y2: 1 },
        Operation::Contrast { level: i16::MIN },
        Operation::Contrast { level: i16::MAX },
        Operation::Filter { kind: u32::MAX },
        Operation::Unknown { tag: 0 },
        Operation::Unknown { tag: 255 },
    ];
    let token = encode_token(&ops);
    assert_eq!(decode_token(token.as_str()).unwrap(), ops);
}

#[test]
fn round_trip_empty_sequence() {
    let ops: Vec<Operation> = vec![];
    let token = encode_token(&ops);
    assert_eq!(token, "");
    assert_eq!(decode_token(token.as_str()).unwrap(), ops);
}

#[test]
fn token_is_url_path_safe() {
    let ops = vec![
        Operation::Resize {
            width: 500,
            height: 800,
            mode: ResizeMode::Normal,
            sample: SampleFilter::CatmullRom,
        },
        Operation::Watermark { x: 20, y: 20 },
        Operation::Filter { kind: 3 },
    ];
    let token = encode_token(&ops);
    assert!(token.chars().all(|c| c.is_ascii_hexdigit() && !c.is_ascii_uppercase()));
}

#[test]
fn decode_accepts_uppercase_hex() {
    let ops = vec![Operation::FlipH];
    let token = encode_token(&ops).to_uppercase();
    assert_eq!(decode_token(token.as_str()).unwrap(), ops);
}

#[test]
fn decode_rejects_non_hex() {
    assert_eq!(decode_token("zz"), Err(ServiceError::MalformedSpec));
}

#[test]
fn decode_rejects_odd_length() {
    assert_eq!(decode_token("abc"), Err(ServiceError::MalformedSpec));
}

#[test]
fn decode_rejects_truncated_frame() {
    // A lone tag byte: no length, no payload.
    assert_eq!(decode_token("01"), Err(ServiceError::MalformedSpec));
}

#[test]
fn decode_rejects_truncated_payload() {
    // Crop frame announcing 16 payload bytes, none present.
    assert_eq!(decode_token(&hex(&[1, 0, 16])), Err(ServiceError::MalformedSpec));
}

#[test]
fn decode_rejects_wrong_payload_length() {
    // FlipH carries no payload; one byte is malformed.
    assert_eq!(decode_token(&hex(&[3, 0, 1, 7])), Err(ServiceError::MalformedSpec));
}

#[test]
fn decode_rejects_bad_resize_mode() {
    let mut wire = vec![6u8, 0, 10];
    wire.extend_from_slice(&40u32.to_be_bytes());
    wire.extend_from_slice(&40u32.to_be_bytes());
    wire.push(2); // no such resize mode
    wire.push(0);
    assert_eq!(decode_token(&hex(&wire)), Err(ServiceError::MalformedSpec));
}

#[test]
fn decode_rejects_bad_sampling_filter() {
    let mut wire = vec![6u8, 0, 10];
    wire.extend_from_slice(&40u32.to_be_bytes());
    wire.extend_from_slice(&40u32.to_be_bytes());
    wire.push(0);
    wire.push(6); // no such sampling filter
    assert_eq!(decode_token(&hex(&wire)), Err(ServiceError::MalformedSpec));
}

#[test]
fn decode_keeps_unknown_kind_and_skips_its_payload() {
    // A frame of an unknown kind with three payload bytes, then a known one.
    let wire = vec![9u8, 0, 3, 0xaa, 0xbb, 0xcc, 3, 0, 0];
    let decoded = decode_token(&hex(&wire)).unwrap();
    assert_eq!(decoded, vec![Operation::Unknown { tag: 9 }, Operation::FlipH]);
}

#[test]
fn decode_crop_fields_exactly() {
    let ops = vec![Operation::Crop { x1: 1, y1: 2, x2: 3, y2: 4 }];
    let token = encode_token(&ops);
    let mut wire = vec![1u8, 0, 16];
    for v in [1u32, 2, 3, 4] {
        wire.extend_from_slice(&v.to_be_bytes());
    }
    assert_eq!(token, hex(&wire));
}
