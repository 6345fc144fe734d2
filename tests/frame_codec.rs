use p2p_chat::frame::{decode, encode, Frame, FrameError, MESSAGE_HEADER_BYTES, SEPARATOR};
use p2p_chat::sodium::{to_array, Nonce, PublicKey};

fn key(b: u8) -> PublicKey {
    PublicKey::new([b; 32])
}

#[test]
fn announce_encodes_key_and_one_separator() {
    let bytes = encode(&Frame::Announce { src: key(7) });
    assert_eq!(bytes.len(), 33);
    assert_eq!(&bytes[..32], &[7u8; 32]);
    assert_eq!(bytes[32], SEPARATOR);
}

#[test]
fn message_encodes_fields_in_order() {
    let frame = Frame::Message {
        src: key(1),
        dst: key(2),
        nonce: Nonce::new([3; 24]),
        ciphertext: vec![4, 5],
    };
    let bytes = encode(&frame);
    let mut expected = vec![1u8; 32];
    expected.push(b'\n');
    expected.extend_from_slice(&[2u8; 32]);
    expected.push(b'\n');
    expected.extend_from_slice(&[3u8; 24]);
    expected.push(b'\n');
    expected.extend_from_slice(&[4, 5]);
    assert_eq!(bytes, expected);
}

#[test]
fn message_round_trips_with_separators_in_ciphertext() {
    let frame = Frame::Message {
        src: key(1),
        dst: key(2),
        nonce: Nonce::new([3; 24]),
        ciphertext: vec![b'\n', 9, b'\n', b'\n'],
    };
    match decode(&encode(&frame)) {
        Ok(Frame::Message { src, dst, nonce, ciphertext }) => {
            assert_eq!(src.key(), &[1u8; 32]);
            assert_eq!(dst.key(), &[2u8; 32]);
            assert_eq!(nonce.value(), &[3u8; 24]);
            assert_eq!(ciphertext, vec![b'\n', 9, b'\n', b'\n']);
        }
        _ => panic!("expected a message"),
    }
}

#[test]
fn message_with_empty_ciphertext_round_trips() {
    let frame = Frame::Message {
        src: key(1),
        dst: key(2),
        nonce: Nonce::new([3; 24]),
        ciphertext: vec![],
    };
    let bytes = encode(&frame);
    assert_eq!(bytes.len(), MESSAGE_HEADER_BYTES);
    match decode(&bytes) {
        Ok(Frame::Message { ciphertext, .. }) => assert!(ciphertext.is_empty()),
        _ => panic!("expected a message"),
    }
}

#[test]
fn announce_round_trips() {
    match decode(&encode(&Frame::Announce { src: key(9) })) {
        Ok(Frame::Announce { src }) => assert_eq!(src.key(), &[9u8; 32]),
        _ => panic!("expected an announce"),
    }
}

#[test]
fn bare_key_decodes_as_announce() {
    match decode(&[5u8; 32]) {
        Ok(Frame::Announce { src }) => assert_eq!(src.key(), &[5u8; 32]),
        _ => panic!("expected an announce"),
    }
}

#[test]
fn key_with_empty_trailing_fields_decodes_as_announce() {
    let mut bytes = vec![5u8; 32];
    bytes.extend_from_slice(b"\n\n\n");
    assert!(matches!(decode(&bytes), Ok(Frame::Announce { .. })));
}

#[test]
fn empty_payload_has_too_few_fields() {
    assert!(matches!(decode(&[]), Err(FrameError::TooFewFields)));
}

#[test]
fn short_payload_has_too_few_fields() {
    assert!(matches!(decode(b"abc"), Err(FrameError::TooFewFields)));
    let mut bytes = vec![1u8; 32];
    bytes.push(b'\n');
    bytes.extend_from_slice(&[2u8; 32]);
    bytes.push(b'\n');
    bytes.extend_from_slice(&[3u8; 24]);
    assert!(bytes.len() < MESSAGE_HEADER_BYTES);
    assert!(matches!(decode(&bytes), Err(FrameError::TooFewFields)));
}

#[test]
fn short_key_in_announce_shape_has_too_few_fields() {
    let mut bytes = vec![1u8; 31];
    bytes.push(b'\n');
    assert!(matches!(decode(&bytes), Err(FrameError::TooFewFields)));
}

#[test]
fn wrong_widths_are_invalid_length() {
    assert!(matches!(decode(b"a\nb\nc\nd"), Err(FrameError::InvalidLength)));
    let mut bytes = vec![1u8; 32];
    bytes.push(b'\n');
    bytes.extend_from_slice(&[2u8; 32]);
    bytes.push(b'\n');
    bytes.extend_from_slice(&[3u8; 23]);
    bytes.push(b'\n');
    bytes.extend_from_slice(&[4u8; 40]);
    assert!(matches!(decode(&bytes), Err(FrameError::InvalidLength)));
}

#[test]
fn to_array_copies_bytes() {
    let a: [u8; 3] = to_array(vec![1, 2, 3]);
    assert_eq!(a, [1, 2, 3]);
}

#[test]
fn separator_inside_a_key_desynchronises_decoding() {
    let frame = Frame::Message {
        src: PublicKey::new([SEPARATOR; 32]),
        dst: key(2),
        nonce: Nonce::new([3; 24]),
        ciphertext: vec![1],
    };
    assert!(decode(&encode(&frame)).is_err());
}
