use atm_bank::message::{MessageType, Plaintext};
use atm_bank::transport::{decode_transform, encode_transform, validate_frame, ReceiveError};

fn frame(count: u8, t: MessageType) -> Vec<u8> {
    Plaintext::new(count, t).get_bytes().clone()
}

#[test]
fn end_of_stream_is_reported() {
    let mut count: u8 = 0;
    let r = validate_frame(true, vec![0u8; 26], &mut count);
    assert_eq!(r.err(), Some(ReceiveError::EndOfStream));
    assert_eq!(count, 0);
}

#[test]
fn stale_counter_tears_the_connection_down() {
    let mut count: u8 = 253;
    let r = validate_frame(false, frame(253, MessageType::End), &mut count);
    assert_eq!(r.err(), Some(ReceiveError::StaleStream));
    assert_eq!(count, 253);

    let mut count2: u8 = 0;
    let r2 = validate_frame(false, frame(255, MessageType::End), &mut count2);
    assert_eq!(r2.err(), Some(ReceiveError::StaleStream));
    assert_eq!(count2, 0);
}

#[test]
fn counter_mismatch_is_rejected() {
    let mut count: u8 = 0;
    let r = validate_frame(false, frame(1, MessageType::End), &mut count);
    assert_eq!(r.err(), Some(ReceiveError::InvalidCount));
    assert_eq!(count, 0);
}

#[test]
fn replayed_frame_is_rejected() {
    let bytes = frame(0, MessageType::End);
    let mut count: u8 = 0;
    assert!(validate_frame(false, bytes.clone(), &mut count).is_ok());
    assert_eq!(count, 1);
    let r = validate_frame(false, bytes, &mut count);
    assert_eq!(r.err(), Some(ReceiveError::InvalidCount));
    assert_eq!(count, 1);
}

#[test]
fn unknown_kind_is_invalid_message_and_count_stands_still() {
    let mut bytes = frame(0, MessageType::End);
    bytes[1] = 42;
    let mut count: u8 = 0;
    let r = validate_frame(false, bytes, &mut count);
    assert_eq!(r.err(), Some(ReceiveError::InvalidMessage));
    assert_eq!(count, 0);
}

#[test]
fn accepted_frame_advances_count_once() {
    let mut count: u8 = 11;
    let r = validate_frame(false, frame(11, MessageType::Balance), &mut count);
    let resp = r.unwrap();
    assert!(matches!(resp.get_type(), MessageType::Balance));
    assert_eq!(count, 12);
}

#[test]
fn transform_seam_is_the_identity() {
    let bytes = frame(3, MessageType::AuthResult);
    let sent = encode_transform(bytes.clone());
    assert_eq!(sent, bytes);
    let received = decode_transform(sent);
    assert_eq!(received, bytes);
}
