use atm_bank::message::{MessageType, MessageTypeError, Plaintext, Response, ResponseError};

fn frame_of(p: &Plaintext) -> Vec<u8> {
    p.get_bytes().clone()
}

#[test]
fn new_frame_layout() {
    let p = Plaintext::new(7, MessageType::AuthUser);
    let b = p.get_bytes();
    assert_eq!(b.len(), 26);
    assert_eq!(b[0], 7);
    assert_eq!(b[1], 0);
    assert!(b[2..].iter().all(|&x| x == 0));
}

#[test]
fn kind_bytes_round_trip() {
    for v in 0u8..6u8 {
        let t = MessageType::try_from(v).unwrap();
        assert_eq!(t.as_byte(), v);
    }
    assert_eq!(
        MessageType::try_from(6),
        Err(MessageTypeError::InvalidType(6))
    );
    assert_eq!(
        MessageType::try_from(255),
        Err(MessageTypeError::InvalidType(255))
    );
}

#[test]
fn auth_user_round_trip() {
    let mut p = Plaintext::new(0, MessageType::AuthUser);
    p.set_auth_user("alice", "1234");
    let b = frame_of(&p);
    assert_eq!(&b[2..7], b"alice");
    assert!(b[7..22].iter().all(|&x| x == 0));
    assert_eq!(&b[22..26], b"1234");
    let r = Response::new(b).unwrap();
    assert_eq!(r.get_user().unwrap(), "alice");
    assert_eq!(r.get_pin().unwrap(), 1234);
}

#[test]
fn full_width_username_round_trips() {
    let name = "abcdefghijklmnopqrst";
    assert_eq!(name.len(), 20);
    let mut p = Plaintext::new(3, MessageType::AuthUser);
    p.set_auth_user(name, "0042");
    let r = Response::new(frame_of(&p)).unwrap();
    assert_eq!(r.get_user().unwrap(), name);
    assert_eq!(r.get_pin().unwrap(), 42);
}

#[test]
fn set_auth_user_zeroes_earlier_body() {
    let mut p = Plaintext::new(0, MessageType::AuthUser);
    p.set_auth_user("longestnameofall", "9999");
    p.set_auth_user("bob", "1111");
    let b = frame_of(&p);
    assert_eq!(&b[2..5], b"bob");
    assert!(b[5..22].iter().all(|&x| x == 0));
    assert_eq!(&b[22..26], b"1111");
}

#[test]
fn unknown_kind_is_a_decode_error() {
    let mut b = vec![0u8; 26];
    b[1] = 9;
    match Response::new(b) {
        Err(MessageTypeError::InvalidType(9)) => {}
        other => panic!("expected InvalidType(9), got {:?}", other.map(|r| r.get_type())),
    }
}

#[test]
fn field_of_wrong_kind_is_refused() {
    let p = Plaintext::new(0, MessageType::End);
    let r = Response::new(frame_of(&p)).unwrap();
    assert!(matches!(
        r.get_user(),
        Err(ResponseError::DeconstructError { .. })
    ));
    assert!(matches!(
        r.get_pin(),
        Err(ResponseError::DeconstructError { .. })
    ));
    assert!(matches!(
        r.get_auth_result(),
        Err(ResponseError::DeconstructError { .. })
    ));
    assert!(matches!(
        r.get_balance(),
        Err(ResponseError::DeconstructError { .. })
    ));
}

#[test]
fn non_utf8_username_is_refused() {
    let mut b = vec![0u8; 26];
    b[1] = 0;
    b[2] = 0xff;
    b[3] = 0xfe;
    let r = Response::new(b).unwrap();
    assert_eq!(r.get_user(), Err(ResponseError::InvalidBytesForString));
}

#[test]
fn non_numeric_pin_is_refused() {
    let mut p = Plaintext::new(0, MessageType::AuthUser);
    p.set_auth_user("alice", "12a4");
    let r = Response::new(frame_of(&p)).unwrap();
    assert_eq!(r.get_pin(), Err(ResponseError::InvalidBytesForPIN));
}

#[test]
fn empty_pin_is_refused() {
    let mut p = Plaintext::new(0, MessageType::AuthUser);
    p.set_auth_user("alice", "");
    let r = Response::new(frame_of(&p)).unwrap();
    assert_eq!(r.get_pin(), Err(ResponseError::InvalidBytesForPIN));
}

#[test]
fn auth_result_round_trip() {
    for &ok in &[true, false] {
        let mut p = Plaintext::new(1, MessageType::AuthResult);
        p.set_auth_result(ok);
        let b = frame_of(&p);
        assert_eq!(b[2], if ok { 0 } else { 1 });
        let r = Response::new(b).unwrap();
        assert_eq!(r.get_auth_result().unwrap(), ok);
    }
}

#[test]
fn balance_round_trip() {
    for &v in &[0u64, 1, 255, 256, 10050, u64::MAX] {
        let mut p = Plaintext::new(5, MessageType::Balance);
        p.set_balance(v);
        let r = Response::new(frame_of(&p)).unwrap();
        assert_eq!(r.get_balance().unwrap(), v);
    }
}

#[test]
fn update_count_increments_by_one() {
    let p = Plaintext::new(4, MessageType::End);
    let mut count: u8 = 4;
    p.update_count(&mut count);
    assert_eq!(count, 5);
}

#[test]
fn response_keeps_frame_bytes() {
    let mut p = Plaintext::new(9, MessageType::AuthUser);
    p.set_auth_user("carol", "4321");
    let b = frame_of(&p);
    let r = Response::new(b.clone()).unwrap();
    assert_eq!(r.get_contents(), &b);
    assert!(matches!(r.get_type(), MessageType::AuthUser));
}
