use atm_bank::atm::{AtmAction, AuthOutcome, BalanceOutcome, ATM};
use atm_bank::bank::Bank;
use atm_bank::message::{MessageType, Plaintext, Response};
use atm_bank::server::{DispatchOutcome, ServerConn};
use atm_bank::transport::ReceiveError;

fn reply_frame(out: DispatchOutcome) -> Vec<u8> {
    match out {
        DispatchOutcome::Reply(p) => p.get_bytes().clone(),
        DispatchOutcome::Close => panic!("expected a reply, connection was closed"),
    }
}

fn small_bank() -> Bank {
    let mut bank = Bank::new();
    bank.process_input("create-user alice 1234 100.50");
    bank.process_input("create-user bob 5678 7");
    bank
}

/// Drives one request/response exchange between an ATM and a server
/// connection, returning the decoded reply.
fn exchange(atm: &mut ATM, conn: &mut ServerConn, bank: &Bank, request: Plaintext) -> Response {
    let bytes = request.get_bytes().clone();
    atm.record_send();
    let req = conn.receive_frame(false, bytes).expect("server rejected the request");
    let reply = reply_frame(conn.handle_request(bank, &req));
    conn.record_send();
    atm.receive_frame(false, reply).expect("client rejected the reply")
}

#[test]
fn full_session_scenario() {
    let bank = small_bank();
    let mut atm = ATM::new();
    let mut conn = ServerConn::new();

    // Authenticate: request carries counter 0, reply counter 1.
    let action = atm.process_input("begin-session alice 1234");
    let (username, pin) = match action {
        AtmAction::SendAuth { username, pin } => (username, pin),
        _ => panic!("expected SendAuth"),
    };
    let request = atm.build_auth_request(&username, &pin);
    assert_eq!(request.get_bytes()[0], 0);
    let reply = exchange(&mut atm, &mut conn, &bank, request);
    assert_eq!(reply.get_contents()[0], 1);
    assert!(matches!(
        atm.handle_auth_response(&username, &reply),
        AuthOutcome::LoggedIn
    ));
    assert!(atm.is_active_user());
    assert_eq!(atm.get_prompt(), "ATM (alice): ");

    // End the session: request carries counter 2, reply counter 3.
    assert!(matches!(atm.process_input("end-session"), AtmAction::SendEnd));
    let request = atm.build_end_request();
    assert_eq!(request.get_bytes()[0], 2);
    let reply = exchange(&mut atm, &mut conn, &bank, request);
    assert_eq!(reply.get_contents()[0], 3);
    assert!(atm.handle_end_response(&reply));
    assert!(!atm.is_active_user());
    assert_eq!(atm.comm_count(), 4);
    assert_eq!(conn.comm_count(), 4);
}

#[test]
fn balance_is_served_inside_a_session() {
    let bank = small_bank();
    let mut atm = ATM::new();
    let mut conn = ServerConn::new();

    let request = atm.build_auth_request("alice", "1234");
    let reply = exchange(&mut atm, &mut conn, &bank, request);
    assert!(matches!(
        atm.handle_auth_response("alice", &reply),
        AuthOutcome::LoggedIn
    ));

    assert!(matches!(atm.process_input("balance"), AtmAction::SendBalance));
    let request = atm.build_balance_request();
    let reply = exchange(&mut atm, &mut conn, &bank, request);
    match atm.handle_balance_response(&reply) {
        BalanceOutcome::Balance(b) => assert_eq!(b, 10050),
        BalanceOutcome::InvalidResponse => panic!("balance reply was malformed"),
    }
}

#[test]
fn authentication_failures_are_indistinguishable_on_the_wire() {
    let bank = small_bank();

    // Unknown user, any PIN.
    let mut conn1 = ServerConn::new();
    let mut p1 = Plaintext::new(0, MessageType::AuthUser);
    p1.set_auth_user("nobody", "9999");
    let req1 = conn1.receive_frame(false, p1.get_bytes().clone()).unwrap();
    let rep1 = reply_frame(conn1.handle_request(&bank, &req1));

    // Known user, wrong PIN.
    let mut conn2 = ServerConn::new();
    let mut p2 = Plaintext::new(0, MessageType::AuthUser);
    p2.set_auth_user("alice", "0000");
    let req2 = conn2.receive_frame(false, p2.get_bytes().clone()).unwrap();
    let rep2 = reply_frame(conn2.handle_request(&bank, &req2));

    assert_eq!(rep1, rep2);
    let decoded = Response::new(rep1).unwrap();
    assert_eq!(decoded.get_auth_result().unwrap(), false);
}

#[test]
fn two_connections_share_the_ledger_without_crosstalk() {
    let bank = small_bank();
    let mut atm1 = ATM::new();
    let mut conn1 = ServerConn::new();
    let mut atm2 = ATM::new();
    let mut conn2 = ServerConn::new();

    // Interleave the two authentications.
    let r1 = atm1.build_auth_request("alice", "1234");
    let b1 = r1.get_bytes().clone();
    atm1.record_send();
    let r2 = atm2.build_auth_request("bob", "5678");
    let b2 = r2.get_bytes().clone();
    atm2.record_send();

    let q1 = conn1.receive_frame(false, b1).unwrap();
    let q2 = conn2.receive_frame(false, b2).unwrap();
    let rep1 = reply_frame(conn1.handle_request(&bank, &q1));
    conn1.record_send();
    let rep2 = reply_frame(conn2.handle_request(&bank, &q2));
    conn2.record_send();

    let a1 = atm1.receive_frame(false, rep1).unwrap();
    let a2 = atm2.receive_frame(false, rep2).unwrap();
    assert!(matches!(
        atm1.handle_auth_response("alice", &a1),
        AuthOutcome::LoggedIn
    ));
    assert!(matches!(
        atm2.handle_auth_response("bob", &a2),
        AuthOutcome::LoggedIn
    ));

    // Each connection still has its own counter, both at 2.
    assert_eq!(atm1.comm_count(), 2);
    assert_eq!(atm2.comm_count(), 2);
    assert_eq!(conn1.comm_count(), 2);
    assert_eq!(conn2.comm_count(), 2);

    // Balances answer for each connection's own user.
    let breq1 = atm1.build_balance_request();
    let bal1 = exchange(&mut atm1, &mut conn1, &bank, breq1);
    let breq2 = atm2.build_balance_request();
    let bal2 = exchange(&mut atm2, &mut conn2, &bank, breq2);
    match atm1.handle_balance_response(&bal1) {
        BalanceOutcome::Balance(b) => assert_eq!(b, 10050),
        _ => panic!("alice's balance reply was malformed"),
    }
    match atm2.handle_balance_response(&bal2) {
        BalanceOutcome::Balance(b) => assert_eq!(b, 700),
        _ => panic!("bob's balance reply was malformed"),
    }
}

#[test]
fn balance_without_a_session_closes_the_connection() {
    let bank = small_bank();
    let mut conn = ServerConn::new();
    let req = conn
        .receive_frame(false, Plaintext::new(0, MessageType::Balance).get_bytes().clone())
        .unwrap();
    assert!(matches!(
        conn.handle_request(&bank, &req),
        DispatchOutcome::Close
    ));
}

#[test]
fn reserved_kinds_close_the_connection() {
    let bank = small_bank();
    for kind in [MessageType::Withdraw, MessageType::Deposit, MessageType::AuthResult] {
        let mut conn = ServerConn::new();
        let req = conn
            .receive_frame(false, Plaintext::new(0, kind).get_bytes().clone())
            .unwrap();
        assert!(matches!(
            conn.handle_request(&bank, &req),
            DispatchOutcome::Close
        ));
    }
}

#[test]
fn malformed_auth_request_closes_the_connection() {
    let bank = small_bank();
    let mut conn = ServerConn::new();
    let mut bytes = Plaintext::new(0, MessageType::AuthUser).get_bytes().clone();
    bytes[2] = 0xff; // not a valid username
    let req = conn.receive_frame(false, bytes).unwrap();
    assert!(matches!(
        conn.handle_request(&bank, &req),
        DispatchOutcome::Close
    ));
}

#[test]
fn end_session_clears_the_server_side_session() {
    let bank = small_bank();
    let mut conn = ServerConn::new();

    let mut auth = Plaintext::new(0, MessageType::AuthUser);
    auth.set_auth_user("alice", "1234");
    let req = conn.receive_frame(false, auth.get_bytes().clone()).unwrap();
    reply_frame(conn.handle_request(&bank, &req));
    conn.record_send();

    let req = conn
        .receive_frame(false, Plaintext::new(2, MessageType::End).get_bytes().clone())
        .unwrap();
    reply_frame(conn.handle_request(&bank, &req));
    conn.record_send();

    // The session is gone: a balance request now closes the connection.
    let req = conn
        .receive_frame(false, Plaintext::new(4, MessageType::Balance).get_bytes().clone())
        .unwrap();
    assert!(matches!(
        conn.handle_request(&bank, &req),
        DispatchOutcome::Close
    ));
}

#[test]
fn server_rejects_replayed_requests() {
    let bank = small_bank();
    let mut conn = ServerConn::new();
    let mut auth = Plaintext::new(0, MessageType::AuthUser);
    auth.set_auth_user("alice", "1234");
    let bytes = auth.get_bytes().clone();
    let req = conn.receive_frame(false, bytes.clone()).unwrap();
    reply_frame(conn.handle_request(&bank, &req));
    conn.record_send();
    assert_eq!(
        conn.receive_frame(false, bytes).err(),
        Some(ReceiveError::InvalidCount)
    );
}
