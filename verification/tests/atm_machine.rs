use atm_bank::atm::{AtmAction, AuthOutcome, ErrorDisposition, ATM};
use atm_bank::message::{MessageType, Plaintext, Response};
use atm_bank::transport::ReceiveError;

fn auth_result_response(count: u8, ok: bool) -> Response {
    let mut p = Plaintext::new(count, MessageType::AuthResult);
    p.set_auth_result(ok);
    Response::new(p.get_bytes().clone()).unwrap()
}

fn logged_in_atm(user: &str) -> ATM {
    let mut atm = ATM::new();
    let resp = auth_result_response(1, true);
    assert!(matches!(
        atm.handle_auth_response(user, &resp),
        AuthOutcome::LoggedIn
    ));
    atm
}

#[test]
fn fresh_atm_is_anonymous() {
    let atm = ATM::new();
    assert!(!atm.is_active_user());
    assert_eq!(atm.comm_count(), 0);
    assert_eq!(atm.get_prompt(), "ATM: ");
}

#[test]
fn balance_while_anonymous_is_rejected_locally() {
    let atm = ATM::new();
    assert!(matches!(atm.process_input("balance"), AtmAction::Invalid));
    assert!(matches!(atm.process_input("end-session"), AtmAction::Invalid));
    assert!(matches!(atm.process_input("withdraw 5"), AtmAction::Invalid));
}

#[test]
fn begin_session_while_logged_in_is_rejected_locally() {
    let atm = logged_in_atm("alice");
    assert!(matches!(
        atm.process_input("begin-session bob 1234"),
        AtmAction::Invalid
    ));
}

#[test]
fn begin_session_parses_username_and_pin() {
    let atm = ATM::new();
    match atm.process_input("begin-session alice 1234") {
        AtmAction::SendAuth { username, pin } => {
            assert_eq!(username, "alice");
            assert_eq!(pin, "1234");
        }
        other => panic!("expected SendAuth, got {:?}", action_name(&other)),
    }
}

fn action_name(a: &AtmAction) -> &'static str {
    match a {
        AtmAction::SendAuth { .. } => "SendAuth",
        AtmAction::SendBalance => "SendBalance",
        AtmAction::SendEnd => "SendEnd",
        AtmAction::ShowHelp => "ShowHelp",
        AtmAction::UsageBeginSession => "UsageBeginSession",
        AtmAction::UsernameTooLong => "UsernameTooLong",
        AtmAction::WithdrawUnsupported => "WithdrawUnsupported",
        AtmAction::Invalid => "Invalid",
    }
}

#[test]
fn malformed_begin_session_lines_show_usage() {
    let atm = ATM::new();
    for line in [
        "begin-session",
        "begin-session ",
        "begin-session alice",
        "begin-session alice 123",
        "begin-session alice 12345",
        "begin-session alice 12a4",
        "begin-session al!ce 1234",
        "begin-session alice 1234 extra",
        "begin-session  alice 1234",
    ] {
        assert!(
            matches!(atm.process_input(line), AtmAction::UsageBeginSession),
            "line {:?} should show usage",
            line
        );
    }
}

#[test]
fn too_long_username_is_rejected_before_the_network() {
    let atm = ATM::new();
    let line = "begin-session abcdefghijklmnopqrstu 1234";
    assert!(matches!(atm.process_input(line), AtmAction::UsernameTooLong));
}

#[test]
fn logged_in_commands_dispatch() {
    let atm = logged_in_atm("alice");
    assert!(matches!(atm.process_input("balance"), AtmAction::SendBalance));
    assert!(matches!(atm.process_input("end-session"), AtmAction::SendEnd));
    assert!(matches!(
        atm.process_input("withdraw 5"),
        AtmAction::WithdrawUnsupported
    ));
    assert!(matches!(atm.process_input("help"), AtmAction::ShowHelp));
    assert!(matches!(atm.process_input("nonsense"), AtmAction::Invalid));
}

#[test]
fn prompt_names_the_session_user() {
    let atm = logged_in_atm("carol");
    assert_eq!(atm.get_prompt(), "ATM (carol): ");
}

#[test]
fn help_text_follows_the_state() {
    let atm = ATM::new();
    assert_eq!(
        atm.get_help_display(),
        "  begin-session <user-name> <PIN>\n  help\n  exit"
    );
    let logged = logged_in_atm("alice");
    assert_eq!(
        logged.get_help_display(),
        "  withdraw <amount>\n  balance\n  end-session\n  help\n  exit"
    );
}

#[test]
fn failed_authentication_is_a_normal_outcome() {
    let mut atm = ATM::new();
    let resp = auth_result_response(1, false);
    assert!(matches!(
        atm.handle_auth_response("alice", &resp),
        AuthOutcome::Failed
    ));
    assert!(!atm.is_active_user());
}

#[test]
fn wrong_kind_auth_reply_is_invalid() {
    let mut atm = ATM::new();
    let resp = Response::new(Plaintext::new(1, MessageType::End).get_bytes().clone()).unwrap();
    assert!(matches!(
        atm.handle_auth_response("alice", &resp),
        AuthOutcome::InvalidResponse
    ));
    assert!(!atm.is_active_user());
}

#[test]
fn receive_errors_decide_shutdown_or_reset() {
    let mut atm = logged_in_atm("alice");
    assert!(matches!(
        atm.handle_receive_error(&ReceiveError::EndOfStream),
        ErrorDisposition::ShutdownStale
    ));
    assert!(matches!(
        atm.handle_receive_error(&ReceiveError::StaleStream),
        ErrorDisposition::ShutdownStale
    ));
    assert!(matches!(
        atm.handle_receive_error(&ReceiveError::InvalidCount),
        ErrorDisposition::ShutdownTampered
    ));
    assert!(atm.is_active_user());
    assert!(matches!(
        atm.handle_receive_error(&ReceiveError::InvalidMessage),
        ErrorDisposition::ResetSession
    ));
    assert!(!atm.is_active_user());
}

#[test]
fn end_response_always_returns_to_anonymous() {
    let mut atm = logged_in_atm("alice");
    let resp = Response::new(Plaintext::new(3, MessageType::End).get_bytes().clone()).unwrap();
    assert!(atm.handle_end_response(&resp));
    assert!(!atm.is_active_user());
}
