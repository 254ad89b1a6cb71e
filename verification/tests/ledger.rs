use atm_bank::bank::{Bank, BankReply, LedgerError};

fn reply_name(r: &BankReply) -> &'static str {
    match r {
        BankReply::Created { .. } => "Created",
        BankReply::UserExists { .. } => "UserExists",
        BankReply::UsernameTooLong => "UsernameTooLong",
        BankReply::UsageCreateUser => "UsageCreateUser",
        BankReply::Deposited { .. } => "Deposited",
        BankReply::DepositOverflow => "DepositOverflow",
        BankReply::DepositTooLarge => "DepositTooLarge",
        BankReply::UnknownAccount => "UnknownAccount",
        BankReply::UsageDeposit => "UsageDeposit",
        BankReply::BalanceIs { .. } => "BalanceIs",
        BankReply::UsageBalance => "UsageBalance",
        BankReply::AmountTooLarge => "AmountTooLarge",
        BankReply::ListUsers => "ListUsers",
        BankReply::Help => "Help",
        BankReply::Invalid => "Invalid",
    }
}

#[test]
fn authentication_is_opaque_to_the_asker() {
    let mut bank = Bank::new();
    bank.process_input("create-user alice 1234 100");
    assert!(bank.attempt_authentication("alice", 1234));
    assert!(!bank.attempt_authentication("alice", 1233));
    assert!(!bank.attempt_authentication("nobody", 1234));
    assert!(bank.is_existing_user("alice"));
    assert!(!bank.is_existing_user("nobody"));
}

#[test]
fn create_user_parses_and_stores_cents() {
    let mut bank = Bank::new();
    match bank.process_input("create-user alice 1234 100.50") {
        BankReply::Created { username } => assert_eq!(username, "alice"),
        other => panic!("expected Created, got {}", reply_name(&other)),
    }
    assert_eq!(bank.get_balance("alice"), Some(10050));
    match bank.process_input("balance alice") {
        BankReply::BalanceIs { username, balance } => {
            assert_eq!(username, "alice");
            assert_eq!(balance, 10050);
        }
        other => panic!("expected BalanceIs, got {}", reply_name(&other)),
    }
}

#[test]
fn amount_grammar_accepts_the_three_shapes() {
    let mut bank = Bank::new();
    bank.process_input("create-user alice 1234 0");
    for (line, cents) in [
        ("deposit alice 1", 100u64),
        ("deposit alice 1.", 100),
        ("deposit alice 1.2", 120),
        ("deposit alice 1.23", 123),
        ("deposit alice 0.05", 5),
    ] {
        match bank.process_input(line) {
            BankReply::Deposited { amount, .. } => assert_eq!(amount, cents, "line {:?}", line),
            other => panic!("line {:?}: expected Deposited, got {}", line, reply_name(&other)),
        }
    }
    assert_eq!(bank.get_balance("alice"), Some(100 + 100 + 120 + 123 + 5));
}

#[test]
fn malformed_lines_show_usage() {
    let mut bank = Bank::new();
    bank.process_input("create-user alice 1234 1");
    for line in [
        "create-user",
        "create-user alice",
        "create-user alice 1234",
        "create-user alice 123 1",
        "create-user alice 12345 1",
        "create-user al1ce 1234 1",
        "create-user alice 1234 1.234",
        "create-user alice 1234 .5",
    ] {
        assert!(
            matches!(bank.process_input(line), BankReply::UsageCreateUser),
            "line {:?}",
            line
        );
    }
    for line in ["deposit", "deposit alice", "deposit alice x", "deposit alice 1.234"] {
        assert!(
            matches!(bank.process_input(line), BankReply::UsageDeposit),
            "line {:?}",
            line
        );
    }
    for line in ["balance", "balance alice extra", "balance al1ce"] {
        assert!(
            matches!(bank.process_input(line), BankReply::UsageBalance),
            "line {:?}",
            line
        );
    }
    assert!(matches!(bank.process_input("users"), BankReply::ListUsers));
    assert!(matches!(bank.process_input("help"), BankReply::Help));
    assert!(matches!(bank.process_input("frobnicate"), BankReply::Invalid));
}

#[test]
fn duplicate_user_is_refused() {
    let mut bank = Bank::new();
    bank.process_input("create-user alice 1234 1");
    match bank.process_input("create-user alice 1111 5") {
        BankReply::UserExists { username } => assert_eq!(username, "alice"),
        other => panic!("expected UserExists, got {}", reply_name(&other)),
    }
    assert!(bank.attempt_authentication("alice", 1234));
    assert!(!bank.attempt_authentication("alice", 1111));
}

#[test]
fn long_username_is_refused() {
    let mut bank = Bank::new();
    let r = bank.process_input("create-user abcdefghijklmnopqrstu 1234 1");
    assert!(matches!(r, BankReply::UsernameTooLong));
    assert!(!bank.is_existing_user("abcdefghijklmnopqrstu"));
}

#[test]
fn unknown_account_is_reported() {
    let mut bank = Bank::new();
    assert!(matches!(
        bank.process_input("deposit ghost 1"),
        BankReply::UnknownAccount
    ));
    assert!(matches!(
        bank.process_input("balance ghost"),
        BankReply::UnknownAccount
    ));
}

#[test]
fn amounts_too_large_for_the_ledger_are_refused() {
    let mut bank = Bank::new();
    let r = bank.process_input("create-user alice 1234 999999999999999999999");
    assert!(matches!(r, BankReply::AmountTooLarge), "got {}", reply_name(&r));
    assert!(!bank.is_existing_user("alice"));
    bank.process_input("create-user alice 1234 1");
    let r = bank.process_input("deposit alice 999999999999999999999");
    assert!(matches!(r, BankReply::DepositTooLarge), "got {}", reply_name(&r));
}

#[test]
fn deposit_overflow_leaves_the_balance_alone() {
    let mut bank = Bank::new();
    // u64::MAX cents is 184467440737095516.15 in the console's notation.
    let r = bank.process_input("create-user rich 1234 184467440737095516.15");
    assert!(matches!(r, BankReply::Created { .. }), "got {}", reply_name(&r));
    assert_eq!(bank.get_balance("rich"), Some(u64::MAX));
    let r = bank.process_input("deposit rich 0.01");
    assert!(matches!(r, BankReply::DepositOverflow), "got {}", reply_name(&r));
    assert_eq!(bank.get_balance("rich"), Some(u64::MAX));
}

#[test]
fn mutate_balance_reports_its_errors() {
    let mut bank = Bank::new();
    bank.process_input("create-user alice 1234 1");
    assert_eq!(bank.mutate_balance("ghost", 5), Err(LedgerError::UnknownUser));
    assert_eq!(bank.mutate_balance("alice", 5), Ok(()));
    assert_eq!(bank.get_balance("alice"), Some(105));
    assert_eq!(
        bank.mutate_balance("alice", u64::MAX),
        Err(LedgerError::BalanceOverflow)
    );
    assert_eq!(bank.get_balance("alice"), Some(105));
}

#[test]
fn ledger_listing_reaches_every_account() {
    let mut bank = Bank::new();
    bank.process_input("create-user alice 1234 1");
    bank.process_input("create-user bob 5678 2.50");
    assert_eq!(bank.user_count(), 2);
    let mut names = Vec::new();
    for i in 0..bank.user_count() {
        let u = bank.user_at(i);
        names.push((u.name.clone(), u.pin, u.balance));
    }
    assert!(names.contains(&("alice".to_string(), 1234, 100)));
    assert!(names.contains(&("bob".to_string(), 5678, 250)));
}

#[test]
fn prompts_and_help_are_fixed() {
    assert_eq!(Bank::get_prompt(), "BANK: ");
    assert_eq!(
        Bank::get_help_display(),
        "  create-user <user-name> <pin> <balance>\n  deposit <user-name> <amt>\n  balance <user-name>\n  users\n  exit"
    );
}
