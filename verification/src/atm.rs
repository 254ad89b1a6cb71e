//! The ATM side: the client session state machine.
//!
//! The ATM is either anonymous or holds an authenticated session for one
//! user.  Command availability is gated strictly by that state: a command
//! that does not fit the current state is rejected locally and never
//! reaches the network.  The machine itself only decides; the surrounding
//! shell performs the reads and writes and feeds the responses back in.

use vstd::prelude::*;
use vstd::string::{StrSliceExecFns, StringExecFns, StringSliceAdditionalSpecFns};

use crate::message::{
    spec_all_digits, spec_auth_result_field, spec_auth_user_frame, spec_balance_field,
    spec_is_alnum, spec_new_frame, MessageType, Plaintext, Response, MAX_PLAINTEXT_SIZE,
    MAX_USERNAME_SIZE, PIN_SIZE,
};
use crate::text::{
    alnum_run_end, all_digits_range, lemma_alnum_run_end, lemma_alnum_run_end_exact,
    spec_alnum_run_end, spec_starts_with, str_eq, str_starts_with,
};
use crate::transport::{spec_count_after, spec_receive_check, validate_frame, ReceiveError};

verus! {

/// The session state of the ATM.
pub enum ATMState {
    /// Nobody is authenticated.
    BASE,
    /// The named user's session is open.
    LOGGED(String),
}

/// The begin-session command: `begin-session <user-name> <PIN>`, with a
/// letters-and-digits name and a four-digit PIN.  The answer is the name
/// and the PIN, as written.
pub open spec fn spec_parse_begin_session(s: Seq<char>) -> Option<(Seq<char>, Seq<char>)> {
    let pre = "begin-session "@;
    if !spec_starts_with(s, pre) {
        None
    } else {
        let k1 = spec_alnum_run_end(s, pre.len() as int);
        let u = s.subrange(pre.len() as int, k1);
        if u.len() < 1 || k1 + 5 != s.len() || s[k1] != ' ' || !spec_all_digits(
            s.subrange(k1 + 1, k1 + 5),
        ) {
            None
        } else {
            Some((u, s.subrange(k1 + 1, k1 + 5)))
        }
    }
}

/// The declarative shape of a begin-session line: the prefix, then the
/// username, one space, and the PIN, with nothing around them.
pub open spec fn spec_begin_session_form(s: Seq<char>, u: Seq<char>, p: Seq<char>) -> bool {
    &&& s == "begin-session "@ + u + seq![' '] + p
    &&& u.len() >= 1
    &&& (forall|i: int| 0 <= i < u.len() ==> spec_is_alnum(#[trigger] u[i]))
    &&& p.len() == PIN_SIZE
    &&& spec_all_digits(p)
}

/// The parser recognizes exactly the lines of the begin-session shape, and
/// returns exactly their decomposition.
pub proof fn lemma_begin_session_grammar(s: Seq<char>)
    ensures
        match spec_parse_begin_session(s) {
            Some((u, p)) => spec_begin_session_form(s, u, p),
            None => forall|u: Seq<char>, p: Seq<char>| !spec_begin_session_form(s, u, p),
        },
{
    let pre = "begin-session "@;
    match spec_parse_begin_session(s) {
        Some((u, p)) => {
            let k1 = spec_alnum_run_end(s, pre.len() as int);
            lemma_alnum_run_end(s, pre.len() as int);
            assert(s =~= pre + u + seq![' '] + p);
        },
        None => {
            assert forall|u: Seq<char>, p: Seq<char>| !spec_begin_session_form(s, u, p) by {
                if spec_begin_session_form(s, u, p) {
                    let k: int = pre.len() as int + u.len() as int;
                    assert(s.subrange(0, pre.len() as int) =~= pre);
                    assert forall|m: int| pre.len() <= m < k implies spec_is_alnum(
                        #[trigger] s[m],
                    ) by {
                        assert(s[m] == u[m - pre.len()]);
                    }
                    assert(s[k as int] == ' ');
                    assert(!spec_is_alnum(s[k as int]));
                    lemma_alnum_run_end_exact(s, pre.len() as int, k as int);
                    assert(s.subrange(pre.len() as int, k as int) =~= u);
                    assert(s.subrange(k + 1, k + 5) =~= p);
                }
            }
        },
    }
}

/// What the ATM decides to do with one line of input.
pub enum AtmAction {
    /// Send an authentication request for this username and PIN.
    SendAuth { username: String, pin: String },
    /// Send a balance request.
    SendBalance,
    /// Send an end-session request.
    SendEnd,
    /// Show the command list.
    ShowHelp,
    /// Show how begin-session is written.
    UsageBeginSession,
    /// The requested username is longer than a frame can carry.
    UsernameTooLong,
    /// Withdrawals are not part of the protocol yet; the line is ignored.
    WithdrawUnsupported,
    /// No command fit the input in the current state.
    Invalid,
}

/// What became of an authentication exchange.
pub enum AuthOutcome {
    /// The reply was not a well-formed authentication result.
    InvalidResponse,
    /// The bank refused; a normal outcome, not an error.
    Failed,
    /// The bank accepted; the session is open.
    LoggedIn,
}

/// What became of a balance exchange.
pub enum BalanceOutcome {
    /// The reply was not a well-formed balance response.
    InvalidResponse,
    /// The account's balance, in cents.
    Balance(u64),
}

/// What the ATM does about a failed receive.
pub enum ErrorDisposition {
    /// The connection is stale or gone: shut the ATM down.
    ShutdownStale,
    /// The counter check failed: the channel may be tampered with, shut
    /// the ATM down.
    ShutdownTampered,
    /// The message was malformed: end just this session and start over.
    ResetSession,
}

/// The ATM: its session state and its local sequence counter.
pub struct ATM {
    state: ATMState,
    comm_count: u8,
}

impl ATM {
    /// The session state.
    pub closed spec fn spec_state(&self) -> ATMState {
        self.state
    }

    /// The local sequence counter.
    pub closed spec fn spec_count(&self) -> u8 {
        self.comm_count
    }

    /// A fresh ATM: anonymous, counter zero.
    pub fn new() -> (a: Self)
        ensures
            a.spec_state() == ATMState::BASE,
            a.spec_count() == 0,
    {
        Self { state: ATMState::BASE, comm_count: 0 }
    }

    /// The current counter value.
    pub fn comm_count(&self) -> (c: u8)
        ensures
            c == self.spec_count(),
    {
        self.comm_count
    }

    /// Whether a user is authenticated.
    pub fn is_active_user(&self) -> (r: bool)
        ensures
            r == (self.spec_state() is LOGGED),
    {
        match self.state {
            ATMState::BASE => false,
            ATMState::LOGGED(_) => true,
        }
    }

    /// The console prompt, naming the session's user when there is one.
    pub fn get_prompt(&self) -> (r: String)
        ensures
            match self.spec_state() {
                ATMState::BASE => r@ == "ATM: "@,
                ATMState::LOGGED(u) => r@ == "ATM ("@ + u@ + "): "@,
            },
    {
        match &self.state {
            ATMState::BASE => String::from_str("ATM: "),
            ATMState::LOGGED(user) => String::from_str("ATM (").concat(user.as_str()).concat(
                "): ",
            ),
        }
    }

    /// The command list for the current state.
    pub fn get_help_display(&self) -> (r: String)
        ensures
            match self.spec_state() {
                ATMState::BASE => r@ == "  begin-session <user-name> <PIN>\n  help\n  exit"@,
                ATMState::LOGGED(_) => r@
                    == "  withdraw <amount>\n  balance\n  end-session\n  help\n  exit"@,
            },
    {
        match self.state {
            ATMState::BASE => String::from_str("  begin-session <user-name> <PIN>\n  help\n  exit"),
            ATMState::LOGGED(_) => String::from_str(
                "  withdraw <amount>\n  balance\n  end-session\n  help\n  exit",
            ),
        }
    }

    /// Parses a begin-session line into its username and PIN.
    fn parse_begin_session(input: &str) -> (r: Option<(String, String)>)
        ensures
            match spec_parse_begin_session(input@) {
                Some((u, p)) => r matches Some((username, pin)) && username@ == u && pin@ == p,
                None => r is None,
            },
    {
        proof {
            reveal_strlit("begin-session ");
        }
        if !str_starts_with(input, "begin-session ") {
            return None;
        }
        let n = input.unicode_len();
        let k1 = alnum_run_end(input, 14);
        proof {
            lemma_alnum_run_end(input@, 14);
        }
        if k1 == 14 {
            return None;
        }
        if n - k1 != 5 {
            return None;
        }
        if input.get_char(k1) != ' ' {
            return None;
        }
        if !all_digits_range(input, k1 + 1, k1 + 5) {
            return None;
        }
        let username = input.substring_char(14, k1).to_owned();
        let pin = input.substring_char(k1 + 1, k1 + 5).to_owned();
        Some((username, pin))
    }

    /// Decides what one line of input asks for, given the current state.
    /// A command that does not fit the state is answered locally; no
    /// network action comes out of it.
    pub fn process_input(&self, input: &str) -> (r: AtmAction)
        ensures
            self.spec_state() is BASE ==> !(r is SendBalance) && !(r is SendEnd),
            self.spec_state() is LOGGED ==> !(r is SendAuth),
            ({
                let s = input@;
                match self.spec_state() {
                    ATMState::BASE => if spec_starts_with(s, "begin-session"@) {
                        match spec_parse_begin_session(s) {
                            Some((u, p)) => if u.len() > MAX_USERNAME_SIZE {
                                r == AtmAction::UsernameTooLong
                            } else {
                                r matches AtmAction::SendAuth { username, pin } && username@ == u
                                    && pin@ == p
                            },
                            None => r == AtmAction::UsageBeginSession,
                        }
                    } else if s == "help"@ {
                        r == AtmAction::ShowHelp
                    } else {
                        r == AtmAction::Invalid
                    },
                    ATMState::LOGGED(_) => if spec_starts_with(s, "withdraw"@) {
                        r == AtmAction::WithdrawUnsupported
                    } else if s == "balance"@ {
                        r == AtmAction::SendBalance
                    } else if s == "end-session"@ {
                        r == AtmAction::SendEnd
                    } else if s == "help"@ {
                        r == AtmAction::ShowHelp
                    } else {
                        r == AtmAction::Invalid
                    },
                }
            }),
    {
        match self.state {
            ATMState::BASE => {
                if str_starts_with(input, "begin-session") {
                    match Self::parse_begin_session(input) {
                        None => AtmAction::UsageBeginSession,
                        Some((username, pin)) => {
                            if username.as_str().unicode_len() > MAX_USERNAME_SIZE {
                                AtmAction::UsernameTooLong
                            } else {
                                AtmAction::SendAuth { username, pin }
                            }
                        },
                    }
                } else if str_eq(input, "help") {
                    AtmAction::ShowHelp
                } else {
                    AtmAction::Invalid
                }
            },
            ATMState::LOGGED(_) => {
                if str_starts_with(input, "withdraw") {
                    AtmAction::WithdrawUnsupported
                } else if str_eq(input, "balance") {
                    AtmAction::SendBalance
                } else if str_eq(input, "end-session") {
                    AtmAction::SendEnd
                } else if str_eq(input, "help") {
                    AtmAction::ShowHelp
                } else {
                    AtmAction::Invalid
                }
            },
        }
    }

    /// Builds the authentication request frame for the current counter.
    pub fn build_auth_request(&self, username: &str, pin: &str) -> (p: Plaintext)
        requires
            username.spec_bytes().len() <= MAX_USERNAME_SIZE,
            pin.spec_bytes().len() <= PIN_SIZE,
        ensures
            p@ == spec_auth_user_frame(self.spec_count(), username.spec_bytes(), pin.spec_bytes()),
    {
        let mut p = Plaintext::new(self.comm_count, MessageType::AuthUser);
        p.set_auth_user(username, pin);
        proof {
            assert(p@ =~= spec_auth_user_frame(
                self.spec_count(),
                username.spec_bytes(),
                pin.spec_bytes(),
            ));
        }
        p
    }

    /// Builds the balance request frame for the current counter.
    pub fn build_balance_request(&self) -> (p: Plaintext)
        ensures
            p@ == spec_new_frame(self.spec_count(), MessageType::Balance),
    {
        Plaintext::new(self.comm_count, MessageType::Balance)
    }

    /// Builds the end-session request frame for the current counter.
    pub fn build_end_request(&self) -> (p: Plaintext)
        ensures
            p@ == spec_new_frame(self.spec_count(), MessageType::End),
    {
        Plaintext::new(self.comm_count, MessageType::End)
    }

    /// Advances the local counter after a request was written out.
    pub fn record_send(&mut self)
        requires
            old(self).spec_count() < 255,
        ensures
            final(self).spec_count() == old(self).spec_count() + 1,
            final(self).spec_state() == old(self).spec_state(),
    {
        self.comm_count = self.comm_count + 1;
    }

    /// Validates one received frame against the local counter.
    pub fn receive_frame(&mut self, eof: bool, buf: Vec<u8>) -> (r: Result<Response, ReceiveError>)
        requires
            buf@.len() == MAX_PLAINTEXT_SIZE,
        ensures
            final(self).spec_count() == spec_count_after(eof, buf@, old(self).spec_count()),
            final(self).spec_state() == old(self).spec_state(),
            match spec_receive_check(eof, buf@, old(self).spec_count()) {
                Ok(()) => r matches Ok(resp) && resp@ == buf@ && Some(resp.spec_type())
                    == crate::message::spec_kind_of_byte(buf@[1]),
                Err(e) => r == Err::<Response, ReceiveError>(e),
            },
    {
        validate_frame(eof, buf, &mut self.comm_count)
    }

    /// Interprets the bank's reply to an authentication request.  Success
    /// opens the session for `username`; refusal is a normal outcome and
    /// leaves the ATM anonymous; anything else ends the session attempt.
    pub fn handle_auth_response(&mut self, username: &str, response: &Response) -> (r: AuthOutcome)
        requires
            old(self).spec_state() is BASE,
        ensures
            final(self).spec_count() == old(self).spec_count(),
            if response.spec_type() != MessageType::AuthResult {
                r == AuthOutcome::InvalidResponse && final(self).spec_state() == ATMState::BASE
            } else if spec_auth_result_field(response@) {
                r == AuthOutcome::LoggedIn && (final(self).spec_state() matches ATMState::LOGGED(u)
                    && u@ == username@)
            } else {
                r == AuthOutcome::Failed && final(self).spec_state() == ATMState::BASE
            },
    {
        match response.get_auth_result() {
            Err(_) => {
                self.state = ATMState::BASE;
                AuthOutcome::InvalidResponse
            },
            Ok(false) => AuthOutcome::Failed,
            Ok(true) => {
                self.state = ATMState::LOGGED(username.to_owned());
                AuthOutcome::LoggedIn
            },
        }
    }

    /// Interprets the bank's reply to a balance request.  A malformed
    /// reply ends the session.
    pub fn handle_balance_response(&mut self, response: &Response) -> (r: BalanceOutcome)
        ensures
            final(self).spec_count() == old(self).spec_count(),
            if response.spec_type() != MessageType::Balance {
                r == BalanceOutcome::InvalidResponse && final(self).spec_state() == ATMState::BASE
            } else {
                r == BalanceOutcome::Balance(spec_balance_field(response@)) && final(self).spec_state() == old(self).spec_state()
            },
    {
        match response.get_balance() {
            Err(_) => {
                self.state = ATMState::BASE;
                BalanceOutcome::InvalidResponse
            },
            Ok(b) => BalanceOutcome::Balance(b),
        }
    }

    /// Notes the bank's reply to an end-session request.  Whatever the
    /// reply holds, the session is over and the ATM is anonymous again.
    pub fn handle_end_response(&mut self, response: &Response) -> (r: bool)
        ensures
            final(self).spec_count() == old(self).spec_count(),
            final(self).spec_state() == ATMState::BASE,
            r == (response.spec_type() == MessageType::End),
    {
        self.state = ATMState::BASE;
        matches!(response.get_type(), MessageType::End)
    }

    /// Decides how to recover from a failed receive: a stale or closed or
    /// tampered stream shuts the ATM down; a malformed message only ends
    /// the current session.
    pub fn handle_receive_error(&mut self, e: &ReceiveError) -> (d: ErrorDisposition)
        ensures
            final(self).spec_count() == old(self).spec_count(),
            match e {
                ReceiveError::EndOfStream | ReceiveError::StaleStream => d
                    == ErrorDisposition::ShutdownStale && final(self).spec_state() == old(self).spec_state(),
                ReceiveError::InvalidCount => d == ErrorDisposition::ShutdownTampered && final(self).spec_state() == old(self).spec_state(),
                ReceiveError::InvalidMessage => d == ErrorDisposition::ResetSession && final(self).spec_state() == ATMState::BASE,
            },
    {
        match e {
            ReceiveError::EndOfStream | ReceiveError::StaleStream => {
                ErrorDisposition::ShutdownStale
            },
            ReceiveError::InvalidCount => ErrorDisposition::ShutdownTampered,
            ReceiveError::InvalidMessage => {
                self.state = ATMState::BASE;
                ErrorDisposition::ResetSession
            },
        }
    }
}

} // verus!
