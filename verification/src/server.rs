//! The bank side of one connection: receive a request, consult the ledger,
//! build the reply.
//!
//! One `ServerConn` exists per accepted connection and runs independently
//! of all others; connections share nothing but the ledger itself.  The
//! dispatch is a pure decision step: the surrounding loop performs the
//! reads and writes and feeds frames in.

use vstd::prelude::*;

use crate::bank::{spec_authenticates, spec_lookup, Bank};
use crate::message::{
    spec_auth_result_frame, spec_balance_frame, spec_new_frame, spec_pin_field,
    spec_username_field, MessageType, Plaintext, Response, MAX_PLAINTEXT_SIZE,
};
use crate::transport::{
    spec_count_after, spec_receive_check, validate_frame, ReceiveError,
};

verus! {

/// What the dispatch decides to do with one received request.
pub enum DispatchOutcome {
    /// Send this reply and keep the connection.
    Reply(Plaintext),
    /// Close the connection; the protocol has no way to resynchronize.
    Close,
}

/// The bank's per-connection state: the local counter and, after a
/// successful authentication, the user the session speaks for.
pub struct ServerConn {
    comm_count: u8,
    session_user: Option<String>,
}

impl ServerConn {
    /// The local sequence counter.
    pub closed spec fn spec_count(&self) -> u8 {
        self.comm_count
    }

    /// The authenticated user of this connection, if any.
    pub closed spec fn spec_session_user(&self) -> Option<Seq<char>> {
        match self.session_user {
            Some(ref u) => Some(u@),
            None => None,
        }
    }

    /// A fresh connection: counter zero, nobody authenticated.
    pub fn new() -> (c: Self)
        ensures
            c.spec_count() == 0,
            c.spec_session_user() is None,
    {
        Self { comm_count: 0, session_user: None }
    }

    /// The current counter value.
    pub fn comm_count(&self) -> (c: u8)
        ensures
            c == self.spec_count(),
    {
        self.comm_count
    }

    /// Validates one received frame against the local counter.
    pub fn receive_frame(&mut self, eof: bool, buf: Vec<u8>) -> (r: Result<Response, ReceiveError>)
        requires
            buf@.len() == MAX_PLAINTEXT_SIZE,
        ensures
            final(self).spec_count() == spec_count_after(eof, buf@, old(self).spec_count()),
            final(self).spec_session_user() == old(self).spec_session_user(),
            match spec_receive_check(eof, buf@, old(self).spec_count()) {
                Ok(()) => r matches Ok(resp) && resp@ == buf@ && Some(resp.spec_type())
                    == crate::message::spec_kind_of_byte(buf@[1]),
                Err(e) => r == Err::<Response, ReceiveError>(e),
            },
    {
        validate_frame(eof, buf, &mut self.comm_count)
    }

    /// Advances the local counter after a reply was written out.
    pub fn record_send(&mut self)
        requires
            old(self).spec_count() < 255,
        ensures
            final(self).spec_count() == old(self).spec_count() + 1,
            final(self).spec_session_user() == old(self).spec_session_user(),
    {
        self.comm_count = self.comm_count + 1;
    }

    /// Dispatches one received request against the ledger and builds the
    /// reply.
    ///
    /// An authentication request is answered with its boolean outcome only:
    /// an unknown user and a wrong PIN get the identical reply, so the
    /// existence of accounts is never revealed.  A balance request is
    /// served only inside an authenticated session; outside one, or for a
    /// request the protocol reserves, the connection is closed.  The local
    /// counter is untouched: it advances when the reply is actually sent.
    pub fn handle_request(&mut self, bank: &Bank, response: &Response) -> (r: DispatchOutcome)
        ensures
            final(self).spec_count() == old(self).spec_count(),
            ({
                let f = response@;
                let c = old(self).spec_count();
                match response.spec_type() {
                    MessageType::AuthUser => match (spec_username_field(f), spec_pin_field(f)) {
                        (Ok(u), Ok(p)) => {
                            let ok = spec_authenticates(bank.spec_users(), u, p);
                            &&& (r matches DispatchOutcome::Reply(rep) && rep@
                                == spec_auth_result_frame(c, ok))
                            &&& final(self).spec_session_user() == if ok {
                                Some(u)
                            } else {
                                old(self).spec_session_user()
                            }
                        },
                        _ => r is Close && final(self).spec_session_user() == old(self).spec_session_user(),
                    },
                    MessageType::Balance => match old(self).spec_session_user() {
                        None => r is Close && final(self).spec_session_user() == old(self).spec_session_user(),
                        Some(u) => match spec_lookup(bank.spec_users(), u) {
                            None => r is Close && final(self).spec_session_user() == old(self).spec_session_user(),
                            Some(acct) => (r matches DispatchOutcome::Reply(rep) && rep@
                                == spec_balance_frame(c, acct.balance)) && final(self).spec_session_user() == old(self).spec_session_user(),
                        },
                    },
                    MessageType::End => (r matches DispatchOutcome::Reply(rep) && rep@
                        == spec_new_frame(c, MessageType::End)) && final(self).spec_session_user() is None,
                    _ => r is Close && final(self).spec_session_user() == old(self).spec_session_user(),
                }
            }),
    {
        match response.get_type() {
            MessageType::AuthUser => {
                let username = match response.get_user() {
                    Err(_) => {
                        return DispatchOutcome::Close;
                    },
                    Ok(username) => username,
                };
                let pin = match response.get_pin() {
                    Err(_) => {
                        return DispatchOutcome::Close;
                    },
                    Ok(pin) => pin,
                };
                let ok = bank.attempt_authentication(username.as_str(), pin);
                let mut plaintext = Plaintext::new(self.comm_count, MessageType::AuthResult);
                plaintext.set_auth_result(ok);
                if ok {
                    self.session_user = Some(username);
                }
                DispatchOutcome::Reply(plaintext)
            },
            MessageType::Balance => {
                let balance = match self.session_user {
                    None => {
                        return DispatchOutcome::Close;
                    },
                    Some(ref u) => match bank.get_balance(u.as_str()) {
                        None => {
                            return DispatchOutcome::Close;
                        },
                        Some(b) => b,
                    },
                };
                let mut plaintext = Plaintext::new(self.comm_count, MessageType::Balance);
                plaintext.set_balance(balance);
                DispatchOutcome::Reply(plaintext)
            },
            MessageType::End => {
                let plaintext = Plaintext::new(self.comm_count, MessageType::End);
                self.session_user = None;
                DispatchOutcome::Reply(plaintext)
            },
            _ => DispatchOutcome::Close,
        }
    }
}

/// Authentication opacity: a request for a user the ledger does not know
/// and a request for a known user with the wrong PIN produce the very same
/// reply frame, so the two cases cannot be told apart on the wire.
pub proof fn lemma_authentication_opacity(
    users: Seq<crate::bank::User>,
    n1: Seq<char>,
    p1: u16,
    n2: Seq<char>,
    p2: u16,
    comm_count: u8,
)
    requires
        spec_lookup(users, n1) is None,
        spec_lookup(users, n2) matches Some(acct) && acct.pin != p2,
    ensures
        spec_authenticates(users, n1, p1) == spec_authenticates(users, n2, p2),
        spec_auth_result_frame(comm_count, spec_authenticates(users, n1, p1))
            == spec_auth_result_frame(comm_count, spec_authenticates(users, n2, p2)),
{
}

} // verus!
