//! Receive-side frame validation and the anti-replay counter discipline.
//!
//! Each endpoint keeps a local counter that advances by exactly one on every
//! successful send and every successful receive, so both ends always agree
//! on the next expected value.  An incoming frame is accepted only when it
//! carries exactly that value; a counter at or above the reserved bound
//! marks the connection stale and forces closure.

use vstd::prelude::*;

use crate::message::{
    spec_kind_of_byte, MessageType, Response, COMM_COUNTER_IDX, MAX_COMM_COUNTER,
    MAX_PLAINTEXT_SIZE, MESSAGE_TYPE_IDX,
};

verus! {

/// The closed set of causes for a failed receive.
#[derive(Debug, Clone, Copy, PartialEq, Eq, Structural)]
pub enum ReceiveError {
    /// The stream has been closed.
    EndOfStream,
    /// The maximum number of consecutive communications has been reached;
    /// the stream must be closed.
    StaleStream,
    /// The received counter did not match the local count: the frame was
    /// dropped, reordered or replayed.
    InvalidCount,
    /// The received message kind was unrecognized.
    InvalidMessage,
}

/// The checks a received frame must pass, in order: the stream is still
/// open, the frame's counter is below the stale bound, the counter equals
/// the locally expected value, and the kind byte is in range.
pub open spec fn spec_receive_check(eof: bool, frame: Seq<u8>, comm_count: u8) -> Result<
    (),
    ReceiveError,
> {
    if eof {
        Err(ReceiveError::EndOfStream)
    } else if frame[COMM_COUNTER_IDX as int] >= MAX_COMM_COUNTER {
        Err(ReceiveError::StaleStream)
    } else if frame[COMM_COUNTER_IDX as int] != comm_count {
        Err(ReceiveError::InvalidCount)
    } else if spec_kind_of_byte(frame[MESSAGE_TYPE_IDX as int]) is None {
        Err(ReceiveError::InvalidMessage)
    } else {
        Ok(())
    }
}

/// The local counter after a receive: it advances exactly when the whole
/// receive succeeded, decoding included; on any failure it stands still.
pub open spec fn spec_count_after(eof: bool, frame: Seq<u8>, comm_count: u8) -> u8 {
    if spec_receive_check(eof, frame, comm_count) is Ok {
        (comm_count + 1) as u8
    } else {
        comm_count
    }
}

/// Validates one received frame against the local counter and decodes it.
///
/// `eof` says whether the stream closed instead of yielding a frame.  On
/// success the local counter advances exactly once.
pub fn validate_frame(eof: bool, buf: Vec<u8>, comm_count: &mut u8) -> (r: Result<
    Response,
    ReceiveError,
>)
    requires
        buf@.len() == MAX_PLAINTEXT_SIZE,
    ensures
        *final(comm_count) == spec_count_after(eof, buf@, *old(comm_count)),
        match spec_receive_check(eof, buf@, *old(comm_count)) {
            Ok(()) => r matches Ok(resp) && resp@ == buf@ && Some(resp.spec_type())
                == spec_kind_of_byte(buf@[MESSAGE_TYPE_IDX as int]),
            Err(e) => r == Err::<Response, ReceiveError>(e),
        },
{
    if eof {
        return Err(ReceiveError::EndOfStream);
    }
    if buf[COMM_COUNTER_IDX] >= MAX_COMM_COUNTER {
        return Err(ReceiveError::StaleStream);
    }
    if buf[COMM_COUNTER_IDX] != *comm_count {
        return Err(ReceiveError::InvalidCount);
    }
    match Response::new(buf) {
        Ok(resp) => {
            *comm_count = *comm_count + 1;
            Ok(resp)
        },
        Err(_) => Err(ReceiveError::InvalidMessage),
    }
}

/// The transform applied to every outgoing frame just before it is written.
/// The transform boundary is a seam for a future confidentiality layer; the
/// protocol currently runs it as the identity.
pub fn encode_transform(bytes: Vec<u8>) -> (r: Vec<u8>)
    ensures
        r@ == bytes@,
{
    bytes
}

/// The transform applied to every incoming frame just after it is read; the
/// inverse seam of `encode_transform`, currently the identity.
pub fn decode_transform(bytes: Vec<u8>) -> (r: Vec<u8>)
    ensures
        r@ == bytes@,
{
    bytes
}

/// Replaying a frame that was already accepted is always rejected: once the
/// counter has advanced past it, the same frame yields `InvalidCount`, never
/// silent acceptance.
pub proof fn lemma_replay_rejected(frame: Seq<u8>, comm_count: u8)
    requires
        spec_receive_check(false, frame, comm_count) is Ok,
    ensures
        spec_receive_check(false, frame, spec_count_after(false, frame, comm_count)) == Err::<
            (),
            ReceiveError,
        >(ReceiveError::InvalidCount),
{
}

/// A frame whose counter has reached the reserved bound is rejected as
/// stale no matter what the receiver expects, so the connection is torn
/// down rather than allowed to wrap.
pub proof fn lemma_stale_stream(frame: Seq<u8>, comm_count: u8)
    requires
        frame[COMM_COUNTER_IDX as int] >= MAX_COMM_COUNTER,
    ensures
        spec_receive_check(false, frame, comm_count) == Err::<(), ReceiveError>(
            ReceiveError::StaleStream,
        ),
        spec_count_after(false, frame, comm_count) == comm_count,
{
}

/// One full request/response exchange, seen from the counters alone.  The
/// requester holds counter `atm` and the responder `bank`; `req` and `rep`
/// are the two frames on the wire.  The exchange succeeds when the
/// responder accepts the request and the requester accepts the reply, each
/// end advancing its counter once per send and once per receive.
pub open spec fn spec_exchange(atm: u8, bank: u8, req: Seq<u8>, rep: Seq<u8>) -> Option<(u8, u8)> {
    if req[COMM_COUNTER_IDX as int] == atm && spec_receive_check(false, req, bank) is Ok
        && spec_receive_check(false, rep, (atm + 1) as u8) is Ok {
        Some((((atm + 2) as u8), ((bank + 2) as u8)))
    } else {
        None
    }
}

/// The counters of both endpoints after a run of successful exchanges on
/// one connection, starting from a fresh connection where both are zero.
pub open spec fn spec_run(history: Seq<(Seq<u8>, Seq<u8>)>) -> Option<(u8, u8)>
    decreases history.len(),
{
    if history.len() == 0 {
        Some((0u8, 0u8))
    } else {
        match spec_run(history.drop_last()) {
            None => None,
            Some((atm, bank)) => spec_exchange(
                atm,
                bank,
                history.last().0,
                history.last().1,
            ),
        }
    }
}

/// Counter monotonicity: after `N` successful request/response cycles on
/// one connection both endpoints' counters are equal, and equal to the `2N`
/// successful operations each endpoint performed.  The counter never wraps:
/// a receive at the stale bound fails, ending the run first.
pub proof fn lemma_counter_monotonicity(history: Seq<(Seq<u8>, Seq<u8>)>)
    requires
        spec_run(history) is Some,
    ensures
        spec_run(history) == Some((((2 * history.len()) as u8), ((2 * history.len()) as u8))),
        2 * history.len() <= MAX_COMM_COUNTER + 1,
    decreases history.len(),
{
    if history.len() > 0 {
        lemma_counter_monotonicity(history.drop_last());
    }
}

/// Between the two halves of an exchange the endpoints' counters differ by
/// exactly the one message in flight: after the requester's send but before
/// the responder's receive, the requester is one ahead.
pub proof fn lemma_in_flight_gap(atm: u8, bank: u8, req: Seq<u8>, rep: Seq<u8>)
    requires
        atm == bank,
        spec_exchange(atm, bank, req, rep) is Some,
    ensures
        (atm + 1) - bank == 1,
        spec_count_after(false, req, bank) == atm + 1,
{
}

} // verus!
