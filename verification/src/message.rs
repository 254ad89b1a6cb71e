//! Fixed-layout message codec.
//!
//! Every frame on the wire has the same total length: one byte of sequence
//! counter, one byte of message kind, and a zero-padded body.  String fields
//! are stored left-justified and zero-padded; decoding trims the trailing
//! zero bytes back off.

use vstd::prelude::*;
use vstd::string::StringSliceAdditionalSpecFns;

verus! {

/// Index of the communication counter byte.
pub const COMM_COUNTER_IDX: usize = 0;
/// Counter values at or above this bound mark the connection stale.
pub const MAX_COMM_COUNTER: u8 = 253;

/// Index of the message kind byte.
pub const MESSAGE_TYPE_IDX: usize = 1;

/// Index of the first body byte.
pub const MESSAGE_START_IDX: usize = 2;
/// Maximum length of a username field.
pub const MAX_USERNAME_SIZE: usize = 20;
/// Index of the first username byte.
pub const USERNAME_START_IDX: usize = 2;
/// Index one past the last username byte.
pub const USERNAME_PAST_END_IDX: usize = 22;
/// Index of the first PIN byte.
pub const PIN_START_IDX: usize = 22;
/// Length of the PIN field.
pub const PIN_SIZE: usize = 4;
/// Index one past the last PIN byte.
pub const PIN_PAST_END_IDX: usize = 26;
/// Length of the body.
pub const MESSAGE_BODY_SIZE: usize = 24;
/// Length of an entire frame.
pub const MAX_PLAINTEXT_SIZE: usize = 26;
/// Length of an encoded balance.
pub const BALANCE_SIZE: usize = 8;

/// Body byte signalling a successful authentication.
pub const AUTH_SUCCESS: u8 = 0;
/// Body byte signalling a failed authentication.
pub const AUTH_FAILURE: u8 = 1;

/// The closed set of message kinds exchanged between ATM and bank.
#[derive(Debug, Clone, Copy, PartialEq, Eq, Structural)]
pub enum MessageType {
    AuthUser,
    Balance,
    Withdraw,
    Deposit,
    End,
    AuthResult,
}

/// Errors trying to create a `MessageType`.
#[derive(Debug, Clone, Copy, PartialEq, Eq, Structural)]
pub enum MessageTypeError {
    InvalidType(u8),
}

/// The wire discriminant of a message kind.
pub open spec fn spec_kind_byte(t: MessageType) -> u8 {
    match t {
        MessageType::AuthUser => 0,
        MessageType::Balance => 1,
        MessageType::Withdraw => 2,
        MessageType::Deposit => 3,
        MessageType::End => 4,
        MessageType::AuthResult => 5,
    }
}

/// The message kind a wire discriminant stands for, if any.
pub open spec fn spec_kind_of_byte(b: u8) -> Option<MessageType> {
    if b == 0 {
        Some(MessageType::AuthUser)
    } else if b == 1 {
        Some(MessageType::Balance)
    } else if b == 2 {
        Some(MessageType::Withdraw)
    } else if b == 3 {
        Some(MessageType::Deposit)
    } else if b == 4 {
        Some(MessageType::End)
    } else if b == 5 {
        Some(MessageType::AuthResult)
    } else {
        None
    }
}

/// A wire discriminant decodes back to the kind it encodes.
pub proof fn lemma_kind_byte_round_trip(t: MessageType)
    ensures
        spec_kind_of_byte(spec_kind_byte(t)) == Some(t),
{
}

impl MessageType {
    /// Conversion from a wire discriminant to a `MessageType`.
    pub fn try_from(value: u8) -> (r: Result<Self, MessageTypeError>)
        ensures
            r == match spec_kind_of_byte(value) {
                Some(t) => Ok::<MessageType, MessageTypeError>(t),
                None => Err(MessageTypeError::InvalidType(value)),
            },
    {
        match value {
            0 => Ok(Self::AuthUser),
            1 => Ok(Self::Balance),
            2 => Ok(Self::Withdraw),
            3 => Ok(Self::Deposit),
            4 => Ok(Self::End),
            5 => Ok(Self::AuthResult),
            _ => Err(MessageTypeError::InvalidType(value)),
        }
    }

    /// The wire discriminant of this kind.
    pub fn as_byte(&self) -> (b: u8)
        ensures
            b == spec_kind_byte(*self),
    {
        match self {
            MessageType::AuthUser => 0,
            MessageType::Balance => 1,
            MessageType::Withdraw => 2,
            MessageType::Deposit => 3,
            MessageType::End => 4,
            MessageType::AuthResult => 5,
        }
    }
}

/// A sequence of `n` zero bytes.
pub open spec fn spec_zeros(n: int) -> Seq<u8> {
    Seq::new(n as nat, |i: int| 0u8)
}

/// `s` zero-padded on the right up to length `n`.
pub open spec fn spec_pad(s: Seq<u8>, n: int) -> Seq<u8> {
    s + spec_zeros(n - s.len())
}

/// `s` with its trailing zero bytes removed.
pub open spec fn spec_trim_zeros(s: Seq<u8>) -> Seq<u8>
    decreases s.len(),
{
    if s.len() > 0 && s.last() == 0 {
        spec_trim_zeros(s.drop_last())
    } else {
        s
    }
}

/// Trimming undoes padding as long as the payload does not itself end in a
/// zero byte.
pub proof fn lemma_trim_pad(s: Seq<u8>, n: int)
    requires
        s.len() <= n,
        s.len() == 0 || s.last() != 0,
    ensures
        spec_trim_zeros(spec_pad(s, n)) == s,
    decreases n - s.len(),
{
    if s.len() == n {
        assert(spec_pad(s, n) =~= s);
    } else {
        let p = spec_pad(s, n);
        assert(p.last() == 0);
        assert(p.drop_last() =~= spec_pad(s, n - 1));
        lemma_trim_pad(s, n - 1);
    }
}

/// A fresh frame: counter, kind, and an all-zero body.
pub open spec fn spec_new_frame(comm_count: u8, t: MessageType) -> Seq<u8> {
    seq![comm_count, spec_kind_byte(t)] + spec_zeros(MESSAGE_BODY_SIZE as int)
}

/// Builds and fills one outgoing frame.
pub struct Plaintext {
    contents: Vec<u8>,
}

impl View for Plaintext {
    type V = Seq<u8>;

    closed spec fn view(&self) -> Seq<u8> {
        self.contents@
    }
}

impl Plaintext {
    /// Every frame keeps the fixed wire length.
    #[verifier::type_invariant]
    pub closed spec fn wf(&self) -> bool {
        self.contents@.len() == MAX_PLAINTEXT_SIZE
    }

    /// Create a new frame carrying the given counter value and kind.
    pub fn new(comm_count: u8, msg_type: MessageType) -> (p: Self)
        ensures
            p@ == spec_new_frame(comm_count, msg_type),
    {
        let mut ptext: Vec<u8> = vec![0u8; MAX_PLAINTEXT_SIZE];
        ptext[COMM_COUNTER_IDX] = comm_count;
        ptext[MESSAGE_TYPE_IDX] = msg_type.as_byte();
        let p = Self { contents: ptext };
        proof {
            assert(p@ =~= spec_new_frame(comm_count, msg_type));
        }
        p
    }

    /// The raw bytes of the frame.
    pub fn get_bytes(&self) -> (r: &Vec<u8>)
        ensures
            r@ == self@,
    {
        &self.contents
    }

    /// Advances the local counter after this frame was sent.
    pub fn update_count(&self, comm_count: &mut u8)
        requires
            *old(comm_count) < 255,
        ensures
            *final(comm_count) == *old(comm_count) + 1,
    {
        *comm_count = *comm_count + 1;
    }

    /// Resets the body to zero so that no earlier field survives.
    fn reset_body(&mut self)
        ensures
            final(self)@ == old(self)@.subrange(0, MESSAGE_START_IDX as int) + spec_zeros(
                MESSAGE_BODY_SIZE as int,
            ),
    {
        proof {
            use_type_invariant(&*self);
        }
        let mut i: usize = MESSAGE_START_IDX;
        while i < MAX_PLAINTEXT_SIZE
            invariant
                MESSAGE_START_IDX <= i <= MAX_PLAINTEXT_SIZE,
                self@.len() == MAX_PLAINTEXT_SIZE,
                self@.subrange(0, MESSAGE_START_IDX as int) == old(self)@.subrange(
                    0,
                    MESSAGE_START_IDX as int,
                ),
                forall|j: int| MESSAGE_START_IDX <= j < i ==> self@[j] == 0u8,
                forall|j: int| i <= j < MAX_PLAINTEXT_SIZE ==> self@[j] == old(self)@[j],
            decreases MAX_PLAINTEXT_SIZE - i,
        {
            self.contents[i] = 0;
            i = i + 1;
        }
        proof {
            assert(self@ =~= old(self)@.subrange(0, MESSAGE_START_IDX as int) + spec_zeros(
                MESSAGE_BODY_SIZE as int,
            ));
        }
    }

    /// Copies `bytes` into the frame starting at `offset`.
    fn generic_insert(&mut self, bytes: &[u8], offset: usize)
        requires
            offset + bytes@.len() <= MAX_PLAINTEXT_SIZE,
        ensures
            final(self)@ == old(self)@.subrange(0, offset as int) + bytes@ + old(self)@.subrange(
                offset + bytes@.len(),
                MAX_PLAINTEXT_SIZE as int,
            ),
    {
        proof {
            use_type_invariant(&*self);
        }
        let n = bytes.len();
        let mut i: usize = 0;
        while i < n
            invariant
                0 <= i <= n,
                n == bytes@.len(),
                offset + n <= MAX_PLAINTEXT_SIZE,
                self@.len() == MAX_PLAINTEXT_SIZE,
                forall|j: int| 0 <= j < offset ==> self@[j] == old(self)@[j],
                forall|j: int| 0 <= j < i ==> self@[offset + j] == bytes@[j],
                forall|j: int| offset + i <= j < MAX_PLAINTEXT_SIZE ==> self@[j] == old(self)@[j],
            decreases n - i,
        {
            self.contents[offset + i] = bytes[i];
            i = i + 1;
        }
        proof {
            assert(self@ =~= old(self)@.subrange(0, offset as int) + bytes@ + old(self)@.subrange(
                offset + bytes@.len(),
                MAX_PLAINTEXT_SIZE as int,
            ));
        }
    }

    /// Turns this frame into an authentication request carrying the given
    /// username and PIN, zero-filling the body first.
    pub fn set_auth_user(&mut self, username: &str, pin: &str)
        requires
            username.spec_bytes().len() <= MAX_USERNAME_SIZE,
            pin.spec_bytes().len() <= PIN_SIZE,
        ensures
            final(self)@ == old(self)@.subrange(0, MESSAGE_START_IDX as int) + spec_auth_body(
                username.spec_bytes(),
                pin.spec_bytes(),
            ),
    {
        proof {
            use_type_invariant(&*self);
        }
        self.reset_body();
        self.generic_insert(username.as_bytes(), USERNAME_START_IDX);
        self.generic_insert(pin.as_bytes(), PIN_START_IDX);
        proof {
            assert(self@ =~= old(self)@.subrange(0, MESSAGE_START_IDX as int) + spec_auth_body(
                username.spec_bytes(),
                pin.spec_bytes(),
            ));
        }
    }

    /// Turns this frame into an authentication result.
    pub fn set_auth_result(&mut self, result: bool)
        ensures
            final(self)@ == old(self)@.update(
                MESSAGE_START_IDX as int,
                if result {
                    AUTH_SUCCESS
                } else {
                    AUTH_FAILURE
                },
            ),
    {
        proof {
            use_type_invariant(&*self);
        }
        self.contents[MESSAGE_START_IDX] = if result {
            AUTH_SUCCESS
        } else {
            AUTH_FAILURE
        };
        proof {
            assert(self@ =~= old(self)@.update(
                MESSAGE_START_IDX as int,
                if result {
                    AUTH_SUCCESS
                } else {
                    AUTH_FAILURE
                },
            ));
        }
    }

    /// Turns this frame into a balance response carrying the given balance,
    /// zero-filling the body first.
    pub fn set_balance(&mut self, balance: u64)
        ensures
            final(self)@ == old(self)@.subrange(0, MESSAGE_START_IDX as int) + spec_balance_bytes(
                balance,
            ) + spec_zeros(MESSAGE_BODY_SIZE - BALANCE_SIZE),
    {
        proof {
            use_type_invariant(&*self);
        }
        self.reset_body();
        let bytes: Vec<u8> = vec![
            #[verifier::truncate] ((balance & 0xff) as u8),
            #[verifier::truncate] (((balance >> 8) & 0xff) as u8),
            #[verifier::truncate] (((balance >> 16) & 0xff) as u8),
            #[verifier::truncate] (((balance >> 24) & 0xff) as u8),
            #[verifier::truncate] (((balance >> 32) & 0xff) as u8),
            #[verifier::truncate] (((balance >> 40) & 0xff) as u8),
            #[verifier::truncate] (((balance >> 48) & 0xff) as u8),
            #[verifier::truncate] (((balance >> 56) & 0xff) as u8),
        ];
        proof {
            assert(bytes@ =~= spec_balance_bytes(balance));
        }
        self.generic_insert(bytes.as_slice(), MESSAGE_START_IDX);
        proof {
            assert(self@ =~= old(self)@.subrange(0, MESSAGE_START_IDX as int) + spec_balance_bytes(
                balance,
            ) + spec_zeros(MESSAGE_BODY_SIZE - BALANCE_SIZE));
        }
    }
}

/// The body of an authentication request: the username and the PIN, each
/// left-justified and zero-padded into its slot.
pub open spec fn spec_auth_body(user: Seq<u8>, pin: Seq<u8>) -> Seq<u8> {
    spec_pad(user, MAX_USERNAME_SIZE as int) + spec_pad(pin, PIN_SIZE as int)
}

/// A complete authentication request frame.
pub open spec fn spec_auth_user_frame(comm_count: u8, user: Seq<u8>, pin: Seq<u8>) -> Seq<u8> {
    seq![comm_count, spec_kind_byte(MessageType::AuthUser)] + spec_auth_body(user, pin)
}

/// A complete authentication result frame.
pub open spec fn spec_auth_result_frame(comm_count: u8, success: bool) -> Seq<u8> {
    spec_new_frame(comm_count, MessageType::AuthResult).update(
        MESSAGE_START_IDX as int,
        if success {
            AUTH_SUCCESS
        } else {
            AUTH_FAILURE
        },
    )
}

/// The little-endian bytes of a balance.
pub open spec fn spec_balance_bytes(b: u64) -> Seq<u8> {
    seq![
        (b & 0xff) as u8,
        ((b >> 8) & 0xff) as u8,
        ((b >> 16) & 0xff) as u8,
        ((b >> 24) & 0xff) as u8,
        ((b >> 32) & 0xff) as u8,
        ((b >> 40) & 0xff) as u8,
        ((b >> 48) & 0xff) as u8,
        ((b >> 56) & 0xff) as u8,
    ]
}

/// The balance eight little-endian bytes stand for.
pub open spec fn spec_balance_value(s: Seq<u8>) -> u64 {
    ((s[0] as u64) | ((s[1] as u64) << 8) | ((s[2] as u64) << 16) | ((s[3] as u64) << 24) | ((
    s[4] as u64) << 32) | ((s[5] as u64) << 40) | ((s[6] as u64) << 48) | ((s[7] as u64) << 56))
}

/// A complete balance response frame.
pub open spec fn spec_balance_frame(comm_count: u8, b: u64) -> Seq<u8> {
    seq![comm_count, spec_kind_byte(MessageType::Balance)] + spec_balance_bytes(b) + spec_zeros(
        MESSAGE_BODY_SIZE - BALANCE_SIZE,
    )
}

/// Decoding an encoded balance yields the balance back.
pub proof fn lemma_balance_round_trip(b: u64)
    ensures
        spec_balance_value(spec_balance_bytes(b)) == b,
{
    let s = spec_balance_bytes(b);
    assert(((b & 0xff) as u8 as u64) | (((b >> 8) & 0xff) as u8 as u64) << 8 | (((b >> 16)
        & 0xff) as u8 as u64) << 16 | (((b >> 24) & 0xff) as u8 as u64) << 24 | (((b >> 32)
        & 0xff) as u8 as u64) << 32 | (((b >> 40) & 0xff) as u8 as u64) << 40 | (((b >> 48)
        & 0xff) as u8 as u64) << 48 | (((b >> 56) & 0xff) as u8 as u64) << 56 == b) by (bit_vector);
}

/// Errors raised while reading fields back out of a received message.
#[derive(Debug, Clone, Copy, PartialEq, Eq, Structural)]
pub enum ResponseError {
    /// The received message's kind byte was invalid.
    InvalidMessageType(MessageTypeError),
    /// The requested field does not exist in the received message kind.
    DeconstructError { request: MessageType, actual: MessageType },
    /// The received bytes are not a valid string.
    InvalidBytesForString,
    /// The received bytes are not a valid PIN.
    InvalidBytesForPIN,
}

/// True of the decimal digit characters.
pub open spec fn spec_is_digit(c: char) -> bool {
    '0' <= c && c <= '9'
}

/// True when every character of `s` is a decimal digit.
pub open spec fn spec_all_digits(s: Seq<char>) -> bool {
    forall|i: int| 0 <= i < s.len() ==> spec_is_digit(#[trigger] s[i])
}

/// The number the decimal digits of `s` spell, most significant first.
pub open spec fn spec_digits_value(s: Seq<char>) -> int
    decreases s.len(),
{
    if s.len() == 0 {
        0
    } else {
        spec_digits_value(s.drop_last()) * 10 + (s.last() as int - '0' as int)
    }
}

/// A digit string of bounded length spells a bounded number.
pub proof fn lemma_digits_value_bound(s: Seq<char>)
    requires
        spec_all_digits(s),
        s.len() <= 4,
    ensures
        0 <= spec_digits_value(s),
        s.len() == 0 ==> spec_digits_value(s) == 0,
        s.len() <= 1 ==> spec_digits_value(s) <= 9,
        s.len() <= 2 ==> spec_digits_value(s) <= 99,
        s.len() <= 3 ==> spec_digits_value(s) <= 999,
        spec_digits_value(s) <= 9999,
    decreases s.len(),
{
    if s.len() > 0 {
        assert(spec_all_digits(s.drop_last()));
        lemma_digits_value_bound(s.drop_last());
    }
}

/// The username a frame body carries: the username slot with its zero
/// padding trimmed off, decoded as UTF-8.
pub open spec fn spec_username_field(frame: Seq<u8>) -> Result<Seq<char>, ResponseError> {
    let t = spec_trim_zeros(frame.subrange(USERNAME_START_IDX as int, USERNAME_PAST_END_IDX as int));
    if vstd::utf8::valid_utf8(t) {
        Ok(vstd::utf8::decode_utf8(t))
    } else {
        Err(ResponseError::InvalidBytesForString)
    }
}

/// The PIN a frame body carries: the PIN slot with its zero padding trimmed
/// off, which must spell a nonempty string of decimal digits.
pub open spec fn spec_pin_field(frame: Seq<u8>) -> Result<u16, ResponseError> {
    let t = spec_trim_zeros(frame.subrange(PIN_START_IDX as int, PIN_PAST_END_IDX as int));
    if !vstd::utf8::valid_utf8(t) {
        Err(ResponseError::InvalidBytesForString)
    } else {
        let cs = vstd::utf8::decode_utf8(t);
        if cs.len() >= 1 && spec_all_digits(cs) {
            Ok((spec_digits_value(cs) as u16))
        } else {
            Err(ResponseError::InvalidBytesForPIN)
        }
    }
}

/// The authentication outcome a frame body carries.
pub open spec fn spec_auth_result_field(frame: Seq<u8>) -> bool {
    frame[MESSAGE_START_IDX as int] == AUTH_SUCCESS
}

/// The balance a frame body carries.
pub open spec fn spec_balance_field(frame: Seq<u8>) -> u64 {
    spec_balance_value(frame.subrange(MESSAGE_START_IDX as int, (MESSAGE_START_IDX + BALANCE_SIZE) as int))
}

/// Relies on core::str::from_utf8: it returns Ok exactly when the bytes are
/// valid UTF-8, and the resulting string slice is backed by those same bytes.
#[verifier::external_body]
fn bytes_as_utf8<'a>(v: &'a [u8]) -> (r: Option<&'a str>)
    ensures
        r is Some <==> vstd::utf8::valid_utf8(v@),
        r matches Some(s) ==> s.spec_bytes() == v@,
{
    core::str::from_utf8(v).ok()
}

/// Reads fields back out of one received frame.
pub struct Response {
    msg_type: MessageType,
    contents: Vec<u8>,
}

impl View for Response {
    type V = Seq<u8>;

    closed spec fn view(&self) -> Seq<u8> {
        self.contents@
    }
}

impl Response {
    /// A response keeps the fixed wire length, and its kind field matches
    /// the kind byte of the frame it was built from.
    #[verifier::type_invariant]
    pub closed spec fn wf(&self) -> bool {
        self.contents@.len() == MAX_PLAINTEXT_SIZE && spec_kind_of_byte(
            self.contents@[MESSAGE_TYPE_IDX as int],
        ) == Some(self.msg_type)
    }

    /// The kind of this response.
    pub closed spec fn spec_type(&self) -> MessageType {
        self.msg_type
    }

    /// Creates a new `Response` around a received frame.  Fails exactly when
    /// the frame's kind byte is out of range.
    pub fn new(response_buf: Vec<u8>) -> (r: Result<Self, MessageTypeError>)
        requires
            response_buf@.len() == MAX_PLAINTEXT_SIZE,
        ensures
            match spec_kind_of_byte(response_buf@[MESSAGE_TYPE_IDX as int]) {
                Some(t) => r matches Ok(resp) && resp@ == response_buf@ && resp.spec_type() == t,
                None => r == Err::<Response, MessageTypeError>(
                    MessageTypeError::InvalidType(response_buf@[MESSAGE_TYPE_IDX as int]),
                ),
            },
    {
        let msg_type = MessageType::try_from(response_buf[MESSAGE_TYPE_IDX])?;
        Ok(Self { msg_type, contents: response_buf })
    }

    /// The kind of this response.
    pub fn get_type(&self) -> (t: MessageType)
        ensures
            t == self.spec_type(),
    {
        self.msg_type
    }

    /// The raw bytes of this response.
    pub fn get_contents(&self) -> (r: &Vec<u8>)
        ensures
            r@ == self@,
    {
        &self.contents
    }

    /// Finds the index one past the last non-zero byte of the slot
    /// `[start, past_end)`, so that the slot up to there is the slot with
    /// its zero padding trimmed off.
    fn trimmed_end(&self, start: usize, past_end: usize) -> (end: usize)
        requires
            MESSAGE_START_IDX <= start <= past_end <= MAX_PLAINTEXT_SIZE,
        ensures
            start <= end <= past_end,
            self@.subrange(start as int, end as int) == spec_trim_zeros(
                self@.subrange(start as int, past_end as int),
            ),
    {
        proof {
            use_type_invariant(self);
        }
        let mut end: usize = past_end;
        while end > start && self.contents[end - 1] == 0
            invariant
                MESSAGE_START_IDX <= start <= end <= past_end <= MAX_PLAINTEXT_SIZE,
                self@.len() == MAX_PLAINTEXT_SIZE,
                spec_trim_zeros(self@.subrange(start as int, end as int)) == spec_trim_zeros(
                    self@.subrange(start as int, past_end as int),
                ),
            decreases end,
        {
            proof {
                assert(self@.subrange(start as int, end as int).drop_last() =~= self@.subrange(
                    start as int,
                    end - 1,
                ));
            }
            end = end - 1;
        }
        proof {
            let t = self@.subrange(start as int, end as int);
            assert(end > start ==> t.last() == self@[end - 1]);
            assert(spec_trim_zeros(t) == t);
        }
        end
    }

    /// Copies the bytes of the slot `[start, end)` out of the frame.
    fn copy_range(&self, start: usize, end: usize) -> (v: Vec<u8>)
        requires
            start <= end <= MAX_PLAINTEXT_SIZE,
        ensures
            v@ == self@.subrange(start as int, end as int),
    {
        proof {
            use_type_invariant(self);
        }
        let mut v: Vec<u8> = Vec::new();
        let mut i: usize = start;
        while i < end
            invariant
                0 <= start <= i <= end,
                end <= MAX_PLAINTEXT_SIZE,
                self@.len() == MAX_PLAINTEXT_SIZE,
                v@ =~= self@.subrange(start as int, i as int),
            decreases end - i,
        {
            let b = self.contents[i];
            v.push(b);
            proof {
                assert(v@ =~= self@.subrange(start as int, i + 1));
            }
            i = i + 1;
        }
        v
    }

    /// Returns the username carried by an authentication request, or says
    /// why there is none.
    pub fn get_user(&self) -> (r: Result<String, ResponseError>)
        ensures
            self.spec_type() != MessageType::AuthUser ==> r == Err::<String, ResponseError>(
                (ResponseError::DeconstructError {
                    request: MessageType::AuthUser,
                    actual: self.spec_type(),
                }),
            ),
            self.spec_type() == MessageType::AuthUser ==> match spec_username_field(self@) {
                Ok(u) => r matches Ok(name) && name@ == u,
                Err(e) => r == Err::<String, ResponseError>(e),
            },
    {
        proof {
            use_type_invariant(self);
        }
        if !matches!(self.msg_type, MessageType::AuthUser) {
            return Err(ResponseError::DeconstructError {
                request: MessageType::AuthUser,
                actual: self.get_type(),
            });
        }
        let end = self.trimmed_end(USERNAME_START_IDX, USERNAME_PAST_END_IDX);
        let v = self.copy_range(USERNAME_START_IDX, end);
        match bytes_as_utf8(v.as_slice()) {
            None => Err(ResponseError::InvalidBytesForString),
            Some(s) => {
                proof {
                    broadcast use vstd::utf8::encode_utf8_decode_utf8;

                }
                Ok(s.to_owned())
            },
        }
    }

    /// Returns the PIN carried by an authentication request, or says why
    /// there is none.
    pub fn get_pin(&self) -> (r: Result<u16, ResponseError>)
        ensures
            self.spec_type() != MessageType::AuthUser ==> r == Err::<u16, ResponseError>(
                (ResponseError::DeconstructError {
                    request: MessageType::AuthUser,
                    actual: self.spec_type(),
                }),
            ),
            self.spec_type() == MessageType::AuthUser ==> r == spec_pin_field(self@),
    {
        proof {
            use_type_invariant(self);
        }
        if !matches!(self.msg_type, MessageType::AuthUser) {
            return Err(ResponseError::DeconstructError {
                request: MessageType::AuthUser,
                actual: self.get_type(),
            });
        }
        let end = self.trimmed_end(PIN_START_IDX, PIN_PAST_END_IDX);
        let v = self.copy_range(PIN_START_IDX, end);
        let ghost t = spec_trim_zeros(self@.subrange(PIN_START_IDX as int, PIN_PAST_END_IDX as int));
        match bytes_as_utf8(v.as_slice()) {
            None => Err(ResponseError::InvalidBytesForString),
            Some(s) => {
                proof {
                    broadcast use vstd::utf8::encode_utf8_decode_utf8;

                    assert(vstd::utf8::decode_utf8(t) == s@);
                    assert(vstd::utf8::encode_utf8(s@) == v@);
                    lemma_encode_utf8_len(s@);
                    assert(s@.len() <= PIN_SIZE);
                }
                parse_pin_digits(s)
            },
        }
    }

    /// Returns the outcome carried by an authentication result, or says why
    /// there is none.
    pub fn get_auth_result(&self) -> (r: Result<bool, ResponseError>)
        ensures
            self.spec_type() != MessageType::AuthResult ==> r == Err::<bool, ResponseError>(
                (ResponseError::DeconstructError {
                    request: MessageType::AuthResult,
                    actual: self.spec_type(),
                }),
            ),
            self.spec_type() == MessageType::AuthResult ==> r == Ok::<bool, ResponseError>(
                spec_auth_result_field(self@),
            ),
    {
        proof {
            use_type_invariant(self);
        }
        if !matches!(self.msg_type, MessageType::AuthResult) {
            return Err(ResponseError::DeconstructError {
                request: MessageType::AuthResult,
                actual: self.get_type(),
            });
        }
        Ok(self.contents[MESSAGE_START_IDX] == AUTH_SUCCESS)
    }

    /// Returns the balance carried by a balance response, or says why there
    /// is none.
    pub fn get_balance(&self) -> (r: Result<u64, ResponseError>)
        ensures
            self.spec_type() != MessageType::Balance ==> r == Err::<u64, ResponseError>(
                (ResponseError::DeconstructError {
                    request: MessageType::Balance,
                    actual: self.spec_type(),
                }),
            ),
            self.spec_type() == MessageType::Balance ==> r == Ok::<u64, ResponseError>(
                spec_balance_field(self@),
            ),
    {
        proof {
            use_type_invariant(self);
        }
        if !matches!(self.msg_type, MessageType::Balance) {
            return Err(ResponseError::DeconstructError {
                request: MessageType::Balance,
                actual: self.get_type(),
            });
        }
        let b0 = self.contents[MESSAGE_START_IDX] as u64;
        let b1 = self.contents[MESSAGE_START_IDX + 1] as u64;
        let b2 = self.contents[MESSAGE_START_IDX + 2] as u64;
        let b3 = self.contents[MESSAGE_START_IDX + 3] as u64;
        let b4 = self.contents[MESSAGE_START_IDX + 4] as u64;
        let b5 = self.contents[MESSAGE_START_IDX + 5] as u64;
        let b6 = self.contents[MESSAGE_START_IDX + 6] as u64;
        let b7 = self.contents[MESSAGE_START_IDX + 7] as u64;
        let v = b0 | (b1 << 8) | (b2 << 16) | (b3 << 24) | (b4 << 32) | (b5 << 40) | (b6 << 48) | (
        b7 << 56);
        proof {
            let sub = self@.subrange(MESSAGE_START_IDX as int, (MESSAGE_START_IDX + BALANCE_SIZE) as int);
            assert(sub[0] == self@[2] && sub[1] == self@[3] && sub[2] == self@[4] && sub[3]
                == self@[5] && sub[4] == self@[6] && sub[5] == self@[7] && sub[6] == self@[8]
                && sub[7] == self@[9]);
        }
        Ok(v)
    }
}

/// Parses a nonempty all-digit string as a PIN value; any other string is
/// rejected.
fn parse_pin_digits(s: &str) -> (r: Result<u16, ResponseError>)
    requires
        s@.len() <= PIN_SIZE,
    ensures
        r == if s@.len() >= 1 && spec_all_digits(s@) {
            Ok::<u16, ResponseError>((spec_digits_value(s@) as u16))
        } else {
            Err::<u16, ResponseError>(ResponseError::InvalidBytesForPIN)
        },
{
    let n = s.unicode_len();
    if n == 0 {
        return Err(ResponseError::InvalidBytesForPIN);
    }
    let mut value: u16 = 0;
    let mut i: usize = 0;
    while i < n
        invariant
            0 <= i <= n,
            n == s@.len(),
            n <= PIN_SIZE,
            spec_all_digits(s@.take(i as int)),
            value == spec_digits_value(s@.take(i as int)),
            value <= 9999,
        decreases n - i,
    {
        let c = s.get_char(i);
        if c < '0' || c > '9' {
            return Err(ResponseError::InvalidBytesForPIN);
        }
        proof {
            assert(s@.take(i + 1).drop_last() =~= s@.take(i as int));
            assert(s@.take(i + 1).last() == s@[i as int]);
            lemma_digits_value_bound(s@.take(i as int));
        }
        let d = (c as u32 - '0' as u32) as u16;
        value = value * 10 + d;
        i = i + 1;
    }
    proof {
        assert(s@.take(n as int) =~= s@);
    }
    Ok(value)
}

/// A UTF-8 encoding is at least one byte per character.
pub proof fn lemma_encode_utf8_len(chars: Seq<char>)
    ensures
        vstd::utf8::encode_utf8(chars).len() >= chars.len(),
    decreases chars.len(),
{
    if chars.len() > 0 {
        lemma_encode_utf8_len(chars.drop_first());
    }
}

/// True of the ASCII letters and digits.
pub open spec fn spec_is_alnum(c: char) -> bool {
    ('a' <= c && c <= 'z') || ('A' <= c && c <= 'Z') || ('0' <= c && c <= '9')
}

/// A username the protocol accepts: nonempty, at most the slot width, all
/// ASCII letters and digits.
pub open spec fn spec_valid_username(u: Seq<char>) -> bool {
    &&& 1 <= u.len() <= MAX_USERNAME_SIZE
    &&& forall|i: int| 0 <= i < u.len() ==> spec_is_alnum(#[trigger] u[i])
}

/// A PIN the protocol accepts: exactly four decimal digits.
pub open spec fn spec_valid_pin(p: Seq<char>) -> bool {
    p.len() == PIN_SIZE && spec_all_digits(p)
}

/// Round trip for the authentication request: the username and PIN written
/// into a frame are read back unchanged.
pub proof fn lemma_auth_round_trip(comm_count: u8, user: Seq<char>, pin: Seq<char>)
    requires
        spec_valid_username(user),
        spec_valid_pin(pin),
    ensures
        spec_username_field(
            spec_auth_user_frame(
                comm_count,
                vstd::utf8::encode_utf8(user),
                vstd::utf8::encode_utf8(pin),
            ),
        ) == Ok::<Seq<char>, ResponseError>(user),
        spec_pin_field(
            spec_auth_user_frame(
                comm_count,
                vstd::utf8::encode_utf8(user),
                vstd::utf8::encode_utf8(pin),
            ),
        ) == Ok::<u16, ResponseError>((spec_digits_value(pin) as u16)),
{
    broadcast use vstd::utf8::encode_utf8_valid_utf8;
    broadcast use vstd::utf8::encode_utf8_decode_utf8;
    broadcast use vstd::utf8::is_ascii_chars_encode_utf8;

    let ub = vstd::utf8::encode_utf8(user);
    let pb = vstd::utf8::encode_utf8(pin);
    assert(vstd::utf8::is_ascii_chars(user));
    assert(vstd::utf8::is_ascii_chars(pin));
    assert(ub.len() == user.len());
    assert(pb.len() == pin.len());
    let f = spec_auth_user_frame(comm_count, ub, pb);
    assert(f.subrange(USERNAME_START_IDX as int, USERNAME_PAST_END_IDX as int) =~= spec_pad(
        ub,
        MAX_USERNAME_SIZE as int,
    ));
    assert(f.subrange(PIN_START_IDX as int, PIN_PAST_END_IDX as int) =~= spec_pad(
        pb,
        PIN_SIZE as int,
    ));
    assert(ub.last() == user.last() as u8 && user.last() as u8 != 0);
    assert(pb.last() == pin.last() as u8 && pin.last() as u8 != 0);
    lemma_trim_pad(ub, MAX_USERNAME_SIZE as int);
    lemma_trim_pad(pb, PIN_SIZE as int);
    assert(vstd::utf8::decode_utf8(ub) == user);
    assert(vstd::utf8::decode_utf8(pb) == pin);
}

/// Round trip for the authentication result: the outcome written into a
/// frame is read back unchanged.
pub proof fn lemma_auth_result_round_trip(comm_count: u8, success: bool)
    ensures
        spec_auth_result_field(spec_auth_result_frame(comm_count, success)) == success,
{
}

/// Round trip for the balance response: the balance written into a frame is
/// read back unchanged.
pub proof fn lemma_balance_frame_round_trip(comm_count: u8, b: u64)
    ensures
        spec_balance_field(spec_balance_frame(comm_count, b)) == b,
{
    let f = spec_balance_frame(comm_count, b);
    assert(f.subrange(MESSAGE_START_IDX as int, (MESSAGE_START_IDX + BALANCE_SIZE) as int)
        =~= spec_balance_bytes(b));
    lemma_balance_round_trip(b);
}

} // verus!
