//! The request/response session over one link: how a request is framed, how
//! a reply is read back, and the handshake that opens the session.
use vstd::prelude::*;
use vstd::utf8::{encode_utf8, valid_utf8};
use crate::frame::{decode_result, encode_result, FrameError, FrameView, MUFrame};

verus! {

/// How many times the handshake is tried before the link is given up.
pub const HANDSHAKE_ATTEMPTS: u8 = 5;

/// Size of the buffer that one read of a reply fills.
pub const READ_BUFFER_SIZE: usize = 256;

/// Pause, in milliseconds, between sending a request and reading its reply.
pub const ANSWER_DELAY_MS: u64 = 500;

/// Errors of the link and of one request/response transaction.
#[derive(Debug, Clone, Copy, PartialEq, Eq, Structural)]
pub enum SessionError {
    /// Opening, reading or writing the link failed.
    TransportError,
    /// A request could not be framed, or a reply is not a valid frame.
    ProtocolError(FrameError),
    /// A reply's payload is not valid text.
    EncodingError,
    /// Every handshake attempt went unanswered or was answered wrongly.
    HandshakeFailed,
}

/// The payload sent for a request: its text followed by a newline.
pub open spec fn request_payload(request: Seq<char>) -> Seq<u8> {
    encode_utf8(request) + seq![0x0Au8]
}

/// Frames a request: its text and a newline become the payload.
pub fn encode_request(request: &str) -> (r: Result<Vec<u8>, SessionError>)
    ensures
        match encode_result(request_payload(request@)) {
            Ok(bytes) => r is Ok && r->Ok_0@ == bytes,
            Err(e) => r == Err::<Vec<u8>, SessionError>(SessionError::ProtocolError(e)),
        },
{
    let mut payload = request.as_bytes_vec();
    payload.push(0x0A);
    assert(payload@ =~= request_payload(request@));
    let mut frame = MUFrame::new();
    match frame.set_data(payload) {
        Ok(()) => Ok(frame.serialize()),
        Err(e) => Err(SessionError::ProtocolError(e)),
    }
}

/// Reads the frame that a single read of the link left at the start of
/// `read_buffer`, and validates it.
pub fn recv_proto_message(read_buffer: &[u8]) -> (r: Result<MUFrame, FrameError>)
    ensures
        match r {
            Ok(f) => decode_result(read_buffer@) == Ok::<FrameView, FrameError>(f@),
            Err(e) => decode_result(read_buffer@) == Err::<FrameView, FrameError>(e),
        },
{
    MUFrame::deserialize(read_buffer)
}

/// Relies on `String::from_utf8`: it succeeds exactly on valid UTF-8, and the
/// string it returns holds those bytes.
#[verifier::external_body]
fn string_from_utf8(bytes: Vec<u8>) -> (r: Option<String>)
    ensures
        r is Some <==> valid_utf8(bytes@),
        r is Some ==> encode_utf8(r->Some_0@) == bytes@,
{
    String::from_utf8(bytes).ok()
}

/// The reply text that a read buffer holds: the payload of its frame.
pub fn decode_response(read_buffer: &[u8]) -> (r: Result<String, SessionError>)
    ensures
        match decode_result(read_buffer@) {
            Ok(f) => if valid_utf8(f.data) {
                r is Ok && encode_utf8(r->Ok_0@) == f.data
            } else {
                r == Err::<String, SessionError>(SessionError::EncodingError)
            },
            Err(e) => r == Err::<String, SessionError>(SessionError::ProtocolError(e)),
        },
{
    match recv_proto_message(read_buffer) {
        Ok(frame) => {
            let data = frame.get_data().clone();
            assert(data@ == frame@.data);
            match string_from_utf8(data) {
                Some(text) => Ok(text),
                None => Err(SessionError::EncodingError),
            }
        },
        Err(e) => Err(SessionError::ProtocolError(e)),
    }
}

/// The reply that confirms the handshake, `Hi!` and CR LF.
pub open spec fn handshake_reply() -> Seq<u8> {
    seq![0x48u8, 0x69u8, 0x21u8, 0x0Du8, 0x0Au8]
}

/// Whether a handshake attempt got the expected reply.
pub open spec fn handshake_accepted(reply: Result<String, SessionError>) -> bool {
    reply is Ok && encode_utf8(reply->Ok_0@) == handshake_reply()
}

/// What the handshake does after an attempt.
#[derive(Debug, Clone, Copy, PartialEq, Eq, Structural)]
pub enum HandshakeStep {
    /// The device answered: the session is ready.
    Connected,
    /// Try again.
    Retry,
    /// No attempt is left.
    Failed,
}

/// The decision after attempt number `attempt` (counted from 1).
pub open spec fn handshake_decision(attempt: nat, accepted: bool) -> HandshakeStep {
    if accepted {
        HandshakeStep::Connected
    } else if attempt >= HANDSHAKE_ATTEMPTS {
        HandshakeStep::Failed
    } else {
        HandshakeStep::Retry
    }
}

/// The handshake's outcome when attempt `attempt` and the following ones are
/// answered as `accepted` says (entry `i` for attempt `i + 1`).
pub open spec fn handshake_run(accepted: Seq<bool>, attempt: nat) -> HandshakeStep
    decreases accepted.len() + 1 - attempt,
{
    if attempt < 1 || attempt > accepted.len() {
        HandshakeStep::Retry
    } else {
        match handshake_decision(attempt, accepted[attempt - 1]) {
            HandshakeStep::Retry => handshake_run(accepted, attempt + 1),
            s => s,
        }
    }
}

proof fn lemma_handshake_from(accepted: Seq<bool>, k: nat, a: nat)
    requires
        1 <= a <= k <= HANDSHAKE_ATTEMPTS,
        k <= accepted.len(),
        accepted[k - 1],
        forall|i: int| 0 <= i < k - 1 ==> !accepted[i],
    ensures
        handshake_run(accepted, a) == HandshakeStep::Connected,
    decreases k - a,
{
    if a < k {
        lemma_handshake_from(accepted, k, a + 1);
    }
}

/// Handshake: when attempts before attempt `k` are not answered with `Hi!`
/// CR LF and attempt `k`, at most `HANDSHAKE_ATTEMPTS`, is, the handshake
/// connects.
pub proof fn lemma_handshake_connects(accepted: Seq<bool>, k: nat)
    requires
        1 <= k <= HANDSHAKE_ATTEMPTS,
        k <= accepted.len(),
        accepted[k - 1],
        forall|i: int| 0 <= i < k - 1 ==> !accepted[i],
    ensures
        handshake_run(accepted, 1) == HandshakeStep::Connected,
{
    lemma_handshake_from(accepted, k, 1);
}

proof fn lemma_handshake_fails_from(accepted: Seq<bool>, a: nat)
    requires
        1 <= a <= HANDSHAKE_ATTEMPTS,
        accepted.len() >= HANDSHAKE_ATTEMPTS,
        forall|i: int| 0 <= i < HANDSHAKE_ATTEMPTS ==> !accepted[i],
    ensures
        handshake_run(accepted, a) == HandshakeStep::Failed,
    decreases HANDSHAKE_ATTEMPTS - a,
{
    if a < HANDSHAKE_ATTEMPTS {
        lemma_handshake_fails_from(accepted, a + 1);
    }
}

/// Handshake: when none of the first `HANDSHAKE_ATTEMPTS` attempts is
/// answered with `Hi!` CR LF, the handshake fails.
pub proof fn lemma_handshake_gives_up(accepted: Seq<bool>)
    requires
        accepted.len() >= HANDSHAKE_ATTEMPTS,
        forall|i: int| 0 <= i < HANDSHAKE_ATTEMPTS ==> !accepted[i],
    ensures
        handshake_run(accepted, 1) == HandshakeStep::Failed,
{
    lemma_handshake_fails_from(accepted, 1);
}

/// The bounded-retry handshake: counts attempts and decides after each reply.
pub struct Handshake {
    attempt: u8,
}

impl Handshake {
    /// The number of the attempt under way, from 1 to `HANDSHAKE_ATTEMPTS`.
    pub closed spec fn attempt(&self) -> nat {
        self.attempt as nat
    }

    pub open spec fn wf(&self) -> bool {
        1 <= self.attempt() <= HANDSHAKE_ATTEMPTS
    }

    pub fn new() -> (r: Handshake)
        ensures
            r.attempt() == 1,
            r.wf(),
    {
        Handshake { attempt: 1 }
    }

    /// The request that every attempt sends.
    pub fn request(&self) -> (r: Vec<u8>)
        ensures
            encode_result(request_payload("hello"@)) == Ok::<Seq<u8>, FrameError>(r@),
    {
        let hello = "hello";
        proof {
            reveal_strlit("hello");
            assert(vstd::utf8::is_ascii_chars(hello@));
            vstd::utf8::is_ascii_chars_encode_utf8(hello@);
            assert(request_payload(hello@) =~= seq![0x68u8, 0x65u8, 0x6cu8, 0x6cu8, 0x6fu8, 0x0Au8]);
        }
        match encode_request(hello) {
            Ok(bytes) => bytes,
            Err(_) => {
                assert(false);
                Vec::new()
            },
        }
    }

    /// Takes the reply to the current attempt and decides what follows.
    pub fn on_reply(&mut self, reply: &Result<String, SessionError>) -> (r: HandshakeStep)
        requires
            old(self).wf(),
        ensures
            r == handshake_decision(old(self).attempt(), handshake_accepted(*reply)),
            r == HandshakeStep::Retry ==> final(self).attempt() == old(self).attempt() + 1,
            r != HandshakeStep::Retry ==> final(self).attempt() == old(self).attempt(),
            final(self).wf(),
    {
        let accepted = match reply {
            Ok(text) => bytes_equal(text.as_str().as_bytes(), &[0x48u8, 0x69u8, 0x21u8, 0x0Du8, 0x0Au8]),
            Err(_) => false,
        };
        if accepted {
            HandshakeStep::Connected
        } else if self.attempt >= HANDSHAKE_ATTEMPTS {
            HandshakeStep::Failed
        } else {
            self.attempt = self.attempt + 1;
            HandshakeStep::Retry
        }
    }
}

/// Whether two byte slices are equal.
pub fn bytes_equal(a: &[u8], b: &[u8]) -> (r: bool)
    ensures
        r == (a@ == b@),
{
    if a.len() != b.len() {
        return false;
    }
    let mut i: usize = 0;
    while i < a.len()
        invariant
            a@.len() == b@.len(),
            i <= a@.len(),
            forall|j: int| 0 <= j < i ==> a@[j] == b@[j],
        decreases a@.len() - i,
    {
        if a[i] != b[i] {
            return false;
        }
        i = i + 1;
    }
    assert(a@ =~= b@);
    true
}

} // verus!
