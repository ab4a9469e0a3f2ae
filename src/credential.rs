//! The credential exchange over TLS: the request frame, reading the password out of the
//! reply, and when to try the exchange again.
use vstd::prelude::*;
use vstd::utf8::{
    decode_first_scalar, decode_utf8, decode_utf8_first_scalar, encode_scalar,
    pop_first_scalar, take_first_scalar, valid_utf8,
};
use crate::text::utf8_text;

verus! {

/// The TCP port of the credential exchange and of the session.
pub const DEVICE_PORT: u16 = 8883;

/// How many times the exchange is tried before its failure is reported.
pub const EXCHANGE_ATTEMPTS: u64 = 3;

/// The seconds a read of the reply may wait.
pub const READ_TIMEOUT_SECS: u64 = 3;

/// The frame that asks the device for its password.
pub open spec fn password_request_frame() -> Seq<u8> {
    seq![0xf0u8, 0x05u8, 0xefu8, 0xccu8, 0x3bu8, 0x29u8, 0x00u8]
}

/// The frame that asks the device for its password.
pub fn password_request() -> (r: Vec<u8>)
    ensures
        r@ == password_request_frame(),
{
    let r: Vec<u8> = vec![0xf0u8, 0x05u8, 0xefu8, 0xccu8, 0x3bu8, 0x29u8, 0x00u8];
    assert(r@ =~= password_request_frame());
    r
}

/// Splitting bytes at each NUL, left to right: the segments already closed by a NUL, and
/// the segment still open.
pub open spec fn nul_split(data: Seq<u8>) -> (Seq<Seq<u8>>, Seq<u8>)
    decreases data.len(),
{
    if data.len() == 0 {
        (Seq::empty(), Seq::empty())
    } else {
        let (closed, open) = nul_split(data.drop_last());
        if data.last() == 0 {
            (closed.push(open), Seq::empty())
        } else {
            (closed, open.push(data.last()))
        }
    }
}

/// The segments between NUL bytes, in order, empty ones included.
pub open spec fn nul_segments(data: Seq<u8>) -> Seq<Seq<u8>> {
    nul_split(data).0.push(nul_split(data).1)
}

/// Searching from the last segment backwards, the text of the first one that is not empty
/// and is valid UTF-8.
pub open spec fn last_text(segments: Seq<Seq<u8>>) -> Option<Seq<char>>
    decreases segments.len(),
{
    if segments.len() == 0 {
        None
    } else if segments.last().len() > 0 && valid_utf8(segments.last()) {
        Some(decode_utf8(segments.last()))
    } else {
        last_text(segments.drop_last())
    }
}

/// The password that a reply holds: its last non-empty NUL-separated segment that decodes
/// as UTF-8.
pub open spec fn credential_in(data: Seq<u8>) -> Option<Seq<char>> {
    last_text(nul_segments(data))
}

/// The views of a list of byte vectors.
pub open spec fn byte_views(v: Seq<Vec<u8>>) -> Seq<Seq<u8>> {
    v.map_values(|b: Vec<u8>| b@)
}

/// No byte is NUL.
pub open spec fn no_nul_byte(s: Seq<u8>) -> bool {
    forall|i: int| 0 <= i < s.len() ==> #[trigger] s[i] != 0
}

/// No character is NUL.
pub open spec fn no_nul_char(s: Seq<char>) -> bool {
    forall|i: int| 0 <= i < s.len() ==> #[trigger] s[i] != '\0'
}

proof fn lemma_split_has_no_nul(data: Seq<u8>)
    ensures
        forall|k: int| 0 <= k < nul_split(data).0.len() ==> no_nul_byte(#[trigger] nul_split(data).0[k]),
        no_nul_byte(nul_split(data).1),
    decreases data.len(),
{
    if data.len() > 0 {
        lemma_split_has_no_nul(data.drop_last());
        let (closed, open) = nul_split(data.drop_last());
        if data.last() == 0 {
            assert forall|k: int| 0 <= k < nul_split(data).0.len() implies no_nul_byte(
                #[trigger] nul_split(data).0[k],
            ) by {
                if k < closed.len() {
                    assert(nul_split(data).0[k] == closed[k]);
                }
            }
        } else {
            let next = open.push(data.last());
            assert forall|i: int| 0 <= i < next.len() implies #[trigger] next[i] != 0 by {
                if i < open.len() {
                    assert(next[i] == open[i]);
                }
            }
        }
    }
}

proof fn lemma_decoded_has_no_nul(b: Seq<u8>)
    requires
        valid_utf8(b),
        no_nul_byte(b),
    ensures
        no_nul_char(decode_utf8(b)),
    decreases b.len(),
{
    if b.len() > 0 {
        let x = decode_first_scalar(b);
        assert((x as char) != '\0') by {
            decode_utf8_first_scalar(b);
            assert(take_first_scalar(b)[0] == b[0]);
            if (x as char) == '\0' {
                assert(((x as char) as u32) == 0);
                assert((0u32 & 0x7f) as u8 == 0) by (bit_vector);
                assert(encode_scalar(0u32)[0] == 0);
            }
        }
        let rest = pop_first_scalar(b);
        assert(valid_utf8(rest));
        assert forall|i: int| 0 <= i < rest.len() implies #[trigger] rest[i] != 0 by {
            assert(rest[i] == b[i + (b.len() - rest.len())]);
        }
        lemma_decoded_has_no_nul(rest);
        let d = decode_utf8(b);
        assert(d == seq![x as char] + decode_utf8(rest));
        assert forall|i: int| 0 <= i < d.len() implies #[trigger] d[i] != '\0' by {
            if i > 0 {
                assert(d[i] == decode_utf8(rest)[i - 1]);
            }
        }
    }
}

proof fn lemma_last_text_has_no_nul(segments: Seq<Seq<u8>>)
    requires
        forall|k: int| 0 <= k < segments.len() ==> no_nul_byte(#[trigger] segments[k]),
    ensures
        last_text(segments) is Some ==> no_nul_char(last_text(segments)->0),
    decreases segments.len(),
{
    if segments.len() > 0 {
        let last = segments[segments.len() - 1];
        if last.len() > 0 && valid_utf8(last) {
            lemma_decoded_has_no_nul(last);
        } else {
            let rest = segments.drop_last();
            assert forall|k: int| 0 <= k < rest.len() implies no_nul_byte(#[trigger] rest[k]) by {
                assert(rest[k] == segments[k]);
            }
            lemma_last_text_has_no_nul(rest);
        }
    }
}

/// The password never holds a NUL: it comes from one segment between NUL bytes.
pub proof fn lemma_credential_has_no_nul(data: Seq<u8>)
    ensures
        credential_in(data) is Some ==> no_nul_char(credential_in(data)->0),
{
    lemma_split_has_no_nul(data);
    let segments = nul_segments(data);
    let (closed, open) = nul_split(data);
    assert forall|k: int| 0 <= k < segments.len() implies no_nul_byte(#[trigger] segments[k]) by {
        if k < closed.len() {
            assert(segments[k] == closed[k]);
        }
    }
    lemma_last_text_has_no_nul(segments);
}

/// Reads the password out of the device's reply.
pub fn credential_from_response(data: &[u8]) -> (r: Option<String>)
    ensures
        r is Some <==> credential_in(data@) is Some,
        r is Some ==> r->0@ == credential_in(data@)->0,
        r is Some ==> no_nul_char(r->0@),
{
    let mut closed: Vec<Vec<u8>> = Vec::new();
    let mut open: Vec<u8> = Vec::new();
    let mut i: usize = 0;
    while i < data.len()
        invariant
            0 <= i <= data.len(),
            nul_split(data@.take(i as int)) == (byte_views(closed@), open@),
        decreases data.len() - i,
    {
        let b = data[i];
        assert(data@.take(i + 1).drop_last() =~= data@.take(i as int));
        if b == 0 {
            let ghost before = closed@;
            let ghost finished = open@;
            closed.push(open);
            open = Vec::new();
            assert(byte_views(closed@) =~= byte_views(before).push(finished));
        } else {
            open.push(b);
        }
        i = i + 1;
    }
    assert(data@.take(i as int) =~= data@);
    let mut segments = closed;
    segments.push(open);
    assert(byte_views(segments@) =~= nul_segments(data@));
    while segments.len() > 0
        invariant
            last_text(byte_views(segments@)) == credential_in(data@),
        decreases segments.len(),
    {
        let ghost views = byte_views(segments@);
        let segment = segments.pop().unwrap();
        assert(byte_views(segments@) =~= views.drop_last());
        if segment.len() > 0 {
            match utf8_text(segment) {
                Some(text) => {
                    proof {
                        lemma_credential_has_no_nul(data@);
                    }
                    return Some(text);
                },
                None => {},
            }
        }
    }
    None
}

/// Why a credential could not be had.
#[derive(Debug, Clone, Copy, PartialEq, Eq, Structural)]
pub enum RetrievalError {
    /// The TLS handshake failed; it is not tried again.
    Handshake,
    /// The request could not be written.
    Write,
    /// The reply could not be read, on every attempt.
    Read,
    /// No reply held a readable password, on every attempt.
    Undecodable,
}

/// What one exchange of request and reply came to.
#[derive(Debug)]
pub enum ExchangeOutcome {
    WriteFailed,
    ReadFailed,
    Received(Vec<u8>),
}

/// What to do next.
#[derive(Debug)]
pub enum RetrievalStep {
    /// Write the request and read the reply, once more.
    Exchange,
    /// The password.
    Done(String),
    /// Give up with this error.
    Failed(RetrievalError),
}

/// After a failed exchange numbered `attempt` (from one): another try while the budget
/// lasts, else the error.
pub open spec fn failure_step(attempt: nat, e: RetrievalError) -> RetrievalStep {
    if attempt < EXCHANGE_ATTEMPTS {
        RetrievalStep::Exchange
    } else {
        RetrievalStep::Failed(e)
    }
}

/// After the handshake: the first exchange, or the handshake error, never retried.
pub open spec fn handshake_step(established: bool) -> RetrievalStep {
    if established {
        RetrievalStep::Exchange
    } else {
        RetrievalStep::Failed(RetrievalError::Handshake)
    }
}

/// The decisions of one credential retrieval.
pub struct Retrieval {
    attempts: u64,
}

impl Retrieval {
    /// How many exchanges have been made.
    pub closed spec fn made(&self) -> nat {
        self.attempts as nat
    }

    /// A retrieval that has made no exchange yet.
    pub fn new() -> (r: Retrieval)
        ensures
            r.made() == 0,
    {
        Retrieval { attempts: 0 }
    }

    /// How many exchanges have been made.
    pub fn attempts(&self) -> (r: u64)
        ensures
            r == self.made(),
    {
        self.attempts
    }

    /// What follows the TLS handshake.
    pub fn after_handshake(&self, established: bool) -> (r: RetrievalStep)
        ensures
            r == handshake_step(established),
    {
        if established {
            RetrievalStep::Exchange
        } else {
            RetrievalStep::Failed(RetrievalError::Handshake)
        }
    }

    /// What follows one exchange. A write failure is reported at once; a read failure, or a
    /// reply without a readable password, leads to another exchange while the budget lasts.
    pub fn after_exchange(&mut self, outcome: ExchangeOutcome) -> (r: RetrievalStep)
        requires
            old(self).made() < EXCHANGE_ATTEMPTS,
        ensures
            final(self).made() == old(self).made() + 1,
            outcome is WriteFailed ==> r == RetrievalStep::Failed(RetrievalError::Write),
            outcome is ReadFailed ==> r == failure_step(final(self).made(), RetrievalError::Read),
            outcome is Received ==> match credential_in(outcome->Received_0@) {
                Some(p) => r is Done && r->Done_0@ == p,
                None => r == failure_step(final(self).made(), RetrievalError::Undecodable),
            },
    {
        self.attempts = self.attempts + 1;
        match outcome {
            ExchangeOutcome::WriteFailed => RetrievalStep::Failed(RetrievalError::Write),
            ExchangeOutcome::ReadFailed => self.failure(RetrievalError::Read),
            ExchangeOutcome::Received(data) => match credential_from_response(data.as_slice()) {
                Some(password) => RetrievalStep::Done(password),
                None => self.failure(RetrievalError::Undecodable),
            },
        }
    }

    fn failure(&self, e: RetrievalError) -> (r: RetrievalStep)
        ensures
            r == failure_step(self.made(), e),
    {
        if self.attempts < EXCHANGE_ATTEMPTS {
            RetrievalStep::Exchange
        } else {
            RetrievalStep::Failed(e)
        }
    }
}

/// A failed exchange is tried again after the first and the second attempt, and its error is
/// reported after the third: three exchanges in all. A failed handshake is reported at once,
/// with no exchange and no retry.
pub proof fn lemma_retry_budget(attempt: nat, e: RetrievalError)
    requires
        1 <= attempt <= EXCHANGE_ATTEMPTS,
    ensures
        failure_step(attempt, e) == RetrievalStep::Exchange <==> attempt < 3,
        attempt == 3 ==> failure_step(attempt, e) == RetrievalStep::Failed(e),
        handshake_step(false) == RetrievalStep::Failed(RetrievalError::Handshake),
{
}

} // verus!
