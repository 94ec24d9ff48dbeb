//! Wire codec for the three message families exchanged between the client,
//! the server and the orchestrator.
//!
//! Every message travels in the same frame: a one-byte tag, a four-byte
//! little-endian payload length, then the payload. Audio payloads are
//! little-endian `i16` samples, text payloads are UTF-8. Encoders append
//! frames to a byte buffer; decoders consume frames from a [`ByteCursor`].
//! The canonical encoding of each message and the exact outcome of decoding
//! any byte sequence are given by spec functions, so that round-trip and
//! streaming laws can be stated and proved.

use vstd::prelude::*;
use vstd::bytes::*;
use vstd::utf8::*;
use vstd::slice::*;
use vstd::string::*;

verus! {

broadcast use vstd::seq_lib::group_seq_lib_default;

// --- errors -----------------------------------------------------------

/// Decoding or transport failure of the wire codec.
///
/// The first three variants classify the ways a peer connection ends
/// (truncated input, broken pipe, reset); the rest are malformed frames.
#[derive(Debug, Clone, Copy, PartialEq, Eq, Structural)]
pub enum WireError {
    /// The input ended before a whole frame was available.
    Eof,
    /// The transport reported a broken pipe while writing.
    BrokenPipe,
    /// The transport reported a connection reset.
    ConnectionReset,
    /// A frame carried a tag outside the decoder's family.
    UnknownTag(u8),
    /// An audio payload length was not a multiple of two.
    OddAudioLength,
    /// A text payload was not valid UTF-8.
    InvalidUtf8,
    /// A payload too large for the four-byte length field.
    Oversize,
    /// Any other transport failure.
    Io,
}

/// True exactly on the errors that signal a normal peer disconnect
/// (end of input, broken pipe, connection reset), which callers treat
/// as a clean termination rather than a failure.
pub fn is_disconnect(e: &WireError) -> (r: bool)
    ensures
        r == (e is Eof || e is BrokenPipe || e is ConnectionReset),
{
    match e {
        WireError::Eof => true,
        WireError::BrokenPipe => true,
        WireError::ConnectionReset => true,
        _ => false,
    }
}

// --- sample and frame encodings ---------------------------------------

/// The two little-endian bytes of one `i16` sample.
pub open spec fn sample_le_bytes(v: i16) -> Seq<u8> {
    spec_u16_to_le_bytes(v as u16)
}

/// Little-endian byte image of a sample sequence: two bytes per sample.
pub open spec fn samples_bytes(s: Seq<i16>) -> Seq<u8> {
    Seq::new(2 * s.len(), |i: int| sample_le_bytes(s[i / 2])[i % 2])
}

/// Sample sequence read back from a little-endian byte image.
pub open spec fn samples_of(b: Seq<u8>) -> Seq<i16> {
    Seq::new(b.len() / 2, |i: int| spec_u16_from_le_bytes(seq![b[2 * i], b[2 * i + 1]]) as i16)
}

/// Decoding the byte image of a sample sequence gives the sequence back.
pub proof fn lemma_samples_round_trip(s: Seq<i16>)
    ensures
        samples_of(samples_bytes(s)) == s,
{
    lemma_auto_spec_u16_to_from_le_bytes();
    let b = samples_bytes(s);
    assert forall|i: int| 0 <= i < s.len() implies samples_of(b)[i] == s[i] by {
        assert(seq![b[2 * i], b[2 * i + 1]] =~= sample_le_bytes(s[i]));
        let x = s[i];
        assert((x as u16) as i16 == x) by (bit_vector);
    }
    assert(samples_of(b) =~= s);
}

/// One wire frame: tag, little-endian payload length, payload.
pub open spec fn frame(tag: u8, payload: Seq<u8>) -> Seq<u8> {
    seq![tag] + spec_u32_to_le_bytes(payload.len() as u32) + payload
}

/// Whether a byte sequence starts with a full five-byte frame header.
pub open spec fn frame_header_ok(b: Seq<u8>) -> bool {
    b.len() >= 5
}

/// The tag of the frame at the head of `b`.
pub open spec fn frame_tag(b: Seq<u8>) -> u8 {
    b[0]
}

/// The payload length announced by the frame at the head of `b`.
pub open spec fn frame_payload_len(b: Seq<u8>) -> int {
    spec_u32_from_le_bytes(b.subrange(1, 5)) as int
}

/// Whether the whole frame at the head of `b` is present.
pub open spec fn frame_complete(b: Seq<u8>) -> bool {
    frame_header_ok(b) && b.len() >= 5 + frame_payload_len(b)
}

/// The payload of the frame at the head of `b`.
pub open spec fn frame_payload(b: Seq<u8>) -> Seq<u8> {
    b.subrange(5, 5 + frame_payload_len(b))
}

/// Total size of the frame at the head of `b`, header included.
pub open spec fn frame_size(b: Seq<u8>) -> int {
    5 + frame_payload_len(b)
}

/// A canonical frame followed by anything parses back to its parts.
pub proof fn lemma_frame_parse(tag: u8, payload: Seq<u8>, rest: Seq<u8>)
    requires
        payload.len() <= u32::MAX,
    ensures
        frame_header_ok(frame(tag, payload) + rest),
        frame_tag(frame(tag, payload) + rest) == tag,
        frame_payload_len(frame(tag, payload) + rest) == payload.len(),
        frame_complete(frame(tag, payload) + rest),
        frame_payload(frame(tag, payload) + rest) == payload,
        frame_size(frame(tag, payload) + rest) == 5 + payload.len(),
        frame(tag, payload).len() == 5 + payload.len(),
{
    lemma_auto_spec_u32_to_from_le_bytes();
    let b = frame(tag, payload) + rest;
    assert(b.subrange(1, 5) =~= spec_u32_to_le_bytes(payload.len() as u32));
    assert(frame_payload_len(b) == payload.len());
    assert(frame_payload(b) =~= payload);
}

// --- message family: client to server ---------------------------------

/// Messages sent from the client to the server.
#[derive(Debug)]
pub enum ClientMsg {
    /// One segment of captured speech, mono 16-bit samples at 16 kHz.
    AudioSegment(Vec<i16>),
    /// Stop transcribing incoming audio.
    PauseRequest,
    /// Resume transcribing incoming audio.
    ResumeRequest,
    /// Abort the text-to-speech stream currently playing.
    InterruptTts,
    /// Answer to a feedback prompt: `true` to continue, `false` to retry.
    FeedbackChoice(bool),
    /// Ask for a session summary.
    SummaryRequest,
    /// Drop the exchange in progress.
    CancelExchange,
}

/// Mathematical model of a [`ClientMsg`].
pub enum ClientMsgV {
    AudioSegment(Seq<i16>),
    PauseRequest,
    ResumeRequest,
    InterruptTts,
    FeedbackChoice(bool),
    SummaryRequest,
    CancelExchange,
}

impl DeepView for ClientMsg {
    type V = ClientMsgV;

    open spec fn deep_view(&self) -> ClientMsgV {
        self.view()
    }
}

impl View for ClientMsg {
    type V = ClientMsgV;

    open spec fn view(&self) -> ClientMsgV {
        match self {
            ClientMsg::AudioSegment(s) => ClientMsgV::AudioSegment(s@),
            ClientMsg::PauseRequest => ClientMsgV::PauseRequest,
            ClientMsg::ResumeRequest => ClientMsgV::ResumeRequest,
            ClientMsg::InterruptTts => ClientMsgV::InterruptTts,
            ClientMsg::FeedbackChoice(p) => ClientMsgV::FeedbackChoice(*p),
            ClientMsg::SummaryRequest => ClientMsgV::SummaryRequest,
            ClientMsg::CancelExchange => ClientMsgV::CancelExchange,
        }
    }
}

/// Canonical payload of a client message.
pub open spec fn client_msg_payload(m: ClientMsgV) -> Seq<u8> {
    match m {
        ClientMsgV::AudioSegment(s) => samples_bytes(s),
        ClientMsgV::PauseRequest => Seq::empty(),
        ClientMsgV::ResumeRequest => Seq::empty(),
        ClientMsgV::InterruptTts => Seq::empty(),
        ClientMsgV::FeedbackChoice(p) => seq![if p { 1u8 } else { 0u8 }],
        ClientMsgV::SummaryRequest => Seq::empty(),
        ClientMsgV::CancelExchange => Seq::empty(),
    }
}

/// Wire tag of a client message.
pub open spec fn client_msg_tag(m: ClientMsgV) -> u8 {
    match m {
        ClientMsgV::AudioSegment(_) => 0x01,
        ClientMsgV::PauseRequest => 0x02,
        ClientMsgV::ResumeRequest => 0x03,
        ClientMsgV::InterruptTts => 0x04,
        ClientMsgV::FeedbackChoice(_) => 0x05,
        ClientMsgV::SummaryRequest => 0x06,
        ClientMsgV::CancelExchange => 0x07,
    }
}

/// Canonical encoding of a client message.
pub open spec fn client_msg_bytes(m: ClientMsgV) -> Seq<u8> {
    frame(client_msg_tag(m), client_msg_payload(m))
}

/// Whether a client message's payload fits the four-byte length field.
pub open spec fn client_msg_fits(m: ClientMsgV) -> bool {
    client_msg_payload(m).len() <= u32::MAX
}

/// Outcome of decoding one client message from the head of `b`:
/// the message model and the number of bytes consumed, or the error.
pub open spec fn decode_client_spec(b: Seq<u8>) -> Result<(ClientMsgV, int), WireError> {
    if !frame_header_ok(b) {
        Err(WireError::Eof)
    } else {
        let tag = frame_tag(b);
        let len = frame_payload_len(b);
        if !(1 <= tag <= 7) {
            Err(WireError::UnknownTag(tag))
        } else if tag == 1 && len % 2 != 0 {
            Err(WireError::OddAudioLength)
        } else if !frame_complete(b) {
            Err(WireError::Eof)
        } else {
            let p = frame_payload(b);
            let n = frame_size(b);
            if tag == 1 {
                Ok((ClientMsgV::AudioSegment(samples_of(p)), n))
            } else if tag == 2 {
                Ok((ClientMsgV::PauseRequest, n))
            } else if tag == 3 {
                Ok((ClientMsgV::ResumeRequest, n))
            } else if tag == 4 {
                Ok((ClientMsgV::InterruptTts, n))
            } else if tag == 5 {
                Ok((ClientMsgV::FeedbackChoice(p.len() == 0 || p[0] != 0), n))
            } else if tag == 6 {
                Ok((ClientMsgV::SummaryRequest, n))
            } else {
                Ok((ClientMsgV::CancelExchange, n))
            }
        }
    }
}

// --- byte cursor -------------------------------------------------------

/// A byte buffer consumed from the front, one frame at a time.
///
/// Its view is the sequence of bytes not yet consumed.
pub struct ByteCursor {
    data: Vec<u8>,
    pos: usize,
}

impl View for ByteCursor {
    type V = Seq<u8>;

    closed spec fn view(&self) -> Seq<u8> {
        self.data@.skip(self.pos as int)
    }
}

impl ByteCursor {
    #[verifier::type_invariant]
    spec fn wf(self) -> bool {
        self.pos <= self.data@.len()
    }

    /// A cursor over the whole of `data`.
    pub fn new(data: Vec<u8>) -> (r: ByteCursor)
        ensures
            r@ == data@,
    {
        let r = ByteCursor { data, pos: 0 };
        proof {
            assert(r@ =~= r.data@);
        }
        r
    }

    /// How many bytes remain to be consumed.
    pub fn remaining(&self) -> (n: usize)
        ensures
            n == self@.len(),
    {
        proof {
            use_type_invariant(self);
        }
        self.data.len() - self.pos
    }

    /// Consumes `n` bytes from the front.
    fn advance(&mut self, n: usize)
        requires
            n <= old(self)@.len(),
        ensures
            final(self)@ == old(self)@.skip(n as int),
    {
        proof {
            use_type_invariant(&*self);
        }
        let total = self.data.len();
        assert(self.pos + n <= total);
        self.pos = self.pos + n;
        proof {
            assert(self@ =~= old(self)@.skip(n as int));
        }
    }
}

/// The number of samples whose two-byte image still fits the length field.
pub const MAX_AUDIO_SAMPLES: usize = 0x7fff_ffff;

// --- shared exec helpers ----------------------------------------------

/// Appends a frame header: the tag byte, then the length in little-endian.
fn push_header(w: &mut Vec<u8>, tag: u8, len: u32)
    ensures
        final(w)@ == old(w)@ + seq![tag] + spec_u32_to_le_bytes(len),
{
    w.push(tag);
    let mut lb = u32_to_le_bytes(len);
    w.append(&mut lb);
    proof {
        assert(w@ =~= old(w)@ + seq![tag] + spec_u32_to_le_bytes(len));
    }
}

/// Appends the little-endian image of `samples`.
fn push_samples(w: &mut Vec<u8>, samples: &Vec<i16>)
    ensures
        final(w)@ == old(w)@ + samples_bytes(samples@),
{
    let n = samples.len();
    let mut i: usize = 0;
    while i < n
        invariant
            i <= n,
            n == samples@.len(),
            w@ == old(w)@ + samples_bytes(samples@.take(i as int)),
        decreases n - i,
    {
        let mut sb = u16_to_le_bytes(samples[i] as u16);
        w.append(&mut sb);
        i = i + 1;
        proof {
            assert(w@ =~= old(w)@ + samples_bytes(samples@.take(i as int)));
        }
    }
    proof {
        assert(samples@.take(n as int) =~= samples@);
    }
}

/// Relies on `String::from_utf8`: it succeeds exactly on valid UTF-8 and
/// returns the string made of those bytes.
#[verifier::external_body]
fn string_from_utf8(bytes: Vec<u8>) -> (r: Option<String>)
    ensures
        r is Some <==> valid_utf8(bytes@),
        r matches Some(s) ==> s@ == decode_utf8(bytes@),
{
    String::from_utf8(bytes).ok()
}

/// Reads the tag and payload length of the frame at the head of the cursor,
/// without consuming anything. `None` when no full header is present.
fn peek_header(r: &ByteCursor) -> (res: Option<(u8, usize)>)
    ensures
        match res {
            Some((tag, len)) => {
                &&& frame_header_ok(r@)
                &&& tag == frame_tag(r@)
                &&& len == frame_payload_len(r@)
            },
            None => !frame_header_ok(r@),
        },
{
    proof {
        use_type_invariant(r);
    }
    let total = r.data.len();
    if total - r.pos < 5 {
        return None;
    }
    let ghost b = r@;
    let tag = r.data[r.pos];
    let len_slice = slice_subrange(r.data.as_slice(), r.pos + 1, r.pos + 5);
    proof {
        assert(len_slice@ =~= b.subrange(1, 5));
        assert(b[0] == r.data@[r.pos as int]);
    }
    let len32 = u32_from_le_bytes(len_slice);
    Some((tag, len32 as usize))
}

/// Copies the payload of the frame at the head of the cursor, without
/// consuming anything. `None` when the payload is not fully present.
fn take_payload(r: &ByteCursor, len: usize) -> (res: Option<Vec<u8>>)
    requires
        frame_header_ok(r@),
        len == frame_payload_len(r@),
    ensures
        match res {
            Some(p) => frame_complete(r@) && p@ == frame_payload(r@),
            None => !frame_complete(r@),
        },
{
    proof {
        use_type_invariant(r);
    }
    let total = r.data.len();
    if total - (r.pos + 5) < len {
        return None;
    }
    let payload_slice = slice_subrange(r.data.as_slice(), r.pos + 5, r.pos + 5 + len);
    let payload = slice_to_vec(payload_slice);
    proof {
        assert(payload@ =~= frame_payload(r@));
    }
    Some(payload)
}

/// Decodes i16 samples from their little-endian byte image.
fn decode_samples(payload: &Vec<u8>) -> (r: Vec<i16>)
    requires
        payload@.len() % 2 == 0,
    ensures
        r@ == samples_of(payload@),
{
    let plen = payload.len();
    let n = plen / 2;
    let mut out: Vec<i16> = Vec::new();
    let mut i: usize = 0;
    while i < n
        invariant
            i <= n,
            plen == payload@.len(),
            payload@.len() == 2 * n,
            out@ == samples_of(payload@).take(i as int),
        decreases n - i,
    {
        let s = slice_subrange(payload.as_slice(), 2 * i, 2 * i + 2);
        proof {
            assert(s@ =~= seq![payload@[2 * i as int], payload@[2 * i as int + 1]]);
        }
        let v = u16_from_le_bytes(s);
        out.push(v as i16);
        i = i + 1;
        proof {
            assert(out@ =~= samples_of(payload@).take(i as int));
        }
    }
    proof {
        assert(samples_of(payload@).take(n as int) =~= samples_of(payload@));
    }
    out
}

// --- client message codec ----------------------------------------------

/// Appends the canonical frame of `msg` to `w`.
///
/// Fails only when the payload does not fit the four-byte length field,
/// in which case `w` is left unchanged.
pub fn write_client_msg(w: &mut Vec<u8>, msg: &ClientMsg) -> (r: Result<(), WireError>)
    ensures
        client_msg_fits(msg@) ==> r is Ok && final(w)@ == old(w)@ + client_msg_bytes(msg@),
        !client_msg_fits(msg@) ==> r is Err && final(w)@ == old(w)@,
{
    match msg {
        ClientMsg::AudioSegment(samples) => {
            if samples.len() > MAX_AUDIO_SAMPLES {
                return Err(WireError::Oversize);
            }
            push_header(w, 0x01, (samples.len() * 2) as u32);
            push_samples(w, samples);
            proof {
                assert(w@ =~= old(w)@ + client_msg_bytes(msg@));
            }
        }
        ClientMsg::PauseRequest => {
            push_header(w, 0x02, 0);
            proof {
                assert(client_msg_payload(msg@) =~= Seq::<u8>::empty());
                assert(w@ =~= old(w)@ + client_msg_bytes(msg@));
            }
        }
        ClientMsg::ResumeRequest => {
            push_header(w, 0x03, 0);
            proof {
                assert(client_msg_payload(msg@) =~= Seq::<u8>::empty());
                assert(w@ =~= old(w)@ + client_msg_bytes(msg@));
            }
        }
        ClientMsg::InterruptTts => {
            push_header(w, 0x04, 0);
            proof {
                assert(client_msg_payload(msg@) =~= Seq::<u8>::empty());
                assert(w@ =~= old(w)@ + client_msg_bytes(msg@));
            }
        }
        ClientMsg::FeedbackChoice(proceed) => {
            push_header(w, 0x05, 1);
            w.push(if *proceed { 1u8 } else { 0u8 });
            proof {
                assert(w@ =~= old(w)@ + client_msg_bytes(msg@));
            }
        }
        ClientMsg::SummaryRequest => {
            push_header(w, 0x06, 0);
            proof {
                assert(client_msg_payload(msg@) =~= Seq::<u8>::empty());
                assert(w@ =~= old(w)@ + client_msg_bytes(msg@));
            }
        }
        ClientMsg::CancelExchange => {
            push_header(w, 0x07, 0);
            proof {
                assert(client_msg_payload(msg@) =~= Seq::<u8>::empty());
                assert(w@ =~= old(w)@ + client_msg_bytes(msg@));
            }
        }
    }
    Ok(())
}

/// Decodes the payload of a client frame whose tag and payload are already
/// separated, as [`decode_client_spec`] prescribes for a complete frame.
pub fn decode_client_frame(tag: u8, payload: &Vec<u8>) -> (r: Result<ClientMsg, WireError>)
    requires
        payload@.len() <= u32::MAX,
    ensures
        match decode_client_spec(frame(tag, payload@)) {
            Ok((mv, n)) => r matches Ok(m) && m@ == mv,
            Err(e) => r matches Err(e2) && e2 == e,
        },
{
    proof {
        lemma_frame_parse(tag, payload@, Seq::empty());
        assert(frame(tag, payload@) + Seq::<u8>::empty() =~= frame(tag, payload@));
    }
    if !(1 <= tag && tag <= 7) {
        return Err(WireError::UnknownTag(tag));
    }
    if tag == 1 {
        if payload.len() % 2 != 0 {
            return Err(WireError::OddAudioLength);
        }
        let samples = decode_samples(payload);
        return Ok(ClientMsg::AudioSegment(samples));
    }
    if tag == 5 {
        let proceed = if payload.len() == 0 { true } else { payload[0] != 0 };
        return Ok(ClientMsg::FeedbackChoice(proceed));
    }
    if tag == 2 {
        Ok(ClientMsg::PauseRequest)
    } else if tag == 3 {
        Ok(ClientMsg::ResumeRequest)
    } else if tag == 4 {
        Ok(ClientMsg::InterruptTts)
    } else if tag == 6 {
        Ok(ClientMsg::SummaryRequest)
    } else {
        Ok(ClientMsg::CancelExchange)
    }
}

/// Reads one client message from the cursor.
///
/// On success the frame is consumed; on failure the cursor is unchanged.
/// The outcome is exactly [`decode_client_spec`] of the remaining bytes.
pub fn read_client_msg(r: &mut ByteCursor) -> (res: Result<ClientMsg, WireError>)
    ensures
        match decode_client_spec(old(r)@) {
            Ok((mv, n)) => res matches Ok(m) && m@ == mv && final(r)@ == old(r)@.skip(n),
            Err(e) => res matches Err(e2) && e2 == e && final(r)@ == old(r)@,
        },
{
    let ghost b = old(r)@;
    let (tag, len) = match peek_header(r) {
        None => {
            return Err(WireError::Eof);
        }
        Some(h) => h,
    };
    if !(1 <= tag && tag <= 7) {
        return Err(WireError::UnknownTag(tag));
    }
    if tag == 1 && len % 2 != 0 {
        return Err(WireError::OddAudioLength);
    }
    let payload = match take_payload(r, len) {
        None => {
            return Err(WireError::Eof);
        }
        Some(p) => p,
    };
    proof {
        lemma_frame_parse(tag, payload@, Seq::empty());
        assert(frame(tag, payload@) + Seq::<u8>::empty() =~= frame(tag, payload@));
        let fb = frame(tag, payload@);
        assert(frame_tag(fb) == frame_tag(b));
        assert(frame_payload_len(fb) == frame_payload_len(b));
        assert(frame_payload(fb) == frame_payload(b));
        assert(frame_size(fb) == frame_size(b));
    }
    let msg = match decode_client_frame(tag, &payload) {
        Ok(m) => m,
        Err(e) => {
            return Err(e);
        }
    };
    let rem = r.remaining();
    assert(5 + len <= rem);
    r.advance(5 + len);
    Ok(msg)
}

// --- laws: round trip and streaming -----------------------------------

/// Round trip: the canonical encoding of any client message, followed by
/// any further bytes, decodes to the same message and consumes exactly the
/// encoding. In particular messages written back-to-back decode in order,
/// each one leaving the cursor at the start of the next.
pub proof fn lemma_client_round_trip(m: ClientMsgV, rest: Seq<u8>)
    requires
        client_msg_fits(m),
    ensures
        decode_client_spec(client_msg_bytes(m) + rest) matches Ok(p) && p.0 == m && p.1
            == client_msg_bytes(m).len(),
{
    let tag = client_msg_tag(m);
    let payload = client_msg_payload(m);
    lemma_frame_parse(tag, payload, rest);
    let b = client_msg_bytes(m) + rest;
    assert(b == frame(tag, payload) + rest);
    match m {
        ClientMsgV::AudioSegment(s) => {
            lemma_samples_round_trip(s);
        }
        _ => {}
    }
}


// --- text helpers -------------------------------------------------------

/// Appends a frame whose payload is the UTF-8 image of `s`.
/// False, with `w` unchanged, when that image does not fit the length field.
fn write_text_frame(w: &mut Vec<u8>, tag: u8, s: &String) -> (ok: bool)
    ensures
        encode_utf8(s@).len() <= u32::MAX ==> ok && final(w)@ == old(w)@ + frame(
            tag,
            encode_utf8(s@),
        ),
        encode_utf8(s@).len() > u32::MAX ==> !ok && final(w)@ == old(w)@,
{
    let mut bytes = s.as_str().as_bytes_vec();
    if bytes.len() > u32::MAX as usize {
        return false;
    }
    push_header(w, tag, bytes.len() as u32);
    w.append(&mut bytes);
    proof {
        assert(w@ =~= old(w)@ + frame(tag, encode_utf8(s@)));
    }
    true
}

/// Turns a text payload into a string, failing on invalid UTF-8.
fn decode_text(payload: Vec<u8>) -> (r: Result<String, WireError>)
    ensures
        match r {
            Ok(s) => valid_utf8(payload@) && s@ == decode_utf8(payload@),
            Err(e) => !valid_utf8(payload@) && e == WireError::InvalidUtf8,
        },
{
    match string_from_utf8(payload) {
        Some(s) => Ok(s),
        None => Err(WireError::InvalidUtf8),
    }
}

// --- message family: server to client ----------------------------------

/// Messages sent from the server to the client.
#[derive(Debug)]
pub enum ServerMsg {
    /// Handshake: the server is ready.
    Ready,
    /// A display line for the client's console.
    Text(String),
    /// A server-side failure, shown to the user.
    Error(String),
    /// One chunk of synthesized speech, mono 16-bit samples at 16 kHz.
    TtsAudioChunk(Vec<i16>),
    /// End of the current synthesized response.
    TtsEnd,
    /// Language feedback to show and gate on, never spoken.
    Feedback(String),
    /// The markdown session summary.
    SessionSummary(String),
    /// A transient status line, such as a search in progress.
    StatusNotification(String),
}

/// Mathematical model of a [`ServerMsg`].
pub enum ServerMsgV {
    Ready,
    Text(Seq<char>),
    Error(Seq<char>),
    TtsAudioChunk(Seq<i16>),
    TtsEnd,
    Feedback(Seq<char>),
    SessionSummary(Seq<char>),
    StatusNotification(Seq<char>),
}

impl DeepView for ServerMsg {
    type V = ServerMsgV;

    open spec fn deep_view(&self) -> ServerMsgV {
        self.view()
    }
}

impl View for ServerMsg {
    type V = ServerMsgV;

    open spec fn view(&self) -> ServerMsgV {
        match self {
            ServerMsg::Ready => ServerMsgV::Ready,
            ServerMsg::Text(t) => ServerMsgV::Text(t@),
            ServerMsg::Error(t) => ServerMsgV::Error(t@),
            ServerMsg::TtsAudioChunk(s) => ServerMsgV::TtsAudioChunk(s@),
            ServerMsg::TtsEnd => ServerMsgV::TtsEnd,
            ServerMsg::Feedback(t) => ServerMsgV::Feedback(t@),
            ServerMsg::SessionSummary(t) => ServerMsgV::SessionSummary(t@),
            ServerMsg::StatusNotification(t) => ServerMsgV::StatusNotification(t@),
        }
    }
}

/// Canonical payload of a server message.
pub open spec fn server_msg_payload(m: ServerMsgV) -> Seq<u8> {
    match m {
        ServerMsgV::Ready => Seq::empty(),
        ServerMsgV::Text(t) => encode_utf8(t),
        ServerMsgV::Error(t) => encode_utf8(t),
        ServerMsgV::TtsAudioChunk(s) => samples_bytes(s),
        ServerMsgV::TtsEnd => Seq::empty(),
        ServerMsgV::Feedback(t) => encode_utf8(t),
        ServerMsgV::SessionSummary(t) => encode_utf8(t),
        ServerMsgV::StatusNotification(t) => encode_utf8(t),
    }
}

/// Wire tag of a server message.
pub open spec fn server_msg_tag(m: ServerMsgV) -> u8 {
    match m {
        ServerMsgV::Ready => 0x80,
        ServerMsgV::Text(_) => 0x81,
        ServerMsgV::Error(_) => 0x82,
        ServerMsgV::TtsAudioChunk(_) => 0x83,
        ServerMsgV::TtsEnd => 0x84,
        ServerMsgV::Feedback(_) => 0x85,
        ServerMsgV::SessionSummary(_) => 0x86,
        ServerMsgV::StatusNotification(_) => 0x87,
    }
}

/// Canonical encoding of a server message.
pub open spec fn server_msg_bytes(m: ServerMsgV) -> Seq<u8> {
    frame(server_msg_tag(m), server_msg_payload(m))
}

/// Whether a server message's payload fits the four-byte length field.
pub open spec fn server_msg_fits(m: ServerMsgV) -> bool {
    server_msg_payload(m).len() <= u32::MAX
}

/// Outcome of decoding one server message from the head of `b`.
pub open spec fn decode_server_spec(b: Seq<u8>) -> Result<(ServerMsgV, int), WireError> {
    if !frame_header_ok(b) {
        Err(WireError::Eof)
    } else {
        let tag = frame_tag(b);
        let len = frame_payload_len(b);
        if !(0x80 <= tag <= 0x87) {
            Err(WireError::UnknownTag(tag))
        } else if tag == 0x83 && len % 2 != 0 {
            Err(WireError::OddAudioLength)
        } else if !frame_complete(b) {
            Err(WireError::Eof)
        } else {
            let p = frame_payload(b);
            let n = frame_size(b);
            if tag == 0x80 {
                Ok((ServerMsgV::Ready, n))
            } else if tag == 0x83 {
                Ok((ServerMsgV::TtsAudioChunk(samples_of(p)), n))
            } else if tag == 0x84 {
                Ok((ServerMsgV::TtsEnd, n))
            } else if !valid_utf8(p) {
                Err(WireError::InvalidUtf8)
            } else if tag == 0x81 {
                Ok((ServerMsgV::Text(decode_utf8(p)), n))
            } else if tag == 0x82 {
                Ok((ServerMsgV::Error(decode_utf8(p)), n))
            } else if tag == 0x85 {
                Ok((ServerMsgV::Feedback(decode_utf8(p)), n))
            } else if tag == 0x86 {
                Ok((ServerMsgV::SessionSummary(decode_utf8(p)), n))
            } else {
                Ok((ServerMsgV::StatusNotification(decode_utf8(p)), n))
            }
        }
    }
}

/// Appends the canonical frame of `msg` to `w`.
///
/// Fails only when the payload does not fit the four-byte length field,
/// in which case `w` is left unchanged.
pub fn write_server_msg(w: &mut Vec<u8>, msg: &ServerMsg) -> (r: Result<(), WireError>)
    ensures
        server_msg_fits(msg@) ==> r is Ok && final(w)@ == old(w)@ + server_msg_bytes(msg@),
        !server_msg_fits(msg@) ==> r is Err && final(w)@ == old(w)@,
{
    let ok: bool = match msg {
        ServerMsg::Ready => {
            push_header(w, 0x80, 0);
            proof {
                assert(server_msg_payload(msg@) =~= Seq::<u8>::empty());
            }
            true
        }
        ServerMsg::Text(t) => write_text_frame(w, 0x81, t),
        ServerMsg::Error(t) => write_text_frame(w, 0x82, t),
        ServerMsg::TtsAudioChunk(samples) => {
            if samples.len() > MAX_AUDIO_SAMPLES {
                false
            } else {
                push_header(w, 0x83, (samples.len() * 2) as u32);
                push_samples(w, samples);
                true
            }
        }
        ServerMsg::TtsEnd => {
            push_header(w, 0x84, 0);
            proof {
                assert(server_msg_payload(msg@) =~= Seq::<u8>::empty());
            }
            true
        }
        ServerMsg::Feedback(t) => write_text_frame(w, 0x85, t),
        ServerMsg::SessionSummary(t) => write_text_frame(w, 0x86, t),
        ServerMsg::StatusNotification(t) => write_text_frame(w, 0x87, t),
    };
    if ok {
        proof {
            assert(w@ =~= old(w)@ + server_msg_bytes(msg@));
        }
        Ok(())
    } else {
        Err(WireError::Oversize)
    }
}

/// Decodes the payload of a server frame whose tag and payload are already
/// separated, as [`decode_server_spec`] prescribes for a complete frame.
pub fn decode_server_frame(tag: u8, payload: Vec<u8>) -> (r: Result<ServerMsg, WireError>)
    requires
        payload@.len() <= u32::MAX,
    ensures
        match decode_server_spec(frame(tag, payload@)) {
            Ok((mv, n)) => r matches Ok(m) && m@ == mv,
            Err(e) => r matches Err(e2) && e2 == e,
        },
{
    proof {
        lemma_frame_parse(tag, payload@, Seq::empty());
        assert(frame(tag, payload@) + Seq::<u8>::empty() =~= frame(tag, payload@));
    }
    if !(0x80 <= tag && tag <= 0x87) {
        return Err(WireError::UnknownTag(tag));
    }
    if tag == 0x80 {
        return Ok(ServerMsg::Ready);
    }
    if tag == 0x83 {
        if payload.len() % 2 != 0 {
            return Err(WireError::OddAudioLength);
        }
        let samples = decode_samples(&payload);
        return Ok(ServerMsg::TtsAudioChunk(samples));
    }
    if tag == 0x84 {
        return Ok(ServerMsg::TtsEnd);
    }
    let text = decode_text(payload)?;
    if tag == 0x81 {
        Ok(ServerMsg::Text(text))
    } else if tag == 0x82 {
        Ok(ServerMsg::Error(text))
    } else if tag == 0x85 {
        Ok(ServerMsg::Feedback(text))
    } else if tag == 0x86 {
        Ok(ServerMsg::SessionSummary(text))
    } else {
        Ok(ServerMsg::StatusNotification(text))
    }
}

/// Reads one server message from the cursor.
///
/// On success the frame is consumed; on failure the cursor is unchanged.
/// The outcome is exactly [`decode_server_spec`] of the remaining bytes.
pub fn read_server_msg(r: &mut ByteCursor) -> (res: Result<ServerMsg, WireError>)
    ensures
        match decode_server_spec(old(r)@) {
            Ok((mv, n)) => res matches Ok(m) && m@ == mv && final(r)@ == old(r)@.skip(n),
            Err(e) => res matches Err(e2) && e2 == e && final(r)@ == old(r)@,
        },
{
    let ghost b = old(r)@;
    let (tag, len) = match peek_header(r) {
        None => {
            return Err(WireError::Eof);
        }
        Some(h) => h,
    };
    if !(0x80 <= tag && tag <= 0x87) {
        return Err(WireError::UnknownTag(tag));
    }
    if tag == 0x83 && len % 2 != 0 {
        return Err(WireError::OddAudioLength);
    }
    let payload = match take_payload(r, len) {
        None => {
            return Err(WireError::Eof);
        }
        Some(p) => p,
    };
    proof {
        lemma_frame_parse(tag, payload@, Seq::empty());
        assert(frame(tag, payload@) + Seq::<u8>::empty() =~= frame(tag, payload@));
        let fb = frame(tag, payload@);
        assert(frame_tag(fb) == frame_tag(b));
        assert(frame_payload_len(fb) == frame_payload_len(b));
        assert(frame_payload(fb) == frame_payload(b));
        assert(frame_size(fb) == frame_size(b));
    }
    let msg = match decode_server_frame(tag, payload) {
        Ok(m) => m,
        Err(e) => {
            return Err(e);
        }
    };
    let rem = r.remaining();
    assert(5 + len <= rem);
    r.advance(5 + len);
    Ok(msg)
}

/// Round trip for server messages: the canonical encoding, followed by any
/// further bytes, decodes to the same message and consumes exactly the
/// encoding, so back-to-back messages decode in order.
pub proof fn lemma_server_round_trip(m: ServerMsgV, rest: Seq<u8>)
    requires
        server_msg_fits(m),
    ensures
        decode_server_spec(server_msg_bytes(m) + rest) matches Ok(p) && p.0 == m && p.1
            == server_msg_bytes(m).len(),
{
    broadcast use vstd::utf8::encode_utf8_valid_utf8, vstd::utf8::encode_utf8_decode_utf8;

    let tag = server_msg_tag(m);
    let payload = server_msg_payload(m);
    lemma_frame_parse(tag, payload, rest);
    match m {
        ServerMsgV::TtsAudioChunk(s) => {
            lemma_samples_round_trip(s);
        }
        _ => {}
    }
}

// --- message family: orchestrator and server (Unix socket) --------------

/// Messages exchanged between the orchestrator and the server.
#[derive(Debug)]
pub enum OrchestratorMsg {
    /// A transcription of the user's speech, server to orchestrator.
    TranscribedText(String),
    /// The response to speak, orchestrator to server.
    ResponseText(String),
    /// Session opening handshake, carrying a JSON configuration string.
    SessionStart(String),
    /// Clean end of the session.
    SessionEnd,
    /// Language feedback for the client to display.
    FeedbackText(String),
    /// The user's answer at the feedback gate: `true` continue, `false` retry.
    FeedbackChoice(bool),
    /// Ask the orchestrator for a session summary.
    SummaryRequest,
    /// The markdown session summary.
    SummaryResponse(String),
    /// A transient status line.
    StatusNotification(String),
    /// Drop the exchange in progress.
    CancelExchange,
}

/// Mathematical model of an [`OrchestratorMsg`].
pub enum OrchestratorMsgV {
    TranscribedText(Seq<char>),
    ResponseText(Seq<char>),
    SessionStart(Seq<char>),
    SessionEnd,
    FeedbackText(Seq<char>),
    FeedbackChoice(bool),
    SummaryRequest,
    SummaryResponse(Seq<char>),
    StatusNotification(Seq<char>),
    CancelExchange,
}

impl DeepView for OrchestratorMsg {
    type V = OrchestratorMsgV;

    open spec fn deep_view(&self) -> OrchestratorMsgV {
        self.view()
    }
}

impl View for OrchestratorMsg {
    type V = OrchestratorMsgV;

    open spec fn view(&self) -> OrchestratorMsgV {
        match self {
            OrchestratorMsg::TranscribedText(t) => OrchestratorMsgV::TranscribedText(t@),
            OrchestratorMsg::ResponseText(t) => OrchestratorMsgV::ResponseText(t@),
            OrchestratorMsg::SessionStart(t) => OrchestratorMsgV::SessionStart(t@),
            OrchestratorMsg::SessionEnd => OrchestratorMsgV::SessionEnd,
            OrchestratorMsg::FeedbackText(t) => OrchestratorMsgV::FeedbackText(t@),
            OrchestratorMsg::FeedbackChoice(p) => OrchestratorMsgV::FeedbackChoice(*p),
            OrchestratorMsg::SummaryRequest => OrchestratorMsgV::SummaryRequest,
            OrchestratorMsg::SummaryResponse(t) => OrchestratorMsgV::SummaryResponse(t@),
            OrchestratorMsg::StatusNotification(t) => OrchestratorMsgV::StatusNotification(t@),
            OrchestratorMsg::CancelExchange => OrchestratorMsgV::CancelExchange,
        }
    }
}

/// Canonical payload of an orchestrator message.
pub open spec fn orchestrator_msg_payload(m: OrchestratorMsgV) -> Seq<u8> {
    match m {
        OrchestratorMsgV::TranscribedText(t) => encode_utf8(t),
        OrchestratorMsgV::ResponseText(t) => encode_utf8(t),
        OrchestratorMsgV::SessionStart(t) => encode_utf8(t),
        OrchestratorMsgV::SessionEnd => Seq::empty(),
        OrchestratorMsgV::FeedbackText(t) => encode_utf8(t),
        OrchestratorMsgV::FeedbackChoice(p) => seq![if p { 1u8 } else { 0u8 }],
        OrchestratorMsgV::SummaryRequest => Seq::empty(),
        OrchestratorMsgV::SummaryResponse(t) => encode_utf8(t),
        OrchestratorMsgV::StatusNotification(t) => encode_utf8(t),
        OrchestratorMsgV::CancelExchange => Seq::empty(),
    }
}

/// Wire tag of an orchestrator message.
pub open spec fn orchestrator_msg_tag(m: OrchestratorMsgV) -> u8 {
    match m {
        OrchestratorMsgV::TranscribedText(_) => 0xA0,
        OrchestratorMsgV::ResponseText(_) => 0xA1,
        OrchestratorMsgV::SessionStart(_) => 0xA2,
        OrchestratorMsgV::SessionEnd => 0xA3,
        OrchestratorMsgV::FeedbackText(_) => 0xA4,
        OrchestratorMsgV::FeedbackChoice(_) => 0xA5,
        OrchestratorMsgV::SummaryRequest => 0xA6,
        OrchestratorMsgV::SummaryResponse(_) => 0xA7,
        OrchestratorMsgV::StatusNotification(_) => 0xA8,
        OrchestratorMsgV::CancelExchange => 0xA9,
    }
}

/// Canonical encoding of an orchestrator message.
pub open spec fn orchestrator_msg_bytes(m: OrchestratorMsgV) -> Seq<u8> {
    frame(orchestrator_msg_tag(m), orchestrator_msg_payload(m))
}

/// Whether an orchestrator message's payload fits the length field.
pub open spec fn orchestrator_msg_fits(m: OrchestratorMsgV) -> bool {
    orchestrator_msg_payload(m).len() <= u32::MAX
}

/// Outcome of decoding one orchestrator message from the head of `b`.
pub open spec fn decode_orchestrator_spec(b: Seq<u8>) -> Result<(OrchestratorMsgV, int), WireError> {
    if !frame_header_ok(b) {
        Err(WireError::Eof)
    } else {
        let tag = frame_tag(b);
        if !(0xA0 <= tag <= 0xA9) {
            Err(WireError::UnknownTag(tag))
        } else if !frame_complete(b) {
            Err(WireError::Eof)
        } else {
            let p = frame_payload(b);
            let n = frame_size(b);
            if tag == 0xA3 {
                Ok((OrchestratorMsgV::SessionEnd, n))
            } else if tag == 0xA5 {
                Ok((OrchestratorMsgV::FeedbackChoice(p.len() == 0 || p[0] != 0), n))
            } else if tag == 0xA6 {
                Ok((OrchestratorMsgV::SummaryRequest, n))
            } else if tag == 0xA9 {
                Ok((OrchestratorMsgV::CancelExchange, n))
            } else if !valid_utf8(p) {
                Err(WireError::InvalidUtf8)
            } else if tag == 0xA0 {
                Ok((OrchestratorMsgV::TranscribedText(decode_utf8(p)), n))
            } else if tag == 0xA1 {
                Ok((OrchestratorMsgV::ResponseText(decode_utf8(p)), n))
            } else if tag == 0xA2 {
                Ok((OrchestratorMsgV::SessionStart(decode_utf8(p)), n))
            } else if tag == 0xA4 {
                Ok((OrchestratorMsgV::FeedbackText(decode_utf8(p)), n))
            } else if tag == 0xA7 {
                Ok((OrchestratorMsgV::SummaryResponse(decode_utf8(p)), n))
            } else {
                Ok((OrchestratorMsgV::StatusNotification(decode_utf8(p)), n))
            }
        }
    }
}

/// Appends the canonical frame of `msg` to `w`.
///
/// Fails only when the payload does not fit the four-byte length field,
/// in which case `w` is left unchanged.
pub fn write_orchestrator_msg(w: &mut Vec<u8>, msg: &OrchestratorMsg) -> (r: Result<
    (),
    WireError,
>)
    ensures
        orchestrator_msg_fits(msg@) ==> r is Ok && final(w)@ == old(w)@ + orchestrator_msg_bytes(
            msg@,
        ),
        !orchestrator_msg_fits(msg@) ==> r is Err && final(w)@ == old(w)@,
{
    let ok: bool = match msg {
        OrchestratorMsg::TranscribedText(t) => write_text_frame(w, 0xA0, t),
        OrchestratorMsg::ResponseText(t) => write_text_frame(w, 0xA1, t),
        OrchestratorMsg::SessionStart(t) => write_text_frame(w, 0xA2, t),
        OrchestratorMsg::SessionEnd => {
            push_header(w, 0xA3, 0);
            proof {
                assert(orchestrator_msg_payload(msg@) =~= Seq::<u8>::empty());
            }
            true
        }
        OrchestratorMsg::FeedbackText(t) => write_text_frame(w, 0xA4, t),
        OrchestratorMsg::FeedbackChoice(proceed) => {
            push_header(w, 0xA5, 1);
            w.push(if *proceed { 1u8 } else { 0u8 });
            true
        }
        OrchestratorMsg::SummaryRequest => {
            push_header(w, 0xA6, 0);
            proof {
                assert(orchestrator_msg_payload(msg@) =~= Seq::<u8>::empty());
            }
            true
        }
        OrchestratorMsg::SummaryResponse(t) => write_text_frame(w, 0xA7, t),
        OrchestratorMsg::StatusNotification(t) => write_text_frame(w, 0xA8, t),
        OrchestratorMsg::CancelExchange => {
            push_header(w, 0xA9, 0);
            proof {
                assert(orchestrator_msg_payload(msg@) =~= Seq::<u8>::empty());
            }
            true
        }
    };
    if ok {
        proof {
            assert(w@ =~= old(w)@ + orchestrator_msg_bytes(msg@));
        }
        Ok(())
    } else {
        Err(WireError::Oversize)
    }
}

/// Decodes the payload of an orchestrator frame whose tag and payload are
/// already separated, as [`decode_orchestrator_spec`] prescribes.
pub fn decode_orchestrator_frame(tag: u8, payload: Vec<u8>) -> (r: Result<
    OrchestratorMsg,
    WireError,
>)
    requires
        payload@.len() <= u32::MAX,
    ensures
        match decode_orchestrator_spec(frame(tag, payload@)) {
            Ok((mv, n)) => r matches Ok(m) && m@ == mv,
            Err(e) => r matches Err(e2) && e2 == e,
        },
{
    proof {
        lemma_frame_parse(tag, payload@, Seq::empty());
        assert(frame(tag, payload@) + Seq::<u8>::empty() =~= frame(tag, payload@));
    }
    if !(0xA0 <= tag && tag <= 0xA9) {
        return Err(WireError::UnknownTag(tag));
    }
    if tag == 0xA3 {
        return Ok(OrchestratorMsg::SessionEnd);
    }
    if tag == 0xA5 {
        let proceed = if payload.len() == 0 { true } else { payload[0] != 0 };
        return Ok(OrchestratorMsg::FeedbackChoice(proceed));
    }
    if tag == 0xA6 {
        return Ok(OrchestratorMsg::SummaryRequest);
    }
    if tag == 0xA9 {
        return Ok(OrchestratorMsg::CancelExchange);
    }
    let text = decode_text(payload)?;
    if tag == 0xA0 {
        Ok(OrchestratorMsg::TranscribedText(text))
    } else if tag == 0xA1 {
        Ok(OrchestratorMsg::ResponseText(text))
    } else if tag == 0xA2 {
        Ok(OrchestratorMsg::SessionStart(text))
    } else if tag == 0xA4 {
        Ok(OrchestratorMsg::FeedbackText(text))
    } else if tag == 0xA7 {
        Ok(OrchestratorMsg::SummaryResponse(text))
    } else {
        Ok(OrchestratorMsg::StatusNotification(text))
    }
}

/// Reads one orchestrator message from the cursor.
///
/// On success the frame is consumed; on failure the cursor is unchanged.
/// The outcome is exactly [`decode_orchestrator_spec`] of the remaining bytes.
pub fn read_orchestrator_msg(r: &mut ByteCursor) -> (res: Result<OrchestratorMsg, WireError>)
    ensures
        match decode_orchestrator_spec(old(r)@) {
            Ok((mv, n)) => res matches Ok(m) && m@ == mv && final(r)@ == old(r)@.skip(n),
            Err(e) => res matches Err(e2) && e2 == e && final(r)@ == old(r)@,
        },
{
    let ghost b = old(r)@;
    let (tag, len) = match peek_header(r) {
        None => {
            return Err(WireError::Eof);
        }
        Some(h) => h,
    };
    if !(0xA0 <= tag && tag <= 0xA9) {
        return Err(WireError::UnknownTag(tag));
    }
    let payload = match take_payload(r, len) {
        None => {
            return Err(WireError::Eof);
        }
        Some(p) => p,
    };
    proof {
        lemma_frame_parse(tag, payload@, Seq::empty());
        assert(frame(tag, payload@) + Seq::<u8>::empty() =~= frame(tag, payload@));
        let fb = frame(tag, payload@);
        assert(frame_tag(fb) == frame_tag(b));
        assert(frame_payload_len(fb) == frame_payload_len(b));
        assert(frame_payload(fb) == frame_payload(b));
        assert(frame_size(fb) == frame_size(b));
    }
    let msg = match decode_orchestrator_frame(tag, payload) {
        Ok(m) => m,
        Err(e) => {
            return Err(e);
        }
    };
    let rem = r.remaining();
    assert(5 + len <= rem);
    r.advance(5 + len);
    Ok(msg)
}

/// Round trip for orchestrator messages, after any prefix of a stream.
pub proof fn lemma_orchestrator_round_trip(m: OrchestratorMsgV, rest: Seq<u8>)
    requires
        orchestrator_msg_fits(m),
    ensures
        decode_orchestrator_spec(orchestrator_msg_bytes(m) + rest) matches Ok(p) && p.0 == m && p.1
            == orchestrator_msg_bytes(m).len(),
{
    broadcast use vstd::utf8::encode_utf8_valid_utf8, vstd::utf8::encode_utf8_decode_utf8;

    let tag = orchestrator_msg_tag(m);
    let payload = orchestrator_msg_payload(m);
    lemma_frame_parse(tag, payload, rest);
}

// --- server-to-orchestrator reader --------------------------------------

/// Messages the orchestrator reads from the Unix socket. The server writes
/// its own tags (`Ready`, `Error`) and orchestrator tags on the same stream,
/// so this reader accepts both.
#[derive(Debug)]
pub enum ServerOrcMsg {
    /// Handshake: the server is ready.
    Ready,
    /// A server-side failure.
    Error(String),
    /// A transcription of the user's speech.
    TranscribedText(String),
    /// The user's answer at the feedback gate.
    FeedbackChoice(bool),
    /// The user asked for a session summary.
    SummaryRequest,
    /// The user dropped the exchange in progress.
    CancelExchange,
}

/// Mathematical model of a [`ServerOrcMsg`].
pub enum ServerOrcMsgV {
    Ready,
    Error(Seq<char>),
    TranscribedText(Seq<char>),
    FeedbackChoice(bool),
    SummaryRequest,
    CancelExchange,
}

impl DeepView for ServerOrcMsg {
    type V = ServerOrcMsgV;

    open spec fn deep_view(&self) -> ServerOrcMsgV {
        self.view()
    }
}

impl View for ServerOrcMsg {
    type V = ServerOrcMsgV;

    open spec fn view(&self) -> ServerOrcMsgV {
        match self {
            ServerOrcMsg::Ready => ServerOrcMsgV::Ready,
            ServerOrcMsg::Error(t) => ServerOrcMsgV::Error(t@),
            ServerOrcMsg::TranscribedText(t) => ServerOrcMsgV::TranscribedText(t@),
            ServerOrcMsg::FeedbackChoice(p) => ServerOrcMsgV::FeedbackChoice(*p),
            ServerOrcMsg::SummaryRequest => ServerOrcMsgV::SummaryRequest,
            ServerOrcMsg::CancelExchange => ServerOrcMsgV::CancelExchange,
        }
    }
}

/// Whether a tag belongs to the server-to-orchestrator family.
pub open spec fn server_orc_tag_known(tag: u8) -> bool {
    tag == 0x80 || tag == 0x82 || tag == 0xA0 || tag == 0xA5 || tag == 0xA6 || tag == 0xA9
}

/// Outcome of decoding one server-to-orchestrator message from the head
/// of `b`.
pub open spec fn decode_server_orc_spec(b: Seq<u8>) -> Result<(ServerOrcMsgV, int), WireError> {
    if !frame_header_ok(b) {
        Err(WireError::Eof)
    } else {
        let tag = frame_tag(b);
        if !server_orc_tag_known(tag) {
            Err(WireError::UnknownTag(tag))
        } else if !frame_complete(b) {
            Err(WireError::Eof)
        } else {
            let p = frame_payload(b);
            let n = frame_size(b);
            if tag == 0x80 {
                Ok((ServerOrcMsgV::Ready, n))
            } else if tag == 0xA5 {
                Ok((ServerOrcMsgV::FeedbackChoice(p.len() == 0 || p[0] != 0), n))
            } else if tag == 0xA6 {
                Ok((ServerOrcMsgV::SummaryRequest, n))
            } else if tag == 0xA9 {
                Ok((ServerOrcMsgV::CancelExchange, n))
            } else if !valid_utf8(p) {
                Err(WireError::InvalidUtf8)
            } else if tag == 0x82 {
                Ok((ServerOrcMsgV::Error(decode_utf8(p)), n))
            } else {
                Ok((ServerOrcMsgV::TranscribedText(decode_utf8(p)), n))
            }
        }
    }
}

/// Decodes the payload of a server-to-orchestrator frame whose tag and
/// payload are already separated, as [`decode_server_orc_spec`] prescribes.
pub fn decode_server_orc_frame(tag: u8, payload: Vec<u8>) -> (r: Result<ServerOrcMsg, WireError>)
    requires
        payload@.len() <= u32::MAX,
    ensures
        match decode_server_orc_spec(frame(tag, payload@)) {
            Ok((mv, n)) => r matches Ok(m) && m@ == mv,
            Err(e) => r matches Err(e2) && e2 == e,
        },
{
    proof {
        lemma_frame_parse(tag, payload@, Seq::empty());
        assert(frame(tag, payload@) + Seq::<u8>::empty() =~= frame(tag, payload@));
    }
    if !(tag == 0x80 || tag == 0x82 || tag == 0xA0 || tag == 0xA5 || tag == 0xA6 || tag == 0xA9) {
        return Err(WireError::UnknownTag(tag));
    }
    if tag == 0x80 {
        return Ok(ServerOrcMsg::Ready);
    }
    if tag == 0xA5 {
        let proceed = if payload.len() == 0 { true } else { payload[0] != 0 };
        return Ok(ServerOrcMsg::FeedbackChoice(proceed));
    }
    if tag == 0xA6 {
        return Ok(ServerOrcMsg::SummaryRequest);
    }
    if tag == 0xA9 {
        return Ok(ServerOrcMsg::CancelExchange);
    }
    let text = decode_text(payload)?;
    if tag == 0x82 {
        Ok(ServerOrcMsg::Error(text))
    } else {
        Ok(ServerOrcMsg::TranscribedText(text))
    }
}

/// Reads one server-to-orchestrator message from the cursor.
///
/// On success the frame is consumed; on failure the cursor is unchanged.
/// The outcome is exactly [`decode_server_orc_spec`] of the remaining bytes.
pub fn read_server_orc_msg(r: &mut ByteCursor) -> (res: Result<ServerOrcMsg, WireError>)
    ensures
        match decode_server_orc_spec(old(r)@) {
            Ok((mv, n)) => res matches Ok(m) && m@ == mv && final(r)@ == old(r)@.skip(n),
            Err(e) => res matches Err(e2) && e2 == e && final(r)@ == old(r)@,
        },
{
    let ghost b = old(r)@;
    let (tag, len) = match peek_header(r) {
        None => {
            return Err(WireError::Eof);
        }
        Some(h) => h,
    };
    if !(tag == 0x80 || tag == 0x82 || tag == 0xA0 || tag == 0xA5 || tag == 0xA6 || tag == 0xA9) {
        return Err(WireError::UnknownTag(tag));
    }
    let payload = match take_payload(r, len) {
        None => {
            return Err(WireError::Eof);
        }
        Some(p) => p,
    };
    proof {
        lemma_frame_parse(tag, payload@, Seq::empty());
        assert(frame(tag, payload@) + Seq::<u8>::empty() =~= frame(tag, payload@));
        let fb = frame(tag, payload@);
        assert(frame_tag(fb) == frame_tag(b));
        assert(frame_payload_len(fb) == frame_payload_len(b));
        assert(frame_payload(fb) == frame_payload(b));
        assert(frame_size(fb) == frame_size(b));
    }
    let msg = match decode_server_orc_frame(tag, payload) {
        Ok(m) => m,
        Err(e) => {
            return Err(e);
        }
    };
    let rem = r.remaining();
    assert(5 + len <= rem);
    r.advance(5 + len);
    Ok(msg)
}

/// The shared reader decodes what the server writes on the Unix socket:
/// its own `Ready` and `Error` frames and the orchestrator-family frames
/// whose tags it accepts, consuming exactly one frame either way.
pub proof fn lemma_server_orc_reads_both_families(m: ServerMsgV, o: OrchestratorMsgV, rest: Seq<u8>)
    requires
        server_msg_fits(m),
        orchestrator_msg_fits(o),
    ensures
        m is Ready ==> (decode_server_orc_spec(server_msg_bytes(m) + rest) matches Ok(p) && p.0
            == ServerOrcMsgV::Ready && p.1 == server_msg_bytes(m).len()),
        m matches ServerMsgV::Error(t) ==> (decode_server_orc_spec(server_msg_bytes(m) + rest)
            matches Ok(p) && p.0 == ServerOrcMsgV::Error(t) && p.1 == server_msg_bytes(m).len()),
        o matches OrchestratorMsgV::TranscribedText(t) ==> (decode_server_orc_spec(
            orchestrator_msg_bytes(o) + rest,
        ) matches Ok(p) && p.0 == ServerOrcMsgV::TranscribedText(t) && p.1
            == orchestrator_msg_bytes(o).len()),
        o matches OrchestratorMsgV::FeedbackChoice(c) ==> (decode_server_orc_spec(
            orchestrator_msg_bytes(o) + rest,
        ) matches Ok(p) && p.0 == ServerOrcMsgV::FeedbackChoice(c) && p.1
            == orchestrator_msg_bytes(o).len()),
        o is SummaryRequest ==> (decode_server_orc_spec(orchestrator_msg_bytes(o) + rest)
            matches Ok(p) && p.0 == ServerOrcMsgV::SummaryRequest && p.1
            == orchestrator_msg_bytes(o).len()),
        o is CancelExchange ==> (decode_server_orc_spec(orchestrator_msg_bytes(o) + rest)
            matches Ok(p) && p.0 == ServerOrcMsgV::CancelExchange && p.1
            == orchestrator_msg_bytes(o).len()),
{
    broadcast use vstd::utf8::encode_utf8_valid_utf8, vstd::utf8::encode_utf8_decode_utf8;

    lemma_frame_parse(server_msg_tag(m), server_msg_payload(m), rest);
    lemma_frame_parse(orchestrator_msg_tag(o), orchestrator_msg_payload(o), rest);
}
} // verus!
