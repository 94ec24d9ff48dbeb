//! The sentence-level speech pipeline: splitting a response into sentences,
//! the optional speed marker, the linear crossfade at sentence boundaries,
//! chunking of synthesized audio, and the message stream a response
//! produces, ending in exactly one terminator.

use vstd::prelude::*;
use vstd::string::*;
use crate::protocol::{ServerMsg, ServerMsgV};
use crate::text::{find_from, find_str, is_ws, lemma_find_from, matches_at, occurs_at, trim,
    trim_spec, trim_start, trim_start_spec, ws};

verus! {

broadcast use vstd::seq_lib::group_seq_lib_default;

/// Samples per audio chunk on the wire: a quarter second at 16 kHz.
pub const TTS_CHUNK_SIZE: usize = 4000;

/// Samples blended at a sentence boundary: ten milliseconds at 16 kHz.
pub const CROSSFADE_LEN: usize = 160;

// --- sentence splitting -------------------------------------------------

/// Whether position `i` of `s` ends a sentence: a `.`, `!` or `?` that is
/// followed by whitespace or by the end of the text.
pub open spec fn sentence_boundary(s: Seq<char>, i: int) -> bool {
    (s[i] == '.' || s[i] == '!' || s[i] == '?') && (i + 1 == s.len() || ws(s[i + 1]))
}

/// The sentences of `s` from scan position `i` on, the current sentence
/// having started at `start`: each boundary closes a sentence, the text
/// after the last boundary is a final sentence, and empty sentences are
/// dropped.
pub open spec fn sentences_from(s: Seq<char>, start: int, i: int) -> Seq<Seq<char>>
    recommends
        0 <= start <= i <= s.len(),
    decreases s.len() - i when 0 <= i <= s.len()
{
    if i >= s.len() {
        let tail = trim_spec(s.subrange(start, s.len() as int));
        if tail.len() > 0 {
            seq![tail]
        } else {
            Seq::empty()
        }
    } else if sentence_boundary(s, i) {
        let sent = trim_spec(s.subrange(start, i + 1));
        (if sent.len() > 0 {
            seq![sent]
        } else {
            Seq::empty()
        }) + sentences_from(s, i + 1, i + 1)
    } else {
        sentences_from(s, start, i + 1)
    }
}

/// The sentences of a response text: the text is trimmed, then scanned
/// from its start.
pub open spec fn split_sentences_spec(text: Seq<char>) -> Seq<Seq<char>> {
    sentences_from(trim_spec(text), 0, 0)
}

/// Splits a response into the sentences to synthesize one by one.
///
/// A sentence ends at `.`, `!` or `?` followed by whitespace or the end;
/// the punctuation stays attached; sentences are trimmed and empty ones
/// dropped; text after the last boundary is kept as a final sentence.
pub fn split_sentences<'a>(text: &'a str) -> (r: Vec<&'a str>)
    ensures
        r.deep_view() == split_sentences_spec(text@),
{
    let t = trim(text);
    let n = t.unicode_len();
    let mut out: Vec<&'a str> = Vec::new();
    let mut start: usize = 0;
    let mut i: usize = 0;
    while i < n
        invariant
            start <= i <= n,
            n == t@.len(),
            t@ == trim_spec(text@),
            split_sentences_spec(text@) == out.deep_view() + sentences_from(
                t@,
                start as int,
                i as int,
            ),
        decreases n - i,
    {
        let ghost prev_out = out.deep_view();
        let ghost old_start = start as int;
        let c = t.get_char(i);
        let boundary = (c == '.' || c == '!' || c == '?') && (i + 1 == n || is_ws(
            t.get_char(i + 1),
        ));
        if boundary {
            let piece = t.substring_char(start, i + 1);
            proof {
                assert(piece@ =~= t@.subrange(start as int, i + 1));
            }
            let sent = trim(piece);
            if sent.unicode_len() > 0 {
                out.push(sent);
            }
            start = i + 1;
            proof {
                assert(sentence_boundary(t@, i as int));
                assert(out.deep_view() + sentences_from(t@, start as int, i + 1) =~= prev_out
                    + sentences_from(t@, old_start, i as int));
            }
        }
        i = i + 1;
    }
    let ghost prev_out = out.deep_view();
    let piece = t.substring_char(start, n);
    proof {
        assert(piece@ =~= t@.subrange(start as int, n as int));
    }
    let tail = trim(piece);
    if tail.unicode_len() > 0 {
        out.push(tail);
    }
    proof {
        assert(out.deep_view() =~= prev_out + sentences_from(t@, start as int, n as int));
    }
    out
}

// --- speed marker -------------------------------------------------------

/// An ASCII digit.
pub open spec fn digit(c: char) -> bool {
    '0' <= c && c <= '9'
}

/// The digits of a decimal number: the text with any leading sign dropped.
pub open spec fn decimal_body(s: Seq<char>) -> Seq<char> {
    if s.len() > 0 && (s[0] == '-' || s[0] == '+') {
        s.drop_first()
    } else {
        s
    }
}

/// A plain decimal number: an optional sign, then digits with at most one
/// decimal point and at least one digit.
pub open spec fn is_decimal(s: Seq<char>) -> bool {
    let body = decimal_body(s);
    &&& body.len() > 0
    &&& forall|j: int| 0 <= j < body.len() ==> digit(body[j]) || body[j] == '.'
    &&& forall|j: int, k: int|
        0 <= j < body.len() && 0 <= k < body.len() && body[j] == '.' && body[k] == '.' ==> j == k
    &&& exists|j: int| 0 <= j < body.len() && digit(body[j])
}

/// The `[SPEED:` opening of a speed marker.
pub open spec fn speed_prefix() -> Seq<char> {
    seq!['[', 'S', 'P', 'E', 'E', 'D', ':']
}

/// Whether `text` starts with a well-formed speed marker: the prefix, a
/// decimal number, then `]`.
pub open spec fn has_speed_marker(text: Seq<char>) -> bool {
    occurs_at(text, speed_prefix(), 0) && match find_from(text, seq![']'], 7) {
        Some(e) => is_decimal(text.subrange(7, e)),
        None => false,
    }
}

/// The number text of the speed marker of `text`.
pub open spec fn speed_value(text: Seq<char>) -> Seq<char>
    recommends
        has_speed_marker(text),
{
    match find_from(text, seq![']'], 7) {
        Some(e) => text.subrange(7, e),
        None => Seq::empty(),
    }
}

/// What remains to speak after the speed marker of `text`.
pub open spec fn speed_rest(text: Seq<char>) -> Seq<char>
    recommends
        has_speed_marker(text),
{
    match find_from(text, seq![']'], 7) {
        Some(e) => trim_start_spec(text.skip(e + 1)),
        None => Seq::empty(),
    }
}

/// Whether `s` forms a decimal number as [`is_decimal`] defines it.
fn check_decimal(s: &str) -> (r: bool)
    ensures
        r == is_decimal(s@),
{
    let n = s.unicode_len();
    let signed = n > 0 && (s.get_char(0) == '-' || s.get_char(0) == '+');
    let start: usize = if signed {
        1
    } else {
        0
    };
    let ghost body = decimal_body(s@);
    proof {
        assert(body.len() == n - start);
        assert forall|j: int| 0 <= j < body.len() implies body[j] == s@[j + start] by {}
    }
    if start >= n {
        return false;
    }
    let mut k: usize = start;
    let mut seen_digit = false;
    let mut seen_dot = false;
    let ghost mut dot_at: int = 0;
    while k < n
        invariant
            start <= k <= n,
            n == s@.len(),
            signed == (s@.len() > 0 && (s@[0] == '-' || s@[0] == '+')),
            start == if signed { 1int } else { 0int },
            body == decimal_body(s@),
            body.len() == n - start,
            forall|j: int| 0 <= j < body.len() ==> body[j] == s@[j + start],
            forall|j: int| 0 <= j < k - start ==> digit(body[j]) || body[j] == '.',
            seen_digit == exists|j: int| 0 <= j < k - start && digit(body[j]),
            seen_dot == exists|j: int| 0 <= j < k - start && body[j] == '.',
            seen_dot ==> 0 <= dot_at < k - start && body[dot_at] == '.',
            forall|j: int| 0 <= j < k - start && body[j] == '.' ==> j == dot_at,
        decreases n - k,
    {
        let c = s.get_char(k);
        if c >= '0' && c <= '9' {
            proof {
                assert(body[k - start] == c);
                assert(digit(body[k - start]));
            }
            seen_digit = true;
        } else if c == '.' {
            if seen_dot {
                proof {
                    assert(body[k - start] == '.');
                    assert(body[dot_at] == '.' && dot_at < k - start);
                    assert(!is_decimal(s@));
                }
                return false;
            }
            seen_dot = true;
            proof {
                assert(body[k - start] == '.');
                dot_at = k - start;
            }
        } else {
            proof {
                assert(body[k - start] == c);
                assert(!(digit(body[k - start]) || body[k - start] == '.'));
                assert(!is_decimal(s@));
            }
            return false;
        }
        k = k + 1;
    }
    if seen_digit {
        proof {
            assert(is_decimal(s@));
        }
        true
    } else {
        proof {
            assert(!is_decimal(s@));
        }
        false
    }
}

/// Parses an optional `[SPEED:X.X]` marker at the start of a response.
///
/// With a well-formed marker the number text and the rest of the response,
/// trimmed at its start, are returned; anything malformed leaves the text
/// untouched with no speed.
pub fn parse_speed_marker<'a>(text: &'a str) -> (r: (Option<&'a str>, &'a str))
    ensures
        has_speed_marker(text@) ==> (r.0 matches Some(v) && v@ == speed_value(text@) && r.1@
            == speed_rest(text@)),
        !has_speed_marker(text@) ==> r.0 is None && r.1@ == text@,
{
    proof {
        reveal_strlit("[SPEED:");
        reveal_strlit("]");
        assert("[SPEED:"@ =~= speed_prefix());
        assert("]"@ =~= seq![']']);
    }
    let n = text.unicode_len();
    if !matches_at(text, "[SPEED:", 0) {
        return (None, text);
    }
    proof {
        lemma_find_from(text@, seq![']'], 7);
    }
    match find_str(text, "]", 7) {
        None => (None, text),
        Some(e) => {
            let num = text.substring_char(7, e);
            proof {
                assert(num@ =~= text@.subrange(7, e as int));
            }
            if !check_decimal(num) {
                return (None, text);
            }
            let after = text.substring_char(e + 1, n);
            proof {
                assert(after@ =~= text@.skip(e + 1));
            }
            (Some(num), trim_start(after))
        }
    }
}

// --- crossfade ----------------------------------------------------------

/// The linear blend at offset `i` of a crossfade of length `l`: the old
/// tail sample weighted down as the new sample is weighted up, computed
/// on values shifted to be non-negative.
pub open spec fn blend(a: i16, b: i16, i: int, l: int) -> i16
    recommends
        0 <= i < l,
{
    ((((a + 32768) * (l - i) + (b + 32768) * i) / l) - 32768) as i16
}

/// A sentence with its first samples blended from the previous sentence's
/// tail: sample `i` of the overlap is [`blend`]`(prev[i], cur[i], i)`;
/// samples past the overlap are unchanged.
pub open spec fn crossfade_spec(prev: Seq<i16>, cur: Seq<i16>) -> Seq<i16> {
    let l = if prev.len() < cur.len() {
        prev.len() as int
    } else {
        cur.len() as int
    };
    let l2 = if l < 160 {
        l
    } else {
        160
    };
    Seq::new(
        cur.len(),
        |i: int|
            if 0 <= i < l2 {
                blend(prev[i], cur[i], i, 160)
            } else {
                cur[i]
            },
    )
}

/// The blend of two sample values stays within sample range.
proof fn lemma_blend_range(a: i16, b: i16, i: int, l: int)
    requires
        0 <= i < l,
    ensures
        0 <= ((a + 32768) * (l - i) + (b + 32768) * i) / l <= 65535,
        -32768 <= blend(a, b, i, l) as int <= 32767,
{
    let sa = a + 32768;
    let sb = b + 32768;
    assert(0 <= sa <= 65535 && 0 <= sb <= 65535);
    assert(sa * (l - i) + sb * i <= 65535 * l) by (nonlinear_arith)
        requires
            0 <= i < l,
            0 <= sa <= 65535,
            0 <= sb <= 65535,
    ;
    assert(sa * (l - i) + sb * i >= 0) by (nonlinear_arith)
        requires
            0 <= i < l,
            0 <= sa,
            0 <= sb,
    ;
    let q = (sa * (l - i) + sb * i) / l;
    assert(q <= 65535) by (nonlinear_arith)
        requires
            l > 0,
            0 <= sa * (l - i) + sb * i <= 65535 * l,
            q == (sa * (l - i) + sb * i) / l,
    ;
}

/// Blends the start of `samples` with the tail of the previous sentence:
/// a linear crossfade over at most [`CROSSFADE_LEN`] samples, limited by
/// the lengths at hand.
pub fn apply_crossfade(prev_tail: &Vec<i16>, samples: &mut Vec<i16>)
    ensures
        final(samples)@ == crossfade_spec(prev_tail@, old(samples)@),
{
    let mut l: usize = prev_tail.len();
    if samples.len() < l {
        l = samples.len();
    }
    if CROSSFADE_LEN < l {
        l = CROSSFADE_LEN;
    }
    let mut i: usize = 0;
    while i < l
        invariant
            i <= l,
            l <= prev_tail@.len(),
            l <= samples@.len(),
            l <= 160,
            samples@.len() == old(samples)@.len(),
            l as int == crossfade_limit(prev_tail@, old(samples)@),
            forall|j: int| 0 <= j < i ==> samples@[j] == crossfade_spec(prev_tail@, old(samples)@)[j],
            forall|j: int| i <= j < samples@.len() ==> samples@[j] == old(samples)@[j],
        decreases l - i,
    {
        let a = prev_tail[i];
        let b = samples[i];
        proof {
            lemma_blend_range(a, b, i as int, 160);
        }
        let shifted: i32 = ((a as i32 + 32768) * (160 - i as i32) + (b as i32 + 32768)
            * (i as i32)) / 160;
        let v: i16 = (shifted - 32768) as i16;
        samples.set(i, v);
        i = i + 1;
    }
    proof {
        assert(samples@ =~= crossfade_spec(prev_tail@, old(samples)@));
    }
}

/// The overlap length of a crossfade: the shorter of the two parts,
/// capped at [`CROSSFADE_LEN`].
pub open spec fn crossfade_limit(prev: Seq<i16>, cur: Seq<i16>) -> int {
    let l = if prev.len() < cur.len() {
        prev.len() as int
    } else {
        cur.len() as int
    };
    if l < 160 {
        l
    } else {
        160
    }
}

// --- chunking -----------------------------------------------------------

/// How many chunks of `size` cover `len` samples.
pub open spec fn chunk_count(len: int, size: int) -> int
    recommends
        size > 0,
{
    (len + size - 1) / size
}

/// `s` cut into consecutive chunks of `size` samples, the last chunk
/// holding whatever remains.
pub open spec fn chunks_spec(s: Seq<i16>, size: int) -> Seq<Seq<i16>>
    recommends
        size > 0,
{
    Seq::new(
        chunk_count(s.len() as int, size) as nat,
        |i: int|
            s.subrange(
                i * size,
                if (i + 1) * size < s.len() {
                    (i + 1) * size
                } else {
                    s.len() as int
                },
            ),
    )
}

/// Cuts synthesized audio into wire chunks of at most [`TTS_CHUNK_SIZE`]
/// samples: all chunks are full except the last, their concatenation is
/// the input, and an empty input yields no chunks.
pub fn chunk_samples(samples: &Vec<i16>) -> (r: Vec<Vec<i16>>)
    ensures
        r.deep_view() == chunks_spec(samples@, TTS_CHUNK_SIZE as int),
        samples@.len() == 0 ==> r@.len() == 0,
{
    let n = samples.len();
    let mut out: Vec<Vec<i16>> = Vec::new();
    let mut pos: usize = 0;
    while pos < n
        invariant
            pos <= n,
            n == samples@.len(),
            out@.len() * 4000 == pos || (pos == n && out@.len() == chunk_count(n as int, 4000)),
            out@.len() <= chunk_count(n as int, 4000),
            out.deep_view() == chunks_spec(samples@, 4000).take(out@.len() as int),
        decreases n - pos,
    {
        let ghost k = out@.len() as int;
        proof {
            assert(k * 4000 == pos);
        }
        let end = if n - pos > 4000 {
            pos + 4000
        } else {
            n
        };
        let chunk = vstd::slice::slice_to_vec(
            vstd::slice::slice_subrange(samples.as_slice(), pos, end),
        );
        proof {
            assert((k + 1) * 4000 == k * 4000 + 4000);
            assert(chunk@ =~= samples@.subrange(
                k * 4000,
                if (k + 1) * 4000 < n { (k + 1) * 4000 } else { n as int },
            ));
            assert(chunk.deep_view() =~= chunk@);
            assert(chunk.deep_view() == chunks_spec(samples@, 4000)[k]);
        }
        let ghost pre = out.deep_view();
        out.push(chunk);
        proof {
            if end < n {
                assert(out@.len() * 4000 == end);
            } else {
                assert(k * 4000 < n <= k * 4000 + 4000);
                assert(chunk_count(n as int, 4000) == k + 1) by {
                    assert((n + 3999) / 4000 == k + 1);
                }
            }
            assert(out.deep_view() =~= chunks_spec(samples@, 4000).take(out@.len() as int));
        }
        pos = end;
    }
    proof {
        if pos < n || n > 0 {
        }
        if out@.len() * 4000 == pos && pos == n {
            assert(chunk_count(n as int, 4000) == out@.len()) by {
                assert((n + 3999) / 4000 == out@.len());
            }
        }
        if n == 0 {
            assert(chunk_count(0, 4000) == 0);
        }
        assert(out.deep_view() =~= chunks_spec(samples@, 4000));
    }
    out
}

// --- the response stream ------------------------------------------------

/// What one sentence's synthesis produced: its samples, or a failure.
#[derive(Debug)]
pub enum SynthOutcome {
    /// The synthesized samples of the sentence.
    Audio(Vec<i16>),
    /// Synthesis failed; nothing after this sentence is spoken.
    Failed,
}

impl View for SynthOutcome {
    type V = Option<Seq<i16>>;

    open spec fn view(&self) -> Option<Seq<i16>> {
        match self {
            SynthOutcome::Audio(s) => Some(s@),
            SynthOutcome::Failed => None,
        }
    }
}

impl DeepView for SynthOutcome {
    type V = Option<Seq<i16>>;

    open spec fn deep_view(&self) -> Option<Seq<i16>> {
        self.view()
    }
}

/// A sentence blended with the tail of the previous one, when a tail
/// exists and the sentence is long enough to blend reliably.
pub open spec fn blend_with_tail(prev: Option<Seq<i16>>, cur: Seq<i16>) -> Seq<i16> {
    match prev {
        Some(p) => if cur.len() >= 160 {
            crossfade_spec(p, cur)
        } else {
            cur
        },
        None => cur,
    }
}

/// The tail a sentence leaves for the next one: its last
/// [`CROSSFADE_LEN`] samples, or nothing when it is shorter than that.
pub open spec fn next_tail(out: Seq<i16>) -> Option<Seq<i16>> {
    if out.len() >= 160 {
        Some(out.skip(out.len() - 160))
    } else {
        None
    }
}

/// The chunk messages of one sentence's blended audio.
pub open spec fn chunk_msgs(s: Seq<i16>) -> Seq<ServerMsgV> {
    chunks_spec(s, 4000).map_values(|c: Seq<i16>| ServerMsgV::TtsAudioChunk(c))
}

/// The messages the pipeline emits for the synthesis outcomes `xs`, a
/// previous tail `prev` pending: each sentence in order is blended,
/// chunked and sent; the first failure stops the stream; exactly one
/// terminator ends it in every case.
pub open spec fn stream_spec(prev: Option<Seq<i16>>, xs: Seq<Option<Seq<i16>>>) -> Seq<ServerMsgV>
    decreases xs.len(),
{
    if xs.len() == 0 {
        seq![ServerMsgV::TtsEnd]
    } else {
        match xs[0] {
            None => seq![ServerMsgV::TtsEnd],
            Some(cur) => {
                let blended = blend_with_tail(prev, cur);
                chunk_msgs(blended) + stream_spec(next_tail(blended), xs.drop_first())
            }
        }
    }
}

/// Every stream ends in exactly one terminator: the last message is the
/// terminator and everything before it is an audio chunk.
pub proof fn lemma_stream_spec_shape(prev: Option<Seq<i16>>, xs: Seq<Option<Seq<i16>>>)
    ensures
        stream_spec(prev, xs).len() >= 1,
        stream_spec(prev, xs)[stream_spec(prev, xs).len() - 1] is TtsEnd,
        forall|j: int| 0 <= j < stream_spec(prev, xs).len() - 1 ==> stream_spec(prev, xs)[j]
            is TtsAudioChunk,
    decreases xs.len(),
{
    if xs.len() == 0 {
    } else {
        match xs[0] {
            None => {}
            Some(cur) => {
                let blended = blend_with_tail(prev, cur);
                lemma_stream_spec_shape(next_tail(blended), xs.drop_first());
                let head = chunk_msgs(blended);
                let rest = stream_spec(next_tail(blended), xs.drop_first());
                assert forall|j: int| 0 <= j < stream_spec(prev, xs).len() - 1 implies stream_spec(
                    prev,
                    xs,
                )[j] is TtsAudioChunk by {
                    if j < head.len() {
                        assert(head[j] == ServerMsgV::TtsAudioChunk(
                            chunks_spec(blended, 4000)[j],
                        ));
                    } else {
                        assert(stream_spec(prev, xs)[j] == rest[j - head.len()]);
                    }
                }
            }
        }
    }
}

/// The crossfade state carried across one response's sentences.
pub struct SentenceStream {
    tail: Option<Vec<i16>>,
}

impl SentenceStream {
    /// The pending tail, as the stream spec sees it.
    pub closed spec fn tail_view(&self) -> Option<Seq<i16>> {
        match self.tail {
            Some(ref t) => Some(t@),
            None => None,
        }
    }

    /// A fresh stream with no pending tail.
    pub fn new() -> (r: SentenceStream)
        ensures
            r.tail_view() is None,
    {
        SentenceStream { tail: None }
    }

    /// Takes one sentence's audio: blends it with the pending tail and
    /// keeps the new tail for the next sentence.
    pub fn on_sentence(&mut self, samples: Vec<i16>) -> (out: Vec<i16>)
        ensures
            out@ == blend_with_tail(old(self).tail_view(), samples@),
            final(self).tail_view() == next_tail(out@),
    {
        let mut samples = samples;
        match &self.tail {
            Some(t) => {
                if samples.len() >= CROSSFADE_LEN {
                    apply_crossfade(t, &mut samples);
                }
            }
            None => {}
        }
        let n = samples.len();
        if n >= CROSSFADE_LEN {
            let t = vstd::slice::slice_to_vec(
                vstd::slice::slice_subrange(samples.as_slice(), n - CROSSFADE_LEN, n),
            );
            proof {
                assert(t@ =~= samples@.skip(samples@.len() - 160));
            }
            self.tail = Some(t);
        } else {
            self.tail = None;
        }
        samples
    }
}

/// Emits the full message stream for one response's synthesis outcomes.
///
/// With the interrupt flag already set, nothing is spoken and only the
/// terminator is sent. Otherwise every sentence up to the first failure
/// is blended, chunked and sent in order, and the stream always ends with
/// exactly one terminator.
pub fn stream_sentences(outcomes: Vec<SynthOutcome>, interrupted: bool) -> (msgs: Vec<ServerMsg>)
    ensures
        interrupted ==> msgs.deep_view() == seq![ServerMsgV::TtsEnd],
        !interrupted ==> msgs.deep_view() == stream_spec(None, outcomes.deep_view()),
        msgs@.len() >= 1 && msgs@[msgs@.len() - 1] is TtsEnd,
        forall|j: int| 0 <= j < msgs@.len() - 1 ==> msgs@[j] is TtsAudioChunk,
{
    let ghost all = outcomes.deep_view();
    let mut msgs: Vec<ServerMsg> = Vec::new();
    if interrupted {
        msgs.push(ServerMsg::TtsEnd);
        proof {
            assert(msgs.deep_view() =~= seq![ServerMsgV::TtsEnd]);
        }
        return msgs;
    }
    let mut stream = SentenceStream::new();
    let mut rest = outcomes;
    let mut ended = false;
    while rest.len() > 0 && !ended
        invariant
            !ended ==> forall|j: int| 0 <= j < msgs@.len() ==> msgs@[j] is TtsAudioChunk,
            !ended ==> stream_spec(None, all) == msgs.deep_view() + stream_spec(
                stream.tail_view(),
                rest.deep_view(),
            ),
            ended ==> msgs.deep_view() == stream_spec(None, all),
            ended ==> msgs@.len() >= 1 && msgs@[msgs@.len() - 1] is TtsEnd,
            ended ==> forall|j: int| 0 <= j < msgs@.len() - 1 ==> msgs@[j] is TtsAudioChunk,
        decreases rest@.len(),
    {
        let ghost pre_msgs = msgs.deep_view();
        let ghost pre_rest = rest.deep_view();
        let ghost pre_tail = stream.tail_view();
        let oc = rest.remove(0);
        proof {
            assert(rest.deep_view() =~= pre_rest.drop_first());
            assert(oc@ == pre_rest[0]);
        }
        match oc {
            SynthOutcome::Failed => {
                msgs.push(ServerMsg::TtsEnd);
                ended = true;
                proof {
                    assert(stream_spec(pre_tail, pre_rest) =~= seq![ServerMsgV::TtsEnd]);
                    assert(msgs.deep_view() =~= stream_spec(None, all));
                }
            }
            SynthOutcome::Audio(samples) => {
                let blended = stream.on_sentence(samples);
                let mut chunks = chunk_samples(&blended);
                proof {
                    assert(stream_spec(pre_tail, pre_rest) == chunk_msgs(blended@) + stream_spec(
                        stream.tail_view(),
                        rest.deep_view(),
                    ));
                }
                let mut done: usize = 0;
                let total = chunks.len();
                proof {
                    assert(chunks.deep_view() =~= chunks_spec(blended@, 4000).skip(0));
                    assert(msgs.deep_view() =~= pre_msgs + chunk_msgs(blended@).take(0));
                }
                while done < total
                    invariant
                        done <= total,
                        total == chunks@.len() + done,
                        chunks.deep_view() == chunks_spec(blended@, 4000).skip(done as int),
                        total == chunk_msgs(blended@).len(),
                        msgs.deep_view() == pre_msgs + chunk_msgs(blended@).take(done as int),
                        forall|j: int| 0 <= j < msgs@.len() ==> msgs@[j] is TtsAudioChunk,
                    decreases total - done,
                {
                    let ghost pre_chunks = chunks.deep_view();
                    let c = chunks.remove(0);
                    proof {
                        assert(chunks.deep_view() =~= pre_chunks.drop_first());
                        assert(c.deep_view() =~= c@);
                        assert(pre_chunks[0] == chunks_spec(blended@, 4000).skip(done as int)[0]);
                        assert(chunks_spec(blended@, 4000).skip(done as int)[0] == chunks_spec(
                            blended@,
                            4000,
                        )[done as int]);
                        assert(c@ == chunks_spec(blended@, 4000)[done as int]);
                    }
                    let ghost pre_m = msgs.deep_view();
                    msgs.push(ServerMsg::TtsAudioChunk(c));
                    done = done + 1;
                    proof {
                        assert(chunks.deep_view() =~= chunks_spec(blended@, 4000).skip(
                            done as int,
                        ));
                        assert(chunk_msgs(blended@)[done - 1] == ServerMsgV::TtsAudioChunk(
                            chunks_spec(blended@, 4000)[done - 1],
                        ));
                        assert(msgs.deep_view() =~= pre_m + seq![
                            ServerMsgV::TtsAudioChunk(c@),
                        ]);
                        assert(pre_m + seq![ServerMsgV::TtsAudioChunk(c@)] =~= pre_msgs
                            + chunk_msgs(blended@).take(done as int));
                    }
                }
                proof {
                    assert(chunk_msgs(blended@).take(done as int) =~= chunk_msgs(blended@));
                    assert(msgs.deep_view() + stream_spec(stream.tail_view(), rest.deep_view())
                        =~= stream_spec(None, all));
                }
            }
        }
    }
    if ended {
        return msgs;
    }
    proof {
        assert(rest.deep_view() =~= Seq::<Option<Seq<i16>>>::empty());
    }
    msgs.push(ServerMsg::TtsEnd);
    proof {
        assert(msgs.deep_view() =~= stream_spec(None, all));
    }
    msgs
}

} // verus!
