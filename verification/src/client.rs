//! The client's interaction logic: argument lookup, server address
//! normalization, connection backoff, key bindings, the replay buffer,
//! the receive-side state machine, the listening-edge decisions, and the
//! timestamp format of saved session summaries.

use vstd::prelude::*;
use vstd::string::*;
use crate::protocol::{ClientMsg, ClientMsgV};
use crate::sentences::chunk_samples;
use crate::text::{find_from, find_str, matches_at, occurs_at};

verus! {

/// The capture stream's format, as the audio device reports it.
pub struct CaptureConfig {
    /// Samples per second per channel.
    pub sample_rate: u32,
    /// Interleaved channels per frame.
    pub channels: u16,
}

/// How speech is segmented while listening.
#[derive(Debug, Clone, Copy, PartialEq, Eq, Structural)]
pub enum VoiceMode {
    /// Push-to-talk: audio accumulates and is sent when listening stops.
    Manual,
    /// Voice-activity detection emits segments as silence is detected.
    Auto,
}

/// The port used when the server address names none.
pub const DEFAULT_PORT_SUFFIX: &'static str = ":9500";

/// Connection attempts before giving up.
pub const MAX_CONNECT_ATTEMPTS: u32 = 3;

/// Seconds of the connect timeout.
pub const CONNECT_TIMEOUT_SECS: u64 = 10;

// --- arguments and addresses --------------------------------------------

/// Whether two strings hold the same characters.
fn str_eq(a: &str, b: &str) -> (r: bool)
    ensures
        r == (a@ == b@),
{
    let al = a.unicode_len();
    let bl = b.unicode_len();
    if al != bl {
        return false;
    }
    let r = matches_at(a, b, 0);
    proof {
        if r {
            assert(a@.subrange(0, a@.len() as int) =~= a@);
        } else {
            if a@ == b@ {
                assert(a@.subrange(0, b@.len() as int) =~= b@);
            }
        }
    }
    r
}

/// The position of the first argument equal to `flag`, if any.
pub open spec fn flag_position(args: Seq<Seq<char>>, flag: Seq<char>) -> Option<int>
    decreases args.len(),
{
    if args.len() == 0 {
        None
    } else if args[0] == flag {
        Some(0)
    } else {
        match flag_position(args.drop_first(), flag) {
            Some(i) => Some(i + 1),
            None => None,
        }
    }
}

/// The value following a command-line flag: the argument right after the
/// first occurrence of `flag`, if both exist.
pub fn find_arg_value(args: &Vec<String>, flag: &str) -> (r: Option<String>)
    ensures
        match flag_position(args.deep_view(), flag@) {
            Some(i) => {
                if i + 1 < args.deep_view().len() {
                    r matches Some(v) && v@ == args.deep_view()[i + 1]
                } else {
                    r is None
                }
            },
            None => r is None,
        },
{
    let n = args.len();
    let mut k: usize = 0;
    proof {
        assert(args.deep_view().skip(0) =~= args.deep_view());
    }
    while k < n
        invariant
            k <= n,
            n == args@.len(),
            flag_position(args.deep_view(), flag@) == match flag_position(
                args.deep_view().skip(k as int),
                flag@,
            ) {
                Some(i) => Some(i + k),
                None => None::<int>,
            },
        decreases n - k,
    {
        proof {
            assert(args.deep_view().skip(k as int)[0] == args.deep_view()[k as int]);
        }
        if str_eq(args[k].as_str(), flag) {
            proof {
                assert(flag_position(args.deep_view().skip(k as int), flag@) == Some(0int));
            }
            if k + 1 < n {
                return Some(String::from_str(args[k + 1].as_str()));
            } else {
                return None;
            }
        }
        k = k + 1;
        proof {
            assert(args.deep_view().skip(k - 1).drop_first() =~= args.deep_view().skip(k as int));
        }
    }
    proof {
        assert(args.deep_view().skip(n as int) =~= Seq::<Seq<char>>::empty());
    }
    None
}

/// Appends the default port to a server address that names none: an
/// address without `:` gets `:9500`.
pub fn normalize_server_addr(addr: &str) -> (r: String)
    ensures
        find_from(addr@, seq![':'], 0) is Some ==> r@ == addr@,
        find_from(addr@, seq![':'], 0) is None ==> r@ == addr@ + DEFAULT_PORT_SUFFIX@,
{
    proof {
        reveal_strlit(":");
        assert(":"@ =~= seq![':']);
    }
    match find_str(addr, ":", 0) {
        Some(_) => String::from_str(addr),
        None => {
            let mut r = String::from_str(addr);
            r.append(DEFAULT_PORT_SUFFIX);
            r
        }
    }
}

/// Seconds to wait before connection attempt `attempt` (the second
/// attempt waits 1 s, then 2 s, then 4 s).
pub fn backoff_delay_secs(attempt: u32) -> (r: u64)
    requires
        2 <= attempt <= MAX_CONNECT_ATTEMPTS,
    ensures
        attempt == 2 ==> r == 1,
        attempt == 3 ==> r == 2,
{
    if attempt == 2 {
        1
    } else {
        2
    }
}

// --- key bindings -------------------------------------------------------

/// What an idle-time key press asks for.
#[derive(Debug, Clone, Copy, PartialEq, Eq, Structural)]
pub enum PollAction {
    /// No binding.
    NoBinding,
    /// Quit, offering a session summary.
    Quit,
    /// Replay the last response.
    Replay,
    /// Cancel the exchange.
    Cancel,
}

/// The idle-time key bindings: `q` quits, `3` replays, `4` cancels.
pub fn poll_action_for_key(key: char) -> (r: PollAction)
    ensures
        key == 'q' ==> r is Quit,
        key == '3' ==> r is Replay,
        key == '4' ==> r is Cancel,
        key != 'q' && key != '3' && key != '4' ==> r is NoBinding,
{
    if key == 'q' {
        PollAction::Quit
    } else if key == '3' {
        PollAction::Replay
    } else if key == '4' {
        PollAction::Cancel
    } else {
        PollAction::NoBinding
    }
}

/// What the user chose at the feedback prompt.
#[derive(Debug, Clone, Copy, PartialEq, Eq, Structural)]
pub enum FeedbackAction {
    /// Let the response be spoken.
    Continue,
    /// Ask to rephrase instead.
    Retry,
    /// Hear the last response again, then choose again.
    Replay,
    /// Drop the exchange.
    Cancel,
}

/// The feedback-prompt key bindings: `1` continues, `2` retries, `3`
/// replays, `4` or the escape key cancels; other keys are ignored.
pub fn feedback_action_for_key(key: char, is_escape: bool) -> (r: Option<FeedbackAction>)
    ensures
        is_escape ==> r == Some(FeedbackAction::Cancel),
        !is_escape && key == '1' ==> r == Some(FeedbackAction::Continue),
        !is_escape && key == '2' ==> r == Some(FeedbackAction::Retry),
        !is_escape && key == '3' ==> r == Some(FeedbackAction::Replay),
        !is_escape && key == '4' ==> r == Some(FeedbackAction::Cancel),
        !is_escape && key != '1' && key != '2' && key != '3' && key != '4' ==> r is None,
{
    if is_escape {
        Some(FeedbackAction::Cancel)
    } else if key == '1' {
        Some(FeedbackAction::Continue)
    } else if key == '2' {
        Some(FeedbackAction::Retry)
    } else if key == '3' {
        Some(FeedbackAction::Replay)
    } else if key == '4' {
        Some(FeedbackAction::Cancel)
    } else {
        None
    }
}

/// The summary-prompt key bindings: `y` or `Y` accepts, `n` or `N`
/// declines, anything else is ignored.
pub fn summary_choice_for_key(key: char) -> (r: Option<bool>)
    ensures
        key == 'y' || key == 'Y' ==> r == Some(true),
        key == 'n' || key == 'N' ==> r == Some(false),
        key != 'y' && key != 'Y' && key != 'n' && key != 'N' ==> r is None,
{
    if key == 'y' || key == 'Y' {
        Some(true)
    } else if key == 'n' || key == 'N' {
        Some(false)
    } else {
        None
    }
}

// --- cancel key ---------------------------------------------------------

/// What the dedicated cancel key does in the current state.
#[derive(Debug, Clone, Copy, PartialEq, Eq, Structural)]
pub enum CancelPlan {
    /// Playback is running: interrupt it, then cancel the exchange.
    InterruptAndCancel,
    /// Idle: cancel the exchange.
    CancelOnly,
    /// Listening: the key does nothing.
    Nothing,
}

/// Decides the cancel key's effect: during playback it interrupts and
/// cancels, when idle it only cancels, and while listening it is
/// ignored.
pub fn cancel_key_plan(is_playing: bool, is_listening: bool) -> (r: CancelPlan)
    ensures
        is_playing ==> r is InterruptAndCancel,
        !is_playing && !is_listening ==> r is CancelOnly,
        !is_playing && is_listening ==> r is Nothing,
{
    if is_playing {
        CancelPlan::InterruptAndCancel
    } else if !is_listening {
        CancelPlan::CancelOnly
    } else {
        CancelPlan::Nothing
    }
}

// --- the replay buffer --------------------------------------------------

/// Samples per replayed chunk, matching the speech chunk size.
pub const REPLAY_CHUNK_SIZE: usize = 4000;

/// The replay buffer's bound: five minutes of audio at 16 kHz.
pub const REPLAY_BUFFER_MAX_SAMPLES: usize = 16000 * 60 * 5;

/// The last response's audio, kept for replay, bounded at five minutes.
pub struct ReplayBuffer {
    samples: Vec<i16>,
}

impl ReplayBuffer {
    /// The audio held for replay.
    pub closed spec fn view_samples(&self) -> Seq<i16> {
        self.samples@
    }

    /// The buffer never outgrows its bound.
    pub closed spec fn wf(&self) -> bool {
        self.samples@.len() <= REPLAY_BUFFER_MAX_SAMPLES
    }

    /// An empty replay buffer.
    pub fn new() -> (r: ReplayBuffer)
        ensures
            r.wf(),
            r.view_samples().len() == 0,
    {
        ReplayBuffer { samples: Vec::new() }
    }

    /// Appends one chunk of response audio, unless that would pass the
    /// bound, in which case the chunk is dropped whole.
    pub fn append_capped(&mut self, chunk: &Vec<i16>)
        requires
            old(self).wf(),
        ensures
            final(self).wf(),
            old(self).view_samples().len() + chunk@.len() <= REPLAY_BUFFER_MAX_SAMPLES ==> final(self).view_samples() == old(self).view_samples() + chunk@,
            old(self).view_samples().len() + chunk@.len() > REPLAY_BUFFER_MAX_SAMPLES ==> final(self).view_samples() == old(self).view_samples(),
    {
        if chunk.len() <= REPLAY_BUFFER_MAX_SAMPLES && self.samples.len()
            <= REPLAY_BUFFER_MAX_SAMPLES - chunk.len() {
            let mut copy = vstd::slice::slice_to_vec(chunk.as_slice());
            self.samples.append(&mut copy);
        }
    }

    /// Drops everything held for replay.
    pub fn clear(&mut self)
        ensures
            final(self).wf(),
            final(self).view_samples().len() == 0,
    {
        self.samples.clear();
    }

    /// Whether anything is held for replay.
    pub fn is_empty(&self) -> (r: bool)
        ensures
            r == (self.view_samples().len() == 0),
    {
        self.samples.len() == 0
    }

    /// The held audio cut into replay chunks, to push back through the
    /// playback channel.
    pub fn replay_chunks(&self) -> (r: Vec<Vec<i16>>)
        ensures
            r.deep_view() == crate::sentences::chunks_spec(self.view_samples(), 4000),
    {
        chunk_samples(&self.samples)
    }
}

// --- the receive side ---------------------------------------------------

/// The state the reader thread keeps while response audio arrives.
pub struct ClientRx {
    /// A response is playing.
    pub is_playing: bool,
    /// The user cancelled; skip the feedback of this response.
    pub cancel_requested: bool,
    /// The last response's audio, for replay.
    pub replay: ReplayBuffer,
}

impl ClientRx {
    /// The receive state at connection time.
    pub fn new() -> (r: ClientRx)
        ensures
            !r.is_playing,
            !r.cancel_requested,
            r.replay.wf(),
            r.replay.view_samples().len() == 0,
    {
        ClientRx { is_playing: false, cancel_requested: false, replay: ReplayBuffer::new() }
    }

    /// Takes one resampled audio chunk of the response: playback starts,
    /// a stale cancel from the previous exchange is cleared on the first
    /// chunk, and the chunk joins the replay buffer up to its bound.
    pub fn on_tts_chunk(&mut self, output: &Vec<i16>)
        requires
            old(self).replay.wf(),
        ensures
            final(self).replay.wf(),
            final(self).is_playing,
            final(self).cancel_requested == (old(self).is_playing && old(self).cancel_requested),
            old(self).replay.view_samples().len() + output@.len() <= REPLAY_BUFFER_MAX_SAMPLES
                ==> final(self).replay.view_samples() == old(self).replay.view_samples() + output@,
            old(self).replay.view_samples().len() + output@.len() > REPLAY_BUFFER_MAX_SAMPLES
                ==> final(self).replay.view_samples() == old(self).replay.view_samples(),
    {
        if !self.is_playing {
            self.cancel_requested = false;
        }
        self.is_playing = true;
        self.replay.append_capped(output);
    }

    /// Takes the flushed resampler tail at the end of a response; it
    /// joins the replay buffer up to the bound.
    pub fn on_tts_tail(&mut self, tail: &Vec<i16>)
        requires
            old(self).replay.wf(),
        ensures
            final(self).replay.wf(),
            final(self).is_playing == old(self).is_playing,
            final(self).cancel_requested == old(self).cancel_requested,
            old(self).replay.view_samples().len() + tail@.len() <= REPLAY_BUFFER_MAX_SAMPLES
                ==> final(self).replay.view_samples() == old(self).replay.view_samples() + tail@,
            old(self).replay.view_samples().len() + tail@.len() > REPLAY_BUFFER_MAX_SAMPLES
                ==> final(self).replay.view_samples() == old(self).replay.view_samples(),
    {
        self.replay.append_capped(tail);
    }

    /// Takes the end of a response: playback stops; a pending cancel is
    /// consumed and drops the replay audio, in which case the feedback
    /// of this response is skipped.
    pub fn on_tts_end(&mut self) -> (cancelled: bool)
        requires
            old(self).replay.wf(),
        ensures
            final(self).replay.wf(),
            !final(self).is_playing,
            !final(self).cancel_requested,
            cancelled == old(self).cancel_requested,
            cancelled ==> final(self).replay.view_samples().len() == 0,
            !cancelled ==> final(self).replay.view_samples() == old(self).replay.view_samples(),
    {
        self.is_playing = false;
        if self.cancel_requested {
            self.cancel_requested = false;
            self.replay.clear();
            true
        } else {
            false
        }
    }

    /// Takes a display line: a new response line (one starting with
    /// `AI:`) clears any stale cancel and the previous replay audio.
    pub fn on_text(&mut self, text: &str)
        requires
            old(self).replay.wf(),
        ensures
            final(self).replay.wf(),
            final(self).is_playing == old(self).is_playing,
            occurs_at(text@, "AI:"@, 0) ==> !final(self).cancel_requested && final(self).replay.view_samples().len() == 0,
            !occurs_at(text@, "AI:"@, 0) ==> final(self).cancel_requested == old(self).cancel_requested && final(self).replay.view_samples() == old(self).replay.view_samples(),
    {
        if matches_at(text, "AI:", 0) {
            self.cancel_requested = false;
            self.replay.clear();
        }
    }
}

// --- listening edges ----------------------------------------------------

/// The messages sent when listening turns off: the accumulated segment
/// (push-to-talk) or the final voice-activity flush, then a pause
/// request in the automatic mode; empty segments are not sent.
pub fn listening_off_msgs(mode: VoiceMode, accumulated: Vec<i16>, vad_flush: Option<Vec<i16>>)
    -> (msgs: Vec<ClientMsg>)
    ensures
        mode is Manual && accumulated@.len() > 0 ==> msgs.deep_view() == seq![
            ClientMsgV::AudioSegment(accumulated@),
        ],
        mode is Manual && accumulated@.len() == 0 ==> msgs@.len() == 0,
        mode is Auto ==> msgs.deep_view() == (match vad_flush {
            Some(f) => if f@.len() > 0 {
                seq![ClientMsgV::AudioSegment(f@)]
            } else {
                Seq::empty()
            },
            None => Seq::empty(),
        }) + seq![ClientMsgV::PauseRequest],
{
    let mut msgs: Vec<ClientMsg> = Vec::new();
    match mode {
        VoiceMode::Manual => {
            if accumulated.len() > 0 {
                msgs.push(ClientMsg::AudioSegment(accumulated));
            }
            proof {
                if accumulated@.len() > 0 {
                    assert(msgs.deep_view() =~= seq![ClientMsgV::AudioSegment(accumulated@)]);
                }
            }
        }
        VoiceMode::Auto => {
            match vad_flush {
                Some(f) => {
                    if f.len() > 0 {
                        msgs.push(ClientMsg::AudioSegment(f));
                    }
                }
                None => {}
            }
            msgs.push(ClientMsg::PauseRequest);
            proof {
                assert(msgs.deep_view() =~= (match vad_flush {
                    Some(f) => if f@.len() > 0 {
                        seq![ClientMsgV::AudioSegment(f@)]
                    } else {
                        Seq::<ClientMsgV>::empty()
                    },
                    None => Seq::<ClientMsgV>::empty(),
                }) + seq![ClientMsgV::PauseRequest]);
            }
        }
    }
    msgs
}

/// The messages sent when listening turns on, and whether playback must
/// be cleared: a playing response is interrupted (barge-in), and the
/// automatic mode resumes transcription.
pub fn listening_on_msgs(mode: VoiceMode, is_playing: bool) -> (r: (Vec<ClientMsg>, bool))
    ensures
        r.1 == is_playing,
        r.0.deep_view() == (if is_playing {
            seq![ClientMsgV::InterruptTts]
        } else {
            Seq::<ClientMsgV>::empty()
        }) + (if mode is Auto {
            seq![ClientMsgV::ResumeRequest]
        } else {
            Seq::<ClientMsgV>::empty()
        }),
{
    let mut msgs: Vec<ClientMsg> = Vec::new();
    if is_playing {
        msgs.push(ClientMsg::InterruptTts);
    }
    match mode {
        VoiceMode::Auto => {
            msgs.push(ClientMsg::ResumeRequest);
        }
        VoiceMode::Manual => {}
    }
    proof {
        assert(msgs.deep_view() =~= (if is_playing {
            seq![ClientMsgV::InterruptTts]
        } else {
            Seq::<ClientMsgV>::empty()
        }) + (if mode is Auto {
            seq![ClientMsgV::ResumeRequest]
        } else {
            Seq::<ClientMsgV>::empty()
        }));
    }
    (msgs, is_playing)
}

// --- timestamps ---------------------------------------------------------

/// The decimal digits of `n`, most significant first.
pub open spec fn dec_str(n: int) -> Seq<char>
    recommends
        n >= 0,
    decreases n,
{
    if n < 10 {
        seq![digit_char(n)]
    } else {
        dec_str(n / 10) + seq![digit_char(n % 10)]
    }
}

/// The character of one decimal digit.
pub open spec fn digit_char(d: int) -> char
    recommends
        0 <= d <= 9,
{
    ((48 + d) as u8) as char
}

/// `s` left-padded with zeros to at least `w` characters.
pub open spec fn zero_pad(s: Seq<char>, w: int) -> Seq<char>
    decreases w - s.len(),
{
    if s.len() >= w {
        s
    } else {
        zero_pad(seq!['0'] + s, w)
    }
}

/// One decimal digit as text.
fn digit_str(d: u32) -> (r: &'static str)
    requires
        d <= 9,
    ensures
        r@ == seq![digit_char(d as int)],
{
    proof {
        reveal_strlit("0");
        reveal_strlit("1");
        reveal_strlit("2");
        reveal_strlit("3");
        reveal_strlit("4");
        reveal_strlit("5");
        reveal_strlit("6");
        reveal_strlit("7");
        reveal_strlit("8");
        reveal_strlit("9");
    }
    let r = if d == 0 {
        "0"
    } else if d == 1 {
        "1"
    } else if d == 2 {
        "2"
    } else if d == 3 {
        "3"
    } else if d == 4 {
        "4"
    } else if d == 5 {
        "5"
    } else if d == 6 {
        "6"
    } else if d == 7 {
        "7"
    } else if d == 8 {
        "8"
    } else {
        "9"
    };
    proof {
        assert(r@ =~= seq![digit_char(d as int)]);
    }
    r
}

/// The decimal digits of `n` as text.
pub fn u32_dec(n: u32) -> (r: String)
    ensures
        r@ == dec_str(n as int),
    decreases n,
{
    if n < 10 {
        String::from_str(digit_str(n))
    } else {
        let mut s = u32_dec(n / 10);
        s.append(digit_str(n % 10));
        s
    }
}

/// The decimal digits of `n`, zero-padded to at least `w` characters.
pub fn u32_dec_pad(n: u32, w: usize) -> (r: String)
    requires
        w <= 8,
    ensures
        r@ == zero_pad(dec_str(n as int), w as int),
{
    proof {
        reveal_strlit("0");
    }
    let digits = u32_dec(n);
    let dl = digits.as_str().unicode_len();
    if dl >= w {
        return digits;
    }
    let mut r = String::new();
    let mut pad: usize = w - dl;
    proof {
        lemma_zero_pad(dec_str(n as int), w as int);
    }
    while pad > 0
        invariant
            pad + dl <= w,
            w <= 8,
            dl == dec_str(n as int).len(),
            digits@ == dec_str(n as int),
            dl < w,
            r@ =~= repeat_zero((w - dl - pad) as int),
        decreases pad,
    {
        proof {
            reveal_strlit("0");
            assert("0"@ =~= seq!['0']);
        }
        let ghost r_pre = r@;
        r.append("0");
        pad = pad - 1;
        proof {
            assert(r@ == r_pre + "0"@);
            assert(r@ =~= r_pre + seq!['0']);
            assert(r@ =~= repeat_zero((w - dl - pad) as int));
        }
    }
    r.append(digits.as_str());
    proof {
        assert(r@ =~= repeat_zero(w - dl) + dec_str(n as int));
    }
    r
}

/// `k` zeros.
pub open spec fn repeat_zero(k: int) -> Seq<char> {
    Seq::new(if k >= 0 {
        k as nat
    } else {
        0
    }, |i: int| '0')
}

/// Zero-padding prepends exactly the missing zeros.
proof fn lemma_zero_pad(s: Seq<char>, w: int)
    ensures
        s.len() >= w ==> zero_pad(s, w) == s,
        s.len() < w ==> zero_pad(s, w) == repeat_zero(w - s.len()) + s,
    decreases w - s.len(),
{
    if s.len() >= w {
    } else {
        lemma_zero_pad(seq!['0'] + s, w);
        if (seq!['0'] + s).len() >= w {
            assert(zero_pad(s, w) =~= repeat_zero(w - s.len()) + s);
        } else {
            assert(repeat_zero(w - (s.len() + 1)) + (seq!['0'] + s) =~= repeat_zero(w - s.len())
                + s);
        }
    }
}

/// The file-name timestamp of a saved session summary:
/// `YYYY-MM-DD_HH-MM`, each part zero-padded.
pub fn format_timestamp(year: u32, month: u32, day: u32, hour: u32, minute: u32) -> (r: String)
    ensures
        r@ == zero_pad(dec_str(year as int), 4) + "-"@ + zero_pad(dec_str(month as int), 2) + "-"@
            + zero_pad(dec_str(day as int), 2) + "_"@ + zero_pad(dec_str(hour as int), 2) + "-"@
            + zero_pad(dec_str(minute as int), 2),
{
    let mut r = u32_dec_pad(year, 4);
    r.append("-");
    r.append(u32_dec_pad(month, 2).as_str());
    r.append("-");
    r.append(u32_dec_pad(day, 2).as_str());
    r.append("_");
    r.append(u32_dec_pad(hour, 2).as_str());
    r.append("-");
    r.append(u32_dec_pad(minute, 2).as_str());
    r
}

} // verus!
