//! The server-side session router's decisions: what the speech-to-text
//! thread does with each client message, what the text-to-speech thread
//! does with each orchestrator message, and the exact wire messages one
//! response produces.

use vstd::prelude::*;
use vstd::string::*;
use crate::protocol::{ClientMsg, ClientMsgV, OrchestratorMsg, OrchestratorMsgV, ServerMsg,
    ServerMsgV};
use crate::sentences::{has_speed_marker, lemma_stream_spec_shape, parse_speed_marker,
    speed_rest, speed_value, split_sentences, split_sentences_spec, stream_sentences, stream_spec,
    SynthOutcome};

verus! {

// --- the speech-to-text thread ----------------------------------------

/// What the speech-to-text thread does with one client message.
#[derive(Debug)]
pub enum SttAction {
    /// The session is paused: the audio is dropped.
    DropAudio,
    /// Hand these samples to the transcriber.
    Transcribe(Vec<i16>),
    /// Set the shared pause flag.
    SetPaused(bool),
    /// Set the shared interrupt flag.
    SetInterrupted,
    /// Forward this message to the orchestrator.
    Forward(OrchestratorMsg),
}

/// Decides the speech-to-text thread's reaction to one client message.
///
/// Audio is transcribed unless the session is paused, in which case it is
/// dropped; pause, resume and interrupt set the shared flags; feedback
/// choices, summary requests and cancellations are forwarded to the
/// orchestrator unchanged.
pub fn stt_step(paused: bool, msg: ClientMsg) -> (a: SttAction)
    ensures
        msg@ matches ClientMsgV::AudioSegment(s) ==> (if paused {
            a is DropAudio
        } else {
            a matches SttAction::Transcribe(v) && v@ == s
        }),
        msg@ is PauseRequest ==> (a matches SttAction::SetPaused(p) && p == true),
        msg@ is ResumeRequest ==> (a matches SttAction::SetPaused(p) && p == false),
        msg@ is InterruptTts ==> a is SetInterrupted,
        msg@ matches ClientMsgV::FeedbackChoice(c) ==> (a matches SttAction::Forward(m) && m@
            == OrchestratorMsgV::FeedbackChoice(c)),
        msg@ is SummaryRequest ==> (a matches SttAction::Forward(m) && m@
            == OrchestratorMsgV::SummaryRequest),
        msg@ is CancelExchange ==> (a matches SttAction::Forward(m) && m@
            == OrchestratorMsgV::CancelExchange),
{
    match msg {
        ClientMsg::AudioSegment(samples) => {
            if paused {
                SttAction::DropAudio
            } else {
                SttAction::Transcribe(samples)
            }
        }
        ClientMsg::PauseRequest => SttAction::SetPaused(true),
        ClientMsg::ResumeRequest => SttAction::SetPaused(false),
        ClientMsg::InterruptTts => SttAction::SetInterrupted,
        ClientMsg::FeedbackChoice(c) => SttAction::Forward(OrchestratorMsg::FeedbackChoice(c)),
        ClientMsg::SummaryRequest => SttAction::Forward(OrchestratorMsg::SummaryRequest),
        ClientMsg::CancelExchange => SttAction::Forward(OrchestratorMsg::CancelExchange),
    }
}

/// The messages a finished transcription produces: a display line for the
/// client and the text for the orchestrator, or nothing at all when the
/// transcription came back empty.
pub fn stt_transcription_msgs(text: &str) -> (r: Option<(ServerMsg, OrchestratorMsg)>)
    ensures
        text@.len() == 0 ==> r is None,
        text@.len() > 0 ==> (r matches Some((sm, om)) && sm@ == ServerMsgV::Text("You: "@ + text@)
            && om@ == OrchestratorMsgV::TranscribedText(text@)),
{
    if text.unicode_len() == 0 {
        return None;
    }
    let mut display = String::from_str("You: ");
    display.append(text);
    let forwarded = String::from_str(text);
    Some((ServerMsg::Text(display), OrchestratorMsg::TranscribedText(forwarded)))
}

// --- the text-to-speech thread ----------------------------------------

/// What the text-to-speech thread does with one orchestrator message.
#[derive(Debug)]
pub enum TtsStep {
    /// A response to speak: run the sentence pipeline on it.
    Respond(String),
    /// Forward this message to the client.
    ToClient(ServerMsg),
    /// An unexpected message kind on this thread: log it and move on.
    Ignore,
    /// The session ends cleanly.
    Stop,
}

/// Decides the text-to-speech thread's reaction to one orchestrator
/// message.
///
/// Responses are spoken; feedback, status lines and summaries are
/// forwarded to the client under their client-facing tags; the session
/// end stops the thread; anything the speech-to-text thread should have
/// received is ignored.
pub fn tts_step(msg: OrchestratorMsg) -> (a: TtsStep)
    ensures
        msg@ matches OrchestratorMsgV::ResponseText(t) ==> (a matches TtsStep::Respond(s) && s@
            == t),
        msg@ matches OrchestratorMsgV::FeedbackText(t) ==> (a matches TtsStep::ToClient(m) && m@
            == ServerMsgV::Feedback(t)),
        msg@ matches OrchestratorMsgV::StatusNotification(t) ==> (a matches TtsStep::ToClient(m)
            && m@ == ServerMsgV::StatusNotification(t)),
        msg@ matches OrchestratorMsgV::SummaryResponse(t) ==> (a matches TtsStep::ToClient(m) && m@
            == ServerMsgV::SessionSummary(t)),
        msg@ is SessionEnd ==> a is Stop,
        msg@ matches OrchestratorMsgV::TranscribedText(t) ==> a is Ignore,
        msg@ matches OrchestratorMsgV::FeedbackChoice(c) ==> a is Ignore,
        msg@ is SummaryRequest ==> a is Ignore,
        msg@ matches OrchestratorMsgV::SessionStart(t) ==> a is Ignore,
        msg@ is CancelExchange ==> a is Ignore,
{
    match msg {
        OrchestratorMsg::ResponseText(t) => TtsStep::Respond(t),
        OrchestratorMsg::FeedbackText(t) => TtsStep::ToClient(ServerMsg::Feedback(t)),
        OrchestratorMsg::StatusNotification(t) => TtsStep::ToClient(
            ServerMsg::StatusNotification(t),
        ),
        OrchestratorMsg::SummaryResponse(t) => TtsStep::ToClient(ServerMsg::SessionSummary(t)),
        OrchestratorMsg::SessionEnd => TtsStep::Stop,
        OrchestratorMsg::TranscribedText(_) => TtsStep::Ignore,
        OrchestratorMsg::FeedbackChoice(_) => TtsStep::Ignore,
        OrchestratorMsg::SummaryRequest => TtsStep::Ignore,
        OrchestratorMsg::SessionStart(_) => TtsStep::Ignore,
        OrchestratorMsg::CancelExchange => TtsStep::Ignore,
    }
}

// --- the synthesis engine ----------------------------------------------

/// A speech synthesizer the router drives, implemented outside over a
/// text-to-speech model.
pub trait TtsEngine {
    /// Synthesizes one sentence into mono 16-bit samples at 16 kHz.
    fn synthesize(&mut self, text: &str) -> Result<Vec<i16>, SynthError>;

    /// Applies a speed marker's number text to the engine.
    fn set_speed_text(&mut self, speed: &str);
}

/// A synthesis failure; the response still ends with its terminator.
#[derive(Debug, Clone, Copy, PartialEq, Eq, Structural)]
pub struct SynthError;

// --- response planning --------------------------------------------------

/// The spoken part of a response: what is left once a well-formed speed
/// marker is stripped.
pub open spec fn clean_text(text: Seq<char>) -> Seq<char> {
    if has_speed_marker(text) {
        speed_rest(text)
    } else {
        text
    }
}

/// How the text-to-speech thread handles one response text.
pub struct ResponsePlan {
    /// The session is paused: send only the terminator, speak nothing.
    pub skip: bool,
    /// The number text of a leading speed marker, to apply to the engine.
    pub speed: Option<String>,
    /// The display line for the client's console.
    pub display: String,
    /// The sentences to synthesize, in order.
    pub sentences: Vec<String>,
}

/// Plans one response: paused sessions speak nothing; otherwise the speed
/// marker is parsed and stripped, the display line shows the remaining
/// text, and that text is split into sentences.
pub fn plan_response(paused: bool, text: &str) -> (r: ResponsePlan)
    ensures
        r.skip == paused,
        paused ==> r.speed is None && r.sentences@.len() == 0,
        !paused ==> ({
            &&& has_speed_marker(text@) ==> (r.speed matches Some(v) && v@ == speed_value(text@))
            &&& !has_speed_marker(text@) ==> r.speed is None
            &&& r.display@ == "AI: "@ + clean_text(text@)
            &&& r.sentences.deep_view() == split_sentences_spec(clean_text(text@))
        }),
{
    if paused {
        return ResponsePlan {
            skip: true,
            speed: None,
            display: String::new(),
            sentences: Vec::new(),
        };
    }
    let (speed_text, clean) = parse_speed_marker(text);
    let speed = match speed_text {
        Some(v) => Some(String::from_str(v)),
        None => None,
    };
    let mut display = String::from_str("AI: ");
    display.append(clean);
    let pieces = split_sentences(clean);
    let mut sentences: Vec<String> = Vec::new();
    let mut rest = pieces;
    while rest.len() > 0
        invariant
            sentences.deep_view() + rest.deep_view() == split_sentences_spec(clean_text(text@)),
        decreases rest@.len(),
    {
        let ghost pre = rest.deep_view();
        let piece = rest.remove(0);
        proof {
            assert(rest.deep_view() =~= pre.drop_first());
        }
        sentences.push(String::from_str(piece));
        proof {
            assert(sentences.deep_view() + rest.deep_view() =~= split_sentences_spec(
                clean_text(text@),
            ));
        }
    }
    proof {
        assert(sentences.deep_view() =~= split_sentences_spec(clean_text(text@)));
    }
    ResponsePlan { skip: false, speed, display, sentences }
}

/// The full message sequence one response puts on the wire, given the
/// synthesis outcomes of its sentences.
///
/// A paused session gets exactly the terminator and nothing else. An
/// unpaused one gets its display line, then — unless the interrupt flag
/// was already set, which suppresses all audio — each sentence's chunks
/// up to the first synthesis failure, and in every case exactly one
/// terminator at the end.
pub fn response_wire_msgs(paused: bool, interrupted: bool, text: &str, outcomes: Vec<
    SynthOutcome,
>) -> (msgs: Vec<ServerMsg>)
    ensures
        paused ==> msgs.deep_view() == seq![ServerMsgV::TtsEnd],
        !paused && interrupted ==> msgs.deep_view() == seq![
            ServerMsgV::Text("AI: "@ + clean_text(text@)),
            ServerMsgV::TtsEnd,
        ],
        !paused && !interrupted ==> msgs.deep_view() == seq![
            ServerMsgV::Text("AI: "@ + clean_text(text@)),
        ] + stream_spec(None, outcomes.deep_view()),
        msgs@.len() >= 1 && msgs@[msgs@.len() - 1] is TtsEnd,
        forall|j: int| 0 <= j < msgs@.len() - 1 ==> !(msgs@[j] is TtsEnd),
{
    let plan = plan_response(paused, text);
    let mut msgs: Vec<ServerMsg> = Vec::new();
    if plan.skip {
        msgs.push(ServerMsg::TtsEnd);
        proof {
            assert(msgs.deep_view() =~= seq![ServerMsgV::TtsEnd]);
        }
        return msgs;
    }
    msgs.push(ServerMsg::Text(plan.display));
    let mut audio = stream_sentences(outcomes, interrupted);
    let ghost audio_pre = audio.deep_view();
    let ghost msgs_pre = msgs.deep_view();
    let total0 = audio.len();
    let mut k: usize = 0;
    while audio.len() > 0
        invariant
            msgs.deep_view() == msgs_pre + audio_pre.take(k as int),
            audio.deep_view() == audio_pre.skip(k as int),
            k <= audio_pre.len(),
            k + audio@.len() == audio_pre.len(),
            audio_pre.len() == total0,
        decreases audio@.len(),
    {
        let ghost pre_a = audio.deep_view();
        let m = audio.remove(0);
        proof {
            assert(audio.deep_view() =~= pre_a.drop_first());
            assert(m.deep_view() == pre_a[0]);
            assert(pre_a[0] == audio_pre.skip(k as int)[0]);
            assert(audio_pre.skip(k as int)[0] == audio_pre[k as int]);
            assert(m.deep_view() == audio_pre[k as int]);
        }
        let ghost pre_m = msgs.deep_view();
        msgs.push(m);
        k = k + 1;
        proof {
            assert(audio.deep_view() =~= audio_pre.skip(k as int));
            assert(msgs.deep_view() =~= pre_m + seq![m.deep_view()]);
            assert(pre_m + seq![m.deep_view()] =~= msgs_pre + audio_pre.take(k as int));
        }
    }
    proof {
        assert(audio_pre.take(k as int) =~= audio_pre);
        if !interrupted {
            assert(msgs.deep_view() =~= seq![ServerMsgV::Text("AI: "@ + clean_text(text@))]
                + stream_spec(None, outcomes.deep_view()));
        } else {
            assert(msgs.deep_view() =~= seq![
                ServerMsgV::Text("AI: "@ + clean_text(text@)),
                ServerMsgV::TtsEnd,
            ]);
        }
        lemma_stream_spec_shape(None, outcomes.deep_view());
        let d = msgs.deep_view();
        assert(d[d.len() - 1] is TtsEnd);
        assert forall|j: int| 0 <= j < msgs@.len() implies msgs@[j]@ == d[j] by {}
        assert forall|j: int| 0 <= j < msgs@.len() - 1 implies !(msgs@[j] is TtsEnd) by {
            assert(!(d[j] is TtsEnd));
        }
        assert(msgs@[msgs@.len() - 1] is TtsEnd) by {
            assert(msgs@[msgs@.len() - 1]@ is TtsEnd);
        }
    }
    msgs
}

} // verus!
