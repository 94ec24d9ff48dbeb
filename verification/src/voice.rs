//! The orchestrator's dialog flow: parsing the optional feedback block
//! out of a model response, and the turn-by-turn state machine that
//! decides what to send for each transcription, model reply and
//! feedback choice.

use vstd::prelude::*;
use vstd::string::*;
use crate::protocol::{OrchestratorMsg, OrchestratorMsgV};
use crate::text::{find_from, find_str, lemma_find_from, matches_at, occurs_at, trim, trim_spec,
    trim_start, trim_start_spec};

verus! {

/// The directive prepended to every prompt so the model keeps to short
/// spoken sentences and may open with a feedback block.
pub const FORMAT_REMINDER: &'static str = "[CRITICAL: Your response is spoken aloud by TTS. Write ONLY plain conversational sentences. No markdown, no formatting, no lists, no URLs, no sources. 1-3 sentences max. If you notice grammar errors or unnatural phrasing in the user's message, prepend a [FEEDBACK]...[/FEEDBACK] block before your spoken response.]\n\n";

/// The prefix injected into the next prompt after the user chose to
/// rephrase at the feedback gate.
pub const RETRY_CONTEXT: &'static str = "[The user chose to rephrase their previous statement. Their new attempt follows:]\n\n";

/// The spoken apology sent when a model query fails.
pub const LLM_FAILURE_FALLBACK: &'static str = "I'm sorry, something went wrong. Please try again.";

// --- feedback block parsing ---------------------------------------------

/// Whether the response opens, after leading whitespace, with a complete
/// feedback block whose body is not empty.
pub open spec fn feedback_block(text: Seq<char>) -> Option<Seq<char>> {
    let t = trim_start_spec(text);
    if !occurs_at(t, "[FEEDBACK]"@, 0) {
        None
    } else {
        let after = t.skip("[FEEDBACK]"@.len() as int);
        match find_from(after, "[/FEEDBACK]"@, 0) {
            None => None,
            Some(e) => {
                let fb = trim_spec(after.take(e));
                if fb.len() == 0 {
                    None
                } else {
                    Some(fb)
                }
            },
        }
    }
}

/// The spoken part of a response: the text after a complete feedback
/// block — even an empty one — or the whole text when no complete block
/// opens it.
pub open spec fn feedback_spoken(text: Seq<char>) -> Seq<char> {
    let t = trim_start_spec(text);
    if !occurs_at(t, "[FEEDBACK]"@, 0) {
        text
    } else {
        let after = t.skip("[FEEDBACK]"@.len() as int);
        match find_from(after, "[/FEEDBACK]"@, 0) {
            None => text,
            Some(e) => trim_start_spec(after.skip(e + "[/FEEDBACK]"@.len())),
        }
    }
}

/// Splits a model response into an optional feedback block and the text
/// to speak.
///
/// A well-formed block at the start (after leading whitespace) yields its
/// trimmed body; a missing or unterminated block yields no feedback and
/// the full text; an empty block yields no feedback but is still
/// stripped from the spoken text.
pub fn parse_feedback(text: String) -> (r: (Option<String>, String))
    ensures
        match feedback_block(text@) {
            Some(fb) => r.0 matches Some(s) && s@ == fb,
            None => r.0 is None,
        },
        r.1@ == feedback_spoken(text@),
{
    proof {
        reveal_strlit("[FEEDBACK]");
        reveal_strlit("[/FEEDBACK]");
    }
    let trimmed = trim_start(text.as_str());
    if !matches_at(trimmed, "[FEEDBACK]", 0) {
        let spoken = String::from_str(text.as_str());
        return (None, spoken);
    }
    let tn = trimmed.unicode_len();
    let after = trimmed.substring_char(10, tn);
    proof {
        assert(after@ =~= trim_start_spec(text@).skip(10));
        lemma_find_from(after@, "[/FEEDBACK]"@, 0);
    }
    match find_str(after, "[/FEEDBACK]", 0) {
        None => {
            let spoken = String::from_str(text.as_str());
            (None, spoken)
        }
        Some(e) => {
            let an = after.unicode_len();
            let body = after.substring_char(0, e);
            proof {
                assert(body@ =~= after@.take(e as int));
            }
            let fb = trim(body);
            let tail = after.substring_char(e + 11, an);
            proof {
                assert(tail@ =~= after@.skip(e + 11));
            }
            let rest = String::from_str(trim_start(tail));
            if fb.unicode_len() == 0 {
                (None, rest)
            } else {
                (Some(String::from_str(fb)), rest)
            }
        }
    }
}

// --- the voice loop state machine ---------------------------------------

/// Where the voice loop stands in a turn.
#[derive(Debug, Clone, Copy, PartialEq, Eq, Structural)]
pub enum VoiceLoopState {
    /// Waiting for the server to deliver a transcription.
    WaitingForTranscription,
    /// A model query is in flight.
    QueryingLlm,
    /// The response or its feedback gate is with the server and client.
    WaitingForTts,
}

/// One model query: the assembled prompt and whether the session
/// continues an earlier turn.
pub struct LlmRequest {
    /// The prompt, with the format directive and any retry prefix.
    pub prompt: String,
    /// False on the first turn, true on every later one.
    pub continue_session: bool,
}

/// What the loop does with a model reply: ask the feedback gate first,
/// or speak at once.
#[derive(Debug)]
pub enum ReplyAction {
    /// Send this feedback to the client and await the user's choice.
    AskFeedback(OrchestratorMsg),
    /// Send this response to be spoken.
    Speak(OrchestratorMsg),
}

/// The prompt assembled for one transcription.
pub open spec fn prompt_spec(retry_pending: bool, text: Seq<char>) -> Seq<char> {
    FORMAT_REMINDER@ + (if retry_pending {
        RETRY_CONTEXT@
    } else {
        Seq::<char>::empty()
    }) + text
}

/// The orchestrator's turn-by-turn dialog state.
pub struct VoiceFlow {
    /// Completed transcription turns.
    pub turn_count: u32,
    /// Where the loop stands, for logging.
    pub state: VoiceLoopState,
    /// The next prompt carries the rephrase prefix.
    pub retry_pending: bool,
    /// The spoken text held back while the feedback gate is open.
    pub pending_spoken: Option<String>,
}

impl VoiceFlow {
    /// A fresh dialog: no turns yet, waiting for the first transcription.
    pub fn new() -> (r: VoiceFlow)
        ensures
            r.turn_count == 0,
            r.state is WaitingForTranscription,
            !r.retry_pending,
            r.pending_spoken is None,
    {
        VoiceFlow {
            turn_count: 0,
            state: VoiceLoopState::WaitingForTranscription,
            retry_pending: false,
            pending_spoken: None,
        }
    }

    /// Takes one transcription and produces the model query for it.
    ///
    /// The prompt is the format directive, then the rephrase prefix if
    /// the previous turn ended in a retry, then the transcription. The
    /// query continues the model session on every turn but the first.
    pub fn on_transcription(&mut self, text: &str) -> (r: LlmRequest)
        requires
            old(self).turn_count < u32::MAX,
        ensures
            r.continue_session == (old(self).turn_count > 0),
            r.prompt@ == prompt_spec(old(self).retry_pending, text@),
            final(self).turn_count == old(self).turn_count + 1,
            !final(self).retry_pending,
            final(self).state is QueryingLlm,
            final(self).pending_spoken == old(self).pending_spoken,
    {
        let continue_session = self.turn_count > 0;
        self.turn_count = self.turn_count + 1;
        self.state = VoiceLoopState::QueryingLlm;
        let mut prompt = String::from_str(FORMAT_REMINDER);
        if self.retry_pending {
            prompt.append(RETRY_CONTEXT);
        }
        prompt.append(text);
        self.retry_pending = false;
        proof {
            assert(prompt@ =~= prompt_spec(old(self).retry_pending, text@));
        }
        LlmRequest { prompt, continue_session }
    }

    /// Takes the model's reply and decides between the feedback
    /// prompt and speaking immediately.
    pub fn on_llm_response(&mut self, response: String) -> (r: ReplyAction)
        ensures
            match feedback_block(response@) {
                Some(fb) => {
                    &&& r matches ReplyAction::AskFeedback(m) && m@ == OrchestratorMsgV::FeedbackText(
                        fb,
                    )
                    &&& final(self).pending_spoken matches Some(sp) && sp@ == feedback_spoken(
                        response@,
                    )
                    &&& final(self).state is WaitingForTts
                },
                None => {
                    &&& r matches ReplyAction::Speak(m) && m@ == OrchestratorMsgV::ResponseText(
                        feedback_spoken(response@),
                    )
                    &&& final(self).pending_spoken is None
                    &&& final(self).state is WaitingForTranscription
                },
            },
            final(self).turn_count == old(self).turn_count,
            final(self).retry_pending == old(self).retry_pending,
    {
        let (fb, spoken) = parse_feedback(response);
        match fb {
            Some(fb_text) => {
                self.pending_spoken = Some(spoken);
                self.state = VoiceLoopState::WaitingForTts;
                ReplyAction::AskFeedback(OrchestratorMsg::FeedbackText(fb_text))
            }
            None => {
                self.pending_spoken = None;
                self.state = VoiceLoopState::WaitingForTranscription;
                ReplyAction::Speak(OrchestratorMsg::ResponseText(spoken))
            }
        }
    }

    /// Takes a model failure: the turn still ends in a spoken apology and
    /// the loop goes back to waiting, so an error never ends the session.
    pub fn on_llm_failure(&mut self) -> (m: OrchestratorMsg)
        ensures
            m@ == OrchestratorMsgV::ResponseText(LLM_FAILURE_FALLBACK@),
            final(self).state is WaitingForTranscription,
            final(self).turn_count == old(self).turn_count,
            final(self).retry_pending == old(self).retry_pending,
            final(self).pending_spoken == old(self).pending_spoken,
    {
        self.state = VoiceLoopState::WaitingForTranscription;
        OrchestratorMsg::ResponseText(String::from_str(LLM_FAILURE_FALLBACK))
    }

    /// Takes the user's choice at the feedback gate.
    ///
    /// Continue releases the held-back spoken text; retry drops it and
    /// marks the next prompt to carry the rephrase prefix.
    pub fn on_feedback_choice(&mut self, proceed: bool) -> (r: Option<OrchestratorMsg>)
        requires
            old(self).pending_spoken is Some,
        ensures
            proceed ==> (r matches Some(m) && old(self).pending_spoken matches Some(sp) && m@
                == OrchestratorMsgV::ResponseText(sp@) && !final(self).retry_pending),
            !proceed ==> r is None && final(self).retry_pending,
            final(self).pending_spoken is None,
            final(self).state is WaitingForTranscription,
            final(self).turn_count == old(self).turn_count,
    {
        let spoken = self.pending_spoken.take();
        self.state = VoiceLoopState::WaitingForTranscription;
        if proceed {
            self.retry_pending = false;
            match spoken {
                Some(sp) => Some(OrchestratorMsg::ResponseText(sp)),
                None => None,
            }
        } else {
            self.retry_pending = true;
            None
        }
    }

    /// Takes a cancellation at the feedback gate: the held-back text is
    /// dropped and the next prompt carries no rephrase prefix.
    pub fn on_cancel_at_gate(&mut self)
        ensures
            final(self).pending_spoken is None,
            !final(self).retry_pending,
            final(self).state is WaitingForTranscription,
            final(self).turn_count == old(self).turn_count,
    {
        self.pending_spoken = None;
        self.retry_pending = false;
        self.state = VoiceLoopState::WaitingForTranscription;
    }
}

} // verus!
