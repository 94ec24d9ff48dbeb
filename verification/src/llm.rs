//! Language-model backends: the trait the voice loop queries, the mock
//! backends used by tests, the command-line backend's configuration and
//! retry policy, and the status cue scanned from its diagnostic output.

use vstd::prelude::*;
use vstd::string::*;
use crate::text::{eq_ignore_ascii_case_char, matches_at_ignore_case};

verus! {

/// Why a model query failed.
#[derive(Debug, Clone, Copy, PartialEq, Eq, Structural)]
pub enum LlmError {
    /// The backend has no responses configured.
    NoResponses,
    /// The query itself failed.
    QueryFailed,
}

/// A language-model backend the voice loop can query.
///
/// `system_prompt_file` names the agent definition read on the first
/// turn; `continue_session` is false on the first turn and true on every
/// later one.
pub trait LlmBackend {
    /// Queries the model with one prompt and returns its reply.
    fn query(&mut self, prompt: &str, system_prompt_file: &str, continue_session: bool) -> Result<
        String,
        LlmError,
    >;
}

// --- mock backends ------------------------------------------------------

/// The answer counter after one more query, wrapping at the machine
/// limit.
pub open spec fn next_index(i: int) -> int {
    if i == usize::MAX as int {
        0
    } else {
        i + 1
    }
}

/// A backend returning predefined responses in order, cycling when they
/// run out.
pub struct MockLlmBackend {
    responses: Vec<String>,
    index: usize,
}

impl MockLlmBackend {
    /// The configured responses.
    pub closed spec fn responses_view(&self) -> Seq<Seq<char>> {
        self.responses.deep_view()
    }

    /// How many queries were answered so far.
    pub closed spec fn index_view(&self) -> int {
        self.index as int
    }

    /// A mock that cycles through `responses`.
    pub fn new(responses: Vec<String>) -> (r: MockLlmBackend)
        ensures
            r.responses_view() == responses.deep_view(),
            r.index_view() == 0,
    {
        MockLlmBackend { responses, index: 0 }
    }
}

impl LlmBackend for MockLlmBackend {
    /// Returns the next configured response, cycling, and fails only
    /// when none are configured.
    fn query(&mut self, prompt: &str, system_prompt_file: &str, continue_session: bool) -> (r:
        Result<String, LlmError>)
        ensures
            old(self).responses_view().len() == 0 ==> r == Err::<String, LlmError>(
                LlmError::NoResponses,
            ) && final(self).index_view() == old(self).index_view(),
            old(self).responses_view().len() > 0 ==> (r matches Ok(s)
                && s@ == old(self).responses_view()[
                    old(self).index_view() % (old(self).responses_view().len() as int)
                ]
                && final(self).index_view() == next_index(old(self).index_view())),
            final(self).responses_view() == old(self).responses_view(),
    {
        if self.responses.len() == 0 {
            return Err(LlmError::NoResponses);
        }
        let i = self.index % self.responses.len();
        let reply = String::from_str(self.responses[i].as_str());
        self.index = if self.index == usize::MAX {
            0
        } else {
            self.index + 1
        };
        Ok(reply)
    }
}

/// A backend that fails a configured number of times before answering,
/// for exercising retry and recovery paths.
pub struct FailingMockLlmBackend {
    fail_count: usize,
    responses: Vec<String>,
    call_index: usize,
}

impl FailingMockLlmBackend {
    /// The failures still owed.
    pub closed spec fn fail_count_view(&self) -> int {
        self.fail_count as int
    }

    /// The configured responses.
    pub closed spec fn responses_view(&self) -> Seq<Seq<char>> {
        self.responses.deep_view()
    }

    /// How many queries were answered so far.
    pub closed spec fn index_view(&self) -> int {
        self.call_index as int
    }

    /// A mock that fails `fail_count` times, then cycles through
    /// `responses`.
    pub fn new(fail_count: usize, responses: Vec<String>) -> (r: FailingMockLlmBackend)
        ensures
            r.fail_count_view() == fail_count,
            r.responses_view() == responses.deep_view(),
            r.index_view() == 0,
    {
        FailingMockLlmBackend { fail_count, responses, call_index: 0 }
    }
}

impl LlmBackend for FailingMockLlmBackend {
    /// Fails while failures are owed, then answers like the plain mock.
    fn query(&mut self, prompt: &str, system_prompt_file: &str, continue_session: bool) -> (r:
        Result<String, LlmError>)
        ensures
            old(self).fail_count_view() > 0 ==> r == Err::<String, LlmError>(LlmError::QueryFailed)
                && final(self).fail_count_view() == old(self).fail_count_view() - 1
                && final(self).index_view() == old(self).index_view(),
            old(self).fail_count_view() == 0 && old(self).responses_view().len() == 0 ==> r
                == Err::<String, LlmError>(LlmError::NoResponses),
            old(self).fail_count_view() == 0 && old(self).responses_view().len() > 0 ==> (r
                matches Ok(s)
                && s@ == old(self).responses_view()[
                    old(self).index_view() % (old(self).responses_view().len() as int)
                ]
                && final(self).index_view() == next_index(old(self).index_view())),
            final(self).responses_view() == old(self).responses_view(),
    {
        if self.fail_count > 0 {
            self.fail_count = self.fail_count - 1;
            return Err(LlmError::QueryFailed);
        }
        if self.responses.len() == 0 {
            return Err(LlmError::NoResponses);
        }
        let i = self.call_index % self.responses.len();
        let reply = String::from_str(self.responses[i].as_str());
        self.call_index = if self.call_index == usize::MAX {
            0
        } else {
            self.call_index + 1
        };
        Ok(reply)
    }
}

// --- the command-line backend's policy ----------------------------------

/// Query attempts before giving up on the external model process.
pub const MAX_RETRIES: u32 = 3;

/// Seconds slept between retry attempts.
pub const RETRY_DELAY_SECS: u64 = 5;

/// Seconds allowed for a single model invocation before it is killed.
pub const QUERY_TIMEOUT_SECS: u64 = 30;

/// The spoken fallback returned once every retry failed, so the user
/// still hears a reply instead of an error.
pub const ERROR_FALLBACK: &'static str = "I'm sorry, I'm having trouble connecting right now. Please try again in a moment.";

/// The tools the external model process may use. Web search keeps topic
/// discussions current.
pub const ALLOWED_TOOLS: &'static str = "WebSearch";

/// Configuration of the backend that drives an external model process:
/// each query runs in this working directory.
pub struct CliBackendConfig {
    /// The per-session working directory of the model process.
    pub session_dir: String,
}

impl CliBackendConfig {
    /// A configuration rooted at `session_dir`.
    pub fn new(session_dir: String) -> (r: CliBackendConfig)
        ensures
            r.session_dir == session_dir,
    {
        CliBackendConfig { session_dir }
    }
}

/// Whether another attempt is still allowed after `attempt` queries
/// have failed.
pub fn should_retry(attempt: u32) -> (r: bool)
    ensures
        r == (attempt < MAX_RETRIES),
{
    attempt < MAX_RETRIES
}

/// The reply used when every attempt failed: the retry policy returns
/// this fallback as a successful reply rather than an error.
pub fn retry_exhausted_reply() -> (r: String)
    ensures
        r@ == ERROR_FALLBACK@,
{
    String::from_str(ERROR_FALLBACK)
}

/// Whether `n` occurs in `h` at position `i`, compared without regard
/// to ASCII case.
pub open spec fn ci_occurs_at(h: Seq<char>, n: Seq<char>, i: int) -> bool {
    0 <= i && i + n.len() <= h.len() && (forall|j: int|
        0 <= j < n.len() ==> eq_ignore_ascii_case_char(h[i + j], n[j]))
}

/// Whether `n` occurs in `h`, compared without regard to ASCII case.
pub open spec fn contains_ignore_case(h: Seq<char>, n: Seq<char>) -> bool {
    exists|i: int| ci_occurs_at(h, n, i)
}

/// Finds `n` in `h` without regard to ASCII case.
fn contains_str_ignore_case(h: &str, n: &str) -> (r: bool)
    ensures
        r == contains_ignore_case(h@, n@),
{
    let hl = h.unicode_len();
    let mut i: usize = 0;
    while i < hl
        invariant
            i <= hl,
            hl == h@.len(),
            forall|p: int| 0 <= p < i ==> !ci_occurs_at(h@, n@, p),
        decreases hl - i,
    {
        if matches_at_ignore_case(h, n, i) {
            proof {
                assert(ci_occurs_at(h@, n@, i as int));
            }
            return true;
        }
        i = i + 1;
    }
    if matches_at_ignore_case(h, n, hl) {
        proof {
            assert(ci_occurs_at(h@, n@, hl as int));
        }
        return true;
    }
    proof {
        assert forall|p: int| true implies !ci_occurs_at(h@, n@, p) by {
            if 0 <= p < i {
            } else if p >= i {
                if ci_occurs_at(h@, n@, p) {
                    assert(p + n@.len() <= h@.len());
                }
            }
        }
    }
    false
}

/// Whether one line of the model process's diagnostic output signals a
/// web search in progress: it mentions both "web" and "search",
/// regardless of case.
pub fn is_web_search_line(line: &str) -> (r: bool)
    ensures
        r == (contains_ignore_case(line@, "web"@) && contains_ignore_case(line@, "search"@)),
{
    contains_str_ignore_case(line, "web") && contains_str_ignore_case(line, "search")
}

/// The status line shown to the user while the model searches the web.
pub fn web_search_status() -> (r: String)
    ensures
        r@ == "Searching the web..."@,
{
    String::from_str("Searching the web...")
}

} // verus!
