//! The two-stage chat exchange: a broad analysis, then a condensation of
//! that analysis in the same conversation. The exchange either yields the
//! condensed text or fails as a whole; it never hands out the analysis.
//!
//! The decisions are a state machine: `ChatChain::start` gives the first
//! request, and `ChatChain::step` takes the outcome of the request that was
//! sent and gives the next state and what to do next. Whoever drives it
//! performs the requests.

use vstd::prelude::*;

verus! {

/// The output budget of the analysis, in tokens.
pub const ANALYSIS_BUDGET: u32 = 512;

/// The output budget of the condensation, in tokens.
pub const CONDENSED_BUDGET: u32 = 256;

/// The two stages of an exchange.
#[derive(Clone, Copy, Debug, PartialEq, Eq, Structural)]
pub enum ChainStage {
    Analyze,
    Condense,
}

/// How an exchange ended: with the condensed text, or failed at a stage,
/// with the context that identifies the exchange.
pub enum ChainResult {
    Summary(String),
    Failed { stage: ChainStage, context: String },
}

/// One request to the language model.
pub struct ChatRequest {
    pub request_id: String,
    pub system_prompt: String,
    pub prompt: String,
    pub max_output_size: u32,
    /// Whether the request starts a fresh conversation; when not, it
    /// continues the one that the previous request was part of.
    pub restart: bool,
}

/// Where an exchange stands.
pub enum ChainState {
    AwaitingAnalysis,
    AwaitingCondensed,
    Finished(ChainResult),
}

/// The outcome of the request that was sent.
pub enum ChatEvent {
    Replied(String),
    Failed(String),
}

/// What to do next: send a request, or stop with a result.
pub enum ChainAction {
    Send(ChatRequest),
    Done(ChainResult),
}

/// The prompts, request identifiers and output budgets of one exchange.
pub struct ChatChain {
    pub system_prompt: String,
    pub first_prompt: String,
    pub first_request_id: String,
    pub first_budget: u32,
    pub second_prompt: String,
    pub second_request_id: String,
    pub second_budget: u32,
    /// Names the exchange in a failure.
    pub error_context: String,
}

/// The text that an exchange yields, if any.
pub open spec fn summary_of(r: ChainResult) -> Option<String> {
    match r {
        ChainResult::Summary(t) => Some(t),
        ChainResult::Failed { .. } => None,
    }
}

impl ChainResult {
    /// The condensed text, when the exchange succeeded.
    pub fn summary(&self) -> (r: Option<String>)
        ensures
            r == summary_of(*self),
    {
        match self {
            ChainResult::Summary(t) => Some(t.clone()),
            ChainResult::Failed { .. } => None,
        }
    }

    /// A copy of this result.
    pub fn duplicate(&self) -> (r: ChainResult)
        ensures
            r == *self,
    {
        match self {
            ChainResult::Summary(t) => ChainResult::Summary(t.clone()),
            ChainResult::Failed { stage, context } => ChainResult::Failed {
                stage: *stage,
                context: context.clone(),
            },
        }
    }
}

impl ChatChain {
    /// The analysis request: the system prompt and the first prompt, in a
    /// fresh conversation, under the first budget.
    pub open spec fn first_request(&self) -> ChatRequest {
        ChatRequest {
            request_id: self.first_request_id,
            system_prompt: self.system_prompt,
            prompt: self.first_prompt,
            max_output_size: self.first_budget,
            restart: true,
        }
    }

    /// The condensation request: the second prompt, in the conversation
    /// that holds the analysis, under the second budget.
    pub open spec fn second_request(&self) -> ChatRequest {
        ChatRequest {
            request_id: self.second_request_id,
            system_prompt: self.system_prompt,
            prompt: self.second_prompt,
            max_output_size: self.second_budget,
            restart: false,
        }
    }

    /// The failure at `stage`.
    pub open spec fn failure(&self, stage: ChainStage) -> ChainResult {
        ChainResult::Failed { stage, context: self.error_context }
    }

    /// The next state and action after `event` in `state`. A reply to the
    /// analysis leads to the condensation request; a reply to that ends the
    /// exchange with its text; a failure at either stage ends it failed; a
    /// finished exchange stays as it is.
    pub open spec fn next(&self, state: ChainState, event: ChatEvent) -> (ChainState, ChainAction) {
        match state {
            ChainState::AwaitingAnalysis => match event {
                ChatEvent::Replied(_) => (
                    ChainState::AwaitingCondensed,
                    ChainAction::Send(self.second_request()),
                ),
                ChatEvent::Failed(_) => (
                    ChainState::Finished(self.failure(ChainStage::Analyze)),
                    ChainAction::Done(self.failure(ChainStage::Analyze)),
                ),
            },
            ChainState::AwaitingCondensed => match event {
                ChatEvent::Replied(t) => (
                    ChainState::Finished(ChainResult::Summary(t)),
                    ChainAction::Done(ChainResult::Summary(t)),
                ),
                ChatEvent::Failed(_) => (
                    ChainState::Finished(self.failure(ChainStage::Condense)),
                    ChainAction::Done(self.failure(ChainStage::Condense)),
                ),
            },
            ChainState::Finished(r) => (ChainState::Finished(r), ChainAction::Done(r)),
        }
    }

    fn build_request(&self, stage: ChainStage) -> (r: ChatRequest)
        ensures
            stage == ChainStage::Analyze ==> r == self.first_request(),
            stage == ChainStage::Condense ==> r == self.second_request(),
    {
        match stage {
            ChainStage::Analyze => ChatRequest {
                request_id: self.first_request_id.clone(),
                system_prompt: self.system_prompt.clone(),
                prompt: self.first_prompt.clone(),
                max_output_size: self.first_budget,
                restart: true,
            },
            ChainStage::Condense => ChatRequest {
                request_id: self.second_request_id.clone(),
                system_prompt: self.system_prompt.clone(),
                prompt: self.second_prompt.clone(),
                max_output_size: self.second_budget,
                restart: false,
            },
        }
    }

    fn build_failure(&self, stage: ChainStage) -> (r: ChainResult)
        ensures
            r == self.failure(stage),
    {
        ChainResult::Failed { stage, context: self.error_context.clone() }
    }

    /// The state of a new exchange and its first request.
    pub fn start(&self) -> (r: (ChainState, ChatRequest))
        ensures
            r.0 == ChainState::AwaitingAnalysis,
            r.1 == self.first_request(),
    {
        (ChainState::AwaitingAnalysis, self.build_request(ChainStage::Analyze))
    }

    /// Takes the outcome of the request that was sent in `state` and gives
    /// the next state and action (see `next`).
    pub fn step(&self, state: ChainState, event: ChatEvent) -> (r: (ChainState, ChainAction))
        ensures
            r == self.next(state, event),
    {
        match state {
            ChainState::AwaitingAnalysis => match event {
                ChatEvent::Replied(_) => (
                    ChainState::AwaitingCondensed,
                    ChainAction::Send(self.build_request(ChainStage::Condense)),
                ),
                ChatEvent::Failed(_) => (
                    ChainState::Finished(self.build_failure(ChainStage::Analyze)),
                    ChainAction::Done(self.build_failure(ChainStage::Analyze)),
                ),
            },
            ChainState::AwaitingCondensed => match event {
                ChatEvent::Replied(t) => {
                    let copy = t.clone();
                    (
                        ChainState::Finished(ChainResult::Summary(t)),
                        ChainAction::Done(ChainResult::Summary(copy)),
                    )
                },
                ChatEvent::Failed(_) => (
                    ChainState::Finished(self.build_failure(ChainStage::Condense)),
                    ChainAction::Done(self.build_failure(ChainStage::Condense)),
                ),
            },
            ChainState::Finished(r) => {
                let copy = r.duplicate();
                (ChainState::Finished(r), ChainAction::Done(copy))
            },
        }
    }
}

/// All or nothing: when the analysis succeeds and the condensation fails,
/// the exchange ends failed at the condensation stage and yields no text
/// (in particular not the analysis), and stays so whatever follows.
pub proof fn lemma_all_or_nothing(
    chain: ChatChain,
    analysis: String,
    error: String,
    later: ChatEvent,
)
    ensures
        ({
            let (s1, a1) = chain.next(ChainState::AwaitingAnalysis, ChatEvent::Replied(analysis));
            let (s2, a2) = chain.next(s1, ChatEvent::Failed(error));
            let (s3, a3) = chain.next(s2, later);
            &&& a1 == ChainAction::Send(chain.second_request())
            &&& a2 == ChainAction::Done(chain.failure(ChainStage::Condense))
            &&& summary_of(chain.failure(ChainStage::Condense)) is None
            &&& s3 == s2
            &&& a3 == a2
        }),
{
}

/// A failed analysis ends the exchange at once: the condensation request is
/// never sent, and no text is yielded.
pub proof fn lemma_first_failure_stops(chain: ChatChain, error: String)
    ensures
        chain.next(ChainState::AwaitingAnalysis, ChatEvent::Failed(error)).1 == ChainAction::Done(
            chain.failure(ChainStage::Analyze),
        ),
        summary_of(chain.failure(ChainStage::Analyze)) is None,
{
}

/// Two replies yield exactly the second one.
pub proof fn lemma_success_yields_condensed(chain: ChatChain, analysis: String, condensed: String)
    ensures
        ({
            let (s1, _) = chain.next(ChainState::AwaitingAnalysis, ChatEvent::Replied(analysis));
            let (_, a2) = chain.next(s1, ChatEvent::Replied(condensed));
            a2 == ChainAction::Done(ChainResult::Summary(condensed))
        }),
{
}

} // verus!
