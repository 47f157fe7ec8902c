use activity_digest::chain::{
    ChainAction, ChainResult, ChainStage, ChainState, ChatChain, ChatEvent, ANALYSIS_BUDGET,
    CONDENSED_BUDGET,
};

fn chain() -> ChatChain {
    ChatChain {
        system_prompt: "sys".to_string(),
        first_prompt: "analyze".to_string(),
        first_request_id: "id-1".to_string(),
        first_budget: ANALYSIS_BUDGET,
        second_prompt: "condense".to_string(),
        second_request_id: "id-2".to_string(),
        second_budget: CONDENSED_BUDGET,
        error_context: "ctx".to_string(),
    }
}

#[test]
fn first_request_starts_fresh() {
    let c = chain();
    let (state, req) = c.start();
    assert!(matches!(state, ChainState::AwaitingAnalysis));
    assert_eq!(req.prompt, "analyze");
    assert_eq!(req.request_id, "id-1");
    assert_eq!(req.system_prompt, "sys");
    assert_eq!(req.max_output_size, 512);
    assert!(req.restart);
}

#[test]
fn two_replies_yield_the_second() {
    let c = chain();
    let (state, _) = c.start();
    let (state, action) = c.step(state, ChatEvent::Replied("long analysis".to_string()));
    match action {
        ChainAction::Send(req) => {
            assert_eq!(req.prompt, "condense");
            assert_eq!(req.request_id, "id-2");
            assert_eq!(req.max_output_size, 256);
            assert!(!req.restart);
        }
        ChainAction::Done(_) => panic!("expected the condensation request"),
    }
    let (state, action) = c.step(state, ChatEvent::Replied("short".to_string()));
    match action {
        ChainAction::Done(r) => assert_eq!(r.summary(), Some("short".to_string())),
        ChainAction::Send(_) => panic!("expected the end"),
    }
    assert!(matches!(state, ChainState::Finished(ChainResult::Summary(_))));
}

#[test]
fn second_stage_failure_yields_nothing() {
    let c = chain();
    let (state, _) = c.start();
    let (state, _) = c.step(state, ChatEvent::Replied("analysis".to_string()));
    let (state, action) = c.step(state, ChatEvent::Failed("timeout".to_string()));
    match action {
        ChainAction::Done(r) => {
            assert_eq!(r.summary(), None);
            match r {
                ChainResult::Failed { stage, context } => {
                    assert_eq!(stage, ChainStage::Condense);
                    assert_eq!(context, "ctx");
                }
                ChainResult::Summary(_) => panic!("no summary expected"),
            }
        }
        ChainAction::Send(_) => panic!("expected the end"),
    }
    let (_, again) = c.step(state, ChatEvent::Replied("late".to_string()));
    match again {
        ChainAction::Done(r) => assert_eq!(r.summary(), None),
        ChainAction::Send(_) => panic!("a finished exchange sends nothing"),
    }
}

#[test]
fn first_stage_failure_stops_at_once() {
    let c = chain();
    let (state, _) = c.start();
    let (_, action) = c.step(state, ChatEvent::Failed("boom".to_string()));
    match action {
        ChainAction::Done(ChainResult::Failed { stage, .. }) => {
            assert_eq!(stage, ChainStage::Analyze)
        }
        _ => panic!("expected a failure at the analysis"),
    }
}
