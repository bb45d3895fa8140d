use omp_remote::ids::AgentId;
use omp_remote::model::{render_message_content, AppModel, TranscriptKind, TranscriptSignal, Transcript};
use omp_remote::rpc::{ImageContent, MessageContent, TextContent, UserContentBlock};
use omp_remote::protocol::EventEnvelope;
use omp_remote::reducer::ReplicatedState;
use omp_remote::client::ClientEvent;
use omp_remote::state::{AgentSnapshot, EventSequence};

fn event(agent_id: &AgentId, sequence: u64, signal: TranscriptSignal) -> ClientEvent<TranscriptSignal> {
    ClientEvent::AgentEvent(EventEnvelope {
        agent_id: agent_id.clone(),
        event_sequence: EventSequence(sequence),
        event: signal,
    })
}

#[test]
fn transcript_renders_tool_events_in_sequence_order() {
    let agent_id = AgentId::new("agent-1".to_owned()).unwrap();
    let mut model = AppModel::default();
    let state = ReplicatedState::default();
    model.apply_client_event(
        event(
            &agent_id,
            1,
            TranscriptSignal::ToolStarted {
                tool_name: "read".to_owned(),
                arguments: "{\"path\":\"PLAN.md\"}".to_owned(),
                intent: Some("Read plan".to_owned()),
            },
        ),
        &state,
    );
    model.apply_client_event(
        event(
            &agent_id,
            2,
            TranscriptSignal::ToolFinished {
                tool_name: "read".to_owned(),
                result: "\"done\"".to_owned(),
                failed: false,
            },
        ),
        &state,
    );

    let transcript = &model
        .transcripts
        .iter()
        .find(|(id, _)| *id == agent_id)
        .unwrap()
        .1;
    assert_eq!(transcript.entries[0].sequence, EventSequence(1));
    assert_eq!(transcript.entries[1].sequence, EventSequence(2));
    assert_eq!(transcript.entries.len(), 2);
    assert!(transcript.entries[0].text.contains("read"));
    assert!(transcript.entries[1].text.contains("done"));
    assert_eq!(
        transcript.entries[0].text,
        "read — Read plan\n{\"path\":\"PLAN.md\"}"
    );
    assert_eq!(transcript.entries[1].text, "Tool finished: read\n\"done\"");
}

#[test]
fn replacing_agents_selects_the_first_authoritative_agent() {
    let first = AgentSnapshot::initial(AgentId::new("first".to_owned()).unwrap());
    let second = AgentSnapshot::initial(AgentId::new("second".to_owned()).unwrap());
    let mut model = AppModel::default();

    model.replace_agents(vec![first.clone(), second]);

    assert_eq!(model.selected_agent.as_ref(), Some(&first.agent_id));
    assert_eq!(model.agents.len(), 2);
}

#[test]
fn transcripts_keep_the_most_recent_entries() {
    let mut transcript = Transcript::default();
    for sequence in 0..1_005u64 {
        transcript.apply(
            EventSequence(sequence),
            TranscriptSignal::CommandOutput { text: format!("line {sequence}") },
        );
    }
    assert_eq!(transcript.entries.len(), 1_000);
    assert_eq!(transcript.entries[0].sequence, EventSequence(5));
    assert_eq!(transcript.entries[999].text, "line 1004");
    assert_eq!(transcript.entries[999].kind, TranscriptKind::System);
}

#[test]
fn streamed_text_is_bounded_and_flushed_on_message_end() {
    let mut transcript = Transcript::default();
    transcript.apply(
        EventSequence(1),
        TranscriptSignal::ThinkingDelta { delta: "pondering".to_owned() },
    );
    let big = "é".repeat(600 * 1_024);
    transcript.apply(
        EventSequence(2),
        TranscriptSignal::AssistantTextDelta { delta: big },
    );
    assert!(transcript.partial_assistant.len() <= 1_024 * 1_024);
    assert_eq!(transcript.partial_assistant.len(), 1_024 * 1_024);
    transcript.apply(
        EventSequence(3),
        TranscriptSignal::AssistantTextDelta { delta: "more".to_owned() },
    );
    assert_eq!(transcript.partial_assistant.len(), 1_024 * 1_024);
    transcript.apply(
        EventSequence(4),
        TranscriptSignal::AssistantMessageEnd { text: "ignored".to_owned() },
    );
    assert_eq!(transcript.entries.len(), 2);
    assert_eq!(transcript.entries[0].kind, TranscriptKind::Thinking);
    assert_eq!(transcript.entries[0].text, "pondering");
    assert_eq!(transcript.entries[1].kind, TranscriptKind::Assistant);
    assert!(transcript.partial_assistant.is_empty());
    assert!(transcript.partial_thinking.is_empty());
}

#[test]
fn resync_events_report_an_error() {
    let mut model = AppModel::default();
    let state = ReplicatedState::default();
    model.apply_client_event(
        ClientEvent::ResyncRequired(AgentId::new("agent-9".to_owned()).unwrap()),
        &state,
    );
    assert_eq!(
        model.error.as_deref(),
        Some("agent-9 requires a fresh state snapshot")
    );
}

#[test]
fn message_content_renders_text_blocks_joined_by_newlines() {
    let text = |value: &str| {
        UserContentBlock::Text(TextContent { text: value.to_owned(), text_signature: None })
    };
    let image = UserContentBlock::Image(ImageContent {
        data: "AAAA".to_owned(),
        mime_type: "image/png".to_owned(),
        detail: None,
    });
    assert_eq!(render_message_content(&MessageContent::Text("plain".to_owned())), "plain");
    assert_eq!(
        render_message_content(&MessageContent::Blocks(vec![text("one"), image, text("two")])),
        "one\ntwo"
    );
    assert_eq!(render_message_content(&MessageContent::Blocks(Vec::new())), "");
}

#[test]
fn agents_are_listed_in_identifier_order() {
    let names = ["delta", "alpha", "charlie", "bravo", "alpha"];
    let mut model = AppModel::default();
    model.replace_agents(
        names
            .iter()
            .map(|name| AgentSnapshot::initial(AgentId::new((*name).to_owned()).unwrap()))
            .collect(),
    );
    let listed: Vec<&str> = model.agents.iter().map(|agent| agent.agent_id.as_str()).collect();
    assert_eq!(listed, vec!["alpha", "bravo", "charlie", "delta"]);
    assert_eq!(model.selected_agent.as_ref().map(|id| id.as_str()), Some("delta"));
}
