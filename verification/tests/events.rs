use omp_remote::events::{
    prompt_signal, render_agent_message, transcript_signal, AgentMessage, AssistantContent,
    AssistantMessageEvent, ServerMessage,
};
use omp_remote::model::{Transcript, TranscriptKind, TranscriptSignal};
use omp_remote::rpc::{MessageContent, NoticeLevel, RequestId};
use omp_remote::runtime::PromptSignal;
use omp_remote::state::EventSequence;

fn assistant(parts: &[&str]) -> AgentMessage {
    AgentMessage::Assistant {
        content: parts
            .iter()
            .map(|text| AssistantContent::Text { text: (*text).to_owned() })
            .collect(),
    }
}

#[test]
fn agent_messages_render_as_transcripts_show_them() {
    assert_eq!(render_agent_message(&assistant(&["one", "two"])), "one\ntwo");
    let mixed = AgentMessage::Assistant {
        content: vec![
            AssistantContent::Thinking { thinking: "hmm".to_owned() },
            AssistantContent::Other,
            AssistantContent::Text { text: "done".to_owned() },
        ],
    };
    assert_eq!(render_agent_message(&mixed), "hmm\ndone");
    let bash = AgentMessage::BashExecution { command: "ls".to_owned(), output: "a b".to_owned() };
    assert_eq!(render_agent_message(&bash), "$ ls\na b");
    let python = AgentMessage::PythonExecution { code: "1+1".to_owned(), output: "2".to_owned() };
    assert_eq!(render_agent_message(&python), "1+1\n2");
    let user = AgentMessage::User { content: MessageContent::Text("hello".to_owned()) };
    assert_eq!(render_agent_message(&user), "hello");
    assert_eq!(render_agent_message(&AgentMessage::Other), "");
}

#[test]
fn session_frames_become_transcript_entries_in_order() {
    let frames = vec![
        ServerMessage::MessageStart {
            message: AgentMessage::User { content: MessageContent::Text("hi".to_owned()) },
        },
        ServerMessage::MessageStart { message: assistant(&["ignored"]) },
        ServerMessage::MessageUpdate {
            event: AssistantMessageEvent::ThinkingDelta { delta: "think".to_owned() },
        },
        ServerMessage::MessageUpdate {
            event: AssistantMessageEvent::TextDelta { delta: "answer".to_owned() },
        },
        ServerMessage::MessageEnd { message: assistant(&["final"]) },
        ServerMessage::ToolExecutionStart {
            tool_name: "read".to_owned(),
            args: "{\"path\":\"a\"}".to_owned(),
            intent: Some("look".to_owned()),
        },
        ServerMessage::ToolExecutionEnd {
            tool_name: "read".to_owned(),
            result: "ok".to_owned(),
            is_error: Some(true),
        },
        ServerMessage::Notice { level: NoticeLevel::Warning, message: "careful".to_owned() },
        ServerMessage::CommandOutput { text: "out".to_owned() },
        ServerMessage::AgentStart,
    ];
    let mut transcript = Transcript::default();
    for (sequence, frame) in frames.iter().enumerate() {
        transcript.apply(EventSequence(sequence as u64), transcript_signal(frame));
    }
    let shown: Vec<(TranscriptKind, String)> =
        transcript.entries.iter().map(|entry| (entry.kind, entry.text.clone())).collect();
    assert_eq!(
        shown,
        vec![
            (TranscriptKind::User, "hi".to_owned()),
            (TranscriptKind::Thinking, "think".to_owned()),
            (TranscriptKind::Assistant, "answer".to_owned()),
            (TranscriptKind::Tool, "read — look\n{\"path\":\"a\"}".to_owned()),
            (TranscriptKind::Tool, "Tool failed: read\nok".to_owned()),
            (TranscriptKind::System, "Warning: careful".to_owned()),
            (TranscriptKind::System, "out".to_owned()),
        ]
    );
    assert_eq!(transcript_signal(&ServerMessage::AgentEnd), TranscriptSignal::Other);
}

#[test]
fn frames_tell_the_prompt_tracker_what_happened() {
    let id = RequestId::new("req-1".to_owned());
    assert_eq!(
        prompt_signal(&ServerMessage::PromptResult { id: Some(id.clone()), agent_invoked: false }),
        PromptSignal::PromptResult { id: Some(id.clone()), agent_invoked: false }
    );
    assert_eq!(prompt_signal(&ServerMessage::AgentEnd), PromptSignal::AgentEnd);
    assert_eq!(prompt_signal(&ServerMessage::CommandOutput { text: "x".to_owned() }), PromptSignal::Other);
}
