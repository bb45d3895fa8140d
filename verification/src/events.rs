use vstd::prelude::*;

use crate::model::{
    adds_newest, apply_signal, entry, join_lines, lemma_transcript_frames, message_content_text,
    render_message_content, tool_end_text, TranscriptKind, TranscriptSignal, TranscriptSignalView,
    TranscriptView, MAX_TRANSCRIPT_ENTRIES,
};
use crate::rpc::{MessageContent, NoticeLevel, RequestId};
use crate::runtime::{opt_request_id, PromptSignal, PromptSignalView};
use crate::text::opt_text;

verus! {

/// One block of an assistant message, as far as a transcript shows it.
#[derive(Clone, Debug, PartialEq, Eq)]
pub enum AssistantContent {
    Text { text: String },
    Thinking { thinking: String },
    /// A block a transcript does not show: a tool call, an image, a redacted
    /// or provider-specific block.
    Other,
}

/// A message of an agent's conversation, holding what a transcript shows of it.
#[derive(Clone, Debug, PartialEq, Eq)]
pub enum AgentMessage {
    User { content: MessageContent },
    Developer { content: MessageContent },
    Assistant { content: Vec<AssistantContent> },
    BashExecution { command: String, output: String },
    PythonExecution { code: String, output: String },
    /// A message a transcript renders as no text.
    Other,
}

/// A step of a streamed assistant message, as far as a transcript follows it.
#[derive(Clone, Debug, PartialEq, Eq)]
pub enum AssistantMessageEvent {
    TextDelta { delta: String },
    ThinkingDelta { delta: String },
    Other,
}

/// A frame from an agent process, holding what its transcript and the
/// tracking of its prompts read: session events, responses and side-channel
/// frames. Tool arguments and results, JSON values on the wire, are held as
/// their JSON text.
#[derive(Clone, Debug, PartialEq, Eq)]
pub enum ServerMessage {
    MessageStart { message: AgentMessage },
    MessageUpdate { event: AssistantMessageEvent },
    MessageEnd { message: AgentMessage },
    ToolExecutionStart { tool_name: String, args: String, intent: Option<String> },
    ToolExecutionEnd { tool_name: String, result: String, is_error: Option<bool> },
    Notice { level: NoticeLevel, message: String },
    CommandOutput { text: String },
    AgentStart,
    AgentEnd,
    /// An error response to the request `id`.
    ResponseError { id: Option<RequestId>, error: String },
    /// A success response to the request `id`; for an acknowledged prompt,
    /// whether the agent was invoked.
    ResponseSuccess { id: Option<RequestId>, prompt_acknowledged: Option<bool> },
    /// The late hint of how the prompt `id` was handled.
    PromptResult { id: Option<RequestId>, agent_invoked: bool },
    /// Any other frame.
    Other,
}

/// The texts of the text and thinking blocks of an assistant message, in order.
pub open spec fn assistant_texts(content: Seq<AssistantContent>) -> Seq<Seq<char>>
    decreases content.len(),
{
    if content.len() == 0 {
        Seq::empty()
    } else {
        let rest = assistant_texts(content.drop_last());
        match content.last() {
            AssistantContent::Text { text } => rest.push(text@),
            AssistantContent::Thinking { thinking } => rest.push(thinking@),
            AssistantContent::Other => rest,
        }
    }
}

/// The text a transcript shows for a message: a user or developer message's
/// content, an assistant message's text and thinking blocks joined by
/// newlines, a shell command after `$ ` with its output on the next line, a
/// Python snippet with its output on the next line, and nothing otherwise.
pub open spec fn rendered_agent_message(message: AgentMessage) -> Seq<char> {
    match message {
        AgentMessage::User { content } => message_content_text(content),
        AgentMessage::Developer { content } => message_content_text(content),
        AgentMessage::Assistant { content } => join_lines(assistant_texts(content@)),
        AgentMessage::BashExecution { command, output } => "$ "@ + command@ + "\n"@ + output@,
        AgentMessage::PythonExecution { code, output } => code@ + "\n"@ + output@,
        AgentMessage::Other => Seq::empty(),
    }
}

/// Renders a message as a transcript shows it.
pub fn render_agent_message(message: &AgentMessage) -> (r: String)
    ensures
        r@ == rendered_agent_message(*message),
{
    match message {
        AgentMessage::User { content } => render_message_content(content),
        AgentMessage::Developer { content } => render_message_content(content),
        AgentMessage::Assistant { content } => {
            let mut out = String::new();
            let mut any = false;
            let mut i: usize = 0;
            proof {
                assert(content@.take(0) =~= Seq::<AssistantContent>::empty());
            }
            while i < content.len()
                invariant
                    i <= content.len(),
                    out@ == join_lines(assistant_texts(content@.take(i as int))),
                    any == (assistant_texts(content@.take(i as int)).len() > 0),
                decreases content.len() - i,
            {
                proof {
                    assert(content@.take(i + 1).drop_last() =~= content@.take(i as int));
                    assert(content@.take(i + 1).last() == content@[i as int]);
                    reveal_strlit("\n");
                }
                let ghost parts = assistant_texts(content@.take(i as int));
                let piece: Option<&str> = match &content[i] {
                    AssistantContent::Text { text } => Some(text.as_str()),
                    AssistantContent::Thinking { thinking } => Some(thinking.as_str()),
                    AssistantContent::Other => None,
                };
                match piece {
                    Some(piece) => {
                        if any {
                            out.append("\n");
                            proof {
                                assert(parts.push(piece@).drop_last() =~= parts);
                            }
                        } else {
                            proof {
                                assert(out@ =~= Seq::<char>::empty());
                            }
                        }
                        out.append(piece);
                        any = true;
                    },
                    None => {},
                }
                i = i + 1;
            }
            proof {
                assert(content@.take(content.len() as int) =~= content@);
            }
            out
        },
        AgentMessage::BashExecution { command, output } => {
            let mut out = String::from_str("$ ");
            out.append(command.as_str());
            out.append("\n");
            out.append(output.as_str());
            proof {
                reveal_strlit("$ ");
                reveal_strlit("\n");
            }
            out
        },
        AgentMessage::PythonExecution { code, output } => {
            let mut out = code.clone();
            out.append("\n");
            out.append(output.as_str());
            proof {
                reveal_strlit("\n");
            }
            out
        },
        AgentMessage::Other => String::new(),
    }
}

/// What a frame means for its agent's transcript: a user message that
/// starts, streamed assistant text and thinking, an assistant message that
/// ends, a tool that starts or finishes (failed only when it says so), a
/// notice and command output; nothing else shows.
pub open spec fn transcript_signal_of(message: ServerMessage) -> TranscriptSignalView {
    match message {
        ServerMessage::MessageStart { message } => match message {
            AgentMessage::User { .. } => TranscriptSignalView::UserMessage {
                text: rendered_agent_message(message),
            },
            _ => TranscriptSignalView::Other,
        },
        ServerMessage::MessageUpdate { event } => match event {
            AssistantMessageEvent::TextDelta { delta } => TranscriptSignalView::AssistantTextDelta {
                delta: delta@,
            },
            AssistantMessageEvent::ThinkingDelta { delta } => TranscriptSignalView::ThinkingDelta {
                delta: delta@,
            },
            AssistantMessageEvent::Other => TranscriptSignalView::Other,
        },
        ServerMessage::MessageEnd { message } => match message {
            AgentMessage::Assistant { .. } => TranscriptSignalView::AssistantMessageEnd {
                text: rendered_agent_message(message),
            },
            _ => TranscriptSignalView::Other,
        },
        ServerMessage::ToolExecutionStart { tool_name, args, intent } =>
            TranscriptSignalView::ToolStarted {
            tool_name: tool_name@,
            arguments: args@,
            intent: opt_text(intent),
        },
        ServerMessage::ToolExecutionEnd { tool_name, result, is_error } =>
            TranscriptSignalView::ToolFinished {
            tool_name: tool_name@,
            result: result@,
            failed: is_error == Some(true),
        },
        ServerMessage::Notice { level, message } => TranscriptSignalView::Notice {
            level,
            message: message@,
        },
        ServerMessage::CommandOutput { text } => TranscriptSignalView::CommandOutput { text: text@ },
        _ => TranscriptSignalView::Other,
    }
}

/// Classifies a frame for its agent's transcript.
pub fn transcript_signal(message: &ServerMessage) -> (r: TranscriptSignal)
    ensures
        r@ == transcript_signal_of(*message),
{
    match message {
        ServerMessage::MessageStart { message } => match message {
            AgentMessage::User { .. } => TranscriptSignal::UserMessage {
                text: render_agent_message(message),
            },
            _ => TranscriptSignal::Other,
        },
        ServerMessage::MessageUpdate { event } => match event {
            AssistantMessageEvent::TextDelta { delta } => TranscriptSignal::AssistantTextDelta {
                delta: delta.clone(),
            },
            AssistantMessageEvent::ThinkingDelta { delta } => TranscriptSignal::ThinkingDelta {
                delta: delta.clone(),
            },
            AssistantMessageEvent::Other => TranscriptSignal::Other,
        },
        ServerMessage::MessageEnd { message } => match message {
            AgentMessage::Assistant { .. } => TranscriptSignal::AssistantMessageEnd {
                text: render_agent_message(message),
            },
            _ => TranscriptSignal::Other,
        },
        ServerMessage::ToolExecutionStart { tool_name, args, intent } => {
            let intent = match intent {
                Some(value) => Some(value.clone()),
                None => None,
            };
            TranscriptSignal::ToolStarted {
                tool_name: tool_name.clone(),
                arguments: args.clone(),
                intent,
            }
        },
        ServerMessage::ToolExecutionEnd { tool_name, result, is_error } => {
            let failed = match is_error {
                Some(flag) => *flag,
                None => false,
            };
            TranscriptSignal::ToolFinished {
                tool_name: tool_name.clone(),
                result: result.clone(),
                failed,
            }
        },
        ServerMessage::Notice { level, message } => TranscriptSignal::Notice {
            level: *level,
            message: message.clone(),
        },
        ServerMessage::CommandOutput { text } => TranscriptSignal::CommandOutput {
            text: text.clone(),
        },
        _ => TranscriptSignal::Other,
    }
}

/// What a frame says about the latest prompt: responses and the late prompt
/// result with the request they answer, the agent starting and ending.
pub open spec fn prompt_signal_of(message: ServerMessage) -> PromptSignalView {
    match message {
        ServerMessage::ResponseError { id, error } => PromptSignalView::ResponseError {
            id: opt_request_id(id),
            error: error@,
        },
        ServerMessage::ResponseSuccess { id, prompt_acknowledged } =>
            PromptSignalView::ResponseSuccess { id: opt_request_id(id), prompt_acknowledged },
        ServerMessage::PromptResult { id, agent_invoked } => PromptSignalView::PromptResult {
            id: opt_request_id(id),
            agent_invoked,
        },
        ServerMessage::AgentStart => PromptSignalView::AgentStart,
        ServerMessage::AgentEnd => PromptSignalView::AgentEnd,
        _ => PromptSignalView::Other,
    }
}

/// Classifies a frame for the tracking of the latest prompt.
pub fn prompt_signal(message: &ServerMessage) -> (r: PromptSignal)
    ensures
        r@ == prompt_signal_of(*message),
{
    match message {
        ServerMessage::ResponseError { id, error } => PromptSignal::ResponseError {
            id: match id {
                Some(id) => Some(id.clone()),
                None => None,
            },
            error: error.clone(),
        },
        ServerMessage::ResponseSuccess { id, prompt_acknowledged } => PromptSignal::ResponseSuccess {
            id: match id {
                Some(id) => Some(id.clone()),
                None => None,
            },
            prompt_acknowledged: *prompt_acknowledged,
        },
        ServerMessage::PromptResult { id, agent_invoked } => PromptSignal::PromptResult {
            id: match id {
                Some(id) => Some(id.clone()),
                None => None,
            },
            agent_invoked: *agent_invoked,
        },
        ServerMessage::AgentStart => PromptSignal::AgentStart,
        ServerMessage::AgentEnd => PromptSignal::AgentEnd,
        _ => PromptSignal::Other,
    }
}

/// What each frame does to its agent's transcript: a user message that
/// starts adds its rendered text as the newest user entry, and no other
/// message start shows; an assistant message that ends, with nothing
/// streamed before, adds its own rendered text as the newest assistant entry
/// (when it has any), and no other message end shows; a finished tool is
/// shown as failed exactly when it says so; agent starts and ends, responses,
/// prompt results and other frames leave the transcript as it is.
pub proof fn lemma_frames_in_transcripts(t: TranscriptView, sequence: u64, message: ServerMessage)
    requires
        t.entries.len() <= MAX_TRANSCRIPT_ENTRIES,
    ensures
        message matches ServerMessage::MessageStart { message: m } ==> (m is User ==> adds_newest(
            t.entries,
            apply_signal(t, sequence, transcript_signal_of(message)).entries,
            entry(sequence, TranscriptKind::User, rendered_agent_message(m)),
        )) && (!(m is User) ==> apply_signal(t, sequence, transcript_signal_of(message)) == t),
        message matches ServerMessage::MessageEnd { message: m } ==> (!(m is Assistant)
            ==> apply_signal(t, sequence, transcript_signal_of(message)) == t) && (m is Assistant
            && t.partial_assistant.len() == 0 && t.partial_thinking.len() == 0
            && rendered_agent_message(m).len() > 0 ==> adds_newest(
            t.entries,
            apply_signal(t, sequence, transcript_signal_of(message)).entries,
            entry(sequence, TranscriptKind::Assistant, rendered_agent_message(m)),
        )),
        message matches ServerMessage::ToolExecutionEnd { tool_name, result, is_error }
            ==> adds_newest(
            t.entries,
            apply_signal(t, sequence, transcript_signal_of(message)).entries,
            entry(
                sequence,
                TranscriptKind::Tool,
                tool_end_text(tool_name@, result@, is_error == Some(true)),
            ),
        ),
        (message is AgentStart || message is AgentEnd || message is ResponseError
            || message is ResponseSuccess || message is PromptResult || message is Other)
            ==> apply_signal(t, sequence, transcript_signal_of(message)) == t,
{
    lemma_transcript_frames(t, sequence, transcript_signal_of(message));
}

/// An assistant message made of one text block shows exactly that text, and
/// one made of two text blocks shows them on consecutive lines.
pub proof fn lemma_text_replies_render_as_written(content: Vec<AssistantContent>)
    ensures
        content@.len() == 1 ==> (content@[0] matches AssistantContent::Text { text }
            ==> rendered_agent_message(AgentMessage::Assistant { content }) == text@),
        content@.len() == 2 ==> (content@[0] matches AssistantContent::Text { text: first }
            ==> (content@[1] matches AssistantContent::Text { text: second }
            ==> rendered_agent_message(AgentMessage::Assistant { content }) == first@ + "\n"@
            + second@)),
{
    let c = content@;
    if c.len() == 1 {
        if let AssistantContent::Text { text } = c[0] {
            assert(c.last() == c[0]);
            assert(c.drop_last() =~= Seq::<AssistantContent>::empty());
            assert(assistant_texts(c.drop_last()) =~= Seq::<Seq<char>>::empty());
            assert(assistant_texts(c) =~= seq![text@]);
            assert(join_lines(seq![text@]) == text@);
        }
    }
    if c.len() == 2 {
        if let AssistantContent::Text { text: first } = c[0] {
            if let AssistantContent::Text { text: second } = c[1] {
                let d = c.drop_last();
                assert(d.len() == 1 && d.last() == c[0]);
                assert(d.drop_last() =~= Seq::<AssistantContent>::empty());
                assert(assistant_texts(d.drop_last()) =~= Seq::<Seq<char>>::empty());
                assert(assistant_texts(d) =~= seq![first@]);
                assert(c.last() == c[1]);
                let texts = assistant_texts(c);
                assert(texts =~= seq![first@, second@]);
                assert(texts.drop_last() =~= seq![first@]);
                assert(join_lines(seq![first@]) == first@);
                reveal_strlit("\n");
                assert(join_lines(texts) == first@ + seq!['\n'] + second@);
                assert(seq!['\n'] =~= "\n"@);
            }
        }
    }
}

/// What each frame says about the latest prompt: responses and prompt
/// results keep the request they answer and what they say; the agent's
/// start and end are reported as such; every other frame says nothing.
pub proof fn lemma_prompt_signals(message: ServerMessage)
    ensures
        message matches ServerMessage::PromptResult { id, agent_invoked } ==> prompt_signal_of(
            message,
        ) == (PromptSignalView::PromptResult { id: opt_request_id(id), agent_invoked }),
        message matches ServerMessage::ResponseSuccess { id, prompt_acknowledged }
            ==> prompt_signal_of(message) == (PromptSignalView::ResponseSuccess {
            id: opt_request_id(id),
            prompt_acknowledged,
        }),
        message matches ServerMessage::ResponseError { id, error } ==> prompt_signal_of(message)
            == (PromptSignalView::ResponseError { id: opt_request_id(id), error: error@ }),
        message is AgentStart ==> prompt_signal_of(message) is AgentStart,
        message is AgentEnd ==> prompt_signal_of(message) is AgentEnd,
        !(message is PromptResult || message is ResponseSuccess || message is ResponseError
            || message is AgentStart || message is AgentEnd) ==> prompt_signal_of(message) is Other,
{
}

} // verus!
