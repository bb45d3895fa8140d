use vstd::prelude::*;
use std::collections::VecDeque;

use crate::assoc::{
    assoc_map, distinct_keys, lemma_assoc_domain, lemma_assoc_get, lemma_assoc_push,
    lemma_assoc_remove, lemma_assoc_update,
};
use crate::client::{ClientEvent, ConnectionStatus};
use crate::ids::{AgentId, DeviceId};
use crate::protocol::{DeviceSummary, UiInteractionEnvelope};
use crate::reducer::{
    agent_map, agents_in_order, distinct_agents, replication_error_message, snapshots_view,
    store_snapshot, ReplicatedState,
};
use crate::rpc::{MessageContent, NoticeLevel, UserContentBlock};
use crate::state::{AgentSnapshot, AgentSnapshotView, EventSequence};

verus! {

broadcast use vstd::utf8::encode_utf8_valid_utf8;

/// The most entries a transcript keeps; older ones are dropped.
pub const MAX_TRANSCRIPT_ENTRIES: usize = 1_000;

/// The most bytes of streamed text held for a message not yet finished.
pub const MAX_PARTIAL_TEXT_BYTES: usize = 1_024 * 1_024;

/// What a transcript entry shows.
#[derive(Clone, Copy, Debug, PartialEq, Eq)]
pub enum TranscriptKind {
    User,
    Assistant,
    Thinking,
    Tool,
    System,
}

/// One entry of an agent's transcript, at its place in the agent's stream.
#[derive(Debug, PartialEq, Eq)]
pub struct TranscriptEntry {
    pub sequence: EventSequence,
    pub kind: TranscriptKind,
    pub text: String,
}

/// The content of a transcript entry.
pub struct TranscriptEntryView {
    pub sequence: u64,
    pub kind: TranscriptKind,
    pub text: Seq<char>,
}

impl View for TranscriptEntry {
    type V = TranscriptEntryView;

    open spec fn view(&self) -> TranscriptEntryView {
        TranscriptEntryView { sequence: self.sequence.0, kind: self.kind, text: self.text@ }
    }
}

impl Clone for TranscriptEntry {
    fn clone(&self) -> (r: Self)
        ensures
            r == *self,
    {
        TranscriptEntry { sequence: self.sequence, kind: self.kind, text: self.text.clone() }
    }
}

/// The contents of a list of transcript entries.
pub open spec fn entries_view(entries: Seq<TranscriptEntry>) -> Seq<TranscriptEntryView> {
    entries.map_values(|entry: TranscriptEntry| entry@)
}

/// An agent's rendered transcript: its recent entries and the text of the
/// assistant message and thinking still being streamed.
#[derive(Debug, PartialEq, Eq)]
pub struct Transcript {
    pub entries: VecDeque<TranscriptEntry>,
    pub partial_assistant: String,
    pub partial_thinking: String,
}

/// The content of a transcript.
pub struct TranscriptView {
    pub entries: Seq<TranscriptEntryView>,
    pub partial_assistant: Seq<char>,
    pub partial_thinking: Seq<char>,
}

impl View for Transcript {
    type V = TranscriptView;

    open spec fn view(&self) -> TranscriptView {
        TranscriptView {
            entries: entries_view(self.entries@),
            partial_assistant: self.partial_assistant@,
            partial_thinking: self.partial_thinking@,
        }
    }
}

impl TranscriptView {
    /// The bounds a transcript keeps: at most the entry limit, and streamed
    /// texts of at most the byte limit.
    pub open spec fn bounded(self) -> bool {
        &&& self.entries.len() <= MAX_TRANSCRIPT_ENTRIES
        &&& vstd::utf8::encode_utf8(self.partial_assistant).len() <= MAX_PARTIAL_TEXT_BYTES
        &&& vstd::utf8::encode_utf8(self.partial_thinking).len() <= MAX_PARTIAL_TEXT_BYTES
    }
}

impl Default for Transcript {
    fn default() -> (r: Self)
        ensures
            r@.entries == Seq::<TranscriptEntryView>::empty(),
            r@.partial_assistant == Seq::<char>::empty(),
            r@.partial_thinking == Seq::<char>::empty(),
            r@.bounded(),
    {
        let r = Transcript {
            entries: VecDeque::new(),
            partial_assistant: String::new(),
            partial_thinking: String::new(),
        };
        proof {
            assert(entries_view(r.entries@) =~= Seq::<TranscriptEntryView>::empty());
        }
        r
    }
}

impl Clone for Transcript {
    fn clone(&self) -> (r: Self)
        ensures
            r@ == self@,
    {
        let mut entries: VecDeque<TranscriptEntry> = VecDeque::new();
        let mut i: usize = 0;
        while i < self.entries.len()
            invariant
                i <= self.entries.len(),
                entries@ == self.entries@.take(i as int),
            decreases self.entries.len() - i,
        {
            entries.push_back(self.entries[i].clone());
            proof {
                assert(self.entries@.take(i + 1) =~= self.entries@.take(i as int).push(
                    self.entries@[i as int],
                ));
            }
            i = i + 1;
        }
        proof {
            assert(self.entries@.take(self.entries.len() as int) =~= self.entries@);
        }
        Transcript {
            entries,
            partial_assistant: self.partial_assistant.clone(),
            partial_thinking: self.partial_thinking.clone(),
        }
    }
}

/// The largest character boundary of `bytes` at or below `index`.
pub open spec fn floor_boundary(bytes: Seq<u8>, index: int) -> int
    decreases index,
{
    if index <= 0 {
        0
    } else if vstd::utf8::is_char_boundary(bytes, index) {
        index
    } else {
        floor_boundary(bytes, index - 1)
    }
}

/// `target` with as much of `delta` appended as fits in the byte limit,
/// cut at a character boundary.
pub open spec fn bounded_append(target: Seq<char>, delta: Seq<char>) -> Seq<char> {
    let used = vstd::utf8::encode_utf8(target).len();
    if used >= MAX_PARTIAL_TEXT_BYTES {
        target
    } else {
        let bytes = vstd::utf8::encode_utf8(delta);
        let room = (MAX_PARTIAL_TEXT_BYTES - used) as int;
        let limit = if room < bytes.len() {
            room
        } else {
            bytes.len() as int
        };
        target + vstd::utf8::decode_utf8(bytes.subrange(0, floor_boundary(bytes, limit)))
    }
}

/// `entries` with `entry` added last, the oldest dropped when the list is full.
pub open spec fn bounded_push(entries: Seq<TranscriptEntryView>, entry: TranscriptEntryView) -> Seq<
    TranscriptEntryView,
> {
    if entries.len() == MAX_TRANSCRIPT_ENTRIES {
        entries.drop_first().push(entry)
    } else {
        entries.push(entry)
    }
}

/// The UTF-8 encoding of two texts one after the other is the two encodings
/// one after the other.
pub proof fn lemma_encode_utf8_concat(a: Seq<char>, b: Seq<char>)
    ensures
        vstd::utf8::encode_utf8(a + b) == vstd::utf8::encode_utf8(a) + vstd::utf8::encode_utf8(b),
    decreases a.len(),
{
    if a.len() == 0 {
        assert(a + b =~= b);
    } else {
        assert((a + b).drop_first() =~= a.drop_first() + b);
        assert((a + b)[0] == a[0]);
        lemma_encode_utf8_concat(a.drop_first(), b);
    }
}

/// The largest character boundary at or below `index` is a boundary, at most `index`.
proof fn lemma_floor_boundary(bytes: Seq<u8>, index: int)
    requires
        vstd::utf8::valid_utf8(bytes),
        0 <= index <= bytes.len(),
    ensures
        0 <= floor_boundary(bytes, index) <= index,
        vstd::utf8::is_char_boundary(bytes, floor_boundary(bytes, index)),
    decreases index,
{
    if index > 0 && !vstd::utf8::is_char_boundary(bytes, index) {
        lemma_floor_boundary(bytes, index - 1);
    }
}

/// The largest character boundary of `value`'s bytes at or below `index`.
fn floor_char_boundary(value: &str, index: usize) -> (r: usize)
    requires
        index <= vstd::utf8::encode_utf8(value@).len(),
    ensures
        r == floor_boundary(vstd::utf8::encode_utf8(value@), index as int),
{
    let ghost bytes = vstd::utf8::encode_utf8(value@);
    let mut i: usize = index;
    while !value.is_char_boundary(i)
        invariant
            i <= index,
            index <= bytes.len(),
            bytes == vstd::utf8::encode_utf8(value@),
            floor_boundary(bytes, index as int) == floor_boundary(bytes, i as int),
        decreases i,
    {
        proof {
            assert(i > 0);
        }
        i = i - 1;
    }
    i
}

/// Appends as much of `delta` to `target` as keeps it within the byte limit,
/// cut at a character boundary.
fn append_bounded(target: &mut String, delta: &str)
    ensures
        final(target)@ == bounded_append(old(target)@, delta@),
        vstd::utf8::encode_utf8(old(target)@).len() <= MAX_PARTIAL_TEXT_BYTES ==> vstd::utf8::encode_utf8(
            final(target)@,
        ).len() <= MAX_PARTIAL_TEXT_BYTES,
{
    let used = target.as_str().as_bytes().len();
    if used >= MAX_PARTIAL_TEXT_BYTES {
        return;
    }
    let room = MAX_PARTIAL_TEXT_BYTES - used;
    let available = delta.as_bytes().len();
    let limit = if room < available {
        room
    } else {
        available
    };
    let boundary = floor_char_boundary(delta, limit);
    let ghost bytes = vstd::utf8::encode_utf8(delta@);
    proof {
        lemma_floor_boundary(bytes, limit as int);
    }
    let (head, _) = delta.split_at(boundary);
    proof {
        vstd::utf8::valid_utf8_split(bytes, boundary as int);
        vstd::utf8::encode_utf8_decode_utf8(head@);
        assert(head@ == vstd::utf8::decode_utf8(bytes.subrange(0, boundary as int)));
        vstd::utf8::decode_utf8_encode_utf8(bytes.subrange(0, boundary as int));
        lemma_encode_utf8_concat(target@, head@);
    }
    target.append(head);
}

/// What a frame from an agent means for its transcript.
#[derive(Debug, PartialEq, Eq)]
pub enum TranscriptSignal {
    /// A user message started, with its rendered text.
    UserMessage { text: String },
    /// More streamed assistant text.
    AssistantTextDelta { delta: String },
    /// More streamed thinking.
    ThinkingDelta { delta: String },
    /// An assistant message ended, with its rendered text.
    AssistantMessageEnd { text: String },
    /// A tool started, with its rendered arguments and stated intent.
    ToolStarted { tool_name: String, arguments: String, intent: Option<String> },
    /// A tool finished, with its rendered result and whether it failed.
    ToolFinished { tool_name: String, result: String, failed: bool },
    /// A notice from the agent process.
    Notice { level: NoticeLevel, message: String },
    /// Output of a command run in the agent process.
    CommandOutput { text: String },
    /// Anything that does not show in the transcript.
    Other,
}

/// The name a notice level is shown with.
pub open spec fn notice_level_name(level: NoticeLevel) -> Seq<char> {
    match level {
        NoticeLevel::Info => "Info"@,
        NoticeLevel::Warning => "Warning"@,
        NoticeLevel::Error => "Error"@,
    }
}

/// The text a started tool shows: its name, its intent after a dash when
/// stated, and its arguments on the next line.
pub open spec fn tool_start_text(name: Seq<char>, arguments: Seq<char>, intent: Option<Seq<char>>) -> Seq<
    char,
> {
    let shown_intent = match intent {
        Some(value) => " — "@ + value,
        None => Seq::empty(),
    };
    name + shown_intent + "\n"@ + arguments
}

/// The text a finished tool shows: whether it failed, its name and its result.
pub open spec fn tool_end_text(name: Seq<char>, result: Seq<char>, failed: bool) -> Seq<char> {
    (if failed {
        "Tool failed"@
    } else {
        "Tool finished"@
    }) + ": "@ + name + "\n"@ + result
}

/// The text of a notice: its level and its message.
pub open spec fn notice_text(level: NoticeLevel, message: Seq<char>) -> Seq<char> {
    notice_level_name(level) + ": "@ + message
}

/// The content of a transcript signal.
pub enum TranscriptSignalView {
    UserMessage { text: Seq<char> },
    AssistantTextDelta { delta: Seq<char> },
    ThinkingDelta { delta: Seq<char> },
    AssistantMessageEnd { text: Seq<char> },
    ToolStarted { tool_name: Seq<char>, arguments: Seq<char>, intent: Option<Seq<char>> },
    ToolFinished { tool_name: Seq<char>, result: Seq<char>, failed: bool },
    Notice { level: NoticeLevel, message: Seq<char> },
    CommandOutput { text: Seq<char> },
    Other,
}

impl View for TranscriptSignal {
    type V = TranscriptSignalView;

    open spec fn view(&self) -> TranscriptSignalView {
        match self {
            TranscriptSignal::UserMessage { text } => TranscriptSignalView::UserMessage {
                text: text@,
            },
            TranscriptSignal::AssistantTextDelta { delta } =>
                TranscriptSignalView::AssistantTextDelta { delta: delta@ },
            TranscriptSignal::ThinkingDelta { delta } => TranscriptSignalView::ThinkingDelta {
                delta: delta@,
            },
            TranscriptSignal::AssistantMessageEnd { text } =>
                TranscriptSignalView::AssistantMessageEnd { text: text@ },
            TranscriptSignal::ToolStarted { tool_name, arguments, intent } =>
                TranscriptSignalView::ToolStarted {
                tool_name: tool_name@,
                arguments: arguments@,
                intent: match intent {
                    Some(value) => Some(value@),
                    None => None,
                },
            },
            TranscriptSignal::ToolFinished { tool_name, result, failed } =>
                TranscriptSignalView::ToolFinished {
                tool_name: tool_name@,
                result: result@,
                failed: *failed,
            },
            TranscriptSignal::Notice { level, message } => TranscriptSignalView::Notice {
                level: *level,
                message: message@,
            },
            TranscriptSignal::CommandOutput { text } => TranscriptSignalView::CommandOutput {
                text: text@,
            },
            TranscriptSignal::Other => TranscriptSignalView::Other,
        }
    }
}

/// An entry at `sequence`.
pub open spec fn entry(sequence: u64, kind: TranscriptKind, text: Seq<char>) -> TranscriptEntryView {
    TranscriptEntryView { sequence, kind, text }
}

/// The transcript after `signal` arrived at `sequence`.
pub open spec fn apply_signal(t: TranscriptView, sequence: u64, signal: TranscriptSignalView) -> TranscriptView {
    match signal {
        TranscriptSignalView::UserMessage { text } => TranscriptView {
            entries: bounded_push(t.entries, entry(sequence, TranscriptKind::User, text)),
            ..t
        },
        TranscriptSignalView::AssistantTextDelta { delta } => TranscriptView {
            partial_assistant: bounded_append(t.partial_assistant, delta),
            ..t
        },
        TranscriptSignalView::ThinkingDelta { delta } => TranscriptView {
            partial_thinking: bounded_append(t.partial_thinking, delta),
            ..t
        },
        TranscriptSignalView::AssistantMessageEnd { text } => {
            let with_thinking = if t.partial_thinking.len() > 0 {
                bounded_push(t.entries, entry(sequence, TranscriptKind::Thinking, t.partial_thinking))
            } else {
                t.entries
            };
            let shown = if t.partial_assistant.len() == 0 {
                text
            } else {
                t.partial_assistant
            };
            TranscriptView {
                entries: if shown.len() > 0 {
                    bounded_push(with_thinking, entry(sequence, TranscriptKind::Assistant, shown))
                } else {
                    with_thinking
                },
                partial_assistant: Seq::empty(),
                partial_thinking: Seq::empty(),
            }
        },
        TranscriptSignalView::ToolStarted { tool_name, arguments, intent } => TranscriptView {
            entries: bounded_push(
                t.entries,
                entry(sequence, TranscriptKind::Tool, tool_start_text(tool_name, arguments, intent)),
            ),
            ..t
        },
        TranscriptSignalView::ToolFinished { tool_name, result, failed } => TranscriptView {
            entries: bounded_push(
                t.entries,
                entry(sequence, TranscriptKind::Tool, tool_end_text(tool_name, result, failed)),
            ),
            ..t
        },
        TranscriptSignalView::Notice { level, message } => TranscriptView {
            entries: bounded_push(
                t.entries,
                entry(sequence, TranscriptKind::System, notice_text(level, message)),
            ),
            ..t
        },
        TranscriptSignalView::CommandOutput { text } => TranscriptView {
            entries: bounded_push(t.entries, entry(sequence, TranscriptKind::System, text)),
            ..t
        },
        TranscriptSignalView::Other => t,
    }
}

/// The shown name of a notice level.
fn level_name(level: NoticeLevel) -> (r: &'static str)
    ensures
        r@ == notice_level_name(level),
{
    match level {
        NoticeLevel::Info => "Info",
        NoticeLevel::Warning => "Warning",
        NoticeLevel::Error => "Error",
    }
}

impl Transcript {
    /// Adds an entry, dropping the oldest when the transcript is full.
    pub fn push(&mut self, sequence: EventSequence, kind: TranscriptKind, text: String)
        requires
            old(self).entries.len() <= MAX_TRANSCRIPT_ENTRIES,
        ensures
            final(self)@ == (TranscriptView {
                entries: bounded_push(old(self)@.entries, entry(sequence.0, kind, text@)),
                ..old(self)@
            }),
    {
        let ghost before = self.entries@;
        if self.entries.len() == MAX_TRANSCRIPT_ENTRIES {
            let _oldest = self.entries.pop_front();
            proof {
                assert(entries_view(self.entries@) =~= entries_view(before).drop_first());
            }
        }
        let ghost kept = self.entries@;
        self.entries.push_back(TranscriptEntry { sequence, kind, text });
        proof {
            assert(entries_view(self.entries@) =~= entries_view(kept).push(
                entry(sequence.0, kind, text@),
            ));
        }
    }

    /// Applies `signal`, which arrived at `sequence`, to the transcript.
    pub fn apply(&mut self, sequence: EventSequence, signal: TranscriptSignal)
        requires
            old(self)@.bounded(),
        ensures
            final(self)@ == apply_signal(old(self)@, sequence.0, signal@),
            final(self)@.bounded(),
    {
        match signal {
            TranscriptSignal::UserMessage { text } => {
                self.push(sequence, TranscriptKind::User, text);
            },
            TranscriptSignal::AssistantTextDelta { delta } => {
                append_bounded(&mut self.partial_assistant, delta.as_str());
            },
            TranscriptSignal::ThinkingDelta { delta } => {
                append_bounded(&mut self.partial_thinking, delta.as_str());
            },
            TranscriptSignal::AssistantMessageEnd { text } => {
                if !self.partial_thinking.as_str().is_empty() {
                    let mut thinking = String::new();
                    std::mem::swap(&mut thinking, &mut self.partial_thinking);
                    self.push(sequence, TranscriptKind::Thinking, thinking);
                }
                let shown = if self.partial_assistant.as_str().is_empty() {
                    text
                } else {
                    let mut streamed = String::new();
                    std::mem::swap(&mut streamed, &mut self.partial_assistant);
                    streamed
                };
                if !shown.as_str().is_empty() {
                    self.push(sequence, TranscriptKind::Assistant, shown);
                }
                self.partial_thinking = String::new();
                self.partial_assistant = String::new();
            },
            TranscriptSignal::ToolStarted { tool_name, arguments, intent } => {
                let ghost shown = tool_start_text(tool_name@, arguments@, crate::text::opt_text(intent));
                let mut text = tool_name;
                match intent {
                    Some(value) => {
                        text.append(" — ");
                        text.append(value.as_str());
                    },
                    None => {},
                }
                text.append("\n");
                text.append(arguments.as_str());
                proof {
                    assert(text@ =~= shown);
                }
                self.push(sequence, TranscriptKind::Tool, text);
            },
            TranscriptSignal::ToolFinished { tool_name, result, failed } => {
                let mut text = if failed {
                    String::from_str("Tool failed")
                } else {
                    String::from_str("Tool finished")
                };
                text.append(": ");
                text.append(tool_name.as_str());
                text.append("\n");
                text.append(result.as_str());
                proof {
                    assert(text@ =~= tool_end_text(tool_name@, result@, failed));
                }
                self.push(sequence, TranscriptKind::Tool, text);
            },
            TranscriptSignal::Notice { level, message } => {
                let mut text = String::from_str(level_name(level));
                text.append(": ");
                text.append(message.as_str());
                proof {
                    assert(text@ =~= notice_text(level, message@));
                }
                self.push(sequence, TranscriptKind::System, text);
            },
            TranscriptSignal::CommandOutput { text } => {
                self.push(sequence, TranscriptKind::System, text);
            },
            TranscriptSignal::Other => {},
        }
    }
}

/// Whether this client holds the lease to answer an interaction.
#[derive(Clone, Debug, PartialEq, Eq)]
pub enum InteractionLeaseState {
    Acquiring,
    Owned,
    Unavailable(String),
}

/// An agent's open question and this client's claim on answering it.
#[derive(Clone, Debug, PartialEq)]
pub struct PendingInteraction {
    pub envelope: UiInteractionEnvelope,
    pub lease: InteractionLeaseState,
}

/// The transcripts of a list by agent identifier.
pub open spec fn transcript_pairs(entries: Seq<(AgentId, Transcript)>) -> Seq<(Seq<char>, TranscriptView)> {
    entries.map_values(|e: (AgentId, Transcript)| (e.0@, e.1@))
}

/// The interactions of a list by agent identifier.
pub open spec fn interaction_pairs(entries: Seq<(AgentId, PendingInteraction)>) -> Seq<
    (Seq<char>, PendingInteraction),
> {
    entries.map_values(|e: (AgentId, PendingInteraction)| (e.0@, e.1))
}

/// The state a client's user interface shows.
pub struct AppModel {
    pub connection: ConnectionStatus,
    pub own_device_id: Option<DeviceId>,
    pub agents: Vec<AgentSnapshot>,
    pub selected_agent: Option<AgentId>,
    pub transcripts: Vec<(AgentId, Transcript)>,
    pub interactions: Vec<(AgentId, PendingInteraction)>,
    pub devices: Vec<DeviceSummary>,
    pub error: Option<String>,
}

impl AppModel {
    /// The agents are listed in ascending identifier order, no agent,
    /// transcript or interaction is listed twice, and every transcript keeps
    /// its bounds.
    pub open spec fn wf(&self) -> bool {
        &&& agents_in_order(self.agents@)
        &&& distinct_agents(snapshots_view(self.agents@))
        &&& distinct_keys(transcript_pairs(self.transcripts@))
        &&& distinct_keys(interaction_pairs(self.interactions@))
        &&& forall|i: int| 0 <= i < self.transcripts.len() ==> (#[trigger] self.transcripts@[i]).1@.bounded()
    }

    /// The agents shown, by identifier.
    pub open spec fn agent_map(&self) -> Map<Seq<char>, AgentSnapshotView> {
        agent_map(snapshots_view(self.agents@))
    }

    /// The transcripts shown, by agent identifier.
    pub open spec fn transcript_map(&self) -> Map<Seq<char>, TranscriptView> {
        assoc_map(transcript_pairs(self.transcripts@))
    }

    /// The open interactions, by agent identifier.
    pub open spec fn interaction_map(&self) -> Map<Seq<char>, PendingInteraction> {
        assoc_map(interaction_pairs(self.interactions@))
    }
}

impl Default for AppModel {
    fn default() -> (r: Self)
        ensures
            r.wf(),
            r.connection == (ConnectionStatus::Disconnected { reason: None }),
            r.own_device_id is None,
            r.agents@.len() == 0,
            r.selected_agent is None,
            r.transcripts@.len() == 0,
            r.interactions@.len() == 0,
            r.devices@.len() == 0,
            r.error is None,
    {
        AppModel {
            connection: ConnectionStatus::Disconnected { reason: None },
            own_device_id: None,
            agents: Vec::new(),
            selected_agent: None,
            transcripts: Vec::new(),
            interactions: Vec::new(),
            devices: Vec::new(),
            error: None,
        }
    }
}

/// Where `agent_id`'s entry is in a list keyed by agent, if anywhere.
fn keyed_position<T>(entries: &Vec<(AgentId, T)>, agent_id: &AgentId) -> (r: Option<usize>)
    ensures
        match r {
            Some(i) => i < entries.len() && entries@[i as int].0@ == agent_id@,
            None => forall|i: int| 0 <= i < entries.len() ==> #[trigger] entries@[i].0@ != agent_id@,
        },
{
    let mut i: usize = 0;
    while i < entries.len()
        invariant
            i <= entries.len(),
            forall|k: int| 0 <= k < i ==> #[trigger] entries@[k].0@ != agent_id@,
        decreases entries.len() - i,
    {
        if entries[i].0 == *agent_id {
            return Some(i);
        }
        i = i + 1;
    }
    None
}

/// The identifier text of an optional agent.
pub open spec fn opt_agent(agent_id: Option<AgentId>) -> Option<Seq<char>> {
    match agent_id {
        Some(id) => Some(id@),
        None => None,
    }
}

/// The agent selection after `agent_id` appears: the earlier selection, or this agent.
pub open spec fn select_first(selected: Option<Seq<char>>, agent_id: Seq<char>) -> Option<Seq<char>> {
    match selected {
        Some(current) => Some(current),
        None => Some(agent_id),
    }
}

/// The agents and selection after a list of authoritative snapshots: each
/// snapshot is stored and the first agent is selected unless one already is.
pub open spec fn replaced_agents(
    agents: Map<Seq<char>, AgentSnapshotView>,
    selected: Option<Seq<char>>,
    listed: Seq<AgentSnapshotView>,
) -> (Map<Seq<char>, AgentSnapshotView>, Option<Seq<char>>)
    decreases listed.len(),
{
    if listed.len() == 0 {
        (agents, selected)
    } else {
        let (before, chosen) = replaced_agents(agents, selected, listed.drop_last());
        let last = listed.last();
        (before.insert(last.agent_id, last), select_first(chosen, last.agent_id))
    }
}

impl AppModel {
    /// Stores the snapshot of an agent and selects it if nothing is selected yet.
    fn store_agent(&mut self, agent: AgentSnapshot)
        requires
            old(self).wf(),
        ensures
            final(self).wf(),
            final(self).agent_map() == old(self).agent_map().insert(agent@.agent_id, agent@),
            opt_agent(final(self).selected_agent) == select_first(
                opt_agent(old(self).selected_agent),
                agent@.agent_id,
            ),
            final(self).connection == old(self).connection,
            final(self).own_device_id == old(self).own_device_id,
            final(self).transcripts == old(self).transcripts,
            final(self).interactions == old(self).interactions,
            final(self).devices == old(self).devices,
            final(self).error == old(self).error,
    {
        let agent_id = agent.agent_id.clone();
        store_snapshot(&mut self.agents, agent);
        if self.selected_agent.is_none() {
            self.selected_agent = Some(agent_id);
        }
    }

    /// Stores each authoritative snapshot; the first agent listed is selected
    /// unless an agent is selected already.
    pub fn replace_agents(&mut self, agents: Vec<AgentSnapshot>)
        requires
            old(self).wf(),
        ensures
            final(self).wf(),
            (final(self).agent_map(), opt_agent(final(self).selected_agent)) == replaced_agents(
                old(self).agent_map(),
                opt_agent(old(self).selected_agent),
                snapshots_view(agents@),
            ),
            final(self).connection == old(self).connection,
            final(self).own_device_id == old(self).own_device_id,
            final(self).transcripts == old(self).transcripts,
            final(self).interactions == old(self).interactions,
            final(self).devices == old(self).devices,
            final(self).error == old(self).error,
    {
        let ghost start_agents = self.agent_map();
        let ghost start_selected = opt_agent(self.selected_agent);
        let ghost listed = snapshots_view(agents@);
        let mut i: usize = 0;
        while i < agents.len()
            invariant
                i <= agents.len(),
                self.wf(),
                listed == snapshots_view(agents@),
                (self.agent_map(), opt_agent(self.selected_agent)) == replaced_agents(
                    start_agents,
                    start_selected,
                    listed.take(i as int),
                ),
                self.connection == old(self).connection,
                self.own_device_id == old(self).own_device_id,
                self.transcripts == old(self).transcripts,
                self.interactions == old(self).interactions,
                self.devices == old(self).devices,
                self.error == old(self).error,
            decreases agents.len() - i,
        {
            proof {
                assert(listed.take(i + 1).drop_last() =~= listed.take(i as int));
                assert(listed.take(i + 1).last() == agents@[i as int]@);
            }
            let agent = agents[i].clone();
            self.store_agent(agent);
            i = i + 1;
        }
        proof {
            assert(listed.take(agents.len() as int) =~= listed);
        }
    }

    /// Replaces the listed devices.
    pub fn replace_devices(&mut self, devices: Vec<DeviceSummary>)
        ensures
            final(self).devices == devices,
            final(self).agents == old(self).agents,
            final(self).selected_agent == old(self).selected_agent,
            final(self).transcripts == old(self).transcripts,
            final(self).interactions == old(self).interactions,
            final(self).connection == old(self).connection,
            final(self).own_device_id == old(self).own_device_id,
            final(self).error == old(self).error,
    {
        self.devices = devices;
    }

    /// Records this client's claim on answering `agent_id`'s open question,
    /// if there is one.
    pub fn set_interaction_lease(&mut self, agent_id: &AgentId, state: InteractionLeaseState)
        requires
            old(self).wf(),
        ensures
            final(self).wf(),
            old(self).interaction_map().dom().contains(agent_id@) ==> final(self).interaction_map()
                == old(self).interaction_map().insert(
                agent_id@,
                PendingInteraction { lease: state, ..old(self).interaction_map()[agent_id@] },
            ),
            !old(self).interaction_map().dom().contains(agent_id@) ==> final(self).interaction_map()
                == old(self).interaction_map(),
            final(self).agents == old(self).agents,
            final(self).selected_agent == old(self).selected_agent,
            final(self).transcripts == old(self).transcripts,
            final(self).connection == old(self).connection,
            final(self).own_device_id == old(self).own_device_id,
            final(self).devices == old(self).devices,
            final(self).error == old(self).error,
    {
        let ghost pairs = interaction_pairs(self.interactions@);
        proof {
            lemma_assoc_domain(pairs, agent_id@);
        }
        match keyed_position(&self.interactions, agent_id) {
            Some(i) => {
                proof {
                    lemma_assoc_get(pairs, i as int);
                }
                let (id, interaction) = self.interactions.remove(i);
                let updated = PendingInteraction { envelope: interaction.envelope, lease: state };
                let ghost value = updated;
                self.interactions.insert(i, (id, updated));
                proof {
                    assert(interaction_pairs(self.interactions@) =~= pairs.update(
                        i as int,
                        (pairs[i as int].0, value),
                    ));
                    lemma_assoc_update(pairs, i as int, value);
                    assert forall|k: int| 0 <= k < self.transcripts.len() implies (#[trigger] self.transcripts@[k]).1@.bounded() by {
                        assert(self.transcripts@[k] == old(self).transcripts@[k]);
                    }
                }
            },
            None => {
                proof {
                    assert forall|k: int| 0 <= k < pairs.len() implies #[trigger] pairs[k].0 != agent_id@ by {
                        assert(self.interactions@[k].0@ != agent_id@);
                    }
                }
            },
        }
    }

    /// Drops `agent_id`'s open question.
    pub fn dismiss_interaction(&mut self, agent_id: &AgentId)
        requires
            old(self).wf(),
        ensures
            final(self).wf(),
            final(self).interaction_map() == old(self).interaction_map().remove(agent_id@),
            final(self).agents == old(self).agents,
            final(self).selected_agent == old(self).selected_agent,
            final(self).transcripts == old(self).transcripts,
            final(self).connection == old(self).connection,
            final(self).own_device_id == old(self).own_device_id,
            final(self).devices == old(self).devices,
            final(self).error == old(self).error,
    {
        let ghost pairs = interaction_pairs(self.interactions@);
        proof {
            lemma_assoc_domain(pairs, agent_id@);
        }
        match keyed_position(&self.interactions, agent_id) {
            Some(i) => {
                self.interactions.remove(i);
                proof {
                    assert(interaction_pairs(self.interactions@) =~= pairs.remove(i as int));
                    lemma_assoc_remove(pairs, i as int);
                }
            },
            None => {
                proof {
                    assert forall|k: int| 0 <= k < pairs.len() implies #[trigger] pairs[k].0 != agent_id@ by {
                        assert(self.interactions@[k].0@ != agent_id@);
                    }
                    assert(assoc_map(pairs).remove(agent_id@) =~= assoc_map(pairs));
                }
            },
        }
    }
}

/// A transcript with no entries and nothing streamed.
pub open spec fn empty_transcript() -> TranscriptView {
    TranscriptView {
        entries: Seq::empty(),
        partial_assistant: Seq::empty(),
        partial_thinking: Seq::empty(),
    }
}

/// The transcript of `agent_id` in `transcripts`, or an empty one.
pub open spec fn transcript_or_empty(transcripts: Map<Seq<char>, TranscriptView>, agent_id: Seq<char>) -> TranscriptView {
    if transcripts.dom().contains(agent_id) {
        transcripts[agent_id]
    } else {
        empty_transcript()
    }
}

impl AppModel {
    /// Applies an agent event to the agent's transcript, starting one if needed.
    fn apply_agent_event(&mut self, envelope: crate::protocol::EventEnvelope<TranscriptSignal>)
        requires
            old(self).wf(),
        ensures
            final(self).wf(),
            final(self).transcript_map() == old(self).transcript_map().insert(
                envelope.agent_id@,
                apply_signal(
                    transcript_or_empty(old(self).transcript_map(), envelope.agent_id@),
                    envelope.event_sequence.0,
                    envelope.event@,
                ),
            ),
            final(self).agents == old(self).agents,
            final(self).selected_agent == old(self).selected_agent,
            final(self).interactions == old(self).interactions,
            final(self).connection == old(self).connection,
            final(self).own_device_id == old(self).own_device_id,
            final(self).devices == old(self).devices,
            final(self).error == old(self).error,
    {
        let ghost pairs = transcript_pairs(self.transcripts@);
        proof {
            lemma_assoc_domain(pairs, envelope.agent_id@);
        }
        let agent_id = envelope.agent_id;
        match keyed_position(&self.transcripts, &agent_id) {
            Some(i) => {
                proof {
                    lemma_assoc_get(pairs, i as int);
                    assert(self.transcripts@[i as int].1@.bounded());
                }
                let (id, mut transcript) = self.transcripts.remove(i);
                transcript.apply(envelope.event_sequence, envelope.event);
                let ghost value = transcript@;
                self.transcripts.insert(i, (id, transcript));
                proof {
                    assert(transcript_pairs(self.transcripts@) =~= pairs.update(
                        i as int,
                        (pairs[i as int].0, value),
                    ));
                    lemma_assoc_update(pairs, i as int, value);
                    assert forall|k: int| 0 <= k < self.transcripts.len() implies (#[trigger] self.transcripts@[k]).1@.bounded() by {
                        if k != i {
                            assert(self.transcripts@[k] == old(self).transcripts@[k]);
                        }
                    }
                }
            },
            None => {
                proof {
                    assert forall|k: int| 0 <= k < pairs.len() implies #[trigger] pairs[k].0 != agent_id@ by {
                        assert(self.transcripts@[k].0@ != agent_id@);
                    }
                }
                let mut transcript = Transcript::default();
                proof {
                    assert(transcript@ =~= empty_transcript());
                }
                transcript.apply(envelope.event_sequence, envelope.event);
                let ghost key = agent_id@;
                let ghost value = transcript@;
                self.transcripts.push((agent_id, transcript));
                proof {
                    assert(transcript_pairs(self.transcripts@) =~= pairs.push((key, value)));
                    lemma_assoc_push(pairs, key, value);
                    assert forall|k: int| 0 <= k < self.transcripts.len() implies (#[trigger] self.transcripts@[k]).1@.bounded() by {
                        if k < pairs.len() {
                            assert(self.transcripts@[k] == old(self).transcripts@[k]);
                        }
                    }
                }
            },
        }
    }

    /// Records an agent's open question, replacing any earlier one of the same agent.
    fn open_interaction(&mut self, envelope: UiInteractionEnvelope)
        requires
            old(self).wf(),
        ensures
            final(self).wf(),
            final(self).interaction_map() == old(self).interaction_map().insert(
                envelope.agent_id@,
                PendingInteraction { envelope, lease: InteractionLeaseState::Acquiring },
            ),
            final(self).agents == old(self).agents,
            final(self).selected_agent == old(self).selected_agent,
            final(self).transcripts == old(self).transcripts,
            final(self).connection == old(self).connection,
            final(self).own_device_id == old(self).own_device_id,
            final(self).devices == old(self).devices,
            final(self).error == old(self).error,
    {
        let ghost pairs = interaction_pairs(self.interactions@);
        let ghost key = envelope.agent_id@;
        proof {
            lemma_assoc_domain(pairs, key);
        }
        let agent_id = envelope.agent_id.clone();
        let value = PendingInteraction { envelope, lease: InteractionLeaseState::Acquiring };
        let ghost v = value;
        match keyed_position(&self.interactions, &agent_id) {
            Some(i) => {
                let (id, _) = self.interactions.remove(i);
                self.interactions.insert(i, (id, value));
                proof {
                    assert(interaction_pairs(self.interactions@) =~= pairs.update(
                        i as int,
                        (pairs[i as int].0, v),
                    ));
                    lemma_assoc_update(pairs, i as int, v);
                }
            },
            None => {
                proof {
                    assert forall|k: int| 0 <= k < pairs.len() implies #[trigger] pairs[k].0 != key by {
                        assert(self.interactions@[k].0@ != key);
                    }
                }
                self.interactions.push((agent_id, value));
                proof {
                    assert(interaction_pairs(self.interactions@) =~= pairs.push((key, v)));
                    lemma_assoc_push(pairs, key, v);
                }
            },
        }
    }

    /// Applies an event of the client to what the interface shows: the
    /// connection, the latest state of an agent, a transcript, an open
    /// question, or an error to report.
    pub fn apply_client_event(&mut self, event: ClientEvent<TranscriptSignal>, state: &ReplicatedState)
        requires
            old(self).wf(),
            state.wf(),
        ensures
            final(self).wf(),
            match event {
                ClientEvent::ConnectionChanged(status) => {
                    &&& final(self).connection == status
                    &&& (match status {
                        ConnectionStatus::Connected { device_id, .. } => final(self).own_device_id
                            == Some(device_id),
                        _ => final(self).own_device_id == old(self).own_device_id,
                    })
                    &&& final(self).agents == old(self).agents
                    &&& final(self).selected_agent == old(self).selected_agent
                    &&& final(self).transcripts == old(self).transcripts
                    &&& final(self).interactions == old(self).interactions
                    &&& final(self).devices == old(self).devices
                    &&& final(self).error == old(self).error
                },
                ClientEvent::StateChanged(agent_id) => if state@.agents.dom().contains(agent_id@) {
                    &&& final(self).agent_map() == old(self).agent_map().insert(
                        agent_id@,
                        state@.agents[agent_id@],
                    )
                    &&& opt_agent(final(self).selected_agent) == select_first(
                        opt_agent(old(self).selected_agent),
                        agent_id@,
                    )
                    &&& final(self).transcripts == old(self).transcripts
                    &&& final(self).connection == old(self).connection
                    &&& final(self).own_device_id == old(self).own_device_id
                    &&& final(self).interactions == old(self).interactions
                    &&& final(self).devices == old(self).devices
                    &&& final(self).error == old(self).error
                } else {
                    &&& final(self).agents == old(self).agents
                    &&& final(self).selected_agent == old(self).selected_agent
                    &&& final(self).transcripts == old(self).transcripts
                    &&& final(self).connection == old(self).connection
                    &&& final(self).own_device_id == old(self).own_device_id
                    &&& final(self).interactions == old(self).interactions
                    &&& final(self).devices == old(self).devices
                    &&& final(self).error == old(self).error
                },
                ClientEvent::AgentEvent(envelope) => final(self).transcript_map() == old(
                    self,
                ).transcript_map().insert(
                    envelope.agent_id@,
                    apply_signal(
                        transcript_or_empty(old(self).transcript_map(), envelope.agent_id@),
                        envelope.event_sequence.0,
                        envelope.event@,
                    ),
                ) && final(self).agents == old(self).agents && final(self).error == old(
                    self,
                ).error && final(self).interactions == old(self).interactions && final(self).selected_agent == old(self).selected_agent
                    && final(self).connection == old(self).connection && final(self).own_device_id
                    == old(self).own_device_id && final(self).devices == old(self).devices,
                ClientEvent::InteractionRequest(envelope) => final(self).interaction_map() == old(
                    self,
                ).interaction_map().insert(
                    envelope.agent_id@,
                    PendingInteraction { envelope, lease: InteractionLeaseState::Acquiring },
                ) && final(self).agents == old(self).agents && final(self).error == old(
                    self,
                ).error && final(self).transcripts == old(self).transcripts && final(self).selected_agent == old(self).selected_agent
                    && final(self).connection == old(self).connection && final(self).own_device_id
                    == old(self).own_device_id && final(self).devices == old(self).devices,
                ClientEvent::ResyncRequired(agent_id) => (final(self).error matches Some(message)
                    && message@ == agent_id@ + " requires a fresh state snapshot"@)
                    && final(self).agents == old(self).agents && final(self).transcripts == old(self).transcripts
                    && final(self).interactions == old(self).interactions && final(self).selected_agent == old(self).selected_agent
                    && final(self).connection == old(self).connection && final(self).own_device_id
                    == old(self).own_device_id && final(self).devices == old(self).devices,
                ClientEvent::ProtocolError(error) => final(self).error == Some(error.message)
                    && final(self).agents == old(self).agents && final(self).transcripts == old(self).transcripts
                    && final(self).interactions == old(self).interactions && final(self).selected_agent == old(self).selected_agent
                    && final(self).connection == old(self).connection && final(self).own_device_id
                    == old(self).own_device_id && final(self).devices == old(self).devices,
                ClientEvent::ReplicationError(error) => (final(self).error matches Some(message)
                    && message@ == replication_error_message(error@)) && final(self).agents == old(self).agents && final(self).transcripts == old(self).transcripts
                    && final(self).interactions == old(self).interactions && final(self).selected_agent == old(self).selected_agent
                    && final(self).connection == old(self).connection && final(self).own_device_id
                    == old(self).own_device_id && final(self).devices == old(self).devices,
            },
    {
        match event {
            ClientEvent::ConnectionChanged(status) => {
                match &status {
                    ConnectionStatus::Connected { device_id, .. } => {
                        self.own_device_id = Some(device_id.clone());
                    },
                    _ => {},
                }
                self.connection = status;
            },
            ClientEvent::StateChanged(agent_id) => {
                match state.agent(&agent_id) {
                    Some(agent) => {
                        let stored = agent.clone();
                        self.store_agent(stored);
                    },
                    None => {},
                }
            },
            ClientEvent::AgentEvent(envelope) => self.apply_agent_event(envelope),
            ClientEvent::InteractionRequest(envelope) => self.open_interaction(envelope),
            ClientEvent::ResyncRequired(agent_id) => {
                let mut message = agent_id.into_inner();
                message.append(" requires a fresh state snapshot");
                self.error = Some(message);
            },
            ClientEvent::ProtocolError(error) => {
                self.error = Some(error.message);
            },
            ClientEvent::ReplicationError(error) => {
                self.error = Some(error.to_string());
            },
        }
    }
}

/// `parts` joined by newlines.
pub open spec fn join_lines(parts: Seq<Seq<char>>) -> Seq<char>
    decreases parts.len(),
{
    if parts.len() == 0 {
        Seq::empty()
    } else if parts.len() == 1 {
        parts[0]
    } else {
        join_lines(parts.drop_last()) + seq!['\n'] + parts.last()
    }
}

/// The texts of the text blocks among `blocks`, in order; images are skipped.
pub open spec fn block_texts(blocks: Seq<UserContentBlock>) -> Seq<Seq<char>>
    decreases blocks.len(),
{
    if blocks.len() == 0 {
        Seq::empty()
    } else {
        let rest = block_texts(blocks.drop_last());
        match blocks.last() {
            UserContentBlock::Text(text) => rest.push(text.text@),
            UserContentBlock::Image(_) => rest,
        }
    }
}

/// The text a transcript shows for a user message's content.
pub open spec fn message_content_text(content: MessageContent) -> Seq<char> {
    match content {
        MessageContent::Text(text) => text@,
        MessageContent::Blocks(blocks) => join_lines(block_texts(blocks@)),
    }
}

/// The text of a user message's content: the plain text, or the text blocks
/// joined by newlines.
pub fn render_message_content(content: &MessageContent) -> (r: String)
    ensures
        r@ == message_content_text(*content),
{
    match content {
        MessageContent::Text(text) => text.clone(),
        MessageContent::Blocks(blocks) => {
            let mut out = String::new();
            let mut any = false;
            let mut i: usize = 0;
            proof {
                assert(blocks@.take(0) =~= Seq::<UserContentBlock>::empty());
            }
            while i < blocks.len()
                invariant
                    i <= blocks.len(),
                    out@ == join_lines(block_texts(blocks@.take(i as int))),
                    any == (block_texts(blocks@.take(i as int)).len() > 0),
                decreases blocks.len() - i,
            {
                proof {
                    assert(blocks@.take(i + 1).drop_last() =~= blocks@.take(i as int));
                    assert(blocks@.take(i + 1).last() == blocks@[i as int]);
                }
                match &blocks[i] {
                    UserContentBlock::Text(text) => {
                        let ghost parts = block_texts(blocks@.take(i as int));
                        if any {
                            out.append("\n");
                            proof {
                                reveal_strlit("\n");
                                assert(parts.push(text.text@).drop_last() =~= parts);
                            }
                        } else {
                            proof {
                                assert(parts.len() == 0);
                                assert(out@ =~= Seq::<char>::empty());
                            }
                        }
                        out.append(text.text.as_str());
                        any = true;
                    },
                    UserContentBlock::Image(_) => {},
                }
                i = i + 1;
            }
            proof {
                assert(blocks@.take(blocks.len() as int) =~= blocks@);
            }
            out
        },
    }
}

/// Dismissing an interaction twice is dismissing it once: the second
/// dismissal finds no question of that agent and changes nothing.
pub proof fn lemma_dismiss_idempotent(interactions: Map<Seq<char>, PendingInteraction>, agent_id: Seq<char>)
    ensures
        interactions.remove(agent_id).remove(agent_id) == interactions.remove(agent_id),
{
    assert(interactions.remove(agent_id).remove(agent_id) =~= interactions.remove(agent_id));
}

/// `after` is `before` with `e` added as the newest entry, the oldest entry
/// dropped when `before` was already full.
pub open spec fn adds_newest(
    before: Seq<TranscriptEntryView>,
    after: Seq<TranscriptEntryView>,
    e: TranscriptEntryView,
) -> bool {
    &&& after.len() == (if before.len() < MAX_TRANSCRIPT_ENTRIES {
        before.len() + 1int
    } else {
        MAX_TRANSCRIPT_ENTRIES as int
    })
    &&& after.last() == e
    &&& after.drop_last() == before.subrange(before.len() + 1 - after.len(), before.len() as int)
}

/// Adding an entry to a transcript that keeps its bound adds it as the newest.
proof fn lemma_bounded_push_adds_newest(entries: Seq<TranscriptEntryView>, e: TranscriptEntryView)
    requires
        entries.len() <= MAX_TRANSCRIPT_ENTRIES,
    ensures
        adds_newest(entries, bounded_push(entries, e), e),
{
    let after = bounded_push(entries, e);
    if entries.len() == MAX_TRANSCRIPT_ENTRIES {
        assert(after.drop_last() =~= entries.subrange(1, entries.len() as int));
    } else {
        assert(after.drop_last() =~= entries.subrange(0, entries.len() as int));
    }
}

/// Appending streamed text that fits in the byte limit appends all of it.
proof fn lemma_bounded_append_fits(target: Seq<char>, delta: Seq<char>)
    requires
        vstd::utf8::encode_utf8(target + delta).len() <= MAX_PARTIAL_TEXT_BYTES,
    ensures
        bounded_append(target, delta) == target + delta,
{
    lemma_encode_utf8_concat(target, delta);
    let bytes = vstd::utf8::encode_utf8(delta);
    vstd::utf8::encode_utf8_decode_utf8(delta);
    if vstd::utf8::encode_utf8(target).len() >= MAX_PARTIAL_TEXT_BYTES {
        assert(bytes.len() == 0);
        assert(bytes =~= Seq::<u8>::empty());
        vstd::utf8::encode_utf8_decode_utf8(Seq::<char>::empty());
        assert(vstd::utf8::encode_utf8(Seq::<char>::empty()) =~= Seq::<u8>::empty()) by {
            reveal_with_fuel(vstd::utf8::encode_utf8, 1);
        }
        assert(delta =~= Seq::<char>::empty());
        assert(target + delta =~= target);
    } else {
        vstd::utf8::encode_utf8_valid_utf8(delta);
        vstd::utf8::is_char_boundary_start_end_of_seq(bytes);
        assert(bytes.subrange(0, bytes.len() as int) =~= bytes);
    }
}

/// What each frame does to a transcript that keeps its bounds:
/// - a user message, tool start or end, notice or command output adds one
///   newest entry of its kind and text at the frame's sequence, keeping the
///   streamed texts;
/// - streamed assistant text or thinking extends only that streamed text,
///   by all of it when it fits;
/// - the end of an assistant message clears both streamed texts and adds,
///   as its newest entry, the streamed reply or, when nothing was streamed,
///   the message's own text; streamed thinking is kept as an entry before
///   it, and a message with nothing to show and no thinking adds nothing;
/// - any other frame changes nothing.
pub proof fn lemma_transcript_frames(t: TranscriptView, sequence: u64, signal: TranscriptSignalView)
    requires
        t.entries.len() <= MAX_TRANSCRIPT_ENTRIES,
    ensures
        signal matches TranscriptSignalView::UserMessage { text } ==> adds_newest(
            t.entries,
            apply_signal(t, sequence, signal).entries,
            entry(sequence, TranscriptKind::User, text),
        ),
        signal matches TranscriptSignalView::ToolStarted { tool_name, arguments, intent }
            ==> adds_newest(
            t.entries,
            apply_signal(t, sequence, signal).entries,
            entry(sequence, TranscriptKind::Tool, tool_start_text(tool_name, arguments, intent)),
        ),
        signal matches TranscriptSignalView::ToolFinished { tool_name, result, failed }
            ==> adds_newest(
            t.entries,
            apply_signal(t, sequence, signal).entries,
            entry(sequence, TranscriptKind::Tool, tool_end_text(tool_name, result, failed)),
        ),
        signal matches TranscriptSignalView::Notice { level, message } ==> adds_newest(
            t.entries,
            apply_signal(t, sequence, signal).entries,
            entry(sequence, TranscriptKind::System, notice_text(level, message)),
        ),
        signal matches TranscriptSignalView::CommandOutput { text } ==> adds_newest(
            t.entries,
            apply_signal(t, sequence, signal).entries,
            entry(sequence, TranscriptKind::System, text),
        ),
        (signal is UserMessage || signal is ToolStarted || signal is ToolFinished
            || signal is Notice || signal is CommandOutput) ==> apply_signal(
            t,
            sequence,
            signal,
        ).partial_assistant == t.partial_assistant && apply_signal(
            t,
            sequence,
            signal,
        ).partial_thinking == t.partial_thinking,
        signal matches TranscriptSignalView::AssistantTextDelta { delta } ==> {
            let r = apply_signal(t, sequence, signal);
            &&& r.entries == t.entries && r.partial_thinking == t.partial_thinking
            &&& t.partial_assistant.is_prefix_of(r.partial_assistant)
            &&& vstd::utf8::encode_utf8(t.partial_assistant + delta).len()
                <= MAX_PARTIAL_TEXT_BYTES ==> r.partial_assistant == t.partial_assistant + delta
        },
        signal matches TranscriptSignalView::ThinkingDelta { delta } ==> {
            let r = apply_signal(t, sequence, signal);
            &&& r.entries == t.entries && r.partial_assistant == t.partial_assistant
            &&& t.partial_thinking.is_prefix_of(r.partial_thinking)
            &&& vstd::utf8::encode_utf8(t.partial_thinking + delta).len()
                <= MAX_PARTIAL_TEXT_BYTES ==> r.partial_thinking == t.partial_thinking + delta
        },
        signal matches TranscriptSignalView::AssistantMessageEnd { text } ==> {
            let r = apply_signal(t, sequence, signal);
            &&& r.partial_assistant.len() == 0 && r.partial_thinking.len() == 0
            &&& t.partial_assistant.len() > 0 ==> r.entries.len() > 0 && r.entries.last() == entry(
                sequence,
                TranscriptKind::Assistant,
                t.partial_assistant,
            )
            &&& t.partial_assistant.len() == 0 && text.len() > 0 ==> r.entries.len() > 0
                && r.entries.last() == entry(sequence, TranscriptKind::Assistant, text)
            &&& t.partial_thinking.len() == 0 && t.partial_assistant.len() == 0 && text.len() > 0
                ==> adds_newest(t.entries, r.entries, entry(sequence, TranscriptKind::Assistant, text))
            &&& t.partial_thinking.len() > 0 && (t.partial_assistant.len() > 0 || text.len() > 0)
                ==> r.entries.len() >= 2 && r.entries[r.entries.len() - 2] == entry(
                sequence,
                TranscriptKind::Thinking,
                t.partial_thinking,
            )
            &&& t.partial_thinking.len() > 0 && t.partial_assistant.len() == 0 && text.len() == 0
                ==> adds_newest(t.entries, r.entries, entry(sequence, TranscriptKind::Thinking, t.partial_thinking))
            &&& t.partial_thinking.len() == 0 && t.partial_assistant.len() == 0 && text.len() == 0
                ==> r.entries == t.entries
        },
        signal is Other ==> apply_signal(t, sequence, signal) == t,
{
    match signal {
        TranscriptSignalView::UserMessage { text } => {
            lemma_bounded_push_adds_newest(t.entries, entry(sequence, TranscriptKind::User, text));
        },
        TranscriptSignalView::ToolStarted { tool_name, arguments, intent } => {
            lemma_bounded_push_adds_newest(
                t.entries,
                entry(sequence, TranscriptKind::Tool, tool_start_text(tool_name, arguments, intent)),
            );
        },
        TranscriptSignalView::ToolFinished { tool_name, result, failed } => {
            lemma_bounded_push_adds_newest(
                t.entries,
                entry(sequence, TranscriptKind::Tool, tool_end_text(tool_name, result, failed)),
            );
        },
        TranscriptSignalView::Notice { level, message } => {
            lemma_bounded_push_adds_newest(
                t.entries,
                entry(sequence, TranscriptKind::System, notice_text(level, message)),
            );
        },
        TranscriptSignalView::CommandOutput { text } => {
            lemma_bounded_push_adds_newest(t.entries, entry(sequence, TranscriptKind::System, text));
        },
        TranscriptSignalView::AssistantTextDelta { delta } => {
            let r = apply_signal(t, sequence, signal);
            assert(t.partial_assistant.is_prefix_of(r.partial_assistant)) by {
                assert(r.partial_assistant.subrange(0, t.partial_assistant.len() as int)
                    =~= t.partial_assistant);
            }
            if vstd::utf8::encode_utf8(t.partial_assistant + delta).len() <= MAX_PARTIAL_TEXT_BYTES {
                lemma_bounded_append_fits(t.partial_assistant, delta);
            }
        },
        TranscriptSignalView::ThinkingDelta { delta } => {
            let r = apply_signal(t, sequence, signal);
            assert(t.partial_thinking.is_prefix_of(r.partial_thinking)) by {
                assert(r.partial_thinking.subrange(0, t.partial_thinking.len() as int)
                    =~= t.partial_thinking);
            }
            if vstd::utf8::encode_utf8(t.partial_thinking + delta).len() <= MAX_PARTIAL_TEXT_BYTES {
                lemma_bounded_append_fits(t.partial_thinking, delta);
            }
        },
        TranscriptSignalView::AssistantMessageEnd { text } => {
            let thinking = entry(sequence, TranscriptKind::Thinking, t.partial_thinking);
            let with_thinking = if t.partial_thinking.len() > 0 {
                bounded_push(t.entries, thinking)
            } else {
                t.entries
            };
            if t.partial_thinking.len() > 0 {
                lemma_bounded_push_adds_newest(t.entries, thinking);
            }
            let shown = if t.partial_assistant.len() == 0 {
                text
            } else {
                t.partial_assistant
            };
            if shown.len() > 0 {
                let reply = entry(sequence, TranscriptKind::Assistant, shown);
                lemma_bounded_push_adds_newest(with_thinking, reply);
                let after = bounded_push(with_thinking, reply);
                if t.partial_thinking.len() > 0 {
                    assert(with_thinking.last() == thinking);
                    assert(after[after.len() - 2] == after.drop_last()[after.len() - 2]);
                    assert(after.drop_last()[after.len() - 2] == with_thinking[with_thinking.len() - 1]);
                }
            }
        },
        _ => {},
    }
}

/// An agent's frame continues the agent's own transcript, and the first
/// frame of an agent starts from a transcript with no entries and nothing
/// streamed; the first user message of an agent is its only entry.
pub proof fn lemma_frames_continue_the_agents_transcript(
    transcripts: Map<Seq<char>, TranscriptView>,
    agent_id: Seq<char>,
    sequence: u64,
    text: Seq<char>,
)
    ensures
        transcripts.dom().contains(agent_id) ==> transcript_or_empty(transcripts, agent_id)
            == transcripts[agent_id],
        !transcripts.dom().contains(agent_id) ==> transcript_or_empty(
            transcripts,
            agent_id,
        ).entries.len() == 0 && transcript_or_empty(transcripts, agent_id).partial_assistant.len()
            == 0 && transcript_or_empty(transcripts, agent_id).partial_thinking.len() == 0,
        !transcripts.dom().contains(agent_id) ==> apply_signal(
            transcript_or_empty(transcripts, agent_id),
            sequence,
            TranscriptSignalView::UserMessage { text },
        ).entries == seq![entry(sequence, TranscriptKind::User, text)],
{
    if !transcripts.dom().contains(agent_id) {
        lemma_bounded_push_adds_newest(
            Seq::empty(),
            entry(sequence, TranscriptKind::User, text),
        );
        assert(apply_signal(
            transcript_or_empty(transcripts, agent_id),
            sequence,
            TranscriptSignalView::UserMessage { text },
        ).entries =~= seq![entry(sequence, TranscriptKind::User, text)]);
    }
}

} // verus!
