use vstd::prelude::*;
use std::collections::BTreeMap;


verus! {

/// The identifier of one command sent to an agent process and of its response.
#[derive(Debug, PartialEq, Eq)]
pub struct RequestId(String);

impl View for RequestId {
    type V = Seq<char>;

    closed spec fn view(&self) -> Seq<char> {
        self.0@
    }
}

impl RequestId {
    /// Wraps the identifier text.
    pub fn new(value: String) -> (r: Self)
        ensures
            r@ == value@,
    {
        RequestId(value)
    }

    /// The identifier text.
    pub fn as_str(&self) -> (r: &str)
        ensures
            r@ == self@,
    {
        self.0.as_str()
    }

    /// Gives up the wrapper and returns the text.
    pub fn into_inner(self) -> (r: String)
        ensures
            r@ == self@,
    {
        self.0
    }
}

impl Clone for RequestId {
    fn clone(&self) -> (r: Self)
        ensures
            r == *self,
    {
        RequestId(self.0.clone())
    }
}

/// Compares two request identifiers by text.
pub fn same_request_id(left: &RequestId, right: &RequestId) -> (r: bool)
    ensures
        r == (left@ == right@),
{
    left.0 == right.0
}

/// The versions of the agent process's line protocol.
#[derive(Clone, Copy, Debug, PartialEq, Eq)]
pub enum ProtocolVersion {
    V1,
    V2,
}

/// The marker of protocol version two, the only version a client negotiates.
#[derive(Clone, Copy, Debug, PartialEq, Eq)]
pub struct ProtocolV2;

impl ProtocolV2 {
    /// Accepts the wire number of protocol version two and nothing else.
    pub fn from_wire(value: u8) -> (r: Option<ProtocolV2>)
        ensures
            r is Some <==> value == 2,
    {
        if value == 2 {
            Some(ProtocolV2)
        } else {
            None
        }
    }

    /// The wire number of protocol version two.
    pub fn to_wire(&self) -> (r: u8)
        ensures
            r == 2,
    {
        2
    }
}

/// How a prompt sent while the agent is busy is delivered.
#[derive(Clone, Copy, Debug, PartialEq, Eq)]
pub enum StreamingBehavior {
    Steer,
    FollowUp,
}

/// How queued steering or follow-up messages are delivered.
#[derive(Clone, Copy, Debug, PartialEq, Eq)]
pub enum QueueMode {
    All,
    OneAtATime,
}

/// When an interrupting message takes effect.
#[derive(Clone, Copy, Debug, PartialEq, Eq)]
pub enum InterruptMode {
    Immediate,
    Wait,
}

/// How much of its subagents' activity an agent reports.
#[derive(Clone, Copy, Debug, PartialEq, Eq)]
pub enum SubagentSubscriptionLevel {
    Off,
    Progress,
    Events,
}

/// Where an agent definition comes from.
#[derive(Clone, Copy, Debug, PartialEq, Eq)]
pub enum AgentSource {
    Bundled,
    User,
    Project,
}

/// How strictly a structured subagent's output schema is enforced.
#[derive(Clone, Copy, Debug, PartialEq, Eq)]
pub enum StructuredSubagentSchemaMode {
    Permissive,
    Strict,
}

/// Who a message is attributed to.
#[derive(Clone, Copy, Debug, PartialEq, Eq)]
pub enum MessageAttribution {
    User,
    Agent,
}

/// Whether a host tool is always loaded or discovered on demand.
#[derive(Clone, Copy, Debug, PartialEq, Eq)]
pub enum ToolLoadMode {
    Essential,
    Discoverable,
}

/// The severity of a notice from the agent.
#[derive(Clone, Copy, Debug, PartialEq, Eq)]
pub enum NoticeLevel {
    Info,
    Warning,
    Error,
}

/// Why automatic compaction started.
#[derive(Clone, Copy, Debug, PartialEq, Eq)]
pub enum AutoCompactionReason {
    Threshold,
    Overflow,
    Idle,
    Incomplete,
}

/// What automatic compaction does.
#[derive(Clone, Copy, Debug, PartialEq, Eq)]
pub enum CompactionAction {
    ContextFull,
    Handoff,
    Shake,
    Snapcompact,
}

/// A reasoning effort a model supports.
#[derive(Clone, Copy, Debug, PartialEq, Eq, PartialOrd, Ord)]
pub enum Effort {
    Minimal,
    Low,
    Medium,
    High,
    XHigh,
    Max,
}

/// The thinking level requested of a model.
#[derive(Clone, Copy, Debug, PartialEq, Eq)]
pub enum ThinkingLevel {
    Inherit,
    Off,
    Minimal,
    Low,
    Medium,
    High,
    XHigh,
    Max,
}

impl From<Effort> for ThinkingLevel {
    fn from(effort: Effort) -> (r: Self) {
        match effort {
            Effort::Minimal => ThinkingLevel::Minimal,
            Effort::Low => ThinkingLevel::Low,
            Effort::Medium => ThinkingLevel::Medium,
            Effort::High => ThinkingLevel::High,
            Effort::XHigh => ThinkingLevel::XHigh,
            Effort::Max => ThinkingLevel::Max,
        }
    }
}

impl vstd::std_specs::convert::FromSpecImpl<Effort> for ThinkingLevel {
    open spec fn obeys_from_spec() -> bool {
        true
    }

    open spec fn from_spec(effort: Effort) -> Self {
        match effort {
            Effort::Minimal => ThinkingLevel::Minimal,
            Effort::Low => ThinkingLevel::Low,
            Effort::Medium => ThinkingLevel::Medium,
            Effort::High => ThinkingLevel::High,
            Effort::XHigh => ThinkingLevel::XHigh,
            Effort::Max => ThinkingLevel::Max,
        }
    }
}

/// The thinking level configured for an agent, which may be left to the agent.
#[derive(Clone, Copy, Debug, PartialEq, Eq)]
pub enum ConfiguredThinkingLevel {
    Auto,
    Inherit,
    Off,
    Minimal,
    Low,
    Medium,
    High,
    XHigh,
    Max,
}

/// A kind of input a model accepts.
#[derive(Clone, Copy, Debug, PartialEq, Eq)]
pub enum ModelInput {
    Text,
    Image,
}

/// How a model's thinking is controlled.
#[derive(Clone, Copy, Debug, PartialEq, Eq)]
pub enum ThinkingControlMode {
    Effort,
    Budget,
    GoogleLevel,
    AnthropicAdaptive,
    AnthropicBudgetEffort,
}

/// How a model's thinking is configured: the control mode, the efforts it
/// offers, and the optional per-effort names, routes and token budgets.
#[derive(Clone, Debug, PartialEq, Eq)]
pub struct ThinkingConfig {
    pub mode: ThinkingControlMode,
    pub efforts: Vec<Effort>,
    pub default_level: Option<Effort>,
    pub effort_map: Option<BTreeMap<Effort, String>>,
    pub supports_display: Option<bool>,
    pub effort_routing: Option<BTreeMap<String, String>>,
    pub effort_budgets: Option<BTreeMap<Effort, u64>>,
    pub suppress_when_off: Option<bool>,
    pub requires_effort: Option<bool>,
}

/// A model's special reasoning mode.
#[derive(Clone, Copy, Debug, PartialEq, Eq)]
pub enum ReasoningMode {
    Pro,
}

/// The decoder a model uses for image input.
#[derive(Clone, Copy, Debug, PartialEq, Eq)]
pub enum ImageInputDecoder {
    Stb,
}

/// The transport a model is reached through.
#[derive(Clone, Copy, Debug, PartialEq, Eq)]
pub enum ModelTransport {
    PiNative,
}

/// The shape of a model's patch tool.
#[derive(Clone, Copy, Debug, PartialEq, Eq)]
pub enum ApplyPatchToolType {
    Freeform,
    Function,
}

/// Token usage of orchestration work.
#[derive(Clone, Copy, Debug, PartialEq, Eq)]
pub struct OrchestrationUsage {
    pub input: Option<u64>,
    pub cache_read: Option<u64>,
    pub output: Option<u64>,
}

/// Cache writes by time to live.
#[derive(Clone, Copy, Debug, PartialEq, Eq)]
pub struct CacheWriteTtlUsage {
    pub ephemeral5m: Option<u64>,
    pub ephemeral1h: Option<u64>,
}

/// Uses of server-side tools.
#[derive(Clone, Copy, Debug, PartialEq, Eq)]
pub struct ServerToolUsage {
    pub web_search: Option<u64>,
    pub web_fetch: Option<u64>,
}

/// The status of a todo item.
#[derive(Clone, Copy, Debug, PartialEq, Eq)]
pub enum TodoStatus {
    Pending,
    InProgress,
    Completed,
    Abandoned,
    Blocked,
}

/// One todo item of an agent.
#[derive(Clone, Debug, PartialEq, Eq)]
pub struct TodoItem {
    pub content: String,
    pub status: TodoStatus,
    pub blocker: Option<String>,
}

/// A named phase of todo items.
#[derive(Clone, Debug, PartialEq, Eq)]
pub struct TodoPhase {
    pub name: String,
    pub tasks: Vec<TodoItem>,
}

/// A service tier of a model provider.
#[derive(Clone, Copy, Debug, PartialEq, Eq)]
pub enum ServiceTier {
    Auto,
    Default,
    Flex,
    Scale,
    Priority,
}

/// The service tier chosen for each provider family.
#[derive(Clone, Copy, Debug, PartialEq, Eq)]
pub struct ServiceTierByFamily {
    pub openai: Option<ServiceTier>,
    pub anthropic: Option<ServiceTier>,
    pub google: Option<ServiceTier>,
}

/// Where a session title comes from.
#[derive(Clone, Copy, Debug, PartialEq, Eq)]
pub enum SessionTitleSource {
    Auto,
    User,
}

/// Token counts of a session.
#[derive(Clone, Copy, Debug, PartialEq, Eq)]
pub struct SessionTokenStats {
    pub input: u64,
    pub output: u64,
    pub reasoning: u64,
    pub cache_read: u64,
    pub cache_write: u64,
    pub total: u64,
}

/// The outcome of a shell command run for the user: its captured output,
/// how it ended, and how much of its output was kept.
#[derive(Clone, Debug, PartialEq, Eq)]
pub struct BashResult {
    pub output: String,
    pub exit_code: Option<i32>,
    pub cancelled: bool,
    pub timed_out: Option<bool>,
    pub truncated: bool,
    pub total_lines: u64,
    pub total_bytes: u64,
    pub output_lines: u64,
    pub output_bytes: u64,
    pub artifact_id: Option<String>,
    pub working_dir: Option<String>,
}

/// How the context window of a session is used.
#[derive(Clone, Copy, Debug, PartialEq, Eq)]
pub struct ContextUsageBreakdown {
    pub context_window: u64,
    pub anchored: bool,
    pub used_tokens: u64,
    pub system_prompt_tokens: u64,
    pub system_tools_tokens: u64,
    pub system_context_tokens: u64,
    pub skills_tokens: u64,
    pub messages_tokens: u64,
}

/// The common fields of a session entry.
#[derive(Clone, Debug, PartialEq, Eq)]
pub struct SessionEntryBase {
    pub id: String,
    pub parent_id: Option<String>,
    pub timestamp: String,
}

/// A message on a session branch.
#[derive(Clone, Debug, PartialEq, Eq)]
pub struct BranchMessage {
    pub entry_id: String,
    pub text: String,
}

/// The detail an image is sent at.
#[derive(Clone, Copy, Debug, PartialEq, Eq)]
pub enum ImageDetail {
    Auto,
    Low,
    High,
    Original,
}

/// An image attached to a message.
#[derive(Debug, PartialEq, Eq)]
pub struct ImageContent {
    pub data: String,
    pub mime_type: String,
    pub detail: Option<ImageDetail>,
}

/// The content of an image.
pub struct ImageContentView {
    pub data: Seq<char>,
    pub mime_type: Seq<char>,
    pub detail: Option<ImageDetail>,
}

impl View for ImageContent {
    type V = ImageContentView;

    open spec fn view(&self) -> ImageContentView {
        ImageContentView { data: self.data@, mime_type: self.mime_type@, detail: self.detail }
    }
}

impl Clone for ImageContent {
    fn clone(&self) -> (r: Self)
        ensures
            r == *self,
    {
        ImageContent {
            data: self.data.clone(),
            mime_type: self.mime_type.clone(),
            detail: self.detail,
        }
    }
}

/// The content of a list of images.
pub open spec fn images_view(images: Seq<ImageContent>) -> Seq<ImageContentView> {
    images.map_values(|image: ImageContent| image@)
}

/// Copies a list of images.
pub fn clone_images(values: &Vec<ImageContent>) -> (r: Vec<ImageContent>)
    ensures
        r@ == values@,
        images_view(r@) == images_view(values@),
{
    let mut out: Vec<ImageContent> = Vec::new();
    let mut i: usize = 0;
    while i < values.len()
        invariant
            i <= values.len(),
            out@.len() == i,
            forall|j: int| 0 <= j < i ==> #[trigger] out@[j] == values@[j],
        decreases values.len() - i,
    {
        out.push(values[i].clone());
        i = i + 1;
    }
    proof {
        assert(out@ =~= values@);
        assert(images_view(out@) =~= images_view(values@));
    }
    out
}

/// Text attached to a message.
#[derive(Clone, Debug, PartialEq, Eq)]
pub struct TextContent {
    pub text: String,
    pub text_signature: Option<String>,
}

/// One block of a user message.
#[derive(Clone, Debug, PartialEq, Eq)]
pub enum UserContentBlock {
    Text(TextContent),
    Image(ImageContent),
}

/// The content of a user message: plain text or blocks.
#[derive(Clone, Debug, PartialEq, Eq)]
pub enum MessageContent {
    Text(String),
    Blocks(Vec<UserContentBlock>),
}

/// One block of a tool result.
#[derive(Clone, Debug, PartialEq, Eq)]
pub enum ToolResultContent {
    Text(TextContent),
    Image(ImageContent),
}

/// The kind of a notification shown by an extension.
#[derive(Clone, Copy, Debug, PartialEq, Eq)]
pub enum NotificationType {
    Info,
    Warning,
    Error,
}

/// Where an extension widget is placed relative to the editor.
#[derive(Clone, Copy, Debug, PartialEq, Eq)]
pub enum WidgetPlacement {
    AboveEditor,
    BelowEditor,
}

/// A question or instruction an extension sends to the user interface.
#[derive(Clone, Debug, PartialEq, Eq)]
pub enum ExtensionUiRequest {
    Select { title: String, options: Vec<String>, timeout: Option<u64> },
    Confirm { title: String, message: String, timeout: Option<u64> },
    Input { title: String, placeholder: Option<String>, timeout: Option<u64> },
    Editor { title: String, prefill: Option<String>, prompt_style: Option<bool> },
    Cancel { target_id: String },
    Notify { message: String, notify_type: Option<NotificationType> },
    SetStatus { status_key: String, status_text: Option<String> },
    SetWidget {
        widget_key: String,
        widget_lines: Option<Vec<String>>,
        widget_placement: Option<WidgetPlacement>,
    },
    SetTitle { title: String },
    SetEditorText { text: String },
    OpenUrl { url: String, launch_url: Option<String>, instructions: Option<String> },
}

/// An extension user-interface request with its identifier.
#[derive(Clone, Debug, PartialEq, Eq)]
pub enum ExtensionUiRequestFrame {
    Request { id: String, request: ExtensionUiRequest },
}

/// The user's answer to an extension request.
#[derive(Debug, PartialEq, Eq)]
pub enum ExtensionUiResponse {
    Value { value: String },
    Confirmed { confirmed: bool },
    Cancelled { timed_out: Option<bool> },
}

/// The content of an extension answer.
pub enum ExtensionUiResponseView {
    Value { value: Seq<char> },
    Confirmed { confirmed: bool },
    Cancelled { timed_out: Option<bool> },
}

impl View for ExtensionUiResponse {
    type V = ExtensionUiResponseView;

    open spec fn view(&self) -> ExtensionUiResponseView {
        match self {
            ExtensionUiResponse::Value { value } => ExtensionUiResponseView::Value {
                value: value@,
            },
            ExtensionUiResponse::Confirmed { confirmed } => ExtensionUiResponseView::Confirmed {
                confirmed: *confirmed,
            },
            ExtensionUiResponse::Cancelled { timed_out } => ExtensionUiResponseView::Cancelled {
                timed_out: *timed_out,
            },
        }
    }
}

impl Clone for ExtensionUiResponse {
    fn clone(&self) -> (r: Self)
        ensures
            r == *self,
    {
        match self {
            ExtensionUiResponse::Value { value } => ExtensionUiResponse::Value {
                value: value.clone(),
            },
            ExtensionUiResponse::Confirmed { confirmed } => ExtensionUiResponse::Confirmed {
                confirmed: *confirmed,
            },
            ExtensionUiResponse::Cancelled { timed_out } => ExtensionUiResponse::Cancelled {
                timed_out: *timed_out,
            },
        }
    }
}

impl ExtensionUiResponse {
    /// Reads an answer from its wire fields; a cancellation must say that it
    /// cancelled.
    pub fn from_cancellation(cancelled: bool, timed_out: Option<bool>) -> (r: Option<Self>)
        ensures
            cancelled ==> (r matches Some(ExtensionUiResponse::Cancelled { timed_out: t }) && t
                == timed_out),
            !cancelled ==> r is None,
    {
        if cancelled {
            Some(ExtensionUiResponse::Cancelled { timed_out })
        } else {
            None
        }
    }
}

/// An answer to an extension request, with the request's identifier.
#[derive(Debug, PartialEq, Eq)]
pub enum ExtensionUiResponseFrame {
    Response { id: String, response: ExtensionUiResponse },
}

/// The content of an extension answer frame.
pub struct ExtensionUiResponseFrameView {
    pub id: Seq<char>,
    pub response: ExtensionUiResponseView,
}

impl View for ExtensionUiResponseFrame {
    type V = ExtensionUiResponseFrameView;

    open spec fn view(&self) -> ExtensionUiResponseFrameView {
        match self {
            ExtensionUiResponseFrame::Response { id, response } => ExtensionUiResponseFrameView {
                id: id@,
                response: response@,
            },
        }
    }
}

impl Clone for ExtensionUiResponseFrame {
    fn clone(&self) -> (r: Self)
        ensures
            r == *self,
    {
        match self {
            ExtensionUiResponseFrame::Response { id, response } =>
                ExtensionUiResponseFrame::Response { id: id.clone(), response: response.clone() },
        }
    }
}

/// A validated page size for reading an agent's messages: from 1 to 256.
#[derive(Clone, Copy, Debug, PartialEq, Eq, PartialOrd, Ord)]
pub struct MessagePageLimit(u16);

/// A page size outside the accepted range.
#[derive(Clone, Copy, Debug, PartialEq, Eq)]
pub struct MessagePageLimitError(pub u16);

impl View for MessagePageLimit {
    type V = u16;

    closed spec fn view(&self) -> u16 {
        self.0
    }
}

impl MessagePageLimit {
    /// The smallest page size.
    pub const MIN: u16 = 1;

    /// The largest page size.
    pub const MAX: u16 = 256;

    /// Accepts a page size from 1 to 256.
    pub fn new(value: u16) -> (r: Result<Self, MessagePageLimitError>)
        ensures
            r is Ok <==> 1 <= value <= 256,
            r matches Ok(limit) ==> limit@ == value,
            r matches Err(e) ==> e.0 == value,
    {
        if Self::MIN <= value && value <= Self::MAX {
            Ok(MessagePageLimit(value))
        } else {
            Err(MessagePageLimitError(value))
        }
    }

    /// The page size.
    pub fn get(self) -> (r: u16)
        ensures
            r == self@,
    {
        self.0
    }
}

impl MessagePageLimitError {
    /// The human-readable message of the error.
    pub fn to_string(&self) -> (r: String)
        ensures
            r@ == "RPC message page limit must be between 1 and 256, got "@ + crate::text::decimal(
                self.0 as nat,
            ),
    {
        let mut out = String::from_str("RPC message page limit must be between 1 and 256, got ");
        crate::text::push_decimal(&mut out, self.0 as u64);
        out
    }
}

/// Selects the transcript of a subagent by its identifier or its session file.
#[derive(Clone, Debug, PartialEq, Eq)]
pub enum SubagentTranscriptSelector {
    SubagentId { subagent_id: String },
    SessionFile { session_file: String },
}

/// The result of a protocol negotiation.
#[derive(Clone, Copy, Debug, PartialEq, Eq)]
pub struct NegotiatedProtocol {
    pub protocol_version: ProtocolV2,
}

/// Whether a prompt started the agent or was handled locally.
#[derive(Clone, Copy, Debug, PartialEq, Eq)]
pub struct PromptAcknowledgement {
    pub agent_invoked: bool,
}

/// Whether an operation was cancelled.
#[derive(Clone, Copy, Debug, PartialEq, Eq)]
pub struct CancelledResult {
    pub cancelled: bool,
}

/// The names of the host tools that were set.
#[derive(Clone, Debug, PartialEq, Eq)]
pub struct SetHostToolsResult {
    pub tool_names: Vec<String>,
}

/// The host URI schemes that were set.
#[derive(Clone, Debug, PartialEq, Eq)]
pub struct SetHostUriSchemesResult {
    pub schemes: Vec<String>,
}

/// The todo phases that were set.
#[derive(Clone, Debug, PartialEq, Eq)]
pub struct SetTodosResult {
    pub todo_phases: Vec<TodoPhase>,
}

/// The subagent subscription level that was set.
#[derive(Clone, Copy, Debug, PartialEq, Eq)]
pub struct SetSubagentSubscriptionResult {
    pub level: SubagentSubscriptionLevel,
}

/// The thinking level after cycling.
#[derive(Clone, Copy, Debug, PartialEq, Eq)]
pub struct ThinkingLevelCycleResult {
    pub level: Effort,
}

/// Where an HTML export was written.
#[derive(Clone, Debug, PartialEq, Eq)]
pub struct ExportHtmlResult {
    pub path: String,
}

/// The text of a new branch and whether branching was cancelled.
#[derive(Clone, Debug, PartialEq, Eq)]
pub struct BranchResult {
    pub text: String,
    pub cancelled: bool,
}

/// The messages of the current branch.
#[derive(Clone, Debug, PartialEq, Eq)]
pub struct BranchMessagesResult {
    pub messages: Vec<BranchMessage>,
}

/// The text of the last assistant message, if any.
#[derive(Clone, Debug, PartialEq, Eq)]
pub struct LastAssistantTextResult {
    pub text: Option<String>,
}

/// Where a handoff was saved, if it was.
#[derive(Clone, Debug, PartialEq, Eq)]
pub struct HandoffResult {
    pub saved_path: Option<String>,
}

/// A provider the agent can log in to.
#[derive(Clone, Debug, PartialEq, Eq)]
pub struct LoginProvider {
    pub id: String,
    pub name: String,
    pub available: bool,
    pub authenticated: bool,
}

/// The providers the agent can log in to.
#[derive(Clone, Debug, PartialEq, Eq)]
pub struct LoginProvidersResult {
    pub providers: Vec<LoginProvider>,
}

/// The provider a login was started for.
#[derive(Clone, Debug, PartialEq, Eq)]
pub struct LoginResult {
    pub provider_id: String,
}

/// The slash commands an agent offers.
#[derive(Clone, Debug, PartialEq)]
pub struct AvailableCommands {
    pub commands: Vec<crate::commands::AvailableSlashCommand>,
}

/// The definition of a URI scheme a host serves to the agent.
#[derive(Clone, Debug, PartialEq, Eq)]
pub struct HostUriSchemeDefinition {
    pub scheme: String,
    pub description: Option<String>,
    pub writable: Option<bool>,
    pub immutable: Option<bool>,
}

/// Whether a host URI is read or written.
#[derive(Clone, Copy, Debug, PartialEq, Eq)]
pub enum HostUriOperation {
    Read,
    Write,
}

/// The content type of a host URI's text.
#[derive(Clone, Copy, Debug, PartialEq, Eq)]
pub enum HostUriContentType {
    Markdown,
    Json,
    PlainText,
}

/// The model a response fell back to.
#[derive(Clone, Debug, PartialEq, Eq)]
pub struct FallbackModel {
    pub model: String,
}

/// The size of the context a prompt was sent with.
#[derive(Clone, Debug, PartialEq, Eq)]
pub struct ContextSnapshot {
    pub prompt_tokens: u64,
    pub non_message_tokens: u64,
    pub last_message_timestamp: Option<u64>,
}

/// How an assistant message recovered from a failed attempt.
#[derive(Clone, Debug, PartialEq, Eq)]
pub struct AssistantRetryRecovery {
    pub kind: AssistantRetryRecoveryKindMarker,
    pub status: AssistantRetryRecoveryStatus,
    pub attempt: u32,
    pub recovered_at: String,
    pub recovery: AssistantRecoveryKind,
    pub note: String,
    pub superseded_by: Option<SupersedingResponse>,
}

/// The kind of a retry recovery record.
#[derive(Clone, Copy, Debug, PartialEq, Eq)]
pub enum AssistantRetryRecoveryKindMarker {
    AutoRetry,
}

/// The outcome of a retry recovery.
#[derive(Clone, Copy, Debug, PartialEq, Eq)]
pub enum AssistantRetryRecoveryStatus {
    Recovered,
}

/// What a retry changed to recover.
#[derive(Clone, Copy, Debug, PartialEq, Eq)]
pub enum AssistantRecoveryKind {
    Credential,
    Model,
    Wait,
    Plain,
}

/// The response that replaced a failed one.
#[derive(Clone, Debug, PartialEq, Eq)]
pub struct SupersedingResponse {
    pub timestamp: u64,
    pub response_id: Option<String>,
    pub provider: String,
    pub model: String,
}

/// A file mentioned in a prompt, with its content.
#[derive(Clone, Debug, PartialEq, Eq)]
pub struct FileMention {
    pub path: String,
    pub content: String,
    pub line_count: Option<u64>,
    pub byte_size: Option<u64>,
    pub skipped_reason: Option<FileMentionSkippedReason>,
    pub image: Option<ImageContent>,
}

/// Why a mentioned file's content was left out.
#[derive(Clone, Copy, Debug, PartialEq, Eq)]
pub enum FileMentionSkippedReason {
    TooLarge,
    Binary,
}

/// A mouse button of a computer-use action.
#[derive(Clone, Copy, Debug, PartialEq, Eq)]
pub enum ComputerMouseButton {
    Left,
    Right,
    Wheel,
    Back,
    Forward,
}

/// A safety check raised by a computer-use action.
#[derive(Clone, Debug, PartialEq, Eq)]
pub struct ComputerSafetyCheck {
    pub id: String,
    pub code: Option<String>,
    pub message: Option<String>,
}

/// The screenshot a computer-use tool result refers to.
#[derive(Clone, Debug, PartialEq, Eq)]
pub enum ComputerScreenshotRef {
    ComputerScreenshot { location: ComputerScreenshotLocation },
}

/// Where a computer-use screenshot is.
#[derive(Clone, Debug, PartialEq, Eq)]
pub enum ComputerScreenshotLocation {
    ImageUrl { image_url: String },
    FileId { file_id: String },
}

/// Provider data attached to a tool result.
#[derive(Clone, Debug, PartialEq, Eq)]
pub enum ToolResultProviderMetadata {
    Computer {
        screenshot: ComputerScreenshotRef,
        acknowledged_safety_checks: Vec<ComputerSafetyCheck>,
    },
}

/// Why an assistant message finished normally.
#[derive(Clone, Copy, Debug, PartialEq, Eq)]
pub enum CompletedStopReason {
    Stop,
    Length,
    ToolUse,
}

/// Why an assistant message failed.
#[derive(Clone, Copy, Debug, PartialEq, Eq)]
pub enum FailedStopReason {
    Aborted,
    Error,
}

/// Where a subagent is in its run.
#[derive(Clone, Copy, Debug, PartialEq, Eq)]
pub enum AgentProgressStatus {
    Pending,
    Running,
    Completed,
    Failed,
    Aborted,
}

/// A tool a subagent called recently.
#[derive(Clone, Debug, PartialEq, Eq)]
pub struct RecentTool {
    pub tool: String,
    pub args: String,
    pub end_ms: u64,
}

/// The model or models a subagent was told to use.
#[derive(Clone, Debug, PartialEq, Eq)]
pub enum ModelOverride {
    One(String),
    Many(Vec<String>),
}

/// A subagent's retry in progress.
#[derive(Clone, Debug, PartialEq, Eq)]
pub struct RetryState {
    pub attempt: u32,
    pub max_attempts: u32,
    pub delay_ms: u64,
    pub error_message: String,
    pub started_at_ms: u64,
}

/// A subagent's last failed retry.
#[derive(Clone, Debug, PartialEq, Eq)]
pub struct RetryFailure {
    pub attempt: u32,
    pub error_message: String,
}

/// A background task's state.
#[derive(Clone, Debug, PartialEq, Eq)]
pub struct AsyncTaskState {
    pub state: AsyncTaskStatus,
    pub job_id: String,
    pub task_type: AsyncTaskType,
}

/// Where a background task is.
#[derive(Clone, Copy, Debug, PartialEq, Eq)]
pub enum AsyncTaskStatus {
    Running,
    Completed,
    Failed,
}

/// The kind of a background task.
#[derive(Clone, Copy, Debug, PartialEq, Eq)]
pub enum AsyncTaskType {
    Task,
}

/// The size of a subagent's output.
#[derive(Clone, Debug, PartialEq, Eq)]
pub struct SubagentOutputMeta {
    pub line_count: u64,
    pub char_count: u64,
}

/// Where a structured subagent's output schema came from.
#[derive(Clone, Copy, Debug, PartialEq, Eq)]
pub enum StructuredSubagentSchemaSource {
    Caller,
    Agent,
    Session,
    Unset,
}

/// Whether a structured subagent's output met its schema.
#[derive(Clone, Copy, Debug, PartialEq, Eq)]
pub enum StructuredSubagentValidationStatus {
    Valid,
    Invalid,
    Unavailable,
}

/// A subagent starting or ending.
#[derive(Clone, Debug, PartialEq, Eq)]
pub struct SubagentLifecyclePayload {
    pub id: String,
    pub agent: String,
    pub agent_source: AgentSource,
    pub description: Option<String>,
    pub status: SubagentLifecycleStatus,
    pub session_file: Option<String>,
    pub parent_tool_call_id: Option<String>,
    pub index: u32,
    pub detached: Option<bool>,
}

/// Where a subagent is in its life.
#[derive(Clone, Copy, Debug, PartialEq, Eq)]
pub enum SubagentLifecycleStatus {
    Started,
    Completed,
    Failed,
    Aborted,
}

} // verus!
