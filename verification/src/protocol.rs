//! The ModelSocket wire protocol: the requests a client sends and the events
//! a server answers with.
//!
//! Floating-point payloads (sampling parameters, embedding vectors) are carried
//! as the IEEE-754 bit patterns of their `f32` values; this crate never computes
//! with them, it only moves them between requests, events and results.
use std::collections::HashMap;

use vstd::prelude::*;

verus! {

/// An arbitrary JSON document, carried through unchanged (tool schemas,
/// structured-output schemas).
#[verifier::external_type_specification]
#[verifier::external_body]
pub struct ExJsonValue(serde_json::Value);

/// A ModelSocket command.
///
/// All the commands that can be sent to a modelsocket server
/// from a client.
#[derive(Debug, Clone)]
pub enum MSRequest {
    SeqOpen { cid: String, data: SeqOpenReq },
    SeqCommand { cid: String, seq_id: String, data: SeqCommand },
}

/// A command addressed to one open sequence.
#[derive(Debug, Clone)]
pub enum SeqCommand {
    Close(SeqCloseReq),
    Append(SeqAppendReq),
    Gen(SeqGenReq),
    Embed(SeqEmbedReq),
    ToolReturn(SeqToolReturnReq),
    Fork(SeqForkReq),
}

/// A ModelSocket event.
///
/// All the events that can be sent to a model socket client
/// from a server.
#[derive(Debug, Clone)]
#[non_exhaustive]
pub enum MSEvent {
    SeqOpened { seq_id: String, cid: String },
    SeqAppendFinish { seq_id: String, cid: String },
    SeqGenFinish { seq_id: String, cid: String },
    SeqEmbedding {
        seq_id: String,
        cid: String,
        index: u32,
        /// Bit patterns of the `f32` components.
        embedding: Vec<u32>,
        input_tokens: u32,
    },
    SeqEmbedFinish { seq_id: String, cid: String, prompt_tokens: u32 },
    SeqForkFinish { seq_id: String, cid: String, child_seq_id: String },
    SeqText {
        seq_id: String,
        cid: String,
        text: String,
        hidden: bool,
        num_input_tokens: u32,
        num_output_tokens: u32,
        tokens: Option<Vec<u32>>,
    },
    SeqToolCall { seq_id: String, cid: String, tool_calls: Vec<SeqToolCall> },
    SeqToolCallStart { seq_id: String, cid: String, index: u32, name: String, id: Option<String> },
    SeqToolCallArgsChunk {
        seq_id: String,
        cid: String,
        index: u32,
        fragment: String,
        id: Option<String>,
    },
    SeqToolCallEnd { seq_id: String, cid: String, index: u32, args: String },
    SeqToolCallAborted {
        seq_id: String,
        cid: String,
        index: u32,
        reason: String,
        id: Option<String>,
    },
    SeqState { seq_id: String, state: SeqState },
    SeqClosed {
        cid: Option<String>,
        seq_id: String,
        input_tokens: u32,
        cached_input_tokens: u32,
        output_tokens: u32,
        duration_ms: u64,
        error: Option<String>,
    },
    Error {
        cid: Option<String>,
        seq_id: Option<String>,
        message: String,
        code: Option<String>,
        rate_limit: Option<RateLimitErrorDetails>,
    },
}

/// Structured rate-limit state attached to a ModelSocket error.
#[derive(Debug, PartialEq, Eq)]
pub struct RateLimitErrorDetails {
    pub cause: String,
    pub enforcement_mode: String,
    pub rpm_limit: u32,
    pub rpm_remaining: i64,
    pub tpm_limit: u32,
    pub tpm_remaining: i64,
    pub retry_after_ms: u64,
}

impl Clone for RateLimitErrorDetails {
    fn clone(&self) -> (r: Self)
        ensures
            r == *self,
    {
        RateLimitErrorDetails {
            cause: self.cause.clone(),
            enforcement_mode: self.enforcement_mode.clone(),
            rpm_limit: self.rpm_limit,
            rpm_remaining: self.rpm_remaining,
            tpm_limit: self.tpm_limit,
            tpm_remaining: self.tpm_remaining,
            retry_after_ms: self.retry_after_ms,
        }
    }
}

/// The view of an optional borrowed string.
pub open spec fn opt_str_view(o: Option<&str>) -> Option<Seq<char>> {
    match o {
        Some(s) => Some(s@),
        None => None,
    }
}

/// The view of an optional owned string.
pub open spec fn opt_string_view(o: Option<String>) -> Option<Seq<char>> {
    match o {
        Some(s) => Some(s@),
        None => None,
    }
}

/// The correlation id an event carries, if any.
pub open spec fn event_cid(e: MSEvent) -> Option<Seq<char>> {
    match e {
        MSEvent::SeqOpened { cid, .. } => Some(cid@),
        MSEvent::SeqAppendFinish { cid, .. } => Some(cid@),
        MSEvent::SeqGenFinish { cid, .. } => Some(cid@),
        MSEvent::SeqEmbedding { cid, .. } => Some(cid@),
        MSEvent::SeqEmbedFinish { cid, .. } => Some(cid@),
        MSEvent::SeqForkFinish { cid, .. } => Some(cid@),
        MSEvent::SeqText { cid, .. } => Some(cid@),
        MSEvent::SeqToolCall { cid, .. } => Some(cid@),
        MSEvent::SeqToolCallStart { cid, .. } => Some(cid@),
        MSEvent::SeqToolCallArgsChunk { cid, .. } => Some(cid@),
        MSEvent::SeqToolCallEnd { cid, .. } => Some(cid@),
        MSEvent::SeqToolCallAborted { cid, .. } => Some(cid@),
        MSEvent::SeqState { .. } => None,
        MSEvent::SeqClosed { cid, .. } => opt_string_view(cid),
        MSEvent::Error { cid, .. } => opt_string_view(cid),
    }
}

/// The sequence an event concerns, if any.
pub open spec fn event_seq_id(e: MSEvent) -> Option<Seq<char>> {
    match e {
        MSEvent::SeqOpened { seq_id, .. } => Some(seq_id@),
        MSEvent::SeqAppendFinish { seq_id, .. } => Some(seq_id@),
        MSEvent::SeqGenFinish { seq_id, .. } => Some(seq_id@),
        MSEvent::SeqEmbedding { seq_id, .. } => Some(seq_id@),
        MSEvent::SeqEmbedFinish { seq_id, .. } => Some(seq_id@),
        MSEvent::SeqForkFinish { seq_id, .. } => Some(seq_id@),
        MSEvent::SeqText { seq_id, .. } => Some(seq_id@),
        MSEvent::SeqToolCall { seq_id, .. } => Some(seq_id@),
        MSEvent::SeqToolCallStart { seq_id, .. } => Some(seq_id@),
        MSEvent::SeqToolCallArgsChunk { seq_id, .. } => Some(seq_id@),
        MSEvent::SeqToolCallEnd { seq_id, .. } => Some(seq_id@),
        MSEvent::SeqToolCallAborted { seq_id, .. } => Some(seq_id@),
        MSEvent::SeqState { seq_id, .. } => Some(seq_id@),
        MSEvent::SeqClosed { seq_id, .. } => Some(seq_id@),
        MSEvent::Error { seq_id, .. } => opt_string_view(seq_id),
    }
}

/// The wire name of an event's kind (its `event` tag).
pub open spec fn event_type_name(e: MSEvent) -> &'static str {
    match e {
        MSEvent::SeqOpened { .. } => "seq_opened",
        MSEvent::SeqAppendFinish { .. } => "seq_append_finish",
        MSEvent::SeqGenFinish { .. } => "seq_gen_finish",
        MSEvent::SeqEmbedding { .. } => "seq_embedding",
        MSEvent::SeqEmbedFinish { .. } => "seq_embed_finish",
        MSEvent::SeqForkFinish { .. } => "seq_fork_finish",
        MSEvent::SeqText { .. } => "seq_text",
        MSEvent::SeqToolCall { .. } => "seq_tool_call",
        MSEvent::SeqToolCallStart { .. } => "seq_tool_call_start",
        MSEvent::SeqToolCallArgsChunk { .. } => "seq_tool_call_args_chunk",
        MSEvent::SeqToolCallEnd { .. } => "seq_tool_call_end",
        MSEvent::SeqToolCallAborted { .. } => "seq_tool_call_aborted",
        MSEvent::SeqClosed { .. } => "seq_closed",
        MSEvent::SeqState { .. } => "seq_state",
        MSEvent::Error { .. } => "error",
    }
}

fn some_str(s: &String) -> (r: Option<&str>)
    ensures
        opt_str_view(r) == Some(s@),
{
    Some(s.as_str())
}

fn opt_as_str(s: &Option<String>) -> (r: Option<&str>)
    ensures
        opt_str_view(r) == opt_string_view(*s),
{
    match s {
        Some(s) => Some(s.as_str()),
        None => None,
    }
}

impl MSEvent {
    /// The correlation id of the command this event answers, if it carries one.
    pub fn cid(&self) -> (r: Option<&str>)
        ensures
            opt_str_view(r) == event_cid(*self),
    {
        match self {
            MSEvent::SeqOpened { cid, .. } => some_str(cid),
            MSEvent::SeqAppendFinish { cid, .. } => some_str(cid),
            MSEvent::SeqGenFinish { cid, .. } => some_str(cid),
            MSEvent::SeqEmbedding { cid, .. } => some_str(cid),
            MSEvent::SeqEmbedFinish { cid, .. } => some_str(cid),
            MSEvent::SeqForkFinish { cid, .. } => some_str(cid),
            MSEvent::SeqText { cid, .. } => some_str(cid),
            MSEvent::SeqToolCall { cid, .. } => some_str(cid),
            MSEvent::SeqToolCallStart { cid, .. } => some_str(cid),
            MSEvent::SeqToolCallArgsChunk { cid, .. } => some_str(cid),
            MSEvent::SeqToolCallEnd { cid, .. } => some_str(cid),
            MSEvent::SeqToolCallAborted { cid, .. } => some_str(cid),
            MSEvent::SeqClosed { cid, .. } => opt_as_str(cid),
            MSEvent::Error { cid, .. } => opt_as_str(cid),
            MSEvent::SeqState { .. } => None,
        }
    }

    /// The wire name of this event's kind.
    pub fn event_type(&self) -> (r: &'static str)
        ensures
            r == event_type_name(*self),
    {
        match self {
            MSEvent::SeqOpened { .. } => "seq_opened",
            MSEvent::SeqAppendFinish { .. } => "seq_append_finish",
            MSEvent::SeqGenFinish { .. } => "seq_gen_finish",
            MSEvent::SeqEmbedding { .. } => "seq_embedding",
            MSEvent::SeqEmbedFinish { .. } => "seq_embed_finish",
            MSEvent::SeqForkFinish { .. } => "seq_fork_finish",
            MSEvent::SeqText { .. } => "seq_text",
            MSEvent::SeqToolCall { .. } => "seq_tool_call",
            MSEvent::SeqToolCallStart { .. } => "seq_tool_call_start",
            MSEvent::SeqToolCallArgsChunk { .. } => "seq_tool_call_args_chunk",
            MSEvent::SeqToolCallEnd { .. } => "seq_tool_call_end",
            MSEvent::SeqToolCallAborted { .. } => "seq_tool_call_aborted",
            MSEvent::SeqClosed { .. } => "seq_closed",
            MSEvent::SeqState { .. } => "seq_state",
            MSEvent::Error { .. } => "error",
        }
    }

    /// The sequence this event concerns, if known.
    pub fn seq_id(&self) -> (r: Option<&str>)
        ensures
            opt_str_view(r) == event_seq_id(*self),
    {
        match self {
            MSEvent::SeqOpened { seq_id, .. } => some_str(seq_id),
            MSEvent::SeqAppendFinish { seq_id, .. } => some_str(seq_id),
            MSEvent::SeqGenFinish { seq_id, .. } => some_str(seq_id),
            MSEvent::SeqEmbedding { seq_id, .. } => some_str(seq_id),
            MSEvent::SeqEmbedFinish { seq_id, .. } => some_str(seq_id),
            MSEvent::SeqForkFinish { seq_id, .. } => some_str(seq_id),
            MSEvent::SeqText { seq_id, .. } => some_str(seq_id),
            MSEvent::SeqToolCall { seq_id, .. } => some_str(seq_id),
            MSEvent::SeqToolCallStart { seq_id, .. } => some_str(seq_id),
            MSEvent::SeqToolCallArgsChunk { seq_id, .. } => some_str(seq_id),
            MSEvent::SeqToolCallEnd { seq_id, .. } => some_str(seq_id),
            MSEvent::SeqToolCallAborted { seq_id, .. } => some_str(seq_id),
            MSEvent::SeqState { seq_id, .. } => some_str(seq_id),
            MSEvent::SeqClosed { seq_id, .. } => some_str(seq_id),
            MSEvent::Error { seq_id, .. } => opt_as_str(seq_id),
        }
    }
}

/// Parameters of a request to open a new sequence.
#[derive(Debug, Clone)]
pub struct SeqOpenReq {
    pub model: String,
    pub tools_enabled: bool,
    pub tool_prompt: Option<String>,
    pub tool_schemas: Option<HashMap<String, serde_json::Value>>,
    pub skip_prelude: bool,
}

/// Text, tokens or media to append to a sequence.
#[derive(Debug, Clone)]
pub struct SeqAppendReq {
    pub text: String,
    pub tokens: Option<Vec<u32>>,
    pub media: Option<SeqAppendMedia>,
    pub hidden: bool,
    pub echo: bool,
    pub role: Option<String>,
}

impl Default for SeqAppendReq {
    fn default() -> (r: Self)
        ensures
            r.text@ == Seq::<char>::empty(),
            r.tokens is None,
            r.media is None,
            !r.hidden,
            !r.echo,
            r.role is None,
    {
        SeqAppendReq {
            text: String::new(),
            tokens: None,
            media: None,
            hidden: false,
            echo: false,
            role: None,
        }
    }
}

/// A media attachment (by URI or inline blob) for an append.
#[derive(Debug, Clone)]
pub struct SeqAppendMedia {
    pub uri: Option<String>,
    pub blob: Option<String>,
    pub hash: Option<String>,
    pub mime_type: Option<String>,
    pub detail: Option<String>,
}

/// Sequence capabilities
#[derive(Debug, Clone, Copy, PartialEq, Eq)]
pub enum SeqCaps {
    Fork,
    Regex,
    ToolCall,
}

/// The lifecycle state of a sequence, as reported by the server.
#[derive(Debug, Clone, Copy, PartialEq, Eq)]
pub enum SeqState {
    /// A sequence is initialized and ready to append or generate
    Ready,
    /// A sequence is currently prefilling text
    Appending,
    /// A sequence is currently generating text
    Generating,
    /// A sequence has requested a tool call and is
    /// waiting for a response
    ToolCall,
    /// A sequence is currently forking
    Forking,
    /// A sequence is closed
    Closed,
}

/// Parameters of a generation command.
///
/// `temperature`, `repeat_penalty`, `top_p`, `frequency_penalty` and
/// `presence_penalty` hold `f32` bit patterns.
#[derive(Debug, Clone)]
pub struct SeqGenReq {
    pub stop_strings: Option<Vec<String>>,
    pub max_length: Option<u32>,
    pub max_tokens: Option<u32>,
    pub regex_mask: Option<String>,
    pub hidden: bool,
    pub role: Option<String>,
    pub temperature: Option<u32>,
    pub repeat_penalty: Option<u32>,
    pub seed: Option<u64>,
    pub top_p: Option<u32>,
    pub return_tokens: Option<bool>,
    pub prefill_text: Option<String>,
    pub top_k: Option<i32>,
    pub json_schema: Option<serde_json::Value>,
    pub json_schema_strict: Option<bool>,
    pub frequency_penalty: Option<u32>,
    pub presence_penalty: Option<u32>,
}

impl SeqGenReq {
    /// A generation request with every option left unset.
    pub open spec fn unset() -> SeqGenReq {
        SeqGenReq {
            stop_strings: None,
            max_length: None,
            max_tokens: None,
            regex_mask: None,
            hidden: false,
            role: None,
            temperature: None,
            repeat_penalty: None,
            seed: None,
            top_p: None,
            return_tokens: None,
            prefill_text: None,
            top_k: None,
            json_schema: None,
            json_schema_strict: None,
            frequency_penalty: None,
            presence_penalty: None,
        }
    }
}

impl Default for SeqGenReq {
    fn default() -> (r: Self)
        ensures
            r == SeqGenReq::unset(),
    {
        SeqGenReq {
            stop_strings: None,
            max_length: None,
            max_tokens: None,
            regex_mask: None,
            hidden: false,
            role: None,
            temperature: None,
            repeat_penalty: None,
            seed: None,
            top_p: None,
            return_tokens: None,
            prefill_text: None,
            top_k: None,
            json_schema: None,
            json_schema_strict: None,
            frequency_penalty: None,
            presence_penalty: None,
        }
    }
}

/// One input of an embedding command.
#[derive(Debug, Clone)]
pub enum EmbeddingInput {
    Text(String),
    Tokens(Vec<u32>),
}

/// An embedding command.
#[derive(Debug, Clone)]
pub struct SeqEmbedReq {
    pub inputs: Vec<EmbeddingInput>,
    pub input_type: Option<String>,
    pub dimensions: Option<u32>,
    pub normalize: Option<bool>,
    pub truncate: Option<bool>,
}

impl Default for SeqEmbedReq {
    fn default() -> (r: Self)
        ensures
            r.inputs@.len() == 0,
            r.input_type is None,
            r.dimensions is None,
            r.normalize is None,
            r.truncate is None,
    {
        SeqEmbedReq {
            inputs: Vec::new(),
            input_type: None,
            dimensions: None,
            normalize: None,
            truncate: None,
        }
    }
}

/// The output of one tool call, returned to the server.
#[derive(Debug, Clone)]
pub struct ToolResult {
    pub id: Option<String>,
    pub name: String,
    pub result: String,
}

/// Request to fork a sequence.
#[derive(Debug, Clone)]
pub struct SeqForkReq {}

/// Request to close a sequence.
#[derive(Debug, Clone)]
pub struct SeqCloseReq {}

/// The results of the tool calls a sequence asked for.
#[derive(Debug, Clone)]
pub struct SeqToolReturnReq {
    pub results: Vec<ToolResult>,
    pub gen_opts: SeqGenReq,
}

/// A tool call requested by the model.
#[derive(Debug)]
pub struct SeqToolCall {
    pub id: Option<String>,
    pub name: String,
    pub args: String,
}

impl Clone for SeqToolCall {
    fn clone(&self) -> (r: Self)
        ensures
            r == *self,
    {
        let id = match &self.id {
            Some(s) => Some(s.clone()),
            None => None,
        };
        SeqToolCall { id, name: self.name.clone(), args: self.args.clone() }
    }
}


/// A generation request with no option set asks for nothing: every optional
/// setting is absent and the output is not hidden.
pub proof fn law_unset_generation_request_sets_nothing()
    ensures
        ({
            let r = SeqGenReq::unset();
            &&& r.stop_strings is None
            &&& r.max_length is None
            &&& r.max_tokens is None
            &&& r.regex_mask is None
            &&& !r.hidden
            &&& r.role is None
            &&& r.temperature is None
            &&& r.repeat_penalty is None
            &&& r.seed is None
            &&& r.top_p is None
            &&& r.return_tokens is None
            &&& r.prefill_text is None
            &&& r.top_k is None
            &&& r.json_schema is None
            &&& r.json_schema_strict is None
            &&& r.frequency_penalty is None
            &&& r.presence_penalty is None
        }),
{
}

/// The sequence an event concerns is the one its `seq_id` field names, for
/// every kind of event that has one.
pub proof fn law_event_names_its_sequence(e: MSEvent)
    ensures
        e matches MSEvent::SeqOpened { seq_id, .. } ==> event_seq_id(e) == Some(seq_id@),
        e matches MSEvent::SeqAppendFinish { seq_id, .. } ==> event_seq_id(e) == Some(seq_id@),
        e matches MSEvent::SeqGenFinish { seq_id, .. } ==> event_seq_id(e) == Some(seq_id@),
        e matches MSEvent::SeqEmbedding { seq_id, .. } ==> event_seq_id(e) == Some(seq_id@),
        e matches MSEvent::SeqEmbedFinish { seq_id, .. } ==> event_seq_id(e) == Some(seq_id@),
        e matches MSEvent::SeqForkFinish { seq_id, .. } ==> event_seq_id(e) == Some(seq_id@),
        e matches MSEvent::SeqText { seq_id, .. } ==> event_seq_id(e) == Some(seq_id@),
        e matches MSEvent::SeqToolCall { seq_id, .. } ==> event_seq_id(e) == Some(seq_id@),
        e matches MSEvent::SeqToolCallStart { seq_id, .. } ==> event_seq_id(e) == Some(seq_id@),
        e matches MSEvent::SeqToolCallArgsChunk { seq_id, .. } ==> event_seq_id(e) == Some(
            seq_id@,
        ),
        e matches MSEvent::SeqToolCallEnd { seq_id, .. } ==> event_seq_id(e) == Some(seq_id@),
        e matches MSEvent::SeqToolCallAborted { seq_id, .. } ==> event_seq_id(e) == Some(
            seq_id@,
        ),
        e matches MSEvent::SeqState { seq_id, .. } ==> event_seq_id(e) == Some(seq_id@),
        e matches MSEvent::SeqClosed { seq_id, .. } ==> event_seq_id(e) == Some(seq_id@),
        e matches MSEvent::Error { seq_id: Some(s), .. } ==> event_seq_id(e) == Some(s@),
        e matches MSEvent::Error { seq_id: None, .. } ==> event_seq_id(e) is None,
{
}

} // verus!
