//! A client library for the ModelSocket protocol: the wire types, and the
//! decisions a client makes as requests go out and events come back.
//!
//! The state of a connection (`ModelSocket`) and of each open sequence
//! (`Sequence`) lives here; every operation returns the requests to send and
//! the replies to deliver, and the caller, which owns the network connection
//! and the reply channels, carries them out.
pub mod error;
pub mod gen;
pub mod ids;
pub mod opts;
pub mod protocol;
pub mod seq;
pub mod socket;
pub mod table;
pub mod text;
pub mod tools;
pub mod transport;

pub use error::{remote_error, ModelSocketError};
pub use gen::{collect_text, collect_text_and_tokens, EmbeddingResult, GenChunk};
pub use opts::{AppendOpts, EmbedOpts, GenOpts, OpenOpts};
pub use protocol::{
    EmbeddingInput, MSEvent, MSRequest, RateLimitErrorDetails, SeqAppendMedia, SeqAppendReq,
    SeqCaps, SeqCloseReq, SeqCommand, SeqEmbedReq, SeqForkReq, SeqGenReq, SeqOpenReq, SeqState,
    SeqToolCall, SeqToolReturnReq, ToolResult,
};
pub use seq::{
    command_outcome, embed_outcome, CommandReply, EmbedCommandState, SeqAction, Sequence,
};
pub use socket::{open_outcome, open_result, tool_prompt_append, ModelSocket, SocketAction};
pub use tools::{
    RegisteredTool, SimpleToolbox, ToolDefinition, ToolParameters, ToolProperty, ToolRun,
    ToolSchemaType, ToolStep,
};
pub use transport::{handshake_headers, handshake_request, status_text, upgrade_status, MSTransport};
