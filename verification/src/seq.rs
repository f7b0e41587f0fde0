//! One open sequence: the commands, generation streams and embedding batches
//! waiting on the server, and what the client does as each event arrives.
//!
//! A `Sequence` never waits or sends anything itself. Each operation returns
//! the requests to send and the replies to deliver (`SeqAction`), and the
//! caller, which holds the channels, carries them out.
use vstd::prelude::*;

use crate::error::{clone_opt_string, remote_error, ModelSocketError};
use crate::gen::{EmbeddingResult, GenChunk};
use crate::ids::new_cid;
use crate::opts::{AppendOpts, EmbedOpts};
use crate::protocol::{
    EmbeddingInput, MSEvent, MSRequest, RateLimitErrorDetails, SeqAppendMedia, SeqAppendReq,
    SeqCloseReq, SeqCommand, SeqEmbedReq, SeqForkReq, SeqGenReq, SeqToolCall, SeqToolReturnReq,
    ToolResult,
};
use crate::table::{
    contains_key, entry, find_key, has_key, insert_entry, key_pos, keys_unique, remove_key,
    with_entry, without_key, Keyed,
};
use crate::text::{concat_str, decimal, decimal_string};

verus! {

/// The embeddings received so far for one embedding command.
///
/// `embeddings` holds `f32` bit patterns; an index is `None` until its
/// embedding arrives.
#[derive(Debug, Clone)]
pub struct EmbedCommandState {
    pub cid: String,
    pub embeddings: Vec<Option<Vec<u32>>>,
    pub input_tokens: Vec<u32>,
}

impl Keyed for EmbedCommandState {
    open spec fn key(&self) -> Seq<char> {
        self.cid@
    }

    fn key_string(&self) -> (r: &String) {
        &self.cid
    }
}

/// What a finished command answers.
#[derive(Debug, Clone, PartialEq, Eq)]
pub enum CommandReply {
    /// The command completed.
    Done,
    /// A fork completed; this is the id of the child sequence.
    Forked(String),
}

/// Something the owner of a sequence must do after an operation.
#[derive(Debug)]
pub enum SeqAction {
    /// Hand the event being handled to the sequence's listener.
    Forward,
    /// Deliver the outcome of the pending command `cid`.
    ReplyCommand { cid: String, reply: Result<CommandReply, ModelSocketError> },
    /// Deliver a chunk to the generation stream `cid`, which stays open.
    StreamChunk { cid: String, chunk: GenChunk },
    /// Close the generation stream `cid`.
    EndStream { cid: String },
    /// Deliver an error to the generation stream `cid` and close it.
    FailStream { cid: String, error: ModelSocketError },
    /// Deliver the outcome of the embedding command `cid`.
    ReplyEmbed { cid: String, result: Result<EmbeddingResult, ModelSocketError> },
    /// Register a newly forked sequence with the socket.
    RegisterChild { child: Sequence },
    /// Run the toolbox on these calls and report back with `on_tool_results`.
    CallTools { cid: String, calls: Vec<SeqToolCall> },
    /// Send this request to the server.
    Send { request: MSRequest },
}

/// The client-side state of one open sequence.
#[derive(Debug)]
pub struct Sequence {
    seq_id: String,
    model: String,
    cmds: Vec<String>,
    gen_streams: Vec<String>,
    embed_cmds: Vec<EmbedCommandState>,
    toolbox: bool,
    event_sink: bool,
}

/// The replies that fail each of these pending commands with `e`.
pub open spec fn command_failures(cids: Seq<String>, e: ModelSocketError) -> Seq<SeqAction> {
    cids.map_values(|c: String| SeqAction::ReplyCommand { cid: c, reply: Err(e) })
}

/// The replies that fail each of these generation streams with `e`.
pub open spec fn stream_failures(cids: Seq<String>, e: ModelSocketError) -> Seq<SeqAction> {
    cids.map_values(|c: String| SeqAction::FailStream { cid: c, error: e })
}

/// The replies that fail each of these embedding commands with `e`.
pub open spec fn embed_failures(states: Seq<EmbedCommandState>, e: ModelSocketError) -> Seq<
    SeqAction,
> {
    states.map_values(|s: EmbedCommandState| SeqAction::ReplyEmbed { cid: s.cid, result: Err(e) })
}

/// The view of an optional vector of integers.
pub open spec fn opt_u32s(o: Option<Vec<u32>>) -> Option<Seq<u32>> {
    match o {
        Some(v) => Some(v@),
        None => None,
    }
}

/// `idx` is the first index whose embedding has not arrived.
pub open spec fn first_missing(e: Seq<Option<Vec<u32>>>, idx: int) -> bool {
    &&& 0 <= idx < e.len()
    &&& e[idx] is None
    &&& forall|j: int| 0 <= j < idx ==> #[trigger] e[j] is Some
}

/// Every embedding of the batch has arrived.
pub open spec fn all_arrived(e: Seq<Option<Vec<u32>>>) -> bool {
    forall|j: int| 0 <= j < e.len() ==> #[trigger] e[j] is Some
}

/// The text of the error for a missing embedding at `idx`.
pub open spec fn missing_embedding_message(idx: int) -> Seq<char> {
    "missing embedding result for index "@ + decimal(idx as nat)
}

/// `r` is what a finished embedding command answers: every embedding with its
/// token count when all have arrived, else the error naming the first missing
/// index.
pub open spec fn embed_answer(
    st: EmbedCommandState,
    prompt_tokens: u32,
    r: Result<EmbeddingResult, ModelSocketError>,
) -> bool {
    match r {
        Ok(res) => {
            &&& all_arrived(st.embeddings@)
            &&& res.embeddings@.len() == st.embeddings@.len()
            &&& forall|j: int|
                0 <= j < res.embeddings@.len() ==> opt_u32s(st.embeddings@[j]) == Some(
                    #[trigger] res.embeddings@[j]@,
                )
            &&& res.input_tokens@ == st.input_tokens@
            &&& res.prompt_tokens == prompt_tokens
        },
        Err(e) => exists|idx: int|
            first_missing(st.embeddings@, idx) && (e matches ModelSocketError::Protocol(m) && m@
                == missing_embedding_message(idx)),
    }
}

/// `s` is a newly opened sequence: no pending work.
pub open spec fn is_fresh(s: Sequence, seq_id: String, model: String, toolbox: bool, listening: bool) -> bool {
    &&& s.wf()
    &&& s.id_string() == seq_id
    &&& s.model_string() == model
    &&& s.commands().len() == 0
    &&& s.streams().len() == 0
    &&& s.embeds().len() == 0
    &&& s.has_toolbox() == toolbox
    &&& s.listening() == listening
}

/// `post` differs from `pre` in its tables only.
pub open spec fn same_identity(pre: Sequence, post: Sequence) -> bool {
    &&& post.id_string() == pre.id_string()
    &&& post.model_string() == pre.model_string()
    &&& post.has_toolbox() == pre.has_toolbox()
}

/// `post` has the same tables as `pre`.
pub open spec fn same_tables(pre: Sequence, post: Sequence) -> bool {
    &&& post.commands() == pre.commands()
    &&& post.streams() == pre.streams()
    &&& post.embeds() == pre.embeds()
}

/// All the tables of `s` are empty.
pub open spec fn no_pending(s: Sequence) -> bool {
    &&& s.commands().len() == 0
    &&& s.streams().len() == 0
    &&& s.embeds().len() == 0
}

/// The replies that fail everything `s` has pending with `e`.
pub open spec fn all_failures(s: Sequence, e: ModelSocketError) -> Seq<SeqAction> {
    command_failures(s.commands(), e) + stream_failures(s.streams(), e) + embed_failures(
        s.embeds(),
        e,
    )
}

/// The reply to the pending command `cid`, if `cids` holds it.
pub open spec fn reply_if_pending(
    cids: Seq<String>,
    cid: Seq<char>,
    reply: Result<CommandReply, ModelSocketError>,
) -> Seq<SeqAction> {
    if has_key(cids, cid) {
        seq![SeqAction::ReplyCommand { cid: entry(cids, cid), reply }]
    } else {
        Seq::empty()
    }
}

/// `post` records embedding `index` of batch `cid` (when the batch is pending
/// and the index is in range), and is `pre` otherwise.
pub open spec fn embedding_recorded(
    pre: Seq<EmbedCommandState>,
    post: Seq<EmbedCommandState>,
    cid: Seq<char>,
    index: u32,
    embedding: Seq<u32>,
    tokens: u32,
) -> bool {
    if has_key(pre, cid) && index < entry(pre, cid).embeddings@.len() {
        let p = key_pos(pre, cid);
        let st = pre[p];
        &&& post.len() == pre.len()
        &&& forall|j: int| 0 <= j < pre.len() && j != p ==> #[trigger] post[j] == pre[j]
        &&& post[p].cid == st.cid
        &&& post[p].embeddings@.len() == st.embeddings@.len()
        &&& forall|j: int|
            0 <= j < st.embeddings@.len() && j != index ==> #[trigger] post[p].embeddings@[j]
                == st.embeddings@[j]
        &&& opt_u32s(post[p].embeddings@[index as int]) == Some(embedding)
        &&& post[p].input_tokens@ == st.input_tokens@.update(index as int, tokens)
    } else {
        post == pre
    }
}

/// The state change and replies for `event`, apart from handing the event to
/// the listener.
pub open spec fn reacted(pre: Sequence, post: Sequence, event: MSEvent, out: Seq<SeqAction>) -> bool {
    let c = pre.commands();
    let s = pre.streams();
    let em = pre.embeds();
    match event {
        MSEvent::SeqAppendFinish { cid, .. } => {
            &&& post.commands() == without_key(c, cid@)
            &&& post.streams() == s
            &&& post.embeds() == em
            &&& out == reply_if_pending(c, cid@, Ok(CommandReply::Done))
        },
        MSEvent::SeqGenFinish { cid, .. } => {
            &&& post.commands() == without_key(c, cid@)
            &&& post.streams() == without_key(s, cid@)
            &&& post.embeds() == em
            &&& out == reply_if_pending(c, cid@, Ok(CommandReply::Done)) + (if has_key(s, cid@) {
                seq![SeqAction::EndStream { cid: entry(s, cid@) }]
            } else {
                Seq::empty()
            })
        },
        MSEvent::SeqEmbedding { cid, index, embedding, input_tokens, .. } => {
            &&& post.commands() == c
            &&& post.streams() == s
            &&& embedding_recorded(em, post.embeds(), cid@, index, embedding@, input_tokens)
            &&& out.len() == 0
        },
        MSEvent::SeqEmbedFinish { cid, prompt_tokens, .. } => {
            &&& post.commands() == c
            &&& post.streams() == s
            &&& post.embeds() == without_key(em, cid@)
            &&& if has_key(em, cid@) {
                &&& out.len() == 1
                &&& out[0] matches SeqAction::ReplyEmbed { cid: k, result }
                &&& k == entry(em, cid@).cid
                &&& embed_answer(entry(em, cid@), prompt_tokens, result)
            } else {
                out.len() == 0
            }
        },
        MSEvent::SeqForkFinish { cid, child_seq_id, .. } => {
            &&& post.commands() == without_key(c, cid@)
            &&& post.streams() == s
            &&& post.embeds() == em
            &&& if has_key(c, cid@) {
                &&& out.len() == 2
                &&& out[0] matches SeqAction::RegisterChild { child }
                &&& is_fresh(child, child_seq_id, pre.model_string(), pre.has_toolbox(), false)
                &&& out[1] == SeqAction::ReplyCommand {
                    cid: entry(c, cid@),
                    reply: Ok(CommandReply::Forked(child_seq_id)),
                }
            } else {
                out.len() == 0
            }
        },
        MSEvent::SeqText { cid, text, hidden, tokens, .. } => {
            &&& same_tables(pre, post)
            &&& if has_key(s, cid@) {
                &&& out.len() == 1
                &&& out[0] matches SeqAction::StreamChunk { cid: k, chunk }
                &&& k == cid
                &&& chunk.text == text
                &&& chunk.hidden == hidden
                &&& opt_u32s(chunk.tokens) == opt_u32s(tokens)
            } else {
                out.len() == 0
            }
        },
        MSEvent::SeqClosed { cid, .. } => {
            let c2 = match cid {
                Some(k) => without_key(c, k@),
                None => c,
            };
            let first = match cid {
                Some(k) => reply_if_pending(c, k@, Ok(CommandReply::Done)),
                None => Seq::empty(),
            };
            &&& no_pending(post)
            &&& out == first + command_failures(c2, ModelSocketError::SeqClosed) + stream_failures(
                s,
                ModelSocketError::SeqClosed,
            ) + embed_failures(em, ModelSocketError::SeqClosed)
        },
        MSEvent::SeqToolCall { cid, tool_calls, .. } => {
            &&& same_tables(pre, post)
            &&& if pre.has_toolbox() {
                &&& out.len() == 1
                &&& out[0] matches SeqAction::CallTools { cid: k, calls }
                &&& k == cid
                &&& calls@ == tool_calls@
            } else {
                out.len() == 0
            }
        },
        MSEvent::Error { cid, message, code, rate_limit, .. } => {
            let e = ModelSocketError::Remote { message, code, details: rate_limit };
            match cid {
                Some(k) => {
                    &&& post.commands() == without_key(c, k@)
                    &&& post.streams() == without_key(s, k@)
                    &&& post.embeds() == without_key(em, k@)
                    &&& out == reply_if_pending(c, k@, Err(e)) + (if has_key(s, k@) {
                        seq![SeqAction::FailStream { cid: entry(s, k@), error: e }]
                    } else {
                        Seq::empty()
                    }) + (if has_key(em, k@) {
                        seq![SeqAction::ReplyEmbed { cid: entry(em, k@).cid, result: Err(e) }]
                    } else {
                        Seq::empty()
                    })
                },
                None => {
                    &&& no_pending(post)
                    &&& out == all_failures(pre, e)
                },
            }
        },
        _ => {
            &&& same_tables(pre, post)
            &&& out.len() == 0
        },
    }
}

/// What a sequence does first with any event: hand it to its listener.
pub open spec fn forwarded(pre: Sequence) -> Seq<SeqAction> {
    if pre.listening() {
        seq![SeqAction::Forward]
    } else {
        Seq::empty()
    }
}

fn one(a: SeqAction) -> (r: Vec<SeqAction>)
    ensures
        r@ == seq![a],
{
    let mut v = Vec::new();
    v.push(a);
    v
}

fn copy_u32s(v: &Vec<u32>) -> (r: Vec<u32>)
    ensures
        r@ == v@,
{
    let mut r: Vec<u32> = Vec::new();
    let n = v.len();
    let mut i: usize = 0;
    while i < n
        invariant
            n == v@.len(),
            i <= n,
            r@ == v@.take(i as int),
        decreases n - i,
    {
        r.push(v[i]);
        assert(v@.take(i + 1) =~= v@.take(i as int).push(v@[i as int]));
        i = i + 1;
    }
    assert(v@.take(n as int) =~= v@);
    r
}

fn copy_opt_u32s(o: &Option<Vec<u32>>) -> (r: Option<Vec<u32>>)
    ensures
        opt_u32s(r) == opt_u32s(*o),
{
    match o {
        Some(v) => Some(copy_u32s(v)),
        None => None,
    }
}

fn copy_calls(calls: &Vec<SeqToolCall>) -> (r: Vec<SeqToolCall>)
    ensures
        r@ == calls@,
{
    let mut r: Vec<SeqToolCall> = Vec::new();
    let n = calls.len();
    let mut i: usize = 0;
    while i < n
        invariant
            n == calls@.len(),
            i <= n,
            r@ == calls@.take(i as int),
        decreases n - i,
    {
        r.push(calls[i].clone());
        assert(calls@.take(i + 1) =~= calls@.take(i as int).push(calls@[i as int]));
        i = i + 1;
    }
    assert(calls@.take(n as int) =~= calls@);
    r
}

/// A copy of an error.
pub fn clone_error(e: &ModelSocketError) -> (r: ModelSocketError)
    ensures
        r == *e,
{
    match e {
        ModelSocketError::WebSocket(s) => ModelSocketError::WebSocket(s.clone()),
        ModelSocketError::Url(s) => ModelSocketError::Url(s.clone()),
        ModelSocketError::Json(s) => ModelSocketError::Json(s.clone()),
        ModelSocketError::Protocol(s) => ModelSocketError::Protocol(s.clone()),
        ModelSocketError::State(s) => ModelSocketError::State(s.clone()),
        ModelSocketError::Open(s) => ModelSocketError::Open(s.clone()),
        ModelSocketError::Send => ModelSocketError::Send,
        ModelSocketError::SeqClosed => ModelSocketError::SeqClosed,
        ModelSocketError::Command(s) => ModelSocketError::Command(s.clone()),
        ModelSocketError::Other(s) => ModelSocketError::Other(s.clone()),
        ModelSocketError::Remote { message, code, details } => remote_error(message, code, details),
    }
}

/// What a finished embedding command answers, given what has arrived.
pub fn finish_embed(st: &EmbedCommandState, prompt_tokens: u32) -> (r: Result<
    EmbeddingResult,
    ModelSocketError,
>)
    ensures
        embed_answer(*st, prompt_tokens, r),
{
    let n = st.embeddings.len();
    let mut embeddings: Vec<Vec<u32>> = Vec::new();
    let mut i: usize = 0;
    while i < n
        invariant
            n == st.embeddings@.len(),
            i <= n,
            embeddings@.len() == i,
            forall|j: int| 0 <= j < i ==> #[trigger] st.embeddings@[j] is Some,
            forall|j: int|
                0 <= j < i ==> opt_u32s(st.embeddings@[j]) == Some(#[trigger] embeddings@[j]@),
        decreases n - i,
    {
        match &st.embeddings[i] {
            Some(v) => {
                embeddings.push(copy_u32s(v));
            },
            None => {
                let msg = concat_str("missing embedding result for index ", decimal_string(i as u64).as_str());
                let e = ModelSocketError::Protocol(msg);
                assert(first_missing(st.embeddings@, i as int));
                return Err(e);
            },
        }
        i = i + 1;
    }
    Ok(EmbeddingResult {
        embeddings,
        input_tokens: copy_u32s(&st.input_tokens),
        prompt_tokens,
    })
}

impl Sequence {
    /// The id the server gave this sequence.
    pub closed spec fn id_string(self) -> String {
        self.seq_id
    }

    /// The model this sequence runs.
    pub closed spec fn model_string(self) -> String {
        self.model
    }

    /// The correlation ids of the commands waiting for a reply, oldest first.
    pub closed spec fn commands(self) -> Seq<String> {
        self.cmds@
    }

    /// The correlation ids of the open generation streams, oldest first.
    pub closed spec fn streams(self) -> Seq<String> {
        self.gen_streams@
    }

    /// The embedding commands waiting for their batch, oldest first.
    pub closed spec fn embeds(self) -> Seq<EmbedCommandState> {
        self.embed_cmds@
    }

    /// Whether tools are available to this sequence.
    pub closed spec fn has_toolbox(self) -> bool {
        self.toolbox
    }

    /// Whether a listener receives this sequence's events.
    pub closed spec fn listening(self) -> bool {
        self.event_sink
    }

    /// Every table holds each id at most once, and every embedding batch has
    /// one token count per embedding slot.
    pub closed spec fn wf(self) -> bool {
        &&& keys_unique(self.cmds@)
        &&& keys_unique(self.gen_streams@)
        &&& keys_unique(self.embed_cmds@)
        &&& forall|i: int|
            0 <= i < self.embed_cmds@.len() ==> (#[trigger] self.embed_cmds@[i]).embeddings@.len()
                == self.embed_cmds@[i].input_tokens@.len()
    }

    /// A newly opened sequence with nothing pending.
    pub fn new(seq_id: String, model: String, toolbox: bool, event_sink: bool) -> (r: Sequence)
        ensures
            is_fresh(r, seq_id, model, toolbox, event_sink),
    {
        Sequence {
            seq_id,
            model,
            cmds: Vec::new(),
            gen_streams: Vec::new(),
            embed_cmds: Vec::new(),
            toolbox,
            event_sink,
        }
    }

    /// The id the server gave this sequence.
    pub fn id(&self) -> (r: &str)
        ensures
            r@ == self.id_string()@,
    {
        self.seq_id.as_str()
    }

    /// The listener is gone: stop handing it events.
    pub fn stop_listening(&mut self)
        requires
            old(self).wf(),
        ensures
            final(self).wf(),
            same_identity(*old(self), *final(self)),
            same_tables(*old(self), *final(self)),
            !final(self).listening(),
    {
        self.event_sink = false;
    }

    /// The receiver of generation stream `cid` is gone: stop feeding it.
    pub fn on_stream_dropped(&mut self, cid: &String)
        requires
            old(self).wf(),
        ensures
            final(self).wf(),
            same_identity(*old(self), *final(self)),
            final(self).listening() == old(self).listening(),
            final(self).commands() == old(self).commands(),
            final(self).streams() == without_key(old(self).streams(), cid@),
            final(self).embeds() == old(self).embeds(),
    {
        let _ = remove_key(&mut self.gen_streams, cid);
    }

    /// Handles an event from the server for this sequence.
    pub fn on_event(&mut self, event: &MSEvent) -> (actions: Vec<SeqAction>)
        requires
            old(self).wf(),
        ensures
            final(self).wf(),
            same_identity(*old(self), *final(self)),
            final(self).listening() == (old(self).listening() && !(event is SeqClosed)),
            actions@.len() >= forwarded(*old(self)).len(),
            actions@.take(forwarded(*old(self)).len() as int) == forwarded(*old(self)),
            reacted(
                *old(self),
                *final(self),
                *event,
                actions@.skip(forwarded(*old(self)).len() as int),
            ),
    {
        let mut actions: Vec<SeqAction> = Vec::new();
        if self.event_sink {
            actions.push(SeqAction::Forward);
        }
        let ghost prefix = actions@;
        let mut rest = match event {
            MSEvent::SeqAppendFinish { cid, .. } => self.on_append_finished(cid),
            MSEvent::SeqGenFinish { cid, .. } => self.on_gen_finished(cid),
            MSEvent::SeqEmbedding { cid, index, embedding, input_tokens, .. } => {
                self.on_embedding(cid, *index, embedding, *input_tokens)
            },
            MSEvent::SeqEmbedFinish { cid, prompt_tokens, .. } => {
                self.on_embed_finished(cid, *prompt_tokens)
            },
            MSEvent::SeqForkFinish { cid, child_seq_id, .. } => {
                self.on_fork_finished(cid, child_seq_id)
            },
            MSEvent::SeqText { cid, text, hidden, tokens, .. } => {
                self.on_text(cid, text, *hidden, tokens)
            },
            MSEvent::SeqClosed { cid, .. } => self.on_close_event(cid),
            MSEvent::SeqToolCall { cid, tool_calls, .. } => self.on_tool_call(cid, tool_calls),
            MSEvent::Error { cid, message, code, rate_limit, .. } => {
                match cid {
                    Some(cid) => self.on_command_error(cid, message, code, rate_limit),
                    None => self.on_seq_error(message, code, rate_limit),
                }
            },
            _ => Vec::new(),
        };
        let ghost out = rest@;
        actions.append(&mut rest);
        assert(actions@.take(prefix.len() as int) =~= prefix);
        assert(actions@.skip(prefix.len() as int) =~= out);
        actions
    }

    fn on_append_finished(&mut self, cid: &String) -> (out: Vec<SeqAction>)
        requires
            old(self).wf(),
        ensures
            final(self).wf(),
            same_identity(*old(self), *final(self)),
            final(self).listening() == old(self).listening(),
            final(self).commands() == without_key(old(self).commands(), cid@),
            final(self).streams() == old(self).streams(),
            final(self).embeds() == old(self).embeds(),
            out@ == reply_if_pending(old(self).commands(), cid@, Ok(CommandReply::Done)),
    {
        match remove_key(&mut self.cmds, cid) {
            Some(c) => one(SeqAction::ReplyCommand { cid: c, reply: Ok(CommandReply::Done) }),
            None => Vec::new(),
        }
    }

    fn on_gen_finished(&mut self, cid: &String) -> (out: Vec<SeqAction>)
        requires
            old(self).wf(),
        ensures
            final(self).wf(),
            same_identity(*old(self), *final(self)),
            final(self).listening() == old(self).listening(),
            final(self).commands() == without_key(old(self).commands(), cid@),
            final(self).streams() == without_key(old(self).streams(), cid@),
            final(self).embeds() == old(self).embeds(),
            out@ == reply_if_pending(old(self).commands(), cid@, Ok(CommandReply::Done)) + (if has_key(
                old(self).streams(),
                cid@,
            ) {
                seq![SeqAction::EndStream { cid: entry(old(self).streams(), cid@) }]
            } else {
                Seq::empty()
            }),
    {
        let mut out = self.on_append_finished(cid);
        let ghost first = out@;
        match remove_key(&mut self.gen_streams, cid) {
            Some(c) => {
                out.push(SeqAction::EndStream { cid: c });
            },
            None => {
                assert(out@ =~= first + Seq::<SeqAction>::empty());
            },
        }
        out
    }

    fn on_embedding(&mut self, cid: &String, index: u32, embedding: &Vec<u32>, input_tokens: u32) -> (out: Vec<
        SeqAction,
    >)
        requires
            old(self).wf(),
        ensures
            final(self).wf(),
            same_identity(*old(self), *final(self)),
            final(self).listening() == old(self).listening(),
            final(self).commands() == old(self).commands(),
            final(self).streams() == old(self).streams(),
            embedding_recorded(
                old(self).embeds(),
                final(self).embeds(),
                cid@,
                index,
                embedding@,
                input_tokens,
            ),
            out@.len() == 0,
    {
        match find_key(&self.embed_cmds, cid) {
            Some(p) => {
                proof {
                    crate::table::lemma_key_pos(self.embed_cmds@, cid@, p as int);
                }
                let idx = index as usize;
                if idx < self.embed_cmds[p].embeddings.len() {
                    let ghost pre = self.embed_cmds@;
                    let mut st = self.embed_cmds.remove(p);
                    st.embeddings.set(idx, Some(copy_u32s(embedding)));
                    st.input_tokens.set(idx, input_tokens);
                    self.embed_cmds.insert(p, st);
                    assert(self.embed_cmds@ =~= pre.update(p as int, st));
                    assert forall|a: int, b: int|
                        0 <= a < self.embed_cmds@.len() && 0 <= b < self.embed_cmds@.len() && a
                            != b implies #[trigger] self.embed_cmds@[a].key()
                        != #[trigger] self.embed_cmds@[b].key() by {
                        assert(pre[a].key() != pre[b].key());
                    }
                }
            },
            None => {},
        }
        Vec::new()
    }

    fn on_embed_finished(&mut self, cid: &String, prompt_tokens: u32) -> (out: Vec<SeqAction>)
        requires
            old(self).wf(),
        ensures
            final(self).wf(),
            same_identity(*old(self), *final(self)),
            final(self).listening() == old(self).listening(),
            final(self).commands() == old(self).commands(),
            final(self).streams() == old(self).streams(),
            final(self).embeds() == without_key(old(self).embeds(), cid@),
            if has_key(old(self).embeds(), cid@) {
                &&& out@.len() == 1
                &&& out@[0] matches SeqAction::ReplyEmbed { cid: k, result }
                &&& k == entry(old(self).embeds(), cid@).cid
                &&& embed_answer(entry(old(self).embeds(), cid@), prompt_tokens, result)
            } else {
                out@.len() == 0
            },
    {
        let ghost pre = self.embed_cmds@;
        let removed = remove_key(&mut self.embed_cmds, cid);
        proof {
            if has_key(pre, cid@) {
                let p = crate::table::key_pos(pre, cid@);
                assert(self.embed_cmds@ =~= pre.remove(p));
                assert forall|i: int|
                    0 <= i < self.embed_cmds@.len() implies (#[trigger] self.embed_cmds@[i]).embeddings@.len()
                    == self.embed_cmds@[i].input_tokens@.len() by {
                    if i < p {
                        assert(self.embed_cmds@[i] == pre[i]);
                    } else {
                        assert(self.embed_cmds@[i] == pre[i + 1]);
                    }
                }
            }
        }
        match removed {
            Some(st) => {
                let result = finish_embed(&st, prompt_tokens);
                one(SeqAction::ReplyEmbed { cid: st.cid, result })
            },
            None => Vec::new(),
        }
    }

    fn on_fork_finished(&mut self, cid: &String, child_seq_id: &String) -> (out: Vec<SeqAction>)
        requires
            old(self).wf(),
        ensures
            final(self).wf(),
            same_identity(*old(self), *final(self)),
            final(self).listening() == old(self).listening(),
            final(self).commands() == without_key(old(self).commands(), cid@),
            final(self).streams() == old(self).streams(),
            final(self).embeds() == old(self).embeds(),
            if has_key(old(self).commands(), cid@) {
                &&& out@.len() == 2
                &&& out@[0] matches SeqAction::RegisterChild { child }
                &&& is_fresh(
                    child,
                    *child_seq_id,
                    old(self).model_string(),
                    old(self).has_toolbox(),
                    false,
                )
                &&& out@[1] == SeqAction::ReplyCommand {
                    cid: entry(old(self).commands(), cid@),
                    reply: Ok(CommandReply::Forked(*child_seq_id)),
                }
            } else {
                out@.len() == 0
            },
    {
        match remove_key(&mut self.cmds, cid) {
            Some(c) => {
                let child = Sequence::new(
                    child_seq_id.clone(),
                    self.model.clone(),
                    self.toolbox,
                    false,
                );
                let mut out = one(SeqAction::RegisterChild { child });
                out.push(
                    SeqAction::ReplyCommand {
                        cid: c,
                        reply: Ok(CommandReply::Forked(child_seq_id.clone())),
                    },
                );
                out
            },
            None => Vec::new(),
        }
    }

    fn on_text(&mut self, cid: &String, text: &String, hidden: bool, tokens: &Option<Vec<u32>>) -> (out:
        Vec<SeqAction>)
        requires
            old(self).wf(),
        ensures
            *final(self) == *old(self),
            if has_key(old(self).streams(), cid@) {
                &&& out@.len() == 1
                &&& out@[0] matches SeqAction::StreamChunk { cid: k, chunk }
                &&& k == *cid
                &&& chunk.text == *text
                &&& chunk.hidden == hidden
                &&& opt_u32s(chunk.tokens) == opt_u32s(*tokens)
            } else {
                out@.len() == 0
            },
    {
        if contains_key(&self.gen_streams, cid) {
            let chunk = GenChunk { text: text.clone(), hidden, tokens: copy_opt_u32s(tokens) };
            one(SeqAction::StreamChunk { cid: cid.clone(), chunk })
        } else {
            Vec::new()
        }
    }

    /// Fails everything pending with `e` and empties the tables.
    fn fail_all(&mut self, e: &ModelSocketError) -> (out: Vec<SeqAction>)
        requires
            old(self).wf(),
        ensures
            final(self).wf(),
            same_identity(*old(self), *final(self)),
            final(self).listening() == old(self).listening(),
            no_pending(*final(self)),
            out@ == all_failures(*old(self), *e),
    {
        let mut out: Vec<SeqAction> = Vec::new();
        let n = self.cmds.len();
        let mut i: usize = 0;
        while i < n
            invariant
                n == self.cmds@.len(),
                i <= n,
                out@ == command_failures(self.cmds@.take(i as int), *e),
            decreases n - i,
        {
            out.push(SeqAction::ReplyCommand { cid: self.cmds[i].clone(), reply: Err(clone_error(e)) });
            assert(self.cmds@.take(i + 1) =~= self.cmds@.take(i as int).push(self.cmds@[i as int]));
            assert(command_failures(self.cmds@.take(i + 1), *e) =~= command_failures(
                self.cmds@.take(i as int),
                *e,
            ).push(SeqAction::ReplyCommand { cid: self.cmds@[i as int], reply: Err(*e) }));
            i = i + 1;
        }
        assert(self.cmds@.take(n as int) =~= self.cmds@);
        let ghost a = out@;
        let n = self.gen_streams.len();
        let mut i: usize = 0;
        while i < n
            invariant
                n == self.gen_streams@.len(),
                i <= n,
                out@ == a + stream_failures(self.gen_streams@.take(i as int), *e),
            decreases n - i,
        {
            out.push(SeqAction::FailStream { cid: self.gen_streams[i].clone(), error: clone_error(e) });
            assert(self.gen_streams@.take(i + 1) =~= self.gen_streams@.take(i as int).push(
                self.gen_streams@[i as int],
            ));
            assert(stream_failures(self.gen_streams@.take(i + 1), *e) =~= stream_failures(
                self.gen_streams@.take(i as int),
                *e,
            ).push(SeqAction::FailStream { cid: self.gen_streams@[i as int], error: *e }));
            i = i + 1;
        }
        assert(self.gen_streams@.take(n as int) =~= self.gen_streams@);
        let ghost b = out@;
        let n = self.embed_cmds.len();
        let mut i: usize = 0;
        while i < n
            invariant
                n == self.embed_cmds@.len(),
                i <= n,
                out@ == b + embed_failures(self.embed_cmds@.take(i as int), *e),
            decreases n - i,
        {
            out.push(
                SeqAction::ReplyEmbed { cid: self.embed_cmds[i].cid.clone(), result: Err(clone_error(e)) },
            );
            assert(self.embed_cmds@.take(i + 1) =~= self.embed_cmds@.take(i as int).push(
                self.embed_cmds@[i as int],
            ));
            assert(embed_failures(self.embed_cmds@.take(i + 1), *e) =~= embed_failures(
                self.embed_cmds@.take(i as int),
                *e,
            ).push(SeqAction::ReplyEmbed { cid: self.embed_cmds@[i as int].cid, result: Err(*e) }));
            i = i + 1;
        }
        assert(self.embed_cmds@.take(n as int) =~= self.embed_cmds@);
        self.cmds = Vec::new();
        self.gen_streams = Vec::new();
        self.embed_cmds = Vec::new();
        out
    }

    fn on_close_event(&mut self, cid: &Option<String>) -> (out: Vec<SeqAction>)
        requires
            old(self).wf(),
        ensures
            final(self).wf(),
            same_identity(*old(self), *final(self)),
            !final(self).listening(),
            no_pending(*final(self)),
            ({
                let c = old(self).commands();
                let c2 = match *cid {
                    Some(k) => without_key(c, k@),
                    None => c,
                };
                let first = match *cid {
                    Some(k) => reply_if_pending(c, k@, Ok(CommandReply::Done)),
                    None => Seq::empty(),
                };
                out@ == first + command_failures(c2, ModelSocketError::SeqClosed) + stream_failures(
                    old(self).streams(),
                    ModelSocketError::SeqClosed,
                ) + embed_failures(old(self).embeds(), ModelSocketError::SeqClosed)
            }),
    {
        let mut out = match cid {
            Some(c) => self.on_append_finished(c),
            None => Vec::new(),
        };
        let mut rest = self.fail_all(&ModelSocketError::SeqClosed);
        out.append(&mut rest);
        self.event_sink = false;
        out
    }

    fn on_tool_call(&mut self, cid: &String, tool_calls: &Vec<SeqToolCall>) -> (out: Vec<SeqAction>)
        requires
            old(self).wf(),
        ensures
            *final(self) == *old(self),
            if old(self).has_toolbox() {
                &&& out@.len() == 1
                &&& out@[0] matches SeqAction::CallTools { cid: k, calls }
                &&& k == *cid
                &&& calls@ == tool_calls@
            } else {
                out@.len() == 0
            },
    {
        if self.toolbox {
            let calls = copy_calls(tool_calls);
            one(SeqAction::CallTools { cid: cid.clone(), calls })
        } else {
            Vec::new()
        }
    }

    fn on_command_error(
        &mut self,
        cid: &String,
        message: &String,
        code: &Option<String>,
        details: &Option<RateLimitErrorDetails>,
    ) -> (out: Vec<SeqAction>)
        requires
            old(self).wf(),
        ensures
            final(self).wf(),
            same_identity(*old(self), *final(self)),
            final(self).listening() == old(self).listening(),
            final(self).commands() == without_key(old(self).commands(), cid@),
            final(self).streams() == without_key(old(self).streams(), cid@),
            final(self).embeds() == without_key(old(self).embeds(), cid@),
            ({
                let e = ModelSocketError::Remote { message: *message, code: *code, details: *details };
                out@ == reply_if_pending(old(self).commands(), cid@, Err(e)) + (if has_key(
                    old(self).streams(),
                    cid@,
                ) {
                    seq![SeqAction::FailStream { cid: entry(old(self).streams(), cid@), error: e }]
                } else {
                    Seq::empty()
                }) + (if has_key(old(self).embeds(), cid@) {
                    seq![
                        SeqAction::ReplyEmbed {
                            cid: entry(old(self).embeds(), cid@).cid,
                            result: Err(e),
                        },
                    ]
                } else {
                    Seq::empty()
                })
            }),
    {
        let mut out: Vec<SeqAction> = Vec::new();
        match remove_key(&mut self.cmds, cid) {
            Some(c) => {
                out.push(SeqAction::ReplyCommand { cid: c, reply: Err(remote_error(message, code, details)) });
            },
            None => {},
        }
        let ghost a = out@;
        match remove_key(&mut self.gen_streams, cid) {
            Some(c) => {
                out.push(SeqAction::FailStream { cid: c, error: remote_error(message, code, details) });
            },
            None => {
                assert(out@ =~= a + Seq::<SeqAction>::empty());
            },
        }
        let ghost b = out@;
        let ghost pre = self.embed_cmds@;
        match remove_key(&mut self.embed_cmds, cid) {
            Some(st) => {
                out.push(
                    SeqAction::ReplyEmbed { cid: st.cid, result: Err(remote_error(message, code, details)) },
                );
            },
            None => {
                assert(out@ =~= b + Seq::<SeqAction>::empty());
            },
        }
        proof {
            if has_key(pre, cid@) {
                let p = crate::table::key_pos(pre, cid@);
                assert forall|i: int|
                    0 <= i < self.embed_cmds@.len() implies (#[trigger] self.embed_cmds@[i]).embeddings@.len()
                    == self.embed_cmds@[i].input_tokens@.len() by {
                    if i < p {
                        assert(self.embed_cmds@[i] == pre[i]);
                    } else {
                        assert(self.embed_cmds@[i] == pre[i + 1]);
                    }
                }
            }
        }
        out
    }

    fn on_seq_error(
        &mut self,
        message: &String,
        code: &Option<String>,
        details: &Option<RateLimitErrorDetails>,
    ) -> (out: Vec<SeqAction>)
        requires
            old(self).wf(),
        ensures
            final(self).wf(),
            same_identity(*old(self), *final(self)),
            final(self).listening() == old(self).listening(),
            no_pending(*final(self)),
            out@ == all_failures(
                *old(self),
                ModelSocketError::Remote { message: *message, code: *code, details: *details },
            ),
    {
        let e = remote_error(message, code, details);
        self.fail_all(&e)
    }
}


/// The request carrying command `cmd` for sequence `seq_id` under `cid`.
pub open spec fn command_request(seq_id: String, cid: String, cmd: SeqCommand) -> MSRequest {
    MSRequest::SeqCommand { cid, seq_id, data: cmd }
}

/// `post` has the same identity and listener as `pre`.
pub open spec fn same_header(pre: Sequence, post: Sequence) -> bool {
    &&& same_identity(pre, post)
    &&& post.listening() == pre.listening()
}

/// Batch state for an embedding command over `n` inputs: nothing arrived yet.
pub open spec fn awaiting_batch(st: EmbedCommandState, cid: String, n: nat) -> bool {
    &&& st.cid == cid
    &&& st.embeddings@ == Seq::new(n, |i: int| None::<Vec<u32>>)
    &&& st.input_tokens@ == Seq::new(n, |i: int| 0u32)
}

/// The outcome of a command once its reply arrives (`None`: the reply
/// channel closed without one).
pub fn command_outcome(reply: Option<Result<CommandReply, ModelSocketError>>) -> (r: Result<
    (),
    ModelSocketError,
>)
    ensures
        match reply {
            None => r matches Err(ModelSocketError::Command(m)) && m@
                == "failed to receive response"@,
            Some(Err(e)) => r == Err::<(), ModelSocketError>(e),
            Some(Ok(_)) => r is Ok,
        },
{
    match reply {
        None => Err(ModelSocketError::Command("failed to receive response".to_string())),
        Some(Err(e)) => Err(e),
        Some(Ok(_)) => Ok(()),
    }
}

/// The outcome of an embedding command once its reply arrives (`None`: the
/// reply channel closed without one).
pub fn embed_outcome(reply: Option<Result<EmbeddingResult, ModelSocketError>>) -> (r: Result<
    EmbeddingResult,
    ModelSocketError,
>)
    ensures
        match reply {
            None => r matches Err(ModelSocketError::Command(m)) && m@
                == "failed to receive embedding response"@,
            Some(x) => r == x,
        },
{
    match reply {
        None => Err(ModelSocketError::Command("failed to receive embedding response".to_string())),
        Some(x) => x,
    }
}

impl Sequence {
    /// The request for a raw command `cmd` under correlation id `cid`.
    /// Nothing waits for its reply.
    pub fn send_cmd(&self, cid: String, cmd: SeqCommand) -> (r: MSRequest)
        ensures
            r == command_request(self.id_string(), cid, cmd),
    {
        MSRequest::SeqCommand { cid, seq_id: self.seq_id.clone(), data: cmd }
    }

    /// Starts a command that waits for its reply: a fresh correlation id,
    /// recorded as pending, and the request carrying `cmd`.
    fn start_command(&mut self, cmd: SeqCommand) -> (r: (String, MSRequest))
        requires
            old(self).wf(),
        ensures
            final(self).wf(),
            same_header(*old(self), *final(self)),
            final(self).commands() == with_entry(old(self).commands(), r.0),
            final(self).streams() == old(self).streams(),
            final(self).embeds() == old(self).embeds(),
            r.1 == command_request(old(self).id_string(), r.0, cmd),
    {
        let cid = new_cid();
        insert_entry(&mut self.cmds, cid.clone());
        let request = MSRequest::SeqCommand { cid: cid.clone(), seq_id: self.seq_id.clone(), data: cmd };
        (cid, request)
    }

    /// Appends `text` with the role of `opts`. Returns the correlation id to
    /// wait on and the request to send.
    pub fn append(&mut self, text: String, opts: AppendOpts) -> (r: (String, MSRequest))
        requires
            old(self).wf(),
        ensures
            final(self).wf(),
            same_header(*old(self), *final(self)),
            final(self).commands() == with_entry(old(self).commands(), r.0),
            final(self).streams() == old(self).streams(),
            final(self).embeds() == old(self).embeds(),
            r.1 == command_request(
                old(self).id_string(),
                r.0,
                SeqCommand::Append(
                    SeqAppendReq {
                        text,
                        tokens: None,
                        media: None,
                        hidden: false,
                        echo: false,
                        role: opts.role,
                    },
                ),
            ),
    {
        let req = SeqAppendReq { text, tokens: None, media: None, hidden: false, echo: false, role: opts.role };
        self.start_command(SeqCommand::Append(req))
    }

    /// Appends a media attachment with the role of `opts`. Returns the
    /// correlation id to wait on and the request to send.
    pub fn append_media(&mut self, media: SeqAppendMedia, opts: AppendOpts) -> (r: (String, MSRequest))
        requires
            old(self).wf(),
        ensures
            final(self).wf(),
            same_header(*old(self), *final(self)),
            final(self).commands() == with_entry(old(self).commands(), r.0),
            final(self).streams() == old(self).streams(),
            final(self).embeds() == old(self).embeds(),
            r.1 matches MSRequest::SeqCommand { cid, seq_id, data: SeqCommand::Append(req) }
                && cid == r.0 && seq_id == old(self).id_string() && req.text@.len() == 0
                && req.tokens is None && req.media == Some(media) && !req.hidden && !req.echo
                && req.role == opts.role,
    {
        let req = SeqAppendReq {
            text: String::new(),
            tokens: None,
            media: Some(media),
            hidden: false,
            echo: false,
            role: opts.role,
        };
        self.start_command(SeqCommand::Append(req))
    }

    /// Starts a generation with `opts` (all unset when `None`). Returns the
    /// correlation id of the command and of its stream, and the request.
    pub fn generate(&mut self, opts: Option<SeqGenReq>) -> (r: (String, MSRequest))
        requires
            old(self).wf(),
        ensures
            final(self).wf(),
            same_header(*old(self), *final(self)),
            final(self).commands() == with_entry(old(self).commands(), r.0),
            final(self).streams() == with_entry(old(self).streams(), r.0),
            final(self).embeds() == old(self).embeds(),
            r.1 == command_request(
                old(self).id_string(),
                r.0,
                SeqCommand::Gen(
                    match opts {
                        Some(o) => o,
                        None => SeqGenReq::unset(),
                    },
                ),
            ),
    {
        let req = match opts {
            Some(o) => o,
            None => SeqGenReq::default(),
        };
        let (cid, request) = self.start_command(SeqCommand::Gen(req));
        insert_entry(&mut self.gen_streams, cid.clone());
        (cid, request)
    }

    /// Asks the server to fork this sequence. Returns the correlation id to
    /// wait on and the request to send.
    pub fn fork(&mut self) -> (r: (String, MSRequest))
        requires
            old(self).wf(),
        ensures
            final(self).wf(),
            same_header(*old(self), *final(self)),
            final(self).commands() == with_entry(old(self).commands(), r.0),
            final(self).streams() == old(self).streams(),
            final(self).embeds() == old(self).embeds(),
            r.1 == command_request(old(self).id_string(), r.0, SeqCommand::Fork(SeqForkReq {})),
    {
        self.start_command(SeqCommand::Fork(SeqForkReq {}))
    }

    /// Asks for embeddings of `inputs` with `opts` (all unset when `None`).
    /// Returns the correlation id to wait on and the request to send.
    pub fn embed(&mut self, inputs: Vec<EmbeddingInput>, opts: Option<EmbedOpts>) -> (r: (
        String,
        MSRequest,
    ))
        requires
            old(self).wf(),
        ensures
            final(self).wf(),
            same_header(*old(self), *final(self)),
            final(self).commands() == old(self).commands(),
            final(self).streams() == old(self).streams(),
            has_key(final(self).embeds(), r.0@),
            final(self).embeds() == with_entry(old(self).embeds(), entry(final(self).embeds(), r.0@)),
            awaiting_batch(entry(final(self).embeds(), r.0@), r.0, inputs@.len()),
            r.1 matches MSRequest::SeqCommand { cid, seq_id, data: SeqCommand::Embed(req) }
                && cid == r.0 && seq_id == old(self).id_string() && req.inputs == inputs
                && match opts {
                    Some(o) => req.input_type == o.input_type && req.dimensions == o.dimensions
                        && req.normalize == o.normalize && req.truncate == o.truncate,
                    None => req.input_type is None && req.dimensions is None
                        && req.normalize is None && req.truncate is None,
                },
    {
        let opts = match opts {
            Some(o) => o,
            None => EmbedOpts::default(),
        };
        let cid = new_cid();
        let n = inputs.len();
        let mut embeddings: Vec<Option<Vec<u32>>> = Vec::new();
        let mut input_tokens: Vec<u32> = Vec::new();
        let mut i: usize = 0;
        while i < n
            invariant
                i <= n,
                embeddings@ == Seq::new(i as nat, |j: int| None::<Vec<u32>>),
                input_tokens@ == Seq::new(i as nat, |j: int| 0u32),
            decreases n - i,
        {
            embeddings.push(None);
            input_tokens.push(0);
            assert(embeddings@ =~= Seq::new((i + 1) as nat, |j: int| None::<Vec<u32>>));
            assert(input_tokens@ =~= Seq::new((i + 1) as nat, |j: int| 0u32));
            i = i + 1;
        }
        let st = EmbedCommandState { cid: cid.clone(), embeddings, input_tokens };
        let ghost st_v = st;
        let ghost pre = self.embed_cmds@;
        insert_entry(&mut self.embed_cmds, st);
        proof {
            crate::table::lemma_with_entry_at(pre, st_v);
            assert forall|i: int|
                0 <= i < self.embed_cmds@.len() implies (#[trigger] self.embed_cmds@[i]).embeddings@.len()
                == self.embed_cmds@[i].input_tokens@.len() by {
                if i < pre.len() && self.embed_cmds@[i] != st_v {
                    assert(self.embed_cmds@[i] == pre[i]);
                }
            }
        }
        let request = MSRequest::SeqCommand {
            cid: cid.clone(),
            seq_id: self.seq_id.clone(),
            data: SeqCommand::Embed(
                SeqEmbedReq {
                    inputs,
                    input_type: opts.input_type,
                    dimensions: opts.dimensions,
                    normalize: opts.normalize,
                    truncate: opts.truncate,
                },
            ),
        };
        (cid, request)
    }

    /// Closes this sequence from the client side: fails everything pending
    /// with `SeqClosed`, then sends a close command (nothing waits for it).
    pub fn close(&mut self) -> (actions: Vec<SeqAction>)
        requires
            old(self).wf(),
        ensures
            final(self).wf(),
            same_header(*old(self), *final(self)),
            no_pending(*final(self)),
            actions@.len() == all_failures(*old(self), ModelSocketError::SeqClosed).len() + 1,
            actions@.drop_last() == all_failures(*old(self), ModelSocketError::SeqClosed),
            actions@.last() matches SeqAction::Send { request } && request matches MSRequest::SeqCommand {
                seq_id,
                data: SeqCommand::Close(_),
                ..
            } && seq_id == old(self).id_string(),
    {
        let mut actions = self.fail_all(&ModelSocketError::SeqClosed);
        let ghost failures = actions@;
        let cid = new_cid();
        let request = MSRequest::SeqCommand {
            cid,
            seq_id: self.seq_id.clone(),
            data: SeqCommand::Close(SeqCloseReq {}),
        };
        actions.push(SeqAction::Send { request });
        assert(actions@.drop_last() =~= failures);
        actions
    }

    /// Carries on after the toolbox has run on the calls of tool-call event
    /// `cid`: returns its results to the server, does nothing when it chose
    /// not to answer, and closes the sequence when it failed.
    pub fn on_tool_results(
        &mut self,
        cid: String,
        outcome: Result<Option<Vec<ToolResult>>, String>,
    ) -> (actions: Vec<SeqAction>)
        requires
            old(self).wf(),
        ensures
            final(self).wf(),
            same_header(*old(self), *final(self)),
            match outcome {
                Ok(Some(results)) => {
                    &&& same_tables(*old(self), *final(self))
                    &&& actions@ == seq![
                        SeqAction::Send {
                            request: command_request(
                                old(self).id_string(),
                                cid,
                                SeqCommand::ToolReturn(
                                    SeqToolReturnReq { results, gen_opts: SeqGenReq::unset() },
                                ),
                            ),
                        },
                    ]
                },
                Ok(None) => {
                    &&& same_tables(*old(self), *final(self))
                    &&& actions@.len() == 0
                },
                Err(_) => {
                    &&& no_pending(*final(self))
                    &&& actions@.len() == all_failures(*old(self), ModelSocketError::SeqClosed).len()
                        + 1
                    &&& actions@.drop_last() == all_failures(*old(self), ModelSocketError::SeqClosed)
                    &&& actions@.last() matches SeqAction::Send { request } && request matches MSRequest::SeqCommand {
                        seq_id,
                        data: SeqCommand::Close(_),
                        ..
                    } && seq_id == old(self).id_string()
                },
            },
    {
        match outcome {
            Ok(Some(results)) => {
                let request = MSRequest::SeqCommand {
                    cid,
                    seq_id: self.seq_id.clone(),
                    data: SeqCommand::ToolReturn(
                        SeqToolReturnReq { results, gen_opts: SeqGenReq::default() },
                    ),
                };
                one(SeqAction::Send { request })
            },
            Ok(None) => Vec::new(),
            Err(_) => self.close(),
        }
    }
}

/// The action answers (or ends) the work pending under `cid` in `s`: it is
/// pending in `pre` and no longer in `post`.
pub open spec fn settles(pre: Sequence, post: Sequence, a: SeqAction) -> bool {
    match a {
        SeqAction::ReplyCommand { cid, .. } => has_key(pre.commands(), cid@) && !has_key(
            post.commands(),
            cid@,
        ),
        SeqAction::EndStream { cid } => has_key(pre.streams(), cid@) && !has_key(post.streams(), cid@),
        SeqAction::FailStream { cid, .. } => has_key(pre.streams(), cid@) && !has_key(
            post.streams(),
            cid@,
        ),
        SeqAction::ReplyEmbed { cid, .. } => has_key(pre.embeds(), cid@) && !has_key(
            post.embeds(),
            cid@,
        ),
        _ => true,
    }
}

proof fn lemma_failures_settle(pre: Sequence, post: Sequence, e: ModelSocketError, c: Seq<String>)
    requires
        no_pending(post),
        forall|x: Seq<char>| has_key(c, x) ==> has_key(pre.commands(), x),
    ensures
        forall|i: int|
            0 <= i < command_failures(c, e).len() ==> settles(
                pre,
                post,
                #[trigger] command_failures(c, e)[i],
            ),
        forall|i: int|
            0 <= i < stream_failures(pre.streams(), e).len() ==> settles(
                pre,
                post,
                #[trigger] stream_failures(pre.streams(), e)[i],
            ),
        forall|i: int|
            0 <= i < embed_failures(pre.embeds(), e).len() ==> settles(
                pre,
                post,
                #[trigger] embed_failures(pre.embeds(), e)[i],
            ),
{
    assert forall|i: int| 0 <= i < command_failures(c, e).len() implies settles(
        pre,
        post,
        #[trigger] command_failures(c, e)[i],
    ) by {
        assert(c[i].key() == c[i]@);
        assert(has_key(c, c[i]@));
    }
    assert forall|i: int| 0 <= i < stream_failures(pre.streams(), e).len() implies settles(
        pre,
        post,
        #[trigger] stream_failures(pre.streams(), e)[i],
    ) by {
        assert(pre.streams()[i].key() == pre.streams()[i]@);
        assert(has_key(pre.streams(), pre.streams()[i]@));
    }
    assert forall|i: int| 0 <= i < embed_failures(pre.embeds(), e).len() implies settles(
        pre,
        post,
        #[trigger] embed_failures(pre.embeds(), e)[i],
    ) by {
        assert(pre.embeds()[i].key() == pre.embeds()[i].cid@);
        assert(has_key(pre.embeds(), pre.embeds()[i].cid@));
    }
}

/// Every reply a sequence gives to an event settles work that was pending,
/// and that work is pending no more: a command, stream or embedding batch is
/// answered at most once.
pub proof fn law_replies_settle_pending_work(
    pre: Sequence,
    post: Sequence,
    event: MSEvent,
    out: Seq<SeqAction>,
)
    requires
        pre.wf(),
        post.wf(),
        reacted(pre, post, event, out),
    ensures
        forall|i: int| 0 <= i < out.len() ==> settles(pre, post, #[trigger] out[i]),
{
    let c = pre.commands();
    let s = pre.streams();
    let em = pre.embeds();
    pre.lemma_wf_unique();
    match event {
        MSEvent::SeqAppendFinish { cid, .. } => {
            crate::table::lemma_without_key(c, cid@);
        },
        MSEvent::SeqGenFinish { cid, .. } => {
            crate::table::lemma_without_key(c, cid@);
            crate::table::lemma_without_key(s, cid@);
        },
        MSEvent::SeqEmbedFinish { cid, .. } => {
            crate::table::lemma_without_key(em, cid@);
        },
        MSEvent::SeqForkFinish { cid, .. } => {
            crate::table::lemma_without_key(c, cid@);
        },
        MSEvent::SeqClosed { cid, .. } => {
            let c2 = match cid {
                Some(k) => without_key(c, k@),
                None => c,
            };
            let first = match cid {
                Some(k) => reply_if_pending(c, k@, Ok(CommandReply::Done)),
                None => Seq::empty(),
            };
            match cid {
                Some(k) => {
                    crate::table::lemma_without_key(c, k@);
                },
                None => {},
            }
            lemma_failures_settle(pre, post, ModelSocketError::SeqClosed, c2);
            assert forall|i: int| 0 <= i < out.len() implies settles(pre, post, #[trigger] out[i]) by {
                let f1 = command_failures(c2, ModelSocketError::SeqClosed);
                let f2 = stream_failures(s, ModelSocketError::SeqClosed);
                let f3 = embed_failures(em, ModelSocketError::SeqClosed);
                if i < first.len() {
                    assert(out[i] == first[i]);
                } else if i < first.len() + f1.len() {
                    assert(out[i] == f1[i - first.len()]);
                } else if i < first.len() + f1.len() + f2.len() {
                    assert(out[i] == f2[i - first.len() - f1.len()]);
                } else {
                    assert(out[i] == f3[i - first.len() - f1.len() - f2.len()]);
                }
            }
        },
        MSEvent::Error { cid, message, code, rate_limit, .. } => {
            let e = ModelSocketError::Remote { message, code, details: rate_limit };
            match cid {
                Some(k) => {
                    crate::table::lemma_without_key(c, k@);
                    crate::table::lemma_without_key(s, k@);
                    crate::table::lemma_without_key(em, k@);
                },
                None => {
                    lemma_failures_settle(pre, post, e, c);
                    assert forall|i: int| 0 <= i < out.len() implies settles(
                        pre,
                        post,
                        #[trigger] out[i],
                    ) by {
                        let f1 = command_failures(c, e);
                        let f2 = stream_failures(s, e);
                        let f3 = embed_failures(em, e);
                        if i < f1.len() {
                            assert(out[i] == f1[i]);
                        } else if i < f1.len() + f2.len() {
                            assert(out[i] == f2[i - f1.len()]);
                        } else {
                            assert(out[i] == f3[i - f1.len() - f2.len()]);
                        }
                    }
                },
            }
        },
        _ => {},
    }
}

/// A command that was started is answered by the server's finish event for
/// its correlation id: exactly one reply, to that command, after which it is
/// pending no more.
pub proof fn law_started_command_is_answered(
    pre: Sequence,
    started: Sequence,
    cid: String,
    post: Sequence,
    event: MSEvent,
    out: Seq<SeqAction>,
)
    requires
        pre.wf(),
        started.wf(),
        started.commands() == with_entry(pre.commands(), cid),
        event matches MSEvent::SeqAppendFinish { cid: k, .. } && k@ == cid@,
        reacted(started, post, event, out),
    ensures
        out.len() == 1,
        out[0] matches SeqAction::ReplyCommand { cid: c, reply: Ok(CommandReply::Done) } && c@
            == cid@,
        !has_key(post.commands(), cid@),
{
    pre.lemma_wf_unique();
    started.lemma_wf_unique();
    crate::table::lemma_unique_with_entry(pre.commands(), cid);
    crate::table::lemma_without_key(started.commands(), cid@);
}

impl Sequence {
    /// The tables of a well-formed sequence hold each id at most once.
    proof fn lemma_wf_unique(self)
        requires
            self.wf(),
        ensures
            keys_unique(self.commands()),
            keys_unique(self.streams()),
            keys_unique(self.embeds()),
    {
    }
}

} // verus!
