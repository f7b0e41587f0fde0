//! The connection-level state of a ModelSocket client: sequences being
//! opened, sequences open, and sequences the server has closed; and where each
//! incoming event goes.
use vstd::prelude::*;

use crate::error::ModelSocketError;
use crate::ids::new_cid;
use crate::opts::{AppendOpts, OpenOpts};
use crate::protocol::{event_seq_id, MSEvent, MSRequest, SeqCommand, SeqOpenReq};
use crate::seq::{is_fresh, same_header, CommandReply, Sequence};
use crate::table::{
    contains_key, entry, find_key, has_key, insert_entry, key_pos, keys_unique, lemma_key_pos,
    lemma_unique_with_entry, remove_key, with_entry, without_key, Keyed,
};
use crate::text::concat_str;

verus! {

/// Something the owner of the connection must do after an event.
#[derive(Debug)]
pub enum SocketAction {
    /// Deliver the outcome of the pending open `cid`: the new sequence's id,
    /// or why it failed.
    Opened { cid: String, result: Result<String, ModelSocketError> },
    /// Hand the event to sequence `seq_id` (its `on_event`).
    Forward { seq_id: String },
    /// Drop sequence `seq_id`: the server closed it.
    Remove { seq_id: String },
}

/// The connection-level state of a ModelSocket client.
#[derive(Debug)]
pub struct ModelSocket {
    opening: Vec<String>,
    seqs: Vec<String>,
    closed: Vec<String>,
}

/// The event is for a sequence that is open and was not closed by the server.
pub open spec fn routable(s: ModelSocket, id: Seq<char>) -> bool {
    has_key(s.sequences(), id) && !has_key(s.tombstones(), id)
}

/// The state change and actions for `event`.
pub open spec fn routed(pre: ModelSocket, post: ModelSocket, event: MSEvent, out: Seq<SocketAction>) -> bool {
    let o = pre.opening();
    let q = pre.sequences();
    let t = pre.tombstones();
    match event {
        MSEvent::SeqOpened { seq_id, cid } => {
            &&& post.opening() == without_key(o, cid@)
            &&& post.sequences() == q
            &&& post.tombstones() == t
            &&& out == if has_key(o, cid@) {
                seq![SocketAction::Opened { cid: entry(o, cid@), result: Ok(seq_id) }]
            } else {
                Seq::empty()
            }
        },
        MSEvent::Error { cid, message, .. } => {
            let fwd = forward_for(pre, event);
            &&& post.sequences() == q
            &&& post.tombstones() == t
            &&& match cid {
                Some(k) => {
                    &&& post.opening() == without_key(o, k@)
                    &&& if has_key(o, k@) {
                        &&& out.len() == 1 + fwd.len()
                        &&& out[0] matches SocketAction::Opened {
                            cid: c,
                            result: Err(ModelSocketError::Open(m)),
                        }
                        &&& c == entry(o, k@)
                        &&& m@ == "open error: "@ + message@
                        &&& out.subrange(1, out.len() as int) == fwd
                    } else {
                        out == fwd
                    }
                },
                None => {
                    &&& post.opening() == o
                    &&& out == fwd
                },
            }
        },
        MSEvent::SeqClosed { seq_id, .. } => {
            let live = has_key(q, seq_id@);
            &&& post.opening() == o
            &&& post.sequences() == without_key(q, seq_id@)
            &&& post.tombstones() == if live {
                with_entry(t, entry(q, seq_id@))
            } else {
                t
            }
            &&& out == (if routable(pre, seq_id@) {
                seq![SocketAction::Forward { seq_id: entry(q, seq_id@) }]
            } else {
                Seq::empty()
            }) + (if live {
                seq![SocketAction::Remove { seq_id: entry(q, seq_id@) }]
            } else {
                Seq::empty()
            })
        },
        _ => {
            &&& post.opening() == o
            &&& post.sequences() == q
            &&& post.tombstones() == t
            &&& out == forward_for(pre, event)
        },
    }
}

/// After the server closes sequence `id`, the sequence table no longer holds
/// it, and the tombstones hold it if it was open.
pub open spec fn close_recorded(pre: ModelSocket, post: ModelSocket, id: Seq<char>) -> bool {
    &&& !has_key(post.sequences(), id)
    &&& has_key(pre.sequences(), id) ==> has_key(post.tombstones(), id)
}

/// The hand-over of `event` to the sequence it names, when that sequence is
/// open and was not closed by the server.
pub open spec fn forward_for(s: ModelSocket, event: MSEvent) -> Seq<SocketAction> {
    match event_seq_id(event) {
        Some(id) => if routable(s, id) {
            seq![SocketAction::Forward { seq_id: entry(s.sequences(), id) }]
        } else {
            Seq::empty()
        },
        None => Seq::empty(),
    }
}

fn event_seq_string(e: &MSEvent) -> (r: Option<&String>)
    ensures
        match r {
            Some(s) => event_seq_id(*e) == Some(s@),
            None => event_seq_id(*e) is None,
        },
{
    match e {
        MSEvent::SeqOpened { seq_id, .. } => Some(seq_id),
        MSEvent::SeqAppendFinish { seq_id, .. } => Some(seq_id),
        MSEvent::SeqGenFinish { seq_id, .. } => Some(seq_id),
        MSEvent::SeqEmbedding { seq_id, .. } => Some(seq_id),
        MSEvent::SeqEmbedFinish { seq_id, .. } => Some(seq_id),
        MSEvent::SeqForkFinish { seq_id, .. } => Some(seq_id),
        MSEvent::SeqText { seq_id, .. } => Some(seq_id),
        MSEvent::SeqToolCall { seq_id, .. } => Some(seq_id),
        MSEvent::SeqToolCallStart { seq_id, .. } => Some(seq_id),
        MSEvent::SeqToolCallArgsChunk { seq_id, .. } => Some(seq_id),
        MSEvent::SeqToolCallEnd { seq_id, .. } => Some(seq_id),
        MSEvent::SeqToolCallAborted { seq_id, .. } => Some(seq_id),
        MSEvent::SeqState { seq_id, .. } => Some(seq_id),
        MSEvent::SeqClosed { seq_id, .. } => Some(seq_id),
        MSEvent::Error { seq_id, .. } => match seq_id {
            Some(s) => Some(s),
            None => None,
        },
    }
}

/// The outcome of an open once its reply arrives (`None`: the reply channel
/// closed without one).
pub fn open_outcome(reply: Option<Result<String, ModelSocketError>>) -> (r: Result<
    String,
    ModelSocketError,
>)
    ensures
        match reply {
            None => r matches Err(ModelSocketError::Open(m)) && m@ == "Failed to receive seq_id"@,
            Some(x) => r == x,
        },
{
    match reply {
        None => Err(ModelSocketError::Open("Failed to receive seq_id".to_string())),
        Some(x) => x,
    }
}

/// The follow-up of an open: when the toolbox has a tool definition prompt,
/// it is appended to the new sequence as a system message. Returns the
/// correlation id to wait on and the request to send; with no prompt, returns
/// `None` and leaves the sequence as it was.
pub fn tool_prompt_append(seq: &mut Sequence, tool_def_prompt: Option<String>) -> (r: Option<
    (String, MSRequest),
>)
    requires
        old(seq).wf(),
    ensures
        final(seq).wf(),
        match tool_def_prompt {
            None => r is None && *final(seq) == *old(seq),
            Some(p) => {
                &&& r matches Some((cid, req))
                &&& same_header(*old(seq), *final(seq))
                &&& final(seq).commands() == with_entry(old(seq).commands(), cid)
                &&& final(seq).streams() == old(seq).streams()
                &&& final(seq).embeds() == old(seq).embeds()
                &&& req matches MSRequest::SeqCommand { cid: c, seq_id: s, data: SeqCommand::Append(a) }
                &&& c == cid
                &&& s == old(seq).id_string()
                &&& a.text == p
                &&& a.tokens is None
                &&& a.media is None
                &&& !a.hidden
                &&& !a.echo
                &&& a.role matches Some(role)
                &&& role@ == "system"@
            },
        },
{
    match tool_def_prompt {
        None => None,
        Some(p) => Some(seq.append(p, AppendOpts::system())),
    }
}

/// What an open answers once its follow-up is done (`None`: there was no
/// tool prompt to append): the new sequence's id, unless appending the tool
/// prompt failed, in which case that error.
pub fn open_result(seq_id: String, follow_up: Option<Result<(), ModelSocketError>>) -> (r: Result<
    String,
    ModelSocketError,
>)
    ensures
        match follow_up {
            Some(Err(e)) => r == Err::<String, ModelSocketError>(e),
            _ => r == Ok::<String, ModelSocketError>(seq_id),
        },
{
    match follow_up {
        Some(Err(e)) => Err(e),
        _ => Ok(seq_id),
    }
}

impl ModelSocket {
    /// The correlation ids of the opens waiting for the server, oldest first.
    pub closed spec fn opening(self) -> Seq<String> {
        self.opening@
    }

    /// The ids of the open sequences, oldest first.
    pub closed spec fn sequences(self) -> Seq<String> {
        self.seqs@
    }

    /// The ids of the sequences the server has closed.
    pub closed spec fn tombstones(self) -> Seq<String> {
        self.closed@
    }

    /// Each table holds each id at most once.
    pub closed spec fn wf(self) -> bool {
        &&& keys_unique(self.opening@)
        &&& keys_unique(self.seqs@)
        &&& keys_unique(self.closed@)
    }

    /// A connection with nothing open yet.
    pub fn new() -> (r: ModelSocket)
        ensures
            r.wf(),
            r.opening().len() == 0,
            r.sequences().len() == 0,
            r.tombstones().len() == 0,
    {
        ModelSocket { opening: Vec::new(), seqs: Vec::new(), closed: Vec::new() }
    }

    /// Starts opening a sequence on `model`: a fresh correlation id, recorded
    /// as pending, and the request to send.
    pub fn open(&mut self, model: String, opts: OpenOpts) -> (r: (String, MSRequest))
        requires
            old(self).wf(),
        ensures
            final(self).wf(),
            final(self).opening() == with_entry(old(self).opening(), r.0),
            final(self).sequences() == old(self).sequences(),
            final(self).tombstones() == old(self).tombstones(),
            r.1 == (MSRequest::SeqOpen {
                cid: r.0,
                data: SeqOpenReq {
                    model,
                    tools_enabled: opts.toolbox,
                    tool_prompt: opts.tool_prompt,
                    tool_schemas: opts.tool_schemas,
                    skip_prelude: opts.skip_prelude,
                },
            }),
    {
        let cid = new_cid();
        insert_entry(&mut self.opening, cid.clone());
        let request = MSRequest::SeqOpen {
            cid: cid.clone(),
            data: SeqOpenReq {
                model,
                tools_enabled: opts.toolbox,
                tool_prompt: opts.tool_prompt,
                tool_schemas: opts.tool_schemas,
                skip_prelude: opts.skip_prelude,
            },
        };
        (cid, request)
    }

    /// Records that sequence `seq_id` is open on this connection.
    pub fn register_seq(&mut self, seq_id: String)
        requires
            old(self).wf(),
        ensures
            final(self).wf(),
            final(self).opening() == old(self).opening(),
            final(self).sequences() == with_entry(old(self).sequences(), seq_id),
            final(self).tombstones() == old(self).tombstones(),
    {
        insert_entry(&mut self.seqs, seq_id);
    }

    /// The server opened sequence `seq_id` on `model`: records it, and
    /// returns its client-side state.
    pub fn attach_seq(&mut self, seq_id: String, model: String, toolbox: bool, event_sink: bool) -> (r:
        Sequence)
        requires
            old(self).wf(),
        ensures
            final(self).wf(),
            final(self).opening() == old(self).opening(),
            final(self).sequences() == with_entry(old(self).sequences(), seq_id),
            final(self).tombstones() == old(self).tombstones(),
            is_fresh(r, seq_id, model, toolbox, event_sink),
    {
        self.register_seq(seq_id.clone());
        Sequence::new(seq_id, model, toolbox, event_sink)
    }

    /// Whether the server has closed sequence `seq_id`.
    pub fn is_seq_closed(&self, seq_id: &String) -> (r: bool)
        ensures
            r == has_key(self.tombstones(), seq_id@),
    {
        contains_key(&self.closed, seq_id)
    }

    /// The child sequence a fork produced, once the fork's reply arrives
    /// (`None`: the reply channel closed without one).
    pub fn fork_child(&self, reply: Option<Result<CommandReply, ModelSocketError>>) -> (r: Result<
        String,
        ModelSocketError,
    >)
        requires
            !(reply matches Some(Ok(CommandReply::Done))),
        ensures
            match reply {
                None => r matches Err(ModelSocketError::Command(m)) && m@
                    == "failed to receive response"@,
                Some(Err(e)) => r == Err::<String, ModelSocketError>(e),
                Some(Ok(CommandReply::Forked(id))) => if has_key(self.sequences(), id@) {
                    r == Ok::<String, ModelSocketError>(id)
                } else {
                    r matches Err(ModelSocketError::State(m)) && m@ == "child seq not found"@
                },
                Some(Ok(CommandReply::Done)) => false,
            },
    {
        match reply {
            None => Err(ModelSocketError::Command("failed to receive response".to_string())),
            Some(Err(e)) => Err(e),
            Some(Ok(CommandReply::Forked(id))) => {
                if contains_key(&self.seqs, &id) {
                    Ok(id)
                } else {
                    Err(ModelSocketError::State("child seq not found".to_string()))
                }
            },
            Some(Ok(CommandReply::Done)) => Err(ModelSocketError::State("child seq not found".to_string())),
        }
    }

    /// The forward for events of sequence `id`, if it is open and not closed.
    fn forward_to(&self, id: &String) -> (out: Vec<SocketAction>)
        requires
            self.wf(),
        ensures
            out@ == if routable(*self, id@) {
                seq![SocketAction::Forward { seq_id: entry(self.sequences(), id@) }]
            } else {
                Seq::<SocketAction>::empty()
            },
    {
        let mut out: Vec<SocketAction> = Vec::new();
        if contains_key(&self.closed, id) {
            return out;
        }
        match find_key(&self.seqs, id) {
            Some(i) => {
                proof {
                    lemma_key_pos(self.seqs@, id@, i as int);
                }
                out.push(SocketAction::Forward { seq_id: self.seqs[i].clone() });
            },
            None => {},
        }
        out
    }

    /// The hand-over of `event` to the sequence it names, if any.
    fn forward_event(&self, event: &MSEvent) -> (out: Vec<SocketAction>)
        requires
            self.wf(),
        ensures
            out@ == forward_for(*self, *event),
    {
        match event_seq_string(event) {
            Some(id) => self.forward_to(id),
            None => Vec::new(),
        }
    }

    /// Decides what happens with an event from the server.
    pub fn on_event(&mut self, event: &MSEvent) -> (out: Vec<SocketAction>)
        requires
            old(self).wf(),
        ensures
            final(self).wf(),
            routed(*old(self), *final(self), *event, out@),
            event matches MSEvent::SeqClosed { seq_id, .. } ==> close_recorded(
                *old(self),
                *final(self),
                seq_id@,
            ),
    {
        match event {
            MSEvent::SeqOpened { seq_id, cid } => {
                let mut out: Vec<SocketAction> = Vec::new();
                match remove_key(&mut self.opening, cid) {
                    Some(c) => {
                        out.push(SocketAction::Opened { cid: c, result: Ok(seq_id.clone()) });
                    },
                    None => {},
                }
                out
            },
            MSEvent::Error { cid, message, .. } => {
                let fwd = self.forward_event(event);
                let mut out: Vec<SocketAction> = Vec::new();
                match cid {
                    Some(k) => match remove_key(&mut self.opening, k) {
                        Some(c) => {
                            let m = concat_str("open error: ", message.as_str());
                            out.push(SocketAction::Opened { cid: c, result: Err(ModelSocketError::Open(m)) });
                        },
                        None => {},
                    },
                    None => {},
                }
                let ghost first = out@;
                let mut rest = fwd;
                out.append(&mut rest);
                assert(out@.subrange(first.len() as int, out@.len() as int) =~= fwd@);
                out
            },
            MSEvent::SeqClosed { seq_id, .. } => {
                proof {
                    crate::table::lemma_without_key(self.seqs@, seq_id@);
                }
                let mut out = self.forward_to(seq_id);
                let ghost first = out@;
                match remove_key(&mut self.seqs, seq_id) {
                    Some(s) => {
                        let ghost sv = s;
                        proof {
                            lemma_unique_with_entry(self.closed@, sv);
                        }
                        insert_entry(&mut self.closed, s.clone());
                        out.push(SocketAction::Remove { seq_id: s });
                        assert(out@ =~= first + seq![SocketAction::Remove { seq_id: sv }]);
                    },
                    None => {
                        assert(out@ =~= first + Seq::<SocketAction>::empty());
                    },
                }
                out
            },
            _ => self.forward_event(event),
        }
    }
}


impl ModelSocket {
    proof fn lemma_wf_unique(self)
        requires
            self.wf(),
        ensures
            keys_unique(self.opening()),
            keys_unique(self.sequences()),
            keys_unique(self.tombstones()),
    {
    }
}

/// An event is only ever handed to the sequence it names, when that sequence
/// is open and the server has not closed it; and a sequence the server closed
/// stays closed, so it never receives another event.
pub proof fn law_closed_sequences_receive_nothing(
    pre: ModelSocket,
    post: ModelSocket,
    event: MSEvent,
    out: Seq<SocketAction>,
)
    requires
        pre.wf(),
        routed(pre, post, event, out),
    ensures
        forall|i: int|
            0 <= i < out.len() ==> (#[trigger] out[i] matches SocketAction::Forward { seq_id }
                ==> routable(pre, seq_id@) && event_seq_id(event) == Some(seq_id@)),
        forall|k: Seq<char>| has_key(pre.tombstones(), k) ==> has_key(post.tombstones(), k),
        event matches MSEvent::SeqClosed { seq_id, .. } ==> close_recorded(pre, post, seq_id@)
            && !routable(post, seq_id@),
{
    pre.lemma_wf_unique();
    let q = pre.sequences();
    let t = pre.tombstones();
    match event {
        MSEvent::SeqClosed { seq_id, .. } => {
            crate::table::lemma_without_key(q, seq_id@);
            if has_key(q, seq_id@) {
                let e = entry(q, seq_id@);
                crate::table::lemma_with_entry_at(t, e);
                crate::table::lemma_unique_with_entry(t, e);
                assert forall|k: Seq<char>| has_key(t, k) implies has_key(post.tombstones(), k) by {
                    let i = choose|i: int| 0 <= i < t.len() && #[trigger] t[i].key() == k;
                    let w = with_entry(t, e);
                    if has_key(t, e.key()) && i == key_pos(t, e.key()) {
                        assert(w[i].key() == k);
                    } else {
                        assert(w[i] == t[i]);
                    }
                }
            }
        },
        MSEvent::Error { cid, .. } => {
            match event_seq_id(event) {
                Some(id) => {
                    if has_key(q, id) {
                        crate::table::lemma_without_key(q, id);
                    }
                },
                None => {},
            }
            let fwd = forward_for(pre, event);
            assert forall|i: int| 0 <= i < out.len() && (#[trigger] out[i] matches SocketAction::Forward { .. }) implies
                out[i] matches SocketAction::Forward { seq_id } && routable(pre, seq_id@) && event_seq_id(event) == Some(seq_id@) by {
                match cid {
                    Some(k) => {
                        if has_key(pre.opening(), k@) {
                            assert(out[i] == fwd[i - 1]);
                        }
                    },
                    None => {},
                }
            }
        },
        _ => {
            match event_seq_id(event) {
                Some(id) => {
                    if has_key(q, id) {
                        crate::table::lemma_without_key(q, id);
                    }
                },
                None => {},
            }
        },
    }
}

/// A pending open is answered at most once: the answer goes to an open that
/// was pending, and it is pending no more.
pub proof fn law_open_answered_once(
    pre: ModelSocket,
    post: ModelSocket,
    event: MSEvent,
    out: Seq<SocketAction>,
)
    requires
        pre.wf(),
        routed(pre, post, event, out),
    ensures
        forall|i: int|
            0 <= i < out.len() ==> (#[trigger] out[i] matches SocketAction::Opened { cid, .. }
                ==> has_key(pre.opening(), cid@) && !has_key(post.opening(), cid@)),
{
    pre.lemma_wf_unique();
    let o = pre.opening();
    match event {
        MSEvent::SeqOpened { cid, .. } => {
            crate::table::lemma_without_key(o, cid@);
        },
        MSEvent::Error { cid, .. } => {
            let fwd = forward_for(pre, event);
            match cid {
                Some(k) => {
                    crate::table::lemma_without_key(o, k@);
                    assert forall|i: int| 1 <= i < out.len() && has_key(o, k@) implies out[i] == fwd[i - 1] by {}
                },
                None => {},
            }
        },
        _ => {},
    }
}

/// Closing a sequence affects that sequence only: every other sequence is
/// open, and receives events, exactly as before.
pub proof fn law_close_affects_only_that_sequence(
    pre: ModelSocket,
    post: ModelSocket,
    event: MSEvent,
    out: Seq<SocketAction>,
)
    requires
        pre.wf(),
        routed(pre, post, event, out),
    ensures
        event matches MSEvent::SeqClosed { seq_id, .. } ==> forall|x: Seq<char>|
            x != seq_id@ ==> (has_key(post.sequences(), x) <==> has_key(pre.sequences(), x))
                && (#[trigger] routable(post, x) <==> routable(pre, x)),
{
    pre.lemma_wf_unique();
    match event {
        MSEvent::SeqClosed { seq_id, .. } => {
            let q = pre.sequences();
            let t = pre.tombstones();
            crate::table::law_removing_a_key_keeps_the_others(q, seq_id@);
            if has_key(q, seq_id@) {
                let e = entry(q, seq_id@);
                let w = with_entry(t, e);
                crate::table::lemma_with_entry_at(t, e);
                assert(e.key() == seq_id@);
                assert forall|x: Seq<char>| x != seq_id@ implies (has_key(w, x) <==> has_key(t, x)) by {
                    if has_key(w, x) {
                        let i = choose|i: int| 0 <= i < w.len() && #[trigger] w[i].key() == x;
                        assert(w[i] == t[i]);
                    }
                    if has_key(t, x) {
                        let i = choose|i: int| 0 <= i < t.len() && #[trigger] t[i].key() == x;
                        if has_key(t, e.key()) {
                            assert(w == t.update(key_pos(t, e.key()), e));
                            assert(i != key_pos(t, e.key()));
                            assert(w[i] == t[i]);
                        } else {
                            assert(w[i] == t[i]);
                        }
                    }
                }
            }
        },
        _ => {},
    }
}

/// Every event that names an open sequence the server has not closed is
/// handed to that sequence, whatever its kind, except the reply to an open,
/// which answers the open instead.
pub proof fn law_events_reach_the_sequence_they_name(
    pre: ModelSocket,
    post: ModelSocket,
    event: MSEvent,
    out: Seq<SocketAction>,
    id: Seq<char>,
)
    requires
        pre.wf(),
        routed(pre, post, event, out),
        routable(pre, id),
        ({
            ||| event matches MSEvent::SeqAppendFinish { seq_id, .. } && seq_id@ == id
            ||| event matches MSEvent::SeqGenFinish { seq_id, .. } && seq_id@ == id
            ||| event matches MSEvent::SeqEmbedding { seq_id, .. } && seq_id@ == id
            ||| event matches MSEvent::SeqEmbedFinish { seq_id, .. } && seq_id@ == id
            ||| event matches MSEvent::SeqForkFinish { seq_id, .. } && seq_id@ == id
            ||| event matches MSEvent::SeqText { seq_id, .. } && seq_id@ == id
            ||| event matches MSEvent::SeqToolCall { seq_id, .. } && seq_id@ == id
            ||| event matches MSEvent::SeqToolCallStart { seq_id, .. } && seq_id@ == id
            ||| event matches MSEvent::SeqToolCallArgsChunk { seq_id, .. } && seq_id@ == id
            ||| event matches MSEvent::SeqToolCallEnd { seq_id, .. } && seq_id@ == id
            ||| event matches MSEvent::SeqToolCallAborted { seq_id, .. } && seq_id@ == id
            ||| event matches MSEvent::SeqState { seq_id, .. } && seq_id@ == id
            ||| event matches MSEvent::SeqClosed { seq_id, .. } && seq_id@ == id
            ||| event matches MSEvent::Error { seq_id: Some(s), .. } && s@ == id
        }),
    ensures
        exists|i: int|
            0 <= i < out.len() && #[trigger] out[i] == (SocketAction::Forward {
                seq_id: entry(pre.sequences(), id),
            }),
        entry(pre.sequences(), id)@ == id,
{
    pre.lemma_wf_unique();
    crate::table::lemma_without_key(pre.sequences(), id);
    let f = SocketAction::Forward { seq_id: entry(pre.sequences(), id) };
    assert(event_seq_id(event) == Some(id));
    match event {
        MSEvent::Error { cid, .. } => {
            match cid {
                Some(k) => {
                    if has_key(pre.opening(), k@) {
                        assert(out.subrange(1, out.len() as int)[0] == f);
                        assert(out[1] == f);
                    } else {
                        assert(out[0] == f);
                    }
                },
                None => {
                    assert(out[0] == f);
                },
            }
        },
        _ => {
            assert(out[0] == f);
        },
    }
}

} // verus!
