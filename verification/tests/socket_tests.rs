use modelsocket::{
    open_outcome, open_result, tool_prompt_append, CommandReply, MSEvent, MSRequest, ModelSocket,
    ModelSocketError, OpenOpts, SeqCommand, SocketAction,
};

fn opened(seq_id: &str, cid: &str) -> MSEvent {
    MSEvent::SeqOpened { seq_id: seq_id.to_string(), cid: cid.to_string() }
}

fn closed(seq_id: &str) -> MSEvent {
    MSEvent::SeqClosed {
        cid: None,
        seq_id: seq_id.to_string(),
        input_tokens: 0,
        cached_input_tokens: 0,
        output_tokens: 0,
        duration_ms: 0,
        error: None,
    }
}

fn text(seq_id: &str) -> MSEvent {
    MSEvent::SeqText {
        seq_id: seq_id.to_string(),
        cid: "gen".to_string(),
        text: "hi".to_string(),
        hidden: false,
        num_input_tokens: 0,
        num_output_tokens: 0,
        tokens: None,
    }
}

#[test]
fn open_sends_request_and_resolves_once() {
    let mut socket = ModelSocket::new();
    let opts = OpenOpts { toolbox: true, tool_prompt: Some("p".to_string()), ..Default::default() };
    let (cid, req) = socket.open("llama".to_string(), opts);
    match req {
        MSRequest::SeqOpen { cid: c, data } => {
            assert_eq!(c, cid);
            assert_eq!(data.model, "llama");
            assert!(data.tools_enabled);
            assert_eq!(data.tool_prompt.as_deref(), Some("p"));
            assert!(!data.skip_prelude);
        }
        other => panic!("unexpected {other:?}"),
    }
    let actions = socket.on_event(&opened("seq-1", &cid));
    match &actions[..] {
        [SocketAction::Opened { cid: c, result: Ok(id) }] => {
            assert_eq!(c, &cid);
            assert_eq!(id, "seq-1");
        }
        other => panic!("unexpected {other:?}"),
    }
    assert!(socket.on_event(&opened("seq-1", &cid)).is_empty());
}

#[test]
fn error_for_pending_open_fails_it() {
    let mut socket = ModelSocket::new();
    let (cid, _) = socket.open("llama".to_string(), OpenOpts::default());
    let actions = socket.on_event(&MSEvent::Error {
        cid: Some(cid.clone()),
        seq_id: None,
        message: "nope".to_string(),
        code: None,
        rate_limit: None,
    });
    match &actions[..] {
        [SocketAction::Opened { result: Err(ModelSocketError::Open(m)), .. }] => {
            assert_eq!(m, "open error: nope")
        }
        other => panic!("unexpected {other:?}"),
    }
    match open_outcome(None) {
        Err(ModelSocketError::Open(m)) => assert_eq!(m, "Failed to receive seq_id"),
        other => panic!("unexpected {other:?}"),
    }
}

#[test]
fn events_reach_open_sequences_only() {
    let mut socket = ModelSocket::new();
    let seq = socket.attach_seq("seq-1".to_string(), "llama".to_string(), false, false);
    assert_eq!(seq.id(), "seq-1");
    match &socket.on_event(&text("seq-1"))[..] {
        [SocketAction::Forward { seq_id }] => assert_eq!(seq_id, "seq-1"),
        other => panic!("unexpected {other:?}"),
    }
    assert!(socket.on_event(&text("seq-9")).is_empty());
}

#[test]
fn closed_sequence_is_removed_and_gets_nothing_more() {
    let mut socket = ModelSocket::new();
    socket.register_seq("seq-1".to_string());
    let actions = socket.on_event(&closed("seq-1"));
    assert_eq!(actions.len(), 2);
    assert!(matches!(&actions[0], SocketAction::Forward { seq_id } if seq_id == "seq-1"));
    assert!(matches!(&actions[1], SocketAction::Remove { seq_id } if seq_id == "seq-1"));
    assert!(socket.is_seq_closed(&"seq-1".to_string()));
    assert!(socket.on_event(&text("seq-1")).is_empty());
    assert!(socket.on_event(&closed("seq-1")).is_empty());
    // registering the id again does not lift the tombstone
    socket.register_seq("seq-1".to_string());
    assert!(socket.on_event(&text("seq-1")).is_empty());
}

fn error(cid: Option<&str>, seq_id: Option<&str>) -> MSEvent {
    MSEvent::Error {
        cid: cid.map(|c| c.to_string()),
        seq_id: seq_id.map(|s| s.to_string()),
        message: "bad".to_string(),
        code: None,
        rate_limit: None,
    }
}

#[test]
fn errors_reach_the_sequence_they_name() {
    let mut socket = ModelSocket::new();
    socket.register_seq("seq-1".to_string());
    match &socket.on_event(&error(None, Some("seq-1")))[..] {
        [SocketAction::Forward { seq_id }] => assert_eq!(seq_id, "seq-1"),
        other => panic!("unexpected {other:?}"),
    }
    match &socket.on_event(&error(Some("cmd-1"), Some("seq-1")))[..] {
        [SocketAction::Forward { seq_id }] => assert_eq!(seq_id, "seq-1"),
        other => panic!("unexpected {other:?}"),
    }
    assert!(socket.on_event(&error(None, None)).is_empty());
    assert!(socket.on_event(&error(None, Some("seq-9"))).is_empty());
    socket.on_event(&closed("seq-1"));
    assert!(socket.on_event(&error(None, Some("seq-1"))).is_empty());
}

#[test]
fn open_error_naming_an_open_sequence_answers_the_open_and_forwards() {
    let mut socket = ModelSocket::new();
    socket.register_seq("seq-1".to_string());
    let (cid, _) = socket.open("llama".to_string(), OpenOpts::default());
    let actions = socket.on_event(&error(Some(&cid), Some("seq-1")));
    assert_eq!(actions.len(), 2);
    assert!(matches!(&actions[0], SocketAction::Opened { cid: c, result: Err(ModelSocketError::Open(m)) }
        if c == &cid && m == "open error: bad"));
    assert!(matches!(&actions[1], SocketAction::Forward { seq_id } if seq_id == "seq-1"));
}

#[test]
fn tool_prompt_is_appended_as_system_message() {
    let mut socket = ModelSocket::new();
    let mut seq = socket.attach_seq("seq-1".to_string(), "llama".to_string(), true, false);
    assert!(tool_prompt_append(&mut seq, None).is_none());
    let (cid, req) = tool_prompt_append(&mut seq, Some("use tools".to_string())).unwrap();
    match req {
        MSRequest::SeqCommand { cid: c, seq_id, data: SeqCommand::Append(a) } => {
            assert_eq!(c, cid);
            assert_eq!(seq_id, "seq-1");
            assert_eq!(a.text, "use tools");
            assert_eq!(a.role.as_deref(), Some("system"));
            assert!(!a.hidden && !a.echo && a.tokens.is_none() && a.media.is_none());
        }
        other => panic!("unexpected {other:?}"),
    }
}

#[test]
fn open_fails_when_the_tool_prompt_append_fails() {
    assert_eq!(open_result("seq-1".to_string(), None).unwrap(), "seq-1");
    assert_eq!(open_result("seq-1".to_string(), Some(Ok(()))).unwrap(), "seq-1");
    match open_result("seq-1".to_string(), Some(Err(ModelSocketError::SeqClosed))) {
        Err(ModelSocketError::SeqClosed) => {}
        other => panic!("unexpected {other:?}"),
    }
}

#[test]
fn fork_child_is_found_when_registered() {
    let mut socket = ModelSocket::new();
    socket.register_seq("seq-2".to_string());
    match socket.fork_child(Some(Ok(CommandReply::Forked("seq-2".to_string())))) {
        Ok(id) => assert_eq!(id, "seq-2"),
        other => panic!("unexpected {other:?}"),
    }
    match socket.fork_child(Some(Ok(CommandReply::Forked("seq-3".to_string())))) {
        Err(ModelSocketError::State(m)) => assert_eq!(m, "child seq not found"),
        other => panic!("unexpected {other:?}"),
    }
    match socket.fork_child(None) {
        Err(ModelSocketError::Command(m)) => assert_eq!(m, "failed to receive response"),
        other => panic!("unexpected {other:?}"),
    }
}
