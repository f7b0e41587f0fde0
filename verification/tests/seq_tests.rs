use modelsocket::{
    command_outcome, embed_outcome, AppendOpts, CommandReply, EmbedOpts, EmbeddingInput, GenOpts,
    MSEvent, MSRequest, ModelSocketError, RateLimitErrorDetails, SeqAction, SeqAppendMedia,
    SeqCommand, SeqGenReq, SeqToolCall, Sequence, ToolResult,
};

fn new_seq() -> Sequence {
    Sequence::new("seq-1".to_string(), "model".to_string(), false, false)
}

fn assert_remote(error: &ModelSocketError, expected: &str) {
    match error {
        ModelSocketError::Remote { message, code: None, details: None } => {
            assert_eq!(message, expected)
        }
        other => panic!("expected remote error, got {other:?}"),
    }
}

fn error_event(cid: Option<&str>, message: &str) -> MSEvent {
    MSEvent::Error {
        cid: cid.map(|c| c.to_string()),
        seq_id: Some("seq-1".to_string()),
        message: message.to_string(),
        code: None,
        rate_limit: None,
    }
}

fn append_finish(cid: &str) -> MSEvent {
    MSEvent::SeqAppendFinish { seq_id: "seq-1".to_string(), cid: cid.to_string() }
}

#[test]
fn seq_level_error_fails_all_pending_commands_and_streams() {
    let mut seq = new_seq();
    let (cmd, _) = seq.append("hello".to_string(), AppendOpts::user());
    let (gen, _) = seq.generate(None);
    let (embed, _) = seq.embed(vec![EmbeddingInput::Text("x".to_string())], None);

    let message = "seq failed";
    let actions = seq.on_event(&error_event(None, message));
    assert_eq!(actions.len(), 4);
    match &actions[0] {
        SeqAction::ReplyCommand { cid, reply: Err(e) } => {
            assert_eq!(cid, &cmd);
            assert_remote(e, message);
        }
        other => panic!("expected cmd error, got {other:?}"),
    }
    match &actions[1] {
        SeqAction::ReplyCommand { cid, reply: Err(e) } => {
            assert_eq!(cid, &gen);
            assert_remote(e, message);
        }
        other => panic!("expected gen cmd error, got {other:?}"),
    }
    match &actions[2] {
        SeqAction::FailStream { cid, error } => {
            assert_eq!(cid, &gen);
            assert_remote(error, message);
        }
        other => panic!("expected gen stream error, got {other:?}"),
    }
    match &actions[3] {
        SeqAction::ReplyEmbed { cid, result: Err(e) } => {
            assert_eq!(cid, &embed);
            assert_remote(e, message);
        }
        other => panic!("expected embed error, got {other:?}"),
    }

    // nothing is pending any more
    assert!(seq.on_event(&error_event(None, message)).is_empty());
    assert!(seq.on_event(&append_finish(&cmd)).is_empty());
}

#[test]
fn command_error_preserves_remote_details() {
    let mut seq = new_seq();
    let (cid, _) = seq.generate(Some(GenOpts::assistant().into()));
    let details = RateLimitErrorDetails {
        cause: "rate_limited".to_string(),
        enforcement_mode: "enforced".to_string(),
        rpm_limit: 60,
        rpm_remaining: 0,
        tpm_limit: 100_000,
        tpm_remaining: -1,
        retry_after_ms: 1_000,
    };

    let actions = seq.on_event(&MSEvent::Error {
        cid: Some(cid.clone()),
        seq_id: Some("seq-1".into()),
        message: "Rate limit exceeded".into(),
        code: Some("rate_limit_exceeded".into()),
        rate_limit: Some(details.clone()),
    });

    match &actions[0] {
        SeqAction::ReplyCommand {
            reply: Err(ModelSocketError::Remote { code, details: actual, .. }),
            ..
        } => {
            assert_eq!(code.as_deref(), Some("rate_limit_exceeded"));
            assert_eq!(actual, &Some(details.clone()));
        }
        other => panic!("expected structured remote error, got {other:?}"),
    }
    assert!(matches!(&actions[1], SeqAction::FailStream { cid: c, .. } if c == &cid));
    assert_eq!(actions.len(), 2);
}

#[test]
fn append_request_carries_text_and_role() {
    let mut seq = new_seq();
    let (cid, req) = seq.append("hello".to_string(), AppendOpts::system());
    assert_eq!(cid.len(), 36);
    match req {
        MSRequest::SeqCommand { cid: c, seq_id, data: SeqCommand::Append(a) } => {
            assert_eq!(c, cid);
            assert_eq!(seq_id, "seq-1");
            assert_eq!(a.text, "hello");
            assert_eq!(a.role.as_deref(), Some("system"));
            assert!(a.media.is_none() && a.tokens.is_none() && !a.hidden && !a.echo);
        }
        other => panic!("unexpected request {other:?}"),
    }
}

#[test]
fn append_finish_answers_once() {
    let mut seq = new_seq();
    let (cid, _) = seq.append("hello".to_string(), AppendOpts::default());
    let actions = seq.on_event(&append_finish(&cid));
    assert_eq!(actions.len(), 1);
    assert!(matches!(
        &actions[0],
        SeqAction::ReplyCommand { cid: c, reply: Ok(CommandReply::Done) } if c == &cid
    ));
    assert!(seq.on_event(&append_finish(&cid)).is_empty());
    assert!(command_outcome(Some(Ok(CommandReply::Done))).is_ok());
}

#[test]
fn append_media_request_carries_media() {
    let mut seq = new_seq();
    let media = SeqAppendMedia {
        uri: Some("https://example.com/cat.png".to_string()),
        blob: None,
        hash: Some("b3abc".to_string()),
        mime_type: Some("image/png".to_string()),
        detail: Some("auto".to_string()),
    };
    let (_, req) = seq.append_media(media, AppendOpts::user());
    match req {
        MSRequest::SeqCommand { data: SeqCommand::Append(a), .. } => {
            assert_eq!(a.text, "");
            let m = a.media.expect("media");
            assert_eq!(m.uri.as_deref(), Some("https://example.com/cat.png"));
            assert_eq!(a.role.as_deref(), Some("user"));
        }
        other => panic!("unexpected request {other:?}"),
    }
}

#[test]
fn generation_streams_visible_and_hidden_text_then_finishes() {
    let mut seq = new_seq();
    let (cid, req) = seq.generate(None);
    match req {
        MSRequest::SeqCommand { data: SeqCommand::Gen(g), .. } => {
            assert!(!g.hidden && g.role.is_none() && g.max_tokens.is_none())
        }
        other => panic!("unexpected request {other:?}"),
    }
    let text = MSEvent::SeqText {
        seq_id: "seq-1".to_string(),
        cid: cid.clone(),
        text: "Hi".to_string(),
        hidden: false,
        num_input_tokens: 1,
        num_output_tokens: 1,
        tokens: Some(vec![7, 8]),
    };
    let actions = seq.on_event(&text);
    match &actions[..] {
        [SeqAction::StreamChunk { cid: c, chunk }] => {
            assert_eq!(c, &cid);
            assert_eq!(chunk.text, "Hi");
            assert!(!chunk.hidden);
            assert_eq!(chunk.tokens, Some(vec![7, 8]));
        }
        other => panic!("unexpected actions {other:?}"),
    }
    let finish = MSEvent::SeqGenFinish { seq_id: "seq-1".to_string(), cid: cid.clone() };
    let actions = seq.on_event(&finish);
    assert_eq!(actions.len(), 2);
    assert!(matches!(&actions[0], SeqAction::ReplyCommand { reply: Ok(CommandReply::Done), .. }));
    assert!(matches!(&actions[1], SeqAction::EndStream { cid: c } if c == &cid));
    // the stream is gone: later text is dropped
    assert!(seq.on_event(&text).is_empty());
}

#[test]
fn dropped_stream_receives_no_more_chunks() {
    let mut seq = new_seq();
    let (cid, _) = seq.generate(Some(SeqGenReq::default()));
    seq.on_stream_dropped(&cid);
    let text = MSEvent::SeqText {
        seq_id: "seq-1".to_string(),
        cid: cid.clone(),
        text: "Hi".to_string(),
        hidden: false,
        num_input_tokens: 1,
        num_output_tokens: 1,
        tokens: None,
    };
    assert!(seq.on_event(&text).is_empty());
}

fn embedding(cid: &str, index: u32, v: Vec<f32>, tokens: u32) -> MSEvent {
    MSEvent::SeqEmbedding {
        seq_id: "seq-1".to_string(),
        cid: cid.to_string(),
        index,
        embedding: v.into_iter().map(f32::to_bits).collect(),
        input_tokens: tokens,
    }
}

fn embed_finish(cid: &str, prompt_tokens: u32) -> MSEvent {
    MSEvent::SeqEmbedFinish { seq_id: "seq-1".to_string(), cid: cid.to_string(), prompt_tokens }
}

#[test]
fn embedding_batch_collects_every_index() {
    let mut seq = new_seq();
    let inputs = vec![EmbeddingInput::Text("a".to_string()), EmbeddingInput::Tokens(vec![1, 2])];
    let opts = EmbedOpts { dimensions: Some(2), ..Default::default() };
    let (cid, req) = seq.embed(inputs, Some(opts));
    match req {
        MSRequest::SeqCommand { data: SeqCommand::Embed(e), .. } => {
            assert_eq!(e.inputs.len(), 2);
            assert_eq!(e.dimensions, Some(2));
            assert!(e.normalize.is_none());
        }
        other => panic!("unexpected request {other:?}"),
    }
    assert!(seq.on_event(&embedding(&cid, 1, vec![0.5, 1.0], 2)).is_empty());
    // out of range: ignored
    assert!(seq.on_event(&embedding(&cid, 5, vec![9.0], 9)).is_empty());
    assert!(seq.on_event(&embedding(&cid, 0, vec![0.25], 1)).is_empty());
    let actions = seq.on_event(&embed_finish(&cid, 3));
    match &actions[..] {
        [SeqAction::ReplyEmbed { cid: c, result: Ok(r) }] => {
            assert_eq!(c, &cid);
            assert_eq!(r.embeddings, vec![vec![0.25f32.to_bits()], vec![0.5f32.to_bits(), 1.0f32.to_bits()]]);
            assert_eq!(r.input_tokens, vec![1, 2]);
            assert_eq!(r.prompt_tokens, 3);
        }
        other => panic!("unexpected actions {other:?}"),
    }
    assert!(embed_outcome(None).is_err());
}

#[test]
fn embedding_batch_reports_first_missing_index() {
    let mut seq = new_seq();
    let inputs = vec![
        EmbeddingInput::Text("a".to_string()),
        EmbeddingInput::Text("b".to_string()),
        EmbeddingInput::Text("c".to_string()),
    ];
    let (cid, _) = seq.embed(inputs, None);
    seq.on_event(&embedding(&cid, 0, vec![1.0], 1));
    let actions = seq.on_event(&embed_finish(&cid, 1));
    match &actions[..] {
        [SeqAction::ReplyEmbed { result: Err(ModelSocketError::Protocol(m)), .. }] => {
            assert_eq!(m, "missing embedding result for index 1")
        }
        other => panic!("unexpected actions {other:?}"),
    }
    match embed_outcome(None) {
        Err(ModelSocketError::Command(m)) => assert_eq!(m, "failed to receive embedding response"),
        other => panic!("unexpected {other:?}"),
    }
}

#[test]
fn fork_registers_child_then_answers() {
    let mut seq = Sequence::new("seq-1".to_string(), "model".to_string(), true, true);
    let (cid, req) = seq.fork();
    assert!(matches!(req, MSRequest::SeqCommand { data: SeqCommand::Fork(_), .. }));
    let actions = seq.on_event(&MSEvent::SeqForkFinish {
        seq_id: "seq-1".to_string(),
        cid: cid.clone(),
        child_seq_id: "seq-2".to_string(),
    });
    assert_eq!(actions.len(), 3);
    assert!(matches!(actions[0], SeqAction::Forward));
    match &actions[1] {
        SeqAction::RegisterChild { child } => assert_eq!(child.id(), "seq-2"),
        other => panic!("unexpected {other:?}"),
    }
    assert!(matches!(
        &actions[2],
        SeqAction::ReplyCommand { reply: Ok(CommandReply::Forked(id)), .. } if id == "seq-2"
    ));
}

#[test]
fn close_fails_pending_and_sends_close() {
    let mut seq = new_seq();
    let (cid, _) = seq.append("x".to_string(), AppendOpts::default());
    let actions = seq.close();
    assert_eq!(actions.len(), 2);
    assert!(matches!(
        &actions[0],
        SeqAction::ReplyCommand { cid: c, reply: Err(ModelSocketError::SeqClosed) } if c == &cid
    ));
    match &actions[1] {
        SeqAction::Send { request: MSRequest::SeqCommand { seq_id, data: SeqCommand::Close(_), .. } } => {
            assert_eq!(seq_id, "seq-1")
        }
        other => panic!("unexpected {other:?}"),
    }
    match command_outcome(Some(Err(ModelSocketError::SeqClosed))) {
        Err(ModelSocketError::SeqClosed) => {}
        other => panic!("unexpected {other:?}"),
    }
}

#[test]
fn server_close_answers_its_command_and_fails_the_rest() {
    let mut seq = Sequence::new("seq-1".to_string(), "model".to_string(), false, true);
    let (closing, _) = seq.append("x".to_string(), AppendOpts::default());
    let (other, _) = seq.append("y".to_string(), AppendOpts::default());
    let actions = seq.on_event(&MSEvent::SeqClosed {
        cid: Some(closing.clone()),
        seq_id: "seq-1".to_string(),
        input_tokens: 1,
        cached_input_tokens: 0,
        output_tokens: 1,
        duration_ms: 5,
        error: None,
    });
    assert_eq!(actions.len(), 3);
    assert!(matches!(actions[0], SeqAction::Forward));
    assert!(matches!(
        &actions[1],
        SeqAction::ReplyCommand { cid: c, reply: Ok(CommandReply::Done) } if c == &closing
    ));
    assert!(matches!(
        &actions[2],
        SeqAction::ReplyCommand { cid: c, reply: Err(ModelSocketError::SeqClosed) } if c == &other
    ));
    // the listener is detached
    assert!(seq.on_event(&append_finish(&other)).is_empty());
}

#[test]
fn listener_gets_every_event_until_it_stops() {
    let mut seq = Sequence::new("seq-1".to_string(), "model".to_string(), false, true);
    let ev = MSEvent::SeqToolCallEnd {
        seq_id: "seq-1".to_string(),
        cid: "c".to_string(),
        index: 0,
        args: "{}".to_string(),
    };
    let actions = seq.on_event(&ev);
    assert!(matches!(&actions[..], [SeqAction::Forward]));
    seq.stop_listening();
    assert!(seq.on_event(&ev).is_empty());
}

fn tool_call_event() -> MSEvent {
    MSEvent::SeqToolCall {
        seq_id: "seq-1".to_string(),
        cid: "gen".to_string(),
        tool_calls: vec![SeqToolCall {
            id: Some("functions.search:0".to_string()),
            name: "search".to_string(),
            args: r#"{"q":"hello"}"#.to_string(),
        }],
    }
}

#[test]
fn tool_calls_run_only_with_a_toolbox() {
    let mut without = new_seq();
    assert!(without.on_event(&tool_call_event()).is_empty());

    let mut with = Sequence::new("seq-1".to_string(), "model".to_string(), true, false);
    let actions = with.on_event(&tool_call_event());
    match &actions[..] {
        [SeqAction::CallTools { cid, calls }] => {
            assert_eq!(cid, "gen");
            assert_eq!(calls.len(), 1);
            assert_eq!(calls[0].name, "search");
            assert_eq!(calls[0].id.as_deref(), Some("functions.search:0"));
        }
        other => panic!("unexpected {other:?}"),
    }
}

#[test]
fn tool_results_go_back_to_the_server() {
    let mut seq = Sequence::new("seq-1".to_string(), "model".to_string(), true, false);
    let results = vec![ToolResult { id: None, name: "search".to_string(), result: "3".to_string() }];
    let actions = seq.on_tool_results("gen".to_string(), Ok(Some(results)));
    match &actions[..] {
        [SeqAction::Send {
            request: MSRequest::SeqCommand { cid, seq_id, data: SeqCommand::ToolReturn(r) },
        }] => {
            assert_eq!(cid, "gen");
            assert_eq!(seq_id, "seq-1");
            assert_eq!(r.results.len(), 1);
            assert!(!r.gen_opts.hidden);
        }
        other => panic!("unexpected {other:?}"),
    }
    assert!(seq.on_tool_results("gen".to_string(), Ok(None)).is_empty());
    let (cid, _) = seq.append("x".to_string(), AppendOpts::default());
    let actions = seq.on_tool_results("gen".to_string(), Err("boom".to_string()));
    assert_eq!(actions.len(), 2);
    assert!(matches!(
        &actions[0],
        SeqAction::ReplyCommand { cid: c, reply: Err(ModelSocketError::SeqClosed) } if c == &cid
    ));
    assert!(matches!(
        &actions[1],
        SeqAction::Send { request: MSRequest::SeqCommand { data: SeqCommand::Close(_), .. } }
    ));
}

#[test]
fn send_cmd_builds_a_raw_command() {
    let seq = new_seq();
    match seq.send_cmd("raw".to_string(), SeqCommand::Gen(SeqGenReq::default())) {
        MSRequest::SeqCommand { cid, seq_id, data: SeqCommand::Gen(_) } => {
            assert_eq!(cid, "raw");
            assert_eq!(seq_id, "seq-1");
        }
        other => panic!("unexpected {other:?}"),
    }
    match command_outcome(None) {
        Err(ModelSocketError::Command(m)) => assert_eq!(m, "failed to receive response"),
        other => panic!("unexpected {other:?}"),
    }
}
