use modelsocket::{
    AppendOpts, GenOpts, MSEvent, ModelSocketError, RateLimitErrorDetails, SeqGenReq, SeqState,
};

#[test]
fn event_accessors_report_ids_and_kind() {
    let e = MSEvent::SeqText {
        seq_id: "seq_1".to_string(),
        cid: "gen".to_string(),
        text: "t".to_string(),
        hidden: false,
        num_input_tokens: 0,
        num_output_tokens: 0,
        tokens: None,
    };
    assert_eq!(e.cid(), Some("gen"));
    assert_eq!(e.seq_id(), Some("seq_1"));
    assert_eq!(e.event_type(), "seq_text");

    let s = MSEvent::SeqState { seq_id: "seq_1".to_string(), state: SeqState::Ready };
    assert_eq!(s.cid(), None);
    assert_eq!(s.seq_id(), Some("seq_1"));
    assert_eq!(s.event_type(), "seq_state");

    let err = MSEvent::Error {
        cid: None,
        seq_id: None,
        message: "nope".to_string(),
        code: None,
        rate_limit: None,
    };
    assert_eq!(err.cid(), None);
    assert_eq!(err.seq_id(), None);
    assert_eq!(err.event_type(), "error");

    let closed = MSEvent::SeqClosed {
        cid: Some("c".to_string()),
        seq_id: "s".to_string(),
        input_tokens: 1,
        cached_input_tokens: 0,
        output_tokens: 2,
        duration_ms: 3,
        error: None,
    };
    assert_eq!(closed.cid(), Some("c"));
    assert_eq!(closed.event_type(), "seq_closed");
}

#[test]
fn role_presets() {
    assert_eq!(AppendOpts::assistant().role.as_deref(), Some("assistant"));
    assert_eq!(AppendOpts::user().role.as_deref(), Some("user"));
    assert_eq!(AppendOpts::system().role.as_deref(), Some("system"));
    assert_eq!(AppendOpts::default().role, None);
    let g = GenOpts::user();
    assert_eq!(g.role.as_deref(), Some("user"));
    assert!(g.max_tokens.is_none() && g.hidden.is_none());
    assert_eq!(GenOpts::system().role.as_deref(), Some("system"));
    assert_eq!(GenOpts::assistant().role.as_deref(), Some("assistant"));
}

#[test]
fn gen_opts_become_a_gen_request() {
    let opts = GenOpts {
        max_tokens: Some(16),
        temperature: Some(0.7f32.to_bits()),
        stop_strings: Some(vec!["\n".to_string()]),
        frequency_penalty: Some(0.5f32.to_bits()),
        ..GenOpts::assistant()
    };
    let req: SeqGenReq = opts.into();
    assert_eq!(req.role.as_deref(), Some("assistant"));
    assert_eq!(req.max_tokens, Some(16));
    assert_eq!(req.temperature.map(f32::from_bits), Some(0.7));
    assert_eq!(req.frequency_penalty.map(f32::from_bits), Some(0.5));
    assert_eq!(req.stop_strings, Some(vec!["\n".to_string()]));
    assert!(!req.hidden);
    assert!(req.regex_mask.is_none() && req.json_schema.is_none() && req.prefill_text.is_none());

    let hidden: SeqGenReq = GenOpts { hidden: Some(true), ..Default::default() }.into();
    assert!(hidden.hidden);
}

#[test]
fn error_messages() {
    assert_eq!(ModelSocketError::SeqClosed.message(), "seq closed");
    assert_eq!(ModelSocketError::Send.message(), "channel closed");
    assert_eq!(ModelSocketError::Open("x".to_string()).message(), "open error: x");
    assert_eq!(ModelSocketError::Protocol("y".to_string()).message(), "protocol error: y");
    assert_eq!(ModelSocketError::Other("z".to_string()).message(), "z");
    let remote = modelsocket::remote_error(
        &"Rate limit exceeded".to_string(),
        &Some("rate_limit_exceeded".to_string()),
        &Some(RateLimitErrorDetails {
            cause: "rate_limited".into(),
            enforcement_mode: "enforced".into(),
            rpm_limit: 60,
            rpm_remaining: 0,
            tpm_limit: 100_000,
            tpm_remaining: -5,
            retry_after_ms: 1_000,
        }),
    );
    assert_eq!(remote.message(), "remote error: Rate limit exceeded");
}
