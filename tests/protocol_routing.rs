use dingoflow_native::protocol::{
    check_sample_rate, dispatch, immediate_reply, unsupported_message, Action, Outcome, Request,
};

fn request(id: Option<&str>, action: Option<&str>) -> Request {
    Request {
        id: id.map(|s| s.to_string()),
        action: action.map(|s| s.to_string()),
        audio: None,
        audio_base64: None,
        sample_rate: None,
    }
}

#[test]
fn reply_id_is_request_id() {
    let d = dispatch(&Ok(request(Some("abc"), Some("transcribe"))), false);
    assert_eq!(d.id, "abc");
    assert!(matches!(d.action, Action::Transcribe));
}

#[test]
fn reply_id_defaults_to_unknown() {
    let d = dispatch(&Ok(request(None, None)), true);
    assert_eq!(d.id, "unknown");
    assert!(matches!(d.action, Action::Transcribe));
    let bad = dispatch(&Err("expected value at line 1 column 1".to_string()), true);
    assert_eq!(bad.id, "unknown");
    let rep = immediate_reply(&bad, true).unwrap();
    match rep.outcome {
        Outcome::Failed(m) => {
            assert_eq!(m, "invalid JSON request: expected value at line 1 column 1")
        }
        _ => panic!("expected failure"),
    }
}

#[test]
fn warmup_offline_is_ready_at_once() {
    let d = dispatch(&Ok(request(Some("a"), Some("warmup"))), false);
    let rep = immediate_reply(&d, false).unwrap();
    assert_eq!(rep.id, "a");
    assert!(matches!(rep.outcome, Outcome::Ready));
}

#[test]
fn warmup_streaming_needs_decoder() {
    let d = dispatch(&Ok(request(Some("a"), Some("warmup"))), true);
    assert!(matches!(d.action, Action::Warmup));
    assert!(immediate_reply(&d, true).is_none());
}

#[test]
fn unsupported_action_reply() {
    let d = dispatch(&Ok(request(Some("x"), Some("eject"))), true);
    let rep = immediate_reply(&d, true).unwrap();
    assert_eq!(rep.id, "x");
    match rep.outcome {
        Outcome::Failed(m) => assert_eq!(m, "Unsupported action: eject"),
        _ => panic!("expected failure"),
    }
    assert_eq!(unsupported_message("stream_push"), "Unsupported action: stream_push");
}

#[test]
fn stream_actions_only_in_streaming_worker() {
    for (name, streaming) in [("stream_reset", true), ("stream_push", true), ("stream_flush", true)] {
        let d = dispatch(&Ok(request(None, Some(name))), streaming);
        assert!(!matches!(d.action, Action::Unsupported(_)));
    }
    let d = dispatch(&Ok(request(None, Some("stream_close"))), true);
    let rep = immediate_reply(&d, true).unwrap();
    assert!(matches!(rep.outcome, Outcome::Closed));
    let off = dispatch(&Ok(request(None, Some("stream_push"))), false);
    match off.action {
        Action::Unsupported(n) => assert_eq!(n, "stream_push"),
        _ => panic!("offline worker has no streaming"),
    }
}

#[test]
fn sample_rate_mismatch_message() {
    assert!(check_sample_rate(16000).is_ok());
    assert_eq!(
        check_sample_rate(8000).unwrap_err(),
        "sampleRate mismatch: expected 16000, got 8000"
    );
    assert_eq!(check_sample_rate(0).unwrap_err(), "sampleRate mismatch: expected 16000, got 0");
}
