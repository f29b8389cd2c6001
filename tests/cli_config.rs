use dingoflow_native::capture::parse_config;
use dingoflow_native::{offline, streaming};

fn args(words: &[&str]) -> Vec<String> {
    let mut v = vec!["prog".to_string()];
    v.extend(words.iter().map(|s| s.to_string()));
    v
}

#[test]
fn offline_defaults_and_flags() {
    let c = offline::parse_args(&args(&["--model", "m.bin", "--serve"])).ok().unwrap();
    assert_eq!(c.model_path, "m.bin");
    assert_eq!(c.threads, 4);
    assert!(c.serve);
    assert!(!c.healthcheck);
    let h = offline::parse_args(&args(&["--healthcheck"])).ok().unwrap();
    assert!(h.healthcheck);
    assert_eq!(h.model_path, "");
    let t = offline::parse_args(&args(&["--threads", "64", "--model", "x"])).ok().unwrap();
    assert_eq!(t.threads, 64);
}

#[test]
fn offline_errors() {
    assert_eq!(offline::parse_args(&args(&[])).err().unwrap(), "--model is required unless --healthcheck is used");
    assert_eq!(offline::parse_args(&args(&["--model"])).err().unwrap(), "Missing value for --model");
    assert_eq!(
        offline::parse_args(&args(&["--threads", "many"])).err().unwrap(),
        "Invalid --threads value"
    );
    assert_eq!(
        offline::parse_args(&args(&["--model", "m", "--threads", "0"])).err().unwrap(),
        "--threads must be between 1 and 64"
    );
    assert_eq!(
        offline::parse_args(&args(&["--bogus"])).err().unwrap(),
        "Unsupported argument: --bogus"
    );
    assert_eq!(
        offline::parse_args(&args(&["--stream-min-audio-ms", "100"])).err().unwrap(),
        "Unsupported argument: --stream-min-audio-ms"
    );
    assert_eq!(
        offline::parse_args(&args(&["-h"])).err().unwrap(),
        "usage: dingoflow-asr-worker --model /path/to/ggml-model.bin [--threads 4] --serve"
    );
    assert!(offline::parse_args(&args(&["--healthcheck", "--threads", "0"])).is_ok());
}

#[test]
fn streaming_defaults_and_ranges() {
    let c = streaming::parse_args(&args(&["--model", "dir", "--serve"])).ok().unwrap();
    assert_eq!(c.stream_min_audio_ms, 120);
    assert_eq!(c.stream_decode_interval_ms, 160);
    assert_eq!(c.stream_max_window_ms, 6000);
    assert_eq!(c.stream_left_context_ms, 1000);
    assert_eq!(c.stream_stability_hold_ms, 220);
    let d = streaming::parse_args(&args(&[
        "--model", "dir", "--stream-min-audio-ms", "40", "--stream-decode-interval-ms", "1500",
        "--stream-max-window-ms", "800", "--stream-left-context-ms", "200",
        "--stream-stability-hold-ms", "80",
    ]))
    .ok()
    .unwrap();
    assert_eq!(d.stream_min_audio_ms, 40);
    assert_eq!(d.stream_decode_interval_ms, 1500);
    assert_eq!(d.stream_max_window_ms, 800);
    assert_eq!(d.stream_left_context_ms, 200);
    assert_eq!(d.stream_stability_hold_ms, 80);
}

#[test]
fn streaming_errors() {
    let e = |w: &[&str]| streaming::parse_args(&args(w)).err().unwrap();
    assert_eq!(e(&["--model", "d", "--stream-min-audio-ms", "39"]), "--stream-min-audio-ms must be between 40 and 1000");
    assert_eq!(e(&["--model", "d", "--stream-decode-interval-ms", "1501"]), "--stream-decode-interval-ms must be between 40 and 1500");
    assert_eq!(e(&["--model", "d", "--stream-max-window-ms", "799"]), "--stream-max-window-ms must be between 800 and 30000");
    assert_eq!(e(&["--model", "d", "--stream-left-context-ms", "5001"]), "--stream-left-context-ms must be between 200 and 5000");
    assert_eq!(e(&["--model", "d", "--stream-stability-hold-ms", "79"]), "--stream-stability-hold-ms must be between 80 and 1200");
    assert_eq!(
        e(&["--model", "d", "--stream-max-window-ms", "1000", "--stream-left-context-ms", "1000"]),
        "--stream-left-context-ms must be less than --stream-max-window-ms"
    );
    assert_eq!(
        e(&["--model", "d", "--stream-max-window-ms", "1000", "--stream-left-context-ms", "500", "--stream-stability-hold-ms", "1000"]),
        "--stream-stability-hold-ms must be less than --stream-max-window-ms"
    );
    assert_eq!(e(&["--stream-max-window-ms", "-5"]), "Invalid --stream-max-window-ms value");
    assert!(e(&["--help"]).starts_with("usage: dingoflow-parakeet-worker"));
}

#[test]
fn capture_sample_rate() {
    assert_eq!(parse_config(&args(&[])).ok().unwrap().target_sample_rate, 16000);
    assert_eq!(parse_config(&args(&["--sample-rate", "48000"])).ok().unwrap().target_sample_rate, 48000);
    assert_eq!(parse_config(&args(&["--sample-rate", "7999"])).err().unwrap(), "sample rate must be between 8000 and 96000");
    assert_eq!(parse_config(&args(&["--sample-rate", "96001"])).err().unwrap(), "sample rate must be between 8000 and 96000");
    assert_eq!(parse_config(&args(&["--sample-rate"])).err().unwrap(), "Missing value for --sample-rate");
    assert_eq!(parse_config(&args(&["--sample-rate", "x"])).err().unwrap(), "Invalid --sample-rate value");
    assert_eq!(parse_config(&args(&["--serve"])).err().unwrap(), "Unsupported argument: --serve");
    assert_eq!(parse_config(&args(&["-h"])).err().unwrap(), "usage: dingoflow-audio-loop [--sample-rate 16000]");
}
