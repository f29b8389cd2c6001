use dingoflow_native::append_committed_delta;
use dingoflow_native::commit::{collect_new_stable_text, TimedToken};
use dingoflow_native::streaming::{Config, DecodeJob, StreamEngine, StreamTuning};

fn config() -> Config {
    Config {
        model_path: "dir".to_string(),
        threads: 4,
        serve: true,
        healthcheck: false,
        stream_min_audio_ms: 120,
        stream_decode_interval_ms: 160,
        stream_max_window_ms: 6000,
        stream_left_context_ms: 1000,
        stream_stability_hold_ms: 220,
    }
}

fn token(text: &str, end_offset: usize) -> TimedToken {
    TimedToken { text: text.to_string(), end_offset }
}

/// A known utterance: each word with the absolute sample at which it ends.
const WORDS: [(&str, usize); 10] = [
    ("hello", 6000),
    ("world", 12000),
    (",", 14500),
    ("this", 19000),
    ("is", 24000),
    ("a", 27000),
    ("streaming", 35000),
    ("test", 41000),
    (".", 43500),
    ("done", 46500),
];

/// What a decoder hears in a window: the words that end inside it, timed from
/// the window start.
fn decode(job: &DecodeJob<f32>) -> Vec<TimedToken> {
    let start = job.window_start_sample;
    let end = start + job.audio.len();
    WORDS
        .iter()
        .filter(|(_, e)| *e > start && *e <= end)
        .map(|(w, e)| token(w, e - start))
        .collect()
}

#[test]
fn tuning_in_samples() {
    let t = StreamTuning::from_config(&config());
    assert_eq!(t.min_stream_samples, 1920);
    assert_eq!(t.decode_interval_samples, 2560);
    assert_eq!(t.max_decode_window_samples, 96000);
    assert_eq!(t.stream_left_context_samples, 16000);
    assert_eq!(t.stream_stability_hold_samples, 3520);
    assert_eq!(t.stream_timestamp_tolerance_samples, 1920);
    assert_eq!(t.stream_trim_keep_samples, 40000);
}

#[test]
fn push_below_min_audio_does_not_decode() {
    let mut e: StreamEngine<f32> = StreamEngine::new(&config());
    assert!(e.stream_reset(16000).is_ok());
    assert!(e.stream_push(&vec![0.0; 1000], 16000).ok().unwrap().is_none());
    let st = e.stream.as_ref().unwrap();
    assert_eq!(st.audio.len(), 1000);
    assert_eq!(st.pending_samples, 1000);
    assert!(e.stream_push(&vec![0.0; 1000], 16000).ok().unwrap().is_none());
    let job = e.stream_push(&vec![0.0; 600], 16000).ok().unwrap().unwrap();
    assert_eq!(job.window_start_sample, 0);
    assert_eq!(job.audio.len(), 2600);
    assert_eq!(job.stable_cutoff_sample, 0);
    assert_eq!(e.stream.as_ref().unwrap().pending_samples, 0);
}

#[test]
fn push_without_reset_opens_session() {
    let mut e: StreamEngine<f32> = StreamEngine::new(&config());
    assert!(e.stream.is_none());
    assert!(e.stream_push(&vec![0.5; 10], 16000).ok().unwrap().is_none());
    assert_eq!(e.stream.as_ref().unwrap().audio, vec![0.5; 10]);
}

#[test]
fn wrong_rate_is_refused() {
    let mut e: StreamEngine<f32> = StreamEngine::new(&config());
    assert_eq!(
        e.stream_push(&vec![0.0; 10], 44100).err().unwrap(),
        "sampleRate mismatch: expected 16000, got 44100"
    );
    assert!(e.stream.is_none());
    assert!(e.stream_reset(8000).is_err());
    assert!(e.stream.is_none());
}

#[test]
fn flush_without_session_is_empty() {
    let mut e: StreamEngine<f32> = StreamEngine::new(&config());
    assert!(e.stream_flush().is_none());
    let job = DecodeJob {
        audio: vec![0.0f32; 4],
        sample_rate: 16000,
        window_start_sample: 0,
        committed_until_sample: 0,
        stable_cutoff_sample: 4,
    };
    assert_eq!(e.finish_flush(&job, &vec![token("x", 2)]), "");
    assert!(e.finish_push(&job, &vec![]).is_err());
    assert!(e.stream_reset(16000).is_ok());
    assert!(e.stream_flush().is_none());
}

#[test]
fn streaming_commit_is_monotone() {
    let mut e: StreamEngine<f32> = StreamEngine::new(&config());
    assert!(e.stream_reset(16000).is_ok());
    let mut transcript = String::new();
    let mut last_until = 0usize;
    let mut last_text = String::new();
    for _ in 0..30 {
        let delta = match e.stream_push(&vec![0.0; 1600], 16000).ok().unwrap() {
            None => String::new(),
            Some(job) => e.finish_push(&job, &decode(&job)).ok().unwrap(),
        };
        append_committed_delta(&mut transcript, &delta);
        let st = e.stream.as_ref().unwrap();
        assert!(st.committed_until_sample >= last_until);
        assert!(st.committed_text.starts_with(&last_text));
        assert_eq!(st.committed_text, transcript);
        last_until = st.committed_until_sample;
        last_text = st.committed_text.clone();
    }
    let job = e.stream_flush().unwrap();
    let delta = e.finish_flush(&job, &decode(&job));
    let before_flush = transcript.clone();
    append_committed_delta(&mut transcript, &delta);
    let final_text = e.stream.as_ref().unwrap().committed_text.clone();
    assert!(final_text.starts_with(&before_flush));
    assert_eq!(final_text, transcript);
    assert_eq!(final_text, "hello world, this is a streaming test. done");
}

#[test]
fn stability_hold_keeps_recent_tokens_back() {
    let mut e: StreamEngine<f32> = StreamEngine::new(&config());
    assert!(e.stream_reset(16000).is_ok());
    let job = e.stream_push(&vec![0.0; 16000], 16000).ok().unwrap().unwrap();
    assert_eq!(job.window_start_sample, 0);
    assert_eq!(job.stable_cutoff_sample, 16000 - 3520);
    let tokens = vec![token("early", 4000), token("edge", 12480), token("late", 12481), token("later", 9000)];
    let delta = e.finish_push(&job, &tokens).ok().unwrap();
    assert_eq!(delta, "early edge");
    assert_eq!(e.stream.as_ref().unwrap().committed_until_sample, 12480);
}

#[test]
fn tolerance_skips_recommitted_tokens() {
    let toks = vec![token("old", 100), token("jitter", 1100), token("new", 2100)];
    // Nothing committed yet: no tolerance.
    let (d0, n0) = collect_new_stable_text(&toks, 0, 0, 10000, 1920);
    assert_eq!(d0, "old jitter new");
    assert_eq!(n0, 2100);
    // Watermark at 100: tokens up to 100 + 1920 are already committed.
    let (d1, n1) = collect_new_stable_text(&toks, 0, 100, 10000, 1920);
    assert_eq!(d1, "new");
    assert_eq!(n1, 2100);
    // Nothing new: the watermark stays.
    let (d2, n2) = collect_new_stable_text(&toks, 0, 5000, 10000, 1920);
    assert_eq!(d2, "");
    assert_eq!(n2, 5000);
}

#[test]
fn pieces_are_trimmed_and_punctuation_joined() {
    let toks = vec![token(" Hi ", 10), token("  ", 20), token("!", 30), token(" there", 40)];
    let (d, n) = collect_new_stable_text(&toks, 1000, 0, 2000, 5);
    assert_eq!(d, "Hi! there");
    assert_eq!(n, 1040);
}

#[test]
fn buffer_is_trimmed_behind_the_watermark() {
    let mut e: StreamEngine<f32> = StreamEngine::new(&config());
    assert!(e.stream_reset(16000).is_ok());
    let job = e.stream_push(&vec![0.0; 80000], 16000).ok().unwrap().unwrap();
    assert_eq!(job.window_start_sample, 0);
    let delta = e.finish_push(&job, &vec![token("far", 70000)]).ok().unwrap();
    assert_eq!(delta, "far");
    let st = e.stream.as_ref().unwrap();
    assert_eq!(st.committed_until_sample, 70000);
    assert_eq!(st.audio_start_sample, 30000);
    assert_eq!(st.audio.len(), 50000);
    // The next window keeps the left context before the watermark.
    let job2 = e.stream_push(&vec![0.0; 3000], 16000).ok().unwrap().unwrap();
    assert_eq!(job2.window_start_sample, 70000 - 16000);
    assert_eq!(job2.audio.len(), 83000 - 54000);
    assert_eq!(job2.committed_until_sample, 70000);
}

#[test]
fn window_is_bounded_by_max_window() {
    let mut e: StreamEngine<f32> = StreamEngine::new(&config());
    let job = e.stream_push(&vec![0.0; 100000], 16000).ok().unwrap().unwrap();
    assert_eq!(job.window_start_sample, 4000);
    assert_eq!(job.audio.len(), 96000);
}

#[test]
fn close_ends_session() {
    let mut e: StreamEngine<f32> = StreamEngine::new(&config());
    assert!(e.stream_reset(16000).is_ok());
    e.stream_close();
    assert!(e.stream.is_none());
    e.stream_close();
    assert!(e.stream.is_none());
}

#[test]
fn flush_trims_behind_the_watermark() {
    let mut e: StreamEngine<f32> = StreamEngine::new(&config());
    assert!(e.stream_reset(16000).is_ok());
    let job = e.stream_push(&vec![0.0; 80000], 16000).ok().unwrap().unwrap();
    assert_eq!(job.stable_cutoff_sample, 80000 - 3520);
    assert_eq!(e.finish_push(&job, &vec![token("far", 70000)]).ok().unwrap(), "far");
    assert_eq!(e.stream.as_ref().unwrap().audio_start_sample, 30000);
    let flush = e.stream_flush().unwrap();
    assert_eq!(flush.window_start_sample, 30000);
    assert_eq!(flush.stable_cutoff_sample, 80000);
    let delta = e.finish_flush(&flush, &vec![token("far", 40000), token("end", 49000)]);
    assert_eq!(delta, "end");
    let st = e.stream.as_ref().unwrap();
    assert_eq!(st.committed_until_sample, 79000);
    assert_eq!(st.committed_text, "far end");
    assert_eq!(st.audio_start_sample, 39000);
    assert_eq!(st.audio.len(), 41000);
}

#[test]
fn short_window_commits_nothing_inside_the_hold() {
    let mut e: StreamEngine<f32> = StreamEngine::new(&config());
    let job = e.stream_push(&vec![0.0; 3000], 16000).ok().unwrap().unwrap();
    assert_eq!(job.stable_cutoff_sample, 0);
    let delta = e.finish_push(&job, &vec![token("too", 0), token("soon", 1500)]).ok().unwrap();
    assert_eq!(delta, "");
    assert_eq!(e.stream.as_ref().unwrap().committed_until_sample, 0);
}
