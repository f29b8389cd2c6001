use vstd::prelude::*;
use vstd::string::*;
use crate::commit::{collect_new_stable_text, collected, lemma_collected_newest, sat_add, saturating_add, Collected, TimedToken};
use crate::protocol::{check_sample_rate, rate_mismatch, INPUT_SAMPLE_RATE};
use crate::text::{append_committed_delta, appended, squeezed};
use crate::config::{
    arg_views, initial_scan, model_or_empty, model_text, scan, scan_args, worker_problem,
    worker_problem_of, Program,
};

verus! {

/// Command-line settings of the streaming transcription worker.
pub struct Config {
    pub model_path: String,
    pub threads: i32,
    pub serve: bool,
    pub healthcheck: bool,
    pub stream_min_audio_ms: u32,
    pub stream_decode_interval_ms: u32,
    pub stream_max_window_ms: u32,
    pub stream_left_context_ms: u32,
    pub stream_stability_hold_ms: u32,
}

/// Reads the streaming worker's command line (`args[0]` is the program name):
/// the offline worker's flags and the five `--stream-*-ms` settings, each
/// checked against its range unless `--healthcheck` is given.
pub fn parse_args(args: &Vec<String>) -> (r: Result<Config, String>)
    ensures
        match scan(arg_views(args@), 1, initial_scan(), Program::StreamingWorker) {
            Err(e) => r matches Err(m) && m@ == e,
            Ok(st) => match worker_problem(st, Program::StreamingWorker) {
                Some(e) => r matches Err(m) && m@ == e,
                None => r matches Ok(c) && c.model_path@ == model_or_empty(st) && c.threads
                    == st.threads && c.serve == st.serve && c.healthcheck == st.healthcheck
                    && c.stream_min_audio_ms == st.stream_ms[0] && c.stream_decode_interval_ms
                    == st.stream_ms[1] && c.stream_max_window_ms == st.stream_ms[2]
                    && c.stream_left_context_ms == st.stream_ms[3] && c.stream_stability_hold_ms
                    == st.stream_ms[4],
            },
        },
        r matches Ok(c) ==> (c.healthcheck || stream_settings_valid(c)),
{
    let st = match scan_args(args, Program::StreamingWorker) {
        Ok(st) => st,
        Err(e) => return Err(e),
    };
    match worker_problem_of(&st, Program::StreamingWorker) {
        Some(e) => Err(e),
        None => Ok(
            Config {
                model_path: model_text(&st),
                threads: st.threads,
                serve: st.serve,
                healthcheck: st.healthcheck,
                stream_min_audio_ms: st.stream_ms[0],
                stream_decode_interval_ms: st.stream_ms[1],
                stream_max_window_ms: st.stream_ms[2],
                stream_left_context_ms: st.stream_ms[3],
                stream_stability_hold_ms: st.stream_ms[4],
            },
        ),
    }
}

/// Slack, in milliseconds, around the commit watermark for timestamp jitter.
pub const STREAM_TIMESTAMP_TOLERANCE_MS: u32 = 120;

/// Samples in `ms` milliseconds at `INPUT_SAMPLE_RATE`.
pub open spec fn ms_samples(ms: u32) -> int {
    ms as int * 16000 / 1000
}

pub open spec fn max(a: int, b: int) -> int {
    if a >= b {
        a
    } else {
        b
    }
}

pub open spec fn min(a: int, b: int) -> int {
    if a <= b {
        a
    } else {
        b
    }
}

pub open spec fn sat_sub(a: int, b: int) -> int {
    if a >= b {
        a - b
    } else {
        0
    }
}

/// The streaming settings, in samples.
#[derive(PartialEq, Eq, Structural, Clone, Copy, Debug)]
pub struct StreamTuning {
    pub min_stream_samples: usize,
    pub decode_interval_samples: usize,
    pub max_decode_window_samples: usize,
    pub stream_left_context_samples: usize,
    pub stream_stability_hold_samples: usize,
    pub stream_timestamp_tolerance_samples: usize,
    pub stream_trim_keep_samples: usize,
}

/// The settings in samples: each at least one sample; the window holds at
/// least the minimum audio; left context and stability hold stay inside the
/// window; the trimmed buffer keeps the left context and 1.5 s more.
pub open spec fn tuning_of(cfg: Config) -> StreamTuning {
    let min_audio = ms_samples(cfg.stream_min_audio_ms);
    let window = max(max(ms_samples(cfg.stream_max_window_ms), min_audio), 1);
    let left = max(min(ms_samples(cfg.stream_left_context_ms), sat_sub(window, 1)), 1);
    let hold = max(min(ms_samples(cfg.stream_stability_hold_ms), sat_sub(window, 1)), 1);
    StreamTuning {
        min_stream_samples: max(min_audio, 1) as usize,
        decode_interval_samples: max(ms_samples(cfg.stream_decode_interval_ms), 1) as usize,
        max_decode_window_samples: window as usize,
        stream_left_context_samples: left as usize,
        stream_stability_hold_samples: hold as usize,
        stream_timestamp_tolerance_samples: max(ms_samples(STREAM_TIMESTAMP_TOLERANCE_MS), 1) as usize,
        stream_trim_keep_samples: max(left + 24000, left + 1) as usize,
    }
}

fn ms_to_samples(ms: u32) -> (r: u64)
    ensures
        r == ms_samples(ms),
{
    ms as u64 * 16000 / 1000
}

fn max_u64(a: u64, b: u64) -> (r: u64)
    ensures
        r == max(a as int, b as int),
{
    if a >= b {
        a
    } else {
        b
    }
}

fn min_u64(a: u64, b: u64) -> (r: u64)
    ensures
        r == min(a as int, b as int),
{
    if a <= b {
        a
    } else {
        b
    }
}

/// The ranges that a worker that serves accepts for its streaming settings.
pub open spec fn stream_settings_valid(cfg: Config) -> bool {
    &&& 40 <= cfg.stream_min_audio_ms <= 1000
    &&& 40 <= cfg.stream_decode_interval_ms <= 1500
    &&& 800 <= cfg.stream_max_window_ms <= 30000
    &&& 200 <= cfg.stream_left_context_ms <= 5000
    &&& 80 <= cfg.stream_stability_hold_ms <= 1200
}

impl StreamTuning {
    /// Converts the millisecond settings to samples at `INPUT_SAMPLE_RATE`.
    pub fn from_config(cfg: &Config) -> (r: StreamTuning)
        requires
            stream_settings_valid(*cfg),
        ensures
            r == tuning_of(*cfg),
    {
        let min_audio = ms_to_samples(cfg.stream_min_audio_ms);
        let window = max_u64(max_u64(ms_to_samples(cfg.stream_max_window_ms), min_audio), 1);
        let left = max_u64(min_u64(ms_to_samples(cfg.stream_left_context_ms), window - 1), 1);
        let hold = max_u64(min_u64(ms_to_samples(cfg.stream_stability_hold_ms), window - 1), 1);
        StreamTuning {
            min_stream_samples: max_u64(min_audio, 1) as usize,
            decode_interval_samples: max_u64(ms_to_samples(cfg.stream_decode_interval_ms), 1) as usize,
            max_decode_window_samples: window as usize,
            stream_left_context_samples: left as usize,
            stream_stability_hold_samples: hold as usize,
            stream_timestamp_tolerance_samples: max_u64(
                ms_to_samples(STREAM_TIMESTAMP_TOLERANCE_MS),
                1,
            ) as usize,
            stream_trim_keep_samples: max_u64(left + 24000, left + 1) as usize,
        }
    }
}

/// One streaming session: the retained audio, the absolute index of its first
/// sample, the samples received since the last decode, and the committed
/// transcript with the sample it reaches.
pub struct StreamState<S> {
    pub sample_rate: u32,
    pub audio: Vec<S>,
    pub audio_start_sample: usize,
    pub pending_samples: usize,
    pub committed_text: String,
    pub committed_until_sample: usize,
}

pub struct StreamModel<S> {
    pub sample_rate: u32,
    pub audio: Seq<S>,
    pub audio_start_sample: int,
    pub pending_samples: int,
    pub committed_text: Seq<char>,
    pub committed_until_sample: int,
}

impl<S> View for StreamState<S> {
    type V = StreamModel<S>;

    open spec fn view(&self) -> StreamModel<S> {
        StreamModel {
            sample_rate: self.sample_rate,
            audio: self.audio@,
            audio_start_sample: self.audio_start_sample as int,
            pending_samples: self.pending_samples as int,
            committed_text: self.committed_text@,
            committed_until_sample: self.committed_until_sample as int,
        }
    }
}

pub open spec fn fresh_model<S>(sample_rate: u32) -> StreamModel<S> {
    StreamModel {
        sample_rate,
        audio: Seq::empty(),
        audio_start_sample: 0,
        pending_samples: 0,
        committed_text: Seq::empty(),
        committed_until_sample: 0,
    }
}

impl<S: Copy> StreamState<S> {
    pub fn new(sample_rate: u32) -> (r: Self)
        ensures
            r@ == fresh_model::<S>(sample_rate),
    {
        StreamState {
            sample_rate,
            audio: Vec::new(),
            audio_start_sample: 0,
            pending_samples: 0,
            committed_text: String::new(),
            committed_until_sample: 0,
        }
    }
}

/// A decode that the engine asks for: the window's samples, where the window
/// starts, the watermark when it was cut, and the last sample whose tokens may
/// be committed.
pub struct DecodeJob<S> {
    pub audio: Vec<S>,
    pub sample_rate: u32,
    pub window_start_sample: usize,
    pub committed_until_sample: usize,
    pub stable_cutoff_sample: usize,
}

/// The session a push works on: the open one, or a fresh one.
pub open spec fn session_or_fresh<S>(s: Option<StreamState<S>>) -> StreamModel<S> {
    match s {
        Some(st) => st@,
        None => fresh_model::<S>(INPUT_SAMPLE_RATE),
    }
}

/// Where a decode window starts: no more than the longest window before the
/// end, the left context before the watermark where it is retained, never
/// before the retained audio, and never past its end.
pub open spec fn window_start(audio_start: int, audio_len: int, committed_until: int, t: StreamTuning) -> int {
    min(
        max(
            max(
                sat_sub(audio_start + audio_len, t.max_decode_window_samples as int),
                sat_sub(committed_until, t.stream_left_context_samples as int),
            ),
            audio_start,
        ),
        audio_start + audio_len,
    )
}

/// The audio retained after trimming to `keep` samples before the watermark.
pub open spec fn trimmed_audio<S>(m: StreamModel<S>, keep: int) -> StreamModel<S> {
    let until = sat_sub(m.committed_until_sample, keep);
    if until <= m.audio_start_sample {
        m
    } else if until - m.audio_start_sample >= m.audio.len() {
        StreamModel { audio: Seq::empty(), audio_start_sample: until, ..m }
    } else {
        StreamModel {
            audio: m.audio.subrange(until - m.audio_start_sample, m.audio.len() as int),
            audio_start_sample: until,
            ..m
        }
    }
}

/// The session after `delta`, the stable text of a decode that reaches sample
/// `end`, is committed: a non-empty delta is appended to the transcript and
/// moves the watermark forward to `end`.
pub open spec fn committed_with<S>(m: StreamModel<S>, delta: Seq<char>, end: int) -> StreamModel<S> {
    if delta.len() == 0 {
        m
    } else {
        StreamModel {
            committed_text: appended(m.committed_text, delta),
            committed_until_sample: max(m.committed_until_sample, end),
            ..m
        }
    }
}

pub open spec fn committed_model<S>(m: StreamModel<S>, c: Collected) -> StreamModel<S> {
    committed_with(m, squeezed(c.out), c.newest)
}

/// What `job` and the decoder's `tokens` commit, under tuning `t`.
pub open spec fn job_collected<S>(job: DecodeJob<S>, tokens: Seq<TimedToken>, t: StreamTuning) -> Collected {
    collected(
        tokens,
        job.window_start_sample as int,
        job.committed_until_sample as int,
        job.stable_cutoff_sample as int,
        t.stream_timestamp_tolerance_samples as int,
    )
}

/// Whether session `b` continues session `a`: the watermark has not moved back
/// and the transcript has only grown at its end.
pub open spec fn continues<S>(a: StreamModel<S>, b: StreamModel<S>) -> bool {
    &&& a.committed_until_sample <= b.committed_until_sample
    &&& a.committed_text.len() <= b.committed_text.len()
    &&& b.committed_text.subrange(0, a.committed_text.len() as int) == a.committed_text
}

/// Committing a decode never moves the watermark back and only appends to the
/// transcript, and neither does trimming the retained audio.
pub proof fn lemma_commit_continues<S>(m: StreamModel<S>, c: Collected, keep: int)
    ensures
        continues(m, committed_model(m, c)),
        continues(m, trimmed_audio(committed_model(m, c), keep)),
{
    let d = squeezed(c.out);
    let t = m.committed_text;
    if d.len() > 0 {
        let a = appended(t, d);
        if t.len() == 0 {
            assert(a.subrange(0, 0) =~= t);
        } else if t.last() != ' ' && t.last() != '\n' && !crate::text::is_closing_punct(d[0]) {
            assert(a.subrange(0, t.len() as int) =~= t);
        } else {
            assert(a.subrange(0, t.len() as int) =~= t);
        }
    } else {
        assert(t.subrange(0, t.len() as int) =~= t);
    }
}

/// The stability hold as the watermark sees it: a decode moves the watermark
/// to no sample past the job's cutoff (it stays where it was, or where the job
/// found it, or lands at or before the cutoff).
pub open spec fn watermark_held<S>(before: StreamModel<S>, after: StreamModel<S>, job: DecodeJob<S>) -> bool {
    after.committed_until_sample == before.committed_until_sample
        || after.committed_until_sample == job.committed_until_sample
        || after.committed_until_sample <= job.stable_cutoff_sample
}

/// The streaming engine: its tuning and the open session, if any.
pub struct StreamEngine<S> {
    pub stream: Option<StreamState<S>>,
    pub tuning: StreamTuning,
}

fn copy_from<S: Copy>(v: &Vec<S>, from: usize) -> (r: Vec<S>)
    requires
        from <= v@.len(),
    ensures
        r@ == v@.subrange(from as int, v@.len() as int),
{
    let mut out: Vec<S> = Vec::new();
    let mut i: usize = from;
    while i < v.len()
        invariant
            from <= i <= v@.len(),
            out@ =~= v@.subrange(from as int, i as int),
        decreases v@.len() - i,
    {
        out.push(v[i]);
        i = i + 1;
    }
    out
}

fn trim_stream_buffer<S>(state: &mut StreamState<S>, keep_samples: usize)
    ensures
        final(state)@ == trimmed_audio(old(state)@, keep_samples as int),
{
    let trim_until_sample = if state.committed_until_sample >= keep_samples {
        state.committed_until_sample - keep_samples
    } else {
        0
    };
    if trim_until_sample <= state.audio_start_sample {
        return;
    }
    let trim_samples = trim_until_sample - state.audio_start_sample;
    if trim_samples >= state.audio.len() {
        state.audio.clear();
        state.audio_start_sample = trim_until_sample;
        proof {
            assert(final(state)@.audio =~= Seq::<S>::empty());
        }
        return;
    }
    let rest = state.audio.split_off(trim_samples);
    state.audio = rest;
    state.audio_start_sample = trim_until_sample;
}

fn commit_delta<S>(state: &mut StreamState<S>, delta: &String, delta_end_sample: usize)
    ensures
        final(state)@ == committed_with(old(state)@, delta@, delta_end_sample as int),
{
    if delta.as_str().unicode_len() > 0 {
        append_committed_delta(&mut state.committed_text, delta.as_str());
        if delta_end_sample > state.committed_until_sample {
            state.committed_until_sample = delta_end_sample;
        }
    }
}

/// The session that a push leaves before any decode: the chunk appended and
/// counted as pending.
pub open spec fn pushed_model<S>(m: StreamModel<S>, chunk: Seq<S>) -> StreamModel<S> {
    StreamModel {
        audio: m.audio + chunk,
        pending_samples: sat_add(m.pending_samples, chunk.len() as int),
        ..m
    }
}

/// Whether a session has too little audio, or too little new audio, to decode.
pub open spec fn too_early<S>(m: StreamModel<S>, t: StreamTuning) -> bool {
    m.audio.len() < t.min_stream_samples || m.pending_samples < t.decode_interval_samples
}

/// The decode a push asks for on session `m` (the chunk already appended).
pub open spec fn push_job_matches<S>(job: DecodeJob<S>, m: StreamModel<S>, t: StreamTuning) -> bool {
    let ws = window_start(
        m.audio_start_sample,
        m.audio.len() as int,
        m.committed_until_sample,
        t,
    );
    &&& job.window_start_sample == ws
    &&& job.audio@ == m.audio.subrange(ws - m.audio_start_sample, m.audio.len() as int)
    &&& job.sample_rate == m.sample_rate
    &&& job.committed_until_sample == m.committed_until_sample
    &&& job.stable_cutoff_sample == sat_sub(
        m.audio_start_sample + m.audio.len(),
        t.stream_stability_hold_samples as int,
    )
}

/// The decode a flush asks for: the whole retained audio, all of it committable.
pub open spec fn flush_job_matches<S>(job: DecodeJob<S>, m: StreamModel<S>) -> bool {
    &&& job.window_start_sample == m.audio_start_sample
    &&& job.audio@ == m.audio
    &&& job.sample_rate == m.sample_rate
    &&& job.committed_until_sample == m.committed_until_sample
    &&& job.stable_cutoff_sample == sat_add(m.audio_start_sample, m.audio.len() as int)
}

impl<S: Copy> StreamEngine<S> {
    /// An engine with no open session.
    pub fn new(cfg: &Config) -> (r: Self)
        requires
            stream_settings_valid(*cfg),
        ensures
            r.stream is None,
            r.tuning == tuning_of(*cfg),
    {
        StreamEngine { stream: None, tuning: StreamTuning::from_config(cfg) }
    }

    /// Opens a fresh session, replacing any open one.
    pub fn stream_reset(&mut self, sample_rate: u32) -> (r: Result<(), String>)
        ensures
            final(self).tuning == old(self).tuning,
            sample_rate == INPUT_SAMPLE_RATE ==> r is Ok,
            sample_rate == INPUT_SAMPLE_RATE ==> (final(self).stream matches Some(st)
                && st@ == fresh_model::<S>(sample_rate)),
            sample_rate != INPUT_SAMPLE_RATE ==> (r matches Err(m) && m@ == rate_mismatch(sample_rate)
                && final(self).stream == old(self).stream),
    {
        match check_sample_rate(sample_rate) {
            Err(m) => Err(m),
            Ok(()) => {
                self.stream = Some(StreamState::new(sample_rate));
                Ok(())
            },
        }
    }

    /// Takes one chunk of audio, opening a session first if none is open.
    /// Asks for a decode once the session holds at least the minimum audio and
    /// at least the decode interval has arrived since the last decode;
    /// `Ok(None)` means no decode, and an empty delta.
    pub fn stream_push(&mut self, audio_chunk: &[S], sample_rate: u32) -> (r: Result<
        Option<DecodeJob<S>>,
        String,
    >)
        ensures
            final(self).tuning == old(self).tuning,
            old(self).stream matches Some(st0) ==> (final(self).stream matches Some(st) && continues(
                st0@,
                st@,
            )),
            sample_rate != INPUT_SAMPLE_RATE ==> (r matches Err(m) && m@ == rate_mismatch(sample_rate)
                && final(self).stream == old(self).stream),
            sample_rate == INPUT_SAMPLE_RATE ==> ({
                let m0 = session_or_fresh(old(self).stream);
                let m1 = pushed_model(m0, audio_chunk@);
                let t = old(self).tuning;
                if m0.audio_start_sample + m1.audio.len() > usize::MAX {
                    r is Err && final(self).stream == old(self).stream
                } else if too_early(m1, t) {
                    r matches Ok(None) && final(self).stream matches Some(st) && st@ == m1
                } else {
                    &&& r matches Ok(Some(job)) && push_job_matches(job, m1, t)
                    &&& final(self).stream matches Some(st) && st@ == (StreamModel {
                        pending_samples: 0,
                        ..m1
                    })
                }
            }),
    {
        proof {
            if old(self).stream is Some {
                let text = old(self).stream->0.committed_text@;
                assert(text.subrange(0, text.len() as int) =~= text);
            }
        }
        if let Err(m) = check_sample_rate(sample_rate) {
            return Err(m);
        }
        let t = self.tuning;
        let mut state = match self.stream.take() {
            Some(st) => st,
            None => StreamState::new(sample_rate),
        };
        proof {
            assert(state@ == session_or_fresh(old(self).stream));
        }
        if state.audio_start_sample > usize::MAX - state.audio.len() || audio_chunk.len() > usize::MAX
            - state.audio_start_sample - state.audio.len() {
            self.stream = Some(state);
            return Err(String::from_str("stream position overflow"));
        }
        let mut i: usize = 0;
        let ghost before = state.audio@;
        let ghost m0 = state@;
        while i < audio_chunk.len()
            invariant
                i <= audio_chunk@.len(),
                m0.audio == before,
                m0.audio_start_sample + before.len() + audio_chunk@.len() <= usize::MAX,
                state.audio@ =~= before + audio_chunk@.subrange(0, i as int),
                state@ == (StreamModel { audio: state.audio@, ..m0 }),
            decreases audio_chunk@.len() - i,
        {
            state.audio.push(audio_chunk[i]);
            i = i + 1;
        }
        assert(audio_chunk@.subrange(0, audio_chunk@.len() as int) =~= audio_chunk@);
        state.pending_samples = saturating_add(state.pending_samples, audio_chunk.len());
        if state.audio.len() < t.min_stream_samples || state.pending_samples < t.decode_interval_samples {
            self.stream = Some(state);
            return Ok(None);
        }
        state.pending_samples = 0;
        let stream_end_sample = state.audio_start_sample + state.audio.len();
        let min_window_start = if stream_end_sample >= t.max_decode_window_samples {
            stream_end_sample - t.max_decode_window_samples
        } else {
            0
        };
        let context_window_start = if state.committed_until_sample >= t.stream_left_context_samples {
            state.committed_until_sample - t.stream_left_context_samples
        } else {
            0
        };
        let mut ws = if context_window_start >= min_window_start {
            context_window_start
        } else {
            min_window_start
        };
        if state.audio_start_sample > ws {
            ws = state.audio_start_sample;
        }
        if ws > stream_end_sample {
            ws = stream_end_sample;
        }
        let audio = copy_from(&state.audio, ws - state.audio_start_sample);
        let stable_cutoff_sample = if stream_end_sample >= t.stream_stability_hold_samples {
            stream_end_sample - t.stream_stability_hold_samples
        } else {
            0
        };
        let job = DecodeJob {
            audio,
            sample_rate: state.sample_rate,
            window_start_sample: ws,
            committed_until_sample: state.committed_until_sample,
            stable_cutoff_sample,
        };
        self.stream = Some(state);
        Ok(Some(job))
    }

    /// Commits what a push's decode made stable, then trims the retained audio.
    /// Gives the delta, the text added to the transcript.
    pub fn finish_push(&mut self, job: &DecodeJob<S>, tokens: &Vec<TimedToken>) -> (r: Result<
        String,
        String,
    >)
        ensures
            final(self).tuning == old(self).tuning,
            old(self).stream is None ==> (r matches Err(m) && m@ == "stream state unavailable"@
                && final(self).stream is None),
            old(self).stream matches Some(st0) ==> ({
                let c = job_collected(*job, tokens@, old(self).tuning);
                &&& r matches Ok(d) && d@ == squeezed(c.out)
                &&& final(self).stream matches Some(st) && st@ == trimmed_audio(
                    committed_model(st0@, c),
                    old(self).tuning.stream_trim_keep_samples as int,
                ) && continues(st0@, st@) && watermark_held(st0@, st@, *job)
            }),
    {
        let t = self.tuning;
        let mut state = match self.stream.take() {
            Some(st) => st,
            None => return Err(String::from_str("stream state unavailable")),
        };
        let (delta, delta_end) = collect_new_stable_text(
            tokens,
            job.window_start_sample,
            job.committed_until_sample,
            job.stable_cutoff_sample,
            t.stream_timestamp_tolerance_samples,
        );
        commit_delta(&mut state, &delta, delta_end);
        trim_stream_buffer(&mut state, t.stream_trim_keep_samples);
        proof {
            lemma_commit_continues(
                old(self).stream->0@,
                job_collected(*job, tokens@, t),
                t.stream_trim_keep_samples as int,
            );
            lemma_collected_newest(
                tokens@,
                job.window_start_sample as int,
                job.committed_until_sample as int,
                job.stable_cutoff_sample as int,
                t.stream_timestamp_tolerance_samples as int,
            );
        }
        self.stream = Some(state);
        Ok(delta)
    }

    /// Asks for a final decode of the whole retained audio; `None` when no
    /// session is open or it holds no audio, and the delta is then empty.
    pub fn stream_flush(&self) -> (r: Option<DecodeJob<S>>)
        ensures
            match self.stream {
                None => r is None,
                Some(st) => if st.audio@.len() == 0 {
                    r is None
                } else {
                    r matches Some(job) && flush_job_matches(job, st@)
                },
            },
    {
        match &self.stream {
            None => None,
            Some(state) => {
                if state.audio.len() == 0 {
                    return None;
                }
                let audio = copy_from(&state.audio, 0);
                assert(state.audio@.subrange(0, state.audio@.len() as int) =~= state.audio@);
                Some(
                    DecodeJob {
                        audio,
                        sample_rate: state.sample_rate,
                        window_start_sample: state.audio_start_sample,
                        committed_until_sample: state.committed_until_sample,
                        stable_cutoff_sample: saturating_add(state.audio_start_sample, state.audio.len()),
                    },
                )
            },
        }
    }

    /// Commits what a flush's decode made stable, then trims the retained
    /// audio; the session stays open. Gives the delta; empty when no session
    /// is open.
    pub fn finish_flush(&mut self, job: &DecodeJob<S>, tokens: &Vec<TimedToken>) -> (r: String)
        ensures
            final(self).tuning == old(self).tuning,
            old(self).stream is None ==> r@.len() == 0 && final(self).stream is None,
            old(self).stream matches Some(st0) ==> ({
                let c = job_collected(*job, tokens@, old(self).tuning);
                &&& r@ == squeezed(c.out)
                &&& final(self).stream matches Some(st) && st@ == trimmed_audio(
                    committed_model(st0@, c),
                    old(self).tuning.stream_trim_keep_samples as int,
                ) && continues(st0@, st@) && watermark_held(st0@, st@, *job)
            }),
    {
        let t = self.tuning;
        let mut state = match self.stream.take() {
            Some(st) => st,
            None => return String::new(),
        };
        let (delta, delta_end) = collect_new_stable_text(
            tokens,
            job.window_start_sample,
            job.committed_until_sample,
            job.stable_cutoff_sample,
            t.stream_timestamp_tolerance_samples,
        );
        commit_delta(&mut state, &delta, delta_end);
        trim_stream_buffer(&mut state, t.stream_trim_keep_samples);
        proof {
            lemma_commit_continues(
                old(self).stream->0@,
                job_collected(*job, tokens@, t),
                t.stream_trim_keep_samples as int,
            );
            lemma_collected_newest(
                tokens@,
                job.window_start_sample as int,
                job.committed_until_sample as int,
                job.stable_cutoff_sample as int,
                t.stream_timestamp_tolerance_samples as int,
            );
        }
        self.stream = Some(state);
        delta
    }

    /// Ends the session.
    pub fn stream_close(&mut self)
        ensures
            final(self).stream is None,
            final(self).tuning == old(self).tuning,
    {
        self.stream = None;
    }
}

} // verus!

