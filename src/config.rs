use vstd::prelude::*;
use vstd::string::*;
use crate::num::{parse_i32, parse_u32, parsed_i32, parsed_u32};
use crate::text::str_eq;

verus! {

/// The three sidecar programs, which share one command-line grammar.
#[derive(PartialEq, Eq, Structural, Clone, Copy, Debug)]
pub enum Program {
    OfflineWorker,
    StreamingWorker,
    Capture,
}

/// What one command-line word asks for.
#[derive(PartialEq, Eq, Structural, Clone, Copy, Debug)]
pub enum Flag {
    Serve,
    Healthcheck,
    Help,
    Model,
    Threads,
    /// One of the five streaming millisecond settings, by position.
    StreamMs(usize),
    SampleRate,
    Unknown,
}

pub open spec fn is_worker(p: Program) -> bool {
    p != Program::Capture
}

/// The flag a word names in a program.
pub open spec fn flag_of(a: Seq<char>, p: Program) -> Flag {
    if is_worker(p) && a == "--serve"@ {
        Flag::Serve
    } else if is_worker(p) && a == "--healthcheck"@ {
        Flag::Healthcheck
    } else if a == "--help"@ || a == "-h"@ {
        Flag::Help
    } else if is_worker(p) && a == "--model"@ {
        Flag::Model
    } else if is_worker(p) && a == "--threads"@ {
        Flag::Threads
    } else if p == Program::StreamingWorker && a == "--stream-min-audio-ms"@ {
        Flag::StreamMs(0)
    } else if p == Program::StreamingWorker && a == "--stream-decode-interval-ms"@ {
        Flag::StreamMs(1)
    } else if p == Program::StreamingWorker && a == "--stream-max-window-ms"@ {
        Flag::StreamMs(2)
    } else if p == Program::StreamingWorker && a == "--stream-left-context-ms"@ {
        Flag::StreamMs(3)
    } else if p == Program::StreamingWorker && a == "--stream-stability-hold-ms"@ {
        Flag::StreamMs(4)
    } else if p == Program::Capture && a == "--sample-rate"@ {
        Flag::SampleRate
    } else {
        Flag::Unknown
    }
}

pub fn flag_for(a: &str, p: Program) -> (r: Flag)
    ensures
        r == flag_of(a@, p),
{
    let worker = p != Program::Capture;
    let streaming = p == Program::StreamingWorker;
    if worker && str_eq(a, "--serve") {
        Flag::Serve
    } else if worker && str_eq(a, "--healthcheck") {
        Flag::Healthcheck
    } else if str_eq(a, "--help") || str_eq(a, "-h") {
        Flag::Help
    } else if worker && str_eq(a, "--model") {
        Flag::Model
    } else if worker && str_eq(a, "--threads") {
        Flag::Threads
    } else if streaming && str_eq(a, "--stream-min-audio-ms") {
        Flag::StreamMs(0)
    } else if streaming && str_eq(a, "--stream-decode-interval-ms") {
        Flag::StreamMs(1)
    } else if streaming && str_eq(a, "--stream-max-window-ms") {
        Flag::StreamMs(2)
    } else if streaming && str_eq(a, "--stream-left-context-ms") {
        Flag::StreamMs(3)
    } else if streaming && str_eq(a, "--stream-stability-hold-ms") {
        Flag::StreamMs(4)
    } else if p == Program::Capture && str_eq(a, "--sample-rate") {
        Flag::SampleRate
    } else {
        Flag::Unknown
    }
}

pub open spec fn usage(p: Program) -> Seq<char> {
    match p {
        Program::OfflineWorker => "usage: dingoflow-asr-worker --model /path/to/ggml-model.bin [--threads 4] --serve"@,
        Program::StreamingWorker => "usage: dingoflow-parakeet-worker --model /path/to/parakeet-tdt-onnx-dir [--threads 4] [--stream-min-audio-ms 120] [--stream-decode-interval-ms 160] [--stream-max-window-ms 6000] [--stream-left-context-ms 1000] [--stream-stability-hold-ms 220] --serve"@,
        Program::Capture => "usage: dingoflow-audio-loop [--sample-rate 16000]"@,
    }
}

fn usage_text(p: Program) -> (r: String)
    ensures
        r@ == usage(p),
{
    match p {
        Program::OfflineWorker => String::from_str(
            "usage: dingoflow-asr-worker --model /path/to/ggml-model.bin [--threads 4] --serve",
        ),
        Program::StreamingWorker => String::from_str(
            "usage: dingoflow-parakeet-worker --model /path/to/parakeet-tdt-onnx-dir [--threads 4] [--stream-min-audio-ms 120] [--stream-decode-interval-ms 160] [--stream-max-window-ms 6000] [--stream-left-context-ms 1000] [--stream-stability-hold-ms 220] --serve",
        ),
        Program::Capture => String::from_str("usage: dingoflow-audio-loop [--sample-rate 16000]"),
    }
}

/// The settings gathered while the words are read, before validation.
pub struct ArgScan {
    pub model: Option<Seq<char>>,
    pub threads: i32,
    pub serve: bool,
    pub healthcheck: bool,
    pub stream_ms: Seq<u32>,
    pub sample_rate: u32,
}

pub open spec fn initial_scan() -> ArgScan {
    ArgScan {
        model: None,
        threads: 4,
        serve: false,
        healthcheck: false,
        stream_ms: seq![120u32, 160u32, 6000u32, 1000u32, 220u32],
        sample_rate: 16000,
    }
}

pub open spec fn arg_views(args: Seq<String>) -> Seq<Seq<char>> {
    args.map_values(|s: String| s@)
}

/// Reads the words from index `i` on, as the programs' command lines are read:
/// flags with a value take the next word, a missing or unreadable value, a help
/// request and an unknown word end the reading with a message.
pub open spec fn scan(args: Seq<Seq<char>>, i: int, st: ArgScan, p: Program) -> Result<ArgScan, Seq<char>>
    decreases args.len() - i,
{
    if i < 0 || i >= args.len() {
        Ok(st)
    } else {
        let a = args[i];
        match flag_of(a, p) {
            Flag::Serve => scan(args, i + 1, ArgScan { serve: true, ..st }, p),
            Flag::Healthcheck => scan(args, i + 1, ArgScan { healthcheck: true, ..st }, p),
            Flag::Help => Err(usage(p)),
            Flag::Unknown => Err("Unsupported argument: "@ + a),
            _ => {
                if i + 1 >= args.len() {
                    Err("Missing value for "@ + a)
                } else {
                    let v = args[i + 1];
                    let invalid = "Invalid "@ + a + " value"@;
                    match flag_of(a, p) {
                        Flag::Model => scan(args, i + 2, ArgScan { model: Some(v), ..st }, p),
                        Flag::Threads => match parsed_i32(v) {
                            Some(t) => scan(args, i + 2, ArgScan { threads: t, ..st }, p),
                            None => Err(invalid),
                        },
                        Flag::StreamMs(k) => match parsed_u32(v) {
                            Some(x) => scan(
                                args,
                                i + 2,
                                ArgScan { stream_ms: st.stream_ms.update(k as int, x), ..st },
                                p,
                            ),
                            None => Err(invalid),
                        },
                        _ => match parsed_u32(v) {
                            Some(x) => scan(args, i + 2, ArgScan { sample_rate: x, ..st }, p),
                            None => Err(invalid),
                        },
                    }
                }
            },
        }
    }
}

pub struct ArgState {
    pub model: Option<String>,
    pub threads: i32,
    pub serve: bool,
    pub healthcheck: bool,
    pub stream_ms: Vec<u32>,
    pub sample_rate: u32,
}

impl View for ArgState {
    type V = ArgScan;

    open spec fn view(&self) -> ArgScan {
        ArgScan {
            model: match self.model {
                Some(m) => Some(m@),
                None => None,
            },
            threads: self.threads,
            serve: self.serve,
            healthcheck: self.healthcheck,
            stream_ms: self.stream_ms@,
            sample_rate: self.sample_rate,
        }
    }
}

fn join3(a: &str, b: &str, c: &str) -> (r: String)
    ensures
        r@ == a@ + b@ + c@,
{
    let mut s = String::from_str(a);
    s.append(b);
    s.append(c);
    s
}

/// Reads the command line of program `p` (the first word is the program's name).
pub(crate) fn scan_args(args: &Vec<String>, p: Program) -> (r: Result<ArgState, String>)
    ensures
        match r {
            Ok(st) => scan(arg_views(args@), 1, initial_scan(), p) == Ok::<ArgScan, Seq<char>>(st@),
            Err(e) => scan(arg_views(args@), 1, initial_scan(), p) == Err::<ArgScan, Seq<char>>(e@),
        },
        r matches Ok(st) ==> st.stream_ms@.len() == 5,
{
    let ghost views = arg_views(args@);
    let mut st = ArgState {
        model: None,
        threads: 4,
        serve: false,
        healthcheck: false,
        stream_ms: vec![120u32, 160u32, 6000u32, 1000u32, 220u32],
        sample_rate: 16000,
    };
    assert(st@.stream_ms =~= initial_scan().stream_ms);
    let n = args.len();
    let mut i: usize = 1;
    if n == 0 {
        return Ok(st);
    }
    while i < n
        invariant
            n == args@.len(),
            views == arg_views(args@),
            1 <= i <= n + 1,
            st.stream_ms@.len() == 5,
            scan(views, i as int, st@, p) == scan(views, 1, initial_scan(), p),
        decreases n + 1 - i,
    {
        let a = args[i].as_str();
        assert(a@ == views[i as int]);
        let flag = flag_for(a, p);
        match flag {
            Flag::Serve => {
                st.serve = true;
                i = i + 1;
            },
            Flag::Healthcheck => {
                st.healthcheck = true;
                i = i + 1;
            },
            Flag::Help => {
                return Err(usage_text(p));
            },
            Flag::Unknown => {
                return Err(crate::text::concat_str("Unsupported argument: ", a));
            },
            _ => {
                if i + 1 >= n {
                    return Err(crate::text::concat_str("Missing value for ", a));
                }
                let v = args[i + 1].as_str();
                assert(v@ == views[i + 1]);
                match flag {
                    Flag::Model => {
                        st.model = Some(args[i + 1].clone());
                    },
                    Flag::Threads => match parse_i32(v) {
                        Some(t) => {
                            st.threads = t;
                        },
                        None => {
                            return Err(join3("Invalid ", a, " value"));
                        },
                    },
                    Flag::StreamMs(k) => match parse_u32(v) {
                        Some(x) => {
                            st.stream_ms.set(k, x);
                        },
                        None => {
                            return Err(join3("Invalid ", a, " value"));
                        },
                    },
                    _ => match parse_u32(v) {
                        Some(x) => {
                            st.sample_rate = x;
                        },
                        None => {
                            return Err(join3("Invalid ", a, " value"));
                        },
                    },
                }
                i = i + 2;
            },
        }
    }
    Ok(st)
}

pub open spec fn model_or_empty(st: ArgScan) -> Seq<char> {
    match st.model {
        Some(m) => m,
        None => Seq::empty(),
    }
}

pub open spec fn in_range(x: int, lo: int, hi: int) -> bool {
    lo <= x <= hi
}

/// The first setting that a worker refuses, as its message; none under
/// `--healthcheck`.
pub open spec fn worker_problem(st: ArgScan, p: Program) -> Option<Seq<char>> {
    let ms = st.stream_ms;
    if st.healthcheck {
        None
    } else if model_or_empty(st).len() == 0 {
        Some("--model is required unless --healthcheck is used"@)
    } else if !in_range(st.threads as int, 1, 64) {
        Some("--threads must be between 1 and 64"@)
    } else if p != Program::StreamingWorker {
        None
    } else if !in_range(ms[0] as int, 40, 1000) {
        Some("--stream-min-audio-ms must be between 40 and 1000"@)
    } else if !in_range(ms[1] as int, 40, 1500) {
        Some("--stream-decode-interval-ms must be between 40 and 1500"@)
    } else if !in_range(ms[2] as int, 800, 30000) {
        Some("--stream-max-window-ms must be between 800 and 30000"@)
    } else if !in_range(ms[3] as int, 200, 5000) {
        Some("--stream-left-context-ms must be between 200 and 5000"@)
    } else if !in_range(ms[4] as int, 80, 1200) {
        Some("--stream-stability-hold-ms must be between 80 and 1200"@)
    } else if ms[3] >= ms[2] {
        Some("--stream-left-context-ms must be less than --stream-max-window-ms"@)
    } else if ms[4] >= ms[2] {
        Some("--stream-stability-hold-ms must be less than --stream-max-window-ms"@)
    } else {
        None
    }
}

pub(crate) fn model_text(st: &ArgState) -> (r: String)
    ensures
        r@ == model_or_empty(st@),
{
    match &st.model {
        Some(m) => m.clone(),
        None => String::new(),
    }
}

pub(crate) fn worker_problem_of(st: &ArgState, p: Program) -> (r: Option<String>)
    requires
        st.stream_ms@.len() == 5,
    ensures
        match r {
            Some(e) => worker_problem(st@, p) == Some(e@),
            None => worker_problem(st@, p) is None,
        },
{
    if st.healthcheck {
        return None;
    }
    let has_model = match &st.model {
        Some(m) => m.as_str().unicode_len() > 0,
        None => false,
    };
    if !has_model {
        return Some(String::from_str("--model is required unless --healthcheck is used"));
    }
    if !(1 <= st.threads && st.threads <= 64) {
        return Some(String::from_str("--threads must be between 1 and 64"));
    }
    if p != Program::StreamingWorker {
        return None;
    }
    let min_audio = st.stream_ms[0];
    let interval = st.stream_ms[1];
    let window = st.stream_ms[2];
    let left = st.stream_ms[3];
    let hold = st.stream_ms[4];
    if !(40 <= min_audio && min_audio <= 1000) {
        Some(String::from_str("--stream-min-audio-ms must be between 40 and 1000"))
    } else if !(40 <= interval && interval <= 1500) {
        Some(String::from_str("--stream-decode-interval-ms must be between 40 and 1500"))
    } else if !(800 <= window && window <= 30000) {
        Some(String::from_str("--stream-max-window-ms must be between 800 and 30000"))
    } else if !(200 <= left && left <= 5000) {
        Some(String::from_str("--stream-left-context-ms must be between 200 and 5000"))
    } else if !(80 <= hold && hold <= 1200) {
        Some(String::from_str("--stream-stability-hold-ms must be between 80 and 1200"))
    } else if left >= window {
        Some(String::from_str("--stream-left-context-ms must be less than --stream-max-window-ms"))
    } else if hold >= window {
        Some(String::from_str("--stream-stability-hold-ms must be less than --stream-max-window-ms"))
    } else {
        None
    }
}

} // verus!
