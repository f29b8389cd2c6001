use vstd::prelude::*;
use crate::config::{
    arg_views, initial_scan, model_or_empty, model_text, scan, scan_args, worker_problem,
    worker_problem_of, Program,
};

verus! {

/// Command-line settings of the offline transcription worker.
pub struct Config {
    pub model_path: String,
    pub threads: i32,
    pub serve: bool,
    pub healthcheck: bool,
}

/// Reads the offline worker's command line (`args[0]` is the program name):
/// `--model PATH`, `--threads N`, `--serve`, `--healthcheck`, `-h`/`--help`.
/// Unless `--healthcheck` is given, a model path is required and the thread
/// count must lie in 1..=64.
pub fn parse_args(args: &Vec<String>) -> (r: Result<Config, String>)
    ensures
        match scan(arg_views(args@), 1, initial_scan(), Program::OfflineWorker) {
            Err(e) => r matches Err(m) && m@ == e,
            Ok(st) => match worker_problem(st, Program::OfflineWorker) {
                Some(e) => r matches Err(m) && m@ == e,
                None => r matches Ok(c) && c.model_path@ == model_or_empty(st) && c.threads
                    == st.threads && c.serve == st.serve && c.healthcheck == st.healthcheck,
            },
        },
{
    let st = match scan_args(args, Program::OfflineWorker) {
        Ok(st) => st,
        Err(e) => return Err(e),
    };
    match worker_problem_of(&st, Program::OfflineWorker) {
        Some(e) => Err(e),
        None => Ok(
            Config {
                model_path: model_text(&st),
                threads: st.threads,
                serve: st.serve,
                healthcheck: st.healthcheck,
            },
        ),
    }
}

} // verus!
