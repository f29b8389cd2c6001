use vstd::prelude::*;
use vstd::string::*;
use crate::text::{char_is_ws, is_ws, normalize_text, push_text_piece, squeezed, string_from_chars, with_piece};

verus! {

/// The text without its leading whitespace.
pub open spec fn trim_start(s: Seq<char>) -> Seq<char>
    decreases s.len(),
{
    if s.len() > 0 && is_ws(s[0]) {
        trim_start(s.drop_first())
    } else {
        s
    }
}

/// The text without its trailing whitespace.
pub open spec fn trim_end(s: Seq<char>) -> Seq<char>
    decreases s.len(),
{
    if s.len() > 0 && is_ws(s.last()) {
        trim_end(s.drop_last())
    } else {
        s
    }
}

/// The text without leading or trailing whitespace, as `str::trim` leaves it.
pub open spec fn trimmed(s: Seq<char>) -> Seq<char> {
    trim_end(trim_start(s))
}

proof fn lemma_trim_start_skip(s: Seq<char>, i: int)
    requires
        0 <= i <= s.len(),
        forall|k: int| 0 <= k < i ==> is_ws(#[trigger] s[k]),
    ensures
        trim_start(s) == trim_start(s.subrange(i, s.len() as int)),
    decreases i,
{
    if i > 0 {
        assert(is_ws(s[0]));
        let t = s.drop_first();
        assert forall|k: int| 0 <= k < i - 1 implies is_ws(#[trigger] t[k]) by {
            assert(t[k] == s[k + 1]);
        }
        lemma_trim_start_skip(t, i - 1);
        assert(t.subrange(i - 1, t.len() as int) =~= s.subrange(i, s.len() as int));
    } else {
        assert(s.subrange(0, s.len() as int) =~= s);
    }
}

proof fn lemma_trim_end_skip(s: Seq<char>, j: int)
    requires
        0 <= j <= s.len(),
        forall|k: int| j <= k < s.len() ==> is_ws(#[trigger] s[k]),
    ensures
        trim_end(s) == trim_end(s.subrange(0, j)),
    decreases s.len() - j,
{
    if j < s.len() {
        assert(is_ws(s[s.len() - 1]));
        let t = s.drop_last();
        assert forall|k: int| j <= k < t.len() implies is_ws(#[trigger] t[k]) by {
            assert(t[k] == s[k]);
        }
        lemma_trim_end_skip(t, j);
        assert(t.subrange(0, j) =~= s.subrange(0, j));
    } else {
        assert(s.subrange(0, j) =~= s);
    }
}

/// Removes leading and trailing whitespace.
pub fn trim_text(s: &str) -> (r: String)
    ensures
        r@ == trimmed(s@),
{
    let n = s.unicode_len();
    let mut a: usize = 0;
    while a < n && char_is_ws(s.get_char(a))
        invariant
            n == s@.len(),
            a <= n,
            forall|k: int| 0 <= k < a ==> is_ws(#[trigger] s@[k]),
        decreases n - a,
    {
        a = a + 1;
    }
    proof {
        lemma_trim_start_skip(s@, a as int);
    }
    let ghost t = s@.subrange(a as int, n as int);
    assert(trim_start(t) == t);
    let mut b: usize = n;
    while b > a && char_is_ws(s.get_char(b - 1))
        invariant
            n == s@.len(),
            a <= b <= n,
            t == s@.subrange(a as int, n as int),
            forall|k: int| b <= k < n ==> is_ws(#[trigger] s@[k]),
        decreases b - a,
    {
        b = b - 1;
    }
    proof {
        assert forall|k: int| b - a <= k < t.len() implies is_ws(#[trigger] t[k]) by {
            assert(t[k] == s@[k + a]);
        }
        lemma_trim_end_skip(t, b - a);
        let u = t.subrange(0, b - a);
        if u.len() > 0 {
            assert(u.last() == s@[b - 1]);
        }
        assert(trim_end(u) == u);
    }
    let mut out: Vec<char> = Vec::new();
    let mut i: usize = a;
    while i < b
        invariant
            n == s@.len(),
            a <= i <= b <= n,
            out@ =~= s@.subrange(a as int, i as int),
        decreases b - i,
    {
        out.push(s.get_char(i));
        i = i + 1;
    }
    assert(out@ =~= t.subrange(0, b - a));
    string_from_chars(&out)
}

/// A decoded token: its text and where it ends, in samples from the start of
/// the decode window.
pub struct TimedToken {
    pub text: String,
    pub end_offset: usize,
}

pub open spec fn sat_add(a: int, b: int) -> int {
    if a + b > usize::MAX {
        usize::MAX as int
    } else {
        a + b
    }
}

pub fn saturating_add(a: usize, b: usize) -> (r: usize)
    ensures
        r == sat_add(a as int, b as int),
{
    if b > usize::MAX - a {
        usize::MAX
    } else {
        a + b
    }
}

/// Where a token ends, in absolute samples.
pub open spec fn token_end(window_start: int, t: TimedToken) -> int {
    sat_add(window_start, t.end_offset as int)
}

/// The slack around the commit watermark; none before anything was committed.
pub open spec fn effective_tolerance(committed_until: int, tolerance: int) -> int {
    if committed_until == 0 {
        0
    } else {
        tolerance
    }
}

/// Progress through the tokens of one decode.
pub struct Collected {
    pub out: Seq<char>,
    pub wrote_any: bool,
    pub newest: int,
    pub stopped: bool,
}

/// The tokens read in order: a token that ends past `cutoff` stops the reading;
/// one that ends at or before the watermark (with its tolerance) was committed
/// before and is skipped; an empty one is skipped; each other one is written,
/// trimmed, with the punctuation-aware join, and moves `newest` to its end.
pub open spec fn collected(
    toks: Seq<TimedToken>,
    window_start: int,
    committed_until: int,
    cutoff: int,
    tolerance: int,
) -> Collected
    decreases toks.len(),
{
    if toks.len() == 0 {
        Collected { out: Seq::empty(), wrote_any: false, newest: committed_until, stopped: false }
    } else {
        let c = collected(toks.drop_last(), window_start, committed_until, cutoff, tolerance);
        let t = toks.last();
        let end = token_end(window_start, t);
        let piece = trimmed(t.text@);
        if c.stopped {
            c
        } else if end > cutoff {
            Collected { stopped: true, ..c }
        } else if end <= sat_add(committed_until, effective_tolerance(committed_until, tolerance)) {
            c
        } else if piece.len() == 0 {
            c
        } else {
            Collected {
                out: with_piece(c.out, piece, c.wrote_any),
                wrote_any: true,
                newest: end,
                stopped: false,
            }
        }
    }
}

/// Extracts the newly stable text of one decode and the sample it reaches.
pub fn collect_new_stable_text(
    tokens: &Vec<TimedToken>,
    decode_window_start_sample: usize,
    committed_until_sample: usize,
    stable_cutoff_sample: usize,
    timestamp_tolerance_samples: usize,
) -> (r: (String, usize))
    ensures
        ({
            let c = collected(
                tokens@,
                decode_window_start_sample as int,
                committed_until_sample as int,
                stable_cutoff_sample as int,
                timestamp_tolerance_samples as int,
            );
            r.0@ == squeezed(c.out) && r.1 == c.newest
        }),
{
    let ghost ws = decode_window_start_sample as int;
    let ghost cu = committed_until_sample as int;
    let ghost co = stable_cutoff_sample as int;
    let ghost tol = timestamp_tolerance_samples as int;
    let mut out = String::new();
    let mut wrote_any = false;
    let mut newest_sample = committed_until_sample;
    let effective = if committed_until_sample == 0 {
        0
    } else {
        timestamp_tolerance_samples
    };
    let threshold = saturating_add(committed_until_sample, effective);
    let mut i: usize = 0;
    while i < tokens.len()
        invariant
            i <= tokens@.len(),
            ws == decode_window_start_sample as int,
            cu == committed_until_sample as int,
            co == stable_cutoff_sample as int,
            tol == timestamp_tolerance_samples as int,
            threshold == sat_add(cu, effective_tolerance(cu, tol)),
            ({
                let c = collected(tokens@.subrange(0, i as int), ws, cu, co, tol);
                !c.stopped && c.out == out@ && c.wrote_any == wrote_any && c.newest
                    == newest_sample
            }),
        decreases tokens@.len() - i,
    {
        let ghost prefix = tokens@.subrange(0, i as int + 1);
        assert(prefix.drop_last() =~= tokens@.subrange(0, i as int));
        let token = &tokens[i];
        assert(prefix.last() == tokens@[i as int]);
        assert(*token == tokens@[i as int]);
        let token_end_sample = saturating_add(decode_window_start_sample, token.end_offset);
        assert(token_end_sample == token_end(ws, prefix.last()));
        if token_end_sample > stable_cutoff_sample {
            proof {
                lemma_collected_stays_stopped(tokens@, ws, cu, co, tol, i as int + 1);
                assert(tokens@.subrange(0, tokens@.len() as int) =~= tokens@);
            }
            return (normalize_text(out.as_str()), newest_sample);
        }
        if token_end_sample > threshold {
            let piece = trim_text(token.text.as_str());
            if piece.as_str().unicode_len() > 0 {
                push_text_piece(&mut out, piece.as_str(), &mut wrote_any);
                newest_sample = token_end_sample;
            }
        }
        i = i + 1;
    }
    assert(tokens@.subrange(0, i as int) =~= tokens@);
    (normalize_text(out.as_str()), newest_sample)
}

/// Once a token past the cutoff is read, later tokens change nothing.
proof fn lemma_collected_stays_stopped(
    toks: Seq<TimedToken>,
    ws: int,
    cu: int,
    co: int,
    tol: int,
    k: int,
)
    requires
        0 < k <= toks.len(),
        collected(toks.subrange(0, k), ws, cu, co, tol).stopped,
    ensures
        collected(toks, ws, cu, co, tol) == collected(toks.subrange(0, k), ws, cu, co, tol),
    decreases toks.len() - k,
{
    if k < toks.len() {
        let p = toks.subrange(0, k + 1);
        assert(p.drop_last() =~= toks.subrange(0, k));
        lemma_collected_stays_stopped(toks, ws, cu, co, tol, k + 1);
    } else {
        assert(toks.subrange(0, k) =~= toks);
    }
}

proof fn lemma_collected_prefix_running(
    toks: Seq<TimedToken>,
    ws: int,
    cu: int,
    co: int,
    tol: int,
    j: int,
)
    requires
        0 <= j <= toks.len(),
        forall|i: int| 0 <= i < j ==> token_end(ws, #[trigger] toks[i]) <= co,
    ensures
        !collected(toks.subrange(0, j), ws, cu, co, tol).stopped,
    decreases j,
{
    if j > 0 {
        let p = toks.subrange(0, j);
        assert(p.drop_last() =~= toks.subrange(0, j - 1));
        assert(p.last() == toks[j - 1]);
        lemma_collected_prefix_running(toks, ws, cu, co, tol, j - 1);
    }
}

/// The sample a decode reaches is the watermark it started from or lies at or
/// before the cutoff.
pub proof fn lemma_collected_newest(toks: Seq<TimedToken>, ws: int, cu: int, co: int, tol: int)
    ensures
        ({
            let c = collected(toks, ws, cu, co, tol);
            c.newest == cu || c.newest <= co
        }),
    decreases toks.len(),
{
    if toks.len() > 0 {
        lemma_collected_newest(toks.drop_last(), ws, cu, co, tol);
    }
}

/// The stability hold: what one decode commits comes only from the tokens
/// before the first one that ends past the cutoff (the last `k` tokens, here
/// from index `k` on, change nothing), and the watermark it reaches is never
/// past the cutoff.
pub proof fn lemma_stability_hold(
    toks: Seq<TimedToken>,
    ws: int,
    cu: int,
    co: int,
    tol: int,
    k: int,
)
    requires
        0 <= k < toks.len(),
        forall|i: int| 0 <= i < k ==> token_end(ws, #[trigger] toks[i]) <= co,
        token_end(ws, toks[k]) > co,
    ensures
        collected(toks, ws, cu, co, tol).out == collected(toks.subrange(0, k), ws, cu, co, tol).out,
        collected(toks, ws, cu, co, tol).newest == collected(
            toks.subrange(0, k),
            ws,
            cu,
            co,
            tol,
        ).newest,
        collected(toks, ws, cu, co, tol).newest == cu || collected(toks, ws, cu, co, tol).newest
            <= co,
{
    lemma_collected_prefix_running(toks, ws, cu, co, tol, k);
    let p = toks.subrange(0, k + 1);
    assert(p.drop_last() =~= toks.subrange(0, k));
    assert(p.last() == toks[k]);
    assert(collected(p, ws, cu, co, tol).stopped);
    lemma_collected_stays_stopped(toks, ws, cu, co, tol, k + 1);
    lemma_collected_newest(toks, ws, cu, co, tol);
}

} // verus!
