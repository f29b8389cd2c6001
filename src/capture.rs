use vstd::prelude::*;
use crate::config::{arg_views, initial_scan, scan, scan_args, Program};

verus! {

/// Command-line settings of the capture program.
pub struct Config {
    pub target_sample_rate: u32,
}

/// Reads the capture program's command line (`args[0]` is the program name):
/// `--sample-rate N`, which must lie in 8000..=96000, and `-h`/`--help`.
pub fn parse_config(args: &Vec<String>) -> (r: Result<Config, String>)
    ensures
        match scan(arg_views(args@), 1, initial_scan(), Program::Capture) {
            Err(e) => r matches Err(m) && m@ == e,
            Ok(st) => if 8000 <= st.sample_rate <= 96000 {
                r matches Ok(c) && c.target_sample_rate == st.sample_rate
            } else {
                r matches Err(m) && m@ == "sample rate must be between 8000 and 96000"@
            },
        },
{
    let st = match scan_args(args, Program::Capture) {
        Ok(st) => st,
        Err(e) => return Err(e),
    };
    if !(8000 <= st.sample_rate && st.sample_rate <= 96000) {
        return Err(String::from_str("sample rate must be between 8000 and 96000"));
    }
    Ok(Config { target_sample_rate: st.sample_rate })
}

/// The device buffer size, in frames, asked for at input rate `input_rate`:
/// about 5 ms, kept within 64..=1024.
pub fn buffer_frames(input_rate: u32) -> (r: u32)
    ensures
        r == if input_rate / 200 < 64 {
            64
        } else if input_rate / 200 > 1024 {
            1024
        } else {
            input_rate / 200
        },
{
    let f = input_rate / 200;
    if f < 64 {
        64
    } else if f > 1024 {
        1024
    } else {
        f
    }
}

/// One output sample of the resampler, by linear interpolation: `a + (b - a) *
/// frac_num / target_rate`. On the pass-through path `a == b` and `frac_num == 0`.
pub struct Tap<S> {
    pub a: S,
    pub b: S,
    pub frac_num: u64,
}

/// How many taps are read from `len` carried samples from position `p / rt`
/// on, a step of `ri / rt` at a time: one for each position with the sample
/// after it retained, that is each `p + k * ri < (len - 1) * rt`.
pub open spec fn tap_count(len: int, p: int, ri: int, rt: int) -> int {
    let room = (len - 1) * rt - p;
    if room > 0 {
        (room + ri - 1) / ri
    } else {
        0
    }
}

/// The tap at position `q / rt`.
pub open spec fn tap_at<S>(carry: Seq<S>, q: int, rt: int) -> Tap<S> {
    Tap { a: carry[q / rt], b: carry[q / rt + 1], frac_num: (q % rt) as u64 }
}

/// The taps read from `carry` from position `p / rt` on.
pub open spec fn taps_from<S>(carry: Seq<S>, p: int, ri: int, rt: int) -> Seq<Tap<S>> {
    Seq::new(tap_count(carry.len() as int, p, ri, rt) as nat, |k: int| tap_at(carry, p + k * ri, rt))
}

/// `k` is the number of steps of `ri` from `p` that stay below `limit`.
proof fn lemma_tap_count_exact(len: int, p: int, ri: int, rt: int, k: int)
    requires
        ri > 0,
        rt > 0,
        k >= 0,
        p + k * ri >= (len - 1) * rt,
        k == 0 || p + (k - 1) * ri < (len - 1) * rt,
    ensures
        tap_count(len, p, ri, rt) == k,
{
    let room = (len - 1) * rt - p;
    if room > 0 {
        assert(k > 0);
        assert(k * ri >= room);
        assert((k - 1) * ri < room);
        assert((room + ri - 1) / ri == k) by (nonlinear_arith)
            requires
                ri > 0,
                k * ri >= room,
                (k - 1) * ri < room,
                room > 0,
        {
            assert(room + ri - 1 >= k * ri);
            assert(room + ri - 1 < (k + 1) * ri);
        }
    } else {
        if k > 0 {
            assert((k - 1) * ri >= 0) by (nonlinear_arith)
                requires
                    k >= 1,
                    ri > 0,
            ;
        }
    }
}

/// Converts a stream of samples at one rate to another by linear
/// interpolation, carrying the samples the next interpolation needs and the
/// fractional read position from call to call. The position is held as
/// `position_num / target_rate` input samples.
pub struct LinearResampler<S> {
    input_rate: u32,
    target_rate: u32,
    position_num: u128,
    carry: Vec<S>,
    passthrough: bool,
}

impl<S> LinearResampler<S> {
    #[verifier::type_invariant]
    spec fn well_formed(self) -> bool {
        &&& self.input_rate > 0
        &&& self.target_rate > 0
        &&& self.passthrough == (self.input_rate == self.target_rate)
    }

    pub closed spec fn input_rate(self) -> u32 {
        self.input_rate
    }

    pub closed spec fn target_rate(self) -> u32 {
        self.target_rate
    }

    /// The read position, in units of `1 / target_rate` input samples.
    pub closed spec fn position(self) -> int {
        self.position_num as int
    }

    /// The input samples retained for the next interpolation.
    pub closed spec fn carried(self) -> Seq<S> {
        self.carry@
    }
}

impl<S: Copy> LinearResampler<S> {
    pub fn new(input_rate: u32, target_rate: u32) -> (r: Self)
        requires
            input_rate > 0,
            target_rate > 0,
        ensures
            r.input_rate() == input_rate,
            r.target_rate() == target_rate,
            r.position() == 0,
            r.carried() == Seq::<S>::empty(),
    {
        LinearResampler {
            input_rate,
            target_rate,
            position_num: 0,
            carry: Vec::new(),
            passthrough: input_rate == target_rate,
        }
    }

    /// Resamples one block, appending to `out`. At equal rates every input
    /// sample passes through unchanged. Otherwise the block joins the carried
    /// samples, a tap is read at each position while the next sample is there,
    /// and the samples before the position are dropped once the position
    /// passes them (all of them where it passes the last one), so at most one
    /// sample is carried to the next block.
    pub fn process(&mut self, input: &[S], out: &mut Vec<Tap<S>>)
        ensures
            final(self).input_rate() == old(self).input_rate(),
            final(self).target_rate() == old(self).target_rate(),
            input@.len() == 0 ==> *final(out) == *old(out) && *final(self) == *old(self),
            old(self).input_rate() == old(self).target_rate() ==> final(out)@ == old(out)@
                + input@.map_values(|x: S| Tap { a: x, b: x, frac_num: 0 }),
            old(self).input_rate() == old(self).target_rate() ==> final(self).carried() == old(
                self,
            ).carried() && final(self).position() == old(self).position(),
            old(self).input_rate() != old(self).target_rate() && input@.len() > 0 ==> final(out)@
                == old(out)@ + taps_from(
                old(self).carried() + input@,
                old(self).position(),
                old(self).input_rate() as int,
                old(self).target_rate() as int,
            ),
            old(self).input_rate() != old(self).target_rate() && input@.len() > 0 ==> ({
                let all = old(self).carried() + input@;
                let ri = old(self).input_rate() as int;
                let rt = old(self).target_rate() as int;
                let q = old(self).position() + tap_count(all.len() as int, old(self).position(), ri, rt)
                    * ri;
                let d = q / rt;
                &&& if d <= all.len() {
                    final(self).carried() == all.subrange(d, all.len() as int) && final(self).position()
                        == q - d * rt
                } else {
                    final(self).carried() == Seq::<S>::empty() && final(self).position() == q
                        - all.len() * rt
                }
                &&& final(self).carried().len() <= 1
            }),
    {
        proof {
            use_type_invariant(&*self);
        }
        if input.len() == 0 {
            return;
        }
        if self.passthrough {
            let mut i: usize = 0;
            let ghost start = out@;
            while i < input.len()
                invariant
                    i <= input@.len(),
                    out@ =~= start + input@.subrange(0, i as int).map_values(
                        |x: S| Tap { a: x, b: x, frac_num: 0 },
                    ),
                decreases input@.len() - i,
            {
                out.push(Tap { a: input[i], b: input[i], frac_num: 0 });
                i = i + 1;
            }
            assert(input@.subrange(0, input@.len() as int) =~= input@);
            return;
        }
        let mut carry: Vec<S> = Vec::new();
        let mut j: usize = 0;
        while j < self.carry.len()
            invariant
                j <= self.carry@.len(),
                carry@ =~= self.carry@.subrange(0, j as int),
            decreases self.carry@.len() - j,
        {
            carry.push(self.carry[j]);
            j = j + 1;
        }
        let mut i: usize = 0;
        while i < input.len()
            invariant
                i <= input@.len(),
                carry@ =~= self.carry@ + input@.subrange(0, i as int),
            decreases input@.len() - i,
        {
            carry.push(input[i]);
            i = i + 1;
        }
        assert(input@.subrange(0, input@.len() as int) =~= input@);
        let ri = self.input_rate as u128;
        let rt = self.target_rate as u128;
        let n = carry.len();
        let ghost all = carry@;
        let ghost start = out@;
        let ghost start_pos = self.position_num as int;
        let ghost mut k: int = 0;
        while self.position_num / rt < (n - 1) as u128
            invariant
                n == all.len(),
                n >= 1,
                carry@ == all,
                ri == self.input_rate,
                rt == self.target_rate,
                ri > 0,
                rt > 0,
                self.input_rate == old(self).input_rate,
                self.target_rate == old(self).target_rate,
                self.passthrough == old(self).passthrough,
                !self.passthrough,
                self.passthrough == (self.input_rate == self.target_rate),
                k >= 0,
                self.position_num == start_pos + k * ri,
                k == 0 || start_pos + (k - 1) * ri < (n - 1) * rt,
                out@ =~= start + Seq::new(k as nat, |j: int| tap_at(all, start_pos + j * ri, rt as int)),
            decreases (n - 1) * rt + ri - self.position_num,
        {
            let pos = self.position_num;
            let index = (pos / rt) as usize;
            proof {
                assert(pos < (n - 1) * rt) by (nonlinear_arith)
                    requires
                        pos / rt + 1 < n,
                        rt > 0,
                {
                    assert(pos < (pos / rt + 1) * rt);
                }
            }
            proof {
                assert((n - 1) * rt < 0x1_0000_0000_0000_0000_0000_0000) by (nonlinear_arith)
                    requires
                        n <= usize::MAX,
                        rt <= u32::MAX,
                ;
            }
            let a = carry[index];
            let b = carry[index + 1];
            out.push(Tap { a, b, frac_num: (pos % rt) as u64 });
            self.position_num = pos + ri;
            proof {
                assert(start_pos + (k + 1) * ri == start_pos + k * ri + ri) by (nonlinear_arith);
                assert(tap_at(all, start_pos + k * ri, rt as int) == Tap { a, b, frac_num: (pos % rt) as u64 });
                k = k + 1;
            }
        }
        proof {
            {
                let q = self.position_num as int;
                assert(q >= (n - 1) * rt) by (nonlinear_arith)
                    requires
                        q / (rt as int) + 1 >= n,
                        rt > 0,
                        q >= 0,
                {
                    assert(q >= (q / (rt as int)) * rt);
                }
                lemma_tap_count_exact(n as int, start_pos, ri as int, rt as int, k);
                assert(out@ =~= start + taps_from(all, start_pos, ri as int, rt as int));
            }
        }
        let drop_count = self.position_num / rt;
        assert(carry@ == all);
        proof {
            let q = self.position_num as int;
            assert(drop_count * rt <= q) by (nonlinear_arith)
                requires
                    drop_count == q / (rt as int),
                    rt > 0,
                    q >= 0,
            {
                assert(q == (q / (rt as int)) * rt + q % (rt as int));
            }
        }
        proof {
            let q = self.position_num as int;
            assert(drop_count + 1 >= n) by (nonlinear_arith)
                requires
                    drop_count == q / (rt as int),
                    q >= (n - 1) * rt,
                    rt > 0,
            {
                assert(q < (q / (rt as int) + 1) * rt);
            }
        }
        if drop_count <= n as u128 {
            let rest = carry.split_off(drop_count as usize);
            self.carry = rest;
            self.position_num = self.position_num - drop_count * rt;
        } else {
            proof {
                assert(n * rt <= drop_count * rt) by (nonlinear_arith)
                    requires
                        n <= drop_count,
                        rt > 0,
                ;
            }
            self.carry = Vec::new();
            self.position_num = self.position_num - n as u128 * rt;
        }
    }
}

/// On a fresh resampler that converts down (or keeps the rate), `n` input
/// samples give `n * rt / ri` output samples, rounded down, give or take one.
pub proof fn lemma_output_length(n: int, ri: int, rt: int)
    requires
        n >= 0,
        0 < rt <= ri,
    ensures
        n * rt / ri - 1 <= tap_count(n, 0, ri, rt) <= n * rt / ri + 1,
{
    let c = tap_count(n, 0, ri, rt);
    let f = n * rt / ri;
    let room = (n - 1) * rt;
    assert(f * ri <= n * rt < (f + 1) * ri) by (nonlinear_arith)
        requires
            f == n * rt / ri,
            ri > 0,
    {
        assert(n * rt == f * ri + (n * rt) % ri);
    }
    if room > 0 {
        assert(c * ri >= room && (c - 1) * ri < room) by (nonlinear_arith)
            requires
                c == (room + ri - 1) / ri,
                ri > 0,
                room > 0,
        {
            assert(room + ri - 1 == c * ri + (room + ri - 1) % ri);
        }
        assert(c <= f + 1) by (nonlinear_arith)
            requires
                (c - 1) * ri < room,
                room == (n - 1) * rt,
                (f + 1) * ri > n * rt,
                rt > 0,
                ri > 0,
        {
            assert((c - 1) * ri < n * rt);
            assert((c - 1) * ri < (f + 1) * ri);
        }
        assert(c >= f - 1) by (nonlinear_arith)
            requires
                c * ri >= room,
                room == (n - 1) * rt,
                f * ri <= n * rt,
                rt <= ri,
                ri > 0,
        {
            assert((c + 1) * ri >= n * rt);
            assert((c + 1) * ri >= f * ri);
        }
    } else {
        assert(n <= 1) by (nonlinear_arith)
            requires
                (n - 1) * rt <= 0,
                rt > 0,
        ;
        assert(n * rt <= ri) by (nonlinear_arith)
            requires
                0 <= n <= 1,
                0 < rt <= ri,
        ;
        assert(f <= 1) by (nonlinear_arith)
            requires
                f * ri <= ri,
                ri > 0,
        ;
        assert(f >= 0) by (nonlinear_arith)
            requires
                f == n * rt / ri,
                n >= 0,
                rt > 0,
                ri > 0,
        ;
    }
}

} // verus!
