//! The delay engine: a fixed-capacity circular buffer of fixed-point
//! samples, a write cursor, and the per-sample mix/feedback step.
//!
//! The buffer is allocated once, at construction, and never reallocated:
//! the delay time is changed at runtime by shrinking or growing the
//! *active window* `[0, active_length)` of the buffer that the cursor
//! loops through, so the audio path stays allocation-free. Every derived
//! index is clamped before use, so no sequence of host-supplied parameter
//! values can drive an access out of bounds.

use vstd::prelude::*;

use crate::fixed::{
    lemma_mul_fixed_one, lemma_mul_fixed_zero, mul_fixed, mul_fixed_spec, sat_add, sat_add_spec,
    SCALE,
};
use crate::params::ParamSnapshot;

verus! {

/// Samples per second assumed by the delay-time conversion.
pub const SAMPLE_RATE: i32 = 44100;

/// Buffer capacity of a default engine: a little over ten seconds at
/// `SAMPLE_RATE`.
pub const DEFAULT_CAPACITY: usize = 441010;

/// Number of delay-line samples asked for by a fixed-point delay time in
/// seconds: `delay_time * SAMPLE_RATE / SCALE`, rounded to nearest, and
/// zero for a non-positive delay time.
pub open spec fn delay_samples_spec(delay_time: int) -> int {
    if delay_time <= 0 {
        0
    } else {
        (delay_time * SAMPLE_RATE as int + SCALE as int / 2) / SCALE as int
    }
}

/// The portion of the buffer actually used as the delay loop: the
/// requested sample count clamped into `[1, capacity]`.
pub open spec fn active_len_spec(capacity: int, delay_samples: int) -> int
    recommends
        capacity >= 1,
{
    if delay_samples < 1 {
        1
    } else if delay_samples > capacity {
        capacity
    } else {
        delay_samples
    }
}

/// The output sample: `(input * dry + delayed * wet) * amplitude`, in
/// saturating fixed-point arithmetic.
pub open spec fn mix_spec(input: int, delayed: int, dry: int, wet: int, amplitude: int) -> int {
    mul_fixed_spec(
        sat_add_spec(mul_fixed_spec(input, dry), mul_fixed_spec(delayed, wet)),
        amplitude,
    )
}

/// The value re-injected into the delay line:
/// `(input + delayed) * feedback`, in saturating fixed-point arithmetic.
pub open spec fn feedback_spec(input: int, delayed: int, feedback: int) -> int {
    mul_fixed_spec(sat_add_spec(input, delayed), feedback)
}

/// The cursor after one step: one slot forward, wrapping to the start of
/// the active window; a cursor left at or past a freshly shrunk window
/// also wraps to zero rather than index out of bounds.
pub open spec fn advance_spec(cursor: int, active: int) -> int {
    if cursor + 1 >= active {
        0
    } else {
        cursor + 1
    }
}

/// One step of the delay loop as a pure function of the engine model:
/// the buffer, the cursor and the output sample that follow from one
/// input sample under one parameter snapshot.
pub open spec fn step_spec(buf: Seq<int>, cursor: int, input: int, p: ParamSnapshot) -> (Seq<
    int,
>, int, int)
    recommends
        1 <= buf.len(),
        0 <= cursor < buf.len(),
{
    let active = active_len_spec(buf.len() as int, delay_samples_spec(p.delay_time as int));
    let delayed = buf[cursor];
    (
        buf.update(cursor, feedback_spec(input, delayed, p.feedback as int)),
        advance_spec(cursor, active),
        mix_spec(input, delayed, p.dry as int, p.wet as int, p.amplitude as int),
    )
}

/// The engine model and the outputs after a whole block of inputs is
/// processed against one parameter snapshot, first sample first.
pub open spec fn run_spec(buf: Seq<int>, cursor: int, inputs: Seq<int>, p: ParamSnapshot) -> (Seq<
    int,
>, int, Seq<int>)
    decreases inputs.len(),
{
    if inputs.len() == 0 {
        (buf, cursor, Seq::empty())
    } else {
        let first = step_spec(buf, cursor, inputs[0], p);
        let rest = run_spec(first.0, first.1, inputs.drop_first(), p);
        (rest.0, rest.1, seq![first.2] + rest.2)
    }
}

/// Running a block and then one more sample is one step made from the
/// state the block left behind.
pub proof fn lemma_run_snoc(buf: Seq<int>, cursor: int, inputs: Seq<int>, x: int, p: ParamSnapshot)
    ensures
        run_spec(buf, cursor, inputs.push(x), p).0 == step_spec(
            run_spec(buf, cursor, inputs, p).0,
            run_spec(buf, cursor, inputs, p).1,
            x,
            p,
        ).0,
        run_spec(buf, cursor, inputs.push(x), p).1 == step_spec(
            run_spec(buf, cursor, inputs, p).0,
            run_spec(buf, cursor, inputs, p).1,
            x,
            p,
        ).1,
        run_spec(buf, cursor, inputs.push(x), p).2 == run_spec(buf, cursor, inputs, p).2.push(
            step_spec(run_spec(buf, cursor, inputs, p).0, run_spec(buf, cursor, inputs, p).1, x, p).2,
        ),
    decreases inputs.len(),
{
    if inputs.len() == 0 {
        let first = step_spec(buf, cursor, x, p);
        assert(inputs.push(x)[0] == x);
        assert(inputs.push(x).drop_first() =~= Seq::<int>::empty());
        assert(run_spec(first.0, first.1, Seq::<int>::empty(), p).2 == Seq::<int>::empty());
        assert(run_spec(buf, cursor, inputs.push(x), p).2 == seq![first.2] + Seq::<int>::empty());
        assert(seq![first.2] + Seq::<int>::empty() =~= run_spec(buf, cursor, inputs, p).2.push(
            first.2,
        ));
    } else {
        let first = step_spec(buf, cursor, inputs[0], p);
        assert(inputs.push(x)[0] == inputs[0]);
        assert(inputs.push(x).drop_first() =~= inputs.drop_first().push(x));
        lemma_run_snoc(first.0, first.1, inputs.drop_first(), x, p);
        assert(run_spec(buf, cursor, inputs.push(x), p).2 =~= run_spec(buf, cursor, inputs, p).2.push(
            step_spec(
                run_spec(buf, cursor, inputs, p).0,
                run_spec(buf, cursor, inputs, p).1,
                x,
                p,
            ).2,
        ));
    }
}

/// A feedback delay line over fixed-point samples.
pub struct DelayEngine {
    buffer: Vec<i32>,
    write_index: usize,
}

impl DelayEngine {
    /// The stored samples, as unbounded integers.
    pub closed spec fn buf(&self) -> Seq<int> {
        self.buffer@.map_values(|s: i32| s as int)
    }

    /// The write cursor.
    pub closed spec fn cursor(&self) -> int {
        self.write_index as int
    }

    /// Structural invariant: a non-empty buffer and a cursor inside it.
    pub open spec fn wf(&self) -> bool {
        1 <= self.buf().len() && 0 <= self.cursor() < self.buf().len()
    }

    /// A fresh engine: `capacity` zeroed samples and the cursor at the
    /// start.
    pub fn with_capacity(capacity: usize) -> (engine: Self)
        requires
            capacity >= 1,
        ensures
            engine.wf(),
            engine.buf() == Seq::new(capacity as nat, |j: int| 0int),
            engine.cursor() == 0,
    {
        let mut buffer: Vec<i32> = Vec::new();
        let mut k: usize = 0;
        while k < capacity
            invariant
                k <= capacity,
                buffer@.len() == k as int,
                forall|j: int| 0 <= j < k ==> buffer@[j] == 0i32,
            decreases capacity - k,
        {
            buffer.push(0i32);
            k = k + 1;
        }
        let engine = DelayEngine { buffer, write_index: 0 };
        proof {
            assert(engine.buf() =~= Seq::new(capacity as nat, |j: int| 0int));
        }
        engine
    }

    /// A fresh engine with the default ten-second capacity.
    pub fn new() -> (engine: Self)
        ensures
            engine.wf(),
            engine.buf() == Seq::new(DEFAULT_CAPACITY as nat, |j: int| 0int),
            engine.cursor() == 0,
    {
        Self::with_capacity(DEFAULT_CAPACITY)
    }

    /// Buffer capacity in samples; fixed for the life of the engine.
    pub fn capacity(&self) -> (n: usize)
        ensures
            n as int == self.buf().len(),
    {
        self.buffer.len()
    }

    /// Where the next feedback sample will be written.
    pub fn cursor_position(&self) -> (i: usize)
        ensures
            i as int == self.cursor(),
    {
        self.write_index
    }

    /// Sample count asked for by a fixed-point delay time in seconds.
    pub fn delay_samples(delay_time: i32) -> (n: u64)
        ensures
            n as int == delay_samples_spec(delay_time as int),
    {
        if delay_time <= 0 {
            0
        } else {
            proof {
                assert(delay_time as u64 * SAMPLE_RATE as u64 <= 2147483647u64 * 44100u64)
                    by (nonlinear_arith)
                    requires
                        delay_time as u64 <= 2147483647u64,
                        SAMPLE_RATE as u64 == 44100u64;
            }
            (delay_time as u64 * SAMPLE_RATE as u64 + (SCALE / 2) as u64) / SCALE as u64
        }
    }

    /// The active window derived from a delay time: always within
    /// `[1, capacity]`, whatever the host supplied.
    pub fn active_length(&self, delay_time: i32) -> (n: usize)
        requires
            self.wf(),
        ensures
            n as int == active_len_spec(self.buf().len() as int, delay_samples_spec(delay_time as int)),
            1 <= n as int <= self.buf().len(),
    {
        let wanted: u64 = Self::delay_samples(delay_time);
        let capacity: usize = self.buffer.len();
        if wanted < 1 {
            1
        } else if wanted > capacity as u64 {
            capacity
        } else {
            wanted as usize
        }
    }

    /// One step of the delay loop, against one parameter snapshot:
    /// read the sample written one active-window length ago, mix it with
    /// the live input, re-inject the feedback value at the cursor, and
    /// advance the cursor within the active window.
    pub fn process_sample(&mut self, input: i32, p: &ParamSnapshot) -> (out: i32)
        requires
            old(self).wf(),
        ensures
            final(self).wf(),
            final(self).buf().len() == old(self).buf().len(),
            out as int == mix_spec(
                input as int,
                old(self).buf()[old(self).cursor()],
                p.dry as int,
                p.wet as int,
                p.amplitude as int,
            ),
            final(self).buf() == old(self).buf().update(
                old(self).cursor(),
                feedback_spec(input as int, old(self).buf()[old(self).cursor()], p.feedback as int),
            ),
            final(self).cursor() == advance_spec(
                old(self).cursor(),
                active_len_spec(old(self).buf().len() as int, delay_samples_spec(p.delay_time as int)),
            ),
            final(self).cursor() < active_len_spec(
                old(self).buf().len() as int,
                delay_samples_spec(p.delay_time as int),
            ),
    {
        let active: usize = self.active_length(p.delay_time);
        let delayed: i32 = self.buffer[self.write_index];
        let out: i32 = mul_fixed(sat_add(mul_fixed(input, p.dry), mul_fixed(delayed, p.wet)), p.amplitude);
        let fed_back: i32 = mul_fixed(sat_add(input, delayed), p.feedback);
        let ghost pre = *self;
        self.buffer[self.write_index] = fed_back;
        proof {
            assert(self.buf() =~= pre.buf().update(pre.cursor(), fed_back as int));
        }
        if self.write_index >= active - 1 {
            self.write_index = 0;
        } else {
            self.write_index = self.write_index + 1;
        }
        out
    }

    /// Process a whole block of input samples against one parameter
    /// snapshot, as the host's per-block callback does, returning the
    /// output samples in order.
    pub fn process_block(&mut self, input: &Vec<i32>, p: &ParamSnapshot) -> (output: Vec<i32>)
        requires
            old(self).wf(),
        ensures
            final(self).wf(),
            final(self).buf().len() == old(self).buf().len(),
            output@.len() == input@.len(),
            final(self).buf() == run_spec(
                old(self).buf(),
                old(self).cursor(),
                input@.map_values(|s: i32| s as int),
                *p,
            ).0,
            final(self).cursor() == run_spec(
                old(self).buf(),
                old(self).cursor(),
                input@.map_values(|s: i32| s as int),
                *p,
            ).1,
            output@.map_values(|s: i32| s as int) == run_spec(
                old(self).buf(),
                old(self).cursor(),
                input@.map_values(|s: i32| s as int),
                *p,
            ).2,
    {
        let ghost buf0 = self.buf();
        let ghost cursor0 = self.cursor();
        let ghost inputs = input@.map_values(|s: i32| s as int);
        let mut output: Vec<i32> = Vec::new();
        let mut k: usize = 0;
        while k < input.len()
            invariant
                k as int <= inputs.len(),
                inputs == input@.map_values(|s: i32| s as int),
                inputs.len() == input@.len(),
                self.wf(),
                self.buf().len() == buf0.len(),
                output@.len() == k as int,
                self.buf() == run_spec(buf0, cursor0, inputs.take(k as int), *p).0,
                self.cursor() == run_spec(buf0, cursor0, inputs.take(k as int), *p).1,
                output@.map_values(|s: i32| s as int) == run_spec(
                    buf0,
                    cursor0,
                    inputs.take(k as int),
                    *p,
                ).2,
            decreases inputs.len() - k as int,
        {
            proof {
                lemma_run_snoc(buf0, cursor0, inputs.take(k as int), inputs[k as int], *p);
            }
            let out = self.process_sample(input[k], p);
            output.push(out);
            proof {
                assert(inputs.take(k as int + 1) =~= inputs.take(k as int).push(inputs[k as int]));
                assert(output@.map_values(|s: i32| s as int) =~= run_spec(
                    buf0,
                    cursor0,
                    inputs.take(k as int + 1),
                    *p,
                ).2);
            }
            k = k + 1;
        }
        proof {
            assert(inputs.take(inputs.len() as int) =~= inputs);
        }
        output
    }
}

/// Whatever delay time the host supplies, the active window derived from
/// it lies in `[1, capacity]`.
pub proof fn lemma_active_length_in_range(capacity: int, delay_time: int)
    requires
        capacity >= 1,
    ensures
        1 <= active_len_spec(capacity, delay_samples_spec(delay_time)) <= capacity,
{
}

/// A delay time that asks for the buffer's capacity or more clamps to
/// exactly the capacity, never past it.
pub proof fn lemma_capacity_clamped(capacity: int, delay_time: int)
    requires
        capacity >= 1,
        delay_samples_spec(delay_time) >= capacity,
    ensures
        active_len_spec(capacity, delay_samples_spec(delay_time)) == capacity,
{
}

/// Over any block, the buffer keeps its length, every output sample is
/// produced, and the cursor never leaves the buffer; after at least one
/// step it lies inside the active window `[0, active_length)`.
pub proof fn lemma_run_cursor_in_bounds(buf: Seq<int>, cursor: int, inputs: Seq<int>, p: ParamSnapshot)
    requires
        1 <= buf.len(),
        0 <= cursor < buf.len(),
    ensures
        run_spec(buf, cursor, inputs, p).0.len() == buf.len(),
        run_spec(buf, cursor, inputs, p).2.len() == inputs.len(),
        0 <= run_spec(buf, cursor, inputs, p).1 < buf.len(),
        inputs.len() == 0 ==> run_spec(buf, cursor, inputs, p).1 == cursor,
        inputs.len() > 0 ==> run_spec(buf, cursor, inputs, p).1 < active_len_spec(
            buf.len() as int,
            delay_samples_spec(p.delay_time as int),
        ),
    decreases inputs.len(),
{
    if inputs.len() > 0 {
        let first = step_spec(buf, cursor, inputs[0], p);
        lemma_run_cursor_in_bounds(first.0, first.1, inputs.drop_first(), p);
    }
}

/// The engine is deterministic: from equal buffers, cursors, inputs and
/// parameter snapshots, a run produces equal buffers, cursors and output
/// samples.
pub proof fn lemma_run_deterministic(
    buf1: Seq<int>,
    cursor1: int,
    inputs1: Seq<int>,
    p1: ParamSnapshot,
    buf2: Seq<int>,
    cursor2: int,
    inputs2: Seq<int>,
    p2: ParamSnapshot,
)
    requires
        buf1 == buf2,
        cursor1 == cursor2,
        inputs1 == inputs2,
        p1 == p2,
    ensures
        run_spec(buf1, cursor1, inputs1, p1) == run_spec(buf2, cursor2, inputs2, p2),
{
}

/// The k-th echo of an impulse: the impulse with the feedback gain
/// applied to it k times in fixed point.
pub open spec fn echo_spec(impulse: int, feedback: int, k: nat) -> int
    decreases k,
{
    if k == 0 {
        impulse
    } else {
        mul_fixed_spec(echo_spec(impulse, feedback, (k - 1) as nat), feedback)
    }
}

/// Every echo of an in-range impulse stays in the `i32` range.
pub proof fn lemma_echo_in_range(impulse: int, feedback: int, k: nat)
    requires
        i32::MIN as int <= impulse <= i32::MAX as int,
    ensures
        i32::MIN as int <= echo_spec(impulse, feedback, k) <= i32::MAX as int,
    decreases k,
{
    if k > 0 {
        lemma_echo_in_range(impulse, feedback, (k - 1) as nat);
    }
}

/// The expected output at position `j` of an impulse response with
/// active window `active`: silence, except the k-th echo at the k-th
/// multiple of the window length.
pub open spec fn impulse_out_spec(impulse: int, feedback: int, active: int, j: int) -> int
    recommends
        active >= 1,
{
    if j > 0 && j % active == 0 {
        echo_spec(impulse, feedback, (j / active) as nat)
    } else {
        0
    }
}

/// The impulse response: over a zeroed buffer, with no dry signal and
/// full wet level and amplitude, an impulse followed by silence sounds
/// as silence except at each multiple of the active window length `n`,
/// where the next echo `echo_spec` of the impulse appears; meanwhile the
/// buffer carries exactly the echo to come in its first cell and the
/// cursor keeps circling the active window.
pub proof fn lemma_impulse_response(buf: Seq<int>, inputs: Seq<int>, p: ParamSnapshot, n: int)
    requires
        1 <= buf.len(),
        forall|j: int| 0 <= j < buf.len() ==> buf[j] == 0,
        1 <= inputs.len(),
        i32::MIN as int <= inputs[0] <= i32::MAX as int,
        forall|j: int| 1 <= j < inputs.len() ==> inputs[j] == 0,
        p.dry == 0i32,
        p.wet == SCALE,
        p.amplitude == SCALE,
        n == active_len_spec(buf.len() as int, delay_samples_spec(p.delay_time as int)),
    ensures
        run_spec(buf, 0, inputs, p).0 == buf.update(
            0,
            echo_spec(inputs[0], p.feedback as int, ((inputs.len() - 1) as int / n + 1) as nat),
        ),
        run_spec(buf, 0, inputs, p).1 == inputs.len() as int % n,
        run_spec(buf, 0, inputs, p).2.len() == inputs.len(),
        forall|j: int|
            0 <= j < inputs.len() ==> run_spec(buf, 0, inputs, p).2[j] == impulse_out_spec(
                inputs[0],
                p.feedback as int,
                n,
                j,
            ),
    decreases inputs.len(),
{
    let imp = inputs[0];
    let f = p.feedback as int;
    let m = inputs.len() as int;
    assert(1 <= n <= buf.len());
    lemma_mul_fixed_zero(imp);
    lemma_mul_fixed_zero(SCALE as int);
    lemma_mul_fixed_zero(f);
    if inputs.len() == 1 {
        let first = step_spec(buf, 0, imp, p);
        assert(inputs.drop_first() =~= Seq::<int>::empty());
        assert(first.2 == 0);
        assert(sat_add_spec(imp, 0) == imp);
        assert(first.0 == buf.update(0, mul_fixed_spec(imp, f)));
        assert(echo_spec(imp, f, 0nat) == imp);
        assert(mul_fixed_spec(imp, f) == echo_spec(imp, f, 1nat));
        vstd::arithmetic::div_mod::lemma_fundamental_div_mod_converse(0, n, 0, 0);
        if n == 1 {
            vstd::arithmetic::div_mod::lemma_fundamental_div_mod_converse(1, 1, 1, 0);
        } else {
            vstd::arithmetic::div_mod::lemma_fundamental_div_mod_converse(1, n, 0, 1);
        }
        assert(run_spec(first.0, first.1, Seq::<int>::empty(), p).2 == Seq::<int>::empty());
        assert(run_spec(buf, 0, inputs, p).2 =~= seq![first.2]);
        assert(run_spec(buf, 0, inputs, p).2[0] == 0);
    } else {
        let prev = inputs.take(m - 1);
        assert(prev[0] == imp);
        lemma_impulse_response(buf, prev, p, n);
        assert(inputs[m - 1] == 0);
        assert(inputs =~= prev.push(0));
        lemma_run_snoc(buf, 0, prev, 0, p);
        let s_buf = run_spec(buf, 0, prev, p).0;
        let s_cur = run_spec(buf, 0, prev, p).1;
        let k_prev = ((m - 2) / n + 1) as nat;
        let e_prev = echo_spec(imp, f, k_prev);
        assert(s_buf == buf.update(0, e_prev));
        assert(s_cur == (m - 1) % n);
        lemma_echo_in_range(imp, f, k_prev);
        vstd::arithmetic::div_mod::lemma_fundamental_div_mod(m - 1, n);
        vstd::arithmetic::div_mod::lemma_mod_pos_bound(m - 1, n);
        vstd::arithmetic::div_mod::lemma_div_pos_is_pos(m - 1, n);
        let q = (m - 1) / n;
        let c = (m - 1) % n;
        assert(m - 1 == n * q + c);
        assert(0 <= c < n);
        assert(0 <= q);
        let first = step_spec(s_buf, s_cur, 0, p);
        if c == 0 {
            assert(q >= 1) by (nonlinear_arith)
                requires
                    m - 1 == n * q + c,
                    m - 1 >= 1,
                    c == 0,
                    q >= 0,
                    n >= 1;
            assert(s_buf[0] == e_prev);
            lemma_mul_fixed_one(e_prev);
            assert(sat_add_spec(0, e_prev) == e_prev);
            assert(first.2 == e_prev);
            assert((q - 1) * n + (n - 1) == n * q - 1) by (nonlinear_arith);
            vstd::arithmetic::div_mod::lemma_fundamental_div_mod_converse(m - 2, n, q - 1, n - 1);
            assert(k_prev == q as nat);
            assert(sat_add_spec(0, e_prev) == e_prev);
            assert(feedback_spec(0, e_prev, f) == echo_spec(imp, f, (q + 1) as nat));
            assert(first.0 =~= buf.update(0, echo_spec(imp, f, (q + 1) as nat)));
            if n == 1 {
                assert(m * 1 + 0 == m) by (nonlinear_arith);
                vstd::arithmetic::div_mod::lemma_fundamental_div_mod_converse(m, 1, m, 0);
            } else {
                assert(q * n + 1 == m) by (nonlinear_arith)
                    requires
                        m - 1 == n * q + c,
                        c == 0;
                vstd::arithmetic::div_mod::lemma_fundamental_div_mod_converse(m, n, q, 1);
            }
            assert((m - 1) / n + 1 == q + 1);
            assert(impulse_out_spec(imp, f, n, m - 1) == e_prev);
        } else {
            assert(s_buf[c] == buf[c]);
            assert(s_buf[c] == 0);
            assert(first.2 == 0);
            assert(feedback_spec(0, 0, f) == 0);
            assert(first.0 =~= s_buf);
            assert(q * n + (c - 1) == n * q + c - 1) by (nonlinear_arith);
            vstd::arithmetic::div_mod::lemma_fundamental_div_mod_converse(m - 2, n, q, c - 1);
            assert((m - 2) / n == q);
            if c + 1 == n {
                assert((q + 1) * n + 0 == n * q + c + 1) by (nonlinear_arith)
                    requires
                        c + 1 == n;
                vstd::arithmetic::div_mod::lemma_fundamental_div_mod_converse(m, n, q + 1, 0);
            } else {
                assert(q * n + (c + 1) == n * q + c + 1) by (nonlinear_arith);
                vstd::arithmetic::div_mod::lemma_fundamental_div_mod_converse(m, n, q, c + 1);
            }
            assert(impulse_out_spec(imp, f, n, m - 1) == 0);
        }
        assert(run_spec(buf, 0, inputs, p).2 == run_spec(buf, 0, prev, p).2.push(first.2));
        assert forall|j: int| 0 <= j < m implies run_spec(buf, 0, inputs, p).2[j]
            == impulse_out_spec(imp, f, n, j) by {
            if j < m - 1 {
                assert(run_spec(buf, 0, inputs, p).2[j] == run_spec(buf, 0, prev, p).2[j]);
            } else {
                assert(run_spec(buf, 0, inputs, p).2[j] == first.2);
            }
        }
    }
}

/// No energy from silence: zero inputs over a fully zeroed buffer give
/// zero outputs and leave the buffer zeroed, whatever the parameters.
pub proof fn lemma_silence(buf: Seq<int>, cursor: int, inputs: Seq<int>, p: ParamSnapshot)
    requires
        1 <= buf.len(),
        0 <= cursor < buf.len(),
        forall|j: int| 0 <= j < buf.len() ==> buf[j] == 0,
        forall|j: int| 0 <= j < inputs.len() ==> inputs[j] == 0,
    ensures
        run_spec(buf, cursor, inputs, p).2.len() == inputs.len(),
        forall|j: int| 0 <= j < inputs.len() ==> run_spec(buf, cursor, inputs, p).2[j] == 0,
        forall|j: int|
            0 <= j < buf.len() ==> run_spec(buf, cursor, inputs, p).0[j] == 0,
    decreases inputs.len(),
{
    if inputs.len() > 0 {
        let first = step_spec(buf, cursor, inputs[0], p);
        lemma_mul_fixed_zero(p.dry as int);
        lemma_mul_fixed_zero(p.wet as int);
        lemma_mul_fixed_zero(p.amplitude as int);
        lemma_mul_fixed_zero(p.feedback as int);
        assert(first.2 == 0);
        assert(forall|j: int| 0 <= j < first.0.len() ==> first.0[j] == 0);
        lemma_silence(first.0, first.1, inputs.drop_first(), p);
        assert(forall|j: int|
            1 <= j < inputs.len() ==> run_spec(buf, cursor, inputs, p).2[j] == run_spec(
                first.0,
                first.1,
                inputs.drop_first(),
                p,
            ).2[j - 1]);
    }
}

} // verus!
