//! A single second-order (biquad) recursive filter section: its coefficient
//! set, its two-sample delay history, and the per-sample state machine.

use vstd::pervasive::VecAdditionalExecFns;
use vstd::prelude::*;

verus! {

/// The number of samples one block-processing call handles: the shorter of
/// the input and output lengths. Truncating to the shorter buffer is the
/// documented deterministic recovery for a block-length mismatch; no sample
/// outside that span is read or written.
pub open spec fn spec_frame_len(in_len: int, out_len: int) -> int {
    if in_len <= out_len {
        in_len
    } else {
        out_len
    }
}

/// One audio sample: the raw bits of an IEEE-754 single-precision value.
/// The engine treats a sample as an opaque word; all numeric work on it is
/// the host's.
pub type Sample = u32;

/// The closed set of filter shapes a section can take.
#[derive(Clone, Copy, Debug, PartialEq, Eq, Structural)]
pub enum FilterType {
    LowPass,
    HighPass,
    BandPass,
}

/// The six coefficient words of one second-order section: feedforward
/// (numerator) terms `b0, b1, b2` and feedback (denominator) terms
/// `a0, a1, a2`. Coefficients are stored un-normalized; the host's recursion
/// divides by `a0` on every sample.
#[derive(Clone, Copy, Debug, PartialEq, Eq, Structural)]
pub struct FilterCoefficients {
    pub b0: Sample,
    pub b1: Sample,
    pub b2: Sample,
    pub a0: Sample,
    pub a1: Sample,
    pub a2: Sample,
}

impl FilterCoefficients {
    /// All six coefficient words zero.
    pub open spec fn spec_zero() -> FilterCoefficients {
        FilterCoefficients { b0: 0, b1: 0, b2: 0, a0: 0, a1: 0, a2: 0 }
    }
}

impl Default for FilterCoefficients {
    /// A coefficient set of all-zero words.
    fn default() -> (r: Self)
        ensures
            r == FilterCoefficients::spec_zero(),
    {
        FilterCoefficients { b0: 0, b1: 0, b2: 0, a0: 0, a1: 0, a2: 0 }
    }
}

/// The delay state of one second-order section: the two most recent input
/// samples (`x0` newest, `x1` one older) and the two most recent output
/// samples (`y0` newest, `y1` one older).
#[derive(Clone, Copy, Debug, PartialEq, Eq, Structural)]
pub struct FilterHistory {
    pub x0: Sample,
    pub x1: Sample,
    pub y0: Sample,
    pub y1: Sample,
}

impl FilterHistory {
    /// Silence: all four history words zero (the bit pattern of `+0.0`).
    pub open spec fn spec_zero() -> FilterHistory {
        FilterHistory { x0: 0, x1: 0, y0: 0, y1: 0 }
    }

    /// The history after one processed sample: the newest input/output pair
    /// moves in front and the oldest pair falls off.
    pub open spec fn shifted(self, xn: Sample, yn: Sample) -> FilterHistory {
        FilterHistory { x0: xn, x1: self.x0, y0: yn, y1: self.y0 }
    }
}

impl Default for FilterHistory {
    /// A fresh section starts from silence.
    fn default() -> (r: Self)
        ensures
            r == FilterHistory::spec_zero(),
    {
        FilterHistory { x0: 0, x1: 0, y0: 0, y1: 0 }
    }
}

/// One second-order filter section: a coefficient set, a delay history, the
/// musical parameters the coefficients were derived from, and a bypass flag.
#[derive(Clone, Copy, Debug, PartialEq, Eq, Structural)]
pub struct LinearFilter {
    /// Whether the section is active. A bypassed section passes samples
    /// through unchanged and leaves its delay history untouched.
    pub enabled: bool,
    /// Filter coefficients, kept consistent with the parameters below as of
    /// the last retune.
    pub coeffs: FilterCoefficients,
    /// Delay history. Deliberately not cleared by a parameter update, so a
    /// retune cannot cause an audible click from a state discontinuity.
    pub hist: FilterHistory,
    /// Sampling frequency word.
    pub fs: Sample,
    /// Center frequency word.
    pub f0: Sample,
    /// Gain or resonance word: resonance sharpness for a low-pass or
    /// high-pass section, peak gain for a band-pass section.
    pub gain_or_resonance: Sample,
    /// The section's shape.
    pub filter_type: FilterType,
}

impl LinearFilter {
    /// A freshly built section: enabled, with silent history, holding exactly
    /// the given parameters and coefficients.
    pub open spec fn spec_new(
        fs: Sample,
        f0: Sample,
        q: Sample,
        filter_type: FilterType,
        coeffs: FilterCoefficients,
    ) -> LinearFilter {
        LinearFilter {
            enabled: true,
            coeffs,
            hist: FilterHistory::spec_zero(),
            fs,
            f0,
            gain_or_resonance: q,
            filter_type,
        }
    }

    /// The section after a parameter update: new center frequency, gain/Q and
    /// coefficients; everything else — in particular the delay history — is
    /// kept.
    pub open spec fn retuned(
        self,
        f0: Sample,
        q: Sample,
        coeffs: FilterCoefficients,
    ) -> LinearFilter {
        LinearFilter { f0, gain_or_resonance: q, coeffs, ..self }
    }

    /// The section with its bypass flag set.
    pub open spec fn with_enabled(self, enabled: bool) -> LinearFilter {
        LinearFilter { enabled, ..self }
    }

    /// The section's state after processing one sample. `xn` is the input
    /// word and `yn` the host-computed value of the second-order recursion
    /// for this sample. An enabled section shifts its history; a bypassed
    /// section is left exactly as it was.
    pub open spec fn stepped(self, xn: Sample, yn: Sample) -> LinearFilter {
        if self.enabled {
            LinearFilter { hist: self.hist.shifted(xn, yn), ..self }
        } else {
            self
        }
    }

    /// The output word of one processed sample: the recursion's value when
    /// the section is enabled, the input unchanged when it is bypassed.
    pub open spec fn step_output(self, xn: Sample, yn: Sample) -> Sample {
        if self.enabled {
            yn
        } else {
            xn
        }
    }

    /// Build a section of the given shape. The coefficient words must be
    /// derived by the host from `(filter_type, fs, f0, q)`; the engine stores
    /// them as given.
    pub fn new(
        fs: Sample,
        f0: Sample,
        q: Sample,
        filter_type: FilterType,
        coeffs: FilterCoefficients,
    ) -> (r: LinearFilter)
        ensures
            r == LinearFilter::spec_new(fs, f0, q, filter_type, coeffs),
    {
        LinearFilter {
            enabled: true,
            coeffs,
            hist: FilterHistory::default(),
            fs,
            f0,
            gain_or_resonance: q,
            filter_type,
        }
    }

    /// Build a low-pass section.
    pub fn new_lpf(fs: Sample, f0: Sample, q: Sample, coeffs: FilterCoefficients) -> (r:
        LinearFilter)
        ensures
            r == LinearFilter::spec_new(fs, f0, q, FilterType::LowPass, coeffs),
    {
        LinearFilter::new(fs, f0, q, FilterType::LowPass, coeffs)
    }

    /// Build a high-pass section.
    pub fn new_hpf(fs: Sample, f0: Sample, q: Sample, coeffs: FilterCoefficients) -> (r:
        LinearFilter)
        ensures
            r == LinearFilter::spec_new(fs, f0, q, FilterType::HighPass, coeffs),
    {
        LinearFilter::new(fs, f0, q, FilterType::HighPass, coeffs)
    }

    /// Build a band-pass section (constant skirt gain, peak gain given by
    /// `q`).
    pub fn new_bpf(fs: Sample, f0: Sample, q: Sample, coeffs: FilterCoefficients) -> (r:
        LinearFilter)
        ensures
            r == LinearFilter::spec_new(fs, f0, q, FilterType::BandPass, coeffs),
    {
        LinearFilter::new(fs, f0, q, FilterType::BandPass, coeffs)
    }

    /// The section's shape.
    pub fn ftype(&self) -> (r: FilterType)
        ensures
            r == self.filter_type,
    {
        self.filter_type
    }

    /// The center frequency word the section was last tuned to.
    pub fn center_freq(&self) -> (r: Sample)
        ensures
            r == self.f0,
    {
        self.f0
    }

    /// The gain-or-resonance word the section was last tuned to.
    pub fn gain_or_q(&self) -> (r: Sample)
        ensures
            r == self.gain_or_resonance,
    {
        self.gain_or_resonance
    }

    /// Bypass or re-enable the section. Nothing but the flag changes, so
    /// re-enabling resumes from exactly the history the section had.
    pub fn set_enabled(&mut self, enabled: bool)
        ensures
            *final(self) == old(self).with_enabled(enabled),
    {
        self.enabled = enabled;
    }

    /// Retune the section: store the new parameters and the coefficient
    /// words the host derived from them. The delay history is deliberately
    /// left untouched.
    pub fn recalculate_coeffs(&mut self, f0: Sample, q: Sample, coeffs: FilterCoefficients)
        ensures
            *final(self) == old(self).retuned(f0, q, coeffs),
    {
        self.f0 = f0;
        self.gain_or_resonance = q;
        self.coeffs = coeffs;
    }

    /// Retune to a new center frequency, keeping the current gain/Q.
    pub fn update_f0(&mut self, f0: Sample, coeffs: FilterCoefficients)
        ensures
            *final(self) == old(self).retuned(f0, old(self).gain_or_resonance, coeffs),
    {
        let q = self.gain_or_resonance;
        self.recalculate_coeffs(f0, q, coeffs);
    }

    /// Retune to a new gain/Q, keeping the current center frequency.
    pub fn update_gain_or_q(&mut self, gain_or_q: Sample, coeffs: FilterCoefficients)
        ensures
            *final(self) == old(self).retuned(old(self).f0, gain_or_q, coeffs),
    {
        let f0 = self.f0;
        self.recalculate_coeffs(f0, gain_or_q, coeffs);
    }

    /// Process one sample. `xn` is the input word; `yn` is the value of the
    /// second-order recursion for this sample, computed by the host from the
    /// section's current coefficients and history. An enabled section emits
    /// `yn` and shifts its history; a bypassed section emits `xn` and leaves
    /// its state exactly as it was.
    pub fn filter(&mut self, xn: Sample, yn: Sample) -> (r: Sample)
        ensures
            *final(self) == old(self).stepped(xn, yn),
            r == old(self).step_output(xn, yn),
    {
        if self.enabled {
            self.hist.x1 = self.hist.x0;
            self.hist.x0 = xn;
            self.hist.y1 = self.hist.y0;
            self.hist.y0 = yn;
            yn
        } else {
            xn
        }
    }

    /// Process a whole frame: feed each input word through the section in
    /// arrival order, writing each output word to the same position of
    /// `output`. `yns[i]` is the host-computed recursion value for step `i`.
    /// If the buffer lengths differ, exactly the first
    /// `spec_frame_len(frame.len(), output.len())` samples are processed and
    /// the rest of `output` is left as it was.
    pub fn filter_frame(&mut self, frame: &Vec<Sample>, yns: &Vec<Sample>, output: &mut Vec<
        Sample,
    >)
        requires
            yns@.len() >= spec_frame_len(frame@.len() as int, old(output)@.len() as int),
        ensures
            ({
                let n = spec_frame_len(frame@.len() as int, old(output)@.len() as int);
                &&& final(output)@.len() == old(output)@.len()
                &&& *final(self) == run_state(*old(self), frame@.take(n), yns@.take(n))
                &&& final(output)@ == run_outputs(*old(self), frame@.take(n), yns@.take(n))
                    + old(output)@.skip(n)
            }),
    {
        let n: usize = if frame.len() <= output.len() {
            frame.len()
        } else {
            output.len()
        };
        let mut i: usize = 0;
        while i < n
            invariant
                i <= n,
                n == spec_frame_len(frame@.len() as int, old(output)@.len() as int),
                n <= yns@.len(),
                output@.len() == old(output)@.len(),
                *self == run_state(*old(self), frame@.take(i as int), yns@.take(i as int)),
                output@ == run_outputs(*old(self), frame@.take(i as int), yns@.take(i as int))
                    + old(output)@.skip(i as int),
            decreases n - i,
        {
            proof {
                lemma_run_outputs_len(
                    *old(self),
                    frame@.take(i as int),
                    yns@.take(i as int),
                );
                lemma_run_snoc(
                    *old(self),
                    frame@.take(i as int),
                    yns@.take(i as int),
                    frame@[i as int],
                    yns@[i as int],
                );
                assert(frame@.take(i + 1) =~= frame@.take(i as int).push(frame@[i as int]));
                assert(yns@.take(i + 1) =~= yns@.take(i as int).push(yns@[i as int]));
            }
            let r = self.filter(frame[i], yns[i]);
            output.set(i, r);
            proof {
                assert(output@ =~= run_outputs(*old(self), frame@.take(i + 1), yns@.take(i + 1))
                    + old(output)@.skip(i + 1));
            }
            i = i + 1;
        }
    }
}

/// The section's state after processing the sample words `xs` in order,
/// where `yns[i]` is the host-computed recursion value for step `i`.
pub open spec fn run_state(f: LinearFilter, xs: Seq<Sample>, yns: Seq<Sample>) -> LinearFilter
    decreases xs.len(),
{
    if xs.len() == 0 {
        f
    } else {
        run_state(f.stepped(xs[0], yns[0]), xs.drop_first(), yns.drop_first())
    }
}

/// The output words of processing the sample words `xs` in order, with
/// `yns[i]` the host-computed recursion value for step `i`.
pub open spec fn run_outputs(f: LinearFilter, xs: Seq<Sample>, yns: Seq<Sample>) -> Seq<Sample>
    decreases xs.len(),
{
    if xs.len() == 0 {
        Seq::empty()
    } else {
        seq![f.step_output(xs[0], yns[0])] + run_outputs(
            f.stepped(xs[0], yns[0]),
            xs.drop_first(),
            yns.drop_first(),
        )
    }
}

/// Running a section over one more sample extends the run at its end: the
/// state steps once more and the outputs grow by one word.
pub proof fn lemma_run_snoc(
    f: LinearFilter,
    xs: Seq<Sample>,
    yns: Seq<Sample>,
    x: Sample,
    y: Sample,
)
    requires
        xs.len() == yns.len(),
    ensures
        run_state(f, xs.push(x), yns.push(y)) == run_state(f, xs, yns).stepped(x, y),
        run_outputs(f, xs.push(x), yns.push(y)) == run_outputs(f, xs, yns).push(
            run_state(f, xs, yns).step_output(x, y),
        ),
    decreases xs.len(),
{
    if xs.len() == 0 {
        assert(xs.push(x)[0] == x);
        assert(yns.push(y)[0] == y);
        assert(xs.push(x).drop_first() =~= xs);
        assert(yns.push(y).drop_first() =~= yns);
        assert(run_state(f, xs.push(x), yns.push(y)) == run_state(f.stepped(x, y), xs, yns));
        assert(run_state(f.stepped(x, y), xs, yns) == f.stepped(x, y));
        assert(run_outputs(f, xs.push(x), yns.push(y)) == seq![f.step_output(x, y)]
            + run_outputs(f.stepped(x, y), xs, yns));
        assert(run_outputs(f.stepped(x, y), xs, yns) =~= Seq::<Sample>::empty());
        assert(run_outputs(f, xs.push(x), yns.push(y)) =~= run_outputs(f, xs, yns).push(
            f.step_output(x, y),
        ));
    } else {
        let f1 = f.stepped(xs[0], yns[0]);
        assert(xs.push(x)[0] == xs[0]);
        assert(yns.push(y)[0] == yns[0]);
        assert(xs.push(x).drop_first() =~= xs.drop_first().push(x));
        assert(yns.push(y).drop_first() =~= yns.drop_first().push(y));
        lemma_run_snoc(f1, xs.drop_first(), yns.drop_first(), x, y);
        assert(run_state(f, xs.push(x), yns.push(y)) == run_state(
            f1,
            xs.drop_first().push(x),
            yns.drop_first().push(y),
        ));
        assert(run_state(f, xs, yns) == run_state(f1, xs.drop_first(), yns.drop_first()));
        assert(run_outputs(f, xs.push(x), yns.push(y)) == seq![f.step_output(xs[0], yns[0])]
            + run_outputs(f1, xs.drop_first().push(x), yns.drop_first().push(y)));
        assert(run_outputs(f, xs, yns) == seq![f.step_output(xs[0], yns[0])] + run_outputs(
            f1,
            xs.drop_first(),
            yns.drop_first(),
        ));
        assert(run_outputs(f, xs.push(x), yns.push(y)) =~= run_outputs(f, xs, yns).push(
            run_state(f, xs, yns).step_output(x, y),
        ));
    }
}

/// Every run produces exactly one output word per input word.
pub proof fn lemma_run_outputs_len(f: LinearFilter, xs: Seq<Sample>, yns: Seq<Sample>)
    ensures
        run_outputs(f, xs, yns).len() == xs.len(),
    decreases xs.len(),
{
    if xs.len() != 0 {
        lemma_run_outputs_len(f.stepped(xs[0], yns[0]), xs.drop_first(), yns.drop_first());
    }
}

/// A bypassed section is inert: however many samples it is driven over, its
/// state — the delay history included — is exactly what it was, and every
/// sample passes through unchanged.
pub proof fn lemma_bypassed_run_is_identity(f: LinearFilter, xs: Seq<Sample>, yns: Seq<Sample>)
    requires
        !f.enabled,
    ensures
        run_state(f, xs, yns) == f,
        run_outputs(f, xs, yns) == xs,
    decreases xs.len(),
{
    if xs.len() == 0 {
        assert(run_outputs(f, xs, yns) =~= xs);
    } else {
        lemma_bypassed_run_is_identity(f, xs.drop_first(), yns.drop_first());
        assert(run_outputs(f, xs, yns) =~= xs);
    }
}

/// History continuity across a bypass interval: take an enabled section,
/// bypass it, drive it over any samples, and re-enable it — the section is
/// bit-for-bit the one it was, so any later drive produces exactly the
/// state and output words it would have produced had the bypass never
/// happened.
pub proof fn lemma_bypass_continuity(
    f: LinearFilter,
    xs: Seq<Sample>,
    yns: Seq<Sample>,
    later_xs: Seq<Sample>,
    later_yns: Seq<Sample>,
)
    requires
        f.enabled,
    ensures
        ({
            let resumed = run_state(f.with_enabled(false), xs, yns).with_enabled(true);
            &&& resumed == f
            &&& run_state(resumed, later_xs, later_yns) == run_state(f, later_xs, later_yns)
            &&& run_outputs(resumed, later_xs, later_yns) == run_outputs(f, later_xs, later_yns)
        }),
{
    lemma_bypassed_run_is_identity(f.with_enabled(false), xs, yns);
}

/// Retuning is idempotent: a second update with identical parameters and
/// coefficient words changes nothing beyond what the first one did.
pub proof fn lemma_retune_idempotent(
    f: LinearFilter,
    f0: Sample,
    q: Sample,
    coeffs: FilterCoefficients,
)
    ensures
        f.retuned(f0, q, coeffs).retuned(f0, q, coeffs) == f.retuned(f0, q, coeffs),
{
}


} // verus!
