//! An equalizer: an ordered chain of second-order sections, each sample fed
//! through every section in turn.

use vstd::pervasive::VecAdditionalExecFns;
use vstd::prelude::*;
use crate::filter::{FilterCoefficients, FilterType, LinearFilter, Sample};

verus! {

/// The filter type a section takes from its position in a freshly built
/// chain of `n` sections: a low-pass bookend first, a high-pass bookend
/// last, band-pass sections everywhere in between.
pub open spec fn spec_band_type(i: int, n: int) -> FilterType {
    if i == 0 {
        FilterType::LowPass
    } else if i == n - 1 {
        FilterType::HighPass
    } else {
        FilterType::BandPass
    }
}

/// The sections of a chain after one sample has been fed through all of
/// them in order, each section's output becoming the next section's input.
/// `xn` is the chain's input word and `yns[i]` the host-computed recursion
/// value for section `i`.
pub open spec fn chain_states(secs: Seq<LinearFilter>, xn: Sample, yns: Seq<Sample>) -> Seq<
    LinearFilter,
>
    decreases secs.len(),
{
    if secs.len() == 0 {
        secs
    } else {
        seq![secs[0].stepped(xn, yns[0])] + chain_states(
            secs.drop_first(),
            secs[0].step_output(xn, yns[0]),
            yns.drop_first(),
        )
    }
}

/// The word that comes out of the last section when one sample is fed
/// through the chain. An empty chain is the identity.
pub open spec fn chain_output(secs: Seq<LinearFilter>, xn: Sample, yns: Seq<Sample>) -> Sample
    decreases secs.len(),
{
    if secs.len() == 0 {
        xn
    } else {
        chain_output(secs.drop_first(), secs[0].step_output(xn, yns[0]), yns.drop_first())
    }
}

/// Feeding a sample through a chain leaves it with exactly one section per
/// section it had.
pub proof fn lemma_chain_states_len(secs: Seq<LinearFilter>, xn: Sample, yns: Seq<Sample>)
    ensures
        chain_states(secs, xn, yns).len() == secs.len(),
    decreases secs.len(),
{
    if secs.len() != 0 {
        lemma_chain_states_len(
            secs.drop_first(),
            secs[0].step_output(xn, yns[0]),
            yns.drop_first(),
        );
    }
}

/// Extending a chain by one section at its end extends the fold at its end:
/// the new section steps on what the shorter chain put out.
pub proof fn lemma_chain_snoc(
    secs: Seq<LinearFilter>,
    xn: Sample,
    yns: Seq<Sample>,
    sec: LinearFilter,
    y: Sample,
)
    requires
        secs.len() == yns.len(),
    ensures
        chain_states(secs.push(sec), xn, yns.push(y)) == chain_states(secs, xn, yns).push(
            sec.stepped(chain_output(secs, xn, yns), y),
        ),
        chain_output(secs.push(sec), xn, yns.push(y)) == sec.step_output(
            chain_output(secs, xn, yns),
            y,
        ),
    decreases secs.len(),
{
    if secs.len() == 0 {
        assert(secs.push(sec)[0] == sec);
        assert(yns.push(y)[0] == y);
        assert(secs.push(sec).drop_first() =~= secs);
        assert(yns.push(y).drop_first() =~= yns);
        assert(chain_states(secs.push(sec), xn, yns.push(y)) == seq![sec.stepped(xn, y)]
            + chain_states(secs, sec.step_output(xn, y), yns));
        assert(chain_states(secs, sec.step_output(xn, y), yns) =~= Seq::<LinearFilter>::empty());
        assert(chain_output(secs.push(sec), xn, yns.push(y)) == chain_output(
            secs,
            sec.step_output(xn, y),
            yns,
        ));
        assert(chain_states(secs.push(sec), xn, yns.push(y)) =~= chain_states(
            secs,
            xn,
            yns,
        ).push(sec.stepped(xn, y)));
    } else {
        let x1 = secs[0].step_output(xn, yns[0]);
        assert(secs.push(sec)[0] == secs[0]);
        assert(yns.push(y)[0] == yns[0]);
        assert(secs.push(sec).drop_first() =~= secs.drop_first().push(sec));
        assert(yns.push(y).drop_first() =~= yns.drop_first().push(y));
        lemma_chain_snoc(secs.drop_first(), x1, yns.drop_first(), sec, y);
        assert(chain_states(secs.push(sec), xn, yns.push(y)) == seq![secs[0].stepped(xn, yns[0])]
            + chain_states(secs.drop_first().push(sec), x1, yns.drop_first().push(y)));
        assert(chain_states(secs, xn, yns) == seq![secs[0].stepped(xn, yns[0])] + chain_states(
            secs.drop_first(),
            x1,
            yns.drop_first(),
        ));
        assert(chain_output(secs.push(sec), xn, yns.push(y)) == chain_output(
            secs.drop_first().push(sec),
            x1,
            yns.drop_first().push(y),
        ));
        assert(chain_output(secs, xn, yns) == chain_output(secs.drop_first(), x1, yns.drop_first()));
        assert(chain_states(secs.push(sec), xn, yns.push(y)) =~= chain_states(
            secs,
            xn,
            yns,
        ).push(sec.stepped(chain_output(secs, xn, yns), y)));
    }
}

/// A chain of bypassed sections is the identity: the input word comes out
/// unchanged — whatever the supplied recursion values are — and no
/// section's state moves. In particular a chain of one bypassed section
/// returns its input unchanged, regardless of prior history.
pub proof fn lemma_bypassed_chain_is_identity(
    secs: Seq<LinearFilter>,
    xn: Sample,
    yns: Seq<Sample>,
)
    requires
        forall|i: int| 0 <= i < secs.len() ==> !(#[trigger] secs[i]).enabled,
    ensures
        chain_states(secs, xn, yns) == secs,
        chain_output(secs, xn, yns) == xn,
    decreases secs.len(),
{
    if secs.len() != 0 {
        assert(!secs[0].enabled);
        assert forall|i: int| 0 <= i < secs.drop_first().len() implies !(
        #[trigger] secs.drop_first()[i]).enabled by {
            assert(secs.drop_first()[i] == secs[i + 1]);
        }
        lemma_bypassed_chain_is_identity(secs.drop_first(), xn, yns.drop_first());
        assert(chain_states(secs, xn, yns) =~= secs);
    }
}

/// What one section of a freshly built chain holds: the parameters and
/// coefficient words supplied for its position, and the type its position
/// dictates.
#[derive(Clone, Copy, Debug, PartialEq, Eq, Structural)]
pub struct SectionInit {
    /// Center frequency word for the section.
    pub f0: Sample,
    /// Gain-or-resonance word for the section.
    pub gain_or_q: Sample,
    /// Coefficient words the host derived from the section's type and
    /// parameters.
    pub coeffs: FilterCoefficients,
}

/// A multi-band equalizer: an ordered sequence of filter sections. Sequence
/// order is significant — it is the processing order.
#[derive(Debug)]
pub struct Equalizer {
    /// The sections, in processing order.
    pub filters: Vec<LinearFilter>,
}

impl Equalizer {
    /// Append one section, built from the given parameters and host-derived
    /// coefficient words, to the end of the chain.
    pub fn add_filter(
        &mut self,
        fs: Sample,
        f0: Sample,
        q: Sample,
        filter_type: FilterType,
        coeffs: FilterCoefficients,
    )
        ensures
            final(self).filters@ == old(self).filters@.push(
                LinearFilter::spec_new(fs, f0, q, filter_type, coeffs),
            ),
    {
        self.filters.push(LinearFilter::new(fs, f0, q, filter_type, coeffs));
    }

    /// Build an equalizer of `bands + 2` sections: a low-pass bookend, then
    /// `bands` band-pass sections, then a high-pass bookend. `sections[i]`
    /// supplies the parameters and host-derived coefficient words for the
    /// section at position `i`. Every section starts enabled and silent.
    pub fn new(bands: usize, fs: Sample, sections: &Vec<SectionInit>) -> (r: Equalizer)
        requires
            bands <= usize::MAX - 2,
            sections@.len() == bands + 2,
        ensures
            r.filters@.len() == bands + 2,
            forall|i: int|
                0 <= i < bands + 2 ==> r.filters@[i] == LinearFilter::spec_new(
                    fs,
                    sections@[i].f0,
                    sections@[i].gain_or_q,
                    spec_band_type(i, bands + 2),
                    sections@[i].coeffs,
                ),
    {
        let n: usize = bands + 2;
        let mut filters: Vec<LinearFilter> = Vec::new();
        let mut i: usize = 0;
        while i < n
            invariant
                i <= n,
                n == bands + 2,
                sections@.len() == n,
                filters@.len() == i,
                forall|j: int|
                    0 <= j < i ==> filters@[j] == LinearFilter::spec_new(
                        fs,
                        sections@[j].f0,
                        sections@[j].gain_or_q,
                        spec_band_type(j, n as int),
                        sections@[j].coeffs,
                    ),
            decreases n - i,
        {
            let init = sections[i];
            let filter_type = if i == 0 {
                FilterType::LowPass
            } else if i == n - 1 {
                FilterType::HighPass
            } else {
                FilterType::BandPass
            };
            filters.push(LinearFilter::new(fs, init.f0, init.gain_or_q, filter_type, init.coeffs));
            i = i + 1;
        }
        Equalizer { filters }
    }

    /// The number of sections in the chain.
    pub fn len(&self) -> (r: usize)
        ensures
            r == self.filters@.len(),
    {
        self.filters.len()
    }

    /// Feed one sample through every section in order: each section's output
    /// word becomes the next section's input word. `yns[i]` is the
    /// host-computed recursion value for section `i`. Bypassed sections pass
    /// their input through untouched, so a chain whose sections are all
    /// bypassed — an empty chain included — returns `xn` unchanged.
    pub fn filter(&mut self, xn: Sample, yns: &Vec<Sample>) -> (r: Sample)
        requires
            yns@.len() == old(self).filters@.len(),
        ensures
            final(self).filters@ == chain_states(old(self).filters@, xn, yns@),
            r == chain_output(old(self).filters@, xn, yns@),
    {
        let n: usize = self.filters.len();
        let mut x: Sample = xn;
        let mut i: usize = 0;
        while i < n
            invariant
                i <= n,
                n == old(self).filters@.len(),
                yns@.len() == n,
                self.filters@.len() == n,
                self.filters@ == chain_states(
                    old(self).filters@.take(i as int),
                    xn,
                    yns@.take(i as int),
                ) + old(self).filters@.skip(i as int),
                x == chain_output(old(self).filters@.take(i as int), xn, yns@.take(i as int)),
            decreases n - i,
        {
            proof {
                lemma_chain_states_len(
                    old(self).filters@.take(i as int),
                    xn,
                    yns@.take(i as int),
                );
                lemma_chain_snoc(
                    old(self).filters@.take(i as int),
                    xn,
                    yns@.take(i as int),
                    old(self).filters@[i as int],
                    yns@[i as int],
                );
                assert(old(self).filters@.take(i + 1) =~= old(self).filters@.take(
                    i as int,
                ).push(old(self).filters@[i as int]));
                assert(yns@.take(i + 1) =~= yns@.take(i as int).push(yns@[i as int]));
                assert(self.filters@[i as int] == old(self).filters@[i as int]);
            }
            let mut sec = self.filters[i];
            let out = sec.filter(x, yns[i]);
            self.filters.set(i, sec);
            proof {
                assert(self.filters@ =~= chain_states(
                    old(self).filters@.take(i + 1),
                    xn,
                    yns@.take(i + 1),
                ) + old(self).filters@.skip(i + 1));
            }
            x = out;
            i = i + 1;
        }
        proof {
            assert(old(self).filters@.take(n as int) =~= old(self).filters@);
            assert(yns@.take(n as int) =~= yns@);
            assert(self.filters@ =~= chain_states(old(self).filters@, xn, yns@));
        }
        x
    }
}

} // verus!
