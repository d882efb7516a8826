use vstd::prelude::*;
use vstd::pervasive::VecAdditionalExecFns;
use crate::config::FilterError;
use crate::config::FilterParams;
use crate::config::Settings;
use crate::config::is_positive_finite_bits;
use crate::config::recognizes_filter_type;
use crate::config::spec_or_kept;

verus! {

/// Bit pattern of single-precision positive zero, the value every history
/// slot holds at creation.
pub const SILENCE_BITS: u32 = 0;

/// The five normalized recursion coefficients `(b0, b1, b2, a1, a2)`, each
/// carried as the bit pattern of its single-precision value.  The
/// denominator is already divided through by `a0`, so applying the
/// recursion needs no division.  A coefficient set is replaced wholesale on
/// recompute, never mutated field by field.
#[derive(Clone, Copy, PartialEq, Eq, Structural, Debug)]
pub struct Coefficients {
    pub b0: u32,
    pub b1: u32,
    pub b2: u32,
    pub a1: u32,
    pub a2: u32,
}

/// One channel's memory of the recursion: the last two raw input samples
/// and the last two filtered output samples, as single-precision bit
/// patterns.
#[derive(Clone, Copy, PartialEq, Eq, Structural, Debug)]
pub struct ChannelHistory {
    pub x_n1: u32,
    pub x_n2: u32,
    pub y_n1: u32,
    pub y_n2: u32,
}

impl ChannelHistory {
    /// The all-silence history every channel starts from.
    pub open spec fn spec_at_rest() -> ChannelHistory {
        ChannelHistory {
            x_n1: SILENCE_BITS,
            x_n2: SILENCE_BITS,
            y_n1: SILENCE_BITS,
            y_n2: SILENCE_BITS,
        }
    }

    /// The zeroed history installed for every channel at creation.
    pub fn at_rest() -> (r: ChannelHistory)
        ensures
            r == ChannelHistory::spec_at_rest(),
    {
        ChannelHistory {
            x_n1: SILENCE_BITS,
            x_n2: SILENCE_BITS,
            y_n1: SILENCE_BITS,
            y_n2: SILENCE_BITS,
        }
    }
}

/// The history a channel holds after absorbing one sample: the old
/// most-recent pair slides back one slot, the raw input `x` (never the
/// filtered output) becomes `x_n1`, and the output `y` becomes `y_n1`.
pub open spec fn stepped(h: ChannelHistory, x: u32, y: u32) -> ChannelHistory {
    ChannelHistory { x_n1: x, x_n2: h.x_n1, y_n1: y, y_n2: h.y_n1 }
}

/// The history a channel reaches after its first `n` samples: starting
/// from `h0`, each raw input `xs[k]` and the output `ys[k]` produced for it
/// are absorbed in order.
pub open spec fn histories_after(
    h0: ChannelHistory,
    xs: Seq<u32>,
    ys: Seq<u32>,
    n: int,
) -> ChannelHistory
    decreases n,
{
    if n <= 0 {
        h0
    } else {
        stepped(histories_after(h0, xs, ys, n - 1), xs[n - 1], ys[n - 1])
    }
}

/// The history reached after `n` samples reads inputs and outputs only
/// below `n`: sequences that agree there yield the same history.
pub proof fn lemma_histories_after_agree(
    h0: ChannelHistory,
    xs1: Seq<u32>,
    ys1: Seq<u32>,
    xs2: Seq<u32>,
    ys2: Seq<u32>,
    n: int,
)
    requires
        forall|j: int| 0 <= j < n ==> xs1[j] == xs2[j] && ys1[j] == ys2[j],
    ensures
        histories_after(h0, xs1, ys1, n) == histories_after(h0, xs2, ys2, n),
    decreases n,
{
    if n > 0 {
        lemma_histories_after_agree(h0, xs1, ys1, xs2, ys2, n - 1);
    }
}

/// Holds when running one channel's buffer `xs` through the recursion with
/// step function `f` and coefficient set `c`, from history `h0`, can yield
/// the outputs `ys` and leave the history at `h1`: every output comes from
/// `f` applied to the raw input and the history as it stood before that
/// sample, and `h1` absorbs all pairs in order.
pub open spec fn channel_processed<F: Fn(Coefficients, u32, ChannelHistory) -> u32>(
    f: F,
    c: Coefficients,
    h0: ChannelHistory,
    xs: Seq<u32>,
    ys: Seq<u32>,
    h1: ChannelHistory,
) -> bool {
    &&& ys.len() == xs.len()
    &&& forall|i: int|
        0 <= i < xs.len() ==> call_ensures(
            f,
            (c, xs[i], histories_after(h0, xs, ys, i)),
            #[trigger] ys[i],
        )
    &&& h1 == histories_after(h0, xs, ys, xs.len() as int)
}

/// The output sequence obtained by running a deterministic step `g` sample
/// by sample over `xs` from history `h0` with coefficient set `c`.
pub open spec fn outputs_of(
    g: spec_fn(Coefficients, u32, ChannelHistory) -> u32,
    c: Coefficients,
    h0: ChannelHistory,
    xs: Seq<u32>,
) -> Seq<u32>
    decreases xs.len(),
{
    if xs.len() == 0 {
        Seq::empty()
    } else {
        let prev = outputs_of(g, c, h0, xs.drop_last());
        prev.push(g(c, xs.last(), histories_after(h0, xs, prev, xs.len() - 1)))
    }
}

/// Law: the streaming recursion is strictly sequential and fully determined
/// by the step function.  When the step function's contract pins each
/// output to a function `g` of the coefficient set, the raw input sample
/// and the history standing before it, then only one output sequence and
/// one final history satisfy the processing relation: those computed by
/// running `g` sample by sample.  In particular the filtered buffer can be
/// recomputed exactly, sample by sample, from the recursion alone.
pub proof fn lemma_processing_deterministic<F: Fn(Coefficients, u32, ChannelHistory) -> u32>(
    f: F,
    g: spec_fn(Coefficients, u32, ChannelHistory) -> u32,
    c: Coefficients,
    h0: ChannelHistory,
    xs: Seq<u32>,
    ys: Seq<u32>,
    h1: ChannelHistory,
)
    requires
        forall|a: (Coefficients, u32, ChannelHistory), y: u32|
            call_ensures(f, a, y) ==> y == g(a.0, a.1, a.2),
        channel_processed(f, c, h0, xs, ys, h1),
    ensures
        ys == outputs_of(g, c, h0, xs),
        h1 == histories_after(h0, xs, outputs_of(g, c, h0, xs), xs.len() as int),
    decreases xs.len(),
{
    if xs.len() == 0 {
        assert(ys =~= Seq::<u32>::empty());
    } else {
        let n = xs.len() as int;
        let xsp = xs.drop_last();
        let ysp = ys.drop_last();
        let hp = histories_after(h0, xsp, ysp, n - 1);
        assert(channel_processed(f, c, h0, xsp, ysp, hp)) by {
            assert forall|i: int|
                0 <= i < xsp.len() implies call_ensures(
                f,
                (c, xsp[i], histories_after(h0, xsp, ysp, i)),
                #[trigger] ysp[i],
            ) by {
                lemma_histories_after_agree(h0, xs, ys, xsp, ysp, i);
                assert(call_ensures(f, (c, xs[i], histories_after(h0, xs, ys, i)), ys[i]));
            }
        }
        lemma_processing_deterministic(f, g, c, h0, xsp, ysp, hp);
        let prev = outputs_of(g, c, h0, xsp);
        lemma_histories_after_agree(h0, xs, ys, xs, prev, n - 1);
        assert(call_ensures(f, (c, xs[n - 1], histories_after(h0, xs, ys, n - 1)), ys[n - 1]));
        assert(ys[n - 1] == g(c, xs.last(), histories_after(h0, xs, prev, n - 1)));
        assert(ys =~= outputs_of(g, c, h0, xs));
        lemma_histories_after_agree(h0, xs, ys, xs, outputs_of(g, c, h0, xs), n);
    }
}

/// Running a deterministic step produces exactly one output per input.
pub proof fn lemma_outputs_of_len(
    g: spec_fn(Coefficients, u32, ChannelHistory) -> u32,
    c: Coefficients,
    h0: ChannelHistory,
    xs: Seq<u32>,
)
    ensures
        outputs_of(g, c, h0, xs).len() == xs.len(),
    decreases xs.len(),
{
    if xs.len() > 0 {
        lemma_outputs_of_len(g, c, h0, xs.drop_last());
    }
}

/// Law: a step that keeps silence silent keeps a resting channel at rest.
/// Running any deterministic step `g` that maps a silent sample with a
/// resting history to silence, over an all-silence buffer from the resting
/// history, yields an all-silence buffer and leaves the history at rest.
pub proof fn lemma_silence_stays_silent(
    g: spec_fn(Coefficients, u32, ChannelHistory) -> u32,
    c: Coefficients,
    xs: Seq<u32>,
)
    requires
        g(c, SILENCE_BITS, ChannelHistory::spec_at_rest()) == SILENCE_BITS,
        forall|j: int| 0 <= j < xs.len() ==> xs[j] == SILENCE_BITS,
    ensures
        outputs_of(g, c, ChannelHistory::spec_at_rest(), xs).len() == xs.len(),
        forall|j: int|
            0 <= j < xs.len() ==> outputs_of(g, c, ChannelHistory::spec_at_rest(), xs)[j]
                == SILENCE_BITS,
        histories_after(
            ChannelHistory::spec_at_rest(),
            xs,
            outputs_of(g, c, ChannelHistory::spec_at_rest(), xs),
            xs.len() as int,
        ) == ChannelHistory::spec_at_rest(),
    decreases xs.len(),
{
    let rest = ChannelHistory::spec_at_rest();
    lemma_outputs_of_len(g, c, rest, xs);
    if xs.len() > 0 {
        let n = xs.len() as int;
        let xsp = xs.drop_last();
        lemma_silence_stays_silent(g, c, xsp);
        let prev = outputs_of(g, c, rest, xsp);
        lemma_outputs_of_len(g, c, rest, xsp);
        lemma_histories_after_agree(rest, xs, prev, xsp, prev, n - 1);
        assert(histories_after(rest, xs, prev, n - 1) == rest);
        let outs = outputs_of(g, c, rest, xs);
        assert(outs.last() == SILENCE_BITS);
        lemma_histories_after_agree(rest, xs, outs, xs, prev, n - 1);
        assert(histories_after(rest, xs, outs, n) == stepped(
            histories_after(rest, xs, outs, n - 1),
            xs[n - 1],
            outs[n - 1],
        ));
    }
}

/// Law: a channel at rest that is fed only silence stays at rest, and its
/// output is all silence.  This holds for any step function whose contract
/// pins it to a deterministic step `g` that maps a silent sample with a
/// resting history to silence; together with the per-channel independence
/// of processing, a silent channel is untouched by signal on the others.
pub proof fn lemma_resting_channel_stays_at_rest<F: Fn(Coefficients, u32, ChannelHistory) -> u32>(
    f: F,
    g: spec_fn(Coefficients, u32, ChannelHistory) -> u32,
    c: Coefficients,
    xs: Seq<u32>,
    ys: Seq<u32>,
    h1: ChannelHistory,
)
    requires
        forall|a: (Coefficients, u32, ChannelHistory), y: u32|
            call_ensures(f, a, y) ==> y == g(a.0, a.1, a.2),
        g(c, SILENCE_BITS, ChannelHistory::spec_at_rest()) == SILENCE_BITS,
        forall|j: int| 0 <= j < xs.len() ==> xs[j] == SILENCE_BITS,
        channel_processed(f, c, ChannelHistory::spec_at_rest(), xs, ys, h1),
    ensures
        forall|j: int| 0 <= j < ys.len() ==> ys[j] == SILENCE_BITS,
        h1 == ChannelHistory::spec_at_rest(),
{
    lemma_processing_deterministic(f, g, c, ChannelHistory::spec_at_rest(), xs, ys, h1);
    lemma_silence_stays_silent(g, c, xs);
}

/// A streaming biquad filter instance: fixed sample rate and channel count,
/// the resolved parameters, the coefficient set derived from them, and one
/// independent history per channel.
pub struct BiquadFilter {
    /// Sample rate in Hz, fixed at creation.
    pub sample_rate: u32,
    /// Number of audio channels, fixed at creation.
    pub channels: usize,
    /// The currently active parameter set.
    pub params: FilterParams,
    /// The coefficient set in force; always the one computed from `params`
    /// at the most recent creation or committed update.
    pub coeffs: Coefficients,
    /// Per-channel recursion history; index `c` belongs to channel `c`
    /// alone, and no state is shared across channels.
    pub history: Vec<ChannelHistory>,
}

impl BiquadFilter {
    /// Well-formedness: one history slot per channel, positive sample rate
    /// and channel count, and valid parameters.
    pub open spec fn wf(self) -> bool {
        &&& self.history@.len() == self.channels
        &&& self.channels > 0
        &&& self.sample_rate > 0
        &&& self.params.valid()
    }

    /// Builds an instance with every channel's history at rest.  The caller
    /// supplies the coefficient set it derived from `params`; the pair is
    /// installed together.
    pub fn new(sample_rate: u32, channels: usize, params: FilterParams, coeffs: Coefficients) -> (r:
        BiquadFilter)
        requires
            sample_rate > 0,
            channels > 0,
            params.valid(),
        ensures
            r.wf(),
            r.sample_rate == sample_rate,
            r.channels == channels,
            r.params == params,
            r.coeffs == coeffs,
            forall|i: int| 0 <= i < channels ==> r.history@[i] == ChannelHistory::spec_at_rest(),
    {
        let mut history: Vec<ChannelHistory> = Vec::new();
        let mut i: usize = 0;
        while i < channels
            invariant
                i <= channels,
                history@.len() == i,
                forall|j: int| 0 <= j < i ==> history@[j] == ChannelHistory::spec_at_rest(),
            decreases channels - i,
        {
            history.push(ChannelHistory::at_rest());
            i = i + 1;
        }
        BiquadFilter { sample_rate, channels, params, coeffs, history }
    }

    /// Resolves a partial settings bundle against the currently active
    /// parameters without touching the instance: present keys override,
    /// absent keys keep their current value, and an unrecognized
    /// filter-type identifier or invalid effective Q rejects the bundle as
    /// a whole.
    pub fn update_params(&self, s: &Settings) -> (r: Result<FilterParams, FilterError>)
        requires
            self.wf(),
        ensures
            r is Ok <==> recognizes_filter_type(s.filter_type) && is_positive_finite_bits(
                spec_or_kept(s.q, self.params.q),
            ),
            r matches Ok(p) ==> p == self.params.spec_merged(*s) && p.valid(),
            r is Err ==> r == Err::<FilterParams, FilterError>(FilterError::InvalidConfiguration),
    {
        self.params.updated_with(s)
    }

    /// Installs a resolved parameter set and the coefficient set derived
    /// from it, replacing both as one unit.  Every channel's history is
    /// left bit-identical: a parameter change switches the recursion
    /// coefficients for the next sample but never discards the signal's
    /// continuity.
    pub fn commit_update(&mut self, params: FilterParams, coeffs: Coefficients)
        requires
            old(self).wf(),
            params.valid(),
        ensures
            final(self).wf(),
            final(self).params == params,
            final(self).coeffs == coeffs,
            final(self).history@ == old(self).history@,
            final(self).sample_rate == old(self).sample_rate,
            final(self).channels == old(self).channels,
    {
        self.params = params;
        self.coeffs = coeffs;
    }

    /// Records one processed sample for a channel: the raw input `x` and
    /// the filtered output `y` enter that channel's history in the required
    /// order, and no other channel's history moves.  Naming a channel the
    /// instance does not hold yields the channel-unavailable error and
    /// changes nothing.
    pub fn commit_sample(&mut self, channel: usize, x: u32, y: u32) -> (r: Result<
        (),
        FilterError,
    >)
        requires
            old(self).wf(),
        ensures
            final(self).wf(),
            final(self).sample_rate == old(self).sample_rate,
            final(self).channels == old(self).channels,
            final(self).params == old(self).params,
            final(self).coeffs == old(self).coeffs,
            channel < old(self).channels ==> r == Ok::<(), FilterError>(()) && final(self).history@
                == old(self).history@.update(
                channel as int,
                stepped(old(self).history@[channel as int], x, y),
            ),
            channel >= old(self).channels ==> r == Err::<(), FilterError>(
                FilterError::ChannelUnavailable,
            ) && final(self).history@ == old(self).history@,
    {
        if channel < self.channels {
            let h = self.history[channel];
            self.history.set(channel, ChannelHistory { x_n1: x, x_n2: h.x_n1, y_n1: y, y_n2: h.y_n1 });
            Ok(())
        } else {
            Err(FilterError::ChannelUnavailable)
        }
    }

    /// Runs one channel's buffer through the recursion in place.  The step
    /// function `f` receives, for each sample in order, the active
    /// coefficient set, the raw input sample, and the channel history as it
    /// stands immediately before that sample; its result overwrites the
    /// buffer slot and enters the history.  No other channel's history, no
    /// parameter and no coefficient moves.  Naming a channel the instance
    /// does not hold yields the channel-unavailable error and changes
    /// nothing.
    #[verifier::loop_isolation(false)]
    pub fn process_channel<F: Fn(Coefficients, u32, ChannelHistory) -> u32>(
        &mut self,
        channel: usize,
        buffer: &mut Vec<u32>,
        f: F,
    ) -> (r: Result<(), FilterError>)
        requires
            old(self).wf(),
            forall|c: Coefficients, x: u32, h: ChannelHistory| call_requires(f, (c, x, h)),
        ensures
            final(self).wf(),
            final(self).sample_rate == old(self).sample_rate,
            final(self).channels == old(self).channels,
            final(self).params == old(self).params,
            final(self).coeffs == old(self).coeffs,
            final(buffer)@.len() == old(buffer)@.len(),
            channel < old(self).channels ==> {
                &&& r == Ok::<(), FilterError>(())
                &&& channel_processed(
                    f,
                    old(self).coeffs,
                    old(self).history@[channel as int],
                    old(buffer)@,
                    final(buffer)@,
                    final(self).history@[channel as int],
                )
                &&& final(self).history@ == old(self).history@.update(
                    channel as int,
                    final(self).history@[channel as int],
                )
            },
            channel >= old(self).channels ==> {
                &&& r == Err::<(), FilterError>(FilterError::ChannelUnavailable)
                &&& final(self).history@ == old(self).history@
                &&& final(buffer)@ == old(buffer)@
            },
    {
        if channel >= self.channels {
            return Err(FilterError::ChannelUnavailable);
        }
        let ghost xs: Seq<u32> = buffer@;
        let mut h: ChannelHistory = self.history[channel];
        let ghost h0: ChannelHistory = h;
        let mut i: usize = 0;
        while i < buffer.len()
            invariant
                i <= xs.len(),
                buffer@.len() == xs.len(),
                forall|j: int| i <= j < xs.len() ==> buffer@[j] == xs[j],
                h == histories_after(h0, xs, buffer@, i as int),
                forall|j: int|
                    0 <= j < i ==> call_ensures(
                        f,
                        (old(self).coeffs, xs[j], histories_after(h0, xs, buffer@, j)),
                        #[trigger] buffer@[j],
                    ),
            decreases xs.len() - i,
        {
            let x: u32 = buffer[i];
            let y: u32 = f(self.coeffs, x, h);
            let ghost prev_buf: Seq<u32> = buffer@;
            buffer.set(i, y);
            proof {
                lemma_histories_after_agree(h0, xs, prev_buf, xs, buffer@, i as int);
                assert forall|j: int| 0 <= j < i implies call_ensures(
                    f,
                    (old(self).coeffs, xs[j], histories_after(h0, xs, buffer@, j)),
                    #[trigger] buffer@[j],
                ) by {
                    lemma_histories_after_agree(h0, xs, prev_buf, xs, buffer@, j);
                }
            }
            h = ChannelHistory { x_n1: x, x_n2: h.x_n1, y_n1: y, y_n2: h.y_n1 };
            i = i + 1;
        }
        self.history.set(channel, h);
        Ok(())
    }

    /// Runs one audio delivery tick: each channel's buffer is filtered in
    /// place through `process_channel`, channel by channel, each with its
    /// own independent history.  A channel for which no buffer was
    /// delivered is skipped for this tick; the others are still processed,
    /// and the tick then reports the channel-unavailable error instead of
    /// success.  Buffers beyond the channel count are left untouched.
    #[verifier::loop_isolation(false)]
    pub fn process_tick<F: Fn(Coefficients, u32, ChannelHistory) -> u32 + Copy>(
        &mut self,
        buffers: &mut Vec<Vec<u32>>,
        f: F,
    ) -> (r: Result<(), FilterError>)
        requires
            old(self).wf(),
            forall|c: Coefficients, x: u32, h: ChannelHistory| call_requires(f, (c, x, h)),
        ensures
            final(self).wf(),
            final(self).sample_rate == old(self).sample_rate,
            final(self).channels == old(self).channels,
            final(self).params == old(self).params,
            final(self).coeffs == old(self).coeffs,
            final(buffers)@.len() == old(buffers)@.len(),
            forall|k: int|
                0 <= k < old(self).channels && k < old(buffers)@.len() ==> channel_processed(
                    f,
                    old(self).coeffs,
                    old(self).history@[k],
                    old(buffers)@[k]@,
                    final(buffers)@[k]@,
                    #[trigger] final(self).history@[k],
                ),
            forall|k: int|
                old(buffers)@.len() <= k < old(self).channels ==> final(self).history@[k] == old(
                    self,
                ).history@[k],
            forall|k: int|
                old(self).channels <= k < old(buffers)@.len() ==> final(buffers)@[k] == old(
                    buffers,
                )@[k],
            r == Ok::<(), FilterError>(()) <==> old(buffers)@.len() >= old(self).channels,
            r is Err ==> r == Err::<(), FilterError>(FilterError::ChannelUnavailable),
    {
        let blen: usize = buffers.len();
        let mut ch: usize = 0;
        while ch < self.channels
            invariant
                ch <= self.channels,
                self.wf(),
                self.sample_rate == old(self).sample_rate,
                self.channels == old(self).channels,
                self.params == old(self).params,
                self.coeffs == old(self).coeffs,
                buffers@.len() == old(buffers)@.len(),
                blen == old(buffers)@.len(),
                forall|k: int|
                    0 <= k < ch && k < blen ==> channel_processed(
                        f,
                        old(self).coeffs,
                        old(self).history@[k],
                        old(buffers)@[k]@,
                        buffers@[k]@,
                        #[trigger] self.history@[k],
                    ),
                forall|k: int|
                    0 <= k < self.history@.len() && !(k < ch && k < blen)
                        ==> #[trigger] self.history@[k] == old(self).history@[k],
                forall|k: int|
                    0 <= k < buffers@.len() && !(k < ch) ==> #[trigger] buffers@[k] == old(
                        buffers,
                    )@[k],
            decreases self.channels - ch,
        {
            if ch < blen {
                let mut taken: Vec<u32> = Vec::new();
                buffers.set_and_swap(ch, &mut taken);
                let _processed = self.process_channel(ch, &mut taken, f);
                buffers.set_and_swap(ch, &mut taken);
            }
            ch = ch + 1;
        }
        if blen >= self.channels {
            Ok(())
        } else {
            Err(FilterError::ChannelUnavailable)
        }
    }

    /// The history of one channel, or the channel-unavailable error for an
    /// index the instance does not hold.
    pub fn history_of(&self, channel: usize) -> (r: Result<ChannelHistory, FilterError>)
        requires
            self.wf(),
        ensures
            channel < self.channels ==> r == Ok::<ChannelHistory, FilterError>(
                self.history@[channel as int],
            ),
            channel >= self.channels ==> r == Err::<ChannelHistory, FilterError>(
                FilterError::ChannelUnavailable,
            ),
    {
        if channel < self.channels {
            Ok(self.history[channel])
        } else {
            Err(FilterError::ChannelUnavailable)
        }
    }
}

} // verus!
