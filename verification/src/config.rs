use vstd::prelude::*;
use vstd::string::StringExecFns;

verus! {

/// Selects which coefficient-derivation formula is active.  Exactly one
/// variant is active at any time; unknown textual identifiers are rejected,
/// never silently defaulted.
#[derive(Clone, Copy, PartialEq, Eq, Structural, Debug)]
pub enum FilterType {
    LowPass,
    HighPass,
}

/// The recoverable faults of the engine.  Neither aborts processing as a
/// whole: an invalid configuration leaves the previous state untouched, and
/// an unavailable channel is skipped for the current tick.
#[derive(Clone, Copy, PartialEq, Eq, Structural, Debug)]
pub enum FilterError {
    /// An unrecognized filter-type identifier, or a Q value that is not a
    /// strictly positive finite number, reached the configuration layer.
    InvalidConfiguration,
    /// A channel index for which the instance holds no state was named.
    ChannelUnavailable,
}

impl FilterType {
    /// Parses the textual identifier used by the host's settings object.
    /// Exactly `"low_pass"` and `"high_pass"` are accepted.
    pub fn convert(s: &String) -> (r: Result<FilterType, FilterError>)
        ensures
            s@ == "low_pass"@ ==> r == Ok::<FilterType, FilterError>(FilterType::LowPass),
            s@ == "high_pass"@ ==> r == Ok::<FilterType, FilterError>(FilterType::HighPass),
            s@ != "low_pass"@ && s@ != "high_pass"@ ==> r == Err::<FilterType, FilterError>(
                FilterError::InvalidConfiguration,
            ),
    {
        proof {
            broadcast use vstd::string::group_string_axioms;

            reveal_strlit("low_pass");
            reveal_strlit("high_pass");
            assert("low_pass"@ != "high_pass"@) by {
                assert("low_pass"@.len() == 8);
                assert("high_pass"@.len() == 9);
            }
        }
        let lp: String = String::from_str("low_pass");
        let hp: String = String::from_str("high_pass");
        if s.eq(&lp) {
            Ok(FilterType::LowPass)
        } else if s.eq(&hp) {
            Ok(FilterType::HighPass)
        } else {
            Err(FilterError::InvalidConfiguration)
        }
    }
}

/// IEEE-754 single-precision bit patterns strictly between zero and this
/// bound are exactly the strictly positive finite values; at and above it
/// (with the sign bit clear) lie positive infinity and the NaN payloads.
pub const F32_POSITIVE_INFINITY_BITS: u32 = 0x7f80_0000;

/// IEEE-754 single-precision encoding of 200.0, the default cutoff
/// frequency in Hz used when the creation settings carry no `cutoff_freq`.
pub const DEFAULT_CUTOFF_FREQ_BITS: u32 = 0x4348_0000;

/// IEEE-754 single-precision encoding of 0.7, the default Q used when the
/// creation settings carry no `q`.
pub const DEFAULT_Q_BITS: u32 = 0x3f33_3333;

/// IEEE-754 single-precision encoding of 1.0, the lower bound of the
/// cutoff-frequency control offered to the host's UI.
pub const CUTOFF_FREQ_MIN_BITS: u32 = 0x3f80_0000;

/// IEEE-754 single-precision encoding of 10000.0, the upper bound of the
/// cutoff-frequency control offered to the host's UI.
pub const CUTOFF_FREQ_MAX_BITS: u32 = 0x461c_4000;

/// IEEE-754 single-precision encoding of 0.01, the lower bound of the Q
/// control offered to the host's UI.  Strictly positive on purpose: a zero
/// Q would put a division by zero into the coefficient derivation.
pub const Q_MIN_BITS: u32 = 0x3c23_d70a;

/// IEEE-754 single-precision encoding of 1.0, the upper bound of the Q
/// control offered to the host's UI.
pub const Q_MAX_BITS: u32 = 0x3f80_0000;

/// Law: every word the Q slider can deliver lies strictly between zero and
/// the infinity boundary, so any Q chosen from the offered range satisfies
/// the calculator's precondition against division by zero.
pub proof fn lemma_q_range_valid(bits: u32)
    requires
        Q_MIN_BITS <= bits <= Q_MAX_BITS,
    ensures
        is_positive_finite_bits(bits),
{
}

/// Holds exactly when `bits` encodes a strictly positive finite
/// single-precision value: the sign bit is clear, the word is not zero, and
/// the exponent field is not all ones (which would make it an infinity or a
/// NaN).
pub open spec fn is_positive_finite_bits(bits: u32) -> bool {
    0 < bits < F32_POSITIVE_INFINITY_BITS
}

/// A partial settings bundle as the host hands it over: any subset of the
/// three keys may be present.  Frequencies and Q values are carried as the
/// bit patterns of their single-precision encodings.
#[derive(Clone, Debug)]
pub struct Settings {
    /// Textual filter-type identifier, if the key is present.
    pub filter_type: Option<String>,
    /// Cutoff frequency in Hz (single-precision bits), if present.
    pub cutoff_freq: Option<u32>,
    /// Quality factor (single-precision bits), if present.
    pub q: Option<u32>,
}

/// The complete, resolved parameter set of a filter instance.
#[derive(Clone, Copy, PartialEq, Eq, Structural, Debug)]
pub struct FilterParams {
    pub filter_type: FilterType,
    /// Cutoff frequency in Hz, as single-precision bits.  Deliberately
    /// unconstrained relative to the Nyquist frequency: exceeding it yields
    /// degenerate but well-defined coefficients.
    pub cutoff_freq: u32,
    /// Quality factor, as single-precision bits; always strictly positive
    /// and finite, since a zero Q would put a division by zero into the
    /// coefficient derivation.
    pub q: u32,
}

/// Holds when the optional filter-type identifier is either absent or one of
/// the two recognized strings.
pub open spec fn recognizes_filter_type(o: Option<String>) -> bool {
    match o {
        Option::None => true,
        Option::Some(st) => st@ == "low_pass"@ || st@ == "high_pass"@,
    }
}

/// The filter type selected by an optional identifier, falling back to
/// `fallback` when the key is absent.  Meaningful only when the identifier
/// is recognized.
pub open spec fn spec_filter_type_choice(o: Option<String>, fallback: FilterType) -> FilterType {
    match o {
        Option::None => fallback,
        Option::Some(st) => if st@ == "low_pass"@ {
            FilterType::LowPass
        } else {
            FilterType::HighPass
        },
    }
}

/// An optional word, falling back to `fallback` when absent.
pub open spec fn spec_or_kept(o: Option<u32>, fallback: u32) -> u32 {
    match o {
        Option::None => fallback,
        Option::Some(v) => v,
    }
}

/// The parameter set used when the creation settings are entirely absent:
/// low-pass, 200 Hz, Q = 0.7.
pub open spec fn spec_default_params() -> FilterParams {
    FilterParams {
        filter_type: FilterType::LowPass,
        cutoff_freq: DEFAULT_CUTOFF_FREQ_BITS,
        q: DEFAULT_Q_BITS,
    }
}

impl FilterParams {
    /// A parameter set is valid when its Q is a strictly positive finite
    /// value; that is the calculator's precondition against division by
    /// zero.
    pub open spec fn valid(self) -> bool {
        is_positive_finite_bits(self.q)
    }

    /// The parameter set that a settings bundle turns `self` into: each
    /// present key overrides, each absent key keeps the current value.
    pub open spec fn spec_merged(self, s: Settings) -> FilterParams {
        FilterParams {
            filter_type: spec_filter_type_choice(s.filter_type, self.filter_type),
            cutoff_freq: spec_or_kept(s.cutoff_freq, self.cutoff_freq),
            q: spec_or_kept(s.q, self.q),
        }
    }

    /// The documented defaults applied at creation when settings are absent.
    pub fn defaults() -> (r: FilterParams)
        ensures
            r == spec_default_params(),
            r.valid(),
    {
        FilterParams {
            filter_type: FilterType::LowPass,
            cutoff_freq: DEFAULT_CUTOFF_FREQ_BITS,
            q: DEFAULT_Q_BITS,
        }
    }

    /// Merges a partial settings bundle into this parameter set: present
    /// keys override, absent keys keep their current value.  The merge is
    /// all-or-nothing: an unrecognized filter-type identifier or an invalid
    /// effective Q rejects the whole bundle and yields the configuration
    /// error, leaving `self` to stand unchanged at the caller.
    pub fn updated_with(&self, s: &Settings) -> (r: Result<FilterParams, FilterError>)
        requires
            self.valid(),
        ensures
            r is Ok <==> recognizes_filter_type(s.filter_type) && is_positive_finite_bits(
                spec_or_kept(s.q, self.q),
            ),
            r matches Ok(p) ==> p == self.spec_merged(*s) && p.valid(),
            r is Err ==> r == Err::<FilterParams, FilterError>(FilterError::InvalidConfiguration),
    {
        let filter_type: FilterType = match &s.filter_type {
            Option::None => self.filter_type,
            Option::Some(st) => match FilterType::convert(st) {
                Ok(t) => t,
                Err(e) => {
                    return Err(e);
                },
            },
        };
        let q: u32 = match s.q {
            Option::None => self.q,
            Option::Some(qb) => qb,
        };
        if !(0 < q && q < F32_POSITIVE_INFINITY_BITS) {
            return Err(FilterError::InvalidConfiguration);
        }
        let cutoff_freq: u32 = match s.cutoff_freq {
            Option::None => self.cutoff_freq,
            Option::Some(cb) => cb,
        };
        Ok(FilterParams { filter_type, cutoff_freq, q })
    }

    /// Resolves a creation-time settings bundle: absent keys take the
    /// documented defaults, present keys must be valid (an invalid present
    /// value is a hard error, never silently replaced by a default).
    pub fn from_settings(s: &Settings) -> (r: Result<FilterParams, FilterError>)
        ensures
            r is Ok <==> recognizes_filter_type(s.filter_type) && is_positive_finite_bits(
                spec_or_kept(s.q, DEFAULT_Q_BITS),
            ),
            r matches Ok(p) ==> p == spec_default_params().spec_merged(*s) && p.valid(),
            r is Err ==> r == Err::<FilterParams, FilterError>(FilterError::InvalidConfiguration),
    {
        let d = FilterParams::defaults();
        d.updated_with(s)
    }
}

/// The kind of control a configuration entry is rendered as.
#[derive(Clone, Debug)]
pub enum PropertyControl {
    /// A fixed list of options, each a (label, identifier) pair; the
    /// identifier is what the settings bundle carries back.
    Choice(Vec<(String, String)>),
    /// A numeric slider over an inclusive range, both bounds given as
    /// single-precision bit patterns.
    Slider(u32, u32),
}

/// One entry of the configuration UI the host renders: the settings key the
/// control writes, its human-readable label, and the control itself.
#[derive(Clone, Debug)]
pub struct PropertyDescriptor {
    pub key: String,
    pub label: String,
    pub control: PropertyControl,
}

/// The configuration UI description handed to the host: the filter-type
/// choice between exactly the two identifiers the parser accepts, the
/// cutoff-frequency slider over [1, 10000] Hz, and the Q slider over
/// [0.01, 1], whose whole range is valid for the calculator.
pub fn ui_properties() -> (r: Vec<PropertyDescriptor>)
    ensures
        r@.len() == 3,
        r@[0].key@ == "filter_type"@,
        r@[0].label@ == "Filter type"@,
        (r@[0].control matches PropertyControl::Choice(opts) && {
            &&& opts@.len() == 2
            &&& opts@[0].0@ == "Low pass"@
            &&& opts@[0].1@ == "low_pass"@
            &&& opts@[1].0@ == "High pass"@
            &&& opts@[1].1@ == "high_pass"@
            &&& recognizes_filter_type(Option::Some(opts@[0].1))
            &&& recognizes_filter_type(Option::Some(opts@[1].1))
        }),
        r@[1].key@ == "cutoff_freq"@,
        r@[1].label@ == "Cutoff frequency"@,
        (r@[1].control matches PropertyControl::Slider(lo, hi) && lo == CUTOFF_FREQ_MIN_BITS && hi
            == CUTOFF_FREQ_MAX_BITS),
        r@[2].key@ == "q"@,
        r@[2].label@ == "Q"@,
        (r@[2].control matches PropertyControl::Slider(lo, hi) && lo == Q_MIN_BITS && hi
            == Q_MAX_BITS),
{
    let mut options: Vec<(String, String)> = Vec::new();
    options.push((String::from_str("Low pass"), String::from_str("low_pass")));
    options.push((String::from_str("High pass"), String::from_str("high_pass")));
    let mut r: Vec<PropertyDescriptor> = Vec::new();
    r.push(
        PropertyDescriptor {
            key: String::from_str("filter_type"),
            label: String::from_str("Filter type"),
            control: PropertyControl::Choice(options),
        },
    );
    r.push(
        PropertyDescriptor {
            key: String::from_str("cutoff_freq"),
            label: String::from_str("Cutoff frequency"),
            control: PropertyControl::Slider(CUTOFF_FREQ_MIN_BITS, CUTOFF_FREQ_MAX_BITS),
        },
    );
    r.push(
        PropertyDescriptor {
            key: String::from_str("q"),
            label: String::from_str("Q"),
            control: PropertyControl::Slider(Q_MIN_BITS, Q_MAX_BITS),
        },
    );
    r
}

} // verus!
