//! The parameter store: named, range-clamped tunables.
//!
//! The fractional tunables are kept in thousandths (milli-units), so that the
//! "adjust by delta, clamp" rule is exact integer arithmetic; the surrounding
//! binary divides by 1000 when it needs the scalar.  Every documented default,
//! clamp bound and keyboard delta is a whole number of thousandths, so nothing
//! is lost by this representation.

use vstd::prelude::*;

verus! {

use vstd::string::StrSliceExecFns;

/// Simulation steps per second, clamped to [1, 100], in thousandths.
pub const FREQ_MIN_MILLI: i64 = 1_000;

pub const FREQ_MAX_MILLI: i64 = 100_000;

pub const FREQ_DEFAULT_MILLI: i64 = 10_000;

/// Kernel radius in cells, clamped to [1, 20]; stored whole.
pub const RAD_MIN: u32 = 1;

pub const RAD_MAX: u32 = 20;

pub const RAD_DEFAULT: u32 = 13;

/// Growth-curve mean and standard deviation, clamped to [0.01, 1], in thousandths.
pub const BELL_MIN_MILLI: i64 = 10;

pub const BELL_MAX_MILLI: i64 = 1_000;

pub const BELL_M_DEFAULT_MILLI: i64 = 120;

pub const BELL_S_DEFAULT_MILLI: i64 = 15;

/// Noise amplitude, clamped to [0, 1], in thousandths.
pub const NOISE_MIN_MILLI: i64 = 0;

pub const NOISE_MAX_MILLI: i64 = 1_000;

pub const NOISE_DEFAULT_MILLI: i64 = 100;

/// The closed set of adjustable parameter identifiers.
#[derive(Clone, Copy, Debug, PartialEq, Eq, Structural)]
pub enum ParamId {
    UpdateFreq,
    KernelRad,
    BellM,
    BellS,
    NoiseIntensity,
}

/// The tunables the update engine reads each step.
#[derive(Clone, Copy, Debug, PartialEq, Eq, Structural)]
pub struct Params {
    /// Step rate in milli-steps-per-second.
    pub update_freq_milli: i64,
    /// Neighbourhood half-width in cells.
    pub kernel_rad: u32,
    /// Growth-curve mean, in thousandths.
    pub bell_m_milli: i64,
    /// Growth-curve standard deviation, in thousandths; its floor of 0.01
    /// keeps the growth function free of division by zero.
    pub bell_s_milli: i64,
    /// Noise amplitude, in thousandths.
    pub noise_intensity_milli: i64,
}

pub open spec fn clamp_spec(v: int, lo: int, hi: int) -> int {
    if v < lo {
        lo
    } else if v > hi {
        hi
    } else {
        v
    }
}

impl Params {
    /// Every tunable inside its documented clamp range.
    pub open spec fn wf(self) -> bool {
        &&& FREQ_MIN_MILLI <= self.update_freq_milli <= FREQ_MAX_MILLI
        &&& RAD_MIN <= self.kernel_rad <= RAD_MAX
        &&& BELL_MIN_MILLI <= self.bell_m_milli <= BELL_MAX_MILLI
        &&& BELL_MIN_MILLI <= self.bell_s_milli <= BELL_MAX_MILLI
        &&& NOISE_MIN_MILLI <= self.noise_intensity_milli <= NOISE_MAX_MILLI
    }

    /// The documented default for every tunable.
    pub open spec fn default_spec() -> Params {
        Params {
            update_freq_milli: FREQ_DEFAULT_MILLI,
            kernel_rad: RAD_DEFAULT,
            bell_m_milli: BELL_M_DEFAULT_MILLI,
            bell_s_milli: BELL_S_DEFAULT_MILLI,
            noise_intensity_milli: NOISE_DEFAULT_MILLI,
        }
    }

    pub fn defaults() -> (r: Params)
        ensures
            r == Params::default_spec(),
            r.wf(),
    {
        Params {
            update_freq_milli: FREQ_DEFAULT_MILLI,
            kernel_rad: RAD_DEFAULT,
            bell_m_milli: BELL_M_DEFAULT_MILLI,
            bell_s_milli: BELL_S_DEFAULT_MILLI,
            noise_intensity_milli: NOISE_DEFAULT_MILLI,
        }
    }

    /// The store after "adjust `id` by `delta_milli`, clamp".
    ///
    /// The radius is kept whole, so its adjustment runs in thousandths and
    /// truncates back to a whole cell count, as the stored value does.
    pub open spec fn adjusted(self, id: ParamId, delta_milli: i64) -> Params {
        match id {
            ParamId::UpdateFreq => Params {
                update_freq_milli: clamp_spec(
                    self.update_freq_milli + delta_milli,
                    FREQ_MIN_MILLI as int,
                    FREQ_MAX_MILLI as int,
                ) as i64,
                ..self
            },
            ParamId::KernelRad => Params {
                kernel_rad: (clamp_spec(
                    self.kernel_rad * 1000 + delta_milli,
                    RAD_MIN * 1000,
                    RAD_MAX * 1000,
                ) / 1000) as u32,
                ..self
            },
            ParamId::BellM => Params {
                bell_m_milli: clamp_spec(
                    self.bell_m_milli + delta_milli,
                    BELL_MIN_MILLI as int,
                    BELL_MAX_MILLI as int,
                ) as i64,
                ..self
            },
            ParamId::BellS => Params {
                bell_s_milli: clamp_spec(
                    self.bell_s_milli + delta_milli,
                    BELL_MIN_MILLI as int,
                    BELL_MAX_MILLI as int,
                ) as i64,
                ..self
            },
            ParamId::NoiseIntensity => Params {
                noise_intensity_milli: clamp_spec(
                    self.noise_intensity_milli + delta_milli,
                    NOISE_MIN_MILLI as int,
                    NOISE_MAX_MILLI as int,
                ) as i64,
                ..self
            },
        }
    }

    /// Adjust one tunable by a signed delta and clamp it into its range.
    /// However large or negative the delta, the result stays in range.
    pub fn adjust(&mut self, id: ParamId, delta_milli: i64)
        requires
            old(self).wf(),
        ensures
            *final(self) == old(self).adjusted(id, delta_milli),
            final(self).wf(),
    {
        match id {
            ParamId::UpdateFreq => {
                self.update_freq_milli = clamp_milli(
                    self.update_freq_milli,
                    delta_milli,
                    FREQ_MIN_MILLI,
                    FREQ_MAX_MILLI,
                );
            },
            ParamId::KernelRad => {
                let milli: i64 = (self.kernel_rad as i64) * 1000;
                let clamped: i64 = clamp_milli(
                    milli,
                    delta_milli,
                    (RAD_MIN as i64) * 1000,
                    (RAD_MAX as i64) * 1000,
                );
                self.kernel_rad = ((clamped as u64) / 1000) as u32;
            },
            ParamId::BellM => {
                self.bell_m_milli = clamp_milli(
                    self.bell_m_milli,
                    delta_milli,
                    BELL_MIN_MILLI,
                    BELL_MAX_MILLI,
                );
            },
            ParamId::BellS => {
                self.bell_s_milli = clamp_milli(
                    self.bell_s_milli,
                    delta_milli,
                    BELL_MIN_MILLI,
                    BELL_MAX_MILLI,
                );
            },
            ParamId::NoiseIntensity => {
                self.noise_intensity_milli = clamp_milli(
                    self.noise_intensity_milli,
                    delta_milli,
                    NOISE_MIN_MILLI,
                    NOISE_MAX_MILLI,
                );
            },
        }
    }
}

/// However large the delta's magnitude and whatever its sign — including
/// over repeated adjustments, since well-formedness is both assumed and
/// re-established — an adjustment never leaves a tunable outside its
/// documented clamp bounds.
pub proof fn lemma_adjust_in_bounds(p: Params, id: ParamId, delta_milli: i64)
    requires
        p.wf(),
    ensures
        p.adjusted(id, delta_milli).wf(),
{
}

/// Add a delta to a milli-unit value and clamp, with the sum taken exactly:
/// however large the delta, the sum never wraps, so the clamp sees the true
/// mathematical value.
fn clamp_milli(v: i64, delta: i64, lo: i64, hi: i64) -> (r: i64)
    requires
        lo <= hi,
    ensures
        r == clamp_spec(v + delta, lo as int, hi as int),
{
    let sum: i128 = v as i128 + delta as i128;
    if sum < lo as i128 {
        lo
    } else if sum > hi as i128 {
        hi
    } else {
        sum as i64
    }
}

/// Map a parameter's wire name to its identifier; an unrecognised name is
/// `None`, which callers treat as a silent no-op.
pub open spec fn parse_param_spec(s: Seq<char>) -> Option<ParamId> {
    if s == "update_freq"@ {
        Some(ParamId::UpdateFreq)
    } else if s == "kernel_rad"@ {
        Some(ParamId::KernelRad)
    } else if s == "bell_m"@ {
        Some(ParamId::BellM)
    } else if s == "bell_s"@ {
        Some(ParamId::BellS)
    } else if s == "noise_intensity"@ {
        Some(ParamId::NoiseIntensity)
    } else {
        None
    }
}

/// Character-wise string equality.
fn str_eq(a: &str, b: &str) -> (r: bool)
    ensures
        r == (a@ == b@),
{
    let alen = a.unicode_len();
    let blen = b.unicode_len();
    if alen != blen {
        return false;
    }
    let mut i: usize = 0;
    while i < alen
        invariant
            a@.len() == alen,
            b@.len() == blen,
            alen == blen,
            i <= alen,
            forall|j: int| 0 <= j < i ==> a@[j] == b@[j],
        decreases alen - i,
    {
        if a.get_char(i) != b.get_char(i) {
            return false;
        }
        i = i + 1;
    }
    proof {
        assert(a@ =~= b@);
    }
    true
}

pub fn parse_param(name: &str) -> (r: Option<ParamId>)
    ensures
        r == parse_param_spec(name@),
{
    if str_eq(name, "update_freq") {
        Some(ParamId::UpdateFreq)
    } else if str_eq(name, "kernel_rad") {
        Some(ParamId::KernelRad)
    } else if str_eq(name, "bell_m") {
        Some(ParamId::BellM)
    } else if str_eq(name, "bell_s") {
        Some(ParamId::BellS)
    } else if str_eq(name, "noise_intensity") {
        Some(ParamId::NoiseIntensity)
    } else {
        None
    }
}

} // verus!
