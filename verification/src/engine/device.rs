use super::SAMPLE_RATE;
use vstd::prelude::*;

verus! {

/// A range of output configurations that a device offers: every sample rate
/// from `min_sample_rate` to `max_sample_rate`, in one sample format.
#[derive(Clone, Copy, Debug, PartialEq, Eq)]
pub struct SupportedRange {
    /// Lowest sample rate of the range, in Hz.
    pub min_sample_rate: u32,
    /// Highest sample rate of the range, in Hz.
    pub max_sample_rate: u32,
    /// Whether the samples of the format are 32-bit floats, as the engine's.
    pub float_samples: bool,
}

impl SupportedRange {
    /// The range holds the engine's sample rate.
    pub open spec fn usable(self) -> bool {
        self.min_sample_rate <= SAMPLE_RATE <= self.max_sample_rate
    }

    /// The range holds the engine's sample rate and needs no conversion of
    /// samples.
    pub open spec fn preferred(self) -> bool {
        self.usable() && self.float_samples
    }
}

/// `at` is the first place in `configs` whose range is preferred.
pub open spec fn first_preferred(configs: Seq<SupportedRange>, at: int) -> bool {
    &&& 0 <= at < configs.len()
    &&& configs[at].preferred()
    &&& forall|j: int| 0 <= j < at ==> !(#[trigger] configs[j]).preferred()
}

/// `at` is the first place in `configs` whose range is usable.
pub open spec fn first_usable(configs: Seq<SupportedRange>, at: int) -> bool {
    &&& 0 <= at < configs.len()
    &&& configs[at].usable()
    &&& forall|j: int| 0 <= j < at ==> !(#[trigger] configs[j]).usable()
}

/// Picks the range to open the output stream with, at the engine's sample
/// rate: the first preferred range; if none is preferred, the first usable
/// one; if none is usable, none.
pub fn pick_config(configs: &[SupportedRange]) -> (choice: Option<usize>)
    ensures
        match choice {
            Some(at) => if exists|j: int|
                0 <= j < configs@.len() && (#[trigger] configs@[j]).preferred() {
                first_preferred(configs@, at as int)
            } else {
                first_usable(configs@, at as int)
            },
            None => forall|j: int|
                0 <= j < configs@.len() ==> !(#[trigger] configs@[j]).usable(),
        },
{
    let n: usize = configs.len();
    let mut fallback: Option<usize> = None;
    for i in 0..n
        invariant
            n == configs@.len(),
            forall|j: int| 0 <= j < i ==> !(#[trigger] configs@[j]).preferred(),
            match fallback {
                Some(at) => at < i && first_usable(configs@, at as int),
                None => forall|j: int| 0 <= j < i ==> !(#[trigger] configs@[j]).usable(),
            },
    {
        let range: &SupportedRange = &configs[i];
        if range.min_sample_rate <= SAMPLE_RATE && range.max_sample_rate >= SAMPLE_RATE {
            if range.float_samples {
                return Some(i);
            }
            if fallback.is_none() {
                fallback = Some(i);
            }
        }
    }
    fallback
}

} // verus!
