//! Granular synthesis settings.

use vstd::prelude::*;

verus! {

/// The envelope shape applied to each grain.
#[derive(Clone, Copy, Debug, PartialEq, Eq)]
pub enum GrainEnvelope {
    Sine,
    Triangle,
    Gaussian,
    Sinc,
}

} // verus!
