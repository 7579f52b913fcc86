//! Numeric limits shared by the pipeline stages.

use vstd::prelude::*;

verus! {

/// Smallest nominal wavelength, in samples, that the pipeline accepts.
pub const MIN_WAVELENGTH: usize = 2;

/// Largest nominal wavelength, in samples, that the pipeline accepts.
/// 4096 samples cover fundamental frequencies down to below 12 Hz at 48 kHz.
pub const MAX_WAVELENGTH: usize = 4096;

/// Bound on the magnitude of a sample amplitude (24-bit audio headroom).
pub const MAX_AMPLITUDE: i32 = 0x100_0000;

/// Bound on the total number of samples a pipeline instance processes.
pub const MAX_STREAM_LEN: u64 = 0x1_0000_0000;

/// A nominal wavelength the pipeline can work with.
pub open spec fn valid_wavelength(l: int) -> bool {
    MIN_WAVELENGTH <= l <= MAX_WAVELENGTH
}

/// A sample amplitude within the pipeline's headroom.
pub open spec fn valid_amplitude(s: int) -> bool {
    -MAX_AMPLITUDE <= s <= MAX_AMPLITUDE
}

} // verus!
