//! Register-free integer primitives shared by the PS1 SPU and the PS2 SPU2.

pub mod adpcm;
pub mod adsr;
pub mod effects;
pub mod fixed;
pub mod graph;
pub mod interpolation;
pub mod laws;
pub mod mixer;
pub mod noise;
pub mod pitch;
pub mod reverb;

pub use self::adpcm::{decode_block, AdpcmError, AdpcmFlags, AdpcmHistory, DecodedBlock};
pub use self::adsr::{Envelope, EnvelopeConfig, EnvelopePhase, EnvelopeRate};
pub use self::fixed::{clamp_i16, clamp_i64_to_i16, mac_q15, multiply_q15};
pub use self::interpolation::{GaussianInterpolator, GAUSSIAN_WEIGHTS};
pub use self::noise::NoiseGenerator;
pub use self::pitch::{PitchCounter, PitchStep};
pub use self::reverb::RingBufferAddress;
