//! A verified real-time voice pitch-shifting core.
//!
//! The pipeline captures a stream of audio samples, alters their perceived
//! pitch by an adjustable factor while preserving timing, and hands the
//! synthesized samples to an independently scheduled render context through a
//! bounded single-producer/single-consumer byte channel.
//!
//! All arithmetic is fixed point: sample amplitudes are bounded integers and
//! the pitch ratio is a Q16.16 value, so every stage of the pipeline is
//! verified exactly.

pub mod params;
pub mod window;
pub mod pitch;
pub mod codec;
pub mod transport;
pub mod analysis;
pub mod synthesis;
pub mod engine;
