use vstd::prelude::*;

verus! {

/// Sample rate, in Hz, of every buffer that flows through the engine.
pub const SAMPLE_RATE: u32 = 48_000;

/// Samples in one 10 ms mono frame at [`SAMPLE_RATE`].
pub const FRAME_SAMPLES: usize = 480;

/// One mono sample, held as the IEEE-754 bit pattern of a 32-bit float.
/// The library only moves samples around; the arithmetic on their values is
/// done by the caller. The bit pattern of silence (`0.0`) is `0`.
pub type SampleBits = u32;

/// Bit pattern of the silent sample `0.0`.
pub const SILENCE: SampleBits = 0;

} // verus!

verus! {

/// Makes `std::io::Error` known to the verifier, as an opaque value.
#[verifier::external_type_specification]
#[verifier::external_body]
pub struct ExIoError(std::io::Error);

/// Why the audio engine could not do what was asked.
#[derive(Debug)]
pub enum AudioError {
    /// No device of that name is present.
    DeviceNotFound(String),
    /// The audio backend refused; holds its message.
    Cpal(String),
    /// A file could not be decoded; holds the reason.
    Decode(String),
    /// Reading a file failed.
    Io(std::io::Error),
}

} // verus!
