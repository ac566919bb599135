use vstd::prelude::*;

verus! {

/// The ways one tempo estimation can fail.
#[derive(Clone, Copy, Debug, PartialEq, Eq, Structural)]
pub enum TempoError {
    /// The input path does not exist.
    NotFound,
    /// No supported container format matches the stream.
    ProbeError,
    /// No track reports a sample rate.
    NoTrack,
    /// No decoder can be built for the selected track.
    DecoderInitError,
    /// Reading the next packet failed for a reason other than end of stream.
    PacketReadError,
    /// A packet failed to decode for a reason other than malformed data.
    DecodeFailed,
    /// The decoder asked to be reinitialised mid-stream.
    ResetRequired,
    /// The tempo estimator rejected its configuration.
    EstimatorInitError,
    /// The tempo estimator failed on one window.
    TempoUpdateError,
    /// No window produced a valid, confident observation.
    NoBeatsDetected,
}

} // verus!
