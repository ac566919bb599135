use crate::error::TempoError;
use vstd::prelude::*;

verus! {

/// What the container reports of one track.
#[derive(Clone, Copy, Debug, PartialEq, Eq, Structural)]
pub struct TrackInfo {
    pub id: u32,
    pub sample_rate: Option<u32>,
}

/// The track that decoding follows.
#[derive(Clone, Copy, Debug, PartialEq, Eq, Structural)]
pub struct SelectedTrack {
    pub id: u32,
    pub sample_rate: u32,
}

/// The first track whose sample rate is known, or `NoTrack`.
pub open spec fn select_spec(tracks: Seq<TrackInfo>) -> Result<SelectedTrack, TempoError>
    decreases tracks.len(),
{
    if tracks.len() == 0 {
        Err(TempoError::NoTrack)
    } else {
        match tracks[0].sample_rate {
            Some(rate) => Ok(SelectedTrack { id: tracks[0].id, sample_rate: rate }),
            None => select_spec(tracks.drop_first()),
        }
    }
}

/// The input must exist before anything is read from it.
pub fn check_source(exists: bool) -> (r: Result<(), TempoError>)
    ensures
        r == (if exists {
            Ok(())
        } else {
            Err(TempoError::NotFound)
        }),
{
    if exists {
        Ok(())
    } else {
        Err(TempoError::NotFound)
    }
}

/// Picks the first track whose sample rate is known.
pub fn select_track(tracks: &Vec<TrackInfo>) -> (r: Result<SelectedTrack, TempoError>)
    ensures
        r == select_spec(tracks@),
{
    let mut i: usize = 0;
    assert(tracks@.subrange(0, tracks@.len() as int) =~= tracks@);
    while i < tracks.len()
        invariant
            i <= tracks.len(),
            select_spec(tracks@) == select_spec(tracks@.subrange(i as int, tracks@.len() as int)),
        decreases tracks.len() - i,
    {
        let t = tracks[i];
        proof {
            let rest = tracks@.subrange(i as int, tracks@.len() as int);
            assert(rest.drop_first() =~= tracks@.subrange(i + 1, tracks@.len() as int));
        }
        match t.sample_rate {
            Some(rate) => {
                return Ok(SelectedTrack { id: t.id, sample_rate: rate });
            },
            None => {},
        }
        i = i + 1;
    }
    Err(TempoError::NoTrack)
}

/// The outcome of asking the container for its next packet.
#[derive(Clone, Copy, Debug, PartialEq, Eq, Structural)]
pub enum PacketEvent {
    Packet { track_id: u32 },
    EndOfStream,
    ResetRequired,
    ReadFailed,
}

/// The outcome of decoding one packet.
#[derive(Clone, Copy, Debug, PartialEq, Eq, Structural)]
pub enum DecodeEvent {
    Decoded,
    Malformed,
    ResetRequired,
    Failed,
}

/// What the packet loop does next.
#[derive(Clone, Copy, Debug, PartialEq, Eq, Structural)]
pub enum LoopAction {
    /// Decode the packet just read.
    Decode,
    /// Downmix the decoded audio into the mono buffer.
    Append,
    /// Drop this packet and read the next one.
    Skip,
    /// The stream ended cleanly.
    Stop,
    /// Abort with this error.
    Fail(TempoError),
}

pub open spec fn packet_action(ev: PacketEvent, selected: u32) -> LoopAction {
    match ev {
        PacketEvent::Packet { track_id } => if track_id == selected {
            LoopAction::Decode
        } else {
            LoopAction::Skip
        },
        PacketEvent::EndOfStream => LoopAction::Stop,
        PacketEvent::ResetRequired => LoopAction::Fail(TempoError::ResetRequired),
        PacketEvent::ReadFailed => LoopAction::Fail(TempoError::PacketReadError),
    }
}

pub open spec fn decode_action(ev: DecodeEvent) -> LoopAction {
    match ev {
        DecodeEvent::Decoded => LoopAction::Append,
        DecodeEvent::Malformed => LoopAction::Skip,
        DecodeEvent::ResetRequired => LoopAction::Fail(TempoError::ResetRequired),
        DecodeEvent::Failed => LoopAction::Fail(TempoError::DecodeFailed),
    }
}

/// Decides what to do with the result of reading the next packet: packets of
/// other tracks are skipped, a clean end stops, anything else is fatal.
pub fn on_packet(ev: PacketEvent, selected: u32) -> (r: LoopAction)
    ensures
        r == packet_action(ev, selected),
{
    match ev {
        PacketEvent::Packet { track_id } => if track_id == selected {
            LoopAction::Decode
        } else {
            LoopAction::Skip
        },
        PacketEvent::EndOfStream => LoopAction::Stop,
        PacketEvent::ResetRequired => LoopAction::Fail(TempoError::ResetRequired),
        PacketEvent::ReadFailed => LoopAction::Fail(TempoError::PacketReadError),
    }
}

/// Decides what to do with the result of decoding a packet: a malformed
/// packet is skipped, a reset request or any other failure is fatal.
pub fn on_decode(ev: DecodeEvent) -> (r: LoopAction)
    ensures
        r == decode_action(ev),
{
    match ev {
        DecodeEvent::Decoded => LoopAction::Append,
        DecodeEvent::Malformed => LoopAction::Skip,
        DecodeEvent::ResetRequired => LoopAction::Fail(TempoError::ResetRequired),
        DecodeEvent::Failed => LoopAction::Fail(TempoError::DecodeFailed),
    }
}

} // verus!
