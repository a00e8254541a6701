//! The decisions of a reader that pulls packets from a demultiplexed stream and
//! decodes those of one track.
//!
//! The reader asks the demultiplexer for the next packet and hands what came back
//! to [`read_step`], which says whether to decode the packet, pass over it and ask
//! again, report the end of the stream, or give up with the error.
use vstd::prelude::*;

verus! {

/// What the demultiplexer handed back when asked for the next packet.
#[derive(Clone, Copy, Debug, PartialEq, Eq)]
pub enum PacketEvent {
    /// A packet that belongs to the track with id `track_id`.
    Packet { track_id: u32 },
    /// The stream has run out.
    EndOfStream,
    /// The demultiplexer failed for any other reason.
    Failure,
}

/// What the reader does with a [`PacketEvent`].
#[derive(Clone, Copy, Debug, PartialEq, Eq)]
pub enum ReadStep {
    /// Decode the packet and return its samples.
    Decode,
    /// The packet belongs to another track: ask for the next one.
    Skip,
    /// Report the end of the stream, which is no error.
    Finish,
    /// Return the demultiplexer's error to the caller.
    Fail,
}

/// Decides what a reader of the track `selected_track` does with `event`: only
/// packets of that track are decoded, the end of the stream ends reading without
/// an error, and every other failure is handed on.
pub fn read_step(selected_track: u32, event: PacketEvent) -> (r: ReadStep)
    ensures
        r == ReadStep::Decode <==> event == (PacketEvent::Packet { track_id: selected_track }),
        r == ReadStep::Skip <==> (event is Packet && event->track_id != selected_track),
        r == ReadStep::Finish <==> event == PacketEvent::EndOfStream,
        r == ReadStep::Fail <==> event == PacketEvent::Failure,
{
    match event {
        PacketEvent::Packet { track_id } => {
            if track_id == selected_track {
                ReadStep::Decode
            } else {
                ReadStep::Skip
            }
        },
        PacketEvent::EndOfStream => ReadStep::Finish,
        PacketEvent::Failure => ReadStep::Fail,
    }
}

} // verus!
