use sonex::{read_step, PacketEvent, ReadStep};

#[test]
fn packet_of_the_selected_track_is_decoded() {
    assert_eq!(read_step(3, PacketEvent::Packet { track_id: 3 }), ReadStep::Decode);
}

#[test]
fn packet_of_another_track_is_skipped() {
    assert_eq!(read_step(3, PacketEvent::Packet { track_id: 4 }), ReadStep::Skip);
    assert_eq!(read_step(0, PacketEvent::Packet { track_id: u32::MAX }), ReadStep::Skip);
}

#[test]
fn end_of_stream_finishes_without_error() {
    assert_eq!(read_step(1, PacketEvent::EndOfStream), ReadStep::Finish);
}

#[test]
fn other_failures_are_handed_on() {
    assert_eq!(read_step(1, PacketEvent::Failure), ReadStep::Fail);
}
