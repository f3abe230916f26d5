use client::audio::{
    decode_opus, receive_audio, send_audio, Direction, MediaState, PacketSequencer, ReceiveStep,
    TrackRead, CHANNELS, MAX_SAMPLES_PER_PACKET, PAYLOAD_TYPE, SAMPLES_PER_FRAME, SAMPLE_RATE, SSRC,
};
use client::error::ClientError;

#[test]
fn format_constants() {
    assert_eq!(SAMPLE_RATE, 48000);
    assert_eq!(CHANNELS, 2);
    assert_eq!(SAMPLES_PER_FRAME, 960);
    assert_eq!(SAMPLE_RATE / 50, SAMPLES_PER_FRAME);
    assert_eq!(PAYLOAD_TYPE, 111);
    assert_eq!(SSRC, 200566587);
}

#[test]
fn first_packet_starts_at_zero() {
    let mut sequencer = PacketSequencer::new();
    let packet = sequencer.next_packet(vec![1, 2, 3]);
    assert_eq!(packet.sequence_number, 0);
    assert_eq!(packet.timestamp, 0);
    assert_eq!(packet.payload, vec![1, 2, 3]);
    assert_eq!(sequencer.sequence_number, 1);
    assert_eq!(sequencer.timestamp, 960);
}

#[test]
fn packets_step_by_one_and_by_960() {
    let packets = send_audio(vec![vec![1], vec![2], vec![3]]);
    assert_eq!(packets.len(), 3);
    for (i, packet) in packets.iter().enumerate() {
        assert_eq!(packet.sequence_number as usize, i);
        assert_eq!(packet.timestamp as usize, 960 * i);
        assert_eq!(packet.payload, vec![(i + 1) as u8]);
    }
}

#[test]
fn empty_session_gives_no_packets() {
    assert!(send_audio(Vec::new()).is_empty());
}

#[test]
fn sequence_number_wraps() {
    let mut sequencer = PacketSequencer { sequence_number: 65535, timestamp: 0 };
    let packet = sequencer.next_packet(Vec::new());
    assert_eq!(packet.sequence_number, 65535);
    assert_eq!(sequencer.sequence_number, 0);
}

#[test]
fn timestamp_wraps() {
    let mut sequencer = PacketSequencer { sequence_number: 7, timestamp: 4294966656 };
    let packet = sequencer.next_packet(Vec::new());
    assert_eq!(packet.timestamp, 4294966656);
    assert_eq!(sequencer.timestamp, 320);
    assert_eq!(sequencer.sequence_number, 8);
}

#[test]
fn long_session_wraps_the_sequence_number() {
    let frames: Vec<Vec<u8>> = (0..65538).map(|_| Vec::new()).collect();
    let packets = send_audio(frames);
    assert_eq!(packets[65535].sequence_number, 65535);
    assert_eq!(packets[65536].sequence_number, 0);
    assert_eq!(packets[65537].sequence_number, 1);
    assert_eq!(packets[65537].timestamp, 62915520);
    for pair in packets.windows(2) {
        assert_eq!(pair[1].sequence_number, pair[0].sequence_number.wrapping_add(1));
        assert_eq!(pair[1].timestamp.wrapping_sub(pair[0].timestamp), 960);
    }
}

#[test]
fn decoded_block_keeps_the_samples_of_both_channels() {
    assert_eq!(decode_opus(vec![5, 6, 7, 8], 1), vec![5, 6]);
    assert_eq!(decode_opus(vec![5, 6, 7, 8], 2), vec![5, 6, 7, 8]);
    assert_eq!(decode_opus(vec![5, 6, 7, 8], 3), vec![5, 6, 7, 8]);
    assert_eq!(decode_opus(vec![5, 6, 7, 8, 9], 2), vec![5, 6, 7, 8]);
    assert_eq!(decode_opus(vec![5, 6, 7], 0), Vec::<i16>::new());
    assert_eq!(decode_opus(Vec::new(), 0), Vec::<i16>::new());
    assert_eq!(decode_opus(vec![1, 2], usize::MAX), vec![1, 2]);
    let frame: Vec<i16> = (0..MAX_SAMPLES_PER_PACKET as i16 * 2).collect();
    assert_eq!(decode_opus(frame.clone(), 960).len(), 1920);
    assert_eq!(decode_opus(frame.clone(), 960), frame[..1920].to_vec());
}

#[test]
fn read_error_ends_the_track() {
    assert_eq!(receive_audio(TrackRead::Failed), ReceiveStep::Stop);
}

#[test]
fn undecodable_packet_is_skipped() {
    assert_eq!(receive_audio(TrackRead::Undecodable), ReceiveStep::Skip);
}

#[test]
fn decoded_packet_is_played() {
    let read = TrackRead::Decoded { buffer: vec![1, -1, 2, -2, 0, 0], samples: 2 };
    assert_eq!(receive_audio(read), ReceiveStep::Play(vec![1, -1, 2, -2]));
}

#[test]
fn device_failure_disables_one_direction() {
    let mut state = MediaState::new();
    assert!(state.capture && state.playback);
    assert_eq!(state.device_failed(Direction::Capture), ClientError::DeviceError);
    assert!(!state.capture);
    assert!(state.playback);
    assert_eq!(state.device_failed(Direction::Playback), ClientError::DeviceError);
    assert!(!state.capture && !state.playback);
}
