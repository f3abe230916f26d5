use client::audio::{AudioPacket, PacketSequencer};
use client::media::{MediaPipeline, Outbound};

fn s(text: &str) -> String {
    text.to_string()
}

fn ids(list: &[&str]) -> Vec<String> {
    list.iter().map(|x| x.to_string()).collect()
}

fn outbound(peer: &str, sequence_number: u16, timestamp: u32, payload: &[u8]) -> Outbound {
    Outbound { peer: s(peer), packet: AudioPacket { sequence_number, timestamp, payload: payload.to_vec() } }
}

#[test]
fn block_goes_to_every_connected_peer() {
    let mut pipeline = MediaPipeline::new();
    let packets = pipeline.forward(&ids(&["alice", "carol"]), &vec![1, 2]);
    assert_eq!(packets, vec![outbound("alice", 0, 0, &[1, 2]), outbound("carol", 0, 0, &[1, 2])]);
    let packets = pipeline.forward(&ids(&["carol", "alice"]), &vec![3]);
    assert_eq!(packets, vec![outbound("carol", 1, 960, &[3]), outbound("alice", 1, 960, &[3])]);
}

#[test]
fn nobody_connected_gives_no_packets() {
    let mut pipeline = MediaPipeline::new();
    assert!(pipeline.forward(&Vec::new(), &vec![1]).is_empty());
    assert_eq!(pipeline.counters(&s("alice")), PacketSequencer { sequence_number: 0, timestamp: 0 });
}

#[test]
fn late_peer_starts_from_zero() {
    let mut pipeline = MediaPipeline::new();
    pipeline.forward(&ids(&["alice"]), &vec![1]);
    pipeline.forward(&ids(&["alice"]), &vec![2]);
    let packets = pipeline.forward(&ids(&["alice", "dave"]), &vec![3]);
    assert_eq!(packets, vec![outbound("alice", 2, 1920, &[3]), outbound("dave", 0, 0, &[3])]);
    assert_eq!(pipeline.counters(&s("alice")), PacketSequencer { sequence_number: 3, timestamp: 2880 });
    assert_eq!(pipeline.counters(&s("dave")), PacketSequencer { sequence_number: 1, timestamp: 960 });
}

#[test]
fn peer_that_dropped_out_starts_over() {
    let mut pipeline = MediaPipeline::new();
    pipeline.forward(&ids(&["alice", "carol"]), &vec![1]);
    pipeline.forward(&ids(&["carol"]), &vec![2]);
    assert_eq!(pipeline.counters(&s("alice")), PacketSequencer { sequence_number: 0, timestamp: 0 });
    let packets = pipeline.forward(&ids(&["alice", "carol"]), &vec![3]);
    assert_eq!(packets, vec![outbound("alice", 0, 0, &[3]), outbound("carol", 2, 1920, &[3])]);
}

#[test]
fn peer_listed_twice_gets_two_packets_in_step() {
    let mut pipeline = MediaPipeline::new();
    let packets = pipeline.forward(&ids(&["alice", "carol", "alice"]), &vec![9]);
    assert_eq!(
        packets,
        vec![outbound("alice", 0, 0, &[9]), outbound("carol", 0, 0, &[9]), outbound("alice", 1, 960, &[9])]
    );
    assert_eq!(pipeline.counters(&s("alice")), PacketSequencer { sequence_number: 2, timestamp: 1920 });
}

#[test]
fn each_peer_counts_for_itself_across_the_wrap() {
    let mut pipeline = MediaPipeline::new();
    let alice = ids(&["alice"]);
    let mut last = 0u16;
    for n in 0..65537u32 {
        let packets = pipeline.forward(&alice, &Vec::new());
        assert_eq!(packets.len(), 1);
        assert_eq!(packets[0].packet.sequence_number as u32, n % 65536);
        assert_eq!(packets[0].packet.timestamp, n.wrapping_mul(960));
        last = packets[0].packet.sequence_number;
    }
    assert_eq!(last, 0);
    let packets = pipeline.forward(&ids(&["alice", "bob"]), &Vec::new());
    assert_eq!(packets[0].packet.sequence_number, 1);
    assert_eq!(packets[1].packet.sequence_number, 0);
}
