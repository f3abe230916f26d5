//! Framing of captured audio into packets, and what to do with what arrives.
//!
//! Audio is sampled at 48 kHz on two channels and cut into blocks of 20 ms,
//! 960 samples per channel. Each block travels in one packet. A sender numbers
//! its packets from zero and stamps them in samples; both counters wrap.

use crate::error::ClientError;
use vstd::prelude::*;

verus! {

/// Samples per second.
pub const SAMPLE_RATE: u32 = 48000;

/// Interleaved channels.
pub const CHANNELS: u16 = 2;

/// Samples per channel in one block of 20 ms.
pub const SAMPLES_PER_FRAME: u32 = 960;

/// The payload type that marks a packet as Opus audio.
pub const PAYLOAD_TYPE: u8 = 111;

/// The synchronization source that this client's packets carry.
pub const SSRC: u32 = 200566587;

/// The size in bytes of the buffer that one inbound packet is read into.
pub const RECEIVE_BUFFER_SIZE: usize = 2048;

/// One outbound audio packet.
#[derive(Debug, PartialEq, Eq)]
pub struct AudioPacket {
    pub sequence_number: u16,
    pub timestamp: u32,
    pub payload: Vec<u8>,
}

/// The sequence number of the packet that follows `count` packets after one
/// numbered `start`.
pub open spec fn sequence_after(start: u16, count: nat) -> u16 {
    ((start + count) % 0x1_0000) as u16
}

/// The timestamp of the packet that follows `count` packets after one stamped
/// `start`.
pub open spec fn timestamp_after(start: u32, count: nat) -> u32 {
    ((start + 960 * count) % 0x1_0000_0000) as u32
}

/// The packets that a sender starting at `sequence_number` and `timestamp`
/// makes of `frames`: one per frame, in order.
pub open spec fn packets_of(sequence_number: u16, timestamp: u32, frames: Seq<Seq<u8>>) -> Seq<
    (u16, u32, Seq<u8>),
> {
    Seq::new(
        frames.len(),
        |i: int| (sequence_after(sequence_number, i as nat), timestamp_after(timestamp, i as nat),
            frames[i]),
    )
}

/// The frames of a capture session, each as its bytes.
pub open spec fn payloads(frames: Seq<Vec<u8>>) -> Seq<Seq<u8>> {
    Seq::new(frames.len(), |i: int| frames[i]@)
}

/// Mathematical value of a packet: its number, its stamp and its payload.
impl View for AudioPacket {
    type V = (u16, u32, Seq<u8>);

    open spec fn view(&self) -> (u16, u32, Seq<u8>) {
        (self.sequence_number, self.timestamp, self.payload@)
    }
}

impl DeepView for AudioPacket {
    type V = (u16, u32, Seq<u8>);

    open spec fn deep_view(&self) -> (u16, u32, Seq<u8>) {
        self@
    }
}

/// Consecutive packets differ by one in their number and by one block of 960
/// samples in their stamp, each modulo the width of its counter.
pub proof fn lemma_consecutive_packets(sequence_number: u16, timestamp: u32, count: nat)
    ensures
        sequence_after(sequence_number, count + 1) as int == (sequence_after(
            sequence_number,
            count,
        ) + 1) % 0x1_0000,
        timestamp_after(timestamp, count + 1) as int == (timestamp_after(timestamp, count) + 960)
            % 0x1_0000_0000,
        sequence_after(sequence_number, count + 1) != sequence_after(sequence_number, count),
        timestamp_after(timestamp, count + 1) != timestamp_after(timestamp, count),
{
}

/// In the packets of a capture session each packet but the first follows its
/// predecessor by one in its number and by 960 in its stamp, each modulo the
/// width of its counter, and carries its own frame.
pub proof fn lemma_packets_in_step(
    sequence_number: u16,
    timestamp: u32,
    frames: Seq<Seq<u8>>,
    i: int,
)
    requires
        0 <= i,
        i + 1 < frames.len(),
    ensures
        ({
            let packets = packets_of(sequence_number, timestamp, frames);
            &&& packets.len() == frames.len()
            &&& packets[i + 1].0 as int == (packets[i].0 + 1) % 0x1_0000
            &&& packets[i + 1].1 as int == (packets[i].1 + 960) % 0x1_0000_0000
            &&& packets[i + 1].0 != packets[i].0
            &&& packets[i + 1].1 != packets[i].1
            &&& packets[i].2 == frames[i]
            &&& packets[i + 1].2 == frames[i + 1]
        }),
{
}

/// The counters of one sender.
#[derive(Clone, Copy, Debug, PartialEq, Eq, Structural)]
pub struct PacketSequencer {
    pub sequence_number: u16,
    pub timestamp: u32,
}

impl PacketSequencer {
    /// A sender that has sent nothing: both counters are zero.
    pub fn new() -> (sequencer: PacketSequencer)
        ensures
            sequencer.sequence_number == 0,
            sequencer.timestamp == 0,
    {
        PacketSequencer { sequence_number: 0, timestamp: 0 }
    }

    /// Makes the next packet of `payload` and advances the counters: the
    /// packet carries the counters as they were; afterwards the number is one
    /// higher and the stamp 960 higher, each wrapped to its width.
    pub fn next_packet(&mut self, payload: Vec<u8>) -> (packet: AudioPacket)
        ensures
            packet@ == (old(self).sequence_number, old(self).timestamp, payload@),
            final(self).sequence_number == sequence_after(old(self).sequence_number, 1),
            final(self).timestamp == timestamp_after(old(self).timestamp, 1),
    {
        let packet = AudioPacket {
            sequence_number: self.sequence_number,
            timestamp: self.timestamp,
            payload,
        };
        self.sequence_number = self.sequence_number.wrapping_add(1);
        self.timestamp = self.timestamp.wrapping_add(SAMPLES_PER_FRAME);
        packet
    }
}

/// Packs a capture session into packets: one packet per frame, in capture
/// order, numbered from zero and stamped from zero in steps of 960 samples,
/// both wrapping.
pub fn send_audio(frames: Vec<Vec<u8>>) -> (packets: Vec<AudioPacket>)
    ensures
        packets.deep_view() == packets_of(0, 0, payloads(frames@)),
{
    let mut sequencer = PacketSequencer::new();
    let mut packets: Vec<AudioPacket> = Vec::new();
    let mut i: usize = 0;
    while i < frames.len()
        invariant
            i <= frames.len(),
            packets.len() == i,
            sequencer.sequence_number == sequence_after(0, i as nat),
            sequencer.timestamp == timestamp_after(0, i as nat),
            forall|k: int|
                0 <= k < i ==> (#[trigger] packets[k])@ == (
                    sequence_after(0, k as nat),
                    timestamp_after(0, k as nat),
                    frames[k]@,
                ),
        decreases frames.len() - i,
    {
        proof {
            lemma_consecutive_packets(0, 0, i as nat);
        }
        let packet = sequencer.next_packet(frames[i].clone());
        packets.push(packet);
        i += 1;
    }
    packets
}

/// A direction of media.
#[derive(Clone, Copy, Debug, PartialEq, Eq, Structural)]
pub enum Direction {
    Capture,
    Playback,
}

/// Which directions of media are in use in this session.
#[derive(Clone, Copy, Debug, PartialEq, Eq, Structural)]
pub struct MediaState {
    pub capture: bool,
    pub playback: bool,
}

impl MediaState {
    /// Both directions in use.
    pub fn new() -> (state: MediaState)
        ensures
            state.capture && state.playback,
    {
        MediaState { capture: true, playback: true }
    }

    /// The device of `direction` is unavailable: that direction is disabled
    /// for the session, the other stays as it is, and the failure is to be
    /// logged as a `DeviceError`.
    pub fn device_failed(&mut self, direction: Direction) -> (error: ClientError)
        ensures
            error == ClientError::DeviceError,
            final(self).capture == (old(self).capture && direction != Direction::Capture),
            final(self).playback == (old(self).playback && direction != Direction::Playback),
    {
        match direction {
            Direction::Capture => {
                self.capture = false;
            },
            Direction::Playback => {
                self.playback = false;
            },
        }
        ClientError::DeviceError
    }
}

/// What the receive loop of one inbound track does next.
#[derive(Debug, PartialEq, Eq)]
pub enum ReceiveStep {
    /// Hand the block to a playback stream sized to it.
    Play(Vec<i16>),
    /// Drop the packet and read the next one.
    Skip,
    /// End this track's loop.
    Stop,
}

/// What reading one packet from an inbound track gave.
#[derive(Debug, PartialEq, Eq)]
pub enum TrackRead {
    /// The track could not be read.
    Failed,
    /// A packet arrived whose payload could not be decoded.
    Undecodable,
    /// A packet arrived and was decoded into `buffer`, with the values of the
    /// channels interleaved; `samples` is what the decoder counted for each
    /// channel.
    Decoded { buffer: Vec<i16>, samples: usize },
}

/// The most samples per channel that one packet can decode to: 120 ms.
pub const MAX_SAMPLES_PER_PACKET: usize = 5760;

/// The decoded block: `samples` values for each of the [`CHANNELS`] channels
/// from the start of `buffer`, or all of `buffer` where it holds fewer.
pub open spec fn pcm_block(buffer: Seq<i16>, samples: nat) -> Seq<i16> {
    if CHANNELS * samples <= buffer.len() {
        buffer.take(CHANNELS * samples)
    } else {
        buffer
    }
}

/// Cuts the decoder's buffer down to what it decoded: `samples` values for
/// each channel.
pub fn decode_opus(buffer: Vec<i16>, samples: usize) -> (block: Vec<i16>)
    ensures
        block@ == pcm_block(buffer@, samples as nat),
{
    let mut block = buffer;
    let channels = CHANNELS as usize;
    if samples <= block.len() / channels {
        assert(channels * samples == 2 * samples) by (nonlinear_arith)
            requires
                channels == 2,
        ;
        block.truncate(channels * samples);
    }
    block
}

/// Decides what one read of an inbound track leads to: a read error ends the
/// track's loop, a payload that does not decode is dropped, and a decoded
/// block is played.
pub fn receive_audio(read: TrackRead) -> (step: ReceiveStep)
    ensures
        match read {
            TrackRead::Failed => step == ReceiveStep::Stop,
            TrackRead::Undecodable => step == ReceiveStep::Skip,
            TrackRead::Decoded { buffer, samples } => step matches ReceiveStep::Play(block)
                && block@ == pcm_block(buffer@, samples as nat),
        },
{
    match read {
        TrackRead::Failed => ReceiveStep::Stop,
        TrackRead::Undecodable => ReceiveStep::Skip,
        TrackRead::Decoded { buffer, samples } => ReceiveStep::Play(decode_opus(buffer, samples)),
    }
}

} // verus!
