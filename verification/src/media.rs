//! The capture path: one captured block becomes one packet for every
//! connected peer, each peer with counters of its own.

use crate::audio::{
    lemma_consecutive_packets, sequence_after, timestamp_after, AudioPacket, PacketSequencer,
};
use vstd::prelude::*;

verus! {

/// A packet and the peer whose outbound track it is written to.
#[derive(Debug, PartialEq, Eq)]
pub struct Outbound {
    pub peer: String,
    pub packet: AudioPacket,
}

impl View for Outbound {
    type V = (Seq<char>, (u16, u32, Seq<u8>));

    open spec fn view(&self) -> (Seq<char>, (u16, u32, Seq<u8>)) {
        (self.peer@, self.packet@)
    }
}

impl DeepView for Outbound {
    type V = (Seq<char>, (u16, u32, Seq<u8>));

    open spec fn deep_view(&self) -> (Seq<char>, (u16, u32, Seq<u8>)) {
        self@
    }
}

/// The counters of a sender that has sent nothing.
pub open spec fn fresh() -> PacketSequencer {
    PacketSequencer { sequence_number: 0, timestamp: 0 }
}

/// The counters after one more packet.
pub open spec fn advanced(counters: PacketSequencer) -> PacketSequencer {
    PacketSequencer {
        sequence_number: sequence_after(counters.sequence_number, 1),
        timestamp: timestamp_after(counters.timestamp, 1),
    }
}

/// The counters of `peer`: those kept for it, fresh ones where none are kept.
pub open spec fn counters_of(senders: Map<Seq<char>, PacketSequencer>, peer: Seq<char>) -> PacketSequencer {
    if senders.contains_key(peer) {
        senders[peer]
    } else {
        fresh()
    }
}

/// Forwarding one block to `peers`, in order: each listed peer gets a packet
/// that carries the block under the peer's counters, which then advance.
/// Counters of peers that are not listed are dropped.
pub open spec fn forwarded(
    senders: Map<Seq<char>, PacketSequencer>,
    peers: Seq<Seq<char>>,
    block: Seq<u8>,
) -> (Map<Seq<char>, PacketSequencer>, Seq<(Seq<char>, (u16, u32, Seq<u8>))>)
    decreases peers.len(),
{
    if peers.len() == 0 {
        (Map::empty(), Seq::empty())
    } else {
        let before = forwarded(senders, peers.drop_last(), block);
        let peer = peers.last();
        let counters = if before.0.contains_key(peer) {
            before.0[peer]
        } else {
            counters_of(senders, peer)
        };
        (
            before.0.insert(peer, advanced(counters)),
            before.1.push((peer, (counters.sequence_number, counters.timestamp, block))),
        )
    }
}

/// What forwarding does where no peer is listed twice: exactly the listed
/// peers keep counters, each peer's packet carries the counters it had, and
/// its counters have advanced by one packet.
pub proof fn lemma_forwarded(
    senders: Map<Seq<char>, PacketSequencer>,
    peers: Seq<Seq<char>>,
    block: Seq<u8>,
)
    requires
        peers.no_duplicates(),
    ensures
        forwarded(senders, peers, block).1.len() == peers.len(),
        forall|p: Seq<char>| #[trigger]
            forwarded(senders, peers, block).0.contains_key(p) <==> peers.contains(p),
        forall|i: int|
            0 <= i < peers.len() ==> {
                let counters = counters_of(senders, peers[i]);
                &&& (#[trigger] forwarded(senders, peers, block).1[i]) == (
                    peers[i],
                    (counters.sequence_number, counters.timestamp, block),
                )
                &&& forwarded(senders, peers, block).0[peers[i]] == advanced(counters)
            },
    decreases peers.len(),
{
    if peers.len() > 0 {
        let front = peers.drop_last();
        lemma_forwarded(senders, front, block);
        let after = forwarded(senders, peers, block);
        assert forall|p: Seq<char>| #[trigger] after.0.contains_key(p) <==> peers.contains(p) by {
            if peers.contains(p) {
                let j = choose|j: int| 0 <= j < peers.len() && peers[j] == p;
                if j < front.len() {
                    assert(front[j] == p);
                }
            }
        }
        assert forall|i: int| 0 <= i < peers.len() implies {
            let counters = counters_of(senders, peers[i]);
            &&& (#[trigger] after.1[i]) == (
                peers[i],
                (counters.sequence_number, counters.timestamp, block),
            )
            &&& after.0[peers[i]] == advanced(counters)
        } by {}
    }
}

/// A peer that stays connected gets consecutive packets: its packet for the
/// second of two blocks follows its packet for the first by one in the number
/// and by 960 in the stamp, each modulo the width of its counter.
pub proof fn lemma_forward_in_step(
    senders: Map<Seq<char>, PacketSequencer>,
    first: Seq<Seq<char>>,
    second: Seq<Seq<char>>,
    block: Seq<u8>,
    next_block: Seq<u8>,
    i: int,
    j: int,
)
    requires
        first.no_duplicates(),
        second.no_duplicates(),
        0 <= i < first.len(),
        0 <= j < second.len(),
        first[i] == second[j],
    ensures
        ({
            let one = forwarded(senders, first, block);
            let two = forwarded(one.0, second, next_block);
            &&& one.1[i].0 == first[i]
            &&& two.1[j].0 == first[i]
            &&& one.1[i].1.2 == block
            &&& two.1[j].1.2 == next_block
            &&& two.1[j].1.0 as int == (one.1[i].1.0 + 1) % 0x1_0000
            &&& two.1[j].1.1 as int == (one.1[i].1.1 + 960) % 0x1_0000_0000
        }),
{
    lemma_forwarded(senders, first, block);
    let one = forwarded(senders, first, block);
    lemma_forwarded(one.0, second, next_block);
}

/// Forwarding the frames of a session, one after the other, to the same
/// peers: the senders at the end and, frame by frame, the packets.
pub open spec fn forwarded_session(
    senders: Map<Seq<char>, PacketSequencer>,
    peers: Seq<Seq<char>>,
    frames: Seq<Seq<u8>>,
) -> (Map<Seq<char>, PacketSequencer>, Seq<Seq<(Seq<char>, (u16, u32, Seq<u8>))>>)
    decreases frames.len(),
{
    if frames.len() == 0 {
        (senders, Seq::empty())
    } else {
        let before = forwarded_session(senders, peers, frames.drop_last());
        let last = forwarded(before.0, peers, frames.last());
        (last.0, before.1.push(last.1))
    }
}

/// The counters after `count` more packets.
pub open spec fn advanced_by(counters: PacketSequencer, count: nat) -> PacketSequencer {
    PacketSequencer {
        sequence_number: sequence_after(counters.sequence_number, count),
        timestamp: timestamp_after(counters.timestamp, count),
    }
}

/// Advancing by no packet changes nothing, and advancing once more adds one
/// to the count.
proof fn lemma_advanced_by(counters: PacketSequencer, count: nat)
    ensures
        advanced_by(counters, 0) == counters,
        advanced(advanced_by(counters, count)) == advanced_by(counters, count + 1),
{
    lemma_consecutive_packets(counters.sequence_number, counters.timestamp, count);
}

/// Over a session each peer gets the packets of a sender of its own: where
/// no peer is listed twice, the packet that a peer gets for the frame at `k`
/// carries that frame under the peer's counters at the start, advanced by `k`
/// packets, and at the end its counters are advanced by one packet per frame.
pub proof fn lemma_forwarded_session(
    senders: Map<Seq<char>, PacketSequencer>,
    peers: Seq<Seq<char>>,
    frames: Seq<Seq<u8>>,
    i: int,
)
    requires
        peers.no_duplicates(),
        0 <= i < peers.len(),
    ensures
        ({
            let start = counters_of(senders, peers[i]);
            let session = forwarded_session(senders, peers, frames);
            &&& session.1.len() == frames.len()
            &&& counters_of(session.0, peers[i]) == advanced_by(start, frames.len())
            &&& forall|k: int|
                0 <= k < frames.len() ==> (#[trigger] session.1[k]).len() == peers.len()
                    && session.1[k][i] == (
                    peers[i],
                    (
                        advanced_by(start, k as nat).sequence_number,
                        advanced_by(start, k as nat).timestamp,
                        frames[k],
                    ),
                )
        }),
    decreases frames.len(),
{
    let start = counters_of(senders, peers[i]);
    if frames.len() == 0 {
        lemma_advanced_by(start, 0);
    } else {
        let front = frames.drop_last();
        let n = front.len();
        lemma_forwarded_session(senders, peers, front, i);
        let before = forwarded_session(senders, peers, front);
        let current = counters_of(before.0, peers[i]);
        assert(current == advanced_by(start, n));
        lemma_forwarded(before.0, peers, frames.last());
        let last = forwarded(before.0, peers, frames.last());
        assert(last.1[i] == (
            peers[i],
            (current.sequence_number, current.timestamp, frames.last()),
        ));
        assert(last.0[peers[i]] == advanced(current));
        assert(peers.contains(peers[i]));
        assert(last.0.contains_key(peers[i]));
        lemma_advanced_by(start, n);
        let session = forwarded_session(senders, peers, frames);
        assert(session.1 == before.1.push(last.1));
        assert forall|k: int| 0 <= k < frames.len() implies (#[trigger] session.1[k]).len()
            == peers.len() && session.1[k][i] == (
            peers[i],
            (
                advanced_by(start, k as nat).sequence_number,
                advanced_by(start, k as nat).timestamp,
                frames[k],
            ),
        ) by {
            if k < n {
                assert(session.1[k] == before.1[k]);
                assert(front[k] == frames[k]);
            } else {
                assert(session.1[k] == last.1);
            }
        }
    }
}

/// The counters kept for one peer.
struct Sender {
    peer: String,
    counters: PacketSequencer,
}

/// No two senders belong to the same peer.
spec fn distinct_peers(s: Seq<Sender>) -> bool {
    forall|i: int, j: int| 0 <= i < j < s.len() ==> s[i].peer@ != s[j].peer@
}

/// Whether counters are kept for `peer`.
spec fn keeps(s: Seq<Sender>, peer: Seq<char>) -> bool {
    exists|i: int| 0 <= i < s.len() && (#[trigger] s[i]).peer@ == peer
}

/// The position of the counters of `peer`, where they are kept.
spec fn sender_index(s: Seq<Sender>, peer: Seq<char>) -> int {
    choose|i: int| 0 <= i < s.len() && (#[trigger] s[i]).peer@ == peer
}

/// The senders as a map from peer id to counters.
spec fn senders_map(s: Seq<Sender>) -> Map<Seq<char>, PacketSequencer> {
    Map::new(|p: Seq<char>| keeps(s, p), |p: Seq<char>| s[sender_index(s, p)].counters)
}

/// With distinct peers, the map holds each sender's counters under its peer.
proof fn lemma_sender(s: Seq<Sender>, i: int)
    requires
        distinct_peers(s),
        0 <= i < s.len(),
    ensures
        keeps(s, s[i].peer@),
        sender_index(s, s[i].peer@) == i,
        senders_map(s)[s[i].peer@] == s[i].counters,
{
}

/// The position of the counters of `peer` in `senders`.
fn find(senders: &Vec<Sender>, peer: &String) -> (r: Option<usize>)
    ensures
        match r {
            Some(i) => i < senders@.len() && senders@[i as int].peer@ == peer@,
            None => !keeps(senders@, peer@),
        },
{
    let mut i: usize = 0;
    while i < senders.len()
        invariant
            i <= senders@.len(),
            forall|j: int| 0 <= j < i ==> senders@[j].peer@ != peer@,
        decreases senders@.len() - i,
    {
        if senders[i].peer == *peer {
            return Some(i);
        }
        i += 1;
    }
    None
}

/// The senders of the capture path: for each peer that audio is forwarded
/// to, the counters of its outbound packets.
pub struct MediaPipeline {
    senders: Vec<Sender>,
}

impl View for MediaPipeline {
    type V = Map<Seq<char>, PacketSequencer>;

    closed spec fn view(&self) -> Map<Seq<char>, PacketSequencer> {
        senders_map(self.senders@)
    }
}

impl MediaPipeline {
    /// No peer has two senders.
    pub closed spec fn well_formed(&self) -> bool {
        distinct_peers(self.senders@)
    }

    /// A pipeline that has forwarded nothing.
    pub fn new() -> (pipeline: MediaPipeline)
        ensures
            pipeline.well_formed(),
            pipeline@ == Map::<Seq<char>, PacketSequencer>::empty(),
    {
        MediaPipeline { senders: Vec::new() }
    }

    /// The counters of `peer`: fresh ones where audio was not forwarded to it
    /// last time.
    pub fn counters(&self, peer: &String) -> (counters: PacketSequencer)
        requires
            self.well_formed(),
        ensures
            counters == counters_of(self@, peer@),
    {
        match find(&self.senders, peer) {
            Some(i) => {
                self.senders[i].counters
            },
            None => PacketSequencer::new(),
        }
    }

    /// Forwards one captured block to the peers `connected`: one packet per
    /// listed peer, in the order of the list, each under the counters of its
    /// peer, which then advance. A peer that was not forwarded to last time
    /// starts from fresh counters.
    pub fn forward(&mut self, connected: &Vec<String>, block: &Vec<u8>) -> (packets: Vec<Outbound>)
        requires
            old(self).well_formed(),
        ensures
            final(self).well_formed(),
            (final(self)@, packets.deep_view()) == forwarded(
                old(self)@,
                connected.deep_view(),
                block@,
            ),
            connected.deep_view().no_duplicates() ==> packets.len() == connected.len(),
            forall|i: int|
                connected.deep_view().no_duplicates() && 0 <= i < connected.len() ==> (
                #[trigger] packets.deep_view()[i]) == (
                    connected.deep_view()[i],
                    (
                        counters_of(old(self)@, connected.deep_view()[i]).sequence_number,
                        counters_of(old(self)@, connected.deep_view()[i]).timestamp,
                        block@,
                    ),
                ),
            forall|i: int|
                connected.deep_view().no_duplicates() && 0 <= i < connected.len() ==> final(self)@[#[trigger] connected.deep_view()[i]] == advanced(
                    counters_of(old(self)@, connected.deep_view()[i]),
                ),
    {
        let ghost before = self@;
        let ghost peers = connected.deep_view();
        let mut next: Vec<Sender> = Vec::new();
        let mut packets: Vec<Outbound> = Vec::new();
        let mut i: usize = 0;
        while i < connected.len()
            invariant
                i <= connected.len(),
                peers == connected.deep_view(),
                before == self@,
                self.well_formed(),
                distinct_peers(next@),
                (senders_map(next@), packets.deep_view()) == forwarded(
                    before,
                    peers.take(i as int),
                    block@,
                ),
            decreases connected.len() - i,
        {
            let peer = &connected[i];
            let ghost earlier = next@;
            proof {
                assert(peers.take(i + 1).drop_last() =~= peers.take(i as int));
            }
            let mut counters = match find(&next, peer) {
                Some(k) => {
                    let sender = next.remove(k);
                    proof {
                        let later = next@;
                        assert forall|p: Seq<char>| keeps(later, p) <==> (keeps(earlier, p) && p
                            != peer@) by {
                            if keeps(earlier, p) && p != peer@ {
                                let b = sender_index(earlier, p);
                                let j = if b < k { b } else { b - 1 };
                                assert(later[j].peer@ == p);
                            }
                        }
                    }
                    sender.counters
                },
                None => {
                    self.counters(peer)
                },
            };
            let packet = counters.next_packet(block.clone());
            packets.push(Outbound { peer: peer.clone(), packet });
            let ghost rest = next@;
            next.push(Sender { peer: peer.clone(), counters });
            proof {
                let grown = next@;
                lemma_sender(grown, grown.len() - 1);
                assert forall|p: Seq<char>| keeps(grown, p) <==> (keeps(rest, p) || p == peer@) by {
                    if keeps(rest, p) {
                        let j = sender_index(rest, p);
                        assert(grown[j].peer@ == p);
                    }
                }
            }
            i += 1;
        }
        proof {
            assert(peers.take(i as int) =~= peers);
        }
        self.senders = next;
        proof {
            if peers.no_duplicates() {
                lemma_forwarded(before, peers, block@);
                let after = forwarded(before, peers, block@);
                assert(packets.deep_view() == after.1);
                assert(self@ == after.0);
                assert(packets.deep_view().len() == packets.len());
                assert forall|k: int| 0 <= k < peers.len() implies (#[trigger] packets.deep_view()[k])
                    == (
                    peers[k],
                    (
                        counters_of(before, peers[k]).sequence_number,
                        counters_of(before, peers[k]).timestamp,
                        block@,
                    ),
                ) by {
                    assert(after.1[k] == packets.deep_view()[k]);
                }
                assert forall|k: int| 0 <= k < peers.len() implies self@[#[trigger] peers[k]]
                    == advanced(counters_of(before, peers[k])) by {
                    assert(after.1[k] == packets.deep_view()[k]);
                }
            }
        }
        packets
    }
}

} // verus!
