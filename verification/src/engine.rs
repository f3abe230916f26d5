//! Plain-value interface to the session engine.
//!
//! The engine itself (sockets, timers, media) lives outside this library. What
//! the orchestration logic reads of it is modelled here as plain data: session
//! descriptions as text, ICE candidates as records, connection states as an
//! enum. The only engine code called from here is pure: SDP validation and the
//! JSON form of a candidate.

use webrtc::ice_transport::ice_candidate::RTCIceCandidateInit;
use webrtc::peer_connection::sdp::session_description::RTCSessionDescription;
use vstd::prelude::*;

verus! {

/// Which side of an offer/answer exchange a session description belongs to.
#[derive(Clone, Copy, Debug, PartialEq, Eq, Structural)]
pub enum SdpKind {
    Offer,
    Answer,
}

/// Which media an engine connection is set up with when it is opened.
#[derive(Clone, Copy, Debug, PartialEq, Eq, Structural)]
pub enum MediaSetup {
    /// A data channel, an audio transceiver and an outbound Opus track.
    Audio,
    /// A data channel only.
    DataChannel,
}

/// Connection state as reported by the engine for one peer connection.
#[derive(Clone, Copy, Debug, PartialEq, Eq, Structural)]
pub enum LinkState {
    Unspecified,
    New,
    Connecting,
    Connected,
    Disconnected,
    Failed,
    Closed,
}

impl LinkState {
    /// A state from which the connection cannot recover.
    pub open spec fn terminal(self) -> bool {
        self == LinkState::Failed || self == LinkState::Closed
    }

    /// Whether the connection has failed or was closed for good.
    pub fn is_terminal(&self) -> (r: bool)
        ensures
            r == self.terminal(),
    {
        match self {
            LinkState::Failed => true,
            LinkState::Closed => true,
            _ => false,
        }
    }
}

/// The addresses of the ICE servers that every engine connection is
/// configured with.
pub fn ice_servers() -> (urls: Vec<String>)
    ensures
        urls.deep_view() == seq!["stun:localhost:3479"@, "stun:localhost:3478"@],
{
    let mut urls: Vec<String> = Vec::new();
    urls.push("stun:localhost:3479".to_owned());
    urls.push("stun:localhost:3478".to_owned());
    urls
}

/// One network path on which a peer can be reached, as exchanged over the
/// signaling channel.
#[derive(Debug, PartialEq, Eq)]
pub struct IceCandidate {
    pub candidate: String,
    pub sdp_mid: Option<String>,
    pub sdp_mline_index: Option<u16>,
    pub username_fragment: Option<String>,
}

/// Mathematical value of an [`IceCandidate`].
pub struct IceCandidateView {
    pub candidate: Seq<char>,
    pub sdp_mid: Option<Seq<char>>,
    pub sdp_mline_index: Option<u16>,
    pub username_fragment: Option<Seq<char>>,
}

impl View for IceCandidate {
    type V = IceCandidateView;

    open spec fn view(&self) -> IceCandidateView {
        IceCandidateView {
            candidate: self.candidate@,
            sdp_mid: self.sdp_mid.deep_view(),
            sdp_mline_index: self.sdp_mline_index,
            username_fragment: self.username_fragment.deep_view(),
        }
    }
}

impl DeepView for IceCandidate {
    type V = IceCandidateView;

    open spec fn deep_view(&self) -> IceCandidateView {
        self@
    }
}

impl Clone for IceCandidate {
    fn clone(&self) -> (r: Self)
        ensures
            r@ == self@,
    {
        IceCandidate {
            candidate: self.candidate.clone(),
            sdp_mid: self.sdp_mid.clone(),
            sdp_mline_index: self.sdp_mline_index,
            username_fragment: self.username_fragment.clone(),
        }
    }
}

/// Whether the engine's SDP parser accepts `sdp` as an offer.
pub uninterp spec fn offer_accepted(sdp: Seq<char>) -> bool;

/// Whether the engine's SDP parser accepts `sdp` as an answer.
pub uninterp spec fn answer_accepted(sdp: Seq<char>) -> bool;

/// The candidate that the engine reads from a JSON text, if it reads one.
pub uninterp spec fn parsed_candidate(text: Seq<char>) -> Option<IceCandidateView>;

/// The JSON text that the engine writes for a candidate.
pub uninterp spec fn candidate_json(candidate: IceCandidateView) -> Seq<char>;

/// Calls `RTCSessionDescription::offer` of the `webrtc` crate and reports
/// whether it returned a description. That function parses the text with the
/// crate's SDP reader and depends on nothing but the text; the contract only
/// gives that outcome a name.
#[verifier::external_body]
pub(crate) fn check_offer(sdp: &str) -> (ok: bool)
    ensures
        ok == offer_accepted(sdp@),
{
    RTCSessionDescription::offer(sdp.to_owned()).is_ok()
}

/// Calls `RTCSessionDescription::answer` of the `webrtc` crate and reports
/// whether it returned a description. As for offers, the outcome is a function
/// of the text alone, and the contract only names it.
#[verifier::external_body]
pub(crate) fn check_answer(sdp: &str) -> (ok: bool)
    ensures
        ok == answer_accepted(sdp@),
{
    RTCSessionDescription::answer(sdp.to_owned()).is_ok()
}

/// Calls `serde_json::from_str` for the `webrtc` crate's
/// `RTCIceCandidateInit` and copies the four fields of what it read. A text
/// that does not deserialize gives `None`. The contract names the result; it
/// claims nothing about which texts are accepted.
#[verifier::external_body]
pub(crate) fn decode_candidate(text: &str) -> (r: Option<IceCandidate>)
    ensures
        r.deep_view() == parsed_candidate(text@),
{
    match serde_json::from_str::<RTCIceCandidateInit>(text) {
        Ok(init) => Some(
            IceCandidate {
                candidate: init.candidate,
                sdp_mid: init.sdp_mid,
                sdp_mline_index: init.sdp_mline_index,
                username_fragment: init.username_fragment,
            },
        ),
        Err(_) => None,
    }
}

/// Calls `serde_json::to_string` on the `webrtc` crate's `RTCIceCandidateInit`
/// holding the four fields of `candidate`. That function fails where the
/// `Serialize` of what it is given fails or a map in it has keys that are no
/// strings. The derived `Serialize` of `RTCIceCandidateInit` hands a text, two
/// optional texts and an optional number to the serializer under fixed names,
/// and the serializer fails only where its writer does, which here is a
/// `Vec<u8>`. So a text is always written: the one named by `candidate_json`.
#[verifier::external_body]
pub(crate) fn encode_candidate(candidate: &IceCandidate) -> (r: Option<String>)
    ensures
        r is Some,
        r matches Some(text) ==> text@ == candidate_json(candidate@),
{
    let init = RTCIceCandidateInit {
        candidate: candidate.candidate.clone(),
        sdp_mid: candidate.sdp_mid.clone(),
        sdp_mline_index: candidate.sdp_mline_index,
        username_fragment: candidate.username_fragment.clone(),
    };
    serde_json::to_string(&init).ok()
}

} // verus!
