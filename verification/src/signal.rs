//! The signaling channel as the client sees it: what arrives on it, and the
//! wait for the server's acknowledgement.

use crate::codec::{decode, message_in};
use crate::commands::{CommandMessage, CommandMessageView, CommandView, ServerCommandView};
use crate::error::ClientError;
use crate::json::{parse, parsed_tree, Json, JsonView};
use vstd::prelude::*;

verus! {

/// A plain text message to a room.
#[derive(Debug, PartialEq, Eq)]
pub struct SignalMessage {
    pub username: String,
    pub room: String,
    pub message: String,
}

/// Mathematical value of a [`SignalMessage`].
pub struct SignalMessageView {
    pub username: Seq<char>,
    pub room: Seq<char>,
    pub message: Seq<char>,
}

impl View for SignalMessage {
    type V = SignalMessageView;

    open spec fn view(&self) -> SignalMessageView {
        SignalMessageView { username: self.username@, room: self.room@, message: self.message@ }
    }
}

impl Clone for SignalMessage {
    fn clone(&self) -> (r: Self)
        ensures
            r@ == self@,
    {
        SignalMessage {
            username: self.username.clone(),
            room: self.room.clone(),
            message: self.message.clone(),
        }
    }
}

/// What one read of the signaling channel gave.
#[derive(Debug, PartialEq, Eq)]
pub enum ChannelEvent {
    /// The channel has ended.
    Closed,
    /// The channel could not be read.
    ReadError,
    Ping,
    Pong,
    /// A frame that is not text.
    Binary,
    /// A text frame that does not hold an envelope.
    Undecodable,
    /// A text frame that holds this envelope.
    Envelope(CommandMessage),
}

/// Mathematical value of a [`ChannelEvent`].
pub enum ChannelEventView {
    Closed,
    ReadError,
    Ping,
    Pong,
    Binary,
    Undecodable,
    Envelope(CommandMessageView),
}

impl View for ChannelEvent {
    type V = ChannelEventView;

    open spec fn view(&self) -> ChannelEventView {
        match self {
            ChannelEvent::Closed => ChannelEventView::Closed,
            ChannelEvent::ReadError => ChannelEventView::ReadError,
            ChannelEvent::Ping => ChannelEventView::Ping,
            ChannelEvent::Pong => ChannelEventView::Pong,
            ChannelEvent::Binary => ChannelEventView::Binary,
            ChannelEvent::Undecodable => ChannelEventView::Undecodable,
            ChannelEvent::Envelope(message) => ChannelEventView::Envelope(message@),
        }
    }
}

impl DeepView for ChannelEvent {
    type V = ChannelEventView;

    open spec fn deep_view(&self) -> ChannelEventView {
        self@
    }
}

/// What a text frame means: the envelope that its tree holds, and
/// `Undecodable` where the text is no JSON or its tree holds no envelope.
pub open spec fn text_frame_event(tree: Option<JsonView>) -> ChannelEventView {
    match tree {
        Some(json) => match message_in(json) {
            Some(message) => ChannelEventView::Envelope(message),
            None => ChannelEventView::Undecodable,
        },
        None => ChannelEventView::Undecodable,
    }
}

/// Decodes a text frame from the tree that was read from it, or from none
/// where the text is no JSON.
pub fn text_frame(tree: Option<Json>) -> (event: ChannelEvent)
    ensures
        event@ == text_frame_event(tree.deep_view()),
{
    match tree {
        Some(json) => match decode(&json) {
            Ok(message) => ChannelEvent::Envelope(message),
            Err(_) => ChannelEvent::Undecodable,
        },
        None => ChannelEvent::Undecodable,
    }
}

/// Reads a text frame: the envelope that it holds, `Undecodable` where it
/// holds none. What follows from the tree of the text is [`text_frame`].
pub fn read_text(text: &str) -> (event: ChannelEvent)
    ensures
        event@ == text_frame_event(parsed_tree(text@)),
{
    text_frame(parse(text))
}

/// What happened while waiting: the window ran out, or the channel gave
/// something.
#[derive(Debug, PartialEq, Eq)]
pub enum Awaited {
    TimedOut,
    Arrived(ChannelEvent),
}

/// Mathematical value of an [`Awaited`].
pub enum AwaitedView {
    TimedOut,
    Arrived(ChannelEventView),
}

impl View for Awaited {
    type V = AwaitedView;

    open spec fn view(&self) -> AwaitedView {
        match self {
            Awaited::TimedOut => AwaitedView::TimedOut,
            Awaited::Arrived(event) => AwaitedView::Arrived(event@),
        }
    }
}

impl DeepView for Awaited {
    type V = AwaitedView;

    open spec fn deep_view(&self) -> AwaitedView {
        self@
    }
}

/// Where the wait for an acknowledgement stands after one event.
#[derive(Clone, Copy, Debug, PartialEq, Eq, Structural)]
pub enum AckStep {
    Acknowledged,
    KeepWaiting,
    Failed(ClientError),
}

/// The seconds that the client waits for an acknowledgement.
pub const ACK_TIMEOUT_SECS: u64 = 5;

/// Whether `message` is the server's acknowledgement, addressed to `local_id`.
pub open spec fn is_ack_for(local_id: Seq<char>, message: CommandMessageView) -> bool {
    message.user_id == local_id && message.command == CommandView::Server(ServerCommandView::Ack)
}

/// What one event means to the wait: the acknowledgement addressed to
/// `local_id` ends it well, the end of the window ends it with `AckTimeout`,
/// the end or failure of the channel ends it with `ChannelError`, and anything
/// else leaves it waiting.
pub open spec fn ack_step(local_id: Seq<char>, awaited: AwaitedView) -> AckStep {
    match awaited {
        AwaitedView::TimedOut => AckStep::Failed(ClientError::AckTimeout),
        AwaitedView::Arrived(ChannelEventView::Closed) => AckStep::Failed(
            ClientError::ChannelError,
        ),
        AwaitedView::Arrived(ChannelEventView::ReadError) => AckStep::Failed(
            ClientError::ChannelError,
        ),
        AwaitedView::Arrived(ChannelEventView::Envelope(message)) => if is_ack_for(
            local_id,
            message,
        ) {
            AckStep::Acknowledged
        } else {
            AckStep::KeepWaiting
        },
        _ => AckStep::KeepWaiting,
    }
}

/// How the wait ends over the events of one window, first event first. A
/// window that gives nothing decisive has run out.
pub open spec fn ack_outcome(local_id: Seq<char>, events: Seq<AwaitedView>) -> Result<
    (),
    ClientError,
>
    decreases events.len(),
{
    if events.len() == 0 {
        Err(ClientError::AckTimeout)
    } else {
        match ack_step(local_id, events[0]) {
            AckStep::Acknowledged => Ok(()),
            AckStep::Failed(error) => Err(error),
            AckStep::KeepWaiting => ack_outcome(local_id, events.drop_first()),
        }
    }
}

/// Whether the event at `i` is the acknowledgement and every event before it
/// left the wait waiting.
pub open spec fn acknowledged_at(local_id: Seq<char>, events: Seq<AwaitedView>, i: int) -> bool {
    &&& 0 <= i < events.len()
    &&& ack_step(local_id, events[i]) == AckStep::Acknowledged
    &&& forall|j: int| 0 <= j < i ==> ack_step(local_id, #[trigger] events[j]) == AckStep::KeepWaiting
}

/// An acknowledgement that nothing decisive precedes ends the wait well.
proof fn lemma_acknowledged_gives_ok(local_id: Seq<char>, events: Seq<AwaitedView>, i: int)
    requires
        acknowledged_at(local_id, events, i),
    ensures
        ack_outcome(local_id, events) is Ok,
    decreases i,
{
    if i > 0 {
        let rest = events.drop_first();
        lemma_acknowledged_gives_ok(local_id, rest, i - 1);
    }
}

/// A wait that ends well met an acknowledgement that nothing decisive
/// preceded.
proof fn lemma_ok_gives_acknowledged(local_id: Seq<char>, events: Seq<AwaitedView>) -> (i: int)
    requires
        ack_outcome(local_id, events) is Ok,
    ensures
        acknowledged_at(local_id, events, i),
    decreases events.len(),
{
    if ack_step(local_id, events[0]) == AckStep::Acknowledged {
        0
    } else {
        let rest = events.drop_first();
        let k = lemma_ok_gives_acknowledged(local_id, rest);
        assert forall|j: int| 0 <= j < k + 1 implies ack_step(local_id, #[trigger] events[j])
            == AckStep::KeepWaiting by {
            if j > 0 {
                assert(events[j] == rest[j - 1]);
            }
        }
        k + 1
    }
}

/// The wait succeeds exactly if an acknowledgement addressed to the local
/// identity arrives before the window runs out and before the channel ends or
/// fails.
pub proof fn lemma_ack_outcome(local_id: Seq<char>, events: Seq<AwaitedView>)
    ensures
        ack_outcome(local_id, events) is Ok <==> exists|i: int|
            acknowledged_at(local_id, events, i),
{
    if ack_outcome(local_id, events) is Ok {
        let i = lemma_ok_gives_acknowledged(local_id, events);
    }
    if exists|i: int| acknowledged_at(local_id, events, i) {
        let i = choose|i: int| acknowledged_at(local_id, events, i);
        lemma_acknowledged_gives_ok(local_id, events, i);
    }
}

/// Decides what one event means to the wait for an acknowledgement.
pub fn check_ack(local_id: &String, awaited: &Awaited) -> (step: AckStep)
    ensures
        step == ack_step(local_id@, awaited@),
{
    match awaited {
        Awaited::TimedOut => AckStep::Failed(ClientError::AckTimeout),
        Awaited::Arrived(event) => match event {
            ChannelEvent::Closed => AckStep::Failed(ClientError::ChannelError),
            ChannelEvent::ReadError => AckStep::Failed(ClientError::ChannelError),
            ChannelEvent::Envelope(message) => {
                if message.addressed_to(local_id) && message.is_ack() {
                    AckStep::Acknowledged
                } else {
                    AckStep::KeepWaiting
                }
            },
            _ => AckStep::KeepWaiting,
        },
    }
}

/// Waits for the server's acknowledgement over the events of one window:
/// succeeds at the first acknowledgement addressed to `local_id`, fails with
/// `AckTimeout` when the window runs out first, and with `ChannelError` when
/// the channel ends or fails first.
pub fn wait_for_ack(local_id: &String, events: &Vec<Awaited>) -> (r: Result<(), ClientError>)
    ensures
        r == ack_outcome(local_id@, events.deep_view()),
{
    let ghost all = events.deep_view();
    let mut i: usize = 0;
    assert(all.skip(0) =~= all);
    while i < events.len()
        invariant
            i <= events.len(),
            all == events.deep_view(),
            ack_outcome(local_id@, all) == ack_outcome(local_id@, all.skip(i as int)),
        decreases events.len() - i,
    {
        proof {
            assert(all.skip(i as int).drop_first() =~= all.skip(i + 1));
        }
        match check_ack(local_id, &events[i]) {
            AckStep::Acknowledged => {
                return Ok(());
            },
            AckStep::Failed(error) => {
                return Err(error);
            },
            AckStep::KeepWaiting => {},
        }
        i += 1;
    }
    Err(ClientError::AckTimeout)
}

} // verus!
