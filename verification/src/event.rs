//! What can happen to a session.

use vstd::prelude::*;
use crate::packets::keepalive::KeepaliveMessage;
use crate::packets::open::{OpenMessage, OpenMessageView};
use crate::packets::update::{UpdateMessage, UpdateMessageView};

verus! {

/// An event as a mathematical value.
pub enum EventView {
    ManualStart,
    TcpConnectionConfirmed,
    BgpOpen(OpenMessageView),
    KeepAliveMsg(KeepaliveMessage),
    UpdateMsg(UpdateMessageView),
    Established,
    LocRibChanged,
    AdjRibOutChanged,
}

/// Something that happened to a session and that its state machine has yet
/// to act on.
#[derive(PartialEq, Eq, Debug, Hash)]
pub enum Event {
    /// The operator asked for the session to start.
    ManualStart,
    /// The TCP connection stands.
    TcpConnectionConfirmed,
    /// The peer sent an Open message.
    BgpOpen(OpenMessage),
    /// The peer sent a Keepalive message.
    KeepAliveMsg(KeepaliveMessage),
    /// The peer sent an Update message.
    UpdateMsg(UpdateMessage),
    /// The session reached the Established state.
    Established,
    /// The routes that the speaker holds to be true have changed.
    LocRibChanged,
    /// The routes to advertise to the peer have changed.
    AdjRibOutChanged,
}

impl View for Event {
    type V = EventView;

    open spec fn view(&self) -> EventView {
        match self {
            Event::ManualStart => EventView::ManualStart,
            Event::TcpConnectionConfirmed => EventView::TcpConnectionConfirmed,
            Event::BgpOpen(open) => EventView::BgpOpen(open@),
            Event::KeepAliveMsg(keepalive) => EventView::KeepAliveMsg(*keepalive),
            Event::UpdateMsg(update) => EventView::UpdateMsg(update@),
            Event::Established => EventView::Established,
            Event::LocRibChanged => EventView::LocRibChanged,
            Event::AdjRibOutChanged => EventView::AdjRibOutChanged,
        }
    }
}

impl Clone for Event {
    fn clone(&self) -> (copy: Self)
        ensures
            copy@ == self@,
    {
        match self {
            Event::ManualStart => Event::ManualStart,
            Event::TcpConnectionConfirmed => Event::TcpConnectionConfirmed,
            Event::BgpOpen(open) => Event::BgpOpen(open.clone()),
            Event::KeepAliveMsg(keepalive) => Event::KeepAliveMsg(*keepalive),
            Event::UpdateMsg(update) => Event::UpdateMsg(update.clone()),
            Event::Established => Event::Established,
            Event::LocRibChanged => Event::LocRibChanged,
            Event::AdjRibOutChanged => Event::AdjRibOutChanged,
        }
    }
}

} // verus!
