//! The session with one peer: a state machine that takes events one at a
//! time and says what is to be done on the network.

use vstd::prelude::*;
use crate::config::{Config, ConfigView};
use crate::event::{Event, EventView};
use crate::event_queue::EventQueue;
use crate::packets::keepalive::KeepaliveMessage;
use crate::packets::message::{Message, MessageView};
use crate::packets::open::OpenMessageView;
use crate::packets::update::{update_views, UpdateMessage, UpdateMessageView};
use crate::routing::{
    advertised_entries, rib_well_formed, update_messages, AdjRibOut, LocRib, RibEntryView,
};
use crate::state::State;

verus! {

/// What the caller is to do on the network after a step, as a mathematical
/// value.
pub enum ActionView {
    Nothing,
    Connect,
    Send(Seq<MessageView>),
}

/// What the caller is to do on the network after a step of the state machine,
/// before it asks for the next step.
#[derive(Debug, PartialEq, Eq)]
pub enum Action {
    /// Nothing.
    Nothing,
    /// Establish the TCP connection that the configuration's mode asks for:
    /// connect to the peer, or accept its connection. Where that fails, the
    /// session is over.
    Connect,
    /// Send these messages to the peer, in order.
    Send(Vec<Message>),
}

/// The views of a run of messages, in order.
pub open spec fn message_views(messages: Seq<Message>) -> Seq<MessageView> {
    messages.map_values(|message: Message| message@)
}

impl View for Action {
    type V = ActionView;

    open spec fn view(&self) -> ActionView {
        match self {
            Action::Nothing => ActionView::Nothing,
            Action::Connect => ActionView::Connect,
            Action::Send(messages) => ActionView::Send(message_views(messages@)),
        }
    }
}

/// The event that the arrival of a message is.
pub open spec fn event_of_message(message: MessageView) -> EventView {
    match message {
        MessageView::Open(open) => EventView::BgpOpen(open),
        MessageView::Keepalive(keepalive) => EventView::KeepAliveMsg(keepalive),
        MessageView::Update(update) => EventView::UpdateMsg(update),
    }
}

/// The Open message that a speaker with this configuration sends.
pub open spec fn open_of(config: ConfigView) -> MessageView {
    MessageView::Open(
        OpenMessageView {
            version: 4,
            my_as_number: config.local_as,
            hold_time: 0,
            bgp_identifier: config.local_ip,
            optional_parameters: Seq::empty(),
        },
    )
}

/// The Update messages that advertise the entries, as messages: one for each
/// entry, in order.
pub open spec fn advertisements(entries: Seq<RibEntryView>) -> Seq<MessageView> {
    update_messages(entries).map_values(|update: UpdateMessageView| MessageView::Update(update))
}

/// A session as a mathematical value.
pub struct PeerView {
    pub state: State,
    pub event_queue: Seq<EventView>,
    pub config: ConfigView,
    pub adj_rib_out: Seq<RibEntryView>,
}

impl PeerView {
    /// The session of a peer that has just been made.
    pub open spec fn initial(config: ConfigView) -> PeerView {
        PeerView {
            state: State::Idle,
            event_queue: Seq::empty(),
            config,
            adj_rib_out: Seq::empty(),
        }
    }

    /// The session in another state.
    pub open spec fn with_state(self, state: State) -> PeerView {
        PeerView { state, ..self }
    }

    /// The session with one more event behind those that wait.
    pub open spec fn enqueue(self, event: EventView) -> PeerView {
        PeerView { event_queue: self.event_queue.push(event), ..self }
    }

    /// The session after the operator asked for it to start.
    pub open spec fn start(self) -> PeerView {
        self.enqueue(EventView::ManualStart)
    }

    /// The session after a message has arrived.
    pub open spec fn handle_message(self, message: MessageView) -> PeerView {
        self.enqueue(event_of_message(message))
    }

    /// The transition table: the session after it has acted on an event, and
    /// what is to be done on the network. A pair of state and event that the
    /// table does not list changes nothing and asks for nothing.
    pub open spec fn handle_event(self, event: EventView, loc_rib: Seq<RibEntryView>) -> (
        PeerView,
        ActionView,
    ) {
        match (self.state, event) {
            (State::Idle, EventView::ManualStart) => (
                self.enqueue(EventView::TcpConnectionConfirmed).with_state(State::Connect),
                ActionView::Connect,
            ),
            (State::Connect, EventView::TcpConnectionConfirmed) => (
                self.with_state(State::OpenSent),
                ActionView::Send(seq![open_of(self.config)]),
            ),
            (State::OpenSent, EventView::BgpOpen(_)) => (
                self.with_state(State::OpenConfirm),
                ActionView::Send(seq![MessageView::Keepalive(KeepaliveMessage {  })]),
            ),
            (State::OpenConfirm, EventView::KeepAliveMsg(_)) => (
                self.enqueue(EventView::Established).with_state(State::Established),
                ActionView::Nothing,
            ),
            (State::Established, EventView::Established) => (
                self.install(loc_rib),
                ActionView::Nothing,
            ),
            (State::Established, EventView::LocRibChanged) => (
                self.install(loc_rib),
                ActionView::Nothing,
            ),
            (State::Established, EventView::AdjRibOutChanged) => (
                self,
                ActionView::Send(advertisements(self.adj_rib_out)),
            ),
            _ => (self, ActionView::Nothing),
        }
    }

    /// The session after it has rebuilt what it advertises from the routes
    /// held to be true, and noted that what it advertises has changed.
    pub open spec fn install(self, loc_rib: Seq<RibEntryView>) -> PeerView {
        PeerView {
            adj_rib_out: advertised_entries(loc_rib, self.config.local_as, self.config.local_ip),
            ..self
        }.enqueue(EventView::AdjRibOutChanged)
    }

    /// One step: the oldest event that waits, if any, leaves the queue and is
    /// acted on.
    pub open spec fn next(self, loc_rib: Seq<RibEntryView>) -> (PeerView, ActionView) {
        if self.event_queue.len() == 0 {
            (self, ActionView::Nothing)
        } else {
            PeerView { event_queue: self.event_queue.drop_first(), ..self }.handle_event(
                self.event_queue[0],
                loc_rib,
            )
        }
    }
}

/// The session with one peer.
#[derive(Debug)]
pub struct Peer {
    state: State,
    event_queue: EventQueue,
    config: Config,
    adj_rib_out: AdjRibOut,
}

impl View for Peer {
    type V = PeerView;

    closed spec fn view(&self) -> PeerView {
        PeerView {
            state: self.state,
            event_queue: self.event_queue@,
            config: self.config@,
            adj_rib_out: self.adj_rib_out@,
        }
    }
}

impl Peer {
    /// A session with the peer that the configuration names: idle, with
    /// nothing waiting and nothing to advertise.
    pub fn new(config: Config) -> (peer: Self)
        ensures
            peer@ == PeerView::initial(config@),
    {
        let state = State::Idle;
        let event_queue = EventQueue::new();
        let adj_rib_out = AdjRibOut::new();
        Self { state, event_queue, config, adj_rib_out }
    }

    /// Asks for the session to start: a `ManualStart` event joins the queue.
    pub fn start(&mut self)
        ensures
            final(self)@ == old(self)@.start(),
    {
        self.event_queue.enqueue(Event::ManualStart);
    }

    /// The state that the session is in.
    pub fn state(&self) -> (state: State)
        ensures
            state == self@.state,
    {
        self.state
    }

    /// The configuration that the session was made with.
    pub fn config(&self) -> (config: &Config)
        ensures
            config@ == self@.config,
    {
        &self.config
    }

    /// What the session advertises to the peer.
    pub fn adj_rib_out(&self) -> (adj_rib_out: &AdjRibOut)
        ensures
            adj_rib_out@ == self@.adj_rib_out,
    {
        &self.adj_rib_out
    }

    /// The number of events that wait.
    pub fn pending_events(&self) -> (count: usize)
        ensures
            count == self@.event_queue.len(),
    {
        self.event_queue.len()
    }

    /// One step: the oldest event that waits, if any, leaves the queue and is
    /// acted on. `loc_rib` is the routes that the speaker holds to be true.
    /// The caller carries out the action that is returned, and only then
    /// reads from the peer and asks for the next step.
    pub fn next(&mut self, loc_rib: &LocRib) -> (action: Action)
        ensures
            (final(self)@, action@) == old(self)@.next(loc_rib@),
    {
        match self.event_queue.dequeue() {
            Some(event) => self.handle_event(&event, loc_rib),
            None => Action::Nothing,
        }
    }

    /// A message has arrived from the peer: the event that it is joins the
    /// queue, to be acted on by a later step.
    pub fn handle_message(&mut self, message: Message)
        ensures
            final(self)@ == old(self)@.handle_message(message@),
    {
        match message {
            Message::Open(open) => self.event_queue.enqueue(Event::BgpOpen(open)),
            Message::Keepalive(keepalive) => {
                self.event_queue.enqueue(Event::KeepAliveMsg(keepalive))
            },
            Message::Update(update) => self.event_queue.enqueue(Event::UpdateMsg(update)),
        }
    }

    /// Acts on one event as the transition table says.
    pub fn handle_event(&mut self, event: &Event, loc_rib: &LocRib) -> (action: Action)
        ensures
            (final(self)@, action@) == old(self)@.handle_event(event@, loc_rib@),
    {
        match self.state {
            State::Idle => match event {
                Event::ManualStart => {
                    self.event_queue.enqueue(Event::TcpConnectionConfirmed);
                    self.state = State::Connect;
                    Action::Connect
                },
                _ => Action::Nothing,
            },
            State::Connect => match event {
                Event::TcpConnectionConfirmed => {
                    let open = Message::new_open(self.config.local_as, self.config.local_ip);
                    self.state = State::OpenSent;
                    let messages = vec![open];
                    assert(message_views(messages@) =~= seq![open_of(self@.config)]);
                    Action::Send(messages)
                },
                _ => Action::Nothing,
            },
            State::OpenSent => match event {
                Event::BgpOpen(_) => {
                    self.state = State::OpenConfirm;
                    let messages = vec![Message::new_keepalive()];
                    assert(message_views(messages@) =~= seq![
                        MessageView::Keepalive(KeepaliveMessage {  }),
                    ]);
                    Action::Send(messages)
                },
                _ => Action::Nothing,
            },
            State::OpenConfirm => match event {
                Event::KeepAliveMsg(_) => {
                    self.state = State::Established;
                    self.event_queue.enqueue(Event::Established);
                    Action::Nothing
                },
                _ => Action::Nothing,
            },
            State::Established => match event {
                Event::Established | Event::LocRibChanged => {
                    self.adj_rib_out.install_from_loc_rib(loc_rib, &self.config);
                    self.event_queue.enqueue(Event::AdjRibOutChanged);
                    Action::Nothing
                },
                Event::AdjRibOutChanged => {
                    let updates = self.adj_rib_out.to_update_messages();
                    Action::Send(messages_of_updates(updates))
                },
                _ => Action::Nothing,
            },
        }
    }
}

/// The Update messages as messages, in order.
fn messages_of_updates(updates: Vec<UpdateMessage>) -> (messages: Vec<Message>)
    ensures
        message_views(messages@) == update_views(updates@).map_values(
            |update: UpdateMessageView| MessageView::Update(update),
        ),
{
    let ghost wrap = |update: UpdateMessageView| MessageView::Update(update);
    let ghost views = update_views(updates@);
    let mut updates = updates;
    let mut messages: Vec<Message> = Vec::new();
    let mut index: usize = 0;
    while index < updates.len()
        invariant
            index <= updates.len(),
            wrap == |update: UpdateMessageView| MessageView::Update(update),
            views == update_views(updates@),
            message_views(messages@) == views.take(index as int).map_values(wrap),
        decreases updates.len() - index,
    {
        let update = updates[index].clone();
        let ghost before = message_views(messages@);
        messages.push(Message::Update(update));
        proof {
            assert(message_views(messages@) =~= before.push(MessageView::Update(update@)));
        }
        index += 1;
    }
    messages
}

/// Update emission: an established session that acts on a change of the
/// routes held to be true, with nothing else waiting, asks at its next step
/// for exactly one Update message for each of those routes, in order, each
/// carrying the route as this speaker advertises it.
pub proof fn lemma_loc_rib_change_is_advertised(peer: PeerView, loc_rib: Seq<RibEntryView>)
    requires
        peer.state == State::Established,
        peer.event_queue == seq![EventView::LocRibChanged],
    ensures
        ({
            let (installed, first_action) = peer.next(loc_rib);
            let (after, second_action) = installed.next(loc_rib);
            let advertised = advertised_entries(
                loc_rib,
                peer.config.local_as,
                peer.config.local_ip,
            );
            &&& first_action == ActionView::Nothing
            &&& installed.adj_rib_out == advertised
            &&& after.adj_rib_out == advertised
            &&& after.state == State::Established
            &&& second_action matches ActionView::Send(messages)
            &&& messages.len() == loc_rib.len()
            &&& forall|i: int|
                0 <= i < loc_rib.len() ==> #[trigger] messages[i] == MessageView::Update(
                    advertised[i].update(),
                )
        }),
{
}

/// Installing replaces: what a session advertises after rebuilding it from the
/// routes held to be true depends on those routes and the configuration
/// alone, so rebuilding it again from the same routes changes nothing in it.
pub proof fn lemma_install_replaces(
    peer: PeerView,
    other: PeerView,
    loc_rib: Seq<RibEntryView>,
)
    requires
        peer.config == other.config,
    ensures
        peer.install(loc_rib).adj_rib_out == other.install(loc_rib).adj_rib_out,
        peer.install(loc_rib).install(loc_rib).adj_rib_out == peer.install(loc_rib).adj_rib_out,
        peer.install(loc_rib).adj_rib_out.len() == loc_rib.len(),
{
}

/// Once established, a session stays established, whatever event it acts on
/// and whatever message arrives.
pub proof fn lemma_established_is_stable(
    peer: PeerView,
    loc_rib: Seq<RibEntryView>,
    message: MessageView,
)
    requires
        peer.state == State::Established,
    ensures
        peer.next(loc_rib).0.state == State::Established,
        peer.handle_message(message).state == State::Established,
{
}

/// The arrival of a message changes nothing but the queue, which it joins at
/// the back: a message is never acted on in the step in which it was read.
pub proof fn lemma_message_waits_its_turn(peer: PeerView, message: MessageView)
    ensures
        peer.handle_message(message).state == peer.state,
        peer.handle_message(message).adj_rib_out == peer.adj_rib_out,
        peer.handle_message(message).config == peer.config,
        peer.handle_message(message).event_queue == peer.event_queue.push(
            event_of_message(message),
        ),
{
}

/// One side of a session between two speakers: its state machine, the routes
/// it holds to be true, and the messages on their way to it over a connection
/// that loses and reorders nothing.
pub struct Side {
    pub peer: PeerView,
    pub loc_rib: Seq<RibEntryView>,
    pub inbox: Seq<MessageView>,
}

/// The messages that an action puts on the wire.
pub open spec fn sent(action: ActionView) -> Seq<MessageView> {
    match action {
        ActionView::Send(messages) => messages,
        _ => Seq::empty(),
    }
}

/// A side whose session has just been made and asked to start.
pub open spec fn started(config: ConfigView, loc_rib: Seq<RibEntryView>) -> Side {
    Side { peer: PeerView::initial(config).start(), loc_rib, inbox: Seq::empty() }
}

/// One pass of the loop that drives a session: a step of the state machine;
/// then, where a connection stands and a message has arrived, the reading of
/// one message. The result is the side afterwards and what it sent.
pub open spec fn turn(side: Side) -> (Side, Seq<MessageView>) {
    let (stepped, action) = side.peer.next(side.loc_rib);
    if stepped.state != State::Idle && side.inbox.len() > 0 {
        (
            Side {
                peer: stepped.handle_message(side.inbox[0]),
                loc_rib: side.loc_rib,
                inbox: side.inbox.drop_first(),
            },
            sent(action),
        )
    } else {
        (Side { peer: stepped, loc_rib: side.loc_rib, inbox: side.inbox }, sent(action))
    }
}

/// One round: the first side takes a turn and what it sent is on its way to
/// the second; then the second takes a turn and what it sent is on its way to
/// the first.
pub open spec fn round(pair: (Side, Side)) -> (Side, Side) {
    let (first, to_second) = turn(pair.0);
    let (second, to_first) = turn(
        Side { peer: pair.1.peer, loc_rib: pair.1.loc_rib, inbox: pair.1.inbox + to_second },
    );
    (Side { peer: first.peer, loc_rib: first.loc_rib, inbox: first.inbox + to_first }, second)
}

/// The two sides after a number of rounds.
pub open spec fn rounds(pair: (Side, Side), count: nat) -> (Side, Side)
    decreases count,
{
    if count == 0 {
        pair
    } else {
        round(rounds(pair, (count - 1) as nat))
    }
}

/// A round keeps an established side established.
pub proof fn lemma_round_keeps_established(pair: (Side, Side))
    ensures
        pair.0.peer.state == State::Established ==> round(pair).0.peer.state
            == State::Established,
        pair.1.peer.state == State::Established ==> round(pair).1.peer.state
            == State::Established,
{
}

/// Session progression: two speakers whose sessions have been started, and
/// between whom messages travel in order and without loss, are both
/// established after five rounds, and stay so. This holds whatever the two
/// configurations and whatever routes each holds; the state machine asks
/// nothing of the peer's Open message.
pub proof fn theorem_session_establishes(
    first: ConfigView,
    second: ConfigView,
    first_rib: Seq<RibEntryView>,
    second_rib: Seq<RibEntryView>,
    count: nat,
)
    requires
        count >= 5,
    ensures
        rounds((started(first, first_rib), started(second, second_rib)), count).0.peer.state
            == State::Established,
        rounds((started(first, first_rib), started(second, second_rib)), count).1.peer.state
            == State::Established,
    decreases count,
{
    let start = (started(first, first_rib), started(second, second_rib));
    if count == 5 {
        reveal_with_fuel(rounds, 6);
        lemma_first_round(first, second, first_rib, second_rib);
        lemma_second_round(rounds(start, 1));
        lemma_third_round(rounds(start, 2));
        lemma_fourth_round(rounds(start, 3));
        lemma_fifth_round(rounds(start, 4));
    } else {
        theorem_session_establishes(first, second, first_rib, second_rib, (count - 1) as nat);
        lemma_round_keeps_established(rounds(start, (count - 1) as nat));
    }
}

/// Both sides connecting, with the confirmation of the connection waiting.
spec fn both_connecting(pair: (Side, Side)) -> bool {
    &&& pair.0.peer.state == State::Connect
    &&& pair.0.peer.event_queue == seq![EventView::TcpConnectionConfirmed]
    &&& pair.0.inbox.len() == 0
    &&& pair.1.peer.state == State::Connect
    &&& pair.1.peer.event_queue == seq![EventView::TcpConnectionConfirmed]
    &&& pair.1.inbox.len() == 0
}

/// Both sides have sent their Open; the second has read the first's, and the
/// second's is on its way to the first.
spec fn both_open_sent(pair: (Side, Side)) -> bool {
    &&& pair.0.peer.state == State::OpenSent
    &&& pair.0.peer.event_queue.len() == 0
    &&& pair.0.inbox.len() == 1
    &&& pair.0.inbox[0] is Open
    &&& pair.1.peer.state == State::OpenSent
    &&& pair.1.peer.event_queue.len() == 1
    &&& pair.1.peer.event_queue[0] is BgpOpen
    &&& pair.1.inbox.len() == 0
}

/// The first side has read the second's Open; the second has confirmed it
/// and its Keepalive is on its way.
spec fn second_confirmed(pair: (Side, Side)) -> bool {
    &&& pair.0.peer.state == State::OpenSent
    &&& pair.0.peer.event_queue.len() == 1
    &&& pair.0.peer.event_queue[0] is BgpOpen
    &&& pair.0.inbox.len() == 1
    &&& pair.0.inbox[0] is Keepalive
    &&& pair.1.peer.state == State::OpenConfirm
    &&& pair.1.peer.event_queue.len() == 0
    &&& pair.1.inbox.len() == 0
}

/// Both sides have confirmed the other's Open and read the other's
/// Keepalive.
spec fn both_confirmed(pair: (Side, Side)) -> bool {
    &&& pair.0.peer.state == State::OpenConfirm
    &&& pair.0.peer.event_queue.len() == 1
    &&& pair.0.peer.event_queue[0] is KeepAliveMsg
    &&& pair.0.inbox.len() == 0
    &&& pair.1.peer.state == State::OpenConfirm
    &&& pair.1.peer.event_queue.len() == 1
    &&& pair.1.peer.event_queue[0] is KeepAliveMsg
    &&& pair.1.inbox.len() == 0
}

/// The first round: both sides act on the start request and ask for the
/// connection.
proof fn lemma_first_round(
    first: ConfigView,
    second: ConfigView,
    first_rib: Seq<RibEntryView>,
    second_rib: Seq<RibEntryView>,
)
    ensures
        both_connecting(round((started(first, first_rib), started(second, second_rib)))),
{
    let pair = (started(first, first_rib), started(second, second_rib));
    let (one, to_second) = turn(pair.0);
    let other = Side {
        peer: pair.1.peer,
        loc_rib: pair.1.loc_rib,
        inbox: pair.1.inbox + to_second,
    };
    let (two, to_first) = turn(other);
    assert(two.peer.event_queue =~= seq![EventView::TcpConnectionConfirmed]);
}

/// The second round: both sides send their Open, and the second reads the
/// first's.
proof fn lemma_second_round(pair: (Side, Side))
    requires
        both_connecting(pair),
    ensures
        both_open_sent(round(pair)),
{
}

/// The third round: the first side reads the second's Open, and the second
/// answers the first's with a Keepalive.
proof fn lemma_third_round(pair: (Side, Side))
    requires
        both_open_sent(pair),
    ensures
        second_confirmed(round(pair)),
{
}

/// The fourth round: the first side answers with a Keepalive and reads the
/// second's, and the second reads the first's.
proof fn lemma_fourth_round(pair: (Side, Side))
    requires
        second_confirmed(pair),
    ensures
        both_confirmed(round(pair)),
{
}

/// The fifth round: both sides act on the Keepalive and are established.
proof fn lemma_fifth_round(pair: (Side, Side))
    requires
        both_confirmed(pair),
    ensures
        round(pair).0.peer.state == State::Established,
        round(pair).1.peer.state == State::Established,
{
}

} // verus!
