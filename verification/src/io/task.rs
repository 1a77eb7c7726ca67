//! The connection to the broker: opening it, writing to it, and opening it again.
use embassy_net::IpAddress;
use vstd::prelude::*;
use vstd::utf8::encode_utf8;
use crate::buffer::{Payload, PAYLOAD_LENGTH};
use crate::packet::{
    layout, Connect, ConnectView, LastWill, LastWillView, Packet, PacketView, Protocol, QoS,
};
use crate::publish::Publishable;
use crate::topic::{empty_topic, topic_str, topic_text, Topic, TopicString};
use crate::{Error, IpDn, SettingsView};

verus! {

/// By default in the event of an error connecting to the broker we will wait for 5s.
pub const DEFAULT_BACKOFF: u64 = 5000;

/// If the connection dropped then re-connect more quickly.
pub const RESET_BACKOFF: u64 = 200;

/// How long to wait, in seconds, for the network to be configured.
pub const NETWORK_WAIT: u64 = 10;

/// The MQTT task that must be run in order for the stack to operate.
#[derive(Debug)]
pub struct McutieTask<'t, 'a, N, T, L: Publishable, X, R, const S: usize> {
    pub network: N,
    pub broker: IpDn<'t>,
    pub tcp_time_out: u64,
    pub tcp_keep_alive: u64,
    pub mqtt_ping_secs: u16,
    pub mqtt_keep_alive: u16,
    pub client_id: &'t str,
    pub last_will: Option<L>,
    pub username: Option<&'t str>,
    pub password: Option<&'t str>,
    pub subscriptions: [Topic<T>; S],
    pub receive: &'a R,
    pub sender: &'a X,
}

/// A last will, with its own topic and message.
#[derive(Debug)]
pub struct Will {
    pub topic: TopicString,
    pub message: Payload,
    pub qos: QoS,
    pub retain: bool,
}

impl View for Will {
    type V = LastWillView;

    open spec fn view(&self) -> LastWillView {
        LastWillView {
            topic: topic_text(self.topic),
            message: self.message@,
            qos: self.qos,
            retain: self.retain,
        }
    }
}

/// What a connection request says, by the settings of a task.
pub open spec fn connect_request<N, T, L>(
    settings: SettingsView<N, T, L>,
    will: Option<LastWillView>,
) -> PacketView {
    PacketView::Connect(
        ConnectView {
            protocol: Protocol::MQTT311,
            keep_alive: settings.mqtt_keep_alive,
            client_id: settings.device_id,
            clean_session: true,
            last_will: will,
            username: settings.username,
            password: match settings.password {
                Some(password) => Some(encode_utf8(password)),
                None => None,
            },
        },
    )
}

/// A last will as plain values, if there is one.
pub open spec fn will_view(will: Option<Will>) -> Option<LastWillView> {
    match will {
        Some(will) => Some(will@),
        None => None,
    }
}

/// What the writing side of a connection does.
#[derive(Debug)]
pub enum WriteAction {
    /// Write these bytes to the broker.
    Write(Payload),
    /// Become a receiver of the pipe, then wait for data in it.
    Attach,
    /// Wait for data in the pipe.
    Wait,
    /// Write the data from the pipe to the broker.
    Forward,
    /// Stop writing.
    Stop,
}

/// How far the writing side of a connection is.
#[derive(Debug, Clone, Copy, PartialEq, Eq, Structural)]
pub enum WriteState {
    /// The connection request is being sent.
    Connecting,
    /// What comes out of the pipe is written to the broker.
    Serving,
}

/// Something that happens to the writing side of a connection.
#[derive(Debug, Clone, Copy, PartialEq, Eq, Structural)]
pub enum WriteEvent {
    /// A write to the broker ended, and whether it succeeded.
    Written(bool),
    /// The pipe has data.
    Received,
}

/// What the writing side does when something happens.
pub open spec fn write_action(state: WriteState, event: WriteEvent) -> WriteAction {
    match event {
        WriteEvent::Written(written) => if !written {
            WriteAction::Stop
        } else if state == WriteState::Connecting {
            WriteAction::Attach
        } else {
            WriteAction::Wait
        },
        WriteEvent::Received => WriteAction::Forward,
    }
}

/// How far the writing side then is.
pub open spec fn write_state(state: WriteState, event: WriteEvent) -> WriteState {
    if event == WriteEvent::Written(true) {
        WriteState::Serving
    } else {
        state
    }
}

impl WriteState {
    /// What the writing side does when something happens.
    pub fn next(&mut self, event: WriteEvent) -> (action: WriteAction)
        ensures
            action == write_action(*old(self), event),
            *final(self) == write_state(*old(self), event),
    {
        match event {
            WriteEvent::Written(false) => WriteAction::Stop,
            WriteEvent::Written(true) => {
                let first = *self == WriteState::Connecting;
                *self = WriteState::Serving;
                if first {
                    WriteAction::Attach
                } else {
                    WriteAction::Wait
                }
            },
            WriteEvent::Received => WriteAction::Forward,
        }
    }
}

/// `event` can be how `action` ended.
pub open spec fn ends_with(action: WriteAction, event: WriteEvent) -> bool {
    match action {
        WriteAction::Write(_) => event is Written,
        WriteAction::Forward => event is Written,
        WriteAction::Attach => event is Received,
        WriteAction::Wait => event is Received,
        WriteAction::Stop => false,
    }
}

/// The writing side of one connection: what it did, how each of that ended, and how far it was.
pub open spec fn writes(
    actions: Seq<WriteAction>,
    events: Seq<WriteEvent>,
    states: Seq<WriteState>,
) -> bool {
    &&& actions.len() == events.len() + 1
    &&& states.len() == events.len() + 1
    &&& actions[0] is Write
    &&& states[0] == WriteState::Connecting
    &&& forall|i: int|
        #![trigger events[i]]
        0 <= i < events.len() ==> {
            &&& ends_with(actions[i], events[i])
            &&& actions[i + 1] == write_action(states[i], events[i])
            &&& states[i + 1] == write_state(states[i], events[i])
        }
}

/// The connection request is the first thing that is written, and is written once. A connection
/// becomes a receiver of the pipe once, right after the request is written, so nothing out of the
/// pipe is written before that; and where the request cannot be written, nothing else is.
pub proof fn law_connection_request_is_written_first(
    actions: Seq<WriteAction>,
    events: Seq<WriteEvent>,
    states: Seq<WriteState>,
    i: int,
)
    requires
        writes(actions, events, states),
        0 < i < actions.len(),
    ensures
        !(actions[i] is Write),
        actions[i] is Attach <==> i == 1 && events[0] == WriteEvent::Written(true),
        actions[i] is Forward ==> i > 1 && events[0] == WriteEvent::Written(true),
        events[0] == WriteEvent::Written(false) ==> i == 1 && actions[i] is Stop,
        !(actions[i] is Stop) ==> states[i] == WriteState::Serving,
    decreases i,
{
    assert(ends_with(actions[i - 1], events[i - 1]));
    if i > 1 {
        law_connection_request_is_written_first(actions, events, states, i - 1);
    }
}

/// What the action with index `i` writes, where `values` holds the data that came out of the pipe
/// with each event that says so.
pub open spec fn chunk(actions: Seq<WriteAction>, values: Seq<Seq<u8>>, i: int) -> Seq<u8> {
    match actions[i] {
        WriteAction::Write(bytes) => bytes@,
        WriteAction::Forward => values[i - 1],
        _ => seq![],
    }
}

/// What was written to the broker, in order.
pub open spec fn written(
    actions: Seq<WriteAction>,
    events: Seq<WriteEvent>,
    values: Seq<Seq<u8>>,
) -> Seq<Seq<u8>>
    decreases events.len(),
{
    if events.len() == 0 {
        seq![]
    } else {
        let before = written(actions.drop_last(), events.drop_last(), values.drop_last());
        if events.last() == WriteEvent::Written(true) {
            before.push(chunk(actions, values, events.len() - 1))
        } else {
            before
        }
    }
}

/// What came out of the pipe, in order.
pub open spec fn received(events: Seq<WriteEvent>, values: Seq<Seq<u8>>) -> Seq<Seq<u8>>
    decreases events.len(),
{
    if events.len() == 0 {
        seq![]
    } else {
        let before = received(events.drop_last(), values.drop_last());
        if events.last() is Received {
            before.push(values[events.len() - 1])
        } else {
            before
        }
    }
}

/// What is being written, or could not be written.
pub open spec fn unwritten(actions: Seq<WriteAction>, values: Seq<Seq<u8>>) -> Seq<Seq<u8>> {
    match actions.last() {
        WriteAction::Write(_) => seq![chunk(actions, values, actions.len() - 1)],
        WriteAction::Forward => seq![chunk(actions, values, actions.len() - 1)],
        WriteAction::Stop => seq![chunk(actions, values, actions.len() - 2)],
        _ => seq![],
    }
}

/// What is written to the broker is the connection request and then all that comes out of the
/// pipe, each once and in order: all of it, but for the last while it is being written or where
/// it could not be written.
pub proof fn law_request_and_received_data_are_written_in_order(
    actions: Seq<WriteAction>,
    events: Seq<WriteEvent>,
    states: Seq<WriteState>,
    values: Seq<Seq<u8>>,
)
    requires
        writes(actions, events, states),
        values.len() == events.len(),
    ensures
        written(actions, events, values) + unwritten(actions, values) == seq![
            chunk(actions, values, 0),
        ] + received(events, values),
    decreases events.len(),
{
    let n = events.len() as int;
    if n > 0 {
        let (a, e, s, v) = (
            actions.drop_last(),
            events.drop_last(),
            states.drop_last(),
            values.drop_last(),
        );
        assert forall|i: int|
            #![trigger e[i]]
            0 <= i < e.len() implies {
            &&& ends_with(a[i], e[i])
            &&& a[i + 1] == write_action(s[i], e[i])
            &&& s[i + 1] == write_state(s[i], e[i])
        } by {
            assert(e[i] == events[i]);
        }
        law_request_and_received_data_are_written_in_order(a, e, s, v);
        assert(ends_with(actions[n - 1], events[n - 1]));
        assert(a.last() == actions[n - 1]);
        assert(chunk(a, v, n - 1) == chunk(actions, values, n - 1));
        assert(chunk(a, v, 0) == chunk(actions, values, 0));
        assert(written(actions, events, values) + unwritten(actions, values) =~= seq![
            chunk(actions, values, 0),
        ] + received(events, values));
    } else {
        assert(written(actions, events, values) + unwritten(actions, values) =~= seq![
            chunk(actions, values, 0),
        ] + received(events, values));
    }
}

/// How to connect to the broker.
#[derive(Debug)]
pub struct Connection {
    pub ip: IpAddress,
    pub port: u16,
    /// The timeout of the connection in seconds, if it has one.
    pub timeout: Option<u64>,
    /// The keep alive time of the connection in seconds, if it has one.
    pub keep_alive: Option<u64>,
}

/// What the task does next.
#[derive(Debug)]
pub enum RunAction {
    /// Wait this long, in milliseconds.
    Sleep(u64),
    /// See whether the network is configured.
    CheckNetwork,
    /// Wait for the network to be configured, this long at most, in seconds.
    WaitNetwork(u64),
    /// Look up the broker's address.
    Resolve,
    /// Connect to the broker.
    Connect(Connection),
    /// Write, read and ping until one of them ends.
    Serve,
    /// Close the connection and tell the user.
    Disconnect,
}

/// How what the task did ended.
#[derive(Debug)]
pub enum RunEvent {
    Slept,
    /// Whether the network is configured.
    Network(bool),
    /// The network is configured, or the time to wait for it is over.
    NetworkWaited,
    /// The addresses that were found for the broker, unless the lookup failed.
    Resolved(Option<Vec<IpAddress>>),
    /// Whether the connection was made.
    Connected(bool),
    Served,
    Disconnected,
}

/// What the pinging side of a connection does.
#[derive(Debug)]
pub enum PingAction {
    /// Wait this long, in seconds.
    Wait(u64),
    /// Send this packet.
    Send(Packet<'static>),
}

/// Such an action as plain values.
pub enum PingActionView {
    Wait(u64),
    Send(PacketView),
}

impl View for PingAction {
    type V = PingActionView;

    open spec fn view(&self) -> PingActionView {
        match *self {
            PingAction::Wait(secs) => PingActionView::Wait(secs),
            PingAction::Send(packet) => PingActionView::Send(packet@),
        }
    }
}

/// How what the pinging side of a connection did ended.
#[derive(Debug)]
pub enum PingEvent {
    /// Nothing was done yet.
    Started,
    Waited,
    /// How sending ended.
    Sent(Result<(), Error>),
}

/// What the pinging side of a connection does next, where `secs` is the time between pings: it
/// sends a ping after each wait, and waits after each ping, whether or not that could be sent.
pub open spec fn ping_action(secs: u16, event: PingEvent) -> PingActionView {
    match event {
        PingEvent::Started => PingActionView::Wait(secs as u64),
        PingEvent::Waited => PingActionView::Send(PacketView::Pingreq),
        PingEvent::Sent(_) => PingActionView::Wait(secs as u64),
    }
}

/// The event can be how the action ended.
pub open spec fn ping_ends_with(action: PingActionView, event: PingEvent) -> bool {
    match action {
        PingActionView::Wait(_) => event is Waited,
        PingActionView::Send(_) => event is Sent,
    }
}

/// The pinging side of one connection: what it did, and what each of that followed on.
pub open spec fn pings(secs: u16, actions: Seq<PingActionView>, events: Seq<PingEvent>) -> bool {
    &&& actions.len() == events.len()
    &&& events.len() > 0 ==> events[0] is Started
    &&& forall|i: int|
        #![trigger events[i]]
        0 <= i < events.len() ==> {
            &&& actions[i] == ping_action(secs, events[i])
            &&& i > 0 ==> ping_ends_with(actions[i - 1], events[i])
        }
}

/// Waiting and pinging alternate for as long as the connection lasts, starting with a wait, and
/// whatever becomes of the pings.
pub proof fn law_pings_alternate_with_waits(
    secs: u16,
    actions: Seq<PingActionView>,
    events: Seq<PingEvent>,
    i: int,
)
    requires
        pings(secs, actions, events),
        0 <= i < actions.len(),
    ensures
        actions[i] == if i % 2 == 0 {
            PingActionView::Wait(secs as u64)
        } else {
            PingActionView::Send(PacketView::Pingreq)
        },
    decreases i,
{
    assert(actions[i] == ping_action(secs, events[i]));
    if i > 0 {
        law_pings_alternate_with_waits(secs, actions, events, i - 1);
    }
}

/// How long the task waits before it connects the next time.
#[derive(Debug)]
pub struct Backoff {
    timeout: Option<u64>,
}

impl View for Backoff {
    type V = Option<u64>;

    /// The time to wait in milliseconds, if any.
    closed spec fn view(&self) -> Option<u64> {
        self.timeout
    }
}

/// What a turn starts with, where `wait` is the time to wait before it.
pub open spec fn first_action(wait: Option<u64>) -> RunAction {
    match wait {
        Some(millis) => RunAction::Sleep(millis),
        None => RunAction::CheckNetwork,
    }
}

impl Backoff {
    /// The first time there is nothing to wait for.
    pub fn new() -> (backoff: Self)
        ensures
            backoff@ is None,
    {
        Backoff { timeout: None }
    }

    /// Starts a turn. Unless it gets as far as a connection, the next one waits for longer.
    pub fn start(&mut self) -> (action: RunAction)
        ensures
            action == first_action(old(self)@),
            final(self)@ == Some(DEFAULT_BACKOFF),
    {
        let timeout = self.timeout;
        self.timeout = Some(DEFAULT_BACKOFF);
        match timeout {
            Some(millis) => RunAction::Sleep(millis),
            None => RunAction::CheckNetwork,
        }
    }
}

/// A time in seconds of which 0 says that there is none.
pub open spec fn time(secs: u64) -> Option<u64> {
    if secs != 0 {
        Some(secs)
    } else {
        None
    }
}

/// A time in seconds of which 0 says that there is none.
fn seconds(secs: u64) -> (r: Option<u64>)
    ensures
        r == time(secs),
{
    if secs != 0 {
        Some(secs)
    } else {
        None
    }
}

/// The address to connect to: the last one that was found, or the one that is set for when none
/// is.
pub open spec fn broker_address(found: Option<Vec<IpAddress>>, back_ip: IpAddress) -> IpAddress {
    match found {
        Some(addresses) => if addresses@.len() > 0 {
            addresses@.last()
        } else {
            back_ip
        },
        None => back_ip,
    }
}

/// What the task does next when what it did has ended, where `wait` is the time to wait before
/// the next turn.
pub open spec fn next_action<N, T, L>(
    settings: SettingsView<N, T, L>,
    wait: Option<u64>,
    event: RunEvent,
) -> RunAction {
    match event {
        RunEvent::Slept => RunAction::CheckNetwork,
        RunEvent::Network(up) => if up {
            RunAction::Resolve
        } else {
            RunAction::WaitNetwork(NETWORK_WAIT)
        },
        RunEvent::NetworkWaited => RunAction::Resolve,
        RunEvent::Resolved(found) => RunAction::Connect(
            Connection {
                ip: broker_address(found, settings.back_ip),
                port: settings.port,
                timeout: time(settings.tcp_time_out),
                keep_alive: time(settings.tcp_keep_alive),
            },
        ),
        RunEvent::Connected(connected) => if connected {
            RunAction::Serve
        } else {
            first_action(wait)
        },
        RunEvent::Served => RunAction::Disconnect,
        RunEvent::Disconnected => first_action(wait),
    }
}

/// The time to wait before the next turn, once what the task did has ended.
pub open spec fn next_wait(wait: Option<u64>, event: RunEvent) -> Option<u64> {
    match event {
        RunEvent::Connected(true) => Some(RESET_BACKOFF),
        RunEvent::Connected(false) => Some(DEFAULT_BACKOFF),
        RunEvent::Disconnected => Some(DEFAULT_BACKOFF),
        _ => wait,
    }
}

/// The time to wait before the next turn after several such events.
pub open spec fn wait_after(wait: Option<u64>, events: Seq<RunEvent>) -> Option<u64>
    decreases events.len(),
{
    if events.len() == 0 {
        wait
    } else {
        next_wait(wait_after(wait, events.drop_last()), events.last())
    }
}

/// `event` can be how `action` ended.
pub open spec fn run_ends_with(action: RunAction, event: RunEvent) -> bool {
    match action {
        RunAction::Sleep(_) => event is Slept,
        RunAction::CheckNetwork => event is Network,
        RunAction::WaitNetwork(_) => event is NetworkWaited,
        RunAction::Resolve => event is Resolved,
        RunAction::Connect(_) => event is Connected,
        RunAction::Serve => event is Served,
        RunAction::Disconnect => event is Disconnected,
    }
}

/// A task from its start: what it did, how each of that ended, and the time to wait before the
/// next turn that it then had set.
pub open spec fn task_runs<N, T, L>(
    settings: SettingsView<N, T, L>,
    actions: Seq<RunAction>,
    events: Seq<RunEvent>,
    waits: Seq<Option<u64>>,
) -> bool {
    &&& actions.len() == events.len() + 1
    &&& waits.len() == events.len() + 1
    &&& actions[0] == first_action(None)
    &&& waits[0] == Some(DEFAULT_BACKOFF)
    &&& forall|i: int|
        #![trigger events[i]]
        0 <= i < events.len() ==> {
            &&& run_ends_with(actions[i], events[i])
            &&& actions[i + 1] == next_action(settings, waits[i], events[i])
            &&& waits[i + 1] == next_wait(waits[i], events[i])
        }
}

/// How many connections were made.
pub open spec fn connections(events: Seq<RunEvent>) -> nat
    decreases events.len(),
{
    if events.len() == 0 {
        0
    } else {
        connections(events.drop_last()) + if events.last() == RunEvent::Connected(true) {
            1nat
        } else {
            0
        }
    }
}

/// How often a connection was closed and the user told.
pub open spec fn disconnections(actions: Seq<RunAction>) -> nat
    decreases actions.len(),
{
    if actions.len() == 0 {
        0
    } else {
        disconnections(actions.drop_last()) + if actions.last() is Disconnect {
            1nat
        } else {
            0
        }
    }
}

/// Every connection that is made is served, then closed with the user told of it, once; nothing
/// else is. So there are as many disconnections as connections, but for one that is being served.
pub proof fn law_every_connection_is_closed_once<N, T, L>(
    settings: SettingsView<N, T, L>,
    actions: Seq<RunAction>,
    events: Seq<RunEvent>,
    waits: Seq<Option<u64>>,
)
    requires
        task_runs(settings, actions, events, waits),
    ensures
        forall|i: int|
            #![trigger actions[i]]
            0 <= i < actions.len() ==> {
                &&& actions[i] is Serve <==> i >= 1 && events[i - 1] == RunEvent::Connected(true)
                &&& actions[i] is Disconnect <==> i >= 2 && events[i - 2] == RunEvent::Connected(
                    true,
                )
            },
        connections(events) == disconnections(actions) + if actions.last() is Serve {
            1nat
        } else {
            0
        },
    decreases events.len(),
{
    let n = events.len() as int;
    if n == 0 {
        assert(disconnections(actions.drop_last()) == 0);
    } else {
        let (a, e, w) = (actions.drop_last(), events.drop_last(), waits.drop_last());
        assert forall|i: int|
            #![trigger e[i]]
            0 <= i < e.len() implies {
            &&& run_ends_with(a[i], e[i])
            &&& a[i + 1] == next_action(settings, w[i], e[i])
            &&& w[i + 1] == next_wait(w[i], e[i])
        } by {
            assert(e[i] == events[i]);
        }
        law_every_connection_is_closed_once(settings, a, e, w);
        assert(run_ends_with(actions[n - 1], events[n - 1]));
        assert(a.last() == actions[n - 1]);
        assert forall|i: int|
            #![trigger actions[i]]
            0 <= i < actions.len() implies {
            &&& actions[i] is Serve <==> i >= 1 && events[i - 1] == RunEvent::Connected(true)
            &&& actions[i] is Disconnect <==> i >= 2 && events[i - 2] == RunEvent::Connected(true)
        } by {
            if i < n {
                assert(a[i] == actions[i]);
                if i >= 1 {
                    assert(e[i - 1] == events[i - 1]);
                }
                if i >= 2 {
                    assert(e[i - 2] == events[i - 2]);
                }
            } else {
                assert(actions[n] == next_action(settings, waits[n - 1], events[n - 1]));
                assert(a[n - 1] is Serve <==> n - 1 >= 1 && e[n - 2] == RunEvent::Connected(true));
            }
        }
    }
}

/// While no connection is made, every turn after the first waits for the long time.
pub proof fn law_failed_connections_are_retried_later(events: Seq<RunEvent>)
    requires
        forall|i: int|
            0 <= i < events.len() ==> #[trigger] events[i] != RunEvent::Connected(true),
    ensures
        wait_after(Some(DEFAULT_BACKOFF), events) == Some(DEFAULT_BACKOFF),
    decreases events.len(),
{
    if events.len() > 0 {
        assert forall|i: int| 0 <= i < events.drop_last().len() implies #[trigger] events.drop_last()[i]
            != RunEvent::Connected(true) by {
            assert(events.drop_last()[i] == events[i]);
        }
        law_failed_connections_are_retried_later(events.drop_last());
    }
}

/// A connection that was made and lost is made again after the short time: whatever happened
/// before it, and whatever else happens until it is lost.
pub proof fn law_lost_connections_are_retried_soon(
    wait: Option<u64>,
    before: Seq<RunEvent>,
    after: Seq<RunEvent>,
)
    requires
        forall|i: int|
            0 <= i < after.len() ==> !(#[trigger] after[i] is Connected) && !(after[i] is Disconnected),
    ensures
        first_action(wait_after(wait, before.push(RunEvent::Connected(true)) + after))
            == RunAction::Sleep(RESET_BACKOFF),
    decreases after.len(),
{
    let events = before.push(RunEvent::Connected(true)) + after;
    if after.len() == 0 {
        assert(events =~= before.push(RunEvent::Connected(true)));
        assert(events.drop_last() =~= before);
    } else {
        let less = after.drop_last();
        assert forall|i: int| 0 <= i < less.len() implies !(#[trigger] less[i] is Connected) && !(
        less[i] is Disconnected) by {
            assert(less[i] == after[i]);
        }
        law_lost_connections_are_retried_soon(wait, before, less);
        assert(events.drop_last() =~= before.push(RunEvent::Connected(true)) + less);
    }
}

impl<'t, 'a, N, T, L: Publishable, X, R, const S: usize> View for McutieTask<
    't,
    'a,
    N,
    T,
    L,
    X,
    R,
    S,
> {
    type V = SettingsView<N, T, L>;

    open spec fn view(&self) -> SettingsView<N, T, L> {
        SettingsView {
            network: self.network,
            tcp_time_out: self.tcp_time_out,
            tcp_keep_alive: self.tcp_keep_alive,
            mqtt_ping_secs: self.mqtt_ping_secs,
            mqtt_keep_alive: self.mqtt_keep_alive,
            device_id: self.client_id@,
            hostname: self.broker.hostname@,
            port: self.broker.port,
            back_ip: self.broker.back_ip,
            last_will: self.last_will,
            username: crate::text(self.username),
            password: crate::text(self.password),
            subscriptions: self.subscriptions@,
        }
    }
}

impl<'t, 'a, N, T, L: Publishable, X, R, const S: usize> McutieTask<'t, 'a, N, T, L, X, R, S> {
    /// How long to wait between pings, in seconds.
    pub fn ping_interval(&self) -> (secs: u64)
        ensures
            secs == self@.mqtt_ping_secs,
    {
        self.mqtt_ping_secs as u64
    }

    /// What the pinging side of a connection does next when what it did has ended.
    pub fn next_ping(&self, event: PingEvent) -> (action: PingAction)
        ensures
            action@ == ping_action(self@.mqtt_ping_secs, event),
            event is Waited ==> action == PingAction::Send(Packet::Pingreq),
            !(event is Waited) ==> action == PingAction::Wait(self.mqtt_ping_secs as u64),
    {
        match event {
            PingEvent::Started => PingAction::Wait(self.ping_interval()),
            PingEvent::Waited => PingAction::Send(Packet::Pingreq),
            PingEvent::Sent(_) => PingAction::Wait(self.ping_interval()),
        }
    }

    /// The last will, from what its writer makes of an empty topic and an empty payload. There is
    /// none where none is set, or where its topic or its message cannot be written.
    pub fn write_last_will(&self) -> (will: Option<Will>)
        ensures
            self@.last_will is None ==> will is None,
            will matches Some(w) ==> {
                let message = self@.last_will->0;
                &&& exists|topic: &mut TopicString, r: Result<(), Error>|
                    #[trigger] call_ensures(L::write_topic, (&message, topic), r) && r is Ok
                        && topic_text(*topic) == Seq::<char>::empty() && *final(topic) == w.topic
                &&& exists|payload: &mut Payload, r: Result<(), Error>|
                    #[trigger] call_ensures(L::write_payload, (&message, payload), r) && r is Ok
                        && payload@ == Seq::<u8>::empty() && *final(payload) == w.message
                &&& call_ensures(L::qos, (&message,), w.qos)
                &&& call_ensures(L::retain, (&message,), w.retain)
            },
            will is None && self@.last_will is Some ==> {
                let message = self@.last_will->0;
                ||| exists|topic: &mut TopicString, r: Result<(), Error>|
                    #[trigger] call_ensures(L::write_topic, (&message, topic), r) && r is Err
                        && topic_text(*topic) == Seq::<char>::empty()
                ||| {
                    &&& exists|topic: &mut TopicString, r: Result<(), Error>|
                        #[trigger] call_ensures(L::write_topic, (&message, topic), r) && r is Ok
                            && topic_text(*topic) == Seq::<char>::empty()
                    &&& exists|payload: &mut Payload, r: Result<(), Error>|
                        #[trigger] call_ensures(L::write_payload, (&message, payload), r) && r is Err
                            && payload@ == Seq::<u8>::empty()
                }
            },
    {
        let p = match &self.last_will {
            Some(p) => p,
            None => {
                return None;
            },
        };
        let mut topic: TopicString = empty_topic();
        let mut message: Payload = Payload::new();
        if p.write_topic(&mut topic).is_ok() && p.write_payload(&mut message).is_ok() {
            Some(Will { topic, message, qos: p.qos(), retain: p.retain() })
        } else {
            None
        }
    }

    /// The connection request.
    pub fn connect_packet<'w>(&'w self, will: &'w Option<Will>) -> (packet: Packet<'w>)
        ensures
            packet@ == connect_request(self@, will_view(*will)),
            packet@.fits(),
            packet is Connect,
            ({
                let c = packet->Connect_0;
                &&& c.protocol == Protocol::MQTT311
                &&& c.clean_session
                &&& c.keep_alive == self.mqtt_keep_alive
                &&& c.client_id@ == self.client_id@
                &&& match (c.username, self.username) {
                    (Some(a), Some(b)) => a@ == b@,
                    (None, None) => true,
                    _ => false,
                }
                &&& match (c.password, self.password) {
                    (Some(a), Some(b)) => a@ == encode_utf8(b@),
                    (None, None) => true,
                    _ => false,
                }
                &&& match (c.last_will, *will) {
                    (Some(a), Some(b)) => a.topic@ == topic_text(b.topic) && a.message@
                        == b.message@ && a.qos == b.qos && a.retain == b.retain,
                    (None, None) => true,
                    _ => false,
                }
            }),
    {
        let last_will = match will {
            Some(w) => Some(
                LastWill {
                    topic: topic_str(&w.topic),
                    message: w.message.as_slice(),
                    qos: w.qos,
                    retain: w.retain,
                },
            ),
            None => None,
        };
        let password = match self.password {
            Some(s) => Some(s.as_bytes()),
            None => None,
        };
        Packet::Connect(
            Connect {
                protocol: Protocol::MQTT311,
                keep_alive: self.mqtt_keep_alive,
                client_id: self.client_id,
                clean_session: true,
                last_will,
                username: self.username,
                password,
            },
        )
    }

    /// What the writing side of a connection does first: it sends the connection request, or
    /// stops where the request is too large.
    pub fn write_first(&self, will: &Option<Will>) -> (action: WriteAction)
        ensures
            match action {
                WriteAction::Write(bytes) => {
                    &&& bytes@ == layout(connect_request(self@, will_view(*will)))
                    &&& bytes@.len() <= PAYLOAD_LENGTH
                },
                WriteAction::Stop => layout(connect_request(self@, will_view(*will))).len()
                    > PAYLOAD_LENGTH,
                _ => false,
            },
    {
        let mut buffer: Payload = Payload::new();
        let packet = self.connect_packet(will);
        match buffer.encode_packet(&packet) {
            Ok(()) => {
                assert(buffer@ =~= layout(packet@));
                WriteAction::Write(buffer)
            },
            Err(_) => WriteAction::Stop,
        }
    }

    /// What the task does next when what it did has ended.
    pub fn next(&self, backoff: &mut Backoff, event: RunEvent) -> (action: RunAction)
        ensures
            action == next_action(self@, old(backoff)@, event),
            final(backoff)@ == next_wait(old(backoff)@, event),
            event matches RunEvent::Resolved(found) ==> {
                &&& action is Connect
                &&& action->Connect_0.port == self.broker.port
                &&& match found {
                    Some(addresses) => action->Connect_0.ip == if addresses@.len() > 0 {
                        addresses@[addresses@.len() - 1]
                    } else {
                        self.broker.back_ip
                    },
                    None => action->Connect_0.ip == self.broker.back_ip,
                }
                &&& action->Connect_0.timeout == if self.tcp_time_out == 0 {
                    None
                } else {
                    Some(self.tcp_time_out)
                }
                &&& action->Connect_0.keep_alive == if self.tcp_keep_alive == 0 {
                    None
                } else {
                    Some(self.tcp_keep_alive)
                }
            },
    {
        match event {
            RunEvent::Slept => RunAction::CheckNetwork,
            RunEvent::Network(up) => {
                if up {
                    RunAction::Resolve
                } else {
                    RunAction::WaitNetwork(NETWORK_WAIT)
                }
            },
            RunEvent::NetworkWaited => RunAction::Resolve,
            RunEvent::Resolved(found) => {
                let ip = match found {
                    Some(addresses) => {
                        let mut addresses = addresses;
                        match addresses.pop() {
                            Some(ip) => ip,
                            None => self.broker.back_ip,
                        }
                    },
                    None => self.broker.back_ip,
                };
                RunAction::Connect(
                    Connection {
                        ip,
                        port: self.broker.port,
                        timeout: seconds(self.tcp_time_out),
                        keep_alive: seconds(self.tcp_keep_alive),
                    },
                )
            },
            RunEvent::Connected(connected) => {
                if connected {
                    backoff.timeout = Some(RESET_BACKOFF);
                    RunAction::Serve
                } else {
                    backoff.start()
                }
            },
            RunEvent::Served => RunAction::Disconnect,
            RunEvent::Disconnected => backoff.start(),
        }
    }
}

/// A connection request asks for a clean session of MQTT 3.1.1 and says what is set: the client
/// id, the keep alive time, and the user name and the bytes of the password, each exactly if it is
/// set. It has the last will that it is given.
pub proof fn law_connection_request_says_what_is_set<N, T, L>(
    settings: SettingsView<N, T, L>,
    will: Option<LastWillView>,
)
    ensures
        ({
            let c = connect_request(settings, will)->Connect_0;
            &&& connect_request(settings, will) is Connect
            &&& c.protocol == Protocol::MQTT311
            &&& c.clean_session
            &&& c.client_id == settings.device_id
            &&& c.keep_alive == settings.mqtt_keep_alive
            &&& c.last_will == will
            &&& c.username == settings.username
            &&& c.password is Some <==> settings.password is Some
            &&& settings.password matches Some(word) ==> c.password == Some(encode_utf8(word))
        }),
{
}

/// Once a user name and a password are set, they are in the connection request, whatever was set
/// before, with and without a last will; and they change nothing else in it. Nor does a last will
/// change anything but itself.
pub proof fn law_authentication_is_sent<N, T, L>(
    settings: SettingsView<N, T, L>,
    username: Seq<char>,
    password: Seq<char>,
    will: Option<LastWillView>,
    other: Option<LastWillView>,
)
    ensures
        ({
            let with = SettingsView::<N, T, L> {
                username: Some(username),
                password: Some(password),
                ..settings
            };
            let c = connect_request(with, will)->Connect_0;
            let before = connect_request(settings, will)->Connect_0;
            &&& c.username == Some(username)
            &&& c.password == Some(encode_utf8(password))
            &&& c == (ConnectView { username: c.username, password: c.password, ..before })
            &&& connect_request(with, other)->Connect_0 == (ConnectView { last_will: other, ..c })
        }),
{
}

/// The address to connect to is the last one that was found, of however many; only where none was
/// found, or the lookup failed, is it the one that is set for that.
pub proof fn law_found_address_is_used(
    found: Vec<IpAddress>,
    back_ip: IpAddress,
    other: IpAddress,
)
    ensures
        found@.len() > 0 ==> broker_address(Some(found), back_ip) == found@[found@.len() - 1],
        found@.len() > 0 ==> broker_address(Some(found), back_ip) == broker_address(
            Some(found),
            other,
        ),
        found@.len() == 0 ==> broker_address(Some(found), back_ip) == back_ip,
        broker_address(None, back_ip) == back_ip,
{
}

/// A connection is made to the port that is set, with the timeout and the keep alive time that
/// are set, where 0 says that there is none; however the lookup of the address ended.
pub proof fn law_connection_is_made_as_set<N, T, L>(
    settings: SettingsView<N, T, L>,
    wait: Option<u64>,
    found: Option<Vec<IpAddress>>,
)
    ensures
        ({
            let action = next_action(settings, wait, RunEvent::Resolved(found));
            let c = action->Connect_0;
            &&& action is Connect
            &&& c.port == settings.port
            &&& c.timeout is None <==> settings.tcp_time_out == 0
            &&& c.timeout matches Some(secs) ==> secs == settings.tcp_time_out
            &&& c.keep_alive is None <==> settings.tcp_keep_alive == 0
            &&& c.keep_alive matches Some(secs) ==> secs == settings.tcp_keep_alive
            &&& match found {
                Some(addresses) => if addresses@.len() == 0 {
                    c.ip == settings.back_ip
                } else {
                    c.ip == addresses@.last()
                },
                None => c.ip == settings.back_ip,
            }
        }),
{
}

/// A turn of the task: it waits the time that is set, if any, sees to the network for ten seconds
/// at most, looks up the address whether or not that helped, and connects. A connection that was
/// made is served and then closed. After a failure or a loss the next turn begins.
pub proof fn law_turn_of_the_task<N, T, L>(
    settings: SettingsView<N, T, L>,
    wait: Option<u64>,
    millis: u64,
)
    ensures
        first_action(None) is CheckNetwork,
        first_action(Some(millis)) == RunAction::Sleep(millis),
        next_action(settings, wait, RunEvent::Slept) is CheckNetwork,
        next_action(settings, wait, RunEvent::Network(true)) is Resolve,
        next_action(settings, wait, RunEvent::Network(false)) == RunAction::WaitNetwork(10),
        next_action(settings, wait, RunEvent::NetworkWaited) is Resolve,
        next_action(settings, wait, RunEvent::Connected(true)) is Serve,
        next_action(settings, wait, RunEvent::Served) is Disconnect,
        next_action(settings, Some(millis), RunEvent::Connected(false)) == RunAction::Sleep(millis),
        next_action(settings, Some(millis), RunEvent::Disconnected) == RunAction::Sleep(millis),
        next_action(settings, None, RunEvent::Connected(false)) is CheckNetwork,
        next_action(settings, None, RunEvent::Disconnected) is CheckNetwork,
{
}

/// The time to wait before the next turn is five seconds from the start of a turn on, and 200
/// milliseconds from when a connection is made; nothing else changes it.
pub proof fn law_time_to_wait(wait: Option<u64>, event: RunEvent)
    ensures
        event == RunEvent::Connected(true) ==> next_wait(wait, event) == Some(200u64),
        event == RunEvent::Connected(false) ==> next_wait(wait, event) == Some(5000u64),
        event is Disconnected ==> next_wait(wait, event) == Some(5000u64),
        !(event is Connected) && !(event is Disconnected) ==> next_wait(wait, event) == wait,
{
}

/// The writing side stops when a write fails and at no other time. When one succeeds it becomes a
/// receiver of the pipe, the first time, or waits for more; and what it receives it writes.
pub proof fn law_writing_side(state: WriteState)
    ensures
        write_action(state, WriteEvent::Written(false)) is Stop,
        write_action(WriteState::Connecting, WriteEvent::Written(true)) is Attach,
        write_action(WriteState::Serving, WriteEvent::Written(true)) is Wait,
        write_action(state, WriteEvent::Received) is Forward,
        write_state(state, WriteEvent::Written(true)) == WriteState::Serving,
        write_state(state, WriteEvent::Written(false)) == state,
        write_state(state, WriteEvent::Received) == state,
{
}

} // verus!
