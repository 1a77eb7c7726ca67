//! The decisions of a small MQTT client, without its input and output.
//!
//! A program that uses the library reads from and writes to the broker, waits and sleeps; what it
//! reads, and how its waiting ended, it hands to the library, which says what to do next.
use vstd::prelude::*;

pub mod buffer;
pub mod codec;
pub mod frame;
pub mod io;
pub mod packet;
pub mod pipe;
pub mod publish;
pub mod topic;

pub use buffer::{Buffer, Payload};
pub use frame::packet_size;
pub use io::task::McutieTask;
pub use packet::{Pid, QoS, SubscribeReturnCodes};
pub use publish::Publishable;
pub use topic::{Topic, TopicString};
use packet::pid_plus;
use pipe::{ConnectedPipe, PipeView, State};
use topic::topic_text;

verus! {

/// The type `embassy_net::IpAddress`, of which nothing is known: the library only passes
/// addresses on.
#[verifier::external_type_specification]
#[verifier::external_body]
pub struct ExIpAddress(embassy_net::IpAddress);

/// Various errors
#[derive(Debug, Clone, Copy, PartialEq, Eq, Structural)]
pub enum Error {
    /// An IO error occured.
    IOError,
    /// The operation timed out.
    TimedOut,
    /// An attempt was made to encode something too large.
    TooLarge,
    /// A packet or payload could not be decoded or encoded.
    PacketError,
}

/// A message from the MQTT broker.
#[derive(Debug)]
pub enum MqttMessage {
    /// The broker has been connected to successfully. Generally in response to this message a
    /// device should subscribe to topics of interest and send out any device state.
    Connected,
    /// New data received from the broker.
    Publish(Topic<TopicString>, Payload),
    /// The connection to the broker has been dropped.
    Disconnected,
}

/// A message as plain values: the text of its topic and the bytes of its payload.
pub enum MessageView {
    Connected,
    Publish(Seq<char>, Seq<u8>),
    Disconnected,
}

impl View for MqttMessage {
    type V = MessageView;

    open spec fn view(&self) -> MessageView {
        match *self {
            MqttMessage::Connected => MessageView::Connected,
            MqttMessage::Publish(topic, payload) => MessageView::Publish(
                topic_text(topic.path),
                payload@,
            ),
            MqttMessage::Disconnected => MessageView::Disconnected,
        }
    }
}

/// A confirmation from the broker.
#[derive(Debug, Clone, Copy, PartialEq, Eq, Structural)]
pub enum ControlMessage {
    Published(Pid),
    Subscribed(Pid, SubscribeReturnCodes),
    Unsubscribed(Pid),
}

/// A confirmation as plain values, with the number of its identifier.
pub enum ControlView {
    Published(u16),
    Subscribed(u16, SubscribeReturnCodes),
    Unsubscribed(u16),
}

impl View for ControlMessage {
    type V = ControlView;

    open spec fn view(&self) -> ControlView {
        match *self {
            ControlMessage::Published(pid) => ControlView::Published(pid.value()),
            ControlMessage::Subscribed(pid, code) => ControlView::Subscribed(pid.value(), code),
            ControlMessage::Unsubscribed(pid) => ControlView::Unsubscribed(pid.value()),
        }
    }
}

/// What is shared by the tasks that send packets.
#[derive(Debug)]
pub struct McutieSender {
    pub(crate) sender: ConnectedPipe<Payload>,
    pub(crate) count: Pid,
    pub(crate) confirmation_timeout: u64,
}

/// A sender as plain values.
pub struct SenderView {
    /// The pipe to the task that writes to the broker.
    pub pipe: PipeView<Payload>,
    /// The identifier that was given out last.
    pub count: u16,
    /// How long to wait for the broker to confirm actions, in milliseconds.
    pub confirmation_timeout: u64,
}

impl SenderView {
    /// The pipe is in order, and 0 is no identifier.
    pub open spec fn inv(self) -> bool {
        self.pipe.inv() && self.count != 0
    }

    /// The next identifier has been given out.
    pub open spec fn counted(self) -> Self {
        SenderView { count: pid_plus(self.count, 1), ..self }
    }
}

impl View for McutieSender {
    type V = SenderView;

    closed spec fn view(&self) -> SenderView {
        SenderView {
            pipe: self.sender@,
            count: self.count.value(),
            confirmation_timeout: self.confirmation_timeout,
        }
    }
}

impl McutieSender {
    /// A sender with nothing to send, which waits `confirmation_timeout` milliseconds for the
    /// broker to confirm actions.
    pub fn new(confirmation_timeout: u64) -> (sender: Self)
        ensures
            sender@.inv(),
            sender@.pipe.connect_count == 0,
            sender@.pipe.pending@ == Seq::<u8>::empty(),
            sender@.pipe.state == State::WriteEnd,
            sender@.count == 1,
            sender@.confirmation_timeout == confirmation_timeout,
    {
        McutieSender {
            sender: ConnectedPipe::new(Payload::new()),
            count: Pid::new(),
            confirmation_timeout,
        }
    }

    /// Gives out the next identifier.
    pub fn assign_pid(&mut self) -> (pid: Pid)
        requires
            old(self)@.inv(),
        ensures
            final(self)@ == old(self)@.counted(),
            final(self)@.inv(),
            pid.value() == final(self)@.count,
    {
        let new_val = self.count.plus(1);
        self.count = new_val;
        new_val
    }

    /// How long to wait for the broker to confirm actions, in milliseconds.
    pub fn confirmation_timeout(&self) -> (millis: u64)
        ensures
            millis == self@.confirmation_timeout,
    {
        self.confirmation_timeout
    }

    /// The pipe to the task that writes to the broker.
    pub fn pipe(&mut self) -> (pipe: &mut ConnectedPipe<Payload>)
        ensures
            pipe@ == old(self)@.pipe,
            final(self)@ == (SenderView { pipe: final(pipe)@, ..old(self)@ }),
    {
        &mut self.sender
    }
}

/// ip
#[derive(Debug, Clone, Copy)]
pub struct IpDn<'t> {
    /// dns hostname
    pub hostname: &'t str,
    /// port
    pub port: u16,
    /// back ip
    pub back_ip: embassy_net::IpAddress,
}

/// A text that may be missing.
pub open spec fn text(s: Option<&str>) -> Option<Seq<char>> {
    match s {
        Some(s) => Some(s@),
        None => None,
    }
}

/// The settings of the MQTT stack, as plain values.
pub struct SettingsView<N, T, L> {
    pub network: N,
    pub tcp_time_out: u64,
    pub tcp_keep_alive: u64,
    pub mqtt_ping_secs: u16,
    pub mqtt_keep_alive: u16,
    pub device_id: Seq<char>,
    pub hostname: Seq<char>,
    pub port: u16,
    pub back_ip: embassy_net::IpAddress,
    pub last_will: Option<L>,
    pub username: Option<Seq<char>>,
    pub password: Option<Seq<char>>,
    pub subscriptions: Seq<Topic<T>>,
}

/// A builder to configure the MQTT stack.
#[derive(Debug)]
pub struct McutieBuilder<'t, N, T, L: Publishable, const S: usize> {
    network: N,
    tcp_time_out: u64,
    tcp_keep_alive: u64,
    mqtt_ping_secs: u16,
    mqtt_keep_alive: u16,
    device_id: &'t str,
    broker: IpDn<'t>,
    last_will: Option<L>,
    username: Option<&'t str>,
    password: Option<&'t str>,
    subscriptions: [Topic<T>; S],
}

impl<'t, N, T, L: Publishable, const S: usize> View for McutieBuilder<'t, N, T, L, S> {
    type V = SettingsView<N, T, L>;

    closed spec fn view(&self) -> SettingsView<N, T, L> {
        SettingsView {
            network: self.network,
            tcp_time_out: self.tcp_time_out,
            tcp_keep_alive: self.tcp_keep_alive,
            mqtt_ping_secs: self.mqtt_ping_secs,
            mqtt_keep_alive: self.mqtt_keep_alive,
            device_id: self.device_id@,
            hostname: self.broker.hostname@,
            port: self.broker.port,
            back_ip: self.broker.back_ip,
            last_will: self.last_will,
            username: text(self.username),
            password: text(self.password),
            subscriptions: self.subscriptions@,
        }
    }
}

impl<'t, N, T, L: Publishable> McutieBuilder<'t, N, T, L, 0> {
    /// Creates a new builder with the initial required configuration.
    ///
    /// `broker` may be an IP address or a DNS name for the broker to connect to.
    pub fn new(
        network: N,
        device_id: &'t str,
        broker: IpDn<'t>,
        tcp_time_out: u64,
        tcp_keep_alive: u64,
        mqtt_ping_secs: u16,
        mqtt_keep_alive: u16,
    ) -> (builder: Self)
        ensures
            builder@ == (SettingsView::<N, T, L> {
                network,
                tcp_time_out,
                tcp_keep_alive,
                mqtt_ping_secs,
                mqtt_keep_alive,
                device_id: device_id@,
                hostname: broker.hostname@,
                port: broker.port,
                back_ip: broker.back_ip,
                last_will: None,
                username: None,
                password: None,
                subscriptions: Seq::<Topic<T>>::empty(),
            }),
    {
        let builder = McutieBuilder {
            network,
            tcp_time_out,
            tcp_keep_alive,
            mqtt_ping_secs,
            mqtt_keep_alive,
            broker,
            device_id,
            last_will: None,
            username: None,
            password: None,
            subscriptions: [],
        };
        assert(builder.subscriptions@ =~= Seq::<Topic<T>>::empty());
        builder
    }
}

impl<'t, N, T, L: Publishable, const S: usize> McutieBuilder<'t, N, T, L, S> {
    /// Add some default topics to subscribe to.
    pub fn with_subscriptions<const M: usize>(self, subscriptions: [Topic<T>; M]) -> (builder:
        McutieBuilder<'t, N, T, L, M>)
        ensures
            builder@ == (SettingsView { subscriptions: subscriptions@, ..self@ }),
    {
        McutieBuilder {
            network: self.network,
            tcp_time_out: self.tcp_time_out,
            tcp_keep_alive: self.tcp_keep_alive,
            mqtt_ping_secs: self.mqtt_ping_secs,
            mqtt_keep_alive: self.mqtt_keep_alive,
            broker: self.broker,
            device_id: self.device_id,
            last_will: self.last_will,
            username: self.username,
            password: self.password,
            subscriptions,
        }
    }

    /// Adds authentication for the broker.
    pub fn with_authentication(self, username: &'t str, password: &'t str) -> (builder: Self)
        ensures
            builder@ == (SettingsView {
                username: Some(username@),
                password: Some(password@),
                ..self@
            }),
    {
        McutieBuilder { username: Some(username), password: Some(password), ..self }
    }

    /// Sets a last will message to be published in the event of disconnection.
    pub fn with_last_will(self, last_will: L) -> (builder: Self)
        ensures
            builder@ == (SettingsView { last_will: Some(last_will), ..self@ }),
    {
        McutieBuilder { last_will: Some(last_will), ..self }
    }

    /// Initialises the MQTT stack returning the task that must be run in order for the stack to
    /// operate. It sends what `sender` is given, and hands messages from the broker to `receive`.
    pub fn build<'a, X, R>(self, sender: &'a X, receive: &'a R) -> (task: McutieTask<
        't,
        'a,
        N,
        T,
        L,
        X,
        R,
        S,
    >)
        ensures
            task@ == self@,
            *task.sender == *sender,
            *task.receive == *receive,
    {
        McutieTask {
            network: self.network,
            broker: self.broker,
            tcp_time_out: self.tcp_time_out,
            tcp_keep_alive: self.tcp_keep_alive,
            mqtt_ping_secs: self.mqtt_ping_secs,
            mqtt_keep_alive: self.mqtt_keep_alive,
            client_id: self.device_id,
            last_will: self.last_will,
            username: self.username,
            password: self.password,
            subscriptions: self.subscriptions,
            receive,
            sender,
        }
    }
}

/// Giving out an identifier counts on by one, from 65535 to 1, and changes nothing else.
pub proof fn law_identifiers_are_counted_one_by_one(sender: SenderView)
    ensures
        sender.counted().count == if sender.count == 65535 {
            1int
        } else {
            sender.count + 1
        },
        sender.counted().pipe == sender.pipe,
        sender.counted().confirmation_timeout == sender.confirmation_timeout,
        sender.inv() ==> sender.counted().inv(),
        sender.inv() ==> sender.count != 0,
{
}

/// As plain values a message to the user and a confirmation say what they say otherwise.
pub proof fn law_messages_and_confirmations_keep_their_values(
    topic: Topic<TopicString>,
    payload: Payload,
    pid: Pid,
    code: SubscribeReturnCodes,
)
    ensures
        MqttMessage::Connected@ == MessageView::Connected,
        MqttMessage::Disconnected@ == MessageView::Disconnected,
        MqttMessage::Publish(topic, payload)@ == MessageView::Publish(
            topic_text(topic.path),
            payload@,
        ),
        ControlMessage::Published(pid)@ == ControlView::Published(pid.value()),
        ControlMessage::Subscribed(pid, code)@ == ControlView::Subscribed(pid.value(), code),
        ControlMessage::Unsubscribed(pid)@ == ControlView::Unsubscribed(pid.value()),
{
}

} // verus!
