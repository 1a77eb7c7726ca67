//! The packets that a client sends and receives, as plain values, and their layout on the wire.
use vstd::prelude::*;
use vstd::utf8::encode_utf8;

verus! {

/// The largest length that the length field of a packet can hold.
pub const MAX_REMAINING_LENGTH: usize = 268_435_455;

/// The number of topics that one subscribe or unsubscribe packet can hold.
pub const MAX_TOPICS: usize = 5;

/// The number of bytes that a topic can hold.
pub const TOPIC_LENGTH: usize = 256;

/// A packet identifier, which is never 0.
#[derive(Debug, Clone, Copy, PartialEq, Eq, Structural)]
pub struct Pid {
    pub(crate) number: u16,
}

impl Pid {
    #[verifier::type_invariant]
    spec fn nonzero(self) -> bool {
        self.number != 0
    }

    /// The identifier as a number.
    pub closed spec fn value(self) -> u16 {
        self.number
    }

    /// The identifier 1.
    pub fn new() -> (pid: Self)
        ensures
            pid.value() == 1,
    {
        Pid { number: 1 }
    }

    /// The identifier with this number; there is none for 0.
    pub fn from_number(number: u16) -> (pid: Option<Self>)
        ensures
            pid is Some <==> number != 0,
            pid matches Some(p) ==> p.value() == number,
    {
        if number == 0 {
            None
        } else {
            Some(Pid { number })
        }
    }

    /// The identifier as a number.
    pub fn get(self) -> (number: u16)
        ensures
            number == self.value(),
            number != 0,
    {
        proof {
            use_type_invariant(&self);
        }
        self.number
    }

    /// The identifier `step` places further on: 1 follows 65535.
    pub fn plus(self, step: u16) -> (pid: Self)
        ensures
            pid.value() == pid_plus(self.value(), step),
            pid.value() != 0,
    {
        proof {
            use_type_invariant(&self);
        }
        let sum: u32 = self.number as u32 + step as u32;
        if sum <= 65535 {
            Pid { number: sum as u16 }
        } else {
            Pid { number: (sum - 65535) as u16 }
        }
    }
}

/// The number `step` places after `pid` in the cycle of the numbers from 1 to 65535.
pub open spec fn pid_plus(pid: u16, step: u16) -> u16 {
    if pid + step <= 65535 {
        (pid + step) as u16
    } else {
        (pid + step - 65535) as u16
    }
}

/// The delivery that is asked for.
#[derive(Debug, Clone, Copy, PartialEq, Eq, Structural)]
pub enum QoS {
    /// No acknowledgement.
    AtMostOnce,
    /// One acknowledgement.
    AtLeastOnce,
    /// Two acknowledgements.
    ExactlyOnce,
}

/// The delivery that is asked for, with the identifier that the acknowledgements name.
#[derive(Debug, Clone, Copy, PartialEq, Eq, Structural)]
pub enum QosPid {
    AtMostOnce,
    AtLeastOnce(Pid),
    ExactlyOnce(Pid),
}

/// A `QosPid` with its identifier as a number.
pub enum QosPidView {
    AtMostOnce,
    AtLeastOnce(u16),
    ExactlyOnce(u16),
}

impl View for QosPid {
    type V = QosPidView;

    open spec fn view(&self) -> QosPidView {
        match *self {
            QosPid::AtMostOnce => QosPidView::AtMostOnce,
            QosPid::AtLeastOnce(pid) => QosPidView::AtLeastOnce(pid.value()),
            QosPid::ExactlyOnce(pid) => QosPidView::ExactlyOnce(pid.value()),
        }
    }
}

/// The answer to one topic of a subscribe packet.
#[derive(Debug, Clone, Copy, PartialEq, Eq, Structural)]
pub enum SubscribeReturnCodes {
    Success(QoS),
    Failure,
}

/// A message on a topic.
#[derive(Debug, Clone, Copy)]
pub struct Publish<'a> {
    pub dup: bool,
    pub qospid: QosPid,
    pub retain: bool,
    pub topic_name: &'a str,
    pub payload: &'a [u8],
}

/// A message as plain values.
pub struct PublishView {
    pub dup: bool,
    pub qospid: QosPidView,
    pub retain: bool,
    pub topic_name: Seq<char>,
    pub payload: Seq<u8>,
}

impl View for Publish<'_> {
    type V = PublishView;

    open spec fn view(&self) -> PublishView {
        PublishView {
            dup: self.dup,
            qospid: self.qospid@,
            retain: self.retain,
            topic_name: self.topic_name@,
            payload: self.payload@,
        }
    }
}

/// The message that the broker publishes when the connection is lost.
#[derive(Debug, Clone, Copy)]
pub struct LastWill<'a> {
    pub topic: &'a str,
    pub message: &'a [u8],
    pub qos: QoS,
    pub retain: bool,
}

/// A last will as plain values.
pub struct LastWillView {
    pub topic: Seq<char>,
    pub message: Seq<u8>,
    pub qos: QoS,
    pub retain: bool,
}

impl View for LastWill<'_> {
    type V = LastWillView;

    open spec fn view(&self) -> LastWillView {
        LastWillView {
            topic: self.topic@,
            message: self.message@,
            qos: self.qos,
            retain: self.retain,
        }
    }
}

/// The protocol that a connection asks for.
#[derive(Debug, Clone, Copy, PartialEq, Eq, Structural)]
pub enum Protocol {
    /// MQTT 3.1.1.
    MQTT311,
}

/// The request to open a connection.
#[derive(Debug, Clone, Copy)]
pub struct Connect<'a> {
    pub protocol: Protocol,
    pub keep_alive: u16,
    pub client_id: &'a str,
    pub clean_session: bool,
    pub last_will: Option<LastWill<'a>>,
    pub username: Option<&'a str>,
    pub password: Option<&'a [u8]>,
}

/// A connection request as plain values.
pub struct ConnectView {
    pub protocol: Protocol,
    pub keep_alive: u16,
    pub client_id: Seq<char>,
    pub clean_session: bool,
    pub last_will: Option<LastWillView>,
    pub username: Option<Seq<char>>,
    pub password: Option<Seq<u8>>,
}

impl View for Connect<'_> {
    type V = ConnectView;

    open spec fn view(&self) -> ConnectView {
        ConnectView {
            protocol: self.protocol,
            keep_alive: self.keep_alive,
            client_id: self.client_id@,
            clean_session: self.clean_session,
            last_will: match self.last_will {
                Some(will) => Some(will@),
                None => None,
            },
            username: match self.username {
                Some(name) => Some(name@),
                None => None,
            },
            password: match self.password {
                Some(word) => Some(word@),
                None => None,
            },
        }
    }
}

/// One topic of a subscribe packet.
#[derive(Debug, Clone, Copy)]
pub struct SubscribeTopic<'a> {
    pub topic_path: &'a str,
    pub qos: QoS,
}

/// A packet that a client sends.
#[derive(Debug)]
pub enum Packet<'a> {
    Connect(Connect<'a>),
    Publish(Publish<'a>),
    Puback(Pid),
    Pubrec(Pid),
    Pubrel(Pid),
    Pubcomp(Pid),
    Subscribe(Pid, Vec<SubscribeTopic<'a>>),
    Unsubscribe(Pid, Vec<&'a str>),
    Pingreq,
    Disconnect,
}

/// A packet that a client sends, as plain values.
pub enum PacketView {
    Connect(ConnectView),
    Publish(PublishView),
    Puback(u16),
    Pubrec(u16),
    Pubrel(u16),
    Pubcomp(u16),
    Subscribe(u16, Seq<(Seq<char>, QoS)>),
    Unsubscribe(u16, Seq<Seq<char>>),
    Pingreq,
    Disconnect,
}

impl View for Packet<'_> {
    type V = PacketView;

    open spec fn view(&self) -> PacketView {
        match *self {
            Packet::Connect(connect) => PacketView::Connect(connect@),
            Packet::Publish(publish) => PacketView::Publish(publish@),
            Packet::Puback(pid) => PacketView::Puback(pid.value()),
            Packet::Pubrec(pid) => PacketView::Pubrec(pid.value()),
            Packet::Pubrel(pid) => PacketView::Pubrel(pid.value()),
            Packet::Pubcomp(pid) => PacketView::Pubcomp(pid.value()),
            Packet::Subscribe(pid, topics) => PacketView::Subscribe(
                pid.value(),
                topics@.map_values(|t: SubscribeTopic| (t.topic_path@, t.qos)),
            ),
            Packet::Unsubscribe(pid, topics) => PacketView::Unsubscribe(
                pid.value(),
                topics@.map_values(|t: &str| t@),
            ),
            Packet::Pingreq => PacketView::Pingreq,
            Packet::Disconnect => PacketView::Disconnect,
        }
    }
}

impl PacketView {
    /// The packet holds no more topics, and no longer ones, than a packet can.
    pub open spec fn fits(self) -> bool {
        match self {
            PacketView::Subscribe(_, topics) => topics.len() <= MAX_TOPICS && forall|i: int|
                0 <= i < topics.len() ==> encode_utf8(#[trigger] topics[i].0).len()
                    <= TOPIC_LENGTH,
            PacketView::Unsubscribe(_, topics) => topics.len() <= MAX_TOPICS && forall|i: int|
                0 <= i < topics.len() ==> encode_utf8(#[trigger] topics[i]).len() <= TOPIC_LENGTH,
            _ => true,
        }
    }
}

impl Packet<'_> {
    /// Whether the packet holds no more topics, and no longer ones, than a packet can.
    pub fn fits(&self) -> (r: bool)
        ensures
            r == self@.fits(),
    {
        match self {
            Packet::Subscribe(_, topics) => {
                if topics.len() > MAX_TOPICS {
                    return false;
                }
                let mut i: usize = 0;
                while i < topics.len()
                    invariant
                        i <= topics@.len() <= MAX_TOPICS,
                        self matches Packet::Subscribe(_, t) && t == topics,
                        forall|j: int|
                            0 <= j < i ==> encode_utf8(#[trigger] topics@[j].topic_path@).len()
                                <= TOPIC_LENGTH,
                    decreases topics.len() - i,
                {
                    if topics[i].topic_path.as_bytes().len() > TOPIC_LENGTH {
                        let ghost view = topics@.map_values(
                            |t: SubscribeTopic| (t.topic_path@, t.qos),
                        );
                        assert(encode_utf8(view[i as int].0).len() > TOPIC_LENGTH);
                        return false;
                    }
                    i = i + 1;
                }
                true
            },
            Packet::Unsubscribe(_, topics) => {
                if topics.len() > MAX_TOPICS {
                    return false;
                }
                let mut i: usize = 0;
                while i < topics.len()
                    invariant
                        i <= topics@.len() <= MAX_TOPICS,
                        self matches Packet::Unsubscribe(_, t) && t == topics,
                        forall|j: int|
                            0 <= j < i ==> encode_utf8(#[trigger] topics@[j]@).len()
                                <= TOPIC_LENGTH,
                    decreases topics.len() - i,
                {
                    if topics[i].as_bytes().len() > TOPIC_LENGTH {
                        let ghost view = topics@.map_values(|t: &str| t@);
                        assert(encode_utf8(view[i as int]).len() > TOPIC_LENGTH);
                        return false;
                    }
                    i = i + 1;
                }
                true
            },
            _ => true,
        }
    }
}

/// A packet that a client receives.
#[derive(Debug)]
pub enum Incoming<'a> {
    /// The answer to a connection request; the code 0 accepts it.
    Connack(u8),
    Publish(Publish<'a>),
    Puback(Pid),
    Pubrec(Pid),
    Pubrel(Pid),
    Pubcomp(Pid),
    Suback(Pid, Vec<SubscribeReturnCodes>),
    Unsuback(Pid),
    Pingresp,
    /// A packet that only a client sends.
    Unexpected,
}

/// A packet that a client receives, as plain values.
pub enum IncomingView {
    Connack(u8),
    Publish(PublishView),
    Puback(u16),
    Pubrec(u16),
    Pubrel(u16),
    Pubcomp(u16),
    Suback(u16, Seq<SubscribeReturnCodes>),
    Unsuback(u16),
    Pingresp,
    Unexpected,
}

impl View for Incoming<'_> {
    type V = IncomingView;

    open spec fn view(&self) -> IncomingView {
        match *self {
            Incoming::Connack(code) => IncomingView::Connack(code),
            Incoming::Publish(publish) => IncomingView::Publish(publish@),
            Incoming::Puback(pid) => IncomingView::Puback(pid.value()),
            Incoming::Pubrec(pid) => IncomingView::Pubrec(pid.value()),
            Incoming::Pubrel(pid) => IncomingView::Pubrel(pid.value()),
            Incoming::Pubcomp(pid) => IncomingView::Pubcomp(pid.value()),
            Incoming::Suback(pid, codes) => IncomingView::Suback(pid.value(), codes@),
            Incoming::Unsuback(pid) => IncomingView::Unsuback(pid.value()),
            Incoming::Pingresp => IncomingView::Pingresp,
            Incoming::Unexpected => IncomingView::Unexpected,
        }
    }
}

/// Two bytes, the more significant first.
pub open spec fn two_bytes(n: nat) -> Seq<u8> {
    seq![(n / 256 % 256) as u8, (n % 256) as u8]
}

/// Bytes with their number in front.
pub open spec fn counted(bytes: Seq<u8>) -> Seq<u8> {
    two_bytes(bytes.len()) + bytes
}

/// A text with the number of its bytes in front.
pub open spec fn counted_text(text: Seq<char>) -> Seq<u8> {
    counted(encode_utf8(text))
}

/// The length field: seven bits to a byte, the least significant first, 128 added to each byte
/// but the last.
pub open spec fn length_field(n: nat) -> Seq<u8>
    decreases n,
{
    if n < 128 {
        seq![n as u8]
    } else {
        seq![(128 + n % 128) as u8] + length_field(n / 128)
    }
}

/// A packet: its first byte, the length of what follows the length field, and that.
pub open spec fn framed(first: u8, body: Seq<u8>) -> Seq<u8> {
    seq![first] + length_field(body.len()) + body
}

/// The delivery that is asked for, as a number.
pub open spec fn qos_number(qos: QoS) -> u8 {
    match qos {
        QoS::AtMostOnce => 0,
        QoS::AtLeastOnce => 1,
        QoS::ExactlyOnce => 2,
    }
}

/// The flags of a connection request: 2 for a clean session, 4 for a last will with its delivery
/// and retention above it, 64 for a password, 128 for a user name.
pub open spec fn connect_flags(c: ConnectView) -> u8 {
    ((if c.clean_session {
        2int
    } else {
        0
    }) + (match c.last_will {
        Some(will) => 4 + 8 * qos_number(will.qos) + (if will.retain {
            32int
        } else {
            0
        }),
        None => 0,
    }) + (if c.password is Some {
        64int
    } else {
        0
    }) + (if c.username is Some {
        128int
    } else {
        0
    })) as u8
}

/// What follows the length field of a connection request: the protocol and its level, the flags,
/// the keep alive time, and the texts that the flags announce.
pub open spec fn connect_body(c: ConnectView) -> Seq<u8> {
    seq![0u8, 4, 77, 81, 84, 84, 4, connect_flags(c)] + two_bytes(c.keep_alive as nat)
        + counted_text(c.client_id) + (match c.last_will {
        Some(will) => counted_text(will.topic) + counted(will.message),
        None => seq![],
    }) + (match c.username {
        Some(name) => counted_text(name),
        None => seq![],
    }) + (match c.password {
        Some(word) => counted(word),
        None => seq![],
    })
}

/// The first byte of a publish packet.
pub open spec fn publish_first_byte(p: PublishView) -> u8 {
    (48 + (if p.dup {
        8int
    } else {
        0
    }) + (match p.qospid {
        QosPidView::AtMostOnce => 0int,
        QosPidView::AtLeastOnce(_) => 2,
        QosPidView::ExactlyOnce(_) => 4,
    }) + (if p.retain {
        1int
    } else {
        0
    })) as u8
}

/// What follows the length field of a publish packet.
pub open spec fn publish_body(p: PublishView) -> Seq<u8> {
    counted_text(p.topic_name) + (match p.qospid {
        QosPidView::AtMostOnce => seq![],
        QosPidView::AtLeastOnce(pid) => two_bytes(pid as nat),
        QosPidView::ExactlyOnce(pid) => two_bytes(pid as nat),
    }) + p.payload
}

/// The topics of a subscribe packet, each followed by the delivery asked for.
pub open spec fn subscribe_topics(topics: Seq<(Seq<char>, QoS)>) -> Seq<u8>
    decreases topics.len(),
{
    if topics.len() == 0 {
        seq![]
    } else {
        subscribe_topics(topics.drop_last()) + counted_text(topics.last().0).push(
            qos_number(topics.last().1),
        )
    }
}

/// The topics of an unsubscribe packet.
pub open spec fn unsubscribe_topics(topics: Seq<Seq<char>>) -> Seq<u8>
    decreases topics.len(),
{
    if topics.len() == 0 {
        seq![]
    } else {
        unsubscribe_topics(topics.drop_last()) + counted_text(topics.last())
    }
}

/// The first byte of a packet that a client sends.
pub open spec fn first_byte(p: PacketView) -> u8 {
    match p {
        PacketView::Connect(_) => 0x10,
        PacketView::Publish(publish) => publish_first_byte(publish),
        PacketView::Puback(_) => 0x40,
        PacketView::Pubrec(_) => 0x50,
        PacketView::Pubrel(_) => 0x62,
        PacketView::Pubcomp(_) => 0x70,
        PacketView::Subscribe(_, _) => 0x82,
        PacketView::Unsubscribe(_, _) => 0xa2,
        PacketView::Pingreq => 0xc0,
        PacketView::Disconnect => 0xe0,
    }
}

/// What follows the length field of a packet that a client sends.
pub open spec fn contents(p: PacketView) -> Seq<u8> {
    match p {
        PacketView::Connect(connect) => connect_body(connect),
        PacketView::Publish(publish) => publish_body(publish),
        PacketView::Puback(pid) => two_bytes(pid as nat),
        PacketView::Pubrec(pid) => two_bytes(pid as nat),
        PacketView::Pubrel(pid) => two_bytes(pid as nat),
        PacketView::Pubcomp(pid) => two_bytes(pid as nat),
        PacketView::Subscribe(pid, topics) => two_bytes(pid as nat) + subscribe_topics(topics),
        PacketView::Unsubscribe(pid, topics) => two_bytes(pid as nat) + unsubscribe_topics(topics),
        PacketView::Pingreq => seq![],
        PacketView::Disconnect => seq![],
    }
}

/// The bytes of a packet that a client sends.
pub open spec fn layout(p: PacketView) -> Seq<u8> {
    framed(first_byte(p), contents(p))
}

/// A publish packet that the length fields can describe and that names a valid identifier.
pub open spec fn publish_fits(p: PublishView) -> bool {
    &&& encode_utf8(p.topic_name).len() <= 65535
    &&& publish_body(p).len() <= MAX_REMAINING_LENGTH
    &&& p.qospid != QosPidView::AtLeastOnce(0)
    &&& p.qospid != QosPidView::ExactlyOnce(0)
}

/// The byte that answers one topic of a subscribe packet.
pub open spec fn return_code(code: SubscribeReturnCodes) -> u8 {
    match code {
        SubscribeReturnCodes::Success(qos) => qos_number(qos),
        SubscribeReturnCodes::Failure => 0x80,
    }
}

/// `frame` is the packet `p`, laid out as a sender lays it out.
pub open spec fn carries(frame: Seq<u8>, p: IncomingView) -> bool {
    match p {
        IncomingView::Connack(code) => code <= 5 && frame.len() == 4 && frame[0] == 0x20 && frame[1]
            == 2 && frame[3] == code,
        IncomingView::Publish(publish) => publish_fits(publish) && frame == layout(
            PacketView::Publish(publish),
        ),
        IncomingView::Puback(pid) => pid != 0 && frame == layout(PacketView::Puback(pid)),
        IncomingView::Pubrec(pid) => pid != 0 && frame == layout(PacketView::Pubrec(pid)),
        IncomingView::Pubrel(pid) => pid != 0 && frame == layout(PacketView::Pubrel(pid)),
        IncomingView::Pubcomp(pid) => pid != 0 && frame == layout(PacketView::Pubcomp(pid)),
        IncomingView::Suback(pid, codes) => pid != 0 && codes.len() <= MAX_TOPICS && frame
            == framed(
            0x90,
            two_bytes(pid as nat) + codes.map_values(|c: SubscribeReturnCodes| return_code(c)),
        ),
        IncomingView::Unsuback(pid) => pid != 0 && frame == framed(0xb0, two_bytes(pid as nat)),
        IncomingView::Pingresp => frame == framed(0xd0, seq![]),
        IncomingView::Unexpected => frame == layout(PacketView::Pingreq) || frame == layout(
            PacketView::Disconnect,
        ),
    }
}

/// Identifiers are the numbers from 1 to 65535, which go round in a circle; a step of 0 leads
/// nowhere, and two steps lead as far as their sum.
pub proof fn law_identifiers_go_round(pid: u16, step: u16, more: u16)
    requires
        pid != 0,
    ensures
        pid_plus(pid, step) == (pid - 1 + step) % 65535 + 1,
        pid_plus(pid, 0) == pid,
        step + more <= 65535 ==> pid_plus(pid_plus(pid, step), more) == pid_plus(
            pid,
            (step + more) as u16,
        ),
{
}

/// A subscribe packet holds up to five topics of up to 256 bytes: none fits, and one more fits
/// where there are fewer than five and it is short enough.
pub proof fn law_topics_fit_one_by_one(
    pid: u16,
    topics: Seq<(Seq<char>, QoS)>,
    topic: Seq<char>,
    qos: QoS,
)
    ensures
        PacketView::Subscribe(pid, seq![]).fits(),
        PacketView::Subscribe(pid, topics.push((topic, qos))).fits() <==> {
            &&& PacketView::Subscribe(pid, topics).fits()
            &&& topics.len() < 5
            &&& encode_utf8(topic).len() <= 256
        },
{
    let more = topics.push((topic, qos));
    assert(more[topics.len() as int].0 == topic);
    assert forall|i: int| 0 <= i < topics.len() implies more[i].0 == #[trigger] topics[i].0 by {}
    if PacketView::Subscribe(pid, more).fits() {
        assert forall|i: int| 0 <= i < topics.len() implies encode_utf8(
            #[trigger] topics[i].0,
        ).len() <= TOPIC_LENGTH by {
            assert(more[i].0 == topics[i].0);
        }
    }
}

/// An unsubscribe packet holds up to five topics of up to 256 bytes: none fits, and one more fits
/// where there are fewer than five and it is short enough. Any other packet fits.
pub proof fn law_other_packets_fit(
    p: PacketView,
    pid: u16,
    topics: Seq<Seq<char>>,
    topic: Seq<char>,
)
    ensures
        PacketView::Unsubscribe(pid, seq![]).fits(),
        PacketView::Unsubscribe(pid, topics.push(topic)).fits() <==> {
            &&& PacketView::Unsubscribe(pid, topics).fits()
            &&& topics.len() < 5
            &&& encode_utf8(topic).len() <= 256
        },
        !(p is Subscribe) && !(p is Unsubscribe) ==> p.fits(),
{
    let more = topics.push(topic);
    assert(more[topics.len() as int] == topic);
    if PacketView::Unsubscribe(pid, more).fits() {
        assert forall|i: int| 0 <= i < topics.len() implies encode_utf8(#[trigger] topics[i]).len()
            <= TOPIC_LENGTH by {
            assert(more[i] == topics[i]);
        }
    }
}

/// The bytes of the packets that hold no more than an identifier.
pub proof fn law_short_packets_on_the_wire(pid: u16)
    ensures
        ({
            let (high, low) = ((pid / 256) as u8, (pid % 256) as u8);
            &&& layout(PacketView::Puback(pid)) == seq![0x40u8, 2, high, low]
            &&& layout(PacketView::Pubrec(pid)) == seq![0x50u8, 2, high, low]
            &&& layout(PacketView::Pubrel(pid)) == seq![0x62u8, 2, high, low]
            &&& layout(PacketView::Pubcomp(pid)) == seq![0x70u8, 2, high, low]
        }),
        layout(PacketView::Pingreq) == seq![0xc0u8, 0],
        layout(PacketView::Disconnect) == seq![0xe0u8, 0],
{
    assert(length_field(2) =~= seq![2u8]);
    assert(length_field(0) =~= seq![0u8]);
    assert(pid as nat / 256 % 256 == pid as nat / 256);
}

/// A publish packet says all of its message: its first byte the kind, the flags and the delivery;
/// its contents the topic with the number of its bytes, the identifier where the delivery asks
/// for one, and the payload, to the end.
pub proof fn law_publish_packet_on_the_wire(p: PublishView)
    requires
        encode_utf8(p.topic_name).len() <= 65535,
    ensures
        ({
            let packet = PacketView::Publish(p);
            let first = layout(packet)[0];
            let body = contents(packet);
            let topic = encode_utf8(p.topic_name);
            let n = topic.len() as int;
            &&& first / 16 == 3
            &&& first / 8 % 2 == 1 <==> p.dup
            &&& first % 2 == 1 <==> p.retain
            &&& 256 * body[0] + body[1] == n
            &&& body.subrange(2, 2 + n) == topic
            &&& match p.qospid {
                QosPidView::AtMostOnce => first / 2 % 4 == 0 && body.skip(2 + n) == p.payload,
                QosPidView::AtLeastOnce(pid) => first / 2 % 4 == 1 && 256 * body[2 + n] + body[3
                    + n] == pid && body.skip(4 + n) == p.payload,
                QosPidView::ExactlyOnce(pid) => first / 2 % 4 == 2 && 256 * body[2 + n] + body[3
                    + n] == pid && body.skip(4 + n) == p.payload,
            }
        }),
{
    let body = contents(PacketView::Publish(p));
    let topic = encode_utf8(p.topic_name);
    let n = topic.len() as int;
    let front = two_bytes(topic.len());
    assert(body[0] == front[0] && body[1] == front[1]);
    assert(n / 256 % 256 == n / 256);
    assert(body.subrange(2, 2 + n) =~= topic);
    match p.qospid {
        QosPidView::AtMostOnce => {
            assert(body.skip(2 + n) =~= p.payload);
        },
        QosPidView::AtLeastOnce(pid) => {
            assert(body[2 + n] == two_bytes(pid as nat)[0]);
            assert(body[3 + n] == two_bytes(pid as nat)[1]);
            assert(pid as nat / 256 % 256 == pid as nat / 256);
            assert(body.skip(4 + n) =~= p.payload);
        },
        QosPidView::ExactlyOnce(pid) => {
            assert(body[2 + n] == two_bytes(pid as nat)[0]);
            assert(body[3 + n] == two_bytes(pid as nat)[1]);
            assert(pid as nat / 256 % 256 == pid as nat / 256);
            assert(body.skip(4 + n) =~= p.payload);
        },
    }
}

/// The byte strings `fields`, each with its number of bytes in front.
pub open spec fn listed(fields: Seq<Seq<u8>>) -> Seq<u8>
    decreases fields.len(),
{
    if fields.len() == 0 {
        seq![]
    } else {
        let last = fields.last();
        listed(fields.drop_last()) + seq![(last.len() / 256 % 256) as u8, (last.len() % 256) as u8]
            + last
    }
}

/// The flags of a connection request say what follows them, and the delivery and the retention of
/// the last will.
pub proof fn law_connection_request_flags(c: ConnectView)
    ensures
        ({
            let flags = connect_flags(c);
            &&& flags / 128 == 1 <==> c.username is Some
            &&& flags / 64 % 2 == 1 <==> c.password is Some
            &&& flags / 4 % 2 == 1 <==> c.last_will is Some
            &&& flags / 2 % 2 == 1 <==> c.clean_session
            &&& flags % 2 == 0
            &&& match c.last_will {
                Some(will) => {
                    &&& flags / 32 % 2 == 1 <==> will.retain
                    &&& flags / 8 % 4 == match will.qos {
                        QoS::AtMostOnce => 0int,
                        QoS::AtLeastOnce => 1,
                        QoS::ExactlyOnce => 2,
                    }
                },
                None => flags / 8 % 8 == 0,
            }
        }),
{
}

/// What follows the keep alive time of a connection request.
spec fn connect_texts(c: ConnectView) -> Seq<u8> {
    counted_text(c.client_id) + (match c.last_will {
        Some(will) => counted_text(will.topic) + counted(will.message),
        None => seq![],
    }) + (match c.username {
        Some(name) => counted_text(name),
        None => seq![],
    }) + (match c.password {
        Some(word) => counted(word),
        None => seq![],
    })
}

proof fn lemma_connect_body(c: ConnectView)
    ensures
        connect_body(c).take(7) == seq![0u8, 4, 77, 81, 84, 84, 4],
        connect_body(c)[7] == connect_flags(c),
        256 * connect_body(c)[8] + connect_body(c)[9] == c.keep_alive,
        connect_body(c).skip(10) == connect_texts(c),
{
    let body = connect_body(c);
    assert(body.take(7) =~= seq![0u8, 4, 77, 81, 84, 84, 4]);
    assert(body[8] == two_bytes(c.keep_alive as nat)[0]);
    assert(body[9] == two_bytes(c.keep_alive as nat)[1]);
    assert(c.keep_alive as nat / 256 % 256 == c.keep_alive as nat / 256);
    assert(body.skip(10) =~= connect_texts(c));
}

/// A connection request says all that it is made of: the protocol, the flags, the keep alive time,
/// and then the client id, the topic and the message of the last will, the user name and the
/// password, of those that there are.
pub proof fn law_connection_request_on_the_wire(c: ConnectView)
    ensures
        ({
            let packet = PacketView::Connect(c);
            let body = contents(packet);
            let id = seq![encode_utf8(c.client_id)];
            let will = match c.last_will {
                Some(will) => seq![encode_utf8(will.topic), will.message],
                None => seq![],
            };
            let name = match c.username {
                Some(name) => seq![encode_utf8(name)],
                None => seq![],
            };
            let word = match c.password {
                Some(word) => seq![word],
                None => seq![],
            };
            &&& layout(packet)[0] == 0x10
            &&& body.take(7) == seq![0u8, 4, 77, 81, 84, 84, 4]
            &&& body[7] == connect_flags(c)
            &&& 256 * body[8] + body[9] == c.keep_alive
            &&& body.skip(10) == listed(id + will + name + word)
        }),
{
    lemma_connect_body(c);
    let id = seq![encode_utf8(c.client_id)];
    let will = match c.last_will {
        Some(will) => seq![encode_utf8(will.topic), will.message],
        None => seq![],
    };
    let name = match c.username {
        Some(name) => seq![encode_utf8(name)],
        None => seq![],
    };
    let word = match c.password {
        Some(word) => seq![word],
        None => seq![],
    };
    assert(listed(id) == counted_text(c.client_id)) by {
        lemma_listed_push(seq![], encode_utf8(c.client_id));
        assert(Seq::<Seq<u8>>::empty().push(encode_utf8(c.client_id)) =~= id);
        assert(listed(seq![]) + counted_text(c.client_id) =~= counted_text(c.client_id));
    }
    assert(listed(id + will) == listed(id) + match c.last_will {
        Some(will) => counted_text(will.topic) + counted(will.message),
        None => seq![],
    }) by {
        match c.last_will {
            Some(w) => {
                lemma_listed_push(id, encode_utf8(w.topic));
                lemma_listed_push(id.push(encode_utf8(w.topic)), w.message);
                assert(id + will =~= id.push(encode_utf8(w.topic)).push(w.message));
                assert(listed(id) + counted_text(w.topic) + counted(w.message) =~= listed(id) + (
                counted_text(w.topic) + counted(w.message)));
            },
            None => {
                assert(id + will =~= id);
                assert(listed(id) + Seq::<u8>::empty() =~= listed(id));
            },
        }
    }
    lemma_listed_option(id + will, match c.username {
        Some(name) => Some(encode_utf8(name)),
        None => None,
    });
    lemma_listed_option(id + will + name, c.password);
}

/// Listing one more byte string, if there is one.
proof fn lemma_listed_option(fields: Seq<Seq<u8>>, field: Option<Seq<u8>>)
    ensures
        listed(
            fields + match field {
                Some(field) => seq![field],
                None => seq![],
            },
        ) == listed(fields) + match field {
            Some(field) => counted(field),
            None => seq![],
        },
{
    match field {
        Some(field) => {
            lemma_listed_push(fields, field);
            assert(fields + seq![field] =~= fields.push(field));
        },
        None => {
            assert(fields + Seq::<Seq<u8>>::empty() =~= fields);
            assert(listed(fields) + Seq::<u8>::empty() =~= listed(fields));
        },
    }
}

/// Listing one more byte string.
proof fn lemma_listed_push(fields: Seq<Seq<u8>>, field: Seq<u8>)
    ensures
        listed(fields.push(field)) == listed(fields) + counted(field),
{
    assert(fields.push(field).drop_last() =~= fields);
    assert(listed(fields.push(field)) =~= listed(fields) + counted(field));
}

/// A subscribe packet starts with its identifier; each further topic adds the number of its
/// bytes, these, and the delivery. An unsubscribe packet is the same without the delivery.
pub proof fn law_topic_packets_on_the_wire(
    pid: u16,
    topics: Seq<(Seq<char>, QoS)>,
    paths: Seq<Seq<char>>,
    topic: Seq<char>,
    qos: QoS,
)
    ensures
        ({
            let id = seq![(pid / 256) as u8, (pid % 256) as u8];
            let bytes = encode_utf8(topic);
            let count = seq![(bytes.len() / 256 % 256) as u8, (bytes.len() % 256) as u8];
            let delivery = match qos {
                QoS::AtMostOnce => 0u8,
                QoS::AtLeastOnce => 1u8,
                QoS::ExactlyOnce => 2u8,
            };
            &&& layout(PacketView::Subscribe(pid, topics))[0] == 0x82
            &&& contents(PacketView::Subscribe(pid, seq![])) == id
            &&& contents(PacketView::Subscribe(pid, topics.push((topic, qos)))) == contents(
                PacketView::Subscribe(pid, topics),
            ) + count + bytes + seq![delivery]
            &&& layout(PacketView::Unsubscribe(pid, paths))[0] == 0xa2
            &&& contents(PacketView::Unsubscribe(pid, seq![])) == id
            &&& contents(PacketView::Unsubscribe(pid, paths.push(topic))) == contents(
                PacketView::Unsubscribe(pid, paths),
            ) + count + bytes
        }),
{
    let id = seq![(pid / 256) as u8, (pid % 256) as u8];
    assert(pid as nat / 256 % 256 == pid as nat / 256);
    assert(two_bytes(pid as nat) =~= id);
    assert(two_bytes(pid as nat) + subscribe_topics(seq![]) =~= id);
    assert(two_bytes(pid as nat) + unsubscribe_topics(seq![]) =~= id);
    assert(topics.push((topic, qos)).drop_last() =~= topics);
    assert(paths.push(topic).drop_last() =~= paths);
    let bytes = encode_utf8(topic);
    let count = seq![(bytes.len() / 256 % 256) as u8, (bytes.len() % 256) as u8];
    assert(counted_text(topic) =~= count + bytes);
    assert(contents(PacketView::Subscribe(pid, topics.push((topic, qos)))) =~= contents(
        PacketView::Subscribe(pid, topics),
    ) + count + bytes + seq![qos_number(qos)]);
    assert(contents(PacketView::Unsubscribe(pid, paths.push(topic))) =~= contents(
        PacketView::Unsubscribe(pid, paths),
    ) + count + bytes);
}

/// Every message with a topic and a payload that the length fields can describe, and with an
/// identifier other than 0 where its delivery asks for one, is carried by its layout.
pub proof fn law_messages_are_carried(p: PublishView)
    requires
        encode_utf8(p.topic_name).len() <= 65535,
        4 + encode_utf8(p.topic_name).len() + p.payload.len() <= 268_435_455,
        match p.qospid {
            QosPidView::AtMostOnce => true,
            QosPidView::AtLeastOnce(pid) => pid != 0,
            QosPidView::ExactlyOnce(pid) => pid != 0,
        },
    ensures
        carries(layout(PacketView::Publish(p)), IncomingView::Publish(p)),
{
}

/// The bytes that carry each of the other packets that a broker sends.
pub proof fn law_answers_are_carried(
    flags: u8,
    code: u8,
    pid: u16,
    codes: Seq<SubscribeReturnCodes>,
    bytes: Seq<u8>,
)
    requires
        pid != 0,
        codes.len() <= 5,
        bytes.len() == codes.len(),
        forall|i: int|
            0 <= i < codes.len() ==> #[trigger] bytes[i] == match codes[i] {
                SubscribeReturnCodes::Success(QoS::AtMostOnce) => 0u8,
                SubscribeReturnCodes::Success(QoS::AtLeastOnce) => 1u8,
                SubscribeReturnCodes::Success(QoS::ExactlyOnce) => 2u8,
                SubscribeReturnCodes::Failure => 128u8,
            },
    ensures
        ({
            let (high, low) = ((pid / 256) as u8, (pid % 256) as u8);
            &&& code <= 5 ==> carries(seq![0x20u8, 2, flags, code], IncomingView::Connack(code))
            &&& carries(seq![0x40u8, 2, high, low], IncomingView::Puback(pid))
            &&& carries(seq![0x50u8, 2, high, low], IncomingView::Pubrec(pid))
            &&& carries(seq![0x62u8, 2, high, low], IncomingView::Pubrel(pid))
            &&& carries(seq![0x70u8, 2, high, low], IncomingView::Pubcomp(pid))
            &&& carries(
                seq![0x90u8, (2 + codes.len()) as u8, high, low] + bytes,
                IncomingView::Suback(pid, codes),
            )
            &&& carries(seq![0xb0u8, 2, high, low], IncomingView::Unsuback(pid))
            &&& carries(seq![0xd0u8, 0], IncomingView::Pingresp)
            &&& carries(seq![0xc0u8, 0], IncomingView::Unexpected)
            &&& carries(seq![0xe0u8, 0], IncomingView::Unexpected)
        }),
{
    let (high, low) = ((pid / 256) as u8, (pid % 256) as u8);
    law_short_packets_on_the_wire(pid);
    assert(length_field(2) =~= seq![2u8]);
    assert(length_field(0) =~= seq![0u8]);
    assert(pid as nat / 256 % 256 == pid as nat / 256);
    assert(two_bytes(pid as nat) =~= seq![high, low]);
    assert(framed(0xb0, two_bytes(pid as nat)) =~= seq![0xb0u8, 2, high, low]);
    assert(framed(0xd0, seq![]) =~= seq![0xd0u8, 0]);
    let list = codes.map_values(|c: SubscribeReturnCodes| return_code(c));
    assert(list =~= bytes);
    let body = two_bytes(pid as nat) + list;
    assert(length_field(body.len()) =~= seq![(2 + codes.len()) as u8]);
    assert(framed(0x90, body) =~= seq![0x90u8, (2 + codes.len()) as u8, high, low] + bytes);
}

/// As plain values a message and a last will say what they say otherwise.
pub proof fn law_messages_keep_their_values(p: Publish<'_>, will: LastWill<'_>)
    ensures
        p@.dup == p.dup,
        p@.retain == p.retain,
        p@.topic_name == p.topic_name@,
        p@.payload == p.payload@,
        match p.qospid {
            QosPid::AtMostOnce => p@.qospid == QosPidView::AtMostOnce,
            QosPid::AtLeastOnce(pid) => p@.qospid == QosPidView::AtLeastOnce(pid.value()),
            QosPid::ExactlyOnce(pid) => p@.qospid == QosPidView::ExactlyOnce(pid.value()),
        },
        will@.topic == will.topic@,
        will@.message == will.message@,
        will@.qos == will.qos,
        will@.retain == will.retain,
{
}

/// As plain values a connection request says what it says otherwise.
pub proof fn law_connection_requests_keep_their_values(c: Connect<'_>)
    ensures
        c@.protocol == c.protocol,
        c@.keep_alive == c.keep_alive,
        c@.client_id == c.client_id@,
        c@.clean_session == c.clean_session,
        c.last_will matches Some(will) ==> c@.last_will == Some(will@),
        c.username matches Some(name) ==> c@.username == Some(name@),
        c.password matches Some(word) ==> c@.password == Some(word@),
        c.last_will is None ==> c@.last_will is None,
        c.username is None ==> c@.username is None,
        c.password is None ==> c@.password is None,
{
}

/// As plain values a packet that is sent is of the same kind, with the same values, topic by
/// topic.
pub proof fn law_sent_packets_keep_their_values(
    p: Publish<'_>,
    c: Connect<'_>,
    pid: Pid,
    topics: Vec<SubscribeTopic<'_>>,
    paths: Vec<&str>,
)
    ensures
        Packet::Connect(c)@ == PacketView::Connect(c@),
        Packet::Publish(p)@ == PacketView::Publish(p@),
        Packet::Puback(pid)@ == PacketView::Puback(pid.value()),
        Packet::Pubrec(pid)@ == PacketView::Pubrec(pid.value()),
        Packet::Pubrel(pid)@ == PacketView::Pubrel(pid.value()),
        Packet::Pubcomp(pid)@ == PacketView::Pubcomp(pid.value()),
        Packet::Pingreq@ == PacketView::Pingreq,
        Packet::Disconnect@ == PacketView::Disconnect,
        ({
            let view = Packet::Subscribe(pid, topics)@;
            &&& view is Subscribe
            &&& view->Subscribe_0 == pid.value()
            &&& view->Subscribe_1.len() == topics@.len()
            &&& forall|i: int|
                0 <= i < topics@.len() ==> #[trigger] view->Subscribe_1[i] == (
                    topics@[i].topic_path@,
                    topics@[i].qos,
                )
        }),
        ({
            let view = Packet::Unsubscribe(pid, paths)@;
            &&& view is Unsubscribe
            &&& view->Unsubscribe_0 == pid.value()
            &&& view->Unsubscribe_1.len() == paths@.len()
            &&& forall|i: int|
                0 <= i < paths@.len() ==> #[trigger] view->Unsubscribe_1[i] == paths@[i]@
        }),
{
}

/// As plain values a packet that is received is of the same kind, with the same values.
pub proof fn law_received_packets_keep_their_values(
    code: u8,
    p: Publish<'_>,
    pid: Pid,
    codes: Vec<SubscribeReturnCodes>,
)
    ensures
        Incoming::Connack(code)@ == IncomingView::Connack(code),
        Incoming::Publish(p)@ == IncomingView::Publish(p@),
        Incoming::Puback(pid)@ == IncomingView::Puback(pid.value()),
        Incoming::Pubrec(pid)@ == IncomingView::Pubrec(pid.value()),
        Incoming::Pubrel(pid)@ == IncomingView::Pubrel(pid.value()),
        Incoming::Pubcomp(pid)@ == IncomingView::Pubcomp(pid.value()),
        Incoming::Suback(pid, codes)@ == IncomingView::Suback(pid.value(), codes@),
        Incoming::Unsuback(pid)@ == IncomingView::Unsuback(pid.value()),
        Incoming::Pingresp@ == IncomingView::Pingresp,
        Incoming::Unexpected@ == IncomingView::Unexpected,
{
}

} // verus!
