//! Encoding and decoding packets with the `mqttrs` crate.
use mqttrs::Error as CodecError;
use mqttrs::Packet as Wire;
use vstd::prelude::*;
use vstd::utf8::encode_utf8;
use crate::frame::{body_start, frame_size, header_size, law_framed_packet_has_its_size};
use crate::packet::{
    carries, contents, first_byte, framed, layout, publish_body, publish_first_byte, publish_fits,
    qos_number, return_code, subscribe_topics, two_bytes, unsubscribe_topics, Connect, Incoming,
    IncomingView, Packet, PacketView, Pid, Protocol, Publish, PublishView, QoS, QosPid, QosPidView,
    SubscribeReturnCodes, SubscribeTopic, MAX_REMAINING_LENGTH, TOPIC_LENGTH,
};
use crate::Error;

verus! {

/// The type `mqttrs::Error`, of which nothing is known: that there is an error is all that counts.
#[verifier::external_type_specification]
#[verifier::external_body]
pub struct ExCodecError(CodecError);

/// The number that the first two bytes of `s` hold, the more significant first.
pub open spec fn number_at_front(s: Seq<u8>) -> nat {
    (256 * s[0] + s[1]) as nat
}

/// `s` is a list of counted texts of at most 256 bytes, each followed by `trailer` more bytes.
pub open spec fn whole_topics(s: Seq<u8>, trailer: nat) -> bool
    decreases s.len(),
{
    s.len() > 0 ==> {
        &&& s.len() >= 2
        &&& number_at_front(s) <= 256
        &&& s.len() >= 2 + number_at_front(s) + trailer
        &&& whole_topics(s.skip((2 + number_at_front(s) + trailer) as int), trailer)
    }
}

/// The packet that fills `frame` is as long as the fixed parts of its kind are, and the texts in
/// it are no longer than they may be. Of other packets nothing can be decoded.
pub open spec fn readable(frame: Seq<u8>) -> bool {
    let body = frame.skip(header_size(frame) as int);
    let kind = frame[0] / 16;
    if kind == 1 {
        // Counted protocol name, protocol level, flags, keep alive time.
        body.len() >= 2 && number_at_front(body) <= 10 && body.len() >= 6 + number_at_front(body)
    } else if kind == 2 || kind == 4 || kind == 5 || kind == 6 || kind == 7 || kind == 9 || kind
        == 11 {
        body.len() >= 2
    } else if kind == 3 {
        // Counted topic, identifier where the delivery asks for one.
        (frame[0] / 2 % 4 == 1 || frame[0] / 2 % 4 == 2) ==> body.len() >= 2 && body.len() >= 4
            + number_at_front(body)
    } else if kind == 8 {
        body.len() >= 2 && whole_topics(body.skip(2), 1)
    } else if kind == 10 {
        body.len() >= 2 && whole_topics(body.skip(2), 0)
    } else {
        true
    }
}

/// What `mqttrs::decode_slice` makes of a whole packet; `None` where it reports an error.
pub uninterp spec fn decoded(frame: Seq<u8>) -> Option<IncomingView>;

/// `kind` is the place of the packet's kind among the kinds of packets, and `number` the
/// identifier that the packet names, or the code of a connection answer.
pub open spec fn head_of(p: IncomingView, kind: u8, number: Option<u16>) -> bool {
    match p {
        IncomingView::Connack(code) => kind == 1 && number == Some(code as u16),
        IncomingView::Publish(_) => kind == 2,
        IncomingView::Puback(pid) => kind == 3 && number == Some(pid) && pid != 0,
        IncomingView::Pubrec(pid) => kind == 4 && number == Some(pid) && pid != 0,
        IncomingView::Pubrel(pid) => kind == 5 && number == Some(pid) && pid != 0,
        IncomingView::Pubcomp(pid) => kind == 6 && number == Some(pid) && pid != 0,
        IncomingView::Suback(pid, _) => kind == 8 && number == Some(pid) && pid != 0,
        IncomingView::Unsuback(pid) => kind == 10 && number == Some(pid) && pid != 0,
        IncomingView::Pingresp => kind == 12,
        IncomingView::Unexpected => kind == 0 || kind == 7 || kind == 9 || kind == 11 || kind
            == 13,
    }
}

/// Calls `mqttrs::decode_slice` and hands out the kind of the packet (the place of
/// `mqttrs::Packet::get_type` in `mqttrs::PacketType`) and its identifier or code.
///
/// A whole packet is never taken for an incomplete one. What is decoded depends on the bytes
/// alone; a packet that is laid out as a sender lays it out is decoded as that packet. Which
/// other bytes are decoded, and as what, is left to the name `decoded`.
#[verifier::external_body]
fn decode_head(frame: &[u8]) -> (r: Result<Option<(u8, Option<u16>)>, CodecError>)
    requires
        frame_size(frame@) == Some(frame@.len()),
        readable(frame@),
    ensures
        r is Ok ==> r->Ok_0 is Some,
        r is Err <==> decoded(frame@) is None,
        r matches Ok(Some(head)) ==> head_of(decoded(frame@)->0, head.0, head.1),
        r is Err ==> forall|p: IncomingView| !#[trigger] carries(frame@, p),
        r is Ok ==> forall|p: IncomingView|
            #[trigger] carries(frame@, p) ==> decoded(frame@) == Some(p),
{
    mqttrs::decode_slice(frame).map(|found| found.map(|p| (p.get_type() as u8, match p {
        Wire::Connack(c) => Some(c.code as u16),
        Wire::Puback(n) => Some(n.get()),
        Wire::Pubrec(n) => Some(n.get()),
        Wire::Pubrel(n) => Some(n.get()),
        Wire::Pubcomp(n) => Some(n.get()),
        Wire::Suback(s) => Some(s.pid.get()),
        Wire::Unsuback(n) => Some(n.get()),
        _ => None,
    })))
}

/// Calls `mqttrs::decode_slice` and hands out the publish packet, where that is what it decodes.
#[verifier::external_body]
fn decode_publish<'a>(frame: &'a [u8]) -> (r: Option<Publish<'a>>)
    requires
        frame_size(frame@) == Some(frame@.len()),
        readable(frame@),
    ensures
        match decoded(frame@) {
            Some(IncomingView::Publish(p)) => r is Some && r->0@ == p,
            _ => r is None,
        },
{
    match mqttrs::decode_slice(frame) {
        Ok(Some(Wire::Publish(p))) => Some(Publish {
            dup: p.dup,
            qospid: match p.qospid {
                mqttrs::QosPid::AtMostOnce => QosPid::AtMostOnce,
                mqttrs::QosPid::AtLeastOnce(n) => QosPid::AtLeastOnce(Pid { number: n.get() }),
                mqttrs::QosPid::ExactlyOnce(n) => QosPid::ExactlyOnce(Pid { number: n.get() }),
            },
            retain: p.retain,
            topic_name: p.topic_name,
            payload: p.payload,
        }),
        _ => None,
    }
}

/// Calls `mqttrs::decode_slice` and hands out the return codes of a suback packet, where that is
/// what it decodes.
#[verifier::external_body]
fn decode_return_codes(frame: &[u8]) -> (r: Option<Vec<SubscribeReturnCodes>>)
    requires
        frame_size(frame@) == Some(frame@.len()),
        readable(frame@),
    ensures
        match decoded(frame@) {
            Some(IncomingView::Suback(_, codes)) => r is Some && r->0@ == codes,
            _ => r is None,
        },
{
    match mqttrs::decode_slice(frame) {
        Ok(Some(Wire::Suback(s))) => Some(s.return_codes.iter().map(|code| match code {
            mqttrs::SubscribeReturnCodes::Failure => SubscribeReturnCodes::Failure,
            mqttrs::SubscribeReturnCodes::Success(qos) => SubscribeReturnCodes::Success(match qos {
                mqttrs::QoS::AtMostOnce => QoS::AtMostOnce,
                mqttrs::QoS::AtLeastOnce => QoS::AtLeastOnce,
                mqttrs::QoS::ExactlyOnce => QoS::ExactlyOnce,
            }),
        }).collect()),
        _ => None,
    }
}

/// `packet` was written at the front of a buffer that held `before` and now holds `after`, or
/// was too long for it.
pub open spec fn wrote(
    packet: PacketView,
    before: Seq<u8>,
    after: Seq<u8>,
    r: Result<usize, CodecError>,
) -> bool {
    &&& after.len() == before.len()
    &&& r is Ok <==> layout(packet).len() <= before.len()
    &&& r matches Ok(n) ==> n == layout(packet).len() && after == layout(packet) + before.skip(
        n as int,
    )
}

/// No text and no byte string in a connect or publish packet is longer than `limit`.
pub open spec fn parts_within(packet: PacketView, limit: nat) -> bool {
    match packet {
        PacketView::Connect(c) => {
            &&& encode_utf8(c.client_id).len() <= limit
            &&& c.last_will matches Some(will) ==> encode_utf8(will.topic).len() <= limit
                && will.message.len() <= limit
            &&& c.username matches Some(name) ==> encode_utf8(name).len() <= limit
            &&& c.password matches Some(word) ==> word.len() <= limit
        },
        PacketView::Publish(p) => encode_utf8(p.topic_name).len() <= limit && p.payload.len()
            <= limit,
        _ => true,
    }
}

/// Whether no text and no byte string in a connect or publish packet is longer than `limit`. A
/// packet with such a part is longer itself.
fn has_parts_within(packet: &Packet<'_>, limit: usize) -> (r: bool)
    ensures
        r == parts_within(packet@, limit as nat),
        !r ==> layout(packet@).len() > limit,
{
    match packet {
        Packet::Connect(c) => {
            let will = match c.last_will {
                Some(w) => w.topic.as_bytes().len() <= limit && w.message.len() <= limit,
                None => true,
            };
            let username = match c.username {
                Some(name) => name.as_bytes().len() <= limit,
                None => true,
            };
            let password = match c.password {
                Some(word) => word.len() <= limit,
                None => true,
            };
            c.client_id.as_bytes().len() <= limit && will && username && password
        },
        Packet::Publish(p) => p.topic_name.as_bytes().len() <= limit && p.payload.len() <= limit,
        _ => true,
    }
}

/// Calls `mqttrs::encode_slice` on a connect packet: it writes the packet and returns its length,
/// or reports an error where the buffer is too short.
#[verifier::external_body]
fn encode_connect(c: &Connect<'_>, buf: &mut Vec<u8>) -> (r: Result<usize, CodecError>)
    requires
        old(buf)@.len() <= MAX_REMAINING_LENGTH,
        parts_within(PacketView::Connect(c@), MAX_REMAINING_LENGTH as nat),
    ensures
        wrote(PacketView::Connect(c@), old(buf)@, final(buf)@, r),
{
    mqttrs::encode_slice(&Wire::Connect(mqttrs::Connect {
        protocol: match c.protocol { Protocol::MQTT311 => mqttrs::Protocol::MQTT311 },
        keep_alive: c.keep_alive,
        client_id: c.client_id,
        clean_session: c.clean_session,
        last_will: c.last_will.map(|w| mqttrs::LastWill {
            topic: w.topic,
            message: w.message,
            qos: match w.qos {
                QoS::AtMostOnce => mqttrs::QoS::AtMostOnce,
                QoS::AtLeastOnce => mqttrs::QoS::AtLeastOnce,
                QoS::ExactlyOnce => mqttrs::QoS::ExactlyOnce },
            retain: w.retain }),
        username: c.username, password: c.password }), buf)
}

/// Calls `mqttrs::encode_slice` on a publish packet: it writes the packet and returns its length,
/// or reports an error where the buffer is too short.
#[verifier::external_body]
fn encode_publish(p: &Publish<'_>, buf: &mut Vec<u8>) -> (r: Result<usize, CodecError>)
    requires
        old(buf)@.len() <= MAX_REMAINING_LENGTH,
        parts_within(PacketView::Publish(p@), MAX_REMAINING_LENGTH as nat),
    ensures
        wrote(PacketView::Publish(p@), old(buf)@, final(buf)@, r),
{
    mqttrs::encode_slice(&Wire::Publish(mqttrs::Publish {
        dup: p.dup,
        qospid: match p.qospid {
            QosPid::AtMostOnce => mqttrs::QosPid::AtMostOnce,
            QosPid::AtLeastOnce(n) => mqttrs::QosPid::AtLeastOnce(n.get().try_into()?),
            QosPid::ExactlyOnce(n) => mqttrs::QosPid::ExactlyOnce(n.get().try_into()?),
        },
        retain: p.retain,
        topic_name: p.topic_name,
        payload: p.payload,
    }), buf)
}

/// The packets that hold no more than an identifier.
enum Short {
    Puback(Pid),
    Pubrec(Pid),
    Pubrel(Pid),
    Pubcomp(Pid),
    Pingreq,
    Disconnect,
}

/// Such a packet as plain values.
spec fn short_packet(short: Short) -> PacketView {
    match short {
        Short::Puback(pid) => PacketView::Puback(pid.value()),
        Short::Pubrec(pid) => PacketView::Pubrec(pid.value()),
        Short::Pubrel(pid) => PacketView::Pubrel(pid.value()),
        Short::Pubcomp(pid) => PacketView::Pubcomp(pid.value()),
        Short::Pingreq => PacketView::Pingreq,
        Short::Disconnect => PacketView::Disconnect,
    }
}

/// Each of these is the packet of its name, with the same identifier.
proof fn law_short_packets_are_the_packets_of_their_name(pid: Pid)
    ensures
        short_packet(Short::Puback(pid)) == Packet::Puback(pid)@,
        short_packet(Short::Pubrec(pid)) == Packet::Pubrec(pid)@,
        short_packet(Short::Pubrel(pid)) == Packet::Pubrel(pid)@,
        short_packet(Short::Pubcomp(pid)) == Packet::Pubcomp(pid)@,
        short_packet(Short::Pingreq) == Packet::Pingreq@,
        short_packet(Short::Disconnect) == Packet::Disconnect@,
{
}

/// Calls `mqttrs::encode_slice` on a packet that holds no more than an identifier: it writes the
/// packet and returns its length, or reports an error where the buffer is too short.
#[verifier::external_body]
fn encode_short(short: Short, buf: &mut Vec<u8>) -> (r: Result<usize, CodecError>)
    requires
        old(buf)@.len() <= MAX_REMAINING_LENGTH,
    ensures
        wrote(short_packet(short), old(buf)@, final(buf)@, r),
{
    mqttrs::encode_slice(&match short {
        Short::Puback(n) => Wire::Puback(n.get().try_into()?),
        Short::Pubrec(n) => Wire::Pubrec(n.get().try_into()?),
        Short::Pubrel(n) => Wire::Pubrel(n.get().try_into()?),
        Short::Pubcomp(n) => Wire::Pubcomp(n.get().try_into()?),
        Short::Pingreq => Wire::Pingreq,
        Short::Disconnect => Wire::Disconnect,
    }, buf)
}

/// Calls `mqttrs::encode_slice` on a subscribe packet: it writes the packet and returns its
/// length, or reports an error where the buffer is too short.
#[verifier::external_body]
fn encode_subscribe(pid: Pid, topics: &Vec<SubscribeTopic<'_>>, buf: &mut Vec<u8>) -> (r: Result<
    usize,
    CodecError,
>)
    requires
        old(buf)@.len() <= MAX_REMAINING_LENGTH,
        Packet::Subscribe(pid, *topics)@.fits(),
    ensures
        wrote(Packet::Subscribe(pid, *topics)@, old(buf)@, final(buf)@, r),
{
    let topics = topics.iter().map(|t| mqttrs::SubscribeTopic {
        topic_path: t.topic_path.into(),
        qos: match t.qos {
            QoS::AtMostOnce => mqttrs::QoS::AtMostOnce,
            QoS::AtLeastOnce => mqttrs::QoS::AtLeastOnce,
            QoS::ExactlyOnce => mqttrs::QoS::ExactlyOnce,
        },
    }).collect();
    let pid = mqttrs::Pid::try_from(pid.get())?;
    mqttrs::encode_slice(&Wire::Subscribe(mqttrs::Subscribe::new(pid, topics)), buf)
}

/// Calls `mqttrs::encode_slice` on an unsubscribe packet: it writes the packet and returns its
/// length, or reports an error where the buffer is too short.
#[verifier::external_body]
fn encode_unsubscribe(pid: Pid, topics: &Vec<&str>, buf: &mut Vec<u8>) -> (r: Result<
    usize,
    CodecError,
>)
    requires
        old(buf)@.len() <= MAX_REMAINING_LENGTH,
        Packet::Unsubscribe(pid, *topics)@.fits(),
    ensures
        wrote(Packet::Unsubscribe(pid, *topics)@, old(buf)@, final(buf)@, r),
{
    let topics = topics.iter().map(|t| (*t).into()).collect();
    let pid = mqttrs::Pid::try_from(pid.get())?;
    mqttrs::encode_slice(&Wire::Unsubscribe(mqttrs::Unsubscribe::new(pid, topics)), buf)
}

/// Writes `packet` at the front of `buf` and returns its length. The packet is not encoded where
/// it is longer than the buffer.
pub fn encode(packet: &Packet<'_>, buf: &mut Vec<u8>) -> (r: Result<usize, Error>)
    requires
        old(buf)@.len() <= MAX_REMAINING_LENGTH,
        packet@.fits(),
    ensures
        final(buf)@.len() == old(buf)@.len(),
        match r {
            Ok(n) => {
                &&& n == layout(packet@).len()
                &&& n <= old(buf)@.len()
                &&& final(buf)@ == layout(packet@) + old(buf)@.skip(n as int)
            },
            Err(e) => e == Error::PacketError && layout(packet@).len() > old(buf)@.len(),
        },
{
    if !has_parts_within(packet, buf.len()) {
        return Err(Error::PacketError);
    }
    let r = match packet {
        Packet::Connect(connect) => encode_connect(connect, buf),
        Packet::Publish(publish) => encode_publish(publish, buf),
        Packet::Puback(pid) => encode_short(Short::Puback(*pid), buf),
        Packet::Pubrec(pid) => encode_short(Short::Pubrec(*pid), buf),
        Packet::Pubrel(pid) => encode_short(Short::Pubrel(*pid), buf),
        Packet::Pubcomp(pid) => encode_short(Short::Pubcomp(*pid), buf),
        Packet::Subscribe(pid, topics) => encode_subscribe(*pid, topics, buf),
        Packet::Unsubscribe(pid, topics) => encode_unsubscribe(*pid, topics, buf),
        Packet::Pingreq => encode_short(Short::Pingreq, buf),
        Packet::Disconnect => encode_short(Short::Disconnect, buf),
    };
    match r {
        Ok(n) => Ok(n),
        Err(_) => Err(Error::PacketError),
    }
}

/// Whether the bytes from `from` on are a list of counted texts of at most 256 bytes, each
/// followed by `trailer` more bytes.
fn has_whole_topics(bytes: &[u8], from: usize, trailer: usize) -> (r: bool)
    requires
        from <= bytes@.len() <= MAX_REMAINING_LENGTH + 5,
        trailer <= 1,
    ensures
        r == whole_topics(bytes@.skip(from as int), trailer as nat),
{
    let mut at: usize = from;
    while at < bytes.len()
        invariant
            from <= at <= bytes@.len() <= MAX_REMAINING_LENGTH + 5,
            trailer <= 1,
            whole_topics(bytes@.skip(from as int), trailer as nat) == whole_topics(
                bytes@.skip(at as int),
                trailer as nat,
            ),
        decreases bytes.len() - at,
    {
        let ghost rest = bytes@.skip(at as int);
        if bytes.len() - at < 2 {
            return false;
        }
        let count: usize = 256 * (bytes[at] as usize) + bytes[at + 1] as usize;
        assert(count == number_at_front(rest));
        if count > 256 || bytes.len() - at < 2 + count + trailer {
            return false;
        }
        assert(rest.skip(2 + count + trailer) =~= bytes@.skip(at + 2 + count + trailer));
        at = at + 2 + count + trailer;
    }
    assert(bytes@.skip(at as int).len() == 0);
    true
}

/// Whether the packet that fills `frame` has the parts that its kind asks for.
fn is_readable(frame: &[u8]) -> (r: bool)
    requires
        frame_size(frame@) == Some(frame@.len()),
    ensures
        r == readable(frame@),
{
    let start: usize = body_start(frame);
    let length: usize = frame.len() - start;
    let kind: u8 = frame[0] / 16;
    let qos: u8 = frame[0] / 2 % 4;
    let ghost body = frame@.skip(start as int);
    let count: usize = if length >= 2 {
        256 * (frame[start] as usize) + frame[start + 1] as usize
    } else {
        0
    };
    assert(length >= 2 ==> count == number_at_front(body));
    if kind == 1 {
        length >= 2 && count <= 10 && length >= 6 + count
    } else if kind == 2 || kind == 4 || kind == 5 || kind == 6 || kind == 7 || kind == 9 || kind
        == 11 {
        length >= 2
    } else if kind == 3 {
        !(qos == 1 || qos == 2) || (length >= 2 && length >= 4 + count)
    } else if kind == 8 {
        assert(length >= 2 ==> body.skip(2) =~= frame@.skip(start + 2));
        length >= 2 && has_whole_topics(frame, start + 2, 1)
    } else if kind == 10 {
        assert(length >= 2 ==> body.skip(2) =~= frame@.skip(start + 2));
        length >= 2 && has_whole_topics(frame, start + 2, 0)
    } else {
        true
    }
}

/// The packet that fills `frame`, or `None` where there is none.
pub open spec fn parsed(frame: Seq<u8>) -> Option<IncomingView> {
    if readable(frame) {
        decoded(frame)
    } else {
        None
    }
}

/// A packet whose contents start with two bytes, of a kind that needs no more, is readable.
proof fn lemma_numbered_packet_is_readable(first: u8, body: Seq<u8>)
    requires
        2 <= body.len() <= MAX_REMAINING_LENGTH,
        first / 16 == 4 || first / 16 == 5 || first / 16 == 6 || first / 16 == 7 || first / 16 == 9
            || first / 16 == 11,
    ensures
        frame_size(framed(first, body)) == Some(framed(first, body).len()),
        readable(framed(first, body)),
{
    law_framed_packet_has_its_size(first, body);
}

/// A packet without contents, of a kind that needs none, is readable.
proof fn lemma_empty_packet_is_readable(first: u8)
    requires
        first / 16 >= 12,
    ensures
        frame_size(framed(first, seq![])) == Some(framed(first, seq![]).len()),
        readable(framed(first, seq![])),
{
    law_framed_packet_has_its_size(first, seq![]);
}

/// The first byte of a publish packet tells its kind, and whether an identifier follows the topic.
proof fn lemma_publish_first_byte(p: PublishView)
    ensures
        publish_first_byte(p) / 16 == 3,
        publish_first_byte(p) / 2 % 4 == match p.qospid {
            QosPidView::AtMostOnce => 0int,
            QosPidView::AtLeastOnce(_) => 1,
            QosPidView::ExactlyOnce(_) => 2,
        },
{
}

/// A publish packet starts with the number of the bytes of its topic, and has room for them and
/// for the identifier, where there is one.
proof fn lemma_publish_body(p: PublishView)
    requires
        encode_utf8(p.topic_name).len() <= 65535,
    ensures
        publish_body(p).len() >= 2 + encode_utf8(p.topic_name).len(),
        !(p.qospid is AtMostOnce) ==> publish_body(p).len() >= 4 + encode_utf8(p.topic_name).len(),
        number_at_front(publish_body(p)) == encode_utf8(p.topic_name).len(),
{
    let n = encode_utf8(p.topic_name).len();
    let front = two_bytes(n);
    assert(publish_body(p)[0] == front[0] && publish_body(p)[1] == front[1]);
    assert(n / 256 % 256 == n / 256);
}

/// A publish packet is readable.
proof fn lemma_publish_packet_is_readable(p: PublishView)
    requires
        publish_fits(p),
    ensures
        frame_size(layout(PacketView::Publish(p))) == Some(layout(PacketView::Publish(p)).len()),
        readable(layout(PacketView::Publish(p))),
{
    let (first, body) = (publish_first_byte(p), publish_body(p));
    law_framed_packet_has_its_size(first, body);
    lemma_publish_first_byte(p);
    lemma_publish_body(p);
    assert(layout(PacketView::Publish(p)) == framed(first, body));
}

/// The answer to a connection request is readable.
proof fn lemma_connection_answer_is_readable(frame: Seq<u8>)
    requires
        frame.len() == 4,
        frame[0] == 0x20,
        frame[1] == 2,
    ensures
        frame_size(frame) == Some(frame.len()),
        readable(frame),
{
}

/// A packet that is laid out as a sender lays it out is as long as its length field says, and has
/// the parts that its kind asks for.
pub proof fn law_laid_out_packet_is_readable(frame: Seq<u8>, p: IncomingView)
    requires
        carries(frame, p),
    ensures
        frame_size(frame) == Some(frame.len()),
        readable(frame),
{
    match p {
        IncomingView::Connack(_) => lemma_connection_answer_is_readable(frame),
        IncomingView::Publish(publish) => lemma_publish_packet_is_readable(publish),
        IncomingView::Puback(pid) => lemma_numbered_packet_is_readable(0x40, two_bytes(pid as nat)),
        IncomingView::Pubrec(pid) => lemma_numbered_packet_is_readable(0x50, two_bytes(pid as nat)),
        IncomingView::Pubrel(pid) => lemma_numbered_packet_is_readable(0x62, two_bytes(pid as nat)),
        IncomingView::Pubcomp(pid) => lemma_numbered_packet_is_readable(
            0x70,
            two_bytes(pid as nat),
        ),
        IncomingView::Suback(pid, codes) => lemma_numbered_packet_is_readable(
            0x90,
            two_bytes(pid as nat) + codes.map_values(|c: SubscribeReturnCodes| return_code(c)),
        ),
        IncomingView::Unsuback(pid) => lemma_numbered_packet_is_readable(
            0xb0,
            two_bytes(pid as nat),
        ),
        IncomingView::Pingresp => lemma_empty_packet_is_readable(0xd0),
        IncomingView::Unexpected => {
            lemma_empty_packet_is_readable(0xc0);
            lemma_empty_packet_is_readable(0xe0);
        },
    }
}

/// Decodes the packet that fills `frame`.
pub fn decode<'a>(frame: &'a [u8]) -> (r: Result<Incoming<'a>, Error>)
    requires
        frame_size(frame@) == Some(frame@.len()),
    ensures
        match parsed(frame@) {
            Some(p) => r is Ok && r->Ok_0@ == p,
            None => r == Err::<Incoming<'a>, Error>(Error::PacketError),
        },
        forall|p: IncomingView|
            #[trigger] carries(frame@, p) ==> r is Ok && r->Ok_0@ == p,
{
    proof {
        assert forall|p: IncomingView| #[trigger] carries(frame@, p) implies readable(frame@) by {
            law_laid_out_packet_is_readable(frame@, p);
        }
    }
    if !is_readable(frame) {
        return Err(Error::PacketError);
    }
    let (kind, number) = match decode_head(frame) {
        Ok(Some(head)) => head,
        Ok(None) => {
            return Err(Error::PacketError);
        },
        Err(_) => {
            return Err(Error::PacketError);
        },
    };
    let pid = match number {
        Some(n) => Pid::from_number(n),
        None => None,
    };
    match (kind, pid, number) {
        (1, _, Some(code)) => Ok(Incoming::Connack(code as u8)),
        (3, Some(pid), _) => Ok(Incoming::Puback(pid)),
        (4, Some(pid), _) => Ok(Incoming::Pubrec(pid)),
        (5, Some(pid), _) => Ok(Incoming::Pubrel(pid)),
        (6, Some(pid), _) => Ok(Incoming::Pubcomp(pid)),
        (2, _, _) => match decode_publish(frame) {
            Some(publish) => Ok(Incoming::Publish(publish)),
            None => Err(Error::PacketError),
        },
        (8, Some(pid), _) => match decode_return_codes(frame) {
            Some(codes) => Ok(Incoming::Suback(pid, codes)),
            None => Err(Error::PacketError),
        },
        (10, Some(pid), _) => Ok(Incoming::Unsuback(pid)),
        (12, _, _) => Ok(Incoming::Pingresp),
        _ => Ok(Incoming::Unexpected),
    }
}

/// A whole packet lacks a part of its kind exactly where its bytes are too few for it: two bytes
/// where there is an identifier or a code, the topic and the identifier of a message. Of a packet
/// that lacks nothing, what is decoded is what counts; of another, nothing is.
pub proof fn law_packets_are_read_unless_they_lack_a_part(frame: Seq<u8>)
    requires
        frame_size(frame) == Some(frame.len()),
    ensures
        ({
            let kind = frame[0] / 16;
            let qos = frame[0] / 2 % 4;
            let start = header_size(frame) as int;
            let length = frame.len() - start;
            let count = 256 * frame[start] + frame[start + 1];
            &&& kind == 0 || kind >= 12 ==> readable(frame)
            &&& kind == 2 || 4 <= kind <= 7 || kind == 9 || kind == 11 ==> (readable(frame)
                <==> length >= 2)
            &&& kind == 3 && (qos == 0 || qos == 3) ==> readable(frame)
            &&& kind == 3 && (qos == 1 || qos == 2) ==> (readable(frame) <==> length >= 2 && length
                >= count + 4)
            &&& kind == 1 ==> (readable(frame) <==> length >= 2 && count <= 10 && length >= count
                + 6)
            &&& kind == 8 ==> (readable(frame) <==> length >= 2 && whole_topics(
                frame.skip(start + 2),
                1,
            ))
            &&& kind == 10 ==> (readable(frame) <==> length >= 2 && whole_topics(
                frame.skip(start + 2),
                0,
            ))
        }),
        parsed(frame) == if readable(frame) {
            decoded(frame)
        } else {
            None
        },
{
    let start = header_size(frame) as int;
    let body = frame.skip(start);
    assert(body.len() >= 2 ==> body.skip(2) =~= frame.skip(start + 2));
}

/// A list of topics is whole exactly if its first topic is, with its number of bytes in front, of
/// at most 256 bytes, and followed by what belongs to it, and the rest of the list is. The empty
/// list is whole.
pub proof fn law_topic_lists_are_whole_topic_by_topic(s: Seq<u8>, trailer: nat)
    ensures
        s.len() == 0 ==> whole_topics(s, trailer),
        s.len() == 1 ==> !whole_topics(s, trailer),
        s.len() >= 2 ==> {
            let end = 2 + 256 * s[0] + s[1] + trailer;
            whole_topics(s, trailer) <==> 256 * s[0] + s[1] <= 256 && end <= s.len()
                && whole_topics(s.skip(end), trailer)
        },
{
}

/// Two whole lists of topics make one.
proof fn lemma_whole_topics_joined(a: Seq<u8>, b: Seq<u8>, trailer: nat)
    requires
        whole_topics(a, trailer),
        whole_topics(b, trailer),
    ensures
        whole_topics(a + b, trailer),
    decreases a.len(),
{
    if a.len() == 0 {
        assert(a + b =~= b);
    } else {
        let n = (2 + number_at_front(a) + trailer) as int;
        lemma_whole_topics_joined(a.skip(n), b, trailer);
        assert((a + b).skip(n) =~= a.skip(n) + b);
    }
}

/// One topic is a whole list.
proof fn lemma_one_topic_is_whole(topic: Seq<u8>, trail: Seq<u8>)
    requires
        topic.len() <= 256,
    ensures
        whole_topics(two_bytes(topic.len()) + topic + trail, trail.len()),
{
    let s = two_bytes(topic.len()) + topic + trail;
    assert(s[0] == two_bytes(topic.len())[0] && s[1] == two_bytes(topic.len())[1]);
    assert(number_at_front(s) == topic.len());
    assert(whole_topics(s.skip(s.len() as int), trail.len()));
}

proof fn lemma_subscribe_topics_are_whole(topics: Seq<(Seq<char>, QoS)>)
    requires
        forall|i: int|
            0 <= i < topics.len() ==> encode_utf8(#[trigger] topics[i].0).len() <= TOPIC_LENGTH,
    ensures
        whole_topics(subscribe_topics(topics), 1),
    decreases topics.len(),
{
    if topics.len() > 0 {
        let less = topics.drop_last();
        assert forall|i: int| 0 <= i < less.len() implies encode_utf8(#[trigger] less[i].0).len()
            <= TOPIC_LENGTH by {
            assert(less[i] == topics[i]);
        }
        lemma_subscribe_topics_are_whole(less);
        let topic = encode_utf8(topics.last().0);
        let trail = seq![qos_number(topics.last().1)];
        lemma_one_topic_is_whole(topic, trail);
        let one = two_bytes(topic.len()) + topic + trail;
        lemma_whole_topics_joined(subscribe_topics(less), one, 1);
        assert(subscribe_topics(topics) =~= subscribe_topics(less) + one);
    }
}

proof fn lemma_unsubscribe_topics_are_whole(topics: Seq<Seq<char>>)
    requires
        forall|i: int|
            0 <= i < topics.len() ==> encode_utf8(#[trigger] topics[i]).len() <= TOPIC_LENGTH,
    ensures
        whole_topics(unsubscribe_topics(topics), 0),
    decreases topics.len(),
{
    if topics.len() > 0 {
        let less = topics.drop_last();
        assert forall|i: int| 0 <= i < less.len() implies encode_utf8(#[trigger] less[i]).len()
            <= TOPIC_LENGTH by {
            assert(less[i] == topics[i]);
        }
        lemma_unsubscribe_topics_are_whole(less);
        let topic = encode_utf8(topics.last());
        lemma_one_topic_is_whole(topic, seq![]);
        let one = two_bytes(topic.len()) + topic + Seq::<u8>::empty();
        lemma_whole_topics_joined(unsubscribe_topics(less), one, 0);
        assert(unsubscribe_topics(topics) =~= unsubscribe_topics(less) + one);
    }
}

/// Every packet that the library writes lacks nothing of its kind.
pub proof fn law_written_packets_lack_nothing(p: PacketView)
    requires
        p.fits(),
        contents(p).len() <= MAX_REMAINING_LENGTH,
        p matches PacketView::Publish(publish) ==> encode_utf8(publish.topic_name).len() <= 65535,
    ensures
        frame_size(layout(p)) == Some(layout(p).len()),
        readable(layout(p)),
{
    law_framed_packet_has_its_size(first_byte(p), contents(p));
    match p {
        PacketView::Connect(_) => {
            assert(contents(p)[0] == 0 && contents(p)[1] == 4);
        },
        PacketView::Publish(publish) => {
            lemma_publish_first_byte(publish);
            lemma_publish_body(publish);
        },
        PacketView::Subscribe(pid, topics) => {
            lemma_subscribe_topics_are_whole(topics);
            assert(contents(p).skip(2) =~= subscribe_topics(topics));
        },
        PacketView::Unsubscribe(pid, topics) => {
            lemma_unsubscribe_topics_are_whole(topics);
            assert(contents(p).skip(2) =~= unsubscribe_topics(topics));
        },
        _ => {},
    }
}

/// The kinds of packets are numbered as they stand in the protocol, from the connection request
/// on, and a packet has one kind and names its own identifier or code.
pub proof fn law_packets_are_told_apart(
    p: IncomingView,
    code: u8,
    pid: u16,
    codes: Seq<SubscribeReturnCodes>,
    kind: u8,
    number: Option<u16>,
)
    requires
        pid != 0,
    ensures
        head_of(IncomingView::Connack(code), kind, number) <==> kind == 1 && number == Some(
            code as u16,
        ),
        p is Publish ==> (head_of(p, kind, number) <==> kind == 2),
        head_of(IncomingView::Puback(pid), kind, number) <==> kind == 3 && number == Some(pid),
        head_of(IncomingView::Pubrec(pid), kind, number) <==> kind == 4 && number == Some(pid),
        head_of(IncomingView::Pubrel(pid), kind, number) <==> kind == 5 && number == Some(pid),
        head_of(IncomingView::Pubcomp(pid), kind, number) <==> kind == 6 && number == Some(pid),
        head_of(IncomingView::Suback(pid, codes), kind, number) <==> kind == 8 && number == Some(
            pid,
        ),
        head_of(IncomingView::Unsuback(pid), kind, number) <==> kind == 10 && number == Some(pid),
        head_of(IncomingView::Pingresp, kind, number) <==> kind == 12,
        head_of(IncomingView::Unexpected, kind, number) ==> kind == 0 || kind == 7 || kind == 9
            || kind == 11 || kind == 13,
{
}

} // verus!
