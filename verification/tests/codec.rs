use mcutie::codec::{decode, encode};
use mcutie::packet::{
    Connect, Incoming, LastWill, Packet, Protocol, Publish, QosPid, SubscribeTopic,
};
use mcutie::{packet_size, Error, Pid, QoS, SubscribeReturnCodes};

fn pid(number: u16) -> Pid {
    Pid::from_number(number).unwrap()
}

fn bytes_of(packet: &Packet) -> Vec<u8> {
    let mut buf = vec![0; 4096];
    let n = encode(packet, &mut buf).unwrap();
    assert!(buf[n..].iter().all(|b| *b == 0));
    buf.truncate(n);
    assert_eq!(packet_size(&buf), Some(n));
    buf
}

fn publish<'a>(qospid: QosPid, topic_name: &'a str, payload: &'a [u8]) -> Publish<'a> {
    Publish { dup: false, qospid, retain: false, topic_name, payload }
}

#[test]
fn short_packets() {
    assert_eq!(bytes_of(&Packet::Puback(pid(0x1234))), [0x40, 2, 0x12, 0x34]);
    assert_eq!(bytes_of(&Packet::Pubrec(pid(0x1234))), [0x50, 2, 0x12, 0x34]);
    assert_eq!(bytes_of(&Packet::Pubrel(pid(0x1234))), [0x62, 2, 0x12, 0x34]);
    assert_eq!(bytes_of(&Packet::Pubcomp(pid(0x1234))), [0x70, 2, 0x12, 0x34]);
    assert_eq!(bytes_of(&Packet::Pingreq), [0xc0, 0]);
    assert_eq!(bytes_of(&Packet::Disconnect), [0xe0, 0]);
}

#[test]
fn publish_packets() {
    assert_eq!(
        bytes_of(&Packet::Publish(publish(QosPid::AtMostOnce, "test", b"hello"))),
        b"\x30\x0b\x00\x04testhello"
    );
    assert_eq!(
        bytes_of(&Packet::Publish(Publish {
            dup: true,
            qospid: QosPid::AtLeastOnce(pid(7)),
            retain: true,
            topic_name: "a",
            payload: b"b",
        })),
        b"\x3b\x06\x00\x01a\x00\x07b"
    );
    assert_eq!(
        bytes_of(&Packet::Publish(publish(QosPid::ExactlyOnce(pid(258)), "\u{e9}", b""))),
        [0x34, 6, 0, 2, 0xc3, 0xa9, 1, 2]
    );
}

#[test]
fn publish_packet_with_a_length_of_two_bytes() {
    let payload = [9; 200];
    let bytes = bytes_of(&Packet::Publish(publish(QosPid::AtMostOnce, "t", &payload)));
    assert_eq!(bytes[..6], [0x30, 0xcb, 1, 0, 1, b't']);
    assert_eq!(bytes[6..], payload);
}

#[test]
fn connect_packet() {
    let bytes = bytes_of(&Packet::Connect(Connect {
        protocol: Protocol::MQTT311,
        keep_alive: 300,
        client_id: "id",
        clean_session: true,
        last_will: Some(LastWill {
            topic: "w",
            message: b"bye",
            qos: QoS::AtLeastOnce,
            retain: true,
        }),
        username: Some("me"),
        password: Some(b"pw"),
    }));
    assert_eq!(
        bytes,
        b"\x10\x1e\x00\x04MQTT\x04\xee\x01\x2c\x00\x02id\x00\x01w\x00\x03bye\x00\x02me\x00\x02pw"
    );
}

#[test]
fn connect_packet_with_nothing_but_an_id() {
    let bytes = bytes_of(&Packet::Connect(Connect {
        protocol: Protocol::MQTT311,
        keep_alive: 0,
        client_id: "",
        clean_session: false,
        last_will: None,
        username: None,
        password: None,
    }));
    assert_eq!(bytes, b"\x10\x0c\x00\x04MQTT\x04\x00\x00\x00\x00\x00");
}

#[test]
fn topic_packets() {
    let topics = vec![
        SubscribeTopic { topic_path: "a/b", qos: QoS::AtLeastOnce },
        SubscribeTopic { topic_path: "c", qos: QoS::ExactlyOnce },
    ];
    assert_eq!(
        bytes_of(&Packet::Subscribe(pid(10), topics)),
        b"\x82\x0c\x00\x0a\x00\x03a/b\x01\x00\x01c\x02"
    );
    assert_eq!(
        bytes_of(&Packet::Unsubscribe(pid(10), vec!["a/b", "c"])),
        b"\xa2\x0a\x00\x0a\x00\x03a/b\x00\x01c"
    );
}

#[test]
fn packets_with_too_many_or_too_long_topics_do_not_fit() {
    let long = "x".repeat(257);
    let topic = SubscribeTopic { topic_path: "x", qos: QoS::AtMostOnce };
    let long_topic = SubscribeTopic { topic_path: &long, qos: QoS::AtMostOnce };
    assert!(Packet::Subscribe(pid(1), vec![topic; 5]).fits());
    assert!(!Packet::Subscribe(pid(1), vec![topic; 6]).fits());
    assert!(!Packet::Subscribe(pid(1), vec![topic, long_topic]).fits());
    assert!(Packet::Unsubscribe(pid(1), vec![&long[1..]; 5]).fits());
    assert!(!Packet::Unsubscribe(pid(1), vec!["x"; 6]).fits());
    assert!(!Packet::Unsubscribe(pid(1), vec![&long]).fits());
    assert!(Packet::Pingreq.fits());
}

#[test]
fn packets_that_do_not_fit_the_buffer() {
    let mut buf = vec![0; 3];
    assert_eq!(encode(&Packet::Puback(pid(1)), &mut buf), Err(Error::PacketError));
    assert_eq!(encode(&Packet::Pingreq, &mut buf), Ok(2));
    assert_eq!(buf, [0xc0, 0, 0]);
    let mut buf = vec![0; 6];
    let packet = Packet::Publish(publish(QosPid::AtMostOnce, "t", b"xy"));
    assert_eq!(encode(&packet, &mut buf), Err(Error::PacketError));
    let mut buf = vec![0; 7];
    assert_eq!(encode(&packet, &mut buf), Ok(7));
    let mut buf = vec![];
    assert_eq!(encode(&Packet::Pingreq, &mut buf), Err(Error::PacketError));
    assert_eq!(encode(&packet, &mut buf), Err(Error::PacketError));
}

#[test]
fn received_connection_answers() {
    assert!(matches!(decode(&[0x20, 2, 0, 0]), Ok(Incoming::Connack(0))));
    assert!(matches!(decode(&[0x20, 2, 1, 5]), Ok(Incoming::Connack(5))));
    assert!(matches!(decode(&[0x20, 2, 0, 6]), Err(Error::PacketError)));
}

#[test]
fn received_acknowledgements() {
    assert!(matches!(decode(&[0x40, 2, 1, 2]), Ok(Incoming::Puback(p)) if p.get() == 258));
    assert!(matches!(decode(&[0x50, 2, 1, 2]), Ok(Incoming::Pubrec(p)) if p.get() == 258));
    assert!(matches!(decode(&[0x62, 2, 1, 2]), Ok(Incoming::Pubrel(p)) if p.get() == 258));
    assert!(matches!(decode(&[0x70, 2, 1, 2]), Ok(Incoming::Pubcomp(p)) if p.get() == 258));
    assert!(matches!(decode(&[0xb0, 2, 1, 2]), Ok(Incoming::Unsuback(p)) if p.get() == 258));
    assert!(matches!(decode(&[0x40, 2, 0, 0]), Err(Error::PacketError)));
    assert!(matches!(decode(&[0x41, 2, 1, 2]), Err(Error::PacketError)));
}

#[test]
fn received_subscription_answers() {
    match decode(&[0x90, 6, 0, 3, 0, 1, 2, 0x80]) {
        Ok(Incoming::Suback(p, codes)) => {
            assert_eq!(p.get(), 3);
            assert_eq!(
                codes,
                [
                    SubscribeReturnCodes::Success(QoS::AtMostOnce),
                    SubscribeReturnCodes::Success(QoS::AtLeastOnce),
                    SubscribeReturnCodes::Success(QoS::ExactlyOnce),
                    SubscribeReturnCodes::Failure,
                ]
            );
        }
        other => panic!("{:?}", other),
    }
    assert!(matches!(decode(&[0x90, 2, 0, 3]), Ok(Incoming::Suback(_, codes)) if codes.is_empty()));
    assert!(matches!(decode(&[0x90, 3, 0, 3, 7]), Err(Error::PacketError)));
    assert!(matches!(decode(&[0x90, 8, 0, 3, 0, 0, 0, 0, 0, 0]), Err(Error::PacketError)));
}

#[test]
fn received_packets_that_only_a_client_sends() {
    assert!(matches!(decode(&[0xc0, 0]), Ok(Incoming::Unexpected)));
    assert!(matches!(decode(&[0xe0, 0]), Ok(Incoming::Unexpected)));
    assert!(matches!(decode(b"\x82\x06\x00\x0a\x00\x01a\x01"), Ok(Incoming::Unexpected)));
    assert!(matches!(decode(b"\xa2\x05\x00\x0a\x00\x01a"), Ok(Incoming::Unexpected)));
    assert!(matches!(
        decode(b"\x10\x0c\x00\x04MQTT\x04\x00\x00\x00\x00\x00"),
        Ok(Incoming::Unexpected)
    ));
    assert!(matches!(decode(&[0xd0, 0]), Ok(Incoming::Pingresp)));
}

#[test]
fn received_packets_that_lack_a_part() {
    for kind in [0x20, 0x40, 0x50, 0x62, 0x70, 0x82, 0x90, 0xa2, 0xb0] {
        assert!(matches!(decode(&[kind, 0]), Err(Error::PacketError)));
        assert!(matches!(decode(&[kind, 1, 0]), Err(Error::PacketError)));
    }
    // A message without the identifier that its delivery asks for.
    assert!(matches!(decode(b"\x32\x03\x00\x01a"), Err(Error::PacketError)));
    assert!(matches!(decode(b"\x34\x04\x00\x01a\x00"), Err(Error::PacketError)));
    assert!(matches!(decode(b"\x32\x01\x00"), Err(Error::PacketError)));
    // A subscription without the delivery that is asked for.
    assert!(matches!(decode(b"\x82\x05\x00\x0a\x00\x01a"), Err(Error::PacketError)));
    // Texts that are cut off.
    assert!(matches!(decode(b"\x30\x03\x00\x02a"), Err(Error::PacketError)));
    assert!(matches!(decode(b"\xa2\x05\x00\x0a\x00\x02a"), Err(Error::PacketError)));
    // A connection request that ends after its protocol, and one for an unknown protocol.
    assert!(matches!(decode(b"\x10\x07\x00\x04MQTT\x04"), Err(Error::PacketError)));
    assert!(matches!(
        decode(b"\x10\x13\x00\x0bunknown-one\x04\x00\x00\x00\x00\x00"),
        Err(Error::PacketError)
    ));
    // Kinds that do not exist.
    assert!(matches!(decode(&[0x00, 0]), Err(Error::PacketError)));
    assert!(matches!(decode(&[0xf0, 0]), Err(Error::PacketError)));
}

#[test]
fn received_topics_that_are_too_long() {
    let mut frame = vec![0xa2, 0x85, 2, 0, 1, 1, 1];
    frame.extend_from_slice(&[b'x'; 257]);
    assert_eq!(packet_size(&frame), Some(frame.len()));
    assert!(matches!(decode(&frame), Err(Error::PacketError)));
    let mut frame = vec![0xa2, 0x84, 2, 0, 1, 1, 0];
    frame.extend_from_slice(&[b'x'; 256]);
    assert_eq!(packet_size(&frame), Some(frame.len()));
    assert!(matches!(decode(&frame), Ok(Incoming::Unexpected)));
}

#[test]
fn received_text_that_is_not_utf8() {
    assert!(matches!(decode(&[0x30, 3, 0, 1, 0xff]), Err(Error::PacketError)));
}

#[test]
fn sent_messages_are_received_as_they_were_sent() {
    for qospid in [
        QosPid::AtMostOnce,
        QosPid::AtLeastOnce(pid(77)),
        QosPid::ExactlyOnce(pid(65535)),
    ] {
        for (dup, retain) in [(false, false), (true, false), (false, true), (true, true)] {
            let payload = [1, 2, 0xff];
            let sent = Publish { dup, qospid, retain, topic_name: "t/\u{20ac}", payload: &payload };
            let bytes = bytes_of(&Packet::Publish(sent));
            match decode(&bytes) {
                Ok(Incoming::Publish(got)) => {
                    assert_eq!((got.dup, got.retain), (dup, retain));
                    assert_eq!(got.qospid, qospid);
                    assert_eq!(got.topic_name, "t/\u{20ac}");
                    assert_eq!(got.payload, payload);
                }
                other => panic!("{:?}", other),
            }
        }
    }
}

#[test]
fn identifiers() {
    assert_eq!(Pid::new().get(), 1);
    assert!(Pid::from_number(0).is_none());
    assert_eq!(pid(100).plus(1).get(), 101);
    assert_eq!(pid(65535).plus(0).get(), 65535);
    assert_eq!(pid(65535).plus(1).get(), 1);
    assert_eq!(pid(65535).plus(2).get(), 2);
    assert_eq!(pid(10).plus(65535).get(), 10);
    assert_eq!(pid(65535).plus(65535).get(), 65535);
}

#[test]
fn packets_of_every_kind_are_read() {
    let id = mqttrs::Pid::try_from(9).unwrap();
    let topic = mqttrs::SubscribeTopic { topic_path: "x/y".into(), qos: mqttrs::QoS::AtLeastOnce };
    let packets = [
        mqttrs::Packet::Connect(mqttrs::Connect {
            protocol: mqttrs::Protocol::MQTT311,
            keep_alive: 1,
            client_id: "c",
            clean_session: false,
            last_will: None,
            username: Some("u"),
            password: None,
        }),
        mqttrs::Packet::Connack(mqttrs::Connack {
            session_present: true,
            code: mqttrs::ConnectReturnCode::ServerUnavailable,
        }),
        mqttrs::Packet::Publish(mqttrs::Publish {
            dup: false,
            qospid: mqttrs::QosPid::ExactlyOnce(id),
            retain: false,
            topic_name: "x",
            payload: &[],
        }),
        mqttrs::Packet::Puback(id),
        mqttrs::Packet::Pubrec(id),
        mqttrs::Packet::Pubrel(id),
        mqttrs::Packet::Pubcomp(id),
        mqttrs::Packet::Subscribe(mqttrs::Subscribe::new(id, [topic].into_iter().collect())),
        mqttrs::Packet::Suback(mqttrs::Suback::new(
            id,
            [mqttrs::SubscribeReturnCodes::Failure].into_iter().collect(),
        )),
        mqttrs::Packet::Unsubscribe(mqttrs::Unsubscribe::new(
            id,
            ["x".into(), "".into()].into_iter().collect(),
        )),
        mqttrs::Packet::Unsuback(id),
        mqttrs::Packet::Pingreq,
        mqttrs::Packet::Pingresp,
        mqttrs::Packet::Disconnect,
    ];
    for packet in &packets {
        let mut buf = [0; 100];
        let n = mqttrs::encode_slice(packet, &mut buf).unwrap();
        match (packet, decode(&buf[..n]).unwrap()) {
            (mqttrs::Packet::Connack(_), Incoming::Connack(code)) => assert_eq!(code, 3),
            (mqttrs::Packet::Publish(_), Incoming::Publish(p)) => {
                assert_eq!(p.qospid, QosPid::ExactlyOnce(pid(9)))
            }
            (mqttrs::Packet::Puback(_), Incoming::Puback(p)) => assert_eq!(p, pid(9)),
            (mqttrs::Packet::Pubrec(_), Incoming::Pubrec(p)) => assert_eq!(p, pid(9)),
            (mqttrs::Packet::Pubrel(_), Incoming::Pubrel(p)) => assert_eq!(p, pid(9)),
            (mqttrs::Packet::Pubcomp(_), Incoming::Pubcomp(p)) => assert_eq!(p, pid(9)),
            (mqttrs::Packet::Suback(_), Incoming::Suback(p, codes)) => {
                assert_eq!(p, pid(9));
                assert_eq!(codes, [SubscribeReturnCodes::Failure]);
            }
            (mqttrs::Packet::Unsuback(_), Incoming::Unsuback(p)) => assert_eq!(p, pid(9)),
            (mqttrs::Packet::Pingresp, Incoming::Pingresp) => {}
            (mqttrs::Packet::Connect(_), Incoming::Unexpected) => {}
            (mqttrs::Packet::Subscribe(_), Incoming::Unexpected) => {}
            (mqttrs::Packet::Unsubscribe(_), Incoming::Unexpected) => {}
            (mqttrs::Packet::Pingreq, Incoming::Unexpected) => {}
            (mqttrs::Packet::Disconnect, Incoming::Unexpected) => {}
            other => panic!("{:?}", other),
        }
    }
}

#[test]
fn bytes_at_random_are_refused_without_harm() {
    let mut state: u64 = 1;
    let mut random = |below: u64| {
        state = state.wrapping_mul(6364136223846793005).wrapping_add(1442695040888963407);
        (state >> 33) % below
    };
    for _ in 0..200000 {
        let length = random(14) as usize;
        let mut frame = vec![random(256) as u8, length as u8];
        for _ in 0..length {
            // Mostly small numbers, so that counts are often in range.
            let byte = if random(4) == 0 { random(256) } else { random(6) };
            frame.push(byte as u8);
        }
        if let Err(e) = decode(&frame) {
            assert_eq!(e, Error::PacketError);
        }
    }
}
