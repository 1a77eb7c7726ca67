use mcutie::io::receive::{
    after_action, respond, Action, Performed, Receiver, Step, RECEIVE_LENGTH,
};
use mcutie::packet::{Incoming, Packet, Publish, QosPid};
use mcutie::{ControlMessage, Error, MqttMessage, Pid, QoS, SubscribeReturnCodes, Topic};

fn pid(number: u16) -> Pid {
    Pid::from_number(number).unwrap()
}

fn actions(packet: Incoming) -> Vec<Action> {
    respond(&packet, 0).unwrap()
}

fn message(qospid: QosPid, topic_name: &str, payload: &[u8]) -> Vec<Action> {
    actions(Incoming::Publish(Publish { dup: false, qospid, retain: false, topic_name, payload }))
}

/// Feeds `stream` in pieces of at most `piece` bytes; what each packet asks for, and how it ended.
fn feed(stream: &[u8], piece: usize) -> (Vec<String>, Option<Result<(), Error>>) {
    let mut receiver = Receiver::new();
    let mut done = vec![];
    let mut rest = stream;
    loop {
        let n = rest.len().min(piece).min(receiver.room());
        if let Some(end) = receiver.on_read(Ok(&rest[..n])) {
            return (done, Some(end));
        }
        rest = &rest[n..];
        loop {
            match receiver.next(2) {
                Step::Wait => break,
                Step::Act(actions) => done.push(format!("{:?}", actions)),
                Step::Fail(e) => return (done, Some(Err(e))),
            }
        }
        if rest.is_empty() {
            return (done, None);
        }
    }
}

#[test]
fn accepted_connection() {
    let actions = respond(&Incoming::Connack(0), 2).unwrap();
    assert!(matches!(
        actions[..],
        [Action::Subscribe(0), Action::Subscribe(1), Action::Deliver(MqttMessage::Connected)]
    ));
    let actions = respond(&Incoming::Connack(0), 0).unwrap();
    assert!(matches!(actions[..], [Action::Deliver(MqttMessage::Connected)]));
}

#[test]
fn refused_connection() {
    for code in 1..=5 {
        assert!(matches!(respond(&Incoming::Connack(code), 2), Err(Error::IOError)));
    }
}

#[test]
fn message_without_acknowledgement() {
    match &message(QosPid::AtMostOnce, "a/b", b"hi")[..] {
        [Action::Deliver(MqttMessage::Publish(topic, payload))] => {
            assert_eq!(topic.as_str(), "a/b");
            assert_eq!(payload.as_slice(), b"hi");
        }
        other => panic!("{:?}", other),
    }
}

#[test]
fn messages_are_acknowledged() {
    match &message(QosPid::AtLeastOnce(pid(5)), "t", b"")[..] {
        [Action::Deliver(_), Action::Send(Packet::Puback(p))] => assert_eq!(p.get(), 5),
        other => panic!("{:?}", other),
    }
    match &message(QosPid::ExactlyOnce(pid(6)), "t", b"")[..] {
        [Action::Deliver(_), Action::Send(Packet::Pubrec(p))] => assert_eq!(p.get(), 6),
        other => panic!("{:?}", other),
    }
}

#[test]
fn messages_that_are_too_large_are_acknowledged_only() {
    let large = [0; 2049];
    match &message(QosPid::AtLeastOnce(pid(5)), "t", &large)[..] {
        [Action::Send(Packet::Puback(p))] => assert_eq!(p.get(), 5),
        other => panic!("{:?}", other),
    }
    let long = "t".repeat(257);
    assert!(message(QosPid::AtMostOnce, &long, b"").is_empty());
    assert_eq!(message(QosPid::AtMostOnce, &long[1..], &large[1..]).len(), 1);
}

#[test]
fn confirmations() {
    assert!(matches!(
        actions(Incoming::Puback(pid(3)))[..],
        [Action::Notify(ControlMessage::Published(p))] if p.get() == 3
    ));
    assert!(matches!(
        actions(Incoming::Pubrec(pid(3)))[..],
        [Action::Notify(ControlMessage::Published(p)), Action::Send(Packet::Pubrel(q))]
            if p.get() == 3 && q.get() == 3
    ));
    assert!(matches!(
        actions(Incoming::Pubrel(pid(3)))[..],
        [Action::Send(Packet::Pubrel(p))] if p.get() == 3
    ));
    assert!(matches!(
        actions(Incoming::Unsuback(pid(3)))[..],
        [Action::Notify(ControlMessage::Unsubscribed(p))] if p.get() == 3
    ));
}

#[test]
fn subscription_answers() {
    let codes = vec![SubscribeReturnCodes::Success(QoS::AtLeastOnce), SubscribeReturnCodes::Failure];
    assert!(matches!(
        actions(Incoming::Suback(pid(3), codes))[..],
        [Action::Notify(ControlMessage::Subscribed(
            p,
            SubscribeReturnCodes::Success(QoS::AtLeastOnce)
        ))] if p.get() == 3
    ));
    assert!(actions(Incoming::Suback(pid(3), vec![])).is_empty());
}

#[test]
fn packets_that_ask_for_nothing() {
    assert!(actions(Incoming::Pubcomp(pid(3))).is_empty());
    assert!(actions(Incoming::Pingresp).is_empty());
    assert!(actions(Incoming::Unexpected).is_empty());
}

#[test]
fn reads_that_end_the_connection() {
    let mut receiver = Receiver::new();
    assert_eq!(receiver.on_read(Ok(&[])), Some(Ok(())));
    assert_eq!(receiver.on_read(Err(())), Some(Err(Error::IOError)));
}

#[test]
fn packets_end_the_connection() {
    assert_eq!(feed(&[0x20, 2, 0, 5], 10), (vec![], Some(Err(Error::IOError))));
    assert_eq!(feed(&[0x30, 0x80, 0x80, 0x80, 0x80], 10), (vec![], Some(Err(Error::PacketError))));
    assert_eq!(feed(&[0x00, 0], 10), (vec![], Some(Err(Error::PacketError))));
    assert_eq!(feed(&[0x40, 0], 10), (vec![], Some(Err(Error::PacketError))));
    let (done, end) = feed(&[0xd0, 0, 0x40, 1, 0, 0xd0, 0], 10);
    assert_eq!((done.len(), end), (1, Some(Err(Error::PacketError))));
}

#[test]
fn cutting_the_stream_does_not_matter() {
    let stream = b"\x20\x02\x00\x00\x32\x07\x00\x01a\x00\x09bc\xd0\x00\x50\x02\x00\x07\xe0\x00\x90\x03\x00\x01\x80\x30";
    let whole = feed(stream, stream.len());
    assert_eq!(whole.0.len(), 6);
    assert_eq!(whole.1, None);
    for piece in 1..stream.len() {
        assert_eq!(feed(stream, piece), whole);
    }
}

#[test]
fn only_a_failed_reply_ends_the_connection() {
    let failed = || Err(Error::PacketError);
    assert_eq!(after_action(Performed::Sent(failed())), Err(Error::PacketError));
    assert_eq!(after_action(Performed::Sent(Ok(()))), Ok(()));
    assert_eq!(after_action(Performed::Subscribed(failed())), Ok(()));
    assert_eq!(after_action(Performed::Subscribed(Ok(()))), Ok(()));
    assert_eq!(after_action(Performed::Delivered), Ok(()));
    assert_eq!(after_action(Performed::Notified), Ok(()));
}

#[test]
fn space_is_reclaimed() {
    let mut receiver = Receiver::new();
    assert_eq!(receiver.room(), RECEIVE_LENGTH);
    let mut stream = [0xd0, 0].repeat(2047);
    stream.extend_from_slice(&[0x40, 2]);
    assert_eq!(stream.len(), 4096);
    assert_eq!(receiver.on_read(Ok(&stream)), None);
    assert_eq!(receiver.room(), 0);
    for _ in 0..2047 {
        assert!(matches!(receiver.next(0), Step::Act(actions) if actions.is_empty()));
        assert_eq!(receiver.room(), 0);
    }
    assert!(matches!(receiver.next(0), Step::Wait));
    assert_eq!(receiver.room(), 4094);
    assert_eq!(receiver.on_read(Ok(&[0, 9])), None);
    assert!(matches!(
        receiver.next(0),
        Step::Act(actions) if matches!(actions[..], [Action::Notify(ControlMessage::Published(_))])
    ));
    assert!(matches!(receiver.next(0), Step::Wait));
    assert_eq!(receiver.room(), RECEIVE_LENGTH);
}

#[test]
fn topics_are_limited() {
    let long = "\u{e9}".repeat(128);
    assert_eq!(Topic::from_str(&long).unwrap().as_str(), long);
    let longer = long + "x";
    assert!(matches!(Topic::from_str(&longer), Err(Error::TooLarge)));
}
