use mcutie::io::send::{
    after_send, assign_pid, next_publish, publish, send_packet, subscribe, subscription,
    wait_for_publish, PublishAction, PublishEvent, WaitEvent, SUBSCRIBE_RETRY,
};
use mcutie::io::receive::{respond, Action};
use mcutie::packet::{Incoming, Packet, Publish, QosPid};
use mcutie::pipe::Wake;
use mcutie::{ControlMessage, Error, McutieSender, Pid, QoS, SubscribeReturnCodes};

fn pid(number: u16) -> Pid {
    Pid::from_number(number).unwrap()
}

#[test]
fn sender_starts_with_its_settings() {
    let mut sender = McutieSender::new(2000);
    assert_eq!(sender.confirmation_timeout(), 2000);
    assert_eq!(sender.assign_pid().get(), 2);
    assert_eq!(sender.assign_pid().get(), 3);
}

#[test]
fn identifiers_are_distinct() {
    let mut sender = McutieSender::new(0);
    let mut seen = vec![false; 65536];
    for _ in 0..65535 {
        let number = sender.assign_pid().get() as usize;
        assert!(number != 0 && !seen[number]);
        seen[number] = true;
    }
    assert_eq!(sender.assign_pid().get(), 2);
}

#[test]
fn publications_get_the_identifier_after_next() {
    let mut sender = McutieSender::new(0);
    assert_eq!(assign_pid(&mut sender).get(), 3);
    assert_eq!(assign_pid(&mut sender).get(), 4);
    for _ in 0..65531 {
        sender.assign_pid();
    }
    assert_eq!(assign_pid(&mut sender).get(), 1);
    assert_eq!(assign_pid(&mut sender).get(), 2);
}

#[test]
fn listening_is_asked_for_again() {
    assert_eq!(subscribe(true), None);
    assert_eq!(subscribe(false), Some(50));
    assert_eq!(SUBSCRIBE_RETRY, 50);
}

#[test]
fn packets_go_into_the_pipe() {
    let mut sender = McutieSender::new(0);
    let reader = sender.pipe().reader();
    let sent = send_packet(&mut sender, &Packet::Puback(pid(258))).unwrap();
    assert_eq!(sent.result, Ok(()));
    assert_eq!(sent.wake, Wake::Receiver);
    assert!(send_packet(&mut sender, &Packet::Pingreq).is_none());
    let turn = reader.receive(sender.pipe()).unwrap();
    assert_eq!(turn.read(sender.pipe()).as_slice(), [0x40, 2, 1, 2]);
    turn.finish(sender.pipe());
    assert!(send_packet(&mut sender, &Packet::Pingreq).is_some());
}

#[test]
fn packets_are_dropped_while_nobody_is_connected() {
    let mut sender = McutieSender::new(0);
    for _ in 0..3 {
        let sent = send_packet(&mut sender, &Packet::Pingreq).unwrap();
        assert_eq!(sent.result, Ok(()));
        assert_eq!(sent.wake, Wake::Sender);
    }
    let reader = sender.pipe().reader();
    assert!(reader.receive(sender.pipe()).is_none());
}

#[test]
fn packets_that_are_too_large() {
    let mut sender = McutieSender::new(0);
    let reader = sender.pipe().reader();
    let payload = [0; 2048];
    let packet = Packet::Publish(Publish {
        dup: false,
        qospid: QosPid::AtMostOnce,
        retain: false,
        topic_name: "",
        payload: &payload[..2044],
    });
    let sent = send_packet(&mut sender, &packet).unwrap();
    assert_eq!(sent.result, Err(Error::PacketError));
    assert_eq!(sent.wake, Wake::Receiver);
    let turn = reader.receive(sender.pipe()).unwrap();
    assert!(turn.read(sender.pipe()).as_slice().is_empty());
    turn.finish(sender.pipe());
    let packet = Packet::Publish(Publish {
        dup: false,
        qospid: QosPid::AtMostOnce,
        retain: false,
        topic_name: "",
        payload: &payload[..2043],
    });
    assert_eq!(send_packet(&mut sender, &packet).unwrap().result, Ok(()));
}

#[test]
fn publications() {
    let mut sender = McutieSender::new(0);
    let publication = publish(&mut sender, "t", b"x", QoS::AtMostOnce, true);
    assert!(publication.expected_pid.is_none());
    match publication.packet {
        Packet::Publish(p) => {
            assert!(!p.dup && p.retain);
            assert_eq!((p.topic_name, p.payload), ("t", &b"x"[..]));
            assert_eq!(p.qospid, QosPid::AtMostOnce);
        }
        other => panic!("{:?}", other),
    }
    let publication = publish(&mut sender, "t", b"x", QoS::AtLeastOnce, false);
    assert_eq!(publication.expected_pid, Some(pid(3)));
    assert!(matches!(
        publication.packet,
        Packet::Publish(p) if p.qospid == QosPid::AtLeastOnce(pid(3)) && !p.retain
    ));
    let publication = publish(&mut sender, "t", b"x", QoS::ExactlyOnce, false);
    assert_eq!(publication.expected_pid, Some(pid(4)));
    assert!(matches!(
        publication.packet,
        Packet::Publish(p) if p.qospid == QosPid::ExactlyOnce(pid(4))
    ));
    assert_eq!(sender.assign_pid().get(), 4);
}

#[test]
fn waiting_ends_with_the_confirmation_or_in_time() {
    let expected = pid(9);
    let message = |m| wait_for_publish(&WaitEvent::Message(m), expected);
    assert_eq!(message(ControlMessage::Published(pid(9))), Some(Ok(())));
    assert_eq!(message(ControlMessage::Published(pid(8))), None);
    assert_eq!(message(ControlMessage::Unsubscribed(pid(9))), None);
    assert_eq!(message(ControlMessage::Subscribed(pid(9), SubscribeReturnCodes::Failure)), None);
    assert_eq!(wait_for_publish(&WaitEvent::Lagged, expected), None);
    assert_eq!(wait_for_publish(&WaitEvent::Timeout, expected), Some(Err(Error::TimedOut)));
}

#[test]
fn acknowledgement_confirms_the_publication() {
    let mut sender = McutieSender::new(0);
    let expected = publish(&mut sender, "t", b"", QoS::AtLeastOnce, false).expected_pid.unwrap();
    for answer in [Incoming::Puback(expected), Incoming::Pubrec(expected)] {
        match respond(&answer, 0).unwrap()[0] {
            Action::Notify(message) => {
                assert_eq!(wait_for_publish(&WaitEvent::Message(message), expected), Some(Ok(())));
            }
            ref other => panic!("{:?}", other),
        }
    }
}

#[test]
fn subscription_packet() {
    let mut sender = McutieSender::new(0);
    match subscription(&mut sender, "a/b") {
        Packet::Subscribe(p, topics) => {
            assert_eq!(p, pid(3));
            assert_eq!(topics.len(), 1);
            assert_eq!((topics[0].topic_path, topics[0].qos), ("a/b", QoS::AtLeastOnce));
        }
        other => panic!("{:?}", other),
    }
    assert_eq!(sender.assign_pid(), pid(3));
    let long = "t".repeat(257);
    assert!(!subscription(&mut sender, &long).fits());
    assert!(subscription(&mut sender, &long[1..]).fits());
}

#[test]
fn what_follows_on_sending_a_publication() {
    assert!(matches!(
        after_send(Err(Error::PacketError), Some(pid(3)), 9),
        PublishAction::Done(Err(Error::PacketError))
    ));
    assert!(matches!(
        after_send(Err(Error::PacketError), None, 9),
        PublishAction::Done(Err(Error::PacketError))
    ));
    assert!(matches!(after_send(Ok(()), None, 9), PublishAction::Done(Ok(()))));
    assert!(matches!(
        after_send(Ok(()), Some(pid(3)), 9),
        PublishAction::Wait(p, 9) if p == pid(3)
    ));
}

#[test]
fn publishing_listens_then_sends_then_waits() {
    let mut sender = McutieSender::new(700);
    let mut next = |event| next_publish(&mut sender, "t", b"x", QoS::AtLeastOnce, true, event);
    assert!(matches!(next(PublishEvent::Started), PublishAction::Listen));
    let publication = match next(PublishEvent::Listening) {
        PublishAction::Send(publication) => publication,
        other => panic!("{:?}", other),
    };
    let expected = publication.expected_pid;
    assert_eq!(expected, Some(pid(3)));
    assert!(matches!(
        publication.packet,
        Packet::Publish(p) if p.topic_name == "t" && p.payload == b"x" && p.retain
            && p.qospid == QosPid::AtLeastOnce(pid(3))
    ));
    assert!(matches!(
        next(PublishEvent::Sent(Ok(()), expected)),
        PublishAction::Wait(p, 700) if p == pid(3)
    ));
    let published = |number| WaitEvent::Message(ControlMessage::Published(pid(number)));
    assert!(matches!(
        next(PublishEvent::Waited(published(2), pid(3))),
        PublishAction::Wait(p, 700) if p == pid(3)
    ));
    assert!(matches!(
        next(PublishEvent::Waited(published(3), pid(3))),
        PublishAction::Done(Ok(()))
    ));
    assert!(matches!(
        next(PublishEvent::Waited(WaitEvent::Timeout, pid(3))),
        PublishAction::Done(Err(Error::TimedOut))
    ));
    assert_eq!(sender.assign_pid(), pid(3));
}
