use embassy_net::IpAddress;
use mcutie::io::task::{
    Backoff, PingAction, PingEvent, RunAction, RunEvent, WriteAction, WriteEvent, WriteState,
};
use mcutie::io::send::send_packet;
use mcutie::packet::Packet;
use mcutie::{
    Error, IpDn, McutieBuilder, McutieSender, McutieTask, Payload, Publishable, QoS, Topic, TopicString,
};

struct Bye {
    topic: &'static str,
    message: Vec<u8>,
}

impl Publishable for Bye {
    fn write_topic(&self, buffer: &mut TopicString) -> Result<(), Error> {
        buffer.push_str(self.topic).map_err(|_| Error::TooLarge)
    }

    fn write_payload(&self, buffer: &mut Payload) -> Result<(), Error> {
        *buffer = Payload::from(&self.message)?;
        Ok(())
    }

    fn qos(&self) -> QoS {
        QoS::ExactlyOnce
    }

    fn retain(&self) -> bool {
        true
    }
}

fn address(last: u8) -> IpAddress {
    IpAddress::v4(10, 0, 0, last)
}

fn builder() -> McutieBuilder<'static, &'static str, &'static str, Bye, 0> {
    let broker = IpDn { hostname: "broker", port: 1883, back_ip: address(1) };
    McutieBuilder::new("network", "device", broker, 7, 0, 30, 60)
}

fn task() -> McutieTask<'static, 'static, &'static str, &'static str, Bye, u8, u8, 0> {
    builder().build(&1, &2)
}

fn bye(topic: &'static str, message: &[u8]) -> Bye {
    Bye { topic, message: message.to_vec() }
}

#[test]
fn builder_keeps_its_settings() {
    let task = builder()
        .with_subscriptions([Topic { path: "a" }, Topic { path: "b" }])
        .with_authentication("me", "secret")
        .with_last_will(bye("w", b"m"))
        .build(&1, &2);
    assert_eq!(task.network, "network");
    assert_eq!(task.client_id, "device");
    assert_eq!((task.broker.hostname, task.broker.port), ("broker", 1883));
    assert_eq!(task.broker.back_ip, address(1));
    assert_eq!((task.tcp_time_out, task.tcp_keep_alive), (7, 0));
    assert_eq!((task.mqtt_ping_secs, task.mqtt_keep_alive), (30, 60));
    assert_eq!((task.username, task.password), (Some("me"), Some("secret")));
    assert_eq!(task.last_will.as_ref().unwrap().topic, "w");
    assert_eq!(task.subscriptions[0].path, "a");
    assert_eq!(task.subscriptions[1].path, "b");
    assert_eq!((*task.sender, *task.receive), (1, 2));
    assert_eq!(task.ping_interval(), 30);
}

#[test]
fn builder_starts_with_nothing_optional() {
    let task = task();
    assert!(task.last_will.is_none() && task.username.is_none() && task.password.is_none());
    assert!(task.subscriptions.is_empty());
}

#[test]
fn connection_request() {
    let task = builder()
        .with_authentication("me", "pw")
        .with_last_will(bye("w", b"m"))
        .build(&1, &2);
    let will = task.write_last_will();
    match task.connect_packet(&will) {
        Packet::Connect(c) => {
            assert_eq!((c.keep_alive, c.client_id, c.clean_session), (60, "device", true));
            let will = c.last_will.unwrap();
            assert_eq!((will.topic, will.message), ("w", &b"m"[..]));
            assert_eq!((will.qos, will.retain), (QoS::ExactlyOnce, true));
            assert_eq!((c.username, c.password), (Some("me"), Some(&b"pw"[..])));
        }
        other => panic!("{:?}", other),
    }
    match task.write_first(&will) {
        WriteAction::Write(bytes) => assert_eq!(
            bytes.as_slice(),
            b"\x10\x20\x00\x04MQTT\x04\xf6\x00\x3c\x00\x06device\x00\x01w\x00\x01m\x00\x02me\x00\x02pw"
        ),
        other => panic!("{:?}", other),
    }
}

#[test]
fn last_will_that_cannot_be_written_is_left_out() {
    let large = vec![0; 2049];
    assert!(task().write_last_will().is_none());
    assert!(builder().with_last_will(bye("w", &large)).build(&1, &2).write_last_will().is_none());
    assert!(builder().with_last_will(bye("w", &large[1..])).build(&1, &2).write_last_will().is_some());
    let long: &'static str = Box::leak("t".repeat(257).into_boxed_str());
    assert!(builder().with_last_will(bye(long, b"")).build(&1, &2).write_last_will().is_none());
    assert!(builder().with_last_will(bye(&long[1..], b"")).build(&1, &2).write_last_will().is_some());
}

#[test]
fn connection_request_that_is_too_large() {
    let large = vec![0; 2048];
    let task = builder().with_last_will(bye("w", &large)).build(&1, &2);
    let will = task.write_last_will();
    assert!(will.is_some());
    assert!(matches!(task.write_first(&will), WriteAction::Stop));
    assert!(matches!(task.write_first(&None), WriteAction::Write(_)));
}

#[test]
fn writing_starts_after_the_connection_request() {
    let mut state = WriteState::Connecting;
    assert!(matches!(state.next(WriteEvent::Written(true)), WriteAction::Attach));
    assert_eq!(state, WriteState::Serving);
    assert!(matches!(state.next(WriteEvent::Received), WriteAction::Forward));
    assert!(matches!(state.next(WriteEvent::Written(true)), WriteAction::Wait));
    assert!(matches!(state.next(WriteEvent::Received), WriteAction::Forward));
    assert!(matches!(state.next(WriteEvent::Written(false)), WriteAction::Stop));
    let mut state = WriteState::Connecting;
    assert!(matches!(state.next(WriteEvent::Written(false)), WriteAction::Stop));
}

#[test]
fn a_turn_of_the_task() {
    let task = task();
    let mut backoff = Backoff::new();
    assert!(matches!(backoff.start(), RunAction::CheckNetwork));
    let mut next = |event| task.next(&mut backoff, event);
    assert!(matches!(next(RunEvent::Network(false)), RunAction::WaitNetwork(10)));
    assert!(matches!(next(RunEvent::NetworkWaited), RunAction::Resolve));
    match next(RunEvent::Resolved(Some(vec![address(2), address(3)]))) {
        RunAction::Connect(c) => {
            assert_eq!((c.ip, c.port), (address(3), 1883));
            assert_eq!((c.timeout, c.keep_alive), (Some(7), None));
        }
        other => panic!("{:?}", other),
    }
    assert!(matches!(next(RunEvent::Connected(true)), RunAction::Serve));
    assert!(matches!(next(RunEvent::Served), RunAction::Disconnect));
    assert!(matches!(next(RunEvent::Disconnected), RunAction::Sleep(200)));
    assert!(matches!(next(RunEvent::Slept), RunAction::CheckNetwork));
    assert!(matches!(next(RunEvent::Network(true)), RunAction::Resolve));
}

#[test]
fn broker_that_is_not_found() {
    let task = task();
    let mut backoff = Backoff::new();
    backoff.start();
    for found in [None, Some(vec![])] {
        match task.next(&mut backoff, RunEvent::Resolved(found)) {
            RunAction::Connect(c) => assert_eq!(c.ip, address(1)),
            other => panic!("{:?}", other),
        }
    }
}

#[test]
fn failed_connections_are_retried_later_and_lost_ones_soon() {
    let task = task();
    let mut backoff = Backoff::new();
    backoff.start();
    for _ in 0..3 {
        assert!(matches!(
            task.next(&mut backoff, RunEvent::Connected(false)),
            RunAction::Sleep(5000)
        ));
    }
    task.next(&mut backoff, RunEvent::Connected(true));
    assert!(matches!(task.next(&mut backoff, RunEvent::Disconnected), RunAction::Sleep(200)));
    assert!(matches!(
        task.next(&mut backoff, RunEvent::Connected(false)),
        RunAction::Sleep(5000)
    ));
}

#[test]
fn request_and_received_data_are_written_in_order() {
    let mut sender = McutieSender::new(0);
    let mut packets = vec![Packet::Disconnect, Packet::Pingreq];
    let mut state = WriteState::Connecting;
    let mut action = task().write_first(&None);
    let (mut reader, mut turn) = (None, None);
    let mut stream = vec![];
    loop {
        let event = match action {
            WriteAction::Write(bytes) => {
                stream.extend_from_slice(bytes.as_slice());
                WriteEvent::Written(true)
            }
            WriteAction::Attach | WriteAction::Wait => {
                let reader = reader.get_or_insert_with(|| sender.pipe().reader());
                match packets.pop() {
                    Some(packet) => assert!(send_packet(&mut sender, &packet).is_some()),
                    None => break,
                }
                turn = reader.receive(sender.pipe());
                WriteEvent::Received
            }
            WriteAction::Forward => {
                let got = turn.take().unwrap();
                stream.extend_from_slice(got.read(sender.pipe()).as_slice());
                got.finish(sender.pipe());
                WriteEvent::Written(true)
            }
            WriteAction::Stop => panic!("stopped"),
        };
        action = state.next(event);
    }
    assert_eq!(stream, b"\x10\x12\x00\x04MQTT\x04\x02\x00\x3c\x00\x06device\xc0\x00\xe0\x00");
}

#[test]
fn every_connection_is_closed_once() {
    let task = task();
    let mut backoff = Backoff::new();
    let mut action = backoff.start();
    let (mut tries, mut made, mut closed) = (0, 0, 0);
    while tries < 10 || !matches!(action, RunAction::Sleep(_)) {
        let event = match action {
            RunAction::Sleep(_) => RunEvent::Slept,
            RunAction::CheckNetwork => RunEvent::Network(tries % 2 == 0),
            RunAction::WaitNetwork(_) => RunEvent::NetworkWaited,
            RunAction::Resolve => RunEvent::Resolved(None),
            RunAction::Connect(_) => {
                tries += 1;
                RunEvent::Connected(tries % 3 == 0)
            }
            RunAction::Serve => {
                made += 1;
                RunEvent::Served
            }
            RunAction::Disconnect => {
                closed += 1;
                RunEvent::Disconnected
            }
        };
        action = task.next(&mut backoff, event);
    }
    assert_eq!((tries, made, closed), (10, 3, 3));
}

#[test]
fn pings_alternate_with_waits() {
    let task = task();
    assert!(matches!(task.next_ping(PingEvent::Started), PingAction::Wait(30)));
    for sent in [Ok(()), Err(Error::PacketError)] {
        assert!(matches!(
            task.next_ping(PingEvent::Waited),
            PingAction::Send(Packet::Pingreq)
        ));
        assert!(matches!(task.next_ping(PingEvent::Sent(sent)), PingAction::Wait(30)));
    }
}
