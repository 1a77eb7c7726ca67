use mcutie::packet::Packet;
use mcutie::pipe::{Clean, ConnectedPipe, Wake};
use mcutie::Payload;

fn filled(pipe: &mut ConnectedPipe<Payload>, data: &[u8], commit: bool) -> Wake {
    let mut writer = pipe.writer().unwrap();
    assert!(writer.write(pipe).as_slice().is_empty());
    *writer.write(pipe) = Payload::from(data).unwrap();
    if !commit {
        writer.rollback();
    }
    writer.finish(pipe)
}

#[test]
fn committed_data_is_received() {
    let mut pipe = ConnectedPipe::new(Payload::new());
    let reader = pipe.reader();
    assert!(reader.receive(&mut pipe).is_none());
    assert_eq!(filled(&mut pipe, b"one", true), Wake::Receiver);
    let turn = reader.receive(&mut pipe).unwrap();
    assert_eq!(turn.read(&pipe).as_slice(), b"one");
    assert!(reader.receive(&mut pipe).is_none());
    assert_eq!(turn.finish(&mut pipe), Wake::Sender);
    assert!(reader.receive(&mut pipe).is_none());
}

#[test]
fn writers_wait_for_the_receiver() {
    let mut pipe = ConnectedPipe::new(Payload::new());
    let reader = pipe.reader();
    filled(&mut pipe, b"one", true);
    assert!(pipe.writer().is_none());
    let turn = reader.receive(&mut pipe).unwrap();
    assert!(pipe.writer().is_none());
    assert_eq!(turn.read(&pipe).as_slice(), b"one");
    turn.finish(&mut pipe);
    assert!(pipe.writer().is_some());
}

#[test]
fn writers_wait_for_each_other() {
    let mut pipe = ConnectedPipe::new(Payload::new());
    let writer = pipe.writer().unwrap();
    assert!(pipe.writer().is_none());
    assert_eq!(writer.finish(&mut pipe), Wake::Sender);
    assert!(pipe.writer().is_some());
}

#[test]
fn data_is_dropped_without_receiver() {
    let mut pipe = ConnectedPipe::new(Payload::new());
    assert_eq!(filled(&mut pipe, b"one", true), Wake::Sender);
    assert_eq!(filled(&mut pipe, b"two", true), Wake::Sender);
    let reader = pipe.reader();
    assert!(reader.receive(&mut pipe).is_none());
    assert_eq!(filled(&mut pipe, b"three", true), Wake::Receiver);
    let turn = reader.receive(&mut pipe).unwrap();
    assert_eq!(turn.read(&pipe).as_slice(), b"three");
}

#[test]
fn rolled_back_data_is_dropped() {
    let mut pipe = ConnectedPipe::new(Payload::new());
    let reader = pipe.reader();
    assert_eq!(filled(&mut pipe, b"one", false), Wake::Sender);
    assert!(reader.receive(&mut pipe).is_none());
    assert_eq!(filled(&mut pipe, b"two", true), Wake::Receiver);
    let turn = reader.receive(&mut pipe).unwrap();
    assert_eq!(turn.read(&pipe).as_slice(), b"two");
}

#[test]
fn rolling_back_can_be_taken_back() {
    let mut pipe = ConnectedPipe::new(Payload::new());
    let reader = pipe.reader();
    let mut writer = pipe.writer().unwrap();
    writer.rollback();
    writer.commit();
    assert_eq!(writer.finish(&mut pipe), Wake::Receiver);
    assert!(reader.receive(&mut pipe).is_some());
}

#[test]
fn last_receiver_frees_the_pipe() {
    let mut pipe = ConnectedPipe::new(Payload::new());
    let first = pipe.reader();
    let second = pipe.reader();
    filled(&mut pipe, b"one", true);
    assert_eq!(first.disconnect(&mut pipe), Wake::Sender);
    assert!(pipe.writer().is_none());
    assert_eq!(second.disconnect(&mut pipe), Wake::Sender);
    assert!(pipe.writer().is_some());
}

#[test]
fn everything_arrives_once_and_in_order() {
    let mut pipe = ConnectedPipe::new(Payload::new());
    let reader = pipe.reader();
    let mut got = vec![];
    for i in 0..20u8 {
        filled(&mut pipe, &[i], i % 3 != 0);
        if let Some(turn) = reader.receive(&mut pipe) {
            got.push(turn.read(&pipe).as_slice()[0]);
            turn.finish(&mut pipe);
        }
    }
    assert_eq!(got, [1, 2, 4, 5, 7, 8, 10, 11, 13, 14, 16, 17, 19]);
}

#[test]
fn payload_is_limited() {
    let payload = Payload::from(&[7; 2048]).unwrap();
    assert_eq!(payload.as_slice(), [7; 2048]);
    assert!(matches!(Payload::from(&[7; 2049]), Err(mcutie::Error::TooLarge)));
    let mut payload = payload;
    payload.clean();
    assert!(payload.as_slice().is_empty());
}

#[test]
fn packets_are_appended_to_a_payload() {
    let mut payload = Payload::new();
    assert_eq!(payload.encode_packet(&Packet::Pingreq), Ok(()));
    assert_eq!(payload.encode_packet(&Packet::Disconnect), Ok(()));
    assert_eq!(payload.as_slice(), [0xc0, 0, 0xe0, 0]);
    let mut payload = Payload::from(&[1; 2047]).unwrap();
    assert_eq!(payload.encode_packet(&Packet::Pingreq), Err(mcutie::Error::PacketError));
    assert_eq!(payload.as_slice(), [1; 2047]);
}
