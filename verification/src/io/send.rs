//! Sending packets, and waiting for the broker to confirm them.
use vstd::prelude::*;
use vstd::utf8::encode_utf8;
use crate::buffer::PAYLOAD_LENGTH;
use crate::packet::{
    carries, law_messages_are_carried, layout, pid_plus, IncomingView, Packet, PacketView, Pid, Publish, PublishView, QoS, QosPid,
    QosPidView, SubscribeTopic,
};
use crate::pipe::{State, Wake};
use crate::{ControlMessage, ControlView, Error, McutieSender, MessageView, SenderView};
use super::receive::{response, ActionView};

verus! {

/// How long to wait, in milliseconds, before asking again for a place to listen for
/// confirmations.
pub const SUBSCRIBE_RETRY: u64 = 50;

/// What to do about a place to listen for confirmations: nothing where it was given, else wait
/// this long, in milliseconds, and ask again.
pub fn subscribe(given: bool) -> (wait: Option<u64>)
    ensures
        wait == if given {
            None
        } else {
            Some(SUBSCRIBE_RETRY)
        },
{
    if given {
        None
    } else {
        Some(SUBSCRIBE_RETRY)
    }
}

/// Gives out the identifier that follows the sender's next one.
pub fn assign_pid(sender: &mut McutieSender) -> (pid: Pid)
    requires
        old(sender)@.inv(),
    ensures
        final(sender)@ == old(sender)@.counted(),
        final(sender)@.inv(),
        pid.value() == pid_plus(1, final(sender)@.count),
{
    let new_val = sender.assign_pid();
    Pid::new().plus(new_val.get())
}

/// How sending a packet ended, and which side of the pipe is to be woken for it.
#[derive(Debug)]
pub struct Sent {
    pub result: Result<(), Error>,
    pub wake: Wake,
}

/// Puts a packet into the pipe to the broker, or returns `None` if that has to wait until the
/// sender side of the pipe is woken. Where the packet is too large for the pipe, empty data is put
/// into it in its place: a connected receiver gets a turn at it like at any other, and writers
/// wait until that turn is over.
pub fn send_packet(sender: &mut McutieSender, packet: &Packet<'_>) -> (sent: Option<Sent>)
    requires
        old(sender)@.inv(),
        packet@.fits(),
    ensures
        final(sender)@.inv(),
        sent is Some <==> old(sender)@.pipe.can_write(),
        sent is Some <==> old(sender)@.pipe.state == State::WriteEnd,
        sent is Some ==> final(sender)@.pipe.state == if old(sender)@.pipe.connect_count > 0 {
            State::ReadEnd
        } else {
            State::WriteEnd
        },
        sent is None ==> final(sender)@ == old(sender)@,
        sent matches Some(sent) ==> {
            let (before, after) = (old(sender)@, final(sender)@);
            &&& after.count == before.count
            &&& after.confirmation_timeout == before.confirmation_timeout
            &&& after.pipe.connect_count == before.pipe.connect_count
            &&& after.pipe.state == before.pipe.finished(true).state
            &&& sent.wake == if before.pipe.connect_count > 0 {
                Wake::Receiver
            } else {
                Wake::Sender
            }
            &&& if layout(packet@).len() <= PAYLOAD_LENGTH {
                sent.result is Ok && after.pipe.pending@ == layout(packet@)
            } else {
                sent.result == Err::<(), Error>(Error::PacketError) && after.pipe.pending@ == Seq::<
                    u8,
                >::empty()
            }
        },
{
    let writer = match sender.sender.writer() {
        Some(writer) => writer,
        None => {
            return None;
        },
    };
    let result = writer.write(&mut sender.sender).encode_packet(packet);
    let wake = writer.finish(&mut sender.sender);
    Some(Sent { result, wake })
}

/// The packet that a publication sends, and the identifier that has to be confirmed, if any.
#[derive(Debug)]
pub struct Publication<'a> {
    pub packet: Packet<'a>,
    pub expected_pid: Option<Pid>,
}

/// A publication as plain values.
pub struct PublicationView {
    pub packet: PacketView,
    pub expected_pid: Option<u16>,
}

/// The number of an identifier that may be missing.
pub open spec fn pid_number(pid: Option<Pid>) -> Option<u16> {
    match pid {
        Some(pid) => Some(pid.value()),
        None => None,
    }
}

impl View for Publication<'_> {
    type V = PublicationView;

    open spec fn view(&self) -> PublicationView {
        PublicationView { packet: self.packet@, expected_pid: pid_number(self.expected_pid) }
    }
}

/// The sender once a publication that asks for this delivery is made: where the delivery is
/// acknowledged, the next identifier has been given out.
pub open spec fn publishing(sender: SenderView, qos: QoS) -> SenderView {
    if qos == QoS::AtMostOnce {
        sender
    } else {
        sender.counted()
    }
}

/// The publication of `payload` on `topic_name` by a sender that gave out `count` last.
pub open spec fn publication_of(
    topic_name: Seq<char>,
    payload: Seq<u8>,
    qos: QoS,
    retain: bool,
    count: u16,
) -> PublicationView {
    let pid = pid_plus(1, count);
    PublicationView {
        packet: PacketView::Publish(
            PublishView {
                dup: false,
                qospid: match qos {
                    QoS::AtMostOnce => QosPidView::AtMostOnce,
                    QoS::AtLeastOnce => QosPidView::AtLeastOnce(pid),
                    QoS::ExactlyOnce => QosPidView::ExactlyOnce(pid),
                },
                retain,
                topic_name,
                payload,
            },
        ),
        expected_pid: if qos == QoS::AtMostOnce {
            None
        } else {
            Some(pid)
        },
    }
}

/// The packet that publishes `payload` on `topic_name`, and the identifier whose confirmation is
/// to be waited for once the packet is sent.
pub fn publish<'a>(
    sender: &mut McutieSender,
    topic_name: &'a str,
    payload: &'a [u8],
    qos: QoS,
    retain: bool,
) -> (publication: Publication<'a>)
    requires
        old(sender)@.inv(),
    ensures
        final(sender)@.inv(),
        final(sender)@ == publishing(old(sender)@, qos),
        publication@ == publication_of(
            topic_name@,
            payload@,
            qos,
            retain,
            final(sender)@.count,
        ),
        publication.packet is Publish,
        ({
            let p = publication.packet->Publish_0;
            &&& !p.dup
            &&& p.retain == retain
            &&& p.topic_name@ == topic_name@
            &&& p.payload@ == payload@
            &&& match qos {
                QoS::AtMostOnce => p.qospid is AtMostOnce && publication.expected_pid is None,
                QoS::AtLeastOnce => p.qospid matches QosPid::AtLeastOnce(pid)
                    && publication.expected_pid == Some(pid),
                QoS::ExactlyOnce => p.qospid matches QosPid::ExactlyOnce(pid)
                    && publication.expected_pid == Some(pid),
            }
        }),
{
    let (qospid, expected_pid) = match qos {
        QoS::AtMostOnce => (QosPid::AtMostOnce, None),
        QoS::AtLeastOnce => {
            let pid = assign_pid(sender);
            (QosPid::AtLeastOnce(pid), Some(pid))
        },
        QoS::ExactlyOnce => {
            let pid = assign_pid(sender);
            (QosPid::ExactlyOnce(pid), Some(pid))
        },
    };
    Publication {
        packet: Packet::Publish(Publish { dup: false, qospid, retain, topic_name, payload }),
        expected_pid,
    }
}

/// The packet that asks the broker for the messages on a topic.
pub fn subscription<'a>(sender: &mut McutieSender, topic_path: &'a str) -> (packet: Packet<'a>)
    requires
        old(sender)@.inv(),
    ensures
        final(sender)@.inv(),
        final(sender)@ == old(sender)@.counted(),
        packet@ == PacketView::Subscribe(
            pid_plus(1, final(sender)@.count),
            seq![(topic_path@, QoS::AtLeastOnce)],
        ),
        packet matches Packet::Subscribe(_, topics) && topics@.len() == 1
            && topics@[0].topic_path@ == topic_path@ && topics@[0].qos == QoS::AtLeastOnce,
{
    let pid = assign_pid(sender);
    let packet = Packet::Subscribe(
        pid,
        vec![SubscribeTopic { topic_path, qos: QoS::AtLeastOnce }],
    );
    assert(packet@->Subscribe_1 =~= seq![(topic_path@, QoS::AtLeastOnce)]);
    packet
}

/// Something that happens while a confirmation is waited for.
#[derive(Debug)]
pub enum WaitEvent {
    /// Messages were missed.
    Lagged,
    Message(ControlMessage),
    /// The time to wait is over.
    Timeout,
}

/// Such an event as plain values.
pub enum WaitEventView {
    Lagged,
    Message(ControlView),
    Timeout,
}

impl View for WaitEvent {
    type V = WaitEventView;

    open spec fn view(&self) -> WaitEventView {
        match *self {
            WaitEvent::Lagged => WaitEventView::Lagged,
            WaitEvent::Message(message) => WaitEventView::Message(message@),
            WaitEvent::Timeout => WaitEventView::Timeout,
        }
    }
}

/// How waiting for the confirmation of `expected` ends with an event, if it does.
pub open spec fn wait_result(event: WaitEventView, expected: u16) -> Option<Result<(), Error>> {
    match event {
        WaitEventView::Message(ControlView::Published(pid)) => if pid == expected {
            Some(Ok(()))
        } else {
            None
        },
        WaitEventView::Timeout => Some(Err(Error::TimedOut)),
        _ => None,
    }
}

/// How waiting for the confirmation of `expected_pid` ends with an event, or `None` if it goes
/// on.
pub fn wait_for_publish(event: &WaitEvent, expected_pid: Pid) -> (end: Option<Result<(), Error>>)
    ensures
        end == wait_result(event@, expected_pid.value()),
        match *event {
            WaitEvent::Message(ControlMessage::Published(pid)) => end == if pid.value()
                == expected_pid.value() {
                Some(Ok::<(), Error>(()))
            } else {
                None
            },
            WaitEvent::Message(_) => end is None,
            WaitEvent::Lagged => end is None,
            WaitEvent::Timeout => end == Some(Err::<(), Error>(Error::TimedOut)),
        },
{
    match event {
        WaitEvent::Message(ControlMessage::Published(published_pid)) => {
            if published_pid.get() == expected_pid.get() {
                Some(Ok(()))
            } else {
                None
            }
        },
        WaitEvent::Timeout => Some(Err(Error::TimedOut)),
        _ => None,
    }
}

/// How waiting ends where these events come one after the other.
pub open spec fn waited(events: Seq<WaitEventView>, expected: u16) -> Option<Result<(), Error>>
    decreases events.len(),
{
    if events.len() == 0 {
        None
    } else {
        match wait_result(events[0], expected) {
            Some(end) => Some(end),
            None => waited(events.drop_first(), expected),
        }
    }
}

/// A wait succeeds exactly if its confirmation comes before the time is over.
pub proof fn law_wait_succeeds_with_its_confirmation(events: Seq<WaitEventView>, expected: u16)
    ensures
        waited(events, expected) == Some(Ok::<(), Error>(())) <==> exists|i: int|
            0 <= i < events.len() && #[trigger] events[i] == WaitEventView::Message(
                ControlView::Published(expected),
            ) && forall|j: int| 0 <= j < i ==> !(#[trigger] events[j] is Timeout),
    decreases events.len(),
{
    if events.len() > 0 {
        let rest = events.drop_first();
        law_wait_succeeds_with_its_confirmation(rest, expected);
        let confirmed = WaitEventView::Message(ControlView::Published(expected));
        if waited(events, expected) == Some(Ok::<(), Error>(())) {
            if events[0] != confirmed {
                let i = choose|i: int|
                    0 <= i < rest.len() && #[trigger] rest[i] == confirmed && forall|j: int|
                        0 <= j < i ==> !(#[trigger] rest[j] is Timeout);
                assert(events[i + 1] == confirmed);
                assert forall|j: int| 0 <= j < i + 1 implies !(#[trigger] events[j] is Timeout) by {
                    if j > 0 {
                        assert(events[j] == rest[j - 1]);
                    }
                }
            }
        }
        if exists|i: int|
            0 <= i < events.len() && #[trigger] events[i] == confirmed && forall|j: int|
                0 <= j < i ==> !(#[trigger] events[j] is Timeout) {
            let i = choose|i: int|
                0 <= i < events.len() && #[trigger] events[i] == confirmed && forall|j: int|
                    0 <= j < i ==> !(#[trigger] events[j] is Timeout);
            if events[0] != confirmed {
                assert(rest[i - 1] == confirmed);
                assert forall|j: int| 0 <= j < i - 1 implies !(#[trigger] rest[j] is Timeout) by {
                    assert(rest[j] == events[j + 1]);
                }
            }
        }
    }
}

/// What publishing a message does next.
#[derive(Debug)]
pub enum PublishAction<'a> {
    /// Get a place to listen for confirmations, and keep it until the end.
    Listen,
    /// Send the packet of this publication.
    Send(Publication<'a>),
    /// Wait for the confirmation of what this identifier names, for so many milliseconds from
    /// when it is first waited for.
    Wait(Pid, u64),
    /// Publishing ends in this way.
    Done(Result<(), Error>),
}

/// Such an action as plain values.
pub enum PublishActionView {
    Listen,
    Send(PublicationView),
    Wait(u16, u64),
    Done(Result<(), Error>),
}

impl View for PublishAction<'_> {
    type V = PublishActionView;

    open spec fn view(&self) -> PublishActionView {
        match *self {
            PublishAction::Listen => PublishActionView::Listen,
            PublishAction::Send(publication) => PublishActionView::Send(publication@),
            PublishAction::Wait(pid, millis) => PublishActionView::Wait(pid.value(), millis),
            PublishAction::Done(result) => PublishActionView::Done(result),
        }
    }
}

/// How what publishing a message did ended.
#[derive(Debug)]
pub enum PublishEvent {
    /// Nothing was done yet.
    Started,
    /// There is a place to listen for confirmations.
    Listening,
    /// How sending ended, and the identifier that has to be confirmed, if any.
    Sent(Result<(), Error>, Option<Pid>),
    /// Something happened while the confirmation of what this identifier names was waited for.
    Waited(WaitEvent, Pid),
}

/// What publishing does once the packet is sent: a packet that could not be sent is not waited
/// for, nor is one that nobody confirms.
pub open spec fn sent_action(
    sent: Result<(), Error>,
    expected: Option<u16>,
    millis: u64,
) -> PublishActionView {
    match (sent, expected) {
        (Err(e), _) => PublishActionView::Done(Err(e)),
        (Ok(()), None) => PublishActionView::Done(Ok(())),
        (Ok(()), Some(pid)) => PublishActionView::Wait(pid, millis),
    }
}

/// What publishing does when something happens while it waits for a confirmation.
pub open spec fn waited_action(
    event: WaitEventView,
    expected: u16,
    millis: u64,
) -> PublishActionView {
    match wait_result(event, expected) {
        Some(end) => PublishActionView::Done(end),
        None => PublishActionView::Wait(expected, millis),
    }
}

/// What publishing does once the packet is sent: a packet that could not be sent is not waited
/// for, nor is one that nobody confirms. Any other is waited for `millis` milliseconds.
pub fn after_send<'a>(
    sent: Result<(), Error>,
    expected_pid: Option<Pid>,
    millis: u64,
) -> (action: PublishAction<'a>)
    ensures
        action@ == sent_action(sent, pid_number(expected_pid), millis),
        match (sent, expected_pid) {
            (Err(e), _) => action == PublishAction::<'a>::Done(Err(e)),
            (Ok(()), None) => action == PublishAction::<'a>::Done(Ok(())),
            (Ok(()), Some(pid)) => action == PublishAction::<'a>::Wait(pid, millis),
        },
{
    match sent {
        Err(e) => PublishAction::Done(Err(e)),
        Ok(()) => match expected_pid {
            Some(pid) => PublishAction::Wait(pid, millis),
            None => PublishAction::Done(Ok(())),
        },
    }
}

/// What publishing `payload` on `topic_name` does next when what it did has ended. It listens
/// before it sends, so that no confirmation comes too early.
pub fn next_publish<'a>(
    sender: &mut McutieSender,
    topic_name: &'a str,
    payload: &'a [u8],
    qos: QoS,
    retain: bool,
    event: PublishEvent,
) -> (action: PublishAction<'a>)
    requires
        old(sender)@.inv(),
    ensures
        final(sender)@.inv(),
        final(sender)@ == if event is Listening {
            publishing(old(sender)@, qos)
        } else {
            old(sender)@
        },
        action@ == match event {
            PublishEvent::Started => PublishActionView::Listen,
            PublishEvent::Listening => PublishActionView::Send(
                publication_of(topic_name@, payload@, qos, retain, final(sender)@.count),
            ),
            PublishEvent::Sent(sent, expected_pid) => sent_action(
                sent,
                pid_number(expected_pid),
                old(sender)@.confirmation_timeout,
            ),
            PublishEvent::Waited(event, pid) => waited_action(
                event@,
                pid.value(),
                old(sender)@.confirmation_timeout,
            ),
        },
{
    match event {
        PublishEvent::Started => PublishAction::Listen,
        PublishEvent::Listening => PublishAction::Send(
            publish(sender, topic_name, payload, qos, retain),
        ),
        PublishEvent::Sent(sent, expected_pid) => after_send(
            sent,
            expected_pid,
            sender.confirmation_timeout(),
        ),
        PublishEvent::Waited(event, pid) => match wait_for_publish(&event, pid) {
            Some(end) => PublishAction::Done(end),
            None => PublishAction::Wait(pid, sender.confirmation_timeout()),
        },
    }
}

/// How publishing ends that does `action` and then meets these events, one after the other; or
/// `None` while it goes on.
pub open spec fn publish_end(
    action: PublishActionView,
    events: Seq<WaitEventView>,
) -> Option<Result<(), Error>>
    decreases events.len(),
{
    match action {
        PublishActionView::Done(end) => Some(end),
        PublishActionView::Wait(pid, millis) => if events.len() == 0 {
            None
        } else {
            publish_end(waited_action(events[0], pid, millis), events.drop_first())
        },
        _ => None,
    }
}

/// Publishing that waits ends as the wait does.
proof fn lemma_publishing_ends_with_the_wait(
    expected: u16,
    millis: u64,
    events: Seq<WaitEventView>,
)
    ensures
        publish_end(PublishActionView::Wait(expected, millis), events) == waited(events, expected),
    decreases events.len(),
{
    if events.len() > 0 {
        lemma_publishing_ends_with_the_wait(expected, millis, events.drop_first());
        if let Some(end) = wait_result(events[0], expected) {
            assert(publish_end(PublishActionView::Done(end), events.drop_first()) == Some(end));
        }
    }
}

/// Publishing succeeds exactly if the packet was sent and, where the delivery is acknowledged, its
/// confirmation comes before the time is over. Where the packet could not be sent, publishing
/// ends at once, with the error that sending it gave.
pub proof fn law_publishing_succeeds_with_its_confirmation(
    sent: Result<(), Error>,
    expected: Option<u16>,
    millis: u64,
    events: Seq<WaitEventView>,
)
    ensures
        publish_end(sent_action(sent, expected, millis), events) == Some(Ok::<(), Error>(())) <==> {
            &&& sent is Ok
            &&& expected matches Some(pid) ==> exists|i: int|
                0 <= i < events.len() && #[trigger] events[i] == WaitEventView::Message(
                    ControlView::Published(pid),
                ) && forall|j: int| 0 <= j < i ==> !(#[trigger] events[j] is Timeout)
        },
        sent is Err ==> publish_end(sent_action(sent, expected, millis), events) == Some(sent),
{
    if let Some(pid) = expected {
        lemma_publishing_ends_with_the_wait(pid, millis, events);
        law_wait_succeeds_with_its_confirmation(events, pid);
    }
}

/// The broker's acknowledgement of a publication ends the wait for it: the acknowledgement is
/// passed on to those that wait, and it is the confirmation that the publication waits for.
pub proof fn law_acknowledgement_confirms_the_publication(pid: u16, subscriptions: nat)
    ensures
        response(IncomingView::Puback(pid), subscriptions)->Ok_0[0] == ActionView::Notify(
            ControlView::Published(pid),
        ),
        response(IncomingView::Pubrec(pid), subscriptions)->Ok_0[0] == ActionView::Notify(
            ControlView::Published(pid),
        ),
        wait_result(WaitEventView::Message(ControlView::Published(pid)), pid) == Some(
            Ok::<(), Error>(()),
        ),
{
}

/// What a sender's next identifier is after `calls` more identifiers were given out.
pub open spec fn count_after(count: u16, calls: nat) -> u16
    decreases calls,
{
    if calls == 0 {
        count
    } else {
        pid_plus(count_after(count, (calls - 1) as nat), 1)
    }
}

/// Identifiers go round in a circle.
proof fn lemma_count_goes_round(count: u16, calls: nat)
    requires
        count != 0,
    ensures
        count_after(count, calls) == (count - 1 + calls) % 65535 + 1,
    decreases calls,
{
    if calls > 0 {
        lemma_count_goes_round(count, (calls - 1) as nat);
    }
}

/// No identifier is 0, and of 65535 identifiers given out one after the other no two are the
/// same; this holds of those that `assign_pid` gives out and of those that publications get.
pub proof fn law_identifiers_are_distinct(count: u16, i: nat, j: nat)
    requires
        count != 0,
        i < j < i + 65535,
    ensures
        count_after(count, i) != 0,
        count_after(count, i) != count_after(count, j),
        pid_plus(1, count_after(count, i)) != 0,
        pid_plus(1, count_after(count, i)) != pid_plus(1, count_after(count, j)),
{
    lemma_count_goes_round(count, i);
    lemma_count_goes_round(count, j);
}

/// A publication is a publish packet with the topic, the payload and the retain flag that were
/// given, sent for the first time. Where its delivery is acknowledged, the identifier that has to
/// be confirmed is the one in the packet, which is not 0; else there is none.
pub proof fn law_publication_says_what_was_given(
    topic_name: Seq<char>,
    payload: Seq<u8>,
    qos: QoS,
    retain: bool,
    count: u16,
)
    ensures
        ({
            let publication = publication_of(topic_name, payload, qos, retain, count);
            let p = publication.packet->Publish_0;
            &&& publication.packet is Publish
            &&& p.topic_name == topic_name
            &&& p.payload == payload
            &&& p.retain == retain
            &&& !p.dup
            &&& match (qos, publication.expected_pid) {
                (QoS::AtMostOnce, None) => p.qospid == QosPidView::AtMostOnce,
                (QoS::AtLeastOnce, Some(pid)) => pid != 0 && p.qospid == QosPidView::AtLeastOnce(
                    pid,
                ),
                (QoS::ExactlyOnce, Some(pid)) => pid != 0 && p.qospid == QosPidView::ExactlyOnce(
                    pid,
                ),
                _ => false,
            }
        }),
{
}

/// A client that receives the bytes of a publication is handed the topic and the payload that
/// were given, unless one of them is too large for it.
pub proof fn law_publication_arrives_as_it_was_given(
    topic_name: Seq<char>,
    payload: Seq<u8>,
    qos: QoS,
    retain: bool,
    count: u16,
    subscriptions: nat,
)
    requires
        encode_utf8(topic_name).len() <= 256,
        payload.len() <= 2048,
    ensures
        ({
            let packet = publication_of(topic_name, payload, qos, retain, count).packet;
            let received = IncomingView::Publish(packet->Publish_0);
            &&& carries(layout(packet), received)
            &&& response(received, subscriptions)->Ok_0[0] == ActionView::Deliver(
                MessageView::Publish(topic_name, payload),
            )
        }),
{
    law_publication_says_what_was_given(topic_name, payload, qos, retain, count);
    let packet = publication_of(topic_name, payload, qos, retain, count).packet;
    law_messages_are_carried(packet->Publish_0);
}

/// A publication whose delivery is not acknowledged takes no identifier. Any other takes one, and
/// the next such publication takes the one after it, whatever came between them that took none.
pub proof fn law_publications_take_identifiers_in_turn(
    sender: SenderView,
    first: QoS,
    second: QoS,
    topic_name: Seq<char>,
    payload: Seq<u8>,
    retain: bool,
)
    requires
        sender.count != 0,
        first != QoS::AtMostOnce,
        second != QoS::AtMostOnce,
    ensures
        publishing(sender, QoS::AtMostOnce) == sender,
        publishing(sender, first).pipe == sender.pipe,
        publishing(sender, first).confirmation_timeout == sender.confirmation_timeout,
        ({
            let once = publishing(sender, first);
            let twice = publishing(once, second);
            let a = publication_of(topic_name, payload, first, retain, once.count).expected_pid->0;
            let b = publication_of(topic_name, payload, second, retain, twice.count).expected_pid->0;
            b == a % 65535 + 1
        }),
{
}

/// A wait goes on exactly until its confirmation comes or the time is over, whatever else comes;
/// and it fails in no way but by the time.
pub proof fn law_wait_ends_only_with_its_confirmation_or_in_time(
    events: Seq<WaitEventView>,
    expected: u16,
)
    ensures
        waited(events, expected) is None <==> forall|i: int|
            0 <= i < events.len() ==> !(#[trigger] events[i] is Timeout) && events[i]
                != WaitEventView::Message(ControlView::Published(expected)),
        waited(events, expected) matches Some(Err(e)) ==> e == Error::TimedOut,
    decreases events.len(),
{
    if events.len() > 0 {
        let rest = events.drop_first();
        law_wait_ends_only_with_its_confirmation_or_in_time(rest, expected);
        let confirmed = WaitEventView::Message(ControlView::Published(expected));
        if events[0] is Timeout || events[0] == confirmed {
            assert(waited(events, expected) is Some);
        } else {
            assert(waited(events, expected) == waited(rest, expected));
            if waited(rest, expected) is None {
                assert forall|i: int| 0 <= i < events.len() implies !(#[trigger] events[i] is Timeout)
                    && events[i] != confirmed by {
                    if i > 0 {
                        assert(events[i] == rest[i - 1]);
                    }
                }
            } else {
                let i = choose|i: int|
                    0 <= i < rest.len() && (#[trigger] rest[i] is Timeout || rest[i] == confirmed);
                assert(events[i + 1] == rest[i]);
            }
        }
    }
}

/// A packet that could not be sent is not waited for, and its error is the end. A packet that was
/// sent is waited for where it has to be confirmed, for the time that is set, and is the end where
/// not. While the wait goes on, it is for the same confirmation and the same time.
pub proof fn law_publishing_waits_for_what_it_sent(
    e: Error,
    expected: Option<u16>,
    pid: u16,
    millis: u64,
    event: WaitEventView,
)
    ensures
        sent_action(Err(e), expected, millis) == PublishActionView::Done(Err(e)),
        sent_action(Ok(()), None, millis) == PublishActionView::Done(Ok(())),
        sent_action(Ok(()), Some(pid), millis) == PublishActionView::Wait(pid, millis),
        match waited(seq![event], pid) {
            Some(end) => waited_action(event, pid, millis) == PublishActionView::Done(end),
            None => waited_action(event, pid, millis) == PublishActionView::Wait(pid, millis),
        },
{
    let events = seq![event];
    assert(events.drop_first().len() == 0);
    assert(waited(events.drop_first(), pid) is None);
}

/// As plain values what publishing meets and does says what it says otherwise.
pub proof fn law_publishing_keeps_its_values(
    message: ControlMessage,
    publication: Publication<'_>,
    pid: Pid,
    millis: u64,
    result: Result<(), Error>,
)
    ensures
        WaitEvent::Lagged@ == WaitEventView::Lagged,
        WaitEvent::Timeout@ == WaitEventView::Timeout,
        WaitEvent::Message(message)@ == WaitEventView::Message(message@),
        publication@.packet == publication.packet@,
        publication.expected_pid matches Some(expected) ==> publication@.expected_pid == Some(
            expected.value(),
        ),
        publication.expected_pid is None ==> publication@.expected_pid is None,
        PublishAction::<'_>::Listen@ == PublishActionView::Listen,
        PublishAction::Send(publication)@ == PublishActionView::Send(publication@),
        PublishAction::<'_>::Wait(pid, millis)@ == PublishActionView::Wait(pid.value(), millis),
        PublishAction::<'_>::Done(result)@ == PublishActionView::Done(result),
{
}

} // verus!
