//! Taking packets out of the byte stream that the broker sends, and what each asks for.
use vstd::prelude::*;
use vstd::slice::slice_subrange;
use vstd::utf8::encode_utf8;
use crate::buffer::{Payload, PAYLOAD_LENGTH};
use crate::codec::{decode, law_laid_out_packet_is_readable, parsed};
use crate::frame::{frame_size, law_size_does_not_depend_on_what_follows, packet_size};
use crate::packet::{
    carries, layout, publish_fits, Incoming, IncomingView, Packet, PacketView, PublishView, QosPid,
    QosPidView, SubscribeReturnCodes, TOPIC_LENGTH,
};
use crate::topic::{topic_text, Topic, TopicString};
use crate::{ControlMessage, ControlView, Error, MessageView, MqttMessage};

verus! {

/// The number of received bytes that can wait for the rest of their packet.
pub const RECEIVE_LENGTH: usize = 4096;

/// Something that a received packet asks for.
#[derive(Debug)]
pub enum Action {
    /// Subscribe to the configured topic with this index. Failure is ignored.
    Subscribe(usize),
    /// Hand a message to the user.
    Deliver(MqttMessage),
    /// Tell those that wait for confirmations.
    Notify(ControlMessage),
    /// Send a packet. Failure ends the connection.
    Send(Packet<'static>),
}

/// Such a thing as plain values.
pub enum ActionView {
    Subscribe(nat),
    Deliver(MessageView),
    Notify(ControlView),
    Send(PacketView),
}

impl View for Action {
    type V = ActionView;

    open spec fn view(&self) -> ActionView {
        match *self {
            Action::Subscribe(index) => ActionView::Subscribe(index as nat),
            Action::Deliver(message) => ActionView::Deliver(message@),
            Action::Notify(message) => ActionView::Notify(message@),
            Action::Send(packet) => ActionView::Send(packet@),
        }
    }
}

/// Actions as plain values, in order.
pub open spec fn views(actions: Seq<Action>) -> Seq<ActionView> {
    actions.map_values(|a: Action| a@)
}

/// A message is handed to the user unless its topic or its payload is too large.
pub open spec fn delivery(p: PublishView) -> Seq<ActionView> {
    if encode_utf8(p.topic_name).len() <= TOPIC_LENGTH && p.payload.len() <= PAYLOAD_LENGTH {
        seq![ActionView::Deliver(MessageView::Publish(p.topic_name, p.payload))]
    } else {
        seq![]
    }
}

/// The acknowledgement that the delivery of a message asks for.
pub open spec fn acknowledgement(qospid: QosPidView) -> Seq<ActionView> {
    match qospid {
        QosPidView::AtMostOnce => seq![],
        QosPidView::AtLeastOnce(pid) => seq![ActionView::Send(PacketView::Puback(pid))],
        QosPidView::ExactlyOnce(pid) => seq![ActionView::Send(PacketView::Pubrec(pid))],
    }
}

/// What a packet asks for, in order, where `subscriptions` topics are configured; or the error
/// that ends the connection.
pub open spec fn response(p: IncomingView, subscriptions: nat) -> Result<Seq<ActionView>, Error> {
    match p {
        IncomingView::Connack(code) => if code == 0 {
            Ok(
                Seq::new(subscriptions, |i: int| ActionView::Subscribe(i as nat)).push(
                    ActionView::Deliver(MessageView::Connected),
                ),
            )
        } else {
            Err(Error::IOError)
        },
        IncomingView::Publish(publish) => Ok(delivery(publish) + acknowledgement(publish.qospid)),
        IncomingView::Puback(pid) => Ok(seq![ActionView::Notify(ControlView::Published(pid))]),
        IncomingView::Pubrec(pid) => Ok(
            seq![
                ActionView::Notify(ControlView::Published(pid)),
                ActionView::Send(PacketView::Pubrel(pid)),
            ],
        ),
        IncomingView::Pubrel(pid) => Ok(seq![ActionView::Send(PacketView::Pubrel(pid))]),
        IncomingView::Suback(pid, codes) => if codes.len() > 0 {
            Ok(seq![ActionView::Notify(ControlView::Subscribed(pid, codes[0]))])
        } else {
            Ok(seq![])
        },
        IncomingView::Unsuback(pid) => Ok(seq![ActionView::Notify(ControlView::Unsubscribed(pid))]),
        IncomingView::Pubcomp(_) => Ok(seq![]),
        IncomingView::Pingresp => Ok(seq![]),
        IncomingView::Unexpected => Ok(seq![]),
    }
}

/// Whether a message is meant for the library itself: none is.
fn ha_handle_update(_topic: &Topic<TopicString>, _payload: &Payload) -> (handled: bool)
    ensures
        !handled,
{
    false
}

/// What a packet asks for, in order, where `subscriptions` topics are configured.
pub fn respond(packet: &Incoming<'_>, subscriptions: usize) -> (r: Result<Vec<Action>, Error>)
    ensures
        match r {
            Ok(actions) => response(packet@, subscriptions as nat) == Ok::<_, Error>(
                views(actions@),
            ),
            Err(e) => response(packet@, subscriptions as nat) == Err::<Seq<ActionView>, _>(e),
        },
        *packet matches Incoming::Connack(code) ==> if code == 0 {
            &&& r is Ok
            &&& r->Ok_0@.len() == subscriptions + 1
            &&& forall|i: int|
                0 <= i < subscriptions ==> #[trigger] r->Ok_0@[i] == Action::Subscribe(i as usize)
            &&& r->Ok_0@.last() == Action::Deliver(MqttMessage::Connected)
        } else {
            r is Err && r->Err_0 == Error::IOError
        },
        !(*packet is Connack) ==> r is Ok,
        *packet matches Incoming::Publish(p) ==> {
            let actions = r->Ok_0@;
            let small = encode_utf8(p.topic_name@).len() <= TOPIC_LENGTH && p.payload@.len()
                <= PAYLOAD_LENGTH;
            let first = if small {
                1int
            } else {
                0
            };
            &&& small ==> {
                &&& actions[0] matches Action::Deliver(MqttMessage::Publish(topic, payload))
                &&& topic_text(topic.path) == p.topic_name@
                &&& payload@ == p.payload@
            }
            &&& match p.qospid {
                QosPid::AtMostOnce => actions.len() == first,
                QosPid::AtLeastOnce(pid) => {
                    &&& actions.len() == first + 1
                    &&& actions[first] matches Action::Send(Packet::Puback(id))
                    &&& id.value() == pid.value()
                },
                QosPid::ExactlyOnce(pid) => {
                    &&& actions.len() == first + 1
                    &&& actions[first] matches Action::Send(Packet::Pubrec(id))
                    &&& id.value() == pid.value()
                },
            }
        },
        *packet matches Incoming::Puback(pid) ==> {
            &&& r->Ok_0@.len() == 1
            &&& r->Ok_0@[0] == Action::Notify(ControlMessage::Published(pid))
        },
        *packet matches Incoming::Pubrec(pid) ==> {
            &&& r->Ok_0@.len() == 2
            &&& r->Ok_0@[0] == Action::Notify(ControlMessage::Published(pid))
            &&& r->Ok_0@[1] matches Action::Send(Packet::Pubrel(id))
            &&& id.value() == pid.value()
        },
        *packet matches Incoming::Pubrel(pid) ==> {
            &&& r->Ok_0@.len() == 1
            &&& r->Ok_0@[0] matches Action::Send(Packet::Pubrel(id))
            &&& id.value() == pid.value()
        },
        *packet matches Incoming::Suback(pid, codes) ==> if codes@.len() == 0 {
            r->Ok_0@.len() == 0
        } else {
            &&& r->Ok_0@.len() == 1
            &&& r->Ok_0@[0] == Action::Notify(ControlMessage::Subscribed(pid, codes@[0]))
        },
        *packet matches Incoming::Unsuback(pid) ==> {
            &&& r->Ok_0@.len() == 1
            &&& r->Ok_0@[0] == Action::Notify(ControlMessage::Unsubscribed(pid))
        },
        *packet is Pubcomp || *packet is Pingresp || *packet is Unexpected ==> r->Ok_0@.len() == 0,
{
    let mut actions: Vec<Action> = Vec::new();
    match packet {
        Incoming::Connack(code) => {
            if *code != 0 {
                return Err(Error::IOError);
            }
            let mut index: usize = 0;
            while index < subscriptions
                invariant
                    index <= subscriptions,
                    views(actions@) == Seq::new(
                        index as nat,
                        |i: int| ActionView::Subscribe(i as nat),
                    ),
                    actions@.len() == index,
                    forall|i: int|
                        0 <= i < index ==> #[trigger] actions@[i] == Action::Subscribe(i as usize),
                decreases subscriptions - index,
            {
                let ghost before = actions@;
                actions.push(Action::Subscribe(index));
                assert(views(actions@) =~= views(before).push(ActionView::Subscribe(index as nat)));
                index = index + 1;
            }
            let ghost before = actions@;
            actions.push(Action::Deliver(MqttMessage::Connected));
            assert(views(actions@) =~= views(before).push(
                ActionView::Deliver(MessageView::Connected),
            ));
        },
        Incoming::Publish(publish) => {
            match (Topic::from_str(publish.topic_name), Payload::from(publish.payload)) {
                (Ok(topic), Ok(payload)) => {
                    if !ha_handle_update(&topic, &payload) {
                        actions.push(Action::Deliver(MqttMessage::Publish(topic, payload)));
                    }
                },
                _ => {},
            }
            assert(views(actions@) =~= delivery(publish@));
            let ghost before = actions@;
            match publish.qospid {
                QosPid::AtMostOnce => {},
                QosPid::AtLeastOnce(pid) => {
                    actions.push(Action::Send(Packet::Puback(pid)));
                },
                QosPid::ExactlyOnce(pid) => {
                    actions.push(Action::Send(Packet::Pubrec(pid)));
                },
            }
            assert(views(actions@) =~= views(before) + acknowledgement(publish@.qospid));
        },
        Incoming::Puback(pid) => {
            actions.push(Action::Notify(ControlMessage::Published(*pid)));
        },
        Incoming::Pubrec(pid) => {
            actions.push(Action::Notify(ControlMessage::Published(*pid)));
            actions.push(Action::Send(Packet::Pubrel(*pid)));
        },
        Incoming::Pubrel(pid) => {
            actions.push(Action::Send(Packet::Pubrel(*pid)));
        },
        Incoming::Pubcomp(_) => {},
        Incoming::Suback(pid, codes) => {
            if codes.len() > 0 {
                actions.push(Action::Notify(ControlMessage::Subscribed(*pid, codes[0])));
            }
        },
        Incoming::Unsuback(pid) => {
            actions.push(Action::Notify(ControlMessage::Unsubscribed(*pid)));
        },
        Incoming::Pingresp => {},
        Incoming::Unexpected => {},
    }
    assert(views(actions@) =~= response(packet@, subscriptions as nat)->Ok_0);
    Ok(actions)
}

/// What became of an action.
#[derive(Debug)]
pub enum Performed {
    /// How the subscription to a configured topic ended.
    Subscribed(Result<(), Error>),
    Delivered,
    Notified,
    /// How sending a packet ended.
    Sent(Result<(), Error>),
}

/// Whether the connection goes on after an action, or the error that ends it: only a packet that
/// could not be sent does.
pub open spec fn outcome(performed: Performed) -> Result<(), Error> {
    match performed {
        Performed::Sent(result) => result,
        _ => Ok(()),
    }
}

/// Whether the connection goes on after an action, or the error that ends it: only a packet that
/// could not be sent does.
pub fn after_action(performed: Performed) -> (r: Result<(), Error>)
    ensures
        r == outcome(performed),
        performed matches Performed::Sent(result) ==> r == result,
        !(performed is Sent) ==> r is Ok,
{
    match performed {
        Performed::Sent(result) => result,
        Performed::Subscribed(_) => Ok(()),
        Performed::Delivered => Ok(()),
        Performed::Notified => Ok(()),
    }
}

/// `performed` can be what became of `action`.
pub open spec fn becomes(action: ActionView, performed: Performed) -> bool {
    match action {
        ActionView::Subscribe(_) => performed is Subscribed,
        ActionView::Deliver(_) => performed is Delivered,
        ActionView::Notify(_) => performed is Notified,
        ActionView::Send(_) => performed is Sent,
    }
}

/// Of the actions that a packet asks for, only a reply can end the connection, and it does so
/// exactly if it could not be sent, with the error that sending it gave.
pub proof fn law_only_a_failed_reply_ends_the_connection(action: ActionView, performed: Performed)
    requires
        becomes(action, performed),
    ensures
        outcome(performed) is Err ==> action is Send,
        action is Send ==> performed == Performed::Sent(outcome(performed)),
{
}

/// What the bytes that were received, and not yet used, start with.
pub enum Front {
    /// A length field that does not end.
    Invalid,
    /// Less than a whole packet.
    Incomplete,
    /// A packet of this size.
    Whole(nat),
}

/// What `pending` starts with.
pub open spec fn front(pending: Seq<u8>) -> Front {
    match frame_size(pending) {
        None => Front::Incomplete,
        Some(n) => if n == 0 {
            Front::Invalid
        } else if n > pending.len() {
            Front::Incomplete
        } else {
            Front::Whole(n)
        },
    }
}

/// What comes next.
#[derive(Debug)]
pub enum Step {
    /// More bytes have to be received.
    Wait,
    /// A packet asks for this, in order.
    Act(Vec<Action>),
    /// The connection ends.
    Fail(Error),
}

/// A step as plain values.
pub enum StepView {
    Wait,
    Act(Seq<ActionView>),
    Fail(Error),
}

impl View for Step {
    type V = StepView;

    open spec fn view(&self) -> StepView {
        match *self {
            Step::Wait => StepView::Wait,
            Step::Act(actions) => StepView::Act(views(actions@)),
            Step::Fail(e) => StepView::Fail(e),
        }
    }
}

/// What the packet that fills `frame` leads to.
pub open spec fn frame_step(frame: Seq<u8>, subscriptions: nat) -> StepView {
    match parsed(frame) {
        Some(p) => match response(p, subscriptions) {
            Ok(actions) => StepView::Act(actions),
            Err(e) => StepView::Fail(e),
        },
        None => StepView::Fail(Error::PacketError),
    }
}

/// What comes next where `pending` was received and not yet used.
pub open spec fn next_step(pending: Seq<u8>, subscriptions: nat) -> StepView {
    match front(pending) {
        Front::Invalid => StepView::Fail(Error::PacketError),
        Front::Incomplete => StepView::Wait,
        Front::Whole(n) => frame_step(pending.take(n as int), subscriptions),
    }
}

/// What is then left of `pending`: a packet that was acted on is used up.
pub open spec fn left_over(pending: Seq<u8>, subscriptions: nat) -> Seq<u8> {
    match (front(pending), next_step(pending, subscriptions)) {
        (Front::Whole(n), StepView::Act(_)) => pending.skip(n as int),
        _ => pending,
    }
}

/// The bytes that were received from the broker and not yet used.
#[derive(Debug)]
pub struct Receiver {
    buffer: Vec<u8>,
    start_pos: usize,
}

impl View for Receiver {
    type V = Seq<u8>;

    closed spec fn view(&self) -> Seq<u8> {
        self.buffer@.skip(self.start_pos as int)
    }
}

impl Receiver {
    /// No more bytes are held than there is space for, and no more are used than are held.
    pub closed spec fn wf(self) -> bool {
        self.start_pos <= self.buffer@.len() <= RECEIVE_LENGTH
    }

    /// How many more bytes can be received now.
    pub closed spec fn free(self) -> nat {
        (RECEIVE_LENGTH - self.buffer@.len()) as nat
    }

    /// Nothing was received yet.
    pub fn new() -> (receiver: Self)
        ensures
            receiver.wf(),
            receiver@ == Seq::<u8>::empty(),
            receiver.free() == RECEIVE_LENGTH,
    {
        let receiver = Receiver { buffer: Vec::new(), start_pos: 0 };
        assert(receiver@ =~= Seq::<u8>::empty());
        receiver
    }

    /// How many more bytes can be received now.
    pub fn room(&self) -> (room: usize)
        requires
            self.wf(),
        ensures
            room == self.free(),
    {
        RECEIVE_LENGTH - self.buffer.len()
    }

    /// Takes what a read from the broker gave. Some result says that the connection ends with it:
    /// nothing to read is how a connection is closed.
    pub fn on_read(&mut self, read: Result<&[u8], ()>) -> (end: Option<Result<(), Error>>)
        requires
            old(self).wf(),
            read matches Ok(bytes) ==> bytes@.len() <= old(self).free(),
        ensures
            final(self).wf(),
            match read {
                Ok(bytes) => {
                    &&& final(self)@ == old(self)@ + bytes@
                    &&& final(self).free() == old(self).free() - bytes@.len()
                    &&& end == if bytes@.len() == 0 {
                        Some(Ok::<(), Error>(()))
                    } else {
                        None
                    }
                },
                Err(_) => {
                    &&& *final(self) == *old(self)
                    &&& end == Some(Err::<(), Error>(Error::IOError))
                },
            },
    {
        match read {
            Ok(bytes) => {
                self.buffer.extend_from_slice(bytes);
                assert(self.buffer@ =~= old(self).buffer@ + bytes@);
                assert(self@ =~= old(self)@ + bytes@);
                if bytes.len() == 0 {
                    Some(Ok(()))
                } else {
                    None
                }
            },
            Err(_) => Some(Err(Error::IOError)),
        }
    }

    /// Uses the next packet that was received whole, where `subscriptions` topics are configured.
    /// A packet of which bytes are missing is waited for. One that is larger than the space for
    /// received bytes leaves no room, and reading nothing then ends the connection.
    pub fn next(&mut self, subscriptions: usize) -> (step: Step)
        requires
            old(self).wf(),
        ensures
            final(self).wf(),
            step@ == next_step(old(self)@, subscriptions as nat),
            final(self)@ == left_over(old(self)@, subscriptions as nat),
            step is Wait ==> final(self).free() == RECEIVE_LENGTH - final(self)@.len(),
            !(step is Wait) ==> final(self).free() == old(self).free(),
            match frame_size(old(self)@) {
                None => step is Wait,
                Some(n) => if n == 0 {
                    step == Step::Fail(Error::PacketError)
                } else if n > old(self)@.len() {
                    step is Wait
                } else {
                    &&& !(step is Wait)
                    &&& step is Act ==> final(self)@ == old(self)@.skip(n as int)
                },
            },
            !(step is Act) ==> final(self)@ == old(self)@,
            forall|n: int, p: IncomingView|
                0 <= n <= old(self)@.len() && #[trigger] carries(old(self)@.take(n), p) && response(
                    p,
                    subscriptions as nat,
                ) is Ok ==> final(self)@ == old(self)@.skip(n),
            forall|n: int, p: IncomingView|
                0 <= n <= old(self)@.len() && #[trigger] carries(old(self)@.take(n), p)
                    ==> step@ == match response(p, subscriptions as nat) {
                    Ok(actions) => StepView::Act(actions),
                    Err(e) => StepView::Fail(e),
                },
    {
        proof {
            assert forall|n: int, p: IncomingView|
                0 <= n <= old(self)@.len() && #[trigger] carries(
                    old(self)@.take(n),
                    p,
                ) implies front(old(self)@) == Front::Whole(n as nat) by {
                let (a, b) = (old(self)@.take(n), old(self)@.skip(n));
                law_laid_out_packet_is_readable(a, p);
                law_size_does_not_depend_on_what_follows(a, b);
                assert(a + b =~= old(self)@);
            }
        }
        let pending: &[u8] = slice_subrange(
            self.buffer.as_slice(),
            self.start_pos,
            self.buffer.len(),
        );
        assert(pending@ =~= self@);
        let packet_length: usize = match packet_size(pending) {
            Some(n) => {
                if n == 0 {
                    return Step::Fail(Error::PacketError);
                }
                n
            },
            None => 0,
        };
        if packet_length == 0 || packet_length > pending.len() {
            // Reclaim the space of what was used.
            let mut rest: Vec<u8> = Vec::new();
            rest.extend_from_slice(pending);
            assert(rest@ =~= self@);
            self.buffer = rest;
            self.start_pos = 0;
            assert(self@ =~= rest@);
            return Step::Wait;
        }
        let frame: &[u8] = slice_subrange(pending, 0, packet_length);
        assert(frame@ =~= old(self)@.take(packet_length as int));
        let packet = match decode(frame) {
            Ok(packet) => packet,
            Err(e) => {
                return Step::Fail(e);
            },
        };
        match respond(&packet, subscriptions) {
            Ok(actions) => {
                self.start_pos = self.start_pos + packet_length;
                assert(self@ =~= old(self)@.skip(packet_length as int));
                Step::Act(actions)
            },
            Err(e) => Step::Fail(e),
        }
    }
}

/// The packets that `pending` holds whole: what each asks for, up to where more bytes are needed
/// or the connection ends.
pub struct Drained {
    pub actions: Seq<Seq<ActionView>>,
    pub end: StepView,
    pub left: Seq<u8>,
}

/// Uses packet after packet of `pending`.
pub open spec fn drained(pending: Seq<u8>, subscriptions: nat) -> Drained
    decreases pending.len(),
{
    let left = left_over(pending, subscriptions);
    match next_step(pending, subscriptions) {
        StepView::Act(actions) => if left.len() < pending.len() {
            let later = drained(left, subscriptions);
            Drained { actions: seq![actions] + later.actions, ..later }
        } else {
            arbitrary()
        },
        end => Drained { actions: seq![], end, left: pending },
    }
}

/// Bytes that follow change nothing of what the bytes before them lead to.
proof fn lemma_step_with_more_bytes(pending: Seq<u8>, more: Seq<u8>, subscriptions: nat)
    requires
        !(front(pending) is Incomplete),
    ensures
        next_step(pending + more, subscriptions) == next_step(pending, subscriptions),
        left_over(pending + more, subscriptions) == left_over(pending, subscriptions) + more,
        next_step(pending, subscriptions) is Act ==> left_over(pending, subscriptions).len()
            < pending.len(),
{
    law_size_does_not_depend_on_what_follows(pending, more);
    if let Front::Whole(n) = front(pending) {
        assert((pending + more).take(n as int) =~= pending.take(n as int));
        assert((pending + more).skip(n as int) =~= pending.skip(n as int) + more);
    }
}

/// How the bytes are cut into reads does not matter. Once all packets in what was read first are
/// used, the bytes read later lead, with what was left over, to what they would have led to had
/// all been read at once; and where the connection ended before, they lead to nothing.
pub proof fn law_cutting_the_stream_does_not_matter(
    first: Seq<u8>,
    later: Seq<u8>,
    subscriptions: nat,
)
    ensures
        ({
            let a = drained(first, subscriptions);
            let b = drained(a.left + later, subscriptions);
            let all = drained(first + later, subscriptions);
            if a.end is Wait {
                all.actions == a.actions + b.actions && all.end == b.end && all.left == b.left
            } else {
                all.actions == a.actions && all.end == a.end
            }
        }),
    decreases first.len(),
{
    let step = next_step(first, subscriptions);
    let a = drained(first, subscriptions);
    if front(first) is Incomplete {
        assert(a.actions + drained(a.left + later, subscriptions).actions =~= drained(
            a.left + later,
            subscriptions,
        ).actions);
    } else {
        lemma_step_with_more_bytes(first, later, subscriptions);
        if step is Act {
            let rest = left_over(first, subscriptions);
            law_cutting_the_stream_does_not_matter(rest, later, subscriptions);
            let (c, d) = (drained(rest, subscriptions), drained(rest + later, subscriptions));
            let b = drained(a.left + later, subscriptions);
            if a.end is Wait {
                assert(drained(first + later, subscriptions).actions =~= a.actions + b.actions);
            }
        }
    }
}

/// A received message is acknowledged as its delivery asks for, last and once, whether or not it
/// could be handed to the user.
pub proof fn law_messages_are_acknowledged(p: PublishView, subscriptions: nat)
    ensures
        response(IncomingView::Publish(p), subscriptions) is Ok,
        ({
            let actions = response(IncomingView::Publish(p), subscriptions)->Ok_0;
            let acks = actions.filter(|a: ActionView| a is Send);
            match p.qospid {
                QosPidView::AtMostOnce => acks == Seq::<ActionView>::empty(),
                QosPidView::AtLeastOnce(pid) => actions.last() == ActionView::Send(
                    PacketView::Puback(pid),
                ) && acks == seq![ActionView::Send(PacketView::Puback(pid))],
                QosPidView::ExactlyOnce(pid) => actions.last() == ActionView::Send(
                    PacketView::Pubrec(pid),
                ) && acks == seq![ActionView::Send(PacketView::Pubrec(pid))],
            }
        }),
{
    let actions = response(IncomingView::Publish(p), subscriptions)->Ok_0;
    reveal_with_fuel(Seq::filter, 3);
    if actions.len() > 0 {
        assert(actions.drop_last().len() < actions.len());
    }
}

/// A message that another client sends is handed to the user with its topic and its payload,
/// unless one of them is too large: its bytes are those of a packet that is received as that
/// message.
pub proof fn law_sent_message_is_handed_out(p: PublishView, subscriptions: nat)
    requires
        publish_fits(p),
        encode_utf8(p.topic_name).len() <= TOPIC_LENGTH,
        p.payload.len() <= PAYLOAD_LENGTH,
    ensures
        carries(layout(PacketView::Publish(p)), IncomingView::Publish(p)),
        response(IncomingView::Publish(p), subscriptions)->Ok_0[0] == ActionView::Deliver(
            MessageView::Publish(p.topic_name, p.payload),
        ),
{
}

/// A connection ends with a packet only if the packet refuses the connection.
pub proof fn law_only_refusal_ends_the_connection(p: IncomingView, subscriptions: nat)
    ensures
        response(p, subscriptions) is Err <==> p is Connack && p->Connack_0 != 0,
        response(p, subscriptions) is Err ==> response(p, subscriptions)->Err_0 == Error::IOError,
{
}

/// An accepted connection asks for a subscription to every configured topic, in order, and then
/// for the user to be told that there is a connection; and for nothing else.
pub proof fn law_accepted_connection_subscribes_to_every_topic(subscriptions: nat)
    ensures
        response(IncomingView::Connack(0), subscriptions) is Ok,
        ({
            let actions = response(IncomingView::Connack(0), subscriptions)->Ok_0;
            &&& actions.len() == subscriptions + 1
            &&& forall|i: nat|
                i < subscriptions ==> #[trigger] actions[i as int] == ActionView::Subscribe(i)
            &&& actions[subscriptions as int] == ActionView::Deliver(MessageView::Connected)
        }),
{
}

/// A received message is handed to the user, whole and before anything else, exactly if its topic
/// takes at most 256 bytes and its payload at most 2048. Besides that there is at most the
/// acknowledgement, which names the identifier of the message.
pub proof fn law_messages_are_handed_out_whole(p: PublishView, subscriptions: nat)
    ensures
        response(IncomingView::Publish(p), subscriptions) is Ok,
        ({
            let actions = response(IncomingView::Publish(p), subscriptions)->Ok_0;
            let small = encode_utf8(p.topic_name).len() <= 256 && p.payload.len() <= 2048;
            let first = if small {
                1int
            } else {
                0
            };
            &&& small ==> actions[0] == ActionView::Deliver(
                MessageView::Publish(p.topic_name, p.payload),
            )
            &&& forall|i: int| first <= i < actions.len() ==> #[trigger] actions[i] is Send
            &&& match p.qospid {
                QosPidView::AtMostOnce => actions.len() == first,
                QosPidView::AtLeastOnce(pid) => actions.len() == first + 1 && actions[first]
                    == ActionView::Send(PacketView::Puback(pid)),
                QosPidView::ExactlyOnce(pid) => actions.len() == first + 1 && actions[first]
                    == ActionView::Send(PacketView::Pubrec(pid)),
            }
        }),
{
}

/// Confirmations are passed on with the identifier that they name and, of a subscription, the
/// first return code. Only the two packets of a delivery that is acknowledged twice are answered.
/// What needs no answer asks for nothing.
pub proof fn law_confirmations_are_passed_on(
    pid: u16,
    codes: Seq<SubscribeReturnCodes>,
    subscriptions: nat,
)
    ensures
        response(IncomingView::Puback(pid), subscriptions) == Ok::<_, Error>(
            seq![ActionView::Notify(ControlView::Published(pid))],
        ),
        response(IncomingView::Pubrec(pid), subscriptions) == Ok::<_, Error>(
            seq![
                ActionView::Notify(ControlView::Published(pid)),
                ActionView::Send(PacketView::Pubrel(pid)),
            ],
        ),
        response(IncomingView::Pubrel(pid), subscriptions) == Ok::<_, Error>(
            seq![ActionView::Send(PacketView::Pubrel(pid))],
        ),
        response(IncomingView::Unsuback(pid), subscriptions) == Ok::<_, Error>(
            seq![ActionView::Notify(ControlView::Unsubscribed(pid))],
        ),
        codes.len() > 0 ==> response(IncomingView::Suback(pid, codes), subscriptions) == Ok::<
            _,
            Error,
        >(seq![ActionView::Notify(ControlView::Subscribed(pid, codes[0]))]),
        codes.len() == 0 ==> response(IncomingView::Suback(pid, codes), subscriptions) == Ok::<
            Seq<ActionView>,
            Error,
        >(seq![]),
        response(IncomingView::Pubcomp(pid), subscriptions) == Ok::<Seq<ActionView>, Error>(seq![]),
        response(IncomingView::Pingresp, subscriptions) == Ok::<Seq<ActionView>, Error>(seq![]),
        response(IncomingView::Unexpected, subscriptions) == Ok::<Seq<ActionView>, Error>(seq![]),
{
}

/// A part of a packet that does not reach to its end is waited for, and kept.
pub proof fn law_part_of_a_packet_is_waited_for(frame: Seq<u8>, length: int, subscriptions: nat)
    requires
        frame_size(frame) == Some(frame.len()),
        0 <= length < frame.len(),
    ensures
        next_step(frame.take(length), subscriptions) is Wait,
        left_over(frame.take(length), subscriptions) == frame.take(length),
{
    let (a, b) = (frame.take(length), frame.skip(length));
    assert(a + b =~= frame);
    if frame_size(a) is Some {
        law_size_does_not_depend_on_what_follows(a, b);
    }
}

/// A packet that was received whole is acted on and used up exactly, whatever follows it: what is
/// left is what follows it. A length field that does not end is an error.
pub proof fn law_packet_is_used_up_exactly(
    frame: Seq<u8>,
    p: IncomingView,
    rest: Seq<u8>,
    subscriptions: nat,
)
    requires
        frame_size(frame) == Some(frame.len()),
        parsed(frame) == Some(p),
    ensures
        match response(p, subscriptions) {
            Ok(actions) => {
                &&& next_step(frame + rest, subscriptions) == StepView::Act(actions)
                &&& left_over(frame + rest, subscriptions) == rest
            },
            Err(e) => next_step(frame + rest, subscriptions) == StepView::Fail(e),
        },
        frame_size(rest) == Some(0nat) ==> next_step(rest, subscriptions) == StepView::Fail(
            Error::PacketError,
        ),
{
    law_size_does_not_depend_on_what_follows(frame, rest);
    let n = frame.len() as int;
    assert((frame + rest).take(n) =~= frame);
    assert((frame + rest).skip(n) =~= rest);
}

/// A whole packet that cannot be decoded ends the connection, whatever follows it.
pub proof fn law_undecodable_packet_ends_the_connection(
    frame: Seq<u8>,
    rest: Seq<u8>,
    subscriptions: nat,
)
    requires
        frame_size(frame) == Some(frame.len()),
        parsed(frame) is None,
    ensures
        next_step(frame + rest, subscriptions) == StepView::Fail(Error::PacketError),
{
    law_size_does_not_depend_on_what_follows(frame, rest);
    assert((frame + rest).take(frame.len() as int) =~= frame);
}

/// Packets that are received one after the other are acted on one after the other: each leads to
/// what it leads to alone, none is missed, and what follows them is left to be acted on as if it
/// came alone. With nothing behind them, nothing is left.
pub proof fn law_packets_are_acted_on_in_turn(
    frames: Seq<Seq<u8>>,
    packets: Seq<IncomingView>,
    rest: Seq<u8>,
    subscriptions: nat,
)
    requires
        frames.len() == packets.len(),
        forall|i: int|
            0 <= i < frames.len() ==> {
                &&& frame_size(#[trigger] frames[i]) == Some(frames[i].len())
                &&& parsed(frames[i]) == Some(packets[i])
                &&& response(packets[i], subscriptions) is Ok
            },
    ensures
        ({
            let all = drained(frames.flatten() + rest, subscriptions);
            let later = drained(rest, subscriptions);
            &&& all.actions.len() == packets.len() + later.actions.len()
            &&& forall|i: int|
                0 <= i < packets.len() ==> Ok::<_, Error>(#[trigger] all.actions[i]) == response(
                    packets[i],
                    subscriptions,
                )
            &&& all.actions.skip(packets.len() as int) == later.actions
            &&& all.end == later.end
            &&& all.left == later.left
        }),
        rest.len() == 0 ==> {
            let all = drained(frames.flatten() + rest, subscriptions);
            all.actions.len() == packets.len() && all.end is Wait && all.left.len() == 0
        },
    decreases frames.len(),
{
    let later = drained(rest, subscriptions);
    if frames.len() == 0 {
        assert(frames.flatten() + rest =~= rest);
        assert(later.actions.skip(0) =~= later.actions);
    } else {
        let (f, p) = (frames.drop_first(), packets.drop_first());
        assert forall|i: int| 0 <= i < f.len() implies {
            &&& frame_size(#[trigger] f[i]) == Some(f[i].len())
            &&& parsed(f[i]) == Some(p[i])
            &&& response(p[i], subscriptions) is Ok
        } by {
            assert(f[i] == frames[i + 1]);
        }
        law_packets_are_acted_on_in_turn(f, p, rest, subscriptions);
        let more = f.flatten() + rest;
        assert(frames.flatten() + rest =~= frames[0] + more);
        law_packet_is_used_up_exactly(frames[0], packets[0], more, subscriptions);
        let all = drained(frames.flatten() + rest, subscriptions);
        let one = response(packets[0], subscriptions)->Ok_0;
        assert(frames[0].len() >= 2);
        assert(all.actions == seq![one] + drained(more, subscriptions).actions);
        assert forall|i: int| 0 <= i < packets.len() implies Ok::<_, Error>(
            #[trigger] all.actions[i],
        ) == response(packets[i], subscriptions) by {
            if i > 0 {
                assert(all.actions[i] == drained(more, subscriptions).actions[i - 1]);
                assert(packets[i] == p[i - 1]);
            }
        }
        assert(all.actions.skip(packets.len() as int) =~= drained(
            more,
            subscriptions,
        ).actions.skip(p.len() as int));
    }
}

/// As plain values a step says what it says otherwise, action by action.
pub proof fn law_steps_keep_their_values(
    actions: Vec<Action>,
    e: Error,
    index: usize,
    message: MqttMessage,
    confirmation: ControlMessage,
    packet: Packet<'static>,
)
    ensures
        Step::Wait@ == StepView::Wait,
        Step::Fail(e)@ == StepView::Fail(e),
        ({
            let view = Step::Act(actions)@;
            &&& view is Act
            &&& view->Act_0.len() == actions@.len()
            &&& forall|i: int|
                0 <= i < actions@.len() ==> #[trigger] view->Act_0[i] == actions@[i]@
        }),
        Action::Subscribe(index)@ == ActionView::Subscribe(index as nat),
        Action::Deliver(message)@ == ActionView::Deliver(message@),
        Action::Notify(confirmation)@ == ActionView::Notify(confirmation@),
        Action::Send(packet)@ == ActionView::Send(packet@),
{
}

} // verus!
