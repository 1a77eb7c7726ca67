//! A pipe between the tasks that produce packets and the task that writes them to the broker.
use vstd::prelude::*;

verus! {

/// Something that can be reused.
pub trait Clean {
    /// Nothing of an earlier use is left.
    spec fn is_clean(&self) -> bool;

    fn clean(&mut self)
        ensures
            final(self).is_clean(),
    ;
}

/// Who has the data of a pipe.
#[derive(Debug, Clone, Copy, PartialEq, Eq, Structural)]
pub enum State {
    /// A writer is filling the data in.
    ReadStart,
    /// The data waits for a receiver.
    ReadEnd,
    /// A receiver is using the data.
    WriteStart,
    /// The data waits for a writer.
    WriteEnd,
}

/// Which side of a pipe has something to do again.
#[derive(Debug, Clone, Copy, PartialEq, Eq, Structural)]
pub enum Wake {
    Sender,
    Receiver,
}

/// A pipe that knows whether a receiver is connected. If so pushing to the
/// queue waits until there is space in the queue, otherwise data is simply
/// dropped.
#[derive(Debug)]
pub struct ConnectedPipe<T: Clean> {
    connect_count: usize,
    pending: T,
    state: State,
}

/// A connected receiver.
#[derive(Debug)]
pub struct ConnectReader(());

/// A receiver's turn at the data.
#[derive(Debug)]
pub struct PipeReader(());

/// A writer's turn at the data.
#[derive(Debug)]
pub struct PipeWriter {
    commit: bool,
}

/// A pipe as plain values.
pub struct PipeView<T> {
    /// How many receivers are connected.
    pub connect_count: nat,
    pub pending: T,
    pub state: State,
}

impl<T> PipeView<T> {
    /// While no receiver is connected, no data waits for one and none is in use.
    pub open spec fn inv(self) -> bool {
        self.connect_count == 0 ==> self.state == State::WriteEnd || self.state == State::ReadStart
    }

    /// A writer can have its turn.
    pub open spec fn can_write(self) -> bool {
        self.state == State::WriteEnd
    }

    /// A receiver can have its turn.
    pub open spec fn can_receive(self) -> bool {
        self.state == State::ReadEnd
    }

    /// One more receiver is connected.
    pub open spec fn connected(self) -> Self {
        PipeView { connect_count: self.connect_count + 1, ..self }
    }

    /// One receiver less is connected; with the last one the data is free again.
    pub open spec fn disconnected(self) -> Self {
        PipeView {
            connect_count: (self.connect_count - 1) as nat,
            state: if self.connect_count == 1 {
                State::WriteEnd
            } else {
                self.state
            },
            ..self
        }
    }

    /// A receiver has its turn.
    pub open spec fn received(self) -> Self {
        PipeView { state: State::WriteStart, ..self }
    }

    /// The receiver's turn is over.
    pub open spec fn released(self) -> Self {
        PipeView { state: State::WriteEnd, ..self }
    }

    /// The writer's turn is over. What it committed waits for a receiver, if one is connected;
    /// anything else is dropped.
    pub open spec fn finished(self, commit: bool) -> Self {
        PipeView {
            state: if commit && self.connect_count > 0 {
                State::ReadEnd
            } else {
                State::WriteEnd
            },
            ..self
        }
    }
}

impl<T: Clean> PipeView<T> {
    /// A writer has got its turn, with clean data, and the pipe is `next`.
    pub open spec fn granted(self, next: Self) -> bool {
        &&& self.can_write()
        &&& next.connect_count == self.connect_count
        &&& next.state == State::ReadStart
        &&& next.pending.is_clean()
    }
}

impl<T: Clean> View for ConnectedPipe<T> {
    type V = PipeView<T>;

    closed spec fn view(&self) -> PipeView<T> {
        PipeView {
            connect_count: self.connect_count as nat,
            pending: self.pending,
            state: self.state,
        }
    }
}

impl<T: Clean> ConnectedPipe<T> {
    /// A pipe without receivers that waits for a writer.
    pub fn new(data: T) -> (pipe: Self)
        ensures
            pipe@ == (PipeView { connect_count: 0, pending: data, state: State::WriteEnd }),
            pipe@.inv(),
    {
        ConnectedPipe { connect_count: 0, pending: data, state: State::WriteEnd }
    }

    /// Connects a receiver.
    pub fn reader(&mut self) -> (reader: ConnectReader)
        requires
            old(self)@.connect_count < usize::MAX,
            old(self)@.inv(),
        ensures
            final(self)@ == old(self)@.connected(),
            final(self)@.inv(),
    {
        self.connect_count = self.connect_count + 1;
        ConnectReader(())
    }

    /// Gives a writer its turn, or `None` if it has to wait until the sender side is woken.
    pub fn writer(&mut self) -> (writer: Option<PipeWriter>)
        requires
            old(self)@.inv(),
        ensures
            final(self)@.inv(),
            writer is Some <==> old(self)@.can_write(),
            match writer {
                Some(w) => old(self)@.granted(final(self)@) && w.commits(),
                None => *final(self) == *old(self),
            },
    {
        match self.state {
            State::WriteEnd => {
                self.state = State::ReadStart;
                self.pending.clean();
                Some(PipeWriter { commit: true })
            },
            _ => None,
        }
    }
}

impl ConnectReader {
    /// Gives the receiver its turn, or `None` if it has to wait until the receiver side is woken.
    pub fn receive<T: Clean>(&self, pipe: &mut ConnectedPipe<T>) -> (turn: Option<PipeReader>)
        requires
            old(pipe)@.inv(),
        ensures
            final(pipe)@.inv(),
            turn is Some <==> old(pipe)@.can_receive(),
            final(pipe)@ == if turn is Some {
                old(pipe)@.received()
            } else {
                old(pipe)@
            },
    {
        match pipe.state {
            State::ReadEnd => {
                pipe.state = State::WriteStart;
                Some(PipeReader(()))
            },
            _ => None,
        }
    }

    /// Disconnects the receiver, after which the sender side is woken.
    pub fn disconnect<T: Clean>(self, pipe: &mut ConnectedPipe<T>) -> (wake: Wake)
        requires
            old(pipe)@.inv(),
            old(pipe)@.connect_count > 0,
        ensures
            final(pipe)@ == old(pipe)@.disconnected(),
            final(pipe)@.inv(),
            wake == Wake::Sender,
    {
        pipe.connect_count = pipe.connect_count - 1;
        if pipe.connect_count == 0 {
            pipe.state = State::WriteEnd;
        }
        Wake::Sender
    }
}

impl PipeReader {
    /// The data.
    pub fn read<'a, T: Clean>(&self, pipe: &'a ConnectedPipe<T>) -> (data: &'a T)
        ensures
            *data == pipe@.pending,
    {
        &pipe.pending
    }

    /// Ends the turn, after which the sender side is woken.
    pub fn finish<T: Clean>(self, pipe: &mut ConnectedPipe<T>) -> (wake: Wake)
        ensures
            final(pipe)@ == old(pipe)@.released(),
            final(pipe)@.inv(),
            wake == Wake::Sender,
    {
        pipe.state = State::WriteEnd;
        Wake::Sender
    }
}

impl PipeWriter {
    /// The data is committed when the turn ends.
    pub closed spec fn commits(self) -> bool {
        self.commit
    }

    /// The data, to be filled in.
    pub fn write<'a, T: Clean>(&self, pipe: &'a mut ConnectedPipe<T>) -> (data: &'a mut T)
        ensures
            *data == old(pipe)@.pending,
            final(pipe)@ == (PipeView { pending: *final(data), ..old(pipe)@ }),
    {
        &mut pipe.pending
    }

    /// Has the data dropped when the turn ends.
    pub fn rollback(&mut self)
        ensures
            !final(self).commits(),
    {
        self.commit = false;
    }

    /// Has the data committed when the turn ends.
    pub fn commit(&mut self)
        ensures
            final(self).commits(),
    {
        self.commit = true;
    }

    /// Ends the turn, after which the side that has something to do is woken.
    pub fn finish<T: Clean>(self, pipe: &mut ConnectedPipe<T>) -> (wake: Wake)
        ensures
            final(pipe)@ == old(pipe)@.finished(self.commits()),
            final(pipe)@.inv(),
            wake == if final(pipe)@.can_receive() {
                Wake::Receiver
            } else {
                Wake::Sender
            },
    {
        if self.commit && pipe.connect_count > 0 {
            pipe.state = State::ReadEnd;
            Wake::Receiver
        } else {
            pipe.state = State::WriteEnd;
            Wake::Sender
        }
    }
}

/// What is committed while a receiver is connected is what the next turn of a receiver finds.
pub proof fn law_committed_data_is_received<T>(pipe: PipeView<T>)
    requires
        pipe.connect_count > 0,
    ensures
        pipe.finished(true).can_receive(),
        pipe.finished(true).received().pending == pipe.pending,
{
}

/// While a receiver is connected, committed data keeps writers waiting until the receiver that
/// got it has ended its turn.
pub proof fn law_writers_wait_for_the_receiver<T>(pipe: PipeView<T>)
    requires
        pipe.connect_count > 0,
    ensures
        !pipe.finished(true).can_write(),
        !pipe.finished(true).received().can_write(),
        pipe.finished(true).received().released().can_write(),
{
}

/// Without a receiver nothing waits: whatever a writer does, the next writer can have its turn,
/// and a receiver that connects then finds nothing.
pub proof fn law_data_is_dropped_without_receiver<T>(pipe: PipeView<T>, commit: bool)
    requires
        pipe.connect_count == 0,
    ensures
        pipe.finished(commit).can_write(),
        !pipe.finished(commit).connected().can_receive(),
{
}

/// What is rolled back is not received, and the next writer can have its turn.
pub proof fn law_rolled_back_data_is_dropped<T>(pipe: PipeView<T>)
    ensures
        pipe.finished(false).can_write(),
        !pipe.finished(false).can_receive(),
{
}

/// When the last receiver leaves, what it has not received is dropped, and writers need not wait.
pub proof fn law_last_receiver_frees_the_pipe<T>(pipe: PipeView<T>)
    requires
        pipe.connect_count == 1,
    ensures
        pipe.disconnected().can_write(),
        !pipe.disconnected().connected().can_receive(),
{
}

/// One use of a pipe.
pub enum PipeStep<T> {
    /// A receiver connects.
    Connect,
    /// A receiver that is not the last one disconnects.
    Disconnect,
    /// A writer gets its turn.
    Write,
    /// The writer fills in the data.
    Fill(T),
    /// The writer ends its turn.
    FinishWrite(bool),
    /// A receiver gets its turn.
    Receive,
    /// The receiver ends its turn.
    FinishRead,
}

/// The use `step` takes a pipe from `from` to `to`.
pub open spec fn takes<T: Clean>(step: PipeStep<T>, from: PipeView<T>, to: PipeView<T>) -> bool {
    match step {
        PipeStep::Connect => to == from.connected(),
        PipeStep::Disconnect => from.connect_count > 1 && to == from.disconnected(),
        PipeStep::Write => from.granted(to),
        PipeStep::Fill(data) => from.state == State::ReadStart && to == (PipeView {
            pending: data,
            ..from
        }),
        PipeStep::FinishWrite(commit) => from.state == State::ReadStart && to == from.finished(
            commit,
        ),
        PipeStep::Receive => from.can_receive() && to == from.received(),
        PipeStep::FinishRead => from.state == State::WriteStart && to == from.released(),
    }
}

/// `steps` takes a pipe through the states `pipes`, one after the other.
pub open spec fn runs<T: Clean>(pipes: Seq<PipeView<T>>, steps: Seq<PipeStep<T>>) -> bool {
    &&& pipes.len() == steps.len() + 1
    &&& forall|i: int|
        #![trigger steps[i]]
        0 <= i < steps.len() ==> takes(steps[i], pipes[i], pipes[i + 1])
}

/// What writers committed, in order.
pub open spec fn committed<T>(pipes: Seq<PipeView<T>>, steps: Seq<PipeStep<T>>) -> Seq<T>
    decreases steps.len(),
{
    if steps.len() == 0 {
        seq![]
    } else {
        let before = committed(pipes.drop_last(), steps.drop_last());
        if steps.last() == PipeStep::<T>::FinishWrite(true) {
            before.push(pipes[steps.len() - 1].pending)
        } else {
            before
        }
    }
}

/// What receivers got, in order.
pub open spec fn delivered<T>(pipes: Seq<PipeView<T>>, steps: Seq<PipeStep<T>>) -> Seq<T>
    decreases steps.len(),
{
    if steps.len() == 0 {
        seq![]
    } else {
        let before = delivered(pipes.drop_last(), steps.drop_last());
        if steps.last() is Receive {
            before.push(pipes[steps.len() - 1].pending)
        } else {
            before
        }
    }
}

/// While a receiver stays connected, receivers get everything that writers commit, each once and
/// in order: all of it, but for the last while that still waits.
pub proof fn law_everything_committed_is_delivered_in_order<T: Clean>(
    pipes: Seq<PipeView<T>>,
    steps: Seq<PipeStep<T>>,
)
    requires
        runs(pipes, steps),
        pipes[0].connect_count > 0,
        pipes[0].can_write(),
    ensures
        pipes.last().connect_count > 0,
        committed(pipes, steps) == if pipes.last().can_receive() {
            delivered(pipes, steps).push(pipes.last().pending)
        } else {
            delivered(pipes, steps)
        },
    decreases steps.len(),
{
    if steps.len() > 0 {
        let (p, s) = (pipes.drop_last(), steps.drop_last());
        assert forall|i: int|
            #![trigger s[i]]
            0 <= i < s.len() implies takes(s[i], p[i], p[i + 1]) by {
            assert(s[i] == steps[i]);
        }
        law_everything_committed_is_delivered_in_order(p, s);
        assert(takes(steps[steps.len() - 1], p.last(), pipes.last()));
    }
}

/// At any time the data waits for a writer, or for a receiver, or one of them has it: no two of
/// these are so at once, and who has had its turn frees the data for nobody before it ends it.
pub proof fn law_one_side_at_a_time<T: Clean>(pipe: PipeView<T>, next: PipeView<T>)
    ensures
        pipe.can_write() <==> pipe.state == State::WriteEnd,
        pipe.can_receive() <==> pipe.state == State::ReadEnd,
        !(pipe.can_write() && pipe.can_receive()),
        !pipe.received().can_write() && !pipe.received().can_receive(),
        pipe.released().can_write() && !pipe.released().can_receive(),
        pipe.granted(next) ==> pipe.can_write() && !next.can_write() && !next.can_receive(),
        pipe.granted(next) ==> next.pending.is_clean(),
{
}

/// Receivers are counted one by one as they connect and disconnect. None of that touches the data
/// or takes it from who has it, unless the last one leaves.
pub proof fn law_receivers_are_counted<T>(pipe: PipeView<T>)
    ensures
        pipe.connected().connect_count == pipe.connect_count + 1,
        pipe.connected().state == pipe.state,
        pipe.connected().pending == pipe.pending,
        pipe.connected().disconnected().connect_count == pipe.connect_count,
        pipe.connect_count > 0 ==> pipe.connected().disconnected() == pipe,
        pipe.connect_count > 0 ==> pipe.disconnected().connect_count == pipe.connect_count - 1,
        pipe.connect_count > 1 ==> pipe.disconnected().state == pipe.state,
        pipe.disconnected().pending == pipe.pending,
{
}

/// Turns change neither the number of receivers nor, by ending, the data.
pub proof fn law_turns_keep_data_and_receivers<T: Clean>(
    pipe: PipeView<T>,
    next: PipeView<T>,
    commit: bool,
)
    ensures
        pipe.granted(next) ==> next.connect_count == pipe.connect_count,
        pipe.received().connect_count == pipe.connect_count,
        pipe.received().pending == pipe.pending,
        pipe.released().connect_count == pipe.connect_count,
        pipe.released().pending == pipe.pending,
        pipe.finished(commit).connect_count == pipe.connect_count,
        pipe.finished(commit).pending == pipe.pending,
        pipe.finished(commit).can_receive() <==> commit && pipe.connect_count > 0,
        pipe.finished(commit).can_write() <==> !(commit && pipe.connect_count > 0),
{
}

/// While no receiver is connected, data neither waits for one nor is in one's hands.
pub proof fn law_no_data_is_held_without_receiver<T>(pipe: PipeView<T>)
    ensures
        pipe.inv() <==> pipe.connect_count > 0 || !(pipe.state == State::ReadEnd || pipe.state
            == State::WriteStart),
{
}

} // verus!
