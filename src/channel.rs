use vstd::prelude::*;
use std::collections::VecDeque;
use crate::command::{Command, CommandView};

verus! {

/// A bounded, ordered queue of commands between one producing and one
/// consuming side, for callers that drive both sides from one thread.
///
/// It has the ordering, capacity and closing rules of the pipeline's channel:
/// the asynchronous program uses tokio's bounded `mpsc` channel, whose two
/// handles share their buffer between tasks, and this type is the
/// single-owner statement of the same rules, on which `run_command_loop` and
/// the laws below are proved.
pub struct CommandChannel {
    buffer: VecDeque<Command>,
    capacity: usize,
    sender_open: bool,
    receiver_open: bool,
}

/// The mathematical value of a channel.
pub struct ChannelView {
    pub queue: Seq<CommandView>,
    pub capacity: nat,
    pub sender_open: bool,
    pub receiver_open: bool,
}

/// Why a command could not be enqueued; the command is handed back.
#[derive(Debug)]
pub enum TrySendError {
    /// The channel holds as many commands as it can; wait and try again.
    Full(Command),
    /// The receiving side is gone; no command will be taken any more.
    Closed(Command),
}

/// What an attempt to take the next command found.
#[derive(Debug)]
pub enum TryRecv {
    /// The oldest command in the channel.
    Received(Command),
    /// Nothing is buffered yet, and the sending side is still there.
    Empty,
    /// Nothing is buffered, and the sending side is gone.
    Closed,
}

pub open spec fn seq_view(s: Seq<Command>) -> Seq<CommandView> {
    s.map_values(|c: Command| c@)
}

/// Whether a send into a channel in state `v` is refused because it is full.
pub open spec fn is_full(v: ChannelView) -> bool {
    v.queue.len() >= v.capacity
}

/// The channel after a send of `c`.
pub open spec fn after_send(v: ChannelView, c: CommandView) -> ChannelView {
    if v.receiver_open && !is_full(v) {
        ChannelView { queue: v.queue.push(c), ..v }
    } else {
        v
    }
}

/// The channel after an attempt to receive.
pub open spec fn after_recv(v: ChannelView) -> ChannelView {
    if v.queue.len() > 0 {
        ChannelView { queue: v.queue.drop_first(), ..v }
    } else {
        v
    }
}

/// Sends every command of `cs`, in order.
pub open spec fn send_all(v: ChannelView, cs: Seq<CommandView>) -> ChannelView
    decreases cs.len(),
{
    if cs.len() == 0 {
        v
    } else {
        send_all(after_send(v, cs[0]), cs.drop_first())
    }
}

/// The commands that `n` receives from state `v` hand out, in order.
pub open spec fn recv_n(v: ChannelView, n: nat) -> Seq<CommandView>
    decreases n,
{
    if n == 0 || v.queue.len() == 0 {
        Seq::empty()
    } else {
        seq![v.queue[0]] + recv_n(after_recv(v), (n - 1) as nat)
    }
}

proof fn lemma_send_all_queue(v: ChannelView, cs: Seq<CommandView>)
    requires
        v.receiver_open,
        v.queue.len() + cs.len() <= v.capacity,
    ensures
        send_all(v, cs).queue == v.queue + cs,
        send_all(v, cs).receiver_open,
    decreases cs.len(),
{
    if cs.len() > 0 {
        let w = after_send(v, cs[0]);
        lemma_send_all_queue(w, cs.drop_first());
        assert(w.queue + cs.drop_first() =~= v.queue + cs);
    } else {
        assert(v.queue + cs =~= v.queue);
    }
}

proof fn lemma_recv_n_queue(v: ChannelView)
    ensures
        recv_n(v, v.queue.len()) == v.queue,
    decreases v.queue.len(),
{
    if v.queue.len() > 0 {
        let w = after_recv(v);
        lemma_recv_n_queue(w);
        assert(seq![v.queue[0]] + w.queue =~= v.queue);
    } else {
        assert(v.queue =~= Seq::<CommandView>::empty());
    }
}

/// Commands come out of the channel in the order they went in, none lost and
/// none repeated: sending a sequence into an open channel with room for it,
/// then receiving as many times, hands out exactly what is buffered followed
/// by that sequence.
pub proof fn lemma_fifo(v: ChannelView, cs: Seq<CommandView>)
    requires
        v.receiver_open,
        v.queue.len() + cs.len() <= v.capacity,
    ensures
        send_all(v, cs).queue == v.queue + cs,
        recv_n(send_all(v, cs), v.queue.len() + cs.len()) == v.queue + cs,
        v.queue.len() == 0 ==> recv_n(send_all(v, cs), cs.len()) == cs,
{
    lemma_send_all_queue(v, cs);
    lemma_recv_n_queue(send_all(v, cs));
    if v.queue.len() == 0 {
        assert(v.queue + cs =~= cs);
    }
}

/// A send into a full channel changes nothing, so the command it hands back is
/// neither dropped nor reordered; once a receive has made room, the same send
/// puts it at the back, behind everything that was already waiting.
pub proof fn lemma_backpressure(v: ChannelView, c: CommandView)
    requires
        v.receiver_open,
        v.capacity > 0,
        v.queue.len() == v.capacity,
    ensures
        is_full(v),
        after_send(v, c) == v,
        after_send(after_recv(v), c).queue == v.queue.drop_first().push(c),
        recv_n(after_send(after_recv(v), c), v.capacity) == v.queue.drop_first().push(c),
{
    lemma_recv_n_queue(after_send(after_recv(v), c));
}

impl View for CommandChannel {
    type V = ChannelView;

    closed spec fn view(&self) -> ChannelView {
        ChannelView {
            queue: seq_view(self.buffer@),
            capacity: self.capacity as nat,
            sender_open: self.sender_open,
            receiver_open: self.receiver_open,
        }
    }
}

impl CommandChannel {
    /// The channel's invariant: a positive capacity that the buffer never exceeds.
    pub closed spec fn wf(&self) -> bool {
        self.capacity > 0 && self.buffer@.len() <= self.capacity
    }

    /// A new, empty, open channel with room for `capacity` commands.
    pub fn new(capacity: usize) -> (r: CommandChannel)
        requires
            capacity > 0,
        ensures
            r.wf(),
            r@.queue == Seq::<CommandView>::empty(),
            r@.capacity == capacity,
            r@.sender_open,
            r@.receiver_open,
    {
        let r = CommandChannel {
            buffer: VecDeque::new(),
            capacity,
            sender_open: true,
            receiver_open: true,
        };
        assert(r@.queue =~= Seq::<CommandView>::empty());
        r
    }

    /// How many commands are buffered.
    pub fn len(&self) -> (r: usize)
        requires
            self.wf(),
        ensures
            r == self@.queue.len(),
    {
        self.buffer.len()
    }

    /// The number of commands the channel can hold.
    pub fn capacity(&self) -> (r: usize)
        ensures
            r == self@.capacity,
    {
        self.capacity
    }

    /// Enqueues `command` at the back, or hands it back unchanged when the
    /// channel is full or its receiving side is gone. Only a live sending side
    /// sends.
    pub fn try_send(&mut self, command: Command) -> (r: Result<(), TrySendError>)
        requires
            old(self).wf(),
            old(self)@.sender_open,
        ensures
            final(self).wf(),
            final(self)@ == after_send(old(self)@, command@),
            !old(self)@.receiver_open ==> r == Err::<(), TrySendError>(TrySendError::Closed(command)),
            old(self)@.receiver_open && is_full(old(self)@) ==> r == Err::<(), TrySendError>(
                TrySendError::Full(command),
            ),
            old(self)@.receiver_open && !is_full(old(self)@) ==> r is Ok,
    {
        if !self.receiver_open {
            return Err(TrySendError::Closed(command));
        }
        if self.buffer.len() >= self.capacity {
            return Err(TrySendError::Full(command));
        }
        let ghost c = command@;
        self.buffer.push_back(command);
        assert(self@.queue =~= old(self)@.queue.push(c));
        Ok(())
    }

    /// Takes the oldest buffered command, if there is one. Only a live
    /// receiving side receives.
    pub fn try_recv(&mut self) -> (r: TryRecv)
        requires
            old(self).wf(),
            old(self)@.receiver_open,
        ensures
            final(self).wf(),
            final(self)@ == after_recv(old(self)@),
            old(self)@.queue.len() > 0 ==> (match r {
                TryRecv::Received(c) => c@ == old(self)@.queue[0],
                _ => false,
            }),
            old(self)@.queue.len() == 0 && old(self)@.sender_open ==> r is Empty,
            old(self)@.queue.len() == 0 && !old(self)@.sender_open ==> r is Closed,
    {
        match self.buffer.pop_front() {
            Some(c) => {
                assert(self@.queue =~= old(self)@.queue.drop_first());
                TryRecv::Received(c)
            },
            None => {
                if self.sender_open {
                    TryRecv::Empty
                } else {
                    TryRecv::Closed
                }
            },
        }
    }

    /// Drops the sending side: once the buffer is drained, receivers see the end.
    pub fn close_sender(&mut self)
        requires
            old(self).wf(),
        ensures
            final(self).wf(),
            final(self)@ == (ChannelView { sender_open: false, ..old(self)@ }),
    {
        self.sender_open = false;
    }

    /// Drops the receiving side: later sends are refused.
    pub fn close_receiver(&mut self)
        requires
            old(self).wf(),
        ensures
            final(self).wf(),
            final(self)@ == (ChannelView { receiver_open: false, ..old(self)@ }),
    {
        self.receiver_open = false;
    }
}

} // verus!
