use vstd::prelude::*;
use crate::channel::{ChannelView, CommandChannel, TryRecv, lemma_fifo, send_all};
use crate::command::{Command, CommandView};

verus! {

/// Acts on one command at a time.
///
/// `handled` is the sequence of commands an implementation has been given,
/// oldest first, and `outcomes` the results it gave for them; each call of
/// `handle` appends its command to the one and its result to the other. A
/// verified implementation defines both, since the empty defaults cannot meet
/// `handle`'s contract.
pub trait CommandHandler {
    type Error;

    open spec fn handled(&self) -> Seq<CommandView> {
        Seq::empty()
    }

    open spec fn outcomes(&self) -> Seq<Result<(), Self::Error>> {
        Seq::empty()
    }

    fn handle(&mut self, command: Command) -> (r: Result<(), Self::Error>)
        ensures
            final(self).handled() == old(self).handled().push(command@),
            final(self).outcomes() == old(self).outcomes().push(r),
    ;
}

/// `n` successful results in a row.
pub open spec fn all_ok<E>(n: nat) -> Seq<Result<(), E>> {
    Seq::new(n, |i: int| Ok(()))
}

/// What the command loop has just learned.
pub enum LoopEvent<E> {
    /// The channel handed out a command.
    Received(Command),
    /// The channel is closed and drained.
    Closed,
    /// The handler finished with a command.
    Handled(Result<(), E>),
}

/// What the command loop does next.
pub enum LoopAction<E> {
    /// Give this command to the handler and wait for it to finish.
    Handle(Command),
    /// Wait for the next command or for the channel to close.
    Receive,
    /// Stop, with this result.
    Finish(Result<(), E>),
}

/// The decisions of the command loop: hand each received command to the
/// handler, go on after a success, stop with the handler's first error, and
/// end successfully when the channel is closed and empty.
pub fn loop_step<E>(event: LoopEvent<E>) -> (r: LoopAction<E>)
    ensures
        match event {
            LoopEvent::Received(c) => r == LoopAction::<E>::Handle(c),
            LoopEvent::Closed => r == LoopAction::<E>::Finish(Ok(())),
            LoopEvent::Handled(Ok(())) => r == LoopAction::<E>::Receive,
            LoopEvent::Handled(Err(e)) => r == LoopAction::<E>::Finish(Err(e)),
        },
{
    match event {
        LoopEvent::Received(c) => LoopAction::Handle(c),
        LoopEvent::Closed => LoopAction::Finish(Ok(())),
        LoopEvent::Handled(Ok(())) => LoopAction::Receive,
        LoopEvent::Handled(Err(e)) => LoopAction::Finish(Err(e)),
    }
}

/// How a run of the command loop over a channel ended without a handler error.
#[derive(Debug, PartialEq, Eq)]
pub enum LoopEnd {
    /// The sending side is gone and every buffered command was handled.
    Closed,
    /// Every buffered command was handled and the sending side is still
    /// there: a waiting loop would sleep until the next command.
    Idle,
}

/// Whether the loop handled the first `k` commands of `v`'s queue, starting
/// from a handler that had handled `before`, leaving the rest buffered.
pub open spec fn handled_prefix(
    v: ChannelView,
    before: Seq<CommandView>,
    after: Seq<CommandView>,
    w: ChannelView,
    k: int,
) -> bool {
    &&& 0 <= k <= v.queue.len()
    &&& after == before + v.queue.take(k)
    &&& w == ChannelView { queue: v.queue.skip(k), ..v }
}

/// What the handler sees is what the source sent: after a sequence of sends
/// into an empty, open channel with room for all of them, a loop run that
/// ends without error has handed the handler exactly that sequence, in order,
/// and nothing else.
pub proof fn lemma_handler_sees_sent(
    v: ChannelView,
    cs: Seq<CommandView>,
    before: Seq<CommandView>,
    after: Seq<CommandView>,
    w: ChannelView,
)
    requires
        v.receiver_open,
        v.queue.len() == 0,
        cs.len() <= v.capacity,
        handled_prefix(send_all(v, cs), before, after, w, send_all(v, cs).queue.len() as int),
    ensures
        after == before + cs,
        w.queue.len() == 0,
{
    lemma_fifo(v, cs);
    assert(v.queue + cs =~= cs);
    assert(cs.take(cs.len() as int) =~= cs);
}

/// Takes commands from `channel` oldest first and gives each to `handler`,
/// one at a time. It stops at the handler's first error, which it returns
/// unchanged, and leaves every later command in the channel untouched;
/// otherwise every buffered command was handled successfully and it returns
/// when the buffer is empty, with `Closed` once the sending side is gone.
pub fn run_command_loop<H: CommandHandler>(channel: &mut CommandChannel, handler: &mut H) -> (r:
    Result<LoopEnd, H::Error>)
    requires
        old(channel).wf(),
        old(channel)@.receiver_open,
    ensures
        final(channel).wf(),
        r is Ok ==> handled_prefix(
            old(channel)@,
            old(handler).handled(),
            final(handler).handled(),
            final(channel)@,
            old(channel)@.queue.len() as int,
        ),
        r is Ok ==> final(handler).outcomes() == old(handler).outcomes() + all_ok::<H::Error>(
            old(channel)@.queue.len(),
        ),
        r == Ok::<LoopEnd, H::Error>(LoopEnd::Closed) <==> (r is Ok && !old(channel)@.sender_open),
        r == Ok::<LoopEnd, H::Error>(LoopEnd::Idle) <==> (r is Ok && old(channel)@.sender_open),
        match r {
            Err(e) => exists|k: int|
                1 <= k <= old(channel)@.queue.len() && handled_prefix(
                    old(channel)@,
                    old(handler).handled(),
                    final(handler).handled(),
                    final(channel)@,
                    k,
                ) && final(handler).outcomes() == old(handler).outcomes() + all_ok::<H::Error>(
                    (k - 1) as nat,
                ).push(Err(e)),
            Ok(_) => true,
        },
        old(channel)@.queue.len() == 0 && !old(channel)@.sender_open ==> r == Ok::<
            LoopEnd,
            H::Error,
        >(LoopEnd::Closed),
{
    let ghost v = channel@;
    let ghost before = handler.handled();
    let ghost bo = handler.outcomes();
    let ghost mut k: int = 0;
    assert(before + v.queue.take(0) =~= before);
    assert(v.queue.skip(0) =~= v.queue);
    assert(bo + all_ok::<H::Error>(0) =~= bo);
    loop
        invariant
            channel.wf(),
            v == old(channel)@,
            before == old(handler).handled(),
            bo == old(handler).outcomes(),
            handler.outcomes() == bo + all_ok::<H::Error>(k as nat),
            v.receiver_open,
            channel@.receiver_open,
            handled_prefix(v, before, handler.handled(), channel@, k),
        decreases channel@.queue.len(),
    {
        match channel.try_recv() {
            TryRecv::Received(c) => {
                proof {
                    assert(before + v.queue.take(k + 1) =~= (before + v.queue.take(k)).push(
                        c@,
                    ));
                    assert(v.queue.skip(k + 1) =~= v.queue.skip(k).drop_first());
                    k = k + 1;
                }
                let ghost prev = handler.outcomes();
                assert(prev == bo + all_ok::<H::Error>((k - 1) as nat));
                let res = handler.handle(c);
                match res {
                    Ok(()) => {
                        assert(res->Ok_0 == ());
                        assert(res == Ok::<(), H::Error>(()));
                        assert(handler.outcomes() == prev.push(Ok(())));
                        assert(prev.push(Ok(())) =~= bo + all_ok::<H::Error>(k as nat));
                    },
                    Err(e) => {
                        assert(handled_prefix(v, before, handler.handled(), channel@, k));
                        assert(handler.outcomes() =~= bo + all_ok::<H::Error>((k - 1) as nat).push(
                            Err(e),
                        ));
                        return Err(e);
                    },
                }
            },
            TryRecv::Empty => {
                assert(v.queue.skip(k).len() == 0);
                return Ok(LoopEnd::Idle);
            },
            TryRecv::Closed => {
                assert(v.queue.skip(k).len() == 0);
                return Ok(LoopEnd::Closed);
            },
        }
    }
}

} // verus!
