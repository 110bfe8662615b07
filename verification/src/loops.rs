//! What the loops of the bridge do over all their steps.
//!
//! A run is any number of calls of one loop, one after the other: the states of a queue
//! end, the events and the actions of its steps, where each event is the outcome of the
//! action before it.
use crate::bridge::{
    drain_step, fill_step, rx_dequeued, rx_drain_step, rx_irq_step, DrainAction, DrainEvent,
    FillAction, FillEvent, RxDrainAction, RxDrainEvent, RxIrqAction, RxIrqEvent,
};
use crate::queue::{are_ends_of, law_first_in_first_out, QueueConsumer, QueueProducer};
use vstd::prelude::*;

verus! {

/// The bytes that were read, in order.
pub open spec fn bytes_read(events: Seq<FillEvent>) -> Seq<u8>
    decreases events.len(),
{
    if events.len() == 0 {
        Seq::empty()
    } else {
        match events.last() {
            FillEvent::Read(byte) => bytes_read(events.drop_last()).push(byte),
            _ => bytes_read(events.drop_last()),
        }
    }
}

/// Whether an event is the outcome of an action of a loop that fills a queue.
pub open spec fn fill_answers(action: FillAction, event: FillEvent) -> bool {
    match action {
        FillAction::Read => event is Read || event is NothingToRead,
        FillAction::Done => event is Started,
    }
}

/// A run of a loop that fills a queue.
pub open spec fn is_fill_run<const N: usize>(
    ends: Seq<QueueProducer<'_, N>>,
    events: Seq<FillEvent>,
    actions: Seq<FillAction>,
) -> bool {
    &&& events.len() > 0
    &&& ends.len() == events.len() + 1
    &&& actions.len() == events.len()
    &&& forall|i: int|
        0 <= i < events.len() ==> fill_step(ends[i], ends[i + 1], #[trigger] events[i], actions[i])
    &&& forall|i: int|
        1 <= i < events.len() ==> fill_answers(actions[i - 1], #[trigger] events[i])
    &&& events[0] == FillEvent::Started
}

/// A loop that fills a queue puts exactly the bytes that it has read into the queue, in
/// order. It asks for a byte only where there is room for it, and it ends only where there
/// was nothing to read or where the queue is full. The queue never overflows.
pub proof fn law_fill_loop<const N: usize>(
    ends: Seq<QueueProducer<'_, N>>,
    events: Seq<FillEvent>,
    actions: Seq<FillAction>,
)
    requires
        is_fill_run(ends, events, actions),
    ensures
        ends.last().stream() == ends[0].stream(),
        ends.last().enqueued() == ends[0].enqueued() + bytes_read(events),
        ends.last().wf(),
        ends.last().held().len() <= N - 1,
        actions.last() == FillAction::Read ==> ends.last().has_room(),
        actions.last() == FillAction::Done ==> events.last() == FillEvent::NothingToRead
            || ends.last().held().len() == N - 1,
    decreases events.len(),
{
    let last = events.len() - 1;
    let event = events[last];
    assert(fill_step(ends[last], ends[last + 1], events[last], actions[last]));
    if last > 0 {
        law_fill_loop(ends.drop_last(), events.drop_last(), actions.drop_last());
    } else {
        assert(bytes_read(events) =~= Seq::empty()) by {
            reveal_with_fuel(bytes_read, 2);
        }
    }
    assert(ends.last().enqueued() =~= ends[0].enqueued() + bytes_read(events));
}

/// A run that is one call of a loop that fills a queue.
pub open spec fn is_fill_call<const N: usize>(
    ends: Seq<QueueProducer<'_, N>>,
    events: Seq<FillEvent>,
    actions: Seq<FillAction>,
) -> bool {
    &&& is_fill_run(ends, events, actions)
    &&& forall|i: int| 1 <= i < events.len() ==> !(#[trigger] events[i] is Started)
}

/// How many bytes a loop that fills a queue has asked for.
pub open spec fn reads_asked(actions: Seq<FillAction>) -> nat
    decreases actions.len(),
{
    if actions.len() == 0 {
        0
    } else {
        reads_asked(actions.drop_last()) + if actions.last() == FillAction::Read {
            1nat
        } else {
            0nat
        }
    }
}

/// A read that finds nothing ends the loop that fills a queue, whatever the size of the
/// queue and whatever it holds: the queue stays as it is and no byte is asked for.
pub proof fn law_fill_ends_when_nothing_is_left<const N: usize>(
    ends: Seq<QueueProducer<'_, N>>,
    events: Seq<FillEvent>,
    actions: Seq<FillAction>,
)
    requires
        is_fill_run(ends, events, actions),
    ensures
        forall|i: int|
            0 <= i < events.len() && #[trigger] events[i] == FillEvent::NothingToRead
                ==> actions[i] == FillAction::Done && ends[i + 1] == ends[i],
        forall|i: int|
            0 <= i < events.len() && #[trigger] events[i] != FillEvent::NothingToRead
                && ends[i + 1].held().len() < N - 1 ==> actions[i] == FillAction::Read,
{
    assert forall|i: int| 0 <= i < events.len() && #[trigger] events[i] != FillEvent::NothingToRead
        && ends[i + 1].held().len() < N - 1 implies actions[i] == FillAction::Read by {
        assert(fill_step(ends[i], ends[i + 1], events[i], actions[i]));
    }
}

/// A call of a loop that fills a queue asks for at most one byte more than it gets.
pub proof fn law_fill_counts_reads<const N: usize>(
    ends: Seq<QueueProducer<'_, N>>,
    events: Seq<FillEvent>,
    actions: Seq<FillAction>,
)
    requires
        is_fill_call(ends, events, actions),
    ensures
        reads_asked(actions) == bytes_read(events).len() + if actions.last() == FillAction::Read
            || events.last() == FillEvent::NothingToRead {
            1nat
        } else {
            0nat
        },
    decreases events.len(),
{
    let last = events.len() - 1;
    let event = events[last];
    assert(fill_step(ends[last], ends[last + 1], events[last], actions[last]));
    reveal_with_fuel(reads_asked, 2);
    reveal_with_fuel(bytes_read, 2);
    if last > 0 {
        law_fill_counts_reads(ends.drop_last(), events.drop_last(), actions.drop_last());
        let before = events[last - 1];
        assert(fill_step(ends[last - 1], ends[last], events[last - 1], actions[last - 1]));
    }
}

/// Where nobody takes bytes out meanwhile, a loop that fills a queue leaves in it what it
/// held, with the bytes that were read behind.
pub proof fn law_fill_alone<const N: usize>(
    ends: Seq<QueueProducer<'_, N>>,
    events: Seq<FillEvent>,
    actions: Seq<FillAction>,
)
    requires
        is_fill_run(ends, events, actions),
        ends.last().taken() == ends[1].taken(),
    ensures
        ends[1].enqueued() == ends[0].enqueued(),
        ends.last().held() == ends[1].held() + bytes_read(events),
{
    law_fill_loop(ends, events, actions);
    let event = events[0];
    assert(fill_step(ends[0], ends[1], events[0], actions[0]));
    assert(ends.last().held() =~= ends[1].held() + bytes_read(events));
}

/// The bytes that were written, in order: those of the actions that were answered by
/// their acceptance.
pub open spec fn bytes_written(events: Seq<DrainEvent>, actions: Seq<DrainAction>) -> Seq<u8>
    decreases events.len(),
{
    if events.len() < 2 {
        Seq::empty()
    } else {
        let earlier = bytes_written(events.drop_last(), actions.drop_last());
        match (events.last(), actions[events.len() - 2]) {
            (DrainEvent::Accepted, DrainAction::Write(byte)) => earlier.push(byte),
            _ => earlier,
        }
    }
}

/// Whether an event is the outcome of an action of a loop that empties a queue.
pub open spec fn drain_answers(action: DrainAction, event: DrainEvent) -> bool {
    match action {
        DrainAction::Write(_) => event is Accepted || event is Refused,
        DrainAction::Done => event is Started,
    }
}

/// A run of a loop that empties a queue.
pub open spec fn is_drain_run<const N: usize>(
    ends: Seq<QueueConsumer<'_, N>>,
    events: Seq<DrainEvent>,
    actions: Seq<DrainAction>,
) -> bool {
    &&& events.len() > 0
    &&& ends.len() == events.len() + 1
    &&& actions.len() == events.len()
    &&& forall|i: int|
        0 <= i < events.len() ==> drain_step(
            ends[i],
            ends[i + 1],
            #[trigger] events[i],
            actions[i],
        )
    &&& forall|i: int|
        1 <= i < events.len() ==> drain_answers(actions[i - 1], #[trigger] events[i])
    &&& events[0] == DrainEvent::Started
}

/// A loop that empties a queue takes exactly the bytes out of the queue that were
/// written, in order. It ends only where a byte was refused, which stays in front, or
/// where the queue is empty.
pub proof fn law_drain_loop<const N: usize>(
    ends: Seq<QueueConsumer<'_, N>>,
    events: Seq<DrainEvent>,
    actions: Seq<DrainAction>,
)
    requires
        is_drain_run(ends, events, actions),
    ensures
        ends.last().stream() == ends[0].stream(),
        ends.last().dequeued() == ends[0].dequeued() + bytes_written(events, actions),
        ends.last().wf(),
        actions.last() is Write ==> ends.last().front() == Some(actions.last()->Write_0),
        actions.last() == DrainAction::Done ==> if events.last() == DrainEvent::Refused {
            events.len() >= 2 && ends.last().front() == Some(actions[events.len() - 2]->Write_0)
        } else {
            ends.last().front() is None
        },
    decreases events.len(),
{
    let last = events.len() - 1;
    let event = events[last];
    assert(drain_step(ends[last], ends[last + 1], events[last], actions[last]));
    if last > 0 {
        law_drain_loop(ends.drop_last(), events.drop_last(), actions.drop_last());
    }
    assert(ends.last().dequeued() =~= ends[0].dequeued() + bytes_written(events, actions));
}

/// A byte that is refused ends the loop that empties a queue, which stays as it is. A byte
/// that is in front is written as long as none is refused.
pub proof fn law_drain_ends_when_refused<const N: usize>(
    ends: Seq<QueueConsumer<'_, N>>,
    events: Seq<DrainEvent>,
    actions: Seq<DrainAction>,
)
    requires
        is_drain_run(ends, events, actions),
    ensures
        forall|i: int|
            0 <= i < events.len() && #[trigger] events[i] == DrainEvent::Refused ==> actions[i]
                == DrainAction::Done && ends[i + 1] == ends[i],
        forall|i: int|
            0 <= i < events.len() && #[trigger] events[i] != DrainEvent::Refused && ends[i
                + 1].front() is Some ==> actions[i] == DrainAction::Write(ends[i + 1].front()->0),
{
}

/// What comes out of a queue is what went into it: from the moment at which a new queue is
/// split, however often a loop fills it and a loop empties it, and whether at the same
/// time or in turn, the bytes that were written are the bytes that were read, in order, as
/// far as both have come.
pub proof fn law_written_as_read<const N: usize>(
    producers: Seq<QueueProducer<'_, N>>,
    fill_events: Seq<FillEvent>,
    fill_actions: Seq<FillAction>,
    consumers: Seq<QueueConsumer<'_, N>>,
    drain_events: Seq<DrainEvent>,
    drain_actions: Seq<DrainAction>,
)
    requires
        are_ends_of(Seq::empty(), producers[0], consumers[0]),
        is_fill_run(producers, fill_events, fill_actions),
        is_drain_run(consumers, drain_events, drain_actions),
    ensures
        producers.last().enqueued() == bytes_read(fill_events),
        consumers.last().dequeued() == bytes_written(drain_events, drain_actions),
        forall|i: int|
            0 <= i < bytes_read(fill_events).len() && i < bytes_written(
                drain_events,
                drain_actions,
            ).len() ==> bytes_written(drain_events, drain_actions)[i] == bytes_read(
                fill_events,
            )[i],
{
    law_fill_loop(producers, fill_events, fill_actions);
    law_drain_loop(consumers, drain_events, drain_actions);
    law_first_in_first_out(producers.last(), consumers.last());
    assert(producers.last().enqueued() =~= bytes_read(fill_events));
    assert(consumers.last().dequeued() =~= bytes_written(drain_events, drain_actions));
}

/// The bytes that were handed to the USB host, in order.
pub open spec fn bytes_handed(events: Seq<RxDrainEvent>, actions: Seq<RxDrainAction>) -> Seq<u8>
    decreases events.len(),
{
    if events.len() < 2 {
        Seq::empty()
    } else {
        let earlier = bytes_handed(events.drop_last(), actions.drop_last());
        match (events.last(), actions[events.len() - 2]) {
            (RxDrainEvent::Accepted, RxDrainAction::Write(byte)) => earlier.push(byte),
            _ => earlier,
        }
    }
}

/// How many bytes were handed to the USB host since the last call has started.
pub open spec fn handed_in_call(events: Seq<RxDrainEvent>) -> nat
    decreases events.len(),
{
    if events.len() == 0 {
        0
    } else {
        match events.last() {
            RxDrainEvent::Started => 0,
            RxDrainEvent::Accepted => handed_in_call(events.drop_last()) + 1,
            _ => handed_in_call(events.drop_last()),
        }
    }
}

/// Whether an event is the outcome of an action while received bytes are handed out.
pub open spec fn rx_drain_answers(action: RxDrainAction, event: RxDrainEvent) -> bool {
    match action {
        RxDrainAction::Write(_) => event is Accepted || event is Refused,
        RxDrainAction::Flush => event is Flushed,
        RxDrainAction::Finished(_) => event is Started,
    }
}

/// A run of handing out received bytes, with the states of its flag.
pub open spec fn is_rx_drain_run<const N: usize>(
    ends: Seq<QueueConsumer<'_, N>>,
    flags: Seq<bool>,
    events: Seq<RxDrainEvent>,
    actions: Seq<RxDrainAction>,
) -> bool {
    &&& events.len() > 0
    &&& ends.len() == events.len() + 1
    &&& flags.len() == events.len() + 1
    &&& actions.len() == events.len()
    &&& forall|i: int|
        0 <= i < events.len() ==> flags[i + 1] == rx_dequeued(flags[i], #[trigger] events[i])
            && rx_drain_step(ends[i], ends[i + 1], flags[i + 1], events[i], actions[i])
    &&& forall|i: int|
        1 <= i < events.len() ==> rx_drain_answers(actions[i - 1], #[trigger] events[i])
    &&& events[0] == RxDrainEvent::Started
}

/// Handing out received bytes takes exactly the bytes out of the queue that the port has
/// accepted, in order. It flushes the port where a byte was refused, which stays in front,
/// or where the queue is empty, and reports at the end of a call whether a byte was
/// handed out in it.
pub proof fn law_rx_drain_loop<const N: usize>(
    ends: Seq<QueueConsumer<'_, N>>,
    flags: Seq<bool>,
    events: Seq<RxDrainEvent>,
    actions: Seq<RxDrainAction>,
)
    requires
        is_rx_drain_run(ends, flags, events, actions),
    ensures
        ends.last().stream() == ends[0].stream(),
        ends.last().dequeued() == ends[0].dequeued() + bytes_handed(events, actions),
        ends.last().wf(),
        flags.last() <==> handed_in_call(events) > 0,
        actions.last() is Write ==> ends.last().front() == Some(actions.last()->Write_0),
        actions.last() is Flush ==> if events.last() == RxDrainEvent::Refused {
            events.len() >= 2 && ends.last().front() == Some(actions[events.len() - 2]->Write_0)
        } else {
            ends.last().front() is None
        },
        actions.last() is Finished ==> (actions.last()->Finished_0 <==> handed_in_call(events)
            > 0),
    decreases events.len(),
{
    let last = events.len() - 1;
    let event = events[last];
    assert(rx_drain_step(
        ends[last],
        ends[last + 1],
        flags[last + 1],
        events[last],
        actions[last],
    ));
    if last > 0 {
        law_rx_drain_loop(
            ends.drop_last(),
            flags.drop_last(),
            events.drop_last(),
            actions.drop_last(),
        );
    }
    assert(ends.last().dequeued() =~= ends[0].dequeued() + bytes_handed(events, actions));
}

/// A byte that is refused ends handing out in a call, and so does an empty queue: the port
/// is flushed once, and the report follows the flush and nothing else.
pub proof fn law_rx_drain_flushes_before_report<const N: usize>(
    ends: Seq<QueueConsumer<'_, N>>,
    flags: Seq<bool>,
    events: Seq<RxDrainEvent>,
    actions: Seq<RxDrainAction>,
)
    requires
        is_rx_drain_run(ends, flags, events, actions),
    ensures
        forall|i: int|
            0 <= i < events.len() && #[trigger] events[i] == RxDrainEvent::Refused ==> actions[i]
                == RxDrainAction::Flush && ends[i + 1] == ends[i],
        forall|i: int|
            0 <= i < events.len() ==> (#[trigger] events[i] == RxDrainEvent::Flushed
                <==> actions[i] is Finished),
        forall|i: int|
            0 <= i < events.len() && #[trigger] events[i] == RxDrainEvent::Flushed ==> ends[i + 1]
                == ends[i],
        forall|i: int|
            0 <= i < events.len() && (#[trigger] events[i] == RxDrainEvent::Started || events[i]
                == RxDrainEvent::Accepted) ==> actions[i] == match ends[i + 1].front() {
                Some(byte) => RxDrainAction::Write(byte),
                None => RxDrainAction::Flush,
            },
{
    assert forall|i: int| 0 <= i < events.len() implies (#[trigger] events[i]
        == RxDrainEvent::Flushed) == (actions[i] is Finished) by {
        assert(rx_drain_step(ends[i], ends[i + 1], flags[i + 1], events[i], actions[i]));
    }
}

/// The bytes that the receive interrupt has read, in order.
pub open spec fn irq_read(events: Seq<RxIrqEvent>) -> Seq<u8>
    decreases events.len(),
{
    if events.len() == 0 {
        Seq::empty()
    } else {
        match events.last() {
            RxIrqEvent::Read(byte) => irq_read(events.drop_last()).push(byte),
            _ => irq_read(events.drop_last()),
        }
    }
}

/// The bytes that the receive interrupt has signalled, in order.
pub open spec fn irq_signalled(actions: Seq<RxIrqAction>) -> Seq<u8>
    decreases actions.len(),
{
    if actions.len() == 0 {
        Seq::empty()
    } else {
        match actions.last() {
            RxIrqAction::Signal(byte) => irq_signalled(actions.drop_last()).push(byte),
            _ => irq_signalled(actions.drop_last()),
        }
    }
}

/// How often the receive interrupt was disabled.
pub open spec fn irq_disabled(actions: Seq<RxIrqAction>) -> nat
    decreases actions.len(),
{
    if actions.len() == 0 {
        0
    } else {
        irq_disabled(actions.drop_last()) + if actions.last() is Disable {
            1nat
        } else {
            0nat
        }
    }
}

/// Whether an event is the outcome of an action of the receive interrupt.
pub open spec fn irq_answers(action: RxIrqAction, event: RxIrqEvent) -> bool {
    match action {
        RxIrqAction::Read => event is Read || event is NothingToRead,
        RxIrqAction::Signal(byte) => event == RxIrqEvent::Signalled(byte),
        RxIrqAction::Disable => event is Disabled,
        RxIrqAction::Done => event is Entered,
    }
}

/// A run of the receive interrupt.
pub open spec fn is_irq_run<const N: usize>(
    ends: Seq<QueueProducer<'_, N>>,
    events: Seq<RxIrqEvent>,
    actions: Seq<RxIrqAction>,
) -> bool {
    &&& events.len() > 0
    &&& ends.len() == events.len() + 1
    &&& actions.len() == events.len()
    &&& forall|i: int|
        0 <= i < events.len() ==> rx_irq_step(
            ends[i],
            ends[i + 1],
            #[trigger] events[i],
            actions[i],
        )
    &&& forall|i: int|
        1 <= i < events.len() ==> irq_answers(actions[i - 1], #[trigger] events[i])
    &&& events[0] == RxIrqEvent::Entered
}

/// A run that is one receive interrupt.
pub open spec fn is_irq_call<const N: usize>(
    ends: Seq<QueueProducer<'_, N>>,
    events: Seq<RxIrqEvent>,
    actions: Seq<RxIrqAction>,
) -> bool {
    &&& is_irq_run(ends, events, actions)
    &&& forall|i: int| 1 <= i < events.len() ==> !(#[trigger] events[i] is Entered)
}

/// The receive interrupt loses no byte: each byte that it has read is signalled once and
/// then goes into the queue, in order; the last one may be about to. It asks to be
/// disabled exactly where it has looked for room and the queue is full, and it returns
/// after that or where there was nothing to read. The queue never overflows.
pub proof fn law_irq_loop<const N: usize>(
    ends: Seq<QueueProducer<'_, N>>,
    events: Seq<RxIrqEvent>,
    actions: Seq<RxIrqAction>,
)
    requires
        is_irq_run(ends, events, actions),
    ensures
        ends.last().stream() == ends[0].stream(),
        irq_signalled(actions) == irq_read(events),
        actions.last() is Signal ==> irq_read(events).len() > 0 && irq_read(events).last()
            == actions.last()->Signal_0,
        ends.last().enqueued() == ends[0].enqueued() + if actions.last() is Signal {
            irq_read(events).drop_last()
        } else {
            irq_read(events)
        },
        ends.last().wf(),
        ends.last().held().len() <= N - 1,
        actions.last() is Read || actions.last() is Signal ==> ends.last().has_room(),
        actions.last() is Disable <==> (events.last() is Entered || events.last() is Signalled)
            && ends.last().held().len() == N - 1,
        actions.last() == RxIrqAction::Done ==> events.last() is Disabled
            || events.last() is NothingToRead,
        actions.last() == RxIrqAction::Done ==> (events.last() is Disabled
            <==> ends.last().held().len() == N - 1),
    decreases events.len(),
{
    let last = events.len() - 1;
    let event = events[last];
    assert(rx_irq_step(ends[last], ends[last + 1], events[last], actions[last]));
    if last > 0 {
        law_irq_loop(ends.drop_last(), events.drop_last(), actions.drop_last());
        assert(irq_answers(actions[last - 1], events[last]));
        let earlier = irq_read(events.drop_last());
        if event is Signalled {
            assert(earlier.drop_last().push(earlier.last()) =~= earlier);
        }
    } else {
        reveal_with_fuel(irq_read, 2);
        reveal_with_fuel(irq_signalled, 2);
    }
    let read = irq_read(events);
    if actions.last() is Signal {
        assert(read.drop_last() =~= irq_read(events.drop_last()));
    }
    assert(ends.last().enqueued() =~= ends[0].enqueued() + if actions.last() is Signal {
        read.drop_last()
    } else {
        read
    });
}

/// A receive interrupt disables itself at most once, and only on its way out.
proof fn lemma_irq_disabled<const N: usize>(
    ends: Seq<QueueProducer<'_, N>>,
    events: Seq<RxIrqEvent>,
    actions: Seq<RxIrqAction>,
)
    requires
        is_irq_call(ends, events, actions),
    ensures
        irq_disabled(actions) == if actions.last() is Disable || events.last() is Disabled {
            1nat
        } else {
            0nat
        },
    decreases events.len(),
{
    let last = events.len() - 1;
    let event = events[last];
    assert(rx_irq_step(ends[last], ends[last + 1], events[last], actions[last]));
    reveal_with_fuel(irq_disabled, 2);
    if last > 0 {
        lemma_irq_disabled(ends.drop_last(), events.drop_last(), actions.drop_last());
        let before = events[last - 1];
        assert(rx_irq_step(ends[last - 1], ends[last], events[last - 1], actions[last - 1]));
        assert(irq_answers(actions[last - 1], events[last]));
    }
}

/// A read that finds nothing ends the receive interrupt, whatever the size of the queue and
/// whatever it holds: the queue stays as it is and no byte is asked for. So does the
/// disabling. After a look that has found room it reads.
pub proof fn law_irq_ends_when_nothing_is_left<const N: usize>(
    ends: Seq<QueueProducer<'_, N>>,
    events: Seq<RxIrqEvent>,
    actions: Seq<RxIrqAction>,
)
    requires
        is_irq_run(ends, events, actions),
    ensures
        forall|i: int|
            0 <= i < events.len() && (#[trigger] events[i] == RxIrqEvent::NothingToRead
                || events[i] == RxIrqEvent::Disabled) ==> actions[i] == RxIrqAction::Done && ends[i
                + 1] == ends[i],
        forall|i: int|
            0 <= i < events.len() && (#[trigger] events[i] is Entered || events[i] is Signalled)
                && ends[i + 1].held().len() < N - 1 ==> actions[i] == RxIrqAction::Read,
{
    assert forall|i: int|
        0 <= i < events.len() && (#[trigger] events[i] is Entered || events[i] is Signalled)
            && ends[i + 1].held().len() < N - 1 implies actions[i] == RxIrqAction::Read by {
        assert(rx_irq_step(ends[i], ends[i + 1], events[i], actions[i]));
    }
}

/// How many bytes the receive interrupt has asked for.
pub open spec fn irq_reads_asked(actions: Seq<RxIrqAction>) -> nat
    decreases actions.len(),
{
    if actions.len() == 0 {
        0
    } else {
        irq_reads_asked(actions.drop_last()) + if actions.last() is Read {
            1nat
        } else {
            0nat
        }
    }
}

/// A receive interrupt asks for at most one byte more than it gets.
pub proof fn law_irq_counts_reads<const N: usize>(
    ends: Seq<QueueProducer<'_, N>>,
    events: Seq<RxIrqEvent>,
    actions: Seq<RxIrqAction>,
)
    requires
        is_irq_call(ends, events, actions),
    ensures
        irq_reads_asked(actions) == irq_read(events).len() + if actions.last() is Read
            || events.last() is NothingToRead {
            1nat
        } else {
            0nat
        },
    decreases events.len(),
{
    let last = events.len() - 1;
    let event = events[last];
    assert(rx_irq_step(ends[last], ends[last + 1], events[last], actions[last]));
    reveal_with_fuel(irq_reads_asked, 2);
    reveal_with_fuel(irq_read, 2);
    if last > 0 {
        law_irq_counts_reads(ends.drop_last(), events.drop_last(), actions.drop_last());
        let before = events[last - 1];
        assert(rx_irq_step(ends[last - 1], ends[last], events[last - 1], actions[last - 1]));
        assert(irq_answers(actions[last - 1], events[last]));
    }
}

/// When the queue is full, the interrupt is disabled: a receive interrupt that has returned
/// has disabled itself once where it has left the queue full, and not at all otherwise.
pub proof fn law_irq_disables_when_full<const N: usize>(
    ends: Seq<QueueProducer<'_, N>>,
    events: Seq<RxIrqEvent>,
    actions: Seq<RxIrqAction>,
)
    requires
        is_irq_call(ends, events, actions),
        actions.last() == RxIrqAction::Done,
    ensures
        irq_disabled(actions) == if ends.last().held().len() == N - 1 {
            1nat
        } else {
            0nat
        },
{
    law_irq_loop(ends, events, actions);
    lemma_irq_disabled(ends, events, actions);
}

/// Where nobody takes bytes out meanwhile, a receive interrupt that has returned has left
/// in the queue what it held, with the bytes that were read behind, and has signalled as
/// often as it has read.
pub proof fn law_irq_alone<const N: usize>(
    ends: Seq<QueueProducer<'_, N>>,
    events: Seq<RxIrqEvent>,
    actions: Seq<RxIrqAction>,
)
    requires
        is_irq_run(ends, events, actions),
        actions.last() == RxIrqAction::Done,
        ends.last().taken() == ends[1].taken(),
    ensures
        ends[1].enqueued() == ends[0].enqueued(),
        ends.last().held() == ends[1].held() + irq_read(events),
        irq_signalled(actions).len() == irq_read(events).len(),
{
    law_irq_loop(ends, events, actions);
    let event = events[0];
    assert(rx_irq_step(ends[0], ends[1], events[0], actions[0]));
    assert(ends.last().held() =~= ends[1].held() + irq_read(events));
}

/// What the USB host is handed is what the UART has received: from the moment at which a
/// new queue is split, however often receive interrupts fill it and its bytes are handed
/// out, the bytes that were handed out are the bytes that were received, in order, as far
/// as both have come.
pub proof fn law_handed_as_received<const N: usize>(
    producers: Seq<QueueProducer<'_, N>>,
    irq_events: Seq<RxIrqEvent>,
    irq_actions: Seq<RxIrqAction>,
    consumers: Seq<QueueConsumer<'_, N>>,
    flags: Seq<bool>,
    drain_events: Seq<RxDrainEvent>,
    drain_actions: Seq<RxDrainAction>,
)
    requires
        are_ends_of(Seq::empty(), producers[0], consumers[0]),
        is_irq_run(producers, irq_events, irq_actions),
        is_rx_drain_run(consumers, flags, drain_events, drain_actions),
    ensures
        producers.last().enqueued() == if irq_actions.last() is Signal {
            irq_read(irq_events).drop_last()
        } else {
            irq_read(irq_events)
        },
        consumers.last().dequeued() == bytes_handed(drain_events, drain_actions),
        forall|i: int|
            0 <= i < producers.last().enqueued().len() && i < bytes_handed(
                drain_events,
                drain_actions,
            ).len() ==> bytes_handed(drain_events, drain_actions)[i] == irq_read(irq_events)[i],
{
    law_irq_loop(producers, irq_events, irq_actions);
    law_rx_drain_loop(consumers, flags, drain_events, drain_actions);
    law_first_in_first_out(producers.last(), consumers.last());
    let queued = if irq_actions.last() is Signal {
        irq_read(irq_events).drop_last()
    } else {
        irq_read(irq_events)
    };
    assert(producers.last().enqueued() =~= queued);
    assert(consumers.last().dequeued() =~= bytes_handed(drain_events, drain_actions));
}

} // verus!
