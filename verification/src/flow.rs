//! How bytes flow between the USB host and the UART.
//!
//! A path is a queue with what has gone into it and what has come out of it. Its steps
//! are the turns of the loops in [`crate::bridge`] and the answers of the tasks in
//! [`crate::tasks`], in any order. The two ends of a queue make up a path, and each step
//! of a loop is a step of that path.
use crate::bridge::{
    drain_step, fill_step, rx_dequeued, rx_drain_step, rx_irq_step, DrainAction, DrainEvent,
    FillAction, FillEvent, RxDrainAction, RxDrainEvent, RxIrqAction, RxIrqEvent,
};
use crate::queue::{are_ends_of, law_first_in_first_out, QueueConsumer, QueueProducer};
use crate::tasks::{IdleAction, IdleEvent, UsbAction, UsbEvent};
use crate::uart_config::UartConfig;
use vstd::prelude::*;

verus! {

/// The way from the USB host to the UART.
pub struct TxPath {
    pub capacity: nat,
    pub queue: Seq<u8>,
    /// The bytes that were read from the USB host, and those that the UART has taken.
    pub read: Seq<u8>,
    pub written: Seq<u8>,
}

/// A turn of a loop on the way from the USB host to the UART.
pub enum TxStep {
    /// Bytes are moved into the queue; the byte that the host has sent next, if any.
    Fill(Option<u8>),
    /// Bytes are moved out of the queue; whether the UART takes one.
    Drain(bool),
}

impl TxPath {
    /// The path at start-up.
    pub open spec fn initial(capacity: nat) -> TxPath {
        TxPath { capacity, queue: Seq::empty(), read: Seq::empty(), written: Seq::empty() }
    }

    /// The queue holds what was read and not yet written, in order.
    pub open spec fn inv(self) -> bool {
        &&& self.read == self.written + self.queue
        &&& self.queue.len() <= self.capacity
    }

    /// The path after a step.
    pub open spec fn step(self, step: TxStep) -> TxPath {
        match step {
            TxStep::Fill(input) => match (
                crate::bridge::fill_next(self.queue.len() < self.capacity),
                input,
            ) {
                (FillAction::Read, Some(byte)) => TxPath {
                    queue: self.queue.push(byte),
                    read: self.read.push(byte),
                    ..self
                },
                _ => self,
            },
            TxStep::Drain(accepted) => match crate::bridge::drain_next(front(self.queue)) {
                DrainAction::Write(byte) if accepted => TxPath {
                    queue: self.queue.drop_first(),
                    written: self.written.push(byte),
                    ..self
                },
                _ => self,
            },
        }
    }
}

/// The oldest byte of a queue.
pub open spec fn front(queue: Seq<u8>) -> Option<u8> {
    if queue.len() == 0 {
        None
    } else {
        Some(queue.first())
    }
}

/// At start-up nothing is on its way to the UART.
pub proof fn law_tx_initial(capacity: nat)
    ensures
        TxPath::initial(capacity).inv(),
{
    assert(Seq::<u8>::empty() + Seq::<u8>::empty() =~= Seq::<u8>::empty());
}

/// The UART is given the bytes of the USB host in order, without loss and without
/// repetition, and the queue never overflows.
pub proof fn law_tx_in_order(path: TxPath, step: TxStep)
    requires
        path.inv(),
    ensures
        path.step(step).inv(),
{
    let after = path.step(step);
    assert(after.read =~= after.written + after.queue);
}

/// The tasks that hand received bytes to the USB host.
pub enum Task {
    Idle,
    Usb,
}

/// The way from the UART to the USB host.
pub struct RxPath {
    pub capacity: nat,
    pub queue: Seq<u8>,
    /// The bytes that were read from the UART, and those that the host has been handed.
    pub read: Seq<u8>,
    pub written: Seq<u8>,
    /// Whether the receive interrupt is enabled.
    pub enabled: bool,
    /// Whether each task has taken a byte out of the queue that it has not answered yet.
    pub idle_dequeued: bool,
    pub usb_dequeued: bool,
}

/// A turn of a loop on the way from the UART to the USB host.
pub enum RxStep {
    /// The receive interrupt moves bytes into the queue; the byte that has arrived next,
    /// if any.
    Irq(Option<u8>),
    /// A task moves bytes out of the queue; whether the port takes one.
    Drain(Task, bool),
    /// A task is done with the queue, while the UART has some settings.
    Answer(Task, UartConfig),
}

impl RxPath {
    /// The queue holds what was read and not yet handed out, in order. The interrupt is
    /// disabled only while the queue is full or a task is about to enable it.
    pub open spec fn inv(self) -> bool {
        &&& self.read == self.written + self.queue
        &&& self.queue.len() <= self.capacity
        &&& self.enabled || self.idle_dequeued || self.usb_dequeued || self.queue.len()
            == self.capacity
    }

    /// The path at start-up.
    pub open spec fn initial(capacity: nat) -> RxPath {
        RxPath {
            capacity,
            queue: Seq::empty(),
            read: Seq::empty(),
            written: Seq::empty(),
            enabled: true,
            idle_dequeued: false,
            usb_dequeued: false,
        }
    }

    /// Whether a task has taken a byte out of the queue that it has not answered yet.
    pub open spec fn dequeued(self, task: Task) -> bool {
        match task {
            Task::Idle => self.idle_dequeued,
            Task::Usb => self.usb_dequeued,
        }
    }

    /// Whether a step can happen: a disabled interrupt is not raised.
    pub open spec fn can(self, step: RxStep) -> bool {
        step is Irq ==> self.enabled
    }

    /// The path after a step.
    pub open spec fn step(self, step: RxStep) -> RxPath {
        match step {
            RxStep::Irq(input) => match (
                crate::bridge::rx_irq_next(self.queue.len() < self.capacity),
                input,
            ) {
                (RxIrqAction::Read, Some(byte)) => RxPath {
                    queue: self.queue.push(byte),
                    read: self.read.push(byte),
                    ..self
                },
                (RxIrqAction::Disable, _) => RxPath { enabled: false, ..self },
                _ => self,
            },
            RxStep::Drain(task, accepted) => match crate::bridge::rx_drain_next(
                front(self.queue),
            ) {
                RxDrainAction::Write(byte) if accepted => {
                    let taken = RxPath {
                        queue: self.queue.drop_first(),
                        written: self.written.push(byte),
                        ..self
                    };
                    let event = RxDrainEvent::Accepted;
                    match task {
                        Task::Idle => RxPath {
                            idle_dequeued: rx_dequeued(self.idle_dequeued, event),
                            ..taken
                        },
                        Task::Usb => RxPath {
                            usb_dequeued: rx_dequeued(self.usb_dequeued, event),
                            ..taken
                        },
                    }
                },
                _ => self,
            },
            RxStep::Answer(Task::Idle, _) => RxPath {
                enabled: self.enabled || crate::tasks::idle_next(
                    IdleEvent::RxDrained(self.idle_dequeued),
                ) == IdleAction::EnableRxInterrupt,
                idle_dequeued: false,
                ..self
            },
            RxStep::Answer(Task::Usb, current) => RxPath {
                enabled: self.enabled || crate::tasks::usbctrl_irq_next(
                    UsbEvent::RxDrained(self.usb_dequeued),
                    current,
                ) == UsbAction::EnableRxInterrupt,
                usb_dequeued: false,
                ..self
            },
        }
    }
}

/// At start-up nothing is on its way to the USB host and the receive interrupt is enabled.
pub proof fn law_rx_initial(capacity: nat)
    ensures
        RxPath::initial(capacity).inv(),
{
    assert(Seq::<u8>::empty() + Seq::<u8>::empty() =~= Seq::<u8>::empty());
}

/// The USB host is given the bytes of the UART in order, without loss and without
/// repetition, the queue never overflows, and the receive interrupt stays disabled only
/// while the queue is full or a task is about to enable it.
pub proof fn law_rx_in_order(path: RxPath, step: RxStep)
    requires
        path.inv(),
        path.can(step),
    ensures
        path.step(step).inv(),
{
    let after = path.step(step);
    assert(after.read =~= after.written + after.queue);
}

/// When the queue is full, the interrupt is disabled until the consumer has freed space
/// again: a full queue disables it, and the task that hands out a byte enables it.
pub proof fn law_rx_interrupt_returns(
    path: RxPath,
    input: Option<u8>,
    task: Task,
    current: UartConfig,
)
    requires
        path.inv(),
        path.capacity > 0,
        path.enabled,
        path.queue.len() == path.capacity,
    ensures
        ({
            let full = path.step(RxStep::Irq(input));
            let drained = full.step(RxStep::Drain(task, true));
            let answered = drained.step(RxStep::Answer(task, current));
            &&& !full.enabled
            &&& full.read == path.read
            &&& !drained.enabled
            &&& drained.queue.len() < drained.capacity
            &&& answered.enabled
        }),
{
}

/// Whether two ends of a queue are at one moment: bytes leave after they have entered, at
/// most `N - 1` are in between, and neither end has seen the other further than it is.
pub open spec fn at_once<const N: usize>(
    producer: QueueProducer<'_, N>,
    consumer: QueueConsumer<'_, N>,
) -> bool {
    &&& producer.stream() == consumer.stream()
    &&& producer.wf()
    &&& consumer.wf()
    &&& producer.taken() <= consumer.dequeued().len()
    &&& consumer.arrived() <= producer.enqueued().len()
    &&& consumer.dequeued().len() <= producer.enqueued().len() <= consumer.dequeued().len() + (N
        - 1)
}

/// What is in a queue: the bytes that have entered and not left.
pub open spec fn in_between<const N: usize>(
    producer: QueueProducer<'_, N>,
    consumer: QueueConsumer<'_, N>,
) -> Seq<u8> {
    producer.enqueued().skip(consumer.dequeued().len() as int)
}

/// The way from the USB host to the UART that two ends of a queue make up.
pub open spec fn tx_path<const N: usize>(
    producer: QueueProducer<'_, N>,
    consumer: QueueConsumer<'_, N>,
) -> TxPath {
    TxPath {
        capacity: (N - 1) as nat,
        queue: in_between(producer, consumer),
        read: producer.enqueued(),
        written: consumer.dequeued(),
    }
}

/// The way from the UART to the USB host that two ends of a queue make up, with the state
/// of the interrupt and the flags of the tasks.
pub open spec fn rx_path<const N: usize>(
    producer: QueueProducer<'_, N>,
    consumer: QueueConsumer<'_, N>,
    enabled: bool,
    idle_dequeued: bool,
    usb_dequeued: bool,
) -> RxPath {
    RxPath {
        capacity: (N - 1) as nat,
        queue: in_between(producer, consumer),
        read: producer.enqueued(),
        written: consumer.dequeued(),
        enabled,
        idle_dequeued,
        usb_dequeued,
    }
}

/// The ends of a queue at one moment make up a path on which nothing is lost.
pub proof fn law_ends_make_a_path<const N: usize>(
    producer: QueueProducer<'_, N>,
    consumer: QueueConsumer<'_, N>,
)
    requires
        at_once(producer, consumer),
    ensures
        tx_path(producer, consumer).inv(),
{
    law_first_in_first_out(producer, consumer);
    let path = tx_path(producer, consumer);
    assert(path.read =~= path.written + path.queue);
}

/// The ends of a new queue make up the path at start-up.
pub proof fn law_new_ends<const N: usize>(
    producer: QueueProducer<'_, N>,
    consumer: QueueConsumer<'_, N>,
)
    requires
        are_ends_of(Seq::empty(), producer, consumer),
    ensures
        at_once(producer, consumer),
        tx_path(producer, consumer) == TxPath::initial((N - 1) as nat),
        rx_path(producer, consumer, true, false, false) == RxPath::initial((N - 1) as nat),
{
    assert(in_between(producer, consumer) =~= Seq::empty());
}

/// A step of the loop that fills the transmit queue is a step of the path, and where the
/// loop sees the other end as it is, it decides as the path does.
pub proof fn law_fill_step_on_path<const N: usize>(
    before: QueueProducer<'_, N>,
    after: QueueProducer<'_, N>,
    consumer: QueueConsumer<'_, N>,
    event: FillEvent,
    action: FillAction,
)
    requires
        at_once(before, consumer),
        fill_step(before, after, event, action),
        event is Read ==> before.has_room(),
        after.taken() <= consumer.dequeued().len(),
    ensures
        at_once(after, consumer),
        tx_path(after, consumer) == tx_path(before, consumer).step(
            TxStep::Fill(
                match event {
                    FillEvent::Read(byte) => Some(byte),
                    _ => None,
                },
            ),
        ),
        !(event is NothingToRead) && after.taken() == consumer.dequeued().len() ==> action
            == crate::bridge::fill_next(
            tx_path(after, consumer).queue.len() < tx_path(after, consumer).capacity,
        ),
{
    let input = match event {
        FillEvent::Read(byte) => Some(byte),
        _ => None,
    };
    let path = tx_path(before, consumer).step(TxStep::Fill(input));
    assert(in_between(after, consumer) =~= path.queue);
}

/// A step of the loop that empties the transmit queue is a step of the path, and where the
/// loop sees the other end as it is, it decides as the path does.
pub proof fn law_drain_step_on_path<const N: usize>(
    producer: QueueProducer<'_, N>,
    before: QueueConsumer<'_, N>,
    after: QueueConsumer<'_, N>,
    event: DrainEvent,
    action: DrainAction,
)
    requires
        at_once(producer, before),
        drain_step(before, after, event, action),
        event is Accepted ==> before.front() is Some,
        after.arrived() <= producer.enqueued().len(),
    ensures
        at_once(producer, after),
        tx_path(producer, after) == tx_path(producer, before).step(
            TxStep::Drain(event is Accepted),
        ),
        !(event is Refused) && after.arrived() == producer.enqueued().len() ==> action
            == crate::bridge::drain_next(front(tx_path(producer, after).queue)),
{
    law_first_in_first_out(producer, before);
    law_first_in_first_out(producer, after);
    let path = tx_path(producer, before).step(TxStep::Drain(event is Accepted));
    assert(in_between(producer, after) =~= path.queue);
}

/// A step of the receive interrupt is a step of the path, where the interrupt sees the
/// other end as it is: nobody takes bytes out while it runs. The interrupt is disabled
/// when its step says so.
pub proof fn law_irq_step_on_path<const N: usize>(
    before: QueueProducer<'_, N>,
    after: QueueProducer<'_, N>,
    consumer: QueueConsumer<'_, N>,
    enabled: bool,
    idle_dequeued: bool,
    usb_dequeued: bool,
    event: RxIrqEvent,
    action: RxIrqAction,
)
    requires
        at_once(before, consumer),
        rx_irq_step(before, after, event, action),
        event is Signalled ==> before.has_room(),
        event is Disabled ==> !before.has_room(),
        event is Disabled ==> before.taken() == consumer.dequeued().len(),
        after.taken() <= consumer.dequeued().len(),
    ensures
        at_once(after, consumer),
        ({
            let path = rx_path(before, consumer, enabled, idle_dequeued, usb_dequeued);
            let next = rx_path(
                after,
                consumer,
                enabled && !(event is Disabled),
                idle_dequeued,
                usb_dequeued,
            );
            &&& next == match event {
                RxIrqEvent::Signalled(byte) => path.step(RxStep::Irq(Some(byte))),
                RxIrqEvent::Disabled => path.step(RxStep::Irq(None)),
                _ => path,
            }
            &&& (event is Entered || event is Signalled) && after.taken()
                == consumer.dequeued().len() ==> action == crate::bridge::rx_irq_next(
                next.queue.len() < next.capacity,
            )
        }),
{
    let path = rx_path(before, consumer, enabled, idle_dequeued, usb_dequeued);
    let next = match event {
        RxIrqEvent::Signalled(byte) => path.step(RxStep::Irq(Some(byte))),
        RxIrqEvent::Disabled => path.step(RxStep::Irq(None)),
        _ => path,
    };
    assert(in_between(after, consumer) =~= next.queue);
}

/// A step of a task that hands out received bytes is a step of the path, and where the
/// task sees the other end as it is, it decides as the path does.
pub proof fn law_rx_drain_step_on_path<const N: usize>(
    producer: QueueProducer<'_, N>,
    before: QueueConsumer<'_, N>,
    after: QueueConsumer<'_, N>,
    path: RxPath,
    task: Task,
    event: RxDrainEvent,
    action: RxDrainAction,
)
    requires
        at_once(producer, before),
        path == rx_path(
            producer,
            before,
            path.enabled,
            path.idle_dequeued,
            path.usb_dequeued,
        ),
        event is Started ==> !path.dequeued(task),
        rx_drain_step(before, after, rx_dequeued(path.dequeued(task), event), event, action),
        event is Accepted ==> before.front() is Some,
        after.arrived() <= producer.enqueued().len(),
    ensures
        at_once(producer, after),
        ({
            let flag = rx_dequeued(path.dequeued(task), event);
            let next = match task {
                Task::Idle => rx_path(producer, after, path.enabled, flag, path.usb_dequeued),
                Task::Usb => rx_path(producer, after, path.enabled, path.idle_dequeued, flag),
            };
            &&& next == path.step(RxStep::Drain(task, event is Accepted))
            &&& (event is Started || event is Accepted) && after.arrived()
                == producer.enqueued().len() ==> action == crate::bridge::rx_drain_next(
                front(next.queue),
            )
            &&& event is Flushed ==> action == RxDrainAction::Finished(next.dequeued(task))
        }),
{
    law_first_in_first_out(producer, before);
    law_first_in_first_out(producer, after);
    let next = path.step(RxStep::Drain(task, event is Accepted));
    assert(in_between(producer, after) =~= next.queue);
}

} // verus!
