//! The decisions of the bridge between the USB serial port and the UART.
//!
//! The bytes travel through two queues. Each function here is one step of a loop that
//! moves bytes into or out of a queue: it is told what came of the last action and
//! says which action comes next. Reading, writing and switching the interrupt are left
//! to the caller.
use crate::queue::{QueueConsumer, QueueProducer};
use crate::uart_config::{UartConfig, UartConfigAndClock};
use vstd::prelude::*;

verus! {

/// What happened in a loop that fills a queue.
#[derive(Clone, Copy, Debug, PartialEq, Eq, Structural)]
pub enum FillEvent {
    /// The loop starts.
    Started,
    /// A byte was read.
    Read(u8),
    /// There was no byte to read.
    NothingToRead,
}

/// What a loop that fills a queue does next.
#[derive(Clone, Copy, Debug, PartialEq, Eq, Structural)]
pub enum FillAction {
    /// Read a byte.
    Read,
    /// End the loop.
    Done,
}

/// What happened in a loop that empties a queue.
#[derive(Clone, Copy, Debug, PartialEq, Eq, Structural)]
pub enum DrainEvent {
    /// The loop starts.
    Started,
    /// The byte was written.
    Accepted,
    /// The byte could not be written.
    Refused,
}

/// What a loop that empties a queue does next.
#[derive(Clone, Copy, Debug, PartialEq, Eq, Structural)]
pub enum DrainAction {
    /// Write the byte.
    Write(u8),
    /// End the loop.
    Done,
}

/// What happened while received bytes are handed to the USB host.
#[derive(Clone, Copy, Debug, PartialEq, Eq, Structural)]
pub enum RxDrainEvent {
    /// The loop starts.
    Started,
    /// The byte was written.
    Accepted,
    /// The byte could not be written.
    Refused,
    /// The port was flushed, with or without success.
    Flushed,
}

/// What comes next while received bytes are handed to the USB host.
#[derive(Clone, Copy, Debug, PartialEq, Eq, Structural)]
pub enum RxDrainAction {
    /// Write the byte.
    Write(u8),
    /// Flush the port.
    Flush,
    /// End, and report whether a byte has left the queue.
    Finished(bool),
}

/// What happened in the receive interrupt of the UART.
#[derive(Clone, Copy, Debug, PartialEq, Eq, Structural)]
pub enum RxIrqEvent {
    /// The interrupt was raised.
    Entered,
    /// A byte was read.
    Read(u8),
    /// There was no byte to read.
    NothingToRead,
    /// The arrival of the byte was signalled.
    Signalled(u8),
    /// The interrupt was disabled.
    Disabled,
}

/// What the receive interrupt of the UART does next.
#[derive(Clone, Copy, Debug, PartialEq, Eq, Structural)]
pub enum RxIrqAction {
    /// Read a byte.
    Read,
    /// Signal the arrival of the byte.
    Signal(u8),
    /// Disable the interrupt.
    Disable,
    /// Leave the interrupt.
    Done,
}

/// What happened while the UART takes new settings.
#[derive(Clone, Copy, Debug, PartialEq, Eq, Structural)]
pub enum ReconfigureEvent {
    /// New settings are there.
    Started,
    /// The two halves of the UART were joined and it was disabled.
    Disabled,
    /// The UART was enabled.
    Enabled,
    /// The UART was split into its halves again.
    Split,
}

/// What comes next while the UART takes new settings.
#[derive(Clone, Copy, Debug, PartialEq, Eq, Structural)]
pub enum ReconfigureAction {
    /// Join the two halves of the UART and disable it.
    Disable,
    /// Enable the UART with the settings and the clock.
    Enable(UartConfigAndClock),
    /// Split the UART into its halves.
    Split,
    /// The UART is ready.
    Done,
}

/// Reading goes on as long as the queue has room.
pub open spec fn fill_next(room: bool) -> FillAction {
    if room {
        FillAction::Read
    } else {
        FillAction::Done
    }
}

/// Writing goes on as long as the queue has a byte.
pub open spec fn drain_next(front: Option<u8>) -> DrainAction {
    match front {
        Some(byte) => DrainAction::Write(byte),
        None => DrainAction::Done,
    }
}

/// Writing goes on as long as the queue has a byte; then the port is flushed.
pub open spec fn rx_drain_next(front: Option<u8>) -> RxDrainAction {
    match front {
        Some(byte) => RxDrainAction::Write(byte),
        None => RxDrainAction::Flush,
    }
}

/// Reading goes on as long as the queue has room; then the interrupt is disabled.
pub open spec fn rx_irq_next(room: bool) -> RxIrqAction {
    if room {
        RxIrqAction::Read
    } else {
        RxIrqAction::Disable
    }
}

/// Whether a byte has left the queue since the loop has started.
pub open spec fn rx_dequeued(before: bool, event: RxDrainEvent) -> bool {
    match event {
        RxDrainEvent::Started => false,
        RxDrainEvent::Accepted => true,
        _ => before,
    }
}

/// The next action while the UART takes the settings `expected`.
pub open spec fn reconfigure_next(
    event: ReconfigureEvent,
    expected: UartConfig,
    clock: u32,
) -> ReconfigureAction {
    match event {
        ReconfigureEvent::Started => ReconfigureAction::Disable,
        ReconfigureEvent::Disabled => ReconfigureAction::Enable(
            UartConfigAndClock { config: expected, clock },
        ),
        ReconfigureEvent::Enabled => ReconfigureAction::Split,
        ReconfigureEvent::Split => ReconfigureAction::Done,
    }
}

/// The settings on record: the expected ones once the UART runs with them.
pub open spec fn recorded_config(
    event: ReconfigureEvent,
    before: UartConfig,
    expected: UartConfig,
) -> UartConfig {
    if event == ReconfigureEvent::Enabled {
        expected
    } else {
        before
    }
}

/// The settings and the clock on record: the clock stays.
pub open spec fn recorded(
    event: ReconfigureEvent,
    before: UartConfigAndClock,
    expected: UartConfig,
) -> UartConfigAndClock {
    UartConfigAndClock {
        config: recorded_config(event, before.config, expected),
        clock: before.clock,
    }
}

/// What a step of a loop that fills a queue does: the byte that was read goes into the
/// queue, then one look for room says whether to read on. The loop ends early only where
/// the queue holds `N - 1` bytes.
pub open spec fn fill_step<const N: usize>(
    before: QueueProducer<'_, N>,
    after: QueueProducer<'_, N>,
    event: FillEvent,
    action: FillAction,
) -> bool {
    &&& after.stream() == before.stream()
    &&& before.taken() <= after.taken()
    &&& match event {
        FillEvent::Started => {
            &&& after.enqueued() == before.enqueued()
            &&& after.wf()
            &&& after.looks() == before.looks().push(after.has_room())
            &&& action == fill_next(after.has_room())
            &&& action == FillAction::Done <==> after.held().len() == N - 1
        },
        FillEvent::Read(byte) => {
            &&& after.enqueued() == before.enqueued().push(byte)
            &&& after.wf()
            &&& after.looks() == before.looks().push(true).push(after.has_room())
            &&& action == fill_next(after.has_room())
            &&& action == FillAction::Done <==> after.held().len() == N - 1
        },
        FillEvent::NothingToRead => {
            &&& after == before
            &&& action == FillAction::Done
        },
    }
}

/// What a step of a loop that empties a queue does: the byte that was written leaves
/// the queue, then one look at the front says whether to write on.
pub open spec fn drain_step<const N: usize>(
    before: QueueConsumer<'_, N>,
    after: QueueConsumer<'_, N>,
    event: DrainEvent,
    action: DrainAction,
) -> bool {
    &&& after.stream() == before.stream()
    &&& before.arrived() <= after.arrived()
    &&& match event {
        DrainEvent::Started => {
            &&& after.dequeued() == before.dequeued()
            &&& after.wf()
            &&& after.looks() == before.looks().push(after.front())
            &&& action == drain_next(after.front())
        },
        DrainEvent::Accepted => {
            &&& after.dequeued() == before.dequeued().push(before.front()->0)
            &&& after.wf()
            &&& after.looks() == before.looks().push(after.front())
            &&& action == drain_next(after.front())
        },
        DrainEvent::Refused => {
            &&& after == before
            &&& action == DrainAction::Done
        },
    }
}

/// What a step does while received bytes are handed to the USB host: the byte that was
/// written leaves the queue, then one look at the front says whether to write on or to
/// flush. At the end comes the report.
pub open spec fn rx_drain_step<const N: usize>(
    before: QueueConsumer<'_, N>,
    after: QueueConsumer<'_, N>,
    dequeued: bool,
    event: RxDrainEvent,
    action: RxDrainAction,
) -> bool {
    &&& after.stream() == before.stream()
    &&& before.arrived() <= after.arrived()
    &&& match event {
        RxDrainEvent::Started => {
            &&& after.dequeued() == before.dequeued()
            &&& after.wf()
            &&& after.looks() == before.looks().push(after.front())
            &&& action == rx_drain_next(after.front())
        },
        RxDrainEvent::Accepted => {
            &&& after.dequeued() == before.dequeued().push(before.front()->0)
            &&& after.wf()
            &&& after.looks() == before.looks().push(after.front())
            &&& action == rx_drain_next(after.front())
        },
        RxDrainEvent::Refused => {
            &&& after == before
            &&& action == RxDrainAction::Flush
        },
        RxDrainEvent::Flushed => {
            &&& after == before
            &&& action == RxDrainAction::Finished(dequeued)
        },
    }
}

/// What a step of the receive interrupt does: a byte that was read is signalled, then it
/// goes into the queue, then one look for room says whether to read on or to disable
/// the interrupt. It is disabled only where the queue holds `N - 1` bytes. A byte that
/// finds no room is dropped.
pub open spec fn rx_irq_step<const N: usize>(
    before: QueueProducer<'_, N>,
    after: QueueProducer<'_, N>,
    event: RxIrqEvent,
    action: RxIrqAction,
) -> bool {
    &&& after.stream() == before.stream()
    &&& before.taken() <= after.taken()
    &&& match event {
        RxIrqEvent::Entered => {
            &&& after.enqueued() == before.enqueued()
            &&& after.wf()
            &&& after.looks() == before.looks().push(after.has_room())
            &&& action == rx_irq_next(after.has_room())
            &&& action == RxIrqAction::Disable <==> after.held().len() == N - 1
        },
        RxIrqEvent::Read(byte) => {
            &&& after == before
            &&& action == RxIrqAction::Signal(byte)
        },
        RxIrqEvent::NothingToRead => {
            &&& after == before
            &&& action == RxIrqAction::Done
        },
        RxIrqEvent::Signalled(byte) => {
            let queued = after.enqueued() == before.enqueued().push(byte);
            &&& before.has_room() ==> queued
            &&& !queued ==> after.enqueued() == before.enqueued()
            &&& after.wf()
            &&& after.looks() == before.looks().push(queued).push(after.has_room())
            &&& action == rx_irq_next(after.has_room())
            &&& action == RxIrqAction::Disable <==> after.held().len() == N - 1
        },
        RxIrqEvent::Disabled => {
            &&& after == before
            &&& action == RxIrqAction::Done
        },
    }
}

/// A step of a loop that reads bytes into a queue.
fn fill<const N: usize>(producer: &mut QueueProducer<'_, N>, event: FillEvent) -> (action:
    FillAction)
    requires
        event is Read ==> old(producer).has_room(),
    ensures
        fill_step(*old(producer), *final(producer), event, action),
{
    match event {
        FillEvent::Started => {},
        FillEvent::Read(byte) => {
            let _ = producer.enqueue(byte);
        },
        FillEvent::NothingToRead => {
            return FillAction::Done;
        },
    }
    if producer.ready() {
        FillAction::Read
    } else {
        FillAction::Done
    }
}

/// Moves bytes from the USB host to the transmit queue of the UART, as long as the
/// queue has room and the host has sent more. A byte is read only where there is room
/// for it, and every byte that was read is put into the queue.
pub fn drain_usb_to_uart_tx<const N: usize>(
    uart_tx_producer: &mut QueueProducer<'_, N>,
    event: FillEvent,
) -> (action: FillAction)
    requires
        event is Read ==> old(uart_tx_producer).has_room(),
    ensures
        fill_step(*old(uart_tx_producer), *final(uart_tx_producer), event, action),
{
    fill(uart_tx_producer, event)
}

/// Moves received bytes from the UART to the receive queue, as long as the queue has
/// room and the UART has more. A byte is read only where there is room for it, and
/// every byte that was read is put into the queue.
pub fn drain_uart_rx_to_queue<const N: usize>(
    uart_rx_producer: &mut QueueProducer<'_, N>,
    event: FillEvent,
) -> (action: FillAction)
    requires
        event is Read ==> old(uart_rx_producer).has_room(),
    ensures
        fill_step(*old(uart_rx_producer), *final(uart_rx_producer), event, action),
{
    fill(uart_rx_producer, event)
}

/// Moves bytes from the transmit queue to the UART, as long as the queue has more and
/// the UART takes them. A byte leaves the queue only after the UART has taken it.
pub fn drain_uart_tx_queue<const N: usize>(
    uart_tx_consumer: &mut QueueConsumer<'_, N>,
    event: DrainEvent,
) -> (action: DrainAction)
    requires
        event is Accepted ==> old(uart_tx_consumer).front() is Some,
    ensures
        drain_step(*old(uart_tx_consumer), *final(uart_tx_consumer), event, action),
{
    match event {
        DrainEvent::Started => {},
        DrainEvent::Accepted => {
            let _ = uart_tx_consumer.dequeue();
        },
        DrainEvent::Refused => {
            return DrainAction::Done;
        },
    }
    match uart_tx_consumer.peek() {
        Some(byte) => DrainAction::Write(byte),
        None => DrainAction::Done,
    }
}

/// Moves bytes from the receive queue to the USB host, as long as the queue has more and
/// the port takes them, and flushes the port. A byte leaves the queue only after the
/// port has taken it. The flag `dequeued` keeps whether one has; it is reported at the
/// end.
pub fn drain_uart_rx_queue<const N: usize>(
    uart_rx_consumer: &mut QueueConsumer<'_, N>,
    dequeued: &mut bool,
    event: RxDrainEvent,
) -> (action: RxDrainAction)
    requires
        event is Accepted ==> old(uart_rx_consumer).front() is Some,
    ensures
        *final(dequeued) == rx_dequeued(*old(dequeued), event),
        rx_drain_step(
            *old(uart_rx_consumer),
            *final(uart_rx_consumer),
            *final(dequeued),
            event,
            action,
        ),
{
    match event {
        RxDrainEvent::Started => {
            *dequeued = false;
        },
        RxDrainEvent::Accepted => {
            let _ = uart_rx_consumer.dequeue();
            *dequeued = true;
        },
        RxDrainEvent::Refused => {
            return RxDrainAction::Flush;
        },
        RxDrainEvent::Flushed => {
            return RxDrainAction::Finished(*dequeued);
        },
    }
    match uart_rx_consumer.peek() {
        Some(byte) => RxDrainAction::Write(byte),
        None => RxDrainAction::Flush,
    }
}

/// The receive interrupt of the UART. It moves received bytes to the receive queue and
/// signals each one. When the queue is full, it disables the interrupt until the
/// consumer has freed space again.
pub fn on_uart_rx_irq<const N: usize>(
    uart_rx_producer: &mut QueueProducer<'_, N>,
    event: RxIrqEvent,
) -> (action: RxIrqAction)
    ensures
        rx_irq_step(*old(uart_rx_producer), *final(uart_rx_producer), event, action),
{
    match event {
        RxIrqEvent::Entered => {},
        RxIrqEvent::Read(byte) => {
            return RxIrqAction::Signal(byte);
        },
        RxIrqEvent::Signalled(byte) => {
            let _ = uart_rx_producer.enqueue(byte);
        },
        RxIrqEvent::NothingToRead | RxIrqEvent::Disabled => {
            return RxIrqAction::Done;
        },
    }
    if uart_rx_producer.ready() {
        RxIrqAction::Read
    } else {
        RxIrqAction::Disable
    }
}

/// Gives the UART the settings `expected_config`. They are recorded in `uart_config` as
/// soon as the UART runs with them.
pub fn reconfigure_uart(
    uart_config: &mut UartConfigAndClock,
    expected_config: &UartConfig,
    event: ReconfigureEvent,
) -> (action: ReconfigureAction)
    ensures
        *final(uart_config) == recorded(event, *old(uart_config), *expected_config),
        action == reconfigure_next(event, *expected_config, old(uart_config).clock),
{
    match event {
        ReconfigureEvent::Started => ReconfigureAction::Disable,
        ReconfigureEvent::Disabled => ReconfigureAction::Enable(
            UartConfigAndClock { config: *expected_config, clock: uart_config.clock },
        ),
        ReconfigureEvent::Enabled => {
            uart_config.config = *expected_config;
            ReconfigureAction::Split
        },
        ReconfigureEvent::Split => ReconfigureAction::Done,
    }
}

/// New settings are on record exactly from the moment at which the UART was enabled with
/// them, and enabling uses them with the clock on record.
pub proof fn law_reconfigured(before: UartConfig, expected: UartConfig, clock: u32)
    ensures
        ({
            let started = recorded_config(ReconfigureEvent::Started, before, expected);
            let disabled = recorded_config(ReconfigureEvent::Disabled, started, expected);
            let enabled = recorded_config(ReconfigureEvent::Enabled, disabled, expected);
            let split = recorded_config(ReconfigureEvent::Split, enabled, expected);
            &&& reconfigure_next(ReconfigureEvent::Started, expected, clock)
                == ReconfigureAction::Disable
            &&& reconfigure_next(ReconfigureEvent::Disabled, expected, clock)
                == ReconfigureAction::Enable(UartConfigAndClock { config: expected, clock })
            &&& disabled == before
            &&& reconfigure_next(ReconfigureEvent::Enabled, expected, clock)
                == ReconfigureAction::Split
            &&& enabled == expected
            &&& reconfigure_next(ReconfigureEvent::Split, expected, clock)
                == ReconfigureAction::Done
            &&& split == expected
        }),
{
}

/// Taking new settings changes the record only where the UART has been enabled with them,
/// and never the clock.
pub proof fn law_record_changes_once(
    event: ReconfigureEvent,
    before: UartConfigAndClock,
    expected: UartConfig,
)
    ensures
        recorded(event, before, expected).clock == before.clock,
        event == ReconfigureEvent::Enabled ==> recorded(event, before, expected).config
            == expected,
        event != ReconfigureEvent::Enabled ==> recorded(event, before, expected) == before,
{
}

/// A byte that the receive interrupt has signalled is dropped only where the queue is full;
/// it is never put in twice or changed.
pub proof fn law_dropped_only_when_full<const N: usize>(
    before: QueueProducer<'_, N>,
    after: QueueProducer<'_, N>,
    byte: u8,
    action: RxIrqAction,
)
    requires
        before.wf(),
        rx_irq_step(before, after, RxIrqEvent::Signalled(byte), action),
    ensures
        after.enqueued() == before.enqueued() || after.enqueued() == before.enqueued().push(byte),
        after.enqueued() == before.enqueued() ==> before.held().len() == N - 1,
        action == RxIrqAction::Read || action == RxIrqAction::Disable,
        action == RxIrqAction::Disable <==> after.held().len() == N - 1,
{
}

} // verus!
