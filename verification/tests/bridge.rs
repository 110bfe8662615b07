use rust_dap_rp::bridge::{
    drain_uart_rx_queue, drain_uart_rx_to_queue, drain_uart_tx_queue, drain_usb_to_uart_tx,
    on_uart_rx_irq, reconfigure_uart, DrainAction, DrainEvent, FillAction, FillEvent,
    ReconfigureAction, ReconfigureEvent, RxDrainAction, RxDrainEvent, RxIrqAction, RxIrqEvent,
};
use rust_dap_rp::queue::{split, ByteQueue, QueueConsumer, QueueProducer};
use rust_dap_rp::uart_config::{
    DataBits, LineCoding, LineParity, LineStopBits, Parity, StopBits, UartConfig,
    UartConfigAndClock,
};

/// Feeds `source` into the queue until the loop ends; the bytes that were read.
fn fill_tx(producer: &mut QueueProducer<'_, 4>, source: &mut Vec<u8>) -> usize {
    let mut read = 0;
    let mut event = FillEvent::Started;
    while drain_usb_to_uart_tx(producer, event) == FillAction::Read {
        event = if source.is_empty() {
            FillEvent::NothingToRead
        } else {
            read += 1;
            FillEvent::Read(source.remove(0))
        };
    }
    read
}

/// Moves bytes out of the queue until the loop ends; at most `limit` are accepted.
fn drain_tx(consumer: &mut QueueConsumer<'_, 4>, limit: usize) -> Vec<u8> {
    let mut sink = Vec::new();
    let mut event = DrainEvent::Started;
    while let DrainAction::Write(byte) = drain_uart_tx_queue(consumer, event) {
        event = if sink.len() < limit {
            sink.push(byte);
            DrainEvent::Accepted
        } else {
            DrainEvent::Refused
        };
    }
    sink
}

#[test]
fn filling_stops_when_the_queue_is_full() {
    let mut queue: ByteQueue<4> = ByteQueue::new();
    let (mut producer, mut consumer) = split(&mut queue);
    let mut source = vec![1, 2, 3, 4, 5];
    assert_eq!(fill_tx(&mut producer, &mut source), 3);
    assert_eq!(source, vec![4, 5]);
    assert_eq!(drain_usb_to_uart_tx(&mut producer, FillEvent::Started), FillAction::Done);
    assert_eq!(drain_tx(&mut consumer, 10), vec![1, 2, 3]);
    assert_eq!(fill_tx(&mut producer, &mut source), 2);
    assert_eq!(drain_tx(&mut consumer, 10), vec![4, 5]);
}

#[test]
fn filling_stops_when_nothing_is_left() {
    let mut queue: ByteQueue<4> = ByteQueue::new();
    let (mut producer, _consumer) = split(&mut queue);
    assert_eq!(drain_usb_to_uart_tx(&mut producer, FillEvent::Started), FillAction::Read);
    assert_eq!(drain_usb_to_uart_tx(&mut producer, FillEvent::NothingToRead), FillAction::Done);
    assert_eq!(drain_uart_rx_to_queue(&mut producer, FillEvent::Started), FillAction::Read);
    assert_eq!(drain_uart_rx_to_queue(&mut producer, FillEvent::Read(9)), FillAction::Read);
    assert_eq!(drain_uart_rx_to_queue(&mut producer, FillEvent::Read(8)), FillAction::Read);
    assert_eq!(drain_uart_rx_to_queue(&mut producer, FillEvent::Read(7)), FillAction::Done);
}

#[test]
fn a_refused_byte_stays_in_the_queue() {
    let mut queue: ByteQueue<4> = ByteQueue::new();
    let (mut producer, mut consumer) = split(&mut queue);
    fill_tx(&mut producer, &mut vec![10, 20, 30]);
    assert_eq!(drain_tx(&mut consumer, 0), Vec::<u8>::new());
    assert_eq!(drain_tx(&mut consumer, 1), vec![10]);
    assert_eq!(drain_tx(&mut consumer, 5), vec![20, 30]);
    assert_eq!(drain_uart_tx_queue(&mut consumer, DrainEvent::Started), DrainAction::Done);
}

#[test]
fn bytes_keep_their_order_over_many_rounds() {
    let mut queue: ByteQueue<4> = ByteQueue::new();
    let (mut producer, mut consumer) = split(&mut queue);
    let sent: Vec<u8> = (0..=255).collect();
    let mut source = sent.clone();
    let mut received = Vec::new();
    let mut round = 0;
    while !source.is_empty() || received.len() < sent.len() {
        fill_tx(&mut producer, &mut source);
        received.extend(drain_tx(&mut consumer, round % 4));
        round += 1;
    }
    assert_eq!(received, sent);
}

#[test]
fn received_bytes_are_flushed_and_reported() {
    let mut queue: ByteQueue<8> = ByteQueue::new();
    let (mut producer, mut consumer) = split(&mut queue);
    let mut dequeued = true;
    // An empty queue: flushed, and nothing to report.
    let action = drain_uart_rx_queue(&mut consumer, &mut dequeued, RxDrainEvent::Started);
    assert_eq!(action, RxDrainAction::Flush);
    let action = drain_uart_rx_queue(&mut consumer, &mut dequeued, RxDrainEvent::Flushed);
    assert_eq!(action, RxDrainAction::Finished(false));

    assert_eq!(drain_uart_rx_to_queue(&mut producer, FillEvent::Started), FillAction::Read);
    assert_eq!(drain_uart_rx_to_queue(&mut producer, FillEvent::Read(65)), FillAction::Read);
    assert_eq!(drain_uart_rx_to_queue(&mut producer, FillEvent::Read(66)), FillAction::Read);
    // A port that takes nothing.
    let action = drain_uart_rx_queue(&mut consumer, &mut dequeued, RxDrainEvent::Started);
    assert_eq!(action, RxDrainAction::Write(65));
    let action = drain_uart_rx_queue(&mut consumer, &mut dequeued, RxDrainEvent::Refused);
    assert_eq!(action, RxDrainAction::Flush);
    let action = drain_uart_rx_queue(&mut consumer, &mut dequeued, RxDrainEvent::Flushed);
    assert_eq!(action, RxDrainAction::Finished(false));
    // A port that takes one byte.
    let action = drain_uart_rx_queue(&mut consumer, &mut dequeued, RxDrainEvent::Started);
    assert_eq!(action, RxDrainAction::Write(65));
    let action = drain_uart_rx_queue(&mut consumer, &mut dequeued, RxDrainEvent::Accepted);
    assert_eq!(action, RxDrainAction::Write(66));
    let action = drain_uart_rx_queue(&mut consumer, &mut dequeued, RxDrainEvent::Refused);
    assert_eq!(action, RxDrainAction::Flush);
    let action = drain_uart_rx_queue(&mut consumer, &mut dequeued, RxDrainEvent::Flushed);
    assert_eq!(action, RxDrainAction::Finished(true));
    // The rest, and a report that does not keep the earlier one.
    let action = drain_uart_rx_queue(&mut consumer, &mut dequeued, RxDrainEvent::Started);
    assert_eq!(action, RxDrainAction::Write(66));
    let action = drain_uart_rx_queue(&mut consumer, &mut dequeued, RxDrainEvent::Accepted);
    assert_eq!(action, RxDrainAction::Flush);
    let action = drain_uart_rx_queue(&mut consumer, &mut dequeued, RxDrainEvent::Flushed);
    assert_eq!(action, RxDrainAction::Finished(true));
    drain_uart_rx_queue(&mut consumer, &mut dequeued, RxDrainEvent::Started);
    let action = drain_uart_rx_queue(&mut consumer, &mut dequeued, RxDrainEvent::Flushed);
    assert_eq!(action, RxDrainAction::Finished(false));
}

#[test]
fn a_full_queue_disables_the_receive_interrupt() {
    let mut queue: ByteQueue<3> = ByteQueue::new();
    let (mut producer, mut consumer) = split(&mut queue);
    assert_eq!(on_uart_rx_irq(&mut producer, RxIrqEvent::Entered), RxIrqAction::Read);
    assert_eq!(on_uart_rx_irq(&mut producer, RxIrqEvent::Read(1)), RxIrqAction::Signal(1));
    assert_eq!(on_uart_rx_irq(&mut producer, RxIrqEvent::Signalled(1)), RxIrqAction::Read);
    assert_eq!(on_uart_rx_irq(&mut producer, RxIrqEvent::Read(2)), RxIrqAction::Signal(2));
    assert_eq!(on_uart_rx_irq(&mut producer, RxIrqEvent::Signalled(2)), RxIrqAction::Disable);
    assert_eq!(on_uart_rx_irq(&mut producer, RxIrqEvent::Disabled), RxIrqAction::Done);
    assert_eq!(on_uart_rx_irq(&mut producer, RxIrqEvent::Entered), RxIrqAction::Disable);
    // The consumer frees space: reading goes on.
    assert_eq!(drain_uart_tx_queue(&mut consumer, DrainEvent::Started), DrainAction::Write(1));
    assert_eq!(drain_uart_tx_queue(&mut consumer, DrainEvent::Accepted), DrainAction::Write(2));
    assert_eq!(on_uart_rx_irq(&mut producer, RxIrqEvent::Entered), RxIrqAction::Read);
    assert_eq!(on_uart_rx_irq(&mut producer, RxIrqEvent::NothingToRead), RxIrqAction::Done);
    // A byte without room is dropped.
    assert_eq!(on_uart_rx_irq(&mut producer, RxIrqEvent::Signalled(3)), RxIrqAction::Disable);
    assert_eq!(on_uart_rx_irq(&mut producer, RxIrqEvent::Signalled(4)), RxIrqAction::Disable);
    assert_eq!(drain_uart_tx_queue(&mut consumer, DrainEvent::Accepted), DrainAction::Write(3));
    assert_eq!(drain_uart_tx_queue(&mut consumer, DrainEvent::Accepted), DrainAction::Done);
}

#[test]
fn start_up_settings() {
    assert_eq!(
        UartConfigAndClock::initial(150_000_000),
        UartConfigAndClock {
            config: UartConfig {
                baudrate: 115_200,
                data_bits: DataBits::Eight,
                stop_bits: StopBits::One,
                parity: None,
            },
            clock: 150_000_000,
        }
    );
}

#[test]
fn new_settings_are_recorded_when_the_uart_runs() {
    let mut uart_config = UartConfigAndClock::initial(150_000_000);
    let before = uart_config.config;
    let expected = UartConfig {
        baudrate: 9_600,
        data_bits: DataBits::Seven,
        stop_bits: StopBits::Two,
        parity: Some(Parity::Even),
    };
    let action = reconfigure_uart(&mut uart_config, &expected, ReconfigureEvent::Started);
    assert_eq!(action, ReconfigureAction::Disable);
    assert_eq!(uart_config.config, before);
    let action = reconfigure_uart(&mut uart_config, &expected, ReconfigureEvent::Disabled);
    let wanted = UartConfigAndClock { config: expected, clock: 150_000_000 };
    assert_eq!(action, ReconfigureAction::Enable(wanted));
    assert_eq!(uart_config.config, before);
    let action = reconfigure_uart(&mut uart_config, &expected, ReconfigureEvent::Enabled);
    assert_eq!(action, ReconfigureAction::Split);
    assert_eq!(uart_config, wanted);
    let action = reconfigure_uart(&mut uart_config, &expected, ReconfigureEvent::Split);
    assert_eq!(action, ReconfigureAction::Done);
    assert_eq!(uart_config, wanted);
}

#[test]
fn line_codings_that_the_uart_can_serve() {
    let coding = LineCoding {
        data_rate: 9_600,
        data_bits: 5,
        stop_bits: LineStopBits::Two,
        parity: LineParity::Odd,
    };
    assert_eq!(
        UartConfig::from_line_coding(coding),
        Some(UartConfig {
            baudrate: 9_600,
            data_bits: DataBits::Five,
            stop_bits: StopBits::Two,
            parity: Some(Parity::Odd),
        })
    );
    for (count, data_bits) in
        [(6, DataBits::Six), (7, DataBits::Seven), (8, DataBits::Eight)]
    {
        let config = UartConfig::from_line_coding(LineCoding { data_bits: count, ..coding });
        assert_eq!(config.unwrap().data_bits, data_bits);
    }
    let even = LineCoding { parity: LineParity::Even, ..coding };
    assert_eq!(UartConfig::from_line_coding(even).unwrap().parity, Some(Parity::Even));
    let off = LineCoding { parity: LineParity::Off, ..coding };
    assert_eq!(UartConfig::from_line_coding(off).unwrap().parity, None);
    let one = LineCoding { stop_bits: LineStopBits::One, ..coding };
    assert_eq!(UartConfig::from_line_coding(one).unwrap().stop_bits, StopBits::One);
}

#[test]
fn line_codings_that_the_uart_cannot_serve() {
    let coding = LineCoding {
        data_rate: 9_600,
        data_bits: 8,
        stop_bits: LineStopBits::One,
        parity: LineParity::Off,
    };
    for data_bits in [0, 4, 9, 16, 255] {
        assert_eq!(UartConfig::from_line_coding(LineCoding { data_bits, ..coding }), None);
    }
    for parity in [LineParity::Mark, LineParity::Space] {
        assert_eq!(UartConfig::from_line_coding(LineCoding { parity, ..coding }), None);
    }
    let stop_bits = LineStopBits::OnePointFive;
    assert_eq!(UartConfig::from_line_coding(LineCoding { stop_bits, ..coding }), None);
}

/// A queue of size `N` takes `N - 1` bytes, whatever has passed through it before.
#[test]
fn a_queue_holds_one_byte_less_than_its_size() {
    let mut queue: ByteQueue<2> = ByteQueue::new();
    let (mut producer, mut consumer) = split(&mut queue);
    assert_eq!(drain_uart_tx_queue(&mut consumer, DrainEvent::Started), DrainAction::Done);
    for byte in 0..10 {
        assert_eq!(drain_usb_to_uart_tx(&mut producer, FillEvent::Started), FillAction::Read);
        let action = drain_usb_to_uart_tx(&mut producer, FillEvent::Read(byte));
        assert_eq!(action, FillAction::Done);
        let action = drain_uart_tx_queue(&mut consumer, DrainEvent::Started);
        assert_eq!(action, DrainAction::Write(byte));
        let action = drain_uart_tx_queue(&mut consumer, DrainEvent::Accepted);
        assert_eq!(action, DrainAction::Done);
    }
}

/// One interrupt reads until the queue is full: as many signals as bytes, and one request
/// to be disabled.
#[test]
fn an_interrupt_signals_each_byte_and_is_disabled_once() {
    for available in 0..6u8 {
        let mut queue: ByteQueue<4> = ByteQueue::new();
        let (mut producer, mut consumer) = split(&mut queue);
        let (mut next, mut signalled, mut disabled) = (0u8, Vec::new(), 0);
        let mut event = RxIrqEvent::Entered;
        loop {
            event = match on_uart_rx_irq(&mut producer, event) {
                RxIrqAction::Read if next < available => {
                    next += 1;
                    RxIrqEvent::Read(next)
                }
                RxIrqAction::Read => RxIrqEvent::NothingToRead,
                RxIrqAction::Signal(byte) => {
                    signalled.push(byte);
                    RxIrqEvent::Signalled(byte)
                }
                RxIrqAction::Disable => {
                    disabled += 1;
                    RxIrqEvent::Disabled
                }
                RxIrqAction::Done => break,
            };
        }
        let read: Vec<u8> = (1..=available.min(3)).collect();
        assert_eq!(signalled, read);
        assert_eq!(disabled, if available >= 3 { 1 } else { 0 });
        assert_eq!(drain_tx(&mut consumer, 10), read);
    }
}
