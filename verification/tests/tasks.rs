use rust_dap_rp::board::{
    git_rev, init, pins, serial_number, transport, uart_queues, PinMode, PinRole, Probe, Transport,
};
use rust_dap_rp::bridge::{drain_uart_rx_queue, on_uart_rx_irq, RxDrainAction, RxDrainEvent};
use rust_dap_rp::bridge::{drain_usb_to_uart_tx, FillAction, FillEvent, RxIrqAction, RxIrqEvent};
use rust_dap_rp::queue::split;
use rust_dap_rp::tasks::{
    idle, uart_irq, usbctrl_irq, IdleAction, IdleEvent, UartIrqAction, UartIrqEvent, UsbAction,
    UsbEvent,
};
use rust_dap_rp::uart_config::{UartConfig, UartConfigAndClock};

/// The actions of one USB interrupt.
fn usb_actions(
    poll_result: bool,
    rx_dequeued: bool,
    expected: Option<UartConfig>,
    current: &UartConfig,
) -> Vec<UsbAction> {
    let mut actions = Vec::new();
    let mut event = UsbEvent::Entered;
    loop {
        let action = usbctrl_irq(event, current);
        actions.push(action);
        event = match action {
            UsbAction::RaiseDebugPin => UsbEvent::DebugPinRaised,
            UsbAction::Poll => UsbEvent::Polled(poll_result),
            UsbAction::SpawnDapProcess => UsbEvent::DapProcessSpawned,
            UsbAction::DrainUsbToUartTx => UsbEvent::UsbDrained,
            UsbAction::DrainUartTxQueue => UsbEvent::TxDrained,
            UsbAction::DrainUartRxQueue => UsbEvent::RxDrained(rx_dequeued),
            UsbAction::EnableRxInterrupt => UsbEvent::RxInterruptEnabled,
            UsbAction::ReadLineCoding => UsbEvent::LineCodingRead(expected),
            UsbAction::ReconfigureUart(_) => UsbEvent::UartReconfigured,
            UsbAction::ToggleUsbLed => UsbEvent::LedToggled,
            UsbAction::LowerDebugPin => UsbEvent::DebugPinLowered,
            UsbAction::Return => return actions,
        };
    }
}

#[test]
fn usb_interrupt_without_work() {
    let current = UartConfigAndClock::initial(1).config;
    let other = UartConfig { baudrate: 300, ..current };
    assert_eq!(
        usb_actions(false, true, Some(other), &current),
        vec![
            UsbAction::RaiseDebugPin,
            UsbAction::Poll,
            UsbAction::LowerDebugPin,
            UsbAction::Return,
        ]
    );
}

#[test]
fn usb_interrupt_with_new_settings() {
    let current = UartConfigAndClock::initial(1).config;
    let other = UartConfig { baudrate: 300, ..current };
    assert_eq!(
        usb_actions(true, true, Some(other), &current),
        vec![
            UsbAction::RaiseDebugPin,
            UsbAction::Poll,
            UsbAction::SpawnDapProcess,
            UsbAction::DrainUsbToUartTx,
            UsbAction::DrainUartTxQueue,
            UsbAction::DrainUartRxQueue,
            UsbAction::EnableRxInterrupt,
            UsbAction::ReadLineCoding,
            UsbAction::ReconfigureUart(other),
            UsbAction::ToggleUsbLed,
            UsbAction::LowerDebugPin,
            UsbAction::Return,
        ]
    );
}

#[test]
fn usb_interrupt_with_settings_as_they_are() {
    let current = UartConfigAndClock::initial(1).config;
    let expected = vec![
        UsbAction::RaiseDebugPin,
        UsbAction::Poll,
        UsbAction::SpawnDapProcess,
        UsbAction::DrainUsbToUartTx,
        UsbAction::DrainUartTxQueue,
        UsbAction::DrainUartRxQueue,
        UsbAction::ReadLineCoding,
        UsbAction::ToggleUsbLed,
        UsbAction::LowerDebugPin,
        UsbAction::Return,
    ];
    assert_eq!(usb_actions(true, false, Some(current), &current), expected);
    assert_eq!(usb_actions(true, false, None, &current), expected);
}

#[test]
fn idle_rounds() {
    assert_eq!(idle(IdleEvent::Started), IdleAction::DrainUsbToUartTx);
    assert_eq!(idle(IdleEvent::UsbDrained), IdleAction::DrainUartTxQueue);
    assert_eq!(idle(IdleEvent::TxDrained), IdleAction::DrainUartRxQueue);
    assert_eq!(idle(IdleEvent::RxDrained(true)), IdleAction::EnableRxInterrupt);
    assert_eq!(idle(IdleEvent::RxDrained(false)), IdleAction::ToggleIdleLed);
    assert_eq!(idle(IdleEvent::RxInterruptEnabled), IdleAction::ToggleIdleLed);
    assert_eq!(idle(IdleEvent::LedToggled), IdleAction::DrainUsbToUartTx);
}

#[test]
fn uart_interrupt() {
    assert_eq!(uart_irq(UartIrqEvent::Entered), UartIrqAction::RaiseDebugPin);
    assert_eq!(uart_irq(UartIrqEvent::DebugPinRaised), UartIrqAction::ServeRx);
    assert_eq!(uart_irq(UartIrqEvent::RxServed), UartIrqAction::LowerDebugPin);
    assert_eq!(uart_irq(UartIrqEvent::DebugPinLowered), UartIrqAction::Return);
}

#[test]
fn transports() {
    assert_eq!(transport(Probe::Swd, false), Transport::Pio);
    assert_eq!(transport(Probe::Swd, true), Transport::Bitbang);
    assert_eq!(transport(Probe::Jtag, false), Transport::Pio);
    assert_eq!(transport(Probe::Jtag, true), Transport::Bitbang);
    assert_eq!(transport(Probe::Swj, false), Transport::Bitbang);
    assert_eq!(transport(Probe::Swj, true), Transport::Bitbang);
}

#[test]
fn serial_numbers() {
    assert_eq!(serial_number(Probe::Swd), "raspberry-pi-pico-2-swd");
    assert_eq!(serial_number(Probe::Jtag), "raspberry-pi-pico-2-jtag");
    assert_eq!(serial_number(Probe::Swj), "raspberry-pi-pico-2-swj");
}

#[test]
fn pin_assignment() {
    for probe in [Probe::Swd, Probe::Jtag, Probe::Swj] {
        for bitbang in [false, true] {
            let pins = pins(probe, bitbang);
            assert_eq!(pins.len(), if probe == Probe::Swd { 11 } else { 14 });
            for (i, a) in pins.iter().enumerate() {
                for b in &pins[i + 1..] {
                    assert_ne!(a.gpio, b.gpio);
                }
            }
            let gpio = |role| pins.iter().find(|p| p.role == role).map(|p| p.gpio);
            assert_eq!(gpio(PinRole::UartTx), Some(0));
            assert_eq!(gpio(PinRole::UartRx), Some(1));
            assert_eq!(gpio(PinRole::Clock), Some(2));
            assert_eq!(gpio(PinRole::Data), Some(3));
            assert_eq!(gpio(PinRole::Reset), Some(4));
            let jtag = probe != Probe::Swd;
            assert_eq!(gpio(PinRole::Tdo), if jtag { Some(5) } else { None });
            assert_eq!(gpio(PinRole::Tdi), if jtag { Some(6) } else { None });
            assert_eq!(gpio(PinRole::Trst), if jtag { Some(7) } else { None });
            assert_eq!(gpio(PinRole::UsbLed), Some(25));
            assert_eq!(gpio(PinRole::IdleLed), Some(17));
            assert_eq!(gpio(PinRole::DebugOut), Some(15));
            assert_eq!(gpio(PinRole::DebugIrqOut), Some(28));
            assert_eq!(gpio(PinRole::DebugUsbIrqOut), Some(27));
            assert_eq!(gpio(PinRole::AlwaysHigh), Some(16));
            let clock = pins.iter().find(|p| p.role == PinRole::Clock).unwrap();
            let pio = transport(probe, bitbang) == Transport::Pio;
            assert_eq!(clock.mode, if pio { PinMode::PioFast } else { PinMode::FloatingInput });
        }
    }
}

#[test]
fn reported_version() {
    assert_eq!(git_rev("1.2.3", "abcdef0", true), "1.2.3");
    assert_eq!(git_rev("", "abcdef0", false), "abcdef0");
    assert_eq!(git_rev("", "abcdef0", true), "abcdef0-dirty");
    assert_eq!(git_rev("", "", true), "unknown");
    assert_eq!(git_rev("", "", false), "unknown");
}

#[test]
fn board_setup() {
    let setup = init(Probe::Swd, false, 150_000_000, 125_000_000, "abcdef0-dirty");
    assert_eq!(setup.transport, Transport::Pio);
    assert_eq!(setup.pins, pins(Probe::Swd, false));
    assert_eq!(setup.usb_identity.serial, "raspberry-pi-pico-2-swd");
    assert_eq!(setup.dap_config.identity.serial_number, "raspberry-pi-pico-2-swd");
    assert_eq!(setup.dap_config.identity.product_firmware_version, "abcdef0-dirty");
    assert_eq!(setup.dap_config.system_clock_hz, 150_000_000);
    assert_eq!(setup.uart_config, UartConfigAndClock::initial(125_000_000));
    assert_eq!(setup.uart_config.clock, 125_000_000);
    assert_eq!(setup.uart_config.config.baudrate, 115_200);

    let setup = init(Probe::Swj, false, 1, 2, "");
    assert_eq!(setup.transport, Transport::Bitbang);
    assert_eq!(setup.pins, pins(Probe::Swj, true));
    assert_eq!(setup.usb_identity.serial, "raspberry-pi-pico-2-swj");
    assert_eq!(setup.dap_config.identity.serial_number, "raspberry-pi-pico-2-swj");
    assert_eq!(setup.dap_config.identity.product_firmware_version, "");
}

#[test]
fn output_levels_at_start_up() {
    let pins = pins(Probe::Jtag, true);
    let mode = |role| pins.iter().find(|p| p.role == role).map(|p| p.mode);
    assert_eq!(mode(PinRole::UartTx), Some(PinMode::Uart));
    assert_eq!(mode(PinRole::UsbLed), Some(PinMode::Output(None)));
    assert_eq!(mode(PinRole::DebugOut), Some(PinMode::Output(Some(false))));
    assert_eq!(mode(PinRole::DebugIrqOut), Some(PinMode::Output(Some(false))));
    assert_eq!(mode(PinRole::DebugUsbIrqOut), Some(PinMode::Output(Some(false))));
    assert_eq!(mode(PinRole::AlwaysHigh), Some(PinMode::Output(Some(true))));
    assert_eq!(mode(PinRole::IdleLed), Some(PinMode::Output(Some(true))));
    assert_eq!(mode(PinRole::Trst), Some(PinMode::FloatingInput));
}

#[test]
fn pins_as_the_transport_takes_them() {
    let roles = |probe, bitbang| {
        let pins = pins(probe, bitbang);
        pins[8..].iter().map(|p| (p.role, p.gpio)).collect::<Vec<_>>()
    };
    let swd = vec![(PinRole::Clock, 2), (PinRole::Data, 3), (PinRole::Reset, 4)];
    let jtag = vec![
        (PinRole::Clock, 2),
        (PinRole::Data, 3),
        (PinRole::Tdi, 6),
        (PinRole::Tdo, 5),
        (PinRole::Trst, 7),
        (PinRole::Reset, 4),
    ];
    for bitbang in [false, true] {
        assert_eq!(roles(Probe::Swd, bitbang), swd);
        assert_eq!(roles(Probe::Jtag, bitbang), jtag);
        assert_eq!(roles(Probe::Swj, bitbang), jtag);
    }
}

#[test]
fn queues_start_empty_with_room_for_all_but_one() {
    let (mut rx, mut tx) = uart_queues();
    let (mut rx_producer, mut rx_consumer) = split(&mut rx);
    let (mut tx_producer, _tx_consumer) = split(&mut tx);
    let mut dequeued = false;
    let action = drain_uart_rx_queue(&mut rx_consumer, &mut dequeued, RxDrainEvent::Started);
    assert_eq!(action, RxDrainAction::Flush);
    let mut action = on_uart_rx_irq(&mut rx_producer, RxIrqEvent::Entered);
    let mut received = 0;
    while action == RxIrqAction::Read {
        received += 1;
        action = on_uart_rx_irq(&mut rx_producer, RxIrqEvent::Signalled(7));
    }
    assert_eq!((received, action), (255, RxIrqAction::Disable));
    let mut sent = 0;
    let mut event = FillEvent::Started;
    while drain_usb_to_uart_tx(&mut tx_producer, event) == FillAction::Read {
        sent += 1;
        event = FillEvent::Read(7);
    }
    assert_eq!(sent, 127);
}
