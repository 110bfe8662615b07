//! The order in which the tasks of the firmware act.
//!
//! Each function here is told what came of the last action of its task and says which
//! action comes next.
use crate::uart_config::UartConfig;
use vstd::prelude::*;

verus! {

/// What happened in the idle task.
#[derive(Clone, Copy, Debug, PartialEq, Eq, Structural)]
pub enum IdleEvent {
    /// The firmware is up.
    Started,
    /// Bytes from the USB host were moved to the transmit queue.
    UsbDrained,
    /// Bytes of the transmit queue were moved to the UART.
    TxDrained,
    /// Bytes of the receive queue were moved to the USB host; whether there was one.
    RxDrained(bool),
    /// The receive interrupt was enabled.
    RxInterruptEnabled,
    /// The idle light was toggled.
    LedToggled,
}

/// What the idle task does next.
#[derive(Clone, Copy, Debug, PartialEq, Eq, Structural)]
pub enum IdleAction {
    DrainUsbToUartTx,
    DrainUartTxQueue,
    DrainUartRxQueue,
    EnableRxInterrupt,
    ToggleIdleLed,
}

/// What happened in the interrupt of the UART.
#[derive(Clone, Copy, Debug, PartialEq, Eq, Structural)]
pub enum UartIrqEvent {
    /// The interrupt was raised.
    Entered,
    /// The debug pin was set high.
    DebugPinRaised,
    /// The received bytes were served.
    RxServed,
    /// The debug pin was set low.
    DebugPinLowered,
}

/// What the interrupt of the UART does next.
#[derive(Clone, Copy, Debug, PartialEq, Eq, Structural)]
pub enum UartIrqAction {
    RaiseDebugPin,
    ServeRx,
    LowerDebugPin,
    Return,
}

/// What happened in the interrupt of the USB controller.
#[derive(Clone, Copy, Debug, PartialEq, Eq, Structural)]
pub enum UsbEvent {
    /// The interrupt was raised.
    Entered,
    /// The debug pin was set high.
    DebugPinRaised,
    /// The USB device was polled; whether one of its classes has work to do.
    Polled(bool),
    /// The debug command task was started, or was running already.
    DapProcessSpawned,
    /// Bytes from the USB host were moved to the transmit queue.
    UsbDrained,
    /// Bytes of the transmit queue were moved to the UART.
    TxDrained,
    /// Bytes of the receive queue were moved to the USB host; whether there was one.
    RxDrained(bool),
    /// The receive interrupt was enabled.
    RxInterruptEnabled,
    /// The line coding of the host was read: the settings that serve it, if any do.
    LineCodingRead(Option<UartConfig>),
    /// The UART was given new settings.
    UartReconfigured,
    /// The USB light was toggled.
    LedToggled,
    /// The debug pin was set low.
    DebugPinLowered,
}

/// What the interrupt of the USB controller does next.
#[derive(Clone, Copy, Debug, PartialEq, Eq, Structural)]
pub enum UsbAction {
    RaiseDebugPin,
    Poll,
    SpawnDapProcess,
    DrainUsbToUartTx,
    DrainUartTxQueue,
    DrainUartRxQueue,
    EnableRxInterrupt,
    ReadLineCoding,
    ReconfigureUart(UartConfig),
    ToggleUsbLed,
    LowerDebugPin,
    Return,
}

/// The next action of the idle task.
pub open spec fn idle_next(event: IdleEvent) -> IdleAction {
    match event {
        IdleEvent::Started => IdleAction::DrainUsbToUartTx,
        IdleEvent::UsbDrained => IdleAction::DrainUartTxQueue,
        IdleEvent::TxDrained => IdleAction::DrainUartRxQueue,
        IdleEvent::RxDrained(true) => IdleAction::EnableRxInterrupt,
        IdleEvent::RxDrained(false) => IdleAction::ToggleIdleLed,
        IdleEvent::RxInterruptEnabled => IdleAction::ToggleIdleLed,
        IdleEvent::LedToggled => IdleAction::DrainUsbToUartTx,
    }
}

/// The next action of the interrupt of the UART.
pub open spec fn uart_irq_next(event: UartIrqEvent) -> UartIrqAction {
    match event {
        UartIrqEvent::Entered => UartIrqAction::RaiseDebugPin,
        UartIrqEvent::DebugPinRaised => UartIrqAction::ServeRx,
        UartIrqEvent::RxServed => UartIrqAction::LowerDebugPin,
        UartIrqEvent::DebugPinLowered => UartIrqAction::Return,
    }
}

/// The next action of the interrupt of the USB controller, for a UART with the settings
/// `current`.
pub open spec fn usbctrl_irq_next(event: UsbEvent, current: UartConfig) -> UsbAction {
    match event {
        UsbEvent::Entered => UsbAction::RaiseDebugPin,
        UsbEvent::DebugPinRaised => UsbAction::Poll,
        UsbEvent::Polled(true) => UsbAction::SpawnDapProcess,
        UsbEvent::Polled(false) => UsbAction::LowerDebugPin,
        UsbEvent::DapProcessSpawned => UsbAction::DrainUsbToUartTx,
        UsbEvent::UsbDrained => UsbAction::DrainUartTxQueue,
        UsbEvent::TxDrained => UsbAction::DrainUartRxQueue,
        UsbEvent::RxDrained(true) => UsbAction::EnableRxInterrupt,
        UsbEvent::RxDrained(false) => UsbAction::ReadLineCoding,
        UsbEvent::RxInterruptEnabled => UsbAction::ReadLineCoding,
        UsbEvent::LineCodingRead(Some(expected)) => if expected != current {
            UsbAction::ReconfigureUart(expected)
        } else {
            UsbAction::ToggleUsbLed
        },
        UsbEvent::LineCodingRead(None) => UsbAction::ToggleUsbLed,
        UsbEvent::UartReconfigured => UsbAction::ToggleUsbLed,
        UsbEvent::LedToggled => UsbAction::LowerDebugPin,
        UsbEvent::DebugPinLowered => UsbAction::Return,
    }
}

/// The idle task, which moves bytes between the queues and the ports over and over.
pub fn idle(event: IdleEvent) -> (action: IdleAction)
    ensures
        action == idle_next(event),
{
    match event {
        IdleEvent::Started => IdleAction::DrainUsbToUartTx,
        IdleEvent::UsbDrained => IdleAction::DrainUartTxQueue,
        IdleEvent::TxDrained => IdleAction::DrainUartRxQueue,
        IdleEvent::RxDrained(rx_dequeued) => if rx_dequeued {
            IdleAction::EnableRxInterrupt
        } else {
            IdleAction::ToggleIdleLed
        },
        IdleEvent::RxInterruptEnabled => IdleAction::ToggleIdleLed,
        IdleEvent::LedToggled => IdleAction::DrainUsbToUartTx,
    }
}

/// The interrupt of the UART.
pub fn uart_irq(event: UartIrqEvent) -> (action: UartIrqAction)
    ensures
        action == uart_irq_next(event),
{
    match event {
        UartIrqEvent::Entered => UartIrqAction::RaiseDebugPin,
        UartIrqEvent::DebugPinRaised => UartIrqAction::ServeRx,
        UartIrqEvent::RxServed => UartIrqAction::LowerDebugPin,
        UartIrqEvent::DebugPinLowered => UartIrqAction::Return,
    }
}

/// The interrupt of the USB controller. Debug commands are not processed here but in a
/// task of a lower priority, so that they cannot hold up the UART.
pub fn usbctrl_irq(event: UsbEvent, uart_config: &UartConfig) -> (action: UsbAction)
    ensures
        action == usbctrl_irq_next(event, *uart_config),
{
    match event {
        UsbEvent::Entered => UsbAction::RaiseDebugPin,
        UsbEvent::DebugPinRaised => UsbAction::Poll,
        UsbEvent::Polled(poll_result) => if poll_result {
            UsbAction::SpawnDapProcess
        } else {
            UsbAction::LowerDebugPin
        },
        UsbEvent::DapProcessSpawned => UsbAction::DrainUsbToUartTx,
        UsbEvent::UsbDrained => UsbAction::DrainUartTxQueue,
        UsbEvent::TxDrained => UsbAction::DrainUartRxQueue,
        UsbEvent::RxDrained(rx_dequeued) => if rx_dequeued {
            UsbAction::EnableRxInterrupt
        } else {
            UsbAction::ReadLineCoding
        },
        UsbEvent::RxInterruptEnabled => UsbAction::ReadLineCoding,
        UsbEvent::LineCodingRead(expected_config) => match expected_config {
            Some(expected) => if expected != *uart_config {
                UsbAction::ReconfigureUart(expected)
            } else {
                UsbAction::ToggleUsbLed
            },
            None => UsbAction::ToggleUsbLed,
        },
        UsbEvent::UartReconfigured => UsbAction::ToggleUsbLed,
        UsbEvent::LedToggled => UsbAction::LowerDebugPin,
        UsbEvent::DebugPinLowered => UsbAction::Return,
    }
}

/// What an interrupt of the USB controller meets: whether the poll finds work, whether
/// a received byte is handed to the host, and the settings that the host asks for.
pub struct UsbWorld {
    pub poll_result: bool,
    pub rx_dequeued: bool,
    pub expected: Option<UartConfig>,
}

/// What comes of an action.
pub open spec fn usb_answer(action: UsbAction, world: UsbWorld) -> UsbEvent {
    match action {
        UsbAction::RaiseDebugPin => UsbEvent::DebugPinRaised,
        UsbAction::Poll => UsbEvent::Polled(world.poll_result),
        UsbAction::SpawnDapProcess => UsbEvent::DapProcessSpawned,
        UsbAction::DrainUsbToUartTx => UsbEvent::UsbDrained,
        UsbAction::DrainUartTxQueue => UsbEvent::TxDrained,
        UsbAction::DrainUartRxQueue => UsbEvent::RxDrained(world.rx_dequeued),
        UsbAction::EnableRxInterrupt => UsbEvent::RxInterruptEnabled,
        UsbAction::ReadLineCoding => UsbEvent::LineCodingRead(world.expected),
        UsbAction::ReconfigureUart(_) => UsbEvent::UartReconfigured,
        UsbAction::ToggleUsbLed => UsbEvent::LedToggled,
        UsbAction::LowerDebugPin => UsbEvent::DebugPinLowered,
        UsbAction::Return => UsbEvent::Entered,
    }
}

/// The actions from `event` on until the interrupt returns, at most `limit` of them.
pub open spec fn usb_run(
    event: UsbEvent,
    world: UsbWorld,
    current: UartConfig,
    limit: nat,
) -> Seq<UsbAction>
    decreases limit,
{
    if limit == 0 {
        Seq::empty()
    } else {
        let action = usbctrl_irq_next(event, current);
        if action == UsbAction::Return {
            seq![action]
        } else {
            seq![action] + usb_run(
                usb_answer(action, world),
                world,
                current,
                (limit - 1) as nat,
            )
        }
    }
}

/// The actions of an interrupt of the USB controller.
pub open spec fn usb_actions(world: UsbWorld, current: UartConfig) -> Seq<UsbAction> {
    let enable = if world.rx_dequeued {
        seq![UsbAction::EnableRxInterrupt]
    } else {
        Seq::empty()
    };
    let reconfigure = match world.expected {
        Some(expected) if expected != current => seq![UsbAction::ReconfigureUart(expected)],
        _ => Seq::empty(),
    };
    if world.poll_result {
        seq![
            UsbAction::RaiseDebugPin,
            UsbAction::Poll,
            UsbAction::SpawnDapProcess,
            UsbAction::DrainUsbToUartTx,
            UsbAction::DrainUartTxQueue,
            UsbAction::DrainUartRxQueue,
        ] + enable + seq![UsbAction::ReadLineCoding] + reconfigure + seq![
            UsbAction::ToggleUsbLed,
            UsbAction::LowerDebugPin,
            UsbAction::Return,
        ]
    } else {
        seq![
            UsbAction::RaiseDebugPin,
            UsbAction::Poll,
            UsbAction::LowerDebugPin,
            UsbAction::Return,
        ]
    }
}

/// The settings of the UART after the actions.
pub open spec fn config_after(actions: Seq<UsbAction>, before: UartConfig) -> UartConfig
    decreases actions.len(),
{
    if actions.len() == 0 {
        before
    } else {
        match actions.last() {
            UsbAction::ReconfigureUart(expected) => expected,
            _ => config_after(actions.drop_last(), before),
        }
    }
}

/// An interrupt of the USB controller does nothing but mark its time on the debug pin
/// where the poll finds no work. Otherwise it starts the debug command task, moves bytes
/// both ways, enables the receive interrupt where received bytes have left their queue,
/// and gives the UART the settings of the host where they are new.
pub proof fn law_usb_actions(world: UsbWorld, current: UartConfig, limit: nat)
    requires
        limit >= 12,
    ensures
        usb_run(UsbEvent::Entered, world, current, limit) == usb_actions(world, current),
{
    reveal_with_fuel(usb_run, 13);
    assert(usb_run(UsbEvent::Entered, world, current, limit) =~= usb_actions(world, current));
}

/// After an interrupt with work to do, the UART has the settings that the host asks
/// for, where it can have them; otherwise it keeps its settings.
pub proof fn law_settings_follow_host(world: UsbWorld, current: UartConfig)
    ensures
        config_after(usb_actions(world, current), current) == if world.poll_result {
            match world.expected {
                Some(expected) => expected,
                None => current,
            }
        } else {
            current
        },
{
    let actions = usb_actions(world, current);
    reveal_with_fuel(config_after, 13);
}

/// Settings that the UART has taken are not given to it again.
pub proof fn law_settings_given_once(world: UsbWorld, current: UartConfig)
    requires
        world.expected == Some(current),
    ensures
        forall|i: int|
            0 <= i < usb_actions(world, current).len() ==> !(
            #[trigger] usb_actions(world, current)[i] is ReconfigureUart),
{
}

/// An interrupt of the USB controller does nothing but mark its time on the debug pin
/// where the poll finds no work.
pub proof fn law_usb_without_work(world: UsbWorld, current: UartConfig, limit: nat)
    requires
        limit >= 12,
        !world.poll_result,
    ensures
        usb_run(UsbEvent::Entered, world, current, limit) == seq![
            UsbAction::RaiseDebugPin,
            UsbAction::Poll,
            UsbAction::LowerDebugPin,
            UsbAction::Return,
        ],
{
    reveal_with_fuel(usb_run, 13);
}

/// Where the poll finds work, an interrupt of the USB controller starts the debug command
/// task, moves bytes both ways, enables the receive interrupt where received bytes have
/// left their queue, and gives the UART the settings of the host where they are new.
pub proof fn law_usb_with_work(world: UsbWorld, current: UartConfig, limit: nat)
    requires
        limit >= 12,
        world.poll_result,
    ensures
        usb_run(UsbEvent::Entered, world, current, limit) == seq![
            UsbAction::RaiseDebugPin,
            UsbAction::Poll,
            UsbAction::SpawnDapProcess,
            UsbAction::DrainUsbToUartTx,
            UsbAction::DrainUartTxQueue,
            UsbAction::DrainUartRxQueue,
        ] + (if world.rx_dequeued {
            seq![UsbAction::EnableRxInterrupt]
        } else {
            Seq::empty()
        }) + seq![UsbAction::ReadLineCoding] + (match world.expected {
            Some(expected) if expected != current => seq![UsbAction::ReconfigureUart(expected)],
            _ => Seq::empty(),
        }) + seq![UsbAction::ToggleUsbLed, UsbAction::LowerDebugPin, UsbAction::Return],
{
    reveal_with_fuel(usb_run, 13);
    assert(usb_run(UsbEvent::Entered, world, current, limit) =~= seq![
        UsbAction::RaiseDebugPin,
        UsbAction::Poll,
        UsbAction::SpawnDapProcess,
        UsbAction::DrainUsbToUartTx,
        UsbAction::DrainUartTxQueue,
        UsbAction::DrainUartRxQueue,
    ] + (if world.rx_dequeued {
        seq![UsbAction::EnableRxInterrupt]
    } else {
        Seq::empty()
    }) + seq![UsbAction::ReadLineCoding] + (match world.expected {
        Some(expected) if expected != current => seq![UsbAction::ReconfigureUart(expected)],
        _ => Seq::empty(),
    }) + seq![UsbAction::ToggleUsbLed, UsbAction::LowerDebugPin, UsbAction::Return]);
}

/// However an interrupt of the USB controller runs, the UART has the settings of the host
/// after it where the poll has found work and there are such settings; otherwise it keeps
/// its own.
pub proof fn law_run_follows_host(world: UsbWorld, current: UartConfig, limit: nat)
    requires
        limit >= 12,
    ensures
        config_after(usb_run(UsbEvent::Entered, world, current, limit), current)
            == if world.poll_result {
            match world.expected {
                Some(expected) => expected,
                None => current,
            }
        } else {
            current
        },
{
    if world.poll_result {
        law_usb_with_work(world, current, limit);
    } else {
        law_usb_without_work(world, current, limit);
    }
    reveal_with_fuel(config_after, 13);
}

/// An interrupt of the USB controller gives the UART settings at most once, and only those
/// that the host asks for and that are new.
pub proof fn law_usb_reconfigures_to_new_settings(
    world: UsbWorld,
    current: UartConfig,
    limit: nat,
    given: UartConfig,
)
    requires
        limit >= 12,
    ensures
        usb_run(UsbEvent::Entered, world, current, limit).contains(
            UsbAction::ReconfigureUart(given),
        ) <==> world.poll_result && world.expected == Some(given) && given != current,
        forall|i: int, j: int|
            0 <= i < j < usb_run(UsbEvent::Entered, world, current, limit).len() ==> !(
            #[trigger] usb_run(UsbEvent::Entered, world, current, limit)[i] is ReconfigureUart
                && #[trigger] usb_run(
                UsbEvent::Entered,
                world,
                current,
                limit,
            )[j] is ReconfigureUart),
{
    let run = usb_run(UsbEvent::Entered, world, current, limit);
    if world.poll_result {
        law_usb_with_work(world, current, limit);
        if world.expected == Some(given) && given != current {
            assert(run[if world.rx_dequeued {
                8
            } else {
                7
            }] == UsbAction::ReconfigureUart(given));
        }
    } else {
        law_usb_without_work(world, current, limit);
    }
}

/// The receive interrupt is enabled exactly where a received byte was handed to the host in
/// an interrupt with work to do.
pub proof fn law_usb_enables_after_handing_out(world: UsbWorld, current: UartConfig, limit: nat)
    requires
        limit >= 12,
    ensures
        usb_run(UsbEvent::Entered, world, current, limit).contains(UsbAction::EnableRxInterrupt)
            <==> world.poll_result && world.rx_dequeued,
{
    let run = usb_run(UsbEvent::Entered, world, current, limit);
    if world.poll_result {
        law_usb_with_work(world, current, limit);
        if world.rx_dequeued {
            assert(run[6] == UsbAction::EnableRxInterrupt);
        }
    } else {
        law_usb_without_work(world, current, limit);
    }
}

/// What comes of an action of the interrupt of the UART.
pub open spec fn uart_irq_answer(action: UartIrqAction) -> UartIrqEvent {
    match action {
        UartIrqAction::RaiseDebugPin => UartIrqEvent::DebugPinRaised,
        UartIrqAction::ServeRx => UartIrqEvent::RxServed,
        UartIrqAction::LowerDebugPin => UartIrqEvent::DebugPinLowered,
        UartIrqAction::Return => UartIrqEvent::Entered,
    }
}

/// The actions of the interrupt of the UART from `event` on until it returns, at most
/// `limit` of them.
pub open spec fn uart_irq_run(event: UartIrqEvent, limit: nat) -> Seq<UartIrqAction>
    decreases limit,
{
    if limit == 0 {
        Seq::empty()
    } else {
        let action = uart_irq_next(event);
        if action == UartIrqAction::Return {
            seq![action]
        } else {
            seq![action] + uart_irq_run(uart_irq_answer(action), (limit - 1) as nat)
        }
    }
}

/// An interrupt of the UART serves the received bytes once, and the debug pin is high
/// exactly while it does.
pub proof fn law_uart_irq_actions(limit: nat)
    requires
        limit >= 4,
    ensures
        uart_irq_run(UartIrqEvent::Entered, limit) == seq![
            UartIrqAction::RaiseDebugPin,
            UartIrqAction::ServeRx,
            UartIrqAction::LowerDebugPin,
            UartIrqAction::Return,
        ],
{
    reveal_with_fuel(uart_irq_run, 5);
}

/// What comes of an action of the idle task.
pub open spec fn idle_answer(action: IdleAction, rx_dequeued: bool) -> IdleEvent {
    match action {
        IdleAction::DrainUsbToUartTx => IdleEvent::UsbDrained,
        IdleAction::DrainUartTxQueue => IdleEvent::TxDrained,
        IdleAction::DrainUartRxQueue => IdleEvent::RxDrained(rx_dequeued),
        IdleAction::EnableRxInterrupt => IdleEvent::RxInterruptEnabled,
        IdleAction::ToggleIdleLed => IdleEvent::LedToggled,
    }
}

/// The actions of the idle task from `event` on until the light is toggled, at most
/// `limit` of them.
pub open spec fn idle_run(event: IdleEvent, rx_dequeued: bool, limit: nat) -> Seq<IdleAction>
    decreases limit,
{
    if limit == 0 {
        Seq::empty()
    } else {
        let action = idle_next(event);
        if action == IdleAction::ToggleIdleLed {
            seq![action]
        } else {
            seq![action] + idle_run(
                idle_answer(action, rx_dequeued),
                rx_dequeued,
                (limit - 1) as nat,
            )
        }
    }
}

/// A round of the idle task moves bytes both ways, enables the receive interrupt where
/// received bytes have left their queue, and toggles the light.
pub proof fn law_idle_round(event: IdleEvent, rx_dequeued: bool, limit: nat)
    requires
        event == IdleEvent::Started || event == IdleEvent::LedToggled,
        limit >= 5,
    ensures
        idle_run(event, rx_dequeued, limit) == seq![
            IdleAction::DrainUsbToUartTx,
            IdleAction::DrainUartTxQueue,
            IdleAction::DrainUartRxQueue,
        ] + (if rx_dequeued {
            seq![IdleAction::EnableRxInterrupt, IdleAction::ToggleIdleLed]
        } else {
            seq![IdleAction::ToggleIdleLed]
        }),
{
    reveal_with_fuel(idle_run, 6);
}

} // verus!
