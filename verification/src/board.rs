//! The Raspberry Pi Pico 2 as a debug probe: what its pins are for and how it
//! introduces itself.
use crate::queue::ByteQueue;
use crate::uart_config::{
    LineCoding, LineParity, LineStopBits, UartConfigAndClock,
};
use vstd::prelude::*;
use vstd::string::StringExecFns;

verus! {

/// The frequency of the crystal in hertz.
pub const XOSC_CRYSTAL_FREQ: u32 = 12_000_000;

/// The size of the receive queue of the UART, which holds one byte less.
pub const UART_RX_QUEUE_SIZE: usize = 256;

/// The size of the transmit queue of the UART, which holds one byte less.
pub const UART_TX_QUEUE_SIZE: usize = 128;

/// The debug ports that the firmware is built for.
#[derive(Clone, Copy, Debug, PartialEq, Eq, Structural)]
pub enum Probe {
    Swd,
    Jtag,
    /// Both, switched at run time.
    Swj,
}

/// What drives the pins of the debug port.
#[derive(Clone, Copy, Debug, PartialEq, Eq, Structural)]
pub enum Transport {
    /// The programmable I/O blocks.
    Pio,
    /// The processor.
    Bitbang,
}

/// What a pin is for.
#[derive(Clone, Copy, Debug, PartialEq, Eq, Structural)]
pub enum PinRole {
    UartTx,
    UartRx,
    /// SWCLK, or TCK.
    Clock,
    /// SWDIO, or TMS.
    Data,
    Reset,
    Tdo,
    Tdi,
    Trst,
    UsbLed,
    AlwaysHigh,
    IdleLed,
    DebugOut,
    DebugIrqOut,
    DebugUsbIrqOut,
}

/// How a pin is set up.
#[derive(Clone, Copy, Debug, PartialEq, Eq, Structural)]
pub enum PinMode {
    /// For the UART.
    Uart,
    /// For a programmable I/O block, with fast edges.
    PioFast,
    /// An input without a pull resistor.
    FloatingInput,
    /// An output, and the level that it starts with, if one is set.
    Output(Option<bool>),
}

/// A pin of the board.
#[derive(Clone, Copy, Debug, PartialEq, Eq, Structural)]
pub struct BoardPin {
    /// The number of the pin.
    pub gpio: u8,
    pub role: PinRole,
    pub mode: PinMode,
}

/// What the board sets of the identity of the USB device. The rest keeps its defaults.
pub struct UsbIdentity {
    pub serial: &'static str,
}

/// What the board sets of the identity that the debugger is told. The rest keeps its
/// defaults.
pub struct DapIdentity {
    pub serial_number: &'static str,
    pub product_firmware_version: String,
}

/// What the processing of debug commands is set up with.
pub struct DapConfig {
    pub identity: DapIdentity,
    /// The rate of the system clock in hertz.
    pub system_clock_hz: u32,
}

/// How the board is set up at start-up.
pub struct BoardSetup {
    /// What drives the pins of the debug port.
    pub transport: Transport,
    /// The pins of the board, those of the debug port last.
    pub pins: Vec<BoardPin>,
    pub usb_identity: UsbIdentity,
    pub dap_config: DapConfig,
    /// The first settings of the UART.
    pub uart_config: UartConfigAndClock,
}

/// What drives the pins: SWD and JTAG use the programmable I/O blocks unless the
/// firmware is built for the processor; the combined port always uses the processor.
pub open spec fn spec_transport(probe: Probe, bitbang: bool) -> Transport {
    if probe == Probe::Swj || bitbang {
        Transport::Bitbang
    } else {
        Transport::Pio
    }
}

/// How the pins of the debug port are set up.
pub open spec fn spec_port_mode(probe: Probe, bitbang: bool) -> PinMode {
    match spec_transport(probe, bitbang) {
        Transport::Pio => PinMode::PioFast,
        Transport::Bitbang => PinMode::FloatingInput,
    }
}

/// The pins of the debug port, in the order in which its transport takes them.
pub open spec fn spec_port_pins(probe: Probe, bitbang: bool) -> Seq<BoardPin> {
    let mode = spec_port_mode(probe, bitbang);
    if probe == Probe::Swd {
        seq![
            BoardPin { gpio: 2, role: PinRole::Clock, mode },
            BoardPin { gpio: 3, role: PinRole::Data, mode },
            BoardPin { gpio: 4, role: PinRole::Reset, mode },
        ]
    } else {
        seq![
            BoardPin { gpio: 2, role: PinRole::Clock, mode },
            BoardPin { gpio: 3, role: PinRole::Data, mode },
            BoardPin { gpio: 6, role: PinRole::Tdi, mode },
            BoardPin { gpio: 5, role: PinRole::Tdo, mode },
            BoardPin { gpio: 7, role: PinRole::Trst, mode },
            BoardPin { gpio: 4, role: PinRole::Reset, mode },
        ]
    }
}

/// The pins that do not depend on the debug port.
pub open spec fn spec_common_pins() -> Seq<BoardPin> {
    seq![
        BoardPin { gpio: 0, role: PinRole::UartTx, mode: PinMode::Uart },
        BoardPin { gpio: 1, role: PinRole::UartRx, mode: PinMode::Uart },
        BoardPin { gpio: 25, role: PinRole::UsbLed, mode: PinMode::Output(None) },
        BoardPin { gpio: 15, role: PinRole::DebugOut, mode: PinMode::Output(Some(false)) },
        BoardPin { gpio: 28, role: PinRole::DebugIrqOut, mode: PinMode::Output(Some(false)) },
        BoardPin { gpio: 27, role: PinRole::DebugUsbIrqOut, mode: PinMode::Output(Some(false)) },
        BoardPin { gpio: 16, role: PinRole::AlwaysHigh, mode: PinMode::Output(Some(true)) },
        BoardPin { gpio: 17, role: PinRole::IdleLed, mode: PinMode::Output(Some(true)) },
    ]
}

/// The serial number that the probe reports.
pub open spec fn spec_serial_number(probe: Probe) -> Seq<char> {
    match probe {
        Probe::Swd => "raspberry-pi-pico-2-swd"@,
        Probe::Jtag => "raspberry-pi-pico-2-jtag"@,
        Probe::Swj => "raspberry-pi-pico-2-swj"@,
    }
}

/// The version that the firmware reports: the given one, or the revision that it was
/// built from.
pub open spec fn spec_git_rev(version: Seq<char>, rev: Seq<char>, dirty: bool) -> Seq<char> {
    if version.len() > 0 {
        version
    } else if rev.len() == 0 {
        "unknown"@
    } else if dirty {
        rev + "-dirty"@
    } else {
        rev
    }
}

/// Whether this is the set-up of a board that serves `probe`.
pub open spec fn is_setup(
    setup: BoardSetup,
    probe: Probe,
    bitbang: bool,
    system_clock_hz: u32,
    peripheral_clock_hz: u32,
    git_rev: Seq<char>,
) -> bool {
    &&& setup.transport == spec_transport(probe, bitbang)
    &&& setup.pins@ == spec_common_pins() + spec_port_pins(probe, bitbang)
    &&& setup.usb_identity.serial@ == spec_serial_number(probe)
    &&& setup.dap_config.identity.serial_number@ == spec_serial_number(probe)
    &&& setup.dap_config.identity.product_firmware_version@ == git_rev
    &&& setup.dap_config.system_clock_hz == system_clock_hz
    &&& setup.uart_config == UartConfigAndClock::spec_initial(peripheral_clock_hz)
}

/// What drives the pins of the debug port.
pub fn transport(probe: Probe, bitbang: bool) -> (transport: Transport)
    ensures
        transport == spec_transport(probe, bitbang),
{
    match probe {
        Probe::Swj => Transport::Bitbang,
        _ => if bitbang {
            Transport::Bitbang
        } else {
            Transport::Pio
        },
    }
}

/// The pins of the board. Those of the debug port come last, in the order in which its
/// transport takes them.
pub fn pins(probe: Probe, bitbang: bool) -> (pins: Vec<BoardPin>)
    ensures
        pins@ == spec_common_pins() + spec_port_pins(probe, bitbang),
{
    let mode = match transport(probe, bitbang) {
        Transport::Pio => PinMode::PioFast,
        Transport::Bitbang => PinMode::FloatingInput,
    };
    let mut pins = vec![
        BoardPin { gpio: 0, role: PinRole::UartTx, mode: PinMode::Uart },
        BoardPin { gpio: 1, role: PinRole::UartRx, mode: PinMode::Uart },
        BoardPin { gpio: 25, role: PinRole::UsbLed, mode: PinMode::Output(None) },
        BoardPin { gpio: 15, role: PinRole::DebugOut, mode: PinMode::Output(Some(false)) },
        BoardPin { gpio: 28, role: PinRole::DebugIrqOut, mode: PinMode::Output(Some(false)) },
        BoardPin { gpio: 27, role: PinRole::DebugUsbIrqOut, mode: PinMode::Output(Some(false)) },
        BoardPin { gpio: 16, role: PinRole::AlwaysHigh, mode: PinMode::Output(Some(true)) },
        BoardPin { gpio: 17, role: PinRole::IdleLed, mode: PinMode::Output(Some(true)) },
    ];
    pins.push(BoardPin { gpio: 2, role: PinRole::Clock, mode });
    pins.push(BoardPin { gpio: 3, role: PinRole::Data, mode });
    match probe {
        Probe::Swd => {},
        Probe::Jtag | Probe::Swj => {
            pins.push(BoardPin { gpio: 6, role: PinRole::Tdi, mode });
            pins.push(BoardPin { gpio: 5, role: PinRole::Tdo, mode });
            pins.push(BoardPin { gpio: 7, role: PinRole::Trst, mode });
        },
    }
    pins.push(BoardPin { gpio: 4, role: PinRole::Reset, mode });
    assert(pins@ =~= spec_common_pins() + spec_port_pins(probe, bitbang));
    pins
}

/// The serial number that the probe reports, on USB and to the debugger.
pub fn serial_number(probe: Probe) -> (serial: &'static str)
    ensures
        serial@ == spec_serial_number(probe),
{
    match probe {
        Probe::Swd => "raspberry-pi-pico-2-swd",
        Probe::Jtag => "raspberry-pi-pico-2-jtag",
        Probe::Swj => "raspberry-pi-pico-2-swj",
    }
}

/// The version that the firmware reports: `version`, where one is given; else the
/// revision `rev` that it was built from, marked where the files of the revision were
/// changed. An empty text counts as none.
pub fn git_rev(version: &str, rev: &str, dirty: bool) -> (git_rev: String)
    ensures
        git_rev@ == spec_git_rev(version@, rev@, dirty),
{
    if !version.is_empty() {
        return version.to_owned();
    }
    if rev.is_empty() {
        return "unknown".to_owned();
    }
    let mut git_rev = rev.to_owned();
    if dirty {
        git_rev.append("-dirty");
    }
    git_rev
}

/// The set-up of a board that serves `probe`, from its clock rates and the version of its
/// firmware. The UART starts with 115200 baud, eight data bits, no parity bit and one
/// stop bit.
pub fn init(
    probe: Probe,
    bitbang: bool,
    system_clock_hz: u32,
    peripheral_clock_hz: u32,
    git_rev: &str,
) -> (setup: BoardSetup)
    ensures
        is_setup(setup, probe, bitbang, system_clock_hz, peripheral_clock_hz, git_rev@),
{
    BoardSetup {
        transport: transport(probe, bitbang),
        pins: pins(probe, bitbang),
        usb_identity: UsbIdentity { serial: serial_number(probe) },
        dap_config: DapConfig {
            identity: DapIdentity {
                serial_number: serial_number(probe),
                product_firmware_version: git_rev.to_owned(),
            },
            system_clock_hz,
        },
        uart_config: UartConfigAndClock::initial(peripheral_clock_hz),
    }
}

/// The receive queue and the transmit queue of the UART, which hold nothing yet.
pub fn uart_queues() -> (queues: (ByteQueue<UART_RX_QUEUE_SIZE>, ByteQueue<UART_TX_QUEUE_SIZE>))
    ensures
        queues.0.contents() == Seq::<u8>::empty(),
        queues.1.contents() == Seq::<u8>::empty(),
{
    (ByteQueue::new(), ByteQueue::new())
}

/// No pin of the board has two uses, whichever debug port it serves.
pub proof fn law_pins_distinct(probe: Probe, bitbang: bool)
    ensures
        forall|i: int, j: int|
            #![trigger (spec_common_pins() + spec_port_pins(probe, bitbang))[i], (
            spec_common_pins() + spec_port_pins(probe, bitbang))[j]]
            0 <= i < j < (spec_common_pins() + spec_port_pins(probe, bitbang)).len() ==> (
            spec_common_pins() + spec_port_pins(probe, bitbang))[i].gpio != (spec_common_pins()
                + spec_port_pins(probe, bitbang))[j].gpio,
{
}

/// What a pin of the debug port is for does not depend on what drives it.
pub proof fn law_roles_of_any_transport(probe: Probe, i: int)
    requires
        0 <= i < spec_port_pins(probe, true).len(),
    ensures
        spec_port_pins(probe, true).len() == spec_port_pins(probe, false).len(),
        spec_port_pins(probe, true)[i].gpio == spec_port_pins(probe, false)[i].gpio,
        spec_port_pins(probe, true)[i].role == spec_port_pins(probe, false)[i].role,
{
}

/// A serial number is the name of the board with the name of the port behind.
pub proof fn law_serial_number_names_port(probe: Probe)
    ensures
        spec_serial_number(probe) == "raspberry-pi-pico-2-"@ + match probe {
            Probe::Swd => "swd"@,
            Probe::Jtag => "jtag"@,
            Probe::Swj => "swj"@,
        },
{
    reveal_strlit("raspberry-pi-pico-2-");
    reveal_strlit("raspberry-pi-pico-2-swd");
    reveal_strlit("raspberry-pi-pico-2-jtag");
    reveal_strlit("raspberry-pi-pico-2-swj");
    reveal_strlit("swd");
    reveal_strlit("jtag");
    reveal_strlit("swj");
}

/// The combined port is driven by the processor however the firmware is built. It has the
/// pins of the JTAG port, those of the SWD port among them.
pub proof fn law_swj_combines_ports(bitbang: bool)
    ensures
        spec_transport(Probe::Swj, bitbang) == Transport::Bitbang,
        spec_port_pins(Probe::Jtag, true) == spec_port_pins(Probe::Swj, bitbang),
        forall|pin: BoardPin|
            spec_port_pins(Probe::Swd, true).contains(pin) ==> #[trigger] spec_port_pins(
                Probe::Swj,
                bitbang,
            ).contains(pin),
{
    let swj = spec_port_pins(Probe::Swj, bitbang);
    assert(swj.contains(swj[0]) && swj.contains(swj[1]) && swj.contains(swj[5]));
}

/// The programmable I/O blocks drive the debug port exactly where it is not the combined
/// one and the firmware is not built for the processor.
pub proof fn law_transport_choice(probe: Probe, bitbang: bool)
    ensures
        spec_transport(probe, bitbang) == Transport::Pio <==> !bitbang && probe != Probe::Swj,
{
}

/// Every pin of the debug port is handed to what drives the port.
pub proof fn law_port_modes(probe: Probe, bitbang: bool)
    ensures
        forall|i: int|
            0 <= i < spec_port_pins(probe, bitbang).len() ==> (#[trigger] spec_port_pins(
                probe,
                bitbang,
            )[i]).mode == match spec_transport(probe, bitbang) {
                Transport::Pio => PinMode::PioFast,
                Transport::Bitbang => PinMode::FloatingInput,
            },
        forall|i: int|
            0 <= i < spec_common_pins().len() ==> (#[trigger] spec_common_pins()[i]).mode
                != PinMode::PioFast && spec_common_pins()[i].mode != PinMode::FloatingInput,
{
}

/// Which pin of the chip each pin of the board is.
pub proof fn law_pin_numbers(probe: Probe, bitbang: bool, i: int)
    requires
        0 <= i < (spec_common_pins() + spec_port_pins(probe, bitbang)).len(),
    ensures
        ({
            let pin = (spec_common_pins() + spec_port_pins(probe, bitbang))[i];
            pin.gpio == match pin.role {
                PinRole::UartTx => 0u8,
                PinRole::UartRx => 1,
                PinRole::Clock => 2,
                PinRole::Data => 3,
                PinRole::Reset => 4,
                PinRole::Tdo => 5,
                PinRole::Tdi => 6,
                PinRole::Trst => 7,
                PinRole::DebugOut => 15,
                PinRole::AlwaysHigh => 16,
                PinRole::IdleLed => 17,
                PinRole::UsbLed => 25,
                PinRole::DebugUsbIrqOut => 27,
                PinRole::DebugIrqOut => 28,
            }
        }),
{
}

/// The pins of the UART belong to it. The debug outputs start low, the idle light and the
/// pin that is always high start high, and the level of the USB light is not set.
pub proof fn law_start_levels(i: int)
    requires
        0 <= i < spec_common_pins().len(),
    ensures
        ({
            let pin = spec_common_pins()[i];
            &&& pin.mode == PinMode::Uart <==> pin.role == PinRole::UartTx || pin.role
                == PinRole::UartRx
            &&& pin.mode == PinMode::Output(Some(false)) <==> pin.role == PinRole::DebugOut
                || pin.role == PinRole::DebugIrqOut || pin.role == PinRole::DebugUsbIrqOut
            &&& pin.mode == PinMode::Output(Some(true)) <==> pin.role == PinRole::IdleLed
                || pin.role == PinRole::AlwaysHigh
            &&& pin.mode == PinMode::Output(None) <==> pin.role == PinRole::UsbLed
        }),
{
}

/// The board has a pin for every role, but for those that JTAG alone has where the port is
/// SWD.
pub proof fn law_every_role_has_a_pin(probe: Probe, bitbang: bool, role: PinRole)
    ensures
        (exists|i: int|
            0 <= i < (spec_common_pins() + spec_port_pins(probe, bitbang)).len() && (
            #[trigger] (spec_common_pins() + spec_port_pins(probe, bitbang))[i]).role == role)
            <==> !(probe == Probe::Swd && (role == PinRole::Tdi || role == PinRole::Tdo || role
            == PinRole::Trst)),
{
    let pins = spec_common_pins() + spec_port_pins(probe, bitbang);
    assert(pins[0].role == PinRole::UartTx && pins[1].role == PinRole::UartRx);
    assert(pins[2].role == PinRole::UsbLed && pins[3].role == PinRole::DebugOut);
    assert(pins[4].role == PinRole::DebugIrqOut && pins[5].role == PinRole::DebugUsbIrqOut);
    assert(pins[6].role == PinRole::AlwaysHigh && pins[7].role == PinRole::IdleLed);
    assert(pins[8].role == PinRole::Clock && pins[9].role == PinRole::Data);
    if probe == Probe::Swd {
        assert(pins[10].role == PinRole::Reset);
    } else {
        assert(pins[10].role == PinRole::Tdi && pins[11].role == PinRole::Tdo);
        assert(pins[12].role == PinRole::Trst && pins[13].role == PinRole::Reset);
    }
}

/// A transport takes the clock first, then the data, and the reset last. One for JTAG takes
/// TDI, TDO and TRST in between.
pub proof fn law_order_of_port_pins(probe: Probe, bitbang: bool)
    ensures
        ({
            let pins = spec_port_pins(probe, bitbang);
            &&& pins.len() == if probe == Probe::Swd {
                3int
            } else {
                6
            }
            &&& pins[0].role == PinRole::Clock
            &&& pins[1].role == PinRole::Data
            &&& pins.last().role == PinRole::Reset
            &&& probe != Probe::Swd ==> pins[2].role == PinRole::Tdi && pins[3].role
                == PinRole::Tdo && pins[4].role == PinRole::Trst
        }),
{
}

/// A version that is given is reported whatever the revision is.
pub proof fn law_version_wins(version: Seq<char>, rev: Seq<char>, dirty: bool)
    requires
        version.len() > 0,
    ensures
        spec_git_rev(version, rev, dirty) == version,
{
}

/// Without a version, the revision is reported: as it is where its files were not changed,
/// and with a mark of six characters behind where they were.
pub proof fn law_revision_reported(rev: Seq<char>)
    requires
        rev.len() > 0,
    ensures
        spec_git_rev(Seq::empty(), rev, false) == rev,
        spec_git_rev(Seq::empty(), rev, true) == rev + seq!['-', 'd', 'i', 'r', 't', 'y'],
{
    reveal_strlit("-dirty");
    assert("-dirty"@ =~= seq!['-', 'd', 'i', 'r', 't', 'y']);
}

/// Without a version and a revision, the version is unknown, whether files were changed or
/// not. Where one of the two is given, it is what the report starts with.
pub proof fn law_unknown_version(version: Seq<char>, rev: Seq<char>, dirty: bool)
    ensures
        version.len() == 0 && rev.len() == 0 ==> spec_git_rev(version, rev, dirty) == seq![
            'u',
            'n',
            'k',
            'n',
            'o',
            'w',
            'n',
        ],
        version.len() > 0 ==> version.is_prefix_of(spec_git_rev(version, rev, dirty)),
        version.len() == 0 ==> rev.is_prefix_of(spec_git_rev(version, rev, dirty)),
{
    reveal_strlit("unknown");
    assert("unknown"@ =~= seq!['u', 'n', 'k', 'n', 'o', 'w', 'n']);
}

/// A set-up passes on what it is given: the rate of the system clock and the version go to
/// the processing of debug commands, the rate of the peripheral clock to the UART, which
/// starts with the settings of 115200 baud, eight data bits, one stop bit and no parity.
/// The probe has one serial number, on USB and for the debugger.
pub proof fn law_setup_passes_on(
    setup: BoardSetup,
    probe: Probe,
    bitbang: bool,
    system_clock_hz: u32,
    peripheral_clock_hz: u32,
    git_rev: Seq<char>,
)
    requires
        is_setup(setup, probe, bitbang, system_clock_hz, peripheral_clock_hz, git_rev),
    ensures
        setup.dap_config.system_clock_hz == system_clock_hz,
        setup.dap_config.identity.product_firmware_version@ == git_rev,
        setup.uart_config.clock == peripheral_clock_hz,
        setup.uart_config.config.serves(
            LineCoding {
                data_rate: 115_200,
                data_bits: 8,
                stop_bits: LineStopBits::One,
                parity: LineParity::Off,
            },
        ),
        setup.usb_identity.serial@ == setup.dap_config.identity.serial_number@,
        setup.usb_identity.serial@ == "raspberry-pi-pico-2-"@ + match probe {
            Probe::Swd => "swd"@,
            Probe::Jtag => "jtag"@,
            Probe::Swj => "swj"@,
        },
        setup.transport == Transport::Pio <==> !bitbang && probe != Probe::Swj,
        setup.pins@ == spec_common_pins() + spec_port_pins(probe, bitbang),
{
    law_serial_number_names_port(probe);
}

/// How the firmware is built changes the modes of the port's pins and what drives them,
/// and nothing else of a set-up.
pub proof fn law_setup_of_any_transport(
    one: BoardSetup,
    other: BoardSetup,
    probe: Probe,
    system_clock_hz: u32,
    peripheral_clock_hz: u32,
    git_rev: Seq<char>,
)
    requires
        is_setup(one, probe, false, system_clock_hz, peripheral_clock_hz, git_rev),
        is_setup(other, probe, true, system_clock_hz, peripheral_clock_hz, git_rev),
    ensures
        one.usb_identity.serial@ == other.usb_identity.serial@,
        one.dap_config.identity.serial_number@ == other.dap_config.identity.serial_number@,
        one.dap_config.identity.product_firmware_version@
            == other.dap_config.identity.product_firmware_version@,
        one.dap_config.system_clock_hz == other.dap_config.system_clock_hz,
        one.uart_config == other.uart_config,
        one.pins@.len() == other.pins@.len(),
        forall|i: int|
            0 <= i < one.pins@.len() ==> (#[trigger] one.pins@[i]).gpio == other.pins@[i].gpio
                && one.pins@[i].role == other.pins@[i].role,
{
}

} // verus!
