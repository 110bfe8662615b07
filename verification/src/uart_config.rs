//! The settings of the UART.
use rp235x_hal::uart::{
    DataBits as HalDataBits, Parity as HalParity, StopBits as HalStopBits,
    UartConfig as HalUartConfig,
};
use vstd::prelude::*;

verus! {

/// The number of data bits of a frame.
#[derive(Clone, Copy, Debug, PartialEq, Eq, Structural)]
pub enum DataBits {
    Five,
    Six,
    Seven,
    Eight,
}

/// The number of stop bits of a frame.
#[derive(Clone, Copy, Debug, PartialEq, Eq, Structural)]
pub enum StopBits {
    One,
    Two,
}

/// The parity bit of a frame.
#[derive(Clone, Copy, Debug, PartialEq, Eq, Structural)]
pub enum Parity {
    Odd,
    Even,
}

/// The settings that the UART can take.
#[derive(Clone, Copy, Debug, PartialEq, Eq, Structural)]
pub struct UartConfig {
    /// The baud rate.
    pub baudrate: u32,
    pub data_bits: DataBits,
    pub stop_bits: StopBits,
    pub parity: Option<Parity>,
}

/// The settings of the UART and the rate of the clock that drives it.
#[derive(Clone, Copy, Debug, PartialEq, Eq, Structural)]
pub struct UartConfigAndClock {
    pub config: UartConfig,
    /// The clock rate in hertz.
    pub clock: u32,
}

/// The stop bits that a USB host can ask for.
#[derive(Clone, Copy, Debug, PartialEq, Eq, Structural)]
pub enum LineStopBits {
    One,
    OnePointFive,
    Two,
}

/// The parity that a USB host can ask for.
#[derive(Clone, Copy, Debug, PartialEq, Eq, Structural)]
pub enum LineParity {
    Off,
    Odd,
    Even,
    Mark,
    Space,
}

/// The line coding that a USB host has asked for.
#[derive(Clone, Copy, Debug, PartialEq, Eq, Structural)]
pub struct LineCoding {
    /// The baud rate.
    pub data_rate: u32,
    pub data_bits: u8,
    pub stop_bits: LineStopBits,
    pub parity: LineParity,
}

/// The number of data bits.
pub open spec fn data_bit_count(data_bits: DataBits) -> int {
    match data_bits {
        DataBits::Five => 5,
        DataBits::Six => 6,
        DataBits::Seven => 7,
        DataBits::Eight => 8,
    }
}

/// The stop bits as a host asks for them.
pub open spec fn line_stop_bits(stop_bits: StopBits) -> LineStopBits {
    match stop_bits {
        StopBits::One => LineStopBits::One,
        StopBits::Two => LineStopBits::Two,
    }
}

/// The parity as a host asks for it.
pub open spec fn line_parity(parity: Option<Parity>) -> LineParity {
    match parity {
        None => LineParity::Off,
        Some(Parity::Odd) => LineParity::Odd,
        Some(Parity::Even) => LineParity::Even,
    }
}

impl UartConfig {
    /// Whether these are the settings that a line coding asks for.
    pub open spec fn serves(self, line_coding: LineCoding) -> bool {
        &&& self.baudrate == line_coding.data_rate
        &&& data_bit_count(self.data_bits) == line_coding.data_bits
        &&& line_stop_bits(self.stop_bits) == line_coding.stop_bits
        &&& line_parity(self.parity) == line_coding.parity
    }

    /// The settings that a line coding asks for, or nothing where the UART has none such.
    pub fn from_line_coding(line_coding: LineCoding) -> (config: Option<UartConfig>)
        ensures
            config matches Some(c) ==> c.serves(line_coding),
            config is None ==> forall|c: UartConfig| !#[trigger] c.serves(line_coding),
    {
        let data_bits = match line_coding.data_bits {
            5 => DataBits::Five,
            6 => DataBits::Six,
            7 => DataBits::Seven,
            8 => DataBits::Eight,
            _ => return None,
        };
        let stop_bits = match line_coding.stop_bits {
            LineStopBits::One => StopBits::One,
            LineStopBits::OnePointFive => return None,
            LineStopBits::Two => StopBits::Two,
        };
        let parity = match line_coding.parity {
            LineParity::Off => None,
            LineParity::Odd => Some(Parity::Odd),
            LineParity::Even => Some(Parity::Even),
            LineParity::Mark => return None,
            LineParity::Space => return None,
        };
        Some(UartConfig { baudrate: line_coding.data_rate, data_bits, stop_bits, parity })
    }

    /// `rp235x_hal::uart::UartConfig::default`: 115200 baud, eight data bits, no parity
    /// bit and one stop bit. Its result is handed out as plain values.
    #[verifier::external_body]
    pub(crate) fn hal_default() -> (config: UartConfig)
        ensures
            config == (UartConfig {
                baudrate: 115_200,
                data_bits: DataBits::Eight,
                stop_bits: StopBits::One,
                parity: None,
            }),
    {
        let hal = HalUartConfig::default();
        UartConfig {
            baudrate: hal.baudrate.to_Hz(),
            data_bits: match hal.data_bits {
                HalDataBits::Five => DataBits::Five,
                HalDataBits::Six => DataBits::Six,
                HalDataBits::Seven => DataBits::Seven,
                HalDataBits::Eight => DataBits::Eight,
            },
            stop_bits: match hal.stop_bits { HalStopBits::One => StopBits::One,
                HalStopBits::Two => StopBits::Two },
            parity: match hal.parity { None => None, Some(HalParity::Odd) => Some(Parity::Odd),
                Some(HalParity::Even) => Some(Parity::Even) },
        }
    }
}

impl UartConfigAndClock {
    /// The settings after start-up.
    pub open spec fn spec_initial(clock: u32) -> UartConfigAndClock {
        UartConfigAndClock {
            config: UartConfig {
                baudrate: 115_200,
                data_bits: DataBits::Eight,
                stop_bits: StopBits::One,
                parity: None,
            },
            clock,
        }
    }

    /// The settings after start-up, for a UART that runs from a clock of `clock` hertz.
    pub fn initial(clock: u32) -> (uart_config: UartConfigAndClock)
        ensures
            uart_config == UartConfigAndClock::spec_initial(clock),
    {
        UartConfigAndClock { config: UartConfig::hal_default(), clock }
    }
}

/// Settings have the rate that the host asks for, over the whole range of rates.
pub proof fn law_rate_of_host(config: UartConfig, line_coding: LineCoding)
    requires
        config.serves(line_coding),
    ensures
        config.baudrate == line_coding.data_rate,
{
}

/// No line coding is served by two settings, and no settings serve two line codings: what
/// the host asks for and what the UART is given determine each other.
pub proof fn law_settings_match_one_coding(
    config: UartConfig,
    line_coding: LineCoding,
    other_config: UartConfig,
    other_coding: LineCoding,
)
    requires
        config.serves(line_coding),
        other_config.serves(other_coding),
    ensures
        config == other_config <==> line_coding == other_coding,
        config.baudrate == other_config.baudrate <==> line_coding.data_rate
            == other_coding.data_rate,
        config.data_bits == other_config.data_bits <==> line_coding.data_bits
            == other_coding.data_bits,
        config.stop_bits == other_config.stop_bits <==> line_coding.stop_bits
            == other_coding.stop_bits,
        config.parity == other_config.parity <==> line_coding.parity == other_coding.parity,
{
}

/// Every setting of the UART serves the line coding that describes it, and is the only one
/// that does: it comes back unchanged.
pub proof fn law_settings_round_trip(config: UartConfig, other: UartConfig)
    ensures
        ({
            let described = LineCoding {
                data_rate: config.baudrate,
                data_bits: match config.data_bits {
                    DataBits::Five => 5,
                    DataBits::Six => 6,
                    DataBits::Seven => 7,
                    DataBits::Eight => 8,
                },
                stop_bits: match config.stop_bits {
                    StopBits::One => LineStopBits::One,
                    StopBits::Two => LineStopBits::Two,
                },
                parity: match config.parity {
                    None => LineParity::Off,
                    Some(Parity::Odd) => LineParity::Odd,
                    Some(Parity::Even) => LineParity::Even,
                },
            };
            &&& config.serves(described)
            &&& other.serves(described) ==> other == config
        }),
{
}

/// The UART can serve exactly the line codings of five to eight data bits, one or two stop
/// bits, and no, odd or even parity, at any rate.
pub proof fn law_codings_served(line_coding: LineCoding)
    ensures
        (exists|config: UartConfig| #[trigger] config.serves(line_coding)) <==> {
            &&& 5 <= line_coding.data_bits <= 8
            &&& line_coding.stop_bits != LineStopBits::OnePointFive
            &&& line_coding.parity != LineParity::Mark
            &&& line_coding.parity != LineParity::Space
        },
{
    let config = UartConfig {
        baudrate: line_coding.data_rate,
        data_bits: if line_coding.data_bits == 5 {
            DataBits::Five
        } else if line_coding.data_bits == 6 {
            DataBits::Six
        } else if line_coding.data_bits == 7 {
            DataBits::Seven
        } else {
            DataBits::Eight
        },
        stop_bits: if line_coding.stop_bits == LineStopBits::One {
            StopBits::One
        } else {
            StopBits::Two
        },
        parity: if line_coding.parity == LineParity::Off {
            None
        } else if line_coding.parity == LineParity::Odd {
            Some(Parity::Odd)
        } else {
            Some(Parity::Even)
        },
    };
    assert(5 <= line_coding.data_bits <= 8 && line_coding.stop_bits != LineStopBits::OnePointFive
        && line_coding.parity != LineParity::Mark && line_coding.parity != LineParity::Space
        ==> config.serves(line_coding));
}

/// The UART starts with the same settings whatever its clock, which it keeps: those that a
/// host asks for with 115200 baud, eight data bits, one stop bit and no parity.
pub proof fn law_first_settings(clock: u32, other_clock: u32)
    ensures
        UartConfigAndClock::spec_initial(clock).clock == clock,
        UartConfigAndClock::spec_initial(clock).config == UartConfigAndClock::spec_initial(
            other_clock,
        ).config,
        UartConfigAndClock::spec_initial(clock).config.serves(
            LineCoding {
                data_rate: 115_200,
                data_bits: 8,
                stop_bits: LineStopBits::One,
                parity: LineParity::Off,
            },
        ),
{
}

} // verus!
