//! What a state machine of a programmable I/O block does with a program.
//!
//! The model covers instructions on whole words, the only ones that the programs of
//! this crate hold, and a receive queue that is emptied in time. What other instructions
//! do is left open.
use crate::assembler::{Instruction, Wrap};
use vstd::prelude::*;

verus! {

/// The state of a state machine and of the pins that it drives.
pub struct Machine {
    /// The number of the next instruction.
    pub pc: int,
    /// The scratch registers.
    pub x: u32,
    pub y: u32,
    /// The output and the input shift register.
    pub osr: u32,
    pub isr: u32,
    /// The output values and the directions of the pins; a set bit is an output.
    pub pins: u32,
    pub pindirs: u32,
    /// What the pins read.
    pub levels: u32,
    /// The words that wait for the program, and those that it has handed out.
    pub tx: Seq<u32>,
    pub rx: Seq<u32>,
    /// The cycles that have passed.
    pub cycles: nat,
}

/// The number of the instruction after the one at `pc`.
pub open spec fn following(pc: int, wrap: Wrap) -> int {
    if pc == wrap.source {
        wrap.target as int
    } else {
        pc + 1
    }
}

/// The state after one instruction. An instruction that has to wait, such as a `pull`
/// without a word to load, leaves all but the cycles as they are.
pub open spec fn step(m: Machine, program: Seq<Instruction>, wrap: Wrap) -> Machine {
    let next = following(m.pc, wrap);
    let tick = Machine { pc: next, cycles: m.cycles + 1, ..m };
    match program[m.pc] {
        Instruction::Jmp { condition: pio::JmpCondition::YDecNonZero, address, delay } => Machine {
            pc: if m.y != 0 {
                address as int
            } else {
                next
            },
            y: if m.y != 0 {
                (m.y - 1) as u32
            } else {
                u32::MAX
            },
            cycles: m.cycles + 1 + delay as nat,
            ..m
        },
        Instruction::In { source: pio::InSource::PINS, bit_count: 32, delay } => Machine {
            isr: m.levels,
            cycles: m.cycles + 1 + delay as nat,
            ..tick
        },
        Instruction::Out { destination: pio::OutDestination::PINS, bit_count: 32 } => Machine {
            pins: m.osr,
            osr: 0,
            ..tick
        },
        Instruction::Out { destination: pio::OutDestination::PINDIRS, bit_count: 32 } => Machine {
            pindirs: m.osr,
            osr: 0,
            ..tick
        },
        Instruction::Out { destination: pio::OutDestination::Y, bit_count: 32 } => Machine {
            y: m.osr,
            osr: 0,
            ..tick
        },
        Instruction::Pull { if_empty: false, block: true } => if m.tx.len() == 0 {
            Machine { pc: m.pc, ..tick }
        } else {
            Machine { osr: m.tx.first(), tx: m.tx.drop_first(), ..tick }
        },
        Instruction::Push { if_full: false, block: true } => Machine {
            rx: m.rx.push(m.isr),
            isr: 0,
            ..tick
        },
        Instruction::Mov {
            destination: pio::MovDestination::X,
            op: pio::MovOperation::None,
            source: pio::MovSource::NULL,
        } => Machine { x: 0, ..tick },
        _ => arbitrary(),
    }
}

/// The state after `steps` instructions.
pub open spec fn run(m: Machine, program: Seq<Instruction>, wrap: Wrap, steps: nat) -> Machine
    decreases steps,
{
    if steps == 0 {
        m
    } else {
        step(run(m, program, wrap, (steps - 1) as nat), program, wrap)
    }
}

} // verus!
