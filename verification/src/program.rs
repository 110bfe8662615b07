//! The pin programs of the programmable I/O blocks.
use crate::assembler::{
    assemble_with_wrap, bind, in_with_delay, jmp_with_delay, mov, new_assembler, new_label, out,
    pull, push, Instruction, PioVersion, Program, SideSet, Wrap,
};
use crate::machine::Machine;
use vstd::prelude::*;

verus! {

/// The pin program. It takes commands of three words: the output values of the pins,
/// the directions of the pins, and a time to wait. It answers each with the state of
/// the pins.
pub open spec fn swj_pins_instructions() -> Seq<Instruction> {
    seq![
        // Load and set the output values.
        Instruction::Pull { if_empty: false, block: true },
        Instruction::Out { destination: pio::OutDestination::PINS, bit_count: 32 },
        // Load and set the directions.
        Instruction::Pull { if_empty: false, block: true },
        Instruction::Out { destination: pio::OutDestination::PINDIRS, bit_count: 32 },
        // Load the time to wait.
        Instruction::Pull { if_empty: false, block: true },
        Instruction::Out { destination: pio::OutDestination::Y, bit_count: 32 },
        // Ten cycles for each unit of time.
        Instruction::Jmp { condition: pio::JmpCondition::YDecNonZero, address: 6, delay: 9 },
        // Report the state of the pins.
        Instruction::In { source: pio::InSource::PINS, bit_count: 32, delay: 0 },
        Instruction::Push { if_full: false, block: true },
    ]
}

/// The program that hands the pins over as inputs.
pub open spec fn all_pins_to_input_instructions() -> Seq<Instruction> {
    seq![
        Instruction::Mov {
            destination: pio::MovDestination::X,
            op: pio::MovOperation::None,
            source: pio::MovSource::NULL,
        },
        Instruction::Out { destination: pio::OutDestination::PINDIRS, bit_count: 32 },
    ]
}

/// Assembles the pin program, which starts over after its last instruction.
pub fn swj_pins_program() -> (program: Program)
    ensures
        program.code@ == crate::assembler::encoded(swj_pins_instructions()),
        program.code@ == seq![
            0x80A0u16,
            0x6000,
            0x80A0,
            0x6080,
            0x80A0,
            0x6040,
            0x0986,
            0x4000,
            0x8020,
        ],
        program.origin == None::<u8>,
        program.wrap == (Wrap { source: 8, target: 0 }),
        program.side_set == (SideSet { optional: false, bits: 0, pindirs: false }),
        program.version == PioVersion::V0,
{
    let mut a = new_assembler();
    let mut delay_loop = new_label(&mut a);
    let mut wrap_target = new_label(&mut a);
    let mut wrap_source = new_label(&mut a);

    bind(&mut a, &mut wrap_target);
    pull(&mut a, false, true);
    out(&mut a, pio::OutDestination::PINS, 32);
    pull(&mut a, false, true);
    out(&mut a, pio::OutDestination::PINDIRS, 32);
    pull(&mut a, false, true);
    out(&mut a, pio::OutDestination::Y, 32);
    bind(&mut a, &mut delay_loop);
    jmp_with_delay(&mut a, pio::JmpCondition::YDecNonZero, &mut delay_loop, 9);
    in_with_delay(&mut a, pio::InSource::PINS, 32, 0);
    push(&mut a, false, true);
    bind(&mut a, &mut wrap_source);
    assert(crate::assembler::instructions(a) =~= swj_pins_instructions());
    assemble_with_wrap(a, wrap_source, wrap_target)
}

/// Assembles the program that hands the pins over, which starts over after its last
/// instruction.
pub fn all_pins_to_input_program() -> (program: Program)
    ensures
        program.code@ == crate::assembler::encoded(all_pins_to_input_instructions()),
        program.code@ == seq![0xA023u16, 0x6080],
        program.origin == None::<u8>,
        program.wrap == (Wrap { source: 1, target: 0 }),
        program.side_set == (SideSet { optional: false, bits: 0, pindirs: false }),
        program.version == PioVersion::V0,
{
    let mut a = new_assembler();
    let mut wrap_target = new_label(&mut a);
    let mut wrap_source = new_label(&mut a);

    bind(&mut a, &mut wrap_target);
    mov(&mut a, pio::MovDestination::X, pio::MovOperation::None, pio::MovSource::NULL);
    out(&mut a, pio::OutDestination::PINDIRS, 32);
    bind(&mut a, &mut wrap_source);
    assert(crate::assembler::instructions(a) =~= all_pins_to_input_instructions());
    assemble_with_wrap(a, wrap_source, wrap_target)
}

/// How the pin program wraps around.
pub open spec fn swj_pins_wrap() -> Wrap {
    Wrap { source: 8, target: 0 }
}

/// The delay loop counts down to its end, ten cycles at a time.
proof fn lemma_delay_loop(m: Machine, steps: nat)
    requires
        m.pc == 6,
        steps <= m.y,
    ensures
        ({
            let program = swj_pins_instructions();
            crate::machine::run(m, program, swj_pins_wrap(), steps) == (Machine {
                y: (m.y - steps) as u32,
                cycles: m.cycles + 10 * steps,
                ..m
            })
        }),
    decreases steps,
{
    if steps > 0 {
        lemma_delay_loop(m, (steps - 1) as nat);
    }
}

/// Running on after a run.
proof fn lemma_run_on(m: Machine, program: Seq<Instruction>, wrap: Wrap, a: nat, b: nat)
    ensures
        crate::machine::run(m, program, wrap, a + b) == crate::machine::run(
            crate::machine::run(m, program, wrap, a),
            program,
            wrap,
            b,
        ),
    decreases b,
{
    if b > 0 {
        lemma_run_on(m, program, wrap, a, (b - 1) as nat);
    }
}

/// The wait of the pin program: before it reads the pins, the first word of a command has
/// set the output values, the second the directions, and the third has been waited for at
/// ten cycles a unit and ten more. Nothing has been read or handed out yet.
pub proof fn law_swj_pins_wait(m: Machine, values: u32, directions: u32, wait_us: u32)
    requires
        m.pc == 0,
        m.tx.len() >= 3,
        m.tx[0] == values,
        m.tx[1] == directions,
        m.tx[2] == wait_us,
    ensures
        crate::machine::run(
            m,
            swj_pins_instructions(),
            swj_pins_wrap(),
            (7 + wait_us) as nat,
        ) == (Machine {
            pc: 7,
            pins: values,
            pindirs: directions,
            y: u32::MAX,
            osr: 0,
            tx: m.tx.skip(3),
            cycles: m.cycles + 6 + 10 * (wait_us as nat + 1),
            ..m
        }),
{
    let program = swj_pins_instructions();
    let wrap = swj_pins_wrap();
    reveal_with_fuel(crate::machine::run, 7);
    let loaded = crate::machine::run(m, program, wrap, 6);
    assert(loaded.tx =~= m.tx.skip(3));
    assert(loaded == (Machine {
        pc: 6,
        pins: values,
        pindirs: directions,
        y: wait_us,
        osr: 0,
        tx: m.tx.skip(3),
        cycles: m.cycles + 6,
        ..m
    }));
    let w = wait_us as nat;
    lemma_delay_loop(loaded, w);
    lemma_run_on(m, program, wrap, 6, w);
    lemma_run_on(m, program, wrap, 6 + w, 1);
}

/// The end of a command of the pin program: what the pins read after the wait is handed
/// out, and the program is ready for the next command.
pub proof fn law_swj_pins_report(m: Machine)
    requires
        m.pc == 7,
    ensures
        crate::machine::run(m, swj_pins_instructions(), swj_pins_wrap(), 2) == (Machine {
            pc: 0,
            isr: 0,
            rx: m.rx.push(m.levels),
            cycles: m.cycles + 2,
            ..m
        }),
{
    reveal_with_fuel(crate::machine::run, 3);
}

/// One command of the pin program: the first word sets the output values, the second
/// the directions, the third is waited for at ten cycles a unit and ten more; then what
/// the pins read by that time, `levels`, is handed out and the program is ready for the
/// next command.
pub proof fn law_swj_pins_command(
    m: Machine,
    values: u32,
    directions: u32,
    wait_us: u32,
    levels: u32,
)
    requires
        m.pc == 0,
        m.tx.len() >= 3,
        m.tx[0] == values,
        m.tx[1] == directions,
        m.tx[2] == wait_us,
    ensures
        ({
            let program = swj_pins_instructions();
            let wrap = swj_pins_wrap();
            let waited = crate::machine::run(m, program, wrap, (7 + wait_us) as nat);
            crate::machine::run(Machine { levels, ..waited }, program, wrap, 2) == (Machine {
                pins: values,
                pindirs: directions,
                y: u32::MAX,
                osr: 0,
                isr: 0,
                levels,
                tx: m.tx.skip(3),
                rx: m.rx.push(levels),
                cycles: m.cycles + 8 + 10 * (wait_us as nat + 1),
                ..m
            })
        }),
{
    law_swj_pins_wait(m, values, directions, wait_us);
    let waited = crate::machine::run(
        m,
        swj_pins_instructions(),
        swj_pins_wrap(),
        (7 + wait_us) as nat,
    );
    law_swj_pins_report(Machine { levels, ..waited });
}

/// Two passes of the program that hands the pins over make every pin an input, whatever
/// the state before. Where the output shift register is clear, one pass does.
pub proof fn law_all_pins_to_input(m: Machine)
    requires
        m.pc == 0,
    ensures
        ({
            let program = all_pins_to_input_instructions();
            let wrap = Wrap { source: 1, target: 0 };
            &&& crate::machine::run(m, program, wrap, 2) == (Machine {
                x: 0,
                pindirs: m.osr,
                osr: 0,
                cycles: m.cycles + 2,
                ..m
            })
            &&& crate::machine::run(m, program, wrap, 4) == (Machine {
                x: 0,
                pindirs: 0,
                osr: 0,
                cycles: m.cycles + 4,
                ..m
            })
        }),
{
    reveal_with_fuel(crate::machine::run, 5);
}

} // verus!
