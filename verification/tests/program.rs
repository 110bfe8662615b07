use rust_dap_rp::assembler::{PioVersion, SideSet, Wrap};
use rust_dap_rp::program::{all_pins_to_input_program, swj_pins_program};

#[test]
fn pin_program_words() {
    let program = swj_pins_program();
    assert_eq!(
        program.code,
        vec![
            0b100_00000_101_00000, // pull block
            0b011_00000_000_00000, // out pins, 32
            0b100_00000_101_00000, // pull block
            0b011_00000_100_00000, // out pindirs, 32
            0b100_00000_101_00000, // pull block
            0b011_00000_010_00000, // out y, 32
            0b000_01001_100_00110, // jmp y--, 6 [9]
            0b010_00000_000_00000, // in pins, 32
            0b100_00000_001_00000, // push block
        ]
    );
    assert_eq!(program.origin, None);
    assert_eq!(program.wrap, Wrap { source: 8, target: 0 });
    assert_eq!(program.side_set, SideSet { optional: false, bits: 0, pindirs: false });
    assert_eq!(program.version, PioVersion::V0);
}

#[test]
fn input_program_words() {
    let program = all_pins_to_input_program();
    assert_eq!(
        program.code,
        vec![
            0b101_00000_001_00011, // mov x, null
            0b011_00000_100_00000, // out pindirs, 32
        ]
    );
    assert_eq!(program.origin, None);
    assert_eq!(program.wrap, Wrap { source: 1, target: 0 });
    assert_eq!(program.side_set, SideSet { optional: false, bits: 0, pindirs: false });
    assert_eq!(program.version, PioVersion::V0);
}

/// The words are those that the assembler of the `pio` crate gives for the same calls.
#[test]
fn pin_program_matches_the_assembler() {
    let mut a = pio::Assembler::<{ pio::RP2040_MAX_PROGRAM_SIZE }>::new();
    let mut delay_loop = a.label();
    let mut wrap_target = a.label();
    let mut wrap_source = a.label();
    a.bind(&mut wrap_target);
    a.pull(false, true);
    a.out(pio::OutDestination::PINS, 32);
    a.pull(false, true);
    a.out(pio::OutDestination::PINDIRS, 32);
    a.pull(false, true);
    a.out(pio::OutDestination::Y, 32);
    a.bind(&mut delay_loop);
    a.jmp_with_delay(pio::JmpCondition::YDecNonZero, &mut delay_loop, 9);
    a.in_with_delay(pio::InSource::PINS, 32, 0);
    a.push(false, true);
    a.bind(&mut wrap_source);
    let expected = a.assemble_with_wrap(wrap_source, wrap_target);
    let program = swj_pins_program();
    assert_eq!(program.code.as_slice(), expected.code.as_slice());
    assert_eq!(program.wrap.source, expected.wrap.source);
    assert_eq!(program.wrap.target, expected.wrap.target);
}

/// A plain interpreter for the words of the pin program.
#[test]
fn one_command_takes_ten_cycles_a_unit() {
    let program = swj_pins_program();
    for wait_us in [0u32, 1, 5, 1_000] {
        let mut tx = vec![0x0000_00ABu32, 0x0000_00FF, wait_us].into_iter();
        let mut rx = Vec::new();
        let (mut pins, mut pindirs, mut y, mut osr, mut isr) = (0u32, 0u32, 0u32, 0u32, 0u32);
        let (mut pc, mut cycles) = (0usize, 0u64);
        loop {
            let word = program.code[pc];
            cycles += 1 + ((word >> 8) & 31) as u64;
            let mut next = if pc == program.wrap.source as usize {
                program.wrap.target as usize
            } else {
                pc + 1
            };
            match (word >> 13, (word >> 5) & 7) {
                (0b100, 0b101) => osr = tx.next().unwrap(),
                (0b100, 0b001) => rx.push(isr),
                (0b011, 0b000) => pins = osr,
                (0b011, 0b100) => pindirs = osr,
                (0b011, 0b010) => y = osr,
                (0b010, 0b000) => isr = pins,
                (0b000, 0b100) => {
                    if y != 0 {
                        next = (word & 31) as usize;
                    }
                    y = y.wrapping_sub(1);
                }
                other => panic!("unknown instruction {:?}", other),
            }
            pc = next;
            if pc == 0 {
                break;
            }
        }
        assert_eq!((pins, pindirs), (0xAB, 0xFF));
        assert_eq!(rx, vec![0xAB]);
        assert_eq!(cycles, 8 + 10 * (wait_us as u64 + 1));
    }
}
