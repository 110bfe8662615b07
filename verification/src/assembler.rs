//! The instruction set of the programmable I/O blocks and the assembler for it.
//!
//! Programs are put together by the `pio` crate. Its assembler is used through the
//! functions of this module, whose contracts say over [`instructions`] and
//! [`label_state`] what each call does.
use vstd::prelude::*;

verus! {

/// The assembler of the `pio` crate.
#[verifier::external_type_specification]
#[verifier::external_body]
pub struct ExAssembler<const PROGRAM_SIZE: usize>(pio::Assembler<PROGRAM_SIZE>);

/// A position in a program of the `pio` crate.
#[verifier::external_type_specification]
#[verifier::external_body]
pub struct ExLabel(pio::Label);

/// The jump conditions of the `pio` crate, with their variants.
#[verifier::external_type_specification]
pub struct ExJmpCondition(pio::JmpCondition);

/// The sources of an `in` instruction of the `pio` crate, with their variants.
#[verifier::external_type_specification]
pub struct ExInSource(pio::InSource);

/// The destinations of an `out` instruction of the `pio` crate, with their variants.
#[verifier::external_type_specification]
pub struct ExOutDestination(pio::OutDestination);

/// The destinations of a `mov` instruction of the `pio` crate, with their variants.
#[verifier::external_type_specification]
pub struct ExMovDestination(pio::MovDestination);

/// The operations of a `mov` instruction of the `pio` crate, with their variants.
#[verifier::external_type_specification]
pub struct ExMovOperation(pio::MovOperation);

/// The sources of a `mov` instruction of the `pio` crate, with their variants.
#[verifier::external_type_specification]
pub struct ExMovSource(pio::MovSource);

/// An instruction, as far as the programs of this crate use the instruction set.
pub enum Instruction {
    /// Go to `address` where `condition` holds, then idle for `delay` cycles.
    Jmp { condition: pio::JmpCondition, address: u8, delay: u8 },
    /// Shift `bit_count` bits from `source` into the input shift register, then idle for
    /// `delay` cycles.
    In { source: pio::InSource, bit_count: u8, delay: u8 },
    /// Shift `bit_count` bits from the output shift register to `destination`.
    Out { destination: pio::OutDestination, bit_count: u8 },
    /// Move the input shift register to the receive queue.
    Push { if_full: bool, block: bool },
    /// Load the output shift register from the transmit queue.
    Pull { if_empty: bool, block: bool },
    /// Copy `source` to `destination`.
    Mov { destination: pio::MovDestination, op: pio::MovOperation, source: pio::MovSource },
}

/// What can become of a label.
pub enum LabelState {
    /// It is not bound, and no jump goes to it.
    Free,
    /// It is not bound, and a jump goes to it.
    Awaited,
    /// It stands before the instruction with this number.
    Bound(u8),
}

/// The instruction words that a block can load, and how it wraps around.
#[derive(Debug, PartialEq, Eq)]
pub struct Program {
    /// The encoded instructions.
    pub code: Vec<u16>,
    /// The address at which the program has to be loaded, if any.
    pub origin: Option<u8>,
    /// Where the program continues after its last instruction.
    pub wrap: Wrap,
    /// The side-set bits of the instructions.
    pub side_set: SideSet,
    /// The version of the blocks that the program needs.
    pub version: PioVersion,
}

/// After the instruction at `source` the program continues at `target`.
#[derive(Clone, Copy, Debug, PartialEq, Eq, Structural)]
pub struct Wrap {
    pub source: u8,
    pub target: u8,
}

/// How many bits of each instruction drive side-set pins.
#[derive(Clone, Copy, Debug, PartialEq, Eq, Structural)]
pub struct SideSet {
    pub optional: bool,
    pub bits: u8,
    pub pindirs: bool,
}

/// A version of the programmable I/O blocks.
#[derive(Clone, Copy, Debug, PartialEq, Eq, Structural)]
pub enum PioVersion {
    /// The blocks of the RP2040, and of later chips.
    V0,
    /// The blocks of the RP235x.
    V1,
}

/// The instructions that an assembler holds.
pub uninterp spec fn instructions(assembler: pio::Assembler<32>) -> Seq<Instruction>;

/// The side-set bits that an assembler was made with.
pub uninterp spec fn side_set(assembler: pio::Assembler<32>) -> SideSet;

/// What has become of a label.
pub uninterp spec fn label_state(label: pio::Label) -> LabelState;

/// No side-set bits.
pub open spec fn no_side_set() -> SideSet {
    SideSet { optional: false, bits: 0, pindirs: false }
}

/// The code of a jump condition.
pub open spec fn jmp_condition_code(condition: pio::JmpCondition) -> int {
    match condition {
        pio::JmpCondition::Always => 0,
        pio::JmpCondition::XIsZero => 1,
        pio::JmpCondition::XDecNonZero => 2,
        pio::JmpCondition::YIsZero => 3,
        pio::JmpCondition::YDecNonZero => 4,
        pio::JmpCondition::XNotEqualY => 5,
        pio::JmpCondition::PinHigh => 6,
        pio::JmpCondition::OutputShiftRegisterNotEmpty => 7,
    }
}

/// The code of an `in` source.
pub open spec fn in_source_code(source: pio::InSource) -> int {
    match source {
        pio::InSource::PINS => 0,
        pio::InSource::X => 1,
        pio::InSource::Y => 2,
        pio::InSource::NULL => 3,
        pio::InSource::ISR => 6,
        pio::InSource::OSR => 7,
    }
}

/// The code of an `out` destination.
pub open spec fn out_destination_code(destination: pio::OutDestination) -> int {
    match destination {
        pio::OutDestination::PINS => 0,
        pio::OutDestination::X => 1,
        pio::OutDestination::Y => 2,
        pio::OutDestination::NULL => 3,
        pio::OutDestination::PINDIRS => 4,
        pio::OutDestination::PC => 5,
        pio::OutDestination::ISR => 6,
        pio::OutDestination::EXEC => 7,
    }
}

/// The code of a `mov` destination.
pub open spec fn mov_destination_code(destination: pio::MovDestination) -> int {
    match destination {
        pio::MovDestination::PINS => 0,
        pio::MovDestination::X => 1,
        pio::MovDestination::Y => 2,
        pio::MovDestination::PINDIRS => 3,
        pio::MovDestination::EXEC => 4,
        pio::MovDestination::PC => 5,
        pio::MovDestination::ISR => 6,
        pio::MovDestination::OSR => 7,
    }
}

/// The code of a `mov` operation.
pub open spec fn mov_operation_code(op: pio::MovOperation) -> int {
    match op {
        pio::MovOperation::None => 0,
        pio::MovOperation::Invert => 1,
        pio::MovOperation::BitReverse => 2,
    }
}

/// The code of a `mov` source.
pub open spec fn mov_source_code(source: pio::MovSource) -> int {
    match source {
        pio::MovSource::PINS => 0,
        pio::MovSource::X => 1,
        pio::MovSource::Y => 2,
        pio::MovSource::NULL => 3,
        pio::MovSource::STATUS => 5,
        pio::MovSource::ISR => 6,
        pio::MovSource::OSR => 7,
    }
}

/// An instruction word: three bits of operation code, five of delay, three and five of
/// operands.
pub open spec fn word(opcode: int, delay: int, operand0: int, operand1: int) -> u16 {
    (opcode * 0x2000 + delay * 0x100 + operand0 * 0x20 + operand1) as u16
}

/// A flag as a bit.
pub open spec fn bit(flag: bool) -> int {
    if flag {
        1
    } else {
        0
    }
}

impl Instruction {
    /// Whether the operands fit their fields.
    pub open spec fn encodable(self) -> bool {
        match self {
            Instruction::Jmp { address, delay, .. } => address < 32 && delay < 32,
            Instruction::In { bit_count, delay, .. } => 1 <= bit_count <= 32 && delay < 32,
            Instruction::Out { bit_count, .. } => 1 <= bit_count <= 32,
            _ => true,
        }
    }

    /// The instruction word.
    pub open spec fn encode(self) -> u16 {
        match self {
            Instruction::Jmp { condition, address, delay } => word(
                0,
                delay as int,
                jmp_condition_code(condition),
                address as int,
            ),
            Instruction::In { source, bit_count, delay } => word(
                2,
                delay as int,
                in_source_code(source),
                (bit_count % 32) as int,
            ),
            Instruction::Out { destination, bit_count } => word(
                3,
                0,
                out_destination_code(destination),
                (bit_count % 32) as int,
            ),
            Instruction::Push { if_full, block } => word(4, 0, 2 * bit(if_full) + bit(block), 0),
            Instruction::Pull { if_empty, block } => word(
                4,
                0,
                4 + 2 * bit(if_empty) + bit(block),
                0,
            ),
            Instruction::Mov { destination, op, source } => word(
                5,
                0,
                mov_destination_code(destination),
                8 * mov_operation_code(op) + mov_source_code(source),
            ),
        }
    }

    /// The version of the blocks that know the instruction.
    pub open spec fn version(self) -> PioVersion {
        if self matches Instruction::Mov { destination, .. } && destination
            == pio::MovDestination::PINDIRS {
            PioVersion::V1
        } else {
            PioVersion::V0
        }
    }
}

/// The instruction words of a program.
pub open spec fn encoded(program: Seq<Instruction>) -> Seq<u16> {
    program.map_values(|instruction: Instruction| instruction.encode())
}

/// The version of the blocks that know all instructions of a program.
pub open spec fn program_version(program: Seq<Instruction>) -> PioVersion {
    if exists|i: int| 0 <= i < program.len() && (#[trigger] program[i]).version() == PioVersion::V1 {
        PioVersion::V1
    } else {
        PioVersion::V0
    }
}

/// `pio::Assembler::new`: an assembler without instructions and without side-set bits.
#[verifier::external_body]
pub(crate) fn new_assembler() -> (assembler: pio::Assembler<32>)
    ensures
        instructions(assembler) == Seq::<Instruction>::empty(),
        side_set(assembler) == no_side_set(),
{
    pio::Assembler::<32>::new()
}

/// `pio::Assembler::label`: a label that is not bound. The assembler stays as it is.
#[verifier::external_body]
pub(crate) fn new_label(assembler: &mut pio::Assembler<32>) -> (label: pio::Label)
    ensures
        label_state(label) == LabelState::Free,
        instructions(*final(assembler)) == instructions(*old(assembler)),
        side_set(*final(assembler)) == side_set(*old(assembler)),
{
    assembler.label()
}

/// `pio::Assembler::bind`: places an unbound label that no jump goes to before the next
/// instruction. The assembler stays as it is.
#[verifier::external_body]
pub(crate) fn bind(assembler: &mut pio::Assembler<32>, label: &mut pio::Label)
    requires
        label_state(*old(label)) == LabelState::Free,
    ensures
        label_state(*final(label)) == LabelState::Bound(
            instructions(*old(assembler)).len() as u8,
        ),
        instructions(*final(assembler)) == instructions(*old(assembler)),
        side_set(*final(assembler)) == side_set(*old(assembler)),
{
    assembler.bind(label)
}

/// `pio::Assembler::jmp_with_delay`, for a label that is bound: appends a jump to the
/// label's instruction. The label stays as it is.
#[verifier::external_body]
pub(crate) fn jmp_with_delay(
    assembler: &mut pio::Assembler<32>,
    condition: pio::JmpCondition,
    label: &mut pio::Label,
    delay: u8,
)
    requires
        instructions(*old(assembler)).len() < 32,
        label_state(*old(label)) is Bound,
    ensures
        instructions(*final(assembler)) == instructions(*old(assembler)).push(
            Instruction::Jmp { condition, address: label_state(*old(label))->Bound_0, delay },
        ),
        side_set(*final(assembler)) == side_set(*old(assembler)),
        label_state(*final(label)) == label_state(*old(label)),
{
    assembler.jmp_with_delay(condition, label, delay)
}

/// `pio::Assembler::in_with_delay`: appends an `in` instruction.
#[verifier::external_body]
pub(crate) fn in_with_delay(
    assembler: &mut pio::Assembler<32>,
    source: pio::InSource,
    bit_count: u8,
    delay: u8,
)
    requires
        instructions(*old(assembler)).len() < 32,
    ensures
        instructions(*final(assembler)) == instructions(*old(assembler)).push(
            Instruction::In { source, bit_count, delay },
        ),
        side_set(*final(assembler)) == side_set(*old(assembler)),
{
    assembler.in_with_delay(source, bit_count, delay)
}

/// `pio::Assembler::out`: appends an `out` instruction.
#[verifier::external_body]
pub(crate) fn out(
    assembler: &mut pio::Assembler<32>,
    destination: pio::OutDestination,
    bit_count: u8,
)
    requires
        instructions(*old(assembler)).len() < 32,
    ensures
        instructions(*final(assembler)) == instructions(*old(assembler)).push(
            Instruction::Out { destination, bit_count },
        ),
        side_set(*final(assembler)) == side_set(*old(assembler)),
{
    assembler.out(destination, bit_count)
}

/// `pio::Assembler::push`: appends a `push` instruction.
#[verifier::external_body]
pub(crate) fn push(assembler: &mut pio::Assembler<32>, if_full: bool, block: bool)
    requires
        instructions(*old(assembler)).len() < 32,
    ensures
        instructions(*final(assembler)) == instructions(*old(assembler)).push(
            Instruction::Push { if_full, block },
        ),
        side_set(*final(assembler)) == side_set(*old(assembler)),
{
    assembler.push(if_full, block)
}

/// `pio::Assembler::pull`: appends a `pull` instruction.
#[verifier::external_body]
pub(crate) fn pull(assembler: &mut pio::Assembler<32>, if_empty: bool, block: bool)
    requires
        instructions(*old(assembler)).len() < 32,
    ensures
        instructions(*final(assembler)) == instructions(*old(assembler)).push(
            Instruction::Pull { if_empty, block },
        ),
        side_set(*final(assembler)) == side_set(*old(assembler)),
{
    assembler.pull(if_empty, block)
}

/// `pio::Assembler::mov`: appends a `mov` instruction.
#[verifier::external_body]
pub(crate) fn mov(
    assembler: &mut pio::Assembler<32>,
    destination: pio::MovDestination,
    op: pio::MovOperation,
    source: pio::MovSource,
)
    requires
        instructions(*old(assembler)).len() < 32,
    ensures
        instructions(*final(assembler)) == instructions(*old(assembler)).push(
            Instruction::Mov { destination, op, source },
        ),
        side_set(*final(assembler)) == side_set(*old(assembler)),
{
    assembler.mov(destination, op, source)
}

/// `pio::Assembler::assemble_with_wrap`: the instruction words of a program that wraps
/// around from the instruction before `source` to the one at `target`, with no origin
/// and no side-set bits. Its result is handed out as plain values.
#[verifier::external_body]
pub(crate) fn assemble_with_wrap(
    assembler: pio::Assembler<32>,
    source: pio::Label,
    target: pio::Label,
) -> (program: Program)
    requires
        side_set(assembler) == no_side_set(),
        forall|i: int|
            0 <= i < instructions(assembler).len() ==> (
            #[trigger] instructions(assembler)[i]).encodable(),
        label_state(source) is Bound,
        label_state(target) is Bound,
        1 <= label_state(source)->Bound_0 <= instructions(assembler).len(),
        label_state(target)->Bound_0 < instructions(assembler).len(),
    ensures
        program.code@ == encoded(instructions(assembler)),
        program.origin == None::<u8>,
        program.wrap.source == label_state(source)->Bound_0 - 1,
        program.wrap.target == label_state(target)->Bound_0,
        program.side_set == side_set(assembler),
        program.version == program_version(instructions(assembler)),
{
    let p = assembler.assemble_with_wrap(source, target);
    let s = p.side_set;
    Program {
        code: p.code.to_vec(),
        origin: p.origin,
        wrap: Wrap { source: p.wrap.source, target: p.wrap.target },
        side_set: SideSet { optional: s.optional(), bits: s.bits(), pindirs: s.pindirs() },
        version: match p.version {
            pio::PioVersion::V0 => PioVersion::V0,
            _ => PioVersion::V1,
        },
    }
}

} // verus!
