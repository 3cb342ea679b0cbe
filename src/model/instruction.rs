use crate::model::text::{lower_of, lowercase};
use iced_x86::{Decoder, DecoderOptions, MemorySize, Register};
use vstd::prelude::*;

verus! {

/// What the tokenizer reads of one operand of a decoded instruction. Names are lowercase.
pub enum Operand {
    Register(String),
    Memory(MemoryOperand),
    Immediate(u64),
    /// An operand of another kind (a branch target, a string-instruction memory operand, ...).
    Other,
}

/// The fields of a memory operand, as plain values.
pub struct MemoryOperand {
    /// Lowercase name of the access size, `None` when the size is unknown.
    pub size: Option<String>,
    pub base: Option<String>,
    pub index: Option<String>,
    pub scale: u32,
    /// The displacement read as a 32-bit quantity.
    pub displacement: u32,
}

/// One decoded instruction: its lowercase mnemonic and its operands from left to right.
pub struct DecodedInstruction {
    pub mnemonic: String,
    pub operands: Vec<Operand>,
}

/// The abstract form of a memory operand.
pub struct MemoryView {
    pub size: Option<Seq<char>>,
    pub base: Option<Seq<char>>,
    pub index: Option<Seq<char>>,
    pub scale: u32,
    pub displacement: u32,
}

/// The abstract form of an operand.
pub enum OperandView {
    Register(Seq<char>),
    Memory(MemoryView),
    Immediate(u64),
    Other,
}

/// The abstract form of a decoded instruction.
pub struct InstructionView {
    pub mnemonic: Seq<char>,
    pub operands: Seq<OperandView>,
}

/// The text of an optional name.
pub open spec fn name_view(n: Option<String>) -> Option<Seq<char>> {
    match n {
        Some(s) => Some(s@),
        None => None,
    }
}

impl View for MemoryOperand {
    type V = MemoryView;

    open spec fn view(&self) -> MemoryView {
        MemoryView {
            size: name_view(self.size),
            base: name_view(self.base),
            index: name_view(self.index),
            scale: self.scale,
            displacement: self.displacement,
        }
    }
}

impl View for Operand {
    type V = OperandView;

    open spec fn view(&self) -> OperandView {
        match self {
            Operand::Register(name) => OperandView::Register(name@),
            Operand::Memory(m) => OperandView::Memory(m@),
            Operand::Immediate(v) => OperandView::Immediate(*v),
            Operand::Other => OperandView::Other,
        }
    }
}

impl View for DecodedInstruction {
    type V = InstructionView;

    open spec fn view(&self) -> InstructionView {
        InstructionView {
            mnemonic: self.mnemonic@,
            operands: self.operands@.map_values(|o: Operand| o@),
        }
    }
}

/// The operand kinds that the tokenizer tells apart.
#[derive(PartialEq, Eq, Structural)]
pub enum OperandKind {
    Register,
    Memory,
    Immediate,
    Other,
}

/// iced_x86's `OpKind::Register`, as its number.
pub const OP_KIND_REGISTER: u32 = 0;

/// iced_x86's `OpKind::Immediate8`, as its number.
pub const OP_KIND_IMMEDIATE8: u32 = 6;

/// iced_x86's `OpKind::Immediate16`, as its number.
pub const OP_KIND_IMMEDIATE16: u32 = 8;

/// iced_x86's `OpKind::Immediate32`, as its number.
pub const OP_KIND_IMMEDIATE32: u32 = 9;

/// iced_x86's `OpKind::Immediate64`, as its number.
pub const OP_KIND_IMMEDIATE64: u32 = 10;

/// iced_x86's `OpKind::Memory`, as its number.
pub const OP_KIND_MEMORY: u32 = 24;

/// How the tokenizer treats an operand of iced_x86 kind number `kind`: a register operand
/// gives a register token, a plain memory operand gives the bracketed memory tokens, and an
/// 8-, 16-, 32- or 64-bit immediate gives an immediate token. Every other kind gives no
/// token: the sign-extended immediates (`Immediate8to16`, `Immediate8to32`,
/// `Immediate8to64`, `Immediate32to64`), the second 8-bit immediate, branch targets and
/// the implicit string-instruction memory operands.
pub open spec fn operand_class(kind: u32) -> OperandKind {
    if kind == OP_KIND_REGISTER {
        OperandKind::Register
    } else if kind == OP_KIND_MEMORY {
        OperandKind::Memory
    } else if kind == OP_KIND_IMMEDIATE8 || kind == OP_KIND_IMMEDIATE16 || kind == OP_KIND_IMMEDIATE32
        || kind == OP_KIND_IMMEDIATE64 {
        OperandKind::Immediate
    } else {
        OperandKind::Other
    }
}

fn classify(kind: u32) -> (r: OperandKind)
    ensures
        r == operand_class(kind),
{
    if kind == OP_KIND_REGISTER {
        OperandKind::Register
    } else if kind == OP_KIND_MEMORY {
        OperandKind::Memory
    } else if kind == OP_KIND_IMMEDIATE8 || kind == OP_KIND_IMMEDIATE16 || kind == OP_KIND_IMMEDIATE32
        || kind == OP_KIND_IMMEDIATE64 {
        OperandKind::Immediate
    } else {
        OperandKind::Other
    }
}

/// The length of the instruction that iced_x86 decodes at `pos` of `bytes`, 0 when none can be.
pub uninterp spec fn decoded_length(bytes: Seq<u8>, pos: int) -> nat;

/// The `Debug` name of the mnemonic of the instruction decoded at `pos`.
pub uninterp spec fn mnemonic_name_at(bytes: Seq<u8>, pos: int) -> Seq<char>;

/// The operand count of the instruction decoded at `pos`.
pub uninterp spec fn operand_count_at(bytes: Seq<u8>, pos: int) -> nat;

/// The number of iced_x86's `OpKind` of operand `i` of the instruction decoded at `pos`.
pub uninterp spec fn operand_kind_at(bytes: Seq<u8>, pos: int, i: int) -> u32;

/// The `Debug` name of the register of operand `i` of the instruction decoded at `pos`.
pub uninterp spec fn register_name_at(bytes: Seq<u8>, pos: int, i: int) -> Option<Seq<char>>;

/// The immediate value of operand `i` of the instruction decoded at `pos`.
pub uninterp spec fn immediate_at(bytes: Seq<u8>, pos: int, i: int) -> Option<u64>;

/// The `Debug` name of the memory access size of the instruction decoded at `pos`.
pub uninterp spec fn memory_size_name_at(bytes: Seq<u8>, pos: int) -> Option<Seq<char>>;

/// The `Debug` name of the memory base register of the instruction decoded at `pos`.
pub uninterp spec fn memory_base_name_at(bytes: Seq<u8>, pos: int) -> Option<Seq<char>>;

/// The `Debug` name of the memory index register of the instruction decoded at `pos`.
pub uninterp spec fn memory_index_name_at(bytes: Seq<u8>, pos: int) -> Option<Seq<char>>;

/// The memory index scale of the instruction decoded at `pos`.
pub uninterp spec fn memory_scale_at(bytes: Seq<u8>, pos: int) -> u32;

/// The 32-bit memory displacement of the instruction decoded at `pos`.
pub uninterp spec fn memory_displacement_at(bytes: Seq<u8>, pos: int) -> u32;

/// Relies on iced_x86's `Decoder::with_ip` and `Decoder::decode` in 64-bit mode, with the
/// position as address, and on `Instruction::is_invalid` and `Instruction::len`: an invalid
/// or truncated encoding gives 0; a valid instruction has read 1 to 15 bytes of the input.
#[verifier::external_body]
fn decode_length(bytes: &[u8], pos: usize) -> (r: usize)
    requires
        pos <= bytes@.len(),
    ensures
        r == decoded_length(bytes@, pos as int),
        r <= 15,
        pos + r <= bytes@.len(),
{
    let instruction = Decoder::with_ip(64, &bytes[pos..], pos as u64, DecoderOptions::NONE).decode();
    if instruction.is_invalid() {
        0
    } else {
        instruction.len()
    }
}

/// Relies on iced_x86's decoding (as in `decode_length`), `Instruction::mnemonic` and the
/// mnemonic's `Debug` name.
#[verifier::external_body]
fn mnemonic_name(bytes: &[u8], pos: usize) -> (r: String)
    requires
        pos <= bytes@.len(),
    ensures
        r@ == mnemonic_name_at(bytes@, pos as int),
{
    let instruction = Decoder::with_ip(64, &bytes[pos..], pos as u64, DecoderOptions::NONE).decode();
    format!("{:?}", instruction.mnemonic())
}

/// Relies on iced_x86's decoding and `Instruction::op_count`, documented as 0 to 5 operands.
#[verifier::external_body]
fn operand_count(bytes: &[u8], pos: usize) -> (r: u32)
    requires
        pos <= bytes@.len(),
    ensures
        r == operand_count_at(bytes@, pos as int),
        r <= 5,
{
    let instruction = Decoder::with_ip(64, &bytes[pos..], pos as u64, DecoderOptions::NONE).decode();
    instruction.op_count()
}

/// Relies on iced_x86's decoding and `Instruction::op_kind` (operands 0 to 4), given as the
/// number of the `OpKind` variant; `OpKind` numbers its 25 variants 0 to 24.
#[verifier::external_body]
fn operand_kind(bytes: &[u8], pos: usize, i: u32) -> (r: u32)
    requires
        pos <= bytes@.len(),
        i < 5,
    ensures
        r == operand_kind_at(bytes@, pos as int, i as int),
        r < 25,
{
    let instruction = Decoder::with_ip(64, &bytes[pos..], pos as u64, DecoderOptions::NONE).decode();
    instruction.op_kind(i) as u32
}

/// Relies on iced_x86's decoding, `Instruction::op_register` (operands 0 to 4) and the
/// register's `Debug` name; `Register::None` has no name.
#[verifier::external_body]
fn register_name(bytes: &[u8], pos: usize, i: u32) -> (r: Option<String>)
    requires
        pos <= bytes@.len(),
        i < 5,
    ensures
        name_view(r) == register_name_at(bytes@, pos as int, i as int),
{
    let instruction = Decoder::with_ip(64, &bytes[pos..], pos as u64, DecoderOptions::NONE).decode();
    let register = instruction.op_register(i);
    if register == Register::None {
        None
    } else {
        Some(format!("{:?}", register))
    }
}

/// Relies on iced_x86's decoding and `Instruction::try_immediate`: the value of an immediate
/// operand, or an error for an operand of another kind (`None` here).
#[verifier::external_body]
fn immediate(bytes: &[u8], pos: usize, i: u32) -> (r: Option<u64>)
    requires
        pos <= bytes@.len(),
    ensures
        r == immediate_at(bytes@, pos as int, i as int),
{
    let instruction = Decoder::with_ip(64, &bytes[pos..], pos as u64, DecoderOptions::NONE).decode();
    instruction.try_immediate(i).ok()
}

/// Relies on iced_x86's decoding, `Instruction::memory_size` and the size's `Debug` name;
/// `MemorySize::Unknown` has no name.
#[verifier::external_body]
fn memory_size_name(bytes: &[u8], pos: usize) -> (r: Option<String>)
    requires
        pos <= bytes@.len(),
    ensures
        name_view(r) == memory_size_name_at(bytes@, pos as int),
{
    let instruction = Decoder::with_ip(64, &bytes[pos..], pos as u64, DecoderOptions::NONE).decode();
    let size = instruction.memory_size();
    if size == MemorySize::Unknown {
        None
    } else {
        Some(format!("{:?}", size))
    }
}

/// Relies on iced_x86's decoding, `Instruction::memory_base` and the register's `Debug` name;
/// `Register::None` has no name.
#[verifier::external_body]
fn memory_base_name(bytes: &[u8], pos: usize) -> (r: Option<String>)
    requires
        pos <= bytes@.len(),
    ensures
        name_view(r) == memory_base_name_at(bytes@, pos as int),
{
    let instruction = Decoder::with_ip(64, &bytes[pos..], pos as u64, DecoderOptions::NONE).decode();
    let register = instruction.memory_base();
    if register == Register::None {
        None
    } else {
        Some(format!("{:?}", register))
    }
}

/// Relies on iced_x86's decoding, `Instruction::memory_index` and the register's `Debug`
/// name; `Register::None` has no name.
#[verifier::external_body]
fn memory_index_name(bytes: &[u8], pos: usize) -> (r: Option<String>)
    requires
        pos <= bytes@.len(),
    ensures
        name_view(r) == memory_index_name_at(bytes@, pos as int),
{
    let instruction = Decoder::with_ip(64, &bytes[pos..], pos as u64, DecoderOptions::NONE).decode();
    let register = instruction.memory_index();
    if register == Register::None {
        None
    } else {
        Some(format!("{:?}", register))
    }
}

/// Relies on iced_x86's decoding and `Instruction::memory_index_scale`.
#[verifier::external_body]
fn memory_scale(bytes: &[u8], pos: usize) -> (r: u32)
    requires
        pos <= bytes@.len(),
    ensures
        r == memory_scale_at(bytes@, pos as int),
{
    let instruction = Decoder::with_ip(64, &bytes[pos..], pos as u64, DecoderOptions::NONE).decode();
    instruction.memory_index_scale()
}

/// Relies on iced_x86's decoding and `Instruction::memory_displacement32`.
#[verifier::external_body]
fn memory_displacement(bytes: &[u8], pos: usize) -> (r: u32)
    requires
        pos <= bytes@.len(),
    ensures
        r == memory_displacement_at(bytes@, pos as int),
{
    let instruction = Decoder::with_ip(64, &bytes[pos..], pos as u64, DecoderOptions::NONE).decode();
    instruction.memory_displacement32()
}

/// The lowercase form of an optional name.
pub open spec fn lower_name(n: Option<Seq<char>>) -> Option<Seq<char>> {
    match n {
        Some(s) => Some(lower_of(s)),
        None => None,
    }
}

/// Operand `i` of the instruction decoded at `pos`, as the tokenizer reads it.
pub open spec fn operand_view_at(bytes: Seq<u8>, pos: int, i: int) -> OperandView {
    match operand_class(operand_kind_at(bytes, pos, i)) {
        OperandKind::Register => match register_name_at(bytes, pos, i) {
            Some(n) => OperandView::Register(lower_of(n)),
            None => OperandView::Other,
        },
        OperandKind::Memory => OperandView::Memory(
            MemoryView {
                size: lower_name(memory_size_name_at(bytes, pos)),
                base: lower_name(memory_base_name_at(bytes, pos)),
                index: lower_name(memory_index_name_at(bytes, pos)),
                scale: memory_scale_at(bytes, pos),
                displacement: memory_displacement_at(bytes, pos),
            },
        ),
        OperandKind::Immediate => match immediate_at(bytes, pos, i) {
            Some(v) => OperandView::Immediate(v),
            None => OperandView::Other,
        },
        OperandKind::Other => OperandView::Other,
    }
}

/// The instruction decoded at `pos`: its lowercase mnemonic and its operands.
pub open spec fn instruction_view_at(bytes: Seq<u8>, pos: int) -> InstructionView {
    InstructionView {
        mnemonic: lower_of(mnemonic_name_at(bytes, pos)),
        operands: Seq::new(operand_count_at(bytes, pos), |i: int| operand_view_at(bytes, pos, i)),
    }
}

/// The instructions decoded one after another from `pos` until the rest cannot be decoded.
pub open spec fn decoded_from(bytes: Seq<u8>, pos: int) -> Seq<InstructionView>
    decreases bytes.len() - pos,
{
    if pos < 0 || pos >= bytes.len() || decoded_length(bytes, pos) == 0 || pos + decoded_length(bytes, pos) > bytes.len() {
        Seq::empty()
    } else {
        seq![instruction_view_at(bytes, pos)] + decoded_from(bytes, pos + decoded_length(bytes, pos))
    }
}

/// Where decoding from `pos` stops: the end of the last decoded instruction.
pub open spec fn decoded_end(bytes: Seq<u8>, pos: int) -> int
    decreases bytes.len() - pos,
{
    if pos < 0 || pos >= bytes.len() || decoded_length(bytes, pos) == 0 || pos + decoded_length(bytes, pos) > bytes.len() {
        pos
    } else {
        decoded_end(bytes, pos + decoded_length(bytes, pos))
    }
}

fn lowercase_name(name: Option<String>) -> (r: Option<String>)
    ensures
        name_view(r) == lower_name(name_view(name)),
{
    match name {
        Some(n) => Some(lowercase(n.as_str())),
        None => None,
    }
}

/// The memory operand of the instruction decoded at `pos`.
fn read_memory_operand(bytes: &[u8], pos: usize) -> (r: MemoryOperand)
    requires
        pos <= bytes@.len(),
    ensures
        r@ == (MemoryView {
            size: lower_name(memory_size_name_at(bytes@, pos as int)),
            base: lower_name(memory_base_name_at(bytes@, pos as int)),
            index: lower_name(memory_index_name_at(bytes@, pos as int)),
            scale: memory_scale_at(bytes@, pos as int),
            displacement: memory_displacement_at(bytes@, pos as int),
        }),
{
    MemoryOperand {
        size: lowercase_name(memory_size_name(bytes, pos)),
        base: lowercase_name(memory_base_name(bytes, pos)),
        index: lowercase_name(memory_index_name(bytes, pos)),
        scale: memory_scale(bytes, pos),
        displacement: memory_displacement(bytes, pos),
    }
}

/// Operand `i` of the instruction decoded at `pos`.
fn read_operand(bytes: &[u8], pos: usize, i: u32) -> (r: Operand)
    requires
        pos <= bytes@.len(),
        i < 5,
    ensures
        r@ == operand_view_at(bytes@, pos as int, i as int),
{
    let kind = classify(operand_kind(bytes, pos, i));
    if kind == OperandKind::Register {
        match lowercase_name(register_name(bytes, pos, i)) {
            Some(name) => Operand::Register(name),
            None => Operand::Other,
        }
    } else if kind == OperandKind::Memory {
        Operand::Memory(read_memory_operand(bytes, pos))
    } else if kind == OperandKind::Immediate {
        match immediate(bytes, pos, i) {
            Some(value) => Operand::Immediate(value),
            None => Operand::Other,
        }
    } else {
        Operand::Other
    }
}

/// The instruction decoded at `pos`, with all its operands.
fn read_instruction(bytes: &[u8], pos: usize) -> (r: DecodedInstruction)
    requires
        pos <= bytes@.len(),
    ensures
        r@ == instruction_view_at(bytes@, pos as int),
{
    let count = operand_count(bytes, pos);
    let mut operands: Vec<Operand> = Vec::new();
    let mut i: u32 = 0;
    while i < count
        invariant
            pos <= bytes@.len(),
            count == operand_count_at(bytes@, pos as int),
            count <= 5,
            i <= count,
            operands@.map_values(|o: Operand| o@) == Seq::new(i as nat, |k: int| operand_view_at(bytes@, pos as int, k)),
        decreases count - i,
    {
        let ghost before = operands@.map_values(|o: Operand| o@);
        let op = read_operand(bytes, pos, i);
        let ghost v = op@;
        operands.push(op);
        assert(operands@.map_values(|o: Operand| o@) =~= before.push(v));
        assert(operands@.map_values(|o: Operand| o@) =~= Seq::new((i + 1) as nat, |k: int| operand_view_at(bytes@, pos as int, k)));
        i = i + 1;
    }
    let mnemonic = lowercase(mnemonic_name(bytes, pos).as_str());
    let r = DecodedInstruction { mnemonic, operands };
    assert(r@.operands =~= instruction_view_at(bytes@, pos as int).operands);
    r
}

/// Decodes `bytes` as 64-bit machine code from the start, one instruction after another,
/// until the rest cannot be decoded. Returns the instructions and the number of bytes they
/// cover; the bytes after that are not part of any instruction.
pub fn decode_instructions(bytes: &[u8]) -> (r: (Vec<DecodedInstruction>, usize))
    ensures
        r.0@.map_values(|d: DecodedInstruction| d@) == decoded_from(bytes@, 0),
        r.1 == decoded_end(bytes@, 0),
        r.1 <= bytes@.len(),
{
    let mut instructions: Vec<DecodedInstruction> = Vec::new();
    let mut pos: usize = 0;
    while pos < bytes.len()
        invariant
            pos <= bytes@.len(),
            instructions@.map_values(|d: DecodedInstruction| d@) + decoded_from(bytes@, pos as int) == decoded_from(bytes@, 0),
            decoded_end(bytes@, pos as int) == decoded_end(bytes@, 0),
        decreases bytes@.len() - pos,
    {
        let length = decode_length(bytes, pos);
        if length == 0 {
            assert(decoded_from(bytes@, pos as int) =~= Seq::<InstructionView>::empty());
            assert(instructions@.map_values(|d: DecodedInstruction| d@) =~= decoded_from(bytes@, 0));
            return (instructions, pos);
        }
        let ghost before = instructions@.map_values(|d: DecodedInstruction| d@);
        let instruction = read_instruction(bytes, pos);
        instructions.push(instruction);
        assert(instructions@.map_values(|d: DecodedInstruction| d@) =~= before.push(instruction_view_at(bytes@, pos as int)));
        assert(before + decoded_from(bytes@, pos as int) =~= before.push(instruction_view_at(bytes@, pos as int))
            + decoded_from(bytes@, pos + length));
        pos = pos + length;
    }
    assert(decoded_from(bytes@, pos as int) =~= Seq::<InstructionView>::empty());
    assert(instructions@.map_values(|d: DecodedInstruction| d@) =~= decoded_from(bytes@, 0));
    (instructions, pos)
}

} // verus!
