//! Core data model: instructions, operands, addressing modes, opcodes,
//! lines, and the diagnostic taxonomy.

use vstd::prelude::*;

verus! {

/// The sentinel stored in the symbol table for a reference that has not
/// been bound to an address yet.
pub const UNRESOLVED: u16 = 0xffff;

/// The closed error taxonomy. Every failure a line can produce carries
/// enough context (the offending value where there is one) for a message.
#[derive(Copy, Clone, Debug, PartialEq, Eq, Structural)]
pub enum AsmError {
    InvalidInstruction,
    InvalidAddressing,
    InvalidLabel,
    DuplicateSymbol,
    UnresolvedReference,
    MissingRightBracket,
    ArgumentTooLarge(u16),
    BranchTargetOutOfRange(u16),
    LocationUnreachable(u16),
}

/// The 14 real opcodes plus the two pseudo-operations ORG and WRD.
#[derive(Copy, Clone, Debug, PartialEq, Eq, Structural)]
#[allow(non_camel_case_types)]
pub enum Instruction {
    ADD,
    SUB,
    RSB,
    SHL,
    CMP,
    LDA,
    STA,
    OUT,
    JMP,
    JPC,
    JPN,
    JMS,
    NOP,
    SWP,
    HLT,
    ORG,
    WRD,
}

/// An operand is either a number known at parse time or a reference id
/// into the symbol table, resolved during the second pass.
#[derive(Copy, Clone, Debug, PartialEq, Eq, Structural)]
pub enum Operand {
    Literal(u16),
    Label(usize),
}

/// Addressing modes. `CurrentPage` and `IndirectCurrentPage` are
/// provisional and may be narrowed to the zero-page forms during
/// encoding; `Assembler` is reserved for ORG and WRD.
#[derive(Copy, Clone, Debug, PartialEq, Eq, Structural)]
pub enum Addressing {
    CurrentPage,
    ZeroPage,
    Immediate,
    Indirect,
    IndirectCurrentPage,
    IndirectZeroPage,
    Direct,
    Accumulator,
    Assembler,
}

/// One parsed, not-yet-validated operation.
#[derive(Copy, Clone, Debug, PartialEq, Eq, Structural)]
pub struct Opcode {
    pub instruction: Instruction,
    pub operand: Operand,
    pub addressing: Addressing,
}

/// One retained source line: its source line number, the location-counter
/// value it was assembled at, and its parsed operation.
#[derive(Copy, Clone, Debug, PartialEq, Eq, Structural)]
pub struct Line {
    pub num: usize,
    pub org: u16,
    pub op: Opcode,
}

/// One successfully encoded line, ready to be rendered: the address it
/// was assembled at, the final 16-bit word, and what the word was built
/// from (instruction, narrowed addressing mode, resolved operand value).
#[derive(Copy, Clone, Debug, PartialEq, Eq, Structural)]
pub struct ListingEntry {
    pub org: u16,
    pub word: u16,
    pub instruction: Instruction,
    pub addressing: Addressing,
    pub arg: u16,
}

/// A per-line diagnostic: the source line number and what went wrong there.
#[derive(Copy, Clone, Debug, PartialEq, Eq, Structural)]
pub struct LineDiag {
    pub num: usize,
    pub err: AsmError,
}

pub open spec fn spec_inst_is_jump(inst: Instruction) -> bool {
    match inst {
        Instruction::JMP => true,
        Instruction::JPC => true,
        Instruction::JPN => true,
        Instruction::JMS => true,
        _ => false,
    }
}

/// The jump instructions are JMP, JPC, JPN and JMS.
pub fn inst_is_jump(inst: Instruction) -> (r: bool)
    ensures
        r == spec_inst_is_jump(inst),
{
    match inst {
        Instruction::JMP => true,
        Instruction::JPC => true,
        Instruction::JPN => true,
        Instruction::JMS => true,
        _ => false,
    }
}

pub open spec fn spec_inst_is_assembler(inst: Instruction) -> bool {
    match inst {
        Instruction::WRD => true,
        Instruction::ORG => true,
        _ => false,
    }
}

/// The pseudo-operations are ORG and WRD.
pub fn inst_is_assembler(inst: Instruction) -> (r: bool)
    ensures
        r == spec_inst_is_assembler(inst),
{
    match inst {
        Instruction::WRD => true,
        Instruction::ORG => true,
        _ => false,
    }
}

/// The 2-bit addressing-mode field, already shifted into place: one of
/// four evenly spaced codes shared between page/non-page mode pairs.
pub open spec fn spec_addr_code(a: Addressing) -> u16 {
    match a {
        Addressing::CurrentPage => 0o000,
        Addressing::ZeroPage => 0o100,
        Addressing::Immediate => 0o200,
        Addressing::Indirect => 0o300,
        Addressing::IndirectCurrentPage => 0o000,
        Addressing::IndirectZeroPage => 0o100,
        Addressing::Direct => 0o200,
        Addressing::Accumulator => 0o300,
        Addressing::Assembler => 0o000,
    }
}

/// The 4-bit instruction-class field, already shifted into place.
pub open spec fn spec_inst_code(i: Instruction) -> u16 {
    match i {
        Instruction::ADD => 0o0000,
        Instruction::SUB => 0o0400,
        Instruction::RSB => 0o1000,
        Instruction::SHL => 0o1400,
        Instruction::CMP => 0o2000,
        Instruction::LDA => 0o2400,
        Instruction::STA => 0o3000,
        Instruction::OUT => 0o3400,
        Instruction::JMP => 0o4000,
        Instruction::JPC => 0o4400,
        Instruction::JPN => 0o5000,
        Instruction::JMS => 0o5400,
        Instruction::NOP => 0o6000,
        Instruction::SWP => 0o6400,
        Instruction::HLT => 0o7400,
        Instruction::ORG => 0o0000,
        Instruction::WRD => 0o0000,
    }
}

/// The instruction word before the operand field is added: class code plus
/// addressing code for real instructions, zero for the pseudo-operations.
pub open spec fn spec_opcode_to_int(op: Opcode) -> u16 {
    if op.instruction == Instruction::ORG || op.instruction == Instruction::WRD {
        0
    } else {
        (spec_inst_code(op.instruction) + spec_addr_code(op.addressing)) as u16
    }
}

/// Every opcode word fits in the 10 bits above the operand field.
pub proof fn lemma_opcode_to_int_bound(op: Opcode)
    ensures
        spec_opcode_to_int(op) <= 0o7700,
{
}

/// Computes the instruction word with a zero operand field.
pub fn opcode_to_int(op: &Opcode) -> (r: u16)
    ensures
        r == spec_opcode_to_int(*op),
{
    let addr: u16 = match op.addressing {
        Addressing::CurrentPage => 0o000,
        Addressing::ZeroPage => 0o100,
        Addressing::Immediate => 0o200,
        Addressing::Indirect => 0o300,
        Addressing::IndirectCurrentPage => 0o000,
        Addressing::IndirectZeroPage => 0o100,
        Addressing::Direct => 0o200,
        Addressing::Accumulator => 0o300,
        Addressing::Assembler => 0o000,
    };

    match op.instruction {
        Instruction::ADD => 0o0000 + addr,
        Instruction::SUB => 0o0400 + addr,
        Instruction::RSB => 0o1000 + addr,
        Instruction::SHL => 0o1400 + addr,
        Instruction::CMP => 0o2000 + addr,
        Instruction::LDA => 0o2400 + addr,
        Instruction::STA => 0o3000 + addr,
        Instruction::OUT => 0o3400 + addr,
        Instruction::JMP => 0o4000 + addr,
        Instruction::JPC => 0o4400 + addr,
        Instruction::JPN => 0o5000 + addr,
        Instruction::JMS => 0o5400 + addr,
        Instruction::NOP => 0o6000 + addr,
        Instruction::SWP => 0o6400 + addr,
        Instruction::HLT => 0o7400 + addr,
        Instruction::ORG => 0o0000,
        Instruction::WRD => 0o0000,
    }
}

/// Maps each byte of a three-byte mnemonic to upper case the way the
/// parser folds case: clearing bit 5.
pub open spec fn spec_upper(b: u8) -> u8 {
    b & 0xdf
}

pub open spec fn spec_inst_from_string(s: Seq<u8>) -> Option<Instruction> {
    if s.len() != 3 {
        None
    } else {
        let a = spec_upper(s[0]);
        let b = spec_upper(s[1]);
        let c = spec_upper(s[2]);
        if a == 65 && b == 68 && c == 68 {
            Some(Instruction::ADD)
        } else if a == 83 && b == 85 && c == 66 {
            Some(Instruction::SUB)
        } else if a == 82 && b == 83 && c == 66 {
            Some(Instruction::RSB)
        } else if a == 83 && b == 72 && c == 76 {
            Some(Instruction::SHL)
        } else if a == 67 && b == 77 && c == 80 {
            Some(Instruction::CMP)
        } else if a == 76 && b == 68 && c == 65 {
            Some(Instruction::LDA)
        } else if a == 83 && b == 84 && c == 65 {
            Some(Instruction::STA)
        } else if a == 79 && b == 85 && c == 84 {
            Some(Instruction::OUT)
        } else if a == 74 && b == 77 && c == 80 {
            Some(Instruction::JMP)
        } else if a == 74 && b == 80 && c == 67 {
            Some(Instruction::JPC)
        } else if a == 74 && b == 80 && c == 78 {
            Some(Instruction::JPN)
        } else if a == 74 && b == 77 && c == 83 {
            Some(Instruction::JMS)
        } else if a == 78 && b == 79 && c == 80 {
            Some(Instruction::NOP)
        } else if a == 83 && b == 87 && c == 80 {
            Some(Instruction::SWP)
        } else if a == 72 && b == 76 && c == 84 {
            Some(Instruction::HLT)
        } else if a == 79 && b == 82 && c == 71 {
            Some(Instruction::ORG)
        } else if a == 87 && b == 82 && c == 68 {
            Some(Instruction::WRD)
        } else {
            None
        }
    }
}

/// Recognizes a three-letter mnemonic, ASCII case-insensitively.
pub fn inst_from_string(s: &Vec<u8>) -> (r: Option<Instruction>)
    ensures
        r == spec_inst_from_string(s@),
{
    if s.len() != 3 {
        return None;
    }
    let a = s[0] & 0xdf;
    let b = s[1] & 0xdf;
    let c = s[2] & 0xdf;
    if a == 65 && b == 68 && c == 68 {
        Some(Instruction::ADD)
    } else if a == 83 && b == 85 && c == 66 {
        Some(Instruction::SUB)
    } else if a == 82 && b == 83 && c == 66 {
        Some(Instruction::RSB)
    } else if a == 83 && b == 72 && c == 76 {
        Some(Instruction::SHL)
    } else if a == 67 && b == 77 && c == 80 {
        Some(Instruction::CMP)
    } else if a == 76 && b == 68 && c == 65 {
        Some(Instruction::LDA)
    } else if a == 83 && b == 84 && c == 65 {
        Some(Instruction::STA)
    } else if a == 79 && b == 85 && c == 84 {
        Some(Instruction::OUT)
    } else if a == 74 && b == 77 && c == 80 {
        Some(Instruction::JMP)
    } else if a == 74 && b == 80 && c == 67 {
        Some(Instruction::JPC)
    } else if a == 74 && b == 80 && c == 78 {
        Some(Instruction::JPN)
    } else if a == 74 && b == 77 && c == 83 {
        Some(Instruction::JMS)
    } else if a == 78 && b == 79 && c == 80 {
        Some(Instruction::NOP)
    } else if a == 83 && b == 87 && c == 80 {
        Some(Instruction::SWP)
    } else if a == 72 && b == 76 && c == 84 {
        Some(Instruction::HLT)
    } else if a == 79 && b == 82 && c == 71 {
        Some(Instruction::ORG)
    } else if a == 87 && b == 82 && c == 68 {
        Some(Instruction::WRD)
    } else {
        None
    }
}

} // verus!
