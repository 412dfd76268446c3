//! Rendering: octal and decimal numerals with zero padding, instruction
//! names, listing entries in the fixed listing format, and diagnostic
//! message texts. Everything is produced as ASCII bytes.

use vstd::prelude::*;

use crate::ast::{Addressing, AsmError, Instruction, ListingEntry};

verus! {

/// The octal digits of `n`, most significant first, no padding.
pub open spec fn spec_oct(n: nat) -> Seq<u8>
    decreases n,
{
    if n < 8 {
        seq![(48 + n) as u8]
    } else {
        spec_oct(n / 8).push((48 + n % 8) as u8)
    }
}

/// The decimal digits of `n`, most significant first, no padding.
pub open spec fn spec_dec(n: nat) -> Seq<u8>
    decreases n,
{
    if n < 10 {
        seq![(48 + n) as u8]
    } else {
        spec_dec(n / 10).push((48 + n % 10) as u8)
    }
}

/// `s` left-padded with ASCII zeros to at least `width` bytes.
pub open spec fn spec_zero_pad(s: Seq<u8>, width: int) -> Seq<u8> {
    if s.len() >= width {
        s
    } else {
        Seq::new((width - s.len()) as nat, |i: int| 48u8) + s
    }
}

/// `n` in octal, zero-padded to at least `width` digits.
pub open spec fn spec_oct_padded(n: u16, width: int) -> Seq<u8> {
    spec_zero_pad(spec_oct(n as nat), width)
}

/// `n` in decimal, zero-padded to at least `width` digits.
pub open spec fn spec_dec_padded(n: u16, width: int) -> Seq<u8> {
    spec_zero_pad(spec_dec(n as nat), width)
}

fn oct_digits(n: u16) -> (r: Vec<u8>)
    ensures
        r@ == spec_oct(n as nat),
    decreases n,
{
    if n < 8 {
        let mut r: Vec<u8> = Vec::new();
        r.push(48 + n as u8);
        proof {
            assert(r@ =~= spec_oct(n as nat));
        }
        r
    } else {
        let mut r = oct_digits(n / 8);
        r.push(48 + (n % 8) as u8);
        proof {
            assert(r@ =~= spec_oct(n as nat));
        }
        r
    }
}

fn dec_digits(n: u16) -> (r: Vec<u8>)
    ensures
        r@ == spec_dec(n as nat),
    decreases n,
{
    if n < 10 {
        let mut r: Vec<u8> = Vec::new();
        r.push(48 + n as u8);
        proof {
            assert(r@ =~= spec_dec(n as nat));
        }
        r
    } else {
        let mut r = dec_digits(n / 10);
        r.push(48 + (n % 10) as u8);
        proof {
            assert(r@ =~= spec_dec(n as nat));
        }
        r
    }
}

/// Appends a copy of `src` to `dst`.
pub fn push_all(dst: &mut Vec<u8>, src: &Vec<u8>)
    ensures
        final(dst)@ == old(dst)@ + src@,
{
    let mut i: usize = 0;
    proof {
        assert(dst@ =~= old(dst)@ + src@.take(0));
    }
    while i < src.len()
        invariant
            i <= src.len(),
            dst@ == old(dst)@ + src@.take(i as int),
        decreases src.len() - i,
    {
        dst.push(src[i]);
        proof {
            assert(dst@ =~= old(dst)@ + src@.take(i + 1));
        }
        i += 1;
    }
    proof {
        assert(dst@ =~= old(dst)@ + src@);
    }
}

/// `n` in the asked base, zero-padded to at least `width` digits.
fn render_padded(digits: Vec<u8>, width: usize) -> (r: Vec<u8>)
    ensures
        r@ == spec_zero_pad(digits@, width as int),
{
    let mut r: Vec<u8> = Vec::new();
    let mut k: usize = digits.len();
    while k < width
        invariant
            digits@.len() <= k,
            k == digits@.len() + r@.len(),
            k <= width || r@.len() == 0,
            r@ == Seq::new((k - digits@.len()) as nat, |i: int| 48u8),
        decreases width - k,
    {
        r.push(48);
        proof {
            assert(r@ =~= Seq::new((k + 1 - digits@.len()) as nat, |i: int| 48u8));
        }
        k += 1;
    }
    push_all(&mut r, &digits);
    proof {
        assert(r@ =~= spec_zero_pad(digits@, width as int));
    }
    r
}

/// `n` in octal, zero-padded to at least `width` digits.
pub fn render_oct(n: u16, width: usize) -> (r: Vec<u8>)
    ensures
        r@ == spec_oct_padded(n, width as int),
{
    render_padded(oct_digits(n), width)
}

/// `n` in decimal, zero-padded to at least `width` digits.
pub fn render_dec(n: u16, width: usize) -> (r: Vec<u8>)
    ensures
        r@ == spec_dec_padded(n, width as int),
{
    render_padded(dec_digits(n), width)
}

/// The three-letter name of an instruction.
pub open spec fn spec_inst_name(i: Instruction) -> Seq<u8> {
    match i {
        Instruction::ADD => seq![65u8, 68, 68],
        Instruction::SUB => seq![83u8, 85, 66],
        Instruction::RSB => seq![82u8, 83, 66],
        Instruction::SHL => seq![83u8, 72, 76],
        Instruction::CMP => seq![67u8, 77, 80],
        Instruction::LDA => seq![76u8, 68, 65],
        Instruction::STA => seq![83u8, 84, 65],
        Instruction::OUT => seq![79u8, 85, 84],
        Instruction::JMP => seq![74u8, 77, 80],
        Instruction::JPC => seq![74u8, 80, 67],
        Instruction::JPN => seq![74u8, 80, 78],
        Instruction::JMS => seq![74u8, 77, 83],
        Instruction::NOP => seq![78u8, 79, 80],
        Instruction::SWP => seq![83u8, 87, 80],
        Instruction::HLT => seq![72u8, 76, 84],
        Instruction::ORG => seq![79u8, 82, 71],
        Instruction::WRD => seq![87u8, 82, 68],
    }
}

fn triple(a: u8, b: u8, c: u8) -> (r: Vec<u8>)
    ensures
        r@ == seq![a, b, c],
{
    let mut r: Vec<u8> = Vec::new();
    r.push(a);
    r.push(b);
    r.push(c);
    proof {
        assert(r@ =~= seq![a, b, c]);
    }
    r
}

/// The three-letter name of an instruction.
pub fn inst_name(i: Instruction) -> (r: Vec<u8>)
    ensures
        r@ == spec_inst_name(i),
{
    match i {
        Instruction::ADD => triple(65, 68, 68),
        Instruction::SUB => triple(83, 85, 66),
        Instruction::RSB => triple(82, 83, 66),
        Instruction::SHL => triple(83, 72, 76),
        Instruction::CMP => triple(67, 77, 80),
        Instruction::LDA => triple(76, 68, 65),
        Instruction::STA => triple(83, 84, 65),
        Instruction::OUT => triple(79, 85, 84),
        Instruction::JMP => triple(74, 77, 80),
        Instruction::JPC => triple(74, 80, 67),
        Instruction::JPN => triple(74, 80, 78),
        Instruction::JMS => triple(74, 77, 83),
        Instruction::NOP => triple(78, 79, 80),
        Instruction::SWP => triple(83, 87, 80),
        Instruction::HLT => triple(72, 76, 84),
        Instruction::ORG => triple(79, 82, 71),
        Instruction::WRD => triple(87, 82, 68),
    }
}

/// The operand part of a listing line, depending on the final addressing
/// mode: `#NN` decimal for immediate, `A+oo` octal for accumulator,
/// `@oo` for zero page, `[@oooo]` for indirect, `[@oo]` for indirect
/// zero page, and `@oooo` otherwise.
pub open spec fn spec_operand_text(a: Addressing, arg: u16) -> Seq<u8> {
    match a {
        Addressing::Immediate => seq![35u8] + spec_dec_padded(arg, 2),
        Addressing::Accumulator => seq![65u8, 43] + spec_oct_padded(arg, 2),
        Addressing::ZeroPage => seq![64u8] + spec_oct_padded(arg, 2),
        Addressing::Indirect => seq![91u8, 64] + spec_oct_padded(arg, 4) + seq![93u8],
        Addressing::IndirectCurrentPage => seq![91u8, 64] + spec_oct_padded(arg, 4) + seq![93u8],
        Addressing::IndirectZeroPage => seq![91u8, 64] + spec_oct_padded(arg, 2) + seq![93u8],
        _ => seq![64u8] + spec_oct_padded(arg, 4),
    }
}

/// One whole listing line: `oooo: wwww ; NAME operand`, addresses and
/// words in 4-digit octal.
pub open spec fn spec_render_entry(e: ListingEntry) -> Seq<u8> {
    spec_oct_padded(e.org, 4) + seq![58u8, 32] + spec_oct_padded(e.word, 4) + seq![32u8, 59, 32]
        + spec_inst_name(e.instruction) + seq![32u8] + spec_operand_text(e.addressing, e.arg)
}

/// Renders one encoded line in the listing format.
#[verifier::rlimit(100)]
pub fn render_entry(e: &ListingEntry) -> (r: Vec<u8>)
    ensures
        r@ == spec_render_entry(*e),
{
    let mut r = render_oct(e.org, 4);
    r.push(58);
    r.push(32);
    let word = render_oct(e.word, 4);
    push_all(&mut r, &word);
    r.push(32);
    r.push(59);
    r.push(32);
    let name = inst_name(e.instruction);
    push_all(&mut r, &name);
    r.push(32);
    match e.addressing {
        Addressing::Immediate => {
            r.push(35);
            let d = render_dec(e.arg, 2);
            push_all(&mut r, &d);
        },
        Addressing::Accumulator => {
            r.push(65);
            r.push(43);
            let d = render_oct(e.arg, 2);
            push_all(&mut r, &d);
        },
        Addressing::ZeroPage => {
            r.push(64);
            let d = render_oct(e.arg, 2);
            push_all(&mut r, &d);
        },
        Addressing::Indirect | Addressing::IndirectCurrentPage => {
            r.push(91);
            r.push(64);
            let d = render_oct(e.arg, 4);
            push_all(&mut r, &d);
            r.push(93);
        },
        Addressing::IndirectZeroPage => {
            r.push(91);
            r.push(64);
            let d = render_oct(e.arg, 2);
            push_all(&mut r, &d);
            r.push(93);
        },
        _ => {
            r.push(64);
            let d = render_oct(e.arg, 4);
            push_all(&mut r, &d);
        },
    }
    proof {
        assert(r@ =~= spec_render_entry(*e));
    }
    r
}

/// The message text of each diagnostic, offending values rendered as
/// 4-digit octal after `@`.
pub open spec fn spec_message(e: AsmError) -> Seq<u8> {
    match e {
        AsmError::InvalidInstruction => seq![
            73u8, 110, 118, 97, 108, 105, 100, 32, 105, 110, 115, 116, 114, 117, 99, 116, 105,
            111, 110,
        ],
        AsmError::InvalidAddressing => seq![
            73u8, 110, 118, 97, 108, 105, 100, 32, 97, 100, 100, 114, 101, 115, 115, 105, 110,
            103, 32, 109, 111, 100, 101,
        ],
        AsmError::InvalidLabel => seq![73u8, 110, 118, 97, 108, 105, 100, 32, 108, 97, 98, 101, 108],
        AsmError::DuplicateSymbol => seq![
            68u8, 117, 112, 108, 105, 99, 97, 116, 101, 32, 115, 121, 109, 98, 111, 108,
        ],
        AsmError::UnresolvedReference => seq![
            85u8, 110, 114, 101, 115, 111, 108, 118, 101, 100, 32, 114, 101, 102, 101, 114, 101,
            110, 99, 101,
        ],
        AsmError::MissingRightBracket => seq![
            77u8, 105, 115, 115, 105, 110, 103, 32, 39, 93, 39,
        ],
        AsmError::ArgumentTooLarge(a) => seq![65u8, 114, 103, 117, 109, 101, 110, 116, 32, 64]
            + spec_oct_padded(a, 4) + seq![32u8, 116, 111, 111, 32, 108, 97, 114, 103, 101],
        AsmError::BranchTargetOutOfRange(a) => seq![
            66u8, 114, 97, 110, 99, 104, 32, 116, 97, 114, 103, 101, 116, 32, 64,
        ] + spec_oct_padded(a, 4) + seq![32u8, 111, 117, 116, 32, 111, 102, 32, 114, 97, 110, 103, 101],
        AsmError::LocationUnreachable(a) => seq![76u8, 111, 99, 97, 116, 105, 111, 110, 32, 64]
            + spec_oct_padded(a, 4) + seq![32u8, 117, 110, 114, 101, 97, 99, 104, 97, 98, 108, 101],
    }
}

impl AsmError {
    /// The diagnostic message for this error, as ASCII text.
    #[verifier::rlimit(100)]
    pub fn message(&self) -> (r: Vec<u8>)
        ensures
            r@ == spec_message(*self),
    {
        let mut r: Vec<u8> = Vec::new();
        match self {
            AsmError::InvalidInstruction => {
                r.push(73);
                r.push(110);
                r.push(118);
                r.push(97);
                r.push(108);
                r.push(105);
                r.push(100);
                r.push(32);
                r.push(105);
                r.push(110);
                r.push(115);
                r.push(116);
                r.push(114);
                r.push(117);
                r.push(99);
                r.push(116);
                r.push(105);
                r.push(111);
                r.push(110);
            },
            AsmError::InvalidAddressing => {
                r.push(73);
                r.push(110);
                r.push(118);
                r.push(97);
                r.push(108);
                r.push(105);
                r.push(100);
                r.push(32);
                r.push(97);
                r.push(100);
                r.push(100);
                r.push(114);
                r.push(101);
                r.push(115);
                r.push(115);
                r.push(105);
                r.push(110);
                r.push(103);
                r.push(32);
                r.push(109);
                r.push(111);
                r.push(100);
                r.push(101);
            },
            AsmError::InvalidLabel => {
                r.push(73);
                r.push(110);
                r.push(118);
                r.push(97);
                r.push(108);
                r.push(105);
                r.push(100);
                r.push(32);
                r.push(108);
                r.push(97);
                r.push(98);
                r.push(101);
                r.push(108);
            },
            AsmError::DuplicateSymbol => {
                r.push(68);
                r.push(117);
                r.push(112);
                r.push(108);
                r.push(105);
                r.push(99);
                r.push(97);
                r.push(116);
                r.push(101);
                r.push(32);
                r.push(115);
                r.push(121);
                r.push(109);
                r.push(98);
                r.push(111);
                r.push(108);
            },
            AsmError::UnresolvedReference => {
                r.push(85);
                r.push(110);
                r.push(114);
                r.push(101);
                r.push(115);
                r.push(111);
                r.push(108);
                r.push(118);
                r.push(101);
                r.push(100);
                r.push(32);
                r.push(114);
                r.push(101);
                r.push(102);
                r.push(101);
                r.push(114);
                r.push(101);
                r.push(110);
                r.push(99);
                r.push(101);
            },
            AsmError::MissingRightBracket => {
                r.push(77);
                r.push(105);
                r.push(115);
                r.push(115);
                r.push(105);
                r.push(110);
                r.push(103);
                r.push(32);
                r.push(39);
                r.push(93);
                r.push(39);
            },
            AsmError::ArgumentTooLarge(a) => {
                r.push(65);
                r.push(114);
                r.push(103);
                r.push(117);
                r.push(109);
                r.push(101);
                r.push(110);
                r.push(116);
                r.push(32);
                r.push(64);
                let d = render_oct(*a, 4);
                push_all(&mut r, &d);
                r.push(32);
                r.push(116);
                r.push(111);
                r.push(111);
                r.push(32);
                r.push(108);
                r.push(97);
                r.push(114);
                r.push(103);
                r.push(101);
            },
            AsmError::BranchTargetOutOfRange(a) => {
                r.push(66);
                r.push(114);
                r.push(97);
                r.push(110);
                r.push(99);
                r.push(104);
                r.push(32);
                r.push(116);
                r.push(97);
                r.push(114);
                r.push(103);
                r.push(101);
                r.push(116);
                r.push(32);
                r.push(64);
                let d = render_oct(*a, 4);
                push_all(&mut r, &d);
                r.push(32);
                r.push(111);
                r.push(117);
                r.push(116);
                r.push(32);
                r.push(111);
                r.push(102);
                r.push(32);
                r.push(114);
                r.push(97);
                r.push(110);
                r.push(103);
                r.push(101);
            },
            AsmError::LocationUnreachable(a) => {
                r.push(76);
                r.push(111);
                r.push(99);
                r.push(97);
                r.push(116);
                r.push(105);
                r.push(111);
                r.push(110);
                r.push(32);
                r.push(64);
                let d = render_oct(*a, 4);
                push_all(&mut r, &d);
                r.push(32);
                r.push(117);
                r.push(110);
                r.push(114);
                r.push(101);
                r.push(97);
                r.push(99);
                r.push(104);
                r.push(97);
                r.push(98);
                r.push(108);
                r.push(101);
            },
        }
        proof {
            assert(r@ =~= spec_message(*self));
        }
        r
    }
}

} // verus!
