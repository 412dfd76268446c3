//! Pass 2: resolve each retained line's operand through the symbol
//! table, narrow and validate its addressing mode against the page
//! rules, compute the 16-bit word and render the listing entry.

use vstd::prelude::*;

use crate::ast::{Addressing, AsmError, Instruction, Line, LineDiag, ListingEntry, Opcode, Operand};
use crate::ast::{inst_is_assembler, opcode_to_int};
use crate::ast::{lemma_opcode_to_int_bound, spec_inst_is_assembler, spec_opcode_to_int};
use crate::driver::{parse_lines, spec_pass1};
use crate::render::{render_entry, spec_render_entry};
use crate::symtab::{spec_resolve, SymModel, SymbolTable};

verus! {

/// The page of an address: everything above the 6-bit in-page offset.
pub open spec fn spec_page(x: u16) -> u16 {
    x >> 6u16
}

/// The resolved 16-bit value of an operand: literals stand for
/// themselves, references are looked up in the symbol table.
pub open spec fn spec_resolve_arg(op: Opcode, m: SymModel) -> Option<u16> {
    match op.operand {
        Operand::Literal(v) => Some(v),
        Operand::Label(id) => spec_resolve(m, id as int),
    }
}

/// Narrows and validates an addressing mode for a resolved operand value
/// `arg` at line address `org`:
/// - immediate and accumulator operands must fit in 6 bits;
/// - current-page modes narrow to the zero-page modes when the operand
///   lies on page 0, and otherwise require the operand on the line's page
///   (a mismatch is `LocationUnreachable`, or `BranchTargetOutOfRange`
///   for the jump-only modes);
/// - plain indirect and direct require the operand on the line's page
///   without any narrowing;
/// - zero-page and assembler modes pass unchanged.
pub open spec fn spec_validate(a: Addressing, org: u16, arg: u16) -> Result<Addressing, AsmError> {
    match a {
        Addressing::Immediate => if arg > 63 {
            Err(AsmError::ArgumentTooLarge(arg))
        } else {
            Ok(a)
        },
        Addressing::Accumulator => if arg > 63 {
            Err(AsmError::ArgumentTooLarge(arg))
        } else {
            Ok(a)
        },
        Addressing::CurrentPage => if spec_page(arg) == 0 {
            Ok(Addressing::ZeroPage)
        } else if spec_page(arg) != spec_page(org) {
            Err(AsmError::LocationUnreachable(arg))
        } else {
            Ok(a)
        },
        Addressing::Indirect => if spec_page(arg) != spec_page(org) {
            Err(AsmError::LocationUnreachable(arg))
        } else {
            Ok(a)
        },
        Addressing::IndirectCurrentPage => if spec_page(arg) == 0 {
            Ok(Addressing::IndirectZeroPage)
        } else if spec_page(arg) != spec_page(org) {
            Err(AsmError::BranchTargetOutOfRange(arg))
        } else {
            Ok(a)
        },
        Addressing::Direct => if spec_page(arg) != spec_page(org) {
            Err(AsmError::BranchTargetOutOfRange(arg))
        } else {
            Ok(a)
        },
        _ => Ok(a),
    }
}

/// What one line encodes to: an unresolved reference fails; otherwise
/// the addressing mode is validated and possibly narrowed, and the word
/// is the resolved value itself for assembler addressing (WRD) or the
/// class and mode codes plus the low 6 bits of the value.
pub open spec fn spec_assemble_line(l: Line, m: SymModel) -> Result<ListingEntry, AsmError> {
    match spec_resolve_arg(l.op, m) {
        None => Err(AsmError::UnresolvedReference),
        Some(arg) => match spec_validate(l.op.addressing, l.org, arg) {
            Err(e) => Err(e),
            Ok(narrowed) => {
                let op2 = Opcode { addressing: narrowed, ..l.op };
                let word = if spec_inst_is_assembler(l.op.instruction) {
                    arg
                } else {
                    (spec_opcode_to_int(op2) + (arg & 63)) as u16
                };
                Ok(
                    ListingEntry {
                        org: l.org,
                        word,
                        instruction: l.op.instruction,
                        addressing: narrowed,
                        arg,
                    },
                )
            },
        },
    }
}

/// Encodes one resolved line, a pure function of the line and the
/// symbol table.
pub fn assemble_line(l: &Line, symbols: &SymbolTable) -> (r: Result<ListingEntry, AsmError>)
    ensures
        r == spec_assemble_line(*l, symbols@),
{
    let arg: u16 = match l.op.operand {
        Operand::Literal(lit) => lit,
        Operand::Label(label) => {
            match symbols.resolve_reference(label) {
                Some(a) => a,
                None => {
                    return Err(AsmError::UnresolvedReference);
                },
            }
        },
    };

    let mut addressing = l.op.addressing;
    match addressing {
        Addressing::Immediate | Addressing::Accumulator => {
            if arg > 63 {
                return Err(AsmError::ArgumentTooLarge(arg));
            }
        },
        Addressing::CurrentPage => {
            if (arg >> 6u16) == 0 {
                addressing = Addressing::ZeroPage;
            } else if (arg >> 6u16) != (l.org >> 6u16) {
                return Err(AsmError::LocationUnreachable(arg));
            }
        },
        Addressing::Indirect => {
            if (arg >> 6u16) != (l.org >> 6u16) {
                return Err(AsmError::LocationUnreachable(arg));
            }
        },
        Addressing::IndirectCurrentPage => {
            if (arg >> 6u16) == 0 {
                addressing = Addressing::IndirectZeroPage;
            } else if (arg >> 6u16) != (l.org >> 6u16) {
                return Err(AsmError::BranchTargetOutOfRange(arg));
            }
        },
        Addressing::Direct => {
            if (arg >> 6u16) != (l.org >> 6u16) {
                return Err(AsmError::BranchTargetOutOfRange(arg));
            }
        },
        _ => {},
    }

    let op2 = Opcode { instruction: l.op.instruction, operand: l.op.operand, addressing };
    let word: u16;
    if inst_is_assembler(l.op.instruction) {
        word = arg;
    } else {
        let base = opcode_to_int(&op2);
        proof {
            lemma_opcode_to_int_bound(op2);
            assert(arg & 63 <= 63) by (bit_vector);
        }
        word = base + (arg & 63);
    }
    Ok(
        ListingEntry {
            org: l.org,
            word,
            instruction: l.op.instruction,
            addressing,
            arg,
        },
    )
}

/// What pass 2 produces over a line sequence: the rendered listing lines
/// of the lines that encode, and a diagnostic for each line that fails,
/// both in source order.
pub open spec fn spec_pass2(lines: Seq<Line>, m: SymModel) -> (Seq<Seq<u8>>, Seq<LineDiag>)
    decreases lines.len(),
{
    if lines.len() == 0 {
        (Seq::empty(), Seq::empty())
    } else {
        let (ls, es) = spec_pass2(lines.drop_last(), m);
        match spec_assemble_line(lines.last(), m) {
            Ok(e) => (ls.push(spec_render_entry(e)), es),
            Err(err) => (ls, es.push(LineDiag { num: lines.last().num, err })),
        }
    }
}

/// The listing and diagnostics of pass 2 over a whole program.
pub struct AsmOutput {
    pub listing: Vec<Vec<u8>>,
    pub errors: Vec<LineDiag>,
}

/// Runs pass 2 over every retained line, never aborting early: each
/// failure contributes one diagnostic and suppresses only its own line.
pub fn assemble_file(lines: &Vec<Line>, symbols: &SymbolTable) -> (r: AsmOutput)
    ensures
        ({
            let (ls, es) = spec_pass2(lines@, symbols@);
            r.listing@.map_values(|v: Vec<u8>| v@) == ls && r.errors@ == es
        }),
{
    let mut listing: Vec<Vec<u8>> = Vec::new();
    let mut errors: Vec<LineDiag> = Vec::new();
    let mut i: usize = 0;
    proof {
        assert(lines@.take(0) =~= Seq::<Line>::empty());
        assert(listing@.map_values(|v: Vec<u8>| v@) =~= spec_pass2(lines@.take(0), symbols@).0);
    }
    while i < lines.len()
        invariant
            i <= lines.len(),
            ({
                let (ls, es) = spec_pass2(lines@.take(i as int), symbols@);
                listing@.map_values(|v: Vec<u8>| v@) == ls && errors@ == es
            }),
        decreases lines.len() - i,
    {
        proof {
            assert(lines@.take(i + 1).drop_last() =~= lines@.take(i as int));
            assert(lines@.take(i + 1).last() == lines@[i as int]);
        }
        match assemble_line(&lines[i], symbols) {
            Ok(e) => {
                let rendered = render_entry(&e);
                let ghost before = listing@;
                listing.push(rendered);
                proof {
                    assert(listing@.map_values(|v: Vec<u8>| v@) =~= before.map_values(
                        |v: Vec<u8>| v@,
                    ).push(spec_render_entry(e)));
                }
            },
            Err(err) => {
                errors.push(LineDiag { num: lines[i].num, err });
            },
        }
        i += 1;
    }
    proof {
        assert(lines@.take(lines@.len() as int) =~= lines@);
    }
    AsmOutput { listing, errors }
}

/// Everything one assembly run produces: the listing lines (empty when
/// pass 1 failed), the diagnostics of both passes, and the overall
/// verdict. The run succeeds exactly when no line failed in either pass.
pub struct AsmResult {
    pub listing: Vec<Vec<u8>>,
    pub parse_errors: Vec<LineDiag>,
    pub encode_errors: Vec<LineDiag>,
    pub success: bool,
}

/// Assembles a whole source, given as one byte vector per line. Returns
/// `None` exactly on a source that pass 1 cannot parse at all (a lone
/// label that binds, see `spec_line_stops`). Pass 2 is skipped entirely
/// when pass 1 recorded any failure.
pub fn assemble_source(source: &Vec<Vec<u8>>) -> (r: Option<AsmResult>)
    ensures
        ({
            let st = spec_pass1(source@.map_values(|v: Vec<u8>| v@), SymModel::empty());
            match r {
                None => st.panicked,
                Some(res) => {
                    &&& !st.panicked
                    &&& res.parse_errors@ == st.errors
                    &&& (if st.errors.len() == 0 {
                        let (ls, es) = spec_pass2(st.lines, st.syms);
                        res.listing@.map_values(|v: Vec<u8>| v@) == ls && res.encode_errors@ == es
                            && res.success == (es.len() == 0)
                    } else {
                        res.listing@.len() == 0 && res.encode_errors@.len() == 0 && !res.success
                    })
                },
            }
        }),
{
    let mut symbols = SymbolTable::new();
    match parse_lines(source, &mut symbols) {
        None => None,
        Some(p) => {
            if p.errors.len() > 0 {
                Some(
                    AsmResult {
                        listing: Vec::new(),
                        parse_errors: p.errors,
                        encode_errors: Vec::new(),
                        success: false,
                    },
                )
            } else {
                let out = assemble_file(&p.lines, &symbols);
                let success = out.errors.len() == 0;
                Some(
                    AsmResult {
                        listing: out.listing,
                        parse_errors: p.errors,
                        encode_errors: out.errors,
                        success,
                    },
                )
            }
        },
    }
}

} // verus!
