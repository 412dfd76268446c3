//! The line parser: one comment-stripped, non-blank source line becomes
//! an `Opcode`, registering any label and operand references in the
//! symbol table as it goes.

use vstd::prelude::*;

use crate::ast::{Addressing, AsmError, Instruction, Opcode, Operand};
use crate::ast::{inst_from_string, inst_is_assembler, inst_is_jump};
use crate::ast::{spec_inst_from_string, spec_inst_is_assembler, spec_inst_is_jump};
use crate::lex::{parse_number, spec_is_identifier, spec_parse_number, spec_tokens, string_is_identifier, subvec, tokenize};
use crate::symtab::{spec_add_label, spec_add_reference, SymModel, SymbolTable};

verus! {

/// What `parse_operand` does: a numeric token becomes a literal; a
/// well-formed identifier is registered and becomes a reference; anything
/// else is an invalid label.
pub open spec fn spec_parse_operand(tok: Seq<u8>, m: SymModel) -> (Result<Operand, AsmError>, SymModel) {
    match spec_parse_number(tok) {
        Some(v) => (Ok(Operand::Literal(v)), m),
        None => if spec_is_identifier(tok) {
            let (id, m1) = spec_add_reference(m, tok);
            (Ok(Operand::Label(id as usize)), m1)
        } else {
            (Err(AsmError::InvalidLabel), m)
        },
    }
}

/// Parses an operand token: numbers first, identifiers second.
pub fn parse_operand(token: &Vec<u8>, symbols: &mut SymbolTable) -> (r: Result<Operand, AsmError>)
    requires
        old(symbols)@.wf(),
    ensures
        final(symbols)@.wf(),
        ({
            let (res, m1) = spec_parse_operand(token@, old(symbols)@);
            r == res && final(symbols)@ == m1
        }),
{
    match parse_number(token) {
        Some(val) => Ok(Operand::Literal(val)),
        None => {
            if string_is_identifier(token) {
                let id = symbols.add_reference(token);
                Ok(Operand::Label(id))
            } else {
                Err(AsmError::InvalidLabel)
            }
        },
    }
}

/// Attaches a parsed operand to an instruction and addressing mode.
pub open spec fn spec_with_operand(
    instruction: Instruction,
    addressing: Addressing,
    tok: Seq<u8>,
    m: SymModel,
) -> (Result<Opcode, AsmError>, SymModel) {
    let (res, m1) = spec_parse_operand(tok, m);
    match res {
        Err(e) => (Err(e), m1),
        Ok(operand) => (Ok(Opcode { instruction, operand, addressing }), m1),
    }
}

/// Parses mnemonic and operand once any label has been consumed:
/// `toks[0]` is the mnemonic, `toks[1]` (if present) the operand token,
/// and anything beyond is ignored. The operand's leading syntax selects
/// the addressing mode; pseudo-operations always get `Assembler`.
pub open spec fn spec_parse_rest(toks: Seq<Seq<u8>>, m: SymModel) -> (Result<Opcode, AsmError>, SymModel) {
    if toks.len() == 0 {
        (Err(AsmError::InvalidInstruction), m)
    } else {
        match spec_inst_from_string(toks[0]) {
            None => (Err(AsmError::InvalidInstruction), m),
            Some(instruction) => {
                if toks.len() == 1 {
                    let addressing = if spec_inst_is_assembler(instruction) {
                        Addressing::Assembler
                    } else {
                        Addressing::Immediate
                    };
                    (Ok(Opcode { instruction, operand: Operand::Literal(0), addressing }), m)
                } else {
                    let t = toks[1];
                    if spec_inst_is_assembler(instruction) {
                        spec_with_operand(instruction, Addressing::Assembler, t, m)
                    } else if t.len() > 0 && t[0] == 91 {
                        if !(t.len() > 0 && t.last() == 93) {
                            (Err(AsmError::MissingRightBracket), m)
                        } else {
                            let a = if spec_inst_is_jump(instruction) {
                                Addressing::IndirectCurrentPage
                            } else {
                                Addressing::Indirect
                            };
                            spec_with_operand(instruction, a, t.subrange(1, t.len() - 1), m)
                        }
                    } else if t.len() > 0 && t[0] == 35 {
                        spec_with_operand(instruction, Addressing::Immediate, t.drop_first(), m)
                    } else if t.len() >= 2 && (t[0] == 65 || t[0] == 97) && t[1] == 43 {
                        if !spec_inst_is_jump(instruction) {
                            (Err(AsmError::InvalidAddressing), m)
                        } else {
                            spec_with_operand(instruction, Addressing::Accumulator, t.skip(2), m)
                        }
                    } else {
                        let a = if spec_inst_is_jump(instruction) {
                            Addressing::Direct
                        } else {
                            Addressing::CurrentPage
                        };
                        spec_with_operand(instruction, a, t, m)
                    }
                }
            },
        }
    }
}

/// Whether the first token of a line defines a label.
pub open spec fn spec_has_label(toks: Seq<Seq<u8>>) -> bool {
    toks.len() > 0 && toks[0].len() > 0 && toks[0].last() == 58
}

/// What `parse_line` does to its tokens and the symbol table: bind any
/// leading `name:` label to the current address (a rebinding is a
/// duplicate symbol), then parse mnemonic and operand.
pub open spec fn spec_parse_line(toks: Seq<Seq<u8>>, address: u16, m: SymModel) -> (Result<Opcode, AsmError>, SymModel) {
    if spec_has_label(toks) {
        let (res, m1) = spec_add_label(m, toks[0].drop_last(), address);
        if res is Err {
            (Err(AsmError::DuplicateSymbol), m1)
        } else {
            spec_parse_rest(toks.drop_first(), m1)
        }
    } else {
        spec_parse_rest(toks, m)
    }
}

/// Parses one comment-stripped, non-blank line at the given
/// location-counter value. The line must hold at least one token, and a
/// lone label token is only allowed where its binding fails as a
/// duplicate (the assembler rejects such a line before parsing it).
pub fn parse_line(text: &Vec<u8>, address: u16, symbols: &mut SymbolTable) -> (r: Result<Opcode, AsmError>)
    requires
        old(symbols)@.wf(),
        spec_tokens(text@).len() >= 1,
        ({
            let toks = spec_tokens(text@);
            (spec_has_label(toks) && toks.len() == 1) ==> spec_add_label(
                old(symbols)@,
                toks[0].drop_last(),
                address,
            ).0 is Err
        }),
    ensures
        final(symbols)@.wf(),
        ({
            let (res, m1) = spec_parse_line(spec_tokens(text@), address, old(symbols)@);
            r == res && final(symbols)@ == m1
        }),
{
    let toks = tokenize(text);
    let ghost tseq = spec_tokens(text@);
    proof {
        assert(toks@.map_values(|t: Vec<u8>| t@).len() == tseq.len());
        assert(toks@.map_values(|t: Vec<u8>| t@)[0] == toks@[0]@);
    }
    let mut idx: usize = 0;

    // label definition
    let t0 = &toks[0];
    if t0.len() > 0 && t0[t0.len() - 1] == 58 {
        let name = subvec(t0, 0, t0.len() - 1);
        proof {
            assert(name@ =~= tseq[0].drop_last());
        }
        let bound = symbols.add_label(&name, address);
        if bound.is_err() {
            return Err(AsmError::DuplicateSymbol);
        }
        if toks.len() == 1 {
            // excluded by the caller: a lone label that binds would have
            // no mnemonic to parse
            assert(false);
        }
        idx = 1;
    }
    let ghost rest = if spec_has_label(tseq) {
        tseq.drop_first()
    } else {
        tseq
    };
    let ghost m1 = if spec_has_label(tseq) {
        spec_add_label(old(symbols)@, tseq[0].drop_last(), address).1
    } else {
        old(symbols)@
    };
    proof {
        assert(idx < toks.len());
        assert(rest.len() == toks.len() - idx);
        assert(symbols@ == m1);
        assert forall|k: int| 0 <= k < rest.len() implies rest[k] == toks@[idx + k]@ by {
            assert(toks@.map_values(|t: Vec<u8>| t@)[idx + k] == toks@[idx + k]@);
        }
    }

    // mnemonic
    let instruction = match inst_from_string(&toks[idx]) {
        Some(inst) => inst,
        None => {
            return Err(AsmError::InvalidInstruction);
        },
    };

    // no operand token: pseudo-operations get Assembler addressing, real
    // instructions default to an immediate zero
    if idx + 1 >= toks.len() {
        let addressing = if inst_is_assembler(instruction) {
            Addressing::Assembler
        } else {
            Addressing::Immediate
        };
        return Ok(Opcode { instruction, operand: Operand::Literal(0), addressing });
    }
    let t = &toks[idx + 1];
    proof {
        assert(rest[1] == t@);
    }

    if inst_is_assembler(instruction) {
        // pseudo-operation: full-word operand
        let operand = match parse_operand(t, symbols) {
            Ok(o) => o,
            Err(e) => {
                return Err(e);
            },
        };
        return Ok(Opcode { instruction, operand, addressing: Addressing::Assembler });
    }
    if t.len() > 0 && t[0] == 91 {
        // indirect: [x]
        if t[t.len() - 1] != 93 {
            return Err(AsmError::MissingRightBracket);
        }
        let addressing = if inst_is_jump(instruction) {
            Addressing::IndirectCurrentPage
        } else {
            Addressing::Indirect
        };
        let inner = subvec(t, 1, t.len() - 1);
        let operand = match parse_operand(&inner, symbols) {
            Ok(o) => o,
            Err(e) => {
                return Err(e);
            },
        };
        return Ok(Opcode { instruction, operand, addressing });
    }
    if t.len() > 0 && t[0] == 35 {
        // immediate: #x
        let inner = subvec(t, 1, t.len());
        proof {
            assert(inner@ =~= t@.drop_first());
        }
        let operand = match parse_operand(&inner, symbols) {
            Ok(o) => o,
            Err(e) => {
                return Err(e);
            },
        };
        return Ok(Opcode { instruction, operand, addressing: Addressing::Immediate });
    }
    if t.len() >= 2 && (t[0] == 65 || t[0] == 97) && t[1] == 43 {
        // accumulator-relative: A+x, jumps only
        if !inst_is_jump(instruction) {
            return Err(AsmError::InvalidAddressing);
        }
        let inner = subvec(t, 2, t.len());
        proof {
            assert(inner@ =~= t@.skip(2));
        }
        let operand = match parse_operand(&inner, symbols) {
            Ok(o) => o,
            Err(e) => {
                return Err(e);
            },
        };
        return Ok(Opcode { instruction, operand, addressing: Addressing::Accumulator });
    }
    // bare operand: direct for jumps, current-page otherwise
    let addressing = if inst_is_jump(instruction) {
        Addressing::Direct
    } else {
        Addressing::CurrentPage
    };
    let operand = match parse_operand(t, symbols) {
        Ok(o) => o,
        Err(e) => {
            return Err(e);
        },
    };
    Ok(Opcode { instruction, operand, addressing })
}

} // verus!
