//! Pass 1 of the two-pass pipeline: walk the source lines in order,
//! strip comments, skip blank lines, parse the rest, record labels,
//! apply ORG to the location counter and collect the retained lines and
//! the per-line diagnostics.

use vstd::prelude::*;

use crate::ast::{Instruction, Line, LineDiag, Operand};
use crate::lex::{first_semi_at, spec_tokens, strip_comment, subvec, tokenize};
use crate::parser::{parse_line, spec_has_label, spec_parse_line};
use crate::symtab::{spec_add_label, SymModel, SymbolTable};

verus! {

/// The whole state pass 1 threads through the source: the location
/// counter, the retained lines, the diagnostics so far, the symbol
/// table, and whether a line was hit that the assembler cannot parse at
/// all (a lone label that binds, which leaves no mnemonic token).
#[verifier::ext_equal]
pub ghost struct Pass1State {
    pub addr: u16,
    pub lines: Seq<Line>,
    pub errors: Seq<LineDiag>,
    pub syms: SymModel,
    pub panicked: bool,
}

/// The location counter after one retained line: one word per line,
/// wrapping at the top of the 16-bit address space.
pub open spec fn spec_wrap_inc(a: u16) -> u16 {
    if a == 0xffff {
        0
    } else {
        (a + 1) as u16
    }
}

/// A source line with its comment stripped.
pub open spec fn spec_stripped(text: Seq<u8>) -> Seq<u8> {
    text.take(first_semi_at(text) as int)
}

/// A line pass 1 cannot handle: a lone label token whose binding
/// succeeds leaves no mnemonic token to parse.
pub open spec fn spec_line_stops(m: SymModel, addr: u16, toks: Seq<Seq<u8>>) -> bool {
    spec_has_label(toks) && toks.len() == 1 && spec_add_label(m, toks[0].drop_last(), addr).0 is Ok
}

/// One step of pass 1 over one raw source line numbered `num`.
pub open spec fn spec_pass1_step(s: Pass1State, text: Seq<u8>, num: usize) -> Pass1State {
    if s.panicked {
        s
    } else {
        let toks = spec_tokens(spec_stripped(text));
        if toks.len() == 0 {
            s
        } else if spec_line_stops(s.syms, s.addr, toks) {
            Pass1State { panicked: true, ..s }
        } else {
            let (res, m1) = spec_parse_line(toks, s.addr, s.syms);
            match res {
                Err(e) => Pass1State {
                    errors: s.errors.push(LineDiag { num, err: e }),
                    syms: m1,
                    ..s
                },
                Ok(op) => if op.instruction == Instruction::ORG {
                    let a2 = match op.operand {
                        Operand::Literal(v) => v,
                        Operand::Label(_) => s.addr,
                    };
                    Pass1State { addr: a2, syms: m1, ..s }
                } else {
                    Pass1State {
                        addr: spec_wrap_inc(s.addr),
                        lines: s.lines.push(Line { num, org: s.addr, op }),
                        syms: m1,
                        ..s
                    }
                },
            }
        }
    }
}

pub open spec fn spec_pass1_init(m0: SymModel) -> Pass1State {
    Pass1State {
        addr: 0,
        lines: Seq::empty(),
        errors: Seq::empty(),
        syms: m0,
        panicked: false,
    }
}

/// Pass 1 over a whole source, line `i` carrying line number `i + 1`.
pub open spec fn spec_pass1(src: Seq<Seq<u8>>, m0: SymModel) -> Pass1State
    decreases src.len(),
{
    if src.len() == 0 {
        spec_pass1_init(m0)
    } else {
        spec_pass1_step(spec_pass1(src.drop_last(), m0), src.last(), src.len() as usize)
    }
}

/// What pass 1 returns: the retained lines and the per-line parse
/// diagnostics, in source order.
#[derive(Debug)]
pub struct Pass1Result {
    pub lines: Vec<Line>,
    pub errors: Vec<LineDiag>,
}

/// Runs pass 1. Returns `None` exactly when a line is hit that the
/// assembler cannot parse (see `spec_line_stops`); otherwise every line
/// is attempted, failures are recorded and processing continues.
pub fn parse_lines(source: &Vec<Vec<u8>>, symbols: &mut SymbolTable) -> (r: Option<Pass1Result>)
    requires
        old(symbols)@.wf(),
    ensures
        final(symbols)@.wf(),
        ({
            let st = spec_pass1(source@.map_values(|v: Vec<u8>| v@), old(symbols)@);
            match r {
                None => st.panicked,
                Some(res) => {
                    &&& !st.panicked
                    &&& res.lines@ == st.lines
                    &&& res.errors@ == st.errors
                    &&& final(symbols)@ == st.syms
                },
            }
        }),
{
    let ghost src = source@.map_values(|v: Vec<u8>| v@);
    let mut lines: Vec<Line> = Vec::new();
    let mut errors: Vec<LineDiag> = Vec::new();
    let mut address: u16 = 0;
    let mut i: usize = 0;
    proof {
        assert(src.take(0) =~= Seq::<Seq<u8>>::empty());
        assert(spec_pass1(src.take(0), old(symbols)@) == spec_pass1_init(old(symbols)@));
    }
    while i < source.len()
        invariant
            i <= source.len(),
            src == source@.map_values(|v: Vec<u8>| v@),
            symbols@.wf(),
            ({
                let st = spec_pass1(src.take(i as int), old(symbols)@);
                &&& !st.panicked
                &&& st.addr == address
                &&& st.lines == lines@
                &&& st.errors == errors@
                &&& st.syms == symbols@
            }),
        decreases source.len() - i,
    {
        let ghost st_pre = spec_pass1(src.take(i as int), old(symbols)@);
        proof {
            assert(src.take(i + 1).drop_last() =~= src.take(i as int));
            assert(src.take(i + 1).last() == src[i as int]);
            assert(src[i as int] == source@[i as int]@);
            assert(spec_pass1(src.take(i + 1), old(symbols)@) == spec_pass1_step(
                st_pre,
                src[i as int],
                (i + 1) as usize,
            ));
        }
        let stripped = strip_comment(&source[i]);
        let toks = tokenize(&stripped);
        proof {
            assert(stripped@ == spec_stripped(src[i as int]));
            assert(toks@.map_values(|t: Vec<u8>| t@).len() == spec_tokens(stripped@).len());
        }
        if toks.len() == 0 {
            i += 1;
            continue ;
        }
        let ghost tseq = spec_tokens(stripped@);
        proof {
            assert(toks@.map_values(|t: Vec<u8>| t@)[0] == toks@[0]@);
        }
        let t0 = &toks[0];
        if toks.len() == 1 && t0.len() > 0 && t0[t0.len() - 1] == 58 {
            let name = subvec(t0, 0, t0.len() - 1);
            proof {
                assert(name@ =~= tseq[0].drop_last());
            }
            if symbols.label_unbound(&name) {
                proof {
                    assert(spec_line_stops(st_pre.syms, st_pre.addr, tseq));
                    assert(spec_pass1(src.take(i + 1), old(symbols)@).panicked);
                    lemma_pass1_panicked_stays(src, old(symbols)@, i + 1);
                }
                return None;
            }
        }
        proof {
            assert(!spec_line_stops(st_pre.syms, st_pre.addr, tseq));
        }
        match parse_line(&stripped, address, symbols) {
            Err(e) => {
                errors.push(LineDiag { num: i + 1, err: e });
                proof {
                    let st_post = spec_pass1(src.take(i + 1), old(symbols)@);
                    assert(st_post =~= Pass1State {
                        errors: st_pre.errors.push(LineDiag { num: (i + 1) as usize, err: e }),
                        syms: spec_parse_line(tseq, st_pre.addr, st_pre.syms).1,
                        ..st_pre
                    });
                    assert(errors@ =~= st_post.errors);
                }
            },
            Ok(op) => {
                if op.instruction == Instruction::ORG {
                    match op.operand {
                        Operand::Literal(v) => {
                            address = v;
                        },
                        _ => {},
                    }
                } else {
                    lines.push(Line { num: i + 1, org: address, op });
                    address = if address == 0xffff {
                        0
                    } else {
                        address + 1
                    };
                    proof {
                        let st_post = spec_pass1(src.take(i + 1), old(symbols)@);
                        assert(lines@ =~= st_post.lines);
                    }
                }
            },
        }
        i += 1;
    }
    proof {
        assert(src.take(source.len() as int) =~= src);
    }
    Some(Pass1Result { lines, errors })
}

/// Once a step has set the stop flag, every later state keeps it.
pub proof fn lemma_pass1_panicked_stays(src: Seq<Seq<u8>>, m0: SymModel, k: int)
    requires
        0 <= k <= src.len(),
        spec_pass1(src.take(k), m0).panicked,
    ensures
        spec_pass1(src, m0).panicked,
    decreases src.len() - k,
{
    if k < src.len() {
        assert(src.take(k + 1).drop_last() =~= src.take(k));
        lemma_pass1_panicked_stays(src, m0, k + 1);
    } else {
        assert(src.take(k) =~= src);
    }
}

} // verus!
