//! Whole-pipeline laws: counting properties of the two passes and
//! determinism of the encoder.

use vstd::prelude::*;

use crate::ast::{AsmError, Instruction, Line, ListingEntry};
use crate::ast::spec_inst_from_string;
use crate::driver::{spec_line_stops, spec_pass1, spec_stripped};
use crate::encode::{spec_assemble_line, spec_pass2};
use crate::lex::spec_tokens;
use crate::parser::{spec_has_label, spec_parse_line};
use crate::symtab::{lemma_find_name, spec_add_label, SymModel};

verus! {

/// Pass 2 accounts for every line exactly once: each retained line
/// yields either one listing entry or one diagnostic.
pub proof fn lemma_pass2_counts(lines: Seq<Line>, m: SymModel)
    ensures
        spec_pass2(lines, m).0.len() + spec_pass2(lines, m).1.len() == lines.len(),
    decreases lines.len(),
{
    if lines.len() > 0 {
        lemma_pass2_counts(lines.drop_last(), m);
    }
}

/// Whether the mnemonic token of a tokenized line spells ORG.
pub open spec fn spec_line_is_org(toks: Seq<Seq<u8>>) -> bool {
    let rest = if spec_has_label(toks) {
        toks.drop_first()
    } else {
        toks
    };
    rest.len() > 0 && spec_inst_from_string(rest[0]) == Some(Instruction::ORG)
}

/// A source line that occupies one machine word when it parses: it still
/// has a token after comment stripping and its mnemonic is not ORG.
pub open spec fn spec_is_code_line(text: Seq<u8>) -> bool {
    let toks = spec_tokens(spec_stripped(text));
    toks.len() > 0 && !spec_line_is_org(toks)
}

/// How many such lines a source holds.
pub open spec fn spec_code_line_count(src: Seq<Seq<u8>>) -> nat
    decreases src.len(),
{
    if src.len() == 0 {
        0
    } else {
        spec_code_line_count(src.drop_last()) + (if spec_is_code_line(src.last()) {
            1 as nat
        } else {
            0 as nat
        })
    }
}

/// When a line parses, its opcode is ORG exactly when its mnemonic token
/// spells ORG.
proof fn lemma_parse_ok_org(toks: Seq<Seq<u8>>, addr: u16, m: SymModel)
    requires
        spec_parse_line(toks, addr, m).0 is Ok,
    ensures
        (spec_parse_line(toks, addr, m).0.unwrap().instruction == Instruction::ORG)
            == spec_line_is_org(toks),
{
}

/// In a run of pass 1 that stops nowhere and records no failure, the
/// retained lines are exactly the non-blank, non-ORG source lines, one
/// each.
pub proof fn lemma_pass1_line_count(src: Seq<Seq<u8>>, m0: SymModel)
    requires
        !spec_pass1(src, m0).panicked,
        spec_pass1(src, m0).errors.len() == 0,
    ensures
        spec_pass1(src, m0).lines.len() == spec_code_line_count(src),
    decreases src.len(),
{
    if src.len() > 0 {
        let prev = spec_pass1(src.drop_last(), m0);
        let st = spec_pass1(src, m0);
        assert(!prev.panicked);
        assert(prev.errors.len() == 0);
        lemma_pass1_line_count(src.drop_last(), m0);
        let toks = spec_tokens(spec_stripped(src.last()));
        if toks.len() != 0 && !spec_line_stops(prev.syms, prev.addr, toks) {
            let res = spec_parse_line(toks, prev.addr, prev.syms).0;
            assert(res is Ok);
            lemma_parse_ok_org(toks, prev.addr, prev.syms);
        }
    }
}

/// For every valid program — pass 1 stops nowhere and neither pass
/// records a failure — the listing holds exactly one output word per
/// non-blank, non-ORG source line.
pub proof fn lemma_one_word_per_code_line(src: Seq<Seq<u8>>, m0: SymModel)
    requires
        !spec_pass1(src, m0).panicked,
        spec_pass1(src, m0).errors.len() == 0,
        spec_pass2(spec_pass1(src, m0).lines, spec_pass1(src, m0).syms).1.len() == 0,
    ensures
        spec_pass2(spec_pass1(src, m0).lines, spec_pass1(src, m0).syms).0.len()
            == spec_code_line_count(src),
{
    lemma_pass1_line_count(src, m0);
    lemma_pass2_counts(spec_pass1(src, m0).lines, spec_pass1(src, m0).syms);
}

/// A second definition of an already-bound label fails with
/// `DuplicateSymbol` and leaves every binding in the symbol table
/// exactly as it was.
pub proof fn lemma_duplicate_label_changes_nothing(toks: Seq<Seq<u8>>, addr: u16, m: SymModel)
    requires
        m.wf(),
        spec_has_label(toks),
        spec_add_label(m, toks[0].drop_last(), addr).0 is Err,
    ensures
        spec_parse_line(toks, addr, m).0 == Result::<
            crate::ast::Opcode,
            AsmError,
        >::Err(AsmError::DuplicateSymbol),
        spec_parse_line(toks, addr, m).1 == m,
{
    lemma_find_name(m.names, toks[0].drop_last());
}

/// Encoding a resolved line is a pure function of the line and the
/// symbol table: two encodings of the same line against the same table
/// are identical, listing text included.
pub proof fn lemma_encode_deterministic(
    l: Line,
    m: SymModel,
    r1: Result<ListingEntry, AsmError>,
    r2: Result<ListingEntry, AsmError>,
)
    requires
        r1 == spec_assemble_line(l, m),
        r2 == spec_assemble_line(l, m),
    ensures
        r1 == r2,
{
}

} // verus!
