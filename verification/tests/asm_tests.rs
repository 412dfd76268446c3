use pasm::ast::{Addressing, AsmError, Instruction, Line, Opcode, Operand};
use pasm::ast::{inst_from_string, inst_is_assembler, inst_is_jump, opcode_to_int};
use pasm::driver::parse_lines;
use pasm::encode::{assemble_file, assemble_line, assemble_source};
use pasm::lex::{parse_number, string_is_identifier, strip_comment, tokenize};
use pasm::parser::{parse_line, parse_operand};
use pasm::symtab::SymbolTable;

fn b(s: &str) -> Vec<u8> {
    s.as_bytes().to_vec()
}

fn lines_of(xs: &[&str]) -> Vec<Vec<u8>> {
    xs.iter().map(|x| b(x)).collect()
}

fn listing_strings(listing: &[Vec<u8>]) -> Vec<String> {
    listing.iter().map(|l| String::from_utf8(l.clone()).unwrap()).collect()
}

// ---- lexing ----

#[test]
fn parse_number_decimal_octal_hex() {
    assert_eq!(parse_number(&b("123")), Some(123));
    assert_eq!(parse_number(&b("0")), Some(0));
    assert_eq!(parse_number(&b("@17")), Some(0o17));
    assert_eq!(parse_number(&b("@7777")), Some(0o7777));
    assert_eq!(parse_number(&b("$ff")), Some(255));
    assert_eq!(parse_number(&b("$FF")), Some(255));
    assert_eq!(parse_number(&b("$1aB")), Some(0x1ab));
}

#[test]
fn parse_number_rejects() {
    assert_eq!(parse_number(&b("")), None);
    assert_eq!(parse_number(&b("12a")), None);
    assert_eq!(parse_number(&b("@8")), None);
    assert_eq!(parse_number(&b("$g")), None);
    assert_eq!(parse_number(&b("-1")), None);
    assert_eq!(parse_number(&b("65536")), None);
    assert_eq!(parse_number(&b("99999999999999999999999")), None);
}

#[test]
fn parse_number_boundaries() {
    assert_eq!(parse_number(&b("65535")), Some(65535));
    assert_eq!(parse_number(&b("$ffff")), Some(0xffff));
    assert_eq!(parse_number(&b("@177777")), Some(0xffff));
    assert_eq!(parse_number(&b("@200000")), None);
    // a bare prefix has no digits and the value zero
    assert_eq!(parse_number(&b("@")), Some(0));
    assert_eq!(parse_number(&b("$")), Some(0));
}

#[test]
fn identifiers() {
    assert!(string_is_identifier(&b("foo")));
    assert!(string_is_identifier(&b("_a1")));
    assert!(string_is_identifier(&b("A")));
    assert!(!string_is_identifier(&b("")));
    assert!(!string_is_identifier(&b("1a")));
    assert!(!string_is_identifier(&b("a-b")));
    assert!(!string_is_identifier(&b("a b")));
}

#[test]
fn tokenize_splits_on_whitespace() {
    let toks = tokenize(&b("  lab:  ADD\tfoo "));
    assert_eq!(toks, vec![b("lab:"), b("ADD"), b("foo")]);
    assert_eq!(tokenize(&b("   ")), Vec::<Vec<u8>>::new());
    assert_eq!(tokenize(&b("")), Vec::<Vec<u8>>::new());
}

#[test]
fn strip_comment_at_first_semicolon() {
    assert_eq!(strip_comment(&b("NOP ; comment; more")), b("NOP "));
    assert_eq!(strip_comment(&b("; all comment")), b(""));
    assert_eq!(strip_comment(&b("ADD x")), b("ADD x"));
}

// ---- instructions ----

#[test]
fn mnemonics_case_insensitive() {
    assert_eq!(inst_from_string(&b("lda")), Some(Instruction::LDA));
    assert_eq!(inst_from_string(&b("LDA")), Some(Instruction::LDA));
    assert_eq!(inst_from_string(&b("Jmp")), Some(Instruction::JMP));
    assert_eq!(inst_from_string(&b("wrd")), Some(Instruction::WRD));
    assert_eq!(inst_from_string(&b("org")), Some(Instruction::ORG));
    assert_eq!(inst_from_string(&b("XYZ")), None);
    assert_eq!(inst_from_string(&b("LD")), None);
    assert_eq!(inst_from_string(&b("ADDD")), None);
}

#[test]
fn jump_and_assembler_sets() {
    assert!(inst_is_jump(Instruction::JMP));
    assert!(inst_is_jump(Instruction::JPC));
    assert!(inst_is_jump(Instruction::JPN));
    assert!(inst_is_jump(Instruction::JMS));
    assert!(!inst_is_jump(Instruction::ADD));
    assert!(!inst_is_jump(Instruction::HLT));
    assert!(inst_is_assembler(Instruction::ORG));
    assert!(inst_is_assembler(Instruction::WRD));
    assert!(!inst_is_assembler(Instruction::NOP));
}

#[test]
fn opcode_word_codes() {
    let op = Opcode {
        instruction: Instruction::LDA,
        operand: Operand::Literal(0),
        addressing: Addressing::Immediate,
    };
    assert_eq!(opcode_to_int(&op), 0o2600);
    let op = Opcode {
        instruction: Instruction::JMP,
        operand: Operand::Literal(0),
        addressing: Addressing::Direct,
    };
    assert_eq!(opcode_to_int(&op), 0o4200);
    let op = Opcode {
        instruction: Instruction::HLT,
        operand: Operand::Literal(0),
        addressing: Addressing::Immediate,
    };
    assert_eq!(opcode_to_int(&op), 0o7600);
    let op = Opcode {
        instruction: Instruction::ADD,
        operand: Operand::Literal(0),
        addressing: Addressing::CurrentPage,
    };
    assert_eq!(opcode_to_int(&op), 0o0000);
}

// ---- symbol table ----

#[test]
fn symbol_table_ids_are_dense_and_stable() {
    let mut st = SymbolTable::new();
    let a = st.add_reference(&b("alpha"));
    let bb = st.add_reference(&b("beta"));
    assert_eq!(a, 0);
    assert_eq!(bb, 1);
    assert_eq!(st.add_reference(&b("alpha")), 0);
    assert_eq!(st.add_reference(&b("beta")), 1);
    assert_eq!(st.resolve_reference(0), None);
    assert_eq!(st.add_label(&b("alpha"), 42), Ok(0));
    assert_eq!(st.resolve_reference(0), Some(42));
    assert_eq!(st.resolve_reference(1), None);
    assert_eq!(st.resolve_reference(7), None);
}

#[test]
fn duplicate_label_keeps_first_binding() {
    let mut st = SymbolTable::new();
    assert_eq!(st.add_label(&b("foo"), 5), Ok(0));
    assert_eq!(st.add_label(&b("foo"), 9), Err(()));
    assert_eq!(st.resolve_reference(0), Some(5));
}

// ---- line parsing ----

#[test]
fn parse_line_modes() {
    let mut st = SymbolTable::new();
    let op = parse_line(&b("ADD foo"), 0, &mut st).unwrap();
    assert_eq!(op.instruction, Instruction::ADD);
    assert_eq!(op.addressing, Addressing::CurrentPage);
    assert_eq!(op.operand, Operand::Label(0));

    let op = parse_line(&b("JMP foo"), 0, &mut st).unwrap();
    assert_eq!(op.addressing, Addressing::Direct);
    assert_eq!(op.operand, Operand::Label(0));

    let op = parse_line(&b("LDA #5"), 0, &mut st).unwrap();
    assert_eq!(op.addressing, Addressing::Immediate);
    assert_eq!(op.operand, Operand::Literal(5));

    let op = parse_line(&b("STA [@17]"), 0, &mut st).unwrap();
    assert_eq!(op.addressing, Addressing::Indirect);
    assert_eq!(op.operand, Operand::Literal(0o17));

    let op = parse_line(&b("JMP [@17]"), 0, &mut st).unwrap();
    assert_eq!(op.addressing, Addressing::IndirectCurrentPage);

    let op = parse_line(&b("JMP A+3"), 0, &mut st).unwrap();
    assert_eq!(op.addressing, Addressing::Accumulator);
    assert_eq!(op.operand, Operand::Literal(3));

    let op = parse_line(&b("jms a+3"), 0, &mut st).unwrap();
    assert_eq!(op.addressing, Addressing::Accumulator);

    let op = parse_line(&b("NOP"), 0, &mut st).unwrap();
    assert_eq!(op.addressing, Addressing::Immediate);
    assert_eq!(op.operand, Operand::Literal(0));

    let op = parse_line(&b("ORG @100"), 0, &mut st).unwrap();
    assert_eq!(op.addressing, Addressing::Assembler);
    assert_eq!(op.operand, Operand::Literal(0o100));

    let op = parse_line(&b("WRD"), 0, &mut st).unwrap();
    assert_eq!(op.addressing, Addressing::Assembler);
    assert_eq!(op.operand, Operand::Literal(0));
}

#[test]
fn parse_line_label_binds_current_address() {
    let mut st = SymbolTable::new();
    let op = parse_line(&b("here: HLT"), 7, &mut st).unwrap();
    assert_eq!(op.instruction, Instruction::HLT);
    assert_eq!(st.resolve_reference(0), Some(7));
}

#[test]
fn parse_line_errors() {
    let mut st = SymbolTable::new();
    assert_eq!(parse_line(&b("FOO 1"), 0, &mut st), Err(AsmError::InvalidInstruction));
    assert_eq!(parse_line(&b("LDA [3"), 0, &mut st), Err(AsmError::MissingRightBracket));
    assert_eq!(parse_line(&b("ADD A+2"), 0, &mut st), Err(AsmError::InvalidAddressing));
    assert_eq!(parse_line(&b("LDA %%"), 0, &mut st), Err(AsmError::InvalidLabel));
    st.add_label(&b("dup"), 1).unwrap();
    assert_eq!(parse_line(&b("dup: NOP"), 2, &mut st), Err(AsmError::DuplicateSymbol));
}

#[test]
fn parse_operand_number_then_identifier() {
    let mut st = SymbolTable::new();
    assert_eq!(parse_operand(&b("63"), &mut st), Ok(Operand::Literal(63)));
    assert_eq!(parse_operand(&b("label"), &mut st), Ok(Operand::Label(0)));
    assert_eq!(parse_operand(&b("label"), &mut st), Ok(Operand::Label(0)));
    assert_eq!(parse_operand(&b("!x"), &mut st), Err(AsmError::InvalidLabel));
}

// ---- encoding single lines ----

fn line(org: u16, i: Instruction, operand: Operand, a: Addressing) -> Line {
    Line { num: 1, org, op: Opcode { instruction: i, operand, addressing: a } }
}

#[test]
fn immediate_boundary_63_succeeds_64_fails() {
    let st = SymbolTable::new();
    let ok = assemble_line(&line(0, Instruction::LDA, Operand::Literal(63), Addressing::Immediate), &st)
        .unwrap();
    assert_eq!(ok.word, 0o2677);
    let err = assemble_line(
        &line(0, Instruction::LDA, Operand::Literal(64), Addressing::Immediate),
        &st,
    );
    assert_eq!(err, Err(AsmError::ArgumentTooLarge(64)));
}

#[test]
fn current_page_narrows_to_zero_page() {
    let st = SymbolTable::new();
    let e = assemble_line(
        &line(0o200, Instruction::LDA, Operand::Literal(5), Addressing::CurrentPage),
        &st,
    )
    .unwrap();
    assert_eq!(e.addressing, Addressing::ZeroPage);
    assert_eq!(e.word, 0o2505);
}

#[test]
fn current_page_same_page_kept_other_page_unreachable() {
    let st = SymbolTable::new();
    let e = assemble_line(
        &line(0o100, Instruction::LDA, Operand::Literal(0o105), Addressing::CurrentPage),
        &st,
    )
    .unwrap();
    assert_eq!(e.addressing, Addressing::CurrentPage);
    assert_eq!(e.word, 0o2405);
    let err = assemble_line(
        &line(0o100, Instruction::LDA, Operand::Literal(0o205), Addressing::CurrentPage),
        &st,
    );
    assert_eq!(err, Err(AsmError::LocationUnreachable(0o205)));
}

#[test]
fn indirect_requires_same_page() {
    let st = SymbolTable::new();
    let err = assemble_line(
        &line(0, Instruction::STA, Operand::Literal(0o7777), Addressing::Indirect),
        &st,
    );
    assert_eq!(err, Err(AsmError::LocationUnreachable(0o7777)));
    let ok = assemble_line(
        &line(0, Instruction::STA, Operand::Literal(5), Addressing::Indirect),
        &st,
    )
    .unwrap();
    // no zero-page narrowing for plain indirect
    assert_eq!(ok.addressing, Addressing::Indirect);
    assert_eq!(ok.word, 0o3305);
}

#[test]
fn indirect_current_page_narrows_and_ranges() {
    let st = SymbolTable::new();
    let e = assemble_line(
        &line(0o100, Instruction::JMP, Operand::Literal(5), Addressing::IndirectCurrentPage),
        &st,
    )
    .unwrap();
    assert_eq!(e.addressing, Addressing::IndirectZeroPage);
    assert_eq!(e.word, 0o4105);
    let err = assemble_line(
        &line(0o100, Instruction::JMP, Operand::Literal(0o205), Addressing::IndirectCurrentPage),
        &st,
    );
    assert_eq!(err, Err(AsmError::BranchTargetOutOfRange(0o205)));
}

#[test]
fn unresolved_reference_fails() {
    let mut st = SymbolTable::new();
    let id = st.add_reference(&b("nowhere"));
    let err = assemble_line(&line(0, Instruction::JMP, Operand::Label(id), Addressing::Direct), &st);
    assert_eq!(err, Err(AsmError::UnresolvedReference));
}

#[test]
fn wrd_emits_full_word() {
    let st = SymbolTable::new();
    let e = assemble_line(
        &line(0, Instruction::WRD, Operand::Literal(0o7777), Addressing::Assembler),
        &st,
    )
    .unwrap();
    assert_eq!(e.word, 0o7777);
}

#[test]
fn encoding_is_deterministic() {
    let mut st = SymbolTable::new();
    st.add_label(&b("t"), 3).unwrap();
    let l = line(0, Instruction::JMP, Operand::Label(0), Addressing::Direct);
    let r1 = assemble_line(&l, &st);
    let r2 = assemble_line(&l, &st);
    assert_eq!(r1, r2);
    let out1 = assemble_file(&vec![l], &st);
    let out2 = assemble_file(&vec![l], &st);
    assert_eq!(out1.listing, out2.listing);
    assert_eq!(out1.errors, out2.errors);
}

// ---- whole programs ----

#[test]
fn one_word_per_code_line() {
    let src = lines_of(&[
        "; a comment only",
        "start: LDA #1",
        "",
        "ADD @2   ; add",
        "ORG @100",
        "WRD @7777",
        "HLT",
    ]);
    let res = assemble_source(&src).unwrap();
    assert!(res.success);
    assert!(res.parse_errors.is_empty());
    assert!(res.encode_errors.is_empty());
    // four code lines: LDA, ADD, WRD, HLT — the ORG, the blank line and
    // the comment line produce no word
    assert_eq!(res.listing.len(), 4);
}

#[test]
fn org_redirects_the_location_counter() {
    let src = lines_of(&["NOP", "ORG @100", "NOP"]);
    let res = assemble_source(&src).unwrap();
    assert!(res.success);
    let ls = listing_strings(&res.listing);
    assert_eq!(ls[0], "0000: 6200 ; NOP #00");
    assert_eq!(ls[1], "0100: 6200 ; NOP #00");
}

#[test]
fn duplicate_symbol_reported_and_first_binding_kept() {
    let src = lines_of(&["foo: NOP", "foo: HLT", "JMP foo"]);
    let mut st = SymbolTable::new();
    let parsed = parse_lines(&src, &mut st).unwrap();
    assert_eq!(parsed.errors.len(), 1);
    assert_eq!(parsed.errors[0].num, 2);
    assert_eq!(parsed.errors[0].err, AsmError::DuplicateSymbol);
    // the first binding still stands
    assert_eq!(st.resolve_reference(0), Some(0));
    // a failing pass 1 short-circuits the run
    let res = assemble_source(&src).unwrap();
    assert!(!res.success);
    assert!(res.listing.is_empty());
    assert_eq!(res.parse_errors.len(), 1);
    assert!(res.encode_errors.is_empty());
}

#[test]
fn forward_reference_same_page_resolves() {
    let src = lines_of(&["JMP target", "target: HLT"]);
    let res = assemble_source(&src).unwrap();
    assert!(res.success);
    let ls = listing_strings(&res.listing);
    assert_eq!(ls[0], "0000: 4201 ; JMP @0001");
    assert_eq!(ls[1], "0001: 7600 ; HLT #00");
}

#[test]
fn forward_reference_other_page_out_of_range() {
    let src = lines_of(&["JMP target", "ORG @100", "target: HLT"]);
    let res = assemble_source(&src).unwrap();
    assert!(!res.success);
    assert!(res.parse_errors.is_empty());
    assert_eq!(res.encode_errors.len(), 1);
    assert_eq!(res.encode_errors[0].num, 1);
    assert_eq!(res.encode_errors[0].err, AsmError::BranchTargetOutOfRange(0o100));
    // the HLT on the new page still encodes
    assert_eq!(res.listing.len(), 1);
    assert_eq!(listing_strings(&res.listing)[0], "0100: 7600 ; HLT #00");
}

#[test]
fn lda_immediate_boundary_in_source() {
    let ok = assemble_source(&lines_of(&["LDA #63"])).unwrap();
    assert!(ok.success);
    assert_eq!(listing_strings(&ok.listing)[0], "0000: 2677 ; LDA #63");
    let bad = assemble_source(&lines_of(&["LDA #64"])).unwrap();
    assert!(!bad.success);
    assert_eq!(bad.encode_errors.len(), 1);
    assert_eq!(bad.encode_errors[0].err, AsmError::ArgumentTooLarge(64));
}

#[test]
fn sta_indirect_cross_page_unreachable() {
    let src = lines_of(&["STA [@7777]"]);
    let res = assemble_source(&src).unwrap();
    assert!(!res.success);
    assert_eq!(res.encode_errors.len(), 1);
    assert_eq!(res.encode_errors[0].err, AsmError::LocationUnreachable(0o7777));
}

#[test]
fn listing_format_by_mode() {
    let src = lines_of(&["LDA #5", "JMP A+3", "LDA 5", "STA [@5]", "JMP [@5]"]);
    let res = assemble_source(&src).unwrap();
    assert!(res.success);
    let ls = listing_strings(&res.listing);
    assert_eq!(ls[0], "0000: 2605 ; LDA #05");
    assert_eq!(ls[1], "0001: 4303 ; JMP A+03");
    assert_eq!(ls[2], "0002: 2505 ; LDA @05");
    assert_eq!(ls[3], "0003: 3305 ; STA [@0005]");
    assert_eq!(ls[4], "0004: 4105 ; JMP [@05]");
}

#[test]
fn wrd_listing_shows_value_word() {
    let res = assemble_source(&lines_of(&["WRD @7777"])).unwrap();
    assert!(res.success);
    assert_eq!(listing_strings(&res.listing)[0], "0000: 7777 ; WRD @7777");
}

#[test]
fn org_with_reference_operand_keeps_counter() {
    // a non-literal ORG operand is a no-op on the location counter
    let src = lines_of(&["spot: NOP", "ORG spot", "NOP"]);
    let res = assemble_source(&src).unwrap();
    assert!(res.success);
    let ls = listing_strings(&res.listing);
    assert_eq!(ls[0], "0000: 6200 ; NOP #00");
    assert_eq!(ls[1], "0001: 6200 ; NOP #00");
}

#[test]
fn lone_label_that_binds_stops_the_run() {
    assert!(assemble_source(&lines_of(&["foo:"])).is_none());
    // when the same lone label is already bound, the line reports a
    // duplicate instead
    let src = lines_of(&["foo: NOP", "foo:"]);
    let res = assemble_source(&src).unwrap();
    assert!(!res.success);
    assert_eq!(res.parse_errors.len(), 1);
    assert_eq!(res.parse_errors[0].num, 2);
    assert_eq!(res.parse_errors[0].err, AsmError::DuplicateSymbol);
}

#[test]
fn line_numbers_count_blank_and_comment_lines() {
    let src = lines_of(&["", "; nothing", "BAD 1"]);
    let mut st = SymbolTable::new();
    let parsed = parse_lines(&src, &mut st).unwrap();
    assert_eq!(parsed.errors.len(), 1);
    assert_eq!(parsed.errors[0].num, 3);
    assert_eq!(parsed.errors[0].err, AsmError::InvalidInstruction);
}

#[test]
fn all_lines_attempted_after_a_failure() {
    let src = lines_of(&["BAD 1", "WORSE 2", "NOP"]);
    let mut st = SymbolTable::new();
    let parsed = parse_lines(&src, &mut st).unwrap();
    assert_eq!(parsed.errors.len(), 2);
    assert_eq!(parsed.errors[0].num, 1);
    assert_eq!(parsed.errors[1].num, 2);
    assert_eq!(parsed.lines.len(), 1);
    assert_eq!(parsed.lines[0].num, 3);
}

#[test]
fn empty_brackets_are_an_invalid_label() {
    let mut st = SymbolTable::new();
    assert_eq!(parse_line(&b("STA []"), 0, &mut st), Err(AsmError::InvalidLabel));
}

#[test]
fn extra_tokens_after_the_operand_are_ignored() {
    let mut st = SymbolTable::new();
    let op = parse_line(&b("LDA #5 junk and more"), 0, &mut st).unwrap();
    assert_eq!(op.operand, Operand::Literal(5));
    assert_eq!(op.addressing, Addressing::Immediate);
}

#[test]
fn accumulator_operand_width_boundary() {
    let ok = assemble_source(&lines_of(&["JMP A+63"])).unwrap();
    assert!(ok.success);
    let bad = assemble_source(&lines_of(&["JMP A+64"])).unwrap();
    assert!(!bad.success);
    assert_eq!(bad.encode_errors[0].err, AsmError::ArgumentTooLarge(64));
}

#[test]
fn accumulator_operand_may_be_a_reference() {
    let src = lines_of(&["JMP A+off", "off: HLT"]);
    let res = assemble_source(&src).unwrap();
    assert!(res.success);
    assert_eq!(listing_strings(&res.listing)[0], "0000: 4301 ; JMP A+01");
}

#[test]
fn indirect_operand_may_be_a_reference() {
    let src = lines_of(&["buf: WRD @7", "STA [buf]"]);
    let res = assemble_source(&src).unwrap();
    assert!(res.success);
    let ls = listing_strings(&res.listing);
    assert_eq!(ls[0], "0000: 0007 ; WRD @0007");
    assert_eq!(ls[1], "0001: 3300 ; STA [@0000]");
}

#[test]
fn location_counter_wraps_at_the_top_of_memory() {
    let src = lines_of(&["ORG $ffff", "NOP", "NOP"]);
    let res = assemble_source(&src).unwrap();
    assert!(res.success);
    let ls = listing_strings(&res.listing);
    assert_eq!(ls[0], "177777: 6200 ; NOP #00");
    assert_eq!(ls[1], "0000: 6200 ; NOP #00");
}

// ---- diagnostics ----

#[test]
fn message_texts() {
    let m = |e: AsmError| String::from_utf8(e.message()).unwrap();
    assert_eq!(m(AsmError::InvalidInstruction), "Invalid instruction");
    assert_eq!(m(AsmError::InvalidAddressing), "Invalid addressing mode");
    assert_eq!(m(AsmError::InvalidLabel), "Invalid label");
    assert_eq!(m(AsmError::DuplicateSymbol), "Duplicate symbol");
    assert_eq!(m(AsmError::UnresolvedReference), "Unresolved reference");
    assert_eq!(m(AsmError::MissingRightBracket), "Missing ']'");
    assert_eq!(m(AsmError::ArgumentTooLarge(64)), "Argument @0100 too large");
    assert_eq!(m(AsmError::BranchTargetOutOfRange(64)), "Branch target @0100 out of range");
    assert_eq!(m(AsmError::LocationUnreachable(0o7777)), "Location @7777 unreachable");
}
