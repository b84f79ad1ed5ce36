use armventure::assembler::assemble;
use armventure::code::Source;
use armventure::inst::Error;
use armventure::sparsebin::Aligned;

fn run(text: &str) -> armventure::assembler::emit::Emit {
    let source = Source::new(String::new(), text.to_owned());
    assemble(&source)
}

fn word_at(e: &armventure::assembler::emit::Emit, addr: u64) -> u32 {
    e.bin.get_u32(Aligned::new(addr).unwrap())
}

#[test]
fn it_assembles() {
    let text = "my_label: ADD x1, x2, x3\nB my_label\nB.EQ my_label\n";
    let source = Source::new("some/path".to_owned(), text.to_owned());
    let e = assemble(&source);
    assert!(e.errors.is_empty());
}

#[test]
fn add_immediate_zero() {
    let e = run("ADD X1, X2, #0\n");
    assert!(e.errors.is_empty());
    assert_eq!(word_at(&e, 0), 0x91000041);
}

#[test]
fn add_immediate_shifted() {
    let e = run("ADD W1, W2, #0x10, LSL #12\n");
    assert!(e.errors.is_empty());
    assert_eq!(word_at(&e, 0), 0x11404041);
}

#[test]
fn add_three_registers_selects_extended() {
    // ADD X1, X2, X3 routes to the extended-register variant:
    // Rd=1, Rn=2, Rm=3, option=UXTX (0b011), imm3=0
    let e = run("ADD X1, X2, X3\n");
    assert!(e.errors.is_empty());
    let word = word_at(&e, 0);
    assert_eq!(word & 0x1F, 1); // Rd
    assert_eq!((word >> 5) & 0x1F, 2); // Rn
    assert_eq!((word >> 16) & 0x1F, 3); // Rm
    assert_eq!((word >> 13) & 0b111, 0b011); // option
    assert_eq!((word >> 10) & 0b111, 0); // imm3
    assert_eq!(word, 0x8B236041);
}

#[test]
fn branch_to_self() {
    let e = run("L: B L\n");
    assert!(e.errors.is_empty());
    assert_eq!(word_at(&e, 0), 0x14000000);
}

#[test]
fn forward_branch_fixup() {
    let e = run("B L\nL:\n");
    assert!(e.errors.is_empty());
    assert_eq!(word_at(&e, 0), 0x14000001);
}

#[test]
fn conditional_branch_back() {
    let e = run("L:\nB.EQ L\n");
    assert!(e.errors.is_empty());
    assert_eq!(word_at(&e, 0), 0x54000000);
}

#[test]
fn add_to_stack_pointer() {
    // ADD SP, X0, X1 uses the extended-register variant, which can
    // express the stack pointer: Rd=31, Rn=0, Rm=1, option=UXTX
    let e = run("ADD SP, X0, X1\n");
    assert!(e.errors.is_empty());
    let word = word_at(&e, 0);
    assert_eq!(word & 0x1F, 31); // Rd = SP
    assert_eq!((word >> 5) & 0x1F, 0); // Rn
    assert_eq!((word >> 16) & 0x1F, 1); // Rm
    assert_eq!((word >> 13) & 0b111, 0b011); // option
}

#[test]
fn pc_advances_past_faulted_instruction() {
    // the first instruction fails to encode, but the emission address
    // still advances by 4, so the next word lands right behind it
    let e = run("ADD X1, X2, #0x1000, LSL #12\nADD X1, X2, #0\n");
    assert!(!e.errors.is_empty());
    assert_eq!(word_at(&e, 4), 0x91000041);
}

#[test]
fn shifted_register_variant() {
    // an explicit shift routes to the shifted-register variant
    let e = run("ADD X1, X2, X3, LSL #2\n");
    assert!(e.errors.is_empty());
    // sf=1 0001011 00 0 Rm=3 imm6=2 Rn=2 Rd=1
    assert_eq!(word_at(&e, 0), 0x8B030841);
}

#[test]
fn forward_equals_backward_encoding() {
    // a fixup produces the same word as a label defined beforehand
    let fwd = run("B L\nL: ADD X1, X2, #0\n");
    let bwd = run("L2: B L2\n");
    assert!(fwd.errors.is_empty());
    assert!(bwd.errors.is_empty());
    // forward: offset +4 => imm26 = 1; backward: offset 0 => imm26 = 0
    assert_eq!(word_at(&fwd, 0), 0x14000001);
    assert_eq!(word_at(&bwd, 0), 0x14000000);
}

#[test]
fn udf_is_all_zeros() {
    let e = run("UDF\n");
    assert!(e.errors.is_empty());
    assert_eq!(word_at(&e, 0), 0x00000000);
}

#[test]
fn global_directive_is_accepted() {
    let e = run(".global L\nL: UDF\n");
    assert!(e.errors.is_empty());
}

#[test]
fn immediate_out_of_range() {
    // the 12-bit unsigned immediate field tops out at 0xFFF
    let e = run("ADD X1, X2, #0x1000\n");
    assert_eq!(e.errors.len(), 1);
    assert_eq!(e.errors[0].0, Error::OutOfRange);
}

#[test]
fn unresolved_label_reports_resolve() {
    let e = run("B L\n");
    assert_eq!(e.errors.len(), 1);
    assert_eq!(e.errors[0].0, Error::Resolve);
}

#[test]
fn duplicate_label_is_an_error() {
    let e = run("L: L:\n");
    assert_eq!(e.errors.len(), 1);
    assert_eq!(e.errors[0].0, Error::DuplicateLabel);
}

#[test]
fn invalid_extend_width() {
    // UXTX is only legal when the destination register is 64-bit
    let e = run("ADD W1, SP, X2, UXTX\n");
    assert_eq!(e.errors.len(), 1);
    assert_eq!(e.errors[0].0, Error::InvalidExtendWidth);
}

#[test]
fn mismatched_const_shift() {
    // the immediate form only admits LSL #12 as its trailing shift
    let e = run("ADD X1, X2, #1, LSL #3\n");
    assert_eq!(e.errors.len(), 1);
    assert_eq!(e.errors[0].0, Error::MismatchedConstShift);
}

#[test]
fn zr_is_rejected_where_sp_is_allowed() {
    // the immediate form's registers admit SP but not ZR
    let e = run("ADD ZR, X2, #1\n");
    assert_eq!(e.errors.len(), 1);
    assert_eq!(e.errors[0].0, Error::InvalidGpr);
}

#[test]
fn lower_case_source_assembles_too() {
    let e = run("add x1, x2, #0\n");
    assert!(e.errors.is_empty());
    assert_eq!(word_at(&e, 0), 0x91000041);
}

#[test]
fn conditional_branch_forward() {
    let e = run("B.EQ L\nL:\n");
    assert!(e.errors.is_empty());
    // offset +4 => imm19 = 1, cond = EQ
    assert_eq!(word_at(&e, 0), 0x54000020);
}

#[test]
fn word_registers_default_to_the_word_alias() {
    // with 32-bit registers an absent extend defaults to the UXTW alias
    let e = run("ADD W1, W2, W3\n");
    assert!(e.errors.is_empty());
    let word = word_at(&e, 0);
    assert_eq!((word >> 13) & 0b111, 0b010); // option = UXTW
    assert_eq!(word >> 31, 0); // 32-bit form
}

#[test]
fn backward_branch_negative_offset() {
    // a branch backwards encodes a two's complement word offset
    let e = run("L: UDF\nB L\n");
    assert!(e.errors.is_empty());
    // offset -4 => imm26 = 0x3FFFFFF
    assert_eq!(word_at(&e, 4), 0x17FFFFFF);
}
