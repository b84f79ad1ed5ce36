use armventure::inst::dec::{bit_pat_bstr_32, bit_pat_str_32, bit_pat_str_len};
use armventure::inst::def::{variants_of, Mnemonic};
use armventure::inst::operand::{op, Encoder, GprKind, GprSize, Ops};
use armventure::inst::util::Param;
use armventure::inst::Error;

#[test]
fn every_recipe_fills_the_word() {
    // the sum of field widths in every variant's recipe is exactly 32
    for m in [Mnemonic::UDF, Mnemonic::ADD, Mnemonic::ADDS, Mnemonic::B] {
        for v in variants_of(m).iter() {
            let mut sum: u32 = 0;
            for f in v.recipe.iter() {
                sum += f.width();
            }
            assert_eq!(sum, 32);
        }
    }
}

#[test]
fn required_parameters_come_first() {
    // in every variant's schema, required parameters precede optional ones
    for m in [Mnemonic::UDF, Mnemonic::ADD, Mnemonic::ADDS, Mnemonic::B] {
        for v in variants_of(m).iter() {
            let mut saw_opt = false;
            for p in v.params.iter() {
                match p {
                    Param::Opt(..) => saw_opt = true,
                    Param::Req(..) => assert!(!saw_opt),
                }
            }
        }
    }
}

#[test]
fn encoded_fields_fit_their_width() {
    // every encoder's successful output is below 2^width
    let gpr = Ops::Gpr(op::Gpr {
        reg: GprKind::R(30),
        size: GprSize::B8,
    });
    let imm = Ops::Imm(op::Imm(0xFFF));
    let ops = vec![gpr, gpr, imm];
    for (enc, idx) in [
        (Encoder::Gpr, 0usize),
        (Encoder::GprOrSp, 0),
        (Encoder::GprOrZr, 0),
        (Encoder::Sf, 0),
        (Encoder::UImm { bits: 12 }, 2),
        (Encoder::SImm { bits: 13 }, 2),
    ] {
        let v = armventure::inst::operand::encode(&enc, &ops, idx).unwrap();
        assert!((v as u64) < (1u64 << enc.width()));
    }
}

#[test]
fn encoder_error_cases() {
    let sp = Ops::Gpr(op::Gpr {
        reg: GprKind::SP,
        size: GprSize::B8,
    });
    let zr = Ops::Gpr(op::Gpr {
        reg: GprKind::ZR,
        size: GprSize::B8,
    });
    let ops = vec![sp, zr];
    assert_eq!(
        armventure::inst::operand::encode(&Encoder::Gpr, &ops, 0),
        Err(Error::InvalidGpr)
    );
    assert_eq!(
        armventure::inst::operand::encode(&Encoder::GprOrSp, &ops, 1),
        Err(Error::InvalidGpr)
    );
    assert_eq!(
        armventure::inst::operand::encode(&Encoder::GprOrZr, &ops, 0),
        Err(Error::InvalidGpr)
    );
    assert_eq!(
        armventure::inst::operand::encode(&Encoder::GprOrSp, &ops, 0),
        Ok(31)
    );
    assert_eq!(
        armventure::inst::operand::encode(&Encoder::GprOrZr, &ops, 1),
        Ok(31)
    );
    // a signed immediate encodes two's complement
    let neg = vec![Ops::Imm(op::Imm(-4))];
    assert_eq!(
        armventure::inst::operand::encode(&Encoder::SImm { bits: 8 }, &neg, 0),
        Ok(0xFC)
    );
    // alignment is checked before range
    let odd = vec![Ops::Imm(op::Imm(6))];
    assert_eq!(
        armventure::inst::operand::encode(&Encoder::SImmAlign { bits: 4, rs: 2 }, &odd, 0),
        Err(Error::NotAligned)
    );
}

#[test]
fn labels_intern_to_stable_keys() {
    let mut intern = armventure::intern::Intern::new();
    let a = intern.get_or_intern(b"loop");
    let b = intern.get_or_intern(b"exit");
    let a2 = intern.get_or_intern(b"loop");
    assert_eq!(a, a2);
    assert_ne!(a, b);
    assert_eq!(intern.resolve(a).as_slice(), b"loop");
    assert_eq!(intern.resolve(b).as_slice(), b"exit");
    assert_eq!(intern.len(), 2);
    assert!(intern.contains(b"loop"));
    assert!(!intern.contains(b"Loop"));
}

#[test]
fn bit_patterns_match_masks() {
    let p = bit_pat_bstr_32(b"10x1");
    assert_eq!(p.mask, 0b1101);
    assert_eq!(p.set_bits, 0b1001);
    assert_eq!(p.len, 4);
    assert!(p.test(0b1001));
    assert!(p.test(0b1011));
    assert!(!p.test(0b0001));
    let q = bit_pat_str_32("01_x1");
    assert_eq!(q.len, 4);
    assert_eq!(bit_pat_str_len("000_0011111x"), 11);
}
