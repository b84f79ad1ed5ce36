use armventure::enum_str::{str_hash, str_hash_to_lower, str_hash_to_upper, FNV_OFFSET};
use armventure::inst::operand::Kind;
use armventure::inst::util::{bit_str_u32, rest_are_opt, Param};

#[test]
fn rest_are_optional_works() {
    let req = Param::Req(Kind::Gpr);
    let opt = Param::Opt(Kind::Gpr);
    assert!(!rest_are_opt(&[req, req, opt, req]));
    assert!(rest_are_opt(&[req, req, opt, opt]));
    assert!(rest_are_opt(&[opt, opt, opt, opt]));
    assert!(!rest_are_opt(&[opt, opt, opt, req]));
}

#[test]
fn bit_str_works() {
    assert_eq!(bit_str_u32(b"1000"), 8);
    assert_eq!(bit_str_u32(b"1010"), 10);
    assert_eq!(bit_str_u32(b"1111"), 15);
    assert_eq!(bit_str_u32(b"00000111110000011111"), 0b111110000011111);
}

#[test]
fn fnv_hashes_fold_case() {
    assert_eq!(str_hash(b""), FNV_OFFSET);
    // one FNV-1a step: (offset ^ byte) * prime, truncated to 32 bits
    let expected = ((FNV_OFFSET ^ b'a' as u32) as u64 * 16777619u64 % 0x1_0000_0000) as u32;
    assert_eq!(str_hash(b"a"), expected);
    assert_eq!(str_hash_to_lower(b"ADD"), str_hash(b"add"));
    assert_eq!(str_hash_to_upper(b"add"), str_hash(b"ADD"));
    assert_ne!(str_hash(b"ADD"), str_hash(b"add"));
}
