use terminus::bits::bit_range;
use terminus::decode::{Decoder, InsnKind, InsnMap, RegisterError};
use terminus::trap::Exception;

#[test]
fn insn_coding_test() {
    let d = Decoder::from_pattern("0b1??0_1110", InsnKind::CLi).unwrap();
    let item = d.decode(0b1010_1110);
    assert_eq!(0b10_1110, item.op());
    assert_eq!(0b1010_1110, item.ir());
    assert_eq!(0b1000_1110, d.code());
    let mask_bit: u64 = bit_range(d.mask() as u64, 15, 0);
    assert_eq!(0b1001_1111, mask_bit);
    assert!(d.matched(0b1010_1110));
    assert!(!d.matched(0b1011_1110));
}

#[test]
fn pattern_text_is_checked() {
    assert!(Decoder::from_pattern("1010", InsnKind::CLi).is_none());
    assert!(Decoder::from_pattern("0b10x0", InsnKind::CLi).is_none());
    assert!(Decoder::from_pattern("0b", InsnKind::CLi).is_none());
    let long = "0b1_0000_0000_0000_0000_0000_0000_0000_0000";
    assert!(Decoder::from_pattern(long, InsnKind::CLi).is_none());
    let d = Decoder::from_pattern("0b????????????????010???????????10", InsnKind::CLwsp).unwrap();
    assert_eq!((d.code(), d.mask()), (0x4002, 0xe003));
}

#[test]
fn overlapping_pattern_is_refused() {
    let mut m = InsnMap::new();
    m.registery(Decoder { code: 0x4002, mask: 0xe003, kind: InsnKind::CLwsp }).unwrap();
    let r = m.registery(Decoder { code: 0x0002, mask: 0x0003, kind: InsnKind::CLi });
    assert_eq!(r, Err(RegisterError::Overlap(0)));
    m.registery(Decoder { code: 0x6002, mask: 0xe003, kind: InsnKind::CLdspFlwsp }).unwrap();
    m.lock();
    let r = m.registery(Decoder { code: 0x0001, mask: 0x0003, kind: InsnKind::CLi });
    assert_eq!(r, Err(RegisterError::Locked));
    assert_eq!(m.decode(0x4006).unwrap().kind, InsnKind::CLwsp);
    assert_eq!(m.decode(0x6006).unwrap().kind, InsnKind::CLdspFlwsp);
    assert_eq!(m.decode(0x0006), Err(Exception::IllegalInsn(0x0006)));
}

#[test]
fn decode_fails_on_two_matches() {
    let mut m = InsnMap { decoders: Vec::new(), locked: false };
    m.decoders.push(Decoder { code: 0x1, mask: 0x1, kind: InsnKind::CLi });
    m.decoders.push(Decoder { code: 0x3, mask: 0x3, kind: InsnKind::CLui });
    assert_eq!(m.decode(0x3), Err(Exception::IllegalInsn(0x3)));
    assert_eq!(m.decode(0x1).unwrap().kind, InsnKind::CLi);
}

#[test]
fn standard_registry_builds() {
    let m = InsnMap::standard().unwrap();
    assert!(m.locked);
    assert_eq!(m.decode(0x0000_0073).unwrap().kind, InsnKind::Ecall);
    assert_eq!(m.decode(0x1200_0073).unwrap().kind, InsnKind::SfenceVma);
    assert_eq!(m.decode(0x1234_5073).unwrap().kind, InsnKind::Csrrwi);
    assert_eq!(m.decode(0x9502).unwrap().kind, InsnKind::CJalr);
}
