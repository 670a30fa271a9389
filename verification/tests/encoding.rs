use fred::encoding::{call_bytes, jmp_bytes, le32_bytes, nop_bytes, push_bytes, rel32};

fn decode_target(src: u32, code: &[u8]) -> u32 {
    let rel = u32::from_le_bytes([code[1], code[2], code[3], code[4]]);
    src.wrapping_add(5).wrapping_add(rel)
}

#[test]
fn le32_bytes_are_little_endian() {
    assert_eq!(le32_bytes(0x12345678), vec![0x78, 0x56, 0x34, 0x12]);
    assert_eq!(le32_bytes(0), vec![0, 0, 0, 0]);
    assert_eq!(le32_bytes(u32::MAX), vec![0xff, 0xff, 0xff, 0xff]);
}

#[test]
fn rel32_forward_and_backward() {
    assert_eq!(rel32(0x1000, 0x2000), 0xFFB);
    assert_eq!(rel32(0x2000, 0x1000), 0xFFFF_EFFB);
    assert_eq!(rel32(0, 0), 0xFFFF_FFFB);
    assert_eq!(rel32(0xFFFF_FFFE, 3), 0);
}

#[test]
fn jmp_bytes_forward() {
    assert_eq!(jmp_bytes(0x1000, 0x2000), vec![0xE9, 0xFB, 0x0F, 0x00, 0x00]);
}

#[test]
fn jmp_bytes_backward() {
    assert_eq!(jmp_bytes(0x2000, 0x1000), vec![0xE9, 0xFB, 0xEF, 0xFF, 0xFF]);
}

#[test]
fn call_bytes_forward() {
    assert_eq!(call_bytes(0x0040_1000, 0x0040_2000), vec![0xE8, 0xFB, 0x0F, 0x00, 0x00]);
}

#[test]
fn branches_reach_their_targets() {
    let cases: [(u32, u32); 5] = [
        (0x1000, 0x2000),
        (0x2000, 0x1000),
        (0, 0),
        (0xFFFF_FFF0, 0x10),
        (0x10, 0xFFFF_FFF0),
    ];
    for (src, dst) in cases {
        let j = jmp_bytes(src, dst);
        assert_eq!(j[0], 0xE9);
        assert_eq!(decode_target(src, &j), dst);
        let c = call_bytes(src, dst);
        assert_eq!(c[0], 0xE8);
        assert_eq!(decode_target(src, &c), dst);
    }
}

#[test]
fn push_bytes_holds_immediate() {
    let sixty = 60.0_f32.to_bits();
    assert_eq!(push_bytes(sixty), vec![0xE8, 0x00, 0x00, 0x70, 0x42]);
    assert_eq!(push_bytes(1), vec![0xE8, 1, 0, 0, 0]);
}

#[test]
fn nop_bytes_lengths() {
    assert_eq!(nop_bytes(0), Vec::<u8>::new());
    assert_eq!(nop_bytes(3), vec![0x90, 0x90, 0x90]);
}
