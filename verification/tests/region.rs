use fred::region::{
    inline_replace, inline_replace_jump, write_call, write_code, write_jmp, write_nop, write_push,
    CodeRegion,
};

fn filled(base: u32, len: usize) -> CodeRegion {
    CodeRegion { base, bytes: vec![0xCC; len] }
}

#[test]
fn zeroed_region() {
    let r = CodeRegion::zeroed(0x400, 6);
    assert_eq!(r.base, 0x400);
    assert_eq!(r.bytes, vec![0; 6]);
}

#[test]
fn covers_bounds() {
    let r = filled(0x100, 8);
    assert!(r.covers(0x100, 8));
    assert!(r.covers(0x103, 5));
    assert!(!r.covers(0x104, 5));
    assert!(!r.covers(0xFF, 1));
    assert!(r.covers(0x108, 0));
}

#[test]
fn write_jmp_inside_region() {
    let mut r = filled(0x1000, 8);
    assert_eq!(write_jmp(&mut r, 0x1001, 0x2000), Some(()));
    assert_eq!(r.bytes, vec![0xCC, 0xE9, 0xFA, 0x0F, 0x00, 0x00, 0xCC, 0xCC]);
}

#[test]
fn write_jmp_outside_region_changes_nothing() {
    let mut r = filled(0x1000, 8);
    assert_eq!(write_jmp(&mut r, 0x1004, 0x2000), None);
    assert_eq!(r.bytes, vec![0xCC; 8]);
    assert_eq!(write_jmp(&mut r, 0x0FFF, 0x2000), None);
    assert_eq!(r.bytes, vec![0xCC; 8]);
}

#[test]
fn write_call_inside_region() {
    let mut r = filled(0x100, 5);
    assert_eq!(write_call(&mut r, 0x100, 0x200), Some(()));
    assert_eq!(r.bytes, vec![0xE8, 0xFB, 0x00, 0x00, 0x00]);
}

#[test]
fn write_push_writes_immediate() {
    let mut r = filled(0x0070_c420, 10);
    assert_eq!(write_push(&mut r, 0x0070_c420, 60.0_f32.to_bits()), Some(()));
    assert_eq!(write_push(&mut r, 0x0070_c425, 60.0_f32.to_bits()), Some(()));
    assert_eq!(
        r.bytes,
        vec![0xE8, 0x00, 0x00, 0x70, 0x42, 0xE8, 0x00, 0x00, 0x70, 0x42]
    );
}

#[test]
fn write_nop_fills_range() {
    let mut r = filled(0x100, 6);
    assert_eq!(write_nop(&mut r, 0x102, 3), Some(()));
    assert_eq!(r.bytes, vec![0xCC, 0xCC, 0x90, 0x90, 0x90, 0xCC]);
    assert_eq!(write_nop(&mut r, 0x102, 5), None);
    assert_eq!(r.bytes, vec![0xCC, 0xCC, 0x90, 0x90, 0x90, 0xCC]);
}

#[test]
fn write_code_copies() {
    let mut r = filled(0x100, 4);
    assert_eq!(write_code(&mut r, 0x101, &vec![1, 2]), Some(()));
    assert_eq!(r.bytes, vec![0xCC, 1, 2, 0xCC]);
}

#[test]
fn inline_replace_call_over_nops() {
    let mut r = filled(0x100, 8);
    inline_replace(&mut r, 0x100, 0x200, 7);
    assert_eq!(r.bytes, vec![0xE8, 0xFB, 0x00, 0x00, 0x00, 0x90, 0x90, 0xCC]);
}

#[test]
fn inline_replace_short_size() {
    let mut r = filled(0x100, 8);
    inline_replace(&mut r, 0x100, 0x200, 3);
    assert_eq!(r.bytes, vec![0xE8, 0xFB, 0x00, 0x00, 0x00, 0xCC, 0xCC, 0xCC]);
}

#[test]
fn inline_replace_jump_over_nops() {
    let mut r = filled(0x100, 8);
    inline_replace_jump(&mut r, 0x101, 0x100, 6);
    assert_eq!(r.bytes, vec![0xCC, 0xE9, 0xFA, 0xFF, 0xFF, 0xFF, 0x90, 0xCC]);
}
