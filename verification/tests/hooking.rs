use fred::hooking::{inline_hook, prepare_inline_hook, InlineHookErr};
use fred::region::CodeRegion;

fn source() -> CodeRegion {
    CodeRegion { base: 0x1000, bytes: vec![0xCC; 16] }
}

#[test]
fn prepare_refuses_short_code() {
    assert_eq!(prepare_inline_hook(4, 10), Err(InlineHookErr::InvalidCodeSize));
    assert_eq!(prepare_inline_hook(0, 0), Err(InlineHookErr::InvalidCodeSize));
}

#[test]
fn prepare_gives_area_length() {
    assert_eq!(prepare_inline_hook(5, 10), Ok(24));
    assert_eq!(prepare_inline_hook(7, 0), Ok(14));
}

#[test]
fn inline_hook_invalid_code_size() {
    let mut s = source();
    let r = inline_hook(&mut s, 0x1004, 0x5000, 4, 8, 0x2000, Some(vec![1, 2, 3]));
    assert!(matches!(r, Err(InlineHookErr::InvalidCodeSize)));
    assert_eq!(s.bytes, vec![0xCC; 16]);
}

#[test]
fn inline_hook_failed_relocation() {
    let mut s = source();
    let r = inline_hook(&mut s, 0x1004, 0x5000, 6, 8, 0x2000, None);
    assert!(matches!(r, Err(InlineHookErr::FailedToRelocateCode)));
    assert_eq!(s.bytes, vec![0xCC; 16]);
}

#[test]
fn inline_hook_builds_handler_and_patch() {
    let mut s = source();
    let jit = match inline_hook(&mut s, 0x1004, 0x5000, 6, 8, 0x2000, Some(vec![1, 2, 3])) {
        Ok(jit) => jit,
        Err(e) => panic!("unexpected error {:?}", e),
    };
    assert_eq!(jit.base, 0x2000);
    assert_eq!(
        jit.bytes,
        vec![
            0x60, 0x9C, 0xE8, 0xF9, 0x2F, 0x00, 0x00, 0x9D, 0x61, 1, 2, 3, 0xE9, 0xF8, 0xEF, 0xFF,
            0xFF, 0, 0, 0, 0, 0,
        ]
    );
    assert_eq!(
        s.bytes,
        vec![
            0xCC, 0xCC, 0xCC, 0xCC, 0xE9, 0xF7, 0x0F, 0x00, 0x00, 0x90, 0xCC, 0xCC, 0xCC, 0xCC,
            0xCC, 0xCC,
        ]
    );
}

#[test]
fn inline_hook_jump_back_wraps() {
    let mut s = CodeRegion { base: 0xFFFF_FFF0, bytes: vec![0xCC; 16] };
    let jit = inline_hook(&mut s, 0xFFFF_FFFB, 0x10, 5, 0, 0x100, Some(vec![])).unwrap();
    // The handler jumps back to ptr + 5, which wraps to address 0.
    let back = 0x100u32 + 9;
    let rel = u32::from_le_bytes([jit.bytes[10], jit.bytes[11], jit.bytes[12], jit.bytes[13]]);
    assert_eq!(jit.bytes[9], 0xE9);
    assert_eq!(back.wrapping_add(5).wrapping_add(rel), 0);
    assert_eq!(s.bytes[11], 0xE9);
}
