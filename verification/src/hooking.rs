//! Inline hooks: the code at a hooked address is replaced by a jump into a
//! freshly allocated handler that saves the registers, calls a callback,
//! restores the registers, runs the displaced instructions and jumps back.
use vstd::prelude::*;
use crate::encoding::{
    address_space, wrap32, branch_spec, branch_target, lemma_branch_reaches, nops, BRANCH_LEN,
    CALL_OPCODE, JMP_OPCODE, NOP_OPCODE,
};
use crate::region::{covers, patched, write_call, write_code, write_jmp, write_nop, CodeRegion};

verus! {

/// Why an inline hook could not be installed.
#[derive(Debug, Clone, Copy, PartialEq, Eq, Structural)]
pub enum InlineHookErr {
    /// The size of the code at the desired address cannot be made large enough
    /// to fit a 5-byte JMP.
    InvalidCodeSize,
    /// Failed to relocate code from the source to a trampoline.
    FailedToRelocateCode,
}

/// `pushad`
pub const PUSHAD: u8 = 0x60;
/// `pushfd`
pub const PUSHFD: u8 = 0x9C;
/// `popfd`
pub const POPFD: u8 = 0x9D;
/// `popad`
pub const POPAD: u8 = 0x61;

/// Offset in the handler at which the relocated instructions start: after
/// `pushad`, `pushfd`, `call callback`, `popfd` and `popad`.
pub const HANDLER_PROLOGUE_LEN: usize = 9;

/// Length of the memory area that holds the handler for `padded_code_len`
/// bytes of relocated code: prologue, relocated code and the jump back.
pub open spec fn jit_area_len(padded_code_len: nat) -> nat {
    HANDLER_PROLOGUE_LEN as nat + padded_code_len + BRANCH_LEN as nat
}

/// The handler written at `jit_base`: save registers and flags, call `callback`,
/// restore them, run the `relocated` instructions, jump to `resume`; the rest of
/// the area up to `padded_code_len` relocated bytes stays zero.
pub open spec fn trampoline_spec(
    jit_base: u32,
    callback: u32,
    relocated: Seq<u8>,
    padded_code_len: nat,
    resume: u32,
) -> Seq<u8> {
    seq![PUSHAD, PUSHFD]
        + branch_spec(CALL_OPCODE, (jit_base + 2) as u32, callback)
        + seq![POPFD, POPAD]
        + relocated
        + branch_spec(JMP_OPCODE, (jit_base + HANDLER_PROLOGUE_LEN + relocated.len()) as u32, resume)
        + Seq::new((padded_code_len - relocated.len()) as nat, |i: int| 0u8)
}

/// What the hooked address holds afterwards: a jump to the handler, then `nop`s
/// over the rest of the `original_code_len` displaced bytes.
pub open spec fn source_patch_spec(ptr: u32, original_code_len: nat, jit_base: u32) -> Seq<u8> {
    branch_spec(JMP_OPCODE, ptr, jit_base) + nops((original_code_len - BRANCH_LEN) as nat)
}

/// First step of an inline hook: refuses code shorter than a jump, and otherwise
/// gives the length of the memory area to allocate for the handler.
pub fn prepare_inline_hook(original_code_len: usize, padded_code_len: usize) -> (r: Result<usize, InlineHookErr>)
    requires
        padded_code_len + HANDLER_PROLOGUE_LEN + BRANCH_LEN <= usize::MAX,
    ensures
        original_code_len < BRANCH_LEN ==> r == Err::<usize, InlineHookErr>(InlineHookErr::InvalidCodeSize),
        original_code_len >= BRANCH_LEN ==> r == Ok::<usize, InlineHookErr>(jit_area_len(padded_code_len as nat) as usize),
{
    if original_code_len < BRANCH_LEN {
        Err(InlineHookErr::InvalidCodeSize)
    } else {
        Ok(HANDLER_PROLOGUE_LEN + padded_code_len + BRANCH_LEN)
    }
}

/// Installs an inline hook at `ptr` in the modelled memory `source`.
///
/// `original_code_len` bytes at `ptr` are displaced; `relocated` is those
/// instructions re-encoded to run at `jit_base + 9` (or `None` where they could
/// not be relocated), taking at most `padded_code_len` bytes; `jit_base` is the
/// address of the handler's memory area. On success the handler's area is
/// returned, and `source` holds at `ptr` a jump to the handler followed by `nop`s.
pub fn inline_hook(
    source: &mut CodeRegion,
    ptr: u32,
    callback: u32,
    original_code_len: usize,
    padded_code_len: usize,
    jit_base: u32,
    relocated: Option<Vec<u8>>,
) -> (r: Result<CodeRegion, InlineHookErr>)
    requires
        padded_code_len + HANDLER_PROLOGUE_LEN + BRANCH_LEN <= usize::MAX,
        original_code_len >= BRANCH_LEN && relocated is Some ==> {
            &&& covers(old(source).base, old(source).bytes@.len(), ptr, original_code_len as nat)
            &&& relocated->0@.len() <= padded_code_len
            &&& jit_base + jit_area_len(padded_code_len as nat) <= address_space()
        },
    ensures
        original_code_len < BRANCH_LEN ==> {
            &&& r == Err::<CodeRegion, InlineHookErr>(InlineHookErr::InvalidCodeSize)
            &&& *final(source) == *old(source)
        },
        original_code_len >= BRANCH_LEN && relocated is None ==> {
            &&& r == Err::<CodeRegion, InlineHookErr>(InlineHookErr::FailedToRelocateCode)
            &&& *final(source) == *old(source)
        },
        original_code_len >= BRANCH_LEN && relocated is Some ==> {
            &&& r is Ok
            &&& r->Ok_0.wf()
            &&& r->Ok_0.base == jit_base
            &&& r->Ok_0.bytes@ == trampoline_spec(
                jit_base,
                callback,
                relocated->0@,
                padded_code_len as nat,
                wrap32(ptr + BRANCH_LEN),
            )
            &&& final(source).base == old(source).base
            &&& final(source).bytes@ == patched(
                old(source).base,
                old(source).bytes@,
                ptr,
                source_patch_spec(ptr, original_code_len as nat, jit_base),
            )
        },
{
    if original_code_len < BRANCH_LEN {
        return Err(InlineHookErr::InvalidCodeSize);
    }
    let code = match relocated {
        Some(code) => code,
        None => {
            return Err(InlineHookErr::FailedToRelocateCode);
        },
    };
    let len = HANDLER_PROLOGUE_LEN + padded_code_len + BRANCH_LEN;
    let mut jit = CodeRegion::zeroed(jit_base, len);
    let ghost zeros = jit.bytes@;
    // Build the handler.
    jit.bytes.set(0, PUSHAD);
    jit.bytes.set(1, PUSHFD);
    let _ = write_call(&mut jit, jit_base + 2, callback);
    jit.bytes.set(7, POPFD);
    jit.bytes.set(8, POPAD);
    let ghost before_code = jit.bytes@;
    let _ = write_code(&mut jit, jit_base + 9, &code);
    let ghost before_jmp = jit.bytes@;
    let resume = ptr.wrapping_add(5);
    assert(resume == wrap32(ptr + BRANCH_LEN));
    let back = jit_base + 9 + code.len() as u32;
    let _ = write_jmp(&mut jit, back, resume);
    proof {
        let t = trampoline_spec(jit_base, callback, code@, padded_code_len as nat, resume);
        let call = branch_spec(CALL_OPCODE, (jit_base + 2) as u32, callback);
        let jmp = branch_spec(JMP_OPCODE, back, resume);
        lemma_branch_reaches(CALL_OPCODE, (jit_base + 2) as u32, callback);
        lemma_branch_reaches(JMP_OPCODE, back, resume);
        assert(jit.bytes@.len() == t.len());
        assert forall|i: int| 0 <= i < t.len() implies jit.bytes@[i] == t[i] by {
            if i < 2 {
            } else if i < 7 {
                assert(t[i] == call[i - 2]);
            } else if i < 9 {
            } else if i < 9 + code@.len() {
                assert(before_jmp[i] == code@[i - 9]);
                assert(t[i] == code@[i - 9]);
            } else if i < 14 + code@.len() {
                assert(t[i] == jmp[i - 9 - code@.len()]);
            } else {
                assert(before_jmp[i] == zeros[i]);
                assert(t[i] == 0u8);
            }
        }
        assert(jit.bytes@ =~= t);
    }
    // Displace the original code: nops over it, then a jump to the handler.
    let ghost src_before = source.bytes@;
    let _ = write_nop(source, ptr, original_code_len);
    let _ = write_jmp(source, ptr, jit_base);
    proof {
        let p = source_patch_spec(ptr, original_code_len as nat, jit_base);
        lemma_branch_reaches(JMP_OPCODE, ptr, jit_base);
        assert(source.bytes@ =~= patched(source.base, src_before, ptr, p));
    }
    Ok(jit)
}

/// The shape of an installed inline hook: the hooked address starts with a jump
/// to the handler and is `nop` up to the end of the displaced bytes; the handler
/// saves the registers and flags, calls the callback, restores them, holds the
/// relocated instructions verbatim and ends in a jump back to `ptr + 5`.
pub proof fn lemma_inline_hook_shape(
    ptr: u32,
    callback: u32,
    original_code_len: nat,
    padded_code_len: nat,
    jit_base: u32,
    relocated: Seq<u8>,
)
    requires
        original_code_len >= BRANCH_LEN,
        relocated.len() <= padded_code_len,
        jit_base + jit_area_len(padded_code_len) <= address_space(),
    ensures
        ({
            let p = source_patch_spec(ptr, original_code_len, jit_base);
            &&& p.len() == original_code_len
            &&& p[0] == JMP_OPCODE
            &&& branch_target(ptr, p) == jit_base
            &&& forall|i: int| BRANCH_LEN <= i < original_code_len ==> p[i] == NOP_OPCODE
        }),
        ({
            let t = trampoline_spec(jit_base, callback, relocated, padded_code_len, wrap32(ptr + BRANCH_LEN));
            let back = jit_base + HANDLER_PROLOGUE_LEN + relocated.len();
            &&& t.len() == jit_area_len(padded_code_len)
            &&& t[0] == PUSHAD
            &&& t[1] == PUSHFD
            &&& t[2] == CALL_OPCODE
            &&& branch_target((jit_base + 2) as u32, t.subrange(2, 7)) == callback
            &&& t[7] == POPFD
            &&& t[8] == POPAD
            &&& t.subrange(9, back - jit_base) == relocated
            &&& t[back - jit_base] == JMP_OPCODE
            &&& branch_target(back as u32, t.subrange(back - jit_base, back - jit_base + 5)) == wrap32(ptr + BRANCH_LEN)
        }),
{
    let p = source_patch_spec(ptr, original_code_len, jit_base);
    lemma_branch_reaches(JMP_OPCODE, ptr, jit_base);
    assert(p.subrange(0, 5) =~= branch_spec(JMP_OPCODE, ptr, jit_base));
    assert(p.subrange(1, 5) =~= branch_spec(JMP_OPCODE, ptr, jit_base).subrange(1, 5));
    let resume = wrap32(ptr + BRANCH_LEN);
    let t = trampoline_spec(jit_base, callback, relocated, padded_code_len, resume);
    let back = jit_base + HANDLER_PROLOGUE_LEN + relocated.len();
    let call = branch_spec(CALL_OPCODE, (jit_base + 2) as u32, callback);
    let jmp = branch_spec(JMP_OPCODE, back as u32, resume);
    lemma_branch_reaches(CALL_OPCODE, (jit_base + 2) as u32, callback);
    lemma_branch_reaches(JMP_OPCODE, back as u32, resume);
    assert(t.subrange(2, 7) =~= call);
    assert(t.subrange(2, 7).subrange(1, 5) =~= call.subrange(1, 5));
    assert(t.subrange(9, back - jit_base) =~= relocated);
    assert(t.subrange(back - jit_base, back - jit_base + 5) =~= jmp);
    assert(t.subrange(back - jit_base, back - jit_base + 5).subrange(1, 5) =~= jmp.subrange(1, 5));
}

} // verus!
