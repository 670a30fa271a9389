//! Encodings of the x86 instructions that the hooks write: `jmp rel32`,
//! `call rel32`, an opcode followed by a 32-bit immediate, and `nop` runs.
use vstd::prelude::*;

verus! {

/// Opcode of `jmp rel32`.
pub const JMP_OPCODE: u8 = 0xE9;

/// Opcode of `call rel32`.
pub const CALL_OPCODE: u8 = 0xE8;

/// Opcode of `nop`.
pub const NOP_OPCODE: u8 = 0x90;

/// Length in bytes of a `jmp rel32` or `call rel32` instruction.
pub const BRANCH_LEN: usize = 5;

/// Number of distinct 32-bit addresses.
pub open spec fn address_space() -> int {
    0x1_0000_0000
}

/// `x` reduced to a 32-bit address, as address arithmetic wraps around.
pub open spec fn wrap32(x: int) -> u32 {
    (x % address_space()) as u32
}

/// The four bytes of `v`, least significant first (x86 byte order).
pub open spec fn le32_spec(v: u32) -> Seq<u8> {
    seq![
        (v % 0x100) as u8,
        ((v / 0x100) % 0x100) as u8,
        ((v / 0x1_0000) % 0x100) as u8,
        (v / 0x100_0000) as u8,
    ]
}

/// The number that four little-endian bytes stand for.
pub open spec fn le32_decode(b: Seq<u8>) -> int {
    b[0] + 0x100 * b[1] + 0x1_0000 * b[2] + 0x100_0000 * b[3]
}

/// The displacement of a 5-byte relative branch at `src` that reaches `dst`:
/// `dst - (src + 5)` modulo 2^32.
pub open spec fn rel32_spec(src: u32, dst: u32) -> u32 {
    ((dst - src - 5) % address_space()) as u32
}

/// A 5-byte relative branch with the given opcode, placed at `src`, aimed at `dst`.
pub open spec fn branch_spec(opcode: u8, src: u32, dst: u32) -> Seq<u8> {
    seq![opcode] + le32_spec(rel32_spec(src, dst))
}

/// The address that a 5-byte relative branch placed at `src` transfers control to:
/// the address after the instruction plus the displacement, modulo 2^32.
pub open spec fn branch_target(src: u32, code: Seq<u8>) -> int {
    (src + 5 + le32_decode(code.subrange(1, 5))) % address_space()
}

/// `n` bytes of `nop`.
pub open spec fn nops(n: nat) -> Seq<u8> {
    Seq::new(n, |i: int| NOP_OPCODE)
}

/// Decoding the little-endian bytes of `v` gives back `v`.
pub proof fn lemma_le32_roundtrip(v: u32)
    ensures
        le32_spec(v).len() == 4,
        le32_decode(le32_spec(v)) == v,
{
    let b = le32_spec(v);
    assert(b[0] == v % 0x100);
    assert(((v / 0x100) % 0x100) as u8 == (v / 0x100) % 0x100);
    assert(((v / 0x1_0000) % 0x100) as u8 == (v / 0x1_0000) % 0x100);
    assert((v / 0x100_0000) as u8 == v / 0x100_0000) by (nonlinear_arith);
    assert(v % 0x100 + 0x100 * ((v / 0x100) % 0x100) + 0x1_0000 * ((v / 0x1_0000) % 0x100)
        + 0x100_0000 * (v / 0x100_0000) == v) by (nonlinear_arith);
}

/// A relative branch encoded for `dst` transfers control to `dst`, whatever
/// the opcode and wherever it is placed.
pub proof fn lemma_branch_reaches(opcode: u8, src: u32, dst: u32)
    ensures
        branch_spec(opcode, src, dst).len() == BRANCH_LEN,
        branch_spec(opcode, src, dst)[0] == opcode,
        branch_target(src, branch_spec(opcode, src, dst)) == dst,
{
    let r = rel32_spec(src, dst);
    lemma_le32_roundtrip(r);
    let code = branch_spec(opcode, src, dst);
    assert(code.subrange(1, 5) =~= le32_spec(r));
    assert((src + 5 + (dst - src - 5) % 0x1_0000_0000) % 0x1_0000_0000 == dst) by (nonlinear_arith)
        requires
            0 <= src < 0x1_0000_0000,
            0 <= dst < 0x1_0000_0000,
    ;
}

/// The little-endian bytes of `v`.
pub fn le32_bytes(v: u32) -> (r: Vec<u8>)
    ensures
        r@ == le32_spec(v),
{
    let b0 = (v & 0xff) as u8;
    let b1 = ((v >> 8u32) & 0xff) as u8;
    let b2 = ((v >> 16u32) & 0xff) as u8;
    let b3 = (v >> 24u32) as u8;
    assert(v & 0xff == v % 0x100) by (bit_vector);
    assert((v >> 8u32) & 0xff == (v / 0x100) % 0x100) by (bit_vector);
    assert((v >> 16u32) & 0xff == (v / 0x1_0000) % 0x100) by (bit_vector);
    assert(v >> 24u32 == v / 0x100_0000) by (bit_vector);
    let mut r: Vec<u8> = Vec::new();
    r.push(b0);
    r.push(b1);
    r.push(b2);
    r.push(b3);
    assert(r@ =~= le32_spec(v));
    r
}

/// The displacement that a 5-byte relative branch at `src` needs to reach
/// `dst`, with 32-bit wrap-around, as the processor adds it.
pub fn rel32(src: u32, dst: u32) -> (r: u32)
    ensures
        r == rel32_spec(src, dst),
{
    dst.wrapping_sub(src).wrapping_sub(5)
}

fn branch_bytes(opcode: u8, src: u32, dst: u32) -> (r: Vec<u8>)
    ensures
        r@ == branch_spec(opcode, src, dst),
        r@.len() == BRANCH_LEN,
        branch_target(src, r@) == dst,
{
    let mut r: Vec<u8> = Vec::new();
    r.push(opcode);
    let mut tail = le32_bytes(rel32(src, dst));
    r.append(&mut tail);
    proof {
        lemma_branch_reaches(opcode, src, dst);
    }
    assert(r@ =~= branch_spec(opcode, src, dst));
    r
}

/// `jmp rel32` placed at `src` that jumps to `dst`.
pub fn jmp_bytes(src: u32, dst: u32) -> (r: Vec<u8>)
    ensures
        r@ == branch_spec(JMP_OPCODE, src, dst),
        r@.len() == BRANCH_LEN,
        r@[0] == JMP_OPCODE,
        branch_target(src, r@) == dst,
{
    branch_bytes(JMP_OPCODE, src, dst)
}

/// `call rel32` placed at `src` that calls `dst`.
pub fn call_bytes(src: u32, dst: u32) -> (r: Vec<u8>)
    ensures
        r@ == branch_spec(CALL_OPCODE, src, dst),
        r@.len() == BRANCH_LEN,
        r@[0] == CALL_OPCODE,
        branch_target(src, r@) == dst,
{
    branch_bytes(CALL_OPCODE, src, dst)
}

/// The five bytes that the push patch writes: opcode `0xE8` followed by the
/// little-endian immediate `imm`, taken as it is (no displacement).
pub fn push_bytes(imm: u32) -> (r: Vec<u8>)
    ensures
        r@ == seq![CALL_OPCODE] + le32_spec(imm),
        r@.len() == BRANCH_LEN,
        le32_decode(r@.subrange(1, 5)) == imm,
{
    let mut r: Vec<u8> = Vec::new();
    r.push(CALL_OPCODE);
    let mut tail = le32_bytes(imm);
    r.append(&mut tail);
    proof {
        lemma_le32_roundtrip(imm);
    }
    assert(r@ =~= seq![CALL_OPCODE] + le32_spec(imm));
    assert(r@.subrange(1, 5) =~= le32_spec(imm));
    r
}

/// `n` bytes of `nop`.
pub fn nop_bytes(n: usize) -> (r: Vec<u8>)
    ensures
        r@ == nops(n as nat),
{
    let mut r: Vec<u8> = Vec::new();
    let mut i: usize = 0;
    while i < n
        invariant
            i <= n,
            r@ =~= nops(i as nat),
        decreases n - i,
    {
        r.push(NOP_OPCODE);
        i = i + 1;
    }
    r
}

} // verus!
