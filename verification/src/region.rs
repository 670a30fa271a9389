//! A modelled region of process memory: the bytes that lie at consecutive
//! 32-bit addresses from a base address on. The patching routines write
//! instructions into such a region at absolute addresses.
use vstd::prelude::*;
use crate::encoding::{
    address_space, branch_spec, branch_target, le32_decode, NOP_OPCODE, call_bytes, jmp_bytes, le32_spec, nop_bytes, nops, push_bytes,
    BRANCH_LEN, CALL_OPCODE, JMP_OPCODE,
};

verus! {

/// Bytes of process memory starting at address `base`.
pub struct CodeRegion {
    pub base: u32,
    pub bytes: Vec<u8>,
}

/// Whether the `n` bytes from `addr` on lie inside the region of `len` bytes at `base`.
pub open spec fn covers(base: u32, len: nat, addr: u32, n: nat) -> bool {
    base <= addr && addr + n <= base + len
}

/// The bytes of the region at `base` after `patch` is written at address `addr`;
/// the bytes stay as they are where the patch does not fit.
pub open spec fn patched(base: u32, bytes: Seq<u8>, addr: u32, patch: Seq<u8>) -> Seq<u8> {
    if covers(base, bytes.len(), addr, patch.len()) {
        let off = addr - base;
        bytes.subrange(0, off) + patch + bytes.subrange(off + patch.len(), bytes.len() as int)
    } else {
        bytes
    }
}

/// A write never changes the region's length; where it fits, the written range
/// holds the patch and every other byte is unchanged; where it does not fit,
/// nothing changes.
pub proof fn lemma_patched_frame(base: u32, bytes: Seq<u8>, addr: u32, patch: Seq<u8>)
    ensures
        patched(base, bytes, addr, patch).len() == bytes.len(),
        covers(base, bytes.len(), addr, patch.len()) ==> {
            &&& forall|i: int| 0 <= i < patch.len() ==> #[trigger] patched(base, bytes, addr, patch)[addr - base + i] == patch[i]
            &&& forall|j: int| 0 <= j < bytes.len() && !(addr - base <= j < addr - base + patch.len())
                ==> #[trigger] patched(base, bytes, addr, patch)[j] == bytes[j]
        },
        !covers(base, bytes.len(), addr, patch.len()) ==> patched(base, bytes, addr, patch) == bytes,
{
    if covers(base, bytes.len(), addr, patch.len()) {
        let off = addr - base;
        let r = patched(base, bytes, addr, patch);
        assert forall|i: int| 0 <= i < patch.len() implies #[trigger] r[off + i] == patch[i] by {
            assert(r[off + i] == (bytes.subrange(0, off) + patch)[off + i]);
        }
        assert forall|j: int| 0 <= j < bytes.len() && !(off <= j < off + patch.len()) implies #[trigger] r[j] == bytes[j] by {
            if j < off {
                assert(r[j] == (bytes.subrange(0, off) + patch)[j]);
            }
        }
    }
}

/// A range lies inside a region exactly when it starts at or after the region's
/// base and ends at or before the region's end; nothing else is refused.
pub proof fn lemma_covers_exact(base: u32, len: nat, addr: u32, n: nat)
    ensures
        covers(base, len, addr, n) <==> (base <= addr && addr + n <= base + len),
        base <= addr && addr + n <= base + len ==> forall|bytes: Seq<u8>, patch: Seq<u8>|
            bytes.len() == len && patch.len() == n ==> #[trigger] patched(base, bytes, addr, patch)
                =~= bytes.subrange(0, addr - base) + patch + bytes.subrange(addr - base + n, len as int),
{
}

impl CodeRegion {
    /// The region lies inside the 32-bit address space.
    pub open spec fn wf(&self) -> bool {
        self.base + self.bytes.len() <= address_space()
    }

    /// A region of `len` zero bytes at `base`, as freshly committed memory reads.
    pub fn zeroed(base: u32, len: usize) -> (r: CodeRegion)
        requires
            base + len <= address_space(),
        ensures
            r.wf(),
            r.base == base,
            r.bytes@ == Seq::new(len as nat, |i: int| 0u8),
    {
        let mut bytes: Vec<u8> = Vec::new();
        let mut i: usize = 0;
        while i < len
            invariant
                i <= len,
                bytes@ =~= Seq::new(i as nat, |j: int| 0u8),
            decreases len - i,
        {
            bytes.push(0u8);
            i = i + 1;
        }
        CodeRegion { base, bytes }
    }

    /// Whether the `n` bytes from `addr` on lie inside this region.
    pub fn covers(&self, addr: u32, n: usize) -> (r: bool)
        ensures
            r == covers(self.base, self.bytes@.len(), addr, n as nat),
            r <==> (self.base <= addr && addr + n <= self.base + self.bytes@.len()),
    {
        addr >= self.base && n <= self.bytes.len() && ((addr - self.base) as usize) <= self.bytes.len() - n
    }
}

/// Copies `code` into the region at address `addr`. Returns `None`, and leaves the
/// region as it was, where the bytes would not lie inside the region.
pub fn write_code(region: &mut CodeRegion, addr: u32, code: &Vec<u8>) -> (r: Option<()>)
    ensures
        r is Some <==> covers(old(region).base, old(region).bytes@.len(), addr, code@.len()),
        final(region).base == old(region).base,
        final(region).bytes@ == patched(old(region).base, old(region).bytes@, addr, code@),
        r is Some <==> (old(region).base <= addr && addr + code@.len() <= old(region).base + old(region).bytes@.len()),
        final(region).bytes@.len() == old(region).bytes@.len(),
        r is Some ==> forall|i: int| 0 <= i < code@.len() ==> #[trigger] final(region).bytes@[addr - old(region).base + i] == code@[i],
        r is Some ==> forall|j: int| 0 <= j < old(region).bytes@.len() && !(addr - old(region).base <= j < addr - old(region).base + code@.len())
            ==> #[trigger] final(region).bytes@[j] == old(region).bytes@[j],
        r is None ==> final(region).bytes@ == old(region).bytes@,
{
    if !region.covers(addr, code.len()) {
        return None;
    }
    let off = (addr - region.base) as usize;
    let ghost before = region.bytes@;
    let mut i: usize = 0;
    while i < code.len()
        invariant
            off + code@.len() <= before.len(),
            region.base == old(region).base,
            before == old(region).bytes@,
            i <= code@.len(),
            region.bytes@.len() == before.len(),
            region.bytes.len() == before.len(),
            forall|j: int| 0 <= j < off ==> region.bytes@[j] == before[j],
            forall|j: int| off <= j < off + i ==> region.bytes@[j] == code@[j - off],
            forall|j: int| off + i <= j < before.len() ==> region.bytes@[j] == before[j],
        decreases code.len() - i,
    {
        region.bytes.set(off + i, code[i]);
        i = i + 1;
    }
    assert(region.bytes@ =~= patched(old(region).base, before, addr, code@));
    proof {
        lemma_patched_frame(old(region).base, before, addr, code@);
    }
    Some(())
}

/// After a successful write of five bytes at `src`, those five bytes are the code.
proof fn lemma_written_branch(before: Seq<u8>, after: Seq<u8>, base: u32, src: u32, code: Seq<u8>, ok: bool)
    requires
        code.len() == BRANCH_LEN,
        after.len() == before.len(),
        ok ==> base <= src && src + BRANCH_LEN <= base + before.len(),
        ok ==> forall|i: int| 0 <= i < code.len() ==> #[trigger] after[src - base + i] == code[i],
    ensures
        ok ==> after.subrange(src - base, src - base + BRANCH_LEN) == code,
        ok ==> after.subrange(src - base + 1, src - base + BRANCH_LEN) == code.subrange(1, 5),
        ok ==> after[src - base] == code[0],
{
    if ok {
        let off = src - base;
        assert forall|i: int| 0 <= i < 5 implies after.subrange(off, off + 5)[i] == code[i] by {
            assert(after[off + i] == code[i]);
        }
        assert(after.subrange(off, off + 5) =~= code);
        assert(after[off + 0] == code[0]);
        assert(after.subrange(off + 1, off + 5) =~= code.subrange(1, 5));
    }
}

/// Writes `jmp dst` at address `src`. Returns `None`, writing nothing, where the
/// five bytes do not lie inside the region.
pub fn write_jmp(region: &mut CodeRegion, src: u32, dst: u32) -> (r: Option<()>)
    ensures
        r is Some <==> covers(old(region).base, old(region).bytes@.len(), src, BRANCH_LEN as nat),
        final(region).base == old(region).base,
        final(region).bytes@ == patched(old(region).base, old(region).bytes@, src, branch_spec(JMP_OPCODE, src, dst)),
        r is Some <==> (old(region).base <= src && src + BRANCH_LEN <= old(region).base + old(region).bytes@.len()),
        final(region).bytes@.len() == old(region).bytes@.len(),
        r is Some ==> final(region).bytes@[src - old(region).base] == JMP_OPCODE,
        r is Some ==> branch_target(src, final(region).bytes@.subrange(src - old(region).base, src - old(region).base + BRANCH_LEN)) == dst,
        r is Some ==> forall|j: int| 0 <= j < old(region).bytes@.len() && !(src - old(region).base <= j < src - old(region).base + BRANCH_LEN)
            ==> #[trigger] final(region).bytes@[j] == old(region).bytes@[j],
        r is None ==> final(region).bytes@ == old(region).bytes@,
{
    let code = jmp_bytes(src, dst);
    let r = write_code(region, src, &code);
    proof {
        lemma_written_branch(old(region).bytes@, region.bytes@, old(region).base, src, code@, r is Some);
    }
    r
}

/// Writes `call dst` at address `src`. Returns `None`, writing nothing, where the
/// five bytes do not lie inside the region.
pub fn write_call(region: &mut CodeRegion, src: u32, dst: u32) -> (r: Option<()>)
    ensures
        r is Some <==> covers(old(region).base, old(region).bytes@.len(), src, BRANCH_LEN as nat),
        final(region).base == old(region).base,
        final(region).bytes@ == patched(old(region).base, old(region).bytes@, src, branch_spec(CALL_OPCODE, src, dst)),
        r is Some <==> (old(region).base <= src && src + BRANCH_LEN <= old(region).base + old(region).bytes@.len()),
        final(region).bytes@.len() == old(region).bytes@.len(),
        r is Some ==> final(region).bytes@[src - old(region).base] == CALL_OPCODE,
        r is Some ==> branch_target(src, final(region).bytes@.subrange(src - old(region).base, src - old(region).base + BRANCH_LEN)) == dst,
        r is Some ==> forall|j: int| 0 <= j < old(region).bytes@.len() && !(src - old(region).base <= j < src - old(region).base + BRANCH_LEN)
            ==> #[trigger] final(region).bytes@[j] == old(region).bytes@[j],
        r is None ==> final(region).bytes@ == old(region).bytes@,
{
    let code = call_bytes(src, dst);
    let r = write_code(region, src, &code);
    proof {
        lemma_written_branch(old(region).bytes@, region.bytes@, old(region).base, src, code@, r is Some);
    }
    r
}

/// Writes opcode `0xE8` followed by the immediate `dst` at address `src`. Returns
/// `None`, writing nothing, where the five bytes do not lie inside the region.
pub fn write_push(region: &mut CodeRegion, src: u32, dst: u32) -> (r: Option<()>)
    ensures
        r is Some <==> covers(old(region).base, old(region).bytes@.len(), src, BRANCH_LEN as nat),
        final(region).base == old(region).base,
        final(region).bytes@ == patched(old(region).base, old(region).bytes@, src, seq![CALL_OPCODE] + le32_spec(dst)),
        r is Some <==> (old(region).base <= src && src + BRANCH_LEN <= old(region).base + old(region).bytes@.len()),
        final(region).bytes@.len() == old(region).bytes@.len(),
        r is Some ==> final(region).bytes@[src - old(region).base] == CALL_OPCODE,
        r is Some ==> le32_decode(final(region).bytes@.subrange(src - old(region).base + 1, src - old(region).base + BRANCH_LEN)) == dst,
        r is Some ==> forall|j: int| 0 <= j < old(region).bytes@.len() && !(src - old(region).base <= j < src - old(region).base + BRANCH_LEN)
            ==> #[trigger] final(region).bytes@[j] == old(region).bytes@[j],
        r is None ==> final(region).bytes@ == old(region).bytes@,
{
    let code = push_bytes(dst);
    let r = write_code(region, src, &code);
    proof {
        lemma_written_branch(old(region).bytes@, region.bytes@, old(region).base, src, code@, r is Some);
    }
    r
}

/// Fills `code_size` bytes from address `addr` on with `nop`. Returns `None`,
/// writing nothing, where they do not lie inside the region.
pub fn write_nop(region: &mut CodeRegion, addr: u32, code_size: usize) -> (r: Option<()>)
    ensures
        r is Some <==> covers(old(region).base, old(region).bytes@.len(), addr, code_size as nat),
        final(region).base == old(region).base,
        final(region).bytes@ == patched(old(region).base, old(region).bytes@, addr, nops(code_size as nat)),
        r is Some <==> (old(region).base <= addr && addr + code_size <= old(region).base + old(region).bytes@.len()),
        final(region).bytes@.len() == old(region).bytes@.len(),
        r is Some ==> forall|i: int| 0 <= i < code_size ==> #[trigger] final(region).bytes@[addr - old(region).base + i] == NOP_OPCODE,
        r is Some ==> forall|j: int| 0 <= j < old(region).bytes@.len() && !(addr - old(region).base <= j < addr - old(region).base + code_size)
            ==> #[trigger] final(region).bytes@[j] == old(region).bytes@[j],
        r is None ==> final(region).bytes@ == old(region).bytes@,
{
    let code = nop_bytes(code_size);
    let r = write_code(region, addr, &code);
    proof {
        if r is Some {
            assert forall|i: int| 0 <= i < code_size implies #[trigger] region.bytes@[addr - old(region).base + i] == NOP_OPCODE by {
                assert(region.bytes@[addr - old(region).base + i] == code@[i]);
            }
        }
    }
    r
}

/// Replaces the `size` bytes at `src` by `nop`s and then writes `call dst` at `src`.
pub fn inline_replace(region: &mut CodeRegion, src: u32, dst: u32, size: usize)
    ensures
        final(region).base == old(region).base,
        final(region).bytes@ == patched(
            old(region).base,
            patched(old(region).base, old(region).bytes@, src, nops(size as nat)),
            src,
            branch_spec(CALL_OPCODE, src, dst),
        ),
        old(region).base <= src && src + size <= old(region).base + old(region).bytes@.len() && size >= BRANCH_LEN ==> {
            let off = src - old(region).base;
            &&& final(region).bytes@.len() == old(region).bytes@.len()
            &&& final(region).bytes@[off] == CALL_OPCODE
            &&& branch_target(src, final(region).bytes@.subrange(off, off + BRANCH_LEN)) == dst
            &&& forall|i: int| BRANCH_LEN <= i < size ==> #[trigger] final(region).bytes@[off + i] == NOP_OPCODE
            &&& forall|j: int| 0 <= j < old(region).bytes@.len() && !(off <= j < off + size)
                ==> #[trigger] final(region).bytes@[j] == old(region).bytes@[j]
        },
{
    let ghost start = region.bytes@;
    let _ = write_nop(region, src, size);
    let ghost mid = region.bytes@;
    let _ = write_call(region, src, dst);
    proof {
        if old(region).base <= src && src + size <= old(region).base + start.len() && size >= BRANCH_LEN {
            let off = src - old(region).base;
            assert forall|i: int| BRANCH_LEN <= i < size implies #[trigger] region.bytes@[off + i] == NOP_OPCODE by {
                assert(mid[off + i] == NOP_OPCODE);
            }
            assert forall|j: int| 0 <= j < start.len() && !(off <= j < off + size)
                implies #[trigger] region.bytes@[j] == start[j] by {
                assert(mid[j] == start[j]);
            }
        }
    }
}

/// Replaces the `size` bytes at `src` by `nop`s and then writes `jmp dst` at `src`.
pub fn inline_replace_jump(region: &mut CodeRegion, src: u32, dst: u32, size: usize)
    ensures
        final(region).base == old(region).base,
        final(region).bytes@ == patched(
            old(region).base,
            patched(old(region).base, old(region).bytes@, src, nops(size as nat)),
            src,
            branch_spec(JMP_OPCODE, src, dst),
        ),
        old(region).base <= src && src + size <= old(region).base + old(region).bytes@.len() && size >= BRANCH_LEN ==> {
            let off = src - old(region).base;
            &&& final(region).bytes@.len() == old(region).bytes@.len()
            &&& final(region).bytes@[off] == JMP_OPCODE
            &&& branch_target(src, final(region).bytes@.subrange(off, off + BRANCH_LEN)) == dst
            &&& forall|i: int| BRANCH_LEN <= i < size ==> #[trigger] final(region).bytes@[off + i] == NOP_OPCODE
            &&& forall|j: int| 0 <= j < old(region).bytes@.len() && !(off <= j < off + size)
                ==> #[trigger] final(region).bytes@[j] == old(region).bytes@[j]
        },
{
    let ghost start = region.bytes@;
    let _ = write_nop(region, src, size);
    let ghost mid = region.bytes@;
    let _ = write_jmp(region, src, dst);
    proof {
        if old(region).base <= src && src + size <= old(region).base + start.len() && size >= BRANCH_LEN {
            let off = src - old(region).base;
            assert forall|i: int| BRANCH_LEN <= i < size implies #[trigger] region.bytes@[off + i] == NOP_OPCODE by {
                assert(mid[off + i] == NOP_OPCODE);
            }
            assert forall|j: int| 0 <= j < start.len() && !(off <= j < off + size)
                implies #[trigger] region.bytes@[j] == start[j] by {
                assert(mid[j] == start[j]);
            }
        }
    }
}

} // verus!
