//! Page-protection settings of process memory, by the values that the
//! operating system's protection calls take and hand back.
use vstd::prelude::*;

verus! {

/// `PAGE_NOACCESS` of the Windows API.
pub const PAGE_NOACCESS: u32 = 0x01;
/// `PAGE_READONLY` of the Windows API.
pub const PAGE_READONLY: u32 = 0x02;
/// `PAGE_READWRITE` of the Windows API.
pub const PAGE_READWRITE: u32 = 0x04;
/// `PAGE_WRITECOPY` of the Windows API.
pub const PAGE_WRITECOPY: u32 = 0x08;
/// `PAGE_EXECUTE` of the Windows API.
pub const PAGE_EXECUTE: u32 = 0x10;
/// `PAGE_EXECUTE_READ` of the Windows API.
pub const PAGE_EXECUTE_READ: u32 = 0x20;
/// `PAGE_EXECUTE_READWRITE` of the Windows API.
pub const PAGE_EXECUTE_READWRITE: u32 = 0x40;
/// `PAGE_EXECUTE_WRITECOPY` of the Windows API.
pub const PAGE_EXECUTE_WRITECOPY: u32 = 0x80;
/// `PAGE_GUARD` of the Windows API.
pub const PAGE_GUARD: u32 = 0x100;
/// `PAGE_NOCACHE` of the Windows API.
pub const PAGE_NOCACHE: u32 = 0x200;
/// `PAGE_WRITECOMBINE` of the Windows API.
pub const PAGE_WRITECOMBINE: u32 = 0x400;

/// A page protection.
#[derive(Debug, Clone, Copy, PartialEq, Eq, Structural)]
pub enum Perm {
    NoAccess,
    Read,
    ReadWrite,
    WriteCopy,
    Execute,
    ExecuteRead,
    ExecuteReadWrite,
    ExecuteWriteCopy,
    Guard,
    NoCache,
    WriteCombine,
}

/// The protection value of each permission (`PAGE_NOACCESS` = 0x01 up to
/// `PAGE_WRITECOMBINE` = 0x400).
pub open spec fn perm_flags(p: Perm) -> u32 {
    match p {
        Perm::NoAccess => 0x01,
        Perm::Read => 0x02,
        Perm::ReadWrite => 0x04,
        Perm::WriteCopy => 0x08,
        Perm::Execute => 0x10,
        Perm::ExecuteRead => 0x20,
        Perm::ExecuteReadWrite => 0x40,
        Perm::ExecuteWriteCopy => 0x80,
        Perm::Guard => 0x100,
        Perm::NoCache => 0x200,
        Perm::WriteCombine => 0x400,
    }
}

/// Whether `flags` is the protection value of some permission.
pub open spec fn is_perm_flags(flags: u32) -> bool {
    exists|p: Perm| perm_flags(p) == flags
}

impl Perm {
    /// The protection value that the operating system takes for this permission.
    pub fn flags(self) -> (r: u32)
        ensures
            r == perm_flags(self),
    {
        match self {
            Perm::NoAccess => 0x01,
            Perm::Read => 0x02,
            Perm::ReadWrite => 0x04,
            Perm::WriteCopy => 0x08,
            Perm::Execute => 0x10,
            Perm::ExecuteRead => 0x20,
            Perm::ExecuteReadWrite => 0x40,
            Perm::ExecuteWriteCopy => 0x80,
            Perm::Guard => 0x100,
            Perm::NoCache => 0x200,
            Perm::WriteCombine => 0x400,
        }
    }

    /// The permission whose protection value is `flags`, if there is one.
    pub fn from_flags(flags: u32) -> (r: Option<Perm>)
        ensures
            r is Some <==> is_perm_flags(flags),
            r matches Some(p) ==> perm_flags(p) == flags,
    {
        let r = if flags == 0x01 {
            Some(Perm::NoAccess)
        } else if flags == 0x02 {
            Some(Perm::Read)
        } else if flags == 0x04 {
            Some(Perm::ReadWrite)
        } else if flags == 0x08 {
            Some(Perm::WriteCopy)
        } else if flags == 0x10 {
            Some(Perm::Execute)
        } else if flags == 0x20 {
            Some(Perm::ExecuteRead)
        } else if flags == 0x40 {
            Some(Perm::ExecuteReadWrite)
        } else if flags == 0x80 {
            Some(Perm::ExecuteWriteCopy)
        } else if flags == 0x100 {
            Some(Perm::Guard)
        } else if flags == 0x200 {
            Some(Perm::NoCache)
        } else if flags == 0x400 {
            Some(Perm::WriteCombine)
        } else {
            None
        };
        proof {
            if let Some(p) = r {
                assert(perm_flags(p) == flags);
            }
            if is_perm_flags(flags) {
                let p = choose|p: Perm| perm_flags(p) == flags;
                assert(perm_flags(p) == flags);
            }
        }
        r
    }
}

/// A page protection exactly as the operating system reports it: one of the
/// `Perm` values, possibly combined with modifiers such as `PAGE_GUARD`, or any
/// other value the system hands back.
#[derive(Debug, Clone, Copy, PartialEq, Eq, Structural)]
pub struct Protection {
    pub flags: u32,
}

impl Protection {
    /// The protection that sets exactly the permission `p`.
    pub fn from_perm(p: Perm) -> (r: Protection)
        ensures
            r.flags == perm_flags(p),
    {
        Protection { flags: p.flags() }
    }

    /// The permission that this protection is, if it is exactly one of them.
    pub fn perm(self) -> (r: Option<Perm>)
        ensures
            r is Some <==> is_perm_flags(self.flags),
            r matches Some(p) ==> perm_flags(p) == self.flags,
    {
        Perm::from_flags(self.flags)
    }
}

/// What setting a protection yields, from the outcome of the operating system's
/// call: `success` is its return value (non-zero on success) and `old_flags` the
/// protection it reported as the previous one. Gives that previous protection,
/// value for value, on success, so that it can be restored, and `None` on failure.
pub fn set_permission_result(success: i32, old_flags: u32) -> (r: Option<Protection>)
    ensures
        r == (if success != 0 { Some(Protection { flags: old_flags }) } else { None::<Protection> }),
{
    if success != 0 {
        Some(Protection { flags: old_flags })
    } else {
        None
    }
}

/// Each permission stands for the Windows page-protection constant of its name,
/// and reading that constant back gives the permission again.
pub proof fn lemma_perm_flags_are_page_constants()
    ensures
        perm_flags(Perm::NoAccess) == PAGE_NOACCESS,
        perm_flags(Perm::Read) == PAGE_READONLY,
        perm_flags(Perm::ReadWrite) == PAGE_READWRITE,
        perm_flags(Perm::WriteCopy) == PAGE_WRITECOPY,
        perm_flags(Perm::Execute) == PAGE_EXECUTE,
        perm_flags(Perm::ExecuteRead) == PAGE_EXECUTE_READ,
        perm_flags(Perm::ExecuteReadWrite) == PAGE_EXECUTE_READWRITE,
        perm_flags(Perm::ExecuteWriteCopy) == PAGE_EXECUTE_WRITECOPY,
        perm_flags(Perm::Guard) == PAGE_GUARD,
        perm_flags(Perm::NoCache) == PAGE_NOCACHE,
        perm_flags(Perm::WriteCombine) == PAGE_WRITECOMBINE,
        forall|p: Perm| perm_flags(p) == PAGE_READONLY ==> p == Perm::Read,
        forall|p: Perm| perm_flags(p) == PAGE_WRITECOPY ==> p == Perm::WriteCopy,
        forall|p: Perm| perm_flags(p) == PAGE_EXECUTE ==> p == Perm::Execute,
        forall|p: Perm| perm_flags(p) == PAGE_EXECUTE_READ ==> p == Perm::ExecuteRead,
        forall|p: Perm| perm_flags(p) == PAGE_EXECUTE_READWRITE ==> p == Perm::ExecuteReadWrite,
{
}

/// Distinct permissions have distinct protection values, and reading back the
/// value of a permission gives that permission.
pub proof fn lemma_perm_flags_injective(p: Perm, q: Perm)
    ensures
        perm_flags(p) == perm_flags(q) ==> p == q,
        is_perm_flags(perm_flags(p)),
{
}

} // verus!
