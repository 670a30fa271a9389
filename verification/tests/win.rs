use fred::win::{set_permission_result, Perm, Protection};

const ALL: [Perm; 11] = [
    Perm::NoAccess,
    Perm::Read,
    Perm::ReadWrite,
    Perm::WriteCopy,
    Perm::Execute,
    Perm::ExecuteRead,
    Perm::ExecuteReadWrite,
    Perm::ExecuteWriteCopy,
    Perm::Guard,
    Perm::NoCache,
    Perm::WriteCombine,
];

#[test]
fn perm_flag_values() {
    assert_eq!(Perm::NoAccess.flags(), 0x01);
    assert_eq!(Perm::ReadWrite.flags(), 0x04);
    assert_eq!(Perm::ExecuteReadWrite.flags(), 0x40);
    assert_eq!(Perm::WriteCombine.flags(), 0x400);
}

#[test]
fn perm_flags_roundtrip() {
    for p in ALL {
        assert_eq!(Perm::from_flags(p.flags()), Some(p));
    }
}

#[test]
fn from_flags_rejects_other_values() {
    assert_eq!(Perm::from_flags(0), None);
    assert_eq!(Perm::from_flags(0x41), None);
    assert_eq!(Perm::from_flags(0x800), None);
}

#[test]
fn set_permission_result_cases() {
    assert_eq!(set_permission_result(0, 0x04), None);
    assert_eq!(set_permission_result(1, 0x04), Some(Protection { flags: 0x04 }));
    assert_eq!(set_permission_result(-1, 0x20), Some(Protection { flags: 0x20 }));
}

#[test]
fn set_permission_result_keeps_combined_protection() {
    // PAGE_EXECUTE_READ | PAGE_GUARD is no single permission, but is handed back as it is.
    let old = set_permission_result(1, 0x120).unwrap();
    assert_eq!(old.flags, 0x120);
    assert_eq!(old.perm(), None);
    assert_eq!(set_permission_result(1, 0x03), Some(Protection { flags: 0x03 }));
}

#[test]
fn protection_from_perm() {
    for p in ALL {
        let prot = Protection::from_perm(p);
        assert_eq!(prot.flags, p.flags());
        assert_eq!(prot.perm(), Some(p));
    }
}
