use fred::files::{is_plugin_file, sanitize_path, FileInfo, LoadedPak};

#[test]
fn sanitize_replaces_slashes() {
    assert_eq!(
        sanitize_path(b"data/cars/mcqueen.dds"),
        b"data\\cars\\mcqueen.dds".to_vec()
    );
    assert_eq!(sanitize_path(b""), Vec::<u8>::new());
    assert_eq!(sanitize_path(b"a\\b"), b"a\\b".to_vec());
}

#[test]
fn sanitize_is_idempotent() {
    let once = sanitize_path(b"/x//y/");
    assert_eq!(once, b"\\x\\\\y\\".to_vec());
    assert_eq!(sanitize_path(&once), once);
}

#[test]
fn plugin_files() {
    assert!(is_plugin_file(false, Some(b"dll")));
    assert!(!is_plugin_file(true, Some(b"dll")));
    assert!(!is_plugin_file(false, Some(b"DLL")));
    assert!(!is_plugin_file(false, Some(b"dlls")));
    assert!(!is_plugin_file(false, Some(b"")));
    assert!(!is_plugin_file(false, None));
}

#[test]
fn loose_file_record() {
    let f = FileInfo::for_loose_file(1234);
    assert_eq!(f.path, [0u8; 100]);
    assert_eq!(f.offset, 0);
    assert_eq!(f.size, 1234);
    assert_eq!(FileInfo::for_loose_file(0x1_0000_0005).size, 5);
}

#[test]
fn placeholder_pak() {
    let p = LoadedPak::placeholder();
    assert_eq!(p.path, [0u8; 100]);
    assert_eq!(p.files_in_pak, 0);
    assert_eq!(p.file_count, 0);
    assert_eq!(p.file_data_start_offset, 0);
}

#[test]
fn sanitize_keeps_utf8() {
    let path = "données/ÉCRAN/日本.dds";
    let out = sanitize_path(path.as_bytes());
    assert_eq!(String::from_utf8(out).unwrap(), "données\\ÉCRAN\\日本.dds");
}
