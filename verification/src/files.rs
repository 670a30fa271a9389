//! Records of the game's archive file system that the loose-file redirection
//! hands to the game, and the path and plugin rules it applies.
use vstd::prelude::*;
use vstd::utf8::{
    decode_first_codepoint, is_continuation_byte, is_leading_byte_width_1, length_of_first_scalar,
    pop_first_scalar, valid_utf8,
};

verus! {

/// Length of the fixed path buffer in the game's file records.
pub const PATH_LEN: usize = 100;

/// The game's record of one file inside an archive.
pub struct FileInfo {
    pub path: [u8; 100],
    pub offset: u32,
    pub size: u32,
}

/// The game's record of a mounted archive.
pub struct LoadedPak {
    pub path: [u8; 100],
    pub files_in_pak: usize,
    pub file_count: u32,
    pub file_data_start_offset: u32,
}

/// `n` zero bytes.
pub open spec fn zeros(n: nat) -> Seq<u8> {
    Seq::new(n, |i: int| 0u8)
}

impl FileInfo {
    /// The record given to the game for a file read from disk rather than from an
    /// archive: an empty path, offset zero, and the file's length taken modulo 2^32
    /// (the record holds a 32-bit size).
    pub fn for_loose_file(file_len: u64) -> (r: FileInfo)
        ensures
            r.path@ == zeros(PATH_LEN as nat),
            r.offset == 0,
            r.size == file_len % 0x1_0000_0000,
    {
        let size = (file_len & 0xffff_ffff) as u32;
        assert(file_len & 0xffff_ffff == file_len % 0x1_0000_0000) by (bit_vector);
        let path = [0u8; 100];
        assert(path@ =~= zeros(PATH_LEN as nat));
        FileInfo { path, offset: 0, size }
    }
}

impl LoadedPak {
    /// The archive record that loose files point at, so that the game can read
    /// an archive's data start offset from them: everything zero.
    pub fn placeholder() -> (r: LoadedPak)
        ensures
            r.path@ == zeros(PATH_LEN as nat),
            r.files_in_pak == 0,
            r.file_count == 0,
            r.file_data_start_offset == 0,
    {
        let path = [0u8; 100];
        assert(path@ =~= zeros(PATH_LEN as nat));
        LoadedPak { path, files_in_pak: 0, file_count: 0, file_data_start_offset: 0 }
    }
}

/// `b'/'`
pub const SLASH: u8 = 0x2F;

/// `b'\\'`
pub const BACKSLASH: u8 = 0x5C;

/// `path` with every `/` replaced by `\`.
pub open spec fn sanitized(path: Seq<u8>) -> Seq<u8> {
    path.map_values(|b: u8| if b == SLASH { BACKSLASH } else { b })
}

/// The path in the form the host file system takes: every `/` becomes `\`.
/// Both are ASCII, so on UTF-8 text this is the same as replacing the characters.
pub fn sanitize_path(path: &[u8]) -> (r: Vec<u8>)
    ensures
        r@ == sanitized(path@),
        valid_utf8(path@) ==> valid_utf8(r@),
        r@.len() == path@.len(),
        forall|i: int| 0 <= i < path@.len() && path@[i] == SLASH ==> #[trigger] r@[i] == BACKSLASH,
        forall|i: int| 0 <= i < path@.len() && path@[i] != SLASH ==> #[trigger] r@[i] == path@[i],
{
    let mut r: Vec<u8> = Vec::new();
    let mut i: usize = 0;
    while i < path.len()
        invariant
            i <= path@.len(),
            r@ =~= sanitized(path@.subrange(0, i as int)),
        decreases path.len() - i,
    {
        let b = path[i];
        if b == SLASH {
            r.push(BACKSLASH);
        } else {
            r.push(b);
        }
        i = i + 1;
        assert(path@.subrange(0, i as int) =~= path@.subrange(0, i - 1).push(b));
    }
    assert(path@.subrange(0, path@.len() as int) =~= path@);
    proof {
        if valid_utf8(path@) {
            lemma_sanitized_valid_utf8(path@);
        }
    }
    r
}

/// Sanitizing keeps valid UTF-8 valid: `/` and `\` are both one-byte scalars, and
/// the bytes of longer scalars are never `/`.
pub proof fn lemma_sanitized_valid_utf8(bytes: Seq<u8>)
    requires
        valid_utf8(bytes),
    ensures
        valid_utf8(sanitized(bytes)),
    decreases bytes.len(),
{
    let s = sanitized(bytes);
    if bytes.len() != 0 {
        let n = length_of_first_scalar(bytes);
        let b0 = s[0];
        if is_leading_byte_width_1(bytes[0]) {
            assert(is_leading_byte_width_1(b0));
            assert((b0 & 0x7F) <= 0x7F) by (bit_vector);
            assert(decode_first_codepoint(s) <= 0x7F);
        } else {
            assert(s[0] == bytes[0]);
            if n >= 2 {
                assert(is_continuation_byte(bytes[1]));
                assert(s[1] == bytes[1]);
            }
            if n >= 3 {
                assert(is_continuation_byte(bytes[2]));
                assert(s[2] == bytes[2]);
            }
            if n >= 4 {
                assert(is_continuation_byte(bytes[3]));
                assert(s[3] == bytes[3]);
            }
            assert(decode_first_codepoint(s) == decode_first_codepoint(bytes));
        }
        assert(length_of_first_scalar(s) == n);
        assert(pop_first_scalar(s) =~= sanitized(pop_first_scalar(bytes)));
        lemma_sanitized_valid_utf8(pop_first_scalar(bytes));
    }
}

/// A sanitized path has the same length, holds no `/`, keeps every other byte,
/// and sanitizing it again changes nothing.
pub proof fn lemma_sanitized(path: Seq<u8>)
    ensures
        sanitized(path).len() == path.len(),
        forall|i: int| 0 <= i < path.len() ==> #[trigger] sanitized(path)[i] != SLASH,
        forall|i: int| 0 <= i < path.len() && path[i] == SLASH ==> #[trigger] sanitized(path)[i] == BACKSLASH,
        forall|i: int| 0 <= i < path.len() && path[i] != SLASH ==> #[trigger] sanitized(path)[i] == path[i],
        sanitized(sanitized(path)) == sanitized(path),
{
    assert(sanitized(sanitized(path)) =~= sanitized(path));
}

/// The file extension of plugins, `dll`.
pub open spec fn plugin_extension() -> Seq<u8> {
    seq![0x64u8, 0x6Cu8, 0x6Cu8]
}

/// Whether a directory entry is a plugin to load: not a directory, and its
/// extension is exactly `dll`.
pub fn is_plugin_file(is_dir: bool, extension: Option<&[u8]>) -> (r: bool)
    ensures
        r == (!is_dir && extension is Some && extension->0@ == plugin_extension()),
{
    if is_dir {
        return false;
    }
    match extension {
        Some(ext) => {
            let r = ext.len() == 3 && ext[0] == 0x64 && ext[1] == 0x6C && ext[2] == 0x6C;
            assert(r ==> ext@ =~= plugin_extension());
            r
        },
        None => false,
    }
}

} // verus!
