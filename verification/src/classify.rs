//! The text/binary classifier.
//!
//! Classification is a two-stage heuristic.  A fixed whitelist of
//! well-known text extensions and a fixed blacklist of well-known
//! binary extensions decide without any look at the content; for every
//! other extension a bounded sample of leading bytes is inspected for
//! byte-order marks, NUL bytes and binary magic numbers.

use vstd::prelude::*;

use crate::text::{chars_eq_str, chars_of, lower_exec, spec_lower, spec_split, split_exec, subvec,
    views_of};

verus! {

/// Whether the buffer starts with a byte-order mark of a recognized
/// text encoding.
pub open spec fn has_bom(s: Seq<u8>) -> bool {
    ||| (s.len() >= 3 && s[0] == 0xEF && s[1] == 0xBB && s[2] == 0xBF)
    ||| (s.len() >= 4 && s[0] == 0x00 && s[1] == 0x00 && s[2] == 0xFE && s[3] == 0xFF)
    ||| (s.len() >= 4 && s[0] == 0xFF && s[1] == 0xFE && s[2] == 0x00 && s[3] == 0x00)
    ||| (s.len() >= 2 && s[0] == 0xFE && s[1] == 0xFF)
    ||| (s.len() >= 2 && s[0] == 0xFF && s[1] == 0xFE)
}

/// Whether the buffer starts with the magic number of a PDF or PNG
/// file.
pub open spec fn has_magic(s: Seq<u8>) -> bool {
    ||| (s.len() >= 4 && s[0] == 0x25 && s[1] == 0x50 && s[2] == 0x44 && s[3] == 0x46)
    ||| (s.len() >= 4 && s[0] == 0x89 && s[1] == 0x50 && s[2] == 0x4E && s[3] == 0x47)
}

/// Whether a NUL byte occurs among the first 1024 bytes.
pub open spec fn has_nul_in_scan(s: Seq<u8>) -> bool {
    exists|i: int| 0 <= i < s.len() && i < 1024 && s[i] == 0
}

/// Whether a content sample is reported as binary: no recognized
/// byte-order mark, and a NUL byte in the leading scan window or a
/// known binary magic number.
pub open spec fn content_is_binary(s: Seq<u8>) -> bool {
    !has_bom(s) && (has_nul_in_scan(s) || has_magic(s))
}

/// Relies on `content_inspector::inspect`: it reports a buffer as
/// binary exactly when no byte-order mark of a text encoding starts
/// the buffer and either a NUL byte stands among the first 1024 bytes
/// or the buffer starts with the PDF or PNG magic number.
#[verifier::external_body]
fn inspect_is_binary(sample: &[u8]) -> (r: bool)
    ensures
        r == content_is_binary(sample@),
{
    content_inspector::inspect(sample).is_binary()
}

/// Whether a lowered extension is on the whitelist of well-known text
/// formats.
pub open spec fn text_ext(e: Seq<char>) -> bool {
    ||| e == "txt"@
    ||| e == "md"@
    ||| e == "rs"@
    ||| e == "ts"@
    ||| e == "tsx"@
    ||| e == "js"@
    ||| e == "jsx"@
    ||| e == "json"@
    ||| e == "toml"@
    ||| e == "yaml"@
    ||| e == "yml"@
    ||| e == "xml"@
    ||| e == "html"@
    ||| e == "css"@
    ||| e == "scss"@
    ||| e == "less"@
    ||| e == "ini"@
    ||| e == "cfg"@
    ||| e == "log"@
}

/// Whether a lowered extension is on the blacklist of well-known
/// binary formats.
pub open spec fn binary_ext(e: Seq<char>) -> bool {
    ||| e == "png"@
    ||| e == "jpg"@
    ||| e == "jpeg"@
    ||| e == "gif"@
    ||| e == "bmp"@
    ||| e == "webp"@
    ||| e == "ico"@
    ||| e == "svgz"@
    ||| e == "pdf"@
    ||| e == "zip"@
    ||| e == "gz"@
    ||| e == "bz2"@
    ||| e == "xz"@
    ||| e == "7z"@
    ||| e == "rar"@
    ||| e == "tar"@
    ||| e == "wasm"@
    ||| e == "exe"@
    ||| e == "dll"@
    ||| e == "so"@
    ||| e == "dylib"@
    ||| e == "ttf"@
    ||| e == "otf"@
    ||| e == "woff"@
    ||| e == "woff2"@
    ||| e == "mp3"@
    ||| e == "wav"@
    ||| e == "flac"@
    ||| e == "mp4"@
    ||| e == "mkv"@
    ||| e == "mov"@
    ||| e == "avi"@
    ||| e == "heic"@
}

/// The verdict of the extension tables alone: `Some(false)` for a
/// whitelisted text extension, `Some(true)` for a blacklisted binary
/// one, `None` where the tables do not decide.
pub open spec fn ext_class(e: Seq<char>) -> Option<bool> {
    if text_ext(e) {
        Some(false)
    } else if binary_ext(e) {
        Some(true)
    } else {
        None
    }
}

/// Index of the last `.` of `b` strictly before `j` and not in first
/// position, or `-1` when there is none: the dot that separates the
/// extension.
pub open spec fn last_dot_at(b: Seq<char>, j: int) -> int
    decreases j,
{
    if j <= 1 || j > b.len() {
        -1
    } else if b[j - 1] == '.' {
        j - 1
    } else {
        last_dot_at(b, j - 1)
    }
}

/// The lowered extension of the path's last segment, or `None` when
/// it has no extension.
pub open spec fn ext_of(path: Seq<char>) -> Option<Seq<char>> {
    let b = spec_split(path, '/').last();
    let d = last_dot_at(b, b.len() as int);
    if d >= 1 {
        Some(spec_lower(b.subrange(d + 1, b.len() as int)))
    } else {
        None
    }
}

/// The verdict of the extension stage for a whole relative path.
pub open spec fn ext_class_of(path: Seq<char>) -> Option<bool> {
    match ext_of(path) {
        Some(e) => ext_class(e),
        None => None,
    }
}

/// The view of an optional content sample.
pub open spec fn sample_view(o: Option<Vec<u8>>) -> Option<Seq<u8>> {
    match o {
        Some(v) => Some(v@),
        None => None,
    }
}

/// The full classification: the extension tables first, the content
/// sample only where they do not decide; `None` when a sample would
/// be needed but none could be read.
pub open spec fn spec_classify(path: Seq<char>, sample: Option<Seq<u8>>) -> Option<bool> {
    match ext_class_of(path) {
        Some(b) => Some(b),
        None => match sample {
            Some(s) => Some(content_is_binary(s)),
            None => None,
        },
    }
}

fn ext_class_exec(e: &Vec<char>) -> (r: Option<bool>)
    ensures
        r == ext_class(e@),
{
    if chars_eq_str(e, "txt") || chars_eq_str(e, "md") || chars_eq_str(e, "rs") || chars_eq_str(
        e,
        "ts",
    ) || chars_eq_str(e, "tsx") || chars_eq_str(e, "js") || chars_eq_str(e, "jsx") || chars_eq_str(
        e,
        "json",
    ) || chars_eq_str(e, "toml") || chars_eq_str(e, "yaml") || chars_eq_str(e, "yml")
        || chars_eq_str(e, "xml") || chars_eq_str(e, "html") || chars_eq_str(e, "css")
        || chars_eq_str(e, "scss") || chars_eq_str(e, "less") || chars_eq_str(e, "ini")
        || chars_eq_str(e, "cfg") || chars_eq_str(e, "log") {
        Some(false)
    } else if chars_eq_str(e, "png") || chars_eq_str(e, "jpg") || chars_eq_str(e, "jpeg")
        || chars_eq_str(e, "gif") || chars_eq_str(e, "bmp") || chars_eq_str(e, "webp")
        || chars_eq_str(e, "ico") || chars_eq_str(e, "svgz") || chars_eq_str(e, "pdf")
        || chars_eq_str(e, "zip") || chars_eq_str(e, "gz") || chars_eq_str(e, "bz2")
        || chars_eq_str(e, "xz") || chars_eq_str(e, "7z") || chars_eq_str(e, "rar")
        || chars_eq_str(e, "tar") || chars_eq_str(e, "wasm") || chars_eq_str(e, "exe")
        || chars_eq_str(e, "dll") || chars_eq_str(e, "so") || chars_eq_str(e, "dylib")
        || chars_eq_str(e, "ttf") || chars_eq_str(e, "otf") || chars_eq_str(e, "woff")
        || chars_eq_str(e, "woff2") || chars_eq_str(e, "mp3") || chars_eq_str(e, "wav")
        || chars_eq_str(e, "flac") || chars_eq_str(e, "mp4") || chars_eq_str(e, "mkv")
        || chars_eq_str(e, "mov") || chars_eq_str(e, "avi") || chars_eq_str(e, "heic") {
        Some(true)
    } else {
        None
    }
}

/// The extension stage alone; it never looks at any content.
#[verifier::loop_isolation(false)]
pub fn classify_extension(rel_path: &str) -> (r: Option<bool>)
    ensures
        r == ext_class_of(rel_path@),
{
    let chars = chars_of(rel_path);
    let segs = split_exec(&chars, '/');
    proof {
        assert(views_of(segs@).len() >= 1);
        assert(views_of(segs@).last() == segs@[segs@.len() - 1]@);
    }
    let b = &segs[segs.len() - 1];
    let ghost bv = spec_split(rel_path@, '/').last();
    let mut j = b.len();
    while j > 1
        invariant
            j <= b@.len(),
            last_dot_at(bv, b@.len() as int) == last_dot_at(bv, j as int),
        decreases j,
    {
        if b[j - 1] == '.' {
            let e = subvec(b, j, b.len());
            let low = lower_exec(&e);
            proof {
                assert(ext_of(rel_path@) == Some(low@));
            }
            return ext_class_exec(&low);
        }
        j = j - 1;
    }
    proof {
        assert(last_dot_at(bv, bv.len() as int) == -1);
    }
    None
}

/// Classifies one file from its relative path and a sample of its
/// leading bytes: a whitelisted or blacklisted extension decides by
/// itself; otherwise the sample decides.  Deterministic for identical
/// path and sample.
pub fn is_binary_file(rel_path: &str, sample: &[u8]) -> (r: bool)
    ensures
        Some(r) == spec_classify(rel_path@, Some(sample@)),
{
    match classify_extension(rel_path) {
        Some(b) => b,
        None => inspect_is_binary(sample),
    }
}

/// Classifies from an optional sample, as the walker holds it: where
/// the extension does not decide and no sample could be read, the
/// file stays unclassified.
pub fn classify_entry(rel_path: &str, sample: &Option<Vec<u8>>) -> (r: Option<bool>)
    ensures
        r == spec_classify(rel_path@, sample_view(*sample)),
{
    match classify_extension(rel_path) {
        Some(b) => Some(b),
        None => match sample {
            Some(s) => Some(inspect_is_binary(s.as_slice())),
            None => None,
        },
    }
}

/// An extension-table decision never depends on the content: where
/// the tables decide, the classification is the same for every
/// sample, read or unread.
pub proof fn lemma_extension_decides(
    path: Seq<char>,
    s1: Option<Seq<u8>>,
    s2: Option<Seq<u8>>,
    b: bool,
)
    requires
        ext_class_of(path) == Some(b),
    ensures
        spec_classify(path, s1) == Some(b),
        spec_classify(path, s2) == Some(b),
{
}

} // verus!
