//! File descriptors produced by directory scanning, and the coarse file
//! type derived from an extension.

use vstd::prelude::*;
use vstd::string::StrSliceExecFns;

verus! {

/// A file found by a scan, with everything later stages read from it.
#[derive(Clone, Debug, PartialEq)]
pub struct FileItem {
    pub id: String,
    pub path: String,
    pub name: String,
    pub extension: Option<String>,
    pub size: u64,
    pub file_type: FileType,
    pub hash: Option<String>,
    pub created_at: i64,
    pub modified_at: i64,
    pub category: Option<String>,
    pub metadata: FileMetadata,
}

/// The coarse kind of a file, judged by its extension.
#[derive(Clone, Copy, Debug, PartialEq, Eq, Structural)]
pub enum FileType {
    Document,
    Image,
    Video,
    Audio,
    Archive,
    Code,
    Other,
}

/// Optional extra information about a file.
#[derive(Clone, Debug, PartialEq)]
pub struct FileMetadata {
    pub mime_type: Option<String>,
    pub dimensions: Option<(u32, u32)>,
    pub duration: Option<u64>,
    pub preview_text: Option<String>,
}

impl Default for FileMetadata {
    /// No extra information.
    fn default() -> (r: Self)
        ensures
            r.mime_type is None,
            r.dimensions is None,
            r.duration is None,
            r.preview_text is None,
    {
        FileMetadata { mime_type: None, dimensions: None, duration: None, preview_text: None }
    }
}

/// An ASCII uppercase letter folded to lowercase; any other character is
/// left alone.
pub open spec fn ascii_lower_char(c: char) -> char {
    if 65 <= c as u32 && c as u32 <= 90 {
        (((c as u32) + 32) as u8) as char
    } else {
        c
    }
}

/// ASCII case folding of a character sequence.
pub open spec fn lower_chars(s: Seq<char>) -> Seq<char> {
    s.map_values(|c: char| ascii_lower_char(c))
}

/// Whether `a`, folded to ASCII lowercase, is exactly `b`.
fn eq_lower(a: &str, b: &str) -> (r: bool)
    ensures
        r == (lower_chars(a@) == b@),
{
    let an = a.unicode_len();
    let bn = b.unicode_len();
    if an != bn {
        proof {
            assert(lower_chars(a@).len() == a@.len());
        }
        return false;
    }
    let mut i: usize = 0;
    while i < an
        invariant
            i <= an,
            an == a@.len(),
            an == b@.len(),
            forall|k: int| 0 <= k < i ==> ascii_lower_char(#[trigger] a@[k]) == b@[k],
        decreases an - i,
    {
        let ca = a.get_char(i);
        let cu = ca as u32;
        let la: char = if 65 <= cu && cu <= 90 {
            ((cu + 32) as u8) as char
        } else {
            ca
        };
        if la != b.get_char(i) {
            proof {
                assert(lower_chars(a@)[i as int] != b@[i as int]);
            }
            return false;
        }
        i += 1;
    }
    proof {
        assert(lower_chars(a@) =~= b@);
    }
    true
}

/// The type an extension maps to, after ASCII case folding.
pub open spec fn ext_type_spec(s: Seq<char>) -> FileType {
    let l = lower_chars(s);
    if l == "pdf"@ || l == "doc"@ || l == "docx"@ || l == "xls"@ || l == "xlsx"@ || l == "ppt"@
        || l == "pptx"@ || l == "txt"@ || l == "rtf"@ || l == "odt"@ || l == "ods"@ || l
        == "odp"@ {
        FileType::Document
    } else if l == "jpg"@ || l == "jpeg"@ || l == "png"@ || l == "gif"@ || l == "webp"@ || l
        == "svg"@ || l == "bmp"@ || l == "ico"@ || l == "tiff"@ || l == "heic"@ {
        FileType::Image
    } else if l == "mp4"@ || l == "mkv"@ || l == "avi"@ || l == "mov"@ || l == "wmv"@ || l
        == "flv"@ || l == "webm"@ || l == "m4v"@ {
        FileType::Video
    } else if l == "mp3"@ || l == "flac"@ || l == "wav"@ || l == "aac"@ || l == "ogg"@ || l
        == "wma"@ || l == "m4a"@ {
        FileType::Audio
    } else if l == "zip"@ || l == "rar"@ || l == "7z"@ || l == "tar"@ || l == "gz"@ || l == "bz2"@
        || l == "xz"@ {
        FileType::Archive
    } else if l == "js"@ || l == "ts"@ || l == "jsx"@ || l == "tsx"@ || l == "py"@ || l == "rs"@
        || l == "go"@ || l == "java"@ || l == "c"@ || l == "cpp"@ || l == "h"@ || l == "hpp"@ || l
        == "cs"@ || l == "rb"@ || l == "php"@ || l == "swift"@ || l == "kt"@ || l == "scala"@ || l
        == "html"@ || l == "css"@ || l == "scss"@ || l == "json"@ || l == "yaml"@ || l == "yml"@
        || l == "xml"@ || l == "md"@ || l == "sql"@ {
        FileType::Code
    } else {
        FileType::Other
    }
}

impl FileType {
    /// Judge a file's coarse type from its extension, ignoring ASCII case.
    pub fn from_extension(ext: &str) -> (t: FileType)
        ensures
            t == ext_type_spec(ext@),
    {
        if eq_lower(ext, "pdf") || eq_lower(ext, "doc") || eq_lower(ext, "docx") || eq_lower(
            ext,
            "xls",
        ) || eq_lower(ext, "xlsx") || eq_lower(ext, "ppt") || eq_lower(ext, "pptx") || eq_lower(
            ext,
            "txt",
        ) || eq_lower(ext, "rtf") || eq_lower(ext, "odt") || eq_lower(ext, "ods") || eq_lower(
            ext,
            "odp",
        ) {
            FileType::Document
        } else if eq_lower(ext, "jpg") || eq_lower(ext, "jpeg") || eq_lower(ext, "png")
            || eq_lower(ext, "gif") || eq_lower(ext, "webp") || eq_lower(ext, "svg") || eq_lower(
            ext,
            "bmp",
        ) || eq_lower(ext, "ico") || eq_lower(ext, "tiff") || eq_lower(ext, "heic") {
            FileType::Image
        } else if eq_lower(ext, "mp4") || eq_lower(ext, "mkv") || eq_lower(ext, "avi") || eq_lower(
            ext,
            "mov",
        ) || eq_lower(ext, "wmv") || eq_lower(ext, "flv") || eq_lower(ext, "webm") || eq_lower(
            ext,
            "m4v",
        ) {
            FileType::Video
        } else if eq_lower(ext, "mp3") || eq_lower(ext, "flac") || eq_lower(ext, "wav")
            || eq_lower(ext, "aac") || eq_lower(ext, "ogg") || eq_lower(ext, "wma") || eq_lower(
            ext,
            "m4a",
        ) {
            FileType::Audio
        } else if eq_lower(ext, "zip") || eq_lower(ext, "rar") || eq_lower(ext, "7z") || eq_lower(
            ext,
            "tar",
        ) || eq_lower(ext, "gz") || eq_lower(ext, "bz2") || eq_lower(ext, "xz") {
            FileType::Archive
        } else if eq_lower(ext, "js") || eq_lower(ext, "ts") || eq_lower(ext, "jsx") || eq_lower(
            ext,
            "tsx",
        ) || eq_lower(ext, "py") || eq_lower(ext, "rs") || eq_lower(ext, "go") || eq_lower(
            ext,
            "java",
        ) || eq_lower(ext, "c") || eq_lower(ext, "cpp") || eq_lower(ext, "h") || eq_lower(
            ext,
            "hpp",
        ) || eq_lower(ext, "cs") || eq_lower(ext, "rb") || eq_lower(ext, "php") || eq_lower(
            ext,
            "swift",
        ) || eq_lower(ext, "kt") || eq_lower(ext, "scala") || eq_lower(ext, "html") || eq_lower(
            ext,
            "css",
        ) || eq_lower(ext, "scss") || eq_lower(ext, "json") || eq_lower(ext, "yaml") || eq_lower(
            ext,
            "yml",
        ) || eq_lower(ext, "xml") || eq_lower(ext, "md") || eq_lower(ext, "sql") {
            FileType::Code
        } else {
            FileType::Other
        }
    }
}

} // verus!
