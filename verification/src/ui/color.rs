//! Themes, file kinds, icons and the per-path hash that tile colors
//! derive from.
use crate::path::{file_name, spec_file_name};
use crate::text::chars_of;
use crate::tree::Node;
use vstd::prelude::*;
use vstd::utf8::encode_utf8;

verus! {

/// Detected terminal theme. Drives the direction of the selected-tile
/// brightness shift (lighter on dark, darker on light).
#[derive(Clone, Copy, Debug, PartialEq, Eq, Structural)]
pub enum Theme {
    Dark,
    Light,
}

/// Coarse content class for a file, derived from its extension.
/// Single source of truth — icon lookup goes through this; future
/// extension-based coloring would route through this too.
#[derive(Clone, Copy, Debug, PartialEq, Eq, Structural)]
pub enum ExtKind {
    Code,
    Markup,
    Text,
    Image,
    Video,
    Audio,
    Archive,
    Pdf,
    Other,
}

/// Index of the last `.` in `f[..hi]`, or -1.
pub open spec fn last_dot(f: Seq<char>, hi: int) -> int
    decreases hi,
{
    if hi <= 0 {
        -1
    } else if f[hi - 1] == '.' {
        hi - 1
    } else {
        last_dot(f, hi - 1)
    }
}

/// The extension of a file name: what follows its last `.`, provided
/// something precedes that dot.
pub open spec fn spec_extension(name: Seq<char>) -> Option<Seq<char>> {
    match spec_file_name(name) {
        Some(f) => {
            let k = last_dot(f, f.len() as int);
            if k <= 0 {
                None
            } else {
                Some(f.subrange(k + 1, f.len() as int))
            }
        },
        None => None,
    }
}

/// The lowercase form of a text, as `str::to_lowercase` gives it.
pub uninterp spec fn lowercase(s: Seq<char>) -> Seq<char>;

/// `str::to_lowercase`. Its result is the Unicode lowercase mapping of
/// the text, which depends on the text alone (no locale); that mapping is
/// not written out here.
#[verifier::external_body]
fn to_lowercase(s: &str) -> (r: String)
    ensures
        r@ == lowercase(s@),
{
    s.to_lowercase()
}

/// The kind of a file whose lowercased extension is `e`.
pub open spec fn ext_kind(e: Seq<char>) -> ExtKind {
    if e == "rs"@ || e == "go"@ || e == "py"@ || e == "rb"@ || e == "java"@ || e == "kt"@ || e
        == "swift"@ || e == "c"@ || e == "h"@ || e == "cpp"@ || e == "hpp"@ || e == "cc"@ || e
        == "js"@ || e == "mjs"@ || e == "cjs"@ || e == "jsx"@ || e == "ts"@ || e == "tsx"@ || e
        == "lua"@ || e == "pl"@ || e == "sh"@ || e == "bash"@ || e == "zsh"@ || e == "php"@ {
        ExtKind::Code
    } else if e == "html"@ || e == "htm"@ || e == "xml"@ || e == "svg"@ || e == "css"@ || e
        == "scss"@ || e == "sass"@ || e == "less"@ {
        ExtKind::Markup
    } else if e == "md"@ || e == "mdx"@ || e == "txt"@ || e == "rst"@ || e == "adoc"@ || e
        == "asciidoc"@ || e == "json"@ || e == "yaml"@ || e == "yml"@ || e == "toml"@ || e
        == "csv"@ || e == "tsv"@ || e == "ini"@ || e == "conf"@ || e == "log"@ {
        ExtKind::Text
    } else if e == "png"@ || e == "jpg"@ || e == "jpeg"@ || e == "gif"@ || e == "webp"@ || e
        == "bmp"@ || e == "tiff"@ || e == "ico"@ || e == "psd"@ || e == "ai"@ {
        ExtKind::Image
    } else if e == "mp4"@ || e == "mov"@ || e == "mkv"@ || e == "avi"@ || e == "webm"@ || e
        == "flv"@ {
        ExtKind::Video
    } else if e == "mp3"@ || e == "wav"@ || e == "flac"@ || e == "ogg"@ || e == "m4a"@ || e
        == "aac"@ {
        ExtKind::Audio
    } else if e == "zip"@ || e == "tar"@ || e == "gz"@ || e == "bz2"@ || e == "xz"@ || e
        == "7z"@ || e == "rar"@ || e == "dmg"@ || e == "iso"@ || e == "pkg"@ || e == "deb"@
        || e == "rpm"@ {
        ExtKind::Archive
    } else if e == "pdf"@ {
        ExtKind::Pdf
    } else {
        ExtKind::Other
    }
}

/// `v` holds exactly the characters of `w`.
fn is_word(v: &Vec<char>, w: &str) -> (r: bool)
    ensures
        r == (v@ == w@),
{
    let wc = chars_of(w);
    if wc.len() != v.len() {
        return false;
    }
    let n = v.len();
    let mut i: usize = 0;
    while i < n
        invariant
            n == v@.len(),
            n == wc@.len(),
            wc@ == w@,
            i <= n,
            forall|j: int| 0 <= j < i ==> v@[j] == wc@[j],
        decreases n - i,
    {
        if v[i] != wc[i] {
            return false;
        }
        i = i + 1;
    }
    proof {
        assert(v@ =~= wc@);
    }
    true
}

/// The kind of a file from its already lowercased extension.
pub fn kind_of_extension(ext: &str) -> (k: ExtKind)
    ensures
        k == ext_kind(ext@),
{
    let e = chars_of(ext);
    if is_word(&e, "rs") || is_word(&e, "go") || is_word(&e, "py") || is_word(&e, "rb")
        || is_word(&e, "java") || is_word(&e, "kt") || is_word(&e, "swift") || is_word(&e, "c")
        || is_word(&e, "h") || is_word(&e, "cpp") || is_word(&e, "hpp") || is_word(&e, "cc")
        || is_word(&e, "js") || is_word(&e, "mjs") || is_word(&e, "cjs") || is_word(&e, "jsx")
        || is_word(&e, "ts") || is_word(&e, "tsx") || is_word(&e, "lua") || is_word(&e, "pl")
        || is_word(&e, "sh") || is_word(&e, "bash") || is_word(&e, "zsh") || is_word(&e, "php") {
        ExtKind::Code
    } else if is_word(&e, "html") || is_word(&e, "htm") || is_word(&e, "xml") || is_word(
        &e,
        "svg",
    ) || is_word(&e, "css") || is_word(&e, "scss") || is_word(&e, "sass") || is_word(
        &e,
        "less",
    ) {
        ExtKind::Markup
    } else if is_word(&e, "md") || is_word(&e, "mdx") || is_word(&e, "txt") || is_word(&e, "rst")
        || is_word(&e, "adoc") || is_word(&e, "asciidoc") || is_word(&e, "json") || is_word(
        &e,
        "yaml",
    ) || is_word(&e, "yml") || is_word(&e, "toml") || is_word(&e, "csv") || is_word(&e, "tsv")
        || is_word(&e, "ini") || is_word(&e, "conf") || is_word(&e, "log") {
        ExtKind::Text
    } else if is_word(&e, "png") || is_word(&e, "jpg") || is_word(&e, "jpeg") || is_word(&e, "gif")
        || is_word(&e, "webp") || is_word(&e, "bmp") || is_word(&e, "tiff") || is_word(&e, "ico")
        || is_word(&e, "psd") || is_word(&e, "ai") {
        ExtKind::Image
    } else if is_word(&e, "mp4") || is_word(&e, "mov") || is_word(&e, "mkv") || is_word(&e, "avi")
        || is_word(&e, "webm") || is_word(&e, "flv") {
        ExtKind::Video
    } else if is_word(&e, "mp3") || is_word(&e, "wav") || is_word(&e, "flac") || is_word(&e, "ogg")
        || is_word(&e, "m4a") || is_word(&e, "aac") {
        ExtKind::Audio
    } else if is_word(&e, "zip") || is_word(&e, "tar") || is_word(&e, "gz") || is_word(&e, "bz2")
        || is_word(&e, "xz") || is_word(&e, "7z") || is_word(&e, "rar") || is_word(&e, "dmg")
        || is_word(&e, "iso") || is_word(&e, "pkg") || is_word(&e, "deb") || is_word(&e, "rpm") {
        ExtKind::Archive
    } else if is_word(&e, "pdf") {
        ExtKind::Pdf
    } else {
        ExtKind::Other
    }
}

/// The extension of the file name `name`, when it has one.
pub fn extension(name: &str) -> (r: Option<String>)
    ensures
        match r {
            Some(e) => spec_extension(name@) == Some(e@),
            None => spec_extension(name@) is None,
        },
{
    match file_name(name) {
        None => None,
        Some(f) => {
            let c = chars_of(f.as_str());
            let mut hi: usize = c.len();
            while hi > 0 && c[hi - 1] != '.'
                invariant
                    hi <= c@.len(),
                    c@ == f@,
                    last_dot(c@, c@.len() as int) == last_dot(c@, hi as int),
                decreases hi,
            {
                hi = hi - 1;
            }
            // `hi` is one past the last dot, or 0 when there is none.
            if hi <= 1 {
                None
            } else {
                Some(f.as_str().substring_char(hi, c.len()).to_owned())
            }
        },
    }
}

/// Coarse content class of a file name, from its extension compared
/// without regard to case.
pub fn classify(name: &str) -> (k: ExtKind)
    ensures
        k == match spec_extension(name@) {
            Some(e) => ext_kind(lowercase(e)),
            None => ExtKind::Other,
        },
{
    match extension(name) {
        Some(e) => {
            let lower = to_lowercase(e.as_str());
            kind_of_extension(lower.as_str())
        },
        None => ExtKind::Other,
    }
}

/// The glyph for each kind of node (Font Awesome codepoints that ship with
/// every patched Nerd Font).
pub open spec fn icon_text(node: Node, kind: ExtKind) -> Seq<char> {
    if node.is_link {
        "\u{f0c1}"@
    } else if node.is_dir {
        "\u{f07b}"@
    } else {
        match kind {
            ExtKind::Code => "\u{f1c9}"@,
            ExtKind::Markup => "\u{f13b}"@,
            ExtKind::Text => "\u{f15c}"@,
            ExtKind::Image => "\u{f1c5}"@,
            ExtKind::Video => "\u{f1c8}"@,
            ExtKind::Audio => "\u{f1c7}"@,
            ExtKind::Archive => "\u{f1c6}"@,
            ExtKind::Pdf => "\u{f1c1}"@,
            ExtKind::Other => "\u{f15b}"@,
        }
    }
}

/// The kind a file's name gives it (see `classify`).
pub open spec fn name_kind(name: Seq<char>) -> ExtKind {
    match spec_extension(name) {
        Some(e) => ext_kind(lowercase(e)),
        None => ExtKind::Other,
    }
}

/// Nerd Font glyph for a node, hardcoded against Font Awesome codepoints
/// that ship with every patched Nerd Font. Falls back to a generic file
/// icon for unknown extensions.
pub fn icon_for(node: &Node) -> (r: &'static str)
    ensures
        r@ == icon_text(*node, name_kind(node.name@)),
{
    if node.is_link {
        return "\u{f0c1}";
    }
    if node.is_dir {
        return "\u{f07b}";
    }
    match classify(node.name.as_str()) {
        ExtKind::Code => "\u{f1c9}",
        ExtKind::Markup => "\u{f13b}",
        ExtKind::Text => "\u{f15c}",
        ExtKind::Image => "\u{f1c5}",
        ExtKind::Video => "\u{f1c8}",
        ExtKind::Audio => "\u{f1c7}",
        ExtKind::Archive => "\u{f1c6}",
        ExtKind::Pdf => "\u{f1c1}",
        ExtKind::Other => "\u{f15b}",
    }
}

/// One FNV-1a step: mix in a byte, then multiply by the prime, modulo 2^32.
pub open spec fn fnv_step(h: u32, b: u8) -> u32 {
    (((h ^ (b as u32)) as nat * 16777619nat) % 0x1_0000_0000nat) as u32
}

/// 32-bit FNV-1a of a byte string.
pub open spec fn fnv(bytes: Seq<u8>) -> u32
    decreases bytes.len(),
{
    if bytes.len() == 0 {
        2166136261u32
    } else {
        fnv_step(fnv(bytes.drop_last()), bytes.last())
    }
}

/// 32-bit FNV-1a hash of the UTF-8 bytes of `s`.
pub fn fnv_hash(s: &str) -> (h: u32)
    ensures
        h == fnv(encode_utf8(s@)),
{
    let bytes = s.as_bytes();
    let n = bytes.len();
    let mut h: u32 = 2166136261;
    let mut i: usize = 0;
    proof {
        assert(bytes@.take(0) =~= Seq::<u8>::empty());
    }
    while i < n
        invariant
            n == bytes@.len(),
            i <= n,
            h == fnv(bytes@.take(i as int)),
        decreases n - i,
    {
        proof {
            assert(bytes@.take(i + 1).drop_last() =~= bytes@.take(i as int));
            assert(bytes@.take(i + 1).last() == bytes@[i as int]);
        }
        h = h ^ (bytes[i] as u32);
        h = h.wrapping_mul(16777619);
        i = i + 1;
    }
    proof {
        assert(bytes@.take(n as int) =~= bytes@);
    }
    h
}

/// The extensions the file-kind table lists for `k`.
pub open spec fn listed_extensions(k: ExtKind) -> Set<Seq<char>> {
    match k {
        ExtKind::Code => set!["rs"@, "go"@, "py"@, "rb"@, "java"@, "kt"@, "swift"@, "c"@, "h"@, "cpp"@, "hpp"@, "cc"@, "js"@, "mjs"@, "cjs"@, "jsx"@, "ts"@, "tsx"@, "lua"@, "pl"@, "sh"@, "bash"@, "zsh"@, "php"@],
        ExtKind::Markup => set!["html"@, "htm"@, "xml"@, "svg"@, "css"@, "scss"@, "sass"@, "less"@],
        ExtKind::Text => set!["md"@, "mdx"@, "txt"@, "rst"@, "adoc"@, "asciidoc"@, "json"@, "yaml"@, "yml"@, "toml"@, "csv"@, "tsv"@, "ini"@, "conf"@, "log"@],
        ExtKind::Image => set!["png"@, "jpg"@, "jpeg"@, "gif"@, "webp"@, "bmp"@, "tiff"@, "ico"@, "psd"@, "ai"@],
        ExtKind::Video => set!["mp4"@, "mov"@, "mkv"@, "avi"@, "webm"@, "flv"@],
        ExtKind::Audio => set!["mp3"@, "wav"@, "flac"@, "ogg"@, "m4a"@, "aac"@],
        ExtKind::Archive => set!["zip"@, "tar"@, "gz"@, "bz2"@, "xz"@, "7z"@, "rar"@, "dmg"@, "iso"@, "pkg"@, "deb"@, "rpm"@],
        ExtKind::Pdf => set!["pdf"@],
        ExtKind::Other => Set::empty(),
    }
}

/// The code extensions of the table.
proof fn lemma_table_code()
    ensures
        ext_kind("rs"@) == ExtKind::Code,
        ext_kind("go"@) == ExtKind::Code,
        ext_kind("py"@) == ExtKind::Code,
        ext_kind("rb"@) == ExtKind::Code,
        ext_kind("java"@) == ExtKind::Code,
        ext_kind("kt"@) == ExtKind::Code,
        ext_kind("swift"@) == ExtKind::Code,
        ext_kind("c"@) == ExtKind::Code,
        ext_kind("h"@) == ExtKind::Code,
        ext_kind("cpp"@) == ExtKind::Code,
        ext_kind("hpp"@) == ExtKind::Code,
        ext_kind("cc"@) == ExtKind::Code,
        ext_kind("js"@) == ExtKind::Code,
        ext_kind("mjs"@) == ExtKind::Code,
        ext_kind("cjs"@) == ExtKind::Code,
        ext_kind("jsx"@) == ExtKind::Code,
        ext_kind("ts"@) == ExtKind::Code,
        ext_kind("tsx"@) == ExtKind::Code,
        ext_kind("lua"@) == ExtKind::Code,
        ext_kind("pl"@) == ExtKind::Code,
        ext_kind("sh"@) == ExtKind::Code,
        ext_kind("bash"@) == ExtKind::Code,
        ext_kind("zsh"@) == ExtKind::Code,
        ext_kind("php"@) == ExtKind::Code,
{
    reveal_strlit("rs");
    reveal_strlit("go");
    reveal_strlit("py");
    reveal_strlit("rb");
    reveal_strlit("java");
    reveal_strlit("kt");
    reveal_strlit("swift");
    reveal_strlit("c");
    reveal_strlit("h");
    reveal_strlit("cpp");
    reveal_strlit("hpp");
    reveal_strlit("cc");
    reveal_strlit("js");
    reveal_strlit("mjs");
    reveal_strlit("cjs");
    reveal_strlit("jsx");
    reveal_strlit("ts");
    reveal_strlit("tsx");
    reveal_strlit("lua");
    reveal_strlit("pl");
    reveal_strlit("sh");
    reveal_strlit("bash");
    reveal_strlit("zsh");
    reveal_strlit("php");
    assert(ext_kind("rs"@) == ExtKind::Code);
    assert(ext_kind("go"@) == ExtKind::Code);
    assert(ext_kind("py"@) == ExtKind::Code);
    assert(ext_kind("rb"@) == ExtKind::Code);
    assert(ext_kind("java"@) == ExtKind::Code);
    assert(ext_kind("kt"@) == ExtKind::Code);
    assert(ext_kind("swift"@) == ExtKind::Code);
    assert(ext_kind("c"@) == ExtKind::Code);
    assert(ext_kind("h"@) == ExtKind::Code);
    assert(ext_kind("cpp"@) == ExtKind::Code);
    assert(ext_kind("hpp"@) == ExtKind::Code);
    assert(ext_kind("cc"@) == ExtKind::Code);
    assert(ext_kind("js"@) == ExtKind::Code);
    assert(ext_kind("mjs"@) == ExtKind::Code);
    assert(ext_kind("cjs"@) == ExtKind::Code);
    assert(ext_kind("jsx"@) == ExtKind::Code);
    assert(ext_kind("ts"@) == ExtKind::Code);
    assert(ext_kind("tsx"@) == ExtKind::Code);
    assert(ext_kind("lua"@) == ExtKind::Code);
    assert(ext_kind("pl"@) == ExtKind::Code);
    assert(ext_kind("sh"@) == ExtKind::Code);
    assert(ext_kind("bash"@) == ExtKind::Code);
    assert(ext_kind("zsh"@) == ExtKind::Code);
    assert(ext_kind("php"@) == ExtKind::Code);
}

/// The markup extensions of the table.
proof fn lemma_table_markup()
    ensures
        ext_kind("html"@) == ExtKind::Markup,
        ext_kind("htm"@) == ExtKind::Markup,
        ext_kind("xml"@) == ExtKind::Markup,
        ext_kind("svg"@) == ExtKind::Markup,
        ext_kind("css"@) == ExtKind::Markup,
        ext_kind("scss"@) == ExtKind::Markup,
        ext_kind("sass"@) == ExtKind::Markup,
        ext_kind("less"@) == ExtKind::Markup,
{
    reveal_strlit("html");
    reveal_strlit("htm");
    reveal_strlit("xml");
    reveal_strlit("svg");
    reveal_strlit("css");
    reveal_strlit("scss");
    reveal_strlit("sass");
    reveal_strlit("less");
    reveal_strlit("rs");
    reveal_strlit("go");
    reveal_strlit("py");
    reveal_strlit("rb");
    reveal_strlit("java");
    reveal_strlit("kt");
    reveal_strlit("swift");
    reveal_strlit("c");
    reveal_strlit("h");
    reveal_strlit("cpp");
    reveal_strlit("hpp");
    reveal_strlit("cc");
    reveal_strlit("js");
    reveal_strlit("mjs");
    reveal_strlit("cjs");
    reveal_strlit("jsx");
    reveal_strlit("ts");
    reveal_strlit("tsx");
    reveal_strlit("lua");
    reveal_strlit("pl");
    reveal_strlit("sh");
    reveal_strlit("bash");
    reveal_strlit("zsh");
    reveal_strlit("php");
    assert("html"@ != "rs"@) by { assert("html"@.len() != "rs"@.len()); }
    assert("html"@ != "go"@) by { assert("html"@.len() != "go"@.len()); }
    assert("html"@ != "py"@) by { assert("html"@.len() != "py"@.len()); }
    assert("html"@ != "rb"@) by { assert("html"@.len() != "rb"@.len()); }
    assert("html"@ != "java"@) by { assert("html"@[0] != "java"@[0]); }
    assert("html"@ != "kt"@) by { assert("html"@.len() != "kt"@.len()); }
    assert("html"@ != "swift"@) by { assert("html"@.len() != "swift"@.len()); }
    assert("html"@ != "c"@) by { assert("html"@.len() != "c"@.len()); }
    assert("html"@ != "h"@) by { assert("html"@.len() != "h"@.len()); }
    assert("html"@ != "cpp"@) by { assert("html"@.len() != "cpp"@.len()); }
    assert("html"@ != "hpp"@) by { assert("html"@.len() != "hpp"@.len()); }
    assert("html"@ != "cc"@) by { assert("html"@.len() != "cc"@.len()); }
    assert("html"@ != "js"@) by { assert("html"@.len() != "js"@.len()); }
    assert("html"@ != "mjs"@) by { assert("html"@.len() != "mjs"@.len()); }
    assert("html"@ != "cjs"@) by { assert("html"@.len() != "cjs"@.len()); }
    assert("html"@ != "jsx"@) by { assert("html"@.len() != "jsx"@.len()); }
    assert("html"@ != "ts"@) by { assert("html"@.len() != "ts"@.len()); }
    assert("html"@ != "tsx"@) by { assert("html"@.len() != "tsx"@.len()); }
    assert("html"@ != "lua"@) by { assert("html"@.len() != "lua"@.len()); }
    assert("html"@ != "pl"@) by { assert("html"@.len() != "pl"@.len()); }
    assert("html"@ != "sh"@) by { assert("html"@.len() != "sh"@.len()); }
    assert("html"@ != "bash"@) by { assert("html"@[0] != "bash"@[0]); }
    assert("html"@ != "zsh"@) by { assert("html"@.len() != "zsh"@.len()); }
    assert("html"@ != "php"@) by { assert("html"@.len() != "php"@.len()); }
    assert(ext_kind("html"@) == ExtKind::Markup);
    assert("htm"@ != "rs"@) by { assert("htm"@.len() != "rs"@.len()); }
    assert("htm"@ != "go"@) by { assert("htm"@.len() != "go"@.len()); }
    assert("htm"@ != "py"@) by { assert("htm"@.len() != "py"@.len()); }
    assert("htm"@ != "rb"@) by { assert("htm"@.len() != "rb"@.len()); }
    assert("htm"@ != "java"@) by { assert("htm"@.len() != "java"@.len()); }
    assert("htm"@ != "kt"@) by { assert("htm"@.len() != "kt"@.len()); }
    assert("htm"@ != "swift"@) by { assert("htm"@.len() != "swift"@.len()); }
    assert("htm"@ != "c"@) by { assert("htm"@.len() != "c"@.len()); }
    assert("htm"@ != "h"@) by { assert("htm"@.len() != "h"@.len()); }
    assert("htm"@ != "cpp"@) by { assert("htm"@[0] != "cpp"@[0]); }
    assert("htm"@ != "hpp"@) by { assert("htm"@[1] != "hpp"@[1]); }
    assert("htm"@ != "cc"@) by { assert("htm"@.len() != "cc"@.len()); }
    assert("htm"@ != "js"@) by { assert("htm"@.len() != "js"@.len()); }
    assert("htm"@ != "mjs"@) by { assert("htm"@[0] != "mjs"@[0]); }
    assert("htm"@ != "cjs"@) by { assert("htm"@[0] != "cjs"@[0]); }
    assert("htm"@ != "jsx"@) by { assert("htm"@[0] != "jsx"@[0]); }
    assert("htm"@ != "ts"@) by { assert("htm"@.len() != "ts"@.len()); }
    assert("htm"@ != "tsx"@) by { assert("htm"@[0] != "tsx"@[0]); }
    assert("htm"@ != "lua"@) by { assert("htm"@[0] != "lua"@[0]); }
    assert("htm"@ != "pl"@) by { assert("htm"@.len() != "pl"@.len()); }
    assert("htm"@ != "sh"@) by { assert("htm"@.len() != "sh"@.len()); }
    assert("htm"@ != "bash"@) by { assert("htm"@.len() != "bash"@.len()); }
    assert("htm"@ != "zsh"@) by { assert("htm"@[0] != "zsh"@[0]); }
    assert("htm"@ != "php"@) by { assert("htm"@[0] != "php"@[0]); }
    assert(ext_kind("htm"@) == ExtKind::Markup);
    assert("xml"@ != "rs"@) by { assert("xml"@.len() != "rs"@.len()); }
    assert("xml"@ != "go"@) by { assert("xml"@.len() != "go"@.len()); }
    assert("xml"@ != "py"@) by { assert("xml"@.len() != "py"@.len()); }
    assert("xml"@ != "rb"@) by { assert("xml"@.len() != "rb"@.len()); }
    assert("xml"@ != "java"@) by { assert("xml"@.len() != "java"@.len()); }
    assert("xml"@ != "kt"@) by { assert("xml"@.len() != "kt"@.len()); }
    assert("xml"@ != "swift"@) by { assert("xml"@.len() != "swift"@.len()); }
    assert("xml"@ != "c"@) by { assert("xml"@.len() != "c"@.len()); }
    assert("xml"@ != "h"@) by { assert("xml"@.len() != "h"@.len()); }
    assert("xml"@ != "cpp"@) by { assert("xml"@[0] != "cpp"@[0]); }
    assert("xml"@ != "hpp"@) by { assert("xml"@[0] != "hpp"@[0]); }
    assert("xml"@ != "cc"@) by { assert("xml"@.len() != "cc"@.len()); }
    assert("xml"@ != "js"@) by { assert("xml"@.len() != "js"@.len()); }
    assert("xml"@ != "mjs"@) by { assert("xml"@[0] != "mjs"@[0]); }
    assert("xml"@ != "cjs"@) by { assert("xml"@[0] != "cjs"@[0]); }
    assert("xml"@ != "jsx"@) by { assert("xml"@[0] != "jsx"@[0]); }
    assert("xml"@ != "ts"@) by { assert("xml"@.len() != "ts"@.len()); }
    assert("xml"@ != "tsx"@) by { assert("xml"@[0] != "tsx"@[0]); }
    assert("xml"@ != "lua"@) by { assert("xml"@[0] != "lua"@[0]); }
    assert("xml"@ != "pl"@) by { assert("xml"@.len() != "pl"@.len()); }
    assert("xml"@ != "sh"@) by { assert("xml"@.len() != "sh"@.len()); }
    assert("xml"@ != "bash"@) by { assert("xml"@.len() != "bash"@.len()); }
    assert("xml"@ != "zsh"@) by { assert("xml"@[0] != "zsh"@[0]); }
    assert("xml"@ != "php"@) by { assert("xml"@[0] != "php"@[0]); }
    assert(ext_kind("xml"@) == ExtKind::Markup);
    assert("svg"@ != "rs"@) by { assert("svg"@.len() != "rs"@.len()); }
    assert("svg"@ != "go"@) by { assert("svg"@.len() != "go"@.len()); }
    assert("svg"@ != "py"@) by { assert("svg"@.len() != "py"@.len()); }
    assert("svg"@ != "rb"@) by { assert("svg"@.len() != "rb"@.len()); }
    assert("svg"@ != "java"@) by { assert("svg"@.len() != "java"@.len()); }
    assert("svg"@ != "kt"@) by { assert("svg"@.len() != "kt"@.len()); }
    assert("svg"@ != "swift"@) by { assert("svg"@.len() != "swift"@.len()); }
    assert("svg"@ != "c"@) by { assert("svg"@.len() != "c"@.len()); }
    assert("svg"@ != "h"@) by { assert("svg"@.len() != "h"@.len()); }
    assert("svg"@ != "cpp"@) by { assert("svg"@[0] != "cpp"@[0]); }
    assert("svg"@ != "hpp"@) by { assert("svg"@[0] != "hpp"@[0]); }
    assert("svg"@ != "cc"@) by { assert("svg"@.len() != "cc"@.len()); }
    assert("svg"@ != "js"@) by { assert("svg"@.len() != "js"@.len()); }
    assert("svg"@ != "mjs"@) by { assert("svg"@[0] != "mjs"@[0]); }
    assert("svg"@ != "cjs"@) by { assert("svg"@[0] != "cjs"@[0]); }
    assert("svg"@ != "jsx"@) by { assert("svg"@[0] != "jsx"@[0]); }
    assert("svg"@ != "ts"@) by { assert("svg"@.len() != "ts"@.len()); }
    assert("svg"@ != "tsx"@) by { assert("svg"@[0] != "tsx"@[0]); }
    assert("svg"@ != "lua"@) by { assert("svg"@[0] != "lua"@[0]); }
    assert("svg"@ != "pl"@) by { assert("svg"@.len() != "pl"@.len()); }
    assert("svg"@ != "sh"@) by { assert("svg"@.len() != "sh"@.len()); }
    assert("svg"@ != "bash"@) by { assert("svg"@.len() != "bash"@.len()); }
    assert("svg"@ != "zsh"@) by { assert("svg"@[0] != "zsh"@[0]); }
    assert("svg"@ != "php"@) by { assert("svg"@[0] != "php"@[0]); }
    assert(ext_kind("svg"@) == ExtKind::Markup);
    assert("css"@ != "rs"@) by { assert("css"@.len() != "rs"@.len()); }
    assert("css"@ != "go"@) by { assert("css"@.len() != "go"@.len()); }
    assert("css"@ != "py"@) by { assert("css"@.len() != "py"@.len()); }
    assert("css"@ != "rb"@) by { assert("css"@.len() != "rb"@.len()); }
    assert("css"@ != "java"@) by { assert("css"@.len() != "java"@.len()); }
    assert("css"@ != "kt"@) by { assert("css"@.len() != "kt"@.len()); }
    assert("css"@ != "swift"@) by { assert("css"@.len() != "swift"@.len()); }
    assert("css"@ != "c"@) by { assert("css"@.len() != "c"@.len()); }
    assert("css"@ != "h"@) by { assert("css"@.len() != "h"@.len()); }
    assert("css"@ != "cpp"@) by { assert("css"@[1] != "cpp"@[1]); }
    assert("css"@ != "hpp"@) by { assert("css"@[0] != "hpp"@[0]); }
    assert("css"@ != "cc"@) by { assert("css"@.len() != "cc"@.len()); }
    assert("css"@ != "js"@) by { assert("css"@.len() != "js"@.len()); }
    assert("css"@ != "mjs"@) by { assert("css"@[0] != "mjs"@[0]); }
    assert("css"@ != "cjs"@) by { assert("css"@[1] != "cjs"@[1]); }
    assert("css"@ != "jsx"@) by { assert("css"@[0] != "jsx"@[0]); }
    assert("css"@ != "ts"@) by { assert("css"@.len() != "ts"@.len()); }
    assert("css"@ != "tsx"@) by { assert("css"@[0] != "tsx"@[0]); }
    assert("css"@ != "lua"@) by { assert("css"@[0] != "lua"@[0]); }
    assert("css"@ != "pl"@) by { assert("css"@.len() != "pl"@.len()); }
    assert("css"@ != "sh"@) by { assert("css"@.len() != "sh"@.len()); }
    assert("css"@ != "bash"@) by { assert("css"@.len() != "bash"@.len()); }
    assert("css"@ != "zsh"@) by { assert("css"@[0] != "zsh"@[0]); }
    assert("css"@ != "php"@) by { assert("css"@[0] != "php"@[0]); }
    assert(ext_kind("css"@) == ExtKind::Markup);
    assert("scss"@ != "rs"@) by { assert("scss"@.len() != "rs"@.len()); }
    assert("scss"@ != "go"@) by { assert("scss"@.len() != "go"@.len()); }
    assert("scss"@ != "py"@) by { assert("scss"@.len() != "py"@.len()); }
    assert("scss"@ != "rb"@) by { assert("scss"@.len() != "rb"@.len()); }
    assert("scss"@ != "java"@) by { assert("scss"@[0] != "java"@[0]); }
    assert("scss"@ != "kt"@) by { assert("scss"@.len() != "kt"@.len()); }
    assert("scss"@ != "swift"@) by { assert("scss"@.len() != "swift"@.len()); }
    assert("scss"@ != "c"@) by { assert("scss"@.len() != "c"@.len()); }
    assert("scss"@ != "h"@) by { assert("scss"@.len() != "h"@.len()); }
    assert("scss"@ != "cpp"@) by { assert("scss"@.len() != "cpp"@.len()); }
    assert("scss"@ != "hpp"@) by { assert("scss"@.len() != "hpp"@.len()); }
    assert("scss"@ != "cc"@) by { assert("scss"@.len() != "cc"@.len()); }
    assert("scss"@ != "js"@) by { assert("scss"@.len() != "js"@.len()); }
    assert("scss"@ != "mjs"@) by { assert("scss"@.len() != "mjs"@.len()); }
    assert("scss"@ != "cjs"@) by { assert("scss"@.len() != "cjs"@.len()); }
    assert("scss"@ != "jsx"@) by { assert("scss"@.len() != "jsx"@.len()); }
    assert("scss"@ != "ts"@) by { assert("scss"@.len() != "ts"@.len()); }
    assert("scss"@ != "tsx"@) by { assert("scss"@.len() != "tsx"@.len()); }
    assert("scss"@ != "lua"@) by { assert("scss"@.len() != "lua"@.len()); }
    assert("scss"@ != "pl"@) by { assert("scss"@.len() != "pl"@.len()); }
    assert("scss"@ != "sh"@) by { assert("scss"@.len() != "sh"@.len()); }
    assert("scss"@ != "bash"@) by { assert("scss"@[0] != "bash"@[0]); }
    assert("scss"@ != "zsh"@) by { assert("scss"@.len() != "zsh"@.len()); }
    assert("scss"@ != "php"@) by { assert("scss"@.len() != "php"@.len()); }
    assert(ext_kind("scss"@) == ExtKind::Markup);
    assert("sass"@ != "rs"@) by { assert("sass"@.len() != "rs"@.len()); }
    assert("sass"@ != "go"@) by { assert("sass"@.len() != "go"@.len()); }
    assert("sass"@ != "py"@) by { assert("sass"@.len() != "py"@.len()); }
    assert("sass"@ != "rb"@) by { assert("sass"@.len() != "rb"@.len()); }
    assert("sass"@ != "java"@) by { assert("sass"@[0] != "java"@[0]); }
    assert("sass"@ != "kt"@) by { assert("sass"@.len() != "kt"@.len()); }
    assert("sass"@ != "swift"@) by { assert("sass"@.len() != "swift"@.len()); }
    assert("sass"@ != "c"@) by { assert("sass"@.len() != "c"@.len()); }
    assert("sass"@ != "h"@) by { assert("sass"@.len() != "h"@.len()); }
    assert("sass"@ != "cpp"@) by { assert("sass"@.len() != "cpp"@.len()); }
    assert("sass"@ != "hpp"@) by { assert("sass"@.len() != "hpp"@.len()); }
    assert("sass"@ != "cc"@) by { assert("sass"@.len() != "cc"@.len()); }
    assert("sass"@ != "js"@) by { assert("sass"@.len() != "js"@.len()); }
    assert("sass"@ != "mjs"@) by { assert("sass"@.len() != "mjs"@.len()); }
    assert("sass"@ != "cjs"@) by { assert("sass"@.len() != "cjs"@.len()); }
    assert("sass"@ != "jsx"@) by { assert("sass"@.len() != "jsx"@.len()); }
    assert("sass"@ != "ts"@) by { assert("sass"@.len() != "ts"@.len()); }
    assert("sass"@ != "tsx"@) by { assert("sass"@.len() != "tsx"@.len()); }
    assert("sass"@ != "lua"@) by { assert("sass"@.len() != "lua"@.len()); }
    assert("sass"@ != "pl"@) by { assert("sass"@.len() != "pl"@.len()); }
    assert("sass"@ != "sh"@) by { assert("sass"@.len() != "sh"@.len()); }
    assert("sass"@ != "bash"@) by { assert("sass"@[0] != "bash"@[0]); }
    assert("sass"@ != "zsh"@) by { assert("sass"@.len() != "zsh"@.len()); }
    assert("sass"@ != "php"@) by { assert("sass"@.len() != "php"@.len()); }
    assert(ext_kind("sass"@) == ExtKind::Markup);
    assert("less"@ != "rs"@) by { assert("less"@.len() != "rs"@.len()); }
    assert("less"@ != "go"@) by { assert("less"@.len() != "go"@.len()); }
    assert("less"@ != "py"@) by { assert("less"@.len() != "py"@.len()); }
    assert("less"@ != "rb"@) by { assert("less"@.len() != "rb"@.len()); }
    assert("less"@ != "java"@) by { assert("less"@[0] != "java"@[0]); }
    assert("less"@ != "kt"@) by { assert("less"@.len() != "kt"@.len()); }
    assert("less"@ != "swift"@) by { assert("less"@.len() != "swift"@.len()); }
    assert("less"@ != "c"@) by { assert("less"@.len() != "c"@.len()); }
    assert("less"@ != "h"@) by { assert("less"@.len() != "h"@.len()); }
    assert("less"@ != "cpp"@) by { assert("less"@.len() != "cpp"@.len()); }
    assert("less"@ != "hpp"@) by { assert("less"@.len() != "hpp"@.len()); }
    assert("less"@ != "cc"@) by { assert("less"@.len() != "cc"@.len()); }
    assert("less"@ != "js"@) by { assert("less"@.len() != "js"@.len()); }
    assert("less"@ != "mjs"@) by { assert("less"@.len() != "mjs"@.len()); }
    assert("less"@ != "cjs"@) by { assert("less"@.len() != "cjs"@.len()); }
    assert("less"@ != "jsx"@) by { assert("less"@.len() != "jsx"@.len()); }
    assert("less"@ != "ts"@) by { assert("less"@.len() != "ts"@.len()); }
    assert("less"@ != "tsx"@) by { assert("less"@.len() != "tsx"@.len()); }
    assert("less"@ != "lua"@) by { assert("less"@.len() != "lua"@.len()); }
    assert("less"@ != "pl"@) by { assert("less"@.len() != "pl"@.len()); }
    assert("less"@ != "sh"@) by { assert("less"@.len() != "sh"@.len()); }
    assert("less"@ != "bash"@) by { assert("less"@[0] != "bash"@[0]); }
    assert("less"@ != "zsh"@) by { assert("less"@.len() != "zsh"@.len()); }
    assert("less"@ != "php"@) by { assert("less"@.len() != "php"@.len()); }
    assert(ext_kind("less"@) == ExtKind::Markup);
}

/// The text extensions of the table.
proof fn lemma_table_text()
    ensures
        ext_kind("md"@) == ExtKind::Text,
        ext_kind("mdx"@) == ExtKind::Text,
        ext_kind("txt"@) == ExtKind::Text,
        ext_kind("rst"@) == ExtKind::Text,
        ext_kind("adoc"@) == ExtKind::Text,
        ext_kind("asciidoc"@) == ExtKind::Text,
        ext_kind("json"@) == ExtKind::Text,
        ext_kind("yaml"@) == ExtKind::Text,
        ext_kind("yml"@) == ExtKind::Text,
        ext_kind("toml"@) == ExtKind::Text,
        ext_kind("csv"@) == ExtKind::Text,
        ext_kind("tsv"@) == ExtKind::Text,
        ext_kind("ini"@) == ExtKind::Text,
        ext_kind("conf"@) == ExtKind::Text,
        ext_kind("log"@) == ExtKind::Text,
{
    reveal_strlit("md");
    reveal_strlit("mdx");
    reveal_strlit("txt");
    reveal_strlit("rst");
    reveal_strlit("adoc");
    reveal_strlit("asciidoc");
    reveal_strlit("json");
    reveal_strlit("yaml");
    reveal_strlit("yml");
    reveal_strlit("toml");
    reveal_strlit("csv");
    reveal_strlit("tsv");
    reveal_strlit("ini");
    reveal_strlit("conf");
    reveal_strlit("log");
    reveal_strlit("rs");
    reveal_strlit("go");
    reveal_strlit("py");
    reveal_strlit("rb");
    reveal_strlit("java");
    reveal_strlit("kt");
    reveal_strlit("swift");
    reveal_strlit("c");
    reveal_strlit("h");
    reveal_strlit("cpp");
    reveal_strlit("hpp");
    reveal_strlit("cc");
    reveal_strlit("js");
    reveal_strlit("mjs");
    reveal_strlit("cjs");
    reveal_strlit("jsx");
    reveal_strlit("ts");
    reveal_strlit("tsx");
    reveal_strlit("lua");
    reveal_strlit("pl");
    reveal_strlit("sh");
    reveal_strlit("bash");
    reveal_strlit("zsh");
    reveal_strlit("php");
    reveal_strlit("html");
    reveal_strlit("htm");
    reveal_strlit("xml");
    reveal_strlit("svg");
    reveal_strlit("css");
    reveal_strlit("scss");
    reveal_strlit("sass");
    reveal_strlit("less");
    assert("md"@ != "rs"@) by { assert("md"@[0] != "rs"@[0]); }
    assert("md"@ != "go"@) by { assert("md"@[0] != "go"@[0]); }
    assert("md"@ != "py"@) by { assert("md"@[0] != "py"@[0]); }
    assert("md"@ != "rb"@) by { assert("md"@[0] != "rb"@[0]); }
    assert("md"@ != "java"@) by { assert("md"@.len() != "java"@.len()); }
    assert("md"@ != "kt"@) by { assert("md"@[0] != "kt"@[0]); }
    assert("md"@ != "swift"@) by { assert("md"@.len() != "swift"@.len()); }
    assert("md"@ != "c"@) by { assert("md"@.len() != "c"@.len()); }
    assert("md"@ != "h"@) by { assert("md"@.len() != "h"@.len()); }
    assert("md"@ != "cpp"@) by { assert("md"@.len() != "cpp"@.len()); }
    assert("md"@ != "hpp"@) by { assert("md"@.len() != "hpp"@.len()); }
    assert("md"@ != "cc"@) by { assert("md"@[0] != "cc"@[0]); }
    assert("md"@ != "js"@) by { assert("md"@[0] != "js"@[0]); }
    assert("md"@ != "mjs"@) by { assert("md"@.len() != "mjs"@.len()); }
    assert("md"@ != "cjs"@) by { assert("md"@.len() != "cjs"@.len()); }
    assert("md"@ != "jsx"@) by { assert("md"@.len() != "jsx"@.len()); }
    assert("md"@ != "ts"@) by { assert("md"@[0] != "ts"@[0]); }
    assert("md"@ != "tsx"@) by { assert("md"@.len() != "tsx"@.len()); }
    assert("md"@ != "lua"@) by { assert("md"@.len() != "lua"@.len()); }
    assert("md"@ != "pl"@) by { assert("md"@[0] != "pl"@[0]); }
    assert("md"@ != "sh"@) by { assert("md"@[0] != "sh"@[0]); }
    assert("md"@ != "bash"@) by { assert("md"@.len() != "bash"@.len()); }
    assert("md"@ != "zsh"@) by { assert("md"@.len() != "zsh"@.len()); }
    assert("md"@ != "php"@) by { assert("md"@.len() != "php"@.len()); }
    assert("md"@ != "html"@) by { assert("md"@.len() != "html"@.len()); }
    assert("md"@ != "htm"@) by { assert("md"@.len() != "htm"@.len()); }
    assert("md"@ != "xml"@) by { assert("md"@.len() != "xml"@.len()); }
    assert("md"@ != "svg"@) by { assert("md"@.len() != "svg"@.len()); }
    assert("md"@ != "css"@) by { assert("md"@.len() != "css"@.len()); }
    assert("md"@ != "scss"@) by { assert("md"@.len() != "scss"@.len()); }
    assert("md"@ != "sass"@) by { assert("md"@.len() != "sass"@.len()); }
    assert("md"@ != "less"@) by { assert("md"@.len() != "less"@.len()); }
    assert(ext_kind("md"@) == ExtKind::Text);
    assert("mdx"@ != "rs"@) by { assert("mdx"@.len() != "rs"@.len()); }
    assert("mdx"@ != "go"@) by { assert("mdx"@.len() != "go"@.len()); }
    assert("mdx"@ != "py"@) by { assert("mdx"@.len() != "py"@.len()); }
    assert("mdx"@ != "rb"@) by { assert("mdx"@.len() != "rb"@.len()); }
    assert("mdx"@ != "java"@) by { assert("mdx"@.len() != "java"@.len()); }
    assert("mdx"@ != "kt"@) by { assert("mdx"@.len() != "kt"@.len()); }
    assert("mdx"@ != "swift"@) by { assert("mdx"@.len() != "swift"@.len()); }
    assert("mdx"@ != "c"@) by { assert("mdx"@.len() != "c"@.len()); }
    assert("mdx"@ != "h"@) by { assert("mdx"@.len() != "h"@.len()); }
    assert("mdx"@ != "cpp"@) by { assert("mdx"@[0] != "cpp"@[0]); }
    assert("mdx"@ != "hpp"@) by { assert("mdx"@[0] != "hpp"@[0]); }
    assert("mdx"@ != "cc"@) by { assert("mdx"@.len() != "cc"@.len()); }
    assert("mdx"@ != "js"@) by { assert("mdx"@.len() != "js"@.len()); }
    assert("mdx"@ != "mjs"@) by { assert("mdx"@[1] != "mjs"@[1]); }
    assert("mdx"@ != "cjs"@) by { assert("mdx"@[0] != "cjs"@[0]); }
    assert("mdx"@ != "jsx"@) by { assert("mdx"@[0] != "jsx"@[0]); }
    assert("mdx"@ != "ts"@) by { assert("mdx"@.len() != "ts"@.len()); }
    assert("mdx"@ != "tsx"@) by { assert("mdx"@[0] != "tsx"@[0]); }
    assert("mdx"@ != "lua"@) by { assert("mdx"@[0] != "lua"@[0]); }
    assert("mdx"@ != "pl"@) by { assert("mdx"@.len() != "pl"@.len()); }
    assert("mdx"@ != "sh"@) by { assert("mdx"@.len() != "sh"@.len()); }
    assert("mdx"@ != "bash"@) by { assert("mdx"@.len() != "bash"@.len()); }
    assert("mdx"@ != "zsh"@) by { assert("mdx"@[0] != "zsh"@[0]); }
    assert("mdx"@ != "php"@) by { assert("mdx"@[0] != "php"@[0]); }
    assert("mdx"@ != "html"@) by { assert("mdx"@.len() != "html"@.len()); }
    assert("mdx"@ != "htm"@) by { assert("mdx"@[0] != "htm"@[0]); }
    assert("mdx"@ != "xml"@) by { assert("mdx"@[0] != "xml"@[0]); }
    assert("mdx"@ != "svg"@) by { assert("mdx"@[0] != "svg"@[0]); }
    assert("mdx"@ != "css"@) by { assert("mdx"@[0] != "css"@[0]); }
    assert("mdx"@ != "scss"@) by { assert("mdx"@.len() != "scss"@.len()); }
    assert("mdx"@ != "sass"@) by { assert("mdx"@.len() != "sass"@.len()); }
    assert("mdx"@ != "less"@) by { assert("mdx"@.len() != "less"@.len()); }
    assert(ext_kind("mdx"@) == ExtKind::Text);
    assert("txt"@ != "rs"@) by { assert("txt"@.len() != "rs"@.len()); }
    assert("txt"@ != "go"@) by { assert("txt"@.len() != "go"@.len()); }
    assert("txt"@ != "py"@) by { assert("txt"@.len() != "py"@.len()); }
    assert("txt"@ != "rb"@) by { assert("txt"@.len() != "rb"@.len()); }
    assert("txt"@ != "java"@) by { assert("txt"@.len() != "java"@.len()); }
    assert("txt"@ != "kt"@) by { assert("txt"@.len() != "kt"@.len()); }
    assert("txt"@ != "swift"@) by { assert("txt"@.len() != "swift"@.len()); }
    assert("txt"@ != "c"@) by { assert("txt"@.len() != "c"@.len()); }
    assert("txt"@ != "h"@) by { assert("txt"@.len() != "h"@.len()); }
    assert("txt"@ != "cpp"@) by { assert("txt"@[0] != "cpp"@[0]); }
    assert("txt"@ != "hpp"@) by { assert("txt"@[0] != "hpp"@[0]); }
    assert("txt"@ != "cc"@) by { assert("txt"@.len() != "cc"@.len()); }
    assert("txt"@ != "js"@) by { assert("txt"@.len() != "js"@.len()); }
    assert("txt"@ != "mjs"@) by { assert("txt"@[0] != "mjs"@[0]); }
    assert("txt"@ != "cjs"@) by { assert("txt"@[0] != "cjs"@[0]); }
    assert("txt"@ != "jsx"@) by { assert("txt"@[0] != "jsx"@[0]); }
    assert("txt"@ != "ts"@) by { assert("txt"@.len() != "ts"@.len()); }
    assert("txt"@ != "tsx"@) by { assert("txt"@[1] != "tsx"@[1]); }
    assert("txt"@ != "lua"@) by { assert("txt"@[0] != "lua"@[0]); }
    assert("txt"@ != "pl"@) by { assert("txt"@.len() != "pl"@.len()); }
    assert("txt"@ != "sh"@) by { assert("txt"@.len() != "sh"@.len()); }
    assert("txt"@ != "bash"@) by { assert("txt"@.len() != "bash"@.len()); }
    assert("txt"@ != "zsh"@) by { assert("txt"@[0] != "zsh"@[0]); }
    assert("txt"@ != "php"@) by { assert("txt"@[0] != "php"@[0]); }
    assert("txt"@ != "html"@) by { assert("txt"@.len() != "html"@.len()); }
    assert("txt"@ != "htm"@) by { assert("txt"@[0] != "htm"@[0]); }
    assert("txt"@ != "xml"@) by { assert("txt"@[0] != "xml"@[0]); }
    assert("txt"@ != "svg"@) by { assert("txt"@[0] != "svg"@[0]); }
    assert("txt"@ != "css"@) by { assert("txt"@[0] != "css"@[0]); }
    assert("txt"@ != "scss"@) by { assert("txt"@.len() != "scss"@.len()); }
    assert("txt"@ != "sass"@) by { assert("txt"@.len() != "sass"@.len()); }
    assert("txt"@ != "less"@) by { assert("txt"@.len() != "less"@.len()); }
    assert(ext_kind("txt"@) == ExtKind::Text);
    assert("rst"@ != "rs"@) by { assert("rst"@.len() != "rs"@.len()); }
    assert("rst"@ != "go"@) by { assert("rst"@.len() != "go"@.len()); }
    assert("rst"@ != "py"@) by { assert("rst"@.len() != "py"@.len()); }
    assert("rst"@ != "rb"@) by { assert("rst"@.len() != "rb"@.len()); }
    assert("rst"@ != "java"@) by { assert("rst"@.len() != "java"@.len()); }
    assert("rst"@ != "kt"@) by { assert("rst"@.len() != "kt"@.len()); }
    assert("rst"@ != "swift"@) by { assert("rst"@.len() != "swift"@.len()); }
    assert("rst"@ != "c"@) by { assert("rst"@.len() != "c"@.len()); }
    assert("rst"@ != "h"@) by { assert("rst"@.len() != "h"@.len()); }
    assert("rst"@ != "cpp"@) by { assert("rst"@[0] != "cpp"@[0]); }
    assert("rst"@ != "hpp"@) by { assert("rst"@[0] != "hpp"@[0]); }
    assert("rst"@ != "cc"@) by { assert("rst"@.len() != "cc"@.len()); }
    assert("rst"@ != "js"@) by { assert("rst"@.len() != "js"@.len()); }
    assert("rst"@ != "mjs"@) by { assert("rst"@[0] != "mjs"@[0]); }
    assert("rst"@ != "cjs"@) by { assert("rst"@[0] != "cjs"@[0]); }
    assert("rst"@ != "jsx"@) by { assert("rst"@[0] != "jsx"@[0]); }
    assert("rst"@ != "ts"@) by { assert("rst"@.len() != "ts"@.len()); }
    assert("rst"@ != "tsx"@) by { assert("rst"@[0] != "tsx"@[0]); }
    assert("rst"@ != "lua"@) by { assert("rst"@[0] != "lua"@[0]); }
    assert("rst"@ != "pl"@) by { assert("rst"@.len() != "pl"@.len()); }
    assert("rst"@ != "sh"@) by { assert("rst"@.len() != "sh"@.len()); }
    assert("rst"@ != "bash"@) by { assert("rst"@.len() != "bash"@.len()); }
    assert("rst"@ != "zsh"@) by { assert("rst"@[0] != "zsh"@[0]); }
    assert("rst"@ != "php"@) by { assert("rst"@[0] != "php"@[0]); }
    assert("rst"@ != "html"@) by { assert("rst"@.len() != "html"@.len()); }
    assert("rst"@ != "htm"@) by { assert("rst"@[0] != "htm"@[0]); }
    assert("rst"@ != "xml"@) by { assert("rst"@[0] != "xml"@[0]); }
    assert("rst"@ != "svg"@) by { assert("rst"@[0] != "svg"@[0]); }
    assert("rst"@ != "css"@) by { assert("rst"@[0] != "css"@[0]); }
    assert("rst"@ != "scss"@) by { assert("rst"@.len() != "scss"@.len()); }
    assert("rst"@ != "sass"@) by { assert("rst"@.len() != "sass"@.len()); }
    assert("rst"@ != "less"@) by { assert("rst"@.len() != "less"@.len()); }
    assert(ext_kind("rst"@) == ExtKind::Text);
    assert("adoc"@ != "rs"@) by { assert("adoc"@.len() != "rs"@.len()); }
    assert("adoc"@ != "go"@) by { assert("adoc"@.len() != "go"@.len()); }
    assert("adoc"@ != "py"@) by { assert("adoc"@.len() != "py"@.len()); }
    assert("adoc"@ != "rb"@) by { assert("adoc"@.len() != "rb"@.len()); }
    assert("adoc"@ != "java"@) by { assert("adoc"@[0] != "java"@[0]); }
    assert("adoc"@ != "kt"@) by { assert("adoc"@.len() != "kt"@.len()); }
    assert("adoc"@ != "swift"@) by { assert("adoc"@.len() != "swift"@.len()); }
    assert("adoc"@ != "c"@) by { assert("adoc"@.len() != "c"@.len()); }
    assert("adoc"@ != "h"@) by { assert("adoc"@.len() != "h"@.len()); }
    assert("adoc"@ != "cpp"@) by { assert("adoc"@.len() != "cpp"@.len()); }
    assert("adoc"@ != "hpp"@) by { assert("adoc"@.len() != "hpp"@.len()); }
    assert("adoc"@ != "cc"@) by { assert("adoc"@.len() != "cc"@.len()); }
    assert("adoc"@ != "js"@) by { assert("adoc"@.len() != "js"@.len()); }
    assert("adoc"@ != "mjs"@) by { assert("adoc"@.len() != "mjs"@.len()); }
    assert("adoc"@ != "cjs"@) by { assert("adoc"@.len() != "cjs"@.len()); }
    assert("adoc"@ != "jsx"@) by { assert("adoc"@.len() != "jsx"@.len()); }
    assert("adoc"@ != "ts"@) by { assert("adoc"@.len() != "ts"@.len()); }
    assert("adoc"@ != "tsx"@) by { assert("adoc"@.len() != "tsx"@.len()); }
    assert("adoc"@ != "lua"@) by { assert("adoc"@.len() != "lua"@.len()); }
    assert("adoc"@ != "pl"@) by { assert("adoc"@.len() != "pl"@.len()); }
    assert("adoc"@ != "sh"@) by { assert("adoc"@.len() != "sh"@.len()); }
    assert("adoc"@ != "bash"@) by { assert("adoc"@[0] != "bash"@[0]); }
    assert("adoc"@ != "zsh"@) by { assert("adoc"@.len() != "zsh"@.len()); }
    assert("adoc"@ != "php"@) by { assert("adoc"@.len() != "php"@.len()); }
    assert("adoc"@ != "html"@) by { assert("adoc"@[0] != "html"@[0]); }
    assert("adoc"@ != "htm"@) by { assert("adoc"@.len() != "htm"@.len()); }
    assert("adoc"@ != "xml"@) by { assert("adoc"@.len() != "xml"@.len()); }
    assert("adoc"@ != "svg"@) by { assert("adoc"@.len() != "svg"@.len()); }
    assert("adoc"@ != "css"@) by { assert("adoc"@.len() != "css"@.len()); }
    assert("adoc"@ != "scss"@) by { assert("adoc"@[0] != "scss"@[0]); }
    assert("adoc"@ != "sass"@) by { assert("adoc"@[0] != "sass"@[0]); }
    assert("adoc"@ != "less"@) by { assert("adoc"@[0] != "less"@[0]); }
    assert(ext_kind("adoc"@) == ExtKind::Text);
    assert("asciidoc"@ != "rs"@) by { assert("asciidoc"@.len() != "rs"@.len()); }
    assert("asciidoc"@ != "go"@) by { assert("asciidoc"@.len() != "go"@.len()); }
    assert("asciidoc"@ != "py"@) by { assert("asciidoc"@.len() != "py"@.len()); }
    assert("asciidoc"@ != "rb"@) by { assert("asciidoc"@.len() != "rb"@.len()); }
    assert("asciidoc"@ != "java"@) by { assert("asciidoc"@.len() != "java"@.len()); }
    assert("asciidoc"@ != "kt"@) by { assert("asciidoc"@.len() != "kt"@.len()); }
    assert("asciidoc"@ != "swift"@) by { assert("asciidoc"@.len() != "swift"@.len()); }
    assert("asciidoc"@ != "c"@) by { assert("asciidoc"@.len() != "c"@.len()); }
    assert("asciidoc"@ != "h"@) by { assert("asciidoc"@.len() != "h"@.len()); }
    assert("asciidoc"@ != "cpp"@) by { assert("asciidoc"@.len() != "cpp"@.len()); }
    assert("asciidoc"@ != "hpp"@) by { assert("asciidoc"@.len() != "hpp"@.len()); }
    assert("asciidoc"@ != "cc"@) by { assert("asciidoc"@.len() != "cc"@.len()); }
    assert("asciidoc"@ != "js"@) by { assert("asciidoc"@.len() != "js"@.len()); }
    assert("asciidoc"@ != "mjs"@) by { assert("asciidoc"@.len() != "mjs"@.len()); }
    assert("asciidoc"@ != "cjs"@) by { assert("asciidoc"@.len() != "cjs"@.len()); }
    assert("asciidoc"@ != "jsx"@) by { assert("asciidoc"@.len() != "jsx"@.len()); }
    assert("asciidoc"@ != "ts"@) by { assert("asciidoc"@.len() != "ts"@.len()); }
    assert("asciidoc"@ != "tsx"@) by { assert("asciidoc"@.len() != "tsx"@.len()); }
    assert("asciidoc"@ != "lua"@) by { assert("asciidoc"@.len() != "lua"@.len()); }
    assert("asciidoc"@ != "pl"@) by { assert("asciidoc"@.len() != "pl"@.len()); }
    assert("asciidoc"@ != "sh"@) by { assert("asciidoc"@.len() != "sh"@.len()); }
    assert("asciidoc"@ != "bash"@) by { assert("asciidoc"@.len() != "bash"@.len()); }
    assert("asciidoc"@ != "zsh"@) by { assert("asciidoc"@.len() != "zsh"@.len()); }
    assert("asciidoc"@ != "php"@) by { assert("asciidoc"@.len() != "php"@.len()); }
    assert("asciidoc"@ != "html"@) by { assert("asciidoc"@.len() != "html"@.len()); }
    assert("asciidoc"@ != "htm"@) by { assert("asciidoc"@.len() != "htm"@.len()); }
    assert("asciidoc"@ != "xml"@) by { assert("asciidoc"@.len() != "xml"@.len()); }
    assert("asciidoc"@ != "svg"@) by { assert("asciidoc"@.len() != "svg"@.len()); }
    assert("asciidoc"@ != "css"@) by { assert("asciidoc"@.len() != "css"@.len()); }
    assert("asciidoc"@ != "scss"@) by { assert("asciidoc"@.len() != "scss"@.len()); }
    assert("asciidoc"@ != "sass"@) by { assert("asciidoc"@.len() != "sass"@.len()); }
    assert("asciidoc"@ != "less"@) by { assert("asciidoc"@.len() != "less"@.len()); }
    assert(ext_kind("asciidoc"@) == ExtKind::Text);
    assert("json"@ != "rs"@) by { assert("json"@.len() != "rs"@.len()); }
    assert("json"@ != "go"@) by { assert("json"@.len() != "go"@.len()); }
    assert("json"@ != "py"@) by { assert("json"@.len() != "py"@.len()); }
    assert("json"@ != "rb"@) by { assert("json"@.len() != "rb"@.len()); }
    assert("json"@ != "java"@) by { assert("json"@[1] != "java"@[1]); }
    assert("json"@ != "kt"@) by { assert("json"@.len() != "kt"@.len()); }
    assert("json"@ != "swift"@) by { assert("json"@.len() != "swift"@.len()); }
    assert("json"@ != "c"@) by { assert("json"@.len() != "c"@.len()); }
    assert("json"@ != "h"@) by { assert("json"@.len() != "h"@.len()); }
    assert("json"@ != "cpp"@) by { assert("json"@.len() != "cpp"@.len()); }
    assert("json"@ != "hpp"@) by { assert("json"@.len() != "hpp"@.len()); }
    assert("json"@ != "cc"@) by { assert("json"@.len() != "cc"@.len()); }
    assert("json"@ != "js"@) by { assert("json"@.len() != "js"@.len()); }
    assert("json"@ != "mjs"@) by { assert("json"@.len() != "mjs"@.len()); }
    assert("json"@ != "cjs"@) by { assert("json"@.len() != "cjs"@.len()); }
    assert("json"@ != "jsx"@) by { assert("json"@.len() != "jsx"@.len()); }
    assert("json"@ != "ts"@) by { assert("json"@.len() != "ts"@.len()); }
    assert("json"@ != "tsx"@) by { assert("json"@.len() != "tsx"@.len()); }
    assert("json"@ != "lua"@) by { assert("json"@.len() != "lua"@.len()); }
    assert("json"@ != "pl"@) by { assert("json"@.len() != "pl"@.len()); }
    assert("json"@ != "sh"@) by { assert("json"@.len() != "sh"@.len()); }
    assert("json"@ != "bash"@) by { assert("json"@[0] != "bash"@[0]); }
    assert("json"@ != "zsh"@) by { assert("json"@.len() != "zsh"@.len()); }
    assert("json"@ != "php"@) by { assert("json"@.len() != "php"@.len()); }
    assert("json"@ != "html"@) by { assert("json"@[0] != "html"@[0]); }
    assert("json"@ != "htm"@) by { assert("json"@.len() != "htm"@.len()); }
    assert("json"@ != "xml"@) by { assert("json"@.len() != "xml"@.len()); }
    assert("json"@ != "svg"@) by { assert("json"@.len() != "svg"@.len()); }
    assert("json"@ != "css"@) by { assert("json"@.len() != "css"@.len()); }
    assert("json"@ != "scss"@) by { assert("json"@[0] != "scss"@[0]); }
    assert("json"@ != "sass"@) by { assert("json"@[0] != "sass"@[0]); }
    assert("json"@ != "less"@) by { assert("json"@[0] != "less"@[0]); }
    assert(ext_kind("json"@) == ExtKind::Text);
    assert("yaml"@ != "rs"@) by { assert("yaml"@.len() != "rs"@.len()); }
    assert("yaml"@ != "go"@) by { assert("yaml"@.len() != "go"@.len()); }
    assert("yaml"@ != "py"@) by { assert("yaml"@.len() != "py"@.len()); }
    assert("yaml"@ != "rb"@) by { assert("yaml"@.len() != "rb"@.len()); }
    assert("yaml"@ != "java"@) by { assert("yaml"@[0] != "java"@[0]); }
    assert("yaml"@ != "kt"@) by { assert("yaml"@.len() != "kt"@.len()); }
    assert("yaml"@ != "swift"@) by { assert("yaml"@.len() != "swift"@.len()); }
    assert("yaml"@ != "c"@) by { assert("yaml"@.len() != "c"@.len()); }
    assert("yaml"@ != "h"@) by { assert("yaml"@.len() != "h"@.len()); }
    assert("yaml"@ != "cpp"@) by { assert("yaml"@.len() != "cpp"@.len()); }
    assert("yaml"@ != "hpp"@) by { assert("yaml"@.len() != "hpp"@.len()); }
    assert("yaml"@ != "cc"@) by { assert("yaml"@.len() != "cc"@.len()); }
    assert("yaml"@ != "js"@) by { assert("yaml"@.len() != "js"@.len()); }
    assert("yaml"@ != "mjs"@) by { assert("yaml"@.len() != "mjs"@.len()); }
    assert("yaml"@ != "cjs"@) by { assert("yaml"@.len() != "cjs"@.len()); }
    assert("yaml"@ != "jsx"@) by { assert("yaml"@.len() != "jsx"@.len()); }
    assert("yaml"@ != "ts"@) by { assert("yaml"@.len() != "ts"@.len()); }
    assert("yaml"@ != "tsx"@) by { assert("yaml"@.len() != "tsx"@.len()); }
    assert("yaml"@ != "lua"@) by { assert("yaml"@.len() != "lua"@.len()); }
    assert("yaml"@ != "pl"@) by { assert("yaml"@.len() != "pl"@.len()); }
    assert("yaml"@ != "sh"@) by { assert("yaml"@.len() != "sh"@.len()); }
    assert("yaml"@ != "bash"@) by { assert("yaml"@[0] != "bash"@[0]); }
    assert("yaml"@ != "zsh"@) by { assert("yaml"@.len() != "zsh"@.len()); }
    assert("yaml"@ != "php"@) by { assert("yaml"@.len() != "php"@.len()); }
    assert("yaml"@ != "html"@) by { assert("yaml"@[0] != "html"@[0]); }
    assert("yaml"@ != "htm"@) by { assert("yaml"@.len() != "htm"@.len()); }
    assert("yaml"@ != "xml"@) by { assert("yaml"@.len() != "xml"@.len()); }
    assert("yaml"@ != "svg"@) by { assert("yaml"@.len() != "svg"@.len()); }
    assert("yaml"@ != "css"@) by { assert("yaml"@.len() != "css"@.len()); }
    assert("yaml"@ != "scss"@) by { assert("yaml"@[0] != "scss"@[0]); }
    assert("yaml"@ != "sass"@) by { assert("yaml"@[0] != "sass"@[0]); }
    assert("yaml"@ != "less"@) by { assert("yaml"@[0] != "less"@[0]); }
    assert(ext_kind("yaml"@) == ExtKind::Text);
    assert("yml"@ != "rs"@) by { assert("yml"@.len() != "rs"@.len()); }
    assert("yml"@ != "go"@) by { assert("yml"@.len() != "go"@.len()); }
    assert("yml"@ != "py"@) by { assert("yml"@.len() != "py"@.len()); }
    assert("yml"@ != "rb"@) by { assert("yml"@.len() != "rb"@.len()); }
    assert("yml"@ != "java"@) by { assert("yml"@.len() != "java"@.len()); }
    assert("yml"@ != "kt"@) by { assert("yml"@.len() != "kt"@.len()); }
    assert("yml"@ != "swift"@) by { assert("yml"@.len() != "swift"@.len()); }
    assert("yml"@ != "c"@) by { assert("yml"@.len() != "c"@.len()); }
    assert("yml"@ != "h"@) by { assert("yml"@.len() != "h"@.len()); }
    assert("yml"@ != "cpp"@) by { assert("yml"@[0] != "cpp"@[0]); }
    assert("yml"@ != "hpp"@) by { assert("yml"@[0] != "hpp"@[0]); }
    assert("yml"@ != "cc"@) by { assert("yml"@.len() != "cc"@.len()); }
    assert("yml"@ != "js"@) by { assert("yml"@.len() != "js"@.len()); }
    assert("yml"@ != "mjs"@) by { assert("yml"@[0] != "mjs"@[0]); }
    assert("yml"@ != "cjs"@) by { assert("yml"@[0] != "cjs"@[0]); }
    assert("yml"@ != "jsx"@) by { assert("yml"@[0] != "jsx"@[0]); }
    assert("yml"@ != "ts"@) by { assert("yml"@.len() != "ts"@.len()); }
    assert("yml"@ != "tsx"@) by { assert("yml"@[0] != "tsx"@[0]); }
    assert("yml"@ != "lua"@) by { assert("yml"@[0] != "lua"@[0]); }
    assert("yml"@ != "pl"@) by { assert("yml"@.len() != "pl"@.len()); }
    assert("yml"@ != "sh"@) by { assert("yml"@.len() != "sh"@.len()); }
    assert("yml"@ != "bash"@) by { assert("yml"@.len() != "bash"@.len()); }
    assert("yml"@ != "zsh"@) by { assert("yml"@[0] != "zsh"@[0]); }
    assert("yml"@ != "php"@) by { assert("yml"@[0] != "php"@[0]); }
    assert("yml"@ != "html"@) by { assert("yml"@.len() != "html"@.len()); }
    assert("yml"@ != "htm"@) by { assert("yml"@[0] != "htm"@[0]); }
    assert("yml"@ != "xml"@) by { assert("yml"@[0] != "xml"@[0]); }
    assert("yml"@ != "svg"@) by { assert("yml"@[0] != "svg"@[0]); }
    assert("yml"@ != "css"@) by { assert("yml"@[0] != "css"@[0]); }
    assert("yml"@ != "scss"@) by { assert("yml"@.len() != "scss"@.len()); }
    assert("yml"@ != "sass"@) by { assert("yml"@.len() != "sass"@.len()); }
    assert("yml"@ != "less"@) by { assert("yml"@.len() != "less"@.len()); }
    assert(ext_kind("yml"@) == ExtKind::Text);
    assert("toml"@ != "rs"@) by { assert("toml"@.len() != "rs"@.len()); }
    assert("toml"@ != "go"@) by { assert("toml"@.len() != "go"@.len()); }
    assert("toml"@ != "py"@) by { assert("toml"@.len() != "py"@.len()); }
    assert("toml"@ != "rb"@) by { assert("toml"@.len() != "rb"@.len()); }
    assert("toml"@ != "java"@) by { assert("toml"@[0] != "java"@[0]); }
    assert("toml"@ != "kt"@) by { assert("toml"@.len() != "kt"@.len()); }
    assert("toml"@ != "swift"@) by { assert("toml"@.len() != "swift"@.len()); }
    assert("toml"@ != "c"@) by { assert("toml"@.len() != "c"@.len()); }
    assert("toml"@ != "h"@) by { assert("toml"@.len() != "h"@.len()); }
    assert("toml"@ != "cpp"@) by { assert("toml"@.len() != "cpp"@.len()); }
    assert("toml"@ != "hpp"@) by { assert("toml"@.len() != "hpp"@.len()); }
    assert("toml"@ != "cc"@) by { assert("toml"@.len() != "cc"@.len()); }
    assert("toml"@ != "js"@) by { assert("toml"@.len() != "js"@.len()); }
    assert("toml"@ != "mjs"@) by { assert("toml"@.len() != "mjs"@.len()); }
    assert("toml"@ != "cjs"@) by { assert("toml"@.len() != "cjs"@.len()); }
    assert("toml"@ != "jsx"@) by { assert("toml"@.len() != "jsx"@.len()); }
    assert("toml"@ != "ts"@) by { assert("toml"@.len() != "ts"@.len()); }
    assert("toml"@ != "tsx"@) by { assert("toml"@.len() != "tsx"@.len()); }
    assert("toml"@ != "lua"@) by { assert("toml"@.len() != "lua"@.len()); }
    assert("toml"@ != "pl"@) by { assert("toml"@.len() != "pl"@.len()); }
    assert("toml"@ != "sh"@) by { assert("toml"@.len() != "sh"@.len()); }
    assert("toml"@ != "bash"@) by { assert("toml"@[0] != "bash"@[0]); }
    assert("toml"@ != "zsh"@) by { assert("toml"@.len() != "zsh"@.len()); }
    assert("toml"@ != "php"@) by { assert("toml"@.len() != "php"@.len()); }
    assert("toml"@ != "html"@) by { assert("toml"@[0] != "html"@[0]); }
    assert("toml"@ != "htm"@) by { assert("toml"@.len() != "htm"@.len()); }
    assert("toml"@ != "xml"@) by { assert("toml"@.len() != "xml"@.len()); }
    assert("toml"@ != "svg"@) by { assert("toml"@.len() != "svg"@.len()); }
    assert("toml"@ != "css"@) by { assert("toml"@.len() != "css"@.len()); }
    assert("toml"@ != "scss"@) by { assert("toml"@[0] != "scss"@[0]); }
    assert("toml"@ != "sass"@) by { assert("toml"@[0] != "sass"@[0]); }
    assert("toml"@ != "less"@) by { assert("toml"@[0] != "less"@[0]); }
    assert(ext_kind("toml"@) == ExtKind::Text);
    assert("csv"@ != "rs"@) by { assert("csv"@.len() != "rs"@.len()); }
    assert("csv"@ != "go"@) by { assert("csv"@.len() != "go"@.len()); }
    assert("csv"@ != "py"@) by { assert("csv"@.len() != "py"@.len()); }
    assert("csv"@ != "rb"@) by { assert("csv"@.len() != "rb"@.len()); }
    assert("csv"@ != "java"@) by { assert("csv"@.len() != "java"@.len()); }
    assert("csv"@ != "kt"@) by { assert("csv"@.len() != "kt"@.len()); }
    assert("csv"@ != "swift"@) by { assert("csv"@.len() != "swift"@.len()); }
    assert("csv"@ != "c"@) by { assert("csv"@.len() != "c"@.len()); }
    assert("csv"@ != "h"@) by { assert("csv"@.len() != "h"@.len()); }
    assert("csv"@ != "cpp"@) by { assert("csv"@[1] != "cpp"@[1]); }
    assert("csv"@ != "hpp"@) by { assert("csv"@[0] != "hpp"@[0]); }
    assert("csv"@ != "cc"@) by { assert("csv"@.len() != "cc"@.len()); }
    assert("csv"@ != "js"@) by { assert("csv"@.len() != "js"@.len()); }
    assert("csv"@ != "mjs"@) by { assert("csv"@[0] != "mjs"@[0]); }
    assert("csv"@ != "cjs"@) by { assert("csv"@[1] != "cjs"@[1]); }
    assert("csv"@ != "jsx"@) by { assert("csv"@[0] != "jsx"@[0]); }
    assert("csv"@ != "ts"@) by { assert("csv"@.len() != "ts"@.len()); }
    assert("csv"@ != "tsx"@) by { assert("csv"@[0] != "tsx"@[0]); }
    assert("csv"@ != "lua"@) by { assert("csv"@[0] != "lua"@[0]); }
    assert("csv"@ != "pl"@) by { assert("csv"@.len() != "pl"@.len()); }
    assert("csv"@ != "sh"@) by { assert("csv"@.len() != "sh"@.len()); }
    assert("csv"@ != "bash"@) by { assert("csv"@.len() != "bash"@.len()); }
    assert("csv"@ != "zsh"@) by { assert("csv"@[0] != "zsh"@[0]); }
    assert("csv"@ != "php"@) by { assert("csv"@[0] != "php"@[0]); }
    assert("csv"@ != "html"@) by { assert("csv"@.len() != "html"@.len()); }
    assert("csv"@ != "htm"@) by { assert("csv"@[0] != "htm"@[0]); }
    assert("csv"@ != "xml"@) by { assert("csv"@[0] != "xml"@[0]); }
    assert("csv"@ != "svg"@) by { assert("csv"@[0] != "svg"@[0]); }
    assert("csv"@ != "css"@) by { assert("csv"@[2] != "css"@[2]); }
    assert("csv"@ != "scss"@) by { assert("csv"@.len() != "scss"@.len()); }
    assert("csv"@ != "sass"@) by { assert("csv"@.len() != "sass"@.len()); }
    assert("csv"@ != "less"@) by { assert("csv"@.len() != "less"@.len()); }
    assert(ext_kind("csv"@) == ExtKind::Text);
    assert("tsv"@ != "rs"@) by { assert("tsv"@.len() != "rs"@.len()); }
    assert("tsv"@ != "go"@) by { assert("tsv"@.len() != "go"@.len()); }
    assert("tsv"@ != "py"@) by { assert("tsv"@.len() != "py"@.len()); }
    assert("tsv"@ != "rb"@) by { assert("tsv"@.len() != "rb"@.len()); }
    assert("tsv"@ != "java"@) by { assert("tsv"@.len() != "java"@.len()); }
    assert("tsv"@ != "kt"@) by { assert("tsv"@.len() != "kt"@.len()); }
    assert("tsv"@ != "swift"@) by { assert("tsv"@.len() != "swift"@.len()); }
    assert("tsv"@ != "c"@) by { assert("tsv"@.len() != "c"@.len()); }
    assert("tsv"@ != "h"@) by { assert("tsv"@.len() != "h"@.len()); }
    assert("tsv"@ != "cpp"@) by { assert("tsv"@[0] != "cpp"@[0]); }
    assert("tsv"@ != "hpp"@) by { assert("tsv"@[0] != "hpp"@[0]); }
    assert("tsv"@ != "cc"@) by { assert("tsv"@.len() != "cc"@.len()); }
    assert("tsv"@ != "js"@) by { assert("tsv"@.len() != "js"@.len()); }
    assert("tsv"@ != "mjs"@) by { assert("tsv"@[0] != "mjs"@[0]); }
    assert("tsv"@ != "cjs"@) by { assert("tsv"@[0] != "cjs"@[0]); }
    assert("tsv"@ != "jsx"@) by { assert("tsv"@[0] != "jsx"@[0]); }
    assert("tsv"@ != "ts"@) by { assert("tsv"@.len() != "ts"@.len()); }
    assert("tsv"@ != "tsx"@) by { assert("tsv"@[2] != "tsx"@[2]); }
    assert("tsv"@ != "lua"@) by { assert("tsv"@[0] != "lua"@[0]); }
    assert("tsv"@ != "pl"@) by { assert("tsv"@.len() != "pl"@.len()); }
    assert("tsv"@ != "sh"@) by { assert("tsv"@.len() != "sh"@.len()); }
    assert("tsv"@ != "bash"@) by { assert("tsv"@.len() != "bash"@.len()); }
    assert("tsv"@ != "zsh"@) by { assert("tsv"@[0] != "zsh"@[0]); }
    assert("tsv"@ != "php"@) by { assert("tsv"@[0] != "php"@[0]); }
    assert("tsv"@ != "html"@) by { assert("tsv"@.len() != "html"@.len()); }
    assert("tsv"@ != "htm"@) by { assert("tsv"@[0] != "htm"@[0]); }
    assert("tsv"@ != "xml"@) by { assert("tsv"@[0] != "xml"@[0]); }
    assert("tsv"@ != "svg"@) by { assert("tsv"@[0] != "svg"@[0]); }
    assert("tsv"@ != "css"@) by { assert("tsv"@[0] != "css"@[0]); }
    assert("tsv"@ != "scss"@) by { assert("tsv"@.len() != "scss"@.len()); }
    assert("tsv"@ != "sass"@) by { assert("tsv"@.len() != "sass"@.len()); }
    assert("tsv"@ != "less"@) by { assert("tsv"@.len() != "less"@.len()); }
    assert(ext_kind("tsv"@) == ExtKind::Text);
    assert("ini"@ != "rs"@) by { assert("ini"@.len() != "rs"@.len()); }
    assert("ini"@ != "go"@) by { assert("ini"@.len() != "go"@.len()); }
    assert("ini"@ != "py"@) by { assert("ini"@.len() != "py"@.len()); }
    assert("ini"@ != "rb"@) by { assert("ini"@.len() != "rb"@.len()); }
    assert("ini"@ != "java"@) by { assert("ini"@.len() != "java"@.len()); }
    assert("ini"@ != "kt"@) by { assert("ini"@.len() != "kt"@.len()); }
    assert("ini"@ != "swift"@) by { assert("ini"@.len() != "swift"@.len()); }
    assert("ini"@ != "c"@) by { assert("ini"@.len() != "c"@.len()); }
    assert("ini"@ != "h"@) by { assert("ini"@.len() != "h"@.len()); }
    assert("ini"@ != "cpp"@) by { assert("ini"@[0] != "cpp"@[0]); }
    assert("ini"@ != "hpp"@) by { assert("ini"@[0] != "hpp"@[0]); }
    assert("ini"@ != "cc"@) by { assert("ini"@.len() != "cc"@.len()); }
    assert("ini"@ != "js"@) by { assert("ini"@.len() != "js"@.len()); }
    assert("ini"@ != "mjs"@) by { assert("ini"@[0] != "mjs"@[0]); }
    assert("ini"@ != "cjs"@) by { assert("ini"@[0] != "cjs"@[0]); }
    assert("ini"@ != "jsx"@) by { assert("ini"@[0] != "jsx"@[0]); }
    assert("ini"@ != "ts"@) by { assert("ini"@.len() != "ts"@.len()); }
    assert("ini"@ != "tsx"@) by { assert("ini"@[0] != "tsx"@[0]); }
    assert("ini"@ != "lua"@) by { assert("ini"@[0] != "lua"@[0]); }
    assert("ini"@ != "pl"@) by { assert("ini"@.len() != "pl"@.len()); }
    assert("ini"@ != "sh"@) by { assert("ini"@.len() != "sh"@.len()); }
    assert("ini"@ != "bash"@) by { assert("ini"@.len() != "bash"@.len()); }
    assert("ini"@ != "zsh"@) by { assert("ini"@[0] != "zsh"@[0]); }
    assert("ini"@ != "php"@) by { assert("ini"@[0] != "php"@[0]); }
    assert("ini"@ != "html"@) by { assert("ini"@.len() != "html"@.len()); }
    assert("ini"@ != "htm"@) by { assert("ini"@[0] != "htm"@[0]); }
    assert("ini"@ != "xml"@) by { assert("ini"@[0] != "xml"@[0]); }
    assert("ini"@ != "svg"@) by { assert("ini"@[0] != "svg"@[0]); }
    assert("ini"@ != "css"@) by { assert("ini"@[0] != "css"@[0]); }
    assert("ini"@ != "scss"@) by { assert("ini"@.len() != "scss"@.len()); }
    assert("ini"@ != "sass"@) by { assert("ini"@.len() != "sass"@.len()); }
    assert("ini"@ != "less"@) by { assert("ini"@.len() != "less"@.len()); }
    assert(ext_kind("ini"@) == ExtKind::Text);
    assert("conf"@ != "rs"@) by { assert("conf"@.len() != "rs"@.len()); }
    assert("conf"@ != "go"@) by { assert("conf"@.len() != "go"@.len()); }
    assert("conf"@ != "py"@) by { assert("conf"@.len() != "py"@.len()); }
    assert("conf"@ != "rb"@) by { assert("conf"@.len() != "rb"@.len()); }
    assert("conf"@ != "java"@) by { assert("conf"@[0] != "java"@[0]); }
    assert("conf"@ != "kt"@) by { assert("conf"@.len() != "kt"@.len()); }
    assert("conf"@ != "swift"@) by { assert("conf"@.len() != "swift"@.len()); }
    assert("conf"@ != "c"@) by { assert("conf"@.len() != "c"@.len()); }
    assert("conf"@ != "h"@) by { assert("conf"@.len() != "h"@.len()); }
    assert("conf"@ != "cpp"@) by { assert("conf"@.len() != "cpp"@.len()); }
    assert("conf"@ != "hpp"@) by { assert("conf"@.len() != "hpp"@.len()); }
    assert("conf"@ != "cc"@) by { assert("conf"@.len() != "cc"@.len()); }
    assert("conf"@ != "js"@) by { assert("conf"@.len() != "js"@.len()); }
    assert("conf"@ != "mjs"@) by { assert("conf"@.len() != "mjs"@.len()); }
    assert("conf"@ != "cjs"@) by { assert("conf"@.len() != "cjs"@.len()); }
    assert("conf"@ != "jsx"@) by { assert("conf"@.len() != "jsx"@.len()); }
    assert("conf"@ != "ts"@) by { assert("conf"@.len() != "ts"@.len()); }
    assert("conf"@ != "tsx"@) by { assert("conf"@.len() != "tsx"@.len()); }
    assert("conf"@ != "lua"@) by { assert("conf"@.len() != "lua"@.len()); }
    assert("conf"@ != "pl"@) by { assert("conf"@.len() != "pl"@.len()); }
    assert("conf"@ != "sh"@) by { assert("conf"@.len() != "sh"@.len()); }
    assert("conf"@ != "bash"@) by { assert("conf"@[0] != "bash"@[0]); }
    assert("conf"@ != "zsh"@) by { assert("conf"@.len() != "zsh"@.len()); }
    assert("conf"@ != "php"@) by { assert("conf"@.len() != "php"@.len()); }
    assert("conf"@ != "html"@) by { assert("conf"@[0] != "html"@[0]); }
    assert("conf"@ != "htm"@) by { assert("conf"@.len() != "htm"@.len()); }
    assert("conf"@ != "xml"@) by { assert("conf"@.len() != "xml"@.len()); }
    assert("conf"@ != "svg"@) by { assert("conf"@.len() != "svg"@.len()); }
    assert("conf"@ != "css"@) by { assert("conf"@.len() != "css"@.len()); }
    assert("conf"@ != "scss"@) by { assert("conf"@[0] != "scss"@[0]); }
    assert("conf"@ != "sass"@) by { assert("conf"@[0] != "sass"@[0]); }
    assert("conf"@ != "less"@) by { assert("conf"@[0] != "less"@[0]); }
    assert(ext_kind("conf"@) == ExtKind::Text);
    assert("log"@ != "rs"@) by { assert("log"@.len() != "rs"@.len()); }
    assert("log"@ != "go"@) by { assert("log"@.len() != "go"@.len()); }
    assert("log"@ != "py"@) by { assert("log"@.len() != "py"@.len()); }
    assert("log"@ != "rb"@) by { assert("log"@.len() != "rb"@.len()); }
    assert("log"@ != "java"@) by { assert("log"@.len() != "java"@.len()); }
    assert("log"@ != "kt"@) by { assert("log"@.len() != "kt"@.len()); }
    assert("log"@ != "swift"@) by { assert("log"@.len() != "swift"@.len()); }
    assert("log"@ != "c"@) by { assert("log"@.len() != "c"@.len()); }
    assert("log"@ != "h"@) by { assert("log"@.len() != "h"@.len()); }
    assert("log"@ != "cpp"@) by { assert("log"@[0] != "cpp"@[0]); }
    assert("log"@ != "hpp"@) by { assert("log"@[0] != "hpp"@[0]); }
    assert("log"@ != "cc"@) by { assert("log"@.len() != "cc"@.len()); }
    assert("log"@ != "js"@) by { assert("log"@.len() != "js"@.len()); }
    assert("log"@ != "mjs"@) by { assert("log"@[0] != "mjs"@[0]); }
    assert("log"@ != "cjs"@) by { assert("log"@[0] != "cjs"@[0]); }
    assert("log"@ != "jsx"@) by { assert("log"@[0] != "jsx"@[0]); }
    assert("log"@ != "ts"@) by { assert("log"@.len() != "ts"@.len()); }
    assert("log"@ != "tsx"@) by { assert("log"@[0] != "tsx"@[0]); }
    assert("log"@ != "lua"@) by { assert("log"@[1] != "lua"@[1]); }
    assert("log"@ != "pl"@) by { assert("log"@.len() != "pl"@.len()); }
    assert("log"@ != "sh"@) by { assert("log"@.len() != "sh"@.len()); }
    assert("log"@ != "bash"@) by { assert("log"@.len() != "bash"@.len()); }
    assert("log"@ != "zsh"@) by { assert("log"@[0] != "zsh"@[0]); }
    assert("log"@ != "php"@) by { assert("log"@[0] != "php"@[0]); }
    assert("log"@ != "html"@) by { assert("log"@.len() != "html"@.len()); }
    assert("log"@ != "htm"@) by { assert("log"@[0] != "htm"@[0]); }
    assert("log"@ != "xml"@) by { assert("log"@[0] != "xml"@[0]); }
    assert("log"@ != "svg"@) by { assert("log"@[0] != "svg"@[0]); }
    assert("log"@ != "css"@) by { assert("log"@[0] != "css"@[0]); }
    assert("log"@ != "scss"@) by { assert("log"@.len() != "scss"@.len()); }
    assert("log"@ != "sass"@) by { assert("log"@.len() != "sass"@.len()); }
    assert("log"@ != "less"@) by { assert("log"@.len() != "less"@.len()); }
    assert(ext_kind("log"@) == ExtKind::Text);
}

/// The image extensions of the table.
proof fn lemma_table_image()
    ensures
        ext_kind("png"@) == ExtKind::Image,
        ext_kind("jpg"@) == ExtKind::Image,
        ext_kind("jpeg"@) == ExtKind::Image,
        ext_kind("gif"@) == ExtKind::Image,
        ext_kind("webp"@) == ExtKind::Image,
        ext_kind("bmp"@) == ExtKind::Image,
        ext_kind("tiff"@) == ExtKind::Image,
        ext_kind("ico"@) == ExtKind::Image,
        ext_kind("psd"@) == ExtKind::Image,
        ext_kind("ai"@) == ExtKind::Image,
{
    reveal_strlit("png");
    reveal_strlit("jpg");
    reveal_strlit("jpeg");
    reveal_strlit("gif");
    reveal_strlit("webp");
    reveal_strlit("bmp");
    reveal_strlit("tiff");
    reveal_strlit("ico");
    reveal_strlit("psd");
    reveal_strlit("ai");
    reveal_strlit("rs");
    reveal_strlit("go");
    reveal_strlit("py");
    reveal_strlit("rb");
    reveal_strlit("java");
    reveal_strlit("kt");
    reveal_strlit("swift");
    reveal_strlit("c");
    reveal_strlit("h");
    reveal_strlit("cpp");
    reveal_strlit("hpp");
    reveal_strlit("cc");
    reveal_strlit("js");
    reveal_strlit("mjs");
    reveal_strlit("cjs");
    reveal_strlit("jsx");
    reveal_strlit("ts");
    reveal_strlit("tsx");
    reveal_strlit("lua");
    reveal_strlit("pl");
    reveal_strlit("sh");
    reveal_strlit("bash");
    reveal_strlit("zsh");
    reveal_strlit("php");
    reveal_strlit("html");
    reveal_strlit("htm");
    reveal_strlit("xml");
    reveal_strlit("svg");
    reveal_strlit("css");
    reveal_strlit("scss");
    reveal_strlit("sass");
    reveal_strlit("less");
    reveal_strlit("md");
    reveal_strlit("mdx");
    reveal_strlit("txt");
    reveal_strlit("rst");
    reveal_strlit("adoc");
    reveal_strlit("asciidoc");
    reveal_strlit("json");
    reveal_strlit("yaml");
    reveal_strlit("yml");
    reveal_strlit("toml");
    reveal_strlit("csv");
    reveal_strlit("tsv");
    reveal_strlit("ini");
    reveal_strlit("conf");
    reveal_strlit("log");
    assert("png"@ != "rs"@) by { assert("png"@.len() != "rs"@.len()); }
    assert("png"@ != "go"@) by { assert("png"@.len() != "go"@.len()); }
    assert("png"@ != "py"@) by { assert("png"@.len() != "py"@.len()); }
    assert("png"@ != "rb"@) by { assert("png"@.len() != "rb"@.len()); }
    assert("png"@ != "java"@) by { assert("png"@.len() != "java"@.len()); }
    assert("png"@ != "kt"@) by { assert("png"@.len() != "kt"@.len()); }
    assert("png"@ != "swift"@) by { assert("png"@.len() != "swift"@.len()); }
    assert("png"@ != "c"@) by { assert("png"@.len() != "c"@.len()); }
    assert("png"@ != "h"@) by { assert("png"@.len() != "h"@.len()); }
    assert("png"@ != "cpp"@) by { assert("png"@[0] != "cpp"@[0]); }
    assert("png"@ != "hpp"@) by { assert("png"@[0] != "hpp"@[0]); }
    assert("png"@ != "cc"@) by { assert("png"@.len() != "cc"@.len()); }
    assert("png"@ != "js"@) by { assert("png"@.len() != "js"@.len()); }
    assert("png"@ != "mjs"@) by { assert("png"@[0] != "mjs"@[0]); }
    assert("png"@ != "cjs"@) by { assert("png"@[0] != "cjs"@[0]); }
    assert("png"@ != "jsx"@) by { assert("png"@[0] != "jsx"@[0]); }
    assert("png"@ != "ts"@) by { assert("png"@.len() != "ts"@.len()); }
    assert("png"@ != "tsx"@) by { assert("png"@[0] != "tsx"@[0]); }
    assert("png"@ != "lua"@) by { assert("png"@[0] != "lua"@[0]); }
    assert("png"@ != "pl"@) by { assert("png"@.len() != "pl"@.len()); }
    assert("png"@ != "sh"@) by { assert("png"@.len() != "sh"@.len()); }
    assert("png"@ != "bash"@) by { assert("png"@.len() != "bash"@.len()); }
    assert("png"@ != "zsh"@) by { assert("png"@[0] != "zsh"@[0]); }
    assert("png"@ != "php"@) by { assert("png"@[1] != "php"@[1]); }
    assert("png"@ != "html"@) by { assert("png"@.len() != "html"@.len()); }
    assert("png"@ != "htm"@) by { assert("png"@[0] != "htm"@[0]); }
    assert("png"@ != "xml"@) by { assert("png"@[0] != "xml"@[0]); }
    assert("png"@ != "svg"@) by { assert("png"@[0] != "svg"@[0]); }
    assert("png"@ != "css"@) by { assert("png"@[0] != "css"@[0]); }
    assert("png"@ != "scss"@) by { assert("png"@.len() != "scss"@.len()); }
    assert("png"@ != "sass"@) by { assert("png"@.len() != "sass"@.len()); }
    assert("png"@ != "less"@) by { assert("png"@.len() != "less"@.len()); }
    assert("png"@ != "md"@) by { assert("png"@.len() != "md"@.len()); }
    assert("png"@ != "mdx"@) by { assert("png"@[0] != "mdx"@[0]); }
    assert("png"@ != "txt"@) by { assert("png"@[0] != "txt"@[0]); }
    assert("png"@ != "rst"@) by { assert("png"@[0] != "rst"@[0]); }
    assert("png"@ != "adoc"@) by { assert("png"@.len() != "adoc"@.len()); }
    assert("png"@ != "asciidoc"@) by { assert("png"@.len() != "asciidoc"@.len()); }
    assert("png"@ != "json"@) by { assert("png"@.len() != "json"@.len()); }
    assert("png"@ != "yaml"@) by { assert("png"@.len() != "yaml"@.len()); }
    assert("png"@ != "yml"@) by { assert("png"@[0] != "yml"@[0]); }
    assert("png"@ != "toml"@) by { assert("png"@.len() != "toml"@.len()); }
    assert("png"@ != "csv"@) by { assert("png"@[0] != "csv"@[0]); }
    assert("png"@ != "tsv"@) by { assert("png"@[0] != "tsv"@[0]); }
    assert("png"@ != "ini"@) by { assert("png"@[0] != "ini"@[0]); }
    assert("png"@ != "conf"@) by { assert("png"@.len() != "conf"@.len()); }
    assert("png"@ != "log"@) by { assert("png"@[0] != "log"@[0]); }
    assert(ext_kind("png"@) == ExtKind::Image);
    assert("jpg"@ != "rs"@) by { assert("jpg"@.len() != "rs"@.len()); }
    assert("jpg"@ != "go"@) by { assert("jpg"@.len() != "go"@.len()); }
    assert("jpg"@ != "py"@) by { assert("jpg"@.len() != "py"@.len()); }
    assert("jpg"@ != "rb"@) by { assert("jpg"@.len() != "rb"@.len()); }
    assert("jpg"@ != "java"@) by { assert("jpg"@.len() != "java"@.len()); }
    assert("jpg"@ != "kt"@) by { assert("jpg"@.len() != "kt"@.len()); }
    assert("jpg"@ != "swift"@) by { assert("jpg"@.len() != "swift"@.len()); }
    assert("jpg"@ != "c"@) by { assert("jpg"@.len() != "c"@.len()); }
    assert("jpg"@ != "h"@) by { assert("jpg"@.len() != "h"@.len()); }
    assert("jpg"@ != "cpp"@) by { assert("jpg"@[0] != "cpp"@[0]); }
    assert("jpg"@ != "hpp"@) by { assert("jpg"@[0] != "hpp"@[0]); }
    assert("jpg"@ != "cc"@) by { assert("jpg"@.len() != "cc"@.len()); }
    assert("jpg"@ != "js"@) by { assert("jpg"@.len() != "js"@.len()); }
    assert("jpg"@ != "mjs"@) by { assert("jpg"@[0] != "mjs"@[0]); }
    assert("jpg"@ != "cjs"@) by { assert("jpg"@[0] != "cjs"@[0]); }
    assert("jpg"@ != "jsx"@) by { assert("jpg"@[1] != "jsx"@[1]); }
    assert("jpg"@ != "ts"@) by { assert("jpg"@.len() != "ts"@.len()); }
    assert("jpg"@ != "tsx"@) by { assert("jpg"@[0] != "tsx"@[0]); }
    assert("jpg"@ != "lua"@) by { assert("jpg"@[0] != "lua"@[0]); }
    assert("jpg"@ != "pl"@) by { assert("jpg"@.len() != "pl"@.len()); }
    assert("jpg"@ != "sh"@) by { assert("jpg"@.len() != "sh"@.len()); }
    assert("jpg"@ != "bash"@) by { assert("jpg"@.len() != "bash"@.len()); }
    assert("jpg"@ != "zsh"@) by { assert("jpg"@[0] != "zsh"@[0]); }
    assert("jpg"@ != "php"@) by { assert("jpg"@[0] != "php"@[0]); }
    assert("jpg"@ != "html"@) by { assert("jpg"@.len() != "html"@.len()); }
    assert("jpg"@ != "htm"@) by { assert("jpg"@[0] != "htm"@[0]); }
    assert("jpg"@ != "xml"@) by { assert("jpg"@[0] != "xml"@[0]); }
    assert("jpg"@ != "svg"@) by { assert("jpg"@[0] != "svg"@[0]); }
    assert("jpg"@ != "css"@) by { assert("jpg"@[0] != "css"@[0]); }
    assert("jpg"@ != "scss"@) by { assert("jpg"@.len() != "scss"@.len()); }
    assert("jpg"@ != "sass"@) by { assert("jpg"@.len() != "sass"@.len()); }
    assert("jpg"@ != "less"@) by { assert("jpg"@.len() != "less"@.len()); }
    assert("jpg"@ != "md"@) by { assert("jpg"@.len() != "md"@.len()); }
    assert("jpg"@ != "mdx"@) by { assert("jpg"@[0] != "mdx"@[0]); }
    assert("jpg"@ != "txt"@) by { assert("jpg"@[0] != "txt"@[0]); }
    assert("jpg"@ != "rst"@) by { assert("jpg"@[0] != "rst"@[0]); }
    assert("jpg"@ != "adoc"@) by { assert("jpg"@.len() != "adoc"@.len()); }
    assert("jpg"@ != "asciidoc"@) by { assert("jpg"@.len() != "asciidoc"@.len()); }
    assert("jpg"@ != "json"@) by { assert("jpg"@.len() != "json"@.len()); }
    assert("jpg"@ != "yaml"@) by { assert("jpg"@.len() != "yaml"@.len()); }
    assert("jpg"@ != "yml"@) by { assert("jpg"@[0] != "yml"@[0]); }
    assert("jpg"@ != "toml"@) by { assert("jpg"@.len() != "toml"@.len()); }
    assert("jpg"@ != "csv"@) by { assert("jpg"@[0] != "csv"@[0]); }
    assert("jpg"@ != "tsv"@) by { assert("jpg"@[0] != "tsv"@[0]); }
    assert("jpg"@ != "ini"@) by { assert("jpg"@[0] != "ini"@[0]); }
    assert("jpg"@ != "conf"@) by { assert("jpg"@.len() != "conf"@.len()); }
    assert("jpg"@ != "log"@) by { assert("jpg"@[0] != "log"@[0]); }
    assert(ext_kind("jpg"@) == ExtKind::Image);
    assert("jpeg"@ != "rs"@) by { assert("jpeg"@.len() != "rs"@.len()); }
    assert("jpeg"@ != "go"@) by { assert("jpeg"@.len() != "go"@.len()); }
    assert("jpeg"@ != "py"@) by { assert("jpeg"@.len() != "py"@.len()); }
    assert("jpeg"@ != "rb"@) by { assert("jpeg"@.len() != "rb"@.len()); }
    assert("jpeg"@ != "java"@) by { assert("jpeg"@[1] != "java"@[1]); }
    assert("jpeg"@ != "kt"@) by { assert("jpeg"@.len() != "kt"@.len()); }
    assert("jpeg"@ != "swift"@) by { assert("jpeg"@.len() != "swift"@.len()); }
    assert("jpeg"@ != "c"@) by { assert("jpeg"@.len() != "c"@.len()); }
    assert("jpeg"@ != "h"@) by { assert("jpeg"@.len() != "h"@.len()); }
    assert("jpeg"@ != "cpp"@) by { assert("jpeg"@.len() != "cpp"@.len()); }
    assert("jpeg"@ != "hpp"@) by { assert("jpeg"@.len() != "hpp"@.len()); }
    assert("jpeg"@ != "cc"@) by { assert("jpeg"@.len() != "cc"@.len()); }
    assert("jpeg"@ != "js"@) by { assert("jpeg"@.len() != "js"@.len()); }
    assert("jpeg"@ != "mjs"@) by { assert("jpeg"@.len() != "mjs"@.len()); }
    assert("jpeg"@ != "cjs"@) by { assert("jpeg"@.len() != "cjs"@.len()); }
    assert("jpeg"@ != "jsx"@) by { assert("jpeg"@.len() != "jsx"@.len()); }
    assert("jpeg"@ != "ts"@) by { assert("jpeg"@.len() != "ts"@.len()); }
    assert("jpeg"@ != "tsx"@) by { assert("jpeg"@.len() != "tsx"@.len()); }
    assert("jpeg"@ != "lua"@) by { assert("jpeg"@.len() != "lua"@.len()); }
    assert("jpeg"@ != "pl"@) by { assert("jpeg"@.len() != "pl"@.len()); }
    assert("jpeg"@ != "sh"@) by { assert("jpeg"@.len() != "sh"@.len()); }
    assert("jpeg"@ != "bash"@) by { assert("jpeg"@[0] != "bash"@[0]); }
    assert("jpeg"@ != "zsh"@) by { assert("jpeg"@.len() != "zsh"@.len()); }
    assert("jpeg"@ != "php"@) by { assert("jpeg"@.len() != "php"@.len()); }
    assert("jpeg"@ != "html"@) by { assert("jpeg"@[0] != "html"@[0]); }
    assert("jpeg"@ != "htm"@) by { assert("jpeg"@.len() != "htm"@.len()); }
    assert("jpeg"@ != "xml"@) by { assert("jpeg"@.len() != "xml"@.len()); }
    assert("jpeg"@ != "svg"@) by { assert("jpeg"@.len() != "svg"@.len()); }
    assert("jpeg"@ != "css"@) by { assert("jpeg"@.len() != "css"@.len()); }
    assert("jpeg"@ != "scss"@) by { assert("jpeg"@[0] != "scss"@[0]); }
    assert("jpeg"@ != "sass"@) by { assert("jpeg"@[0] != "sass"@[0]); }
    assert("jpeg"@ != "less"@) by { assert("jpeg"@[0] != "less"@[0]); }
    assert("jpeg"@ != "md"@) by { assert("jpeg"@.len() != "md"@.len()); }
    assert("jpeg"@ != "mdx"@) by { assert("jpeg"@.len() != "mdx"@.len()); }
    assert("jpeg"@ != "txt"@) by { assert("jpeg"@.len() != "txt"@.len()); }
    assert("jpeg"@ != "rst"@) by { assert("jpeg"@.len() != "rst"@.len()); }
    assert("jpeg"@ != "adoc"@) by { assert("jpeg"@[0] != "adoc"@[0]); }
    assert("jpeg"@ != "asciidoc"@) by { assert("jpeg"@.len() != "asciidoc"@.len()); }
    assert("jpeg"@ != "json"@) by { assert("jpeg"@[1] != "json"@[1]); }
    assert("jpeg"@ != "yaml"@) by { assert("jpeg"@[0] != "yaml"@[0]); }
    assert("jpeg"@ != "yml"@) by { assert("jpeg"@.len() != "yml"@.len()); }
    assert("jpeg"@ != "toml"@) by { assert("jpeg"@[0] != "toml"@[0]); }
    assert("jpeg"@ != "csv"@) by { assert("jpeg"@.len() != "csv"@.len()); }
    assert("jpeg"@ != "tsv"@) by { assert("jpeg"@.len() != "tsv"@.len()); }
    assert("jpeg"@ != "ini"@) by { assert("jpeg"@.len() != "ini"@.len()); }
    assert("jpeg"@ != "conf"@) by { assert("jpeg"@[0] != "conf"@[0]); }
    assert("jpeg"@ != "log"@) by { assert("jpeg"@.len() != "log"@.len()); }
    assert(ext_kind("jpeg"@) == ExtKind::Image);
    assert("gif"@ != "rs"@) by { assert("gif"@.len() != "rs"@.len()); }
    assert("gif"@ != "go"@) by { assert("gif"@.len() != "go"@.len()); }
    assert("gif"@ != "py"@) by { assert("gif"@.len() != "py"@.len()); }
    assert("gif"@ != "rb"@) by { assert("gif"@.len() != "rb"@.len()); }
    assert("gif"@ != "java"@) by { assert("gif"@.len() != "java"@.len()); }
    assert("gif"@ != "kt"@) by { assert("gif"@.len() != "kt"@.len()); }
    assert("gif"@ != "swift"@) by { assert("gif"@.len() != "swift"@.len()); }
    assert("gif"@ != "c"@) by { assert("gif"@.len() != "c"@.len()); }
    assert("gif"@ != "h"@) by { assert("gif"@.len() != "h"@.len()); }
    assert("gif"@ != "cpp"@) by { assert("gif"@[0] != "cpp"@[0]); }
    assert("gif"@ != "hpp"@) by { assert("gif"@[0] != "hpp"@[0]); }
    assert("gif"@ != "cc"@) by { assert("gif"@.len() != "cc"@.len()); }
    assert("gif"@ != "js"@) by { assert("gif"@.len() != "js"@.len()); }
    assert("gif"@ != "mjs"@) by { assert("gif"@[0] != "mjs"@[0]); }
    assert("gif"@ != "cjs"@) by { assert("gif"@[0] != "cjs"@[0]); }
    assert("gif"@ != "jsx"@) by { assert("gif"@[0] != "jsx"@[0]); }
    assert("gif"@ != "ts"@) by { assert("gif"@.len() != "ts"@.len()); }
    assert("gif"@ != "tsx"@) by { assert("gif"@[0] != "tsx"@[0]); }
    assert("gif"@ != "lua"@) by { assert("gif"@[0] != "lua"@[0]); }
    assert("gif"@ != "pl"@) by { assert("gif"@.len() != "pl"@.len()); }
    assert("gif"@ != "sh"@) by { assert("gif"@.len() != "sh"@.len()); }
    assert("gif"@ != "bash"@) by { assert("gif"@.len() != "bash"@.len()); }
    assert("gif"@ != "zsh"@) by { assert("gif"@[0] != "zsh"@[0]); }
    assert("gif"@ != "php"@) by { assert("gif"@[0] != "php"@[0]); }
    assert("gif"@ != "html"@) by { assert("gif"@.len() != "html"@.len()); }
    assert("gif"@ != "htm"@) by { assert("gif"@[0] != "htm"@[0]); }
    assert("gif"@ != "xml"@) by { assert("gif"@[0] != "xml"@[0]); }
    assert("gif"@ != "svg"@) by { assert("gif"@[0] != "svg"@[0]); }
    assert("gif"@ != "css"@) by { assert("gif"@[0] != "css"@[0]); }
    assert("gif"@ != "scss"@) by { assert("gif"@.len() != "scss"@.len()); }
    assert("gif"@ != "sass"@) by { assert("gif"@.len() != "sass"@.len()); }
    assert("gif"@ != "less"@) by { assert("gif"@.len() != "less"@.len()); }
    assert("gif"@ != "md"@) by { assert("gif"@.len() != "md"@.len()); }
    assert("gif"@ != "mdx"@) by { assert("gif"@[0] != "mdx"@[0]); }
    assert("gif"@ != "txt"@) by { assert("gif"@[0] != "txt"@[0]); }
    assert("gif"@ != "rst"@) by { assert("gif"@[0] != "rst"@[0]); }
    assert("gif"@ != "adoc"@) by { assert("gif"@.len() != "adoc"@.len()); }
    assert("gif"@ != "asciidoc"@) by { assert("gif"@.len() != "asciidoc"@.len()); }
    assert("gif"@ != "json"@) by { assert("gif"@.len() != "json"@.len()); }
    assert("gif"@ != "yaml"@) by { assert("gif"@.len() != "yaml"@.len()); }
    assert("gif"@ != "yml"@) by { assert("gif"@[0] != "yml"@[0]); }
    assert("gif"@ != "toml"@) by { assert("gif"@.len() != "toml"@.len()); }
    assert("gif"@ != "csv"@) by { assert("gif"@[0] != "csv"@[0]); }
    assert("gif"@ != "tsv"@) by { assert("gif"@[0] != "tsv"@[0]); }
    assert("gif"@ != "ini"@) by { assert("gif"@[0] != "ini"@[0]); }
    assert("gif"@ != "conf"@) by { assert("gif"@.len() != "conf"@.len()); }
    assert("gif"@ != "log"@) by { assert("gif"@[0] != "log"@[0]); }
    assert(ext_kind("gif"@) == ExtKind::Image);
    assert("webp"@ != "rs"@) by { assert("webp"@.len() != "rs"@.len()); }
    assert("webp"@ != "go"@) by { assert("webp"@.len() != "go"@.len()); }
    assert("webp"@ != "py"@) by { assert("webp"@.len() != "py"@.len()); }
    assert("webp"@ != "rb"@) by { assert("webp"@.len() != "rb"@.len()); }
    assert("webp"@ != "java"@) by { assert("webp"@[0] != "java"@[0]); }
    assert("webp"@ != "kt"@) by { assert("webp"@.len() != "kt"@.len()); }
    assert("webp"@ != "swift"@) by { assert("webp"@.len() != "swift"@.len()); }
    assert("webp"@ != "c"@) by { assert("webp"@.len() != "c"@.len()); }
    assert("webp"@ != "h"@) by { assert("webp"@.len() != "h"@.len()); }
    assert("webp"@ != "cpp"@) by { assert("webp"@.len() != "cpp"@.len()); }
    assert("webp"@ != "hpp"@) by { assert("webp"@.len() != "hpp"@.len()); }
    assert("webp"@ != "cc"@) by { assert("webp"@.len() != "cc"@.len()); }
    assert("webp"@ != "js"@) by { assert("webp"@.len() != "js"@.len()); }
    assert("webp"@ != "mjs"@) by { assert("webp"@.len() != "mjs"@.len()); }
    assert("webp"@ != "cjs"@) by { assert("webp"@.len() != "cjs"@.len()); }
    assert("webp"@ != "jsx"@) by { assert("webp"@.len() != "jsx"@.len()); }
    assert("webp"@ != "ts"@) by { assert("webp"@.len() != "ts"@.len()); }
    assert("webp"@ != "tsx"@) by { assert("webp"@.len() != "tsx"@.len()); }
    assert("webp"@ != "lua"@) by { assert("webp"@.len() != "lua"@.len()); }
    assert("webp"@ != "pl"@) by { assert("webp"@.len() != "pl"@.len()); }
    assert("webp"@ != "sh"@) by { assert("webp"@.len() != "sh"@.len()); }
    assert("webp"@ != "bash"@) by { assert("webp"@[0] != "bash"@[0]); }
    assert("webp"@ != "zsh"@) by { assert("webp"@.len() != "zsh"@.len()); }
    assert("webp"@ != "php"@) by { assert("webp"@.len() != "php"@.len()); }
    assert("webp"@ != "html"@) by { assert("webp"@[0] != "html"@[0]); }
    assert("webp"@ != "htm"@) by { assert("webp"@.len() != "htm"@.len()); }
    assert("webp"@ != "xml"@) by { assert("webp"@.len() != "xml"@.len()); }
    assert("webp"@ != "svg"@) by { assert("webp"@.len() != "svg"@.len()); }
    assert("webp"@ != "css"@) by { assert("webp"@.len() != "css"@.len()); }
    assert("webp"@ != "scss"@) by { assert("webp"@[0] != "scss"@[0]); }
    assert("webp"@ != "sass"@) by { assert("webp"@[0] != "sass"@[0]); }
    assert("webp"@ != "less"@) by { assert("webp"@[0] != "less"@[0]); }
    assert("webp"@ != "md"@) by { assert("webp"@.len() != "md"@.len()); }
    assert("webp"@ != "mdx"@) by { assert("webp"@.len() != "mdx"@.len()); }
    assert("webp"@ != "txt"@) by { assert("webp"@.len() != "txt"@.len()); }
    assert("webp"@ != "rst"@) by { assert("webp"@.len() != "rst"@.len()); }
    assert("webp"@ != "adoc"@) by { assert("webp"@[0] != "adoc"@[0]); }
    assert("webp"@ != "asciidoc"@) by { assert("webp"@.len() != "asciidoc"@.len()); }
    assert("webp"@ != "json"@) by { assert("webp"@[0] != "json"@[0]); }
    assert("webp"@ != "yaml"@) by { assert("webp"@[0] != "yaml"@[0]); }
    assert("webp"@ != "yml"@) by { assert("webp"@.len() != "yml"@.len()); }
    assert("webp"@ != "toml"@) by { assert("webp"@[0] != "toml"@[0]); }
    assert("webp"@ != "csv"@) by { assert("webp"@.len() != "csv"@.len()); }
    assert("webp"@ != "tsv"@) by { assert("webp"@.len() != "tsv"@.len()); }
    assert("webp"@ != "ini"@) by { assert("webp"@.len() != "ini"@.len()); }
    assert("webp"@ != "conf"@) by { assert("webp"@[0] != "conf"@[0]); }
    assert("webp"@ != "log"@) by { assert("webp"@.len() != "log"@.len()); }
    assert(ext_kind("webp"@) == ExtKind::Image);
    assert("bmp"@ != "rs"@) by { assert("bmp"@.len() != "rs"@.len()); }
    assert("bmp"@ != "go"@) by { assert("bmp"@.len() != "go"@.len()); }
    assert("bmp"@ != "py"@) by { assert("bmp"@.len() != "py"@.len()); }
    assert("bmp"@ != "rb"@) by { assert("bmp"@.len() != "rb"@.len()); }
    assert("bmp"@ != "java"@) by { assert("bmp"@.len() != "java"@.len()); }
    assert("bmp"@ != "kt"@) by { assert("bmp"@.len() != "kt"@.len()); }
    assert("bmp"@ != "swift"@) by { assert("bmp"@.len() != "swift"@.len()); }
    assert("bmp"@ != "c"@) by { assert("bmp"@.len() != "c"@.len()); }
    assert("bmp"@ != "h"@) by { assert("bmp"@.len() != "h"@.len()); }
    assert("bmp"@ != "cpp"@) by { assert("bmp"@[0] != "cpp"@[0]); }
    assert("bmp"@ != "hpp"@) by { assert("bmp"@[0] != "hpp"@[0]); }
    assert("bmp"@ != "cc"@) by { assert("bmp"@.len() != "cc"@.len()); }
    assert("bmp"@ != "js"@) by { assert("bmp"@.len() != "js"@.len()); }
    assert("bmp"@ != "mjs"@) by { assert("bmp"@[0] != "mjs"@[0]); }
    assert("bmp"@ != "cjs"@) by { assert("bmp"@[0] != "cjs"@[0]); }
    assert("bmp"@ != "jsx"@) by { assert("bmp"@[0] != "jsx"@[0]); }
    assert("bmp"@ != "ts"@) by { assert("bmp"@.len() != "ts"@.len()); }
    assert("bmp"@ != "tsx"@) by { assert("bmp"@[0] != "tsx"@[0]); }
    assert("bmp"@ != "lua"@) by { assert("bmp"@[0] != "lua"@[0]); }
    assert("bmp"@ != "pl"@) by { assert("bmp"@.len() != "pl"@.len()); }
    assert("bmp"@ != "sh"@) by { assert("bmp"@.len() != "sh"@.len()); }
    assert("bmp"@ != "bash"@) by { assert("bmp"@.len() != "bash"@.len()); }
    assert("bmp"@ != "zsh"@) by { assert("bmp"@[0] != "zsh"@[0]); }
    assert("bmp"@ != "php"@) by { assert("bmp"@[0] != "php"@[0]); }
    assert("bmp"@ != "html"@) by { assert("bmp"@.len() != "html"@.len()); }
    assert("bmp"@ != "htm"@) by { assert("bmp"@[0] != "htm"@[0]); }
    assert("bmp"@ != "xml"@) by { assert("bmp"@[0] != "xml"@[0]); }
    assert("bmp"@ != "svg"@) by { assert("bmp"@[0] != "svg"@[0]); }
    assert("bmp"@ != "css"@) by { assert("bmp"@[0] != "css"@[0]); }
    assert("bmp"@ != "scss"@) by { assert("bmp"@.len() != "scss"@.len()); }
    assert("bmp"@ != "sass"@) by { assert("bmp"@.len() != "sass"@.len()); }
    assert("bmp"@ != "less"@) by { assert("bmp"@.len() != "less"@.len()); }
    assert("bmp"@ != "md"@) by { assert("bmp"@.len() != "md"@.len()); }
    assert("bmp"@ != "mdx"@) by { assert("bmp"@[0] != "mdx"@[0]); }
    assert("bmp"@ != "txt"@) by { assert("bmp"@[0] != "txt"@[0]); }
    assert("bmp"@ != "rst"@) by { assert("bmp"@[0] != "rst"@[0]); }
    assert("bmp"@ != "adoc"@) by { assert("bmp"@.len() != "adoc"@.len()); }
    assert("bmp"@ != "asciidoc"@) by { assert("bmp"@.len() != "asciidoc"@.len()); }
    assert("bmp"@ != "json"@) by { assert("bmp"@.len() != "json"@.len()); }
    assert("bmp"@ != "yaml"@) by { assert("bmp"@.len() != "yaml"@.len()); }
    assert("bmp"@ != "yml"@) by { assert("bmp"@[0] != "yml"@[0]); }
    assert("bmp"@ != "toml"@) by { assert("bmp"@.len() != "toml"@.len()); }
    assert("bmp"@ != "csv"@) by { assert("bmp"@[0] != "csv"@[0]); }
    assert("bmp"@ != "tsv"@) by { assert("bmp"@[0] != "tsv"@[0]); }
    assert("bmp"@ != "ini"@) by { assert("bmp"@[0] != "ini"@[0]); }
    assert("bmp"@ != "conf"@) by { assert("bmp"@.len() != "conf"@.len()); }
    assert("bmp"@ != "log"@) by { assert("bmp"@[0] != "log"@[0]); }
    assert(ext_kind("bmp"@) == ExtKind::Image);
    assert("tiff"@ != "rs"@) by { assert("tiff"@.len() != "rs"@.len()); }
    assert("tiff"@ != "go"@) by { assert("tiff"@.len() != "go"@.len()); }
    assert("tiff"@ != "py"@) by { assert("tiff"@.len() != "py"@.len()); }
    assert("tiff"@ != "rb"@) by { assert("tiff"@.len() != "rb"@.len()); }
    assert("tiff"@ != "java"@) by { assert("tiff"@[0] != "java"@[0]); }
    assert("tiff"@ != "kt"@) by { assert("tiff"@.len() != "kt"@.len()); }
    assert("tiff"@ != "swift"@) by { assert("tiff"@.len() != "swift"@.len()); }
    assert("tiff"@ != "c"@) by { assert("tiff"@.len() != "c"@.len()); }
    assert("tiff"@ != "h"@) by { assert("tiff"@.len() != "h"@.len()); }
    assert("tiff"@ != "cpp"@) by { assert("tiff"@.len() != "cpp"@.len()); }
    assert("tiff"@ != "hpp"@) by { assert("tiff"@.len() != "hpp"@.len()); }
    assert("tiff"@ != "cc"@) by { assert("tiff"@.len() != "cc"@.len()); }
    assert("tiff"@ != "js"@) by { assert("tiff"@.len() != "js"@.len()); }
    assert("tiff"@ != "mjs"@) by { assert("tiff"@.len() != "mjs"@.len()); }
    assert("tiff"@ != "cjs"@) by { assert("tiff"@.len() != "cjs"@.len()); }
    assert("tiff"@ != "jsx"@) by { assert("tiff"@.len() != "jsx"@.len()); }
    assert("tiff"@ != "ts"@) by { assert("tiff"@.len() != "ts"@.len()); }
    assert("tiff"@ != "tsx"@) by { assert("tiff"@.len() != "tsx"@.len()); }
    assert("tiff"@ != "lua"@) by { assert("tiff"@.len() != "lua"@.len()); }
    assert("tiff"@ != "pl"@) by { assert("tiff"@.len() != "pl"@.len()); }
    assert("tiff"@ != "sh"@) by { assert("tiff"@.len() != "sh"@.len()); }
    assert("tiff"@ != "bash"@) by { assert("tiff"@[0] != "bash"@[0]); }
    assert("tiff"@ != "zsh"@) by { assert("tiff"@.len() != "zsh"@.len()); }
    assert("tiff"@ != "php"@) by { assert("tiff"@.len() != "php"@.len()); }
    assert("tiff"@ != "html"@) by { assert("tiff"@[0] != "html"@[0]); }
    assert("tiff"@ != "htm"@) by { assert("tiff"@.len() != "htm"@.len()); }
    assert("tiff"@ != "xml"@) by { assert("tiff"@.len() != "xml"@.len()); }
    assert("tiff"@ != "svg"@) by { assert("tiff"@.len() != "svg"@.len()); }
    assert("tiff"@ != "css"@) by { assert("tiff"@.len() != "css"@.len()); }
    assert("tiff"@ != "scss"@) by { assert("tiff"@[0] != "scss"@[0]); }
    assert("tiff"@ != "sass"@) by { assert("tiff"@[0] != "sass"@[0]); }
    assert("tiff"@ != "less"@) by { assert("tiff"@[0] != "less"@[0]); }
    assert("tiff"@ != "md"@) by { assert("tiff"@.len() != "md"@.len()); }
    assert("tiff"@ != "mdx"@) by { assert("tiff"@.len() != "mdx"@.len()); }
    assert("tiff"@ != "txt"@) by { assert("tiff"@.len() != "txt"@.len()); }
    assert("tiff"@ != "rst"@) by { assert("tiff"@.len() != "rst"@.len()); }
    assert("tiff"@ != "adoc"@) by { assert("tiff"@[0] != "adoc"@[0]); }
    assert("tiff"@ != "asciidoc"@) by { assert("tiff"@.len() != "asciidoc"@.len()); }
    assert("tiff"@ != "json"@) by { assert("tiff"@[0] != "json"@[0]); }
    assert("tiff"@ != "yaml"@) by { assert("tiff"@[0] != "yaml"@[0]); }
    assert("tiff"@ != "yml"@) by { assert("tiff"@.len() != "yml"@.len()); }
    assert("tiff"@ != "toml"@) by { assert("tiff"@[1] != "toml"@[1]); }
    assert("tiff"@ != "csv"@) by { assert("tiff"@.len() != "csv"@.len()); }
    assert("tiff"@ != "tsv"@) by { assert("tiff"@.len() != "tsv"@.len()); }
    assert("tiff"@ != "ini"@) by { assert("tiff"@.len() != "ini"@.len()); }
    assert("tiff"@ != "conf"@) by { assert("tiff"@[0] != "conf"@[0]); }
    assert("tiff"@ != "log"@) by { assert("tiff"@.len() != "log"@.len()); }
    assert(ext_kind("tiff"@) == ExtKind::Image);
    assert("ico"@ != "rs"@) by { assert("ico"@.len() != "rs"@.len()); }
    assert("ico"@ != "go"@) by { assert("ico"@.len() != "go"@.len()); }
    assert("ico"@ != "py"@) by { assert("ico"@.len() != "py"@.len()); }
    assert("ico"@ != "rb"@) by { assert("ico"@.len() != "rb"@.len()); }
    assert("ico"@ != "java"@) by { assert("ico"@.len() != "java"@.len()); }
    assert("ico"@ != "kt"@) by { assert("ico"@.len() != "kt"@.len()); }
    assert("ico"@ != "swift"@) by { assert("ico"@.len() != "swift"@.len()); }
    assert("ico"@ != "c"@) by { assert("ico"@.len() != "c"@.len()); }
    assert("ico"@ != "h"@) by { assert("ico"@.len() != "h"@.len()); }
    assert("ico"@ != "cpp"@) by { assert("ico"@[0] != "cpp"@[0]); }
    assert("ico"@ != "hpp"@) by { assert("ico"@[0] != "hpp"@[0]); }
    assert("ico"@ != "cc"@) by { assert("ico"@.len() != "cc"@.len()); }
    assert("ico"@ != "js"@) by { assert("ico"@.len() != "js"@.len()); }
    assert("ico"@ != "mjs"@) by { assert("ico"@[0] != "mjs"@[0]); }
    assert("ico"@ != "cjs"@) by { assert("ico"@[0] != "cjs"@[0]); }
    assert("ico"@ != "jsx"@) by { assert("ico"@[0] != "jsx"@[0]); }
    assert("ico"@ != "ts"@) by { assert("ico"@.len() != "ts"@.len()); }
    assert("ico"@ != "tsx"@) by { assert("ico"@[0] != "tsx"@[0]); }
    assert("ico"@ != "lua"@) by { assert("ico"@[0] != "lua"@[0]); }
    assert("ico"@ != "pl"@) by { assert("ico"@.len() != "pl"@.len()); }
    assert("ico"@ != "sh"@) by { assert("ico"@.len() != "sh"@.len()); }
    assert("ico"@ != "bash"@) by { assert("ico"@.len() != "bash"@.len()); }
    assert("ico"@ != "zsh"@) by { assert("ico"@[0] != "zsh"@[0]); }
    assert("ico"@ != "php"@) by { assert("ico"@[0] != "php"@[0]); }
    assert("ico"@ != "html"@) by { assert("ico"@.len() != "html"@.len()); }
    assert("ico"@ != "htm"@) by { assert("ico"@[0] != "htm"@[0]); }
    assert("ico"@ != "xml"@) by { assert("ico"@[0] != "xml"@[0]); }
    assert("ico"@ != "svg"@) by { assert("ico"@[0] != "svg"@[0]); }
    assert("ico"@ != "css"@) by { assert("ico"@[0] != "css"@[0]); }
    assert("ico"@ != "scss"@) by { assert("ico"@.len() != "scss"@.len()); }
    assert("ico"@ != "sass"@) by { assert("ico"@.len() != "sass"@.len()); }
    assert("ico"@ != "less"@) by { assert("ico"@.len() != "less"@.len()); }
    assert("ico"@ != "md"@) by { assert("ico"@.len() != "md"@.len()); }
    assert("ico"@ != "mdx"@) by { assert("ico"@[0] != "mdx"@[0]); }
    assert("ico"@ != "txt"@) by { assert("ico"@[0] != "txt"@[0]); }
    assert("ico"@ != "rst"@) by { assert("ico"@[0] != "rst"@[0]); }
    assert("ico"@ != "adoc"@) by { assert("ico"@.len() != "adoc"@.len()); }
    assert("ico"@ != "asciidoc"@) by { assert("ico"@.len() != "asciidoc"@.len()); }
    assert("ico"@ != "json"@) by { assert("ico"@.len() != "json"@.len()); }
    assert("ico"@ != "yaml"@) by { assert("ico"@.len() != "yaml"@.len()); }
    assert("ico"@ != "yml"@) by { assert("ico"@[0] != "yml"@[0]); }
    assert("ico"@ != "toml"@) by { assert("ico"@.len() != "toml"@.len()); }
    assert("ico"@ != "csv"@) by { assert("ico"@[0] != "csv"@[0]); }
    assert("ico"@ != "tsv"@) by { assert("ico"@[0] != "tsv"@[0]); }
    assert("ico"@ != "ini"@) by { assert("ico"@[1] != "ini"@[1]); }
    assert("ico"@ != "conf"@) by { assert("ico"@.len() != "conf"@.len()); }
    assert("ico"@ != "log"@) by { assert("ico"@[0] != "log"@[0]); }
    assert(ext_kind("ico"@) == ExtKind::Image);
    assert("psd"@ != "rs"@) by { assert("psd"@.len() != "rs"@.len()); }
    assert("psd"@ != "go"@) by { assert("psd"@.len() != "go"@.len()); }
    assert("psd"@ != "py"@) by { assert("psd"@.len() != "py"@.len()); }
    assert("psd"@ != "rb"@) by { assert("psd"@.len() != "rb"@.len()); }
    assert("psd"@ != "java"@) by { assert("psd"@.len() != "java"@.len()); }
    assert("psd"@ != "kt"@) by { assert("psd"@.len() != "kt"@.len()); }
    assert("psd"@ != "swift"@) by { assert("psd"@.len() != "swift"@.len()); }
    assert("psd"@ != "c"@) by { assert("psd"@.len() != "c"@.len()); }
    assert("psd"@ != "h"@) by { assert("psd"@.len() != "h"@.len()); }
    assert("psd"@ != "cpp"@) by { assert("psd"@[0] != "cpp"@[0]); }
    assert("psd"@ != "hpp"@) by { assert("psd"@[0] != "hpp"@[0]); }
    assert("psd"@ != "cc"@) by { assert("psd"@.len() != "cc"@.len()); }
    assert("psd"@ != "js"@) by { assert("psd"@.len() != "js"@.len()); }
    assert("psd"@ != "mjs"@) by { assert("psd"@[0] != "mjs"@[0]); }
    assert("psd"@ != "cjs"@) by { assert("psd"@[0] != "cjs"@[0]); }
    assert("psd"@ != "jsx"@) by { assert("psd"@[0] != "jsx"@[0]); }
    assert("psd"@ != "ts"@) by { assert("psd"@.len() != "ts"@.len()); }
    assert("psd"@ != "tsx"@) by { assert("psd"@[0] != "tsx"@[0]); }
    assert("psd"@ != "lua"@) by { assert("psd"@[0] != "lua"@[0]); }
    assert("psd"@ != "pl"@) by { assert("psd"@.len() != "pl"@.len()); }
    assert("psd"@ != "sh"@) by { assert("psd"@.len() != "sh"@.len()); }
    assert("psd"@ != "bash"@) by { assert("psd"@.len() != "bash"@.len()); }
    assert("psd"@ != "zsh"@) by { assert("psd"@[0] != "zsh"@[0]); }
    assert("psd"@ != "php"@) by { assert("psd"@[1] != "php"@[1]); }
    assert("psd"@ != "html"@) by { assert("psd"@.len() != "html"@.len()); }
    assert("psd"@ != "htm"@) by { assert("psd"@[0] != "htm"@[0]); }
    assert("psd"@ != "xml"@) by { assert("psd"@[0] != "xml"@[0]); }
    assert("psd"@ != "svg"@) by { assert("psd"@[0] != "svg"@[0]); }
    assert("psd"@ != "css"@) by { assert("psd"@[0] != "css"@[0]); }
    assert("psd"@ != "scss"@) by { assert("psd"@.len() != "scss"@.len()); }
    assert("psd"@ != "sass"@) by { assert("psd"@.len() != "sass"@.len()); }
    assert("psd"@ != "less"@) by { assert("psd"@.len() != "less"@.len()); }
    assert("psd"@ != "md"@) by { assert("psd"@.len() != "md"@.len()); }
    assert("psd"@ != "mdx"@) by { assert("psd"@[0] != "mdx"@[0]); }
    assert("psd"@ != "txt"@) by { assert("psd"@[0] != "txt"@[0]); }
    assert("psd"@ != "rst"@) by { assert("psd"@[0] != "rst"@[0]); }
    assert("psd"@ != "adoc"@) by { assert("psd"@.len() != "adoc"@.len()); }
    assert("psd"@ != "asciidoc"@) by { assert("psd"@.len() != "asciidoc"@.len()); }
    assert("psd"@ != "json"@) by { assert("psd"@.len() != "json"@.len()); }
    assert("psd"@ != "yaml"@) by { assert("psd"@.len() != "yaml"@.len()); }
    assert("psd"@ != "yml"@) by { assert("psd"@[0] != "yml"@[0]); }
    assert("psd"@ != "toml"@) by { assert("psd"@.len() != "toml"@.len()); }
    assert("psd"@ != "csv"@) by { assert("psd"@[0] != "csv"@[0]); }
    assert("psd"@ != "tsv"@) by { assert("psd"@[0] != "tsv"@[0]); }
    assert("psd"@ != "ini"@) by { assert("psd"@[0] != "ini"@[0]); }
    assert("psd"@ != "conf"@) by { assert("psd"@.len() != "conf"@.len()); }
    assert("psd"@ != "log"@) by { assert("psd"@[0] != "log"@[0]); }
    assert(ext_kind("psd"@) == ExtKind::Image);
    assert("ai"@ != "rs"@) by { assert("ai"@[0] != "rs"@[0]); }
    assert("ai"@ != "go"@) by { assert("ai"@[0] != "go"@[0]); }
    assert("ai"@ != "py"@) by { assert("ai"@[0] != "py"@[0]); }
    assert("ai"@ != "rb"@) by { assert("ai"@[0] != "rb"@[0]); }
    assert("ai"@ != "java"@) by { assert("ai"@.len() != "java"@.len()); }
    assert("ai"@ != "kt"@) by { assert("ai"@[0] != "kt"@[0]); }
    assert("ai"@ != "swift"@) by { assert("ai"@.len() != "swift"@.len()); }
    assert("ai"@ != "c"@) by { assert("ai"@.len() != "c"@.len()); }
    assert("ai"@ != "h"@) by { assert("ai"@.len() != "h"@.len()); }
    assert("ai"@ != "cpp"@) by { assert("ai"@.len() != "cpp"@.len()); }
    assert("ai"@ != "hpp"@) by { assert("ai"@.len() != "hpp"@.len()); }
    assert("ai"@ != "cc"@) by { assert("ai"@[0] != "cc"@[0]); }
    assert("ai"@ != "js"@) by { assert("ai"@[0] != "js"@[0]); }
    assert("ai"@ != "mjs"@) by { assert("ai"@.len() != "mjs"@.len()); }
    assert("ai"@ != "cjs"@) by { assert("ai"@.len() != "cjs"@.len()); }
    assert("ai"@ != "jsx"@) by { assert("ai"@.len() != "jsx"@.len()); }
    assert("ai"@ != "ts"@) by { assert("ai"@[0] != "ts"@[0]); }
    assert("ai"@ != "tsx"@) by { assert("ai"@.len() != "tsx"@.len()); }
    assert("ai"@ != "lua"@) by { assert("ai"@.len() != "lua"@.len()); }
    assert("ai"@ != "pl"@) by { assert("ai"@[0] != "pl"@[0]); }
    assert("ai"@ != "sh"@) by { assert("ai"@[0] != "sh"@[0]); }
    assert("ai"@ != "bash"@) by { assert("ai"@.len() != "bash"@.len()); }
    assert("ai"@ != "zsh"@) by { assert("ai"@.len() != "zsh"@.len()); }
    assert("ai"@ != "php"@) by { assert("ai"@.len() != "php"@.len()); }
    assert("ai"@ != "html"@) by { assert("ai"@.len() != "html"@.len()); }
    assert("ai"@ != "htm"@) by { assert("ai"@.len() != "htm"@.len()); }
    assert("ai"@ != "xml"@) by { assert("ai"@.len() != "xml"@.len()); }
    assert("ai"@ != "svg"@) by { assert("ai"@.len() != "svg"@.len()); }
    assert("ai"@ != "css"@) by { assert("ai"@.len() != "css"@.len()); }
    assert("ai"@ != "scss"@) by { assert("ai"@.len() != "scss"@.len()); }
    assert("ai"@ != "sass"@) by { assert("ai"@.len() != "sass"@.len()); }
    assert("ai"@ != "less"@) by { assert("ai"@.len() != "less"@.len()); }
    assert("ai"@ != "md"@) by { assert("ai"@[0] != "md"@[0]); }
    assert("ai"@ != "mdx"@) by { assert("ai"@.len() != "mdx"@.len()); }
    assert("ai"@ != "txt"@) by { assert("ai"@.len() != "txt"@.len()); }
    assert("ai"@ != "rst"@) by { assert("ai"@.len() != "rst"@.len()); }
    assert("ai"@ != "adoc"@) by { assert("ai"@.len() != "adoc"@.len()); }
    assert("ai"@ != "asciidoc"@) by { assert("ai"@.len() != "asciidoc"@.len()); }
    assert("ai"@ != "json"@) by { assert("ai"@.len() != "json"@.len()); }
    assert("ai"@ != "yaml"@) by { assert("ai"@.len() != "yaml"@.len()); }
    assert("ai"@ != "yml"@) by { assert("ai"@.len() != "yml"@.len()); }
    assert("ai"@ != "toml"@) by { assert("ai"@.len() != "toml"@.len()); }
    assert("ai"@ != "csv"@) by { assert("ai"@.len() != "csv"@.len()); }
    assert("ai"@ != "tsv"@) by { assert("ai"@.len() != "tsv"@.len()); }
    assert("ai"@ != "ini"@) by { assert("ai"@.len() != "ini"@.len()); }
    assert("ai"@ != "conf"@) by { assert("ai"@.len() != "conf"@.len()); }
    assert("ai"@ != "log"@) by { assert("ai"@.len() != "log"@.len()); }
    assert(ext_kind("ai"@) == ExtKind::Image);
}

/// The video extensions of the table.
proof fn lemma_table_video()
    ensures
        ext_kind("mp4"@) == ExtKind::Video,
        ext_kind("mov"@) == ExtKind::Video,
        ext_kind("mkv"@) == ExtKind::Video,
        ext_kind("avi"@) == ExtKind::Video,
        ext_kind("webm"@) == ExtKind::Video,
        ext_kind("flv"@) == ExtKind::Video,
{
    reveal_strlit("mp4");
    reveal_strlit("mov");
    reveal_strlit("mkv");
    reveal_strlit("avi");
    reveal_strlit("webm");
    reveal_strlit("flv");
    reveal_strlit("rs");
    reveal_strlit("go");
    reveal_strlit("py");
    reveal_strlit("rb");
    reveal_strlit("java");
    reveal_strlit("kt");
    reveal_strlit("swift");
    reveal_strlit("c");
    reveal_strlit("h");
    reveal_strlit("cpp");
    reveal_strlit("hpp");
    reveal_strlit("cc");
    reveal_strlit("js");
    reveal_strlit("mjs");
    reveal_strlit("cjs");
    reveal_strlit("jsx");
    reveal_strlit("ts");
    reveal_strlit("tsx");
    reveal_strlit("lua");
    reveal_strlit("pl");
    reveal_strlit("sh");
    reveal_strlit("bash");
    reveal_strlit("zsh");
    reveal_strlit("php");
    reveal_strlit("html");
    reveal_strlit("htm");
    reveal_strlit("xml");
    reveal_strlit("svg");
    reveal_strlit("css");
    reveal_strlit("scss");
    reveal_strlit("sass");
    reveal_strlit("less");
    reveal_strlit("md");
    reveal_strlit("mdx");
    reveal_strlit("txt");
    reveal_strlit("rst");
    reveal_strlit("adoc");
    reveal_strlit("asciidoc");
    reveal_strlit("json");
    reveal_strlit("yaml");
    reveal_strlit("yml");
    reveal_strlit("toml");
    reveal_strlit("csv");
    reveal_strlit("tsv");
    reveal_strlit("ini");
    reveal_strlit("conf");
    reveal_strlit("log");
    reveal_strlit("png");
    reveal_strlit("jpg");
    reveal_strlit("jpeg");
    reveal_strlit("gif");
    reveal_strlit("webp");
    reveal_strlit("bmp");
    reveal_strlit("tiff");
    reveal_strlit("ico");
    reveal_strlit("psd");
    reveal_strlit("ai");
    assert("mp4"@ != "rs"@) by { assert("mp4"@.len() != "rs"@.len()); }
    assert("mp4"@ != "go"@) by { assert("mp4"@.len() != "go"@.len()); }
    assert("mp4"@ != "py"@) by { assert("mp4"@.len() != "py"@.len()); }
    assert("mp4"@ != "rb"@) by { assert("mp4"@.len() != "rb"@.len()); }
    assert("mp4"@ != "java"@) by { assert("mp4"@.len() != "java"@.len()); }
    assert("mp4"@ != "kt"@) by { assert("mp4"@.len() != "kt"@.len()); }
    assert("mp4"@ != "swift"@) by { assert("mp4"@.len() != "swift"@.len()); }
    assert("mp4"@ != "c"@) by { assert("mp4"@.len() != "c"@.len()); }
    assert("mp4"@ != "h"@) by { assert("mp4"@.len() != "h"@.len()); }
    assert("mp4"@ != "cpp"@) by { assert("mp4"@[0] != "cpp"@[0]); }
    assert("mp4"@ != "hpp"@) by { assert("mp4"@[0] != "hpp"@[0]); }
    assert("mp4"@ != "cc"@) by { assert("mp4"@.len() != "cc"@.len()); }
    assert("mp4"@ != "js"@) by { assert("mp4"@.len() != "js"@.len()); }
    assert("mp4"@ != "mjs"@) by { assert("mp4"@[1] != "mjs"@[1]); }
    assert("mp4"@ != "cjs"@) by { assert("mp4"@[0] != "cjs"@[0]); }
    assert("mp4"@ != "jsx"@) by { assert("mp4"@[0] != "jsx"@[0]); }
    assert("mp4"@ != "ts"@) by { assert("mp4"@.len() != "ts"@.len()); }
    assert("mp4"@ != "tsx"@) by { assert("mp4"@[0] != "tsx"@[0]); }
    assert("mp4"@ != "lua"@) by { assert("mp4"@[0] != "lua"@[0]); }
    assert("mp4"@ != "pl"@) by { assert("mp4"@.len() != "pl"@.len()); }
    assert("mp4"@ != "sh"@) by { assert("mp4"@.len() != "sh"@.len()); }
    assert("mp4"@ != "bash"@) by { assert("mp4"@.len() != "bash"@.len()); }
    assert("mp4"@ != "zsh"@) by { assert("mp4"@[0] != "zsh"@[0]); }
    assert("mp4"@ != "php"@) by { assert("mp4"@[0] != "php"@[0]); }
    assert("mp4"@ != "html"@) by { assert("mp4"@.len() != "html"@.len()); }
    assert("mp4"@ != "htm"@) by { assert("mp4"@[0] != "htm"@[0]); }
    assert("mp4"@ != "xml"@) by { assert("mp4"@[0] != "xml"@[0]); }
    assert("mp4"@ != "svg"@) by { assert("mp4"@[0] != "svg"@[0]); }
    assert("mp4"@ != "css"@) by { assert("mp4"@[0] != "css"@[0]); }
    assert("mp4"@ != "scss"@) by { assert("mp4"@.len() != "scss"@.len()); }
    assert("mp4"@ != "sass"@) by { assert("mp4"@.len() != "sass"@.len()); }
    assert("mp4"@ != "less"@) by { assert("mp4"@.len() != "less"@.len()); }
    assert("mp4"@ != "md"@) by { assert("mp4"@.len() != "md"@.len()); }
    assert("mp4"@ != "mdx"@) by { assert("mp4"@[1] != "mdx"@[1]); }
    assert("mp4"@ != "txt"@) by { assert("mp4"@[0] != "txt"@[0]); }
    assert("mp4"@ != "rst"@) by { assert("mp4"@[0] != "rst"@[0]); }
    assert("mp4"@ != "adoc"@) by { assert("mp4"@.len() != "adoc"@.len()); }
    assert("mp4"@ != "asciidoc"@) by { assert("mp4"@.len() != "asciidoc"@.len()); }
    assert("mp4"@ != "json"@) by { assert("mp4"@.len() != "json"@.len()); }
    assert("mp4"@ != "yaml"@) by { assert("mp4"@.len() != "yaml"@.len()); }
    assert("mp4"@ != "yml"@) by { assert("mp4"@[0] != "yml"@[0]); }
    assert("mp4"@ != "toml"@) by { assert("mp4"@.len() != "toml"@.len()); }
    assert("mp4"@ != "csv"@) by { assert("mp4"@[0] != "csv"@[0]); }
    assert("mp4"@ != "tsv"@) by { assert("mp4"@[0] != "tsv"@[0]); }
    assert("mp4"@ != "ini"@) by { assert("mp4"@[0] != "ini"@[0]); }
    assert("mp4"@ != "conf"@) by { assert("mp4"@.len() != "conf"@.len()); }
    assert("mp4"@ != "log"@) by { assert("mp4"@[0] != "log"@[0]); }
    assert("mp4"@ != "png"@) by { assert("mp4"@[0] != "png"@[0]); }
    assert("mp4"@ != "jpg"@) by { assert("mp4"@[0] != "jpg"@[0]); }
    assert("mp4"@ != "jpeg"@) by { assert("mp4"@.len() != "jpeg"@.len()); }
    assert("mp4"@ != "gif"@) by { assert("mp4"@[0] != "gif"@[0]); }
    assert("mp4"@ != "webp"@) by { assert("mp4"@.len() != "webp"@.len()); }
    assert("mp4"@ != "bmp"@) by { assert("mp4"@[0] != "bmp"@[0]); }
    assert("mp4"@ != "tiff"@) by { assert("mp4"@.len() != "tiff"@.len()); }
    assert("mp4"@ != "ico"@) by { assert("mp4"@[0] != "ico"@[0]); }
    assert("mp4"@ != "psd"@) by { assert("mp4"@[0] != "psd"@[0]); }
    assert("mp4"@ != "ai"@) by { assert("mp4"@.len() != "ai"@.len()); }
    assert(ext_kind("mp4"@) == ExtKind::Video);
    assert("mov"@ != "rs"@) by { assert("mov"@.len() != "rs"@.len()); }
    assert("mov"@ != "go"@) by { assert("mov"@.len() != "go"@.len()); }
    assert("mov"@ != "py"@) by { assert("mov"@.len() != "py"@.len()); }
    assert("mov"@ != "rb"@) by { assert("mov"@.len() != "rb"@.len()); }
    assert("mov"@ != "java"@) by { assert("mov"@.len() != "java"@.len()); }
    assert("mov"@ != "kt"@) by { assert("mov"@.len() != "kt"@.len()); }
    assert("mov"@ != "swift"@) by { assert("mov"@.len() != "swift"@.len()); }
    assert("mov"@ != "c"@) by { assert("mov"@.len() != "c"@.len()); }
    assert("mov"@ != "h"@) by { assert("mov"@.len() != "h"@.len()); }
    assert("mov"@ != "cpp"@) by { assert("mov"@[0] != "cpp"@[0]); }
    assert("mov"@ != "hpp"@) by { assert("mov"@[0] != "hpp"@[0]); }
    assert("mov"@ != "cc"@) by { assert("mov"@.len() != "cc"@.len()); }
    assert("mov"@ != "js"@) by { assert("mov"@.len() != "js"@.len()); }
    assert("mov"@ != "mjs"@) by { assert("mov"@[1] != "mjs"@[1]); }
    assert("mov"@ != "cjs"@) by { assert("mov"@[0] != "cjs"@[0]); }
    assert("mov"@ != "jsx"@) by { assert("mov"@[0] != "jsx"@[0]); }
    assert("mov"@ != "ts"@) by { assert("mov"@.len() != "ts"@.len()); }
    assert("mov"@ != "tsx"@) by { assert("mov"@[0] != "tsx"@[0]); }
    assert("mov"@ != "lua"@) by { assert("mov"@[0] != "lua"@[0]); }
    assert("mov"@ != "pl"@) by { assert("mov"@.len() != "pl"@.len()); }
    assert("mov"@ != "sh"@) by { assert("mov"@.len() != "sh"@.len()); }
    assert("mov"@ != "bash"@) by { assert("mov"@.len() != "bash"@.len()); }
    assert("mov"@ != "zsh"@) by { assert("mov"@[0] != "zsh"@[0]); }
    assert("mov"@ != "php"@) by { assert("mov"@[0] != "php"@[0]); }
    assert("mov"@ != "html"@) by { assert("mov"@.len() != "html"@.len()); }
    assert("mov"@ != "htm"@) by { assert("mov"@[0] != "htm"@[0]); }
    assert("mov"@ != "xml"@) by { assert("mov"@[0] != "xml"@[0]); }
    assert("mov"@ != "svg"@) by { assert("mov"@[0] != "svg"@[0]); }
    assert("mov"@ != "css"@) by { assert("mov"@[0] != "css"@[0]); }
    assert("mov"@ != "scss"@) by { assert("mov"@.len() != "scss"@.len()); }
    assert("mov"@ != "sass"@) by { assert("mov"@.len() != "sass"@.len()); }
    assert("mov"@ != "less"@) by { assert("mov"@.len() != "less"@.len()); }
    assert("mov"@ != "md"@) by { assert("mov"@.len() != "md"@.len()); }
    assert("mov"@ != "mdx"@) by { assert("mov"@[1] != "mdx"@[1]); }
    assert("mov"@ != "txt"@) by { assert("mov"@[0] != "txt"@[0]); }
    assert("mov"@ != "rst"@) by { assert("mov"@[0] != "rst"@[0]); }
    assert("mov"@ != "adoc"@) by { assert("mov"@.len() != "adoc"@.len()); }
    assert("mov"@ != "asciidoc"@) by { assert("mov"@.len() != "asciidoc"@.len()); }
    assert("mov"@ != "json"@) by { assert("mov"@.len() != "json"@.len()); }
    assert("mov"@ != "yaml"@) by { assert("mov"@.len() != "yaml"@.len()); }
    assert("mov"@ != "yml"@) by { assert("mov"@[0] != "yml"@[0]); }
    assert("mov"@ != "toml"@) by { assert("mov"@.len() != "toml"@.len()); }
    assert("mov"@ != "csv"@) by { assert("mov"@[0] != "csv"@[0]); }
    assert("mov"@ != "tsv"@) by { assert("mov"@[0] != "tsv"@[0]); }
    assert("mov"@ != "ini"@) by { assert("mov"@[0] != "ini"@[0]); }
    assert("mov"@ != "conf"@) by { assert("mov"@.len() != "conf"@.len()); }
    assert("mov"@ != "log"@) by { assert("mov"@[0] != "log"@[0]); }
    assert("mov"@ != "png"@) by { assert("mov"@[0] != "png"@[0]); }
    assert("mov"@ != "jpg"@) by { assert("mov"@[0] != "jpg"@[0]); }
    assert("mov"@ != "jpeg"@) by { assert("mov"@.len() != "jpeg"@.len()); }
    assert("mov"@ != "gif"@) by { assert("mov"@[0] != "gif"@[0]); }
    assert("mov"@ != "webp"@) by { assert("mov"@.len() != "webp"@.len()); }
    assert("mov"@ != "bmp"@) by { assert("mov"@[0] != "bmp"@[0]); }
    assert("mov"@ != "tiff"@) by { assert("mov"@.len() != "tiff"@.len()); }
    assert("mov"@ != "ico"@) by { assert("mov"@[0] != "ico"@[0]); }
    assert("mov"@ != "psd"@) by { assert("mov"@[0] != "psd"@[0]); }
    assert("mov"@ != "ai"@) by { assert("mov"@.len() != "ai"@.len()); }
    assert(ext_kind("mov"@) == ExtKind::Video);
    assert("mkv"@ != "rs"@) by { assert("mkv"@.len() != "rs"@.len()); }
    assert("mkv"@ != "go"@) by { assert("mkv"@.len() != "go"@.len()); }
    assert("mkv"@ != "py"@) by { assert("mkv"@.len() != "py"@.len()); }
    assert("mkv"@ != "rb"@) by { assert("mkv"@.len() != "rb"@.len()); }
    assert("mkv"@ != "java"@) by { assert("mkv"@.len() != "java"@.len()); }
    assert("mkv"@ != "kt"@) by { assert("mkv"@.len() != "kt"@.len()); }
    assert("mkv"@ != "swift"@) by { assert("mkv"@.len() != "swift"@.len()); }
    assert("mkv"@ != "c"@) by { assert("mkv"@.len() != "c"@.len()); }
    assert("mkv"@ != "h"@) by { assert("mkv"@.len() != "h"@.len()); }
    assert("mkv"@ != "cpp"@) by { assert("mkv"@[0] != "cpp"@[0]); }
    assert("mkv"@ != "hpp"@) by { assert("mkv"@[0] != "hpp"@[0]); }
    assert("mkv"@ != "cc"@) by { assert("mkv"@.len() != "cc"@.len()); }
    assert("mkv"@ != "js"@) by { assert("mkv"@.len() != "js"@.len()); }
    assert("mkv"@ != "mjs"@) by { assert("mkv"@[1] != "mjs"@[1]); }
    assert("mkv"@ != "cjs"@) by { assert("mkv"@[0] != "cjs"@[0]); }
    assert("mkv"@ != "jsx"@) by { assert("mkv"@[0] != "jsx"@[0]); }
    assert("mkv"@ != "ts"@) by { assert("mkv"@.len() != "ts"@.len()); }
    assert("mkv"@ != "tsx"@) by { assert("mkv"@[0] != "tsx"@[0]); }
    assert("mkv"@ != "lua"@) by { assert("mkv"@[0] != "lua"@[0]); }
    assert("mkv"@ != "pl"@) by { assert("mkv"@.len() != "pl"@.len()); }
    assert("mkv"@ != "sh"@) by { assert("mkv"@.len() != "sh"@.len()); }
    assert("mkv"@ != "bash"@) by { assert("mkv"@.len() != "bash"@.len()); }
    assert("mkv"@ != "zsh"@) by { assert("mkv"@[0] != "zsh"@[0]); }
    assert("mkv"@ != "php"@) by { assert("mkv"@[0] != "php"@[0]); }
    assert("mkv"@ != "html"@) by { assert("mkv"@.len() != "html"@.len()); }
    assert("mkv"@ != "htm"@) by { assert("mkv"@[0] != "htm"@[0]); }
    assert("mkv"@ != "xml"@) by { assert("mkv"@[0] != "xml"@[0]); }
    assert("mkv"@ != "svg"@) by { assert("mkv"@[0] != "svg"@[0]); }
    assert("mkv"@ != "css"@) by { assert("mkv"@[0] != "css"@[0]); }
    assert("mkv"@ != "scss"@) by { assert("mkv"@.len() != "scss"@.len()); }
    assert("mkv"@ != "sass"@) by { assert("mkv"@.len() != "sass"@.len()); }
    assert("mkv"@ != "less"@) by { assert("mkv"@.len() != "less"@.len()); }
    assert("mkv"@ != "md"@) by { assert("mkv"@.len() != "md"@.len()); }
    assert("mkv"@ != "mdx"@) by { assert("mkv"@[1] != "mdx"@[1]); }
    assert("mkv"@ != "txt"@) by { assert("mkv"@[0] != "txt"@[0]); }
    assert("mkv"@ != "rst"@) by { assert("mkv"@[0] != "rst"@[0]); }
    assert("mkv"@ != "adoc"@) by { assert("mkv"@.len() != "adoc"@.len()); }
    assert("mkv"@ != "asciidoc"@) by { assert("mkv"@.len() != "asciidoc"@.len()); }
    assert("mkv"@ != "json"@) by { assert("mkv"@.len() != "json"@.len()); }
    assert("mkv"@ != "yaml"@) by { assert("mkv"@.len() != "yaml"@.len()); }
    assert("mkv"@ != "yml"@) by { assert("mkv"@[0] != "yml"@[0]); }
    assert("mkv"@ != "toml"@) by { assert("mkv"@.len() != "toml"@.len()); }
    assert("mkv"@ != "csv"@) by { assert("mkv"@[0] != "csv"@[0]); }
    assert("mkv"@ != "tsv"@) by { assert("mkv"@[0] != "tsv"@[0]); }
    assert("mkv"@ != "ini"@) by { assert("mkv"@[0] != "ini"@[0]); }
    assert("mkv"@ != "conf"@) by { assert("mkv"@.len() != "conf"@.len()); }
    assert("mkv"@ != "log"@) by { assert("mkv"@[0] != "log"@[0]); }
    assert("mkv"@ != "png"@) by { assert("mkv"@[0] != "png"@[0]); }
    assert("mkv"@ != "jpg"@) by { assert("mkv"@[0] != "jpg"@[0]); }
    assert("mkv"@ != "jpeg"@) by { assert("mkv"@.len() != "jpeg"@.len()); }
    assert("mkv"@ != "gif"@) by { assert("mkv"@[0] != "gif"@[0]); }
    assert("mkv"@ != "webp"@) by { assert("mkv"@.len() != "webp"@.len()); }
    assert("mkv"@ != "bmp"@) by { assert("mkv"@[0] != "bmp"@[0]); }
    assert("mkv"@ != "tiff"@) by { assert("mkv"@.len() != "tiff"@.len()); }
    assert("mkv"@ != "ico"@) by { assert("mkv"@[0] != "ico"@[0]); }
    assert("mkv"@ != "psd"@) by { assert("mkv"@[0] != "psd"@[0]); }
    assert("mkv"@ != "ai"@) by { assert("mkv"@.len() != "ai"@.len()); }
    assert(ext_kind("mkv"@) == ExtKind::Video);
    assert("avi"@ != "rs"@) by { assert("avi"@.len() != "rs"@.len()); }
    assert("avi"@ != "go"@) by { assert("avi"@.len() != "go"@.len()); }
    assert("avi"@ != "py"@) by { assert("avi"@.len() != "py"@.len()); }
    assert("avi"@ != "rb"@) by { assert("avi"@.len() != "rb"@.len()); }
    assert("avi"@ != "java"@) by { assert("avi"@.len() != "java"@.len()); }
    assert("avi"@ != "kt"@) by { assert("avi"@.len() != "kt"@.len()); }
    assert("avi"@ != "swift"@) by { assert("avi"@.len() != "swift"@.len()); }
    assert("avi"@ != "c"@) by { assert("avi"@.len() != "c"@.len()); }
    assert("avi"@ != "h"@) by { assert("avi"@.len() != "h"@.len()); }
    assert("avi"@ != "cpp"@) by { assert("avi"@[0] != "cpp"@[0]); }
    assert("avi"@ != "hpp"@) by { assert("avi"@[0] != "hpp"@[0]); }
    assert("avi"@ != "cc"@) by { assert("avi"@.len() != "cc"@.len()); }
    assert("avi"@ != "js"@) by { assert("avi"@.len() != "js"@.len()); }
    assert("avi"@ != "mjs"@) by { assert("avi"@[0] != "mjs"@[0]); }
    assert("avi"@ != "cjs"@) by { assert("avi"@[0] != "cjs"@[0]); }
    assert("avi"@ != "jsx"@) by { assert("avi"@[0] != "jsx"@[0]); }
    assert("avi"@ != "ts"@) by { assert("avi"@.len() != "ts"@.len()); }
    assert("avi"@ != "tsx"@) by { assert("avi"@[0] != "tsx"@[0]); }
    assert("avi"@ != "lua"@) by { assert("avi"@[0] != "lua"@[0]); }
    assert("avi"@ != "pl"@) by { assert("avi"@.len() != "pl"@.len()); }
    assert("avi"@ != "sh"@) by { assert("avi"@.len() != "sh"@.len()); }
    assert("avi"@ != "bash"@) by { assert("avi"@.len() != "bash"@.len()); }
    assert("avi"@ != "zsh"@) by { assert("avi"@[0] != "zsh"@[0]); }
    assert("avi"@ != "php"@) by { assert("avi"@[0] != "php"@[0]); }
    assert("avi"@ != "html"@) by { assert("avi"@.len() != "html"@.len()); }
    assert("avi"@ != "htm"@) by { assert("avi"@[0] != "htm"@[0]); }
    assert("avi"@ != "xml"@) by { assert("avi"@[0] != "xml"@[0]); }
    assert("avi"@ != "svg"@) by { assert("avi"@[0] != "svg"@[0]); }
    assert("avi"@ != "css"@) by { assert("avi"@[0] != "css"@[0]); }
    assert("avi"@ != "scss"@) by { assert("avi"@.len() != "scss"@.len()); }
    assert("avi"@ != "sass"@) by { assert("avi"@.len() != "sass"@.len()); }
    assert("avi"@ != "less"@) by { assert("avi"@.len() != "less"@.len()); }
    assert("avi"@ != "md"@) by { assert("avi"@.len() != "md"@.len()); }
    assert("avi"@ != "mdx"@) by { assert("avi"@[0] != "mdx"@[0]); }
    assert("avi"@ != "txt"@) by { assert("avi"@[0] != "txt"@[0]); }
    assert("avi"@ != "rst"@) by { assert("avi"@[0] != "rst"@[0]); }
    assert("avi"@ != "adoc"@) by { assert("avi"@.len() != "adoc"@.len()); }
    assert("avi"@ != "asciidoc"@) by { assert("avi"@.len() != "asciidoc"@.len()); }
    assert("avi"@ != "json"@) by { assert("avi"@.len() != "json"@.len()); }
    assert("avi"@ != "yaml"@) by { assert("avi"@.len() != "yaml"@.len()); }
    assert("avi"@ != "yml"@) by { assert("avi"@[0] != "yml"@[0]); }
    assert("avi"@ != "toml"@) by { assert("avi"@.len() != "toml"@.len()); }
    assert("avi"@ != "csv"@) by { assert("avi"@[0] != "csv"@[0]); }
    assert("avi"@ != "tsv"@) by { assert("avi"@[0] != "tsv"@[0]); }
    assert("avi"@ != "ini"@) by { assert("avi"@[0] != "ini"@[0]); }
    assert("avi"@ != "conf"@) by { assert("avi"@.len() != "conf"@.len()); }
    assert("avi"@ != "log"@) by { assert("avi"@[0] != "log"@[0]); }
    assert("avi"@ != "png"@) by { assert("avi"@[0] != "png"@[0]); }
    assert("avi"@ != "jpg"@) by { assert("avi"@[0] != "jpg"@[0]); }
    assert("avi"@ != "jpeg"@) by { assert("avi"@.len() != "jpeg"@.len()); }
    assert("avi"@ != "gif"@) by { assert("avi"@[0] != "gif"@[0]); }
    assert("avi"@ != "webp"@) by { assert("avi"@.len() != "webp"@.len()); }
    assert("avi"@ != "bmp"@) by { assert("avi"@[0] != "bmp"@[0]); }
    assert("avi"@ != "tiff"@) by { assert("avi"@.len() != "tiff"@.len()); }
    assert("avi"@ != "ico"@) by { assert("avi"@[0] != "ico"@[0]); }
    assert("avi"@ != "psd"@) by { assert("avi"@[0] != "psd"@[0]); }
    assert("avi"@ != "ai"@) by { assert("avi"@.len() != "ai"@.len()); }
    assert(ext_kind("avi"@) == ExtKind::Video);
    assert("webm"@ != "rs"@) by { assert("webm"@.len() != "rs"@.len()); }
    assert("webm"@ != "go"@) by { assert("webm"@.len() != "go"@.len()); }
    assert("webm"@ != "py"@) by { assert("webm"@.len() != "py"@.len()); }
    assert("webm"@ != "rb"@) by { assert("webm"@.len() != "rb"@.len()); }
    assert("webm"@ != "java"@) by { assert("webm"@[0] != "java"@[0]); }
    assert("webm"@ != "kt"@) by { assert("webm"@.len() != "kt"@.len()); }
    assert("webm"@ != "swift"@) by { assert("webm"@.len() != "swift"@.len()); }
    assert("webm"@ != "c"@) by { assert("webm"@.len() != "c"@.len()); }
    assert("webm"@ != "h"@) by { assert("webm"@.len() != "h"@.len()); }
    assert("webm"@ != "cpp"@) by { assert("webm"@.len() != "cpp"@.len()); }
    assert("webm"@ != "hpp"@) by { assert("webm"@.len() != "hpp"@.len()); }
    assert("webm"@ != "cc"@) by { assert("webm"@.len() != "cc"@.len()); }
    assert("webm"@ != "js"@) by { assert("webm"@.len() != "js"@.len()); }
    assert("webm"@ != "mjs"@) by { assert("webm"@.len() != "mjs"@.len()); }
    assert("webm"@ != "cjs"@) by { assert("webm"@.len() != "cjs"@.len()); }
    assert("webm"@ != "jsx"@) by { assert("webm"@.len() != "jsx"@.len()); }
    assert("webm"@ != "ts"@) by { assert("webm"@.len() != "ts"@.len()); }
    assert("webm"@ != "tsx"@) by { assert("webm"@.len() != "tsx"@.len()); }
    assert("webm"@ != "lua"@) by { assert("webm"@.len() != "lua"@.len()); }
    assert("webm"@ != "pl"@) by { assert("webm"@.len() != "pl"@.len()); }
    assert("webm"@ != "sh"@) by { assert("webm"@.len() != "sh"@.len()); }
    assert("webm"@ != "bash"@) by { assert("webm"@[0] != "bash"@[0]); }
    assert("webm"@ != "zsh"@) by { assert("webm"@.len() != "zsh"@.len()); }
    assert("webm"@ != "php"@) by { assert("webm"@.len() != "php"@.len()); }
    assert("webm"@ != "html"@) by { assert("webm"@[0] != "html"@[0]); }
    assert("webm"@ != "htm"@) by { assert("webm"@.len() != "htm"@.len()); }
    assert("webm"@ != "xml"@) by { assert("webm"@.len() != "xml"@.len()); }
    assert("webm"@ != "svg"@) by { assert("webm"@.len() != "svg"@.len()); }
    assert("webm"@ != "css"@) by { assert("webm"@.len() != "css"@.len()); }
    assert("webm"@ != "scss"@) by { assert("webm"@[0] != "scss"@[0]); }
    assert("webm"@ != "sass"@) by { assert("webm"@[0] != "sass"@[0]); }
    assert("webm"@ != "less"@) by { assert("webm"@[0] != "less"@[0]); }
    assert("webm"@ != "md"@) by { assert("webm"@.len() != "md"@.len()); }
    assert("webm"@ != "mdx"@) by { assert("webm"@.len() != "mdx"@.len()); }
    assert("webm"@ != "txt"@) by { assert("webm"@.len() != "txt"@.len()); }
    assert("webm"@ != "rst"@) by { assert("webm"@.len() != "rst"@.len()); }
    assert("webm"@ != "adoc"@) by { assert("webm"@[0] != "adoc"@[0]); }
    assert("webm"@ != "asciidoc"@) by { assert("webm"@.len() != "asciidoc"@.len()); }
    assert("webm"@ != "json"@) by { assert("webm"@[0] != "json"@[0]); }
    assert("webm"@ != "yaml"@) by { assert("webm"@[0] != "yaml"@[0]); }
    assert("webm"@ != "yml"@) by { assert("webm"@.len() != "yml"@.len()); }
    assert("webm"@ != "toml"@) by { assert("webm"@[0] != "toml"@[0]); }
    assert("webm"@ != "csv"@) by { assert("webm"@.len() != "csv"@.len()); }
    assert("webm"@ != "tsv"@) by { assert("webm"@.len() != "tsv"@.len()); }
    assert("webm"@ != "ini"@) by { assert("webm"@.len() != "ini"@.len()); }
    assert("webm"@ != "conf"@) by { assert("webm"@[0] != "conf"@[0]); }
    assert("webm"@ != "log"@) by { assert("webm"@.len() != "log"@.len()); }
    assert("webm"@ != "png"@) by { assert("webm"@.len() != "png"@.len()); }
    assert("webm"@ != "jpg"@) by { assert("webm"@.len() != "jpg"@.len()); }
    assert("webm"@ != "jpeg"@) by { assert("webm"@[0] != "jpeg"@[0]); }
    assert("webm"@ != "gif"@) by { assert("webm"@.len() != "gif"@.len()); }
    assert("webm"@ != "webp"@) by { assert("webm"@[3] != "webp"@[3]); }
    assert("webm"@ != "bmp"@) by { assert("webm"@.len() != "bmp"@.len()); }
    assert("webm"@ != "tiff"@) by { assert("webm"@[0] != "tiff"@[0]); }
    assert("webm"@ != "ico"@) by { assert("webm"@.len() != "ico"@.len()); }
    assert("webm"@ != "psd"@) by { assert("webm"@.len() != "psd"@.len()); }
    assert("webm"@ != "ai"@) by { assert("webm"@.len() != "ai"@.len()); }
    assert(ext_kind("webm"@) == ExtKind::Video);
    assert("flv"@ != "rs"@) by { assert("flv"@.len() != "rs"@.len()); }
    assert("flv"@ != "go"@) by { assert("flv"@.len() != "go"@.len()); }
    assert("flv"@ != "py"@) by { assert("flv"@.len() != "py"@.len()); }
    assert("flv"@ != "rb"@) by { assert("flv"@.len() != "rb"@.len()); }
    assert("flv"@ != "java"@) by { assert("flv"@.len() != "java"@.len()); }
    assert("flv"@ != "kt"@) by { assert("flv"@.len() != "kt"@.len()); }
    assert("flv"@ != "swift"@) by { assert("flv"@.len() != "swift"@.len()); }
    assert("flv"@ != "c"@) by { assert("flv"@.len() != "c"@.len()); }
    assert("flv"@ != "h"@) by { assert("flv"@.len() != "h"@.len()); }
    assert("flv"@ != "cpp"@) by { assert("flv"@[0] != "cpp"@[0]); }
    assert("flv"@ != "hpp"@) by { assert("flv"@[0] != "hpp"@[0]); }
    assert("flv"@ != "cc"@) by { assert("flv"@.len() != "cc"@.len()); }
    assert("flv"@ != "js"@) by { assert("flv"@.len() != "js"@.len()); }
    assert("flv"@ != "mjs"@) by { assert("flv"@[0] != "mjs"@[0]); }
    assert("flv"@ != "cjs"@) by { assert("flv"@[0] != "cjs"@[0]); }
    assert("flv"@ != "jsx"@) by { assert("flv"@[0] != "jsx"@[0]); }
    assert("flv"@ != "ts"@) by { assert("flv"@.len() != "ts"@.len()); }
    assert("flv"@ != "tsx"@) by { assert("flv"@[0] != "tsx"@[0]); }
    assert("flv"@ != "lua"@) by { assert("flv"@[0] != "lua"@[0]); }
    assert("flv"@ != "pl"@) by { assert("flv"@.len() != "pl"@.len()); }
    assert("flv"@ != "sh"@) by { assert("flv"@.len() != "sh"@.len()); }
    assert("flv"@ != "bash"@) by { assert("flv"@.len() != "bash"@.len()); }
    assert("flv"@ != "zsh"@) by { assert("flv"@[0] != "zsh"@[0]); }
    assert("flv"@ != "php"@) by { assert("flv"@[0] != "php"@[0]); }
    assert("flv"@ != "html"@) by { assert("flv"@.len() != "html"@.len()); }
    assert("flv"@ != "htm"@) by { assert("flv"@[0] != "htm"@[0]); }
    assert("flv"@ != "xml"@) by { assert("flv"@[0] != "xml"@[0]); }
    assert("flv"@ != "svg"@) by { assert("flv"@[0] != "svg"@[0]); }
    assert("flv"@ != "css"@) by { assert("flv"@[0] != "css"@[0]); }
    assert("flv"@ != "scss"@) by { assert("flv"@.len() != "scss"@.len()); }
    assert("flv"@ != "sass"@) by { assert("flv"@.len() != "sass"@.len()); }
    assert("flv"@ != "less"@) by { assert("flv"@.len() != "less"@.len()); }
    assert("flv"@ != "md"@) by { assert("flv"@.len() != "md"@.len()); }
    assert("flv"@ != "mdx"@) by { assert("flv"@[0] != "mdx"@[0]); }
    assert("flv"@ != "txt"@) by { assert("flv"@[0] != "txt"@[0]); }
    assert("flv"@ != "rst"@) by { assert("flv"@[0] != "rst"@[0]); }
    assert("flv"@ != "adoc"@) by { assert("flv"@.len() != "adoc"@.len()); }
    assert("flv"@ != "asciidoc"@) by { assert("flv"@.len() != "asciidoc"@.len()); }
    assert("flv"@ != "json"@) by { assert("flv"@.len() != "json"@.len()); }
    assert("flv"@ != "yaml"@) by { assert("flv"@.len() != "yaml"@.len()); }
    assert("flv"@ != "yml"@) by { assert("flv"@[0] != "yml"@[0]); }
    assert("flv"@ != "toml"@) by { assert("flv"@.len() != "toml"@.len()); }
    assert("flv"@ != "csv"@) by { assert("flv"@[0] != "csv"@[0]); }
    assert("flv"@ != "tsv"@) by { assert("flv"@[0] != "tsv"@[0]); }
    assert("flv"@ != "ini"@) by { assert("flv"@[0] != "ini"@[0]); }
    assert("flv"@ != "conf"@) by { assert("flv"@.len() != "conf"@.len()); }
    assert("flv"@ != "log"@) by { assert("flv"@[0] != "log"@[0]); }
    assert("flv"@ != "png"@) by { assert("flv"@[0] != "png"@[0]); }
    assert("flv"@ != "jpg"@) by { assert("flv"@[0] != "jpg"@[0]); }
    assert("flv"@ != "jpeg"@) by { assert("flv"@.len() != "jpeg"@.len()); }
    assert("flv"@ != "gif"@) by { assert("flv"@[0] != "gif"@[0]); }
    assert("flv"@ != "webp"@) by { assert("flv"@.len() != "webp"@.len()); }
    assert("flv"@ != "bmp"@) by { assert("flv"@[0] != "bmp"@[0]); }
    assert("flv"@ != "tiff"@) by { assert("flv"@.len() != "tiff"@.len()); }
    assert("flv"@ != "ico"@) by { assert("flv"@[0] != "ico"@[0]); }
    assert("flv"@ != "psd"@) by { assert("flv"@[0] != "psd"@[0]); }
    assert("flv"@ != "ai"@) by { assert("flv"@.len() != "ai"@.len()); }
    assert(ext_kind("flv"@) == ExtKind::Video);
}

/// The audio extensions of the table.
proof fn lemma_table_audio()
    ensures
        ext_kind("mp3"@) == ExtKind::Audio,
        ext_kind("wav"@) == ExtKind::Audio,
        ext_kind("flac"@) == ExtKind::Audio,
        ext_kind("ogg"@) == ExtKind::Audio,
        ext_kind("m4a"@) == ExtKind::Audio,
        ext_kind("aac"@) == ExtKind::Audio,
{
    reveal_strlit("mp3");
    reveal_strlit("wav");
    reveal_strlit("flac");
    reveal_strlit("ogg");
    reveal_strlit("m4a");
    reveal_strlit("aac");
    reveal_strlit("rs");
    reveal_strlit("go");
    reveal_strlit("py");
    reveal_strlit("rb");
    reveal_strlit("java");
    reveal_strlit("kt");
    reveal_strlit("swift");
    reveal_strlit("c");
    reveal_strlit("h");
    reveal_strlit("cpp");
    reveal_strlit("hpp");
    reveal_strlit("cc");
    reveal_strlit("js");
    reveal_strlit("mjs");
    reveal_strlit("cjs");
    reveal_strlit("jsx");
    reveal_strlit("ts");
    reveal_strlit("tsx");
    reveal_strlit("lua");
    reveal_strlit("pl");
    reveal_strlit("sh");
    reveal_strlit("bash");
    reveal_strlit("zsh");
    reveal_strlit("php");
    reveal_strlit("html");
    reveal_strlit("htm");
    reveal_strlit("xml");
    reveal_strlit("svg");
    reveal_strlit("css");
    reveal_strlit("scss");
    reveal_strlit("sass");
    reveal_strlit("less");
    reveal_strlit("md");
    reveal_strlit("mdx");
    reveal_strlit("txt");
    reveal_strlit("rst");
    reveal_strlit("adoc");
    reveal_strlit("asciidoc");
    reveal_strlit("json");
    reveal_strlit("yaml");
    reveal_strlit("yml");
    reveal_strlit("toml");
    reveal_strlit("csv");
    reveal_strlit("tsv");
    reveal_strlit("ini");
    reveal_strlit("conf");
    reveal_strlit("log");
    reveal_strlit("png");
    reveal_strlit("jpg");
    reveal_strlit("jpeg");
    reveal_strlit("gif");
    reveal_strlit("webp");
    reveal_strlit("bmp");
    reveal_strlit("tiff");
    reveal_strlit("ico");
    reveal_strlit("psd");
    reveal_strlit("ai");
    reveal_strlit("mp4");
    reveal_strlit("mov");
    reveal_strlit("mkv");
    reveal_strlit("avi");
    reveal_strlit("webm");
    reveal_strlit("flv");
    assert("mp3"@ != "rs"@) by { assert("mp3"@.len() != "rs"@.len()); }
    assert("mp3"@ != "go"@) by { assert("mp3"@.len() != "go"@.len()); }
    assert("mp3"@ != "py"@) by { assert("mp3"@.len() != "py"@.len()); }
    assert("mp3"@ != "rb"@) by { assert("mp3"@.len() != "rb"@.len()); }
    assert("mp3"@ != "java"@) by { assert("mp3"@.len() != "java"@.len()); }
    assert("mp3"@ != "kt"@) by { assert("mp3"@.len() != "kt"@.len()); }
    assert("mp3"@ != "swift"@) by { assert("mp3"@.len() != "swift"@.len()); }
    assert("mp3"@ != "c"@) by { assert("mp3"@.len() != "c"@.len()); }
    assert("mp3"@ != "h"@) by { assert("mp3"@.len() != "h"@.len()); }
    assert("mp3"@ != "cpp"@) by { assert("mp3"@[0] != "cpp"@[0]); }
    assert("mp3"@ != "hpp"@) by { assert("mp3"@[0] != "hpp"@[0]); }
    assert("mp3"@ != "cc"@) by { assert("mp3"@.len() != "cc"@.len()); }
    assert("mp3"@ != "js"@) by { assert("mp3"@.len() != "js"@.len()); }
    assert("mp3"@ != "mjs"@) by { assert("mp3"@[1] != "mjs"@[1]); }
    assert("mp3"@ != "cjs"@) by { assert("mp3"@[0] != "cjs"@[0]); }
    assert("mp3"@ != "jsx"@) by { assert("mp3"@[0] != "jsx"@[0]); }
    assert("mp3"@ != "ts"@) by { assert("mp3"@.len() != "ts"@.len()); }
    assert("mp3"@ != "tsx"@) by { assert("mp3"@[0] != "tsx"@[0]); }
    assert("mp3"@ != "lua"@) by { assert("mp3"@[0] != "lua"@[0]); }
    assert("mp3"@ != "pl"@) by { assert("mp3"@.len() != "pl"@.len()); }
    assert("mp3"@ != "sh"@) by { assert("mp3"@.len() != "sh"@.len()); }
    assert("mp3"@ != "bash"@) by { assert("mp3"@.len() != "bash"@.len()); }
    assert("mp3"@ != "zsh"@) by { assert("mp3"@[0] != "zsh"@[0]); }
    assert("mp3"@ != "php"@) by { assert("mp3"@[0] != "php"@[0]); }
    assert("mp3"@ != "html"@) by { assert("mp3"@.len() != "html"@.len()); }
    assert("mp3"@ != "htm"@) by { assert("mp3"@[0] != "htm"@[0]); }
    assert("mp3"@ != "xml"@) by { assert("mp3"@[0] != "xml"@[0]); }
    assert("mp3"@ != "svg"@) by { assert("mp3"@[0] != "svg"@[0]); }
    assert("mp3"@ != "css"@) by { assert("mp3"@[0] != "css"@[0]); }
    assert("mp3"@ != "scss"@) by { assert("mp3"@.len() != "scss"@.len()); }
    assert("mp3"@ != "sass"@) by { assert("mp3"@.len() != "sass"@.len()); }
    assert("mp3"@ != "less"@) by { assert("mp3"@.len() != "less"@.len()); }
    assert("mp3"@ != "md"@) by { assert("mp3"@.len() != "md"@.len()); }
    assert("mp3"@ != "mdx"@) by { assert("mp3"@[1] != "mdx"@[1]); }
    assert("mp3"@ != "txt"@) by { assert("mp3"@[0] != "txt"@[0]); }
    assert("mp3"@ != "rst"@) by { assert("mp3"@[0] != "rst"@[0]); }
    assert("mp3"@ != "adoc"@) by { assert("mp3"@.len() != "adoc"@.len()); }
    assert("mp3"@ != "asciidoc"@) by { assert("mp3"@.len() != "asciidoc"@.len()); }
    assert("mp3"@ != "json"@) by { assert("mp3"@.len() != "json"@.len()); }
    assert("mp3"@ != "yaml"@) by { assert("mp3"@.len() != "yaml"@.len()); }
    assert("mp3"@ != "yml"@) by { assert("mp3"@[0] != "yml"@[0]); }
    assert("mp3"@ != "toml"@) by { assert("mp3"@.len() != "toml"@.len()); }
    assert("mp3"@ != "csv"@) by { assert("mp3"@[0] != "csv"@[0]); }
    assert("mp3"@ != "tsv"@) by { assert("mp3"@[0] != "tsv"@[0]); }
    assert("mp3"@ != "ini"@) by { assert("mp3"@[0] != "ini"@[0]); }
    assert("mp3"@ != "conf"@) by { assert("mp3"@.len() != "conf"@.len()); }
    assert("mp3"@ != "log"@) by { assert("mp3"@[0] != "log"@[0]); }
    assert("mp3"@ != "png"@) by { assert("mp3"@[0] != "png"@[0]); }
    assert("mp3"@ != "jpg"@) by { assert("mp3"@[0] != "jpg"@[0]); }
    assert("mp3"@ != "jpeg"@) by { assert("mp3"@.len() != "jpeg"@.len()); }
    assert("mp3"@ != "gif"@) by { assert("mp3"@[0] != "gif"@[0]); }
    assert("mp3"@ != "webp"@) by { assert("mp3"@.len() != "webp"@.len()); }
    assert("mp3"@ != "bmp"@) by { assert("mp3"@[0] != "bmp"@[0]); }
    assert("mp3"@ != "tiff"@) by { assert("mp3"@.len() != "tiff"@.len()); }
    assert("mp3"@ != "ico"@) by { assert("mp3"@[0] != "ico"@[0]); }
    assert("mp3"@ != "psd"@) by { assert("mp3"@[0] != "psd"@[0]); }
    assert("mp3"@ != "ai"@) by { assert("mp3"@.len() != "ai"@.len()); }
    assert("mp3"@ != "mp4"@) by { assert("mp3"@[2] != "mp4"@[2]); }
    assert("mp3"@ != "mov"@) by { assert("mp3"@[1] != "mov"@[1]); }
    assert("mp3"@ != "mkv"@) by { assert("mp3"@[1] != "mkv"@[1]); }
    assert("mp3"@ != "avi"@) by { assert("mp3"@[0] != "avi"@[0]); }
    assert("mp3"@ != "webm"@) by { assert("mp3"@.len() != "webm"@.len()); }
    assert("mp3"@ != "flv"@) by { assert("mp3"@[0] != "flv"@[0]); }
    assert(ext_kind("mp3"@) == ExtKind::Audio);
    assert("wav"@ != "rs"@) by { assert("wav"@.len() != "rs"@.len()); }
    assert("wav"@ != "go"@) by { assert("wav"@.len() != "go"@.len()); }
    assert("wav"@ != "py"@) by { assert("wav"@.len() != "py"@.len()); }
    assert("wav"@ != "rb"@) by { assert("wav"@.len() != "rb"@.len()); }
    assert("wav"@ != "java"@) by { assert("wav"@.len() != "java"@.len()); }
    assert("wav"@ != "kt"@) by { assert("wav"@.len() != "kt"@.len()); }
    assert("wav"@ != "swift"@) by { assert("wav"@.len() != "swift"@.len()); }
    assert("wav"@ != "c"@) by { assert("wav"@.len() != "c"@.len()); }
    assert("wav"@ != "h"@) by { assert("wav"@.len() != "h"@.len()); }
    assert("wav"@ != "cpp"@) by { assert("wav"@[0] != "cpp"@[0]); }
    assert("wav"@ != "hpp"@) by { assert("wav"@[0] != "hpp"@[0]); }
    assert("wav"@ != "cc"@) by { assert("wav"@.len() != "cc"@.len()); }
    assert("wav"@ != "js"@) by { assert("wav"@.len() != "js"@.len()); }
    assert("wav"@ != "mjs"@) by { assert("wav"@[0] != "mjs"@[0]); }
    assert("wav"@ != "cjs"@) by { assert("wav"@[0] != "cjs"@[0]); }
    assert("wav"@ != "jsx"@) by { assert("wav"@[0] != "jsx"@[0]); }
    assert("wav"@ != "ts"@) by { assert("wav"@.len() != "ts"@.len()); }
    assert("wav"@ != "tsx"@) by { assert("wav"@[0] != "tsx"@[0]); }
    assert("wav"@ != "lua"@) by { assert("wav"@[0] != "lua"@[0]); }
    assert("wav"@ != "pl"@) by { assert("wav"@.len() != "pl"@.len()); }
    assert("wav"@ != "sh"@) by { assert("wav"@.len() != "sh"@.len()); }
    assert("wav"@ != "bash"@) by { assert("wav"@.len() != "bash"@.len()); }
    assert("wav"@ != "zsh"@) by { assert("wav"@[0] != "zsh"@[0]); }
    assert("wav"@ != "php"@) by { assert("wav"@[0] != "php"@[0]); }
    assert("wav"@ != "html"@) by { assert("wav"@.len() != "html"@.len()); }
    assert("wav"@ != "htm"@) by { assert("wav"@[0] != "htm"@[0]); }
    assert("wav"@ != "xml"@) by { assert("wav"@[0] != "xml"@[0]); }
    assert("wav"@ != "svg"@) by { assert("wav"@[0] != "svg"@[0]); }
    assert("wav"@ != "css"@) by { assert("wav"@[0] != "css"@[0]); }
    assert("wav"@ != "scss"@) by { assert("wav"@.len() != "scss"@.len()); }
    assert("wav"@ != "sass"@) by { assert("wav"@.len() != "sass"@.len()); }
    assert("wav"@ != "less"@) by { assert("wav"@.len() != "less"@.len()); }
    assert("wav"@ != "md"@) by { assert("wav"@.len() != "md"@.len()); }
    assert("wav"@ != "mdx"@) by { assert("wav"@[0] != "mdx"@[0]); }
    assert("wav"@ != "txt"@) by { assert("wav"@[0] != "txt"@[0]); }
    assert("wav"@ != "rst"@) by { assert("wav"@[0] != "rst"@[0]); }
    assert("wav"@ != "adoc"@) by { assert("wav"@.len() != "adoc"@.len()); }
    assert("wav"@ != "asciidoc"@) by { assert("wav"@.len() != "asciidoc"@.len()); }
    assert("wav"@ != "json"@) by { assert("wav"@.len() != "json"@.len()); }
    assert("wav"@ != "yaml"@) by { assert("wav"@.len() != "yaml"@.len()); }
    assert("wav"@ != "yml"@) by { assert("wav"@[0] != "yml"@[0]); }
    assert("wav"@ != "toml"@) by { assert("wav"@.len() != "toml"@.len()); }
    assert("wav"@ != "csv"@) by { assert("wav"@[0] != "csv"@[0]); }
    assert("wav"@ != "tsv"@) by { assert("wav"@[0] != "tsv"@[0]); }
    assert("wav"@ != "ini"@) by { assert("wav"@[0] != "ini"@[0]); }
    assert("wav"@ != "conf"@) by { assert("wav"@.len() != "conf"@.len()); }
    assert("wav"@ != "log"@) by { assert("wav"@[0] != "log"@[0]); }
    assert("wav"@ != "png"@) by { assert("wav"@[0] != "png"@[0]); }
    assert("wav"@ != "jpg"@) by { assert("wav"@[0] != "jpg"@[0]); }
    assert("wav"@ != "jpeg"@) by { assert("wav"@.len() != "jpeg"@.len()); }
    assert("wav"@ != "gif"@) by { assert("wav"@[0] != "gif"@[0]); }
    assert("wav"@ != "webp"@) by { assert("wav"@.len() != "webp"@.len()); }
    assert("wav"@ != "bmp"@) by { assert("wav"@[0] != "bmp"@[0]); }
    assert("wav"@ != "tiff"@) by { assert("wav"@.len() != "tiff"@.len()); }
    assert("wav"@ != "ico"@) by { assert("wav"@[0] != "ico"@[0]); }
    assert("wav"@ != "psd"@) by { assert("wav"@[0] != "psd"@[0]); }
    assert("wav"@ != "ai"@) by { assert("wav"@.len() != "ai"@.len()); }
    assert("wav"@ != "mp4"@) by { assert("wav"@[0] != "mp4"@[0]); }
    assert("wav"@ != "mov"@) by { assert("wav"@[0] != "mov"@[0]); }
    assert("wav"@ != "mkv"@) by { assert("wav"@[0] != "mkv"@[0]); }
    assert("wav"@ != "avi"@) by { assert("wav"@[0] != "avi"@[0]); }
    assert("wav"@ != "webm"@) by { assert("wav"@.len() != "webm"@.len()); }
    assert("wav"@ != "flv"@) by { assert("wav"@[0] != "flv"@[0]); }
    assert(ext_kind("wav"@) == ExtKind::Audio);
    assert("flac"@ != "rs"@) by { assert("flac"@.len() != "rs"@.len()); }
    assert("flac"@ != "go"@) by { assert("flac"@.len() != "go"@.len()); }
    assert("flac"@ != "py"@) by { assert("flac"@.len() != "py"@.len()); }
    assert("flac"@ != "rb"@) by { assert("flac"@.len() != "rb"@.len()); }
    assert("flac"@ != "java"@) by { assert("flac"@[0] != "java"@[0]); }
    assert("flac"@ != "kt"@) by { assert("flac"@.len() != "kt"@.len()); }
    assert("flac"@ != "swift"@) by { assert("flac"@.len() != "swift"@.len()); }
    assert("flac"@ != "c"@) by { assert("flac"@.len() != "c"@.len()); }
    assert("flac"@ != "h"@) by { assert("flac"@.len() != "h"@.len()); }
    assert("flac"@ != "cpp"@) by { assert("flac"@.len() != "cpp"@.len()); }
    assert("flac"@ != "hpp"@) by { assert("flac"@.len() != "hpp"@.len()); }
    assert("flac"@ != "cc"@) by { assert("flac"@.len() != "cc"@.len()); }
    assert("flac"@ != "js"@) by { assert("flac"@.len() != "js"@.len()); }
    assert("flac"@ != "mjs"@) by { assert("flac"@.len() != "mjs"@.len()); }
    assert("flac"@ != "cjs"@) by { assert("flac"@.len() != "cjs"@.len()); }
    assert("flac"@ != "jsx"@) by { assert("flac"@.len() != "jsx"@.len()); }
    assert("flac"@ != "ts"@) by { assert("flac"@.len() != "ts"@.len()); }
    assert("flac"@ != "tsx"@) by { assert("flac"@.len() != "tsx"@.len()); }
    assert("flac"@ != "lua"@) by { assert("flac"@.len() != "lua"@.len()); }
    assert("flac"@ != "pl"@) by { assert("flac"@.len() != "pl"@.len()); }
    assert("flac"@ != "sh"@) by { assert("flac"@.len() != "sh"@.len()); }
    assert("flac"@ != "bash"@) by { assert("flac"@[0] != "bash"@[0]); }
    assert("flac"@ != "zsh"@) by { assert("flac"@.len() != "zsh"@.len()); }
    assert("flac"@ != "php"@) by { assert("flac"@.len() != "php"@.len()); }
    assert("flac"@ != "html"@) by { assert("flac"@[0] != "html"@[0]); }
    assert("flac"@ != "htm"@) by { assert("flac"@.len() != "htm"@.len()); }
    assert("flac"@ != "xml"@) by { assert("flac"@.len() != "xml"@.len()); }
    assert("flac"@ != "svg"@) by { assert("flac"@.len() != "svg"@.len()); }
    assert("flac"@ != "css"@) by { assert("flac"@.len() != "css"@.len()); }
    assert("flac"@ != "scss"@) by { assert("flac"@[0] != "scss"@[0]); }
    assert("flac"@ != "sass"@) by { assert("flac"@[0] != "sass"@[0]); }
    assert("flac"@ != "less"@) by { assert("flac"@[0] != "less"@[0]); }
    assert("flac"@ != "md"@) by { assert("flac"@.len() != "md"@.len()); }
    assert("flac"@ != "mdx"@) by { assert("flac"@.len() != "mdx"@.len()); }
    assert("flac"@ != "txt"@) by { assert("flac"@.len() != "txt"@.len()); }
    assert("flac"@ != "rst"@) by { assert("flac"@.len() != "rst"@.len()); }
    assert("flac"@ != "adoc"@) by { assert("flac"@[0] != "adoc"@[0]); }
    assert("flac"@ != "asciidoc"@) by { assert("flac"@.len() != "asciidoc"@.len()); }
    assert("flac"@ != "json"@) by { assert("flac"@[0] != "json"@[0]); }
    assert("flac"@ != "yaml"@) by { assert("flac"@[0] != "yaml"@[0]); }
    assert("flac"@ != "yml"@) by { assert("flac"@.len() != "yml"@.len()); }
    assert("flac"@ != "toml"@) by { assert("flac"@[0] != "toml"@[0]); }
    assert("flac"@ != "csv"@) by { assert("flac"@.len() != "csv"@.len()); }
    assert("flac"@ != "tsv"@) by { assert("flac"@.len() != "tsv"@.len()); }
    assert("flac"@ != "ini"@) by { assert("flac"@.len() != "ini"@.len()); }
    assert("flac"@ != "conf"@) by { assert("flac"@[0] != "conf"@[0]); }
    assert("flac"@ != "log"@) by { assert("flac"@.len() != "log"@.len()); }
    assert("flac"@ != "png"@) by { assert("flac"@.len() != "png"@.len()); }
    assert("flac"@ != "jpg"@) by { assert("flac"@.len() != "jpg"@.len()); }
    assert("flac"@ != "jpeg"@) by { assert("flac"@[0] != "jpeg"@[0]); }
    assert("flac"@ != "gif"@) by { assert("flac"@.len() != "gif"@.len()); }
    assert("flac"@ != "webp"@) by { assert("flac"@[0] != "webp"@[0]); }
    assert("flac"@ != "bmp"@) by { assert("flac"@.len() != "bmp"@.len()); }
    assert("flac"@ != "tiff"@) by { assert("flac"@[0] != "tiff"@[0]); }
    assert("flac"@ != "ico"@) by { assert("flac"@.len() != "ico"@.len()); }
    assert("flac"@ != "psd"@) by { assert("flac"@.len() != "psd"@.len()); }
    assert("flac"@ != "ai"@) by { assert("flac"@.len() != "ai"@.len()); }
    assert("flac"@ != "mp4"@) by { assert("flac"@.len() != "mp4"@.len()); }
    assert("flac"@ != "mov"@) by { assert("flac"@.len() != "mov"@.len()); }
    assert("flac"@ != "mkv"@) by { assert("flac"@.len() != "mkv"@.len()); }
    assert("flac"@ != "avi"@) by { assert("flac"@.len() != "avi"@.len()); }
    assert("flac"@ != "webm"@) by { assert("flac"@[0] != "webm"@[0]); }
    assert("flac"@ != "flv"@) by { assert("flac"@.len() != "flv"@.len()); }
    assert(ext_kind("flac"@) == ExtKind::Audio);
    assert("ogg"@ != "rs"@) by { assert("ogg"@.len() != "rs"@.len()); }
    assert("ogg"@ != "go"@) by { assert("ogg"@.len() != "go"@.len()); }
    assert("ogg"@ != "py"@) by { assert("ogg"@.len() != "py"@.len()); }
    assert("ogg"@ != "rb"@) by { assert("ogg"@.len() != "rb"@.len()); }
    assert("ogg"@ != "java"@) by { assert("ogg"@.len() != "java"@.len()); }
    assert("ogg"@ != "kt"@) by { assert("ogg"@.len() != "kt"@.len()); }
    assert("ogg"@ != "swift"@) by { assert("ogg"@.len() != "swift"@.len()); }
    assert("ogg"@ != "c"@) by { assert("ogg"@.len() != "c"@.len()); }
    assert("ogg"@ != "h"@) by { assert("ogg"@.len() != "h"@.len()); }
    assert("ogg"@ != "cpp"@) by { assert("ogg"@[0] != "cpp"@[0]); }
    assert("ogg"@ != "hpp"@) by { assert("ogg"@[0] != "hpp"@[0]); }
    assert("ogg"@ != "cc"@) by { assert("ogg"@.len() != "cc"@.len()); }
    assert("ogg"@ != "js"@) by { assert("ogg"@.len() != "js"@.len()); }
    assert("ogg"@ != "mjs"@) by { assert("ogg"@[0] != "mjs"@[0]); }
    assert("ogg"@ != "cjs"@) by { assert("ogg"@[0] != "cjs"@[0]); }
    assert("ogg"@ != "jsx"@) by { assert("ogg"@[0] != "jsx"@[0]); }
    assert("ogg"@ != "ts"@) by { assert("ogg"@.len() != "ts"@.len()); }
    assert("ogg"@ != "tsx"@) by { assert("ogg"@[0] != "tsx"@[0]); }
    assert("ogg"@ != "lua"@) by { assert("ogg"@[0] != "lua"@[0]); }
    assert("ogg"@ != "pl"@) by { assert("ogg"@.len() != "pl"@.len()); }
    assert("ogg"@ != "sh"@) by { assert("ogg"@.len() != "sh"@.len()); }
    assert("ogg"@ != "bash"@) by { assert("ogg"@.len() != "bash"@.len()); }
    assert("ogg"@ != "zsh"@) by { assert("ogg"@[0] != "zsh"@[0]); }
    assert("ogg"@ != "php"@) by { assert("ogg"@[0] != "php"@[0]); }
    assert("ogg"@ != "html"@) by { assert("ogg"@.len() != "html"@.len()); }
    assert("ogg"@ != "htm"@) by { assert("ogg"@[0] != "htm"@[0]); }
    assert("ogg"@ != "xml"@) by { assert("ogg"@[0] != "xml"@[0]); }
    assert("ogg"@ != "svg"@) by { assert("ogg"@[0] != "svg"@[0]); }
    assert("ogg"@ != "css"@) by { assert("ogg"@[0] != "css"@[0]); }
    assert("ogg"@ != "scss"@) by { assert("ogg"@.len() != "scss"@.len()); }
    assert("ogg"@ != "sass"@) by { assert("ogg"@.len() != "sass"@.len()); }
    assert("ogg"@ != "less"@) by { assert("ogg"@.len() != "less"@.len()); }
    assert("ogg"@ != "md"@) by { assert("ogg"@.len() != "md"@.len()); }
    assert("ogg"@ != "mdx"@) by { assert("ogg"@[0] != "mdx"@[0]); }
    assert("ogg"@ != "txt"@) by { assert("ogg"@[0] != "txt"@[0]); }
    assert("ogg"@ != "rst"@) by { assert("ogg"@[0] != "rst"@[0]); }
    assert("ogg"@ != "adoc"@) by { assert("ogg"@.len() != "adoc"@.len()); }
    assert("ogg"@ != "asciidoc"@) by { assert("ogg"@.len() != "asciidoc"@.len()); }
    assert("ogg"@ != "json"@) by { assert("ogg"@.len() != "json"@.len()); }
    assert("ogg"@ != "yaml"@) by { assert("ogg"@.len() != "yaml"@.len()); }
    assert("ogg"@ != "yml"@) by { assert("ogg"@[0] != "yml"@[0]); }
    assert("ogg"@ != "toml"@) by { assert("ogg"@.len() != "toml"@.len()); }
    assert("ogg"@ != "csv"@) by { assert("ogg"@[0] != "csv"@[0]); }
    assert("ogg"@ != "tsv"@) by { assert("ogg"@[0] != "tsv"@[0]); }
    assert("ogg"@ != "ini"@) by { assert("ogg"@[0] != "ini"@[0]); }
    assert("ogg"@ != "conf"@) by { assert("ogg"@.len() != "conf"@.len()); }
    assert("ogg"@ != "log"@) by { assert("ogg"@[0] != "log"@[0]); }
    assert("ogg"@ != "png"@) by { assert("ogg"@[0] != "png"@[0]); }
    assert("ogg"@ != "jpg"@) by { assert("ogg"@[0] != "jpg"@[0]); }
    assert("ogg"@ != "jpeg"@) by { assert("ogg"@.len() != "jpeg"@.len()); }
    assert("ogg"@ != "gif"@) by { assert("ogg"@[0] != "gif"@[0]); }
    assert("ogg"@ != "webp"@) by { assert("ogg"@.len() != "webp"@.len()); }
    assert("ogg"@ != "bmp"@) by { assert("ogg"@[0] != "bmp"@[0]); }
    assert("ogg"@ != "tiff"@) by { assert("ogg"@.len() != "tiff"@.len()); }
    assert("ogg"@ != "ico"@) by { assert("ogg"@[0] != "ico"@[0]); }
    assert("ogg"@ != "psd"@) by { assert("ogg"@[0] != "psd"@[0]); }
    assert("ogg"@ != "ai"@) by { assert("ogg"@.len() != "ai"@.len()); }
    assert("ogg"@ != "mp4"@) by { assert("ogg"@[0] != "mp4"@[0]); }
    assert("ogg"@ != "mov"@) by { assert("ogg"@[0] != "mov"@[0]); }
    assert("ogg"@ != "mkv"@) by { assert("ogg"@[0] != "mkv"@[0]); }
    assert("ogg"@ != "avi"@) by { assert("ogg"@[0] != "avi"@[0]); }
    assert("ogg"@ != "webm"@) by { assert("ogg"@.len() != "webm"@.len()); }
    assert("ogg"@ != "flv"@) by { assert("ogg"@[0] != "flv"@[0]); }
    assert(ext_kind("ogg"@) == ExtKind::Audio);
    assert("m4a"@ != "rs"@) by { assert("m4a"@.len() != "rs"@.len()); }
    assert("m4a"@ != "go"@) by { assert("m4a"@.len() != "go"@.len()); }
    assert("m4a"@ != "py"@) by { assert("m4a"@.len() != "py"@.len()); }
    assert("m4a"@ != "rb"@) by { assert("m4a"@.len() != "rb"@.len()); }
    assert("m4a"@ != "java"@) by { assert("m4a"@.len() != "java"@.len()); }
    assert("m4a"@ != "kt"@) by { assert("m4a"@.len() != "kt"@.len()); }
    assert("m4a"@ != "swift"@) by { assert("m4a"@.len() != "swift"@.len()); }
    assert("m4a"@ != "c"@) by { assert("m4a"@.len() != "c"@.len()); }
    assert("m4a"@ != "h"@) by { assert("m4a"@.len() != "h"@.len()); }
    assert("m4a"@ != "cpp"@) by { assert("m4a"@[0] != "cpp"@[0]); }
    assert("m4a"@ != "hpp"@) by { assert("m4a"@[0] != "hpp"@[0]); }
    assert("m4a"@ != "cc"@) by { assert("m4a"@.len() != "cc"@.len()); }
    assert("m4a"@ != "js"@) by { assert("m4a"@.len() != "js"@.len()); }
    assert("m4a"@ != "mjs"@) by { assert("m4a"@[1] != "mjs"@[1]); }
    assert("m4a"@ != "cjs"@) by { assert("m4a"@[0] != "cjs"@[0]); }
    assert("m4a"@ != "jsx"@) by { assert("m4a"@[0] != "jsx"@[0]); }
    assert("m4a"@ != "ts"@) by { assert("m4a"@.len() != "ts"@.len()); }
    assert("m4a"@ != "tsx"@) by { assert("m4a"@[0] != "tsx"@[0]); }
    assert("m4a"@ != "lua"@) by { assert("m4a"@[0] != "lua"@[0]); }
    assert("m4a"@ != "pl"@) by { assert("m4a"@.len() != "pl"@.len()); }
    assert("m4a"@ != "sh"@) by { assert("m4a"@.len() != "sh"@.len()); }
    assert("m4a"@ != "bash"@) by { assert("m4a"@.len() != "bash"@.len()); }
    assert("m4a"@ != "zsh"@) by { assert("m4a"@[0] != "zsh"@[0]); }
    assert("m4a"@ != "php"@) by { assert("m4a"@[0] != "php"@[0]); }
    assert("m4a"@ != "html"@) by { assert("m4a"@.len() != "html"@.len()); }
    assert("m4a"@ != "htm"@) by { assert("m4a"@[0] != "htm"@[0]); }
    assert("m4a"@ != "xml"@) by { assert("m4a"@[0] != "xml"@[0]); }
    assert("m4a"@ != "svg"@) by { assert("m4a"@[0] != "svg"@[0]); }
    assert("m4a"@ != "css"@) by { assert("m4a"@[0] != "css"@[0]); }
    assert("m4a"@ != "scss"@) by { assert("m4a"@.len() != "scss"@.len()); }
    assert("m4a"@ != "sass"@) by { assert("m4a"@.len() != "sass"@.len()); }
    assert("m4a"@ != "less"@) by { assert("m4a"@.len() != "less"@.len()); }
    assert("m4a"@ != "md"@) by { assert("m4a"@.len() != "md"@.len()); }
    assert("m4a"@ != "mdx"@) by { assert("m4a"@[1] != "mdx"@[1]); }
    assert("m4a"@ != "txt"@) by { assert("m4a"@[0] != "txt"@[0]); }
    assert("m4a"@ != "rst"@) by { assert("m4a"@[0] != "rst"@[0]); }
    assert("m4a"@ != "adoc"@) by { assert("m4a"@.len() != "adoc"@.len()); }
    assert("m4a"@ != "asciidoc"@) by { assert("m4a"@.len() != "asciidoc"@.len()); }
    assert("m4a"@ != "json"@) by { assert("m4a"@.len() != "json"@.len()); }
    assert("m4a"@ != "yaml"@) by { assert("m4a"@.len() != "yaml"@.len()); }
    assert("m4a"@ != "yml"@) by { assert("m4a"@[0] != "yml"@[0]); }
    assert("m4a"@ != "toml"@) by { assert("m4a"@.len() != "toml"@.len()); }
    assert("m4a"@ != "csv"@) by { assert("m4a"@[0] != "csv"@[0]); }
    assert("m4a"@ != "tsv"@) by { assert("m4a"@[0] != "tsv"@[0]); }
    assert("m4a"@ != "ini"@) by { assert("m4a"@[0] != "ini"@[0]); }
    assert("m4a"@ != "conf"@) by { assert("m4a"@.len() != "conf"@.len()); }
    assert("m4a"@ != "log"@) by { assert("m4a"@[0] != "log"@[0]); }
    assert("m4a"@ != "png"@) by { assert("m4a"@[0] != "png"@[0]); }
    assert("m4a"@ != "jpg"@) by { assert("m4a"@[0] != "jpg"@[0]); }
    assert("m4a"@ != "jpeg"@) by { assert("m4a"@.len() != "jpeg"@.len()); }
    assert("m4a"@ != "gif"@) by { assert("m4a"@[0] != "gif"@[0]); }
    assert("m4a"@ != "webp"@) by { assert("m4a"@.len() != "webp"@.len()); }
    assert("m4a"@ != "bmp"@) by { assert("m4a"@[0] != "bmp"@[0]); }
    assert("m4a"@ != "tiff"@) by { assert("m4a"@.len() != "tiff"@.len()); }
    assert("m4a"@ != "ico"@) by { assert("m4a"@[0] != "ico"@[0]); }
    assert("m4a"@ != "psd"@) by { assert("m4a"@[0] != "psd"@[0]); }
    assert("m4a"@ != "ai"@) by { assert("m4a"@.len() != "ai"@.len()); }
    assert("m4a"@ != "mp4"@) by { assert("m4a"@[1] != "mp4"@[1]); }
    assert("m4a"@ != "mov"@) by { assert("m4a"@[1] != "mov"@[1]); }
    assert("m4a"@ != "mkv"@) by { assert("m4a"@[1] != "mkv"@[1]); }
    assert("m4a"@ != "avi"@) by { assert("m4a"@[0] != "avi"@[0]); }
    assert("m4a"@ != "webm"@) by { assert("m4a"@.len() != "webm"@.len()); }
    assert("m4a"@ != "flv"@) by { assert("m4a"@[0] != "flv"@[0]); }
    assert(ext_kind("m4a"@) == ExtKind::Audio);
    assert("aac"@ != "rs"@) by { assert("aac"@.len() != "rs"@.len()); }
    assert("aac"@ != "go"@) by { assert("aac"@.len() != "go"@.len()); }
    assert("aac"@ != "py"@) by { assert("aac"@.len() != "py"@.len()); }
    assert("aac"@ != "rb"@) by { assert("aac"@.len() != "rb"@.len()); }
    assert("aac"@ != "java"@) by { assert("aac"@.len() != "java"@.len()); }
    assert("aac"@ != "kt"@) by { assert("aac"@.len() != "kt"@.len()); }
    assert("aac"@ != "swift"@) by { assert("aac"@.len() != "swift"@.len()); }
    assert("aac"@ != "c"@) by { assert("aac"@.len() != "c"@.len()); }
    assert("aac"@ != "h"@) by { assert("aac"@.len() != "h"@.len()); }
    assert("aac"@ != "cpp"@) by { assert("aac"@[0] != "cpp"@[0]); }
    assert("aac"@ != "hpp"@) by { assert("aac"@[0] != "hpp"@[0]); }
    assert("aac"@ != "cc"@) by { assert("aac"@.len() != "cc"@.len()); }
    assert("aac"@ != "js"@) by { assert("aac"@.len() != "js"@.len()); }
    assert("aac"@ != "mjs"@) by { assert("aac"@[0] != "mjs"@[0]); }
    assert("aac"@ != "cjs"@) by { assert("aac"@[0] != "cjs"@[0]); }
    assert("aac"@ != "jsx"@) by { assert("aac"@[0] != "jsx"@[0]); }
    assert("aac"@ != "ts"@) by { assert("aac"@.len() != "ts"@.len()); }
    assert("aac"@ != "tsx"@) by { assert("aac"@[0] != "tsx"@[0]); }
    assert("aac"@ != "lua"@) by { assert("aac"@[0] != "lua"@[0]); }
    assert("aac"@ != "pl"@) by { assert("aac"@.len() != "pl"@.len()); }
    assert("aac"@ != "sh"@) by { assert("aac"@.len() != "sh"@.len()); }
    assert("aac"@ != "bash"@) by { assert("aac"@.len() != "bash"@.len()); }
    assert("aac"@ != "zsh"@) by { assert("aac"@[0] != "zsh"@[0]); }
    assert("aac"@ != "php"@) by { assert("aac"@[0] != "php"@[0]); }
    assert("aac"@ != "html"@) by { assert("aac"@.len() != "html"@.len()); }
    assert("aac"@ != "htm"@) by { assert("aac"@[0] != "htm"@[0]); }
    assert("aac"@ != "xml"@) by { assert("aac"@[0] != "xml"@[0]); }
    assert("aac"@ != "svg"@) by { assert("aac"@[0] != "svg"@[0]); }
    assert("aac"@ != "css"@) by { assert("aac"@[0] != "css"@[0]); }
    assert("aac"@ != "scss"@) by { assert("aac"@.len() != "scss"@.len()); }
    assert("aac"@ != "sass"@) by { assert("aac"@.len() != "sass"@.len()); }
    assert("aac"@ != "less"@) by { assert("aac"@.len() != "less"@.len()); }
    assert("aac"@ != "md"@) by { assert("aac"@.len() != "md"@.len()); }
    assert("aac"@ != "mdx"@) by { assert("aac"@[0] != "mdx"@[0]); }
    assert("aac"@ != "txt"@) by { assert("aac"@[0] != "txt"@[0]); }
    assert("aac"@ != "rst"@) by { assert("aac"@[0] != "rst"@[0]); }
    assert("aac"@ != "adoc"@) by { assert("aac"@.len() != "adoc"@.len()); }
    assert("aac"@ != "asciidoc"@) by { assert("aac"@.len() != "asciidoc"@.len()); }
    assert("aac"@ != "json"@) by { assert("aac"@.len() != "json"@.len()); }
    assert("aac"@ != "yaml"@) by { assert("aac"@.len() != "yaml"@.len()); }
    assert("aac"@ != "yml"@) by { assert("aac"@[0] != "yml"@[0]); }
    assert("aac"@ != "toml"@) by { assert("aac"@.len() != "toml"@.len()); }
    assert("aac"@ != "csv"@) by { assert("aac"@[0] != "csv"@[0]); }
    assert("aac"@ != "tsv"@) by { assert("aac"@[0] != "tsv"@[0]); }
    assert("aac"@ != "ini"@) by { assert("aac"@[0] != "ini"@[0]); }
    assert("aac"@ != "conf"@) by { assert("aac"@.len() != "conf"@.len()); }
    assert("aac"@ != "log"@) by { assert("aac"@[0] != "log"@[0]); }
    assert("aac"@ != "png"@) by { assert("aac"@[0] != "png"@[0]); }
    assert("aac"@ != "jpg"@) by { assert("aac"@[0] != "jpg"@[0]); }
    assert("aac"@ != "jpeg"@) by { assert("aac"@.len() != "jpeg"@.len()); }
    assert("aac"@ != "gif"@) by { assert("aac"@[0] != "gif"@[0]); }
    assert("aac"@ != "webp"@) by { assert("aac"@.len() != "webp"@.len()); }
    assert("aac"@ != "bmp"@) by { assert("aac"@[0] != "bmp"@[0]); }
    assert("aac"@ != "tiff"@) by { assert("aac"@.len() != "tiff"@.len()); }
    assert("aac"@ != "ico"@) by { assert("aac"@[0] != "ico"@[0]); }
    assert("aac"@ != "psd"@) by { assert("aac"@[0] != "psd"@[0]); }
    assert("aac"@ != "ai"@) by { assert("aac"@.len() != "ai"@.len()); }
    assert("aac"@ != "mp4"@) by { assert("aac"@[0] != "mp4"@[0]); }
    assert("aac"@ != "mov"@) by { assert("aac"@[0] != "mov"@[0]); }
    assert("aac"@ != "mkv"@) by { assert("aac"@[0] != "mkv"@[0]); }
    assert("aac"@ != "avi"@) by { assert("aac"@[1] != "avi"@[1]); }
    assert("aac"@ != "webm"@) by { assert("aac"@.len() != "webm"@.len()); }
    assert("aac"@ != "flv"@) by { assert("aac"@[0] != "flv"@[0]); }
    assert(ext_kind("aac"@) == ExtKind::Audio);
}

/// The archive extensions of the table.
proof fn lemma_table_archive()
    ensures
        ext_kind("zip"@) == ExtKind::Archive,
        ext_kind("tar"@) == ExtKind::Archive,
        ext_kind("gz"@) == ExtKind::Archive,
        ext_kind("bz2"@) == ExtKind::Archive,
        ext_kind("xz"@) == ExtKind::Archive,
        ext_kind("7z"@) == ExtKind::Archive,
        ext_kind("rar"@) == ExtKind::Archive,
        ext_kind("dmg"@) == ExtKind::Archive,
        ext_kind("iso"@) == ExtKind::Archive,
        ext_kind("pkg"@) == ExtKind::Archive,
        ext_kind("deb"@) == ExtKind::Archive,
        ext_kind("rpm"@) == ExtKind::Archive,
{
    reveal_strlit("zip");
    reveal_strlit("tar");
    reveal_strlit("gz");
    reveal_strlit("bz2");
    reveal_strlit("xz");
    reveal_strlit("7z");
    reveal_strlit("rar");
    reveal_strlit("dmg");
    reveal_strlit("iso");
    reveal_strlit("pkg");
    reveal_strlit("deb");
    reveal_strlit("rpm");
    reveal_strlit("rs");
    reveal_strlit("go");
    reveal_strlit("py");
    reveal_strlit("rb");
    reveal_strlit("java");
    reveal_strlit("kt");
    reveal_strlit("swift");
    reveal_strlit("c");
    reveal_strlit("h");
    reveal_strlit("cpp");
    reveal_strlit("hpp");
    reveal_strlit("cc");
    reveal_strlit("js");
    reveal_strlit("mjs");
    reveal_strlit("cjs");
    reveal_strlit("jsx");
    reveal_strlit("ts");
    reveal_strlit("tsx");
    reveal_strlit("lua");
    reveal_strlit("pl");
    reveal_strlit("sh");
    reveal_strlit("bash");
    reveal_strlit("zsh");
    reveal_strlit("php");
    reveal_strlit("html");
    reveal_strlit("htm");
    reveal_strlit("xml");
    reveal_strlit("svg");
    reveal_strlit("css");
    reveal_strlit("scss");
    reveal_strlit("sass");
    reveal_strlit("less");
    reveal_strlit("md");
    reveal_strlit("mdx");
    reveal_strlit("txt");
    reveal_strlit("rst");
    reveal_strlit("adoc");
    reveal_strlit("asciidoc");
    reveal_strlit("json");
    reveal_strlit("yaml");
    reveal_strlit("yml");
    reveal_strlit("toml");
    reveal_strlit("csv");
    reveal_strlit("tsv");
    reveal_strlit("ini");
    reveal_strlit("conf");
    reveal_strlit("log");
    reveal_strlit("png");
    reveal_strlit("jpg");
    reveal_strlit("jpeg");
    reveal_strlit("gif");
    reveal_strlit("webp");
    reveal_strlit("bmp");
    reveal_strlit("tiff");
    reveal_strlit("ico");
    reveal_strlit("psd");
    reveal_strlit("ai");
    reveal_strlit("mp4");
    reveal_strlit("mov");
    reveal_strlit("mkv");
    reveal_strlit("avi");
    reveal_strlit("webm");
    reveal_strlit("flv");
    reveal_strlit("mp3");
    reveal_strlit("wav");
    reveal_strlit("flac");
    reveal_strlit("ogg");
    reveal_strlit("m4a");
    reveal_strlit("aac");
    assert("zip"@ != "rs"@) by { assert("zip"@.len() != "rs"@.len()); }
    assert("zip"@ != "go"@) by { assert("zip"@.len() != "go"@.len()); }
    assert("zip"@ != "py"@) by { assert("zip"@.len() != "py"@.len()); }
    assert("zip"@ != "rb"@) by { assert("zip"@.len() != "rb"@.len()); }
    assert("zip"@ != "java"@) by { assert("zip"@.len() != "java"@.len()); }
    assert("zip"@ != "kt"@) by { assert("zip"@.len() != "kt"@.len()); }
    assert("zip"@ != "swift"@) by { assert("zip"@.len() != "swift"@.len()); }
    assert("zip"@ != "c"@) by { assert("zip"@.len() != "c"@.len()); }
    assert("zip"@ != "h"@) by { assert("zip"@.len() != "h"@.len()); }
    assert("zip"@ != "cpp"@) by { assert("zip"@[0] != "cpp"@[0]); }
    assert("zip"@ != "hpp"@) by { assert("zip"@[0] != "hpp"@[0]); }
    assert("zip"@ != "cc"@) by { assert("zip"@.len() != "cc"@.len()); }
    assert("zip"@ != "js"@) by { assert("zip"@.len() != "js"@.len()); }
    assert("zip"@ != "mjs"@) by { assert("zip"@[0] != "mjs"@[0]); }
    assert("zip"@ != "cjs"@) by { assert("zip"@[0] != "cjs"@[0]); }
    assert("zip"@ != "jsx"@) by { assert("zip"@[0] != "jsx"@[0]); }
    assert("zip"@ != "ts"@) by { assert("zip"@.len() != "ts"@.len()); }
    assert("zip"@ != "tsx"@) by { assert("zip"@[0] != "tsx"@[0]); }
    assert("zip"@ != "lua"@) by { assert("zip"@[0] != "lua"@[0]); }
    assert("zip"@ != "pl"@) by { assert("zip"@.len() != "pl"@.len()); }
    assert("zip"@ != "sh"@) by { assert("zip"@.len() != "sh"@.len()); }
    assert("zip"@ != "bash"@) by { assert("zip"@.len() != "bash"@.len()); }
    assert("zip"@ != "zsh"@) by { assert("zip"@[1] != "zsh"@[1]); }
    assert("zip"@ != "php"@) by { assert("zip"@[0] != "php"@[0]); }
    assert("zip"@ != "html"@) by { assert("zip"@.len() != "html"@.len()); }
    assert("zip"@ != "htm"@) by { assert("zip"@[0] != "htm"@[0]); }
    assert("zip"@ != "xml"@) by { assert("zip"@[0] != "xml"@[0]); }
    assert("zip"@ != "svg"@) by { assert("zip"@[0] != "svg"@[0]); }
    assert("zip"@ != "css"@) by { assert("zip"@[0] != "css"@[0]); }
    assert("zip"@ != "scss"@) by { assert("zip"@.len() != "scss"@.len()); }
    assert("zip"@ != "sass"@) by { assert("zip"@.len() != "sass"@.len()); }
    assert("zip"@ != "less"@) by { assert("zip"@.len() != "less"@.len()); }
    assert("zip"@ != "md"@) by { assert("zip"@.len() != "md"@.len()); }
    assert("zip"@ != "mdx"@) by { assert("zip"@[0] != "mdx"@[0]); }
    assert("zip"@ != "txt"@) by { assert("zip"@[0] != "txt"@[0]); }
    assert("zip"@ != "rst"@) by { assert("zip"@[0] != "rst"@[0]); }
    assert("zip"@ != "adoc"@) by { assert("zip"@.len() != "adoc"@.len()); }
    assert("zip"@ != "asciidoc"@) by { assert("zip"@.len() != "asciidoc"@.len()); }
    assert("zip"@ != "json"@) by { assert("zip"@.len() != "json"@.len()); }
    assert("zip"@ != "yaml"@) by { assert("zip"@.len() != "yaml"@.len()); }
    assert("zip"@ != "yml"@) by { assert("zip"@[0] != "yml"@[0]); }
    assert("zip"@ != "toml"@) by { assert("zip"@.len() != "toml"@.len()); }
    assert("zip"@ != "csv"@) by { assert("zip"@[0] != "csv"@[0]); }
    assert("zip"@ != "tsv"@) by { assert("zip"@[0] != "tsv"@[0]); }
    assert("zip"@ != "ini"@) by { assert("zip"@[0] != "ini"@[0]); }
    assert("zip"@ != "conf"@) by { assert("zip"@.len() != "conf"@.len()); }
    assert("zip"@ != "log"@) by { assert("zip"@[0] != "log"@[0]); }
    assert("zip"@ != "png"@) by { assert("zip"@[0] != "png"@[0]); }
    assert("zip"@ != "jpg"@) by { assert("zip"@[0] != "jpg"@[0]); }
    assert("zip"@ != "jpeg"@) by { assert("zip"@.len() != "jpeg"@.len()); }
    assert("zip"@ != "gif"@) by { assert("zip"@[0] != "gif"@[0]); }
    assert("zip"@ != "webp"@) by { assert("zip"@.len() != "webp"@.len()); }
    assert("zip"@ != "bmp"@) by { assert("zip"@[0] != "bmp"@[0]); }
    assert("zip"@ != "tiff"@) by { assert("zip"@.len() != "tiff"@.len()); }
    assert("zip"@ != "ico"@) by { assert("zip"@[0] != "ico"@[0]); }
    assert("zip"@ != "psd"@) by { assert("zip"@[0] != "psd"@[0]); }
    assert("zip"@ != "ai"@) by { assert("zip"@.len() != "ai"@.len()); }
    assert("zip"@ != "mp4"@) by { assert("zip"@[0] != "mp4"@[0]); }
    assert("zip"@ != "mov"@) by { assert("zip"@[0] != "mov"@[0]); }
    assert("zip"@ != "mkv"@) by { assert("zip"@[0] != "mkv"@[0]); }
    assert("zip"@ != "avi"@) by { assert("zip"@[0] != "avi"@[0]); }
    assert("zip"@ != "webm"@) by { assert("zip"@.len() != "webm"@.len()); }
    assert("zip"@ != "flv"@) by { assert("zip"@[0] != "flv"@[0]); }
    assert("zip"@ != "mp3"@) by { assert("zip"@[0] != "mp3"@[0]); }
    assert("zip"@ != "wav"@) by { assert("zip"@[0] != "wav"@[0]); }
    assert("zip"@ != "flac"@) by { assert("zip"@.len() != "flac"@.len()); }
    assert("zip"@ != "ogg"@) by { assert("zip"@[0] != "ogg"@[0]); }
    assert("zip"@ != "m4a"@) by { assert("zip"@[0] != "m4a"@[0]); }
    assert("zip"@ != "aac"@) by { assert("zip"@[0] != "aac"@[0]); }
    assert(ext_kind("zip"@) == ExtKind::Archive);
    assert("tar"@ != "rs"@) by { assert("tar"@.len() != "rs"@.len()); }
    assert("tar"@ != "go"@) by { assert("tar"@.len() != "go"@.len()); }
    assert("tar"@ != "py"@) by { assert("tar"@.len() != "py"@.len()); }
    assert("tar"@ != "rb"@) by { assert("tar"@.len() != "rb"@.len()); }
    assert("tar"@ != "java"@) by { assert("tar"@.len() != "java"@.len()); }
    assert("tar"@ != "kt"@) by { assert("tar"@.len() != "kt"@.len()); }
    assert("tar"@ != "swift"@) by { assert("tar"@.len() != "swift"@.len()); }
    assert("tar"@ != "c"@) by { assert("tar"@.len() != "c"@.len()); }
    assert("tar"@ != "h"@) by { assert("tar"@.len() != "h"@.len()); }
    assert("tar"@ != "cpp"@) by { assert("tar"@[0] != "cpp"@[0]); }
    assert("tar"@ != "hpp"@) by { assert("tar"@[0] != "hpp"@[0]); }
    assert("tar"@ != "cc"@) by { assert("tar"@.len() != "cc"@.len()); }
    assert("tar"@ != "js"@) by { assert("tar"@.len() != "js"@.len()); }
    assert("tar"@ != "mjs"@) by { assert("tar"@[0] != "mjs"@[0]); }
    assert("tar"@ != "cjs"@) by { assert("tar"@[0] != "cjs"@[0]); }
    assert("tar"@ != "jsx"@) by { assert("tar"@[0] != "jsx"@[0]); }
    assert("tar"@ != "ts"@) by { assert("tar"@.len() != "ts"@.len()); }
    assert("tar"@ != "tsx"@) by { assert("tar"@[1] != "tsx"@[1]); }
    assert("tar"@ != "lua"@) by { assert("tar"@[0] != "lua"@[0]); }
    assert("tar"@ != "pl"@) by { assert("tar"@.len() != "pl"@.len()); }
    assert("tar"@ != "sh"@) by { assert("tar"@.len() != "sh"@.len()); }
    assert("tar"@ != "bash"@) by { assert("tar"@.len() != "bash"@.len()); }
    assert("tar"@ != "zsh"@) by { assert("tar"@[0] != "zsh"@[0]); }
    assert("tar"@ != "php"@) by { assert("tar"@[0] != "php"@[0]); }
    assert("tar"@ != "html"@) by { assert("tar"@.len() != "html"@.len()); }
    assert("tar"@ != "htm"@) by { assert("tar"@[0] != "htm"@[0]); }
    assert("tar"@ != "xml"@) by { assert("tar"@[0] != "xml"@[0]); }
    assert("tar"@ != "svg"@) by { assert("tar"@[0] != "svg"@[0]); }
    assert("tar"@ != "css"@) by { assert("tar"@[0] != "css"@[0]); }
    assert("tar"@ != "scss"@) by { assert("tar"@.len() != "scss"@.len()); }
    assert("tar"@ != "sass"@) by { assert("tar"@.len() != "sass"@.len()); }
    assert("tar"@ != "less"@) by { assert("tar"@.len() != "less"@.len()); }
    assert("tar"@ != "md"@) by { assert("tar"@.len() != "md"@.len()); }
    assert("tar"@ != "mdx"@) by { assert("tar"@[0] != "mdx"@[0]); }
    assert("tar"@ != "txt"@) by { assert("tar"@[1] != "txt"@[1]); }
    assert("tar"@ != "rst"@) by { assert("tar"@[0] != "rst"@[0]); }
    assert("tar"@ != "adoc"@) by { assert("tar"@.len() != "adoc"@.len()); }
    assert("tar"@ != "asciidoc"@) by { assert("tar"@.len() != "asciidoc"@.len()); }
    assert("tar"@ != "json"@) by { assert("tar"@.len() != "json"@.len()); }
    assert("tar"@ != "yaml"@) by { assert("tar"@.len() != "yaml"@.len()); }
    assert("tar"@ != "yml"@) by { assert("tar"@[0] != "yml"@[0]); }
    assert("tar"@ != "toml"@) by { assert("tar"@.len() != "toml"@.len()); }
    assert("tar"@ != "csv"@) by { assert("tar"@[0] != "csv"@[0]); }
    assert("tar"@ != "tsv"@) by { assert("tar"@[1] != "tsv"@[1]); }
    assert("tar"@ != "ini"@) by { assert("tar"@[0] != "ini"@[0]); }
    assert("tar"@ != "conf"@) by { assert("tar"@.len() != "conf"@.len()); }
    assert("tar"@ != "log"@) by { assert("tar"@[0] != "log"@[0]); }
    assert("tar"@ != "png"@) by { assert("tar"@[0] != "png"@[0]); }
    assert("tar"@ != "jpg"@) by { assert("tar"@[0] != "jpg"@[0]); }
    assert("tar"@ != "jpeg"@) by { assert("tar"@.len() != "jpeg"@.len()); }
    assert("tar"@ != "gif"@) by { assert("tar"@[0] != "gif"@[0]); }
    assert("tar"@ != "webp"@) by { assert("tar"@.len() != "webp"@.len()); }
    assert("tar"@ != "bmp"@) by { assert("tar"@[0] != "bmp"@[0]); }
    assert("tar"@ != "tiff"@) by { assert("tar"@.len() != "tiff"@.len()); }
    assert("tar"@ != "ico"@) by { assert("tar"@[0] != "ico"@[0]); }
    assert("tar"@ != "psd"@) by { assert("tar"@[0] != "psd"@[0]); }
    assert("tar"@ != "ai"@) by { assert("tar"@.len() != "ai"@.len()); }
    assert("tar"@ != "mp4"@) by { assert("tar"@[0] != "mp4"@[0]); }
    assert("tar"@ != "mov"@) by { assert("tar"@[0] != "mov"@[0]); }
    assert("tar"@ != "mkv"@) by { assert("tar"@[0] != "mkv"@[0]); }
    assert("tar"@ != "avi"@) by { assert("tar"@[0] != "avi"@[0]); }
    assert("tar"@ != "webm"@) by { assert("tar"@.len() != "webm"@.len()); }
    assert("tar"@ != "flv"@) by { assert("tar"@[0] != "flv"@[0]); }
    assert("tar"@ != "mp3"@) by { assert("tar"@[0] != "mp3"@[0]); }
    assert("tar"@ != "wav"@) by { assert("tar"@[0] != "wav"@[0]); }
    assert("tar"@ != "flac"@) by { assert("tar"@.len() != "flac"@.len()); }
    assert("tar"@ != "ogg"@) by { assert("tar"@[0] != "ogg"@[0]); }
    assert("tar"@ != "m4a"@) by { assert("tar"@[0] != "m4a"@[0]); }
    assert("tar"@ != "aac"@) by { assert("tar"@[0] != "aac"@[0]); }
    assert(ext_kind("tar"@) == ExtKind::Archive);
    assert("gz"@ != "rs"@) by { assert("gz"@[0] != "rs"@[0]); }
    assert("gz"@ != "go"@) by { assert("gz"@[1] != "go"@[1]); }
    assert("gz"@ != "py"@) by { assert("gz"@[0] != "py"@[0]); }
    assert("gz"@ != "rb"@) by { assert("gz"@[0] != "rb"@[0]); }
    assert("gz"@ != "java"@) by { assert("gz"@.len() != "java"@.len()); }
    assert("gz"@ != "kt"@) by { assert("gz"@[0] != "kt"@[0]); }
    assert("gz"@ != "swift"@) by { assert("gz"@.len() != "swift"@.len()); }
    assert("gz"@ != "c"@) by { assert("gz"@.len() != "c"@.len()); }
    assert("gz"@ != "h"@) by { assert("gz"@.len() != "h"@.len()); }
    assert("gz"@ != "cpp"@) by { assert("gz"@.len() != "cpp"@.len()); }
    assert("gz"@ != "hpp"@) by { assert("gz"@.len() != "hpp"@.len()); }
    assert("gz"@ != "cc"@) by { assert("gz"@[0] != "cc"@[0]); }
    assert("gz"@ != "js"@) by { assert("gz"@[0] != "js"@[0]); }
    assert("gz"@ != "mjs"@) by { assert("gz"@.len() != "mjs"@.len()); }
    assert("gz"@ != "cjs"@) by { assert("gz"@.len() != "cjs"@.len()); }
    assert("gz"@ != "jsx"@) by { assert("gz"@.len() != "jsx"@.len()); }
    assert("gz"@ != "ts"@) by { assert("gz"@[0] != "ts"@[0]); }
    assert("gz"@ != "tsx"@) by { assert("gz"@.len() != "tsx"@.len()); }
    assert("gz"@ != "lua"@) by { assert("gz"@.len() != "lua"@.len()); }
    assert("gz"@ != "pl"@) by { assert("gz"@[0] != "pl"@[0]); }
    assert("gz"@ != "sh"@) by { assert("gz"@[0] != "sh"@[0]); }
    assert("gz"@ != "bash"@) by { assert("gz"@.len() != "bash"@.len()); }
    assert("gz"@ != "zsh"@) by { assert("gz"@.len() != "zsh"@.len()); }
    assert("gz"@ != "php"@) by { assert("gz"@.len() != "php"@.len()); }
    assert("gz"@ != "html"@) by { assert("gz"@.len() != "html"@.len()); }
    assert("gz"@ != "htm"@) by { assert("gz"@.len() != "htm"@.len()); }
    assert("gz"@ != "xml"@) by { assert("gz"@.len() != "xml"@.len()); }
    assert("gz"@ != "svg"@) by { assert("gz"@.len() != "svg"@.len()); }
    assert("gz"@ != "css"@) by { assert("gz"@.len() != "css"@.len()); }
    assert("gz"@ != "scss"@) by { assert("gz"@.len() != "scss"@.len()); }
    assert("gz"@ != "sass"@) by { assert("gz"@.len() != "sass"@.len()); }
    assert("gz"@ != "less"@) by { assert("gz"@.len() != "less"@.len()); }
    assert("gz"@ != "md"@) by { assert("gz"@[0] != "md"@[0]); }
    assert("gz"@ != "mdx"@) by { assert("gz"@.len() != "mdx"@.len()); }
    assert("gz"@ != "txt"@) by { assert("gz"@.len() != "txt"@.len()); }
    assert("gz"@ != "rst"@) by { assert("gz"@.len() != "rst"@.len()); }
    assert("gz"@ != "adoc"@) by { assert("gz"@.len() != "adoc"@.len()); }
    assert("gz"@ != "asciidoc"@) by { assert("gz"@.len() != "asciidoc"@.len()); }
    assert("gz"@ != "json"@) by { assert("gz"@.len() != "json"@.len()); }
    assert("gz"@ != "yaml"@) by { assert("gz"@.len() != "yaml"@.len()); }
    assert("gz"@ != "yml"@) by { assert("gz"@.len() != "yml"@.len()); }
    assert("gz"@ != "toml"@) by { assert("gz"@.len() != "toml"@.len()); }
    assert("gz"@ != "csv"@) by { assert("gz"@.len() != "csv"@.len()); }
    assert("gz"@ != "tsv"@) by { assert("gz"@.len() != "tsv"@.len()); }
    assert("gz"@ != "ini"@) by { assert("gz"@.len() != "ini"@.len()); }
    assert("gz"@ != "conf"@) by { assert("gz"@.len() != "conf"@.len()); }
    assert("gz"@ != "log"@) by { assert("gz"@.len() != "log"@.len()); }
    assert("gz"@ != "png"@) by { assert("gz"@.len() != "png"@.len()); }
    assert("gz"@ != "jpg"@) by { assert("gz"@.len() != "jpg"@.len()); }
    assert("gz"@ != "jpeg"@) by { assert("gz"@.len() != "jpeg"@.len()); }
    assert("gz"@ != "gif"@) by { assert("gz"@.len() != "gif"@.len()); }
    assert("gz"@ != "webp"@) by { assert("gz"@.len() != "webp"@.len()); }
    assert("gz"@ != "bmp"@) by { assert("gz"@.len() != "bmp"@.len()); }
    assert("gz"@ != "tiff"@) by { assert("gz"@.len() != "tiff"@.len()); }
    assert("gz"@ != "ico"@) by { assert("gz"@.len() != "ico"@.len()); }
    assert("gz"@ != "psd"@) by { assert("gz"@.len() != "psd"@.len()); }
    assert("gz"@ != "ai"@) by { assert("gz"@[0] != "ai"@[0]); }
    assert("gz"@ != "mp4"@) by { assert("gz"@.len() != "mp4"@.len()); }
    assert("gz"@ != "mov"@) by { assert("gz"@.len() != "mov"@.len()); }
    assert("gz"@ != "mkv"@) by { assert("gz"@.len() != "mkv"@.len()); }
    assert("gz"@ != "avi"@) by { assert("gz"@.len() != "avi"@.len()); }
    assert("gz"@ != "webm"@) by { assert("gz"@.len() != "webm"@.len()); }
    assert("gz"@ != "flv"@) by { assert("gz"@.len() != "flv"@.len()); }
    assert("gz"@ != "mp3"@) by { assert("gz"@.len() != "mp3"@.len()); }
    assert("gz"@ != "wav"@) by { assert("gz"@.len() != "wav"@.len()); }
    assert("gz"@ != "flac"@) by { assert("gz"@.len() != "flac"@.len()); }
    assert("gz"@ != "ogg"@) by { assert("gz"@.len() != "ogg"@.len()); }
    assert("gz"@ != "m4a"@) by { assert("gz"@.len() != "m4a"@.len()); }
    assert("gz"@ != "aac"@) by { assert("gz"@.len() != "aac"@.len()); }
    assert(ext_kind("gz"@) == ExtKind::Archive);
    assert("bz2"@ != "rs"@) by { assert("bz2"@.len() != "rs"@.len()); }
    assert("bz2"@ != "go"@) by { assert("bz2"@.len() != "go"@.len()); }
    assert("bz2"@ != "py"@) by { assert("bz2"@.len() != "py"@.len()); }
    assert("bz2"@ != "rb"@) by { assert("bz2"@.len() != "rb"@.len()); }
    assert("bz2"@ != "java"@) by { assert("bz2"@.len() != "java"@.len()); }
    assert("bz2"@ != "kt"@) by { assert("bz2"@.len() != "kt"@.len()); }
    assert("bz2"@ != "swift"@) by { assert("bz2"@.len() != "swift"@.len()); }
    assert("bz2"@ != "c"@) by { assert("bz2"@.len() != "c"@.len()); }
    assert("bz2"@ != "h"@) by { assert("bz2"@.len() != "h"@.len()); }
    assert("bz2"@ != "cpp"@) by { assert("bz2"@[0] != "cpp"@[0]); }
    assert("bz2"@ != "hpp"@) by { assert("bz2"@[0] != "hpp"@[0]); }
    assert("bz2"@ != "cc"@) by { assert("bz2"@.len() != "cc"@.len()); }
    assert("bz2"@ != "js"@) by { assert("bz2"@.len() != "js"@.len()); }
    assert("bz2"@ != "mjs"@) by { assert("bz2"@[0] != "mjs"@[0]); }
    assert("bz2"@ != "cjs"@) by { assert("bz2"@[0] != "cjs"@[0]); }
    assert("bz2"@ != "jsx"@) by { assert("bz2"@[0] != "jsx"@[0]); }
    assert("bz2"@ != "ts"@) by { assert("bz2"@.len() != "ts"@.len()); }
    assert("bz2"@ != "tsx"@) by { assert("bz2"@[0] != "tsx"@[0]); }
    assert("bz2"@ != "lua"@) by { assert("bz2"@[0] != "lua"@[0]); }
    assert("bz2"@ != "pl"@) by { assert("bz2"@.len() != "pl"@.len()); }
    assert("bz2"@ != "sh"@) by { assert("bz2"@.len() != "sh"@.len()); }
    assert("bz2"@ != "bash"@) by { assert("bz2"@.len() != "bash"@.len()); }
    assert("bz2"@ != "zsh"@) by { assert("bz2"@[0] != "zsh"@[0]); }
    assert("bz2"@ != "php"@) by { assert("bz2"@[0] != "php"@[0]); }
    assert("bz2"@ != "html"@) by { assert("bz2"@.len() != "html"@.len()); }
    assert("bz2"@ != "htm"@) by { assert("bz2"@[0] != "htm"@[0]); }
    assert("bz2"@ != "xml"@) by { assert("bz2"@[0] != "xml"@[0]); }
    assert("bz2"@ != "svg"@) by { assert("bz2"@[0] != "svg"@[0]); }
    assert("bz2"@ != "css"@) by { assert("bz2"@[0] != "css"@[0]); }
    assert("bz2"@ != "scss"@) by { assert("bz2"@.len() != "scss"@.len()); }
    assert("bz2"@ != "sass"@) by { assert("bz2"@.len() != "sass"@.len()); }
    assert("bz2"@ != "less"@) by { assert("bz2"@.len() != "less"@.len()); }
    assert("bz2"@ != "md"@) by { assert("bz2"@.len() != "md"@.len()); }
    assert("bz2"@ != "mdx"@) by { assert("bz2"@[0] != "mdx"@[0]); }
    assert("bz2"@ != "txt"@) by { assert("bz2"@[0] != "txt"@[0]); }
    assert("bz2"@ != "rst"@) by { assert("bz2"@[0] != "rst"@[0]); }
    assert("bz2"@ != "adoc"@) by { assert("bz2"@.len() != "adoc"@.len()); }
    assert("bz2"@ != "asciidoc"@) by { assert("bz2"@.len() != "asciidoc"@.len()); }
    assert("bz2"@ != "json"@) by { assert("bz2"@.len() != "json"@.len()); }
    assert("bz2"@ != "yaml"@) by { assert("bz2"@.len() != "yaml"@.len()); }
    assert("bz2"@ != "yml"@) by { assert("bz2"@[0] != "yml"@[0]); }
    assert("bz2"@ != "toml"@) by { assert("bz2"@.len() != "toml"@.len()); }
    assert("bz2"@ != "csv"@) by { assert("bz2"@[0] != "csv"@[0]); }
    assert("bz2"@ != "tsv"@) by { assert("bz2"@[0] != "tsv"@[0]); }
    assert("bz2"@ != "ini"@) by { assert("bz2"@[0] != "ini"@[0]); }
    assert("bz2"@ != "conf"@) by { assert("bz2"@.len() != "conf"@.len()); }
    assert("bz2"@ != "log"@) by { assert("bz2"@[0] != "log"@[0]); }
    assert("bz2"@ != "png"@) by { assert("bz2"@[0] != "png"@[0]); }
    assert("bz2"@ != "jpg"@) by { assert("bz2"@[0] != "jpg"@[0]); }
    assert("bz2"@ != "jpeg"@) by { assert("bz2"@.len() != "jpeg"@.len()); }
    assert("bz2"@ != "gif"@) by { assert("bz2"@[0] != "gif"@[0]); }
    assert("bz2"@ != "webp"@) by { assert("bz2"@.len() != "webp"@.len()); }
    assert("bz2"@ != "bmp"@) by { assert("bz2"@[1] != "bmp"@[1]); }
    assert("bz2"@ != "tiff"@) by { assert("bz2"@.len() != "tiff"@.len()); }
    assert("bz2"@ != "ico"@) by { assert("bz2"@[0] != "ico"@[0]); }
    assert("bz2"@ != "psd"@) by { assert("bz2"@[0] != "psd"@[0]); }
    assert("bz2"@ != "ai"@) by { assert("bz2"@.len() != "ai"@.len()); }
    assert("bz2"@ != "mp4"@) by { assert("bz2"@[0] != "mp4"@[0]); }
    assert("bz2"@ != "mov"@) by { assert("bz2"@[0] != "mov"@[0]); }
    assert("bz2"@ != "mkv"@) by { assert("bz2"@[0] != "mkv"@[0]); }
    assert("bz2"@ != "avi"@) by { assert("bz2"@[0] != "avi"@[0]); }
    assert("bz2"@ != "webm"@) by { assert("bz2"@.len() != "webm"@.len()); }
    assert("bz2"@ != "flv"@) by { assert("bz2"@[0] != "flv"@[0]); }
    assert("bz2"@ != "mp3"@) by { assert("bz2"@[0] != "mp3"@[0]); }
    assert("bz2"@ != "wav"@) by { assert("bz2"@[0] != "wav"@[0]); }
    assert("bz2"@ != "flac"@) by { assert("bz2"@.len() != "flac"@.len()); }
    assert("bz2"@ != "ogg"@) by { assert("bz2"@[0] != "ogg"@[0]); }
    assert("bz2"@ != "m4a"@) by { assert("bz2"@[0] != "m4a"@[0]); }
    assert("bz2"@ != "aac"@) by { assert("bz2"@[0] != "aac"@[0]); }
    assert(ext_kind("bz2"@) == ExtKind::Archive);
    assert("xz"@ != "rs"@) by { assert("xz"@[0] != "rs"@[0]); }
    assert("xz"@ != "go"@) by { assert("xz"@[0] != "go"@[0]); }
    assert("xz"@ != "py"@) by { assert("xz"@[0] != "py"@[0]); }
    assert("xz"@ != "rb"@) by { assert("xz"@[0] != "rb"@[0]); }
    assert("xz"@ != "java"@) by { assert("xz"@.len() != "java"@.len()); }
    assert("xz"@ != "kt"@) by { assert("xz"@[0] != "kt"@[0]); }
    assert("xz"@ != "swift"@) by { assert("xz"@.len() != "swift"@.len()); }
    assert("xz"@ != "c"@) by { assert("xz"@.len() != "c"@.len()); }
    assert("xz"@ != "h"@) by { assert("xz"@.len() != "h"@.len()); }
    assert("xz"@ != "cpp"@) by { assert("xz"@.len() != "cpp"@.len()); }
    assert("xz"@ != "hpp"@) by { assert("xz"@.len() != "hpp"@.len()); }
    assert("xz"@ != "cc"@) by { assert("xz"@[0] != "cc"@[0]); }
    assert("xz"@ != "js"@) by { assert("xz"@[0] != "js"@[0]); }
    assert("xz"@ != "mjs"@) by { assert("xz"@.len() != "mjs"@.len()); }
    assert("xz"@ != "cjs"@) by { assert("xz"@.len() != "cjs"@.len()); }
    assert("xz"@ != "jsx"@) by { assert("xz"@.len() != "jsx"@.len()); }
    assert("xz"@ != "ts"@) by { assert("xz"@[0] != "ts"@[0]); }
    assert("xz"@ != "tsx"@) by { assert("xz"@.len() != "tsx"@.len()); }
    assert("xz"@ != "lua"@) by { assert("xz"@.len() != "lua"@.len()); }
    assert("xz"@ != "pl"@) by { assert("xz"@[0] != "pl"@[0]); }
    assert("xz"@ != "sh"@) by { assert("xz"@[0] != "sh"@[0]); }
    assert("xz"@ != "bash"@) by { assert("xz"@.len() != "bash"@.len()); }
    assert("xz"@ != "zsh"@) by { assert("xz"@.len() != "zsh"@.len()); }
    assert("xz"@ != "php"@) by { assert("xz"@.len() != "php"@.len()); }
    assert("xz"@ != "html"@) by { assert("xz"@.len() != "html"@.len()); }
    assert("xz"@ != "htm"@) by { assert("xz"@.len() != "htm"@.len()); }
    assert("xz"@ != "xml"@) by { assert("xz"@.len() != "xml"@.len()); }
    assert("xz"@ != "svg"@) by { assert("xz"@.len() != "svg"@.len()); }
    assert("xz"@ != "css"@) by { assert("xz"@.len() != "css"@.len()); }
    assert("xz"@ != "scss"@) by { assert("xz"@.len() != "scss"@.len()); }
    assert("xz"@ != "sass"@) by { assert("xz"@.len() != "sass"@.len()); }
    assert("xz"@ != "less"@) by { assert("xz"@.len() != "less"@.len()); }
    assert("xz"@ != "md"@) by { assert("xz"@[0] != "md"@[0]); }
    assert("xz"@ != "mdx"@) by { assert("xz"@.len() != "mdx"@.len()); }
    assert("xz"@ != "txt"@) by { assert("xz"@.len() != "txt"@.len()); }
    assert("xz"@ != "rst"@) by { assert("xz"@.len() != "rst"@.len()); }
    assert("xz"@ != "adoc"@) by { assert("xz"@.len() != "adoc"@.len()); }
    assert("xz"@ != "asciidoc"@) by { assert("xz"@.len() != "asciidoc"@.len()); }
    assert("xz"@ != "json"@) by { assert("xz"@.len() != "json"@.len()); }
    assert("xz"@ != "yaml"@) by { assert("xz"@.len() != "yaml"@.len()); }
    assert("xz"@ != "yml"@) by { assert("xz"@.len() != "yml"@.len()); }
    assert("xz"@ != "toml"@) by { assert("xz"@.len() != "toml"@.len()); }
    assert("xz"@ != "csv"@) by { assert("xz"@.len() != "csv"@.len()); }
    assert("xz"@ != "tsv"@) by { assert("xz"@.len() != "tsv"@.len()); }
    assert("xz"@ != "ini"@) by { assert("xz"@.len() != "ini"@.len()); }
    assert("xz"@ != "conf"@) by { assert("xz"@.len() != "conf"@.len()); }
    assert("xz"@ != "log"@) by { assert("xz"@.len() != "log"@.len()); }
    assert("xz"@ != "png"@) by { assert("xz"@.len() != "png"@.len()); }
    assert("xz"@ != "jpg"@) by { assert("xz"@.len() != "jpg"@.len()); }
    assert("xz"@ != "jpeg"@) by { assert("xz"@.len() != "jpeg"@.len()); }
    assert("xz"@ != "gif"@) by { assert("xz"@.len() != "gif"@.len()); }
    assert("xz"@ != "webp"@) by { assert("xz"@.len() != "webp"@.len()); }
    assert("xz"@ != "bmp"@) by { assert("xz"@.len() != "bmp"@.len()); }
    assert("xz"@ != "tiff"@) by { assert("xz"@.len() != "tiff"@.len()); }
    assert("xz"@ != "ico"@) by { assert("xz"@.len() != "ico"@.len()); }
    assert("xz"@ != "psd"@) by { assert("xz"@.len() != "psd"@.len()); }
    assert("xz"@ != "ai"@) by { assert("xz"@[0] != "ai"@[0]); }
    assert("xz"@ != "mp4"@) by { assert("xz"@.len() != "mp4"@.len()); }
    assert("xz"@ != "mov"@) by { assert("xz"@.len() != "mov"@.len()); }
    assert("xz"@ != "mkv"@) by { assert("xz"@.len() != "mkv"@.len()); }
    assert("xz"@ != "avi"@) by { assert("xz"@.len() != "avi"@.len()); }
    assert("xz"@ != "webm"@) by { assert("xz"@.len() != "webm"@.len()); }
    assert("xz"@ != "flv"@) by { assert("xz"@.len() != "flv"@.len()); }
    assert("xz"@ != "mp3"@) by { assert("xz"@.len() != "mp3"@.len()); }
    assert("xz"@ != "wav"@) by { assert("xz"@.len() != "wav"@.len()); }
    assert("xz"@ != "flac"@) by { assert("xz"@.len() != "flac"@.len()); }
    assert("xz"@ != "ogg"@) by { assert("xz"@.len() != "ogg"@.len()); }
    assert("xz"@ != "m4a"@) by { assert("xz"@.len() != "m4a"@.len()); }
    assert("xz"@ != "aac"@) by { assert("xz"@.len() != "aac"@.len()); }
    assert(ext_kind("xz"@) == ExtKind::Archive);
    assert("7z"@ != "rs"@) by { assert("7z"@[0] != "rs"@[0]); }
    assert("7z"@ != "go"@) by { assert("7z"@[0] != "go"@[0]); }
    assert("7z"@ != "py"@) by { assert("7z"@[0] != "py"@[0]); }
    assert("7z"@ != "rb"@) by { assert("7z"@[0] != "rb"@[0]); }
    assert("7z"@ != "java"@) by { assert("7z"@.len() != "java"@.len()); }
    assert("7z"@ != "kt"@) by { assert("7z"@[0] != "kt"@[0]); }
    assert("7z"@ != "swift"@) by { assert("7z"@.len() != "swift"@.len()); }
    assert("7z"@ != "c"@) by { assert("7z"@.len() != "c"@.len()); }
    assert("7z"@ != "h"@) by { assert("7z"@.len() != "h"@.len()); }
    assert("7z"@ != "cpp"@) by { assert("7z"@.len() != "cpp"@.len()); }
    assert("7z"@ != "hpp"@) by { assert("7z"@.len() != "hpp"@.len()); }
    assert("7z"@ != "cc"@) by { assert("7z"@[0] != "cc"@[0]); }
    assert("7z"@ != "js"@) by { assert("7z"@[0] != "js"@[0]); }
    assert("7z"@ != "mjs"@) by { assert("7z"@.len() != "mjs"@.len()); }
    assert("7z"@ != "cjs"@) by { assert("7z"@.len() != "cjs"@.len()); }
    assert("7z"@ != "jsx"@) by { assert("7z"@.len() != "jsx"@.len()); }
    assert("7z"@ != "ts"@) by { assert("7z"@[0] != "ts"@[0]); }
    assert("7z"@ != "tsx"@) by { assert("7z"@.len() != "tsx"@.len()); }
    assert("7z"@ != "lua"@) by { assert("7z"@.len() != "lua"@.len()); }
    assert("7z"@ != "pl"@) by { assert("7z"@[0] != "pl"@[0]); }
    assert("7z"@ != "sh"@) by { assert("7z"@[0] != "sh"@[0]); }
    assert("7z"@ != "bash"@) by { assert("7z"@.len() != "bash"@.len()); }
    assert("7z"@ != "zsh"@) by { assert("7z"@.len() != "zsh"@.len()); }
    assert("7z"@ != "php"@) by { assert("7z"@.len() != "php"@.len()); }
    assert("7z"@ != "html"@) by { assert("7z"@.len() != "html"@.len()); }
    assert("7z"@ != "htm"@) by { assert("7z"@.len() != "htm"@.len()); }
    assert("7z"@ != "xml"@) by { assert("7z"@.len() != "xml"@.len()); }
    assert("7z"@ != "svg"@) by { assert("7z"@.len() != "svg"@.len()); }
    assert("7z"@ != "css"@) by { assert("7z"@.len() != "css"@.len()); }
    assert("7z"@ != "scss"@) by { assert("7z"@.len() != "scss"@.len()); }
    assert("7z"@ != "sass"@) by { assert("7z"@.len() != "sass"@.len()); }
    assert("7z"@ != "less"@) by { assert("7z"@.len() != "less"@.len()); }
    assert("7z"@ != "md"@) by { assert("7z"@[0] != "md"@[0]); }
    assert("7z"@ != "mdx"@) by { assert("7z"@.len() != "mdx"@.len()); }
    assert("7z"@ != "txt"@) by { assert("7z"@.len() != "txt"@.len()); }
    assert("7z"@ != "rst"@) by { assert("7z"@.len() != "rst"@.len()); }
    assert("7z"@ != "adoc"@) by { assert("7z"@.len() != "adoc"@.len()); }
    assert("7z"@ != "asciidoc"@) by { assert("7z"@.len() != "asciidoc"@.len()); }
    assert("7z"@ != "json"@) by { assert("7z"@.len() != "json"@.len()); }
    assert("7z"@ != "yaml"@) by { assert("7z"@.len() != "yaml"@.len()); }
    assert("7z"@ != "yml"@) by { assert("7z"@.len() != "yml"@.len()); }
    assert("7z"@ != "toml"@) by { assert("7z"@.len() != "toml"@.len()); }
    assert("7z"@ != "csv"@) by { assert("7z"@.len() != "csv"@.len()); }
    assert("7z"@ != "tsv"@) by { assert("7z"@.len() != "tsv"@.len()); }
    assert("7z"@ != "ini"@) by { assert("7z"@.len() != "ini"@.len()); }
    assert("7z"@ != "conf"@) by { assert("7z"@.len() != "conf"@.len()); }
    assert("7z"@ != "log"@) by { assert("7z"@.len() != "log"@.len()); }
    assert("7z"@ != "png"@) by { assert("7z"@.len() != "png"@.len()); }
    assert("7z"@ != "jpg"@) by { assert("7z"@.len() != "jpg"@.len()); }
    assert("7z"@ != "jpeg"@) by { assert("7z"@.len() != "jpeg"@.len()); }
    assert("7z"@ != "gif"@) by { assert("7z"@.len() != "gif"@.len()); }
    assert("7z"@ != "webp"@) by { assert("7z"@.len() != "webp"@.len()); }
    assert("7z"@ != "bmp"@) by { assert("7z"@.len() != "bmp"@.len()); }
    assert("7z"@ != "tiff"@) by { assert("7z"@.len() != "tiff"@.len()); }
    assert("7z"@ != "ico"@) by { assert("7z"@.len() != "ico"@.len()); }
    assert("7z"@ != "psd"@) by { assert("7z"@.len() != "psd"@.len()); }
    assert("7z"@ != "ai"@) by { assert("7z"@[0] != "ai"@[0]); }
    assert("7z"@ != "mp4"@) by { assert("7z"@.len() != "mp4"@.len()); }
    assert("7z"@ != "mov"@) by { assert("7z"@.len() != "mov"@.len()); }
    assert("7z"@ != "mkv"@) by { assert("7z"@.len() != "mkv"@.len()); }
    assert("7z"@ != "avi"@) by { assert("7z"@.len() != "avi"@.len()); }
    assert("7z"@ != "webm"@) by { assert("7z"@.len() != "webm"@.len()); }
    assert("7z"@ != "flv"@) by { assert("7z"@.len() != "flv"@.len()); }
    assert("7z"@ != "mp3"@) by { assert("7z"@.len() != "mp3"@.len()); }
    assert("7z"@ != "wav"@) by { assert("7z"@.len() != "wav"@.len()); }
    assert("7z"@ != "flac"@) by { assert("7z"@.len() != "flac"@.len()); }
    assert("7z"@ != "ogg"@) by { assert("7z"@.len() != "ogg"@.len()); }
    assert("7z"@ != "m4a"@) by { assert("7z"@.len() != "m4a"@.len()); }
    assert("7z"@ != "aac"@) by { assert("7z"@.len() != "aac"@.len()); }
    assert(ext_kind("7z"@) == ExtKind::Archive);
    assert("rar"@ != "rs"@) by { assert("rar"@.len() != "rs"@.len()); }
    assert("rar"@ != "go"@) by { assert("rar"@.len() != "go"@.len()); }
    assert("rar"@ != "py"@) by { assert("rar"@.len() != "py"@.len()); }
    assert("rar"@ != "rb"@) by { assert("rar"@.len() != "rb"@.len()); }
    assert("rar"@ != "java"@) by { assert("rar"@.len() != "java"@.len()); }
    assert("rar"@ != "kt"@) by { assert("rar"@.len() != "kt"@.len()); }
    assert("rar"@ != "swift"@) by { assert("rar"@.len() != "swift"@.len()); }
    assert("rar"@ != "c"@) by { assert("rar"@.len() != "c"@.len()); }
    assert("rar"@ != "h"@) by { assert("rar"@.len() != "h"@.len()); }
    assert("rar"@ != "cpp"@) by { assert("rar"@[0] != "cpp"@[0]); }
    assert("rar"@ != "hpp"@) by { assert("rar"@[0] != "hpp"@[0]); }
    assert("rar"@ != "cc"@) by { assert("rar"@.len() != "cc"@.len()); }
    assert("rar"@ != "js"@) by { assert("rar"@.len() != "js"@.len()); }
    assert("rar"@ != "mjs"@) by { assert("rar"@[0] != "mjs"@[0]); }
    assert("rar"@ != "cjs"@) by { assert("rar"@[0] != "cjs"@[0]); }
    assert("rar"@ != "jsx"@) by { assert("rar"@[0] != "jsx"@[0]); }
    assert("rar"@ != "ts"@) by { assert("rar"@.len() != "ts"@.len()); }
    assert("rar"@ != "tsx"@) by { assert("rar"@[0] != "tsx"@[0]); }
    assert("rar"@ != "lua"@) by { assert("rar"@[0] != "lua"@[0]); }
    assert("rar"@ != "pl"@) by { assert("rar"@.len() != "pl"@.len()); }
    assert("rar"@ != "sh"@) by { assert("rar"@.len() != "sh"@.len()); }
    assert("rar"@ != "bash"@) by { assert("rar"@.len() != "bash"@.len()); }
    assert("rar"@ != "zsh"@) by { assert("rar"@[0] != "zsh"@[0]); }
    assert("rar"@ != "php"@) by { assert("rar"@[0] != "php"@[0]); }
    assert("rar"@ != "html"@) by { assert("rar"@.len() != "html"@.len()); }
    assert("rar"@ != "htm"@) by { assert("rar"@[0] != "htm"@[0]); }
    assert("rar"@ != "xml"@) by { assert("rar"@[0] != "xml"@[0]); }
    assert("rar"@ != "svg"@) by { assert("rar"@[0] != "svg"@[0]); }
    assert("rar"@ != "css"@) by { assert("rar"@[0] != "css"@[0]); }
    assert("rar"@ != "scss"@) by { assert("rar"@.len() != "scss"@.len()); }
    assert("rar"@ != "sass"@) by { assert("rar"@.len() != "sass"@.len()); }
    assert("rar"@ != "less"@) by { assert("rar"@.len() != "less"@.len()); }
    assert("rar"@ != "md"@) by { assert("rar"@.len() != "md"@.len()); }
    assert("rar"@ != "mdx"@) by { assert("rar"@[0] != "mdx"@[0]); }
    assert("rar"@ != "txt"@) by { assert("rar"@[0] != "txt"@[0]); }
    assert("rar"@ != "rst"@) by { assert("rar"@[1] != "rst"@[1]); }
    assert("rar"@ != "adoc"@) by { assert("rar"@.len() != "adoc"@.len()); }
    assert("rar"@ != "asciidoc"@) by { assert("rar"@.len() != "asciidoc"@.len()); }
    assert("rar"@ != "json"@) by { assert("rar"@.len() != "json"@.len()); }
    assert("rar"@ != "yaml"@) by { assert("rar"@.len() != "yaml"@.len()); }
    assert("rar"@ != "yml"@) by { assert("rar"@[0] != "yml"@[0]); }
    assert("rar"@ != "toml"@) by { assert("rar"@.len() != "toml"@.len()); }
    assert("rar"@ != "csv"@) by { assert("rar"@[0] != "csv"@[0]); }
    assert("rar"@ != "tsv"@) by { assert("rar"@[0] != "tsv"@[0]); }
    assert("rar"@ != "ini"@) by { assert("rar"@[0] != "ini"@[0]); }
    assert("rar"@ != "conf"@) by { assert("rar"@.len() != "conf"@.len()); }
    assert("rar"@ != "log"@) by { assert("rar"@[0] != "log"@[0]); }
    assert("rar"@ != "png"@) by { assert("rar"@[0] != "png"@[0]); }
    assert("rar"@ != "jpg"@) by { assert("rar"@[0] != "jpg"@[0]); }
    assert("rar"@ != "jpeg"@) by { assert("rar"@.len() != "jpeg"@.len()); }
    assert("rar"@ != "gif"@) by { assert("rar"@[0] != "gif"@[0]); }
    assert("rar"@ != "webp"@) by { assert("rar"@.len() != "webp"@.len()); }
    assert("rar"@ != "bmp"@) by { assert("rar"@[0] != "bmp"@[0]); }
    assert("rar"@ != "tiff"@) by { assert("rar"@.len() != "tiff"@.len()); }
    assert("rar"@ != "ico"@) by { assert("rar"@[0] != "ico"@[0]); }
    assert("rar"@ != "psd"@) by { assert("rar"@[0] != "psd"@[0]); }
    assert("rar"@ != "ai"@) by { assert("rar"@.len() != "ai"@.len()); }
    assert("rar"@ != "mp4"@) by { assert("rar"@[0] != "mp4"@[0]); }
    assert("rar"@ != "mov"@) by { assert("rar"@[0] != "mov"@[0]); }
    assert("rar"@ != "mkv"@) by { assert("rar"@[0] != "mkv"@[0]); }
    assert("rar"@ != "avi"@) by { assert("rar"@[0] != "avi"@[0]); }
    assert("rar"@ != "webm"@) by { assert("rar"@.len() != "webm"@.len()); }
    assert("rar"@ != "flv"@) by { assert("rar"@[0] != "flv"@[0]); }
    assert("rar"@ != "mp3"@) by { assert("rar"@[0] != "mp3"@[0]); }
    assert("rar"@ != "wav"@) by { assert("rar"@[0] != "wav"@[0]); }
    assert("rar"@ != "flac"@) by { assert("rar"@.len() != "flac"@.len()); }
    assert("rar"@ != "ogg"@) by { assert("rar"@[0] != "ogg"@[0]); }
    assert("rar"@ != "m4a"@) by { assert("rar"@[0] != "m4a"@[0]); }
    assert("rar"@ != "aac"@) by { assert("rar"@[0] != "aac"@[0]); }
    assert(ext_kind("rar"@) == ExtKind::Archive);
    assert("dmg"@ != "rs"@) by { assert("dmg"@.len() != "rs"@.len()); }
    assert("dmg"@ != "go"@) by { assert("dmg"@.len() != "go"@.len()); }
    assert("dmg"@ != "py"@) by { assert("dmg"@.len() != "py"@.len()); }
    assert("dmg"@ != "rb"@) by { assert("dmg"@.len() != "rb"@.len()); }
    assert("dmg"@ != "java"@) by { assert("dmg"@.len() != "java"@.len()); }
    assert("dmg"@ != "kt"@) by { assert("dmg"@.len() != "kt"@.len()); }
    assert("dmg"@ != "swift"@) by { assert("dmg"@.len() != "swift"@.len()); }
    assert("dmg"@ != "c"@) by { assert("dmg"@.len() != "c"@.len()); }
    assert("dmg"@ != "h"@) by { assert("dmg"@.len() != "h"@.len()); }
    assert("dmg"@ != "cpp"@) by { assert("dmg"@[0] != "cpp"@[0]); }
    assert("dmg"@ != "hpp"@) by { assert("dmg"@[0] != "hpp"@[0]); }
    assert("dmg"@ != "cc"@) by { assert("dmg"@.len() != "cc"@.len()); }
    assert("dmg"@ != "js"@) by { assert("dmg"@.len() != "js"@.len()); }
    assert("dmg"@ != "mjs"@) by { assert("dmg"@[0] != "mjs"@[0]); }
    assert("dmg"@ != "cjs"@) by { assert("dmg"@[0] != "cjs"@[0]); }
    assert("dmg"@ != "jsx"@) by { assert("dmg"@[0] != "jsx"@[0]); }
    assert("dmg"@ != "ts"@) by { assert("dmg"@.len() != "ts"@.len()); }
    assert("dmg"@ != "tsx"@) by { assert("dmg"@[0] != "tsx"@[0]); }
    assert("dmg"@ != "lua"@) by { assert("dmg"@[0] != "lua"@[0]); }
    assert("dmg"@ != "pl"@) by { assert("dmg"@.len() != "pl"@.len()); }
    assert("dmg"@ != "sh"@) by { assert("dmg"@.len() != "sh"@.len()); }
    assert("dmg"@ != "bash"@) by { assert("dmg"@.len() != "bash"@.len()); }
    assert("dmg"@ != "zsh"@) by { assert("dmg"@[0] != "zsh"@[0]); }
    assert("dmg"@ != "php"@) by { assert("dmg"@[0] != "php"@[0]); }
    assert("dmg"@ != "html"@) by { assert("dmg"@.len() != "html"@.len()); }
    assert("dmg"@ != "htm"@) by { assert("dmg"@[0] != "htm"@[0]); }
    assert("dmg"@ != "xml"@) by { assert("dmg"@[0] != "xml"@[0]); }
    assert("dmg"@ != "svg"@) by { assert("dmg"@[0] != "svg"@[0]); }
    assert("dmg"@ != "css"@) by { assert("dmg"@[0] != "css"@[0]); }
    assert("dmg"@ != "scss"@) by { assert("dmg"@.len() != "scss"@.len()); }
    assert("dmg"@ != "sass"@) by { assert("dmg"@.len() != "sass"@.len()); }
    assert("dmg"@ != "less"@) by { assert("dmg"@.len() != "less"@.len()); }
    assert("dmg"@ != "md"@) by { assert("dmg"@.len() != "md"@.len()); }
    assert("dmg"@ != "mdx"@) by { assert("dmg"@[0] != "mdx"@[0]); }
    assert("dmg"@ != "txt"@) by { assert("dmg"@[0] != "txt"@[0]); }
    assert("dmg"@ != "rst"@) by { assert("dmg"@[0] != "rst"@[0]); }
    assert("dmg"@ != "adoc"@) by { assert("dmg"@.len() != "adoc"@.len()); }
    assert("dmg"@ != "asciidoc"@) by { assert("dmg"@.len() != "asciidoc"@.len()); }
    assert("dmg"@ != "json"@) by { assert("dmg"@.len() != "json"@.len()); }
    assert("dmg"@ != "yaml"@) by { assert("dmg"@.len() != "yaml"@.len()); }
    assert("dmg"@ != "yml"@) by { assert("dmg"@[0] != "yml"@[0]); }
    assert("dmg"@ != "toml"@) by { assert("dmg"@.len() != "toml"@.len()); }
    assert("dmg"@ != "csv"@) by { assert("dmg"@[0] != "csv"@[0]); }
    assert("dmg"@ != "tsv"@) by { assert("dmg"@[0] != "tsv"@[0]); }
    assert("dmg"@ != "ini"@) by { assert("dmg"@[0] != "ini"@[0]); }
    assert("dmg"@ != "conf"@) by { assert("dmg"@.len() != "conf"@.len()); }
    assert("dmg"@ != "log"@) by { assert("dmg"@[0] != "log"@[0]); }
    assert("dmg"@ != "png"@) by { assert("dmg"@[0] != "png"@[0]); }
    assert("dmg"@ != "jpg"@) by { assert("dmg"@[0] != "jpg"@[0]); }
    assert("dmg"@ != "jpeg"@) by { assert("dmg"@.len() != "jpeg"@.len()); }
    assert("dmg"@ != "gif"@) by { assert("dmg"@[0] != "gif"@[0]); }
    assert("dmg"@ != "webp"@) by { assert("dmg"@.len() != "webp"@.len()); }
    assert("dmg"@ != "bmp"@) by { assert("dmg"@[0] != "bmp"@[0]); }
    assert("dmg"@ != "tiff"@) by { assert("dmg"@.len() != "tiff"@.len()); }
    assert("dmg"@ != "ico"@) by { assert("dmg"@[0] != "ico"@[0]); }
    assert("dmg"@ != "psd"@) by { assert("dmg"@[0] != "psd"@[0]); }
    assert("dmg"@ != "ai"@) by { assert("dmg"@.len() != "ai"@.len()); }
    assert("dmg"@ != "mp4"@) by { assert("dmg"@[0] != "mp4"@[0]); }
    assert("dmg"@ != "mov"@) by { assert("dmg"@[0] != "mov"@[0]); }
    assert("dmg"@ != "mkv"@) by { assert("dmg"@[0] != "mkv"@[0]); }
    assert("dmg"@ != "avi"@) by { assert("dmg"@[0] != "avi"@[0]); }
    assert("dmg"@ != "webm"@) by { assert("dmg"@.len() != "webm"@.len()); }
    assert("dmg"@ != "flv"@) by { assert("dmg"@[0] != "flv"@[0]); }
    assert("dmg"@ != "mp3"@) by { assert("dmg"@[0] != "mp3"@[0]); }
    assert("dmg"@ != "wav"@) by { assert("dmg"@[0] != "wav"@[0]); }
    assert("dmg"@ != "flac"@) by { assert("dmg"@.len() != "flac"@.len()); }
    assert("dmg"@ != "ogg"@) by { assert("dmg"@[0] != "ogg"@[0]); }
    assert("dmg"@ != "m4a"@) by { assert("dmg"@[0] != "m4a"@[0]); }
    assert("dmg"@ != "aac"@) by { assert("dmg"@[0] != "aac"@[0]); }
    assert(ext_kind("dmg"@) == ExtKind::Archive);
    assert("iso"@ != "rs"@) by { assert("iso"@.len() != "rs"@.len()); }
    assert("iso"@ != "go"@) by { assert("iso"@.len() != "go"@.len()); }
    assert("iso"@ != "py"@) by { assert("iso"@.len() != "py"@.len()); }
    assert("iso"@ != "rb"@) by { assert("iso"@.len() != "rb"@.len()); }
    assert("iso"@ != "java"@) by { assert("iso"@.len() != "java"@.len()); }
    assert("iso"@ != "kt"@) by { assert("iso"@.len() != "kt"@.len()); }
    assert("iso"@ != "swift"@) by { assert("iso"@.len() != "swift"@.len()); }
    assert("iso"@ != "c"@) by { assert("iso"@.len() != "c"@.len()); }
    assert("iso"@ != "h"@) by { assert("iso"@.len() != "h"@.len()); }
    assert("iso"@ != "cpp"@) by { assert("iso"@[0] != "cpp"@[0]); }
    assert("iso"@ != "hpp"@) by { assert("iso"@[0] != "hpp"@[0]); }
    assert("iso"@ != "cc"@) by { assert("iso"@.len() != "cc"@.len()); }
    assert("iso"@ != "js"@) by { assert("iso"@.len() != "js"@.len()); }
    assert("iso"@ != "mjs"@) by { assert("iso"@[0] != "mjs"@[0]); }
    assert("iso"@ != "cjs"@) by { assert("iso"@[0] != "cjs"@[0]); }
    assert("iso"@ != "jsx"@) by { assert("iso"@[0] != "jsx"@[0]); }
    assert("iso"@ != "ts"@) by { assert("iso"@.len() != "ts"@.len()); }
    assert("iso"@ != "tsx"@) by { assert("iso"@[0] != "tsx"@[0]); }
    assert("iso"@ != "lua"@) by { assert("iso"@[0] != "lua"@[0]); }
    assert("iso"@ != "pl"@) by { assert("iso"@.len() != "pl"@.len()); }
    assert("iso"@ != "sh"@) by { assert("iso"@.len() != "sh"@.len()); }
    assert("iso"@ != "bash"@) by { assert("iso"@.len() != "bash"@.len()); }
    assert("iso"@ != "zsh"@) by { assert("iso"@[0] != "zsh"@[0]); }
    assert("iso"@ != "php"@) by { assert("iso"@[0] != "php"@[0]); }
    assert("iso"@ != "html"@) by { assert("iso"@.len() != "html"@.len()); }
    assert("iso"@ != "htm"@) by { assert("iso"@[0] != "htm"@[0]); }
    assert("iso"@ != "xml"@) by { assert("iso"@[0] != "xml"@[0]); }
    assert("iso"@ != "svg"@) by { assert("iso"@[0] != "svg"@[0]); }
    assert("iso"@ != "css"@) by { assert("iso"@[0] != "css"@[0]); }
    assert("iso"@ != "scss"@) by { assert("iso"@.len() != "scss"@.len()); }
    assert("iso"@ != "sass"@) by { assert("iso"@.len() != "sass"@.len()); }
    assert("iso"@ != "less"@) by { assert("iso"@.len() != "less"@.len()); }
    assert("iso"@ != "md"@) by { assert("iso"@.len() != "md"@.len()); }
    assert("iso"@ != "mdx"@) by { assert("iso"@[0] != "mdx"@[0]); }
    assert("iso"@ != "txt"@) by { assert("iso"@[0] != "txt"@[0]); }
    assert("iso"@ != "rst"@) by { assert("iso"@[0] != "rst"@[0]); }
    assert("iso"@ != "adoc"@) by { assert("iso"@.len() != "adoc"@.len()); }
    assert("iso"@ != "asciidoc"@) by { assert("iso"@.len() != "asciidoc"@.len()); }
    assert("iso"@ != "json"@) by { assert("iso"@.len() != "json"@.len()); }
    assert("iso"@ != "yaml"@) by { assert("iso"@.len() != "yaml"@.len()); }
    assert("iso"@ != "yml"@) by { assert("iso"@[0] != "yml"@[0]); }
    assert("iso"@ != "toml"@) by { assert("iso"@.len() != "toml"@.len()); }
    assert("iso"@ != "csv"@) by { assert("iso"@[0] != "csv"@[0]); }
    assert("iso"@ != "tsv"@) by { assert("iso"@[0] != "tsv"@[0]); }
    assert("iso"@ != "ini"@) by { assert("iso"@[1] != "ini"@[1]); }
    assert("iso"@ != "conf"@) by { assert("iso"@.len() != "conf"@.len()); }
    assert("iso"@ != "log"@) by { assert("iso"@[0] != "log"@[0]); }
    assert("iso"@ != "png"@) by { assert("iso"@[0] != "png"@[0]); }
    assert("iso"@ != "jpg"@) by { assert("iso"@[0] != "jpg"@[0]); }
    assert("iso"@ != "jpeg"@) by { assert("iso"@.len() != "jpeg"@.len()); }
    assert("iso"@ != "gif"@) by { assert("iso"@[0] != "gif"@[0]); }
    assert("iso"@ != "webp"@) by { assert("iso"@.len() != "webp"@.len()); }
    assert("iso"@ != "bmp"@) by { assert("iso"@[0] != "bmp"@[0]); }
    assert("iso"@ != "tiff"@) by { assert("iso"@.len() != "tiff"@.len()); }
    assert("iso"@ != "ico"@) by { assert("iso"@[1] != "ico"@[1]); }
    assert("iso"@ != "psd"@) by { assert("iso"@[0] != "psd"@[0]); }
    assert("iso"@ != "ai"@) by { assert("iso"@.len() != "ai"@.len()); }
    assert("iso"@ != "mp4"@) by { assert("iso"@[0] != "mp4"@[0]); }
    assert("iso"@ != "mov"@) by { assert("iso"@[0] != "mov"@[0]); }
    assert("iso"@ != "mkv"@) by { assert("iso"@[0] != "mkv"@[0]); }
    assert("iso"@ != "avi"@) by { assert("iso"@[0] != "avi"@[0]); }
    assert("iso"@ != "webm"@) by { assert("iso"@.len() != "webm"@.len()); }
    assert("iso"@ != "flv"@) by { assert("iso"@[0] != "flv"@[0]); }
    assert("iso"@ != "mp3"@) by { assert("iso"@[0] != "mp3"@[0]); }
    assert("iso"@ != "wav"@) by { assert("iso"@[0] != "wav"@[0]); }
    assert("iso"@ != "flac"@) by { assert("iso"@.len() != "flac"@.len()); }
    assert("iso"@ != "ogg"@) by { assert("iso"@[0] != "ogg"@[0]); }
    assert("iso"@ != "m4a"@) by { assert("iso"@[0] != "m4a"@[0]); }
    assert("iso"@ != "aac"@) by { assert("iso"@[0] != "aac"@[0]); }
    assert(ext_kind("iso"@) == ExtKind::Archive);
    assert("pkg"@ != "rs"@) by { assert("pkg"@.len() != "rs"@.len()); }
    assert("pkg"@ != "go"@) by { assert("pkg"@.len() != "go"@.len()); }
    assert("pkg"@ != "py"@) by { assert("pkg"@.len() != "py"@.len()); }
    assert("pkg"@ != "rb"@) by { assert("pkg"@.len() != "rb"@.len()); }
    assert("pkg"@ != "java"@) by { assert("pkg"@.len() != "java"@.len()); }
    assert("pkg"@ != "kt"@) by { assert("pkg"@.len() != "kt"@.len()); }
    assert("pkg"@ != "swift"@) by { assert("pkg"@.len() != "swift"@.len()); }
    assert("pkg"@ != "c"@) by { assert("pkg"@.len() != "c"@.len()); }
    assert("pkg"@ != "h"@) by { assert("pkg"@.len() != "h"@.len()); }
    assert("pkg"@ != "cpp"@) by { assert("pkg"@[0] != "cpp"@[0]); }
    assert("pkg"@ != "hpp"@) by { assert("pkg"@[0] != "hpp"@[0]); }
    assert("pkg"@ != "cc"@) by { assert("pkg"@.len() != "cc"@.len()); }
    assert("pkg"@ != "js"@) by { assert("pkg"@.len() != "js"@.len()); }
    assert("pkg"@ != "mjs"@) by { assert("pkg"@[0] != "mjs"@[0]); }
    assert("pkg"@ != "cjs"@) by { assert("pkg"@[0] != "cjs"@[0]); }
    assert("pkg"@ != "jsx"@) by { assert("pkg"@[0] != "jsx"@[0]); }
    assert("pkg"@ != "ts"@) by { assert("pkg"@.len() != "ts"@.len()); }
    assert("pkg"@ != "tsx"@) by { assert("pkg"@[0] != "tsx"@[0]); }
    assert("pkg"@ != "lua"@) by { assert("pkg"@[0] != "lua"@[0]); }
    assert("pkg"@ != "pl"@) by { assert("pkg"@.len() != "pl"@.len()); }
    assert("pkg"@ != "sh"@) by { assert("pkg"@.len() != "sh"@.len()); }
    assert("pkg"@ != "bash"@) by { assert("pkg"@.len() != "bash"@.len()); }
    assert("pkg"@ != "zsh"@) by { assert("pkg"@[0] != "zsh"@[0]); }
    assert("pkg"@ != "php"@) by { assert("pkg"@[1] != "php"@[1]); }
    assert("pkg"@ != "html"@) by { assert("pkg"@.len() != "html"@.len()); }
    assert("pkg"@ != "htm"@) by { assert("pkg"@[0] != "htm"@[0]); }
    assert("pkg"@ != "xml"@) by { assert("pkg"@[0] != "xml"@[0]); }
    assert("pkg"@ != "svg"@) by { assert("pkg"@[0] != "svg"@[0]); }
    assert("pkg"@ != "css"@) by { assert("pkg"@[0] != "css"@[0]); }
    assert("pkg"@ != "scss"@) by { assert("pkg"@.len() != "scss"@.len()); }
    assert("pkg"@ != "sass"@) by { assert("pkg"@.len() != "sass"@.len()); }
    assert("pkg"@ != "less"@) by { assert("pkg"@.len() != "less"@.len()); }
    assert("pkg"@ != "md"@) by { assert("pkg"@.len() != "md"@.len()); }
    assert("pkg"@ != "mdx"@) by { assert("pkg"@[0] != "mdx"@[0]); }
    assert("pkg"@ != "txt"@) by { assert("pkg"@[0] != "txt"@[0]); }
    assert("pkg"@ != "rst"@) by { assert("pkg"@[0] != "rst"@[0]); }
    assert("pkg"@ != "adoc"@) by { assert("pkg"@.len() != "adoc"@.len()); }
    assert("pkg"@ != "asciidoc"@) by { assert("pkg"@.len() != "asciidoc"@.len()); }
    assert("pkg"@ != "json"@) by { assert("pkg"@.len() != "json"@.len()); }
    assert("pkg"@ != "yaml"@) by { assert("pkg"@.len() != "yaml"@.len()); }
    assert("pkg"@ != "yml"@) by { assert("pkg"@[0] != "yml"@[0]); }
    assert("pkg"@ != "toml"@) by { assert("pkg"@.len() != "toml"@.len()); }
    assert("pkg"@ != "csv"@) by { assert("pkg"@[0] != "csv"@[0]); }
    assert("pkg"@ != "tsv"@) by { assert("pkg"@[0] != "tsv"@[0]); }
    assert("pkg"@ != "ini"@) by { assert("pkg"@[0] != "ini"@[0]); }
    assert("pkg"@ != "conf"@) by { assert("pkg"@.len() != "conf"@.len()); }
    assert("pkg"@ != "log"@) by { assert("pkg"@[0] != "log"@[0]); }
    assert("pkg"@ != "png"@) by { assert("pkg"@[1] != "png"@[1]); }
    assert("pkg"@ != "jpg"@) by { assert("pkg"@[0] != "jpg"@[0]); }
    assert("pkg"@ != "jpeg"@) by { assert("pkg"@.len() != "jpeg"@.len()); }
    assert("pkg"@ != "gif"@) by { assert("pkg"@[0] != "gif"@[0]); }
    assert("pkg"@ != "webp"@) by { assert("pkg"@.len() != "webp"@.len()); }
    assert("pkg"@ != "bmp"@) by { assert("pkg"@[0] != "bmp"@[0]); }
    assert("pkg"@ != "tiff"@) by { assert("pkg"@.len() != "tiff"@.len()); }
    assert("pkg"@ != "ico"@) by { assert("pkg"@[0] != "ico"@[0]); }
    assert("pkg"@ != "psd"@) by { assert("pkg"@[1] != "psd"@[1]); }
    assert("pkg"@ != "ai"@) by { assert("pkg"@.len() != "ai"@.len()); }
    assert("pkg"@ != "mp4"@) by { assert("pkg"@[0] != "mp4"@[0]); }
    assert("pkg"@ != "mov"@) by { assert("pkg"@[0] != "mov"@[0]); }
    assert("pkg"@ != "mkv"@) by { assert("pkg"@[0] != "mkv"@[0]); }
    assert("pkg"@ != "avi"@) by { assert("pkg"@[0] != "avi"@[0]); }
    assert("pkg"@ != "webm"@) by { assert("pkg"@.len() != "webm"@.len()); }
    assert("pkg"@ != "flv"@) by { assert("pkg"@[0] != "flv"@[0]); }
    assert("pkg"@ != "mp3"@) by { assert("pkg"@[0] != "mp3"@[0]); }
    assert("pkg"@ != "wav"@) by { assert("pkg"@[0] != "wav"@[0]); }
    assert("pkg"@ != "flac"@) by { assert("pkg"@.len() != "flac"@.len()); }
    assert("pkg"@ != "ogg"@) by { assert("pkg"@[0] != "ogg"@[0]); }
    assert("pkg"@ != "m4a"@) by { assert("pkg"@[0] != "m4a"@[0]); }
    assert("pkg"@ != "aac"@) by { assert("pkg"@[0] != "aac"@[0]); }
    assert(ext_kind("pkg"@) == ExtKind::Archive);
    assert("deb"@ != "rs"@) by { assert("deb"@.len() != "rs"@.len()); }
    assert("deb"@ != "go"@) by { assert("deb"@.len() != "go"@.len()); }
    assert("deb"@ != "py"@) by { assert("deb"@.len() != "py"@.len()); }
    assert("deb"@ != "rb"@) by { assert("deb"@.len() != "rb"@.len()); }
    assert("deb"@ != "java"@) by { assert("deb"@.len() != "java"@.len()); }
    assert("deb"@ != "kt"@) by { assert("deb"@.len() != "kt"@.len()); }
    assert("deb"@ != "swift"@) by { assert("deb"@.len() != "swift"@.len()); }
    assert("deb"@ != "c"@) by { assert("deb"@.len() != "c"@.len()); }
    assert("deb"@ != "h"@) by { assert("deb"@.len() != "h"@.len()); }
    assert("deb"@ != "cpp"@) by { assert("deb"@[0] != "cpp"@[0]); }
    assert("deb"@ != "hpp"@) by { assert("deb"@[0] != "hpp"@[0]); }
    assert("deb"@ != "cc"@) by { assert("deb"@.len() != "cc"@.len()); }
    assert("deb"@ != "js"@) by { assert("deb"@.len() != "js"@.len()); }
    assert("deb"@ != "mjs"@) by { assert("deb"@[0] != "mjs"@[0]); }
    assert("deb"@ != "cjs"@) by { assert("deb"@[0] != "cjs"@[0]); }
    assert("deb"@ != "jsx"@) by { assert("deb"@[0] != "jsx"@[0]); }
    assert("deb"@ != "ts"@) by { assert("deb"@.len() != "ts"@.len()); }
    assert("deb"@ != "tsx"@) by { assert("deb"@[0] != "tsx"@[0]); }
    assert("deb"@ != "lua"@) by { assert("deb"@[0] != "lua"@[0]); }
    assert("deb"@ != "pl"@) by { assert("deb"@.len() != "pl"@.len()); }
    assert("deb"@ != "sh"@) by { assert("deb"@.len() != "sh"@.len()); }
    assert("deb"@ != "bash"@) by { assert("deb"@.len() != "bash"@.len()); }
    assert("deb"@ != "zsh"@) by { assert("deb"@[0] != "zsh"@[0]); }
    assert("deb"@ != "php"@) by { assert("deb"@[0] != "php"@[0]); }
    assert("deb"@ != "html"@) by { assert("deb"@.len() != "html"@.len()); }
    assert("deb"@ != "htm"@) by { assert("deb"@[0] != "htm"@[0]); }
    assert("deb"@ != "xml"@) by { assert("deb"@[0] != "xml"@[0]); }
    assert("deb"@ != "svg"@) by { assert("deb"@[0] != "svg"@[0]); }
    assert("deb"@ != "css"@) by { assert("deb"@[0] != "css"@[0]); }
    assert("deb"@ != "scss"@) by { assert("deb"@.len() != "scss"@.len()); }
    assert("deb"@ != "sass"@) by { assert("deb"@.len() != "sass"@.len()); }
    assert("deb"@ != "less"@) by { assert("deb"@.len() != "less"@.len()); }
    assert("deb"@ != "md"@) by { assert("deb"@.len() != "md"@.len()); }
    assert("deb"@ != "mdx"@) by { assert("deb"@[0] != "mdx"@[0]); }
    assert("deb"@ != "txt"@) by { assert("deb"@[0] != "txt"@[0]); }
    assert("deb"@ != "rst"@) by { assert("deb"@[0] != "rst"@[0]); }
    assert("deb"@ != "adoc"@) by { assert("deb"@.len() != "adoc"@.len()); }
    assert("deb"@ != "asciidoc"@) by { assert("deb"@.len() != "asciidoc"@.len()); }
    assert("deb"@ != "json"@) by { assert("deb"@.len() != "json"@.len()); }
    assert("deb"@ != "yaml"@) by { assert("deb"@.len() != "yaml"@.len()); }
    assert("deb"@ != "yml"@) by { assert("deb"@[0] != "yml"@[0]); }
    assert("deb"@ != "toml"@) by { assert("deb"@.len() != "toml"@.len()); }
    assert("deb"@ != "csv"@) by { assert("deb"@[0] != "csv"@[0]); }
    assert("deb"@ != "tsv"@) by { assert("deb"@[0] != "tsv"@[0]); }
    assert("deb"@ != "ini"@) by { assert("deb"@[0] != "ini"@[0]); }
    assert("deb"@ != "conf"@) by { assert("deb"@.len() != "conf"@.len()); }
    assert("deb"@ != "log"@) by { assert("deb"@[0] != "log"@[0]); }
    assert("deb"@ != "png"@) by { assert("deb"@[0] != "png"@[0]); }
    assert("deb"@ != "jpg"@) by { assert("deb"@[0] != "jpg"@[0]); }
    assert("deb"@ != "jpeg"@) by { assert("deb"@.len() != "jpeg"@.len()); }
    assert("deb"@ != "gif"@) by { assert("deb"@[0] != "gif"@[0]); }
    assert("deb"@ != "webp"@) by { assert("deb"@.len() != "webp"@.len()); }
    assert("deb"@ != "bmp"@) by { assert("deb"@[0] != "bmp"@[0]); }
    assert("deb"@ != "tiff"@) by { assert("deb"@.len() != "tiff"@.len()); }
    assert("deb"@ != "ico"@) by { assert("deb"@[0] != "ico"@[0]); }
    assert("deb"@ != "psd"@) by { assert("deb"@[0] != "psd"@[0]); }
    assert("deb"@ != "ai"@) by { assert("deb"@.len() != "ai"@.len()); }
    assert("deb"@ != "mp4"@) by { assert("deb"@[0] != "mp4"@[0]); }
    assert("deb"@ != "mov"@) by { assert("deb"@[0] != "mov"@[0]); }
    assert("deb"@ != "mkv"@) by { assert("deb"@[0] != "mkv"@[0]); }
    assert("deb"@ != "avi"@) by { assert("deb"@[0] != "avi"@[0]); }
    assert("deb"@ != "webm"@) by { assert("deb"@.len() != "webm"@.len()); }
    assert("deb"@ != "flv"@) by { assert("deb"@[0] != "flv"@[0]); }
    assert("deb"@ != "mp3"@) by { assert("deb"@[0] != "mp3"@[0]); }
    assert("deb"@ != "wav"@) by { assert("deb"@[0] != "wav"@[0]); }
    assert("deb"@ != "flac"@) by { assert("deb"@.len() != "flac"@.len()); }
    assert("deb"@ != "ogg"@) by { assert("deb"@[0] != "ogg"@[0]); }
    assert("deb"@ != "m4a"@) by { assert("deb"@[0] != "m4a"@[0]); }
    assert("deb"@ != "aac"@) by { assert("deb"@[0] != "aac"@[0]); }
    assert(ext_kind("deb"@) == ExtKind::Archive);
    assert("rpm"@ != "rs"@) by { assert("rpm"@.len() != "rs"@.len()); }
    assert("rpm"@ != "go"@) by { assert("rpm"@.len() != "go"@.len()); }
    assert("rpm"@ != "py"@) by { assert("rpm"@.len() != "py"@.len()); }
    assert("rpm"@ != "rb"@) by { assert("rpm"@.len() != "rb"@.len()); }
    assert("rpm"@ != "java"@) by { assert("rpm"@.len() != "java"@.len()); }
    assert("rpm"@ != "kt"@) by { assert("rpm"@.len() != "kt"@.len()); }
    assert("rpm"@ != "swift"@) by { assert("rpm"@.len() != "swift"@.len()); }
    assert("rpm"@ != "c"@) by { assert("rpm"@.len() != "c"@.len()); }
    assert("rpm"@ != "h"@) by { assert("rpm"@.len() != "h"@.len()); }
    assert("rpm"@ != "cpp"@) by { assert("rpm"@[0] != "cpp"@[0]); }
    assert("rpm"@ != "hpp"@) by { assert("rpm"@[0] != "hpp"@[0]); }
    assert("rpm"@ != "cc"@) by { assert("rpm"@.len() != "cc"@.len()); }
    assert("rpm"@ != "js"@) by { assert("rpm"@.len() != "js"@.len()); }
    assert("rpm"@ != "mjs"@) by { assert("rpm"@[0] != "mjs"@[0]); }
    assert("rpm"@ != "cjs"@) by { assert("rpm"@[0] != "cjs"@[0]); }
    assert("rpm"@ != "jsx"@) by { assert("rpm"@[0] != "jsx"@[0]); }
    assert("rpm"@ != "ts"@) by { assert("rpm"@.len() != "ts"@.len()); }
    assert("rpm"@ != "tsx"@) by { assert("rpm"@[0] != "tsx"@[0]); }
    assert("rpm"@ != "lua"@) by { assert("rpm"@[0] != "lua"@[0]); }
    assert("rpm"@ != "pl"@) by { assert("rpm"@.len() != "pl"@.len()); }
    assert("rpm"@ != "sh"@) by { assert("rpm"@.len() != "sh"@.len()); }
    assert("rpm"@ != "bash"@) by { assert("rpm"@.len() != "bash"@.len()); }
    assert("rpm"@ != "zsh"@) by { assert("rpm"@[0] != "zsh"@[0]); }
    assert("rpm"@ != "php"@) by { assert("rpm"@[0] != "php"@[0]); }
    assert("rpm"@ != "html"@) by { assert("rpm"@.len() != "html"@.len()); }
    assert("rpm"@ != "htm"@) by { assert("rpm"@[0] != "htm"@[0]); }
    assert("rpm"@ != "xml"@) by { assert("rpm"@[0] != "xml"@[0]); }
    assert("rpm"@ != "svg"@) by { assert("rpm"@[0] != "svg"@[0]); }
    assert("rpm"@ != "css"@) by { assert("rpm"@[0] != "css"@[0]); }
    assert("rpm"@ != "scss"@) by { assert("rpm"@.len() != "scss"@.len()); }
    assert("rpm"@ != "sass"@) by { assert("rpm"@.len() != "sass"@.len()); }
    assert("rpm"@ != "less"@) by { assert("rpm"@.len() != "less"@.len()); }
    assert("rpm"@ != "md"@) by { assert("rpm"@.len() != "md"@.len()); }
    assert("rpm"@ != "mdx"@) by { assert("rpm"@[0] != "mdx"@[0]); }
    assert("rpm"@ != "txt"@) by { assert("rpm"@[0] != "txt"@[0]); }
    assert("rpm"@ != "rst"@) by { assert("rpm"@[1] != "rst"@[1]); }
    assert("rpm"@ != "adoc"@) by { assert("rpm"@.len() != "adoc"@.len()); }
    assert("rpm"@ != "asciidoc"@) by { assert("rpm"@.len() != "asciidoc"@.len()); }
    assert("rpm"@ != "json"@) by { assert("rpm"@.len() != "json"@.len()); }
    assert("rpm"@ != "yaml"@) by { assert("rpm"@.len() != "yaml"@.len()); }
    assert("rpm"@ != "yml"@) by { assert("rpm"@[0] != "yml"@[0]); }
    assert("rpm"@ != "toml"@) by { assert("rpm"@.len() != "toml"@.len()); }
    assert("rpm"@ != "csv"@) by { assert("rpm"@[0] != "csv"@[0]); }
    assert("rpm"@ != "tsv"@) by { assert("rpm"@[0] != "tsv"@[0]); }
    assert("rpm"@ != "ini"@) by { assert("rpm"@[0] != "ini"@[0]); }
    assert("rpm"@ != "conf"@) by { assert("rpm"@.len() != "conf"@.len()); }
    assert("rpm"@ != "log"@) by { assert("rpm"@[0] != "log"@[0]); }
    assert("rpm"@ != "png"@) by { assert("rpm"@[0] != "png"@[0]); }
    assert("rpm"@ != "jpg"@) by { assert("rpm"@[0] != "jpg"@[0]); }
    assert("rpm"@ != "jpeg"@) by { assert("rpm"@.len() != "jpeg"@.len()); }
    assert("rpm"@ != "gif"@) by { assert("rpm"@[0] != "gif"@[0]); }
    assert("rpm"@ != "webp"@) by { assert("rpm"@.len() != "webp"@.len()); }
    assert("rpm"@ != "bmp"@) by { assert("rpm"@[0] != "bmp"@[0]); }
    assert("rpm"@ != "tiff"@) by { assert("rpm"@.len() != "tiff"@.len()); }
    assert("rpm"@ != "ico"@) by { assert("rpm"@[0] != "ico"@[0]); }
    assert("rpm"@ != "psd"@) by { assert("rpm"@[0] != "psd"@[0]); }
    assert("rpm"@ != "ai"@) by { assert("rpm"@.len() != "ai"@.len()); }
    assert("rpm"@ != "mp4"@) by { assert("rpm"@[0] != "mp4"@[0]); }
    assert("rpm"@ != "mov"@) by { assert("rpm"@[0] != "mov"@[0]); }
    assert("rpm"@ != "mkv"@) by { assert("rpm"@[0] != "mkv"@[0]); }
    assert("rpm"@ != "avi"@) by { assert("rpm"@[0] != "avi"@[0]); }
    assert("rpm"@ != "webm"@) by { assert("rpm"@.len() != "webm"@.len()); }
    assert("rpm"@ != "flv"@) by { assert("rpm"@[0] != "flv"@[0]); }
    assert("rpm"@ != "mp3"@) by { assert("rpm"@[0] != "mp3"@[0]); }
    assert("rpm"@ != "wav"@) by { assert("rpm"@[0] != "wav"@[0]); }
    assert("rpm"@ != "flac"@) by { assert("rpm"@.len() != "flac"@.len()); }
    assert("rpm"@ != "ogg"@) by { assert("rpm"@[0] != "ogg"@[0]); }
    assert("rpm"@ != "m4a"@) by { assert("rpm"@[0] != "m4a"@[0]); }
    assert("rpm"@ != "aac"@) by { assert("rpm"@[0] != "aac"@[0]); }
    assert(ext_kind("rpm"@) == ExtKind::Archive);
}

/// The pdf extensions of the table.
proof fn lemma_table_pdf()
    ensures
        ext_kind("pdf"@) == ExtKind::Pdf,
{
    reveal_strlit("pdf");
    reveal_strlit("rs");
    reveal_strlit("go");
    reveal_strlit("py");
    reveal_strlit("rb");
    reveal_strlit("java");
    reveal_strlit("kt");
    reveal_strlit("swift");
    reveal_strlit("c");
    reveal_strlit("h");
    reveal_strlit("cpp");
    reveal_strlit("hpp");
    reveal_strlit("cc");
    reveal_strlit("js");
    reveal_strlit("mjs");
    reveal_strlit("cjs");
    reveal_strlit("jsx");
    reveal_strlit("ts");
    reveal_strlit("tsx");
    reveal_strlit("lua");
    reveal_strlit("pl");
    reveal_strlit("sh");
    reveal_strlit("bash");
    reveal_strlit("zsh");
    reveal_strlit("php");
    reveal_strlit("html");
    reveal_strlit("htm");
    reveal_strlit("xml");
    reveal_strlit("svg");
    reveal_strlit("css");
    reveal_strlit("scss");
    reveal_strlit("sass");
    reveal_strlit("less");
    reveal_strlit("md");
    reveal_strlit("mdx");
    reveal_strlit("txt");
    reveal_strlit("rst");
    reveal_strlit("adoc");
    reveal_strlit("asciidoc");
    reveal_strlit("json");
    reveal_strlit("yaml");
    reveal_strlit("yml");
    reveal_strlit("toml");
    reveal_strlit("csv");
    reveal_strlit("tsv");
    reveal_strlit("ini");
    reveal_strlit("conf");
    reveal_strlit("log");
    reveal_strlit("png");
    reveal_strlit("jpg");
    reveal_strlit("jpeg");
    reveal_strlit("gif");
    reveal_strlit("webp");
    reveal_strlit("bmp");
    reveal_strlit("tiff");
    reveal_strlit("ico");
    reveal_strlit("psd");
    reveal_strlit("ai");
    reveal_strlit("mp4");
    reveal_strlit("mov");
    reveal_strlit("mkv");
    reveal_strlit("avi");
    reveal_strlit("webm");
    reveal_strlit("flv");
    reveal_strlit("mp3");
    reveal_strlit("wav");
    reveal_strlit("flac");
    reveal_strlit("ogg");
    reveal_strlit("m4a");
    reveal_strlit("aac");
    reveal_strlit("zip");
    reveal_strlit("tar");
    reveal_strlit("gz");
    reveal_strlit("bz2");
    reveal_strlit("xz");
    reveal_strlit("7z");
    reveal_strlit("rar");
    reveal_strlit("dmg");
    reveal_strlit("iso");
    reveal_strlit("pkg");
    reveal_strlit("deb");
    reveal_strlit("rpm");
    assert("pdf"@ != "rs"@) by { assert("pdf"@.len() != "rs"@.len()); }
    assert("pdf"@ != "go"@) by { assert("pdf"@.len() != "go"@.len()); }
    assert("pdf"@ != "py"@) by { assert("pdf"@.len() != "py"@.len()); }
    assert("pdf"@ != "rb"@) by { assert("pdf"@.len() != "rb"@.len()); }
    assert("pdf"@ != "java"@) by { assert("pdf"@.len() != "java"@.len()); }
    assert("pdf"@ != "kt"@) by { assert("pdf"@.len() != "kt"@.len()); }
    assert("pdf"@ != "swift"@) by { assert("pdf"@.len() != "swift"@.len()); }
    assert("pdf"@ != "c"@) by { assert("pdf"@.len() != "c"@.len()); }
    assert("pdf"@ != "h"@) by { assert("pdf"@.len() != "h"@.len()); }
    assert("pdf"@ != "cpp"@) by { assert("pdf"@[0] != "cpp"@[0]); }
    assert("pdf"@ != "hpp"@) by { assert("pdf"@[0] != "hpp"@[0]); }
    assert("pdf"@ != "cc"@) by { assert("pdf"@.len() != "cc"@.len()); }
    assert("pdf"@ != "js"@) by { assert("pdf"@.len() != "js"@.len()); }
    assert("pdf"@ != "mjs"@) by { assert("pdf"@[0] != "mjs"@[0]); }
    assert("pdf"@ != "cjs"@) by { assert("pdf"@[0] != "cjs"@[0]); }
    assert("pdf"@ != "jsx"@) by { assert("pdf"@[0] != "jsx"@[0]); }
    assert("pdf"@ != "ts"@) by { assert("pdf"@.len() != "ts"@.len()); }
    assert("pdf"@ != "tsx"@) by { assert("pdf"@[0] != "tsx"@[0]); }
    assert("pdf"@ != "lua"@) by { assert("pdf"@[0] != "lua"@[0]); }
    assert("pdf"@ != "pl"@) by { assert("pdf"@.len() != "pl"@.len()); }
    assert("pdf"@ != "sh"@) by { assert("pdf"@.len() != "sh"@.len()); }
    assert("pdf"@ != "bash"@) by { assert("pdf"@.len() != "bash"@.len()); }
    assert("pdf"@ != "zsh"@) by { assert("pdf"@[0] != "zsh"@[0]); }
    assert("pdf"@ != "php"@) by { assert("pdf"@[1] != "php"@[1]); }
    assert("pdf"@ != "html"@) by { assert("pdf"@.len() != "html"@.len()); }
    assert("pdf"@ != "htm"@) by { assert("pdf"@[0] != "htm"@[0]); }
    assert("pdf"@ != "xml"@) by { assert("pdf"@[0] != "xml"@[0]); }
    assert("pdf"@ != "svg"@) by { assert("pdf"@[0] != "svg"@[0]); }
    assert("pdf"@ != "css"@) by { assert("pdf"@[0] != "css"@[0]); }
    assert("pdf"@ != "scss"@) by { assert("pdf"@.len() != "scss"@.len()); }
    assert("pdf"@ != "sass"@) by { assert("pdf"@.len() != "sass"@.len()); }
    assert("pdf"@ != "less"@) by { assert("pdf"@.len() != "less"@.len()); }
    assert("pdf"@ != "md"@) by { assert("pdf"@.len() != "md"@.len()); }
    assert("pdf"@ != "mdx"@) by { assert("pdf"@[0] != "mdx"@[0]); }
    assert("pdf"@ != "txt"@) by { assert("pdf"@[0] != "txt"@[0]); }
    assert("pdf"@ != "rst"@) by { assert("pdf"@[0] != "rst"@[0]); }
    assert("pdf"@ != "adoc"@) by { assert("pdf"@.len() != "adoc"@.len()); }
    assert("pdf"@ != "asciidoc"@) by { assert("pdf"@.len() != "asciidoc"@.len()); }
    assert("pdf"@ != "json"@) by { assert("pdf"@.len() != "json"@.len()); }
    assert("pdf"@ != "yaml"@) by { assert("pdf"@.len() != "yaml"@.len()); }
    assert("pdf"@ != "yml"@) by { assert("pdf"@[0] != "yml"@[0]); }
    assert("pdf"@ != "toml"@) by { assert("pdf"@.len() != "toml"@.len()); }
    assert("pdf"@ != "csv"@) by { assert("pdf"@[0] != "csv"@[0]); }
    assert("pdf"@ != "tsv"@) by { assert("pdf"@[0] != "tsv"@[0]); }
    assert("pdf"@ != "ini"@) by { assert("pdf"@[0] != "ini"@[0]); }
    assert("pdf"@ != "conf"@) by { assert("pdf"@.len() != "conf"@.len()); }
    assert("pdf"@ != "log"@) by { assert("pdf"@[0] != "log"@[0]); }
    assert("pdf"@ != "png"@) by { assert("pdf"@[1] != "png"@[1]); }
    assert("pdf"@ != "jpg"@) by { assert("pdf"@[0] != "jpg"@[0]); }
    assert("pdf"@ != "jpeg"@) by { assert("pdf"@.len() != "jpeg"@.len()); }
    assert("pdf"@ != "gif"@) by { assert("pdf"@[0] != "gif"@[0]); }
    assert("pdf"@ != "webp"@) by { assert("pdf"@.len() != "webp"@.len()); }
    assert("pdf"@ != "bmp"@) by { assert("pdf"@[0] != "bmp"@[0]); }
    assert("pdf"@ != "tiff"@) by { assert("pdf"@.len() != "tiff"@.len()); }
    assert("pdf"@ != "ico"@) by { assert("pdf"@[0] != "ico"@[0]); }
    assert("pdf"@ != "psd"@) by { assert("pdf"@[1] != "psd"@[1]); }
    assert("pdf"@ != "ai"@) by { assert("pdf"@.len() != "ai"@.len()); }
    assert("pdf"@ != "mp4"@) by { assert("pdf"@[0] != "mp4"@[0]); }
    assert("pdf"@ != "mov"@) by { assert("pdf"@[0] != "mov"@[0]); }
    assert("pdf"@ != "mkv"@) by { assert("pdf"@[0] != "mkv"@[0]); }
    assert("pdf"@ != "avi"@) by { assert("pdf"@[0] != "avi"@[0]); }
    assert("pdf"@ != "webm"@) by { assert("pdf"@.len() != "webm"@.len()); }
    assert("pdf"@ != "flv"@) by { assert("pdf"@[0] != "flv"@[0]); }
    assert("pdf"@ != "mp3"@) by { assert("pdf"@[0] != "mp3"@[0]); }
    assert("pdf"@ != "wav"@) by { assert("pdf"@[0] != "wav"@[0]); }
    assert("pdf"@ != "flac"@) by { assert("pdf"@.len() != "flac"@.len()); }
    assert("pdf"@ != "ogg"@) by { assert("pdf"@[0] != "ogg"@[0]); }
    assert("pdf"@ != "m4a"@) by { assert("pdf"@[0] != "m4a"@[0]); }
    assert("pdf"@ != "aac"@) by { assert("pdf"@[0] != "aac"@[0]); }
    assert("pdf"@ != "zip"@) by { assert("pdf"@[0] != "zip"@[0]); }
    assert("pdf"@ != "tar"@) by { assert("pdf"@[0] != "tar"@[0]); }
    assert("pdf"@ != "gz"@) by { assert("pdf"@.len() != "gz"@.len()); }
    assert("pdf"@ != "bz2"@) by { assert("pdf"@[0] != "bz2"@[0]); }
    assert("pdf"@ != "xz"@) by { assert("pdf"@.len() != "xz"@.len()); }
    assert("pdf"@ != "7z"@) by { assert("pdf"@.len() != "7z"@.len()); }
    assert("pdf"@ != "rar"@) by { assert("pdf"@[0] != "rar"@[0]); }
    assert("pdf"@ != "dmg"@) by { assert("pdf"@[0] != "dmg"@[0]); }
    assert("pdf"@ != "iso"@) by { assert("pdf"@[0] != "iso"@[0]); }
    assert("pdf"@ != "pkg"@) by { assert("pdf"@[1] != "pkg"@[1]); }
    assert("pdf"@ != "deb"@) by { assert("pdf"@[0] != "deb"@[0]); }
    assert("pdf"@ != "rpm"@) by { assert("pdf"@[0] != "rpm"@[0]); }
    assert(ext_kind("pdf"@) == ExtKind::Pdf);
}

/// Every extension the table lists for a kind classifies as that kind
/// (so `py` is code, `md` text, `pdf` a PDF), and an extension the table
/// does not list classifies as other.
pub proof fn lemma_extension_table(e: Seq<char>, k: ExtKind)
    ensures
        listed_extensions(k).contains(e) ==> ext_kind(e) == k,
        (forall|k2: ExtKind| !#[trigger] listed_extensions(k2).contains(e)) ==> ext_kind(e)
            == ExtKind::Other,
{
    match k {
        ExtKind::Code => lemma_table_code(),
        ExtKind::Markup => lemma_table_markup(),
        ExtKind::Text => lemma_table_text(),
        ExtKind::Image => lemma_table_image(),
        ExtKind::Video => lemma_table_video(),
        ExtKind::Audio => lemma_table_audio(),
        ExtKind::Archive => lemma_table_archive(),
        ExtKind::Pdf => lemma_table_pdf(),
        ExtKind::Other => {},
    }
    if forall|k2: ExtKind| !#[trigger] listed_extensions(k2).contains(e) {
        assert(!listed_extensions(ExtKind::Code).contains(e));
        assert(!listed_extensions(ExtKind::Markup).contains(e));
        assert(!listed_extensions(ExtKind::Text).contains(e));
        assert(!listed_extensions(ExtKind::Image).contains(e));
        assert(!listed_extensions(ExtKind::Video).contains(e));
        assert(!listed_extensions(ExtKind::Audio).contains(e));
        assert(!listed_extensions(ExtKind::Archive).contains(e));
        assert(!listed_extensions(ExtKind::Pdf).contains(e));
    }
}

} // verus!
