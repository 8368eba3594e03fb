//! The glyph and colour an entry is drawn with.
//!
//! The glyph codepoints and most of the colours below were taken from the
//! `devicons` crate (https://github.com/alexpasmantier/rust-devicons), version
//! 0.6.13, which is licensed under the Apache License 2.0. The tables here are a
//! curated subset with several colours replaced.

use vstd::prelude::*;

use crate::fs::archive::{Entry, EntryKind};
use crate::fs::directory::{file_name, file_name_of, DirEntry, DirEntryKind};
use crate::text::{ascii_lower, chars_of, eq_ignore_ascii_case, same_ignoring_ascii_case};

verus! {

/// A colour given by its red, green and blue parts.
#[derive(Clone, Copy, Debug, PartialEq, Eq)]
pub struct Rgb {
    pub r: u8,
    pub g: u8,
    pub b: u8,
}

/// A glyph and the colour it is drawn in.
#[derive(Clone, Copy, Debug, PartialEq, Eq)]
pub struct Icon {
    pub glyph: char,
    pub color: Rgb,
}

/// Drawn for a directory.
pub open spec fn directory_icon() -> Icon {
    Icon { glyph: '\u{f07b}', color: Rgb { r: 0x82, g: 0xaa, b: 0xff } }
}

fn directory() -> (i: Icon)
    ensures
        i == directory_icon(),
{
    Icon { glyph: '\u{f07b}', color: Rgb { r: 0x82, g: 0xaa, b: 0xff } }
}

/// Drawn for the parent.
pub open spec fn parent_icon() -> Icon {
    Icon { glyph: '\u{f062}', color: Rgb { r: 0x80, g: 0x8a, b: 0x94 } }
}

fn parent() -> (i: Icon)
    ensures
        i == parent_icon(),
{
    Icon { glyph: '\u{f062}', color: Rgb { r: 0x80, g: 0x8a, b: 0x94 } }
}

/// Drawn for a symlink, whatever the link points at.
pub open spec fn symlink_icon() -> Icon {
    Icon { glyph: '\u{f0c1}', color: Rgb { r: 0x56, g: 0xb6, b: 0xc2 } }
}

fn symlink() -> (i: Icon)
    ensures
        i == symlink_icon(),
{
    Icon { glyph: '\u{f0c1}', color: Rgb { r: 0x56, g: 0xb6, b: 0xc2 } }
}

/// Drawn for a file that matched neither table.
pub open spec fn default_file_icon() -> Icon {
    Icon { glyph: '\u{f15b}', color: Rgb { r: 0x9a, g: 0xa5, b: 0xb1 } }
}

fn default_file() -> (i: Icon)
    ensures
        i == default_file_icon(),
{
    Icon { glyph: '\u{f15b}', color: Rgb { r: 0x9a, g: 0xa5, b: 0xb1 } }
}

/// A table's keys by their characters, beside the icons.
pub open spec fn keyed(t: Seq<(&'static str, Icon)>) -> Seq<(Seq<char>, Icon)> {
    Seq::new(t.len(), |i: int| (t[i].0@, t[i].1))
}

/// Exact file names, read before the extensions. Names are written as they
/// usually appear; the lookup ignores ASCII case.
pub open spec fn by_name_entries() -> Seq<(Seq<char>, Icon)> {
    seq![
        ("Cargo.toml"@, Icon { glyph: '\u{e68b}', color: Rgb { r: 0xde, g: 0xa5, b: 0x84 } }),
        ("Cargo.lock"@, Icon { glyph: '\u{e68b}', color: Rgb { r: 0xb0, g: 0x89, b: 0x68 } }),
        ("Makefile"@, Icon { glyph: '\u{e779}', color: Rgb { r: 0x6d, g: 0x80, b: 0x86 } }),
        ("Dockerfile"@, Icon { glyph: '\u{f0868}', color: Rgb { r: 0x45, g: 0x8e, b: 0xe6 } }),
        ("docker-compose.yml"@, Icon { glyph: '\u{f0868}', color: Rgb { r: 0x45, g: 0x8e, b: 0xe6 } }),
        ("CMakeLists.txt"@, Icon { glyph: '\u{e615}', color: Rgb { r: 0x6d, g: 0x80, b: 0x86 } }),
        ("LICENSE"@, Icon { glyph: '\u{e60a}', color: Rgb { r: 0xcb, g: 0xcb, b: 0x41 } }),
        ("README.md"@, Icon { glyph: '\u{f48a}', color: Rgb { r: 0xd8, g: 0xc8, b: 0x8a } }),
        ("package.json"@, Icon { glyph: '\u{e71e}', color: Rgb { r: 0xe8, g: 0x27, b: 0x4b } }),
        ("package-lock.json"@, Icon { glyph: '\u{e71e}', color: Rgb { r: 0x7a, g: 0x0d, b: 0x21 } }),
        ("tsconfig.json"@, Icon { glyph: '\u{e69d}', color: Rgb { r: 0x51, g: 0x9a, b: 0xba } }),
        ("go.mod"@, Icon { glyph: '\u{e627}', color: Rgb { r: 0x51, g: 0x9a, b: 0xba } }),
        ("go.sum"@, Icon { glyph: '\u{e627}', color: Rgb { r: 0x51, g: 0x9a, b: 0xba } }),
        ("pyproject.toml"@, Icon { glyph: '\u{e606}', color: Rgb { r: 0xff, g: 0xbc, b: 0x03 } }),
        ("requirements.txt"@, Icon { glyph: '\u{e606}', color: Rgb { r: 0xff, g: 0xbc, b: 0x03 } }),
        ("Gemfile"@, Icon { glyph: '\u{e791}', color: Rgb { r: 0x70, g: 0x15, b: 0x16 } }),
        ("Rakefile"@, Icon { glyph: '\u{e791}', color: Rgb { r: 0x70, g: 0x15, b: 0x16 } }),
        ("node_modules"@, Icon { glyph: '\u{e718}', color: Rgb { r: 0xe8, g: 0x27, b: 0x4b } }),
        (".gitignore"@, Icon { glyph: '\u{e702}', color: Rgb { r: 0xf5, g: 0x4d, b: 0x27 } }),
        (".gitattributes"@, Icon { glyph: '\u{e702}', color: Rgb { r: 0xf5, g: 0x4d, b: 0x27 } }),
        (".gitmodules"@, Icon { glyph: '\u{e702}', color: Rgb { r: 0xf5, g: 0x4d, b: 0x27 } }),
        (".env"@, Icon { glyph: '\u{f462}', color: Rgb { r: 0xfa, g: 0xf7, b: 0x43 } }),
        (".editorconfig"@, Icon { glyph: '\u{e652}', color: Rgb { r: 0xd8, g: 0xd8, b: 0xd8 } }),
        (".dockerignore"@, Icon { glyph: '\u{f0868}', color: Rgb { r: 0x45, g: 0x8e, b: 0xe6 } }),
        (".bashrc"@, Icon { glyph: '\u{e615}', color: Rgb { r: 0x89, g: 0xe0, b: 0x51 } }),
        (".bash_profile"@, Icon { glyph: '\u{e615}', color: Rgb { r: 0x89, g: 0xe0, b: 0x51 } }),
        (".zshrc"@, Icon { glyph: '\u{e615}', color: Rgb { r: 0x89, g: 0xe0, b: 0x51 } }),
        (".vimrc"@, Icon { glyph: '\u{e62b}', color: Rgb { r: 0x01, g: 0x98, b: 0x33 } }),
        (".npmrc"@, Icon { glyph: '\u{e71e}', color: Rgb { r: 0xe8, g: 0x27, b: 0x4b } }),
        (".prettierrc"@, Icon { glyph: '\u{e6b4}', color: Rgb { r: 0x42, g: 0x85, b: 0xf4 } }),
        (".babelrc"@, Icon { glyph: '\u{e639}', color: Rgb { r: 0xcb, g: 0xcb, b: 0x41 } }),
        (".DS_Store"@, Icon { glyph: '\u{e615}', color: Rgb { r: 0x6f, g: 0x8b, b: 0x95 } }),
    ]
}

/// File extensions without the leading dot. The lookup ignores ASCII case.
pub open spec fn by_extension_entries() -> Seq<(Seq<char>, Icon)> {
    seq![
        ("rs"@, Icon { glyph: '\u{e68b}', color: Rgb { r: 0xde, g: 0xa5, b: 0x84 } }),
        ("py"@, Icon { glyph: '\u{e606}', color: Rgb { r: 0xff, g: 0xbc, b: 0x03 } }),
        ("js"@, Icon { glyph: '\u{e60c}', color: Rgb { r: 0xcb, g: 0xcb, b: 0x41 } }),
        ("jsx"@, Icon { glyph: '\u{e625}', color: Rgb { r: 0x20, g: 0xc2, b: 0xe3 } }),
        ("ts"@, Icon { glyph: '\u{e628}', color: Rgb { r: 0x51, g: 0x9a, b: 0xba } }),
        ("tsx"@, Icon { glyph: '\u{e7ba}', color: Rgb { r: 0x13, g: 0x54, b: 0xbf } }),
        ("vue"@, Icon { glyph: '\u{e6a0}', color: Rgb { r: 0x8d, g: 0xc1, b: 0x49 } }),
        ("svelte"@, Icon { glyph: '\u{e697}', color: Rgb { r: 0xff, g: 0x3e, b: 0x00 } }),
        ("go"@, Icon { glyph: '\u{e627}', color: Rgb { r: 0x51, g: 0x9a, b: 0xba } }),
        ("c"@, Icon { glyph: '\u{e61e}', color: Rgb { r: 0x59, g: 0x9e, b: 0xff } }),
        ("h"@, Icon { glyph: '\u{f0fd}', color: Rgb { r: 0xa0, g: 0x74, b: 0xc4 } }),
        ("cpp"@, Icon { glyph: '\u{e61d}', color: Rgb { r: 0x51, g: 0x9a, b: 0xba } }),
        ("cc"@, Icon { glyph: '\u{e61d}', color: Rgb { r: 0xf3, g: 0x4b, b: 0x7d } }),
        ("hpp"@, Icon { glyph: '\u{f0fd}', color: Rgb { r: 0xa0, g: 0x74, b: 0xc4 } }),
        ("cs"@, Icon { glyph: '\u{f031b}', color: Rgb { r: 0x9b, g: 0x4f, b: 0x96 } }),
        ("java"@, Icon { glyph: '\u{e738}', color: Rgb { r: 0xcc, g: 0x3e, b: 0x44 } }),
        ("kt"@, Icon { glyph: '\u{e634}', color: Rgb { r: 0x7f, g: 0x52, b: 0xff } }),
        ("rb"@, Icon { glyph: '\u{e791}', color: Rgb { r: 0x70, g: 0x15, b: 0x16 } }),
        ("php"@, Icon { glyph: '\u{e608}', color: Rgb { r: 0xa0, g: 0x74, b: 0xc4 } }),
        ("swift"@, Icon { glyph: '\u{e755}', color: Rgb { r: 0xe3, g: 0x79, b: 0x33 } }),
        ("lua"@, Icon { glyph: '\u{e620}', color: Rgb { r: 0x51, g: 0xa0, b: 0xcf } }),
        ("sh"@, Icon { glyph: '\u{e795}', color: Rgb { r: 0xa3, g: 0xb8, b: 0xbf } }),
        ("bash"@, Icon { glyph: '\u{e795}', color: Rgb { r: 0x89, g: 0xe0, b: 0x51 } }),
        ("zsh"@, Icon { glyph: '\u{e795}', color: Rgb { r: 0x89, g: 0xe0, b: 0x51 } }),
        ("fish"@, Icon { glyph: '\u{e795}', color: Rgb { r: 0xa3, g: 0xb8, b: 0xbf } }),
        ("vim"@, Icon { glyph: '\u{e62b}', color: Rgb { r: 0x01, g: 0x98, b: 0x33 } }),
        ("sql"@, Icon { glyph: '\u{e706}', color: Rgb { r: 0xda, g: 0xd8, b: 0xd8 } }),
        ("html"@, Icon { glyph: '\u{e736}', color: Rgb { r: 0xe4, g: 0x4d, b: 0x26 } }),
        ("css"@, Icon { glyph: '\u{e749}', color: Rgb { r: 0x42, g: 0xa5, b: 0xf5 } }),
        ("scss"@, Icon { glyph: '\u{e603}', color: Rgb { r: 0xf5, g: 0x53, b: 0x85 } }),
        ("sass"@, Icon { glyph: '\u{e603}', color: Rgb { r: 0xf5, g: 0x53, b: 0x85 } }),
        ("less"@, Icon { glyph: '\u{e614}', color: Rgb { r: 0x56, g: 0x3d, b: 0x7c } }),
        ("json"@, Icon { glyph: '\u{e60b}', color: Rgb { r: 0xcb, g: 0xcb, b: 0x41 } }),
        ("yaml"@, Icon { glyph: '\u{e615}', color: Rgb { r: 0x6d, g: 0x80, b: 0x86 } }),
        ("yml"@, Icon { glyph: '\u{e615}', color: Rgb { r: 0x6d, g: 0x80, b: 0x86 } }),
        ("toml"@, Icon { glyph: '\u{e6b2}', color: Rgb { r: 0x9c, g: 0x42, b: 0x21 } }),
        ("xml"@, Icon { glyph: '\u{f05c0}', color: Rgb { r: 0xe3, g: 0x79, b: 0x33 } }),
        ("ini"@, Icon { glyph: '\u{e615}', color: Rgb { r: 0x6d, g: 0x80, b: 0x86 } }),
        ("cfg"@, Icon { glyph: '\u{e615}', color: Rgb { r: 0x6d, g: 0x80, b: 0x86 } }),
        ("conf"@, Icon { glyph: '\u{e615}', color: Rgb { r: 0x6d, g: 0x80, b: 0x86 } }),
        ("md"@, Icon { glyph: '\u{f48a}', color: Rgb { r: 0x83, g: 0xa5, b: 0x98 } }),
        ("txt"@, Icon { glyph: '\u{f0219}', color: Rgb { r: 0x89, g: 0xe0, b: 0x51 } }),
        ("pdf"@, Icon { glyph: '\u{eaeb}', color: Rgb { r: 0xb3, g: 0x0b, b: 0x00 } }),
        ("doc"@, Icon { glyph: '\u{f022c}', color: Rgb { r: 0x18, g: 0x5a, b: 0xbd } }),
        ("docx"@, Icon { glyph: '\u{f022c}', color: Rgb { r: 0x18, g: 0x5a, b: 0xbd } }),
        ("xls"@, Icon { glyph: '\u{f021b}', color: Rgb { r: 0x20, g: 0x72, b: 0x45 } }),
        ("xlsx"@, Icon { glyph: '\u{f021b}', color: Rgb { r: 0x20, g: 0x72, b: 0x45 } }),
        ("csv"@, Icon { glyph: '\u{e64a}', color: Rgb { r: 0x89, g: 0xe0, b: 0x51 } }),
        ("png"@, Icon { glyph: '\u{e60d}', color: Rgb { r: 0xa0, g: 0x74, b: 0xc4 } }),
        ("jpg"@, Icon { glyph: '\u{e60d}', color: Rgb { r: 0xa0, g: 0x74, b: 0xc4 } }),
        ("jpeg"@, Icon { glyph: '\u{e60d}', color: Rgb { r: 0xa0, g: 0x74, b: 0xc4 } }),
        ("gif"@, Icon { glyph: '\u{e60d}', color: Rgb { r: 0xa0, g: 0x74, b: 0xc4 } }),
        ("svg"@, Icon { glyph: '\u{f0721}', color: Rgb { r: 0xff, g: 0xb1, b: 0x3b } }),
        ("webp"@, Icon { glyph: '\u{e60d}', color: Rgb { r: 0xa0, g: 0x74, b: 0xc4 } }),
        ("bmp"@, Icon { glyph: '\u{e60d}', color: Rgb { r: 0xa0, g: 0x74, b: 0xc4 } }),
        ("ico"@, Icon { glyph: '\u{e60d}', color: Rgb { r: 0xcb, g: 0xcb, b: 0x41 } }),
        ("mp3"@, Icon { glyph: '\u{f001}', color: Rgb { r: 0x00, g: 0xaf, b: 0xff } }),
        ("wav"@, Icon { glyph: '\u{f001}', color: Rgb { r: 0x00, g: 0xaf, b: 0xff } }),
        ("flac"@, Icon { glyph: '\u{f001}', color: Rgb { r: 0x00, g: 0x75, b: 0xaa } }),
        ("ogg"@, Icon { glyph: '\u{f001}', color: Rgb { r: 0x00, g: 0x75, b: 0xaa } }),
        ("mp4"@, Icon { glyph: '\u{e69f}', color: Rgb { r: 0xfd, g: 0x97, b: 0x1f } }),
        ("mkv"@, Icon { glyph: '\u{e69f}', color: Rgb { r: 0xfd, g: 0x97, b: 0x1f } }),
        ("avi"@, Icon { glyph: '\u{e69f}', color: Rgb { r: 0xfd, g: 0x97, b: 0x1f } }),
        ("mov"@, Icon { glyph: '\u{e69f}', color: Rgb { r: 0xfd, g: 0x97, b: 0x1f } }),
        ("webm"@, Icon { glyph: '\u{e69f}', color: Rgb { r: 0xfd, g: 0x97, b: 0x1f } }),
        ("zip"@, Icon { glyph: '\u{f410}', color: Rgb { r: 0xec, g: 0xa5, b: 0x17 } }),
        ("tar"@, Icon { glyph: '\u{f410}', color: Rgb { r: 0xec, g: 0xa5, b: 0x17 } }),
        ("gz"@, Icon { glyph: '\u{f410}', color: Rgb { r: 0xec, g: 0xa5, b: 0x17 } }),
        ("bz2"@, Icon { glyph: '\u{f410}', color: Rgb { r: 0xec, g: 0xa5, b: 0x17 } }),
        ("xz"@, Icon { glyph: '\u{f410}', color: Rgb { r: 0xec, g: 0xa5, b: 0x17 } }),
        ("7z"@, Icon { glyph: '\u{f410}', color: Rgb { r: 0xec, g: 0xa5, b: 0x17 } }),
        ("rar"@, Icon { glyph: '\u{f410}', color: Rgb { r: 0xec, g: 0xa5, b: 0x17 } }),
        ("exe"@, Icon { glyph: '\u{eae8}', color: Rgb { r: 0x9f, g: 0x05, b: 0x00 } }),
        ("dll"@, Icon { glyph: '\u{eb9c}', color: Rgb { r: 0xb0, g: 0x8b, b: 0x5a } }),
        ("so"@, Icon { glyph: '\u{eb9c}', color: Rgb { r: 0xdc, g: 0xdd, b: 0xd6 } }),
        ("dylib"@, Icon { glyph: '\u{eb9c}', color: Rgb { r: 0xdc, g: 0xdd, b: 0xd6 } }),
        ("deb"@, Icon { glyph: '\u{f410}', color: Rgb { r: 0xd8, g: 0xa0, b: 0xa0 } }),
        ("rpm"@, Icon { glyph: '\u{f410}', color: Rgb { r: 0xd8, g: 0xa0, b: 0xa0 } }),
        ("iso"@, Icon { glyph: '\u{e271}', color: Rgb { r: 0xd0, g: 0xbe, b: 0xc8 } }),
        ("log"@, Icon { glyph: '\u{f0331}', color: Rgb { r: 0x9a, g: 0xa5, b: 0xb1 } }),
        ("lock"@, Icon { glyph: '\u{e672}', color: Rgb { r: 0xb0, g: 0xb4, b: 0xbb } }),
        ("ttf"@, Icon { glyph: '\u{f031}', color: Rgb { r: 0xec, g: 0xec, b: 0xec } }),
        ("otf"@, Icon { glyph: '\u{f031}', color: Rgb { r: 0xec, g: 0xec, b: 0xec } }),
        ("woff"@, Icon { glyph: '\u{f031}', color: Rgb { r: 0xec, g: 0xec, b: 0xec } }),
        ("woff2"@, Icon { glyph: '\u{f031}', color: Rgb { r: 0xec, g: 0xec, b: 0xec } }),
        ("nix"@, Icon { glyph: '\u{f313}', color: Rgb { r: 0x7e, g: 0xba, b: 0xe4 } }),
        ("hs"@, Icon { glyph: '\u{e61f}', color: Rgb { r: 0xa0, g: 0x74, b: 0xc4 } }),
        ("ml"@, Icon { glyph: '\u{e67a}', color: Rgb { r: 0xe3, g: 0x79, b: 0x33 } }),
        ("ex"@, Icon { glyph: '\u{e62d}', color: Rgb { r: 0xa0, g: 0x74, b: 0xc4 } }),
        ("exs"@, Icon { glyph: '\u{e62d}', color: Rgb { r: 0xa0, g: 0x74, b: 0xc4 } }),
        ("erl"@, Icon { glyph: '\u{e7b1}', color: Rgb { r: 0xb8, g: 0x39, b: 0x98 } }),
        ("clj"@, Icon { glyph: '\u{e768}', color: Rgb { r: 0x8d, g: 0xc1, b: 0x49 } }),
        ("scala"@, Icon { glyph: '\u{e737}', color: Rgb { r: 0xcc, g: 0x3e, b: 0x44 } }),
        ("dart"@, Icon { glyph: '\u{e798}', color: Rgb { r: 0x03, g: 0x58, b: 0x9c } }),
        ("r"@, Icon { glyph: '\u{f07d4}', color: Rgb { r: 0x22, g: 0x66, b: 0xba } }),
        ("jl"@, Icon { glyph: '\u{e624}', color: Rgb { r: 0xa2, g: 0x70, b: 0xba } }),
        ("pl"@, Icon { glyph: '\u{e769}', color: Rgb { r: 0x51, g: 0x9a, b: 0xba } }),
        ("tex"@, Icon { glyph: '\u{e69b}', color: Rgb { r: 0x3d, g: 0x61, b: 0x17 } }),
        ("diff"@, Icon { glyph: '\u{e728}', color: Rgb { r: 0x6f, g: 0x8b, b: 0x95 } }),
        ("patch"@, Icon { glyph: '\u{e728}', color: Rgb { r: 0x6f, g: 0x8b, b: 0x95 } }),
        ("rss"@, Icon { glyph: '\u{e619}', color: Rgb { r: 0xfb, g: 0x9d, b: 0x3b } }),
    ]
}

/// The table of exact file names.
pub fn by_name_table() -> (t: Vec<(&'static str, Icon)>)
    ensures
        keyed(t@) == by_name_entries(),
{
    let t = vec![
        ("Cargo.toml", Icon { glyph: '\u{e68b}', color: Rgb { r: 0xde, g: 0xa5, b: 0x84 } }),
        ("Cargo.lock", Icon { glyph: '\u{e68b}', color: Rgb { r: 0xb0, g: 0x89, b: 0x68 } }),
        ("Makefile", Icon { glyph: '\u{e779}', color: Rgb { r: 0x6d, g: 0x80, b: 0x86 } }),
        ("Dockerfile", Icon { glyph: '\u{f0868}', color: Rgb { r: 0x45, g: 0x8e, b: 0xe6 } }),
        ("docker-compose.yml", Icon { glyph: '\u{f0868}', color: Rgb { r: 0x45, g: 0x8e, b: 0xe6 } }),
        ("CMakeLists.txt", Icon { glyph: '\u{e615}', color: Rgb { r: 0x6d, g: 0x80, b: 0x86 } }),
        ("LICENSE", Icon { glyph: '\u{e60a}', color: Rgb { r: 0xcb, g: 0xcb, b: 0x41 } }),
        ("README.md", Icon { glyph: '\u{f48a}', color: Rgb { r: 0xd8, g: 0xc8, b: 0x8a } }),
        ("package.json", Icon { glyph: '\u{e71e}', color: Rgb { r: 0xe8, g: 0x27, b: 0x4b } }),
        ("package-lock.json", Icon { glyph: '\u{e71e}', color: Rgb { r: 0x7a, g: 0x0d, b: 0x21 } }),
        ("tsconfig.json", Icon { glyph: '\u{e69d}', color: Rgb { r: 0x51, g: 0x9a, b: 0xba } }),
        ("go.mod", Icon { glyph: '\u{e627}', color: Rgb { r: 0x51, g: 0x9a, b: 0xba } }),
        ("go.sum", Icon { glyph: '\u{e627}', color: Rgb { r: 0x51, g: 0x9a, b: 0xba } }),
        ("pyproject.toml", Icon { glyph: '\u{e606}', color: Rgb { r: 0xff, g: 0xbc, b: 0x03 } }),
        ("requirements.txt", Icon { glyph: '\u{e606}', color: Rgb { r: 0xff, g: 0xbc, b: 0x03 } }),
        ("Gemfile", Icon { glyph: '\u{e791}', color: Rgb { r: 0x70, g: 0x15, b: 0x16 } }),
        ("Rakefile", Icon { glyph: '\u{e791}', color: Rgb { r: 0x70, g: 0x15, b: 0x16 } }),
        ("node_modules", Icon { glyph: '\u{e718}', color: Rgb { r: 0xe8, g: 0x27, b: 0x4b } }),
        (".gitignore", Icon { glyph: '\u{e702}', color: Rgb { r: 0xf5, g: 0x4d, b: 0x27 } }),
        (".gitattributes", Icon { glyph: '\u{e702}', color: Rgb { r: 0xf5, g: 0x4d, b: 0x27 } }),
        (".gitmodules", Icon { glyph: '\u{e702}', color: Rgb { r: 0xf5, g: 0x4d, b: 0x27 } }),
        (".env", Icon { glyph: '\u{f462}', color: Rgb { r: 0xfa, g: 0xf7, b: 0x43 } }),
        (".editorconfig", Icon { glyph: '\u{e652}', color: Rgb { r: 0xd8, g: 0xd8, b: 0xd8 } }),
        (".dockerignore", Icon { glyph: '\u{f0868}', color: Rgb { r: 0x45, g: 0x8e, b: 0xe6 } }),
        (".bashrc", Icon { glyph: '\u{e615}', color: Rgb { r: 0x89, g: 0xe0, b: 0x51 } }),
        (".bash_profile", Icon { glyph: '\u{e615}', color: Rgb { r: 0x89, g: 0xe0, b: 0x51 } }),
        (".zshrc", Icon { glyph: '\u{e615}', color: Rgb { r: 0x89, g: 0xe0, b: 0x51 } }),
        (".vimrc", Icon { glyph: '\u{e62b}', color: Rgb { r: 0x01, g: 0x98, b: 0x33 } }),
        (".npmrc", Icon { glyph: '\u{e71e}', color: Rgb { r: 0xe8, g: 0x27, b: 0x4b } }),
        (".prettierrc", Icon { glyph: '\u{e6b4}', color: Rgb { r: 0x42, g: 0x85, b: 0xf4 } }),
        (".babelrc", Icon { glyph: '\u{e639}', color: Rgb { r: 0xcb, g: 0xcb, b: 0x41 } }),
        (".DS_Store", Icon { glyph: '\u{e615}', color: Rgb { r: 0x6f, g: 0x8b, b: 0x95 } }),
    ];
    assert(keyed(t@) =~= by_name_entries());
    t
}

/// The table of extensions.
pub fn by_extension_table() -> (t: Vec<(&'static str, Icon)>)
    ensures
        keyed(t@) == by_extension_entries(),
{
    let t = vec![
        ("rs", Icon { glyph: '\u{e68b}', color: Rgb { r: 0xde, g: 0xa5, b: 0x84 } }),
        ("py", Icon { glyph: '\u{e606}', color: Rgb { r: 0xff, g: 0xbc, b: 0x03 } }),
        ("js", Icon { glyph: '\u{e60c}', color: Rgb { r: 0xcb, g: 0xcb, b: 0x41 } }),
        ("jsx", Icon { glyph: '\u{e625}', color: Rgb { r: 0x20, g: 0xc2, b: 0xe3 } }),
        ("ts", Icon { glyph: '\u{e628}', color: Rgb { r: 0x51, g: 0x9a, b: 0xba } }),
        ("tsx", Icon { glyph: '\u{e7ba}', color: Rgb { r: 0x13, g: 0x54, b: 0xbf } }),
        ("vue", Icon { glyph: '\u{e6a0}', color: Rgb { r: 0x8d, g: 0xc1, b: 0x49 } }),
        ("svelte", Icon { glyph: '\u{e697}', color: Rgb { r: 0xff, g: 0x3e, b: 0x00 } }),
        ("go", Icon { glyph: '\u{e627}', color: Rgb { r: 0x51, g: 0x9a, b: 0xba } }),
        ("c", Icon { glyph: '\u{e61e}', color: Rgb { r: 0x59, g: 0x9e, b: 0xff } }),
        ("h", Icon { glyph: '\u{f0fd}', color: Rgb { r: 0xa0, g: 0x74, b: 0xc4 } }),
        ("cpp", Icon { glyph: '\u{e61d}', color: Rgb { r: 0x51, g: 0x9a, b: 0xba } }),
        ("cc", Icon { glyph: '\u{e61d}', color: Rgb { r: 0xf3, g: 0x4b, b: 0x7d } }),
        ("hpp", Icon { glyph: '\u{f0fd}', color: Rgb { r: 0xa0, g: 0x74, b: 0xc4 } }),
        ("cs", Icon { glyph: '\u{f031b}', color: Rgb { r: 0x9b, g: 0x4f, b: 0x96 } }),
        ("java", Icon { glyph: '\u{e738}', color: Rgb { r: 0xcc, g: 0x3e, b: 0x44 } }),
        ("kt", Icon { glyph: '\u{e634}', color: Rgb { r: 0x7f, g: 0x52, b: 0xff } }),
        ("rb", Icon { glyph: '\u{e791}', color: Rgb { r: 0x70, g: 0x15, b: 0x16 } }),
        ("php", Icon { glyph: '\u{e608}', color: Rgb { r: 0xa0, g: 0x74, b: 0xc4 } }),
        ("swift", Icon { glyph: '\u{e755}', color: Rgb { r: 0xe3, g: 0x79, b: 0x33 } }),
        ("lua", Icon { glyph: '\u{e620}', color: Rgb { r: 0x51, g: 0xa0, b: 0xcf } }),
        ("sh", Icon { glyph: '\u{e795}', color: Rgb { r: 0xa3, g: 0xb8, b: 0xbf } }),
        ("bash", Icon { glyph: '\u{e795}', color: Rgb { r: 0x89, g: 0xe0, b: 0x51 } }),
        ("zsh", Icon { glyph: '\u{e795}', color: Rgb { r: 0x89, g: 0xe0, b: 0x51 } }),
        ("fish", Icon { glyph: '\u{e795}', color: Rgb { r: 0xa3, g: 0xb8, b: 0xbf } }),
        ("vim", Icon { glyph: '\u{e62b}', color: Rgb { r: 0x01, g: 0x98, b: 0x33 } }),
        ("sql", Icon { glyph: '\u{e706}', color: Rgb { r: 0xda, g: 0xd8, b: 0xd8 } }),
        ("html", Icon { glyph: '\u{e736}', color: Rgb { r: 0xe4, g: 0x4d, b: 0x26 } }),
        ("css", Icon { glyph: '\u{e749}', color: Rgb { r: 0x42, g: 0xa5, b: 0xf5 } }),
        ("scss", Icon { glyph: '\u{e603}', color: Rgb { r: 0xf5, g: 0x53, b: 0x85 } }),
        ("sass", Icon { glyph: '\u{e603}', color: Rgb { r: 0xf5, g: 0x53, b: 0x85 } }),
        ("less", Icon { glyph: '\u{e614}', color: Rgb { r: 0x56, g: 0x3d, b: 0x7c } }),
        ("json", Icon { glyph: '\u{e60b}', color: Rgb { r: 0xcb, g: 0xcb, b: 0x41 } }),
        ("yaml", Icon { glyph: '\u{e615}', color: Rgb { r: 0x6d, g: 0x80, b: 0x86 } }),
        ("yml", Icon { glyph: '\u{e615}', color: Rgb { r: 0x6d, g: 0x80, b: 0x86 } }),
        ("toml", Icon { glyph: '\u{e6b2}', color: Rgb { r: 0x9c, g: 0x42, b: 0x21 } }),
        ("xml", Icon { glyph: '\u{f05c0}', color: Rgb { r: 0xe3, g: 0x79, b: 0x33 } }),
        ("ini", Icon { glyph: '\u{e615}', color: Rgb { r: 0x6d, g: 0x80, b: 0x86 } }),
        ("cfg", Icon { glyph: '\u{e615}', color: Rgb { r: 0x6d, g: 0x80, b: 0x86 } }),
        ("conf", Icon { glyph: '\u{e615}', color: Rgb { r: 0x6d, g: 0x80, b: 0x86 } }),
        ("md", Icon { glyph: '\u{f48a}', color: Rgb { r: 0x83, g: 0xa5, b: 0x98 } }),
        ("txt", Icon { glyph: '\u{f0219}', color: Rgb { r: 0x89, g: 0xe0, b: 0x51 } }),
        ("pdf", Icon { glyph: '\u{eaeb}', color: Rgb { r: 0xb3, g: 0x0b, b: 0x00 } }),
        ("doc", Icon { glyph: '\u{f022c}', color: Rgb { r: 0x18, g: 0x5a, b: 0xbd } }),
        ("docx", Icon { glyph: '\u{f022c}', color: Rgb { r: 0x18, g: 0x5a, b: 0xbd } }),
        ("xls", Icon { glyph: '\u{f021b}', color: Rgb { r: 0x20, g: 0x72, b: 0x45 } }),
        ("xlsx", Icon { glyph: '\u{f021b}', color: Rgb { r: 0x20, g: 0x72, b: 0x45 } }),
        ("csv", Icon { glyph: '\u{e64a}', color: Rgb { r: 0x89, g: 0xe0, b: 0x51 } }),
        ("png", Icon { glyph: '\u{e60d}', color: Rgb { r: 0xa0, g: 0x74, b: 0xc4 } }),
        ("jpg", Icon { glyph: '\u{e60d}', color: Rgb { r: 0xa0, g: 0x74, b: 0xc4 } }),
        ("jpeg", Icon { glyph: '\u{e60d}', color: Rgb { r: 0xa0, g: 0x74, b: 0xc4 } }),
        ("gif", Icon { glyph: '\u{e60d}', color: Rgb { r: 0xa0, g: 0x74, b: 0xc4 } }),
        ("svg", Icon { glyph: '\u{f0721}', color: Rgb { r: 0xff, g: 0xb1, b: 0x3b } }),
        ("webp", Icon { glyph: '\u{e60d}', color: Rgb { r: 0xa0, g: 0x74, b: 0xc4 } }),
        ("bmp", Icon { glyph: '\u{e60d}', color: Rgb { r: 0xa0, g: 0x74, b: 0xc4 } }),
        ("ico", Icon { glyph: '\u{e60d}', color: Rgb { r: 0xcb, g: 0xcb, b: 0x41 } }),
        ("mp3", Icon { glyph: '\u{f001}', color: Rgb { r: 0x00, g: 0xaf, b: 0xff } }),
        ("wav", Icon { glyph: '\u{f001}', color: Rgb { r: 0x00, g: 0xaf, b: 0xff } }),
        ("flac", Icon { glyph: '\u{f001}', color: Rgb { r: 0x00, g: 0x75, b: 0xaa } }),
        ("ogg", Icon { glyph: '\u{f001}', color: Rgb { r: 0x00, g: 0x75, b: 0xaa } }),
        ("mp4", Icon { glyph: '\u{e69f}', color: Rgb { r: 0xfd, g: 0x97, b: 0x1f } }),
        ("mkv", Icon { glyph: '\u{e69f}', color: Rgb { r: 0xfd, g: 0x97, b: 0x1f } }),
        ("avi", Icon { glyph: '\u{e69f}', color: Rgb { r: 0xfd, g: 0x97, b: 0x1f } }),
        ("mov", Icon { glyph: '\u{e69f}', color: Rgb { r: 0xfd, g: 0x97, b: 0x1f } }),
        ("webm", Icon { glyph: '\u{e69f}', color: Rgb { r: 0xfd, g: 0x97, b: 0x1f } }),
        ("zip", Icon { glyph: '\u{f410}', color: Rgb { r: 0xec, g: 0xa5, b: 0x17 } }),
        ("tar", Icon { glyph: '\u{f410}', color: Rgb { r: 0xec, g: 0xa5, b: 0x17 } }),
        ("gz", Icon { glyph: '\u{f410}', color: Rgb { r: 0xec, g: 0xa5, b: 0x17 } }),
        ("bz2", Icon { glyph: '\u{f410}', color: Rgb { r: 0xec, g: 0xa5, b: 0x17 } }),
        ("xz", Icon { glyph: '\u{f410}', color: Rgb { r: 0xec, g: 0xa5, b: 0x17 } }),
        ("7z", Icon { glyph: '\u{f410}', color: Rgb { r: 0xec, g: 0xa5, b: 0x17 } }),
        ("rar", Icon { glyph: '\u{f410}', color: Rgb { r: 0xec, g: 0xa5, b: 0x17 } }),
        ("exe", Icon { glyph: '\u{eae8}', color: Rgb { r: 0x9f, g: 0x05, b: 0x00 } }),
        ("dll", Icon { glyph: '\u{eb9c}', color: Rgb { r: 0xb0, g: 0x8b, b: 0x5a } }),
        ("so", Icon { glyph: '\u{eb9c}', color: Rgb { r: 0xdc, g: 0xdd, b: 0xd6 } }),
        ("dylib", Icon { glyph: '\u{eb9c}', color: Rgb { r: 0xdc, g: 0xdd, b: 0xd6 } }),
        ("deb", Icon { glyph: '\u{f410}', color: Rgb { r: 0xd8, g: 0xa0, b: 0xa0 } }),
        ("rpm", Icon { glyph: '\u{f410}', color: Rgb { r: 0xd8, g: 0xa0, b: 0xa0 } }),
        ("iso", Icon { glyph: '\u{e271}', color: Rgb { r: 0xd0, g: 0xbe, b: 0xc8 } }),
        ("log", Icon { glyph: '\u{f0331}', color: Rgb { r: 0x9a, g: 0xa5, b: 0xb1 } }),
        ("lock", Icon { glyph: '\u{e672}', color: Rgb { r: 0xb0, g: 0xb4, b: 0xbb } }),
        ("ttf", Icon { glyph: '\u{f031}', color: Rgb { r: 0xec, g: 0xec, b: 0xec } }),
        ("otf", Icon { glyph: '\u{f031}', color: Rgb { r: 0xec, g: 0xec, b: 0xec } }),
        ("woff", Icon { glyph: '\u{f031}', color: Rgb { r: 0xec, g: 0xec, b: 0xec } }),
        ("woff2", Icon { glyph: '\u{f031}', color: Rgb { r: 0xec, g: 0xec, b: 0xec } }),
        ("nix", Icon { glyph: '\u{f313}', color: Rgb { r: 0x7e, g: 0xba, b: 0xe4 } }),
        ("hs", Icon { glyph: '\u{e61f}', color: Rgb { r: 0xa0, g: 0x74, b: 0xc4 } }),
        ("ml", Icon { glyph: '\u{e67a}', color: Rgb { r: 0xe3, g: 0x79, b: 0x33 } }),
        ("ex", Icon { glyph: '\u{e62d}', color: Rgb { r: 0xa0, g: 0x74, b: 0xc4 } }),
        ("exs", Icon { glyph: '\u{e62d}', color: Rgb { r: 0xa0, g: 0x74, b: 0xc4 } }),
        ("erl", Icon { glyph: '\u{e7b1}', color: Rgb { r: 0xb8, g: 0x39, b: 0x98 } }),
        ("clj", Icon { glyph: '\u{e768}', color: Rgb { r: 0x8d, g: 0xc1, b: 0x49 } }),
        ("scala", Icon { glyph: '\u{e737}', color: Rgb { r: 0xcc, g: 0x3e, b: 0x44 } }),
        ("dart", Icon { glyph: '\u{e798}', color: Rgb { r: 0x03, g: 0x58, b: 0x9c } }),
        ("r", Icon { glyph: '\u{f07d4}', color: Rgb { r: 0x22, g: 0x66, b: 0xba } }),
        ("jl", Icon { glyph: '\u{e624}', color: Rgb { r: 0xa2, g: 0x70, b: 0xba } }),
        ("pl", Icon { glyph: '\u{e769}', color: Rgb { r: 0x51, g: 0x9a, b: 0xba } }),
        ("tex", Icon { glyph: '\u{e69b}', color: Rgb { r: 0x3d, g: 0x61, b: 0x17 } }),
        ("diff", Icon { glyph: '\u{e728}', color: Rgb { r: 0x6f, g: 0x8b, b: 0x95 } }),
        ("patch", Icon { glyph: '\u{e728}', color: Rgb { r: 0x6f, g: 0x8b, b: 0x95 } }),
        ("rss", Icon { glyph: '\u{e619}', color: Rgb { r: 0xfb, g: 0x9d, b: 0x3b } }),
    ];
    assert(keyed(t@) =~= by_extension_entries());
    t
}

/// The first icon of `t` whose key is `key` once ASCII capitals are made small.
pub open spec fn lookup_from(t: Seq<(Seq<char>, Icon)>, key: Seq<char>) -> Option<Icon>
    decreases t.len(),
{
    if t.len() == 0 {
        None
    } else if same_ignoring_ascii_case(t[0].0, key) {
        Some(t[0].1)
    } else {
        lookup_from(t.drop_first(), key)
    }
}

/// Where the last `.` of `name` stands.
pub open spec fn last_dot(name: Seq<char>) -> Option<nat>
    decreases name.len(),
{
    if name.len() == 0 {
        None
    } else if name.last() == '.' {
        Some((name.len() - 1) as nat)
    } else {
        last_dot(name.drop_last())
    }
}

/// What `Path::extension` says of `path`: the part of its file name after
/// the last `.`, unless there is no `.` or the only one leads the name.
pub open spec fn extension_of(path: Seq<char>) -> Option<Seq<char>> {
    match file_name_of(path) {
        None => None,
        Some(name) => match last_dot(name) {
            None => None,
            Some(d) => if d == 0 {
                None
            } else {
                Some(name.subrange((d + 1) as int, name.len() as int))
            },
        },
    }
}

/// The icon of a file by its extension, or the default.
pub open spec fn by_extension_or_default(path: Seq<char>) -> Icon {
    match extension_of(path) {
        Some(e) => match lookup_from(by_extension_entries(), e) {
            Some(i) => i,
            None => default_file_icon(),
        },
        None => default_file_icon(),
    }
}

/// The icon of a file: the exact name first, then the extension.
pub open spec fn file_icon(path: Seq<char>) -> Icon {
    match file_name_of(path) {
        Some(n) => match lookup_from(by_name_entries(), n) {
            Some(i) => i,
            None => by_extension_or_default(path),
        },
        None => by_extension_or_default(path),
    }
}

/// The icon for an entry: the kind, then the exact file name, then the
/// extension, and the default when none match.
pub open spec fn icon_of(kind: DirEntryKind, path: Seq<char>) -> Icon {
    match kind {
        DirEntryKind::Parent => parent_icon(),
        DirEntryKind::Directory => directory_icon(),
        DirEntryKind::Symlink => symlink_icon(),
        DirEntryKind::File => file_icon(path),
    }
}

/// Looks `key` up in `table`, comparing without regard to ASCII case.
pub fn lookup(table: &Vec<(&'static str, Icon)>, key: &Vec<char>) -> (found: Option<Icon>)
    ensures
        found == lookup_from(keyed(table@), key@),
{
    let mut i: usize = 0;
    assert(keyed(table@).skip(0) =~= keyed(table@));
    while i < table.len()
        invariant
            i <= table@.len(),
            lookup_from(keyed(table@), key@) == lookup_from(keyed(table@).skip(i as int), key@),
        decreases table.len() - i,
    {
        assert(keyed(table@).skip(i as int).drop_first() =~= keyed(table@).skip(i + 1));
        let name = chars_of(table[i].0);
        if eq_ignore_ascii_case(&name, key) {
            return Some(table[i].1);
        }
        i += 1;
    }
    None
}

/// The extension of `path`, as `Path::extension` has it.
pub fn extension(path: &str) -> (e: Option<Vec<char>>)
    ensures
        match e {
            Some(v) => extension_of(path@) == Some(v@),
            None => extension_of(path@) is None,
        },
{
    let name = match file_name(path) {
        Some(n) => n,
        None => {
            return None;
        },
    };
    let mut end = name.len();
    assert(name@.subrange(0, end as int) =~= name@);
    while end > 0 && name[end - 1] != '.'
        invariant
            end <= name@.len(),
            last_dot(name@) == last_dot(name@.subrange(0, end as int)),
        decreases end,
    {
        assert(name@.subrange(0, end as int).drop_last() =~= name@.subrange(0, end - 1));
        end -= 1;
    }
    if end == 0 {
        return None;
    }
    assert(name@.subrange(0, end as int).last() == '.');
    let dot = end - 1;
    if dot == 0 {
        return None;
    }
    let mut ext: Vec<char> = Vec::new();
    let mut i = end;
    while i < name.len()
        invariant
            end <= i <= name@.len(),
            ext@ == name@.subrange(end as int, i as int),
        decreases name.len() - i,
    {
        ext.push(name[i]);
        i += 1;
    }
    Some(ext)
}

fn by_extension_or_default_of(path: &str) -> (icon: Icon)
    ensures
        icon == by_extension_or_default(path@),
{
    match extension(path) {
        Some(e) => match lookup(&by_extension_table(), &e) {
            Some(i) => i,
            None => default_file(),
        },
        None => default_file(),
    }
}

impl Icon {
    /// The icon for an entry. Consults, in order: the entry kind, the exact
    /// file name, then the extension, and falls back to the default file icon
    /// when none match.
    pub fn icon_for(entry: &DirEntry) -> (icon: Icon)
        ensures
            icon == icon_of(entry.kind, entry.path@),
    {
        match entry.kind {
            DirEntryKind::Parent => parent(),
            DirEntryKind::Directory => directory(),
            DirEntryKind::Symlink => symlink(),
            DirEntryKind::File => match file_name(entry.path.as_str()) {
                Some(n) => match lookup(&by_name_table(), &n) {
                    Some(i) => i,
                    None => by_extension_or_default_of(entry.path.as_str()),
                },
                None => by_extension_or_default_of(entry.path.as_str()),
            },
        }
    }

    /// The icon for a name inside an archive, where there is no `DirEntry` to
    /// ask. The kind decides first and the name after it, the same order
    /// `icon_for` takes.
    pub fn for_archive_entry(entry: &Entry) -> (icon: Icon)
        ensures
            icon == match entry.kind {
                EntryKind::Directory => directory_icon(),
                EntryKind::Symlink => symlink_icon(),
                EntryKind::File => match lookup_from(by_name_entries(), entry.name@) {
                    Some(i) => i,
                    None => by_extension_or_default(entry.name@),
                },
            },
    {
        match entry.kind {
            EntryKind::Directory => directory(),
            EntryKind::Symlink => symlink(),
            EntryKind::File => {
                let name = chars_of(entry.name.as_str());
                match lookup(&by_name_table(), &name) {
                    Some(i) => i,
                    None => by_extension_or_default_of(entry.name.as_str()),
                }
            },
        }
    }
}

} // verus!
