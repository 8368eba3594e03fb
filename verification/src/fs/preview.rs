//! What the opposite panel shows of whatever is under the cursor, made out of
//! what was read of it.
//!
//! A preview is a *snapshot*. Running through ten entries leaves nine answers
//! that are not merely useless but wrong — an image drawn under another file's
//! name. Only the newest one is ever folded in.

use vstd::prelude::*;

use crate::fs::directory::Directory;
use crate::text::{string_of, chars_of};

verus! {

/// One file to look at, taken when the request was sent. It never reads back.
#[derive(Debug)]
pub struct Preview {
    pub path: String,
}

/// The bounds a preview keeps to. They describe the reader rather than one
/// question asked of it, so they are fixed when the thread starts.
#[derive(Clone, Debug)]
pub struct Limits {
    /// How much of a file is read at all. The cap is in bytes and not in
    /// lines, because a file without line endings is one line.
    pub max_bytes: usize,
    /// Lines kept from a text file.
    pub max_lines: usize,
    /// Characters kept from one line, so a minified bundle on a single line
    /// cannot be the thing that is measured and wrapped every frame.
    pub max_line_chars: usize,
    /// The largest file that is decoded as an image at all.
    pub max_image_bytes: u64,
    /// The longest side a stored image may claim before it is refused
    /// undecoded, which is what a decompression bomb runs into.
    pub max_source_side: u32,
    /// The longest side of the bitmap that is carried back.
    pub max_bitmap_side: u32,
}

impl Default for Limits {
    fn default() -> (l: Self)
        ensures
            l.max_bytes == 64 * 1024,
            l.max_lines == 500,
            l.max_line_chars == 512,
            l.max_image_bytes == 32 * 1024 * 1024,
            l.max_source_side == 20_000,
            l.max_bitmap_side == 512,
    {
        Limits {
            max_bytes: 64 * 1024,
            max_lines: 500,
            max_line_chars: 512,
            max_image_bytes: 32 * 1024 * 1024,
            max_source_side: 20_000,
            max_bitmap_side: 512,
        }
    }
}

/// A decoded image, cut down to something worth carrying across a channel and
/// sampling from every frame.
///
/// Kept as RGBA rather than composited: what shows through a transparent pixel
/// is whatever the panel sits on, and only the widget knows that.
#[derive(Debug)]
pub struct Bitmap {
    width: u32,
    height: u32,
    /// Four bytes to a pixel, row after row.
    pixels: Vec<u8>,
}

impl Bitmap {
    /// Four bytes to every pixel, and every offset of one within a `u32`.
    #[verifier::type_invariant]
    spec fn wf(&self) -> bool {
        &&& self.pixels@.len() == self.width * self.height * 4
        &&& self.width * self.height * 4 <= u32::MAX
    }

    pub closed spec fn width_spec(&self) -> u32 {
        self.width
    }

    pub closed spec fn height_spec(&self) -> u32 {
        self.height
    }

    /// The stored bytes.
    pub closed spec fn pixels_spec(&self) -> Seq<u8> {
        self.pixels@
    }

    /// The pixel at `(x, y)`: transparent black outside the bitmap.
    pub open spec fn pixel_spec(&self, x: u32, y: u32) -> Seq<u8> {
        if x >= self.width_spec() || y >= self.height_spec() {
            seq![0u8, 0u8, 0u8, 0u8]
        } else {
            let at = (y * self.width_spec() + x) * 4;
            self.pixels_spec().subrange(at, at + 4)
        }
    }

    /// Columns of pixels.
    pub fn width(&self) -> (w: u32)
        ensures
            w == self.width_spec(),
    {
        self.width
    }

    /// Rows of pixels.
    pub fn height(&self) -> (h: u32)
        ensures
            h == self.height_spec(),
    {
        self.height
    }

    /// The pixel at `(x, y)` as red, green, blue and alpha. Outside the
    /// bitmap it is transparent black, so a caller that samples a box need not
    /// clamp its edges.
    pub fn pixel(&self, x: u32, y: u32) -> (p: [u8; 4])
        ensures
            p@ == self.pixel_spec(x, y),
    {
        proof {
            use_type_invariant(self);
        }
        if x >= self.width || y >= self.height {
            let p = [0u8, 0u8, 0u8, 0u8];
            assert(p@ =~= seq![0u8, 0u8, 0u8, 0u8]);
            return p;
        }
        proof {
            assert(y * self.width + x < self.width * self.height) by (nonlinear_arith)
                requires
                    x < self.width,
                    y < self.height,
            ;
            assert((y * self.width + x) * 4 + 4 <= self.width * self.height * 4) by (nonlinear_arith)
                requires
                    y * self.width + x < self.width * self.height,
            ;
        }
        let at = ((y * self.width + x) * 4) as usize;
        let p = [self.pixels[at], self.pixels[at + 1], self.pixels[at + 2], self.pixels[at + 3]];
        assert(p@ =~= self.pixels@.subrange(at as int, at + 4));
        p
    }

    /// The pixels as they are stored, for a protocol that carries a bitmap
    /// whole rather than sampling it a point at a time.
    pub fn rgba(&self) -> (bytes: &[u8])
        ensures
            bytes@ == self.pixels_spec(),
            bytes@.len() == self.width_spec() * self.height_spec() * 4,
    {
        proof {
            use_type_invariant(self);
        }
        self.pixels.as_slice()
    }

    /// A bitmap of `width` by `height` from raw RGBA bytes.
    pub fn of(width: u32, height: u32, pixels: Vec<u8>) -> (b: Self)
        requires
            width * height * 4 <= u32::MAX,
            pixels@.len() == width * height * 4,
        ensures
            b.width_spec() == width,
            b.height_spec() == height,
            b.pixels_spec() == pixels@,
    {
        Bitmap { width, height, pixels }
    }
}

/// Why there is nothing to show. Kept as a reason rather than as a sentence,
/// so the wording lives with the widget that draws it.
#[derive(Clone, Copy, Debug, PartialEq, Eq)]
pub enum Refused {
    /// A pipe, a socket or a device. Opening one can block forever, so it is
    /// turned away on its metadata and never opened.
    NotAFile,
}

/// What a symlink points at, resolved once so the widget need not touch the
/// disk to word it.
#[derive(Clone, Copy, Debug, PartialEq, Eq)]
pub enum LinkTarget {
    Directory,
    File,
    Other,
    /// Nothing is there. A symlink is shown by where it points either way.
    Broken,
}

/// What the panel draws. Everything here is settled: no path is opened again
/// and no decision is left to the widget.
#[derive(Debug)]
pub enum Content {
    Directory(Directory),
    Symlink { target: String, points_to: LinkTarget },
    Text {
        lines: Vec<String>,
        /// Set when the file goes on past what was read or kept.
        clipped: bool,
    },
    /// Bytes as they were read. The dump is laid out by the widget, which is
    /// the only thing that knows how wide a row may be.
    Binary { bytes: Vec<u8>, clipped: bool },
    Image(Bitmap),
    Refused(Refused),
    /// Permissions, a file that vanished between the listing and the read. A
    /// normal state of a file manager, drawn in the panel rather than raised
    /// as a toast.
    Unreadable(String),
}

/// An image format a preview can decode.
#[derive(Clone, Copy, Debug, PartialEq, Eq)]
pub enum ImageKind {
    Png,
    Jpeg,
}

pub open spec fn png_signature() -> Seq<u8> {
    seq![0x89u8, 0x50u8, 0x4eu8, 0x47u8, 0x0du8, 0x0au8, 0x1au8, 0x0au8]
}

pub open spec fn jpeg_signature() -> Seq<u8> {
    seq![0xffu8, 0xd8u8, 0xffu8]
}

pub open spec fn begins_with(bytes: Seq<u8>, prefix: Seq<u8>) -> bool {
    prefix.len() <= bytes.len() && bytes.subrange(0, prefix.len() as int) == prefix
}

/// The image format the first bytes of a file announce.
pub open spec fn sniff_image_spec(bytes: Seq<u8>) -> Option<ImageKind> {
    if begins_with(bytes, png_signature()) {
        Some(ImageKind::Png)
    } else if begins_with(bytes, jpeg_signature()) {
        Some(ImageKind::Jpeg)
    } else {
        None
    }
}

fn begins(bytes: &[u8], prefix: &Vec<u8>) -> (b: bool)
    ensures
        b == begins_with(bytes@, prefix@),
{
    if prefix.len() > bytes.len() {
        return false;
    }
    let mut i: usize = 0;
    while i < prefix.len()
        invariant
            prefix@.len() <= bytes@.len(),
            i <= prefix@.len(),
            forall|k: int| 0 <= k < i ==> bytes@[k] == prefix@[k],
        decreases prefix.len() - i,
    {
        if bytes[i] != prefix[i] {
            assert(bytes@.subrange(0, prefix@.len() as int)[i as int] != prefix@[i as int]);
            return false;
        }
        i += 1;
    }
    assert(bytes@.subrange(0, prefix@.len() as int) =~= prefix@);
    true
}

/// The image format the first bytes of a file announce, or `None` for
/// anything that is not an image this can draw. The extension is not
/// consulted, because it lies.
pub fn sniff_image(bytes: &[u8]) -> (kind: Option<ImageKind>)
    ensures
        kind == sniff_image_spec(bytes@),
{
    let png: Vec<u8> = vec![0x89u8, 0x50u8, 0x4eu8, 0x47u8, 0x0du8, 0x0au8, 0x1au8, 0x0au8];
    let jpeg: Vec<u8> = vec![0xffu8, 0xd8u8, 0xffu8];
    assert(png@ =~= png_signature());
    assert(jpeg@ =~= jpeg_signature());
    if begins(bytes, &png) {
        Some(ImageKind::Png)
    } else if begins(bytes, &jpeg) {
        Some(ImageKind::Jpeg)
    } else {
        None
    }
}

/// Whether a file whose front is `bytes` and which is `len` bytes long is
/// decoded as an image: its first bytes announce one, and it is small enough
/// to be read whole.
pub fn worth_decoding(bytes: &[u8], len: u64, limits: &Limits) -> (kind: Option<ImageKind>)
    ensures
        kind == (if len <= limits.max_image_bytes { sniff_image_spec(bytes@) } else { None }),
{
    if len <= limits.max_image_bytes {
        sniff_image(bytes)
    } else {
        None
    }
}

/// Whether bytes are text: a NUL in them means binary; anything else is text,
/// however little of it is valid UTF-8.
pub open spec fn is_text_spec(bytes: Seq<u8>) -> bool {
    !bytes.contains(0u8)
}

/// Whether bytes are text. A NUL in them means binary; anything else is text,
/// however little of it is valid UTF-8.
///
/// Shared with the listing, so that what the preview draws as text and what
/// entering an entry opens in an editor cannot come apart.
pub fn is_text(bytes: &[u8]) -> (text: bool)
    ensures
        text == is_text_spec(bytes@),
{
    let mut i: usize = 0;
    while i < bytes.len()
        invariant
            i <= bytes@.len(),
            forall|k: int| 0 <= k < i ==> bytes@[k] != 0,
        decreases bytes.len() - i,
    {
        if bytes[i] == 0 {
            assert(bytes@[i as int] == 0);
            return false;
        }
        i += 1;
    }
    true
}

/// How many bytes a UTF-8 character that begins with `byte` takes.
pub open spec fn char_width_of(byte: u8) -> nat {
    if byte <= 0x7f {
        1
    } else if 0xc0 <= byte <= 0xdf {
        2
    } else if 0xe0 <= byte <= 0xef {
        3
    } else {
        4
    }
}

pub open spec fn is_continuation(byte: u8) -> bool {
    0x80 <= byte <= 0xbf
}

/// The tail of `bytes` examined from `back` bytes from its end: a
/// continuation byte says the character started earlier still, anything else
/// starts the last character, which is cut where it is longer than what
/// follows it.
pub open spec fn whole_from(bytes: Seq<u8>, back: nat) -> nat
    decreases 4 - back,
{
    if back > 3 || back > bytes.len() {
        bytes.len()
    } else {
        let index = (bytes.len() - back) as nat;
        if is_continuation(bytes[index as int]) {
            whole_from(bytes, back + 1)
        } else if back < char_width_of(bytes[index as int]) {
            index
        } else {
            bytes.len()
        }
    }
}

/// The length of the longest prefix of `bytes` that does not end part way
/// through a UTF-8 character. Only the tail is examined: an invalid byte
/// further in is a byte of a file that is not UTF-8, which is drawn lossily
/// rather than cut.
pub fn whole_chars(bytes: &[u8]) -> (n: usize)
    ensures
        n == whole_from(bytes@, 1),
        n <= bytes@.len(),
{
    let mut back: usize = 1;
    while back <= 3 && back <= bytes.len()
        invariant
            1 <= back <= 4,
            whole_from(bytes@, 1) == whole_from(bytes@, back as nat),
        decreases 4 - back,
    {
        let index = bytes.len() - back;
        let byte = bytes[index];
        if 0x80 <= byte && byte <= 0xbf {
            back += 1;
        } else {
            let width: usize = if byte <= 0x7f {
                1
            } else if 0xc0 <= byte && byte <= 0xdf {
                2
            } else if 0xe0 <= byte && byte <= 0xef {
                3
            } else {
                4
            };
            return if back < width {
                index
            } else {
                bytes.len()
            };
        }
    }
    bytes.len()
}

/// Whether `c` is a control character as `char::is_control` has it: the
/// general category `Cc`.
pub open spec fn is_control(c: char) -> bool {
    c <= '\u{1f}' || ('\u{7f}' <= c && c <= '\u{9f}')
}

/// The spaces a tab becomes behind `kept` characters: four, or as many as
/// are left below `max_chars`.
pub open spec fn tab_spaces(kept: nat, max_chars: nat) -> Seq<char> {
    let room: int = max_chars - kept;
    Seq::new(if room < 4 { if room < 0 { 0 } else { room as nat } } else { 4 }, |i: int| ' ')
}

/// One line turned into something a terminal can draw, from `out` on: tabs
/// become four spaces, the remaining control characters are dropped, and the
/// line is cut at `max_chars`, through a tab's spaces if need be.
pub open spec fn printable_from(line: Seq<char>, out: Seq<char>, max_chars: nat) -> Seq<char>
    decreases line.len(),
{
    if line.len() == 0 || out.len() >= max_chars {
        out
    } else {
        let c = line[0];
        let next = if c == '\t' {
            out + tab_spaces(out.len(), max_chars)
        } else if is_control(c) {
            out
        } else {
            out.push(c)
        };
        printable_from(line.drop_first(), next, max_chars)
    }
}

/// Turns one line into something a terminal can draw: tabs become spaces, the
/// remaining control characters are dropped, and the line is cut to
/// `max_chars`.
pub fn printable(line: &str, max_chars: usize) -> (out: String)
    ensures
        out@ == printable_from(line@, Seq::empty(), max_chars as nat),
        out@.len() <= max_chars,
{
    let chars = chars_of(line);
    let mut out: Vec<char> = Vec::new();
    let mut i: usize = 0;
    assert(chars@.skip(0) =~= line@);
    while i < chars.len() && out.len() < max_chars
        invariant
            i <= chars@.len(),
            printable_from(line@, Seq::empty(), max_chars as nat) == printable_from(
                chars@.skip(i as int),
                out@,
                max_chars as nat,
            ),
            chars@ == line@,
            out@.len() <= max_chars,
        decreases chars.len() - i,
    {
        assert(chars@.skip(i as int).drop_first() =~= chars@.skip(i + 1));
        let c = chars[i];
        if c == '\t' {
            let ghost before = out@;
            let mut k: usize = 0;
            while k < 4 && out.len() < max_chars
                invariant
                    k <= 4,
                    before.len() < max_chars,
                    out@.len() == before.len() + k,
                    out@ =~= before + Seq::new(k as nat, |j: int| ' '),
                    out@.len() <= max_chars,
                decreases 4 - k,
            {
                out.push(' ');
                k += 1;
            }
            assert(out@ =~= before + tab_spaces(before.len(), max_chars as nat));
        } else if c <= '\u{1f}' || ('\u{7f}' <= c && c <= '\u{9f}') {
        } else {
            out.push(c);
        }
        i += 1;
    }
    proof {
        if i >= chars@.len() {
            assert(chars@.skip(i as int) =~= Seq::<char>::empty());
        }
        assert(printable_from(chars@.skip(i as int), out@, max_chars as nat) == out@);
    }
    string_of(out.as_slice())
}

/// What `String::from_utf8_lossy` makes of `bytes`: the characters they
/// encode, with a replacement character for each invalid sequence as the
/// standard library delimits them.
pub uninterp spec fn lossy_text(bytes: Seq<u8>) -> Seq<char>;

/// `String::from_utf8_lossy`. Claims only that the result is the text
/// `lossy_text` names for `bytes`.
#[verifier::external_body]
fn decode_lossy(bytes: &[u8]) -> (text: String)
    ensures
        text@ == lossy_text(bytes@),
{
    String::from_utf8_lossy(bytes).into_owned()
}

/// The lines `str::lines` gives, from the pieces read so far: a line ends at
/// a `\n`, and one `\r` before it goes with it; a last line with no `\n`
/// keeps whatever it ends in, and there is no empty line after a final `\n`.
pub open spec fn lines_read(s: Seq<char>) -> (Seq<Seq<char>>, Seq<char>)
    decreases s.len(),
{
    if s.len() == 0 {
        (Seq::empty(), Seq::empty())
    } else {
        let (done, current) = lines_read(s.drop_last());
        if s.last() == '\n' {
            let line = if current.len() > 0 && current.last() == '\r' {
                current.drop_last()
            } else {
                current
            };
            (done.push(line), Seq::empty())
        } else {
            (done, current.push(s.last()))
        }
    }
}

pub open spec fn lines_spec(s: Seq<char>) -> Seq<Seq<char>> {
    let (done, current) = lines_read(s);
    if current.len() > 0 { done.push(current) } else { done }
}

/// The lines of `s`, as `str::lines` gives them.
pub fn lines_of(s: &Vec<char>) -> (lines: Vec<Vec<char>>)
    ensures
        lines@.map_values(|l: Vec<char>| l@) == lines_spec(s@),
{
    let mut done: Vec<Vec<char>> = Vec::new();
    let mut current: Vec<char> = Vec::new();
    let mut i: usize = 0;
    while i < s.len()
        invariant
            i <= s@.len(),
            (done@.map_values(|l: Vec<char>| l@), current@) == lines_read(s@.subrange(0, i as int)),
        decreases s.len() - i,
    {
        assert(s@.subrange(0, i + 1).drop_last() =~= s@.subrange(0, i as int));
        if s[i] == '\n' {
            let mut line: Vec<char> = Vec::new();
            std::mem::swap(&mut line, &mut current);
            if line.len() > 0 && line[line.len() - 1] == '\r' {
                line.pop();
            }
            let ghost before = done@;
            done.push(line);
            assert(done@.map_values(|l: Vec<char>| l@) =~= before.map_values(|l: Vec<char>| l@).push(
                line@,
            ));
        } else {
            current.push(s[i]);
        }
        i += 1;
    }
    assert(s@.subrange(0, s@.len() as int) =~= s@);
    if current.len() > 0 {
        let ghost before = done@;
        done.push(current);
        assert(done@.map_values(|l: Vec<char>| l@) =~= before.map_values(|l: Vec<char>| l@).push(
            current@,
        ));
    }
    done
}

/// Each of `lines` made printable and cut to `max_chars`.
pub open spec fn printed_lines(lines: Seq<Seq<char>>, max_chars: nat) -> Seq<Seq<char>> {
    Seq::new(lines.len(), |i: int| printable_from(lines[i], Seq::empty(), max_chars))
}

/// The lines a text preview keeps of `text`: at most `max_lines`, each made
/// printable and cut to `max_chars`, and the last one dropped when the file
/// goes on past them.
pub open spec fn kept_lines(text: Seq<char>, clipped: bool, max_lines: nat, max_chars: nat) -> Seq<
    Seq<char>,
> {
    let all = lines_spec(text);
    let taken = if all.len() > max_lines { all.take(max_lines as int) } else { all };
    let lines = printed_lines(taken, max_chars);
    if clipped || lines.len() == max_lines {
        if lines.len() > 0 { lines.drop_last() } else { lines }
    } else {
        lines
    }
}

/// What a preview of bytes that are not an image is.
pub open spec fn classify_spec(bytes: Seq<u8>, clipped: bool, limits: Limits) -> (bool, Seq<Seq<char>>, bool) {
    if !is_text_spec(bytes) {
        (false, Seq::empty(), clipped)
    } else {
        let text = if clipped { bytes.subrange(0, whole_from(bytes, 1) as int) } else { bytes };
        let lines = kept_lines(lossy_text(text), clipped, limits.max_lines as nat, limits.max_line_chars as nat);
        (true, lines, clipped || lines_spec(lossy_text(text)).len() >= limits.max_lines)
    }
}

/// Shapes bytes that are not an image. A NUL byte in the prefix means binary;
/// anything else is drawn as text, however little of it is valid UTF-8.
///
/// A prefix can end in the middle of a multi-byte character; when the file
/// goes on past it, that character is trimmed, which costs one character the
/// file goes on past anyway and keeps a stray replacement glyph off the last
/// line. A file that ends without a newline still has that last line; one
/// that is clipped mid-line has a line the file does not end at, and it is
/// dropped.
pub fn classify(bytes: Vec<u8>, clipped: bool, limits: &Limits) -> (content: Content)
    ensures
        !is_text_spec(bytes@) ==> content == (Content::Binary { bytes: bytes, clipped }),
        is_text_spec(bytes@) ==> (content matches Content::Text { lines, clipped: more } && lines@.map_values(
            |l: String| l@,
        ) == classify_spec(bytes@, clipped, *limits).1 && more == classify_spec(bytes@, clipped, *limits).2),
{
    if !is_text(bytes.as_slice()) {
        return Content::Binary { bytes, clipped };
    }
    let text = if clipped {
        let end = whole_chars(bytes.as_slice());
        decode_lossy(&bytes.as_slice()[0..end])
    } else {
        decode_lossy(bytes.as_slice())
    };
    let chars = chars_of(text.as_str());
    let all = lines_of(&chars);
    let ghost all_spec = lines_spec(text@);
    assert(all@.map_values(|l: Vec<char>| l@) == all_spec);
    let mut lines: Vec<String> = Vec::new();
    let mut i: usize = 0;
    while i < all.len() && i < limits.max_lines
        invariant
            i <= all@.len(),
            i <= limits.max_lines,
            all@.map_values(|l: Vec<char>| l@) == all_spec,
            lines@.map_values(|l: String| l@) == printed_lines(all_spec.take(i as int), limits.max_line_chars as nat),
        decreases all.len() - i,
    {
        let line = string_of(all[i].as_slice());
        let ghost before = lines@;
        let printed = printable(line.as_str(), limits.max_line_chars);
        lines.push(printed);
        assert(all_spec[i as int] == all@[i as int]@);
        proof {
            let want = printed_lines(all_spec.take(i + 1), limits.max_line_chars as nat);
            let had = printed_lines(all_spec.take(i as int), limits.max_line_chars as nat);
            assert(want.len() == i + 1);
            assert forall|j: int| 0 <= j < i implies want[j] == had[j] by {
                assert(all_spec.take(i + 1)[j] == all_spec.take(i as int)[j]);
            }
            assert(want[i as int] == printed@);
            assert(lines@.map_values(|l: String| l@) =~= before.map_values(|l: String| l@).push(printed@));
            assert(want =~= had.push(printed@));
        }
        assert(lines@.map_values(|l: String| l@) =~= printed_lines(all_spec.take(i + 1), limits.max_line_chars as nat));
        i += 1;
    }
    let ghost taken = if all_spec.len() > limits.max_lines as nat {
        all_spec.take(limits.max_lines as int)
    } else {
        all_spec
    };
    assert(taken =~= all_spec.take(i as int));
    let more = clipped || lines.len() == limits.max_lines;
    assert(lines@.len() == all_spec.take(i as int).len());
    if more && lines.len() > 0 {
        let ghost before = lines@;
        lines.pop();
        assert(lines@.map_values(|l: String| l@) =~= before.map_values(|l: String| l@).drop_last());
    }
    Content::Text { lines, clipped: more }
}

} // verus!
