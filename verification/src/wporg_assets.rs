//! The WordPress.org images in the assets folder (icon, banner, screenshots):
//! each file's role, its pixel size, and whether WordPress.org will use it.
//! Names, sizes, formats and size limits follow the official plugin-assets
//! handbook. Listing the folder and reading the files are the app's.

use vstd::prelude::*;

use crate::strings::{
    all_digits, decimal, decimal_string, ends_with, from_chars, has_prefix, has_suffix, is_digit, last_index,
    last_index_of, lower, slice_chars, starts_with, to_chars, to_lower, contains,
};

verus! {

broadcast use vstd::string::group_string_axioms;

/// What a file in the assets folder is for.
#[derive(Debug, Clone, Copy, PartialEq, Eq, Structural)]
pub enum AssetKind {
    /// `icon-128x128.png` or `icon-256x256.png`.
    Icon,
    /// `icon.svg`.
    IconSvg,
    /// `banner-772x250.png` or `banner-1544x500.png`, with an optional `-rtl` or language suffix.
    Banner,
    /// `screenshot-N.png`, with an optional language suffix.
    Screenshot,
    /// The `blueprints/` folder for the Playground live preview.
    Blueprints,
    /// Anything else: WordPress.org ignores it.
    Unknown,
}

/// A mebibyte.
pub const MB: u64 = 1048576;

/// Whether `c` is an ASCII lowercase letter.
pub open spec fn is_lower_letter(c: char) -> bool {
    'a' <= c && c <= 'z'
}

/// Whether `c` is an ASCII uppercase letter.
pub open spec fn is_upper_letter(c: char) -> bool {
    'A' <= c && c <= 'Z'
}

/// Whether every character of `s` is an ASCII lowercase letter.
pub open spec fn all_lower(s: Seq<char>) -> bool {
    forall|i: int| 0 <= i < s.len() ==> is_lower_letter(#[trigger] s[i])
}

/// A language suffix: `-` and two or three lowercase letters, optionally
/// `_` and two uppercase letters (`-de`, `-pt_BR`).
pub open spec fn locale_suffix(s: Seq<char>) -> bool {
    s.len() >= 3 && s[0] == '-' && {
        let body = s.skip(1);
        ||| (body.len() == 2 || body.len() == 3) && all_lower(body)
        ||| (body.len() == 5 || body.len() == 6) && all_lower(body.take(body.len() - 3)) && body[body.len() - 3]
            == '_' && is_upper_letter(body[body.len() - 2]) && is_upper_letter(body[body.len() - 1])
    }
}

/// The four-character extension of `name`.
pub open spec fn ext_of(name: Seq<char>) -> Seq<char> {
    name.skip(name.len() - 4)
}

/// `name` without its four-character extension.
pub open spec fn stem_of(name: Seq<char>) -> Seq<char> {
    name.take(name.len() - 4)
}

/// Whether a name ends in `.png` or `.jpg`, or `.gif` where that is allowed.
pub open spec fn image_ext(name: Seq<char>, gif: bool) -> bool {
    name.len() >= 4 && (ext_of(name) == ".png"@ || ext_of(name) == ".jpg"@ || (gif && ext_of(name) == ".gif"@))
}

/// The size an icon name asks for: `icon-128x128` or `icon-256x256`, as PNG, JPG or GIF.
pub open spec fn icon_spec(name: Seq<char>) -> Option<(u32, u32)> {
    if image_ext(name, true) && stem_of(name) == "icon-128x128"@ {
        Some((128, 128))
    } else if image_ext(name, true) && stem_of(name) == "icon-256x256"@ {
        Some((256, 256))
    } else {
        None
    }
}

/// What may follow a banner's size: nothing, `-rtl`, or a language.
pub open spec fn banner_tail(t: Seq<char>) -> bool {
    t.len() == 0 || t == "-rtl"@ || locale_suffix(t)
}

/// The size a banner name asks for: `banner-772x250` or `banner-1544x500`,
/// then an optional `-rtl` or language, as PNG or JPG.
pub open spec fn banner_spec(name: Seq<char>) -> Option<(u32, u32)> {
    if image_ext(name, false) && starts_with(stem_of(name), "banner-772x250"@) && banner_tail(stem_of(name).skip(14)) {
        Some((772, 250))
    } else if image_ext(name, false) && starts_with(stem_of(name), "banner-1544x500"@) && banner_tail(
        stem_of(name).skip(15),
    ) {
        Some((1544, 500))
    } else {
        None
    }
}

/// How many digits `t` starts with.
pub open spec fn digit_run(t: Seq<char>) -> nat
    decreases t.len(),
{
    if t.len() > 0 && is_digit(t[0]) {
        1 + digit_run(t.skip(1))
    } else {
        0
    }
}

/// A screenshot number without a leading zero, then an optional language.
pub open spec fn screenshot_tail(t: Seq<char>) -> bool {
    let n = digit_run(t);
    n >= 1 && t[0] != '0' && (n == t.len() || locale_suffix(t.skip(n as int)))
}

/// Whether `name` is `screenshot-N`, with an optional language, as PNG or JPG.
pub open spec fn screenshot_spec(name: Seq<char>) -> bool {
    image_ext(name, false) && starts_with(stem_of(name), "screenshot-"@) && screenshot_tail(stem_of(name).skip(11))
}

/// A file's role, the pixel size its name asks for, and its byte limit (0: none).
pub open spec fn classification(name: Seq<char>, is_dir: bool) -> (AssetKind, Option<(u32, u32)>, u64) {
    if is_dir {
        (if name == "blueprints"@ {
            AssetKind::Blueprints
        } else {
            AssetKind::Unknown
        }, None, 0)
    } else if name == "icon.svg"@ {
        (AssetKind::IconSvg, None, MB)
    } else if icon_spec(name) is Some {
        (AssetKind::Icon, icon_spec(name), MB)
    } else if banner_spec(name) is Some {
        (AssetKind::Banner, banner_spec(name), 4194304)
    } else if screenshot_spec(name) {
        (AssetKind::Screenshot, None, 10485760)
    } else {
        (AssetKind::Unknown, None, 0)
    }
}

/// Whether two character sequences are equal.
fn chars_equal(a: &[char], text: &str) -> (r: bool)
    ensures
        r == (a@ == text@),
{
    let b = to_chars(text);
    if a.len() != b.len() {
        assert(a@.len() != text@.len());
        return false;
    }
    let mut i: usize = 0;
    while i < a.len()
        invariant
            i <= a@.len(),
            a@.len() == b@.len(),
            b@ == text@,
            forall|q: int| 0 <= q < i ==> a@[q] == b@[q],
        decreases a@.len() - i,
    {
        if a[i] != b[i] {
            return false;
        }
        i = i + 1;
    }
    proof {
        assert(a@ =~= b@);
    }
    true
}

fn is_locale_suffix(s: &[char]) -> (b: bool)
    ensures
        b == locale_suffix(s@),
{
    if s.len() < 3 || s[0] != '-' {
        return false;
    }
    let n = s.len() - 1;
    proof {
        assert(s@.skip(1).len() == n);
    }
    if n == 2 || n == 3 {
        let mut i: usize = 1;
        while i < s.len()
            invariant
                1 <= i <= s@.len(),
                n == s@.len() - 1,
                n == 2 || n == 3,
                s@.len() >= 3 && s@[0] == '-',
                forall|q: int| 0 <= q < i - 1 ==> is_lower_letter(#[trigger] s@.skip(1)[q]),
            decreases s@.len() - i,
        {
            if !('a' <= s[i] && s[i] <= 'z') {
                proof {
                    assert(s@.skip(1)[i - 1] == s@[i as int]);
                    assert(!is_lower_letter(s@.skip(1)[i - 1]));
                    assert(!all_lower(s@.skip(1)));
                }
                return false;
            }
            i = i + 1;
        }
        proof {
            assert(all_lower(s@.skip(1)));
        }
        return true;
    }
    if n == 5 || n == 6 {
        let mut i: usize = 1;
        while i < s.len() - 3
            invariant
                1 <= i <= s@.len() - 3,
                n == s@.len() - 1,
                n == 5 || n == 6,
                s@.len() >= 3 && s@[0] == '-',
                forall|q: int| 0 <= q < i - 1 ==> is_lower_letter(#[trigger] s@.skip(1).take(n - 3)[q]),
            decreases s@.len() - i,
        {
            if !('a' <= s[i] && s[i] <= 'z') {
                proof {
                    assert(s@.skip(1).take(n - 3)[i - 1] == s@[i as int]);
                    assert(!is_lower_letter(s@.skip(1).take(n - 3)[i - 1]));
                    assert(!all_lower(s@.skip(1).take(n - 3)));
                }
                return false;
            }
            i = i + 1;
        }
        let k = s.len();
        return s[k - 3] == '_' && 'A' <= s[k - 2] && s[k - 2] <= 'Z' && 'A' <= s[k - 1] && s[k - 1] <= 'Z';
    }
    false
}

/// Whether the name ends in `.png` or `.jpg`, or `.gif` where allowed.
fn has_image_ext(name: &[char], gif: bool) -> (b: bool)
    ensures
        b == image_ext(name@, gif),
{
    if name.len() < 4 {
        return false;
    }
    let ext = slice_chars(name, name.len() - 4, name.len());
    proof {
        assert(ext@ =~= ext_of(name@));
    }
    chars_equal(ext.as_slice(), ".png") || chars_equal(ext.as_slice(), ".jpg") || (gif && chars_equal(
        ext.as_slice(),
        ".gif",
    ))
}

/// How many digits `t` starts with.
fn digits_at_start(t: &[char]) -> (n: usize)
    ensures
        n == digit_run(t@),
        n <= t@.len(),
{
    let mut i: usize = 0;
    proof {
        assert(t@.skip(0) =~= t@);
    }
    while i < t.len() && '0' <= t[i] && t[i] <= '9'
        invariant
            i <= t@.len(),
            digit_run(t@) == i + digit_run(t@.skip(i as int)),
        decreases t@.len() - i,
    {
        proof {
            assert(t@.skip(i as int)[0] == t@[i as int]);
            assert(t@.skip(i as int).skip(1) =~= t@.skip(i + 1));
        }
        i = i + 1;
    }
    proof {
        if i < t@.len() {
            assert(t@.skip(i as int)[0] == t@[i as int]);
        }
    }
    i
}

/// A file's role, the pixel size its name asks for, and its byte limit (0: none).
pub fn classify(name: &str, is_dir: bool) -> (r: (AssetKind, Option<(u32, u32)>, u64))
    ensures
        r == classification(name@, is_dir),
{
    let chars = to_chars(name);
    if is_dir {
        let kind = if chars_equal(chars.as_slice(), "blueprints") {
            AssetKind::Blueprints
        } else {
            AssetKind::Unknown
        };
        return (kind, None, 0);
    }
    if chars_equal(chars.as_slice(), "icon.svg") {
        return (AssetKind::IconSvg, None, MB);
    }
    let png_jpg_gif = has_image_ext(chars.as_slice(), true);
    let png_jpg = has_image_ext(chars.as_slice(), false);
    let stem = if chars.len() >= 4 {
        slice_chars(chars.as_slice(), 0, chars.len() - 4)
    } else {
        Vec::new()
    };
    proof {
        if chars@.len() >= 4 {
            assert(stem@ =~= stem_of(name@));
        }
    }
    if png_jpg_gif && chars_equal(stem.as_slice(), "icon-128x128") {
        return (AssetKind::Icon, Some((128, 128)), MB);
    }
    if png_jpg_gif && chars_equal(stem.as_slice(), "icon-256x256") {
        return (AssetKind::Icon, Some((256, 256)), MB);
    }
    if png_jpg {
        let small = to_chars("banner-772x250");
        let large = to_chars("banner-1544x500");
        proof {
            reveal_strlit("banner-772x250");
            reveal_strlit("banner-1544x500");
        }
        if has_prefix(stem.as_slice(), small.as_slice()) {
            let tail = slice_chars(stem.as_slice(), 14, stem.len());
            proof {
                assert(tail@ =~= stem_of(name@).skip(14));
            }
            if tail.len() == 0 || chars_equal(tail.as_slice(), "-rtl") || is_locale_suffix(tail.as_slice()) {
                return (AssetKind::Banner, Some((772, 250)), 4 * MB);
            }
        }
        if has_prefix(stem.as_slice(), large.as_slice()) {
            let tail = slice_chars(stem.as_slice(), 15, stem.len());
            proof {
                assert(tail@ =~= stem_of(name@).skip(15));
            }
            if tail.len() == 0 || chars_equal(tail.as_slice(), "-rtl") || is_locale_suffix(tail.as_slice()) {
                return (AssetKind::Banner, Some((1544, 500)), 4 * MB);
            }
        }
        let shot = to_chars("screenshot-");
        proof {
            reveal_strlit("screenshot-");
        }
        if has_prefix(stem.as_slice(), shot.as_slice()) {
            let tail = slice_chars(stem.as_slice(), 11, stem.len());
            proof {
                assert(tail@ =~= stem_of(name@).skip(11));
            }
            let n = digits_at_start(tail.as_slice());
            if n >= 1 && tail[0] != '0' {
                if n == tail.len() {
                    return (AssetKind::Screenshot, None, 10 * MB);
                }
                let rest = slice_chars(tail.as_slice(), n, tail.len());
                proof {
                    assert(rest@ =~= tail@.skip(n as int));
                }
                if is_locale_suffix(rest.as_slice()) {
                    return (AssetKind::Screenshot, None, 10 * MB);
                }
            }
        }
    }
    (AssetKind::Unknown, None, 0)
}

/// How many leading bytes of a file are read for its pixel size.
pub const HEAD_BYTES: usize = 262144;

/// A big-endian 16-bit number at `i`.
pub open spec fn be16(h: Seq<u8>, i: int) -> u32 {
    (h[i] as int * 256 + h[i + 1] as int) as u32
}

/// A little-endian 16-bit number at `i`.
pub open spec fn le16(h: Seq<u8>, i: int) -> u32 {
    (h[i] as int + h[i + 1] as int * 256) as u32
}

/// A big-endian 32-bit number at `i`.
pub open spec fn be32(h: Seq<u8>, i: int) -> u32 {
    (h[i] as int * 16777216 + h[i + 1] as int * 65536 + h[i + 2] as int * 256 + h[i + 3] as int) as u32
}

/// Whether `h` starts with `prefix`.
pub open spec fn bytes_start(h: Seq<u8>, prefix: Seq<u8>) -> bool {
    h.len() >= prefix.len() && h.take(prefix.len() as int) == prefix
}

/// The PNG signature.
pub open spec fn png_signature() -> Seq<u8> {
    seq![0x89u8, 0x50u8, 0x4Eu8, 0x47u8, 0x0Du8, 0x0Au8, 0x1Au8, 0x0Au8]
}

/// Whether a JPEG marker starts a frame (SOF0–SOF15 but DHT, JPG and DAC).
pub open spec fn frame_marker(m: u8) -> bool {
    0xC0 <= m && m <= 0xCF && m != 0xC4 && m != 0xC8 && m != 0xCC
}

/// Width and height from the first JPEG frame header at or after `i`:
/// segments are skipped by their length, other bytes one at a time.
pub open spec fn jpeg_scan(h: Seq<u8>, i: int) -> Option<(u32, u32)>
    decreases (if i < h.len() {
        h.len() - i
    } else {
        0
    }),
{
    if i < 0 || i + 9 >= h.len() {
        None
    } else if h[i] != 0xFF {
        jpeg_scan(h, i + 1)
    } else if frame_marker(h[i + 1]) {
        Some((be16(h, i + 7), be16(h, i + 5)))
    } else {
        jpeg_scan(h, i + 2 + be16(h, i + 2))
    }
}

/// Width and height of a PNG, GIF or JPEG, from the first bytes of the file.
pub open spec fn image_size_spec(h: Seq<u8>) -> Option<(u32, u32)> {
    if bytes_start(h, png_signature()) {
        if h.len() >= 24 {
            Some((be32(h, 16), be32(h, 20)))
        } else {
            None
        }
    } else if bytes_start(h, seq![0x47u8, 0x49u8, 0x46u8, 0x38u8]) {
        if h.len() >= 10 {
            Some((le16(h, 6), le16(h, 8)))
        } else {
            None
        }
    } else if bytes_start(h, seq![0xFFu8, 0xD8u8]) {
        jpeg_scan(h, 2)
    } else {
        None
    }
}

fn read_be16(h: &[u8], i: usize) -> (n: u32)
    requires
        i + 1 < h@.len(),
    ensures
        n == be16(h@, i as int),
{
    (h[i] as u32) * 256 + (h[i + 1] as u32)
}

fn read_le16(h: &[u8], i: usize) -> (n: u32)
    requires
        i + 1 < h@.len(),
    ensures
        n == le16(h@, i as int),
{
    (h[i] as u32) + (h[i + 1] as u32) * 256
}

fn read_be32(h: &[u8], i: usize) -> (n: u32)
    requires
        i + 3 < h@.len(),
    ensures
        n == be32(h@, i as int),
{
    (h[i] as u32) * 16777216 + (h[i + 1] as u32) * 65536 + (h[i + 2] as u32) * 256 + (h[i + 3] as u32)
}

fn starts_with_bytes(h: &[u8], prefix: &[u8]) -> (b: bool)
    ensures
        b == bytes_start(h@, prefix@),
{
    if h.len() < prefix.len() {
        return false;
    }
    let mut i: usize = 0;
    while i < prefix.len()
        invariant
            i <= prefix@.len(),
            prefix@.len() <= h@.len(),
            forall|q: int| 0 <= q < i ==> h@[q] == prefix@[q],
        decreases prefix@.len() - i,
    {
        if h[i] != prefix[i] {
            proof {
                assert(h@.take(prefix@.len() as int)[i as int] != prefix@[i as int]);
            }
            return false;
        }
        i = i + 1;
    }
    proof {
        assert(h@.take(prefix@.len() as int) =~= prefix@);
    }
    true
}

/// Width and height of a PNG, GIF or JPEG, from the first bytes of the file
/// (at most [`HEAD_BYTES`], as many as it has).
pub fn image_size(head: &[u8]) -> (r: Option<(u32, u32)>)
    requires
        head@.len() <= HEAD_BYTES,
    ensures
        r == image_size_spec(head@),
{
    let png = [0x89u8, 0x50u8, 0x4Eu8, 0x47u8, 0x0Du8, 0x0Au8, 0x1Au8, 0x0Au8];
    let gif = [0x47u8, 0x49u8, 0x46u8, 0x38u8];
    let jpeg = [0xFFu8, 0xD8u8];
    proof {
        assert(png@ =~= png_signature());
        assert(gif@ =~= seq![0x47u8, 0x49u8, 0x46u8, 0x38u8]);
        assert(jpeg@ =~= seq![0xFFu8, 0xD8u8]);
    }
    if starts_with_bytes(head, &png) {
        if head.len() >= 24 {
            return Some((read_be32(head, 16), read_be32(head, 20)));
        }
        return None;
    }
    if starts_with_bytes(head, &gif) {
        if head.len() >= 10 {
            return Some((read_le16(head, 6), read_le16(head, 8)));
        }
        return None;
    }
    if !starts_with_bytes(head, &jpeg) {
        return None;
    }
    let mut i: usize = 2;
    while i + 9 < head.len()
        invariant
            2 <= i <= HEAD_BYTES + 65537,
            head@.len() <= HEAD_BYTES,
            image_size_spec(head@) == jpeg_scan(head@, 2),
            jpeg_scan(head@, 2) == jpeg_scan(head@, i as int),
        decreases (if i < head@.len() {
            head@.len() - i
        } else {
            0
        }),
    {
        if head[i] != 0xFF {
            i = i + 1;
        } else {
            let marker = head[i + 1];
            if 0xC0 <= marker && marker <= 0xCF && marker != 0xC4 && marker != 0xC8 && marker != 0xCC {
                proof {
                    assert(frame_marker(head@[i + 1]));
                    assert(jpeg_scan(head@, i as int) == Some((be16(head@, i + 7), be16(head@, i + 5))));
                }
                return Some((read_be16(head, i + 7), read_be16(head, i + 5)));
            }
            let length = read_be16(head, i + 2);
            i = i + 2 + length as usize;
        }
    }
    None
}

/// One file or folder in the assets folder.
pub struct AssetFile {
    /// The file name.
    pub name: String,
    /// What it is for.
    pub kind: AssetKind,
    /// Width in pixels, when it is an image SVNpush can read.
    pub width: Option<u32>,
    /// Height in pixels.
    pub height: Option<u32>,
    /// Size in bytes.
    pub bytes: u64,
    /// Why WordPress.org would not use it as intended; `None` when it is fine.
    pub problem: Option<String>,
}

/// The extension `std::path::Path::extension` gives for a file name: the
/// text after its last `.`, unless that `.` starts the name.
pub open spec fn extension_of(name: Seq<char>) -> Option<Seq<char>> {
    match last_index(name, '.') {
        Some(k) => if k > 0 {
            Some(name.skip(k + 1))
        } else {
            None
        },
        None => None,
    }
}

/// Why WordPress.org ignores an entry it does not recognise.
pub open spec fn unknown_problem_text(name: Seq<char>, is_dir: bool) -> Seq<char> {
    let low = lower(name);
    if is_dir {
        "WordPress.org ignores folders here, except blueprints/."@
    } else if low != name && classification(low, false).0 != AssetKind::Unknown {
        "Names must be lowercase: rename it to "@ + low + "."@
    } else if extension_of(name) is Some && lower(extension_of(name)->0) == "jpeg"@ {
        "Use the .jpg extension: WordPress.org does not read .jpeg."@
    } else {
        "WordPress.org ignores this file. Use a name such as icon-256x256.png, banner-772x250.png or screenshot-1.png."@
    }
}

/// Whether a name's extension is `jpeg` in any letter case.
fn has_jpeg_extension(chars: &[char]) -> (b: bool)
    ensures
        b == (extension_of(chars@) is Some && lower(extension_of(chars@)->0) == "jpeg"@),
{
    let n = chars.len();
    match last_index_of(chars, '.') {
        Some(k) => {
            if k == 0 {
                return false;
            }
            assert(k < n);
            let ext = slice_chars(chars, k + 1, n);
            proof {
                assert(ext@ =~= chars@.skip(k + 1));
            }
            let low_ext = to_lower(ext.as_slice());
            chars_equal(low_ext.as_slice(), "jpeg")
        },
        None => false,
    }
}

/// Why WordPress.org ignores an entry it does not recognise.
pub fn unknown_problem(name: &str, is_dir: bool) -> (s: String)
    ensures
        s@ == unknown_problem_text(name@, is_dir),
{
    if is_dir {
        return "WordPress.org ignores folders here, except blueprints/.".to_owned();
    }
    let chars = to_chars(name);
    let low_chars = to_lower(chars.as_slice());
    let low = from_chars(low_chars.as_slice());
    if !chars_equal(low_chars.as_slice(), name) && classify(low.as_str(), false).0 != AssetKind::Unknown {
        let mut s = "Names must be lowercase: rename it to ".to_owned();
        s.append(low.as_str());
        s.append(".");
        return s;
    }
    let jpeg = has_jpeg_extension(chars.as_slice());
    if jpeg {
        "Use the .jpg extension: WordPress.org does not read .jpeg.".to_owned()
    } else {
        "WordPress.org ignores this file. Use a name such as icon-256x256.png, banner-772x250.png or screenshot-1.png.".to_owned()
    }
}

/// Whether WordPress.org reads an entry of this kind as an image.
pub open spec fn is_image_kind(kind: AssetKind) -> bool {
    kind == AssetKind::Icon || kind == AssetKind::Banner || kind == AssetKind::Screenshot
}

/// The pixel size of an entry: read from its first bytes when it is an
/// image kind and they could be read.
pub open spec fn size_of(kind: AssetKind, head: Option<Seq<u8>>) -> Option<(u32, u32)> {
    if is_image_kind(kind) {
        match head {
            Some(h) => image_size_spec(h),
            None => None,
        }
    } else {
        None
    }
}

/// Why WordPress.org would not use an entry as intended, if it would not:
/// an unknown name; a size other than the name asks for; an image that
/// cannot be read; a file over the size limit.
pub open spec fn problem_spec(name: Seq<char>, is_dir: bool, bytes: u64, size: Option<(u32, u32)>) -> Option<Seq<char>> {
    let c = classification(name, is_dir);
    let mismatch = match (c.1, size) {
        (Some(e), Some(a)) => e != a,
        _ => false,
    };
    if c.0 == AssetKind::Unknown {
        Some(unknown_problem_text(name, is_dir))
    } else if mismatch {
        Some(
            "It is "@ + decimal((size->0).0 as nat) + "×"@ + decimal((size->0).1 as nat) + " pixels; it must be exactly "@
                + decimal((c.1->0).0 as nat) + "×"@ + decimal((c.1->0).1 as nat) + "."@,
        )
    } else if is_image_kind(c.0) && size is None {
        Some("This is not a PNG, JPG or GIF image SVNpush can read."@)
    } else if c.2 > 0 && bytes > c.2 {
        Some("It is larger than the "@ + decimal((c.2 / MB) as nat) + " MB WordPress.org allows."@)
    } else {
        None
    }
}

/// Checks one entry of the assets folder: `bytes` is its size on disk and
/// `head` its first bytes (at most [`HEAD_BYTES`]), when they could be read.
pub fn asset_file(name: &str, is_dir: bool, bytes: u64, head: Option<&[u8]>) -> (f: AssetFile)
    requires
        head matches Some(h) ==> h@.len() <= HEAD_BYTES,
    ensures
        ({
            let c = classification(name@, is_dir);
            let size = size_of(c.0, match head {
                Some(h) => Some(h@),
                None => None,
            });
            &&& f.name@ == name@
            &&& f.kind == c.0
            &&& f.bytes == (if is_dir {
                0
            } else {
                bytes
            })
            &&& f.width == (match size {
                Some(s) => Some(s.0),
                None => None,
            })
            &&& f.height == (match size {
                Some(s) => Some(s.1),
                None => None,
            })
            &&& crate::tools::opt_view(f.problem) == problem_spec(name@, is_dir, f.bytes, size)
        }),
{
    let bytes = if is_dir {
        0
    } else {
        bytes
    };
    let (kind, expected, limit) = classify(name, is_dir);
    let image = match kind {
        AssetKind::Icon | AssetKind::Banner | AssetKind::Screenshot => true,
        _ => false,
    };
    let size = if image {
        match head {
            Some(h) => image_size(h),
            None => None,
        }
    } else {
        None
    };
    let mismatch = match (expected, size) {
        (Some(e), Some(a)) => e.0 != a.0 || e.1 != a.1,
        _ => false,
    };
    let problem = if kind == AssetKind::Unknown {
        Some(unknown_problem(name, is_dir))
    } else if mismatch {
        let (w, h) = match expected {
            Some(e) => e,
            None => (0, 0),
        };
        let (aw, ah) = match size {
            Some(a) => a,
            None => (0, 0),
        };
        let mut m = "It is ".to_owned();
        m.append(decimal_string(aw as u64).as_str());
        m.append("×");
        m.append(decimal_string(ah as u64).as_str());
        m.append(" pixels; it must be exactly ");
        m.append(decimal_string(w as u64).as_str());
        m.append("×");
        m.append(decimal_string(h as u64).as_str());
        m.append(".");
        Some(m)
    } else if image && size.is_none() {
        Some("This is not a PNG, JPG or GIF image SVNpush can read.".to_owned())
    } else if limit > 0 && bytes > limit {
        let mut m = "It is larger than the ".to_owned();
        m.append(decimal_string(limit / MB).as_str());
        m.append(" MB WordPress.org allows.");
        Some(m)
    } else {
        None
    };
    let (width, height) = match size {
        Some(s) => (Some(s.0), Some(s.1)),
        None => (None, None),
    };
    AssetFile { name: name.to_owned(), kind, width, height, bytes, problem }
}

/// The assets folder, checked.
pub struct AssetReport {
    /// The folder, when the project has one.
    pub folder: Option<String>,
    /// Whether it exists.
    pub exists: bool,
    /// Every entry, sorted by name.
    pub files: Vec<AssetFile>,
    /// Recommendations: a missing icon, banner or screenshots.
    pub suggestions: Vec<String>,
}

/// The files with a problem, in order.
pub open spec fn with_problems(files: Seq<AssetFile>) -> Seq<AssetFile>
    decreases files.len(),
{
    if files.len() == 0 {
        seq![]
    } else if files.last().problem is Some {
        with_problems(files.drop_last()).push(files.last())
    } else {
        with_problems(files.drop_last())
    }
}

impl AssetReport {
    /// The files WordPress.org would not use as intended.
    pub fn problems(&self) -> (r: Vec<&AssetFile>)
        ensures
            r@.len() == with_problems(self.files@).len(),
            forall|k: int| 0 <= k < r@.len() ==> *(#[trigger] r@[k]) == with_problems(self.files@)[k],
    {
        let mut r: Vec<&AssetFile> = Vec::new();
        let mut i: usize = 0;
        while i < self.files.len()
            invariant
                i <= self.files@.len(),
                r@.len() == with_problems(self.files@.subrange(0, i as int)).len(),
                forall|k: int|
                    0 <= k < r@.len() ==> *(#[trigger] r@[k]) == with_problems(self.files@.subrange(0, i as int))[k],
            decreases self.files@.len() - i,
        {
            proof {
                let sub = self.files@.subrange(0, i + 1);
                assert(sub.drop_last() =~= self.files@.subrange(0, i as int));
                assert(sub.last() == self.files@[i as int]);
            }
            if self.files[i].problem.is_some() {
                r.push(&self.files[i]);
            }
            i = i + 1;
        }
        proof {
            assert(self.files@.subrange(0, self.files@.len() as int) =~= self.files@);
        }
        r
    }
}

/// Whether files are in ascending order of name.
pub open spec fn by_name(files: Seq<AssetFile>) -> bool {
    forall|i: int, j: int|
        0 <= i < j < files.len() ==> crate::version::precedence::text_order(
            (#[trigger] files[i]).name@,
            (#[trigger] files[j]).name@,
        ) <= 0
}

/// The files in ascending order of name.
pub fn sort_by_name(files: Vec<AssetFile>) -> (r: Vec<AssetFile>)
    ensures
        by_name(r@),
        r@.to_multiset() == files@.to_multiset(),
{
    broadcast use {vstd::seq_lib::group_to_multiset_ensures, vstd::multiset::group_multiset_axioms};

    let ghost all = files@;
    let mut rest = files;
    let mut out: Vec<AssetFile> = Vec::new();
    proof {
        assert(out@.to_multiset() =~= vstd::multiset::Multiset::empty());
    }
    while rest.len() > 0
        invariant
            by_name(out@),
            out@.to_multiset().add(rest@.to_multiset()) == all.to_multiset(),
        decreases rest@.len(),
    {
        let ghost rest_before = rest@;
        let x = rest.remove(0);
        proof {
            vstd::seq_lib::to_multiset_remove(rest_before, 0);
        }
        let mut p: usize = 0;
        while p < out.len()
            invariant
                p <= out@.len(),
                by_name(out@),
                forall|k: int| 0 <= k < p ==> crate::version::precedence::text_order(#[trigger] out@[k].name@, x.name@) <= 0,
            ensures
                p <= out@.len(),
                forall|k: int| 0 <= k < p ==> crate::version::precedence::text_order(#[trigger] out@[k].name@, x.name@) <= 0,
                p < out@.len() ==> crate::version::precedence::text_order(x.name@, out@[p as int].name@) < 0,
            decreases out@.len() - p,
        {
            if crate::sorting::compare_text(x.name.as_str(), out[p].name.as_str()) < 0 {
                break;
            }
            proof {
                crate::version::precedence::lemma_text_order(x.name@, out@[p as int].name@);
            }
            p = p + 1;
        }
        proof {
            if p < out@.len() {
                assert forall|k: int| p <= k < out@.len() implies crate::version::precedence::text_order(
                    x.name@,
                    #[trigger] out@[k].name@,
                ) < 0 by {
                    if k > p {
                        crate::version::precedence::lemma_text_order_transitive(
                            x.name@,
                            out@[p as int].name@,
                            out@[k].name@,
                        );
                    }
                }
            }
        }
        let ghost before = out@;
        let ghost moved = x;
        out.insert(p, x);
        proof {
            let s2 = out@;
            assert(s2 == before.insert(p as int, moved));
            vstd::seq_lib::to_multiset_insert(before, p as int, moved);
            assert forall|a: int, b: int| 0 <= a < b < s2.len() implies crate::version::precedence::text_order(
                (#[trigger] s2[a]).name@,
                (#[trigger] s2[b]).name@,
            ) <= 0 by {
                if b < p {
                    assert(s2[a] == before[a] && s2[b] == before[b]);
                } else if b == p {
                    assert(s2[a] == before[a]);
                } else if a == p {
                    assert(s2[b] == before[b - 1]);
                } else if a < p {
                    assert(s2[a] == before[a] && s2[b] == before[b - 1]);
                } else {
                    assert(s2[a] == before[a - 1] && s2[b] == before[b - 1]);
                }
            }
            assert(rest_before[0] == moved);
            assert(rest_before.contains(moved));
            vstd::seq_lib::to_multiset_contains(rest_before, moved);
            assert(rest@ == rest_before.remove(0));
            assert(rest@.to_multiset() == rest_before.to_multiset().remove(moved));
            assert(out@.to_multiset() == before.to_multiset().insert(moved));
            assert(out@.to_multiset().add(rest@.to_multiset()) =~= before.to_multiset().add(rest_before.to_multiset()));
        }
    }
    proof {
        assert(rest@.to_multiset() =~= vstd::multiset::Multiset::empty());
        assert(out@.to_multiset() =~= all.to_multiset());
    }
    out
}

/// Whether a usable entry of `kind` is there.
pub open spec fn usable(files: Seq<AssetFile>, kind: AssetKind) -> bool {
    exists|i: int| 0 <= i < files.len() && (#[trigger] files[i]).kind == kind && files[i].problem is None
}

/// How many `-` a name holds.
pub open spec fn dashes(name: Seq<char>) -> nat
    decreases name.len(),
{
    if name.len() == 0 {
        0
    } else {
        dashes(name.drop_last()) + if name.last() == '-' {
            1nat
        } else {
            0nat
        }
    }
}

/// Usable default-language screenshots (`screenshot-1.png`, not `screenshot-1-de.png`).
pub open spec fn default_screenshots(files: Seq<AssetFile>) -> nat
    decreases files.len(),
{
    if files.len() == 0 {
        0
    } else {
        let f = files.last();
        default_screenshots(files.drop_last()) + if f.kind == AssetKind::Screenshot && f.problem is None
            && dashes(f.name@) == 1 {
            1nat
        } else {
            0nat
        }
    }
}

/// The recommendations for a checked folder: an icon (or the PNG an SVG
/// icon needs), a banner, and one screenshot per readme caption.
pub open spec fn suggestions_spec(files: Seq<AssetFile>, captions: Option<usize>) -> Seq<Seq<char>> {
    let icon = if usable(files, AssetKind::Icon) {
        seq![]
    } else if usable(files, AssetKind::IconSvg) {
        seq!["Add icon-256x256.png as well: icon.svg needs a PNG fallback."@]
    } else {
        seq!["Add an icon: icon-256x256.png (256×256) and icon-128x128.png (128×128)."@]
    };
    let banner = if usable(files, AssetKind::Banner) {
        seq![]
    } else {
        seq!["Add a banner: banner-1544x500.png (1544×500) and banner-772x250.png (772×250)."@]
    };
    let shots = default_screenshots(files);
    let screenshots = match captions {
        Some(c) => if c != shots {
            seq![
                "readme.txt has "@ + decimal(c as nat) + " screenshot caption(s) and the folder has "@ + decimal(shots)
                    + " screenshot(s). Add one screenshot-N file per caption."@,
            ]
        } else {
            seq![]
        },
        None => seq![],
    };
    icon + banner + screenshots
}

/// Whether an entry is hidden (its name starts with `.`); hidden entries are skipped.
pub open spec fn hidden(name: Seq<char>) -> bool {
    name.len() > 0 && name[0] == '.'
}

/// The entries that are not hidden, in order.
pub open spec fn shown(files: Seq<AssetFile>) -> Seq<AssetFile>
    decreases files.len(),
{
    if files.len() == 0 {
        seq![]
    } else if hidden(files.last().name@) {
        shown(files.drop_last())
    } else {
        shown(files.drop_last()).push(files.last())
    }
}

fn has_usable(files: &Vec<AssetFile>, kind: AssetKind) -> (b: bool)
    ensures
        b == usable(files@, kind),
{
    let mut i: usize = 0;
    while i < files.len()
        invariant
            i <= files@.len(),
            forall|k: int| 0 <= k < i ==> !((#[trigger] files@[k]).kind == kind && files@[k].problem is None),
        decreases files@.len() - i,
    {
        if files[i].kind == kind && files[i].problem.is_none() {
            return true;
        }
        i = i + 1;
    }
    false
}

fn count_dashes(name: &str) -> (n: usize)
    ensures
        n == dashes(name@),
{
    let chars = to_chars(name);
    let mut n: usize = 0;
    let mut i: usize = 0;
    while i < chars.len()
        invariant
            i <= chars@.len(),
            chars@ == name@,
            n == dashes(chars@.subrange(0, i as int)),
            n <= i,
        decreases chars@.len() - i,
    {
        proof {
            let sub = chars@.subrange(0, i + 1);
            assert(sub.drop_last() =~= chars@.subrange(0, i as int));
        }
        if chars[i] == '-' {
            n = n + 1;
        }
        i = i + 1;
    }
    proof {
        assert(chars@.subrange(0, chars@.len() as int) =~= chars@);
    }
    n
}

/// Reports on the assets folder: nothing when the project has none; not
/// there when it could not be read; else its entries (hidden ones skipped,
/// sorted by name) and the recommendations.
pub fn asset_report(
    folder: Option<String>,
    exists: bool,
    entries: Vec<AssetFile>,
    captions: Option<usize>,
) -> (r: AssetReport)
    ensures
        match folder {
            None => r.folder is None && !r.exists && r.files@.len() == 0 && r.suggestions@.len() == 0,
            Some(f) => if !exists {
                r.folder == Some(f) && !r.exists && r.files@.len() == 0 && r.suggestions@.len() == 0
            } else {
                &&& r.folder == Some(f)
                &&& r.exists
                &&& by_name(r.files@)
                &&& r.files@.to_multiset() == shown(entries@).to_multiset()
                &&& crate::verify::texts(r.suggestions@) == suggestions_spec(r.files@, captions)
            },
        },
{
    match folder {
        None => {
            return AssetReport { folder: None, exists: false, files: Vec::new(), suggestions: Vec::new() };
        },
        Some(f) => {
            if !exists {
                return AssetReport { folder: Some(f), exists: false, files: Vec::new(), suggestions: Vec::new() };
            }
            let ghost all = entries@;
            let total = entries.len();
            let mut kept: Vec<AssetFile> = Vec::new();
            let mut rest = entries;
            let mut taken: usize = 0;
            while rest.len() > 0
                invariant
                    taken + rest@.len() == all.len(),
                    all.len() == total,
                    rest@ == all.subrange(taken as int, all.len() as int),
                    kept@ == shown(all.subrange(0, taken as int)),
                decreases rest@.len(),
            {
                let ghost before = rest@;
                let e = rest.remove(0);
                proof {
                    let sub = all.subrange(0, taken + 1);
                    assert(sub.drop_last() =~= all.subrange(0, taken as int));
                    assert(sub.last() == e);
                    assert(rest@ =~= all.subrange(taken + 1, all.len() as int));
                }
                let first = to_chars(e.name.as_str());
                if !(first.len() > 0 && first[0] == '.') {
                    kept.push(e);
                }
                taken = taken + 1;
            }
            proof {
                assert(all.subrange(0, all.len() as int) =~= all);
            }
            let files = sort_by_name(kept);
            let mut suggestions: Vec<String> = Vec::new();
            let ghost want = suggestions_spec(files@, captions);
            if !has_usable(&files, AssetKind::Icon) {
                if has_usable(&files, AssetKind::IconSvg) {
                    suggestions.push("Add icon-256x256.png as well: icon.svg needs a PNG fallback.".to_owned());
                } else {
                    suggestions.push(
                        "Add an icon: icon-256x256.png (256×256) and icon-128x128.png (128×128).".to_owned(),
                    );
                }
            }
            if !has_usable(&files, AssetKind::Banner) {
                suggestions.push(
                    "Add a banner: banner-1544x500.png (1544×500) and banner-772x250.png (772×250).".to_owned(),
                );
            }
            let mut shots: u64 = 0;
            let mut i: usize = 0;
            while i < files.len()
                invariant
                    i <= files@.len(),
                    shots == default_screenshots(files@.subrange(0, i as int)),
                    shots <= i,
                decreases files@.len() - i,
            {
                proof {
                    let sub = files@.subrange(0, i + 1);
                    assert(sub.drop_last() =~= files@.subrange(0, i as int));
                    assert(sub.last() == files@[i as int]);
                }
                if files[i].kind == AssetKind::Screenshot && files[i].problem.is_none() && count_dashes(
                    files[i].name.as_str(),
                ) == 1 {
                    shots = shots + 1;
                }
                i = i + 1;
            }
            proof {
                assert(files@.subrange(0, files@.len() as int) =~= files@);
            }
            match captions {
                Some(c) => {
                    if (c as u64) != shots {
                        let mut m = "readme.txt has ".to_owned();
                        m.append(decimal_string(c as u64).as_str());
                        m.append(" screenshot caption(s) and the folder has ");
                        m.append(decimal_string(shots).as_str());
                        m.append(" screenshot(s). Add one screenshot-N file per caption.");
                        suggestions.push(m);
                    }
                },
                None => {},
            }
            proof {
                assert(crate::verify::texts(suggestions@) =~= want);
            }
            AssetReport { folder: Some(f), exists: true, files, suggestions }
        },
    }
}

/// The decimal digits of the sizes asset names carry.
proof fn lemma_size_digits()
    ensures
        decimal(128) == "128"@,
        decimal(256) == "256"@,
        decimal(772) == "772"@,
        decimal(250) == "250"@,
        decimal(1544) == "1544"@,
        decimal(500) == "500"@,
{
    reveal_strlit("128");
    reveal_strlit("256");
    reveal_strlit("772");
    reveal_strlit("250");
    reveal_strlit("1544");
    reveal_strlit("500");
    reveal_with_fuel(decimal, 5);
    assert(decimal(128) =~= "128"@);
    assert(decimal(256) =~= "256"@);
    assert(decimal(772) =~= "772"@);
    assert(decimal(250) =~= "250"@);
    assert(decimal(1544) =~= "1544"@);
    assert(decimal(500) =~= "500"@);
}

/// The pixel size a file's name asks for is the `WxH` written in the name:
/// whenever a name asks for a size `(w, h)`, the name holds `w`, `x`, `h`
/// in decimal.
pub proof fn lemma_asked_size_is_written_in_the_name(name: Seq<char>, is_dir: bool)
    ensures
        classification(name, is_dir).1 matches Some((w, h)) ==> contains(
            name,
            decimal(w as nat) + "x"@ + decimal(h as nat),
        ),
{
    lemma_size_digits();
    reveal_strlit("128");
    reveal_strlit("256");
    reveal_strlit("772");
    reveal_strlit("250");
    reveal_strlit("1544");
    reveal_strlit("500");
    reveal_strlit("x");
    reveal_strlit("icon-128x128");
    reveal_strlit("icon-256x256");
    reveal_strlit("banner-772x250");
    reveal_strlit("banner-1544x500");
    if !is_dir {
        if icon_spec(name) is Some {
            if image_ext(name, true) && stem_of(name) == "icon-128x128"@ {
                assert(name.subrange(5, 12) =~= stem_of(name).subrange(5, 12));
                assert(name.subrange(5, 12) =~= decimal(128) + "x"@ + decimal(128));
                assert(crate::strings::matches_at(name, decimal(128) + "x"@ + decimal(128), 5));
            } else {
                assert(name.subrange(5, 12) =~= stem_of(name).subrange(5, 12));
                assert(name.subrange(5, 12) =~= decimal(256) + "x"@ + decimal(256));
                assert(crate::strings::matches_at(name, decimal(256) + "x"@ + decimal(256), 5));
            }
        } else if banner_spec(name) is Some {
            if image_ext(name, false) && starts_with(stem_of(name), "banner-772x250"@) && banner_tail(
                stem_of(name).skip(14),
            ) {
                assert(name.subrange(7, 14) =~= stem_of(name).take(14).subrange(7, 14));
                assert(name.subrange(7, 14) =~= decimal(772) + "x"@ + decimal(250));
                assert(crate::strings::matches_at(name, decimal(772) + "x"@ + decimal(250), 7));
            } else {
                assert(name.subrange(7, 15) =~= stem_of(name).take(15).subrange(7, 15));
                assert(name.subrange(7, 15) =~= decimal(1544) + "x"@ + decimal(500));
                assert(crate::strings::matches_at(name, decimal(1544) + "x"@ + decimal(500), 7));
            }
        }
    }
}

/// The icon names `icon-128x128` and `icon-256x256` as PNG, JPG or GIF, and
/// the banner names `banner-772x250` and `banner-1544x500` as PNG or JPG,
/// bare or right-to-left, are the icon and banner of those sizes, with the
/// handbook's byte limits (1 MiB for icons, 4 MiB for banners).
pub proof fn lemma_icon_and_banner_names(ext: Seq<char>, rtl: bool)
    ensures
        (ext == ".png"@ || ext == ".jpg"@ || ext == ".gif"@) ==> classification("icon-128x128"@ + ext, false) == (
        AssetKind::Icon, Some((128u32, 128u32)), MB),
        (ext == ".png"@ || ext == ".jpg"@ || ext == ".gif"@) ==> classification("icon-256x256"@ + ext, false) == (
        AssetKind::Icon, Some((256u32, 256u32)), MB),
        (ext == ".png"@ || ext == ".jpg"@) ==> classification(
            "banner-772x250"@ + (if rtl { "-rtl"@ } else { Seq::empty() }) + ext,
            false,
        ) == (AssetKind::Banner, Some((772u32, 250u32)), 4194304u64),
        (ext == ".png"@ || ext == ".jpg"@) ==> classification(
            "banner-1544x500"@ + (if rtl { "-rtl"@ } else { Seq::empty() }) + ext,
            false,
        ) == (AssetKind::Banner, Some((1544u32, 500u32)), 4194304u64),
{
    reveal_strlit(".png");
    reveal_strlit(".jpg");
    reveal_strlit(".gif");
    reveal_strlit("icon.svg");
    reveal_strlit("icon-128x128");
    reveal_strlit("icon-256x256");
    reveal_strlit("banner-772x250");
    reveal_strlit("banner-1544x500");
    reveal_strlit("-rtl");
    if ext == ".png"@ || ext == ".jpg"@ || ext == ".gif"@ {
        let a = "icon-128x128"@ + ext;
        let b = "icon-256x256"@ + ext;
        assert(stem_of(a) =~= "icon-128x128"@);
        assert(ext_of(a) =~= ext);
        assert(stem_of(b) =~= "icon-256x256"@);
        assert(ext_of(b) =~= ext);
        assert(a != "icon.svg"@ && b != "icon.svg"@) by {
            assert(a.len() != "icon.svg"@.len());
            assert(b.len() != "icon.svg"@.len());
        }
        assert("icon-256x256"@ != "icon-128x128"@) by {
            assert("icon-256x256"@[5] != "icon-128x128"@[5]);
        }
    }
    if ext == ".png"@ || ext == ".jpg"@ {
        let t: Seq<char> = if rtl { "-rtl"@ } else { Seq::empty() };
        assert(t == Seq::<char>::empty() || t == "-rtl"@);
        let a = "banner-772x250"@ + t + ext;
        let b = "banner-1544x500"@ + t + ext;
        assert(stem_of(a) =~= "banner-772x250"@ + t);
        assert(ext_of(a) =~= ext);
        assert(stem_of(b) =~= "banner-1544x500"@ + t);
        assert(ext_of(b) =~= ext);
        assert(stem_of(a).take(14) =~= "banner-772x250"@);
        assert(stem_of(a).skip(14) =~= t);
        assert(stem_of(b).take(15) =~= "banner-1544x500"@);
        assert(stem_of(b).skip(15) =~= t);
        assert(banner_tail(t));
        assert(a != "icon.svg"@ && b != "icon.svg"@) by {
            assert(a.len() != "icon.svg"@.len());
            assert(b.len() != "icon.svg"@.len());
        }
        assert(stem_of(a) != "icon-128x128"@ && stem_of(a) != "icon-256x256"@) by {
            assert(stem_of(a).len() != 12);
        }
        assert(stem_of(b) != "icon-128x128"@ && stem_of(b) != "icon-256x256"@) by {
            assert(stem_of(b).len() != 12);
        }
        assert(icon_spec(a) is None);
        assert(icon_spec(b) is None);
        assert(!starts_with(stem_of(b), "banner-772x250"@)) by {
            assert(stem_of(b).take(14)[7] != "banner-772x250"@[7]);
        }
    }
}

/// An icon or banner whose pixel size is the size its name asks for, and
/// whose file is within the byte limit, has no problem; one of any other
/// size has one; so does a file WordPress.org ignores.
pub proof fn lemma_asked_size_decides_the_problem(name: Seq<char>, is_dir: bool, bytes: u64, size: Option<(u32, u32)>)
    ensures
        (classification(name, is_dir).1 matches Some(e) && size == Some(e) && bytes <= classification(name, is_dir).2)
            ==> problem_spec(name, is_dir, bytes, size) is None,
        (classification(name, is_dir).1 matches Some(e) && size matches Some(a) && a != e) ==> problem_spec(
            name,
            is_dir,
            bytes,
            size,
        ) is Some,
        classification(name, is_dir).0 == AssetKind::Unknown ==> problem_spec(name, is_dir, bytes, size) is Some,
{
}

proof fn lemma_digit_run_of_digits(d: Seq<char>)
    requires
        all_digits(d),
    ensures
        digit_run(d) == d.len(),
    decreases d.len(),
{
    if d.len() > 0 {
        assert(is_digit(d[0]));
        lemma_digit_run_of_digits(d.skip(1));
    }
}

/// `screenshot-N` as PNG or JPG, for any number N written without a leading
/// zero, is a screenshot, with the 10 MiB limit.
pub proof fn lemma_screenshot_names(number: Seq<char>, ext: Seq<char>)
    requires
        number.len() > 0,
        all_digits(number),
        number[0] != '0',
        ext == ".png"@ || ext == ".jpg"@,
    ensures
        classification("screenshot-"@ + number + ext, false) == (AssetKind::Screenshot, None::<(u32, u32)>, 10485760u64),
{
    reveal_strlit(".png");
    reveal_strlit(".jpg");
    reveal_strlit(".gif");
    reveal_strlit("screenshot-");
    reveal_strlit("icon.svg");
    reveal_strlit("icon-128x128");
    reveal_strlit("icon-256x256");
    reveal_strlit("banner-772x250");
    reveal_strlit("banner-1544x500");
    let name = "screenshot-"@ + number + ext;
    let stem = "screenshot-"@ + number;
    assert(stem_of(name) =~= stem);
    assert(ext_of(name) =~= ext);
    assert(name != "icon.svg"@) by {
        assert(name[0] != "icon.svg"@[0]);
    }
    assert(stem != "icon-128x128"@ && stem != "icon-256x256"@) by {
        assert(stem[0] != "icon-128x128"@[0]);
    }
    assert(icon_spec(name) is None);
    assert(!starts_with(stem, "banner-772x250"@)) by {
        if stem.len() >= 14 {
            assert(stem.take(14)[0] != "banner-772x250"@[0]);
        }
    }
    assert(!starts_with(stem, "banner-1544x500"@)) by {
        if stem.len() >= 15 {
            assert(stem.take(15)[0] != "banner-1544x500"@[0]);
        }
    }
    assert(banner_spec(name) is None);
    assert(stem.take(11) =~= "screenshot-"@);
    assert(stem.skip(11) =~= number);
    lemma_digit_run_of_digits(number);
    assert(screenshot_tail(number));
    assert(screenshot_spec(name));
}

} // verus!
