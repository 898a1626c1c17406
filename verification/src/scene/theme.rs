//! Cursor themes: which image of a cursor file is used, and how.
use crate::protocol::wire_utils::{as_signed, le32};
use crate::state::compositor_state::cursor_view;
use crate::state::types::{DefaultCursor, DefaultCursorView};
use vstd::prelude::*;
use vstd::string::*;

verus! {

/// The names the ordinary pointer goes by - the cursor shown when no client has
/// asked for anything else. The same two the `default` shape uses.
pub const DEFAULT_CURSOR_NAMES: [&'static str; 2] = ["default", "left_ptr"];

/// The cursor size asked for where nothing else is.
pub const DEFAULT_CURSOR_SIZE: u32 = 24;

/// One image of a cursor file.
pub struct CursorImage {
    /// The nominal size
    pub size: u32,
    pub width: u32,
    pub height: u32,
    pub xhot: u32,
    pub yhot: u32,
    /// The pixels' bytes, in the order of the file
    pub pixels: Vec<u8>,
}

/// What is known of an image.
#[verifier::ext_equal]
pub struct CursorImageView {
    pub size: u32,
    pub width: u32,
    pub height: u32,
    pub xhot: u32,
    pub yhot: u32,
    pub pixels: Seq<u8>,
}

impl View for CursorImage {
    type V = CursorImageView;

    open spec fn view(&self) -> CursorImageView {
        CursorImageView {
            size: self.size,
            width: self.width,
            height: self.height,
            xhot: self.xhot,
            yhot: self.yhot,
            pixels: self.pixels@,
        }
    }
}

/// What is known of images.
pub open spec fn images_view(v: Seq<CursorImage>) -> Seq<CursorImageView> {
    v.map_values(|i: CursorImage| i@)
}

/// What is known of the images of a file, if it is one.
pub open spec fn file_view(v: Option<Vec<CursorImage>>) -> Option<Seq<CursorImageView>> {
    match v {
        Some(v) => Some(images_view(v@)),
        None => None,
    }
}

/// The images of a cursor file, or nothing if the bytes are not one.
pub uninterp spec fn xcursor_images(content: Seq<u8>) -> Option<Seq<CursorImageView>>;

/// Whether an image has pixels, as many as its size says, and its hotspot in
/// it.
pub open spec fn well_formed(i: CursorImageView) -> bool {
    &&& 1 <= i.width <= 0x7fff
    &&& 1 <= i.height <= 0x7fff
    &&& i.xhot <= i.width
    &&& i.yhot <= i.height
    &&& i.pixels.len() == 4 * i.width * i.height
}

/// Calls `xcursor::parser::parse_xcursor`. It reads the whole file or nothing,
/// and what it reads depends on the bytes alone. Every image it hands out has
/// passed its checks: neither side is zero or over 0x7fff, the hotspot is no
/// further than the far sides, and the pixels are four bytes each.
#[verifier::external_body]
fn parse_xcursor(content: &[u8]) -> (r: Option<Vec<CursorImage>>)
    ensures
        file_view(r) == xcursor_images(content@),
        match r {
            Some(v) => forall|i: int| 0 <= i < v@.len() ==> well_formed((#[trigger] v@[i])@),
            None => true,
        },
{
    let images = xcursor::parser::parse_xcursor(content)?;
    Some(
        images.into_iter().map(
            |i| CursorImage {
                size: i.size,
                width: i.width,
                height: i.height,
                xhot: i.xhot,
                yhot: i.yhot,
                pixels: i.pixels_rgba,
            },
        ).collect(),
    )
}

/// How far a size is from the one asked for.
pub open spec fn distance(size: u32, target: u32) -> int {
    let d = as_signed(size) - as_signed(target);
    if d < 0 {
        -d
    } else {
        d
    }
}

/// Which of the first few images is nearest in size to the one asked for; the
/// first of those as near as each other.
pub open spec fn nearest(images: Seq<CursorImageView>, target: u32, n: nat) -> int
    decreases n,
{
    if n <= 1 {
        0
    } else {
        let before = nearest(images, target, (n - 1) as nat);
        if distance(images[n - 1].size, target) < distance(images[before].size, target) {
            n - 1
        } else {
            before
        }
    }
}

/// The words of some bytes; what does not fill a word is left out.
pub open spec fn words(bytes: Seq<u8>) -> Seq<u32> {
    Seq::new((bytes.len() / 4) as nat, |i: int| le32(bytes, 4 * i))
}

/// The cursor an image makes.
pub open spec fn cursor_of(i: CursorImageView) -> DefaultCursorView {
    DefaultCursorView {
        pixels: words(i.pixels),
        width: as_signed(i.width),
        height: as_signed(i.height),
        hotspot_x: as_signed(i.xhot),
        hotspot_y: as_signed(i.yhot),
    }
}

/// The cursor some images make: the one nearest in size.
pub open spec fn picked(images: Seq<CursorImageView>, target: u32) -> Option<DefaultCursorView> {
    if images.len() == 0 {
        None
    } else {
        Some(cursor_of(images[nearest(images, target, images.len())]))
    }
}

/// The cursor a file makes.
pub open spec fn cursor_in(content: Seq<u8>, target: u32) -> Option<DefaultCursorView> {
    match xcursor_images(content) {
        Some(images) => picked(images, target),
        None => None,
    }
}

fn signed(n: u32) -> (r: i64)
    ensures
        r == as_signed(n),
        i32::MIN <= r <= i32::MAX,
{
    if n <= 0x7fff_ffff {
        n as i64
    } else {
        n as i64 - 0x1_0000_0000
    }
}

fn distance_of(size: u32, target: u32) -> (r: i64)
    ensures
        r == distance(size, target),
{
    let d: i64 = signed(size) - signed(target);
    if d < 0 {
        -d
    } else {
        d
    }
}

fn words_of(bytes: &Vec<u8>) -> (r: Vec<u32>)
    ensures
        r@ == words(bytes@),
{
    let mut r: Vec<u32> = Vec::new();
    let n: usize = bytes.len() / 4;
    let mut i: usize = 0;
    proof {
        assert(r@ =~= words(bytes@).take(0));
    }
    while i < n
        invariant
            i <= n,
            n == bytes@.len() / 4,
            4 * n <= usize::MAX,
            r@ == words(bytes@).take(i as int),
        decreases n - i,
    {
        let at: usize = 4 * i;
        let w: u32 = bytes[at] as u32 + 256 * (bytes[at + 1] as u32) + 65536 * (bytes[at + 2] as u32) + 16777216 * (
        bytes[at + 3] as u32);
        proof {
            assert(w == le32(bytes@, 4 * i as int));
        }
        r.push(w);
        i += 1;
        proof {
            assert(r@ =~= words(bytes@).take(i as int));
        }
    }
    proof {
        assert(words(bytes@).take(n as int) =~= words(bytes@));
    }
    r
}

/// The nearest image is one of those there are, none is nearer, and none before
/// it is as near.
pub proof fn lemma_nearest(images: Seq<CursorImageView>, target: u32, n: nat)
    requires
        1 <= n <= images.len(),
    ensures
        0 <= nearest(images, target, n) < n,
        forall|j: int|
            0 <= j < n ==> distance(images[nearest(images, target, n)].size, target) <= distance(
                (#[trigger] images[j]).size,
                target,
            ),
        forall|j: int|
            0 <= j < nearest(images, target, n) ==> distance(images[nearest(images, target, n)].size, target)
                < distance((#[trigger] images[j]).size, target),
    decreases n,
{
    if n > 1 {
        lemma_nearest(images, target, (n - 1) as nat);
    }
}

/// Make a cursor of the image nearest in size to the one asked for.
pub fn pick_cursor(images: &Vec<CursorImage>, target_size: u32) -> (r: Option<DefaultCursor>)
    ensures
        cursor_view(r) == picked(images_view(images@), target_size),
{
    if images.len() == 0 {
        return None;
    }
    let ghost all = images_view(images@);
    let mut best: usize = 0;
    let mut i: usize = 1;
    while i < images.len()
        invariant
            1 <= i <= images@.len(),
            all == images_view(images@),
            best < i,
            best == nearest(all, target_size, i as nat),
        decreases images@.len() - i,
    {
        proof {
            assert(all[i as int] == images@[i as int]@);
            assert(all[best as int] == images@[best as int]@);
        }
        if distance_of(images[i].size, target_size) < distance_of(images[best].size, target_size) {
            best = i;
        }
        i += 1;
    }
    let image = &images[best];
    proof {
        assert(all[best as int] == image@);
    }
    Some(
        DefaultCursor {
            pixels: words_of(&image.pixels),
            width: signed(image.width) as i32,
            height: signed(image.height) as i32,
            hotspot_x: signed(image.xhot) as i32,
            hotspot_y: signed(image.yhot) as i32,
        },
    )
}

/// Make a cursor of a cursor file's contents. `None` if they are not one, or
/// hold no image. A cursor it makes has as many pixels as its size says.
pub fn read_cursor(content: &[u8], target_size: u32) -> (r: Option<DefaultCursor>)
    ensures
        cursor_view(r) == cursor_in(content@, target_size),
        match r {
            Some(c) => 1 <= c.width <= 0x7fff && 1 <= c.height <= 0x7fff && c.pixels@.len() == c.width * c.height && 0
                <= c.hotspot_x <= c.width && 0 <= c.hotspot_y <= c.height,
            None => true,
        },
{
    match parse_xcursor(content) {
        Some(images) => {
            proof {
                let all = images_view(images@);
                if all.len() > 0 {
                    lemma_nearest(all, target_size, all.len());
                    let i = nearest(all, target_size, all.len());
                    assert(all[i] == images@[i]@);
                    assert(well_formed(images@[i]@));
                    let (w, h) = (all[i].width as int, all[i].height as int);
                    assert((4 * w * h) / 4 == w * h) by (nonlinear_arith);
                }
            }
            pick_cursor(&images, target_size)
        },
        None => None,
    }
}

/// The value of a decimal digit.
pub open spec fn digit_value(c: char) -> int {
    c as u32 - '0' as u32
}

/// Whether a text is all decimal digits.
pub open spec fn all_digits(s: Seq<char>) -> bool {
    forall|i: int| 0 <= i < s.len() ==> '0' <= #[trigger] s[i] <= '9'
}

/// The value of decimal digits.
pub open spec fn digits_value(s: Seq<char>) -> int
    decreases s.len(),
{
    if s.len() == 0 {
        0
    } else {
        10 * digits_value(s.drop_last()) + digit_value(s.last())
    }
}

/// A text without a plus sign in front.
pub open spec fn unsigned_part(s: Seq<char>) -> Seq<char> {
    if s.len() > 0 && s[0] == '+' {
        s.subrange(1, s.len() as int)
    } else {
        s
    }
}

/// The number a text stands for: decimal digits, at least one, a plus sign in
/// front or not, and no more than fits.
pub open spec fn number_in(s: Seq<char>) -> Option<u32> {
    let digits = unsigned_part(s);
    if digits.len() > 0 && all_digits(digits) && digits_value(digits) <= u32::MAX {
        Some(digits_value(digits) as u32)
    } else {
        None
    }
}

proof fn lemma_value_grows(s: Seq<char>, n: int)
    requires
        all_digits(s),
        0 <= n <= s.len(),
    ensures
        0 <= digits_value(s.take(n)) <= digits_value(s),
    decreases s.len(),
{
    if n < s.len() {
        assert(s.drop_last().take(n) =~= s.take(n));
        assert(all_digits(s.drop_last())) by {
            assert forall|i: int| 0 <= i < s.len() - 1 implies '0' <= #[trigger] s.drop_last()[i] <= '9' by {
                assert(s[i] == s.drop_last()[i]);
            }
        }
        lemma_value_grows(s.drop_last(), n);
        assert('0' <= s[s.len() - 1]);
    } else {
        assert(s.take(n) =~= s);
        if s.len() > 0 {
            assert(all_digits(s.drop_last())) by {
                assert forall|i: int| 0 <= i < s.len() - 1 implies '0' <= #[trigger] s.drop_last()[i] <= '9' by {
                    assert(s[i] == s.drop_last()[i]);
                }
            }
            assert(s.drop_last().take(s.len() - 1) =~= s.drop_last());
            lemma_value_grows(s.drop_last(), s.len() - 1);
            assert('0' <= s[s.len() - 1]);
        }
    }
}

fn parse_number(s: &str) -> (r: Option<u32>)
    ensures
        r == number_in(s@),
{
    let n: usize = s.unicode_len();
    let start: usize = if n > 0 && s.get_char(0) == '+' {
        1
    } else {
        0
    };
    let ghost digits = unsigned_part(s@);
    proof {
        assert(s@.subrange(0, n as int) =~= s@);
        assert(digits =~= s@.subrange(start as int, n as int));
    }
    if start >= n {
        return None;
    }
    let mut value: u64 = 0;
    let mut i: usize = start;
    while i < n
        invariant
            start <= i <= n,
            start < n,
            n == s@.len(),
            digits == s@.subrange(start as int, n as int),
            digits == unsigned_part(s@),
            value <= u32::MAX,
            value == digits_value(digits.take(i - start)),
            forall|j: int| 0 <= j < i - start ==> '0' <= #[trigger] digits[j] <= '9',
        decreases n - i,
    {
        let c = s.get_char(i);
        proof {
            assert(digits[i - start] == c);
            assert(digits.take(i - start + 1).drop_last() =~= digits.take(i - start));
        }
        if c < '0' || c > '9' {
            return None;
        }
        value = 10 * value + (c as u32 - '0' as u32) as u64;
        i += 1;
        if value > u32::MAX as u64 {
            proof {
                if all_digits(digits) {
                    lemma_value_grows(digits, i - start);
                }
            }
            return None;
        }
    }
    proof {
        assert(digits.take(n - start) =~= digits);
    }
    Some(value as u32)
}

/// The cursor size the environment asks for, from the text that says so.
///
/// `XCURSOR_SIZE` is read by every toolkit, so a compositor that went by
/// something else would be the one thing on the desktop showing a different
/// cursor.
pub fn cursor_size(text: Option<&str>) -> (r: u32)
    ensures
        r == match text {
            Some(s) => match number_in(s@) {
                Some(n) => n,
                None => DEFAULT_CURSOR_SIZE,
            },
            None => DEFAULT_CURSOR_SIZE,
        },
{
    match text {
        Some(s) => match parse_number(s) {
            Some(n) => n,
            None => DEFAULT_CURSOR_SIZE,
        },
        None => DEFAULT_CURSOR_SIZE,
    }
}

} // verus!
