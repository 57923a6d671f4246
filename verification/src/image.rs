//! Icon images: decoding, the pixels of a device bitmap, and scaling down.
use vstd::prelude::*;

use crate::color;
use crate::color::Pixel;
use crate::text;

verus! {

/// An image, row by row from the top.
pub struct IconImage {
    pub width: usize,
    pub height: usize,
    pub pixels: Vec<Pixel>,
}

impl IconImage {
    /// There is a pixel for every place.
    pub open spec fn wf(self) -> bool {
        self.pixels@.len() == self.width * self.height
    }
}

/// A decoded image: four bytes for each pixel, red, green, blue and alpha.
pub struct RawImage {
    pub width: u32,
    pub height: u32,
    pub rgba: Vec<u8>,
}

/// What `eframe::icon_data::from_png_bytes` makes of a file: nothing, where
/// it cannot decode it, or else the width, the height and the bytes.
pub uninterp spec fn png_decoded(file: Seq<u8>) -> Option<(u32, u32, Seq<u8>)>;

/// Decodes a PNG file with `eframe::icon_data::from_png_bytes`. What the
/// picture in a file is goes by the name `png_decoded`; of a decoded picture
/// it is stated that four bytes stand for each of its pixels.
#[verifier::external_body]
fn decode_png(file: &Vec<u8>) -> (r: Option<RawImage>)
    ensures
        match r {
            Some(i) => png_decoded(file@) == Some((i.width, i.height, i.rgba@)),
            None => png_decoded(file@) is None,
        },
        r matches Some(i) ==> i.rgba@.len() == i.width * i.height * 4,
{
    match eframe::icon_data::from_png_bytes(file) {
        Ok(icon) => Some(RawImage { width: icon.width, height: icon.height, rgba: icon.rgba }),
        Err(_) => None,
    }
}

/// The pixels of bytes that stand four by four for red, green, blue and
/// alpha.
pub open spec fn pixels_of(rgba: Seq<u8>) -> Seq<Pixel> {
    Seq::new(
        rgba.len() / 4,
        |i: int|
            color::premultiplied(rgba[4 * i], rgba[4 * i + 1], rgba[4 * i + 2], rgba[4 * i + 3]),
    )
}

/// The pixels of an image, multiplied by their alpha as egui's
/// `ColorImage::from_rgba_unmultiplied` does it: each group of four bytes
/// becomes one pixel, in order. That function panics unless the bytes are
/// four times the pixels.
#[verifier::external_body]
fn to_pixels(width: usize, height: usize, rgba: &Vec<u8>) -> (r: Vec<Pixel>)
    requires
        width * height * 4 == rgba@.len(),
    ensures
        r@ == pixels_of(rgba@),
{
    let image = eframe::egui::ColorImage::from_rgba_unmultiplied([width, height], rgba);
    image.pixels.iter().map(|c| Pixel { r: c.r(), g: c.g(), b: c.b(), a: c.a() }).collect()
}

/// The image that bytes stand for.
pub fn image_from_rgba(width: usize, height: usize, rgba: &Vec<u8>) -> (r: IconImage)
    requires
        width * height * 4 == rgba@.len(),
    ensures
        r.wf(),
        r.width == width,
        r.height == height,
        r.pixels@ == pixels_of(rgba@),
{
    assert(rgba@.len() / 4 == width * height);
    IconImage { width, height, pixels: to_pixels(width, height, rgba) }
}

/// A path that ends in `.png`, in either case.
pub open spec fn names_png(path: Seq<char>) -> bool {
    text::finishes_with(text::lowered(path), ".png"@)
}

/// Whether the icon is a file of its own. Else it is taken out of a program.
pub fn is_png_path(path: &str) -> (r: bool)
    ensures
        r == names_png(path@),
{
    let low: String = text::to_ascii_lower(path);
    text::ends_with(low.as_str(), ".png")
}

/// The image in a PNG file, if it can be decoded.
pub fn load_png(file: &Vec<u8>) -> (r: Option<IconImage>)
    ensures
        match png_decoded(file@) {
            None => r is None,
            Some((width, height, rgba)) => r matches Some(i) && i.wf() && i.width == width
                && i.height == height && i.pixels@ == pixels_of(rgba),
        },
{
    match decode_png(file) {
        Some(raw) => Some(
            image_from_rgba(raw.width as usize, raw.height as usize, &raw.rgba),
        ),
        None => None,
    }
}

/// The icon at `path`: the decoded `file` where the path names a PNG, and
/// else the icon taken out of the program.
pub fn load_icon_image(path: &str, file: &Option<Vec<u8>>, in_program: Option<IconImage>) -> (r:
    Option<IconImage>)
    ensures
        !names_png(path@) ==> r == in_program,
        names_png(path@) ==> match *file {
            None => r is None,
            Some(f) => match png_decoded(f@) {
                None => r is None,
                Some((width, height, rgba)) => r matches Some(i) && i.wf() && i.width == width
                    && i.height == height && i.pixels@ == pixels_of(rgba),
            },
        },
{
    if is_png_path(path) {
        return match file {
            Some(f) => load_png(f),
            None => None,
        };
    }
    in_program
}

// ---- device bitmaps ----

/// Some pixel of the bitmap has an alpha.
pub open spec fn any_alpha(bgra: Seq<u8>) -> bool {
    exists|k: int| 0 <= k < bgra.len() / 4 && #[trigger] bgra[4 * k + 3] != 0
}

/// Byte `i` of the bitmap with blue and red exchanged. Where no pixel has an
/// alpha, every pixel is opaque. Bytes behind the last whole pixel stay.
pub open spec fn rgba_byte(bgra: Seq<u8>, i: int) -> u8 {
    if i >= bgra.len() / 4 * 4 {
        bgra[i]
    } else if i % 4 == 0 {
        bgra[i + 2]
    } else if i % 4 == 1 {
        bgra[i]
    } else if i % 4 == 2 {
        bgra[i - 2]
    } else if any_alpha(bgra) {
        bgra[i]
    } else {
        255
    }
}

/// The bytes of a bitmap, red first.
pub open spec fn rgba_bytes(bgra: Seq<u8>) -> Seq<u8> {
    Seq::new(bgra.len(), |i: int| rgba_byte(bgra, i))
}

/// Turns the blue-first bytes of a device bitmap into red-first ones. A
/// bitmap without any alpha, as old icons are, becomes opaque.
pub fn bgra_to_rgba(buf: &mut Vec<u8>)
    ensures
        final(buf)@ == rgba_bytes(old(buf)@),
{
    let ghost start = buf@;
    let n: usize = buf.len() / 4;
    let mut alpha: bool = false;
    let mut k: usize = 0;
    while k < n
        invariant
            k <= n,
            n == start.len() / 4,
            buf@.len() == start.len(),
            start.len() <= usize::MAX,
            forall|i: int|
                0 <= i < start.len() ==> #[trigger] buf@[i] == (if i >= 4 * k {
                    start[i]
                } else if i % 4 == 0 {
                    start[i + 2]
                } else if i % 4 == 2 {
                    start[i - 2]
                } else {
                    start[i]
                }),
            alpha == exists|j: int| 0 <= j < k && #[trigger] start[4 * j + 3] != 0,
        decreases n - k,
    {
        let at: usize = 4 * k;
        let blue: u8 = buf[at];
        let red: u8 = buf[at + 2];
        buf.set(at, red);
        buf.set(at + 2, blue);
        let has: bool = buf[at + 3] != 0;
        proof {
            assert(start[4 * k as int + 3] == buf@[at + 3]);
            if has {
                assert(start[4 * k as int + 3] != 0);
            }
            let before = alpha;
            if before {
                let j = choose|j: int| 0 <= j < k && #[trigger] start[4 * j + 3] != 0;
                assert(0 <= j < k + 1 && start[4 * j + 3] != 0);
            }
        }
        if has {
            alpha = true;
        }
        k = k + 1;
    }
    assert(alpha == any_alpha(start));
    if !alpha {
        let mut m: usize = 0;
        let ghost swapped = buf@;
        while m < n
            invariant
                m <= n,
                n == start.len() / 4,
                buf@.len() == start.len(),
                swapped.len() == start.len(),
                start.len() <= usize::MAX,
                forall|i: int|
                    0 <= i < start.len() ==> #[trigger] buf@[i] == (if i < 4 * m && i % 4 == 3 {
                        255
                    } else {
                        swapped[i]
                    }),
            decreases n - m,
        {
            buf.set(4 * m + 3, 255);
            m = m + 1;
        }
    }
    assert(buf@ =~= rgba_bytes(start));
}

/// The bytes of a device bitmap.
pub fn bitmap_size(width: i32, height: i32) -> (r: usize)
    requires
        0 <= width,
        0 <= height,
        width * height * 4 <= i32::MAX,
    ensures
        r == width * height * 4,
{
    assert(0 <= width * height) by (nonlinear_arith)
        requires
            0 <= width,
            0 <= height,
    ;
    (width * height * 4) as usize
}

/// The image of a device bitmap.
pub fn image_from_bitmap(width: i32, height: i32, bgra: Vec<u8>) -> (r: IconImage)
    requires
        0 <= width,
        0 <= height,
        width * height * 4 == bgra@.len(),
    ensures
        r.wf(),
        r.width == width,
        r.height == height,
        r.pixels@ == pixels_of(rgba_bytes(bgra@)),
{
    let mut buf: Vec<u8> = bgra;
    bgra_to_rgba(&mut buf);
    image_from_rgba(width as usize, height as usize, &buf)
}

// ---- scaling down ----

/// A rectangle of pixels: the columns `x0..x1` of the rows `y0..y1`.
#[derive(Clone, Copy, Debug, PartialEq, Eq, Structural)]
pub struct SourceRect {
    pub x0: usize,
    pub x1: usize,
    pub y0: usize,
    pub y1: usize,
}

/// Where the part of `size` source pixels begins that place `t` of `target`
/// covers.
pub open spec fn span_start(t: int, size: int, target: int) -> int {
    t * size / target
}

/// Where that part ends: at the beginning of the next one, but not before one
/// pixel and not behind the last.
pub open spec fn span_end(t: int, size: int, target: int) -> int {
    let next = (t + 1) * size / target;
    let one = span_start(t, size, target) + 1;
    let end = if next < one {
        one
    } else {
        next
    };
    if end < size {
        end
    } else {
        size
    }
}

/// The source pixels that pixel `i` of the scaled image covers.
pub open spec fn covered(i: int, width: int, height: int, target: int) -> SourceRect {
    SourceRect {
        x0: span_start(i % target, width, target) as usize,
        x1: span_end(i % target, width, target) as usize,
        y0: span_start(i / target, height, target) as usize,
        y1: span_end(i / target, height, target) as usize,
    }
}

/// An image that is small enough stays as it is.
pub open spec fn fits(width: usize, height: usize, target: usize) -> bool {
    width <= target && height <= target
}

/// The bounds of a span: it lies within the source.
proof fn lemma_span_bounds(t: int, size: int, target: int)
    requires
        0 <= t < target,
        0 <= size,
    ensures
        0 <= span_start(t, size, target) <= span_end(t, size, target) <= size,
        0 <= t * size,
        0 <= (t + 1) * size <= target * size,
        (t + 1) * size / target <= size,
        size > 0 ==> span_start(t, size, target) < span_end(t, size, target),
{
    assert(0 <= t * size) by (nonlinear_arith)
        requires
            0 <= t,
            0 <= size,
    ;
    assert(t * size + size == (t + 1) * size) by (nonlinear_arith);
    assert((t + 1) * size <= target * size) by (nonlinear_arith)
        requires
            t + 1 <= target,
            0 <= size,
    ;
    vstd::arithmetic::div_mod::lemma_div_is_ordered((t + 1) * size, target * size, target);
    vstd::arithmetic::div_mod::lemma_div_multiples_vanish(size, target);
    vstd::arithmetic::mul::lemma_mul_is_commutative(target, size);
    vstd::arithmetic::div_mod::lemma_div_is_ordered(0, t * size, target);
    vstd::arithmetic::div_mod::lemma_div_is_ordered(t * size, (t + 1) * size, target);
    assert(span_start(t, size, target) < size || size == 0) by {
        if size > 0 {
            assert(t * size < target * size) by (nonlinear_arith)
                requires
                    t < target,
                    0 < size,
            ;
            vstd::arithmetic::div_mod::lemma_fundamental_div_mod(t * size, target);
            let q = t * size / target;
            assert(q < size) by (nonlinear_arith)
                requires
                    target * q <= t * size,
                    t * size < target * size,
                    0 < target,
            ;
        }
    }
}

/// The part of `size` source pixels that place `t` of `target` covers.
fn span(t: usize, size: usize, target: usize) -> (r: (usize, usize))
    requires
        t < target,
        target * size <= usize::MAX,
    ensures
        r.0 == span_start(t as int, size as int, target as int),
        r.1 == span_end(t as int, size as int, target as int),
        r.0 <= r.1 <= size,
{
    proof {
        lemma_span_bounds(t as int, size as int, target as int);
        assert(t * size <= (t + 1) * size) by (nonlinear_arith)
            requires
                0 <= size,
        ;
    }
    let start: usize = t * size / target;
    let next: usize = (t + 1) * size / target;
    if size == 0 {
        return (start, 0);
    }
    let one: usize = start + 1;
    let end: usize = if next < one {
        one
    } else {
        next
    };
    let last: usize = if end < size {
        end
    } else {
        size
    };
    (start, last)
}

/// How an image is scaled down to a square with sides of `target`: for each
/// pixel of the square, row by row, the source pixels to average. An image
/// that fits is not scaled.
pub fn downscale_plan(width: usize, height: usize, target: usize) -> (r: Option<Vec<SourceRect>>)
    requires
        !fits(width, height, target) ==> target * width <= usize::MAX,
        !fits(width, height, target) ==> target * height <= usize::MAX,
        !fits(width, height, target) ==> target * target <= usize::MAX,
    ensures
        fits(width, height, target) <==> r is None,
        r matches Some(v) ==> v@ == Seq::new(
            (target * target) as nat,
            |i: int| covered(i, width as int, height as int, target as int),
        ),
{
    if width <= target && height <= target {
        return None;
    }
    let ghost all = Seq::new(
        (target * target) as nat,
        |i: int| covered(i, width as int, height as int, target as int),
    );
    let mut v: Vec<SourceRect> = Vec::new();
    let mut y: usize = 0;
    assert(0 * target == 0) by (nonlinear_arith);
    while y < target
        invariant
            y <= target,
            target * width <= usize::MAX,
            target * height <= usize::MAX,
            v@.len() == y * target,
            all.len() == target * target,
            forall|i: int|
                0 <= i < all.len() ==> #[trigger] all[i] == covered(
                    i,
                    width as int,
                    height as int,
                    target as int,
                ),
            forall|i: int| 0 <= i < v@.len() ==> #[trigger] v@[i] == all[i],
        decreases target - y,
    {
        let rows: (usize, usize) = span(y, height, target);
        let mut x: usize = 0;
        while x < target
            invariant
                x <= target,
                y < target,
                target * width <= usize::MAX,
                v@.len() == y * target + x,
                all.len() == target * target,
                rows.0 == span_start(y as int, height as int, target as int),
                rows.1 == span_end(y as int, height as int, target as int),
                forall|i: int|
                    0 <= i < all.len() ==> #[trigger] all[i] == covered(
                        i,
                        width as int,
                        height as int,
                        target as int,
                    ),
                forall|i: int| 0 <= i < v@.len() ==> #[trigger] v@[i] == all[i],
            decreases target - x,
        {
            let cols: (usize, usize) = span(x, width, target);
            let rect: SourceRect = SourceRect {
                x0: cols.0,
                x1: cols.1,
                y0: rows.0,
                y1: rows.1,
            };
            proof {
                let i = y * target + x;
                assert(y * target + target <= target * target) by (nonlinear_arith)
                    requires
                        y + 1 <= target,
                ;
                vstd::arithmetic::div_mod::lemma_fundamental_div_mod_converse(
                    i,
                    target as int,
                    y as int,
                    x as int,
                );
                assert(rect == all[i]);
            }
            v.push(rect);
            x = x + 1;
        }
        assert((y + 1) * target == y * target + target) by (nonlinear_arith);
        y = y + 1;
    }
    assert(v@ =~= all);
    Some(v)
}

// ---- laws ----

/// What a pixel of the scaled image covers lies within the source, and is
/// never empty.
pub proof fn law_covers_source_pixels(i: int, width: usize, height: usize, target: usize)
    requires
        0 < width,
        0 < height,
        0 <= i < target * target,
    ensures
        ({
            let c = covered(i, width as int, height as int, target as int);
            c.x0 < c.x1 <= width && c.y0 < c.y1 <= height
        }),
{
    let t = target as int;
    assert(t > 0) by (nonlinear_arith)
        requires
            0 <= i < t * t,
            0 <= t,
    ;
    assert(0 <= i / t < t) by (nonlinear_arith)
        requires
            0 <= i < t * t,
            t > 0,
    ;
    assert(0 <= i % t < t) by (nonlinear_arith)
        requires
            t > 0,
    ;
    lemma_span_bounds(i % t, width as int, t);
    lemma_span_bounds(i / t, height as int, t);
}

/// Where there are at least as many source pixels as places, the spans follow
/// one another without a gap and without an overlap, from the first source
/// pixel to the last.
pub proof fn law_spans_join(t: int, size: int, target: int)
    requires
        0 <= t < target <= size,
    ensures
        span_start(0, size, target) == 0,
        t + 1 < target ==> span_end(t, size, target) == span_start(t + 1, size, target),
        span_end(target - 1, size, target) == size,
{
    lemma_span_bounds(t, size, target);
    lemma_span_bounds(target - 1, size, target);
    assert(0 * size == 0) by (nonlinear_arith);
    vstd::arithmetic::div_mod::lemma_div_multiples_vanish(size, target);
    vstd::arithmetic::mul::lemma_mul_is_commutative(target, size);
    lemma_next_start(t, size, target);
    lemma_next_start(target - 1, size, target);
    if t + 1 < target {
        lemma_span_bounds(t + 1, size, target);
    }
}

/// A step of one place is a step of at least one source pixel.
proof fn lemma_next_start(t: int, size: int, target: int)
    requires
        0 <= t < target <= size,
    ensures
        span_start(t, size, target) + 1 <= (t + 1) * size / target,
{
    assert((t + 1) * size == t * size + size) by (nonlinear_arith);
    vstd::arithmetic::div_mod::lemma_div_is_ordered(t * size + target, (t + 1) * size, target);
    vstd::arithmetic::div_mod::lemma_div_plus_one(t * size, target);
    assert(target + t * size == t * size + target);
}

/// Every source pixel is covered by some place.
pub proof fn law_every_pixel_counts(x: int, size: int, target: int)
    requires
        0 <= x < size,
        0 < target,
    ensures
        exists|t: int|
            0 <= t < target && #[trigger] span_start(t, size, target) <= x < span_end(
                t,
                size,
                target,
            ),
{
    lemma_no_gap(target - 1, size, target);
    lemma_covered_upto(x, size, target, target - 1);
}

/// Between a span and the next there is no gap, and the last one ends with
/// the source.
proof fn lemma_no_gap(t: int, size: int, target: int)
    requires
        0 <= t < target,
        0 < size,
    ensures
        span_start(0, size, target) == 0,
        t + 1 < target ==> span_start(t + 1, size, target) <= span_end(t, size, target),
        span_end(target - 1, size, target) == size,
{
    lemma_span_bounds(t, size, target);
    lemma_span_bounds(target - 1, size, target);
    assert(0 * size == 0) by (nonlinear_arith);
    vstd::arithmetic::div_mod::lemma_div_multiples_vanish(size, target);
    vstd::arithmetic::mul::lemma_mul_is_commutative(target, size);
}

proof fn lemma_covered_upto(x: int, size: int, target: int, last: int)
    requires
        0 <= last < target,
        0 <= x < span_end(last, size, target),
        0 < size,
    ensures
        exists|t: int|
            0 <= t <= last && #[trigger] span_start(t, size, target) <= x < span_end(
                t,
                size,
                target,
            ),
    decreases last,
{
    if span_start(last, size, target) <= x {
    } else if last == 0 {
        lemma_no_gap(0, size, target);
    } else {
        lemma_no_gap(last - 1, size, target);
        lemma_covered_upto(x, size, target, last - 1);
        let t = choose|t: int|
            0 <= t <= last - 1 && #[trigger] span_start(t, size, target) <= x < span_end(
                t,
                size,
                target,
            );
        assert(0 <= t <= last && span_start(t, size, target) <= x);
    }
}

/// A device bitmap keeps its size and its greens, and where it has an alpha
/// anywhere it keeps its alphas; turning it twice restores it then.
#[verifier::spinoff_prover]
pub proof fn law_bitmap_keeps(bgra: Seq<u8>)
    ensures
        rgba_bytes(bgra).len() == bgra.len(),
        forall|k: int|
            0 <= k < bgra.len() / 4 ==> #[trigger] rgba_bytes(bgra)[4 * k + 1] == bgra[4 * k + 1],
        any_alpha(bgra) ==> rgba_bytes(rgba_bytes(bgra)) == bgra,
        !any_alpha(bgra) ==> forall|k: int|
            0 <= k < bgra.len() / 4 ==> #[trigger] rgba_bytes(bgra)[4 * k + 3] == 255,
{
    let once = rgba_bytes(bgra);
    if any_alpha(bgra) {
        let k = choose|k: int| 0 <= k < bgra.len() / 4 && #[trigger] bgra[4 * k + 3] != 0;
        assert(once[4 * k + 3] == bgra[4 * k + 3]);
        assert(any_alpha(once));
        assert forall|i: int| 0 <= i < bgra.len() implies #[trigger] rgba_byte(once, i)
            == bgra[i] by {
            lemma_turned_back(bgra, i);
        }
        assert(rgba_bytes(once) =~= bgra);
    }
}

/// A byte that was turned twice is back in its place.
#[verifier::spinoff_prover]
proof fn lemma_turned_back(bgra: Seq<u8>, i: int)
    requires
        any_alpha(bgra),
        any_alpha(rgba_bytes(bgra)),
        0 <= i < bgra.len(),
    ensures
        rgba_byte(rgba_bytes(bgra), i) == bgra[i],
{
    let k = i / 4;
    assert(i == 4 * k + i % 4);
    assert((4 * k + i % 4) / 4 == k);
}

/// Each pixel of an image comes from its own four bytes, red, green, blue and
/// alpha, with the colours multiplied by the alpha.
pub proof fn law_pixels_in_order(rgba: Seq<u8>, i: int)
    requires
        0 <= i,
        4 * i + 3 < rgba.len(),
    ensures
        ({
            let p = pixels_of(rgba)[i];
            let a = rgba[4 * i + 3];
            &&& i < pixels_of(rgba).len()
            &&& p.a == a
            &&& -127 <= 255 * p.r - rgba[4 * i] * a <= 127
            &&& -127 <= 255 * p.g - rgba[4 * i + 1] * a <= 127
            &&& -127 <= 255 * p.b - rgba[4 * i + 2] * a <= 127
        }),
{
    color::law_alpha_scales(rgba[4 * i], rgba[4 * i + 1], rgba[4 * i + 2], rgba[4 * i + 3]);
}

/// An icon is a file of its own where its path ends in `.png`, in capitals or
/// not.
pub proof fn law_png_by_name(path: Seq<char>, front: Seq<char>)
    ensures
        text::lowered(path) == front + ".png"@ ==> names_png(path),
        names_png(path) ==> text::lowered(path) == text::lowered(path).take(path.len() - 4)
            + ".png"@,
{
    reveal_strlit(".png");
    text::law_search(text::lowered(path), ".png"@, front, front);
    if path.len() > 0 {
        text::law_lowered(path, 0);
    }
}

/// A bitmap comes blue first: red and blue change places in each pixel, green
/// stays, and the alpha stays where any pixel has one.
pub proof fn law_bitmap_swaps(bgra: Seq<u8>, k: int)
    requires
        0 <= k,
        4 * k + 3 < bgra.len(),
    ensures
        ({
            let rgba = rgba_bytes(bgra);
            &&& rgba[4 * k] == bgra[4 * k + 2]
            &&& rgba[4 * k + 1] == bgra[4 * k + 1]
            &&& rgba[4 * k + 2] == bgra[4 * k]
            &&& bgra[4 * k + 3] != 0 ==> rgba[4 * k + 3] == bgra[4 * k + 3]
            &&& (exists|j: int| 0 <= j < bgra.len() / 4 && #[trigger] bgra[4 * j + 3] != 0)
                ==> rgba[4 * k + 3] == bgra[4 * k + 3]
            &&& (forall|j: int| 0 <= j < bgra.len() / 4 ==> #[trigger] bgra[4 * j + 3] == 0)
                ==> rgba[4 * k + 3] == 255
        }),
{
    if bgra[4 * k + 3] != 0 {
        assert(0 <= k < bgra.len() / 4 && bgra[4 * k + 3] != 0);
    }
}

/// The part of the source that a place covers begins where the place does, in
/// proportion, and ends where the next begins, or one pixel on.
pub proof fn law_spans_in_proportion(t: int, size: int, target: int)
    requires
        0 <= t < target,
        0 < size,
    ensures
        ({
            let from = span_start(t, size, target);
            let to = span_end(t, size, target);
            &&& from * target <= t * size < (from + 1) * target
            &&& to == from + 1 || (to * target <= (t + 1) * size < (to + 1) * target)
            &&& from < to <= size
        }),
{
    lemma_span_bounds(t, size, target);
    vstd::arithmetic::div_mod::lemma_fundamental_div_mod(t * size, target);
    vstd::arithmetic::div_mod::lemma_fundamental_div_mod((t + 1) * size, target);
    let from = span_start(t, size, target);
    let next = (t + 1) * size / target;
    assert(from * target == target * from) by (nonlinear_arith);
    assert((from + 1) * target == target * from + target) by (nonlinear_arith);
    assert(next * target == target * next) by (nonlinear_arith);
    assert((next + 1) * target == target * next + target) by (nonlinear_arith);
}

/// A scaled image is filled row by row: each of its pixels covers the columns
/// of its own column and the rows of its own row.
pub proof fn law_scaled_row_by_row(x: int, y: int, width: usize, height: usize, target: usize)
    requires
        0 <= x < target,
        0 <= y < target,
    ensures
        ({
            let c = covered(y * target + x, width as int, height as int, target as int);
            &&& c.x0 == span_start(x, width as int, target as int)
            &&& c.x1 == span_end(x, width as int, target as int)
            &&& c.y0 == span_start(y, height as int, target as int)
            &&& c.y1 == span_end(y, height as int, target as int)
        }),
        fits(width, height, target) <==> width <= target && height <= target,
{
    vstd::arithmetic::div_mod::lemma_fundamental_div_mod_converse(
        y * target + x,
        target as int,
        y,
        x,
    );
    lemma_span_bounds(x, width as int, target as int);
    lemma_span_bounds(y, height as int, target as int);
}

/// An icon that is no PNG is the one in the program, and a PNG is never that
/// one: without its file, or with one that cannot be decoded, there is none.
pub proof fn law_icon_source(path: &str, file: &Option<Vec<u8>>, own: Option<IconImage>, r: Option<
    IconImage,
>)
    requires
        call_ensures(load_icon_image, (path, file, own), r),
    ensures
        !names_png(path@) ==> r == own,
        names_png(path@) && file is None ==> r is None,
        names_png(path@) && file is Some && png_decoded(file->0@) is None ==> r is None,
        names_png(path@) && r is Some ==> r->0.wf(),
{
}

/// A device bitmap is an image of its size, with red and blue exchanged.
pub proof fn law_bitmap_image(width: i32, height: i32, bgra: Vec<u8>, r: IconImage)
    requires
        0 <= width,
        0 <= height,
        width * height * 4 == bgra@.len(),
        call_ensures(image_from_bitmap, (width, height, bgra), r),
    ensures
        r.width == width && r.height == height && r.pixels@.len() == width * height,
        r.pixels@ == pixels_of(rgba_bytes(bgra@)),
{
}

} // verus!
