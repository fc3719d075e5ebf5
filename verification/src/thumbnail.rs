use image::GenericImageView;
use vstd::prelude::*;

use crate::error::IngestError;

verus! {

/// Side of the square box every thumbnail fits in.
pub const THUMB_BOX: u32 = 100;

/// Most source pixels the scaler may average into one thumbnail pixel: it
/// sums them in 32 bits, and a sample may be as large as 65535.
pub const MAX_BLOCK: u32 = 65536;

/// By how much at most a side shrinks in a step that is not the last.
pub const STEP: u32 = 128;

/// The side from which on the scaler's positions, computed in 32-bit
/// floating point, are spaced by a pixel or more.
pub const COARSE: u32 = 4194304;

/// `image::DynamicImage`, a decoded image. Nothing is known of its pixels.
#[verifier::external_type_specification]
#[verifier::external_body]
pub struct ExDynamicImage(image::DynamicImage);

/// A decoded image together with its pixel dimensions. Decoding is left to
/// the driver, since the decoders fail on some bytes that no rule of a few
/// lines tells apart; the library scales what was decoded.
pub struct Picture {
    width: u32,
    height: u32,
    image: image::DynamicImage,
}

/// Whether a picture of these dimensions has any pixel.
pub open spec fn has_pixels(width: int, height: int) -> bool {
    1 <= width && 1 <= height
}

/// The dimensions of the thumbnail of a `width` x `height` picture.
///
/// A picture that already fits the box keeps its size. Any other is scaled
/// so that its longer side is exactly `THUMB_BOX`; the shorter side is
/// scaled by the same factor, rounded down, and is at least one pixel.
pub open spec fn thumbnail_size(width: int, height: int) -> (int, int) {
    if width <= THUMB_BOX && height <= THUMB_BOX {
        (width, height)
    } else if height <= width {
        (THUMB_BOX as int, at_least_one(THUMB_BOX * height / width))
    } else {
        (at_least_one(THUMB_BOX * width / height), THUMB_BOX as int)
    }
}

/// `n`, raised to one where it is less.
pub open spec fn at_least_one(n: int) -> int {
    if n < 1 {
        1
    } else {
        n
    }
}

/// The longer of the two sides.
pub open spec fn longer_side(width: int, height: int) -> int {
    if height <= width {
        width
    } else {
        height
    }
}

/// Computes `thumbnail_size`.
pub fn thumbnail_dimensions(width: u32, height: u32) -> (r: (u32, u32))
    ensures
        (r.0 as int, r.1 as int) == thumbnail_size(width as int, height as int),
{
    if width <= THUMB_BOX && height <= THUMB_BOX {
        (width, height)
    } else if height <= width {
        (THUMB_BOX, scaled_side(height, width))
    } else {
        (scaled_side(width, height), THUMB_BOX)
    }
}

/// The shorter side once the longer one has become `THUMB_BOX`.
fn scaled_side(shorter: u32, longer: u32) -> (r: u32)
    requires
        shorter <= longer,
        longer > THUMB_BOX,
    ensures
        r as int == at_least_one(THUMB_BOX * shorter / (longer as int)),
        1 <= r <= THUMB_BOX,
{
    assert(THUMB_BOX * shorter <= 100 * u32::MAX) by (nonlinear_arith)
        requires
            THUMB_BOX == 100,
            shorter <= u32::MAX,
    ;
    let product: u64 = (THUMB_BOX as u64) * (shorter as u64);
    let scaled: u64 = product / (longer as u64);
    assert(scaled <= THUMB_BOX) by (nonlinear_arith)
        requires
            scaled == (THUMB_BOX * shorter) / (longer as int),
            0 <= shorter <= longer,
            longer > 0,
    ;
    if scaled < 1 {
        1
    } else {
        scaled as u32
    }
}

/// A thumbnail fits the box, whatever the source.
pub proof fn lemma_thumbnail_fits_box(width: int, height: int)
    requires
        0 <= width,
        0 <= height,
    ensures
        thumbnail_size(width, height).0 <= THUMB_BOX,
        thumbnail_size(width, height).1 <= THUMB_BOX,
        longer_side(thumbnail_size(width, height).0, thumbnail_size(width, height).1) <= THUMB_BOX,
{
    if width <= THUMB_BOX && height <= THUMB_BOX {
    } else if height <= width {
        assert(THUMB_BOX * height / width <= THUMB_BOX) by (nonlinear_arith)
            requires
                0 <= height <= width,
                width > 0,
        ;
    } else {
        assert(THUMB_BOX * width / height <= THUMB_BOX) by (nonlinear_arith)
            requires
                0 <= width <= height,
                height > 0,
        ;
    }
}

/// A thumbnail is never larger than its source, and never empty.
pub proof fn lemma_thumbnail_never_upscales(width: int, height: int)
    requires
        1 <= width,
        1 <= height,
    ensures
        1 <= thumbnail_size(width, height).0 <= width,
        1 <= thumbnail_size(width, height).1 <= height,
        width <= THUMB_BOX && height <= THUMB_BOX ==> thumbnail_size(width, height) == (
            width,
            height,
        ),
{
    if width <= THUMB_BOX && height <= THUMB_BOX {
    } else if height <= width {
        assert(THUMB_BOX * height / width <= height) by (nonlinear_arith)
            requires
                1 <= height,
                width > THUMB_BOX,
        ;
    } else {
        assert(THUMB_BOX * width / height <= width) by (nonlinear_arith)
            requires
                1 <= width,
                height > THUMB_BOX,
        ;
    }
}

/// A scaled picture has its longer side exactly on the box.
pub proof fn lemma_thumbnail_fills_box(width: int, height: int)
    requires
        1 <= width,
        1 <= height,
        !(width <= THUMB_BOX && height <= THUMB_BOX),
    ensures
        longer_side(thumbnail_size(width, height).0, thumbnail_size(width, height).1) == THUMB_BOX,
{
    lemma_thumbnail_fits_box(width, height);
}

/// The aspect ratio is kept within rounding: cross-multiplied, the two
/// ratios differ by less than the source's longer side, which is to say
/// that the scaled side is less than one pixel away from its exact value.
pub proof fn lemma_thumbnail_keeps_aspect(width: int, height: int)
    requires
        1 <= width,
        1 <= height,
    ensures
        ({
            let (tw, th) = thumbnail_size(width, height);
            -longer_side(width, height) < tw * height - th * width < longer_side(width, height)
        }),
{
    let (tw, th) = thumbnail_size(width, height);
    if width <= THUMB_BOX && height <= THUMB_BOX {
        assert(tw * height - th * width == 0) by (nonlinear_arith)
            requires
                tw == width,
                th == height,
        ;
    } else if height <= width {
        lemma_floor_is_close(THUMB_BOX as int, height, width);
    } else {
        lemma_floor_is_close(THUMB_BOX as int, width, height);
    }
}

/// With `q` the quotient `bound * shorter / longer` raised to at least one,
/// `q * longer` is less than `longer` away from `bound * shorter`.
proof fn lemma_floor_is_close(bound: int, shorter: int, longer: int)
    requires
        1 <= shorter <= longer,
        1 <= bound,
    ensures
        -longer < bound * shorter - at_least_one(bound * shorter / longer) * longer < longer,
{
    let p = bound * shorter;
    let q = p / longer;
    assert(p >= 1) by (nonlinear_arith)
        requires
            p == bound * shorter,
            1 <= shorter,
            1 <= bound,
    ;
    assert(p == q * longer + p % longer && 0 <= p % longer < longer) by (nonlinear_arith)
        requires
            q == p / longer,
            longer >= 1,
    ;
    if q < 1 {
        assert(q == 0) by (nonlinear_arith)
            requires
                q == p / longer,
                p >= 0,
                longer >= 1,
                q < 1,
        ;
        assert(q * longer == 0 && at_least_one(q) * longer == longer) by (nonlinear_arith)
            requires
                q == 0,
                at_least_one(q) == 1,
        ;
    } else {
        assert(at_least_one(q) == q);
    }
    assert(bound * shorter == p);
    assert(at_least_one(bound * shorter / longer) == at_least_one(q));
}

/// How many source pixels at most a block of the scaler takes along one
/// side: the ratio of the sides, two pixels for rounding, and for sides of
/// `COARSE` or more the spacing of the 32-bit floating point numbers in
/// which the scaler computes positions.
pub open spec fn block_side(source: int, target: int) -> int {
    source / target + 2 + source / (COARSE as int)
}

/// Whether the scaler takes a `width` x `height` picture to `to_width` x
/// `to_height` in one step: a block of source pixels holds no more than
/// `MAX_BLOCK`.
pub open spec fn in_one_step(width: int, height: int, to_width: int, to_height: int) -> bool {
    block_side(width, to_width) * block_side(height, to_height) <= MAX_BLOCK
}

/// Whether a picture can be scaled at all: one of its sides is shorter
/// than `COARSE`. A picture of `COARSE` pixels or more on both sides holds
/// more pixels than the scaler can be stepped through.
pub open spec fn within_reach(width: int, height: int) -> bool {
    width < COARSE || height < COARSE
}

/// Computes `block_side`.
fn block_side_of(source: u32, target: u32) -> (side: u64)
    requires
        target >= 1,
    ensures
        side == block_side(source as int, target as int),
        2 <= side <= 2 * u32::MAX,
{
    (source / target) as u64 + 2 + (source / COARSE) as u64
}

/// Computes `in_one_step`.
fn fits_one_step(width: u32, height: u32, to_width: u32, to_height: u32) -> (fits: bool)
    requires
        to_width >= 1,
        to_height >= 1,
    ensures
        fits == in_one_step(width as int, height as int, to_width as int, to_height as int),
{
    let across: u64 = block_side_of(width, to_width);
    let down: u64 = block_side_of(height, to_height);
    if across > MAX_BLOCK as u64 || down > MAX_BLOCK as u64 {
        assert(across * down > MAX_BLOCK) by (nonlinear_arith)
            requires
                across >= 2,
                down >= 2,
                across > MAX_BLOCK || down > MAX_BLOCK,
        ;
        false
    } else {
        assert(across * down <= MAX_BLOCK * MAX_BLOCK) by (nonlinear_arith)
            requires
                0 <= across <= MAX_BLOCK,
                0 <= down <= MAX_BLOCK,
        ;
        across * down <= MAX_BLOCK as u64
    }
}

/// The side that a step on the way from `source` to `target` reaches: the
/// target, or the source shrunk by somewhat less than `STEP` where that is
/// still longer.
pub open spec fn step_side(source: int, target: int) -> int {
    if source / (STEP as int) + 1 < target {
        target
    } else {
        source / (STEP as int) + 1
    }
}

/// Computes `step_side`.
fn side_after_step(source: u32, target: u32) -> (side: u32)
    requires
        1 <= target <= source,
    ensures
        side == step_side(source as int, target as int),
        target <= side <= source,
{
    let cut = source / STEP + 1;
    if cut < target {
        target
    } else {
        cut
    }
}

/// Whether the next step shrinks the width: it does where the width is
/// `COARSE` or more, and where, with both sides shorter than that, the
/// width is more than `STEP` times its target. Else the step shrinks the
/// height.
pub open spec fn shrinks_width(width: int, height: int, to_width: int) -> bool {
    width >= COARSE || (height < COARSE && width / to_width > STEP)
}

/// The size after the next step on the way to `to_width` x `to_height`:
/// one side is shrunk, the other is kept.
pub open spec fn step_size(width: int, height: int, to_width: int, to_height: int) -> (int, int) {
    if shrinks_width(width, height, to_width) {
        (step_side(width, to_width), height)
    } else {
        (width, step_side(height, to_height))
    }
}

/// Where the whole way cannot be taken at once, the scaler takes the next
/// step at once, the step makes the picture smaller, and the picture stays
/// within reach.
proof fn lemma_step_is_taken(width: int, height: int, to_width: int, to_height: int)
    requires
        1 <= to_width <= width <= u32::MAX,
        1 <= to_height <= height <= u32::MAX,
        to_width <= THUMB_BOX,
        to_height <= THUMB_BOX,
        within_reach(width, height),
        !in_one_step(width, height, to_width, to_height),
    ensures
        ({
            let (mid_width, mid_height) = step_size(width, height, to_width, to_height);
            &&& to_width <= mid_width <= width
            &&& to_height <= mid_height <= height
            &&& in_one_step(width, height, mid_width, mid_height)
            &&& mid_width + mid_height < width + height
            &&& within_reach(mid_width, mid_height)
        }),
{
    let (mid_width, mid_height) = step_size(width, height, to_width, to_height);
    lemma_step_side(width, to_width);
    lemma_step_side(height, to_height);
    let coarse_across = width / (COARSE as int);
    let coarse_down = height / (COARSE as int);
    assert(0 <= coarse_across <= 1023 && 0 <= coarse_down <= 1023);
    assert(width / width == 1 && height / height == 1) by (nonlinear_arith)
        requires
            width >= 1,
            height >= 1,
    ;
    if both_fine(width, height) {
        assert(coarse_across == 0 && coarse_down == 0);
        if width / to_width <= 128 && height / to_height <= 128 {
            assert((width / to_width + 2) * (height / to_height + 2) <= MAX_BLOCK)
                by (nonlinear_arith)
                requires
                    0 <= width / to_width <= 128,
                    0 <= height / to_height <= 128,
            ;
        }
    } else if width >= COARSE {
        assert(width / to_width > 128) by (nonlinear_arith)
            requires
                width >= 4194304,
                1 <= to_width <= 100,
        ;
    } else {
        assert(height / to_height > 128) by (nonlinear_arith)
            requires
                height >= 4194304,
                1 <= to_height <= 100,
        ;
    }
    assert(block_side(width, mid_width) * block_side(height, mid_height) <= MAX_BLOCK)
        by (nonlinear_arith)
        requires
            0 <= block_side(width, mid_width) <= 1153,
            0 <= block_side(height, mid_height) <= 1153,
            block_side(width, mid_width) <= 3 || block_side(height, mid_height) <= 3,
    ;
}

/// Both sides are shorter than `COARSE`.
pub open spec fn both_fine(width: int, height: int) -> bool {
    width < COARSE && height < COARSE
}

/// One side of a step: it stays between target and source, shrinks by no
/// more than `STEP`, and does shrink where the target is further away.
proof fn lemma_step_side(source: int, target: int)
    requires
        1 <= target <= source,
    ensures
        target <= step_side(source, target) <= source,
        0 <= source / step_side(source, target) <= 128,
        0 <= source / target,
        source / target > 128 ==> step_side(source, target) < source,
{
    let cut = source / 128 + 1;
    let side = step_side(source, target);
    assert(0 <= source / 128 <= source - 1 && source < cut * 128) by (nonlinear_arith)
        requires
            source >= 1,
            cut == source / 128 + 1,
    ;
    assert(0 <= source / side <= 128) by (nonlinear_arith)
        requires
            side >= 1,
            source >= 1,
            source < side * 128,
    ;
    assert(0 <= source / target) by (nonlinear_arith)
        requires
            source >= 1,
            target >= 1,
    ;
    if source / target > 128 {
        assert(source >= 129 * target) by (nonlinear_arith)
            requires
                source / target > 128,
                target >= 1,
                source >= 1,
        ;
        assert(cut < source && target < source);
    }
}

/// The thumbnail of any picture that has pixels is not empty, fits the box,
/// is no larger than the picture, and keeps the aspect ratio within
/// rounding; a picture that does not fit the box has a thumbnail whose
/// longer side is exactly the side of the box.
pub proof fn lemma_thumbnail_is_bounded(width: int, height: int)
    requires
        has_pixels(width, height),
    ensures
        ({
            let (tw, th) = thumbnail_size(width, height);
            &&& 1 <= tw <= width
            &&& 1 <= th <= height
            &&& longer_side(tw, th) <= THUMB_BOX
            &&& !(width <= THUMB_BOX && height <= THUMB_BOX) ==> longer_side(tw, th) == THUMB_BOX
            &&& -longer_side(width, height) < tw * height - th * width < longer_side(width, height)
        }),
{
    lemma_thumbnail_fits_box(width, height);
    lemma_thumbnail_never_upscales(width, height);
    lemma_thumbnail_keeps_aspect(width, height);
}

/// The dimensions of what the decoder gave, where it gave a picture.
pub open spec fn decoded_size(decoded: Option<Picture>) -> Option<(int, int)> {
    match decoded {
        Some(picture) => Some(picture.size()),
        None => None,
    }
}

/// Whether the decoder gave a picture that a thumbnail can be made of: it
/// gave one, and the picture has pixels and is within reach of the scaler.
pub open spec fn is_picture(decoded: Option<(int, int)>) -> bool {
    decoded matches Some(size) && has_pixels(size.0, size.1) && within_reach(size.0, size.1)
}

/// The dimensions of the thumbnail of what the decoder gave.
pub open spec fn thumbnail_size_of(decoded: Option<(int, int)>) -> (int, int) {
    match decoded {
        Some(size) => thumbnail_size(size.0, size.1),
        None => (0, 0),
    }
}

/// Calls `DynamicImage::thumbnail_exact`, which returns a new image of
/// exactly the dimensions asked for; nothing is claimed of its pixels.
///
/// The scaler sums a block of source pixels for each pixel of the result,
/// in 32 bits, and reads the source at `width - 1` and `height - 1`. The
/// conditions keep it from failing: the source is not empty; the result is
/// no larger than the source on either side, so that it takes no more
/// memory than the source and every block begins inside the source; and a
/// block stays within `MAX_BLOCK` pixels. Along a side a block is at most
/// one pixel more than the rounded-up ratio, and wider by no more than
/// twice the spacing of the 32-bit floating point numbers in which the
/// scaler computes positions, which is the side over `COARSE`.
#[verifier::external_body]
fn scale_picture(picture: &Picture, width: u32, height: u32) -> (r: Picture)
    requires
        1 <= width <= picture.width,
        1 <= height <= picture.height,
        in_one_step(picture.width as int, picture.height as int, width as int, height as int),
    ensures
        r.width == width,
        r.height == height,
{
    let img = picture.image.thumbnail_exact(width, height);
    Picture { width: img.width(), height: img.height(), image: img }
}

impl Picture {
    /// Takes a decoded image in, reading its size with
    /// `GenericImageView::width` and `height`: the picture holds the image,
    /// and its width and height are those of the image.
    #[verifier::external_body]
    pub fn from_image(image: image::DynamicImage) -> (picture: Picture)
        ensures
            picture.spec_image() == image,
    {
        Picture { width: image.width(), height: image.height(), image }
    }

    /// The width in pixels.
    pub closed spec fn spec_width(&self) -> u32 {
        self.width
    }

    /// The height in pixels.
    pub closed spec fn spec_height(&self) -> u32 {
        self.height
    }

    /// The image that the picture holds.
    pub closed spec fn spec_image(&self) -> image::DynamicImage {
        self.image
    }

    /// The dimensions as a pair of integers.
    pub open spec fn size(&self) -> (int, int) {
        (self.spec_width() as int, self.spec_height() as int)
    }

    #[verifier::when_used_as_spec(spec_width)]
    pub fn width(&self) -> (w: u32)
        ensures
            w == self.spec_width(),
    {
        self.width
    }

    #[verifier::when_used_as_spec(spec_height)]
    pub fn height(&self) -> (h: u32)
        ensures
            h == self.spec_height(),
    {
        self.height
    }

    /// Gives the image up, to be encoded and stored.
    pub fn into_image(self) -> (image: image::DynamicImage)
        ensures
            image == self.spec_image(),
    {
        self.image
    }

    /// The thumbnail of this picture: the picture itself where it fits the
    /// box, else a copy scaled down to `thumbnail_size`. The scaler takes
    /// the way at once where it can; a picture too large for that is first
    /// shrunk in steps, one side at a time.
    pub fn into_thumbnail(self) -> (r: Picture)
        requires
            has_pixels(self.size().0, self.size().1),
            within_reach(self.size().0, self.size().1),
        ensures
            r.size() == thumbnail_size(self.size().0, self.size().1),
            self.size().0 <= THUMB_BOX && self.size().1 <= THUMB_BOX ==> r == self,
    {
        if self.width <= THUMB_BOX && self.height <= THUMB_BOX {
            return self;
        }
        let (width, height) = thumbnail_dimensions(self.width, self.height);
        proof {
            lemma_thumbnail_never_upscales(self.width as int, self.height as int);
            lemma_thumbnail_fits_box(self.width as int, self.height as int);
        }
        let mut current = self;
        while !fits_one_step(current.width, current.height, width, height)
            invariant
                1 <= width <= current.width,
                1 <= height <= current.height,
                width <= THUMB_BOX,
                height <= THUMB_BOX,
                within_reach(current.width as int, current.height as int),
            decreases current.width + current.height,
        {
            proof {
                lemma_step_is_taken(
                    current.width as int,
                    current.height as int,
                    width as int,
                    height as int,
                );
            }
            let across = current.width >= COARSE || (current.height < COARSE && current.width
                / width > STEP);
            let (mid_width, mid_height) = if across {
                (side_after_step(current.width, width), current.height)
            } else {
                (current.width, side_after_step(current.height, height))
            };
            current = scale_picture(&current, mid_width, mid_height);
        }
        scale_picture(&current, width, height)
    }
}

/// Makes the thumbnail of what the decoder gave for the bytes of an image.
///
/// A picture that has pixels and is within reach of the scaler gives its
/// thumbnail, which is the picture itself where it fits the box; no
/// picture, or one without pixels or out of reach, gives `ImageDecode`.
pub fn thumbnail_of(decoded: Option<Picture>) -> (r: Result<Picture, IngestError>)
    ensures
        match r {
            Ok(thumb) => is_picture(decoded_size(decoded)) && thumb.size() == thumbnail_size_of(
                decoded_size(decoded),
            ) && (decoded.unwrap().size().0 <= THUMB_BOX && decoded.unwrap().size().1 <= THUMB_BOX
                ==> thumb == decoded.unwrap()),
            Err(e) => !is_picture(decoded_size(decoded)) && e == IngestError::ImageDecode,
        },
{
    match decoded {
        Some(picture) => {
            if 1 <= picture.width && 1 <= picture.height && (picture.width < COARSE
                || picture.height < COARSE) {
                Ok(picture.into_thumbnail())
            } else {
                Err(IngestError::ImageDecode)
            }
        },
        None => Err(IngestError::ImageDecode),
    }
}

} // verus!
