//! CPU side of texture upload: decoding, the successive-halving mip chain, and the
//! row padding that buffer-to-texture copies need.
use vstd::prelude::*;
use image::ImageBuffer;
use vstd::arithmetic::div_mod::{lemma_fundamental_div_mod, lemma_fundamental_div_mod_converse, lemma_mod_pos_bound};

verus! {

#[verifier::external_type_specification]
#[verifier::external_body]
pub struct ExImageError(image::ImageError);

/// An RGBA image: `width * height` pixels of four bytes, row by row from the top.
pub struct RgbaPixels {
    pub width: u32,
    pub height: u32,
    pub data: Vec<u8>,
}

impl RgbaPixels {
    /// The pixel data covers the whole image.
    pub open spec fn wf(&self) -> bool {
        self.data.len() >= self.width as int * self.height as int * 4
    }

    pub open spec fn view(&self) -> (u32, u32, Seq<u8>) {
        (self.width, self.height, self.data@)
    }

    /// A copy of the image.
    pub fn duplicate(&self) -> (copy: Self)
        ensures
            copy.view() == self.view(),
    {
        RgbaPixels { width: self.width, height: self.height, data: self.data.clone() }
    }
}

/// Why an image could not be loaded.
pub enum TextureError {
    /// The bytes are not an image in a format the decoder reads.
    Decode(image::ImageError),
    /// An image with an empty side whose other side is too long for its one-pixel-wide
    /// mip levels to be addressed.
    TooLarge,
}

/// What `image::imageops::resize` with the triangle filter makes of the pixels `data` of
/// a `width` x `height` RGBA image, resampled to `new_width` x `new_height`.
pub uninterp spec fn triangle_resized(data: Seq<u8>, width: u32, height: u32, new_width: u32, new_height: u32) -> Seq<u8>;

/// The RGBA8 image (width, height, pixel bytes row by row) that `image::load_from_memory`
/// followed by `DynamicImage::to_rgba8` makes of `bytes`, or `None` when they do not
/// decode.
pub uninterp spec fn decoded_rgba(bytes: Seq<u8>) -> Option<(u32, u32, Seq<u8>)>;

/// Calls `image::load_from_memory` (format guessed from the bytes) and converts the
/// result to RGBA8 with `DynamicImage::to_rgba8`, whose buffer (made by
/// `ImageBuffer::new`) holds exactly four bytes per pixel. The image is named by
/// `decoded_rgba`.
#[verifier::external_body]
fn decode_rgba(bytes: &[u8]) -> (decoded: Result<RgbaPixels, image::ImageError>)
    ensures
        match decoded {
            Ok(img) => decoded_rgba(bytes@) == Some(img.view()) && img.data.len() == img.width as int * img.height as int * 4,
            Err(_) => decoded_rgba(bytes@) is None,
        },
{
    match image::load_from_memory(bytes) {
        Ok(img) => {
            let rgba = img.to_rgba8();
            let (width, height) = rgba.dimensions();
            Ok(RgbaPixels { width, height, data: rgba.into_raw() })
        },
        Err(e) => Err(e),
    }
}

/// Calls `image::imageops::resize` with `FilterType::Triangle` on the image rebuilt
/// with `ImageBuffer::from_raw`. The result has the asked size and a buffer of exactly
/// its pixels (`ImageBuffer::new`); its contents are named by `triangle_resized`.
#[verifier::external_body]
fn resize_triangle(img: &RgbaPixels, new_width: u32, new_height: u32) -> (out: RgbaPixels)
    requires
        img.wf(),
        new_width as int * new_height as int * 4 <= usize::MAX,
    ensures
        out.width == new_width,
        out.height == new_height,
        out.data.len() == new_width as int * new_height as int * 4,
        out.data@ == triangle_resized(img.data@, img.width, img.height, new_width, new_height),
{
    let src: image::RgbaImage = ImageBuffer::from_raw(img.width, img.height, img.data.clone()).unwrap();
    let out = image::imageops::resize(&src, new_width, new_height, image::imageops::FilterType::Triangle);
    RgbaPixels { width: new_width, height: new_height, data: out.into_raw() }
}

/// Half of a side, but never below one pixel.
pub open spec fn half_side(n: u32) -> u32 {
    if n / 2 >= 1 { (n / 2) as u32 } else { 1 }
}

pub open spec fn larger_side(w: u32, h: u32) -> u32 {
    if w > h { w } else { h }
}

/// The sizes of the levels of a mip chain, from the full image down to one pixel.
pub open spec fn mip_sizes(w: u32, h: u32) -> Seq<(u32, u32)>
    decreases larger_side(w, h),
{
    if w > 1 || h > 1 {
        seq![(w, h)] + mip_sizes(half_side(w), half_side(h))
    } else {
        seq![(w, h)]
    }
}

/// Level `k` of a mip chain is level `k - 1` resized to its halved size.
pub open spec fn mip_levels_follow(levels: Seq<(u32, u32, Seq<u8>)>) -> bool {
    forall|k: int|
        #![trigger levels[k]]
        1 <= k < levels.len() ==> levels[k].2 == triangle_resized(
            levels[k - 1].2,
            levels[k - 1].0,
            levels[k - 1].1,
            levels[k].0,
            levels[k].1,
        )
}

pub open spec fn levels_view(levels: Seq<RgbaPixels>) -> Seq<(u32, u32, Seq<u8>)> {
    levels.map_values(|l: RgbaPixels| l.view())
}

proof fn lemma_mip_sizes_shape(w: u32, h: u32)
    ensures
        mip_sizes(w, h).len() >= 1,
        mip_sizes(w, h)[0] == (w, h),
    decreases larger_side(w, h),
{
    if w > 1 || h > 1 {
        lemma_mip_sizes_shape(half_side(w), half_side(h));
    }
}

/// The number of times `n` can be halved before it drops below two.
pub open spec fn log2_floor(n: nat) -> nat
    decreases n,
{
    if n < 2 { 0 } else { 1 + log2_floor(n / 2) }
}

/// Law: the mip chain of a `w` x `h` image (both at least one pixel) has
/// `1 + floor(log2(max(w, h)))` levels, each half the size of the one before (never
/// below one pixel), and ends at a single pixel.
pub proof fn law_mip_chain_shape(w: u32, h: u32)
    requires
        w >= 1,
        h >= 1,
    ensures
        mip_sizes(w, h).len() == 1 + log2_floor(larger_side(w, h) as nat),
        mip_sizes(w, h)[0] == (w, h),
        mip_sizes(w, h).last() == (1u32, 1u32),
        forall|k: int|
            #![trigger mip_sizes(w, h)[k]]
            1 <= k < mip_sizes(w, h).len() ==> mip_sizes(w, h)[k] == (
                half_side(mip_sizes(w, h)[k - 1].0),
                half_side(mip_sizes(w, h)[k - 1].1),
            ),
    decreases larger_side(w, h),
{
    lemma_mip_sizes_shape(w, h);
    if w > 1 || h > 1 {
        let (w2, h2) = (half_side(w), half_side(h));
        law_mip_chain_shape(w2, h2);
        assert(larger_side(w2, h2) as nat == (larger_side(w, h) as nat) / 2);
        let rest = mip_sizes(w2, h2);
        let all = mip_sizes(w, h);
        assert(all == seq![(w, h)] + rest);
        assert forall|k: int| #![trigger all[k]] 1 <= k < all.len() implies all[k] == (
            half_side(all[k - 1].0),
            half_side(all[k - 1].1),
        ) by {
            assert(all[k] == rest[k - 1]);
            if k >= 2 {
                assert(all[k - 1] == rest[k - 2]);
            }
        }
    }
}

pub open spec fn at_least_one(n: u32) -> int {
    if n >= 1 { n as int } else { 1 }
}

pub open spec fn level_sizes(levels: Seq<RgbaPixels>) -> Seq<(u32, u32)> {
    levels.map_values(|l: RgbaPixels| (l.width, l.height))
}

proof fn lemma_area_bound(w: int, h: int, bw: int, bh: int)
    requires
        0 <= w <= bw,
        0 <= h <= bh,
    ensures
        w * h * 4 <= bw * bh * 4,
{
    assert(w * h <= bw * bh) by (nonlinear_arith)
        requires
            0 <= w <= bw,
            0 <= h <= bh,
    ;
}

/// Builds a successive-halving mip chain down to 1x1 from a full-res RGBA image.
/// Level 0 is the image itself; each further level is the previous one resized, with
/// the triangle filter, to half its width and height (never below one pixel).
pub fn mip_chain(rgba: &RgbaPixels) -> (levels: Vec<RgbaPixels>)
    requires
        rgba.wf(),
        at_least_one(rgba.width) * at_least_one(rgba.height) * 4 <= usize::MAX,
    ensures
        level_sizes(levels@) == mip_sizes(rgba.width, rgba.height),
        levels@[0].view() == rgba.view(),
        mip_levels_follow(levels_view(levels@)),
        forall|k: int| 0 <= k < levels.len() ==> (#[trigger] levels@[k]).wf(),
{
    let ghost w0 = rgba.width;
    let ghost h0 = rgba.height;
    let mut levels: Vec<RgbaPixels> = Vec::new();
    levels.push(rgba.duplicate());
    let mut mip = rgba.duplicate();
    proof {
        lemma_mip_sizes_shape(w0, h0);
        assert(level_sizes(levels@) =~= seq![(w0, h0)]);
        assert(mip_sizes(w0, h0) =~= seq![(w0, h0)] + mip_sizes(w0, h0).skip(1));
    }
    while mip.width > 1 || mip.height > 1
        invariant
            levels.len() >= 1,
            mip.view() == levels@[levels.len() - 1].view(),
            mip.wf(),
            mip.width <= at_least_one(w0),
            mip.height <= at_least_one(h0),
            at_least_one(w0) * at_least_one(h0) * 4 <= usize::MAX,
            mip_sizes(w0, h0) == level_sizes(levels@) + mip_sizes(mip.width, mip.height).skip(1),
            levels@[0].view() == (w0, h0, rgba.data@),
            rgba.width == w0 && rgba.height == h0,
            mip_levels_follow(levels_view(levels@)),
            forall|k: int| 0 <= k < levels.len() ==> (#[trigger] levels@[k]).wf(),
        decreases larger_side(mip.width, mip.height),
    {
        let w = if mip.width / 2 >= 1 { mip.width / 2 } else { 1 };
        let h = if mip.height / 2 >= 1 { mip.height / 2 } else { 1 };
        proof {
            lemma_area_bound(w as int, h as int, at_least_one(w0), at_least_one(h0));
        }
        let ghost prev_levels = levels@;
        let ghost (pw, ph) = (mip.width, mip.height);
        mip = resize_triangle(&mip, w, h);
        levels.push(mip.duplicate());
        proof {
            lemma_mip_sizes_shape(w, h);
            assert(mip_sizes(pw, ph) == seq![(pw, ph)] + mip_sizes(w, h));
            assert(mip_sizes(pw, ph).skip(1) =~= mip_sizes(w, h));
            assert(level_sizes(levels@) =~= level_sizes(prev_levels).push((w, h)));
            assert(mip_sizes(w, h) =~= seq![(w, h)] + mip_sizes(w, h).skip(1));
            assert(level_sizes(levels@) + mip_sizes(w, h).skip(1) =~= level_sizes(prev_levels) + mip_sizes(w, h));
            let lv = levels_view(levels@);
            assert forall|k: int| #![trigger lv[k]] 1 <= k < lv.len() implies lv[k].2 == triangle_resized(
                lv[k - 1].2,
                lv[k - 1].0,
                lv[k - 1].1,
                lv[k].0,
                lv[k].1,
            ) by {
                if k < lv.len() - 1 {
                    assert(lv[k] == levels_view(prev_levels)[k]);
                    assert(lv[k - 1] == levels_view(prev_levels)[k - 1]);
                }
            }
            assert(levels@[0] == prev_levels[0]);
        }
    }
    proof {
        assert(mip_sizes(mip.width, mip.height) == seq![(mip.width, mip.height)]);
        assert(mip_sizes(w0, h0) =~= level_sizes(levels@));
    }
    levels
}

/// An image of `w` x `h` pixels whose mip chain can be addressed: its one-pixel-wide
/// levels included, no level holds more bytes than a `usize` counts.
pub open spec fn chain_fits(w: u32, h: u32) -> bool {
    at_least_one(w) * at_least_one(h) * 4 <= usize::MAX
}

/// `levels` is the mip chain of the `w` x `h` image with pixel bytes `data`.
pub open spec fn is_mip_chain_of(levels: Seq<RgbaPixels>, w: u32, h: u32, data: Seq<u8>) -> bool {
    &&& level_sizes(levels) == mip_sizes(w, h)
    &&& levels[0].view() == (w, h, data)
    &&& mip_levels_follow(levels_view(levels))
}

/// The mip chain of a decoded image, given what the decoder returned: the decoder's
/// error when it failed, `TooLarge` when the chain cannot be addressed, else the chain.
pub fn mip_levels_of(decoded: Result<RgbaPixels, image::ImageError>) -> (result: Result<Vec<RgbaPixels>, TextureError>)
    requires
        decoded matches Ok(img) ==> img.wf(),
    ensures
        match decoded {
            Err(e) => result matches Err(TextureError::Decode(e2)) && e2 == e,
            Ok(img) => if chain_fits(img.width, img.height) {
                result matches Ok(levels) && is_mip_chain_of(levels@, img.width, img.height, img.data@)
            } else {
                result matches Err(TextureError::TooLarge)
            },
        },
{
    match decoded {
        Ok(img) => {
            let w: u64 = if img.width >= 1 { img.width as u64 } else { 1 };
            let h: u64 = if img.height >= 1 { img.height as u64 } else { 1 };
            let fits = match w.checked_mul(h) {
                Some(a) => a <= usize::MAX as u64 / 4,
                None => false,
            };
            if fits {
                Ok(mip_chain(&img))
            } else {
                Err(TextureError::TooLarge)
            }
        },
        Err(e) => Err(TextureError::Decode(e)),
    }
}

/// Decodes an encoded image (JPEG/PNG/…) into a full RGBA mip chain. Pure CPU.
pub fn decode(bytes: &[u8]) -> (result: Result<Vec<RgbaPixels>, TextureError>)
    ensures
        match decoded_rgba(bytes@) {
            None => result matches Err(TextureError::Decode(_)),
            Some((w, h, data)) => if chain_fits(w, h) {
                result matches Ok(levels) && is_mip_chain_of(levels@, w, h, data)
            } else {
                result matches Err(TextureError::TooLarge)
            },
        },
{
    mip_levels_of(decode_rgba(bytes))
}

/// The alignment wgpu requires of the row pitch in buffer-to-texture copies
/// (`wgpu::COPY_BYTES_PER_ROW_ALIGNMENT`).
pub const COPY_BYTES_PER_ROW_ALIGNMENT: usize = 256;

/// `n` rounded up to the next multiple of `align`.
pub open spec fn next_multiple_of(n: int, align: int) -> int {
    if n % align == 0 { n } else { n + (align - n % align) }
}

/// Byte `k` of a padded copy of `raw`, whose rows of `row_bytes` bytes are laid
/// `stride` bytes apart: the row's byte, or zero in the padding after it.
pub open spec fn padded_byte(raw: Seq<u8>, row_bytes: int, stride: int, k: int) -> u8 {
    if k % stride < row_bytes {
        raw[(k / stride) * row_bytes + k % stride]
    } else {
        0
    }
}

proof fn lemma_next_multiple(n: int, align: int)
    requires
        n >= 0,
        align > 0,
    ensures
        n <= next_multiple_of(n, align) < n + align,
        next_multiple_of(n, align) % align == 0,
{
    lemma_mod_pos_bound(n, align);
    lemma_fundamental_div_mod(n, align);
    let q = n / align;
    let m = n % align;
    if m != 0 {
        assert(next_multiple_of(n, align) == (q + 1) * align) by (nonlinear_arith)
            requires
                n == align * q + m,
                next_multiple_of(n, align) == n + (align - m),
        ;
        lemma_fundamental_div_mod_converse(next_multiple_of(n, align), align, q + 1, 0);
    }
}

/// Rounds `n` up to the next multiple of `align`.
pub fn round_up_to_multiple(n: usize, align: usize) -> (m: usize)
    requires
        align > 0,
        next_multiple_of(n as int, align as int) <= usize::MAX,
    ensures
        m == next_multiple_of(n as int, align as int),
{
    let rem = n % align;
    if rem == 0 { n } else { n + (align - rem) }
}

/// Copies `rows` rows of `row_bytes` bytes from `raw` into a buffer whose rows are
/// padded to a multiple of `alignment` bytes, as a buffer-to-texture copy requires.
/// Returns the padded bytes and the padded row pitch.
pub fn padded_rows(raw: &[u8], row_bytes: usize, rows: usize, alignment: usize) -> (out: (Vec<u8>, usize))
    requires
        alignment > 0,
        row_bytes as int * rows as int <= raw.len(),
        next_multiple_of(row_bytes as int, alignment as int) <= usize::MAX,
        next_multiple_of(row_bytes as int, alignment as int) * rows <= usize::MAX,
    ensures
        out.1 == next_multiple_of(row_bytes as int, alignment as int),
        out.0.len() == out.1 * rows,
        forall|k: int| 0 <= k < out.0.len() ==> #[trigger] out.0@[k] == padded_byte(raw@, row_bytes as int, out.1 as int, k),
{
    let stride = round_up_to_multiple(row_bytes, alignment);
    proof {
        lemma_next_multiple(row_bytes as int, alignment as int);
    }
    let mut padded: Vec<u8> = Vec::with_capacity(stride * rows);
    let mut r: usize = 0;
    while r < rows
        invariant
            stride == next_multiple_of(row_bytes as int, alignment as int),
            stride >= row_bytes,
            r <= rows,
            row_bytes as int * rows as int <= raw.len(),
            stride * rows <= usize::MAX,
            padded.len() == r * stride,
            forall|k: int| 0 <= k < padded.len() ==> #[trigger] padded@[k] == padded_byte(raw@, row_bytes as int, stride as int, k),
        decreases rows - r,
    {
        assert((r + 1) * stride <= stride * rows && r * row_bytes + row_bytes <= row_bytes * rows) by (nonlinear_arith)
            requires
                r < rows,
                stride >= 0,
                row_bytes >= 0,
        ;
        let mut c: usize = 0;
        while c < stride
            invariant
                stride == next_multiple_of(row_bytes as int, alignment as int),
                stride >= row_bytes,
                r < rows,
                c <= stride,
                (r + 1) * stride <= stride * rows,
                r * row_bytes + row_bytes <= row_bytes * rows,
                row_bytes as int * rows as int <= raw.len(),
                stride * rows <= usize::MAX,
                padded.len() == r * stride + c,
                forall|k: int| 0 <= k < padded.len() ==> #[trigger] padded@[k] == padded_byte(raw@, row_bytes as int, stride as int, k),
            decreases stride - c,
        {
            assert(r * row_bytes + c < row_bytes * rows || c >= row_bytes);
            let byte = if c < row_bytes { raw[r * row_bytes + c] } else { 0 };
            proof {
                lemma_fundamental_div_mod_converse((r * stride + c) as int, stride as int, r as int, c as int);
            }
            padded.push(byte);
            c = c + 1;
        }
        assert(r * stride + stride == (r + 1) * stride) by (nonlinear_arith);
        r = r + 1;
    }
    assert(r * stride == stride * rows) by (nonlinear_arith)
        requires
            r == rows,
    ;
    (padded, stride)
}

/// Law: padding keeps every image byte and zero-fills the rest: byte `c` of row `r` is
/// at `r * stride + c`, the pitch `stride` is the least multiple of the alignment that
/// holds a row, and everything else in a padded row is zero.
pub proof fn law_padding_keeps_rows(raw: Seq<u8>, row_bytes: int, alignment: int, r: int, c: int)
    requires
        alignment > 0,
        row_bytes >= 0,
        r >= 0,
        0 <= c < next_multiple_of(row_bytes, alignment),
    ensures
        next_multiple_of(row_bytes, alignment) % alignment == 0,
        row_bytes <= next_multiple_of(row_bytes, alignment) < row_bytes + alignment,
        padded_byte(raw, row_bytes, next_multiple_of(row_bytes, alignment), r * next_multiple_of(row_bytes, alignment) + c)
            == if c < row_bytes { raw[r * row_bytes + c] } else { 0u8 },
{
    let stride = next_multiple_of(row_bytes, alignment);
    lemma_next_multiple(row_bytes, alignment);
    lemma_fundamental_div_mod_converse(r * stride + c, stride, r, c);
}

/// The bytes to upload for one mip level of an RGBA image, rows padded to wgpu's
/// buffer-to-texture alignment, and the padded row pitch.
pub fn image_upload_rows(image: &RgbaPixels) -> (out: (Vec<u8>, usize))
    requires
        image.wf(),
        next_multiple_of(image.width as int * 4, COPY_BYTES_PER_ROW_ALIGNMENT as int) <= usize::MAX,
        next_multiple_of(image.width as int * 4, COPY_BYTES_PER_ROW_ALIGNMENT as int) * image.height <= usize::MAX,
    ensures
        out.1 == next_multiple_of(image.width as int * 4, COPY_BYTES_PER_ROW_ALIGNMENT as int),
        out.0.len() == out.1 * image.height,
        forall|k: int| 0 <= k < out.0.len() ==> #[trigger] out.0@[k] == padded_byte(image.data@, image.width as int * 4, out.1 as int, k),
{
    proof {
        lemma_next_multiple(image.width as int * 4, COPY_BYTES_PER_ROW_ALIGNMENT as int);
        assert((image.width as int * 4) * image.height == image.width as int * image.height as int * 4) by (nonlinear_arith);
    }
    let row_bytes = (image.width as usize) * 4;
    padded_rows(image.data.as_slice(), row_bytes, image.height as usize, COPY_BYTES_PER_ROW_ALIGNMENT)
}

} // verus!
