//! Texture preparation: decoding an encoded image into RGBA pixels, turning
//! it upside down for the device's texture origin, and planning the mip
//! chain that is blitted level by level after upload.
use vstd::prelude::*;

verus! {

/// `image::ImageError`, the decoders' error, carried through unread.
#[verifier::external_type_specification]
#[verifier::external_body]
pub struct ExImageError(image::ImageError);

/// An image as rows of 8-bit RGBA pixels, top row first.
pub struct RgbaPixels {
    pub width: u32,
    pub height: u32,
    pub pixels: Vec<u8>,
}

/// What `image` decodes from the bytes of an encoded image, as 8-bit RGBA:
/// width, height and pixel bytes, or `None` if it cannot decode them.
pub uninterp spec fn decoded_rgba(bytes: Seq<u8>) -> Option<(u32, u32, Seq<u8>)>;

/// Relies on `image::load_from_memory` and `DynamicImage::into_rgba8`: the
/// decoded image depends on the bytes alone. The format (PNG or JPEG) is
/// guessed from the leading bytes, not from a file name's extension.
#[verifier::external_body]
fn decode_rgba(bytes: &[u8]) -> (r: Result<RgbaPixels, image::ImageError>)
    ensures
        match r {
            Ok(img) => decoded_rgba(bytes@) == Some((img.width, img.height, img.pixels@)),
            Err(_) => decoded_rgba(bytes@) is None,
        },
{
    let img = image::load_from_memory(bytes)?.into_rgba8();
    Ok(RgbaPixels { width: img.width(), height: img.height(), pixels: img.into_raw() })
}

/// Why a texture could not be prepared.
#[derive(Debug)]
pub enum TextureError {
    /// The bytes are not an image that can be decoded.
    Decode(image::ImageError),
    /// The pixel bytes are not four per pixel.
    PixelCount,
}

/// `floor(log2(n))` for `n >= 1`.
pub open spec fn log2_floor(n: nat) -> nat
    decreases n,
{
    if n <= 1 {
        0
    } else {
        1 + log2_floor(n / 2)
    }
}

/// Mip levels of a texture: one per halving of the smaller side down to 1.
pub open spec fn mip_levels_spec(width: u32, height: u32) -> nat {
    let m = if width <= height { width } else { height };
    if m == 0 {
        0
    } else {
        log2_floor(m as nat) + 1
    }
}

/// A side's length at mip `level`: halved per level, at least 1.
pub open spec fn mip_extent(side: u32, level: nat) -> u32
    decreases level,
{
    if level == 0 {
        side
    } else {
        let prev = mip_extent(side, (level - 1) as nat);
        if prev / 2 >= 1 {
            (prev / 2) as u32
        } else {
            1
        }
    }
}

/// One blit of the mip chain: level `level - 1`, of the source size, scaled
/// into level `level`, of the destination size.
#[derive(PartialEq, Eq, Structural, Clone, Copy, Debug)]
pub struct MipBlit {
    pub level: u32,
    pub src_width: u32,
    pub src_height: u32,
    pub dst_width: u32,
    pub dst_height: u32,
}

/// The blit that makes mip `level` of a `width` x `height` texture.
pub open spec fn mip_blit(width: u32, height: u32, level: nat) -> MipBlit {
    MipBlit {
        level: level as u32,
        src_width: mip_extent(width, (level - 1) as nat),
        src_height: mip_extent(height, (level - 1) as nat),
        dst_width: mip_extent(width, level),
        dst_height: mip_extent(height, level),
    }
}

/// Row `i` of an image whose rows are `rl` bytes long.
pub open spec fn row(p: Seq<u8>, rl: nat, i: nat) -> Seq<u8> {
    p.subrange((i * rl) as int, ((i + 1) * rl) as int)
}

/// The first `n` rows in reverse order.
pub open spec fn rows_reversed(p: Seq<u8>, rl: nat, n: nat) -> Seq<u8>
    decreases n,
{
    if n == 0 {
        Seq::empty()
    } else {
        row(p, rl, (n - 1) as nat) + rows_reversed(p, rl, (n - 1) as nat)
    }
}

/// A texture ready for upload.
pub struct TextureData {
    pub width: u32,
    pub height: u32,
    /// RGBA pixel bytes, bottom row first.
    pub pixels: Vec<u8>,
    pub mip_levels: u32,
    /// The blits that make levels `1..mip_levels`, in order.
    pub blits: Vec<MipBlit>,
}

fn log2_floor_exec(n: u32) -> (r: u32)
    requires
        n >= 1,
    ensures
        r == log2_floor(n as nat),
        r < 32,
{
    let mut m = n;
    let mut k: u32 = 0;
    assert(pow2(0) == 1);
    while m > 1
        invariant
            m >= 1,
            k + log2_floor(m as nat) == log2_floor(n as nat),
            k < 32,
            m as nat * pow2(k as nat) <= n as nat,
        decreases m,
    {
        proof {
            lemma_pow2_double(k as nat);
            assert((m / 2) as nat * pow2((k + 1) as nat) <= m as nat * pow2(k as nat)) by (nonlinear_arith)
                requires pow2((k + 1) as nat) == 2 * pow2(k as nat), m >= 2;
            lemma_pow2_bound(k as nat + 1);
        }
        m = m / 2;
        k = k + 1;
        proof {
            if k >= 32 {
                lemma_pow2_mono(32, k as nat);
                assert(m as nat * pow2(k as nat) >= pow2(32)) by (nonlinear_arith)
                    requires m >= 1, pow2(k as nat) >= pow2(32);
                lemma_pow2_32();
            }
        }
    }
    k
}

pub open spec fn pow2(k: nat) -> nat
    decreases k,
{
    if k == 0 {
        1
    } else {
        2 * pow2((k - 1) as nat)
    }
}

proof fn lemma_pow2_32()
    ensures
        pow2(32) == 0x1_0000_0000,
{
    reveal_with_fuel(pow2, 33);
}

proof fn lemma_pow2_double(k: nat)
    ensures
        pow2(k + 1) == 2 * pow2(k),
{
}

proof fn lemma_pow2_bound(k: nat)
    ensures
        pow2(k) >= 1,
    decreases k,
{
    if k > 0 {
        lemma_pow2_bound((k - 1) as nat);
    }
}

proof fn lemma_pow2_mono(a: nat, b: nat)
    requires
        a <= b,
    ensures
        pow2(a) <= pow2(b),
    decreases b - a,
{
    if a < b {
        lemma_pow2_mono(a, (b - 1) as nat);
        lemma_pow2_bound((b - 1) as nat);
    }
}

fn half_at_least_one(x: u32) -> (r: u32)
    ensures
        r == (if x / 2 >= 1 { (x / 2) as u32 } else { 1u32 }),
{
    if x / 2 >= 1 { x / 2 } else { 1 }
}

/// The mip level count and the blits of the chain for a texture size.
pub fn plan_mips(width: u32, height: u32) -> (r: (u32, Vec<MipBlit>))
    ensures
        r.0 == mip_levels_spec(width, height),
        r.1.len() == (if r.0 == 0 { 0 } else { r.0 - 1 }),
        forall|i: int| 0 <= i < r.1.len() ==> #[trigger] r.1@[i] == mip_blit(width, height, (i + 1) as nat),
{
    let m = if width <= height { width } else { height };
    if m == 0 {
        return (0, Vec::new());
    }
    let levels = log2_floor_exec(m) + 1;
    let mut blits: Vec<MipBlit> = Vec::new();
    let mut mw = width;
    let mut mh = height;
    let mut level: u32 = 1;
    while level < levels
        invariant
            1 <= level <= levels,
            levels <= 32,
            blits.len() == level - 1,
            mw == mip_extent(width, (level - 1) as nat),
            mh == mip_extent(height, (level - 1) as nat),
            forall|i: int| 0 <= i < blits.len() ==> #[trigger] blits@[i] == mip_blit(width, height, (i + 1) as nat),
        decreases levels - level,
    {
        let nw = half_at_least_one(mw);
        let nh = half_at_least_one(mh);
        blits.push(MipBlit { level, src_width: mw, src_height: mh, dst_width: nw, dst_height: nh });
        mw = nw;
        mh = nh;
        level = level + 1;
    }
    (levels, blits)
}

fn flip_rows(p: &Vec<u8>, rl: usize, h: usize) -> (r: Vec<u8>)
    requires
        p.len() == rl * h,
    ensures
        r@ == rows_reversed(p@, rl as nat, h as nat),
{
    let mut out: Vec<u8> = Vec::new();
    let mut k: usize = 0;
    assert(out@ + rows_reversed(p@, rl as nat, h as nat) =~= rows_reversed(p@, rl as nat, h as nat));
    while k < h
        invariant
            p.len() == rl * h,
            k <= h,
            out@ + rows_reversed(p@, rl as nat, (h - k) as nat) == rows_reversed(p@, rl as nat, h as nat),
        decreases h - k,
    {
        let i: usize = h - 1 - k;
        proof {
            assert((i as int + 1) * (rl as int) <= (h as int) * (rl as int)) by (nonlinear_arith)
                requires i + 1 <= h;
            assert((i as int + 1) * (rl as int) == i as int * rl as int + rl as int) by (nonlinear_arith);
            assert(rl as int * h as int == h as int * rl as int) by (nonlinear_arith);
        }
        let start: usize = i * rl;
        let end: usize = start + rl;
        let ghost before = out@;
        let mut j: usize = start;
        while j < end
            invariant
                start <= j <= end,
                end <= p.len(),
                out@ == before + p@.subrange(start as int, j as int),
            decreases end - j,
        {
            out.push(p[j]);
            j = j + 1;
            assert(out@ =~= before + p@.subrange(start as int, j as int));
        }
        proof {
            let n = (h - k) as nat;
            assert(row(p@, rl as nat, i as nat) == p@.subrange(start as int, end as int));
            assert(rows_reversed(p@, rl as nat, n) == row(p@, rl as nat, (n - 1) as nat) + rows_reversed(p@, rl as nat, (n - 1) as nat));
            assert(out@ + rows_reversed(p@, rl as nat, (n - 1) as nat) =~= before + rows_reversed(p@, rl as nat, n));
        }
        k = k + 1;
    }
    out
}

impl TextureData {
    /// Prepares decoded RGBA pixels (top row first) for upload: rows turned
    /// bottom first, and the mip chain planned. Fails if there are not four
    /// bytes per pixel.
    pub fn from_rgba(width: u32, height: u32, pixels: Vec<u8>) -> (r: Result<TextureData, TextureError>)
        ensures
            match r {
                Ok(t) => {
                    &&& pixels@.len() == 4 * width as int * height as int
                    &&& t.width == width
                    &&& t.height == height
                    &&& t.pixels@ == rows_reversed(pixels@, 4 * width as nat, height as nat)
                    &&& t.mip_levels == mip_levels_spec(width, height)
                    &&& t.blits.len() == (if t.mip_levels == 0 { 0 } else { t.mip_levels - 1 })
                    &&& forall|i: int| 0 <= i < t.blits.len() ==> #[trigger] t.blits@[i] == mip_blit(width, height, (i + 1) as nat)
                },
                Err(e) => e is PixelCount && pixels@.len() != 4 * width as int * height as int,
            },
    {
        proof {
            assert(4 * (width as int) * (height as int) <= 4 * 0xFFFF_FFFFu64 as int * 0xFFFF_FFFFu64 as int) by (nonlinear_arith)
                requires width <= 0xFFFF_FFFFu32, height <= 0xFFFF_FFFFu32;
        }
        let expected: u128 = 4u128 * (width as u128) * (height as u128);
        if expected != pixels.len() as u128 {
            return Err(TextureError::PixelCount);
        }
        let flipped = if height == 0 {
            assert(rows_reversed(pixels@, 4 * width as nat, 0) =~= Seq::<u8>::empty());
            Vec::new()
        } else {
            proof {
                assert(4 * (width as int) <= 4 * (width as int) * (height as int)) by (nonlinear_arith)
                    requires height >= 1;
            }
            let rl: usize = 4 * (width as usize);
            proof {
                assert(rl as int * height as int == 4 * width as int * height as int) by (nonlinear_arith)
                    requires rl == 4 * width as int;
            }
            flip_rows(&pixels, rl, height as usize)
        };
        let (mip_levels, blits) = plan_mips(width, height);
        Ok(TextureData { width, height, pixels: flipped, mip_levels, blits })
    }

    /// Decodes an encoded image (PNG or JPEG) and prepares it for upload.
    pub fn decode(bytes: &[u8]) -> (r: Result<TextureData, TextureError>)
        ensures
            match decoded_rgba(bytes@) {
                None => r matches Err(TextureError::Decode(_)),
                Some((w, h, p)) => match r {
                    Ok(t) => {
                        &&& p.len() == 4 * w as int * h as int
                        &&& t.width == w
                        &&& t.height == h
                        &&& t.pixels@ == rows_reversed(p, 4 * w as nat, h as nat)
                        &&& t.mip_levels == mip_levels_spec(w, h)
                        &&& t.blits.len() == (if t.mip_levels == 0 { 0 } else { t.mip_levels - 1 })
                        &&& forall|i: int| 0 <= i < t.blits.len() ==> #[trigger] t.blits@[i] == mip_blit(w, h, (i + 1) as nat)
                    },
                    Err(e) => e is PixelCount && p.len() != 4 * w as int * h as int,
                },
            },
    {
        match decode_rgba(bytes) {
            Ok(img) => Self::from_rgba(img.width, img.height, img.pixels),
            Err(e) => Err(TextureError::Decode(e)),
        }
    }
}

} // verus!
