use crate::math::{ceil_div, div_ceil_u32, larger, max_u32, min_u32, smaller};
use crate::slots::{canonical, lookup, no_records, valid_handle, HandleTable, Record, MAX_RECORDS};
use vstd::arithmetic::power2::pow2;
use vstd::prelude::*;

verus! {

/// How a texture's texels are stored.
#[derive(Clone, Copy, Debug, PartialEq, Eq, Structural)]
pub enum TextureFormat {
    Rgba8,
    Bc1,
    Bc2,
    Bc3,
}

impl TextureFormat {
    /// The format with the number `v`, if there is one.
    pub open spec fn numbered(v: i32) -> Option<TextureFormat> {
        match v {
            0 => Some(TextureFormat::Rgba8),
            1 => Some(TextureFormat::Bc1),
            2 => Some(TextureFormat::Bc2),
            3 => Some(TextureFormat::Bc3),
            _ => None,
        }
    }

    /// The format with the number `v`, if there is one.
    pub fn from_i32(v: i32) -> (f: Option<TextureFormat>)
        ensures
            f == TextureFormat::numbered(v),
    {
        match v {
            0 => Some(TextureFormat::Rgba8),
            1 => Some(TextureFormat::Bc1),
            2 => Some(TextureFormat::Bc2),
            3 => Some(TextureFormat::Bc3),
            _ => None,
        }
    }

    /// Texels are stored in blocks of four by four.
    pub open spec fn compressed(self) -> bool {
        self != TextureFormat::Rgba8
    }

    /// Bytes of a texel, or of a block.
    pub open spec fn unit_bytes(self) -> int {
        match self {
            TextureFormat::Rgba8 => 4,
            TextureFormat::Bc1 => 8,
            TextureFormat::Bc2 => 16,
            TextureFormat::Bc3 => 16,
        }
    }

    /// How many texels or blocks cover `size` texels.
    pub open spec fn units(self, size: int) -> int {
        if self.compressed() {
            ceil_div(size, 4)
        } else {
            size
        }
    }

    /// Bytes of one row of texels or blocks.
    pub open spec fn row_bytes(self, width: int) -> int {
        self.units(width) * self.unit_bytes()
    }

    /// Bytes of an image.
    pub open spec fn image_bytes(self, width: int, height: int) -> int {
        self.row_bytes(width) * self.units(height)
    }

    /// Whether texels are stored in blocks.
    pub fn is_block_compressed(self) -> (b: bool)
        ensures
            b == self.compressed(),
    {
        !matches!(self, TextureFormat::Rgba8)
    }

    /// Bytes of one row of texels or blocks.
    pub fn bytes_per_row(self, width: u32) -> (n: u32)
        requires
            self.row_bytes(width as int) <= u32::MAX,
        ensures
            n == self.row_bytes(width as int),
    {
        match self {
            TextureFormat::Rgba8 => width * 4,
            TextureFormat::Bc1 => div_ceil_u32(width, 4) * 8,
            TextureFormat::Bc2 | TextureFormat::Bc3 => div_ceil_u32(width, 4) * 16,
        }
    }

    /// Rows of texels or blocks.
    pub fn rows(self, height: u32) -> (n: u32)
        ensures
            n == self.units(height as int),
    {
        if self.is_block_compressed() {
            div_ceil_u32(height, 4)
        } else {
            height
        }
    }

    /// Bytes of an image.
    pub fn expected_len(self, width: u32, height: u32) -> (n: u32)
        requires
            self.row_bytes(width as int) <= u32::MAX,
            self.image_bytes(width as int, height as int) <= u32::MAX,
        ensures
            n == self.image_bytes(width as int, height as int),
    {
        proof {
            sizes_are_positive(self, width as int, height as int);
        }
        self.bytes_per_row(width) * self.rows(height)
    }
}

/// Sizes are not negative, and an image that is not empty holds at least one of its rows.
proof fn sizes_are_positive(format: TextureFormat, width: int, height: int)
    requires
        width >= 0,
        height >= 0,
    ensures
        format.row_bytes(width) >= 0,
        format.units(height) >= 0,
        format.image_bytes(width, height) >= 0,
        width > 0 ==> format.row_bytes(width) > 0,
        height > 0 ==> format.units(height) > 0,
        height > 0 ==> format.row_bytes(width) <= format.image_bytes(width, height),
        format.row_bytes(width) >= 0,
{
    let (u, b, r) = (format.units(width), format.unit_bytes(), format.units(height));
    assert(u * b >= 0 && (u > 0 ==> u * b > 0)) by (nonlinear_arith)
        requires
            u >= 0,
            b > 0,
    ;
    let rb = format.row_bytes(width);
    assert(rb * r >= 0 && (r > 0 ==> rb <= rb * r)) by (nonlinear_arith)
        requires
            rb >= 0,
            r >= 0,
    ;
}

/// The size of a dimension at mip level `level`.
pub open spec fn level_size(size: u32, level: u32) -> int {
    larger((size >> level) as int, 1)
}

/// Bytes of the first `count` mip levels, packed tightly.
pub open spec fn packed_bytes(format: TextureFormat, width: u32, height: u32, count: nat) -> int
    decreases count,
{
    if count == 0 {
        0
    } else {
        let level = (count - 1) as u32;
        packed_bytes(format, width, height, (count - 1) as nat) + format.image_bytes(
            level_size(width, level),
            level_size(height, level),
        )
    }
}

/// Packed sizes grow with every level.
pub(crate) proof fn packed_bytes_grow(
    format: TextureFormat,
    width: u32,
    height: u32,
    a: nat,
    b: nat,
)
    requires
        a <= b,
    ensures
        0 <= packed_bytes(format, width, height, a) <= packed_bytes(format, width, height, b),
    decreases b,
{
    if b > 0 {
        let level = (b - 1) as u32;
        sizes_are_positive(format, level_size(width, level), level_size(height, level));
        if a < b {
            packed_bytes_grow(format, width, height, a, (b - 1) as nat);
        } else {
            packed_bytes_grow(format, width, height, (a - 1) as nat, (b - 1) as nat);
        }
    }
}

/// The number of mip levels of a texture whose larger side is `size`: one, and one more for
/// every halving that leaves anything.
pub open spec fn chain_len(size: nat) -> nat
    decreases size,
{
    if size <= 1 {
        1
    } else {
        1 + chain_len(size / 2)
    }
}

/// The number of mip levels of a `w` by `h` texture.
pub open spec fn texture_levels(w: u32, h: u32) -> nat {
    chain_len(larger(w as int, h as int) as nat)
}

/// A chain's length is the number of binary digits of the size.
proof fn chain_len_counts_digits(size: nat, n: nat)
    requires
        n >= 1,
        pow2((n - 1) as nat) <= size < pow2(n),
    ensures
        chain_len(size) == n,
    decreases n,
{
    vstd::arithmetic::power2::lemma2_to64();
    vstd::arithmetic::power2::lemma_pow2_unfold(n);
    if n > 1 {
        vstd::arithmetic::power2::lemma_pow2_unfold((n - 1) as nat);
        vstd::arithmetic::power2::lemma_pow2_pos((n - 2) as nat);
        chain_len_counts_digits(size / 2, (n - 1) as nat);
    }
}

/// The number of mip levels of a `w` by `h` texture, down to one texel.
pub fn mip_chain_len(w: u32, h: u32) -> (n: u32)
    ensures
        n == texture_levels(w, h),
        1 <= n <= 32,
{
    let m: u32 = max_u32(max_u32(w, h), 1);
    let z: u32 = m.leading_zeros();
    proof {
        vstd::std_specs::bits::axiom_u32_leading_zeros(m);
        let (n, s) = ((32 - z) as u32, (31 - z) as u32);
        vstd::arithmetic::power2::lemma2_to64();
        vstd::arithmetic::power2::lemma_pow2_pos(s as nat);
        vstd::bits::lemma_u32_shr_is_div(m, s);
        assert((m >> s) & 1u32 != 0u32 ==> m >> s > 0) by (bit_vector);
        if m < pow2(s as nat) {
            vstd::arithmetic::div_mod::lemma_basic_div(m as int, pow2(s as nat) as int);
        }
        if n < 32 {
            vstd::bits::lemma_u32_shr_is_div(m, n);
            vstd::arithmetic::power2::lemma_pow2_pos(n as nat);
            if m >= pow2(n as nat) {
                vstd::arithmetic::div_mod::lemma_div_non_zero(m as int, pow2(n as nat) as int);
            }
        }
        chain_len_counts_digits(m as nat, n as nat);
    }
    32 - z
}

/// Channel `c` of the texel at (`x`, `y`) of an RGBA8 image `sw` wide.
pub open spec fn texel(src: Seq<u8>, sw: int, x: int, y: int, c: int) -> int {
    src[(y * sw + x) * 4 + c] as int
}

/// The rounded average of the two by two texels that (`x`, `y`) of the half-size image covers;
/// past the edge, the last row and column repeat.
pub open spec fn box_average(src: Seq<u8>, sw: int, sh: int, x: int, y: int, c: int) -> u8 {
    let (x0, x1) = (smaller(2 * x, sw - 1), smaller(2 * x + 1, sw - 1));
    let (y0, y1) = (smaller(2 * y, sh - 1), smaller(2 * y + 1, sh - 1));
    ((texel(src, sw, x0, y0, c) + texel(src, sw, x1, y0, c) + texel(src, sw, x0, y1, c) + texel(
        src,
        sw,
        x1,
        y1,
        c,
    ) + 2) / 4) as u8
}

/// An RGBA8 image reduced to `nw` by `nh` by averaging.
pub open spec fn downsampled(src: Seq<u8>, sw: int, sh: int, nw: int, nh: int) -> Seq<u8> {
    Seq::new(
        (nw * nh * 4) as nat,
        |i: int| box_average(src, sw, sh, (i / 4) % nw, (i / 4) / nw, i % 4),
    )
}

/// An RGBA8 image of `w` by `h` texels whose bytes can be counted in 32 bits.
pub open spec fn rgba8_image(src: Seq<u8>, w: int, h: int) -> bool {
    &&& w > 0
    &&& h > 0
    &&& w * h * 4 <= u32::MAX
    &&& src.len() >= w * h * 4
}

/// A texel inside the image is inside its bytes.
pub(crate) proof fn texel_in_bounds(w: int, h: int, x: int, y: int)
    requires
        0 <= x < w,
        0 <= y < h,
    ensures
        0 <= y * w,
        y * w + x < w * h,
        (y * w + x) * 4 + 3 < w * h * 4,
{
    assert(0 <= y * w && y * w + x < w * h) by (nonlinear_arith)
        requires
            0 <= x < w,
            0 <= y < h,
    ;
}

fn read_texel(src: &[u8], sw: u32, sh: u32, x: u32, y: u32, c: u32) -> (t: u32)
    requires
        rgba8_image(src@, sw as int, sh as int),
        x < sw,
        y < sh,
        c < 4,
    ensures
        t == texel(src@, sw as int, x as int, y as int, c as int),
        t <= 255,
{
    proof {
        texel_in_bounds(sw as int, sh as int, x as int, y as int);
    }
    src[((y * sw + x) * 4) as usize + c as usize] as u32
}

fn average_texel(src: &[u8], sw: u32, sh: u32, x: u32, y: u32, c: u32) -> (a: u8)
    requires
        rgba8_image(src@, sw as int, sh as int),
        x < 0x8000_0000,
        y < 0x8000_0000,
        c < 4,
    ensures
        a == box_average(src@, sw as int, sh as int, x as int, y as int, c as int),
{
    let y0: u32 = min_u32(y * 2, sh - 1);
    let y1: u32 = min_u32(y * 2 + 1, sh - 1);
    let x0: u32 = min_u32(x * 2, sw - 1);
    let x1: u32 = min_u32(x * 2 + 1, sw - 1);
    let sum: u32 = read_texel(src, sw, sh, x0, y0, c) + read_texel(src, sw, sh, x1, y0, c)
        + read_texel(src, sw, sh, x0, y1, c) + read_texel(src, sw, sh, x1, y1, c);
    ((sum + 2) / 4) as u8
}

/// Reduces an RGBA8 image to `nw` by `nh` by averaging two by two texels.
pub fn downsample_rgba8(src: &[u8], sw: u32, sh: u32, nw: u32, nh: u32) -> (out: Vec<u8>)
    requires
        nw > 0 && nh > 0 ==> rgba8_image(src@, sw as int, sh as int),
        nw * nh * 4 <= u32::MAX,
    ensures
        out@ == downsampled(src@, sw as int, sh as int, nw as int, nh as int),
{
    let mut out: Vec<u8> = Vec::new();
    let ghost whole = downsampled(src@, sw as int, sh as int, nw as int, nh as int);
    let mut y: u32 = 0;
    assert(0int * nw == 0) by (nonlinear_arith);
    while y < nh
        invariant
            nw > 0 && nh > 0 ==> rgba8_image(src@, sw as int, sh as int),
            nw * nh * 4 <= u32::MAX,
            y <= nh,
            whole == downsampled(src@, sw as int, sh as int, nw as int, nh as int),
            out@.len() == y * nw * 4,
            out@.len() <= whole.len(),
            forall|i: int| 0 <= i < out@.len() ==> #[trigger] out@[i] == whole[i],
        decreases nh - y,
    {
        let mut x: u32 = 0;
        assert(y * nw + nw <= nh * nw && (y + 1) * nw == y * nw + nw) by (nonlinear_arith)
            requires
                y < nh,
        ;
        assert(nh * nw == nw * nh) by (nonlinear_arith);
        while x < nw
            invariant
                nw > 0 && nh > 0 ==> rgba8_image(src@, sw as int, sh as int),
                nw * nh * 4 <= u32::MAX,
                y < nh,
                x <= nw,
                y * nw + nw <= nw * nh,
                whole == downsampled(src@, sw as int, sh as int, nw as int, nh as int),
                out@.len() == (y * nw + x) * 4,
                out@.len() <= whole.len(),
                forall|i: int| 0 <= i < out@.len() ==> #[trigger] out@[i] == whole[i],
            decreases nw - x,
        {
            let mut c: u32 = 0;
            assert(nw <= nw * nh && nh <= nw * nh) by (nonlinear_arith)
                requires
                    nw > 0,
                    nh > 0,
            ;
            while c < 4
                invariant
                    rgba8_image(src@, sw as int, sh as int),
                    nw < 0x8000_0000,
                    nh < 0x8000_0000,
                    y < nh,
                    x < nw,
                    c <= 4,
                    y * nw + nw <= nw * nh,
                    whole == downsampled(src@, sw as int, sh as int, nw as int, nh as int),
                    out@.len() == (y * nw + x) * 4 + c,
                    out@.len() <= whole.len(),
                    forall|i: int| 0 <= i < out@.len() ==> #[trigger] out@[i] == whole[i],
                decreases 4 - c,
            {
                let a: u8 = average_texel(src, sw, sh, x, y, c);
                proof {
                    let i = out@.len() as int;
                    assert(i / 4 == y * nw + x);
                    assert(i % 4 == c);
                    vstd::arithmetic::div_mod::lemma_fundamental_div_mod_converse(
                        i / 4,
                        nw as int,
                        y as int,
                        x as int,
                    );
                    assert(i < whole.len());
                    assert(whole[i] == a);
                }
                out.push(a);
                c = c + 1;
            }
            x = x + 1;
        }
        y = y + 1;
    }
    assert(out@ =~= whole) by {
        assert(nh * nw == nw * nh) by (nonlinear_arith);
    }
    out
}

/// An image of one colour stays of that colour.
pub proof fn uniform_image_stays_uniform(
    src: Seq<u8>,
    sw: int,
    sh: int,
    nw: int,
    nh: int,
    colour: spec_fn(int) -> u8,
    i: int,
)
    requires
        rgba8_image(src, sw, sh),
        nw > 0,
        nh > 0,
        forall|j: int| 0 <= j < sw * sh * 4 ==> #[trigger] src[j] == colour(j % 4),
        0 <= i < nw * nh * 4,
    ensures
        downsampled(src, sw, sh, nw, nh)[i] == colour(i % 4),
{
    let (x, y, c) = ((i / 4) % nw, (i / 4) / nw, i % 4);
    vstd::arithmetic::div_mod::lemma_mod_pos_bound(i / 4, nw);
    vstd::arithmetic::div_mod::lemma_div_pos_is_pos(i / 4, nw);
    let (x0, x1) = (smaller(2 * x, sw - 1), smaller(2 * x + 1, sw - 1));
    let (y0, y1) = (smaller(2 * y, sh - 1), smaller(2 * y + 1, sh - 1));
    texel_in_bounds(sw, sh, x0, y0);
    texel_in_bounds(sw, sh, x1, y0);
    texel_in_bounds(sw, sh, x0, y1);
    texel_in_bounds(sw, sh, x1, y1);
    assert(((y0 * sw + x0) * 4 + c) % 4 == c);
    assert(((y0 * sw + x1) * 4 + c) % 4 == c);
    assert(((y1 * sw + x0) * 4 + c) % 4 == c);
    assert(((y1 * sw + x1) * 4 + c) % 4 == c);
}

/// A texture as the engine hands it over.
pub struct TextureData<'a> {
    pub width: u32,
    pub height: u32,
    pub format: TextureFormat,
    /// How many mip levels `bytes` holds, tightly packed, the largest first.
    pub mip_count: u32,
    /// Fill in the smaller levels by averaging (RGBA8 with one level only).
    pub gen_mips: bool,
    pub bytes: &'a [u8],
}

/// Texels to be written into one mip level of one layer of a texture.
pub struct MipWrite {
    pub layer: u32,
    pub mip_level: u32,
    pub width: u32,
    pub height: u32,
    pub bytes_per_row: u32,
    pub rows_per_image: u32,
    pub data: Vec<u8>,
}

impl MipWrite {
    /// A write of `data` as the `w` by `h` image of a level.
    pub open spec fn writes(
        &self,
        format: TextureFormat,
        layer: int,
        level: int,
        w: int,
        h: int,
        data: Seq<u8>,
    ) -> bool {
        &&& self.layer == layer
        &&& self.mip_level == level
        &&& self.width == w
        &&& self.height == h
        &&& self.bytes_per_row == format.row_bytes(w)
        &&& self.rows_per_image == format.units(h)
        &&& self.data@ == data
    }
}

/// Level `level` of the averaged chain over `base`, which is `w` by `h`: each level averages the
/// one before.
pub open spec fn chain_level(base: Seq<u8>, w: u32, h: u32, level: nat) -> Seq<u8>
    decreases level,
{
    if level == 0 {
        base
    } else {
        let l = (level - 1) as nat;
        downsampled(
            chain_level(base, w, h, l),
            level_size(w, l as u32),
            level_size(h, l as u32),
            level_size(w, level as u32),
            level_size(h, level as u32),
        )
    }
}

/// Level zero has the size itself, and every level half the size of the one before, rounded
/// down, and at least one.
pub proof fn levels_halve(size: u32, level: u32)
    ensures
        level_size(size, 0) == larger(size as int, 1),
        level < u32::MAX ==> level_size(size, (level + 1) as u32) == larger(
            level_size(size, level) / 2,
            1,
        ),
{
    assert(size >> 0u32 == size) by (bit_vector);
    if level < u32::MAX {
        let next = (level + 1) as u32;
        assert(size >> next == (size >> level) / 2) by (bit_vector)
            requires
                next == level + 1,
        ;
    }
}

/// The writes that fill `mip_level_count` levels with an RGBA8 image and its averages.
pub fn write_rgba8_mip_chain(
    layer: u32,
    width: u32,
    height: u32,
    mip_level_count: u32,
    base: &[u8],
) -> (writes: Vec<MipWrite>)
    requires
        rgba8_image(base@, width as int, height as int),
    ensures
        writes@.len() == mip_level_count,
        forall|i: int|
            0 <= i < mip_level_count ==> (#[trigger] writes@[i]).writes(
                TextureFormat::Rgba8,
                layer as int,
                i,
                level_size(width, i as u32),
                level_size(height, i as u32),
                chain_level(base@, width, height, i as nat),
            ),
{
    let mut writes: Vec<MipWrite> = Vec::new();
    let mut level: Vec<u8> = copy_bytes(base);
    let mut lw: u32 = width;
    let mut lh: u32 = height;
    let mut mip: u32 = 0;
    proof {
        levels_halve(width, 0);
        levels_halve(height, 0);
    }
    while mip < mip_level_count
        invariant
            mip <= mip_level_count,
            writes@.len() == mip,
            lw == level_size(width, mip),
            lh == level_size(height, mip),
            level@ == chain_level(base@, width, height, mip as nat),
            rgba8_image(level@, lw as int, lh as int),
            forall|i: int|
                0 <= i < mip ==> (#[trigger] writes@[i]).writes(
                    TextureFormat::Rgba8,
                    layer as int,
                    i,
                    level_size(width, i as u32),
                    level_size(height, i as u32),
                    chain_level(base@, width, height, i as nat),
                ),
        decreases mip_level_count - mip,
    {
        assert(lw * 4 <= lw * lh * 4) by (nonlinear_arith)
            requires
                lw > 0,
                lh > 0,
        ;
        proof {
            levels_halve(width, mip);
            levels_halve(height, mip);
        }
        let last: bool = mip + 1 >= mip_level_count;
        let mut next: Vec<u8> = Vec::new();
        let nw: u32 = max_u32(lw / 2, 1);
        let nh: u32 = max_u32(lh / 2, 1);
        assert(nw * nh <= lw * lh) by (nonlinear_arith)
            requires
                0 < nw <= lw,
                0 < nh <= lh,
        ;
        if !last {
            next = downsample_rgba8(level.as_slice(), lw, lh, nw, nh);
        }
        writes.push(
            MipWrite {
                layer,
                mip_level: mip,
                width: lw,
                height: lh,
                bytes_per_row: lw * 4,
                rows_per_image: lh,
                data: level,
            },
        );
        if last {
            return writes;
        }
        level = next;
        lw = nw;
        lh = nh;
        mip = mip + 1;
    }
    writes
}

fn copy_bytes(src: &[u8]) -> (out: Vec<u8>)
    ensures
        out@ == src@,
{
    let mut out: Vec<u8> = Vec::new();
    out.extend_from_slice(src);
    assert(out@ =~= src@);
    out
}

proof fn levels_left(size: u32, level: u32)
    ensures
        (size >> level) > 1 <==> level + 1 < chain_len(size as nat),
    decreases level,
{
    if level == 0 {
        assert(size >> 0u32 == size) by (bit_vector);
        assert(chain_len((size / 2) as nat) >= 1);
    } else {
        let (half, above) = ((size / 2) as u32, (level - 1) as u32);
        assert(size >> level == half >> above) by (bit_vector)
            requires
                half == size / 2,
                level == above + 1,
        ;
        levels_left(half, above);
        if size <= 1 {
            assert(half == 0);
        }
    }
}

/// The last level of a texture is a single texel, and no level before it is.
pub proof fn levels_end_at_one_texel(w: u32, h: u32, level: u32)
    requires
        level < texture_levels(w, h),
    ensures
        level_size(w, level) == 1 && level_size(h, level) == 1 <==> level + 1 == texture_levels(
            w,
            h,
        ),
{
    let m = if w >= h {
        w
    } else {
        h
    };
    levels_left(m, level);
    assert(w >> level <= m >> level && h >> level <= m >> level) by (bit_vector)
        requires
            w <= m,
            h <= m,
    ;
}

impl<'a> TextureData<'a> {
    /// How many of the levels in `bytes` are used: at least one, and no more than there can be.
    pub open spec fn stored_levels(&self) -> nat {
        let most = texture_levels(self.width, self.height);
        if self.mip_count < 1 {
            1
        } else if self.mip_count > most {
            most
        } else {
            self.mip_count as nat
        }
    }

    /// Bytes of the levels that are used.
    pub open spec fn stored_bytes(&self) -> int {
        packed_bytes(self.format, self.width, self.height, self.stored_levels())
    }

    /// Whether the smaller levels are filled in by averaging.
    pub open spec fn generates_mips(&self) -> bool {
        self.gen_mips && self.format == TextureFormat::Rgba8 && self.stored_levels() == 1
    }

    /// How many levels the texture has.
    pub open spec fn levels(&self) -> nat {
        if self.generates_mips() {
            texture_levels(self.width, self.height)
        } else {
            self.stored_levels()
        }
    }

    /// The texture has an area and a format that the device can sample.
    pub open spec fn supported(&self, bc_supported: bool) -> bool {
        &&& self.width != 0
        &&& self.height != 0
        &&& self.format.compressed() ==> bc_supported
    }

    /// The texture can be made: it is supported, and `bytes`, counted in 32 bits, holds every
    /// level that is used.
    pub open spec fn accepted(&self, bc_supported: bool) -> bool {
        &&& self.supported(bc_supported)
        &&& (self.bytes@.len() as u32) >= self.stored_bytes()
    }

    /// The bytes of stored level `level`.
    pub open spec fn level_bytes(&self, level: nat) -> Seq<u8> {
        self.bytes@.subrange(
            packed_bytes(self.format, self.width, self.height, level),
            packed_bytes(self.format, self.width, self.height, level + 1),
        )
    }

    /// What is written into level `level`.
    pub open spec fn writes_level(&self, write: MipWrite, level: nat) -> bool {
        if self.generates_mips() {
            write.writes(
                TextureFormat::Rgba8,
                0,
                level as int,
                level_size(self.width, level as u32),
                level_size(self.height, level as u32),
                chain_level(self.bytes@, self.width, self.height, level),
            )
        } else {
            write.writes(
                self.format,
                0,
                level as int,
                level_size(self.width, level as u32),
                level_size(self.height, level as u32),
                self.level_bytes(level),
            )
        }
    }

    /// The sizes that a supported texture asks for can be counted in 32 bits.
    pub open spec fn countable(&self, bc_supported: bool) -> bool {
        self.supported(bc_supported) ==> self.stored_bytes() <= u32::MAX
    }

    /// The writes that fill the texture's levels, or nothing if it cannot be made.
    pub fn upload(&self, bc_supported: bool) -> (writes: Option<Vec<MipWrite>>)
        requires
            self.countable(bc_supported),
        ensures
            writes is Some <==> self.accepted(bc_supported),
            writes matches Some(w) ==> w@.len() == self.levels() && forall|i: int|
                0 <= i < w@.len() ==> self.writes_level(#[trigger] w@[i], i as nat),
            1 <= self.levels() <= 32,
    {
        let most: u32 = mip_chain_len(self.width, self.height);
        if self.width == 0 || self.height == 0 {
            return None;
        }
        if self.format.is_block_compressed() && !bc_supported {
            return None;
        }
        let stored: u32 = if self.mip_count < 1 {
            1
        } else if self.mip_count > most {
            most
        } else {
            self.mip_count
        };
        let total: u32 = self.count_bytes(stored);
        let len: usize = self.bytes.len();
        assert(len as u32 <= len) by (bit_vector);
        if (len as u32) < total {
            return None;
        }
        if self.gen_mips && matches!(self.format, TextureFormat::Rgba8) && stored == 1 {
            proof {
                self.one_stored_level();
            }
            return Some(write_rgba8_mip_chain(0, self.width, self.height, most, self.bytes));
        }
        Some(self.stored_writes(stored))
    }

    /// A single stored RGBA8 level is an RGBA8 image.
    proof fn one_stored_level(&self)
        requires
            self.width > 0,
            self.height > 0,
            self.format == TextureFormat::Rgba8,
            self.bytes@.len() >= packed_bytes(self.format, self.width, self.height, 1),
            packed_bytes(self.format, self.width, self.height, 1) <= u32::MAX,
        ensures
            rgba8_image(self.bytes@, self.width as int, self.height as int),
    {
        let (w, h) = (self.width, self.height);
        assert(w >> 0u32 == w) by (bit_vector);
        assert(h >> 0u32 == h) by (bit_vector);
        assert(packed_bytes(self.format, w, h, 0) == 0);
        assert(packed_bytes(self.format, w, h, 1) == w * 4 * h);
        assert(w * 4 * h == w * h * 4) by (nonlinear_arith);
    }

    /// Whether the sizes that the texture asks for can be counted in 32 bits.
    pub fn is_countable(&self, bc_supported: bool) -> (c: bool)
        ensures
            c == self.countable(bc_supported),
    {
        if self.width == 0 || self.height == 0 || (self.format.is_block_compressed()
            && !bc_supported) {
            return true;
        }
        let most: u32 = mip_chain_len(self.width, self.height);
        let stored: u32 = if self.mip_count < 1 {
            1
        } else if self.mip_count > most {
            most
        } else {
            self.mip_count
        };
        let mut total: u128 = 0;
        let mut i: u32 = 0;
        while i < stored
            invariant
                i <= stored <= 32,
                total == packed_bytes(self.format, self.width, self.height, i as nat),
                total <= i * 0x10_0000_0000_0000_0000,
            decreases stored - i,
        {
            let mw: u32 = max_u32(self.width >> i, 1);
            let mh: u32 = max_u32(self.height >> i, 1);
            let columns: u32 = self.format.rows(mw);
            let rows: u32 = self.format.rows(mh);
            let unit: u128 = match self.format {
                TextureFormat::Rgba8 => 4,
                TextureFormat::Bc1 => 8,
                TextureFormat::Bc2 | TextureFormat::Bc3 => 16,
            };
            assert(0 <= columns * unit * rows <= 0x10_0000_0000_0000_0000) by (nonlinear_arith)
                requires
                    columns <= 0xffff_ffff,
                    rows <= 0xffff_ffff,
                    unit <= 16,
            ;
            total = total + columns as u128 * unit * rows as u128;
            i = i + 1;
        }
        total <= 0xffff_ffff
    }

    fn count_bytes(&self, stored: u32) -> (total: u32)
        requires
            stored <= 32,
            packed_bytes(self.format, self.width, self.height, stored as nat) <= u32::MAX,
        ensures
            total == packed_bytes(self.format, self.width, self.height, stored as nat),
    {
        let mut total: u32 = 0;
        let mut i: u32 = 0;
        while i < stored
            invariant
                i <= stored <= 32,
                total == packed_bytes(self.format, self.width, self.height, i as nat),
                packed_bytes(self.format, self.width, self.height, stored as nat) <= u32::MAX,
            decreases stored - i,
        {
            let mw: u32 = max_u32(self.width >> i, 1);
            let mh: u32 = max_u32(self.height >> i, 1);
            proof {
                packed_bytes_grow(
                    self.format,
                    self.width,
                    self.height,
                    (i + 1) as nat,
                    stored as nat,
                );
                sizes_are_positive(self.format, mw as int, mh as int);
            }
            total = total + self.format.expected_len(mw, mh);
            i = i + 1;
        }
        total
    }

    fn stored_writes(&self, stored: u32) -> (writes: Vec<MipWrite>)
        requires
            stored <= 32,
            packed_bytes(self.format, self.width, self.height, stored as nat) <= u32::MAX,
            packed_bytes(self.format, self.width, self.height, stored as nat) <= self.bytes@.len(),
        ensures
            writes@.len() == stored,
            forall|i: int|
                0 <= i < stored ==> (#[trigger] writes@[i]).writes(
                    self.format,
                    0,
                    i,
                    level_size(self.width, i as u32),
                    level_size(self.height, i as u32),
                    self.level_bytes(i as nat),
                ),
    {
        let mut writes: Vec<MipWrite> = Vec::new();
        let mut off: usize = 0;
        let mut mip: u32 = 0;
        while mip < stored
            invariant
                mip <= stored <= 32,
                writes@.len() == mip,
                off == packed_bytes(self.format, self.width, self.height, mip as nat),
                packed_bytes(self.format, self.width, self.height, stored as nat) <= u32::MAX,
                packed_bytes(self.format, self.width, self.height, stored as nat)
                    <= self.bytes@.len(),
                forall|i: int|
                    0 <= i < mip ==> (#[trigger] writes@[i]).writes(
                        self.format,
                        0,
                        i,
                        level_size(self.width, i as u32),
                        level_size(self.height, i as u32),
                        self.level_bytes(i as nat),
                    ),
            decreases stored - mip,
        {
            let mw: u32 = max_u32(self.width >> mip, 1);
            let mh: u32 = max_u32(self.height >> mip, 1);
            proof {
                packed_bytes_grow(
                    self.format,
                    self.width,
                    self.height,
                    (mip + 1) as nat,
                    stored as nat,
                );
                sizes_are_positive(self.format, mw as int, mh as int);
            }
            let len: usize = self.format.expected_len(mw, mh) as usize;
            writes.push(
                MipWrite {
                    layer: 0,
                    mip_level: mip,
                    width: mw,
                    height: mh,
                    bytes_per_row: self.format.bytes_per_row(mw),
                    rows_per_image: self.format.rows(mh),
                    data: copy_bytes(vstd::slice::slice_subrange(self.bytes, off, off + len)),
                },
            );
            off = off + len;
            mip = mip + 1;
        }
        writes
    }
}

/// What is known of a live texture.
#[derive(Clone, Copy, Debug, PartialEq, Eq, Structural)]
pub struct Texture2D {
    pub width: u32,
    pub height: u32,
    /// Index in the array of all textures; zero is the white fallback.
    pub slot: u32,
}

/// The texture kept in a record.
pub open spec fn texture_of(record: Record) -> Texture2D {
    Texture2D { width: record.0, height: record.1, slot: record.2 }
}

/// The texture that `handle` names, if it is live; zero names none.
pub open spec fn texture_at(records: Map<u64, Record>, handle: u64) -> Option<Texture2D> {
    if handle == 0 {
        None
    } else {
        match lookup(records, handle) {
            Some(r) => Some(texture_of(r)),
            None => None,
        }
    }
}

/// What a request for a texture led to: its handle and the writes that fill it, or the zero
/// handle and nothing to write.
pub struct TextureUpload {
    pub handle: u64,
    pub writes: Vec<MipWrite>,
}

/// The live textures by handle. Zero is reserved for the white fallback.
pub struct TextureRegistry {
    map: HandleTable,
    bc_supported: bool,
}

impl TextureRegistry {
    /// The records of the live textures.
    pub closed spec fn records(&self) -> Map<u64, Record> {
        self.map@
    }

    /// Whether block-compressed textures can be made.
    pub closed spec fn compressed_supported(&self) -> bool {
        self.bc_supported
    }

    /// The handles are in order.
    pub closed spec fn wf(&self) -> bool {
        self.map.wf()
    }

    /// No textures.
    pub fn new(bc_supported: bool) -> (r: TextureRegistry)
        ensures
            r.wf(),
            r.records() == no_records(),
            r.compressed_supported() == bc_supported,
    {
        TextureRegistry { map: HandleTable::new(), bc_supported }
    }

    /// How many textures are live.
    pub fn len(&self) -> (n: usize)
        ensures
            n == self.records().len(),
    {
        self.map.len()
    }

    /// The texture that `handle` names, if it is live.
    pub fn get(&self, handle: u64) -> (t: Option<Texture2D>)
        ensures
            t == texture_at(self.records(), handle),
    {
        if handle == 0 {
            return None;
        }
        match self.map.get(handle) {
            Some((width, height, slot)) => Some(Texture2D { width, height, slot }),
            None => None,
        }
    }

    /// Forgets the texture that `handle` names.
    pub fn destroy(&mut self, handle: u64)
        requires
            old(self).wf(),
        ensures
            final(self).wf(),
            final(self).compressed_supported() == old(self).compressed_supported(),
            final(self).records() == if handle == 0 {
                old(self).records()
            } else {
                old(self).records().remove(canonical(handle))
            },
    {
        if handle != 0 {
            self.map.remove(handle);
        }
    }

    /// Makes a texture in array slot `slot`.
    pub fn create(&mut self, tex: &TextureData, slot: u32) -> (up: TextureUpload)
        requires
            old(self).wf(),
            old(self).records().len() < MAX_RECORDS,
            tex.countable(old(self).compressed_supported()),
        ensures
            final(self).wf(),
            final(self).compressed_supported() == old(self).compressed_supported(),
            up.handle != 0 <==> tex.accepted(old(self).compressed_supported()),
            up.handle == 0 ==> up.writes@.len() == 0
                && final(self).records() == old(self).records(),
            up.handle != 0 ==> {
                &&& valid_handle(up.handle)
                &&& !old(self).records().dom().contains(up.handle)
                &&& final(self).records() == old(self).records().insert(
                    up.handle,
                    (tex.width, tex.height, slot),
                )
                &&& up.writes@.len() == tex.levels()
                &&& forall|i: int|
                    0 <= i < up.writes@.len() ==> tex.writes_level(
                        #[trigger] up.writes@[i],
                        i as nat,
                    )
            },
    {
        match tex.upload(self.bc_supported) {
            None => TextureUpload { handle: 0, writes: Vec::new() },
            Some(writes) => {
                let handle: u64 = self.map.insert((tex.width, tex.height, slot));
                TextureUpload { handle, writes }
            },
        }
    }

    /// The write that replaces the texels of the largest level, if `handle` is live and `data`,
    /// counted in 32 bits, covers it as RGBA8.
    pub fn update_rgba(&self, handle: u64, data: &[u8]) -> (write: Option<MipWrite>)
        requires
            texture_at(self.records(), handle) matches Some(t) ==> t.width * t.height * 4
                <= u32::MAX && t.width * 4 <= u32::MAX,
        ensures
            write is Some <==> (texture_at(self.records(), handle) matches Some(t) && (
            data@.len() as u32) >= t.width * t.height * 4),
            write matches Some(w) ==> {
                let t = texture_at(self.records(), handle)->0;
                w.writes(TextureFormat::Rgba8, 0, 0, t.width as int, t.height as int, data@)
            },
    {
        match self.get(handle) {
            None => None,
            Some(t) => {
                let (width, height): (u32, u32) = (t.width, t.height);
                assert(width * height <= width * height * 4);
                if (data.len() as u32) >= width * height * 4 {
                    Some(
                        MipWrite {
                            layer: 0,
                            mip_level: 0,
                            width,
                            height,
                            bytes_per_row: width * 4,
                            rows_per_image: height,
                            data: copy_bytes(data),
                        },
                    )
                } else {
                    None
                }
            },
        }
    }
}

/// How many samplers there are.
pub const SAMPLER_COUNT: usize = 8;

/// The textures of a device, each with its place in one array that shaders index. Place zero
/// shows the white fallback.
pub struct SharedTextures {
    registry: TextureRegistry,
    // The handle shown at each place; the zero handle stands for white.
    bindless_slots: Vec<Option<u64>>,
    bindless_free: Vec<u32>,
    bindless_dirty: bool,
    object_cap: u32,
    partially_bound: bool,
}

/// The place a new texture gets: one that was freed, else one more while there is room.
pub open spec fn next_place(places: Seq<Option<u64>>, free: Seq<u32>, cap: int) -> Option<u32> {
    if free.len() > 0 {
        Some(free.last())
    } else if places.len() < cap {
        Some(places.len() as u32)
    } else {
        None
    }
}

/// What the array shows: the handle at each place, white for holes. Without partial binding
/// the whole array is filled.
pub open spec fn shown(places: Seq<Option<u64>>, cap: int, partial: bool) -> Seq<u64> {
    let len = if partial {
        larger(places.len() as int, 1)
    } else {
        cap
    };
    Seq::new(
        len as nat,
        |i: int|
            if i < places.len() && places[i] is Some {
                places[i]->0
            } else {
                0
            },
    )
}

impl SharedTextures {
    /// The records of the live textures.
    pub closed spec fn records(&self) -> Map<u64, Record> {
        self.registry.records()
    }

    /// Whether block-compressed textures can be made.
    pub closed spec fn compressed_supported(&self) -> bool {
        self.registry.compressed_supported()
    }

    /// The handle shown at each place of the array.
    pub closed spec fn places(&self) -> Seq<Option<u64>> {
        self.bindless_slots@
    }

    /// The places that were freed.
    pub closed spec fn free(&self) -> Seq<u32> {
        self.bindless_free@
    }

    /// Whether the array changed since it was last bound.
    pub closed spec fn dirty(&self) -> bool {
        self.bindless_dirty
    }

    /// The size of the array.
    pub closed spec fn cap(&self) -> u32 {
        self.object_cap
    }

    /// Whether the array may be bound in part.
    pub closed spec fn partial(&self) -> bool {
        self.partially_bound
    }

    /// Place zero is white; every other place is free, or shows the live texture that has it.
    pub closed spec fn wf(&self) -> bool {
        let (places, free, records) = (self.places(), self.free(), self.records());
        &&& self.registry.wf()
        &&& 1 <= places.len() <= self.cap()
        &&& places[0] == Some(0u64)
        &&& forall|k: int|
            0 <= k < free.len() ==> 1 <= #[trigger] free[k] < places.len()
                && places[free[k] as int] is None
        &&& free.no_duplicates()
        &&& forall|i: int|
            1 <= i < places.len() && (#[trigger] places[i]) is None ==> free.contains(i as u32)
        &&& forall|i: int|
            1 <= i < places.len() && (#[trigger] places[i]) is Some ==> records.dom().contains(
                places[i]->0,
            ) && records[places[i]->0].2 == i
        &&& forall|h: u64| #[trigger]
            records.dom().contains(h) ==> records[h].2 < places.len() && (records[h].2 != 0
                ==> places[records[h].2 as int] == Some(h))
    }

    /// A live texture has the place.
    pub open spec fn held(&self, place: u32) -> bool {
        exists|h: u64| #[trigger]
            self.records().dom().contains(h) && self.records()[h].2 == place
    }

    /// Every place but that of the white fallback is held.
    pub open spec fn all_held(&self) -> bool {
        forall|place: u32| 1 <= place < self.cap() ==> #[trigger] self.held(place)
    }

    /// No textures, and an array of `object_cap` places, at least one.
    pub fn new(bc_supported: bool, object_cap: u32, partially_bound: bool) -> (t: SharedTextures)
        ensures
            t.wf(),
            t.records() == no_records(),
            t.compressed_supported() == bc_supported,
            t.places() == seq![Some(0u64)],
            t.free().len() == 0,
            !t.dirty(),
            t.cap() == larger(object_cap as int, 1),
            t.partial() == partially_bound,
    {
        let mut bindless_slots: Vec<Option<u64>> = Vec::new();
        bindless_slots.push(Some(0));
        let t = SharedTextures {
            registry: TextureRegistry::new(bc_supported),
            bindless_slots,
            bindless_free: Vec::new(),
            bindless_dirty: false,
            object_cap: max_u32(object_cap, 1),
            partially_bound,
        };
        assert(t.places() =~= seq![Some(0u64)]);
        t
    }

    /// How many textures are live.
    pub fn len(&self) -> (n: usize)
        ensures
            n == self.records().len(),
    {
        self.registry.len()
    }

    /// Whether block-compressed textures can be made.
    pub fn bc_supported(&self) -> (b: bool)
        ensures
            b == self.compressed_supported(),
    {
        self.registry.bc_supported
    }

    /// The texture that `handle` names, if it is live.
    pub fn get(&self, handle: u64) -> (t: Option<Texture2D>)
        ensures
            t == texture_at(self.records(), handle),
    {
        self.registry.get(handle)
    }

    /// The live handle whose view is bound for `handle`, or zero for the white fallback.
    pub fn texture_view(&self, handle: u64) -> (h: u64)
        ensures
            h == if texture_at(self.records(), handle) is Some {
                canonical(handle)
            } else {
                0
            },
    {
        match self.registry.get(handle) {
            Some(_) => handle | 0x1_0000_0000,
            None => 0,
        }
    }

    /// The live handle whose bind group is bound for `handle`, or zero for the white fallback.
    pub fn texture_bind(&self, handle: u64) -> (h: u64)
        ensures
            h == if texture_at(self.records(), handle) is Some {
                canonical(handle)
            } else {
                0
            },
    {
        self.texture_view(handle)
    }

    /// The sampler bound for `index`: the first for an index there is no sampler for.
    pub fn sampler_bind(&self, index: usize) -> (i: usize)
        ensures
            i == if index < SAMPLER_COUNT {
                index
            } else {
                0
            },
    {
        if index < SAMPLER_COUNT {
            index
        } else {
            0
        }
    }

    /// Makes a texture and gives it a place in the array; with no room left it shows as white.
    pub fn create(&mut self, tex: &TextureData) -> (up: TextureUpload)
        requires
            old(self).wf(),
            old(self).records().len() < MAX_RECORDS,
            tex.countable(old(self).compressed_supported()),
        ensures
            final(self).wf(),
            final(self).cap() == old(self).cap(),
            final(self).partial() == old(self).partial(),
            final(self).compressed_supported() == old(self).compressed_supported(),
            up.handle != 0 <==> tex.accepted(old(self).compressed_supported()),
            up.handle != 0 ==> {
                let slot = final(self).records()[up.handle].2;
                &&& slot < final(self).cap()
                &&& slot == 0 <==> old(self).all_held()
                &&& slot != 0 ==> !old(self).held(slot)
            },
            up.handle == 0 ==> next_place(
                final(self).places(),
                final(self).free(),
                final(self).cap() as int,
            ) == next_place(old(self).places(), old(self).free(), old(self).cap() as int),
            forall|h: u64| #[trigger]
                old(self).records().dom().contains(h) ==> {
                    &&& final(self).records().dom().contains(h)
                    &&& final(self).records()[h] == old(self).records()[h]
                },
            ({
                let place = next_place(
                    old(self).places(),
                    old(self).free(),
                    old(self).cap() as int,
                );
                let recycled = old(self).free().len() > 0;
                if up.handle == 0 {
                    &&& up.writes@.len() == 0
                    &&& final(self).records() == old(self).records()
                    &&& final(self).dirty() == old(self).dirty()
                    &&& (recycled || place is None) ==> final(self).places() == old(self).places()
                        && final(self).free() == old(self).free()
                    &&& (!recycled && place is Some) ==> final(self).places()
                        == old(self).places().push(None) && final(self).free() == seq![place->0]
                } else {
                    let slot = match place {
                        Some(p) => p,
                        None => 0,
                    };
                    &&& valid_handle(up.handle)
                    &&& !old(self).records().dom().contains(up.handle)
                    &&& final(self).records() == old(self).records().insert(
                        up.handle,
                        (tex.width, tex.height, slot),
                    )
                    &&& up.writes@.len() == tex.levels()
                    &&& forall|i: int|
                        0 <= i < up.writes@.len() ==> tex.writes_level(
                            #[trigger] up.writes@[i],
                            i as nat,
                        )
                    &&& final(self).dirty() == (old(self).dirty() || place is Some)
                    &&& final(self).free() == if recycled {
                        old(self).free().drop_last()
                    } else {
                        old(self).free()
                    }
                    &&& final(self).places() == if recycled {
                        old(self).places().update(slot as int, Some(up.handle))
                    } else if place is Some {
                        old(self).places().push(Some(up.handle))
                    } else {
                        old(self).places()
                    }
                }
            }),
    {
        let ghost before = *self;
        proof {
            a_free_place_is_found(before);
        }
        let slot: Option<u32> = self.alloc_slot();
        let ghost reserved = *self;
        let slot_idx: u32 = match slot {
            Some(s) => s,
            None => 0,
        };
        let up = self.registry.create(tex, slot_idx);
        if up.handle == 0 {
            if let Some(s) = slot {
                self.bindless_free.push(s);
                assert(self.bindless_free@[reserved.free().len() as int] == s);
            }
            proof {
                if before.free().len() > 0 {
                    assert(self.free() =~= before.free());
                } else if slot is Some {
                    assert(self.free() =~= seq![slot->0]);
                }
                assert forall|i: int|
                    1 <= i < self.places().len() && (#[trigger] self.places()[i]) is None implies
                    self.free().contains(i as u32) by {
                    if i < before.places().len() {
                        assert(before.places()[i] is None);
                        assert(before.free().contains(i as u32));
                    } else {
                        assert(self.free()[0] == i as u32);
                    }
                }
            }
            return up;
        }
        if slot.is_some() {
            self.bindless_slots.set(slot_idx as usize, Some(up.handle));
            self.bindless_dirty = true;
        }
        proof {
            let h = up.handle;
            assert(h & 0xffff_ffff != 0 ==> h != 0) by (bit_vector);
            let (places, free, records) = (self.places(), self.free(), self.records());
            if before.free().len() > 0 {
                assert(places =~= before.places().update(slot_idx as int, Some(h)));
            } else if slot is Some {
                assert(places =~= before.places().push(Some(h)));
            }
            assert forall|k: int| 0 <= k < free.len() implies 1 <= #[trigger] free[k] < places.len()
                && places[free[k] as int] is None by {
                assert(free[k] == before.free()[k]);
                if before.free().len() > 0 {
                    assert(before.free()[k] != before.free().last());
                }
            }
            assert forall|i: int|
                1 <= i < places.len() && (#[trigger] places[i]) is None implies free.contains(
                i as u32,
            ) by {
                assert(before.places()[i] is None);
                assert(before.free().contains(i as u32));
                let k = choose|k: int|
                    0 <= k < before.free().len() && before.free()[k] == i as u32;
                assert(free[k] == i as u32);
            }
            assert forall|i: int|
                1 <= i < places.len() && (#[trigger] places[i]) is Some implies
                records.dom().contains(places[i]->0) && records[places[i]->0].2 == i by {
                if slot is None || i != slot_idx {
                    assert(before.places()[i] == places[i]);
                }
            }
            assert forall|g: u64| #[trigger] records.dom().contains(g) implies records[g].2
                < places.len() && (records[g].2 != 0 ==> places[records[g].2 as int] == Some(
                g,
            )) by {
                if g != h {
                    assert(before.records().dom().contains(g));
                    if records[g].2 != 0 {
                        assert(before.places()[records[g].2 as int] == Some(g));
                    }
                }
            }
        }
        up
    }

    /// The write that replaces the texels of the largest level, if `handle` is live and `data`,
    /// counted in 32 bits, covers it as RGBA8.
    pub fn update_rgba(&self, handle: u64, data: &[u8]) -> (write: Option<MipWrite>)
        requires
            texture_at(self.records(), handle) matches Some(t) ==> t.width * t.height * 4
                <= u32::MAX && t.width * 4 <= u32::MAX,
        ensures
            write is Some <==> (texture_at(self.records(), handle) matches Some(t) && (
            data@.len() as u32) >= t.width * t.height * 4),
            write matches Some(w) ==> {
                let t = texture_at(self.records(), handle)->0;
                w.writes(TextureFormat::Rgba8, 0, 0, t.width as int, t.height as int, data@)
            },
    {
        self.registry.update_rgba(handle, data)
    }

    /// Forgets the texture that `handle` names and frees its place.
    pub fn destroy(&mut self, handle: u64)
        requires
            old(self).wf(),
        ensures
            final(self).wf(),
            final(self).cap() == old(self).cap(),
            final(self).partial() == old(self).partial(),
            final(self).compressed_supported() == old(self).compressed_supported(),
            match texture_at(old(self).records(), handle) {
                None => {
                    &&& final(self).records() == old(self).records()
                    &&& final(self).places() == old(self).places()
                    &&& final(self).free() == old(self).free()
                    &&& final(self).dirty() == old(self).dirty()
                },
                Some(t) => {
                    &&& final(self).records() == old(self).records().remove(canonical(handle))
                    &&& t.slot == 0 ==> final(self).places() == old(self).places()
                        && final(self).free() == old(self).free()
                        && final(self).dirty() == old(self).dirty()
                    &&& t.slot != 0 ==> final(self).places() == old(self).places().update(
                        t.slot as int,
                        None,
                    ) && final(self).free() == old(self).free().push(t.slot) && final(self).dirty()
                },
            },
    {
        let ghost before = *self;
        if let Some(t) = self.registry.get(handle) {
            let slot: u32 = t.slot;
            if slot != 0 && (slot as usize) < self.bindless_slots.len() {
                self.bindless_slots.set(slot as usize, None);
                self.bindless_free.push(slot);
                self.bindless_dirty = true;
            }
        }
        self.registry.destroy(handle);
        proof {
            let (places, free, records) = (self.places(), self.free(), self.records());
            match texture_at(before.records(), handle) {
                None => {
                    assert(records =~= before.records());
                },
                Some(t) => {
                    let h = canonical(handle);
                    assert(before.records().dom().contains(h));
                    if t.slot != 0 {
                        assert(free.last() == t.slot);
                        assert forall|i: int|
                            1 <= i < places.len() && (#[trigger] places[i]) is None implies
                            free.contains(i as u32) by {
                            if i == t.slot {
                                assert(free[free.len() - 1] == i as u32);
                            } else {
                                assert(before.places()[i] is None);
                                let k = choose|k: int|
                                    0 <= k < before.free().len() && before.free()[k] == i as u32;
                                assert(free[k] == i as u32);
                            }
                        }
                    }
                    assert forall|i: int|
                        1 <= i < places.len() && (#[trigger] places[i]) is Some implies
                        records.dom().contains(places[i]->0) && records[places[i]->0].2 == i by {
                        assert(before.places()[i] == places[i]);
                    }
                    assert forall|g: u64| #[trigger] records.dom().contains(g) implies records[g].2
                        < places.len() && (records[g].2 != 0 ==> places[records[g].2 as int]
                        == Some(g)) by {
                        assert(before.records().dom().contains(g));
                    }
                },
            }
        }
    }

    /// The place of `handle`'s texture in the array; zero, the white fallback, without one.
    pub fn texture_slot(&self, handle: u64) -> (slot: u32)
        ensures
            slot == match texture_at(self.records(), handle) {
                Some(t) => t.slot,
                None => 0,
            },
    {
        match self.registry.get(handle) {
            Some(t) => t.slot,
            None => 0,
        }
    }

    /// What the array has to show, if it changed since the last call.
    pub fn ensure_bindless(&mut self) -> (views: Option<Vec<u64>>)
        requires
            old(self).wf(),
        ensures
            final(self).wf(),
            final(self).records() == old(self).records(),
            final(self).places() == old(self).places(),
            final(self).free() == old(self).free(),
            final(self).cap() == old(self).cap(),
            final(self).partial() == old(self).partial(),
            final(self).compressed_supported() == old(self).compressed_supported(),
            !final(self).dirty(),
            views is Some <==> old(self).dirty(),
            views matches Some(v) ==> v@ == shown(
                old(self).places(),
                old(self).cap() as int,
                old(self).partial(),
            ),
    {
        if !self.bindless_dirty {
            return None;
        }
        let views: Vec<u64> = self.bindless_views();
        self.bindless_dirty = false;
        Some(views)
    }

    /// What the array shows.
    pub fn bindless_views(&self) -> (views: Vec<u64>)
        requires
            self.wf(),
        ensures
            views@ == shown(self.places(), self.cap() as int, self.partial()),
    {
        let n: usize = self.bindless_slots.len();
        let len: usize = if self.partially_bound {
            if n >= 1 {
                n
            } else {
                1
            }
        } else {
            self.object_cap as usize
        };
        let mut views: Vec<u64> = Vec::new();
        let mut i: usize = 0;
        let ghost all = shown(self.places(), self.cap() as int, self.partial());
        while i < len
            invariant
                i <= len,
                n == self.bindless_slots@.len(),
                len == all.len(),
                all == shown(self.places(), self.cap() as int, self.partial()),
                views@.len() == i,
                forall|j: int| 0 <= j < i ==> #[trigger] views@[j] == all[j],
            decreases len - i,
        {
            let shown_handle: u64 = if i < n {
                match self.bindless_slots[i] {
                    Some(h) => h,
                    None => 0,
                }
            } else {
                0
            };
            views.push(shown_handle);
            i = i + 1;
        }
        assert(views@ =~= all);
        views
    }

    fn alloc_slot(&mut self) -> (slot: Option<u32>)
        requires
            old(self).wf(),
        ensures
            slot == next_place(old(self).places(), old(self).free(), old(self).cap() as int),
            final(self).registry == old(self).registry,
            final(self).dirty() == old(self).dirty(),
            final(self).cap() == old(self).cap(),
            final(self).partial() == old(self).partial(),
            final(self).free() == if old(self).free().len() > 0 {
                old(self).free().drop_last()
            } else {
                old(self).free()
            },
            final(self).places() == if old(self).free().len() == 0 && slot is Some {
                old(self).places().push(None)
            } else {
                old(self).places()
            },
    {
        if let Some(s) = self.bindless_free.pop() {
            return Some(s);
        }
        let next: u32 = self.bindless_slots.len() as u32;
        if next >= self.object_cap {
            return None;
        }
        self.bindless_slots.push(None);
        Some(next)
    }
}

/// A live texture's place is in the array.
pub proof fn places_are_in_the_array(t: SharedTextures, h: u64)
    requires
        t.wf(),
        t.records().dom().contains(h),
    ensures
        t.records()[h].2 < t.cap(),
{
}

/// A new texture finds a place that no live texture has, unless every place is held.
pub proof fn a_free_place_is_found(t: SharedTextures)
    requires
        t.wf(),
    ensures
        next_place(t.places(), t.free(), t.cap() as int) is None <==> t.all_held(),
        next_place(t.places(), t.free(), t.cap() as int) matches Some(place) ==> 1 <= place
            < t.cap() && !t.held(place),
{
    let (places, free, records) = (t.places(), t.free(), t.records());
    match next_place(places, free, t.cap() as int) {
        Some(place) => {
            if free.len() > 0 {
                assert(free[free.len() - 1] == place);
            }
            assert(!t.held(place));
        },
        None => {
            assert forall|place: u32| 1 <= place < t.cap() implies #[trigger] t.held(place) by {
                assert(places[place as int] is Some);
                assert(records.dom().contains(places[place as int]->0));
            }
        },
    }
}

/// No two live textures share a place, but for the white fallback's.
pub proof fn live_textures_have_their_own_places(t: SharedTextures, g: u64, h: u64)
    requires
        t.wf(),
        t.records().dom().contains(g),
        t.records().dom().contains(h),
        t.records()[g].2 == t.records()[h].2,
        t.records()[g].2 != 0,
    ensures
        g == h,
{
}

/// The array shows a texture at the texture's place, and white at place zero.
pub proof fn a_place_shows_its_texture(t: SharedTextures, handle: u64)
    requires
        t.wf(),
        texture_at(t.records(), handle) is Some,
    ensures
        ({
            let views = shown(t.places(), t.cap() as int, t.partial());
            let slot = texture_at(t.records(), handle)->0.slot;
            &&& slot < views.len()
            &&& views[slot as int] == if slot == 0 {
                0
            } else {
                canonical(handle)
            }
        }),
{
    assert(t.records().dom().contains(canonical(handle)));
}

} // verus!
