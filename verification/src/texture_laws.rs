use crate::math::quotients_are_rounded_up;
use crate::slots::Record;
use crate::textures::{
    box_average, chain_level, downsampled, level_size, next_place, packed_bytes,
    packed_bytes_grow, rgba8_image, shown, texel_in_bounds, texture_at,
    texture_levels, MipWrite, TextureData, TextureFormat,
};
use vstd::prelude::*;

verus! {

// What textures are made of, said of what the engine hands over.

/// Four numbers name formats: plain texels, and blocks of three kinds.
pub proof fn formats_have_numbers(v: i32)
    ensures
        TextureFormat::numbered(v) == Some(TextureFormat::Rgba8) <==> v == 0,
        TextureFormat::numbered(v) == Some(TextureFormat::Bc1) <==> v == 1,
        TextureFormat::numbered(v) == Some(TextureFormat::Bc2) <==> v == 2,
        TextureFormat::numbered(v) == Some(TextureFormat::Bc3) <==> v == 3,
        TextureFormat::numbered(v) is None <==> v < 0 || v > 3,
{
}

/// A plain texel is four bytes. Other texels come in blocks of four by four, of eight bytes in the
/// first of those formats and of sixteen in the others; there are as many blocks as cover the
/// texels, and no more.
pub proof fn bytes_cover_the_texels(f: TextureFormat, width: int, height: int)
    requires
        width >= 0,
        height >= 0,
    ensures
        f == TextureFormat::Rgba8 <==> !f.compressed(),
        f == TextureFormat::Rgba8 ==> f.row_bytes(width) == 4 * width && f.units(height) == height
            && f.image_bytes(width, height) == 4 * (width * height),
        f != TextureFormat::Rgba8 ==> {
            let block = if f == TextureFormat::Bc1 {
                8int
            } else {
                16
            };
            let (columns, rows) = (f.units(width), f.units(height));
            &&& width <= 4 * columns < width + 4
            &&& height <= 4 * rows < height + 4
            &&& f.row_bytes(width) == block * columns
            &&& f.image_bytes(width, height) == block * (columns * rows)
        },
{
    quotients_are_rounded_up(width, 4);
    quotients_are_rounded_up(height, 4);
    let (columns, rows, unit) = (f.units(width), f.units(height), f.unit_bytes());
    assert((columns * unit) * rows == unit * (columns * rows)) by (nonlinear_arith);
}

/// The column or row of an image of `size` that is read for `at`: past the edge, the last.
pub open spec fn within(at: int, size: int) -> int {
    if at < size {
        at
    } else {
        size - 1
    }
}

/// Each texel of the smaller image is, channel by channel, the nearest to the average of the two by
/// two that it covers, halves up; past the edge, the last row and column count again.
pub proof fn texels_are_averaged(
    src: Seq<u8>,
    sw: int,
    sh: int,
    nw: int,
    nh: int,
    x: int,
    y: int,
    c: int,
)
    requires
        rgba8_image(src, sw, sh),
        0 <= x < nw,
        0 <= y < nh,
        0 <= c < 4,
    ensures
        ({
            let (left, right) = (within(2 * x, sw), within(2 * x + 1, sw));
            let (top, bottom) = (within(2 * y, sh), within(2 * y + 1, sh));
            let of = |a: int, b: int| src[4 * (b * sw + a) + c] as int;
            let sum = of(left, top) + of(right, top) + of(left, bottom) + of(right, bottom);
            let small = downsampled(src, sw, sh, nw, nh);
            &&& small.len() == 4 * (nw * nh)
            &&& 4 * (y * nw + x) + c < small.len()
            &&& sum - 1 <= 4 * small[4 * (y * nw + x) + c] <= sum + 2
        }),
{
    let i = 4 * (y * nw + x) + c;
    texel_in_bounds(nw, nh, x, y);
    assert(i / 4 == y * nw + x && i % 4 == c);
    vstd::arithmetic::div_mod::lemma_fundamental_div_mod_converse(i / 4, nw, y, x);
    let small = downsampled(src, sw, sh, nw, nh);
    assert(nw * nh * 4 == 4 * (nw * nh)) by (nonlinear_arith);
    assert(small[i] == box_average(src, sw, sh, x, y, c));
}

/// Every level of a chain halves and averages the one before; the first is the image itself.
pub proof fn levels_are_averages(
    base: Seq<u8>,
    w: u32,
    h: u32,
    level: nat,
    x: int,
    y: int,
    c: int,
)
    requires
        level < 31,
        rgba8_image(
            chain_level(base, w, h, level),
            level_size(w, level as u32),
            level_size(h, level as u32),
        ),
        0 <= x < level_size(w, (level + 1) as u32),
        0 <= y < level_size(h, (level + 1) as u32),
        0 <= c < 4,
    ensures
        ({
            let above = chain_level(base, w, h, level);
            let (aw, ah) = (level_size(w, level as u32), level_size(h, level as u32));
            let here = chain_level(base, w, h, level + 1);
            let nw = level_size(w, (level + 1) as u32);
            let (left, right) = (within(2 * x, aw), within(2 * x + 1, aw));
            let (top, bottom) = (within(2 * y, ah), within(2 * y + 1, ah));
            let of = |a: int, b: int| above[4 * (b * aw + a) + c] as int;
            let sum = of(left, top) + of(right, top) + of(left, bottom) + of(right, bottom);
            &&& sum - 1 <= 4 * here[4 * (y * nw + x) + c] <= sum + 2
            &&& chain_level(base, w, h, 0) == base
        }),
{
    let (aw, ah) = (level_size(w, level as u32), level_size(h, level as u32));
    let (nw, nh) = (level_size(w, (level + 1) as u32), level_size(h, (level + 1) as u32));
    texels_are_averaged(chain_level(base, w, h, level), aw, ah, nw, nh, x, y, c);
}

/// Levels lie one behind the other, each as long as its image, and nothing lies between them.
pub proof fn levels_are_packed(tex: TextureData, level: nat)
    requires
        level < 32,
        packed_bytes(tex.format, tex.width, tex.height, level + 1) <= tex.bytes@.len(),
    ensures
        ({
            let at = packed_bytes(tex.format, tex.width, tex.height, level);
            let end = packed_bytes(tex.format, tex.width, tex.height, level + 1);
            &&& packed_bytes(tex.format, tex.width, tex.height, 0) == 0
            &&& 0 <= at <= end
            &&& tex.level_bytes(level).len() == tex.format.image_bytes(
                level_size(tex.width, level as u32),
                level_size(tex.height, level as u32),
            )
            &&& tex.bytes@.take(end) == tex.bytes@.take(at) + tex.level_bytes(level)
        }),
{
    let at = packed_bytes(tex.format, tex.width, tex.height, level);
    let end = packed_bytes(tex.format, tex.width, tex.height, level + 1);
    packed_bytes_grow(tex.format, tex.width, tex.height, level, level + 1);
    assert(tex.bytes@.take(end) =~= tex.bytes@.take(at) + tex.level_bytes(level));
}

/// A texture is made exactly if it has an area, if the device knows its format, and if the bytes of
/// all levels that are used are there. Of those that it counts, as many are used as there can be,
/// but never none. Levels are averaged if that was asked for and plain texels of one level were
/// handed over; they then go down to one texel.
pub proof fn textures_are_made_of_what_is_there(tex: TextureData, bc_supported: bool)
    ensures
        tex.accepted(bc_supported) <==> tex.width > 0 && tex.height > 0 && (tex.format
            == TextureFormat::Rgba8 || bc_supported) && (tex.bytes@.len() as u32) >= packed_bytes(
            tex.format,
            tex.width,
            tex.height,
            tex.stored_levels(),
        ),
        1 <= tex.stored_levels(),
        tex.stored_levels() <= texture_levels(tex.width, tex.height),
        1 <= tex.mip_count <= texture_levels(tex.width, tex.height) ==> tex.stored_levels()
            == tex.mip_count,
        tex.mip_count > texture_levels(tex.width, tex.height) ==> tex.stored_levels()
            == texture_levels(tex.width, tex.height),
        tex.mip_count == 0 ==> tex.stored_levels() == 1,
        tex.generates_mips() <==> tex.gen_mips && tex.format == TextureFormat::Rgba8
            && tex.stored_levels() == 1,
        tex.generates_mips() ==> tex.levels() == texture_levels(tex.width, tex.height),
        !tex.generates_mips() ==> tex.levels() == tex.stored_levels(),
{
}

/// A level is written whole, at its own number, with rows as long as its format makes them; it is
/// the image's own bytes, or, where levels are averaged, what averaging leaves.
pub proof fn levels_are_written_whole(tex: TextureData, write: MipWrite, level: nat)
    requires
        level < 32,
        tex.writes_level(write, level),
        tex.generates_mips() || packed_bytes(tex.format, tex.width, tex.height, level + 1)
            <= tex.bytes@.len(),
    ensures
        write.layer == 0,
        write.mip_level == level,
        write.width == level_size(tex.width, level as u32),
        write.height == level_size(tex.height, level as u32),
        write.bytes_per_row == tex.format.row_bytes(write.width as int),
        write.rows_per_image == tex.format.units(write.height as int),
        !tex.generates_mips() ==> write.data@ == tex.level_bytes(level) && write.data@.len()
            == write.bytes_per_row * write.rows_per_image,
        tex.generates_mips() ==> write.data@ == chain_level(
            tex.bytes@,
            tex.width,
            tex.height,
            level,
        ),
{
    if !tex.generates_mips() {
        levels_are_packed(tex, level);
    }
}

/// Zero names no texture, and other handles name what is kept of them.
pub proof fn handles_name_textures(records: Map<u64, Record>, handle: u64)
    ensures
        texture_at(records, 0) is None,
        texture_at(records, handle) is Some <==> handle != 0 && records.dom().contains(
            handle | 0x1_0000_0000,
        ),
        texture_at(records, handle) matches Some(t) ==> {
            let r = records[handle | 0x1_0000_0000];
            t.width == r.0 && t.height == r.1 && t.slot == r.2
        },
{
}

/// A texture gets the place that was freed last; a new one behind all others if none is free and
/// there is room; and else none.
pub proof fn freed_places_are_used_first(places: Seq<Option<u64>>, free: Seq<u32>, cap: u32)
    requires
        places.len() <= cap,
    ensures
        free.len() > 0 ==> next_place(places, free, cap as int) == Some(free[free.len() - 1]),
        ({
            let next = next_place(places, free, cap as int);
            &&& free.len() == 0 && places.len() < cap ==> (next matches Some(p) && p
                == places.len())
            &&& free.len() == 0 && places.len() == cap ==> next is None
        }),
{
}

/// The array shows every handle at its place and white everywhere else. It ends behind the last
/// place if it may be bound in part, and else goes on to its whole size; it is never empty.
pub proof fn the_array_is_filled(places: Seq<Option<u64>>, cap: int, partial: bool, i: int)
    requires
        1 <= places.len() <= cap,
        0 <= i < shown(places, cap, partial).len(),
    ensures
        partial ==> shown(places, cap, partial).len() == places.len(),
        !partial ==> shown(places, cap, partial).len() == cap,
        i < places.len() ==> (places[i] matches Some(h) ==> shown(places, cap, partial)[i] == h),
        i < places.len() && places[i] is None ==> shown(places, cap, partial)[i] == 0,
        i >= places.len() ==> shown(places, cap, partial)[i] == 0,
{
}

} // verus!
