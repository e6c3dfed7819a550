use crate::math::{ceil_div, div_ceil_u32, quotients_are_rounded_up};
use crate::slots::{
    canonical, lookup, no_records, valid_handle, zero_is_never_live, HandleTable, Record,
    MAX_RECORDS,
};
use crate::textures::TextureFormat;
use vstd::prelude::*;

verus! {

/// How texels are stored.
#[derive(Clone, Copy, Debug, PartialEq, Eq, Structural)]
pub enum TexFormat {
    Rgba8,
    Bc1,
    Bc2,
    Bc3,
}

impl TexFormat {
    /// The format with the number, if there is one.
    pub open spec fn numbered(v: i32) -> Option<TexFormat> {
        match v {
            0 => Some(TexFormat::Rgba8),
            1 => Some(TexFormat::Bc1),
            2 => Some(TexFormat::Bc2),
            3 => Some(TexFormat::Bc3),
            _ => None,
        }
    }

    /// The format with the number, if there is one.
    pub fn from_i32(v: i32) -> (f: Option<TexFormat>)
        ensures
            f == TexFormat::numbered(v),
    {
        match v {
            0 => Some(TexFormat::Rgba8),
            1 => Some(TexFormat::Bc1),
            2 => Some(TexFormat::Bc2),
            3 => Some(TexFormat::Bc3),
            _ => None,
        }
    }

    /// Texels are stored in blocks of four by four.
    pub fn is_block_compressed(self) -> (b: bool)
        ensures
            b == (self != TexFormat::Rgba8),
    {
        match self {
            TexFormat::Rgba8 => false,
            _ => true,
        }
    }

    /// The bytes of a row of texels, or of blocks.
    pub open spec fn row_bytes(self, width: int) -> int {
        match self {
            TexFormat::Rgba8 => width * 4,
            TexFormat::Bc1 => ceil_div(width, 4) * 8,
            _ => ceil_div(width, 4) * 16,
        }
    }

    /// The bytes of a row of texels, or of blocks.
    pub fn bytes_per_row(self, width: u32) -> (n: u32)
        requires
            self.row_bytes(width as int) <= u32::MAX,
        ensures
            n == self.row_bytes(width as int),
    {
        match self {
            TexFormat::Rgba8 => width * 4,
            TexFormat::Bc1 => div_ceil_u32(width, 4) * 8,
            _ => div_ceil_u32(width, 4) * 16,
        }
    }

    /// How many rows of texels, or of blocks, there are.
    pub open spec fn row_count(self, height: int) -> int {
        if self == TexFormat::Rgba8 {
            height
        } else {
            ceil_div(height, 4)
        }
    }

    /// How many rows of texels, or of blocks, there are.
    pub fn rows(self, height: u32) -> (n: u32)
        ensures
            n == self.row_count(height as int),
    {
        if self.is_block_compressed() {
            div_ceil_u32(height, 4)
        } else {
            height
        }
    }

    /// The bytes of a whole texture.
    pub open spec fn total_bytes(self, width: int, height: int) -> int {
        self.row_bytes(width) * self.row_count(height)
    }

    /// The bytes of a whole texture.
    pub fn expected_len(self, width: u32, height: u32) -> (n: u32)
        requires
            self.row_bytes(width as int) <= u32::MAX,
            self.total_bytes(width as int, height as int) <= u32::MAX,
        ensures
            n == self.total_bytes(width as int, height as int),
    {
        self.bytes_per_row(width) * self.rows(height)
    }
}

/// A number names a format here exactly where it names a shared one, and both count the same
/// bytes for every extent.
pub proof fn formats_agree(v: i32, width: int, height: int)
    ensures
        TexFormat::numbered(v) is Some <==> 0 <= v <= 3,
        TextureFormat::numbered(v) is Some <==> 0 <= v <= 3,
        TexFormat::numbered(v) matches Some(f) ==> {
            let shared = TextureFormat::numbered(v)->0;
            &&& f.row_bytes(width) == shared.row_bytes(width)
            &&& f.row_count(height) == shared.units(height)
            &&& f.total_bytes(width, height) == shared.image_bytes(width, height)
        },
{
}

/// The extent with its last block filled up.
pub open spec fn whole_blocks(size: int) -> int {
    ceil_div(size, 4) * 4
}

/// Where texels are stored in blocks, filling up the last blocks takes no more bytes, and a block
/// takes half the bytes in the first of those formats that it takes in the others.
pub proof fn blocks_are_counted_whole(width: int, height: int)
    requires
        width >= 0,
        height >= 0,
    ensures
        forall|f: TexFormat|
            f != TexFormat::Rgba8 ==> #[trigger] f.total_bytes(
                whole_blocks(width),
                whole_blocks(height),
            ) == f.total_bytes(width, height),
        TexFormat::Bc2.total_bytes(width, height) == 2 * TexFormat::Bc1.total_bytes(width, height),
        TexFormat::Bc3.total_bytes(width, height) == TexFormat::Bc2.total_bytes(width, height),
{
    assert(ceil_div(whole_blocks(width), 4) == ceil_div(width, 4));
    assert(ceil_div(whole_blocks(height), 4) == ceil_div(height, 4));
    let (columns, rows) = (ceil_div(width, 4), ceil_div(height, 4));
    assert((columns * 16) * rows == 2 * ((columns * 8) * rows)) by (nonlinear_arith);
}

/// A texture to be made.
pub struct TextureData<'a> {
    pub width: u32,
    pub height: u32,
    pub format: TexFormat,
    pub bytes: &'a [u8],
}

impl<'a> TextureData<'a> {
    /// The texture has an extent and a format that the device can sample.
    pub open spec fn supported(&self, bc_supported: bool) -> bool {
        &&& self.width != 0 && self.height != 0
        &&& self.format != TexFormat::Rgba8 ==> bc_supported
    }

    /// The size that a supported texture asks for can be counted.
    pub open spec fn countable(&self, bc_supported: bool) -> bool {
        self.supported(bc_supported) ==> {
            &&& self.format.row_bytes(self.width as int) <= u32::MAX
            &&& self.format.total_bytes(self.width as int, self.height as int) <= u32::MAX
        }
    }

    /// The texture can be made: it is supported, and there are enough bytes.
    pub open spec fn accepted(&self, bc_supported: bool) -> bool {
        &&& self.supported(bc_supported)
        &&& (self.bytes@.len() as u32) >= self.format.total_bytes(
            self.width as int,
            self.height as int,
        )
    }
}

/// A texture that was made.
#[derive(Clone, Copy, Debug, PartialEq, Eq, Structural)]
pub struct Texture2D {
    pub width: u32,
    pub height: u32,
}

/// How texels are written.
#[derive(Clone, Copy, Debug, PartialEq, Eq, Structural)]
pub struct PixelWrite {
    pub width: u32,
    pub height: u32,
    pub bytes_per_row: u32,
    pub rows: u32,
}

/// The writing of a whole texture.
pub open spec fn whole(width: u32, height: u32, format: TexFormat) -> PixelWrite {
    PixelWrite {
        width,
        height,
        bytes_per_row: format.row_bytes(width as int) as u32,
        rows: format.row_count(height as int) as u32,
    }
}

fn write_pixels(width: u32, height: u32, format: TexFormat) -> (w: PixelWrite)
    requires
        format.row_bytes(width as int) <= u32::MAX,
    ensures
        w == whole(width, height, format),
{
    PixelWrite {
        width,
        height,
        bytes_per_row: format.bytes_per_row(width),
        rows: format.rows(height),
    }
}

/// The texture that a handle names, if any.
pub open spec fn texture_of(records: Map<u64, Record>, handle: u64) -> Option<Texture2D> {
    match lookup(records, handle) {
        Some(r) => Some(Texture2D { width: r.0, height: r.1 }),
        None => None,
    }
}

/// A texture is made exactly if it has an area, if the device knows its format, and if the bytes
/// for its area are there. A handle names what is kept of it.
pub proof fn textures_are_made_of_what_is_there(
    tex: TextureData,
    bc_supported: bool,
    records: Map<u64, Record>,
    handle: u64,
)
    ensures
        tex.accepted(bc_supported) <==> tex.width > 0 && tex.height > 0 && (tex.format
            == TexFormat::Rgba8 || bc_supported) && (tex.bytes@.len() as u32)
            >= tex.format.row_bytes(tex.width as int) * tex.format.row_count(tex.height as int),
        texture_of(records, handle) is Some <==> records.dom().contains(handle | 0x1_0000_0000),
        texture_of(records, handle) matches Some(t) ==> t.width == records[handle
            | 0x1_0000_0000].0 && t.height == records[handle | 0x1_0000_0000].1,
{
}

/// A texture is written whole: rows of its texels, or of as many blocks as cover them.
pub proof fn textures_are_written_whole(width: u32, height: u32, format: TexFormat)
    requires
        format.row_bytes(width as int) <= u32::MAX,
    ensures
        ({
            let w = whole(width, height, format);
            let block = if format == TexFormat::Bc1 {
                8int
            } else {
                16
            };
            &&& w.width == width && w.height == height
            &&& format == TexFormat::Rgba8 ==> w.bytes_per_row == 4 * width && w.rows == height
            &&& format != TexFormat::Rgba8 ==> width * block <= 4 * w.bytes_per_row < width * block
                + 4 * block && height <= 4 * w.rows < height + 4
        }),
{
    quotients_are_rounded_up(width as int, 4);
    quotients_are_rounded_up(height as int, 4);
}

/// Textures under handles; zero names none.
pub struct TextureRegistry {
    pub map: HandleTable,
    pub bc_supported: bool,
}

impl TextureRegistry {
    /// The handles are in order.
    pub open spec fn wf(&self) -> bool {
        self.map.wf()
    }

    /// No textures yet.
    pub fn new(bc_supported: bool) -> (r: TextureRegistry)
        ensures
            r.wf(),
            r.map@ == no_records(),
            r.bc_supported == bc_supported,
    {
        TextureRegistry { map: HandleTable::new(), bc_supported }
    }

    /// The texture that a handle names, if any.
    pub fn get(&self, handle: u64) -> (t: Option<Texture2D>)
        requires
            self.wf(),
        ensures
            t == texture_of(self.map@, handle),
            handle == 0 ==> t is None,
    {
        proof {
            zero_is_never_live(self.map);
        }
        if handle == 0 {
            return None;
        }
        match self.map.get(handle) {
            Some(r) => Some(Texture2D { width: r.0, height: r.1 }),
            None => None,
        }
    }

    /// Makes a texture; the zero handle if it has no extent, is compressed where that is not
    /// supported, or lacks bytes.
    pub fn create(&mut self, tex: &TextureData) -> (made: (u64, Option<PixelWrite>))
        requires
            old(self).wf(),
            old(self).map@.len() < MAX_RECORDS,
            tex.countable(old(self).bc_supported),
        ensures
            final(self).wf(),
            final(self).bc_supported == old(self).bc_supported,
            made.0 != 0 <==> tex.accepted(old(self).bc_supported),
            made.0 == 0 ==> made.1 is None && final(self).map@ == old(self).map@,
            made.0 != 0 ==> {
                &&& valid_handle(made.0)
                &&& !old(self).map@.dom().contains(made.0)
                &&& final(self).map@ == old(self).map@.insert(made.0, (tex.width, tex.height, 0))
                &&& made.1 == Some(whole(tex.width, tex.height, tex.format))
            },
    {
        if tex.width == 0 || tex.height == 0 {
            return (0, None);
        }
        if tex.format.is_block_compressed() && !self.bc_supported {
            return (0, None);
        }
        if (tex.bytes.len() as u32) < tex.format.expected_len(tex.width, tex.height) {
            return (0, None);
        }
        let handle: u64 = self.map.insert((tex.width, tex.height, 0));
        (handle, Some(write_pixels(tex.width, tex.height, tex.format)))
    }

    /// Forgets a texture.
    pub fn destroy(&mut self, handle: u64)
        requires
            old(self).wf(),
        ensures
            final(self).wf(),
            final(self).bc_supported == old(self).bc_supported,
            final(self).map@ == if handle == 0 {
                old(self).map@
            } else {
                old(self).map@.remove(canonical(handle))
            },
    {
        if handle != 0 {
            self.map.remove(handle);
        }
    }

    /// How new texels are written into a texture of plain texels; not at all if it is gone or
    /// there are too few.
    pub fn update_rgba(&self, handle: u64, data: &[u8]) -> (write: Option<PixelWrite>)
        requires
            self.wf(),
            texture_of(self.map@, handle) matches Some(t) ==> t.width * 4 <= u32::MAX && t.width
                * t.height * 4 <= u32::MAX,
        ensures
            write == match texture_of(self.map@, handle) {
                Some(t) => if (data@.len() as u32) >= t.width * t.height * 4 {
                    Some(whole(t.width, t.height, TexFormat::Rgba8))
                } else {
                    None
                },
                None => None,
            },
    {
        match self.get(handle) {
            Some(t) => {
                proof {
                    assert(t.width * t.height <= t.width * t.height * 4) by (nonlinear_arith)
                        requires
                            t.width >= 0,
                            t.height >= 0,
                    ;
                }
                if (data.len() as u32) >= t.width * t.height * 4 {
                    Some(write_pixels(t.width, t.height, TexFormat::Rgba8))
                } else {
                    None
                }
            },
            None => None,
        }
    }
}

} // verus!
