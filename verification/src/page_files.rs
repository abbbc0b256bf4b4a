//! The page files behind a virtual texture: the pixel size of every page file of one tile set,
//! read out of the GTS metadata of that set.
//!
//! A GTS header carries the tile geometry and, per mip level, that level's tile grid — but level
//! 0's grid describes the whole tile set, not one page file. What a single page file holds is the
//! bounding box of its own tiles, and that box times a tile's content area is the DDS size the
//! extractor writes out, so that is what is reported here.
//!
//! Little endian throughout: `num_levels` at byte 40, the tile geometry at 52..64, the flat tile
//! info table at 68..80 (12 bytes per record), the packed tile ids at 88..100 (4 bytes per record)
//! and the page file table at 132..144. Offsets are computed with wrapping arithmetic, and a read
//! past the end of the buffer is what makes a buffer unreadable.

use vstd::prelude::*;
use vstd::bytes::{
    spec_u16_from_le_bytes, spec_u32_from_le_bytes, spec_u64_from_le_bytes, u16_from_le_bytes,
    u32_from_le_bytes, u64_from_le_bytes,
};
use vstd::slice::slice_subrange;

use crate::text::{contains, chars_of, contains_seq};

verus! {

/// Flat tile info record: `page_file_index` first, `packed_tile_id_index` at byte 8
pub const FLAT_TILE_INFO_SIZE: usize = 12;

/// Page file record: a 256-character UTF-16LE name, then page count, GUID and one more word
pub const PAGE_FILE_RECORD_SIZE: usize = 536;

/// Bytes of the name at the start of a page file record
pub const PAGE_FILE_NAME_SIZE: usize = 512;

/// Ceiling on the page file count of one tile set, so a corrupt header cannot be turned into a
/// huge allocation
pub const MAX_PAGE_FILES: usize = 16384;

/// Ceiling on the mip level count: a packed tile id stores its level in 4 bits
pub const MAX_MIP_LEVELS: usize = 16;

/// `GtsHeader::MAGIC` ('GRPG')
pub const GTS_MAGIC: u32 = 0x4750_5247;

/// Pixel size of every page file of one tile set, paired with the page file name it belongs to;
/// `None` for a page file that stores no layer 0 tiles
pub type PageFileSizes = Vec<(String, Option<(u32, u32)>)>;

/// A tile bounding box in tile units: `(min_x, max_x, min_y, max_y)`
pub type TileBox = (u16, u16, u16, u16);

/// What the header of a GTS says about its tiles and page files
#[derive(Clone, Copy)]
pub struct GtsHeader {
    pub num_levels: usize,
    pub content_width: u32,
    pub content_height: u32,
    pub num_flat_tiles: usize,
    pub flat_tiles_offset: usize,
    pub num_packed_tiles: usize,
    pub packed_tiles_offset: usize,
    pub num_page_files: usize,
    pub page_files_offset: usize,
}

/// One layer 0 tile of a page file, at a mip level the header has
#[derive(Clone, Copy)]
pub struct Tile {
    pub page: usize,
    pub level: usize,
    pub x: u16,
    pub y: u16,
}

// ---------------------------------------------------------------------------------------------
// Little-endian reads
// ---------------------------------------------------------------------------------------------

pub open spec fn le16(d: Seq<u8>, off: int) -> Option<u16> {
    if 0 <= off && off + 2 <= d.len() {
        Some(spec_u16_from_le_bytes(d.subrange(off, off + 2)))
    } else {
        None
    }
}

pub open spec fn le32(d: Seq<u8>, off: int) -> Option<u32> {
    if 0 <= off && off + 4 <= d.len() {
        Some(spec_u32_from_le_bytes(d.subrange(off, off + 4)))
    } else {
        None
    }
}

pub open spec fn le64(d: Seq<u8>, off: int) -> Option<u64> {
    if 0 <= off && off + 8 <= d.len() {
        Some(spec_u64_from_le_bytes(d.subrange(off, off + 8)))
    } else {
        None
    }
}

/// A little-endian `u16` at `off`; `None` when the buffer is too short
pub fn read_u16(d: &[u8], off: usize) -> (r: Option<u16>)
    ensures
        r == le16(d@, off as int),
{
    if off <= d.len() && d.len() - off >= 2 {
        Some(u16_from_le_bytes(slice_subrange(d, off, off + 2)))
    } else {
        None
    }
}

/// A little-endian `u32` at `off`; `None` when the buffer is too short
pub fn read_u32(d: &[u8], off: usize) -> (r: Option<u32>)
    ensures
        r == le32(d@, off as int),
{
    if off <= d.len() && d.len() - off >= 4 {
        Some(u32_from_le_bytes(slice_subrange(d, off, off + 4)))
    } else {
        None
    }
}

/// A little-endian `u64` at `off`; `None` when the buffer is too short
pub fn read_u64(d: &[u8], off: usize) -> (r: Option<u64>)
    ensures
        r == le64(d@, off as int),
{
    if off <= d.len() && d.len() - off >= 8 {
        Some(u64_from_le_bytes(slice_subrange(d, off, off + 8)))
    } else {
        None
    }
}

// ---------------------------------------------------------------------------------------------
// Header
// ---------------------------------------------------------------------------------------------

/// The header fields of a GTS buffer, before any of them is checked
pub open spec fn raw_header(d: Seq<u8>) -> Option<GtsHeader> {
    match (le32(d, 40), le32(d, 52), le32(d, 56), le32(d, 60), le32(d, 68), le64(d, 72)) {
        (Some(levels), Some(tw), Some(th), Some(tb), Some(nflat), Some(flat_off)) => {
            match (le32(d, 88), le64(d, 92), le32(d, 132), le64(d, 136)) {
                (Some(npacked), Some(packed_off), Some(npages), Some(pages_off)) => {
                    let tw = tw as i32;
                    let th = th as i32;
                    let tb = tb as i32;
                    Some(
                        GtsHeader {
                            num_levels: levels as usize,
                            content_width: tw.wrapping_sub(tb.wrapping_mul(2)) as u32,
                            content_height: th.wrapping_sub(tb.wrapping_mul(2)) as u32,
                            num_flat_tiles: nflat as usize,
                            flat_tiles_offset: flat_off as usize,
                            num_packed_tiles: npacked as usize,
                            packed_tiles_offset: packed_off as usize,
                            num_page_files: npages as usize,
                            page_files_offset: pages_off as usize,
                        },
                    )
                },
                _ => None,
            }
        },
        _ => None,
    }
}

/// The content area of a tile is the tile without its border on either side: `tile − 2 × border`
/// in each direction, for header fields of ordinary size
pub proof fn law_tile_content_excludes_its_border(d: Seq<u8>)
    requires
        raw_header(d) is Some,
        le32(d, 52).unwrap() < 0x8000_0000,
        le32(d, 56).unwrap() < 0x8000_0000,
        2 * le32(d, 60).unwrap() <= le32(d, 52).unwrap(),
        2 * le32(d, 60).unwrap() <= le32(d, 56).unwrap(),
    ensures
        raw_header(d).unwrap().content_width == le32(d, 52).unwrap() - 2 * le32(d, 60).unwrap(),
        raw_header(d).unwrap().content_height == le32(d, 56).unwrap() - 2 * le32(d, 60).unwrap(),
{
}

/// The header of a GTS buffer: `None` when the magic is wrong, a field cannot be read, or the
/// geometry is unusable (no level, more levels than a packed id can name, more page files than the
/// ceiling, an empty content area)
pub open spec fn gts_header(d: Seq<u8>) -> Option<GtsHeader> {
    if le32(d, 0) != Some(GTS_MAGIC) {
        None
    } else {
        match raw_header(d) {
            Some(h) => if h.num_levels == 0 || h.num_levels > MAX_MIP_LEVELS || h.num_page_files
                > MAX_PAGE_FILES || h.content_width == 0 || h.content_height == 0 {
                None
            } else {
                Some(h)
            },
            None => None,
        }
    }
}

/// Read and check the header of a GTS buffer
pub fn read_header(d: &[u8]) -> (r: Option<GtsHeader>)
    ensures
        r == gts_header(d@),
{
    let magic = read_u32(d, 0)?;
    if magic != GTS_MAGIC {
        return None;
    }
    let levels = read_u32(d, 40)?;
    let tw = read_u32(d, 52)? as i32;
    let th = read_u32(d, 56)? as i32;
    let tb = read_u32(d, 60)? as i32;
    let nflat = read_u32(d, 68)?;
    let flat_off = read_u64(d, 72)?;
    let npacked = read_u32(d, 88)?;
    let packed_off = read_u64(d, 92)?;
    let npages = read_u32(d, 132)?;
    let pages_off = read_u64(d, 136)?;
    let h = GtsHeader {
        num_levels: levels as usize,
        content_width: tw.wrapping_sub(tb.wrapping_mul(2)) as u32,
        content_height: th.wrapping_sub(tb.wrapping_mul(2)) as u32,
        num_flat_tiles: nflat as usize,
        flat_tiles_offset: flat_off as usize,
        num_packed_tiles: npacked as usize,
        packed_tiles_offset: packed_off as usize,
        num_page_files: npages as usize,
        page_files_offset: pages_off as usize,
    };
    if h.num_levels == 0 || h.num_levels > MAX_MIP_LEVELS || h.num_page_files > MAX_PAGE_FILES
        || h.content_width == 0 || h.content_height == 0 {
        return None;
    }
    Some(h)
}

// ---------------------------------------------------------------------------------------------
// Tiles
// ---------------------------------------------------------------------------------------------

/// Flat tile record `i`: `None` when it cannot be read; `Some(None)` when it is skipped (a page
/// file or packed id out of range, a layer other than 0, a level the header does not have);
/// otherwise the tile it places
#[verifier::opaque]
pub open spec fn tile_at(d: Seq<u8>, h: GtsHeader, i: usize) -> Option<Option<Tile>> {
    let record = h.flat_tiles_offset.wrapping_add(i.wrapping_mul(FLAT_TILE_INFO_SIZE));
    match (le16(d, record as int), le32(d, record.wrapping_add(8) as int)) {
        (Some(page), Some(packed_index)) => {
            let page = page as usize;
            let packed_index = packed_index as usize;
            if page >= h.num_page_files || packed_index >= h.num_packed_tiles {
                Some(None)
            } else {
                match le32(
                    d,
                    h.packed_tiles_offset.wrapping_add(packed_index.wrapping_mul(4)) as int,
                ) {
                    Some(packed) => {
                        let level = ((packed >> 4u32) & 0xF) as usize;
                        if packed & 0xF != 0 || level >= h.num_levels {
                            Some(None)
                        } else {
                            Some(
                                Some(
                                    Tile {
                                        page,
                                        level,
                                        x: (packed >> 20u32) as u16,
                                        y: ((packed >> 8u32) & 0xFFF) as u16,
                                    },
                                ),
                            )
                        }
                    },
                    None => None,
                }
            }
        },
        _ => None,
    }
}

/// Read flat tile record `i`
pub fn read_tile(d: &[u8], h: &GtsHeader, i: usize) -> (r: Option<Option<Tile>>)
    ensures
        r == tile_at(d@, *h, i),
{
    reveal(tile_at);
    let record = h.flat_tiles_offset.wrapping_add(i.wrapping_mul(FLAT_TILE_INFO_SIZE));
    let page = read_u16(d, record)? as usize;
    let packed_index = read_u32(d, record.wrapping_add(8))? as usize;
    if page >= h.num_page_files || packed_index >= h.num_packed_tiles {
        return Some(None);
    }
    let packed = read_u32(d, h.packed_tiles_offset.wrapping_add(packed_index.wrapping_mul(4)))?;
    let level = ((packed >> 4u32) & 0xF) as usize;
    if packed & 0xF != 0 || level >= h.num_levels {
        return Some(None);
    }
    Some(Some(Tile { page, level, x: (packed >> 20u32) as u16, y: ((packed >> 8u32) & 0xFFF) as u16 }))
}

/// A box grown to take in tile `(x, y)`; a missing box starts at that tile
pub open spec fn grow(b: Option<TileBox>, x: u16, y: u16) -> TileBox {
    match b {
        None => (x, x, y, y),
        Some((x0, x1, y0, y1)) => (
            if x < x0 { x } else { x0 },
            if x > x1 { x } else { x1 },
            if y < y0 { y } else { y0 },
            if y > y1 { y } else { y1 },
        ),
    }
}

/// The bounding box of every (page file, level) pair over the first `n` flat tile records, laid
/// out page file by page file
pub open spec fn boxes_upto(d: Seq<u8>, h: GtsHeader, n: nat) -> Seq<Option<TileBox>>
    decreases n,
{
    if n == 0 {
        Seq::new((h.num_page_files * h.num_levels) as nat, |i: int| None)
    } else {
        let prev = boxes_upto(d, h, (n - 1) as nat);
        match tile_at(d, h, (n - 1) as usize) {
            Some(Some(t)) => {
                let k = t.page * h.num_levels + t.level;
                prev.update(k, Some(grow(prev[k], t.x, t.y)))
            },
            _ => prev,
        }
    }
}

/// Every flat tile record before `n` can be read
pub open spec fn tiles_readable(d: Seq<u8>, h: GtsHeader, n: int) -> bool {
    forall|i: int| 0 <= i < n ==> (#[trigger] tile_at(d, h, i as usize)) is Some
}

/// A box whose bounds are ordered, with coordinates of 12 bits
pub open spec fn box_ok(b: Option<TileBox>) -> bool {
    match b {
        None => true,
        Some((x0, x1, y0, y1)) => x0 <= x1 <= 0xFFF && y0 <= y1 <= 0xFFF,
    }
}

proof fn lemma_boxes_shape(d: Seq<u8>, h: GtsHeader, n: nat)
    requires
        h.num_levels <= MAX_MIP_LEVELS,
        h.num_page_files <= MAX_PAGE_FILES,
    ensures
        boxes_upto(d, h, n).len() == h.num_page_files * h.num_levels,
        forall|k: int| 0 <= k < boxes_upto(d, h, n).len() ==> box_ok(#[trigger] boxes_upto(d, h, n)[k]),
    decreases n,
{
    if n > 0 {
        lemma_boxes_shape(d, h, (n - 1) as nat);
        match tile_at(d, h, (n - 1) as usize) {
            Some(Some(t)) => {
                lemma_tile_coords(d, h, (n - 1) as usize);
                assert(t.page < h.num_page_files && t.level < h.num_levels);
                assert(t.page * h.num_levels + t.level < h.num_page_files * h.num_levels) by (nonlinear_arith)
                    requires
                        t.page < h.num_page_files,
                        t.level < h.num_levels,
                ;
                lemma_tile_coords(d, h, (n - 1) as usize);
            },
            _ => {},
        }
    }
}

/// A placed tile has 12-bit coordinates
proof fn lemma_tile_coords(d: Seq<u8>, h: GtsHeader, i: usize)
    ensures
        tile_at(d, h, i) matches Some(Some(t)) ==> t.x <= 0xFFF && t.y <= 0xFFF && t.page < h.num_page_files && t.level < h.num_levels,
{
    reveal(tile_at);
    let record = h.flat_tiles_offset.wrapping_add(i.wrapping_mul(FLAT_TILE_INFO_SIZE));
    if let (Some(page), Some(packed_index)) = (le16(d, record as int), le32(d, record.wrapping_add(8) as int)) {
        let packed_index = packed_index as usize;
        if let Some(packed) = le32(d, h.packed_tiles_offset.wrapping_add(packed_index.wrapping_mul(4)) as int) {
            assert((packed >> 20u32) <= 0xFFF) by (bit_vector);
            assert(((packed >> 8u32) & 0xFFF) <= 0xFFF) by (bit_vector);
        }
    }
}

// ---------------------------------------------------------------------------------------------
// Page files
// ---------------------------------------------------------------------------------------------

/// The size of the page file whose boxes start at `base`, at the first of levels `l..` that holds
/// a box: a page file does not have to store level 0
pub open spec fn first_box(bx: Seq<Option<TileBox>>, base: int, levels: int, l: int) -> Option<TileBox>
    decreases levels - l,
{
    if l >= levels {
        None
    } else {
        match bx[base + l] {
            Some(b) => Some(b),
            None => first_box(bx, base, levels, l + 1),
        }
    }
}

/// From level `s` on, the box found is the one of the lowest level holding one
proof fn lemma_lowest_box(bx: Seq<Option<TileBox>>, base: int, levels: int, s: int, l: int)
    requires
        0 <= s <= l < levels,
        bx[base + l] is Some,
        forall|j: int| base + s <= j < base + l ==> (#[trigger] bx[j]) is None,
    ensures
        first_box(bx, base, levels, s) == bx[base + l],
    decreases l - s,
{
    if s < l {
        lemma_lowest_box(bx, base, levels, s + 1, l);
    }
}

/// From level `s` on, no box is found where no level holds one
proof fn lemma_no_box(bx: Seq<Option<TileBox>>, base: int, levels: int, s: int)
    requires
        0 <= s,
        forall|j: int| base + s <= j < base + levels ==> (#[trigger] bx[j]) is None,
    ensures
        first_box(bx, base, levels, s) is None,
    decreases levels - s,
{
    if s < levels {
        lemma_no_box(bx, base, levels, s + 1);
    }
}

/// A page file is sized at the finest level it stores: its box is the one of the lowest level
/// (level 0 being the finest) that holds a box, whatever the coarser levels hold; and a page file
/// that stores no level has no box. The page file's levels are `bx[base]`, `bx[base + 1]`, ….
pub proof fn law_a_page_file_is_sized_at_its_finest_level(bx: Seq<Option<TileBox>>, base: int, levels: int, l: int)
    ensures
        0 <= l < levels && bx[base + l] is Some && (forall|j: int| base <= j < base + l ==> (#[trigger] bx[j]) is None)
            ==> first_box(bx, base, levels, 0) == bx[base + l],
        (forall|j: int| base <= j < base + levels ==> (#[trigger] bx[j]) is None) ==> first_box(bx, base, levels, 0) is None,
{
    if 0 <= l < levels && bx[base + l] is Some && (forall|j: int| base <= j < base + l ==> (#[trigger] bx[j]) is None) {
        lemma_lowest_box(bx, base, levels, 0, l);
    }
    if forall|j: int| base <= j < base + levels ==> (#[trigger] bx[j]) is None {
        lemma_no_box(bx, base, levels, 0);
    }
}

/// A box times the content area of one tile, or `None` when that comes out empty
pub open spec fn box_size(b: TileBox, h: GtsHeader) -> Option<(u32, u32)> {
    let w = ((b.1 - b.0 + 1) as u32).wrapping_mul(h.content_width);
    let ht = ((b.3 - b.2 + 1) as u32).wrapping_mul(h.content_height);
    if w > 0 && ht > 0 {
        Some((w, ht))
    } else {
        None
    }
}

/// A page file spanning a box of tiles is as wide as its columns of tiles times the content width of
/// one tile, and as tall as its rows times the content height (borders excluded), for a box that
/// fits in 32 bits
pub proof fn law_a_box_is_sized_by_its_tiles(b: TileBox, h: GtsHeader)
    requires
        b.0 <= b.1,
        b.2 <= b.3,
        h.content_width > 0,
        h.content_height > 0,
        (b.1 - b.0 + 1) * h.content_width < 0x1_0000_0000,
        (b.3 - b.2 + 1) * h.content_height < 0x1_0000_0000,
    ensures
        box_size(b, h) == Some(
            (((b.1 - b.0 + 1) * h.content_width) as u32, ((b.3 - b.2 + 1) * h.content_height) as u32),
        ),
{
    let c = (b.1 - b.0 + 1) as u32;
    let r = (b.3 - b.2 + 1) as u32;
    let cw = h.content_width;
    let ch = h.content_height;
    assert(c as int == b.1 - b.0 + 1);
    assert(r as int == b.3 - b.2 + 1);
    vstd::arithmetic::div_mod::lemma_small_mod((c as nat * cw as nat) as nat, 0x1_0000_0000);
    vstd::arithmetic::div_mod::lemma_small_mod((r as nat * ch as nat) as nat, 0x1_0000_0000);
    assert(c as nat * cw as nat > 0) by (nonlinear_arith)
        requires
            c > 0,
            cw > 0,
    ;
    assert(r as nat * ch as nat > 0) by (nonlinear_arith)
        requires
            r > 0,
            ch > 0,
    ;
}

/// The code units of a name, up to the first NUL
pub open spec fn until_nul(s: Seq<u16>) -> Seq<u16>
    decreases s.len(),
{
    if s.len() == 0 {
        s
    } else if s[0] == 0 {
        Seq::empty()
    } else {
        seq![s[0]] + until_nul(s.drop_first())
    }
}

/// The UTF-16LE code units of the name field at `off`; `None` when the record is cut off
pub open spec fn name_units(d: Seq<u8>, off: int) -> Option<Seq<u16>> {
    if 0 <= off && off + PAGE_FILE_NAME_SIZE <= d.len() {
        Some(
            until_nul(
                Seq::new(
                    (PAGE_FILE_NAME_SIZE / 2) as nat,
                    |j: int| spec_u16_from_le_bytes(d.subrange(off + 2 * j, off + 2 * j + 2)),
                ),
            ),
        )
    } else {
        None
    }
}

/// What `String::from_utf16_lossy` makes of a sequence of UTF-16 code units: unpaired surrogates
/// become U+FFFD
pub uninterp spec fn utf16_lossy(units: Seq<u16>) -> Seq<char>;

/// Whether no unit of `units` is a surrogate (`D800`–`DFFF`), so each one is a character of its own
pub open spec fn no_surrogates(units: Seq<u16>) -> bool {
    forall|i: int| 0 <= i < units.len() ==> #[trigger] units[i] < 0xD800 || units[i] > 0xDFFF
}

/// The text of UTF-16 code units, as far as it is stated here: without surrogates, each unit is the
/// character of that code point; with them, the name above
pub open spec fn utf16_text(units: Seq<u16>) -> Seq<char> {
    if no_surrogates(units) {
        units.map_values(|u: u16| u as char)
    } else {
        utf16_lossy(units)
    }
}

/// `String::from_utf16_lossy`: UTF-16 decoding, so a unit outside the surrogate range is the
/// character of that code point; how surrogates pair up (and which do not, becoming U+FFFD) is
/// left to the name
#[verifier::external_body]
fn from_utf16_lossy(units: &[u16]) -> (s: String)
    ensures
        s@ == utf16_lossy(units@),
        no_surrogates(units@) ==> s@ == units@.map_values(|u: u16| u as char),
{
    String::from_utf16_lossy(units)
}

/// The name of page file `p`; empty when its record is cut off, which only costs that row its
/// name
pub open spec fn page_name(d: Seq<u8>, h: GtsHeader, p: usize) -> Seq<char> {
    match name_units(
        d,
        h.page_files_offset.wrapping_add(p.wrapping_mul(PAGE_FILE_RECORD_SIZE)) as int,
    ) {
        Some(units) => utf16_text(units),
        None => Seq::empty(),
    }
}

/// Page file sizes out of a GTS buffer: one bounding box per page file, layer 0 only, at the
/// finest level that page file stores. `None` when the buffer is not a readable GTS.
pub open spec fn gts_page_file_sizes(d: Seq<u8>) -> Option<Seq<(Seq<char>, Option<(u32, u32)>)>> {
    match gts_header(d) {
        None => None,
        Some(h) => if !tiles_readable(d, h, h.num_flat_tiles as int) {
            None
        } else {
            let bx = boxes_upto(d, h, h.num_flat_tiles as nat);
            Some(
                Seq::new(
                    h.num_page_files as nat,
                    |p: int|
                        (
                            page_name(d, h, p as usize),
                            match first_box(bx, p * h.num_levels, h.num_levels as int, 0) {
                                Some(b) => box_size(b, h),
                                None => None,
                            },
                        ),
                ),
            )
        },
    }
}

/// The characters of a page file size table
pub open spec fn sizes_view(v: Seq<(String, Option<(u32, u32)>)>) -> Seq<(Seq<char>, Option<(u32, u32)>)> {
    v.map_values(|e: (String, Option<(u32, u32)>)| (e.0@, e.1))
}

proof fn lemma_until_nul_split(s: Seq<u16>, j: int)
    requires
        0 <= j <= s.len(),
        forall|k: int| 0 <= k < j ==> s[k] != 0,
    ensures
        until_nul(s) == s.take(j) + until_nul(s.skip(j)),
    decreases j,
{
    if j == 0 {
        assert(s.skip(0) =~= s);
        assert(s.take(0) + until_nul(s) =~= until_nul(s));
    } else {
        lemma_until_nul_split(s.drop_first(), j - 1);
        assert(s.drop_first().skip(j - 1) =~= s.skip(j));
        assert(seq![s[0]] + s.drop_first().take(j - 1) =~= s.take(j));
        assert(seq![s[0]] + (s.drop_first().take(j - 1) + until_nul(s.skip(j))) =~= s.take(j)
            + until_nul(s.skip(j)));
    }
}

/// The UTF-16LE name at the start of the record at `offset`, up to its first NUL; `None` when
/// the record is cut off
fn read_page_file_name(d: &[u8], offset: usize) -> (r: Option<String>)
    ensures
        r matches Some(s) ==> name_units(d@, offset as int) matches Some(u) && s@ == utf16_text(u),
        r is None <==> name_units(d@, offset as int) is None,
{
    if !(offset <= d.len() && d.len() - offset >= PAGE_FILE_NAME_SIZE) {
        return None;
    }
    let ghost all = Seq::new(
        (PAGE_FILE_NAME_SIZE / 2) as nat,
        |j: int| spec_u16_from_le_bytes(d@.subrange(offset + 2 * j, offset + 2 * j + 2)),
    );
    let n = d.len();
    let mut units: Vec<u16> = Vec::new();
    let mut j: usize = 0;
    while j < PAGE_FILE_NAME_SIZE / 2
        invariant
            n == d@.len(),
            offset + PAGE_FILE_NAME_SIZE <= d@.len(),
            j <= PAGE_FILE_NAME_SIZE / 2,
            all.len() == PAGE_FILE_NAME_SIZE / 2,
            all == Seq::new(
                (PAGE_FILE_NAME_SIZE / 2) as nat,
                |j: int| spec_u16_from_le_bytes(d@.subrange(offset + 2 * j, offset + 2 * j + 2)),
            ),
            units@ == all.take(j as int),
            forall|k: int| 0 <= k < j ==> all[k] != 0,
        decreases PAGE_FILE_NAME_SIZE / 2 - j,
    {
        let unit = u16_from_le_bytes(slice_subrange(d, offset + 2 * j, offset + 2 * j + 2));
        assert(unit == all[j as int]);
        if unit == 0 {
            proof {
                lemma_until_nul_split(all, j as int);
                assert(until_nul(all.skip(j as int)) =~= Seq::<u16>::empty());
                assert(units@ + Seq::<u16>::empty() =~= units@);
            }
            return Some(from_utf16_lossy(units.as_slice()));
        }
        units.push(unit);
        j = j + 1;
        assert(all.take(j as int) =~= all.take(j - 1).push(all[j - 1]));
    }
    proof {
        lemma_until_nul_split(all, all.len() as int);
        assert(all.skip(all.len() as int) =~= Seq::<u16>::empty());
        assert(all.take(all.len() as int) + Seq::<u16>::empty() =~= all.take(all.len() as int));
    }
    Some(from_utf16_lossy(units.as_slice()))
}

/// The box of the first level of page file `p` that holds one
fn first_box_of(bounds: &Vec<Option<TileBox>>, base: usize, levels: usize) -> (r: Option<TileBox>)
    requires
        base + levels <= bounds@.len(),
    ensures
        r == first_box(bounds@, base as int, levels as int, 0),
{
    let n = bounds.len();
    let mut l: usize = 0;
    while l < levels
        invariant
            n == bounds@.len(),
            base + levels <= bounds@.len(),
            l <= levels,
            first_box(bounds@, base as int, levels as int, 0) == first_box(
                bounds@,
                base as int,
                levels as int,
                l as int,
            ),
        decreases levels - l,
    {
        if let Some(b) = bounds[base + l] {
            return Some(b);
        }
        l = l + 1;
    }
    None
}

/// Page file sizes out of a GTS buffer: one tile bounding box per page file, layer 0 only.
pub fn parse_page_file_sizes(data: &[u8]) -> (r: Option<PageFileSizes>)
    ensures
        match r {
            Some(v) => gts_page_file_sizes(data@) == Some(sizes_view(v@)),
            None => gts_page_file_sizes(data@) is None,
        },
{
    let h = read_header(data)?;
    let levels = h.num_levels;
    let pages = h.num_page_files;
    assert(pages * levels <= MAX_PAGE_FILES * MAX_MIP_LEVELS) by (nonlinear_arith)
        requires
            pages <= MAX_PAGE_FILES,
            levels <= MAX_MIP_LEVELS,
    ;
    let total = pages * levels;
    let mut bounds: Vec<Option<TileBox>> = Vec::new();
    let mut k: usize = 0;
    while k < total
        invariant
            k <= total,
            bounds@ == Seq::new(k as nat, |i: int| None::<TileBox>),
        decreases total - k,
    {
        bounds.push(None);
        k = k + 1;
        assert(bounds@ =~= Seq::new(k as nat, |i: int| None::<TileBox>));
    }
    assert(bounds@ =~= boxes_upto(data@, h, 0));

    let mut index: usize = 0;
    while index < h.num_flat_tiles
        invariant
            gts_header(data@) == Some(h),
            h.num_levels == levels,
            h.num_page_files == pages,
            total == pages * levels,
            index <= h.num_flat_tiles,
            bounds@ == boxes_upto(data@, h, index as nat),
            tiles_readable(data@, h, index as int),
        decreases h.num_flat_tiles - index,
    {
        proof {
            lemma_boxes_shape(data@, h, index as nat);
            lemma_tile_coords(data@, h, index);
        }
        let tile = read_tile(data, &h, index);
        match tile {
            None => {
                assert(tile_at(data@, h, (index as int) as usize) is None);
                assert(!tiles_readable(data@, h, h.num_flat_tiles as int));
                return None;
            },
            Some(None) => {},
            Some(Some(t)) => {
                assert(t.page * levels + t.level < pages * levels) by (nonlinear_arith)
                    requires
                        t.page < pages,
                        t.level < levels,
                ;
                let slot = t.page * levels + t.level;
                let grown = match bounds[slot] {
                    None => (t.x, t.x, t.y, t.y),
                    Some((x0, x1, y0, y1)) => (
                        if t.x < x0 { t.x } else { x0 },
                        if t.x > x1 { t.x } else { x1 },
                        if t.y < y0 { t.y } else { y0 },
                        if t.y > y1 { t.y } else { y1 },
                    ),
                };
                bounds.set(slot, Some(grown));
            },
        }
        index = index + 1;
        proof {
            assert forall|i: int| 0 <= i < index implies (#[trigger] tile_at(data@, h, i as usize)) is Some by {
                if i < index - 1 {
                    assert(tiles_readable(data@, h, (index - 1) as int));
                }
            }
        }
    }
    proof {
        lemma_boxes_shape(data@, h, h.num_flat_tiles as nat);
    }

    let ghost bx = bounds@;
    let ghost expected = gts_page_file_sizes(data@).unwrap();
    let mut sizes: PageFileSizes = Vec::new();
    let mut p: usize = 0;
    while p < pages
        invariant
            gts_header(data@) == Some(h),
            tiles_readable(data@, h, h.num_flat_tiles as int),
            bx == boxes_upto(data@, h, h.num_flat_tiles as nat),
            bounds@ == bx,
            bx.len() == pages * levels,
            forall|k: int| 0 <= k < bx.len() ==> box_ok(#[trigger] bx[k]),
            h.num_levels == levels,
            h.num_page_files == pages,
            levels <= MAX_MIP_LEVELS,
            pages <= MAX_PAGE_FILES,
            pages * levels <= MAX_PAGE_FILES * MAX_MIP_LEVELS,
            p <= pages,
            expected == gts_page_file_sizes(data@).unwrap(),
            expected.len() == pages,
            sizes_view(sizes@) == expected.take(p as int),
        decreases pages - p,
    {
        let offset = h.page_files_offset.wrapping_add(p.wrapping_mul(PAGE_FILE_RECORD_SIZE));
        let name = match read_page_file_name(data, offset) {
            Some(name) => name,
            None => String::new(),
        };
        assert(p * levels + levels <= pages * levels) by (nonlinear_arith)
            requires
                p < pages,
        ;
        let size = match first_box_of(&bounds, p * levels, levels) {
            Some(b) => {
                proof {
                    lemma_first_box_ok(bx, (p * levels) as int, levels as int, 0);
                }
                let w = ((b.1 - b.0 + 1) as u32).wrapping_mul(h.content_width);
                let ht = ((b.3 - b.2 + 1) as u32).wrapping_mul(h.content_height);
                if w > 0 && ht > 0 {
                    Some((w, ht))
                } else {
                    None
                }
            },
            None => None,
        };
        assert(name@ == page_name(data@, h, p));
        assert(size == match first_box(bx, (p * levels) as int, levels as int, 0) {
            Some(b) => box_size(b, h),
            None => None,
        });
        assert(expected[p as int] == (name@, size));
        let ghost before = sizes@;
        sizes.push((name, size));
        p = p + 1;
        assert(sizes_view(sizes@) =~= sizes_view(before).push(expected[p - 1]));
        assert(expected.take(p as int) =~= expected.take(p - 1).push(expected[p - 1]));
    }
    assert(expected.take(pages as int) =~= expected);
    Some(sizes)
}

proof fn lemma_first_box_ok(bx: Seq<Option<TileBox>>, base: int, levels: int, l: int)
    requires
        0 <= base,
        base + levels <= bx.len(),
        forall|k: int| 0 <= k < bx.len() ==> box_ok(#[trigger] bx[k]),
        0 <= l,
    ensures
        box_ok(first_box(bx, base, levels, l)),
    decreases levels - l,
{
    if l < levels {
        assert(box_ok(bx[base + l]));
        lemma_first_box_ok(bx, base, levels, l + 1);
    }
}

// ---------------------------------------------------------------------------------------------
// Lookup
// ---------------------------------------------------------------------------------------------

/// Position of the first page file whose name contains `hash`
pub open spec fn first_page_named(sizes: Seq<(Seq<char>, Option<(u32, u32)>)>, hash: Seq<char>) -> Option<int> {
    if exists|i: int| 0 <= i < sizes.len() && contains_seq(sizes[i].0, hash) {
        Some(choose|i: int| 0 <= i < sizes.len() && contains_seq(sizes[i].0, hash) && forall|j: int| 0 <= j < i ==> !contains_seq(sizes[j].0, hash))
    } else {
        None
    }
}

/// The size of the page file `hash` names, in a tile set's table: the first page file whose name
/// contains the hash, the way the extractor resolves page files (by substring)
pub fn size_for_hash(sizes: &PageFileSizes, hash: &str) -> (r: Option<(u32, u32)>)
    ensures
        r == match first_page_named(sizes_view(sizes@), hash@) {
            Some(i) => sizes_view(sizes@)[i].1,
            None => None,
        },
{
    let ghost sv = sizes_view(sizes@);
    let pattern = chars_of(hash);
    let mut i: usize = 0;
    while i < sizes.len()
        invariant
            sv == sizes_view(sizes@),
            pattern@ == hash@,
            i <= sizes@.len(),
            forall|j: int| 0 <= j < i ==> !contains_seq(sv[j].0, hash@),
        decreases sizes@.len() - i,
    {
        let name = chars_of(sizes[i].0.as_str());
        if contains(name.as_slice(), pattern.as_slice()) {
            proof {
                let w = choose|x: int| 0 <= x < sv.len() && contains_seq(sv[x].0, hash@) && forall|j: int| 0 <= j < x ==> !contains_seq(sv[j].0, hash@);
                assert(contains_seq(sv[i as int].0, hash@));
                if w < i {
                } else if w > i {
                    assert(!contains_seq(sv[i as int].0, hash@));
                }
            }
            return sizes[i].1;
        }
        i = i + 1;
    }
    None
}

} // verus!
