use assets_lens::page_files::{parse_page_file_sizes, read_header, size_for_hash, GTS_MAGIC};

const FLAT: usize = 200;
const PACKED: usize = 300;
const PAGES: usize = 400;

fn put_u16(d: &mut [u8], at: usize, v: u16) {
    d[at..at + 2].copy_from_slice(&v.to_le_bytes());
}

fn put_u32(d: &mut [u8], at: usize, v: u32) {
    d[at..at + 4].copy_from_slice(&v.to_le_bytes());
}

fn put_u64(d: &mut [u8], at: usize, v: u64) {
    d[at..at + 8].copy_from_slice(&v.to_le_bytes());
}

fn packed(x: u32, y: u32, level: u32, layer: u32) -> u32 {
    (x << 20) | (y << 8) | (level << 4) | layer
}

/// A two-level tile set of 136-pixel tiles with a 4-pixel border, so 128 pixels of content per
/// tile, and two page files: the first stores level 0 tiles spanning 3 x 4 tiles, the second only a
/// level 1 tile. One more tile sits on layer 1 and must not count.
fn tile_set() -> Vec<u8> {
    let tiles = [(0u16, packed(1, 2, 0, 0)), (0, packed(3, 2, 0, 0)), (0, packed(2, 5, 0, 0)), (1, packed(0, 0, 1, 0)), (1, packed(9, 9, 0, 1))];
    let mut d = vec![0u8; PAGES + 2 * 536];
    put_u32(&mut d, 0, GTS_MAGIC);
    put_u32(&mut d, 40, 2);
    put_u32(&mut d, 52, 136);
    put_u32(&mut d, 56, 136);
    put_u32(&mut d, 60, 4);
    put_u32(&mut d, 68, tiles.len() as u32);
    put_u64(&mut d, 72, FLAT as u64);
    put_u32(&mut d, 88, tiles.len() as u32);
    put_u64(&mut d, 92, PACKED as u64);
    put_u32(&mut d, 132, 2);
    put_u64(&mut d, 136, PAGES as u64);
    for (i, (page, id)) in tiles.iter().enumerate() {
        put_u16(&mut d, FLAT + 12 * i, *page);
        put_u32(&mut d, FLAT + 12 * i + 8, i as u32);
        put_u32(&mut d, PACKED + 4 * i, *id);
    }
    for (p, name) in ["Set_5_aaaa.gtp", "Set_5_bbbb.gtp"].iter().enumerate() {
        for (j, unit) in name.encode_utf16().enumerate() {
            put_u16(&mut d, PAGES + 536 * p + 2 * j, unit);
        }
    }
    d
}

#[test]
fn the_header_carries_the_content_area() {
    let h = read_header(&tile_set()).expect("a readable header");
    assert_eq!(h.num_levels, 2);
    assert_eq!(h.content_width, 128);
    assert_eq!(h.content_height, 128);
    assert_eq!(h.num_page_files, 2);
}

#[test]
fn each_page_file_is_sized_by_its_own_tiles() {
    let sizes = parse_page_file_sizes(&tile_set()).expect("a readable tile set");
    assert_eq!(sizes.len(), 2);
    assert_eq!(sizes[0].0, "Set_5_aaaa.gtp");
    assert_eq!(sizes[0].1, Some((3 * 128, 4 * 128)));
    // No level 0 tile: the finest level the page file stores gives its size
    assert_eq!(sizes[1].0, "Set_5_bbbb.gtp");
    assert_eq!(sizes[1].1, Some((128, 128)));
}

#[test]
fn a_hash_finds_the_page_file_named_after_it() {
    let sizes = parse_page_file_sizes(&tile_set()).unwrap();
    assert_eq!(size_for_hash(&sizes, "bbbb"), Some((128, 128)));
    assert_eq!(size_for_hash(&sizes, "aaaa"), Some((384, 512)));
    assert_eq!(size_for_hash(&sizes, "cccc"), None);
}

#[test]
fn a_buffer_that_is_not_a_gts_is_refused() {
    assert!(parse_page_file_sizes(&[]).is_none());
    let mut d = tile_set();
    put_u32(&mut d, 0, 0);
    assert!(parse_page_file_sizes(&d).is_none());
    let mut d = tile_set();
    put_u32(&mut d, 40, 0);
    assert!(parse_page_file_sizes(&d).is_none());
    let mut d = tile_set();
    put_u32(&mut d, 60, 68);
    assert!(read_header(&d).is_none());
}

#[test]
fn a_cut_off_tile_table_makes_the_buffer_unreadable() {
    let mut d = tile_set();
    let near_end = (d.len() - 4) as u64;
    put_u64(&mut d, 72, near_end);
    assert!(parse_page_file_sizes(&d).is_none());
}

#[test]
fn a_cut_off_name_only_costs_its_row_the_name() {
    let mut d = tile_set();
    d.truncate(PAGES + 536 + 100);
    let sizes = parse_page_file_sizes(&d).unwrap();
    assert_eq!(sizes[0].0, "Set_5_aaaa.gtp");
    assert_eq!(sizes[1].0, "");
    assert_eq!(sizes[1].1, Some((128, 128)));
}
