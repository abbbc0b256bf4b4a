//! The pixel size of the page file a virtual texture resolved to, read out of the GTS of its tile
//! set and cached by GTS path: one GTS serves every page file of its set, so each is read once.
//!
//! Reading a GTS is archive work, so a lookup answers either with the size or with the GTS that has
//! to be read first; the caller reads it, hands the bytes to `record_gts`, and asks again.

use vstd::prelude::*;

use crate::export::ExportManifest;
use crate::model::{GtpMatch, GtpMatchView};
use crate::naming::{derive_gts_path, gts_path};
use crate::page_files::{first_page_named, gts_page_file_sizes, parse_page_file_sizes, size_for_hash, sizes_view, PageFileSizes};
use crate::strmap::StrMap;
use crate::virtual_textures::{match_for, match_for_hash, match_index, VirtualTextureSummary, VirtualTextureSummaryView};

verus! {

/// The page file matches as values
pub open spec fn views_of(matches: Seq<GtpMatch>) -> Seq<GtpMatchView> {
    matches.map_values(|m: GtpMatch| m.deep_view())
}

/// The cache of page file sizes: one table per GTS path
pub type SizeCache = StrMap<PageFileSizes>;

/// What one GTS contributes to the cache: its table, or an empty one — a cached "no sizes here" —
/// when it could not be read or parsed
pub open spec fn gts_table(bytes: Option<Seq<u8>>) -> Seq<(Seq<char>, Option<(u32, u32)>)> {
    match bytes {
        Some(b) => match gts_page_file_sizes(b) {
            Some(t) => t,
            None => Seq::empty(),
        },
        None => Seq::empty(),
    }
}

/// The size a table gives the page file `hash` names
pub open spec fn table_size(table: Seq<(Seq<char>, Option<(u32, u32)>)>, hash: Seq<char>) -> Option<(u32, u32)> {
    match first_page_named(table, hash) {
        Some(i) => table[i].1,
        None => None,
    }
}

/// The cache's tables as values
proof fn lemma_table_view(v: PageFileSizes)
    ensures
        v.deep_view() == sizes_view(v@),
{
    assert(v.deep_view() =~= sizes_view(v@));
}

/// Record the table of the GTS at `gts`, out of its bytes when they could be read
pub fn record_gts(sizes: &mut SizeCache, gts: String, bytes: Option<&[u8]>)
    requires
        old(sizes).wf(),
    ensures
        final(sizes).wf(),
        final(sizes)@ == old(sizes)@.insert(
            gts@,
            gts_table(
                match bytes {
                    Some(b) => Some(b@),
                    None => None,
                },
            ),
        ),
{
    let ghost expected = gts_table(
        match bytes {
            Some(b) => Some(b@),
            None => None,
        },
    );
    let table: PageFileSizes = match bytes {
        Some(b) => match parse_page_file_sizes(b) {
            Some(t) => t,
            None => {
                let t: PageFileSizes = Vec::new();
                assert(sizes_view(t@) =~= Seq::<(Seq<char>, Option<(u32, u32)>)>::empty());
                t
            },
        },
        None => {
            let t: PageFileSizes = Vec::new();
            assert(sizes_view(t@) =~= Seq::<(Seq<char>, Option<(u32, u32)>)>::empty());
            t
        },
    };
    proof {
        lemma_table_view(table);
        assert(sizes_view(table@) == expected);
    }
    sizes.insert(gts, table);
}

/// What a size lookup needs next: the size, or the GTS that has to be read before it is known
pub enum SizeLookup {
    /// The GTS at this archive path is not cached yet
    Read(String),
    /// The size; `None` when the page file stores no tiles of the base layer or the GTS does not
    /// parse
    Known(Option<(u32, u32)>),
}

/// Pixel size of the page file `hash` names, in the resolution that page file really stores, out
/// of the table of the GTS of its tile set — or that GTS, when it is not cached yet
pub fn page_file_size(sizes: &SizeCache, matched: &GtpMatch, hash: &str) -> (r: SizeLookup)
    requires
        sizes.wf(),
    ensures
        ({
            let gts = gts_path(matched.gtp_path@);
            if sizes@.contains_key(gts) {
                r == SizeLookup::Known(table_size(sizes@[gts], hash@))
            } else {
                r matches SizeLookup::Read(g) && g@ == gts
            }
        }),
{
    let gts = derive_gts_path(matched.gtp_path.as_str());
    match sizes.get(gts.as_str()) {
        Some(table) => {
            proof {
                lemma_table_view(*table);
            }
            SizeLookup::Known(size_for_hash(table, hash))
        },
        None => SizeLookup::Read(gts),
    }
}

/// The GTS whose table the size of a row with hash `hash` needs: the one of the page file the hash
/// resolved to, or none when it resolved to none
pub open spec fn gts_needed(matches: Seq<GtpMatchView>, hash: Seq<char>) -> Option<Seq<char>> {
    match match_for(matches, hash) {
        Some(m) => Some(gts_path(m.gtp_path)),
        None => None,
    }
}

/// The size a row with hash `hash` gets once every GTS it needs is cached
pub open spec fn row_size(
    matches: Seq<GtpMatchView>,
    sizes: Map<Seq<char>, Seq<(Seq<char>, Option<(u32, u32)>)>>,
    hash: Seq<char>,
) -> Option<(u32, u32)> {
    match gts_needed(matches, hash) {
        Some(g) => if sizes.contains_key(g) {
            table_size(sizes[g], hash)
        } else {
            None
        },
        None => None,
    }
}

/// A row with its size settled: a failed lookup leaves the row as it was
pub open spec fn sized_row(row: VirtualTextureSummaryView, size: Option<(u32, u32)>) -> VirtualTextureSummaryView {
    match size {
        Some((w, h)) => VirtualTextureSummaryView { width: Some(w), height: Some(h), ..row },
        None => row,
    }
}

/// A virtual texture is given one size wherever it is shown: an unsized row of the detail and an
/// unsized row of the export manifest with the same hash, settled against the same page file
/// matches and the same cache, carry the same width and height
pub proof fn law_detail_and_manifest_agree_on_sizes(
    detail_row: VirtualTextureSummaryView,
    manifest_row: VirtualTextureSummaryView,
    matches: Seq<GtpMatchView>,
    sizes: Map<Seq<char>, Seq<(Seq<char>, Option<(u32, u32)>)>>,
)
    requires
        detail_row.hash == manifest_row.hash,
        detail_row.width is None && detail_row.height is None,
        manifest_row.width is None && manifest_row.height is None,
    ensures
        sized_row(detail_row, row_size(matches, sizes, detail_row.hash)).width == sized_row(
            manifest_row,
            row_size(matches, sizes, manifest_row.hash),
        ).width,
        sized_row(detail_row, row_size(matches, sizes, detail_row.hash)).height == sized_row(
            manifest_row,
            row_size(matches, sizes, manifest_row.hash),
        ).height,
{
}

/// The first GTS some row of `rows` needs that the cache does not hold yet
pub fn pending_gts(rows: &Vec<VirtualTextureSummary>, matches: &[GtpMatch], sizes: &SizeCache) -> (r: Option<String>)
    requires
        sizes.wf(),
    ensures
        match r {
            Some(g) => !sizes@.contains_key(g@) && exists|i: int|
                0 <= i < rows@.len() && gts_needed(
                    views_of(matches@),
                    (#[trigger] rows@[i]).hash@,
                ) == Some(g@),
            None => forall|i: int|
                0 <= i < rows@.len() ==> (#[trigger] gts_needed(
                    views_of(matches@),
                    rows@[i].hash@,
                ) matches Some(g) ==> sizes@.contains_key(g)),
        },
{
    let ghost ms = views_of(matches@);
    let mut i: usize = 0;
    while i < rows.len()
        invariant
            sizes.wf(),
            ms == views_of(matches@),
            i <= rows@.len(),
            forall|j: int|
                0 <= j < i ==> (#[trigger] gts_needed(ms, rows@[j].hash@) matches Some(g) ==> sizes@.contains_key(g)),
        decreases rows@.len() - i,
    {
        let hash = rows[i].hash.as_str();
        match match_for_hash(matches, hash) {
            Some(matched) => {
                proof {
                    let k = match_index(ms, hash@)->0;
                    assert(ms[k] == matched.deep_view());
                }
                match page_file_size(sizes, matched, hash) {
                    SizeLookup::Read(g) => {
                        return Some(g);
                    },
                    SizeLookup::Known(_) => {},
                }
            },
            None => {},
        }
        i = i + 1;
    }
    None
}

/// Settle the size of every row of `rows` out of the cache
pub fn apply_sizes(rows: &mut Vec<VirtualTextureSummary>, matches: &[GtpMatch], sizes: &SizeCache)
    requires
        sizes.wf(),
    ensures
        final(rows)@.len() == old(rows)@.len(),
        forall|i: int|
            0 <= i < old(rows)@.len() ==> (#[trigger] final(rows).deep_view()[i]) == sized_row(
                old(rows).deep_view()[i],
                row_size(views_of(matches@), sizes@, old(rows)@[i].hash@),
            ),
{
    let ghost ms = views_of(matches@);
    let ghost start = rows.deep_view();
    let n = rows.len();
    let mut i: usize = 0;
    while i < n
        invariant
            sizes.wf(),
            ms == views_of(matches@),
            n == rows@.len(),
            n == start.len(),
            i <= n,
            forall|j: int|
                0 <= j < n ==> (#[trigger] rows.deep_view()[j]) == (if j < i {
                    sized_row(start[j], row_size(ms, sizes@, start[j].hash))
                } else {
                    start[j]
                }),
        decreases n - i,
    {
        let ghost before = rows.deep_view();
        assert(before[i as int] == start[i as int]);
        let mut row = rows[i].duplicate();
        let size = match match_for_hash(matches, row.hash.as_str()) {
            Some(matched) => {
                proof {
                    let k = match_index(ms, row.hash@)->0;
                    assert(ms[k] == matched.deep_view());
                }
                match page_file_size(sizes, matched, row.hash.as_str()) {
                    SizeLookup::Known(s) => s,
                    SizeLookup::Read(_) => None,
                }
            },
            None => None,
        };
        row.set_size(size);
        rows.set(i, row);
        assert(rows.deep_view() =~= before.update(i as int, sized_row(start[i as int], row_size(ms, sizes@, start[i as int].hash))));
        i = i + 1;
    }
}

/// The first GTS some virtual texture row of the manifest needs that the cache does not hold yet
pub fn manifest_pending_gts(manifest: &ExportManifest, matches: &[GtpMatch], sizes: &SizeCache) -> (r: Option<String>)
    requires
        sizes.wf(),
    ensures
        match r {
            Some(g) => !sizes@.contains_key(g@) && exists|m: int, i: int|
                0 <= m < manifest.materials@.len() && 0 <= i < manifest.materials@[m].virtual_textures@.len()
                    && #[trigger] gts_needed(
                    views_of(matches@),
                    manifest.materials@[m].virtual_textures@[i].hash@,
                ) == Some(g@),
            None => forall|m: int, i: int|
                0 <= m < manifest.materials@.len() && 0 <= i < manifest.materials@[m].virtual_textures@.len()
                    ==> (#[trigger] gts_needed(
                    views_of(matches@),
                    manifest.materials@[m].virtual_textures@[i].hash@,
                ) matches Some(g) ==> sizes@.contains_key(g)),
        },
{
    let mut m: usize = 0;
    while m < manifest.materials.len()
        invariant
            sizes.wf(),
            m <= manifest.materials@.len(),
            forall|k: int, i: int|
                0 <= k < m && 0 <= i < manifest.materials@[k].virtual_textures@.len() ==> (#[trigger] gts_needed(
                    views_of(matches@),
                    manifest.materials@[k].virtual_textures@[i].hash@,
                ) matches Some(g) ==> sizes@.contains_key(g)),
        decreases manifest.materials@.len() - m,
    {
        match pending_gts(&manifest.materials[m].virtual_textures, matches, sizes) {
            Some(g) => {
                proof {
                    let i = choose|i: int|
                        0 <= i < manifest.materials@[m as int].virtual_textures@.len() && gts_needed(
                            views_of(matches@),
                            (#[trigger] manifest.materials@[m as int].virtual_textures@[i]).hash@,
                        ) == Some(g@);
                    assert(gts_needed(views_of(matches@), manifest.materials@[m as int].virtual_textures@[i].hash@) == Some(g@));
                }
                return Some(g);
            },
            None => {},
        }
        m = m + 1;
    }
    None
}

/// Settle the size of every virtual texture row the materials of the manifest carry
pub fn apply_manifest_sizes(manifest: &mut ExportManifest, matches: &[GtpMatch], sizes: &SizeCache)
    requires
        sizes.wf(),
    ensures
        final(manifest).id == old(manifest).id,
        final(manifest).name == old(manifest).name,
        final(manifest).source == old(manifest).source,
        final(manifest).path == old(manifest).path,
        final(manifest).exported_at_unix == old(manifest).exported_at_unix,
        final(manifest).maclarian_version == old(manifest).maclarian_version,
        final(manifest).materials@.len() == old(manifest).materials@.len(),
        forall|m: int|
            0 <= m < old(manifest).materials@.len() ==> {
                let before = old(manifest).materials@[m];
                let after = #[trigger] final(manifest).materials@[m];
                &&& after.id == before.id
                &&& after.name == before.name
                &&& after.source == before.source
                &&& after.source_file == before.source_file
                &&& after.textures == before.textures
                &&& after.virtual_textures@.len() == before.virtual_textures@.len()
                &&& forall|i: int|
                    0 <= i < before.virtual_textures@.len() ==> (#[trigger] after.virtual_textures.deep_view()[i])
                        == sized_row(
                        before.virtual_textures.deep_view()[i],
                        row_size(views_of(matches@), sizes@, before.virtual_textures@[i].hash@),
                    )
            },
{
    let n = manifest.materials.len();
    let mut m: usize = 0;
    while m < n
        invariant
            sizes.wf(),
            n == manifest.materials@.len(),
            n == old(manifest).materials@.len(),
            m <= n,
            manifest.id == old(manifest).id,
            manifest.name == old(manifest).name,
            manifest.source == old(manifest).source,
            manifest.path == old(manifest).path,
            manifest.exported_at_unix == old(manifest).exported_at_unix,
            manifest.maclarian_version == old(manifest).maclarian_version,
            forall|k: int|
                m <= k < n ==> #[trigger] manifest.materials@[k] == old(manifest).materials@[k],
            forall|k: int|
                0 <= k < m ==> {
                    let before = old(manifest).materials@[k];
                    let after = #[trigger] manifest.materials@[k];
                    &&& after.id == before.id
                    &&& after.name == before.name
                    &&& after.source == before.source
                    &&& after.source_file == before.source_file
                    &&& after.textures == before.textures
                    &&& after.virtual_textures@.len() == before.virtual_textures@.len()
                    &&& forall|i: int|
                        0 <= i < before.virtual_textures@.len() ==> (#[trigger] after.virtual_textures.deep_view()[i])
                            == sized_row(
                            before.virtual_textures.deep_view()[i],
                            row_size(views_of(matches@), sizes@, before.virtual_textures@[i].hash@),
                        )
                },
        decreases n - m,
    {
        apply_sizes(&mut manifest.materials[m].virtual_textures, matches, sizes);
        m = m + 1;
    }
}

} // verus!
