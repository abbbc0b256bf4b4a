//! Virtual textures: the row an asset's list carries, and the page file its hash resolved to.

use vstd::prelude::*;

use crate::app::{copy_opt, opt_view};
use crate::material::{virtual_texture_parameter, vt_parameter_spec, MaterialCache, MaterialInfoView};
use crate::model::{GtpMatch, GtpMatchView, VirtualTextureRef, VirtualTextureRefView, VisualAsset};
use crate::source::{source_of, source_spec, ModSources};
use crate::text::{chars_of, eq_ignore_ascii_case, eq_ignore_ascii_case_seq, trim, trim_ws};

verus! {

/// Streaming virtual texture reference (GTex): a row of the asset's virtual texture list, and —
/// copied — the entry a material binding of the export manifest carries
#[derive(Debug)]
pub struct VirtualTextureSummary {
    pub id: String,
    pub name: String,
    /// Mod providing this virtual texture; absent for the game's own
    pub source: Option<String>,
    pub hash: String,
    /// Page file (`.gtp`) inside its archive; empty when no lookup was run or nothing matched
    pub path: String,
    /// Pixel size of this page file, read out of its tile set's GTS; `None` when the hash resolved
    /// to no page file, that GTS could not be parsed, or the caller does not read the GTS at all
    pub width: Option<u32>,
    pub height: Option<u32>,
    /// Parameter the binding fills (e.g. `virtualtexture`), read off the asset's materials
    pub parameter_name: Option<String>,
}

/// The values of a virtual texture row
pub struct VirtualTextureSummaryView {
    pub id: Seq<char>,
    pub name: Seq<char>,
    pub source: Option<Seq<char>>,
    pub hash: Seq<char>,
    pub path: Seq<char>,
    pub width: Option<u32>,
    pub height: Option<u32>,
    pub parameter_name: Option<Seq<char>>,
}

impl DeepView for VirtualTextureSummary {
    type V = VirtualTextureSummaryView;

    open spec fn deep_view(&self) -> VirtualTextureSummaryView {
        VirtualTextureSummaryView {
            id: self.id@,
            name: self.name@,
            source: opt_view(self.source),
            hash: self.hash@,
            path: self.path@,
            width: self.width,
            height: self.height,
            parameter_name: opt_view(self.parameter_name),
        }
    }
}

/// The row of virtual texture `vt` with the page file it resolved to (if any), before its source,
/// size and parameter are settled
pub open spec fn vt_base_row(vt: VirtualTextureRefView, matched: Option<GtpMatchView>) -> VirtualTextureSummaryView {
    VirtualTextureSummaryView {
        id: vt.id,
        name: vt.name,
        source: None,
        hash: vt.gtex_hash,
        path: match matched {
            Some(m) => m.gtp_path,
            None => Seq::empty(),
        },
        width: None,
        height: None,
        parameter_name: None,
    }
}

impl VirtualTextureSummary {
    /// `matched` is the page file resolved for this hash — `None` when the lookup found nothing
    /// (the row then renders without a path) or was skipped by the caller
    pub fn new(value: &VirtualTextureRef, matched: Option<&GtpMatch>) -> (r: Self)
        ensures
            r.deep_view() == vt_base_row(
                value.deep_view(),
                match matched {
                    Some(m) => Some(m.deep_view()),
                    None => None,
                },
            ),
    {
        VirtualTextureSummary {
            id: value.id.clone(),
            name: value.name.clone(),
            source: None,
            hash: value.gtex_hash.clone(),
            path: match matched {
                Some(m) => m.gtp_path.clone(),
                None => String::new(),
            },
            width: None,
            height: None,
            parameter_name: None,
        }
    }

    /// Fill in the page file size. A failed lookup leaves both fields unset: the size is
    /// decoration, and must not take a detail view or an export down with it.
    pub fn set_size(&mut self, size: Option<(u32, u32)>)
        ensures
            final(self).deep_view() == (match size {
                Some((w, h)) => VirtualTextureSummaryView { width: Some(w), height: Some(h), ..old(self).deep_view() },
                None => old(self).deep_view(),
            }),
    {
        if let Some((width, height)) = size {
            self.width = Some(width);
            self.height = Some(height);
        }
    }

    /// A copy of this row
    pub fn duplicate(&self) -> (r: Self)
        ensures
            r.deep_view() == self.deep_view(),
    {
        VirtualTextureSummary {
            id: self.id.clone(),
            name: self.name.clone(),
            source: copy_opt(&self.source),
            hash: self.hash.clone(),
            path: self.path.clone(),
            width: self.width,
            height: self.height,
            parameter_name: copy_opt(&self.parameter_name),
        }
    }
}

/// Position of the page file resolved for `hash`: the first match whose hash equals it, trimmed,
/// ignoring ASCII case
pub open spec fn match_index(matches: Seq<GtpMatchView>, hash: Seq<char>) -> Option<int> {
    if exists|i: int| 0 <= i < matches.len() && eq_ignore_ascii_case_seq(matches[i].gtex_hash, trim_ws(hash)) {
        Some(choose|i: int| 0 <= i < matches.len() && eq_ignore_ascii_case_seq(matches[i].gtex_hash, trim_ws(hash))
            && forall|j: int| 0 <= j < i ==> !eq_ignore_ascii_case_seq(matches[j].gtex_hash, trim_ws(hash)))
    } else {
        None
    }
}

/// The page file resolved for `hash`, as a value
pub open spec fn match_for(matches: Seq<GtpMatchView>, hash: Seq<char>) -> Option<GtpMatchView> {
    match match_index(matches, hash) {
        Some(i) => Some(matches[i]),
        None => None,
    }
}

/// The page file resolved for a hash is the first match whose hash is that hash (trimmed, ignoring
/// ASCII case): none when no match carries it, and otherwise the one at the lowest position that
/// does, whatever later matches carry
pub proof fn law_a_hash_resolves_to_its_first_match(matches: Seq<GtpMatchView>, hash: Seq<char>, i: int)
    ensures
        match_for(matches, hash) is None <==> forall|j: int|
            0 <= j < matches.len() ==> !eq_ignore_ascii_case_seq(#[trigger] matches[j].gtex_hash, trim_ws(hash)),
        0 <= i < matches.len() && eq_ignore_ascii_case_seq(matches[i].gtex_hash, trim_ws(hash)) && (forall|j: int|
            0 <= j < i ==> !eq_ignore_ascii_case_seq(#[trigger] matches[j].gtex_hash, trim_ws(hash)))
            ==> match_for(matches, hash) == Some(matches[i]),
{
    let h = trim_ws(hash);
    if 0 <= i < matches.len() && eq_ignore_ascii_case_seq(matches[i].gtex_hash, h) && (forall|j: int|
        0 <= j < i ==> !eq_ignore_ascii_case_seq(#[trigger] matches[j].gtex_hash, h)) {
        assert(exists|k: int| 0 <= k < matches.len() && eq_ignore_ascii_case_seq(matches[k].gtex_hash, h));
        let x = choose|k: int|
            0 <= k < matches.len() && eq_ignore_ascii_case_seq(matches[k].gtex_hash, h) && forall|j: int|
                0 <= j < k ==> !eq_ignore_ascii_case_seq(matches[j].gtex_hash, h);
        assert(exists|k: int|
            0 <= k < matches.len() && eq_ignore_ascii_case_seq(matches[k].gtex_hash, h) && forall|j: int|
                0 <= j < k ==> !eq_ignore_ascii_case_seq(matches[j].gtex_hash, h)) by {
            assert(0 <= i < matches.len() && eq_ignore_ascii_case_seq(matches[i].gtex_hash, h) && forall|j: int|
                0 <= j < i ==> !eq_ignore_ascii_case_seq(matches[j].gtex_hash, h));
        }
        if x < i {
            assert(!eq_ignore_ascii_case_seq(matches[x].gtex_hash, h));
        } else if i < x {
            assert(!eq_ignore_ascii_case_seq(matches[i].gtex_hash, h));
        }
    }
    if exists|k: int| 0 <= k < matches.len() && eq_ignore_ascii_case_seq(matches[k].gtex_hash, h) {
        let w = choose|k: int| 0 <= k < matches.len() && eq_ignore_ascii_case_seq(matches[k].gtex_hash, h);
        lemma_first_hash_match(matches, h, w);
    }
}

/// Where some match carries the hash, a first one does
proof fn lemma_first_hash_match(matches: Seq<GtpMatchView>, h: Seq<char>, w: int)
    requires
        0 <= w < matches.len(),
        eq_ignore_ascii_case_seq(matches[w].gtex_hash, h),
    ensures
        exists|k: int|
            0 <= k < matches.len() && eq_ignore_ascii_case_seq(matches[k].gtex_hash, h) && forall|j: int|
                0 <= j < k ==> !eq_ignore_ascii_case_seq(matches[j].gtex_hash, h),
    decreases w,
{
    if exists|j: int| 0 <= j < w && eq_ignore_ascii_case_seq(matches[j].gtex_hash, h) {
        let j = choose|j: int| 0 <= j < w && eq_ignore_ascii_case_seq(matches[j].gtex_hash, h);
        lemma_first_hash_match(matches, h, j);
    } else {
        assert(0 <= w < matches.len() && eq_ignore_ascii_case_seq(matches[w].gtex_hash, h) && forall|j: int|
            0 <= j < w ==> !eq_ignore_ascii_case_seq(matches[j].gtex_hash, h));
    }
}

/// A virtual texture row shows the resource it was made from: its GUID, name and GTex hash as the
/// resource states them, the page file the hash resolved to (an empty path when it resolved to
/// none), no size until one is settled, and the mod the source map names for its GUID, if any
pub proof fn law_a_virtual_texture_row_shows_its_resource(
    vt: VirtualTextureRefView,
    material_ids: Seq<Seq<char>>,
    matches: Seq<GtpMatchView>,
    materials: Map<Seq<char>, MaterialInfoView>,
    sources: Map<Seq<char>, Seq<char>>,
)
    ensures
        vt_row(vt, material_ids, matches, materials, sources).id == vt.id,
        vt_row(vt, material_ids, matches, materials, sources).name == vt.name,
        vt_row(vt, material_ids, matches, materials, sources).hash == vt.gtex_hash,
        vt_row(vt, material_ids, matches, materials, sources).width is None,
        vt_row(vt, material_ids, matches, materials, sources).height is None,
        match_for(matches, vt.gtex_hash) matches Some(m) ==> vt_row(vt, material_ids, matches, materials, sources).path
            == m.gtp_path,
        match_for(matches, vt.gtex_hash) is None ==> vt_row(vt, material_ids, matches, materials, sources).path
            == Seq::<char>::empty(),
        sources.contains_key(vt.id) ==> vt_row(vt, material_ids, matches, materials, sources).source == Some(
            sources[vt.id],
        ),
        !sources.contains_key(vt.id) ==> vt_row(vt, material_ids, matches, materials, sources).source is None,
{
}

/// The page file resolved for one GTex hash. `GtpMatch::gtex_hash` echoes the hash that was
/// searched for, so this is a plain lookup rather than a hash comparison.
pub fn match_for_hash<'a>(matches: &'a [GtpMatch], hash: &str) -> (r: Option<&'a GtpMatch>)
    ensures
        match r {
            Some(m) => match_index(matches@.map_values(|g: GtpMatch| g.deep_view()), hash@) matches Some(i) && 0 <= i < matches@.len() && m == matches@[i],
            None => match_index(matches@.map_values(|g: GtpMatch| g.deep_view()), hash@) is None,
        },
{
    let ghost ms = matches@.map_values(|g: GtpMatch| g.deep_view());
    let chars = chars_of(hash);
    let wanted = trim(chars.as_slice());
    let mut i: usize = 0;
    while i < matches.len()
        invariant
            ms == matches@.map_values(|g: GtpMatch| g.deep_view()),
            wanted@ == trim_ws(hash@),
            i <= matches@.len(),
            forall|j: int| 0 <= j < i ==> !eq_ignore_ascii_case_seq(#[trigger] ms[j].gtex_hash, trim_ws(hash@)),
        decreases matches@.len() - i,
    {
        let candidate = chars_of(matches[i].gtex_hash.as_str());
        if eq_ignore_ascii_case(candidate.as_slice(), wanted.as_slice()) {
            proof {
                assert(eq_ignore_ascii_case_seq(ms[i as int].gtex_hash, trim_ws(hash@)));
                let w = choose|x: int| 0 <= x < ms.len() && eq_ignore_ascii_case_seq(ms[x].gtex_hash, trim_ws(hash@))
                    && forall|j: int| 0 <= j < x ==> !eq_ignore_ascii_case_seq(ms[j].gtex_hash, trim_ws(hash@));
                if w > i {
                    assert(!eq_ignore_ascii_case_seq(ms[i as int].gtex_hash, trim_ws(hash@)));
                } else if w < i {
                    assert(!eq_ignore_ascii_case_seq(ms[w].gtex_hash, trim_ws(hash@)));
                }
            }
            return Some(&matches[i]);
        }
        i = i + 1;
    }
    None
}

/// One row of the virtual texture list: the resource with its page file, labeled with the mod that
/// provides it and the parameter the asset's materials bind it with
pub open spec fn vt_row(
    vt: VirtualTextureRefView,
    material_ids: Seq<Seq<char>>,
    matches: Seq<GtpMatchView>,
    materials: Map<Seq<char>, MaterialInfoView>,
    sources: Map<Seq<char>, Seq<char>>,
) -> VirtualTextureSummaryView {
    VirtualTextureSummaryView {
        source: source_spec(sources, vt.id),
        parameter_name: vt_parameter_spec(vt.id, material_ids, materials),
        ..vt_base_row(vt, match_for(matches, vt.gtex_hash))
    }
}

/// One row of the virtual texture list
fn virtual_texture_summary(
    vt: &VirtualTextureRef,
    value: &VisualAsset,
    matches: &[GtpMatch],
    materials: &MaterialCache,
    sources: &ModSources,
) -> (r: VirtualTextureSummary)
    requires
        materials.wf(),
        sources.wf(),
    ensures
        r.deep_view() == vt_row(
            vt.deep_view(),
            value.material_ids.deep_view(),
            matches@.map_values(|g: GtpMatch| g.deep_view()),
            materials@,
            sources@,
        ),
{
    let matched = match_for_hash(matches, vt.gtex_hash.as_str());
    proof {
        let ms = matches@.map_values(|g: GtpMatch| g.deep_view());
        if let Some(m) = matched {
            let i = match_index(ms, vt.gtex_hash@)->0;
            assert(ms[i] == m.deep_view());
        }
    }
    let mut summary = VirtualTextureSummary::new(vt, matched);
    summary.source = source_of(sources, vt.id.as_str());
    summary.parameter_name = virtual_texture_parameter(vt.id.as_str(), &value.material_ids, materials);
    summary
}

/// The virtual textures of `value`, in the asset's own order: the virtual texture list of the
/// detail panel, and the rows the export manifest builds its material rows from
pub fn virtual_texture_summaries(
    value: &VisualAsset,
    matches: &[GtpMatch],
    materials: &MaterialCache,
    sources: &ModSources,
) -> (r: Vec<VirtualTextureSummary>)
    requires
        materials.wf(),
        sources.wf(),
    ensures
        r.deep_view() == value.virtual_textures.deep_view().map_values(
            |vt: VirtualTextureRefView|
                vt_row(
                    vt,
                    value.material_ids.deep_view(),
                    matches@.map_values(|g: GtpMatch| g.deep_view()),
                    materials@,
                    sources@,
                ),
        ),
{
    let ghost expected = value.virtual_textures.deep_view().map_values(
        |vt: VirtualTextureRefView|
            vt_row(
                vt,
                value.material_ids.deep_view(),
                matches@.map_values(|g: GtpMatch| g.deep_view()),
                materials@,
                sources@,
            ),
    );
    let mut rows: Vec<VirtualTextureSummary> = Vec::new();
    let mut i: usize = 0;
    while i < value.virtual_textures.len()
        invariant
            i <= value.virtual_textures@.len(),
            materials.wf(),
            sources.wf(),
            expected == value.virtual_textures.deep_view().map_values(
                |vt: VirtualTextureRefView|
                    vt_row(
                        vt,
                        value.material_ids.deep_view(),
                        matches@.map_values(|g: GtpMatch| g.deep_view()),
                        materials@,
                        sources@,
                    ),
            ),
            rows.deep_view() == expected.take(i as int),
        decreases value.virtual_textures@.len() - i,
    {
        let row = virtual_texture_summary(&value.virtual_textures[i], value, matches, materials, sources);
        let ghost prev = rows.deep_view();
        rows.push(row);
        i = i + 1;
        assert(rows.deep_view() =~= prev.push(expected[i - 1]));
        assert(expected.take(i as int) =~= expected.take(i - 1).push(expected[i - 1]));
    }
    assert(expected.take(value.virtual_textures@.len() as int) =~= expected);
    rows
}

} // verus!
