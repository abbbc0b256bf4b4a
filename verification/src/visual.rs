//! Visual assets: the list row and the detail payload of the detail panel.
//!
//! The detail payload is where the three resource lists of an asset meet: the material rows are the
//! only place the relation is stated (see `material::fill_material_bindings`), so this is the one
//! builder that has all three at hand.

use vstd::prelude::*;

use crate::app::opt_view;
use crate::material::{
    fill_material_bindings, known_of, lemma_last_index_of, material_bindings_spec, material_summaries, summary_row,
    texture_binding_spec, texture_bindings_spec, vt_binding_spec, vt_bindings_spec, BindingKind,
    MaterialCache, MaterialInfoView, MaterialSummary, MaterialSummaryView, VirtualTextureBindingView,
};
use crate::model::{GtpMatch, GtpMatchView, TextureRefView, VirtualTextureRefView, VisualAsset, VisualAssetView};
use crate::source::{source_of, source_spec, ModSources};
use crate::texture::{texture_row, texture_summaries, TextureSummary, TextureSummaryView};
use crate::virtual_textures::{
    virtual_texture_summaries, vt_row, VirtualTextureSummary, VirtualTextureSummaryView,
};

verus! {

/// Full visual asset information (detail panel)
#[derive(Debug)]
pub struct VisualAssetDetail {
    /// Visual resource ID (GUID) — the lookup key, since names are not unique
    pub id: String,
    pub name: String,
    /// Mod providing this asset; absent when it comes from the game
    pub source: Option<String>,
    pub path: String,
    pub materials: Vec<MaterialSummary>,
    pub textures: Vec<TextureSummary>,
    pub virtual_textures: Vec<VirtualTextureSummary>,
}

/// The values of a detail payload
pub struct VisualAssetDetailView {
    pub id: Seq<char>,
    pub name: Seq<char>,
    pub source: Option<Seq<char>>,
    pub path: Seq<char>,
    pub materials: Seq<MaterialSummaryView>,
    pub textures: Seq<TextureSummaryView>,
    pub virtual_textures: Seq<VirtualTextureSummaryView>,
}

impl DeepView for VisualAssetDetail {
    type V = VisualAssetDetailView;

    open spec fn deep_view(&self) -> VisualAssetDetailView {
        VisualAssetDetailView {
            id: self.id@,
            name: self.name@,
            source: opt_view(self.source),
            path: self.path@,
            materials: self.materials.deep_view(),
            textures: self.textures.deep_view(),
            virtual_textures: self.virtual_textures.deep_view(),
        }
    }
}

/// The texture rows of an asset
pub open spec fn texture_rows(value: VisualAssetView, sources: Map<Seq<char>, Seq<char>>) -> Seq<TextureSummaryView> {
    value.textures.map_values(|t: TextureRefView| texture_row(t, sources))
}

/// The virtual texture rows of an asset
pub open spec fn vt_rows(
    value: VisualAssetView,
    matches: Seq<GtpMatchView>,
    materials: Map<Seq<char>, MaterialInfoView>,
    sources: Map<Seq<char>, Seq<char>>,
) -> Seq<VirtualTextureSummaryView> {
    value.virtual_textures.map_values(
        |vt: VirtualTextureRefView| vt_row(vt, value.material_ids, matches, materials, sources),
    )
}

/// The material row of `id` in the detail of an asset whose resource rows are `textures` and
/// `virtual_textures`: its identity, and what it binds of them
pub open spec fn material_row(
    id: Seq<char>,
    materials: Map<Seq<char>, MaterialInfoView>,
    sources: Map<Seq<char>, Seq<char>>,
    textures: Seq<TextureSummaryView>,
    virtual_textures: Seq<VirtualTextureSummaryView>,
) -> MaterialSummaryView {
    MaterialSummaryView {
        bindings: material_bindings_spec(known_of(materials, id), textures, virtual_textures),
        ..summary_row(id, known_of(materials, id), sources)
    }
}

/// The detail payload of an asset
pub open spec fn detail_spec(
    value: VisualAssetView,
    matches: Seq<GtpMatchView>,
    materials: Map<Seq<char>, MaterialInfoView>,
    sources: Map<Seq<char>, Seq<char>>,
) -> VisualAssetDetailView {
    let textures = texture_rows(value, sources);
    let virtual_textures = vt_rows(value, matches, materials, sources);
    VisualAssetDetailView {
        id: value.id,
        name: value.name,
        source: source_spec(sources, value.id),
        path: value.gr2_path,
        materials: value.material_ids.map_values(
            |id: Seq<char>| material_row(id, materials, sources, textures, virtual_textures),
        ),
        textures: textures,
        virtual_textures: virtual_textures,
    }
}

impl VisualAssetDetail {
    /// `matches` are the page files resolved for this asset's virtual textures; pass an empty
    /// slice to skip the lookup (the rows then show the hash without a page file). `materials`
    /// labels the material rows and lists, per material, the resources of this asset it binds.
    /// `sources` labels every row with the mod that provides it.
    pub fn new(value: &VisualAsset, matches: &[GtpMatch], materials: &MaterialCache, sources: &ModSources) -> (r: Self)
        requires
            materials.wf(),
            sources.wf(),
        ensures
            r.deep_view() == detail_spec(
                value.deep_view(),
                matches@.map_values(|g: GtpMatch| g.deep_view()),
                materials@,
                sources@,
            ),
    {
        let ghost ms = matches@.map_values(|g: GtpMatch| g.deep_view());
        // Built in this order because the material rows end up listing their own resources: the
        // bindings are read off the two resource lists, so those have to exist first
        let mut material_rows = material_summaries(&value.material_ids, materials, sources);
        let textures = texture_summaries(value, sources);
        let virtual_textures = virtual_texture_summaries(value, matches, materials, sources);
        let ghost start = material_rows.deep_view();
        fill_material_bindings(&mut material_rows, textures.as_slice(), virtual_textures.as_slice(), materials);
        let r = VisualAssetDetail {
            id: value.id.clone(),
            name: value.name.clone(),
            source: source_of(sources, value.id.as_str()),
            path: value.gr2_path.clone(),
            materials: material_rows,
            textures,
            virtual_textures,
        };
        proof {
            let dv = value.deep_view();
            let trows = texture_rows(dv, sources@);
            let vrows = vt_rows(dv, ms, materials@, sources@);
            assert(r.textures@.map_values(|t: TextureSummary| t.deep_view()) =~= trows);
            assert(r.virtual_textures@.map_values(|t: VirtualTextureSummary| t.deep_view()) =~= vrows);
            assert(start.len() == dv.material_ids.len());
            assert(r.materials@.len() == start.len());
            assert forall|i: int| 0 <= i < dv.material_ids.len() implies #[trigger] r.materials.deep_view()[i]
                == material_row(dv.material_ids[i], materials@, sources@, trows, vrows) by {
                assert(start[i] == summary_row(dv.material_ids[i], known_of(materials@, dv.material_ids[i]), sources@));
                assert(start[i].id == dv.material_ids[i]);
                assert(r.materials.deep_view()[i] == (MaterialSummaryView {
                    bindings: material_bindings_spec(known_of(materials@, start[i].id), trows, vrows),
                    ..start[i]
                }));
            }
            assert(r.materials.deep_view() =~= dv.material_ids.map_values(
                |id: Seq<char>| material_row(id, materials@, sources@, trows, vrows),
            ));
        }
        r
    }
}

/// Visual asset list item: highlights the composition of the visual itself
#[derive(Debug)]
pub struct VisualSummary {
    /// Visual resource ID (GUID): the row identity — one name can belong to several visuals
    pub id: String,
    pub name: String,
    /// Mod providing this asset; absent when it comes from the game
    pub source: Option<String>,
    pub material_count: usize,
    pub texture_count: usize,
    pub virtual_texture_count: usize,
}

/// The values of a list row
pub struct VisualSummaryView {
    pub id: Seq<char>,
    pub name: Seq<char>,
    pub source: Option<Seq<char>>,
    pub material_count: usize,
    pub texture_count: usize,
    pub virtual_texture_count: usize,
}

impl DeepView for VisualSummary {
    type V = VisualSummaryView;

    open spec fn deep_view(&self) -> VisualSummaryView {
        VisualSummaryView {
            id: self.id@,
            name: self.name@,
            source: opt_view(self.source),
            material_count: self.material_count,
            texture_count: self.texture_count,
            virtual_texture_count: self.virtual_texture_count,
        }
    }
}

/// The list row of an asset
pub open spec fn summary_spec(value: VisualAssetView, sources: Map<Seq<char>, Seq<char>>) -> VisualSummaryView {
    VisualSummaryView {
        id: value.id,
        name: value.name,
        source: source_spec(sources, value.id),
        material_count: value.material_ids.len() as usize,
        texture_count: value.textures.len() as usize,
        virtual_texture_count: value.virtual_textures.len() as usize,
    }
}

/// A list row shows the asset it was made from: its GUID and name, how many materials, textures and
/// virtual textures it binds, and the mod the source map names for its GUID, if any
pub proof fn law_a_list_row_counts_its_asset(value: VisualAssetView, sources: Map<Seq<char>, Seq<char>>)
    requires
        value.material_ids.len() <= usize::MAX,
        value.textures.len() <= usize::MAX,
        value.virtual_textures.len() <= usize::MAX,
    ensures
        summary_spec(value, sources).id == value.id,
        summary_spec(value, sources).name == value.name,
        summary_spec(value, sources).material_count == value.material_ids.len(),
        summary_spec(value, sources).texture_count == value.textures.len(),
        summary_spec(value, sources).virtual_texture_count == value.virtual_textures.len(),
        sources.contains_key(value.id) ==> summary_spec(value, sources).source == Some(sources[value.id]),
        !sources.contains_key(value.id) ==> summary_spec(value, sources).source is None,
{
}

impl VisualSummary {
    /// The list row of `value`, labeled with the mod that provides it
    pub fn of(value: &VisualAsset, sources: &ModSources) -> (r: Self)
        requires
            sources.wf(),
        ensures
            r.deep_view() == summary_spec(value.deep_view(), sources@),
    {
        VisualSummary {
            id: value.id.clone(),
            name: value.name.clone(),
            source: source_of(sources, value.id.as_str()),
            material_count: value.material_ids.len(),
            texture_count: value.textures.len(),
            virtual_texture_count: value.virtual_textures.len(),
        }
    }
}

/// Each texture binding row stands for one of `rows`
proof fn lemma_texture_bindings_from_rows(ids: Seq<Seq<char>>, rows: Seq<TextureSummaryView>)
    ensures
        forall|k: int|
            0 <= k < texture_bindings_spec(ids, rows).len() ==> exists|i: int|
                0 <= i < rows.len() && #[trigger] texture_bindings_spec(ids, rows)[k] == texture_binding_spec(rows[i]),
    decreases ids.len(),
{
    if ids.len() > 0 {
        let prev = ids.drop_last();
        lemma_texture_bindings_from_rows(prev, rows);
        let row_ids = rows.map_values(|t: TextureSummaryView| t.id);
        lemma_last_index_of(row_ids, ids.last());
        let all = texture_bindings_spec(ids, rows);
        let before = texture_bindings_spec(prev, rows);
        assert forall|k: int| 0 <= k < all.len() implies exists|i: int|
            0 <= i < rows.len() && #[trigger] all[k] == texture_binding_spec(rows[i]) by {
            if k < before.len() {
                assert(all[k] == before[k]);
            } else {
                let i = last_index_of_row(row_ids, ids.last());
                assert(all[k] == texture_binding_spec(rows[i]));
            }
        }
    }
}

/// Each virtual texture binding row stands for one of `rows`
proof fn lemma_vt_bindings_from_rows(bs: Seq<VirtualTextureBindingView>, rows: Seq<VirtualTextureSummaryView>)
    ensures
        forall|k: int|
            0 <= k < vt_bindings_spec(bs, rows).len() ==> exists|i: int, j: int|
                0 <= i < rows.len() && 0 <= j < bs.len() && #[trigger] vt_bindings_spec(bs, rows)[k] == vt_binding_spec(
                    bs[j],
                    rows[i],
                ),
    decreases bs.len(),
{
    if bs.len() > 0 {
        let prev = bs.drop_last();
        lemma_vt_bindings_from_rows(prev, rows);
        let row_ids = rows.map_values(|v: VirtualTextureSummaryView| v.id);
        lemma_last_index_of(row_ids, bs.last().id);
        let all = vt_bindings_spec(bs, rows);
        let before = vt_bindings_spec(prev, rows);
        assert forall|k: int| 0 <= k < all.len() implies exists|i: int, j: int|
            0 <= i < rows.len() && 0 <= j < bs.len() && #[trigger] all[k] == vt_binding_spec(bs[j], rows[i]) by {
            if k < before.len() {
                let (i, j) = choose|i: int, j: int|
                    0 <= i < rows.len() && 0 <= j < prev.len() && before[k] == vt_binding_spec(prev[j], rows[i]);
                assert(all[k] == before[k]);
                assert(prev[j] == bs[j]);
            } else {
                let i = last_index_of_row(row_ids, bs.last().id);
                assert(all[k] == vt_binding_spec(bs[bs.len() - 1], rows[i]));
            }
        }
    }
}

/// The position `last_index_of` finds, when it finds one
spec fn last_index_of_row(ids: Seq<Seq<char>>, id: Seq<char>) -> int {
    crate::material::last_index_of(ids, id)->0
}

/// Every binding a material row of the detail lists points at a row of that same detail: a texture
/// binding at one of its texture rows, a virtual texture binding at one of its virtual texture rows,
/// carrying that row's GUID and name. The relation between materials and resources is stated on
/// the material rows, joined by GUID, and never names a resource the asset does not list.
pub proof fn law_every_binding_points_at_a_row(
    value: VisualAssetView,
    matches: Seq<GtpMatchView>,
    materials: Map<Seq<char>, MaterialInfoView>,
    sources: Map<Seq<char>, Seq<char>>,
    m: int,
    b: int,
)
    requires
        0 <= m < detail_spec(value, matches, materials, sources).materials.len(),
        0 <= b < detail_spec(value, matches, materials, sources).materials[m].bindings.len(),
    ensures
        ({
            let d = detail_spec(value, matches, materials, sources);
            let binding = d.materials[m].bindings[b];
            &&& binding.kind == BindingKind::Texture ==> exists|t: int|
                0 <= t < d.textures.len() && (#[trigger] d.textures[t]).id == binding.id && d.textures[t].name
                    == binding.name
            &&& binding.kind == BindingKind::Virtual ==> exists|t: int|
                0 <= t < d.virtual_textures.len() && (#[trigger] d.virtual_textures[t]).id == binding.id
                    && d.virtual_textures[t].name == binding.name
        }),
{
    let d = detail_spec(value, matches, materials, sources);
    let textures = texture_rows(value, sources);
    let virtual_textures = vt_rows(value, matches, materials, sources);
    let id = value.material_ids[m];
    assert(d.materials[m] == material_row(id, materials, sources, textures, virtual_textures));
    let binding = d.materials[m].bindings[b];
    match known_of(materials, id) {
        Some(info) => {
            let tb = texture_bindings_spec(info.texture_ids, textures);
            let vb = vt_bindings_spec(info.virtual_textures, virtual_textures);
            assert(d.materials[m].bindings == tb + vb);
            if b < tb.len() {
                lemma_texture_bindings_from_rows(info.texture_ids, textures);
                assert(binding == tb[b]);
                let i = choose|i: int| 0 <= i < textures.len() && tb[b] == texture_binding_spec(textures[i]);
                assert(d.textures[i] == textures[i]);
            } else {
                lemma_vt_bindings_from_rows(info.virtual_textures, virtual_textures);
                assert(binding == vb[b - tb.len()]);
                let (i, j) = choose|i: int, j: int|
                    0 <= i < virtual_textures.len() && 0 <= j < info.virtual_textures.len() && vb[b - tb.len()]
                        == vt_binding_spec(info.virtual_textures[j], virtual_textures[i]);
                assert(d.virtual_textures[i] == virtual_textures[i]);
            }
        },
        None => {},
    }
}

} // verus!
