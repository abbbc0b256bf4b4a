//! The material rows of the export manifest: the identity of a `MaterialSummary` plus the resources
//! each material binds, stated in full for a reader that only has the manifest.

use vstd::prelude::*;

use super::summary::{known_of, summary_row, MaterialSummary};
use super::{index_view, last_index_of, lemma_last_index_of, row_ids, rows_by_id, MaterialCache, MaterialInfo, MaterialInfoView, VirtualTextureBindingView};
use crate::app::opt_view;
use crate::model::VisualAsset;
use crate::source::ModSources;
use crate::strmap::StrMap;
use crate::texture::{TextureSummary, TextureSummaryView};
use crate::virtual_textures::{VirtualTextureSummary, VirtualTextureSummaryView};

verus! {

/// One material as `asset.json` lists it: the identity of a `MaterialSummary` plus the resources the
/// material binds, each stated in full (name, path, size, parameter) rather than a GUID to look up
#[derive(Debug)]
pub struct ExportMaterial {
    pub id: String,
    pub name: String,
    /// Mod providing this material; absent when it comes from the game
    pub source: Option<String>,
    pub source_file: String,
    /// The textures this material binds, in parameter order
    pub textures: Vec<TextureSummary>,
    /// The virtual textures this material binds, in binding order
    pub virtual_textures: Vec<VirtualTextureSummary>,
}

/// The values of a manifest material row
pub struct ExportMaterialView {
    pub id: Seq<char>,
    pub name: Seq<char>,
    pub source: Option<Seq<char>>,
    pub source_file: Seq<char>,
    pub textures: Seq<TextureSummaryView>,
    pub virtual_textures: Seq<VirtualTextureSummaryView>,
}

impl DeepView for ExportMaterial {
    type V = ExportMaterialView;

    open spec fn deep_view(&self) -> ExportMaterialView {
        ExportMaterialView {
            id: self.id@,
            name: self.name@,
            source: opt_view(self.source),
            source_file: self.source_file@,
            textures: self.textures.deep_view(),
            virtual_textures: self.virtual_textures.deep_view(),
        }
    }
}

/// The rows named by `ids`, in that order, each found by its GUID in `row_guids` (the GUIDs of
/// `rows`); an id no row carries contributes nothing
pub open spec fn picked<T>(ids: Seq<Seq<char>>, rows: Seq<T>, row_guids: Seq<Seq<char>>) -> Seq<T>
    decreases ids.len(),
{
    if ids.len() == 0 {
        Seq::empty()
    } else {
        picked(ids.drop_last(), rows, row_guids) + match last_index_of(row_guids, ids.last()) {
            Some(i) => seq![rows[i]],
            None => Seq::empty(),
        }
    }
}

/// The manifest row of material `id`: its identity as a detail row states it, and the asset's rows
/// of the resources it binds
pub open spec fn export_material_spec(
    id: Seq<char>,
    known: Option<MaterialInfoView>,
    textures: Seq<TextureSummaryView>,
    virtual_textures: Seq<VirtualTextureSummaryView>,
    sources: Map<Seq<char>, Seq<char>>,
) -> ExportMaterialView {
    let row = summary_row(id, known, sources);
    ExportMaterialView {
        id: row.id,
        name: row.name,
        source: row.source,
        source_file: row.source_file,
        textures: match known {
            Some(m) => picked(m.texture_ids, textures, textures.map_values(|t: TextureSummaryView| t.id)),
            None => Seq::empty(),
        },
        virtual_textures: match known {
            Some(m) => picked(
                m.virtual_textures.map_values(|b: VirtualTextureBindingView| b.id),
                virtual_textures,
                virtual_textures.map_values(|v: VirtualTextureSummaryView| v.id),
            ),
            None => Seq::empty(),
        },
    }
}

/// The texture rows named by `ids`, copied
fn picked_textures(ids: &Vec<String>, textures: &[TextureSummary], index: &StrMap<usize>) -> (r: Vec<TextureSummary>)
    requires
        index.wf(),
        index@ == index_view(row_ids(textures@)),
    ensures
        r.deep_view() == picked(
            ids.deep_view(),
            textures@.map_values(|t: TextureSummary| t.deep_view()),
            textures@.map_values(|t: TextureSummary| t.deep_view()).map_values(|t: TextureSummaryView| t.id),
        ),
{
    let ghost want = ids.deep_view();
    let ghost rows = textures@.map_values(|t: TextureSummary| t.deep_view());
    let ghost guids = rows.map_values(|t: TextureSummaryView| t.id);
    assert(row_ids(textures@) =~= guids);
    let mut r: Vec<TextureSummary> = Vec::new();
    let mut i: usize = 0;
    while i < ids.len()
        invariant
            i <= want.len(),
            want == ids.deep_view(),
            rows == textures@.map_values(|t: TextureSummary| t.deep_view()),
            guids == rows.map_values(|t: TextureSummaryView| t.id),
            row_ids(textures@) == guids,
            index.wf(),
            index@ == index_view(row_ids(textures@)),
            r.deep_view() == picked(want.take(i as int), rows, guids),
        decreases want.len() - i,
    {
        let id = ids[i].as_str();
        let ghost prev = r.deep_view();
        proof {
            assert(want.take(i + 1).drop_last() =~= want.take(i as int));
            assert(want.take(i + 1).last() == id@);
            lemma_last_index_of(guids, id@);
        }
        match index.get(id) {
            Some(at) => {
                let row = textures[*at].duplicate();
                r.push(row);
                assert(r.deep_view() =~= prev + seq![rows[*at as int]]);
            },
            None => {
                assert(prev + Seq::<TextureSummaryView>::empty() =~= prev);
            },
        }
        i = i + 1;
    }
    assert(want.take(want.len() as int) =~= want);
    r
}

/// The virtual texture rows the bindings of `material` name, copied
fn picked_virtual_textures(
    material: &MaterialInfo,
    virtual_textures: &[VirtualTextureSummary],
    index: &StrMap<usize>,
) -> (r: Vec<VirtualTextureSummary>)
    requires
        index.wf(),
        index@ == index_view(row_ids(virtual_textures@)),
    ensures
        r.deep_view() == picked(
            material.virtual_textures.deep_view().map_values(|b: VirtualTextureBindingView| b.id),
            virtual_textures@.map_values(|t: VirtualTextureSummary| t.deep_view()),
            virtual_textures@.map_values(|t: VirtualTextureSummary| t.deep_view()).map_values(
                |t: VirtualTextureSummaryView| t.id,
            ),
        ),
{
    let ghost want = material.virtual_textures.deep_view().map_values(|b: VirtualTextureBindingView| b.id);
    let ghost rows = virtual_textures@.map_values(|t: VirtualTextureSummary| t.deep_view());
    let ghost guids = rows.map_values(|t: VirtualTextureSummaryView| t.id);
    assert(row_ids(virtual_textures@) =~= guids);
    let mut r: Vec<VirtualTextureSummary> = Vec::new();
    let mut i: usize = 0;
    while i < material.virtual_textures.len()
        invariant
            i <= want.len(),
            want == material.virtual_textures.deep_view().map_values(|b: VirtualTextureBindingView| b.id),
            rows == virtual_textures@.map_values(|t: VirtualTextureSummary| t.deep_view()),
            guids == rows.map_values(|t: VirtualTextureSummaryView| t.id),
            row_ids(virtual_textures@) == guids,
            index.wf(),
            index@ == index_view(row_ids(virtual_textures@)),
            r.deep_view() == picked(want.take(i as int), rows, guids),
        decreases want.len() - i,
    {
        let id = material.virtual_textures[i].id.as_str();
        let ghost prev = r.deep_view();
        proof {
            assert(want.take(i + 1).drop_last() =~= want.take(i as int));
            assert(want.take(i + 1).last() == id@);
            lemma_last_index_of(guids, id@);
        }
        match index.get(id) {
            Some(at) => {
                let row = virtual_textures[*at].duplicate();
                r.push(row);
                assert(r.deep_view() =~= prev + seq![rows[*at as int]]);
            },
            None => {
                assert(prev + Seq::<VirtualTextureSummaryView>::empty() =~= prev);
            },
        }
        i = i + 1;
    }
    assert(want.take(want.len() as int) =~= want);
    r
}

impl ExportMaterial {
    /// `known` is the cache entry for this GUID. The identity is taken from `MaterialSummary`, so an
    /// unknown material keeps an empty name here exactly as it does on a detail row; the resources
    /// are looked up in the asset's own rows by GUID.
    pub fn new(
        id: &str,
        known: Option<&MaterialInfo>,
        textures: &[TextureSummary],
        texture_index: &StrMap<usize>,
        virtual_textures: &[VirtualTextureSummary],
        vt_index: &StrMap<usize>,
        sources: &ModSources,
    ) -> (r: Self)
        requires
            sources.wf(),
            texture_index.wf(),
            texture_index@ == index_view(row_ids(textures@)),
            vt_index.wf(),
            vt_index@ == index_view(row_ids(virtual_textures@)),
        ensures
            r.deep_view() == export_material_spec(
                id@,
                match known {
                    Some(m) => Some(m.deep_view()),
                    None => None,
                },
                textures@.map_values(|t: TextureSummary| t.deep_view()),
                virtual_textures@.map_values(|t: VirtualTextureSummary| t.deep_view()),
                sources@,
            ),
    {
        let MaterialSummary { id, name, source, source_file, bindings: _ } = MaterialSummary::new(id, known, sources);
        let (texture_rows, vt_rows) = match known {
            Some(material) => (
                picked_textures(&material.texture_ids, textures, texture_index),
                picked_virtual_textures(material, virtual_textures, vt_index),
            ),
            None => {
                let t: Vec<TextureSummary> = Vec::new();
                let v: Vec<VirtualTextureSummary> = Vec::new();
                assert(t.deep_view() =~= Seq::<TextureSummaryView>::empty());
                assert(v.deep_view() =~= Seq::<VirtualTextureSummaryView>::empty());
                (t, v)
            },
        };
        ExportMaterial { id, name, source, source_file, textures: texture_rows, virtual_textures: vt_rows }
    }
}

/// The materials of `value` in the asset's own order, as the export manifest lists them: each one
/// carrying the asset's texture and virtual texture rows for the resources it binds
pub fn manifest_materials(
    value: &VisualAsset,
    materials: &MaterialCache,
    textures: &[TextureSummary],
    virtual_textures: &[VirtualTextureSummary],
    sources: &ModSources,
) -> (r: Vec<ExportMaterial>)
    requires
        materials.wf(),
        sources.wf(),
    ensures
        r.deep_view() == value.material_ids.deep_view().map_values(
            |id: Seq<char>|
                export_material_spec(
                    id,
                    known_of(materials@, id),
                    textures@.map_values(|t: TextureSummary| t.deep_view()),
                    virtual_textures@.map_values(|t: VirtualTextureSummary| t.deep_view()),
                    sources@,
                ),
        ),
{
    let texture_index = rows_by_id(textures);
    let vt_index = rows_by_id(virtual_textures);
    let ghost expected = value.material_ids.deep_view().map_values(
        |id: Seq<char>|
            export_material_spec(
                id,
                known_of(materials@, id),
                textures@.map_values(|t: TextureSummary| t.deep_view()),
                virtual_textures@.map_values(|t: VirtualTextureSummary| t.deep_view()),
                sources@,
            ),
    );
    let mut rows: Vec<ExportMaterial> = Vec::new();
    let mut i: usize = 0;
    while i < value.material_ids.len()
        invariant
            i <= value.material_ids@.len(),
            materials.wf(),
            sources.wf(),
            texture_index.wf(),
            texture_index@ == index_view(row_ids(textures@)),
            vt_index.wf(),
            vt_index@ == index_view(row_ids(virtual_textures@)),
            expected == value.material_ids.deep_view().map_values(
                |id: Seq<char>|
                    export_material_spec(
                        id,
                        known_of(materials@, id),
                        textures@.map_values(|t: TextureSummary| t.deep_view()),
                        virtual_textures@.map_values(|t: VirtualTextureSummary| t.deep_view()),
                        sources@,
                    ),
            ),
            rows.deep_view() == expected.take(i as int),
        decreases value.material_ids@.len() - i,
    {
        let id = value.material_ids[i].as_str();
        let row = ExportMaterial::new(
            id,
            materials.get(id),
            textures,
            &texture_index,
            virtual_textures,
            &vt_index,
            sources,
        );
        let ghost prev = rows.deep_view();
        rows.push(row);
        i = i + 1;
        assert(rows.deep_view() =~= prev.push(expected[i - 1]));
        assert(expected.take(i as int) =~= expected.take(i - 1).push(expected[i - 1]));
    }
    assert(expected.take(value.material_ids@.len() as int) =~= expected);
    rows
}

} // verus!
