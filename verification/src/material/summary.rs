//! The material rows of the detail panel: what a material references, and the resources it binds.

use vstd::prelude::*;

use super::{
    index_view, last_index_of, lemma_last_index_of, row_ids, rows_by_id, MaterialCache, MaterialInfo,
    MaterialInfoView, VirtualTextureBinding, VirtualTextureBindingView,
};
use crate::app::opt_view;
use crate::source::{source_of, source_spec, ModSources};
use crate::strmap::StrMap;
use crate::text::is_empty_str;
use crate::texture::{TextureSummary, TextureSummaryView};
use crate::virtual_textures::{VirtualTextureSummary, VirtualTextureSummaryView};

verus! {

/// Which list of the asset a material binding points into
#[derive(Debug, Clone, Copy, PartialEq, Eq, Structural)]
pub enum BindingKind {
    /// A regular texture (`TextureSummary` row)
    Texture,
    /// A streaming virtual texture (`VirtualTextureSummary` row)
    Virtual,
}

/// One resource a material binds, as the detail panel lists it under that material.
///
/// The relation is stated per material and keyed by GUID: a material name is not unique, so
/// inverting a texture list by name would mix up same-named materials and drop an unnamed one's
/// bindings.
#[derive(Debug)]
pub struct MaterialBinding {
    pub kind: BindingKind,
    /// GUID of the resource, the same value its row in the asset's lists carries
    pub id: String,
    /// Name of that row; empty when the resource has none
    pub name: String,
    /// Parameter the binding fills (e.g. `virtualtexture`), taken from this material's own binding
    pub parameter_name: Option<String>,
}

/// The values of a binding row
pub struct MaterialBindingView {
    pub kind: BindingKind,
    pub id: Seq<char>,
    pub name: Seq<char>,
    pub parameter_name: Option<Seq<char>>,
}

impl DeepView for MaterialBinding {
    type V = MaterialBindingView;

    open spec fn deep_view(&self) -> MaterialBindingView {
        MaterialBindingView {
            kind: self.kind,
            id: self.id@,
            name: self.name@,
            parameter_name: opt_view(self.parameter_name),
        }
    }
}

/// Material reference. The GUID stays the identity (names are not unique), the name is what makes
/// a material row readable, and the template file is where the material is defined.
#[derive(Debug)]
pub struct MaterialSummary {
    pub id: String,
    /// Human-readable name from `MaterialBank`; empty when the material is unknown
    pub name: String,
    /// Mod providing this material; absent for the game's own
    pub source: Option<String>,
    /// Base material template (`.lsf`) the material is derived from
    pub source_file: String,
    /// The resources this material binds, in binding order
    pub bindings: Vec<MaterialBinding>,
}

/// The values of a material row
pub struct MaterialSummaryView {
    pub id: Seq<char>,
    pub name: Seq<char>,
    pub source: Option<Seq<char>>,
    pub source_file: Seq<char>,
    pub bindings: Seq<MaterialBindingView>,
}

impl DeepView for MaterialSummary {
    type V = MaterialSummaryView;

    open spec fn deep_view(&self) -> MaterialSummaryView {
        MaterialSummaryView {
            id: self.id@,
            name: self.name@,
            source: opt_view(self.source),
            source_file: self.source_file@,
            bindings: self.bindings.deep_view(),
        }
    }
}

/// The cache entry of `id`, if the cache knows it
pub open spec fn known_of(materials: Map<Seq<char>, MaterialInfoView>, id: Seq<char>) -> Option<MaterialInfoView> {
    if materials.contains_key(id) {
        Some(materials[id])
    } else {
        None
    }
}

/// The row of material `id` before its bindings are filled: an unknown material keeps an empty
/// name and template rather than dropping out
pub open spec fn summary_row(
    id: Seq<char>,
    known: Option<MaterialInfoView>,
    sources: Map<Seq<char>, Seq<char>>,
) -> MaterialSummaryView {
    MaterialSummaryView {
        id: id,
        name: match known {
            Some(m) => m.name,
            None => Seq::empty(),
        },
        source: source_spec(sources, id),
        source_file: match known {
            Some(m) => m.source_file,
            None => Seq::empty(),
        },
        bindings: Seq::empty(),
    }
}

/// A material row shows the material it names: its GUID, the name and template the cache holds for
/// it (empty for a material the cache does not know), the mod the source map names for its GUID,
/// and no bindings until they are filled
pub proof fn law_a_material_row_shows_its_material(
    id: Seq<char>,
    materials: Map<Seq<char>, MaterialInfoView>,
    sources: Map<Seq<char>, Seq<char>>,
)
    ensures
        summary_row(id, known_of(materials, id), sources).id == id,
        materials.contains_key(id) ==> summary_row(id, known_of(materials, id), sources).name == materials[id].name
            && summary_row(id, known_of(materials, id), sources).source_file == materials[id].source_file,
        !materials.contains_key(id) ==> summary_row(id, known_of(materials, id), sources).name == Seq::<char>::empty()
            && summary_row(id, known_of(materials, id), sources).source_file == Seq::<char>::empty(),
        sources.contains_key(id) ==> summary_row(id, known_of(materials, id), sources).source == Some(sources[id]),
        !sources.contains_key(id) ==> summary_row(id, known_of(materials, id), sources).source is None,
        summary_row(id, known_of(materials, id), sources).bindings.len() == 0,
{
}

impl MaterialSummary {
    /// `known` is the cache entry for this GUID. Bindings are filled later, once the resource rows
    /// exist.
    pub fn new(id: &str, known: Option<&MaterialInfo>, sources: &ModSources) -> (r: Self)
        requires
            sources.wf(),
        ensures
            r.deep_view() == summary_row(
                id@,
                match known {
                    Some(m) => Some(m.deep_view()),
                    None => None,
                },
                sources@,
            ),
    {
        let r = MaterialSummary {
            id: crate::text::owned(id),
            name: match known {
                Some(m) => m.name.clone(),
                None => String::new(),
            },
            source: source_of(sources, id),
            source_file: match known {
                Some(m) => m.source_file.clone(),
                None => String::new(),
            },
            bindings: Vec::new(),
        };
        assert(r.bindings.deep_view() =~= Seq::<MaterialBindingView>::empty());
        r
    }
}

/// Summaries of `material_ids` in the order the asset lists them: the material rows of the detail
/// panel. A material the cache does not know keeps an empty name instead of dropping out.
pub fn material_summaries(material_ids: &Vec<String>, materials: &MaterialCache, sources: &ModSources) -> (r: Vec<
    MaterialSummary,
>)
    requires
        materials.wf(),
        sources.wf(),
    ensures
        r.deep_view() == material_ids.deep_view().map_values(
            |id: Seq<char>| summary_row(id, known_of(materials@, id), sources@),
        ),
{
    let ghost expected = material_ids.deep_view().map_values(
        |id: Seq<char>| summary_row(id, known_of(materials@, id), sources@),
    );
    let mut rows: Vec<MaterialSummary> = Vec::new();
    let mut i: usize = 0;
    while i < material_ids.len()
        invariant
            i <= material_ids@.len(),
            materials.wf(),
            sources.wf(),
            expected == material_ids.deep_view().map_values(
                |id: Seq<char>| summary_row(id, known_of(materials@, id), sources@),
            ),
            rows.deep_view() == expected.take(i as int),
        decreases material_ids@.len() - i,
    {
        let id = material_ids[i].as_str();
        let row = MaterialSummary::new(id, materials.get(id), sources);
        let ghost prev = rows.deep_view();
        rows.push(row);
        i = i + 1;
        assert(rows.deep_view() =~= prev.push(expected[i - 1]));
        assert(expected.take(i as int) =~= expected.take(i - 1).push(expected[i - 1]));
    }
    assert(expected.take(material_ids@.len() as int) =~= expected);
    rows
}

/// The binding row of one texture the material references
pub open spec fn texture_binding_spec(t: TextureSummaryView) -> MaterialBindingView {
    MaterialBindingView { kind: BindingKind::Texture, id: t.id, name: t.name, parameter_name: t.parameter_name }
}

/// The binding rows of the textures with GUIDs `ids`, in that order; a GUID no row carries
/// contributes nothing
pub open spec fn texture_bindings_spec(ids: Seq<Seq<char>>, rows: Seq<TextureSummaryView>) -> Seq<MaterialBindingView>
    decreases ids.len(),
{
    if ids.len() == 0 {
        Seq::empty()
    } else {
        texture_bindings_spec(ids.drop_last(), rows) + match last_index_of(
            rows.map_values(|t: TextureSummaryView| t.id),
            ids.last(),
        ) {
            Some(i) => seq![texture_binding_spec(rows[i])],
            None => Seq::empty(),
        }
    }
}

/// The binding row of a virtual texture: the parameter name comes from the material's own binding,
/// and an empty one is left out
pub open spec fn vt_binding_spec(b: VirtualTextureBindingView, row: VirtualTextureSummaryView) -> MaterialBindingView {
    MaterialBindingView {
        kind: BindingKind::Virtual,
        id: row.id,
        name: row.name,
        parameter_name: if b.parameter_name.len() > 0 {
            Some(b.parameter_name)
        } else {
            None
        },
    }
}

/// The binding rows of the virtual texture bindings `bs`, in binding order; a binding no row
/// carries contributes nothing
pub open spec fn vt_bindings_spec(
    bs: Seq<VirtualTextureBindingView>,
    rows: Seq<VirtualTextureSummaryView>,
) -> Seq<MaterialBindingView>
    decreases bs.len(),
{
    if bs.len() == 0 {
        Seq::empty()
    } else {
        vt_bindings_spec(bs.drop_last(), rows) + match last_index_of(
            rows.map_values(|v: VirtualTextureSummaryView| v.id),
            bs.last().id,
        ) {
            Some(i) => seq![vt_binding_spec(bs.last(), rows[i])],
            None => Seq::empty(),
        }
    }
}

/// What one material binds: its textures first, then its virtual textures; a material the cache
/// does not know binds nothing
pub open spec fn material_bindings_spec(
    known: Option<MaterialInfoView>,
    textures: Seq<TextureSummaryView>,
    virtual_textures: Seq<VirtualTextureSummaryView>,
) -> Seq<MaterialBindingView> {
    match known {
        Some(m) => texture_bindings_spec(m.texture_ids, textures) + vt_bindings_spec(
            m.virtual_textures,
            virtual_textures,
        ),
        None => Seq::empty(),
    }
}

/// The GUIDs of the texture rows
proof fn lemma_texture_ids(rows: Seq<TextureSummary>)
    ensures
        row_ids(rows) == rows.map_values(|t: TextureSummary| t.deep_view()).map_values(|t: TextureSummaryView| t.id),
{
    assert(row_ids(rows) =~= rows.map_values(|t: TextureSummary| t.deep_view()).map_values(
        |t: TextureSummaryView| t.id,
    ));
}

/// The GUIDs of the virtual texture rows
proof fn lemma_vt_ids(rows: Seq<VirtualTextureSummary>)
    ensures
        row_ids(rows) == rows.map_values(|t: VirtualTextureSummary| t.deep_view()).map_values(
            |t: VirtualTextureSummaryView| t.id,
        ),
{
    assert(row_ids(rows) =~= rows.map_values(|t: VirtualTextureSummary| t.deep_view()).map_values(
        |t: VirtualTextureSummaryView| t.id,
    ));
}

/// The binding row of one texture the material references
pub fn texture_binding(texture: &TextureSummary) -> (r: MaterialBinding)
    ensures
        r.deep_view() == texture_binding_spec(texture.deep_view()),
{
    MaterialBinding {
        kind: BindingKind::Texture,
        id: texture.id.clone(),
        name: texture.name.clone(),
        parameter_name: crate::app::copy_opt(&texture.parameter_name),
    }
}

/// The textures a material binds, in the material's own (parameter) order. `index` is the texture
/// rows by GUID; a resource no row carries contributes nothing.
pub fn texture_bindings(material: &MaterialInfo, textures: &[TextureSummary], index: &StrMap<usize>) -> (r: Vec<
    MaterialBinding,
>)
    requires
        index.wf(),
        index@ == index_view(row_ids(textures@)),
    ensures
        r.deep_view() == texture_bindings_spec(
            material.texture_ids.deep_view(),
            textures@.map_values(|t: TextureSummary| t.deep_view()),
        ),
{
    let ghost ids = material.texture_ids.deep_view();
    let ghost rows = textures@.map_values(|t: TextureSummary| t.deep_view());
    proof {
        lemma_texture_ids(textures@);
    }
    let mut r: Vec<MaterialBinding> = Vec::new();
    let mut i: usize = 0;
    while i < material.texture_ids.len()
        invariant
            i <= ids.len(),
            ids == material.texture_ids.deep_view(),
            rows == textures@.map_values(|t: TextureSummary| t.deep_view()),
            row_ids(textures@) == rows.map_values(|t: TextureSummaryView| t.id),
            index.wf(),
            index@ == index_view(row_ids(textures@)),
            r.deep_view() == texture_bindings_spec(ids.take(i as int), rows),
        decreases ids.len() - i,
    {
        let id = material.texture_ids[i].as_str();
        let ghost prev = r.deep_view();
        proof {
            assert(ids.take(i + 1).drop_last() =~= ids.take(i as int));
            assert(ids.take(i + 1).last() == id@);
            lemma_last_index_of(row_ids(textures@), id@);
        }
        match index.get(id) {
            Some(at) => {
                let at = *at;
                let binding = texture_binding(&textures[at]);
                r.push(binding);
                assert(r.deep_view() =~= prev + seq![texture_binding_spec(rows[at as int])]);
            },
            None => {
                assert(prev + Seq::<MaterialBindingView>::empty() =~= prev);
            },
        }
        i = i + 1;
    }
    assert(ids.take(ids.len() as int) =~= ids);
    r
}

/// The binding row of one virtual texture the material references, or `None` when no asset row
/// carries it. The parameter name comes from this material's own binding, and an empty one is
/// left out.
pub fn virtual_texture_binding(
    binding: &VirtualTextureBinding,
    virtual_textures: &[VirtualTextureSummary],
    index: &StrMap<usize>,
) -> (r: Option<MaterialBinding>)
    requires
        index.wf(),
        index@ == index_view(row_ids(virtual_textures@)),
    ensures
        match last_index_of(row_ids(virtual_textures@), binding.id@) {
            Some(i) => r matches Some(b) && b.deep_view() == vt_binding_spec(
                binding.deep_view(),
                virtual_textures@[i].deep_view(),
            ),
            None => r is None,
        },
{
    proof {
        lemma_last_index_of(row_ids(virtual_textures@), binding.id@);
    }
    match index.get(binding.id.as_str()) {
        Some(at) => {
            let row = &virtual_textures[*at];
            Some(
                MaterialBinding {
                    kind: BindingKind::Virtual,
                    id: row.id.clone(),
                    name: row.name.clone(),
                    parameter_name: if is_empty_str(binding.parameter_name.as_str()) {
                        None
                    } else {
                        Some(binding.parameter_name.clone())
                    },
                },
            )
        },
        None => None,
    }
}

/// The virtual textures a material binds, in binding order. A resource no asset row carries
/// contributes nothing.
pub fn virtual_texture_bindings(
    material: &MaterialInfo,
    virtual_textures: &[VirtualTextureSummary],
    index: &StrMap<usize>,
) -> (r: Vec<MaterialBinding>)
    requires
        index.wf(),
        index@ == index_view(row_ids(virtual_textures@)),
    ensures
        r.deep_view() == vt_bindings_spec(
            material.virtual_textures.deep_view(),
            virtual_textures@.map_values(|t: VirtualTextureSummary| t.deep_view()),
        ),
{
    let ghost bs = material.virtual_textures.deep_view();
    let ghost rows = virtual_textures@.map_values(|t: VirtualTextureSummary| t.deep_view());
    proof {
        lemma_vt_ids(virtual_textures@);
    }
    let mut r: Vec<MaterialBinding> = Vec::new();
    let mut i: usize = 0;
    while i < material.virtual_textures.len()
        invariant
            i <= bs.len(),
            bs == material.virtual_textures.deep_view(),
            rows == virtual_textures@.map_values(|t: VirtualTextureSummary| t.deep_view()),
            row_ids(virtual_textures@) == rows.map_values(|t: VirtualTextureSummaryView| t.id),
            index.wf(),
            index@ == index_view(row_ids(virtual_textures@)),
            r.deep_view() == vt_bindings_spec(bs.take(i as int), rows),
        decreases bs.len() - i,
    {
        let ghost prev = r.deep_view();
        proof {
            assert(bs.take(i + 1).drop_last() =~= bs.take(i as int));
            assert(bs.take(i + 1).last() == bs[i as int]);
        }
        match virtual_texture_binding(&material.virtual_textures[i], virtual_textures, index) {
            Some(binding) => {
                proof {
                    lemma_last_index_of(row_ids(virtual_textures@), bs[i as int].id);
                    let at = last_index_of(row_ids(virtual_textures@), bs[i as int].id)->0;
                    assert(rows[at] == virtual_textures@[at].deep_view());
                    assert(bs[i as int] == material.virtual_textures@[i as int].deep_view());
                }
                r.push(binding);
                assert(r.deep_view() =~= prev + seq![
                    vt_binding_spec(bs[i as int], rows[last_index_of(row_ids(virtual_textures@), bs[i as int].id)->0]),
                ]);
            },
            None => {
                assert(prev + Seq::<MaterialBindingView>::empty() =~= prev);
            },
        }
        i = i + 1;
    }
    assert(bs.take(bs.len() as int) =~= bs);
    r
}

/// What one material binds, in binding order: its textures first, then its virtual textures. A
/// material the cache does not know binds nothing.
pub fn material_bindings(
    known: Option<&MaterialInfo>,
    textures: &[TextureSummary],
    texture_index: &StrMap<usize>,
    virtual_textures: &[VirtualTextureSummary],
    vt_index: &StrMap<usize>,
) -> (r: Vec<MaterialBinding>)
    requires
        texture_index.wf(),
        texture_index@ == index_view(row_ids(textures@)),
        vt_index.wf(),
        vt_index@ == index_view(row_ids(virtual_textures@)),
    ensures
        r.deep_view() == material_bindings_spec(
            match known {
                Some(m) => Some(m.deep_view()),
                None => None,
            },
            textures@.map_values(|t: TextureSummary| t.deep_view()),
            virtual_textures@.map_values(|t: VirtualTextureSummary| t.deep_view()),
        ),
{
    match known {
        None => {
            let r: Vec<MaterialBinding> = Vec::new();
            assert(r.deep_view() =~= Seq::<MaterialBindingView>::empty());
            r
        },
        Some(material) => {
            let mut bindings = texture_bindings(material, textures, texture_index);
            let mut rest = virtual_texture_bindings(material, virtual_textures, vt_index);
            let ghost a = bindings.deep_view();
            let ghost b = rest.deep_view();
            bindings.append(&mut rest);
            assert(bindings.deep_view() =~= a + b);
            bindings
        },
    }
}

/// Fill in, for every material row, the resources of the asset that material binds. A material
/// names its resources by GUID, so each one is looked up in the asset's own rows and joined on the
/// GUID rather than on the name. A material the cache does not know keeps an empty binding list.
pub fn fill_material_bindings(
    materials: &mut Vec<MaterialSummary>,
    textures: &[TextureSummary],
    virtual_textures: &[VirtualTextureSummary],
    known: &MaterialCache,
)
    requires
        known.wf(),
    ensures
        final(materials)@.len() == old(materials)@.len(),
        forall|i: int|
            0 <= i < old(materials)@.len() ==> (#[trigger] final(materials).deep_view()[i]) == (MaterialSummaryView {
                bindings: material_bindings_spec(
                    known_of(known@, old(materials).deep_view()[i].id),
                    textures@.map_values(|t: TextureSummary| t.deep_view()),
                    virtual_textures@.map_values(|t: VirtualTextureSummary| t.deep_view()),
                ),
                ..old(materials).deep_view()[i]
            }),
{
    let texture_index = rows_by_id(textures);
    let vt_index = rows_by_id(virtual_textures);
    let ghost start = materials.deep_view();
    let ghost trows = textures@.map_values(|t: TextureSummary| t.deep_view());
    let ghost vrows = virtual_textures@.map_values(|t: VirtualTextureSummary| t.deep_view());
    let n = materials.len();
    let mut i: usize = 0;
    while i < n
        invariant
            n == materials@.len(),
            n == start.len(),
            i <= n,
            known.wf(),
            texture_index.wf(),
            texture_index@ == index_view(row_ids(textures@)),
            vt_index.wf(),
            vt_index@ == index_view(row_ids(virtual_textures@)),
            trows == textures@.map_values(|t: TextureSummary| t.deep_view()),
            vrows == virtual_textures@.map_values(|t: VirtualTextureSummary| t.deep_view()),
            forall|j: int|
                0 <= j < n ==> (#[trigger] materials.deep_view()[j]) == (if j < i {
                    MaterialSummaryView {
                        bindings: material_bindings_spec(known_of(known@, start[j].id), trows, vrows),
                        ..start[j]
                    }
                } else {
                    start[j]
                }),
        decreases n - i,
    {
        let row = &materials[i];
        let bindings = material_bindings(known.get(row.id.as_str()), textures, &texture_index, virtual_textures, &vt_index);
        let filled = MaterialSummary {
            id: row.id.clone(),
            name: row.name.clone(),
            source: crate::app::copy_opt(&row.source),
            source_file: row.source_file.clone(),
            bindings,
        };
        let ghost prev = materials.deep_view();
        proof {
            assert(prev[i as int] == start[i as int]);
        }
        materials.set(i, filled);
        assert(materials.deep_view() =~= prev.update(
            i as int,
            MaterialSummaryView {
                bindings: material_bindings_spec(known_of(known@, start[i as int].id), trows, vrows),
                ..start[i as int]
            },
        ));
        i = i + 1;
    }
}

} // verus!
