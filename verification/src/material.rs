//! What a material is, which resources it binds, and the rows the app lists it as — the material
//! rows of the detail panel and the entries of the export manifest.

use vstd::prelude::*;

use crate::app::opt_view;
use crate::model::copy_strings;
use crate::strmap::StrMap;
use crate::text::{is_empty_str, owned, str_eq};
use crate::texture::TextureSummary;
use crate::virtual_textures::VirtualTextureSummary;

mod manifest;
mod summary;

pub use manifest::{export_material_spec, manifest_materials, picked, ExportMaterial, ExportMaterialView};
pub use summary::{
    fill_material_bindings, known_of, material_bindings, material_bindings_spec, material_summaries, summary_row,
    texture_binding, texture_binding_spec, texture_bindings, texture_bindings_spec, virtual_texture_binding,
    virtual_texture_bindings, vt_binding_spec, vt_bindings_spec, BindingKind, MaterialBinding, MaterialBindingView, MaterialSummary, MaterialSummaryView,
};

verus! {

broadcast use vstd::seq_lib::group_seq_properties;

/// A virtual texture one material binds, together with the parameter that binding fills
#[derive(Debug)]
pub struct VirtualTextureBinding {
    /// GUID of the virtual texture resource (`VirtualTextureBank`)
    pub id: String,
    /// `ParameterName` of the binding node (e.g. `virtualtexture`); empty until a detail view
    /// resolves it from the material's template
    pub parameter_name: String,
}

/// The values of a virtual texture binding
pub struct VirtualTextureBindingView {
    pub id: Seq<char>,
    pub parameter_name: Seq<char>,
}

impl DeepView for VirtualTextureBinding {
    type V = VirtualTextureBindingView;

    open spec fn deep_view(&self) -> VirtualTextureBindingView {
        VirtualTextureBindingView { id: self.id@, parameter_name: self.parameter_name@ }
    }
}

/// One material of the built database: the name that makes its GUID readable, plus the resources
/// it binds (GUIDs, in parameter order)
#[derive(Debug)]
pub struct MaterialInfo {
    /// Human-readable name from `MaterialBank` (e.g. `BEAR_Body_A`); empty when it has none
    pub name: String,
    /// Base material template (`.lsf`) the material is derived from
    pub source_file: String,
    /// GUIDs of the textures this material binds
    pub texture_ids: Vec<String>,
    /// The virtual textures this material binds
    pub virtual_textures: Vec<VirtualTextureBinding>,
}

/// The values of a material
pub struct MaterialInfoView {
    pub name: Seq<char>,
    pub source_file: Seq<char>,
    pub texture_ids: Seq<Seq<char>>,
    pub virtual_textures: Seq<VirtualTextureBindingView>,
}

impl DeepView for MaterialInfo {
    type V = MaterialInfoView;

    open spec fn deep_view(&self) -> MaterialInfoView {
        MaterialInfoView {
            name: self.name@,
            source_file: self.source_file@,
            texture_ids: self.texture_ids.deep_view(),
            virtual_textures: self.virtual_textures.deep_view(),
        }
    }
}

/// The material cache: materials by GUID
pub type MaterialCache = StrMap<MaterialInfo>;

/// A copy of a list of bindings
pub fn copy_bindings(v: &Vec<VirtualTextureBinding>) -> (r: Vec<VirtualTextureBinding>)
    ensures
        r.deep_view() == v.deep_view(),
{
    let mut r: Vec<VirtualTextureBinding> = Vec::new();
    let mut i: usize = 0;
    while i < v.len()
        invariant
            i <= v@.len(),
            r.deep_view() == v.deep_view().take(i as int),
        decreases v@.len() - i,
    {
        let ghost prev = r.deep_view();
        r.push(VirtualTextureBinding { id: v[i].id.clone(), parameter_name: v[i].parameter_name.clone() });
        i = i + 1;
        assert(r.deep_view() =~= prev.push(v@[i - 1].deep_view()));
        assert(v.deep_view().take(i as int) =~= v.deep_view().take(i - 1).push(v@[i - 1].deep_view()));
    }
    assert(v.deep_view().take(v@.len() as int) =~= v.deep_view());
    r
}

impl MaterialInfo {
    /// A copy of this material
    pub fn duplicate(&self) -> (r: Self)
        ensures
            r.deep_view() == self.deep_view(),
    {
        MaterialInfo {
            name: self.name.clone(),
            source_file: self.source_file.clone(),
            texture_ids: copy_strings(&self.texture_ids),
            virtual_textures: copy_bindings(&self.virtual_textures),
        }
    }
}

// ---------------------------------------------------------------------------------------------
// The asset's rows by GUID
// ---------------------------------------------------------------------------------------------

/// A row of the asset's lists, which a material names by its GUID
pub trait Row {
    /// The GUID the row carries
    spec fn row_id(&self) -> Seq<char>;

    /// The GUID the row carries
    fn id_str(&self) -> (r: &str)
        ensures
            r@ == self.row_id(),
    ;
}

impl Row for TextureSummary {
    open spec fn row_id(&self) -> Seq<char> {
        self.id@
    }

    fn id_str(&self) -> (r: &str) {
        self.id.as_str()
    }
}

impl Row for VirtualTextureSummary {
    open spec fn row_id(&self) -> Seq<char> {
        self.id@
    }

    fn id_str(&self) -> (r: &str) {
        self.id.as_str()
    }
}

/// Position of the last of `ids` equal to `id`: when two rows carry one GUID, the later one is
/// the one a lookup finds
pub open spec fn last_index_of(ids: Seq<Seq<char>>, id: Seq<char>) -> Option<int>
    decreases ids.len(),
{
    if ids.len() == 0 {
        None
    } else if ids.last() == id {
        Some(ids.len() - 1)
    } else {
        last_index_of(ids.drop_last(), id)
    }
}

/// A position found by `last_index_of` holds the id, and nothing after it does
pub proof fn lemma_last_index_of(ids: Seq<Seq<char>>, id: Seq<char>)
    ensures
        match last_index_of(ids, id) {
            Some(i) => 0 <= i < ids.len() && ids[i] == id && forall|j: int| i < j < ids.len() ==> ids[j] != id,
            None => forall|j: int| 0 <= j < ids.len() ==> ids[j] != id,
        },
    decreases ids.len(),
{
    if ids.len() > 0 {
        let rest = ids.drop_last();
        lemma_last_index_of(rest, id);
        assert(forall|j: int| 0 <= j < rest.len() ==> rest[j] == ids[j]);
    }
}

/// The index of rows whose GUIDs are `ids`: each GUID mapped to the position of its row
pub open spec fn index_view(ids: Seq<Seq<char>>) -> Map<Seq<char>, usize> {
    Map::new(|k: Seq<char>| last_index_of(ids, k) is Some, |k: Seq<char>| (last_index_of(ids, k)->0) as usize)
}

/// The GUIDs of `rows`, in order
pub open spec fn row_ids<T: Row>(rows: Seq<T>) -> Seq<Seq<char>> {
    rows.map_values(|t: T| t.row_id())
}

/// The asset's rows indexed by GUID, so a material's references are looked up without a scan.
/// Both a material row of the detail panel and one of the export manifest join on the GUID, which
/// is what keeps two same-named materials apart.
pub fn rows_by_id<T: Row>(rows: &[T]) -> (r: StrMap<usize>)
    ensures
        r.wf(),
        r@ == index_view(row_ids(rows@)),
{
    let ghost ids = row_ids(rows@);
    let mut r: StrMap<usize> = StrMap::new();
    let mut i: usize = 0;
    proof {
        assert(r@ =~= index_view(ids.take(0)));
    }
    while i < rows.len()
        invariant
            i <= rows@.len(),
            ids == row_ids(rows@),
            r.wf(),
            r@ == index_view(ids.take(i as int)),
        decreases rows@.len() - i,
    {
        let id = rows[i].id_str();
        r.insert(owned(id), i);
        proof {
            let next = ids.take(i + 1);
            assert(next.drop_last() =~= ids.take(i as int));
            assert(next.last() == id@);
            assert(r@ =~= index_view(next));
        }
        i = i + 1;
    }
    assert(ids.take(rows@.len() as int) =~= ids);
    r
}

// ---------------------------------------------------------------------------------------------
// Parameter names of the virtual texture bindings
// ---------------------------------------------------------------------------------------------

/// A material's bindings once the names read off its template are filled in: bindings and names
/// pair up by position, and only a binding still without a name takes one
pub open spec fn filled(m: MaterialInfoView, names: Seq<Seq<char>>) -> MaterialInfoView {
    MaterialInfoView {
        virtual_textures: Seq::new(
            m.virtual_textures.len(),
            |i: int|
                if i < names.len() && m.virtual_textures[i].parameter_name.len() == 0 {
                    VirtualTextureBindingView { id: m.virtual_textures[i].id, parameter_name: names[i] }
                } else {
                    m.virtual_textures[i]
                },
        ),
        ..m
    }
}

/// The cache once every material named in `parameters` has its names filled in
pub open spec fn filled_cache(
    materials: Map<Seq<char>, MaterialInfoView>,
    parameters: Map<Seq<char>, Seq<Seq<char>>>,
) -> Map<Seq<char>, MaterialInfoView> {
    Map::new(
        |k: Seq<char>| materials.contains_key(k),
        |k: Seq<char>|
            if parameters.contains_key(k) {
                filled(materials[k], parameters[k])
            } else {
                materials[k]
            },
    )
}

/// Fill one material's bindings in place
fn fill_one(m: &mut MaterialInfo, names: &Vec<String>)
    ensures
        final(m).deep_view() == filled(old(m).deep_view(), names.deep_view()),
{
    let ghost before = m.deep_view();
    let mut i: usize = 0;
    let n = m.virtual_textures.len();
    while i < n
        invariant
            n == m.virtual_textures@.len(),
            i <= n,
            m.name@ == before.name,
            m.source_file@ == before.source_file,
            m.texture_ids.deep_view() == before.texture_ids,
            before.virtual_textures.len() == n,
            forall|j: int| 0 <= j < n ==> (#[trigger] m.virtual_textures.deep_view()[j]) == (if j < i {
                filled(before, names.deep_view()).virtual_textures[j]
            } else {
                before.virtual_textures[j]
            }),
        decreases n - i,
    {
        if i < names.len() && is_empty_str(m.virtual_textures[i].parameter_name.as_str()) {
            let id = m.virtual_textures[i].id.clone();
            let ghost prev = m.virtual_textures.deep_view();
            proof {
                assert(prev[i as int] == before.virtual_textures[i as int]);
            }
            m.virtual_textures.set(i, VirtualTextureBinding { id, parameter_name: names[i].clone() });
            assert(m.virtual_textures.deep_view() =~= prev.update(i as int, filled(before, names.deep_view()).virtual_textures[i as int]));
        } else {
            proof {
                assert(m.virtual_textures.deep_view()[i as int] == before.virtual_textures[i as int]);
            }
        }
        i = i + 1;
    }
    assert(m.virtual_textures.deep_view() =~= filled(before, names.deep_view()).virtual_textures);
}

/// Fill in the parameter name of every virtual texture binding from the material's own template.
///
/// maclarian keeps only the GUID of a binding, so the names are read separately and joined here.
/// Bindings and names are paired by position, which holds because both come out in document order.
/// A material the reader did not reach keeps its empty names; a binding already named keeps its
/// name.
pub fn fill_virtual_texture_parameters(materials: &mut MaterialCache, parameters: &StrMap<Vec<String>>)
    requires
        old(materials).wf(),
        parameters.wf(),
    ensures
        final(materials).wf(),
        final(materials)@ == filled_cache(old(materials)@, parameters@),
{
    let ghost start = materials@;
    let mut i: usize = 0;
    while i < parameters.len()
        invariant
            materials.wf(),
            parameters.wf(),
            i <= parameters.keys().len(),
            materials@.dom() == start.dom(),
            forall|k: Seq<char>| #[trigger] materials@.contains_key(k) ==> materials@[k] == (
                if exists|j: int| 0 <= j < i && parameters.keys()[j] == k {
                    filled(start[k], parameters@[k])
                } else {
                    start[k]
                }),
        decreases parameters.keys().len() - i,
    {
        let material_id = parameters.key_at(i);
        let names = parameters.value_at(i);
        proof {
            parameters.lemma_view_at(i as int);
        }
        match materials.index_of(material_id.as_str()) {
            Some(m) => {
                let mut info = materials.value_at(m).duplicate();
                fill_one(&mut info, names);
                let ghost before = materials@;
                proof {
                    materials.lemma_view_at(m as int);
                }
                materials.set_value_at(m, info);
                proof {
                    assert forall|k: Seq<char>| #[trigger] materials@.contains_key(k) implies materials@[k] == (
                        if exists|j: int| 0 <= j < i + 1 && parameters.keys()[j] == k {
                            filled(start[k], parameters@[k])
                        } else {
                            start[k]
                        }) by {
                        if k == material_id@ {
                            assert(parameters.keys()[i as int] == k);
                            if exists|j: int| 0 <= j < i && parameters.keys()[j] == k {
                                let j = choose|j: int| 0 <= j < i && parameters.keys()[j] == k;
                                parameters.lemma_keys_distinct(j, i as int);
                            }
                        } else {
                            if exists|j: int| 0 <= j < i + 1 && parameters.keys()[j] == k {
                                let j = choose|j: int| 0 <= j < i + 1 && parameters.keys()[j] == k;
                                assert(j != i);
                            }
                        }
                    }
                    assert(materials@.dom() =~= start.dom());
                }
            },
            None => {
                proof {
                    assert forall|k: Seq<char>| #[trigger] materials@.contains_key(k) implies materials@[k] == (
                        if exists|j: int| 0 <= j < i + 1 && parameters.keys()[j] == k {
                            filled(start[k], parameters@[k])
                        } else {
                            start[k]
                        }) by {
                        if exists|j: int| 0 <= j < i + 1 && parameters.keys()[j] == k {
                            let j = choose|j: int| 0 <= j < i + 1 && parameters.keys()[j] == k;
                            assert(j != i);
                        }
                    }
                }
            },
        }
        i = i + 1;
    }
    proof {
        assert forall|k: Seq<char>| #[trigger] materials@.contains_key(k) implies materials@[k] == filled_cache(start, parameters@)[k] by {
            parameters.lemma_view_dom(k);
        }
        assert(materials@ =~= filled_cache(start, parameters@));
    }
}

/// Filling one material twice with the same names gives what filling it once gave
proof fn lemma_filled_twice(m: MaterialInfoView, names: Seq<Seq<char>>)
    ensures
        filled(filled(m, names), names) == filled(m, names),
{
    let once = filled(m, names);
    assert(filled(once, names).virtual_textures =~= once.virtual_textures);
}

/// Filling the names in again changes nothing: a binding that has its name keeps it, so the names
/// read for a material may be handed over as often as a view asks for them
pub proof fn law_filling_twice_changes_nothing(
    materials: Map<Seq<char>, MaterialInfoView>,
    parameters: Map<Seq<char>, Seq<Seq<char>>>,
)
    ensures
        filled_cache(filled_cache(materials, parameters), parameters) == filled_cache(materials, parameters),
{
    let once = filled_cache(materials, parameters);
    assert forall|k: Seq<char>| #[trigger] once.contains_key(k) implies filled_cache(once, parameters)[k] == once[k] by {
        if parameters.contains_key(k) {
            lemma_filled_twice(materials[k], parameters[k]);
        }
    }
    assert(filled_cache(once, parameters) =~= once);
}

/// The entries of the material cache that `material_ids` reference, as an owned subset: the export
/// takes the handful of entries it needs rather than the whole cache
pub fn materials_of(material_ids: &Vec<String>, materials: &MaterialCache) -> (r: MaterialCache)
    requires
        materials.wf(),
    ensures
        r.wf(),
        r@ == materials@.restrict(material_ids.deep_view().to_set()),
{
    let mut r: MaterialCache = StrMap::new();
    let mut i: usize = 0;
    while i < material_ids.len()
        invariant
            i <= material_ids@.len(),
            materials.wf(),
            r.wf(),
            r@ == materials@.restrict(material_ids.deep_view().take(i as int).to_set()),
        decreases material_ids@.len() - i,
    {
        let id = &material_ids[i];
        let ghost prefix = material_ids.deep_view().take(i as int);
        let ghost next = material_ids.deep_view().take(i + 1);
        assert(next =~= prefix.push(id@));
        assert(next.to_set() =~= prefix.to_set().insert(id@));
        match materials.get(id.as_str()) {
            Some(material) => {
                r.insert(id.clone(), material.duplicate());
                assert(r@ =~= materials@.restrict(next.to_set()));
            },
            None => {
                assert(r@ =~= materials@.restrict(next.to_set()));
            },
        }
        i = i + 1;
    }
    assert(material_ids.deep_view().take(material_ids@.len() as int) =~= material_ids.deep_view());
    r
}

/// The virtual texture bindings of the asset's materials that the cache knows, in the asset's
/// material order and each material's binding order
pub open spec fn asset_bindings(
    material_ids: Seq<Seq<char>>,
    materials: Map<Seq<char>, MaterialInfoView>,
) -> Seq<VirtualTextureBindingView>
    decreases material_ids.len(),
{
    if material_ids.len() == 0 {
        Seq::empty()
    } else {
        asset_bindings(material_ids.drop_last(), materials) + if materials.contains_key(material_ids.last()) {
            materials[material_ids.last()].virtual_textures
        } else {
            Seq::empty()
        }
    }
}

/// The name of the first binding of `id`
pub open spec fn first_binding_name(bs: Seq<VirtualTextureBindingView>, id: Seq<char>) -> Option<Seq<char>>
    decreases bs.len(),
{
    if bs.len() == 0 {
        None
    } else if bs[0].id == id {
        Some(bs[0].parameter_name)
    } else {
        first_binding_name(bs.drop_first(), id)
    }
}

proof fn lemma_first_binding_skip(a: Seq<VirtualTextureBindingView>, b: Seq<VirtualTextureBindingView>, id: Seq<char>)
    requires
        forall|k: int| 0 <= k < a.len() ==> (#[trigger] a[k]).id != id,
    ensures
        first_binding_name(a + b, id) == first_binding_name(b, id),
    decreases a.len(),
{
    if a.len() > 0 {
        assert((a + b).drop_first() =~= a.drop_first() + b);
        lemma_first_binding_skip(a.drop_first(), b, id);
    } else {
        assert(a + b =~= b);
    }
}

proof fn lemma_first_binding_at(a: Seq<VirtualTextureBindingView>, j: int, id: Seq<char>)
    requires
        0 <= j < a.len(),
        a[j].id == id,
        forall|k: int| 0 <= k < j ==> (#[trigger] a[k]).id != id,
    ensures
        first_binding_name(a, id) == Some(a[j].parameter_name),
    decreases j,
{
    if j > 0 {
        lemma_first_binding_at(a.drop_first(), j - 1, id);
    }
}

/// Parameter the asset's materials bind the virtual texture `id` with: taken from the first
/// material that binds it, and absent when that binding carries no name
pub open spec fn vt_parameter_spec(
    id: Seq<char>,
    material_ids: Seq<Seq<char>>,
    materials: Map<Seq<char>, MaterialInfoView>,
) -> Option<Seq<char>> {
    match first_binding_name(asset_bindings(material_ids, materials), id) {
        Some(name) => if name.len() > 0 {
            Some(name)
        } else {
            None
        },
        None => None,
    }
}

/// Parameter the asset's materials bind the virtual texture `id` with.
///
/// The name belongs to the binding rather than to the resource, so it is taken from the first
/// material that binds it — in the shipped data a virtual texture is bound once and with the same
/// name everywhere, which is what makes one name per row enough.
#[verifier::loop_isolation(false)]
pub fn virtual_texture_parameter(id: &str, material_ids: &Vec<String>, materials: &MaterialCache) -> (r: Option<String>)
    requires
        materials.wf(),
    ensures
        opt_view(r) == vt_parameter_spec(id@, material_ids.deep_view(), materials@),
{
    let ghost mids = material_ids.deep_view();
    let mut i: usize = 0;
    while i < material_ids.len()
        invariant
            i <= material_ids@.len(),
            mids == material_ids.deep_view(),
            materials.wf(),
            forall|k: int| 0 <= k < asset_bindings(mids.take(i as int), materials@).len() ==> (#[trigger] asset_bindings(mids.take(i as int), materials@)[k]).id != id@,
        decreases material_ids@.len() - i,
    {
        let ghost prefix = asset_bindings(mids.take(i as int), materials@);
        assert(mids.take(i + 1).drop_last() =~= mids.take(i as int));
        assert(mids.take(i + 1).last() == material_ids@[i as int]@);
        match materials.get(material_ids[i].as_str()) {
            Some(material) => {
                let mut j: usize = 0;
                while j < material.virtual_textures.len()
                    invariant
                        j <= material.virtual_textures@.len(),
                        forall|k: int| 0 <= k < j ==> (#[trigger] material.virtual_textures.deep_view()[k]).id != id@,
                    decreases material.virtual_textures@.len() - j,
                {
                    let binding = &material.virtual_textures[j];
                    if str_eq(binding.id.as_str(), id) {
                        proof {
                            let bs = material.virtual_textures.deep_view();
                            lemma_first_binding_at(bs, j as int, id@);
                            let whole = asset_bindings(mids.take(i + 1), materials@);
                            assert(whole =~= prefix + bs);
                            lemma_first_binding_skip(prefix, bs, id@);
                            lemma_asset_bindings_append(mids, i + 1, materials@);
                            lemma_first_binding_prefix(whole, asset_bindings(mids, materials@), id@);
                        }
                        if is_empty_str(binding.parameter_name.as_str()) {
                            return None;
                        }
                        return Some(binding.parameter_name.clone());
                    }
                    j = j + 1;
                }
                proof {
                    let bs = material.virtual_textures.deep_view();
                    assert(asset_bindings(mids.take(i + 1), materials@) =~= prefix + bs);
                }
            },
            None => {
                assert(asset_bindings(mids.take(i + 1), materials@) =~= prefix);
            },
        }
        i = i + 1;
    }
    proof {
        assert(mids.take(mids.len() as int) =~= mids);
        lemma_first_binding_none(asset_bindings(mids, materials@), id@);
    }
    None
}

/// The bindings of the first `n` materials are a prefix of the bindings of all of them
proof fn lemma_asset_bindings_append(mids: Seq<Seq<char>>, n: int, materials: Map<Seq<char>, MaterialInfoView>)
    requires
        0 <= n <= mids.len(),
    ensures
        asset_bindings(mids.take(n), materials).len() <= asset_bindings(mids, materials).len(),
        asset_bindings(mids, materials).take(asset_bindings(mids.take(n), materials).len() as int) == asset_bindings(mids.take(n), materials),
    decreases mids.len() - n,
{
    if n == mids.len() {
        assert(mids.take(n) =~= mids);
        assert(asset_bindings(mids, materials).take(asset_bindings(mids, materials).len() as int) =~= asset_bindings(mids, materials));
    } else {
        lemma_asset_bindings_append(mids, n + 1, materials);
        assert(mids.take(n + 1).drop_last() =~= mids.take(n));
        let short = asset_bindings(mids.take(n), materials);
        let mid = asset_bindings(mids.take(n + 1), materials);
        let whole = asset_bindings(mids, materials);
        assert(mid.take(short.len() as int) =~= short);
        assert(whole.take(short.len() as int) =~= mid.take(short.len() as int));
    }
}

/// A name found in a prefix is the name found in the whole
proof fn lemma_first_binding_prefix(a: Seq<VirtualTextureBindingView>, whole: Seq<VirtualTextureBindingView>, id: Seq<char>)
    requires
        a.len() <= whole.len(),
        whole.take(a.len() as int) == a,
        first_binding_name(a, id) is Some,
    ensures
        first_binding_name(whole, id) == first_binding_name(a, id),
    decreases a.len(),
{
    if a.len() > 0 {
        assert(whole[0] == a[0]);
        if a[0].id != id {
            assert(whole.drop_first().take(a.len() - 1) =~= a.drop_first());
            lemma_first_binding_prefix(a.drop_first(), whole.drop_first(), id);
        }
    }
}

/// No binding of `id` means no name
proof fn lemma_first_binding_none(a: Seq<VirtualTextureBindingView>, id: Seq<char>)
    requires
        forall|k: int| 0 <= k < a.len() ==> (#[trigger] a[k]).id != id,
    ensures
        first_binding_name(a, id) is None,
    decreases a.len(),
{
    if a.len() > 0 {
        lemma_first_binding_none(a.drop_first(), id);
    }
}

} // verus!
