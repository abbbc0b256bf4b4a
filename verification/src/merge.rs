//! Folding a mod's resources into the built database and the material cache, by GUID.

use vstd::prelude::*;

use crate::material::{MaterialCache, MaterialInfo, MaterialInfoView, VirtualTextureBinding, VirtualTextureBindingView};
use crate::model::{
    copy_strings, MergedIndex, TextureRef, TextureRefView, VirtualTextureRef, VirtualTextureRefView, VisualAsset,
    VisualAssetView,
};
use crate::mods::{ModAssets, ModAssetsView, ModMaterial, ModMaterialView};
use crate::paths::{file_name, file_name_spec};
use crate::source::ModSources;
use crate::strmap::StrMap;
use crate::text::{chars_of, is_empty_str, owned, str_eq, string_of};

verus! {

// ---------------------------------------------------------------------------------------------
// Resolving a mod visual's references
// ---------------------------------------------------------------------------------------------

/// The (texture GUID, parameter) bindings material `mid` asks for: a material the mod ships
/// brings its parameter names, one the game already had is in the cache with GUIDs only
pub open spec fn texture_requests(
    mid: Seq<char>,
    mod_materials: Map<Seq<char>, ModMaterialView>,
    materials: Map<Seq<char>, MaterialInfoView>,
) -> Seq<(Seq<char>, Seq<char>)> {
    if mod_materials.contains_key(mid) {
        mod_materials[mid].textures.map_values(|p: (Seq<char>, Seq<char>)| (p.1, p.0))
    } else if materials.contains_key(mid) {
        materials[mid].texture_ids.map_values(|t: Seq<char>| (t, Seq::<char>::empty()))
    } else {
        Seq::empty()
    }
}

/// The virtual texture GUIDs material `mid` binds
pub open spec fn vt_requests(
    mid: Seq<char>,
    mod_materials: Map<Seq<char>, ModMaterialView>,
    materials: Map<Seq<char>, MaterialInfoView>,
) -> Seq<Seq<char>> {
    if mod_materials.contains_key(mid) {
        mod_materials[mid].virtual_textures
    } else if materials.contains_key(mid) {
        materials[mid].virtual_textures.map_values(|b: VirtualTextureBindingView| b.id)
    } else {
        Seq::empty()
    }
}

/// A material the mod ships stands for the game's material of the same GUID: its bindings are the
/// mod's own — each (parameter, texture GUID) binding of the mod's definition, in order, giving the
/// texture GUID with its parameter name, and its virtual texture GUIDs — whatever the game's cache
/// holds under that GUID
pub proof fn law_the_mod_material_wins(
    mid: Seq<char>,
    mod_materials: Map<Seq<char>, ModMaterialView>,
    materials: Map<Seq<char>, MaterialInfoView>,
)
    requires
        mod_materials.contains_key(mid),
    ensures
        texture_requests(mid, mod_materials, materials).len() == mod_materials[mid].textures.len(),
        forall|i: int|
            0 <= i < mod_materials[mid].textures.len() ==> #[trigger] texture_requests(mid, mod_materials, materials)[i]
                == (mod_materials[mid].textures[i].1, mod_materials[mid].textures[i].0),
        vt_requests(mid, mod_materials, materials) == mod_materials[mid].virtual_textures,
        texture_requests(mid, mod_materials, materials) == texture_requests(mid, mod_materials, Map::empty()),
        vt_requests(mid, mod_materials, materials) == vt_requests(mid, mod_materials, Map::empty()),
{
}

/// The bindings of materials the mod ships all come out the same whatever the game's cache holds
proof fn lemma_own_materials_ignore_the_cache(
    mids: Seq<Seq<char>>,
    mod_materials: Map<Seq<char>, ModMaterialView>,
    materials: Map<Seq<char>, MaterialInfoView>,
)
    requires
        forall|i: int| 0 <= i < mids.len() ==> mod_materials.contains_key(#[trigger] mids[i]),
    ensures
        all_texture_requests(mids, mod_materials, materials) == all_texture_requests(mids, mod_materials, Map::empty()),
        all_vt_requests(mids, mod_materials, materials) == all_vt_requests(mids, mod_materials, Map::empty()),
    decreases mids.len(),
{
    if mids.len() > 0 {
        let rest = mids.drop_last();
        assert forall|i: int| 0 <= i < rest.len() implies mod_materials.contains_key(#[trigger] rest[i]) by {
            assert(rest[i] == mids[i]);
        }
        lemma_own_materials_ignore_the_cache(rest, mod_materials, materials);
        assert(mod_materials.contains_key(mids[mids.len() - 1]));
    }
}

/// A mod visual whose materials the mod all ships resolves to the same rows whatever the game's
/// cache holds under those GUIDs: the mod's own definitions are the ones its textures and virtual
/// textures come from
pub proof fn law_a_mod_visual_resolves_through_its_own_materials(
    v: VisualAssetView,
    mod_materials: Map<Seq<char>, ModMaterialView>,
    materials: Map<Seq<char>, MaterialInfoView>,
    textures: Map<Seq<char>, TextureRefView>,
    vts: Map<Seq<char>, VirtualTextureRefView>,
)
    requires
        forall|i: int| 0 <= i < v.material_ids.len() ==> mod_materials.contains_key(#[trigger] v.material_ids[i]),
    ensures
        resolved_visual(v, mod_materials, materials, textures, vts) == resolved_visual(
            v,
            mod_materials,
            Map::empty(),
            textures,
            vts,
        ),
{
    lemma_own_materials_ignore_the_cache(v.material_ids, mod_materials, materials);
}

/// A material the mod does not ship is the game's: its bindings are the cached texture GUIDs, in
/// order and without parameter names, and its cached virtual texture bindings
pub proof fn law_a_game_material_keeps_its_bindings(
    mid: Seq<char>,
    mod_materials: Map<Seq<char>, ModMaterialView>,
    materials: Map<Seq<char>, MaterialInfoView>,
)
    requires
        !mod_materials.contains_key(mid),
        materials.contains_key(mid),
    ensures
        texture_requests(mid, mod_materials, materials).len() == materials[mid].texture_ids.len(),
        forall|i: int|
            0 <= i < materials[mid].texture_ids.len() ==> #[trigger] texture_requests(mid, mod_materials, materials)[i]
                == (materials[mid].texture_ids[i], Seq::<char>::empty()),
        vt_requests(mid, mod_materials, materials).len() == materials[mid].virtual_textures.len(),
        forall|i: int|
            0 <= i < materials[mid].virtual_textures.len() ==> #[trigger] vt_requests(mid, mod_materials, materials)[i]
                == materials[mid].virtual_textures[i].id,
{
}

/// The texture bindings of every material of `mids`, in order
pub open spec fn all_texture_requests(
    mids: Seq<Seq<char>>,
    mod_materials: Map<Seq<char>, ModMaterialView>,
    materials: Map<Seq<char>, MaterialInfoView>,
) -> Seq<(Seq<char>, Seq<char>)>
    decreases mids.len(),
{
    if mids.len() == 0 {
        Seq::empty()
    } else {
        all_texture_requests(mids.drop_last(), mod_materials, materials) + texture_requests(
            mids.last(),
            mod_materials,
            materials,
        )
    }
}

/// The virtual texture bindings of every material of `mids`, in order
pub open spec fn all_vt_requests(
    mids: Seq<Seq<char>>,
    mod_materials: Map<Seq<char>, ModMaterialView>,
    materials: Map<Seq<char>, MaterialInfoView>,
) -> Seq<Seq<char>>
    decreases mids.len(),
{
    if mids.len() == 0 {
        Seq::empty()
    } else {
        all_vt_requests(mids.drop_last(), mod_materials, materials) + vt_requests(
            mids.last(),
            mod_materials,
            materials,
        )
    }
}

/// Whether some row carries the GUID `id`
pub open spec fn has_texture_row(rows: Seq<TextureRefView>, id: Seq<char>) -> bool {
    exists|k: int| 0 <= k < rows.len() && (#[trigger] rows[k]).id == id
}

/// Whether some row carries the GUID `id`
pub open spec fn has_vt_row(rows: Seq<VirtualTextureRefView>, id: Seq<char>) -> bool {
    exists|k: int| 0 <= k < rows.len() && (#[trigger] rows[k]).id == id
}

/// The texture rows the bindings `reqs` give, in order: a binding of a texture the index does not
/// hold is dropped, and the first binding of a texture wins (two materials of one mesh may share
/// it); an empty parameter name leaves the row without one
pub open spec fn pushed_textures(reqs: Seq<(Seq<char>, Seq<char>)>, textures: Map<Seq<char>, TextureRefView>) -> Seq<
    TextureRefView,
>
    decreases reqs.len(),
{
    if reqs.len() == 0 {
        Seq::empty()
    } else {
        let rows = pushed_textures(reqs.drop_last(), textures);
        let id = reqs.last().0;
        let param = reqs.last().1;
        if textures.contains_key(id) && !has_texture_row(rows, textures[id].id) {
            rows.push(
                TextureRefView {
                    parameter_name: if param.len() > 0 {
                        Some(param)
                    } else {
                        None
                    },
                    ..textures[id]
                },
            )
        } else {
            rows
        }
    }
}

/// The virtual texture rows the bindings `reqs` give, in order, each virtual texture once
pub open spec fn pushed_vts(reqs: Seq<Seq<char>>, vts: Map<Seq<char>, VirtualTextureRefView>) -> Seq<
    VirtualTextureRefView,
>
    decreases reqs.len(),
{
    if reqs.len() == 0 {
        Seq::empty()
    } else {
        let rows = pushed_vts(reqs.drop_last(), vts);
        let id = reqs.last();
        if vts.contains_key(id) && !has_vt_row(rows, vts[id].id) {
            rows.push(vts[id])
        } else {
            rows
        }
    }
}

/// A mod visual with its references resolved against the merged view
pub open spec fn resolved_visual(
    v: VisualAssetView,
    mod_materials: Map<Seq<char>, ModMaterialView>,
    materials: Map<Seq<char>, MaterialInfoView>,
    textures: Map<Seq<char>, TextureRefView>,
    vts: Map<Seq<char>, VirtualTextureRefView>,
) -> VisualAssetView {
    VisualAssetView {
        textures: pushed_textures(all_texture_requests(v.material_ids, mod_materials, materials), textures),
        virtual_textures: pushed_vts(all_vt_requests(v.material_ids, mod_materials, materials), vts),
        ..v
    }
}

/// Add one bound texture to a visual's rows, unless a material already contributed it
pub fn push_texture(rows: &mut Vec<TextureRef>, textures: &StrMap<TextureRef>, id: &str, parameter_name: &str)
    requires
        textures.wf(),
    ensures
        final(rows).deep_view() == (if textures@.contains_key(id@) && !has_texture_row(
            old(rows).deep_view(),
            textures@[id@].id,
        ) {
            old(rows).deep_view().push(
                TextureRefView {
                    parameter_name: if parameter_name@.len() > 0 {
                        Some(parameter_name@)
                    } else {
                        None
                    },
                    ..textures@[id@]
                },
            )
        } else {
            old(rows).deep_view()
        }),
{
    let texture = match textures.get(id) {
        Some(t) => t,
        None => return,
    };
    let mut k: usize = 0;
    while k < rows.len()
        invariant
            k <= rows@.len(),
            rows == old(rows),
            textures@.contains_key(id@),
            texture.deep_view() == textures@[id@],
            forall|j: int| 0 <= j < k ==> (#[trigger] rows.deep_view()[j]).id != texture.id@,
        decreases rows@.len() - k,
    {
        if str_eq(rows[k].id.as_str(), texture.id.as_str()) {
            assert(rows.deep_view()[k as int].id == texture.id@);
            assert(texture.id@ == textures@[id@].id);
            assert(has_texture_row(rows.deep_view(), textures@[id@].id));
            return;
        }
        k = k + 1;
    }
    let mut row = texture.duplicate();
    row.parameter_name = if is_empty_str(parameter_name) {
        None
    } else {
        Some(owned(parameter_name))
    };
    let ghost prev = rows.deep_view();
    let ghost added = row.deep_view();
    rows.push(row);
    assert(rows.deep_view() =~= prev.push(added));
}

/// Add one bound virtual texture to a visual's rows, unless a material already contributed it
pub fn push_virtual_texture(rows: &mut Vec<VirtualTextureRef>, vts: &StrMap<VirtualTextureRef>, id: &str)
    requires
        vts.wf(),
    ensures
        final(rows).deep_view() == (if vts@.contains_key(id@) && !has_vt_row(old(rows).deep_view(), vts@[id@].id) {
            old(rows).deep_view().push(vts@[id@])
        } else {
            old(rows).deep_view()
        }),
{
    let vt = match vts.get(id) {
        Some(v) => v,
        None => return,
    };
    let mut k: usize = 0;
    while k < rows.len()
        invariant
            k <= rows@.len(),
            rows == old(rows),
            vts@.contains_key(id@),
            vt.deep_view() == vts@[id@],
            forall|j: int| 0 <= j < k ==> (#[trigger] rows.deep_view()[j]).id != vt.id@,
        decreases rows@.len() - k,
    {
        if str_eq(rows[k].id.as_str(), vt.id.as_str()) {
            assert(rows.deep_view()[k as int].id == vt.id@);
            assert(vt.id@ == vts@[id@].id);
            assert(has_vt_row(rows.deep_view(), vts@[id@].id));
            return;
        }
        k = k + 1;
    }
    let row = vt.duplicate();
    let ghost prev = rows.deep_view();
    let ghost added = row.deep_view();
    rows.push(row);
    assert(rows.deep_view() =~= prev.push(added));
}

/// Resolve the texture and virtual texture references of one mod visual, in the order the game's
/// own build resolves them: through each material the visual names, keeping the first binding of a
/// resource and dropping the ones that name a resource the index does not hold
pub fn resolve(
    visual: &mut VisualAsset,
    mod_materials: &StrMap<ModMaterial>,
    materials: &MaterialCache,
    textures: &StrMap<TextureRef>,
    vts: &StrMap<VirtualTextureRef>,
)
    requires
        mod_materials.wf(),
        materials.wf(),
        textures.wf(),
        vts.wf(),
    ensures
        final(visual).deep_view() == resolved_visual(
            old(visual).deep_view(),
            mod_materials@,
            materials@,
            textures@,
            vts@,
        ),
{
    let ghost mids = visual.material_ids.deep_view();
    let mut rows: Vec<TextureRef> = Vec::new();
    let mut vt_rows: Vec<VirtualTextureRef> = Vec::new();
    assert(mids.take(0) =~= Seq::<Seq<char>>::empty());
    let mut i: usize = 0;
    while i < visual.material_ids.len()
        invariant
            mod_materials.wf(),
            materials.wf(),
            textures.wf(),
            vts.wf(),
            visual == old(visual),
            mids == visual.material_ids.deep_view(),
            i <= mids.len(),
            rows.deep_view() == pushed_textures(all_texture_requests(mids.take(i as int), mod_materials@, materials@), textures@),
            vt_rows.deep_view() == pushed_vts(all_vt_requests(mids.take(i as int), mod_materials@, materials@), vts@),
        decreases mids.len() - i,
    {
        let mid = visual.material_ids[i].as_str();
        let ghost done_t = all_texture_requests(mids.take(i as int), mod_materials@, materials@);
        let ghost done_v = all_vt_requests(mids.take(i as int), mod_materials@, materials@);
        let ghost reqs_t = texture_requests(mid@, mod_materials@, materials@);
        let ghost reqs_v = vt_requests(mid@, mod_materials@, materials@);
        proof {
            assert(mids.take(i + 1).drop_last() =~= mids.take(i as int));
            assert(mids.take(i + 1).last() == mid@);
        }
        match mod_materials.get(mid) {
            Some(material) => {
                let mut j: usize = 0;
                assert(done_t + reqs_t.take(0) =~= done_t);
                while j < material.textures.len()
                    invariant
                        textures.wf(),
                        j <= material.textures@.len(),
                        reqs_t == material.textures.deep_view().map_values(|p: (Seq<char>, Seq<char>)| (p.1, p.0)),
                        rows.deep_view() == pushed_textures(done_t + reqs_t.take(j as int), textures@),
                    decreases material.textures@.len() - j,
                {
                    let param = &material.textures[j];
                    assert((done_t + reqs_t.take(j + 1)).drop_last() =~= done_t + reqs_t.take(j as int));
                    assert((done_t + reqs_t.take(j + 1)).last() == (param.texture_id@, param.parameter_name@));
                    push_texture(&mut rows, textures, param.texture_id.as_str(), param.parameter_name.as_str());
                    j = j + 1;
                }
                assert(reqs_t.take(reqs_t.len() as int) =~= reqs_t);
                let mut k: usize = 0;
                assert(done_v + reqs_v.take(0) =~= done_v);
                while k < material.virtual_textures.len()
                    invariant
                        vts.wf(),
                        k <= material.virtual_textures@.len(),
                        reqs_v == material.virtual_textures.deep_view(),
                        vt_rows.deep_view() == pushed_vts(done_v + reqs_v.take(k as int), vts@),
                    decreases material.virtual_textures@.len() - k,
                {
                    let id = material.virtual_textures[k].as_str();
                    assert((done_v + reqs_v.take(k + 1)).drop_last() =~= done_v + reqs_v.take(k as int));
                    assert((done_v + reqs_v.take(k + 1)).last() == id@);
                    push_virtual_texture(&mut vt_rows, vts, id);
                    k = k + 1;
                }
                assert(reqs_v.take(reqs_v.len() as int) =~= reqs_v);
            },
            None => match materials.get(mid) {
                Some(material) => {
                    let mut j: usize = 0;
                    assert(done_t + reqs_t.take(0) =~= done_t);
                    while j < material.texture_ids.len()
                        invariant
                            textures.wf(),
                            j <= material.texture_ids@.len(),
                            reqs_t == material.texture_ids.deep_view().map_values(
                                |t: Seq<char>| (t, Seq::<char>::empty()),
                            ),
                            rows.deep_view() == pushed_textures(done_t + reqs_t.take(j as int), textures@),
                        decreases material.texture_ids@.len() - j,
                    {
                        let id = material.texture_ids[j].as_str();
                        proof {
                            reveal_strlit("");
                        }
                        assert((done_t + reqs_t.take(j + 1)).drop_last() =~= done_t + reqs_t.take(j as int));
                        assert(""@ =~= Seq::<char>::empty());
                        assert((done_t + reqs_t.take(j + 1)).last() == (id@, ""@));
                        push_texture(&mut rows, textures, id, "");
                        j = j + 1;
                    }
                    assert(reqs_t.take(reqs_t.len() as int) =~= reqs_t);
                    let mut k: usize = 0;
                    assert(done_v + reqs_v.take(0) =~= done_v);
                    while k < material.virtual_textures.len()
                        invariant
                            vts.wf(),
                            k <= material.virtual_textures@.len(),
                            reqs_v == material.virtual_textures.deep_view().map_values(
                                |b: VirtualTextureBindingView| b.id,
                            ),
                            vt_rows.deep_view() == pushed_vts(done_v + reqs_v.take(k as int), vts@),
                        decreases material.virtual_textures@.len() - k,
                    {
                        let id = material.virtual_textures[k].id.as_str();
                        assert((done_v + reqs_v.take(k + 1)).drop_last() =~= done_v + reqs_v.take(k as int));
                        assert((done_v + reqs_v.take(k + 1)).last() == id@);
                        push_virtual_texture(&mut vt_rows, vts, id);
                        k = k + 1;
                    }
                    assert(reqs_v.take(reqs_v.len() as int) =~= reqs_v);
                },
                None => {
                    assert(reqs_t =~= Seq::<(Seq<char>, Seq<char>)>::empty());
                    assert(reqs_v =~= Seq::<Seq<char>>::empty());
                    assert(done_t + reqs_t =~= done_t);
                    assert(done_v + reqs_v =~= done_v);
                },
            },
        }
        i = i + 1;
    }
    assert(mids.take(mids.len() as int) =~= mids);
    visual.textures = rows;
    visual.virtual_textures = vt_rows;
}

// ---------------------------------------------------------------------------------------------
// Folding a mod in
// ---------------------------------------------------------------------------------------------

/// A mod material as the cache keeps it: GUIDs only, every binding still without its parameter
/// name (read per detail view from the material's template)
pub open spec fn cache_entry(m: ModMaterialView) -> MaterialInfoView {
    MaterialInfoView {
        name: m.name,
        source_file: m.source_file,
        texture_ids: m.textures.map_values(|p: (Seq<char>, Seq<char>)| p.1),
        virtual_textures: m.virtual_textures.map_values(
            |id: Seq<char>| VirtualTextureBindingView { id: id, parameter_name: Seq::empty() },
        ),
    }
}

/// Whether the mod provides the resource `id`: a texture, virtual texture, visual or material of it
pub open spec fn provides(a: ModAssetsView, id: Seq<char>) -> bool {
    ||| a.textures.contains_key(id)
    ||| a.virtual_textures.contains_key(id)
    ||| (exists|i: int| 0 <= i < a.visuals.len() && (#[trigger] a.visuals[i]).id == id)
    ||| a.materials.contains_key(id)
}

/// The visuals by GUID once the mod's visuals, resolved, are inserted in order
pub open spec fn visuals_after(
    m: Map<Seq<char>, VisualAssetView>,
    vs: Seq<VisualAssetView>,
    mod_materials: Map<Seq<char>, ModMaterialView>,
    materials: Map<Seq<char>, MaterialInfoView>,
    textures: Map<Seq<char>, TextureRefView>,
    vts: Map<Seq<char>, VirtualTextureRefView>,
) -> Map<Seq<char>, VisualAssetView>
    decreases vs.len(),
{
    if vs.len() == 0 {
        m
    } else {
        visuals_after(m, vs.drop_last(), mod_materials, materials, textures, vts).insert(
            vs.last().id,
            resolved_visual(vs.last(), mod_materials, materials, textures, vts),
        )
    }
}

/// The visual GUIDs by name once the mod's visuals are inserted in order
pub open spec fn names_after(m: Map<Seq<char>, Seq<char>>, vs: Seq<VisualAssetView>) -> Map<Seq<char>, Seq<char>>
    decreases vs.len(),
{
    if vs.len() == 0 {
        m
    } else {
        names_after(m, vs.drop_last()).insert(vs.last().name, vs.last().id)
    }
}

/// The key a visual is filed under by mesh: the file name of its GR2, or nothing
pub open spec fn gr2_key(gr2_path: Seq<char>) -> Seq<char> {
    match file_name_spec(gr2_path) {
        Some(name) => name,
        None => Seq::empty(),
    }
}

/// The visual GUIDs by GR2 file name once the mod's visuals are appended in order: one GR2 can
/// back several visuals, and a visual whose path names no file is not filed
pub open spec fn gr2_after(m: Map<Seq<char>, Seq<Seq<char>>>, vs: Seq<VisualAssetView>) -> Map<Seq<char>, Seq<Seq<char>>>
    decreases vs.len(),
{
    if vs.len() == 0 {
        m
    } else {
        let prev = gr2_after(m, vs.drop_last());
        let key = gr2_key(vs.last().gr2_path);
        if key.len() > 0 {
            prev.insert(
                key,
                (if prev.contains_key(key) {
                    prev[key]
                } else {
                    Seq::empty()
                }).push(vs.last().id),
            )
        } else {
            prev
        }
    }
}

/// The keys `ks` of a map view, first `n` of them, as a map
pub open spec fn first_entries<V>(m: Map<Seq<char>, V>, ks: Seq<Seq<char>>, n: int) -> Map<Seq<char>, V> {
    Map::new(|k: Seq<char>| ks.take(n).contains(k), |k: Seq<char>| m[k])
}

/// `m` with `name` for every key `provided` holds for
pub open spec fn labeled(
    m: Map<Seq<char>, Seq<char>>,
    provided: spec_fn(Seq<char>) -> bool,
    name: Seq<char>,
) -> Map<Seq<char>, Seq<char>> {
    Map::new(|k: Seq<char>| m.contains_key(k) || provided(k), |k: Seq<char>| if provided(k) { name } else { m[k] })
}

/// `m` with `name` for every key of `ids`, every other entry kept
pub open spec fn relabeled(m: Map<Seq<char>, Seq<char>>, ids: Set<Seq<char>>, name: Seq<char>) -> Map<
    Seq<char>,
    Seq<char>,
> {
    Map::new(|k: Seq<char>| m.contains_key(k) || ids.contains(k), |k: Seq<char>| if ids.contains(k) { name } else { m[k] })
}

/// Of two mods merged one after the other, the later one labels every GUID it provides, whatever
/// the earlier one provided: the last mod wins
pub proof fn law_the_later_mod_labels_what_it_provides(
    sources: Map<Seq<char>, Seq<char>>,
    first: Set<Seq<char>>,
    first_name: Seq<char>,
    second: Set<Seq<char>>,
    second_name: Seq<char>,
    id: Seq<char>,
)
    requires
        second.contains(id),
    ensures
        relabeled(relabeled(sources, first, first_name), second, second_name).contains_key(id),
        relabeled(relabeled(sources, first, first_name), second, second_name)[id] == second_name,
{
}

/// A GUID no merged mod provides keeps its label, and the game's own resources, which start
/// unlabeled, never read as a mod's
pub proof fn law_what_no_mod_provides_keeps_its_label(
    sources: Map<Seq<char>, Seq<char>>,
    provided: Set<Seq<char>>,
    name: Seq<char>,
    id: Seq<char>,
)
    requires
        !provided.contains(id),
    ensures
        relabeled(sources, provided, name).contains_key(id) == sources.contains_key(id),
        sources.contains_key(id) ==> relabeled(sources, provided, name)[id] == sources[id],
{
}

/// Insert the mod's textures over the game's, by GUID, labeling each with the mod's name
fn merge_textures(
    into: &mut StrMap<TextureRef>,
    sources: &mut ModSources,
    textures: &StrMap<TextureRef>,
    name: &String,
)
    requires
        old(into).wf(),
        old(sources).wf(),
        textures.wf(),
    ensures
        final(into).wf(),
        final(sources).wf(),
        final(into)@ == old(into)@.union_prefer_right(textures@),
        final(sources)@ == relabeled(old(sources)@, textures@.dom(), name@),
{
    let ghost keys = textures.keys();
    let ghost start = into@;
    let ghost src = sources@;
    let mut i: usize = 0;
    assert(into@ =~= start.union_prefer_right(first_entries(textures@, keys, 0)));
    assert(sources@ =~= relabeled(src, keys.take(0).to_set(), name@));
    while i < textures.len()
        invariant
            into.wf(),
            sources.wf(),
            textures.wf(),
            keys == textures.keys(),
            i <= keys.len(),
            into@ == start.union_prefer_right(first_entries(textures@, keys, i as int)),
            sources@ == relabeled(src, keys.take(i as int).to_set(), name@),
        decreases keys.len() - i,
    {
        proof {
            textures.lemma_lens();
            textures.lemma_view_at(i as int);
        }
        let key = textures.key_at(i);
        let value = textures.value_at(i).duplicate();
        sources.insert(key.clone(), name.clone());
        into.insert(key.clone(), value);
        proof {
            assert(keys.take(i + 1) =~= keys.take(i as int).push(key@));
            keys.take(i as int).lemma_push_to_set_commute(key@);
            assert(into@ =~= start.union_prefer_right(first_entries(textures@, keys, i + 1)));
            assert(sources@ =~= relabeled(src, keys.take(i + 1).to_set(), name@));
        }
        i = i + 1;
    }
    proof {
        assert(keys.take(keys.len() as int) =~= keys);
        assert forall|k: Seq<char>| #[trigger] keys.contains(k) == textures@.contains_key(k) by {
            textures.lemma_view_dom(k);
        }
        assert(first_entries(textures@, keys, keys.len() as int) =~= textures@);
        assert(keys.to_set() =~= textures@.dom());
    }
}

/// Insert the mod's virtual textures over the game's, by GUID, labeling each with the mod's name
fn merge_vts(
    into: &mut StrMap<VirtualTextureRef>,
    sources: &mut ModSources,
    vts: &StrMap<VirtualTextureRef>,
    name: &String,
)
    requires
        old(into).wf(),
        old(sources).wf(),
        vts.wf(),
    ensures
        final(into).wf(),
        final(sources).wf(),
        final(into)@ == old(into)@.union_prefer_right(vts@),
        final(sources)@ == relabeled(old(sources)@, vts@.dom(), name@),
{
    let ghost keys = vts.keys();
    let ghost start = into@;
    let ghost src = sources@;
    let mut i: usize = 0;
    assert(into@ =~= start.union_prefer_right(first_entries(vts@, keys, 0)));
    assert(sources@ =~= relabeled(src, keys.take(0).to_set(), name@));
    while i < vts.len()
        invariant
            into.wf(),
            sources.wf(),
            vts.wf(),
            keys == vts.keys(),
            i <= keys.len(),
            into@ == start.union_prefer_right(first_entries(vts@, keys, i as int)),
            sources@ == relabeled(src, keys.take(i as int).to_set(), name@),
        decreases keys.len() - i,
    {
        proof {
            vts.lemma_lens();
            vts.lemma_view_at(i as int);
        }
        let key = vts.key_at(i);
        let value = vts.value_at(i).duplicate();
        sources.insert(key.clone(), name.clone());
        into.insert(key.clone(), value);
        proof {
            assert(keys.take(i + 1) =~= keys.take(i as int).push(key@));
            keys.take(i as int).lemma_push_to_set_commute(key@);
            assert(into@ =~= start.union_prefer_right(first_entries(vts@, keys, i + 1)));
            assert(sources@ =~= relabeled(src, keys.take(i + 1).to_set(), name@));
        }
        i = i + 1;
    }
    proof {
        assert(keys.take(keys.len() as int) =~= keys);
        assert forall|k: Seq<char>| #[trigger] keys.contains(k) == vts@.contains_key(k) by {
            vts.lemma_view_dom(k);
        }
        assert(first_entries(vts@, keys, keys.len() as int) =~= vts@);
        assert(keys.to_set() =~= vts@.dom());
    }
}

/// The cache entry of a mod material
fn cache_entry_of(m: &ModMaterial) -> (r: MaterialInfo)
    ensures
        r.deep_view() == cache_entry(m.deep_view()),
{
    let mut texture_ids: Vec<String> = Vec::new();
    let mut i: usize = 0;
    while i < m.textures.len()
        invariant
            i <= m.textures@.len(),
            texture_ids.deep_view() == m.textures.deep_view().take(i as int).map_values(
                |p: (Seq<char>, Seq<char>)| p.1,
            ),
        decreases m.textures@.len() - i,
    {
        let ghost prev = texture_ids.deep_view();
        texture_ids.push(m.textures[i].texture_id.clone());
        proof {
            let all = m.textures.deep_view();
            assert(all.take(i + 1) =~= all.take(i as int).push(all[i as int]));
            all.take(i as int).lemma_push_map_commute(|p: (Seq<char>, Seq<char>)| p.1, all[i as int]);
            assert(texture_ids.deep_view() =~= prev.push(all[i as int].1));
        }
        i = i + 1;
    }
    assert(m.textures.deep_view().take(m.textures@.len() as int) =~= m.textures.deep_view());
    let mut bindings: Vec<VirtualTextureBinding> = Vec::new();
    let mut j: usize = 0;
    while j < m.virtual_textures.len()
        invariant
            j <= m.virtual_textures@.len(),
            bindings.deep_view() == m.virtual_textures.deep_view().take(j as int).map_values(
                |id: Seq<char>| VirtualTextureBindingView { id: id, parameter_name: Seq::empty() },
            ),
        decreases m.virtual_textures@.len() - j,
    {
        let ghost prev = bindings.deep_view();
        bindings.push(VirtualTextureBinding { id: m.virtual_textures[j].clone(), parameter_name: String::new() });
        proof {
            let all = m.virtual_textures.deep_view();
            let f = |id: Seq<char>| VirtualTextureBindingView { id: id, parameter_name: Seq::empty() };
            assert(all.take(j + 1) =~= all.take(j as int).push(all[j as int]));
            all.take(j as int).lemma_push_map_commute(f, all[j as int]);
            assert(bindings.deep_view() =~= prev.push(f(all[j as int])));
        }
        j = j + 1;
    }
    assert(m.virtual_textures.deep_view().take(m.virtual_textures@.len() as int) =~= m.virtual_textures.deep_view());
    MaterialInfo {
        name: m.name.clone(),
        source_file: m.source_file.clone(),
        texture_ids,
        virtual_textures: bindings,
    }
}

/// Insert the mod's materials into the cache, by GUID, labeling each with the mod's name
fn merge_materials(
    into: &mut MaterialCache,
    sources: &mut ModSources,
    mod_materials: &StrMap<ModMaterial>,
    name: &String,
)
    requires
        old(into).wf(),
        old(sources).wf(),
        mod_materials.wf(),
    ensures
        final(into).wf(),
        final(sources).wf(),
        final(into)@ == old(into)@.union_prefer_right(mod_materials@.map_values(|m: ModMaterialView| cache_entry(m))),
        final(sources)@ == relabeled(old(sources)@, mod_materials@.dom(), name@),
{
    let ghost keys = mod_materials.keys();
    let ghost start = into@;
    let ghost src = sources@;
    let ghost entries = mod_materials@.map_values(|m: ModMaterialView| cache_entry(m));
    let mut i: usize = 0;
    assert(into@ =~= start.union_prefer_right(first_entries(entries, keys, 0)));
    assert(sources@ =~= relabeled(src, keys.take(0).to_set(), name@));
    while i < mod_materials.len()
        invariant
            into.wf(),
            sources.wf(),
            mod_materials.wf(),
            keys == mod_materials.keys(),
            entries == mod_materials@.map_values(|m: ModMaterialView| cache_entry(m)),
            i <= keys.len(),
            into@ == start.union_prefer_right(first_entries(entries, keys, i as int)),
            sources@ == relabeled(src, keys.take(i as int).to_set(), name@),
        decreases keys.len() - i,
    {
        proof {
            mod_materials.lemma_lens();
            mod_materials.lemma_view_at(i as int);
        }
        let key = mod_materials.key_at(i);
        let value = cache_entry_of(mod_materials.value_at(i));
        sources.insert(key.clone(), name.clone());
        into.insert(key.clone(), value);
        proof {
            assert(keys.take(i + 1) =~= keys.take(i as int).push(key@));
            keys.take(i as int).lemma_push_to_set_commute(key@);
            assert(into@ =~= start.union_prefer_right(first_entries(entries, keys, i + 1)));
            assert(sources@ =~= relabeled(src, keys.take(i + 1).to_set(), name@));
        }
        i = i + 1;
    }
    proof {
        assert(keys.take(keys.len() as int) =~= keys);
        assert forall|k: Seq<char>| #[trigger] keys.contains(k) == mod_materials@.contains_key(k) by {
            mod_materials.lemma_view_dom(k);
        }
        assert(first_entries(entries, keys, keys.len() as int) =~= entries);
        assert(keys.to_set() =~= mod_materials@.dom());
    }
}

/// The GUIDs of visuals `vs`
pub open spec fn visual_ids(vs: Seq<VisualAssetView>) -> Set<Seq<char>> {
    Set::new(|k: Seq<char>| exists|i: int| 0 <= i < vs.len() && (#[trigger] vs[i]).id == k)
}

/// File one visual GUID under its GR2 file name, after the ones already there
fn file_by_gr2(by_gr2: &mut StrMap<Vec<String>>, key: String, id: &String)
    requires
        old(by_gr2).wf(),
    ensures
        final(by_gr2).wf(),
        final(by_gr2)@ == old(by_gr2)@.insert(
            key@,
            (if old(by_gr2)@.contains_key(key@) {
                old(by_gr2)@[key@]
            } else {
                Seq::empty()
            }).push(id@),
        ),
{
    match by_gr2.index_of(key.as_str()) {
        Some(at) => {
            proof {
                by_gr2.lemma_view_at(at as int);
                by_gr2.lemma_lens();
            }
            let mut ids = copy_strings(by_gr2.value_at(at));
            let ghost prev = ids.deep_view();
            ids.push(id.clone());
            assert(ids.deep_view() =~= prev.push(id@));
            by_gr2.set_value_at(at, ids);
        },
        None => {
            let mut ids: Vec<String> = Vec::new();
            ids.push(id.clone());
            assert(ids.deep_view() =~= Seq::<Seq<char>>::empty().push(id@));
            by_gr2.insert(key, ids);
        },
    }
}

/// Resolve each mod visual against the merged view and file it by GUID, by name and by GR2 file,
/// labeling it with the mod's name
fn merge_visuals(
    db: &mut MergedIndex,
    sources: &mut ModSources,
    visuals: &Vec<VisualAsset>,
    mod_materials: &StrMap<ModMaterial>,
    materials: &MaterialCache,
    name: &String,
)
    requires
        old(db).wf(),
        old(sources).wf(),
        mod_materials.wf(),
        materials.wf(),
    ensures
        final(db).wf(),
        final(sources).wf(),
        final(db).source_path == old(db).source_path,
        final(db).textures == old(db).textures,
        final(db).virtual_textures == old(db).virtual_textures,
        final(db).visuals_by_id@ == visuals_after(
            old(db).visuals_by_id@,
            visuals.deep_view(),
            mod_materials@,
            materials@,
            old(db).textures@,
            old(db).virtual_textures@,
        ),
        final(db).visuals_by_name@ == names_after(old(db).visuals_by_name@, visuals.deep_view()),
        final(db).visuals_by_gr2@ == gr2_after(old(db).visuals_by_gr2@, visuals.deep_view()),
        final(sources)@ == relabeled(old(sources)@, visual_ids(visuals.deep_view()), name@),
{
    let ghost vs = visuals.deep_view();
    let ghost by_id = db.visuals_by_id@;
    let ghost by_name = db.visuals_by_name@;
    let ghost by_gr2 = db.visuals_by_gr2@;
    let ghost src = sources@;
    let mut i: usize = 0;
    assert(vs.take(0) =~= Seq::<VisualAssetView>::empty());
    assert(visual_ids(vs.take(0)) =~= Set::<Seq<char>>::empty());
    assert(sources@ =~= relabeled(src, visual_ids(vs.take(0)), name@));
    while i < visuals.len()
        invariant
            db.wf(),
            sources.wf(),
            mod_materials.wf(),
            materials.wf(),
            vs == visuals.deep_view(),
            i <= vs.len(),
            db.source_path == old(db).source_path,
            db.textures == old(db).textures,
            db.virtual_textures == old(db).virtual_textures,
            db.visuals_by_id@ == visuals_after(
                by_id,
                vs.take(i as int),
                mod_materials@,
                materials@,
                old(db).textures@,
                old(db).virtual_textures@,
            ),
            db.visuals_by_name@ == names_after(by_name, vs.take(i as int)),
            db.visuals_by_gr2@ == gr2_after(by_gr2, vs.take(i as int)),
            sources@ == relabeled(src, visual_ids(vs.take(i as int)), name@),
        decreases vs.len() - i,
    {
        let ghost before = vs.take(i as int);
        let ghost after = vs.take(i + 1);
        assert(after.drop_last() =~= before);
        assert(after.last() == vs[i as int]);
        let mut visual = visuals[i].duplicate();
        resolve(&mut visual, mod_materials, materials, &db.textures, &db.virtual_textures);
        sources.insert(visual.id.clone(), name.clone());
        let path = chars_of(visual.gr2_path.as_str());
        match file_name(path.as_slice()) {
            Some(file) => {
                if file.len() > 0 {
                    file_by_gr2(&mut db.visuals_by_gr2, string_of(file.as_slice()), &visual.id);
                }
            },
            None => {},
        }
        db.visuals_by_name.insert(visual.name.clone(), visual.id.clone());
        let ghost resolved = visual.deep_view();
        let ghost pre = db.visuals_by_id@;
        assert(forall|k: Seq<char>| #[trigger] pre.contains_key(k) ==> pre[k].id == k);
        db.visuals_by_id.insert(visual.id.clone(), visual);
        proof {
            assert forall|k: Seq<char>| #[trigger] db.visuals_by_id@.contains_key(k) implies db.visuals_by_id@[k].id == k by {
                if k != resolved.id {
                    assert(pre.contains_key(k));
                }
            }
            assert forall|k: Seq<char>| #[trigger] visual_ids(after).contains(k) == (visual_ids(before).contains(k) || k == vs[i as int].id) by {
                if visual_ids(after).contains(k) {
                    let j = choose|j: int| 0 <= j < after.len() && (#[trigger] after[j]).id == k;
                    if j < before.len() {
                        assert(before[j] == after[j]);
                    }
                }
                if visual_ids(before).contains(k) {
                    let j = choose|j: int| 0 <= j < before.len() && (#[trigger] before[j]).id == k;
                    assert(after[j] == before[j]);
                }
                if k == vs[i as int].id {
                    assert(after[i as int].id == k);
                }
            }
            assert(sources@ =~= relabeled(src, visual_ids(after), name@));
        }
        i = i + 1;
    }
    assert(vs.take(vs.len() as int) =~= vs);
}

/// Every GUID a mod provides
pub open spec fn provided_ids(a: ModAssetsView) -> Set<Seq<char>> {
    Set::new(|k: Seq<char>| provides(a, k))
}

/// Fold one mod's resources into the built database and the material cache.
///
/// The order is what makes the merge work: the mod's own textures and virtual textures go in
/// first, so the references resolved next can reach them; then each visual is resolved against
/// the merged view — a material the mod ships, or one the game already had. A resource the mod
/// redefines overrides the game's by GUID, and every GUID the mod provides is labeled with the
/// mod's name in `sources`; everything else keeps its label (the game's own resources have none).
pub fn merge_into(db: &mut MergedIndex, assets: ModAssets, materials: &mut MaterialCache, sources: &mut ModSources)
    requires
        old(db).wf(),
        assets.wf(),
        old(materials).wf(),
        old(sources).wf(),
    ensures
        final(db).wf(),
        final(materials).wf(),
        final(sources).wf(),
        final(db).source_path == old(db).source_path,
        final(db).textures@ == old(db).textures@.union_prefer_right(assets@.textures),
        final(db).virtual_textures@ == old(db).virtual_textures@.union_prefer_right(assets@.virtual_textures),
        final(db).visuals_by_id@ == visuals_after(
            old(db).visuals_by_id@,
            assets@.visuals,
            assets@.materials,
            old(materials)@,
            final(db).textures@,
            final(db).virtual_textures@,
        ),
        final(db).visuals_by_name@ == names_after(old(db).visuals_by_name@, assets@.visuals),
        final(db).visuals_by_gr2@ == gr2_after(old(db).visuals_by_gr2@, assets@.visuals),
        final(materials)@ == old(materials)@.union_prefer_right(
            assets@.materials.map_values(|m: ModMaterialView| cache_entry(m)),
        ),
        final(sources)@ == relabeled(old(sources)@, provided_ids(assets@), assets@.name),
{
    let ghost a = assets@;
    let ghost src = sources@;
    let ModAssets { name, visuals, materials: mod_materials, textures, virtual_textures } = assets;
    merge_textures(&mut db.textures, sources, &textures, &name);
    let ghost s1 = sources@;
    merge_vts(&mut db.virtual_textures, sources, &virtual_textures, &name);
    let ghost s2 = sources@;
    merge_visuals(db, sources, &visuals, &mod_materials, materials, &name);
    let ghost s3 = sources@;
    merge_materials(materials, sources, &mod_materials, &name);
    proof {
        let all = a.textures.dom().union(a.virtual_textures.dom()).union(visual_ids(a.visuals)).union(a.materials.dom());
        assert(provided_ids(a) =~= all);
        assert(sources@ =~= relabeled(src, all, name@));
    }
}

} // verus!
