//! The decisions around a build and a detail view: publishing a result only for the directory it
//! belongs to, which hashes are worth looking up, and which material templates still have to be
//! read for their parameter names.

use vstd::prelude::*;

use crate::app::{AppSnapshot, CacheStatus, CacheStatusView, DatabaseStats};
use crate::material::{
    fill_virtual_texture_parameters, filled_cache, MaterialCache, MaterialInfoView, VirtualTextureBindingView,
};
use crate::model::{VirtualTextureRefView, VisualAsset, VisualAssetView};
use crate::session::{adopt_index, current_stats, publish_index, AppState, Assembly, BuiltIndex};
use crate::strmap::StrMap;
use crate::text::{chars_of, is_empty_str, lowercased, owned, str_eq, to_lowercase, trim, trim_ws, string_of};

verus! {

/// The error a build gets when the game data directory changed while it was running
pub fn discarded() -> (r: String)
    ensures
        r@ == "Game data directory changed while building; the result was discarded."@,
{
    owned("Game data directory changed while building; the result was discarded.")
}

/// Whether the session is still on `game_path`
pub fn on_directory(st: &AppState, game_path: &str) -> (r: bool)
    ensures
        r <==> (st.game_path matches Some(p) && p@ == game_path@),
{
    match &st.game_path {
        Some(p) => str_eq(p.as_str(), game_path),
        None => false,
    }
}

/// Publish `built` as this session's index, unless the directory it was built from is no longer
/// the current one: a build that raced with a directory switch belongs to a directory that is gone
pub fn publish(st: &mut AppState, game_path: &str, built: BuiltIndex) -> (r: Result<DatabaseStats, String>)
    requires
        old(st).wf(),
        built.wf(),
    ensures
        final(st).wf(),
        (old(st).game_path matches Some(p) && p@ == game_path@) ==> {
            &&& r == Ok::<DatabaseStats, String>(built.stats)
            &&& final(st).merged_db == Some(built.db)
            &&& final(st).materials == built.materials
            &&& final(st).mod_sources == built.mod_sources
            &&& final(st).game_path == old(st).game_path
            &&& final(st).page_file_sizes == old(st).page_file_sizes
            &&& final(st).cache_status.view().state == "idle"@
            &&& final(st).cache_status.built_at is None
            &&& final(st).cache_status.code is None
            &&& final(st).cache_status.detail is None
        },
        !(old(st).game_path matches Some(p) && p@ == game_path@) ==> {
            &&& r matches Err(e) && e@ == "Game data directory changed while building; the result was discarded."@
            &&& *final(st) == *old(st)
        },
{
    if !on_directory(st, game_path) {
        return Err(discarded());
    }
    Ok(adopt_index(st, built))
}

/// Fill the parameter names read off the templates into the material cache, unless a directory
/// switch landed while they were read: they would then belong to materials that are already gone
pub fn publish_parameters(st: &mut AppState, game_path: &str, parameters: &StrMap<Vec<String>>)
    requires
        old(st).wf(),
        parameters.wf(),
    ensures
        final(st).wf(),
        (old(st).game_path matches Some(p) && p@ == game_path@) ==> {
            &&& final(st).materials@ == filled_cache(old(st).materials@, parameters@)
            &&& final(st).merged_db == old(st).merged_db
            &&& final(st).mod_sources == old(st).mod_sources
        },
        !(old(st).game_path matches Some(p) && p@ == game_path@) ==> *final(st) == *old(st),
{
    if !on_directory(st, game_path) {
        return;
    }
    fill_virtual_texture_parameters(&mut st.materials, parameters);
}

// ---------------------------------------------------------------------------------------------
// Lookups a detail view makes
// ---------------------------------------------------------------------------------------------

/// The hash a virtual texture is looked up by: trimmed and lowercased, since the page files are
/// matched case-sensitively while the database does not promise a case
pub open spec fn lookup_hash(vt: VirtualTextureRefView) -> Seq<char> {
    lowercased(trim_ws(vt.gtex_hash))
}

/// The hashes worth looking up among `vts`, in order: blank ones are dropped, since they cannot
/// match a page file
pub open spec fn hashes_spec(vts: Seq<VirtualTextureRefView>) -> Seq<Seq<char>>
    decreases vts.len(),
{
    if vts.len() == 0 {
        Seq::empty()
    } else {
        hashes_spec(vts.drop_last()) + if lookup_hash(vts.last()).len() > 0 {
            seq![lookup_hash(vts.last())]
        } else {
            Seq::empty()
        }
    }
}

/// GTex hashes worth looking up among a visual's virtual textures: blank hashes dropped, each
/// lowercased
pub fn vt_hashes(asset: &VisualAsset) -> (r: Vec<String>)
    ensures
        r.deep_view() == hashes_spec(asset.virtual_textures.deep_view()),
{
    let ghost vts = asset.virtual_textures.deep_view();
    let mut r: Vec<String> = Vec::new();
    let mut i: usize = 0;
    while i < asset.virtual_textures.len()
        invariant
            i <= vts.len(),
            vts == asset.virtual_textures.deep_view(),
            r.deep_view() == hashes_spec(vts.take(i as int)),
        decreases vts.len() - i,
    {
        let chars = chars_of(asset.virtual_textures[i].gtex_hash.as_str());
        let trimmed = string_of(trim(chars.as_slice()).as_slice());
        let hash = to_lowercase(trimmed.as_str());
        let ghost prev = r.deep_view();
        assert(vts.take(i + 1).drop_last() =~= vts.take(i as int));
        assert(vts.take(i + 1).last() == vts[i as int]);
        if !is_empty_str(hash.as_str()) {
            r.push(hash);
            assert(r.deep_view() =~= prev + seq![lookup_hash(vts[i as int])]);
        } else {
            assert(prev + Seq::<Seq<char>>::empty() =~= prev);
        }
        i = i + 1;
    }
    assert(vts.take(vts.len() as int) =~= vts);
    r
}

/// A material still waiting for some parameter name, that has a template to read it from
pub open spec fn needs_names(m: MaterialInfoView) -> bool {
    &&& m.source_file.len() > 0
    &&& exists|i: int| 0 <= i < m.virtual_textures.len() && (#[trigger] m.virtual_textures[i]).parameter_name.len() == 0
}

/// The (material id, template) pairs among `ids` whose names still have to be read, in order
pub open spec fn unresolved_spec(ids: Seq<Seq<char>>, materials: Map<Seq<char>, MaterialInfoView>) -> Seq<
    (Seq<char>, Seq<char>),
>
    decreases ids.len(),
{
    if ids.len() == 0 {
        Seq::empty()
    } else {
        unresolved_spec(ids.drop_last(), materials) + if materials.contains_key(ids.last()) && needs_names(
            materials[ids.last()],
        ) {
            seq![(ids.last(), materials[ids.last()].source_file)]
        } else {
            Seq::empty()
        }
    }
}

/// Whether some binding of `bindings` has no name yet
fn any_unnamed(bindings: &Vec<crate::material::VirtualTextureBinding>) -> (r: bool)
    ensures
        r == exists|i: int|
            0 <= i < bindings@.len() && (#[trigger] bindings.deep_view()[i]).parameter_name.len() == 0,
{
    let mut i: usize = 0;
    while i < bindings.len()
        invariant
            i <= bindings@.len(),
            forall|j: int| 0 <= j < i ==> (#[trigger] bindings.deep_view()[j]).parameter_name.len() > 0,
        decreases bindings@.len() - i,
    {
        if is_empty_str(bindings[i].parameter_name.as_str()) {
            assert(bindings.deep_view()[i as int].parameter_name.len() == 0);
            return true;
        }
        i = i + 1;
    }
    false
}

/// One material that still needs its parameter names: the (material id, template) pair to read,
/// or `None` when it is already named, has no template, or is not in the cache
pub fn unresolved_material(materials: &MaterialCache, material_id: &str) -> (r: Option<(String, String)>)
    requires
        materials.wf(),
    ensures
        match r {
            Some((id, file)) => {
                &&& materials@.contains_key(material_id@)
                &&& needs_names(materials@[material_id@])
                &&& id@ == material_id@
                &&& file@ == materials@[material_id@].source_file
            },
            None => !(materials@.contains_key(material_id@) && needs_names(materials@[material_id@])),
        },
{
    let material = materials.get(material_id)?;
    let unresolved = any_unnamed(&material.virtual_textures);
    proof {
        let m = materials@[material_id@];
        assert(m == material.deep_view());
        if unresolved {
            let w = choose|i: int|
                0 <= i < material.virtual_textures@.len() && (#[trigger] material.virtual_textures.deep_view()[i]).parameter_name.len() == 0;
            assert(m.virtual_textures[w].parameter_name.len() == 0);
        }
        if exists|i: int| 0 <= i < m.virtual_textures.len() && (#[trigger] m.virtual_textures[i]).parameter_name.len() == 0 {
            let w = choose|i: int| 0 <= i < m.virtual_textures.len() && (#[trigger] m.virtual_textures[i]).parameter_name.len() == 0;
            assert(material.virtual_textures.deep_view()[w].parameter_name.len() == 0);
        }
    }
    if !is_empty_str(material.source_file.as_str()) && unresolved {
        Some((owned(material_id), material.source_file.clone()))
    } else {
        None
    }
}

/// The (material id, template) pairs of `visual_id` that still need their parameter names, in the
/// asset's material order; nothing when the index holds no such visual
pub fn unresolved_materials(st: &AppState, visual_id: &str) -> (r: Vec<(String, String)>)
    requires
        st.wf(),
    ensures
        r.deep_view() == (match st.merged_db {
            Some(db) => if db.visuals_by_id@.contains_key(visual_id@) {
                unresolved_spec(db.visuals_by_id@[visual_id@].material_ids, st.materials@)
            } else {
                Seq::empty()
            },
            None => Seq::empty(),
        }),
{
    let mut r: Vec<(String, String)> = Vec::new();
    let db = match &st.merged_db {
        Some(db) => db,
        None => {
            assert(r.deep_view() =~= Seq::<(Seq<char>, Seq<char>)>::empty());
            return r;
        },
    };
    let asset = match db.visuals_by_id.get(visual_id) {
        Some(asset) => asset,
        None => {
            assert(r.deep_view() =~= Seq::<(Seq<char>, Seq<char>)>::empty());
            return r;
        },
    };
    let ghost ids = asset.material_ids.deep_view();
    let mut i: usize = 0;
    while i < asset.material_ids.len()
        invariant
            st.wf(),
            i <= ids.len(),
            ids == asset.material_ids.deep_view(),
            r.deep_view() == unresolved_spec(ids.take(i as int), st.materials@),
        decreases ids.len() - i,
    {
        let ghost prev = r.deep_view();
        assert(ids.take(i + 1).drop_last() =~= ids.take(i as int));
        assert(ids.take(i + 1).last() == ids[i as int]);
        match unresolved_material(&st.materials, asset.material_ids[i].as_str()) {
            Some(pair) => {
                r.push(pair);
                assert(r.deep_view() =~= prev + seq![(ids[i as int], st.materials@[ids[i as int]].source_file)]);
            },
            None => {
                assert(prev + Seq::<(Seq<char>, Seq<char>)>::empty() =~= prev);
            },
        }
        i = i + 1;
    }
    assert(ids.take(ids.len() as int) =~= ids);
    r
}

// ---------------------------------------------------------------------------------------------
// The directory and the index of a session
// ---------------------------------------------------------------------------------------------

/// Take `dir` as this session's game data directory, dropping whatever index the previous one
/// left: a directory change is the one moment the index is dead
pub fn adopt_directory(st: &mut AppState, dir: String)
    requires
        old(st).wf(),
    ensures
        final(st).wf(),
        final(st).game_path matches Some(p) && p@ == dir@,
        final(st).is_empty_index(),
{
    st.game_path = Some(dir);
    st.reset_index();
}

/// Fill the index for the directory `game_path` out of what a previous build left for it, with the
/// status the page reports — unless a directory switch landed while the file was read: what came
/// out of it then belongs to resources that are no longer current
pub fn restore_index(st: &mut AppState, game_path: &str, status: CacheStatus, persisted: Option<Assembly>)
    requires
        old(st).wf(),
        persisted matches Some(a) ==> a.wf(),
    ensures
        final(st).wf(),
        !(old(st).game_path matches Some(p) && p@ == game_path@) ==> *final(st) == *old(st),
        (old(st).game_path matches Some(p) && p@ == game_path@) ==> {
            &&& final(st).cache_status == status
            &&& final(st).game_path == old(st).game_path
            &&& match persisted {
                Some(a) => {
                    &&& final(st).merged_db == Some(a.db)
                    &&& final(st).materials == a.materials
                    &&& final(st).mod_sources == a.mod_sources
                },
                None => {
                    &&& final(st).merged_db == old(st).merged_db
                    &&& final(st).materials == old(st).materials
                    &&& final(st).mod_sources == old(st).mod_sources
                },
            }
        },
{
    if !on_directory(st, game_path) {
        return;
    }
    publish_index(st, persisted);
    st.cache_status = status;
}

/// What a page renders from: the directory in use, the statistics of whatever index is there, and
/// where that index came from
pub fn snapshot(st: &AppState) -> (r: AppSnapshot)
    requires
        st.wf(),
    ensures
        crate::app::opt_view(r.game_path) == crate::app::opt_view(st.game_path),
        r.stats is Some <==> st.merged_db is Some,
        r.stats matches Some(s) ==> {
            &&& s.visual_count == st.visual_ids@.len()
            &&& s.material_count == st.materials@.dom().len()
            &&& s.texture_count == st.merged_db->0.textures@.dom().len()
            &&& s.virtual_texture_count == st.merged_db->0.virtual_textures@.dom().len()
        },
        r.cache.view() == st.cache_status.view(),
{
    AppSnapshot {
        game_path: crate::app::copy_opt(&st.game_path),
        stats: current_stats(st),
        cache: st.cache_status.duplicate(),
    }
}

/// Whether a build is worth writing to disk: one that read every pak of the game and found
/// something. An index missing a pak's resources must not outlive the failure it came from.
pub fn should_persist(built: &BuiltIndex) -> (r: bool)
    ensures
        r == (built.complete && built.stats.visual_count > 0),
{
    built.complete && built.stats.visual_count > 0
}

/// The asset `id` names, copied out of the index; refused while no index holds it
pub fn asset_of(st: &AppState, id: &str) -> (r: Result<VisualAsset, String>)
    requires
        st.wf(),
    ensures
        match r {
            Ok(asset) => st.merged_db matches Some(db) && db.visuals_by_id@.contains_key(id@) && asset.deep_view()
                == db.visuals_by_id@[id@],
            Err(e) => e@ == crate::browse::NOT_BUILT@ && !(st.merged_db matches Some(db)
                && db.visuals_by_id@.contains_key(id@)),
        },
{
    match &st.merged_db {
        Some(db) => match db.visuals_by_id.get(id) {
            Some(asset) => Ok(asset.duplicate()),
            None => Err(owned(crate::browse::NOT_BUILT)),
        },
        None => Err(owned(crate::browse::NOT_BUILT)),
    }
}

/// The materials of `visual_id` whose parameter names still have to be read, with the directory
/// they belong to: `None` when there is nothing to read, refused while no directory is set
pub fn pending_parameters(st: &AppState, visual_id: &str) -> (r: Result<Option<(Vec<(String, String)>, String)>, String>)
    requires
        st.wf(),
    ensures
        ({
            let pending = match st.merged_db {
                Some(db) => if db.visuals_by_id@.contains_key(visual_id@) {
                    unresolved_spec(db.visuals_by_id@[visual_id@].material_ids, st.materials@)
                } else {
                    Seq::empty()
                },
                None => Seq::empty(),
            };
            if pending.len() == 0 {
                r matches Ok(None)
            } else {
                match st.game_path {
                    Some(p) => r matches Ok(Some((v, g))) && v.deep_view() == pending && g@ == p@,
                    None => r matches Err(e) && e@ == crate::browse::NOT_CONFIGURED@,
                }
            }
        }),
{
    let pending = unresolved_materials(st, visual_id);
    if pending.len() == 0 {
        return Ok(None);
    }
    match &st.game_path {
        Some(p) => Ok(Some((pending, p.clone()))),
        None => Err(owned(crate::browse::NOT_CONFIGURED)),
    }
}

} // verus!
