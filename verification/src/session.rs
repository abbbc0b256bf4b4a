//! What the session holds: the index built (or read back) for the game directory in use, the caches
//! read out of it, and the three orders the browse list can be sorted by.

use vstd::prelude::*;

use crate::app::{CacheStatus, DatabaseStats};
use crate::material::MaterialCache;
use crate::model::{MergedIndex, VisualAssetView};
use crate::order::{key_lt, lemma_key_asymmetric, lemma_key_irreflexive};
use crate::page_files::PageFileSizes;
use crate::sort::{keys_view, ordered_by, sort_by_keys};
use crate::source::ModSources;
use crate::strmap::StrMap;
use crate::text::chars_of;

verus! {

/// The name of the mod providing `id`, or nothing for the game's own
pub open spec fn source_name_spec(sources: Map<Seq<char>, Seq<char>>, id: Seq<char>) -> Seq<char> {
    if sources.contains_key(id) {
        sources[id]
    } else {
        Seq::empty()
    }
}

/// The default order: by name, then GUID
pub open spec fn by_name() -> spec_fn(VisualAssetView) -> Seq<Seq<char>> {
    |v: VisualAssetView| seq![v.name, v.id]
}

/// By GUID
pub open spec fn by_id() -> spec_fn(VisualAssetView) -> Seq<Seq<char>> {
    |v: VisualAssetView| seq![v.id]
}

/// By the providing mod's name (the game's own first, as it has none), then name, then GUID
pub open spec fn by_source(sources: Map<Seq<char>, Seq<char>>) -> spec_fn(VisualAssetView) -> Seq<Seq<char>> {
    |v: VisualAssetView| seq![source_name_spec(sources, v.id), v.name, v.id]
}

/// `ids` is every visual of `visuals` exactly once, in strictly ascending order of `key`. Each key
/// ends with the GUID, so two visuals never tie and this order is unique.
pub open spec fn is_order(
    ids: Seq<Seq<char>>,
    visuals: Map<Seq<char>, VisualAssetView>,
    key: spec_fn(VisualAssetView) -> Seq<Seq<char>>,
) -> bool {
    &&& forall|i: int| 0 <= i < ids.len() ==> visuals.contains_key(#[trigger] ids[i])
    &&& forall|k: Seq<char>| #[trigger] visuals.contains_key(k) ==> ids.contains(k)
    &&& forall|a: int, b: int|
        0 <= a < b < ids.len() ==> key_lt(key(visuals[#[trigger] ids[a]]), key(visuals[#[trigger] ids[b]]))
}

/// Every key of a visual ends with its GUID
pub open spec fn ends_with_id(key: spec_fn(VisualAssetView) -> Seq<Seq<char>>) -> bool {
    forall|v: VisualAssetView| #[trigger] key(v).len() > 0 && key(v).last() == v.id
}

/// The visuals of `db` in ascending order of `keys`, the sort key of each entry of the GUID map
fn visual_order(
    db: &MergedIndex,
    keys: &Vec<Vec<Vec<char>>>,
    Ghost(key): Ghost<spec_fn(VisualAssetView) -> Seq<Seq<char>>>,
) -> (ids: Vec<String>)
    requires
        db.wf(),
        ends_with_id(key),
        keys@.len() == db.visuals_by_id.keys().len(),
        forall|p: int|
            0 <= p < keys@.len() ==> #[trigger] keys_view(keys@)[p] == key(
                db.visuals_by_id@[db.visuals_by_id.keys()[p]],
            ),
    ensures
        is_order(ids.deep_view(), db.visuals_by_id@, key),
{
    let ghost ks = keys_view(keys@);
    let ghost names = db.visuals_by_id.keys();
    let ghost visuals = db.visuals_by_id@;
    proof {
        assert forall|a: int, b: int| 0 <= a < ks.len() && 0 <= b < ks.len() && a != b implies ks[a] != ks[b] by {
            db.visuals_by_id.lemma_keys_distinct(a, b);
            db.visuals_by_id.lemma_view_at(a);
            db.visuals_by_id.lemma_view_at(b);
            assert(key(visuals[names[a]]).last() == names[a]);
            assert(key(visuals[names[b]]).last() == names[b]);
        }
    }
    let order = sort_by_keys(keys);
    let mut ids: Vec<String> = Vec::new();
    let mut i: usize = 0;
    while i < order.len()
        invariant
            db.wf(),
            names == db.visuals_by_id.keys(),
            visuals == db.visuals_by_id@,
            ks == keys_view(keys@),
            ks.len() == names.len(),
            order@.len() == keys@.len(),
            forall|j: int| 0 <= j < order@.len() ==> #[trigger] order@[j] < keys@.len(),
            i <= order@.len(),
            ids.deep_view().len() == i,
            forall|j: int| 0 <= j < i ==> #[trigger] ids.deep_view()[j] == names[order@[j] as int],
        decreases order@.len() - i,
    {
        let p = order[i];
        let id = db.visuals_by_id.key_at(p).clone();
        let ghost prev = ids.deep_view();
        ids.push(id);
        assert(ids.deep_view() =~= prev.push(names[p as int]));
        i = i + 1;
    }
    proof {
        let dv = ids.deep_view();
        assert forall|j: int| 0 <= j < dv.len() implies visuals.contains_key(#[trigger] dv[j]) by {
            db.visuals_by_id.lemma_view_at(order@[j] as int);
        }
        assert forall|k: Seq<char>| #[trigger] visuals.contains_key(k) implies dv.contains(k) by {
            db.visuals_by_id.lemma_view_dom(k);
            let p = choose|p: int| 0 <= p < names.len() && names[p] == k;
            assert(order@.contains(p as usize));
            let j = choose|j: int| 0 <= j < order@.len() && order@[j] == p as usize;
            assert(dv[j] == k);
        }
        assert forall|a: int, b: int| 0 <= a < b < dv.len() implies key_lt(
            key(visuals[#[trigger] dv[a]]),
            key(visuals[#[trigger] dv[b]]),
        ) by {
            assert(key_lt(ks[order@[a] as int], ks[order@[b] as int]));
        }
    }
    ids
}

/// The characters of each field of a sort key
fn key_of(fields: Vec<&str>) -> (r: Vec<Vec<char>>)
    ensures
        r@.len() == fields@.len(),
        forall|i: int| 0 <= i < fields@.len() ==> (#[trigger] r@[i])@ == fields@[i]@,
{
    let mut r: Vec<Vec<char>> = Vec::new();
    let mut i: usize = 0;
    while i < fields.len()
        invariant
            i <= fields@.len(),
            r@.len() == i,
            forall|j: int| 0 <= j < i ==> (#[trigger] r@[j])@ == fields@[j]@,
        decreases fields@.len() - i,
    {
        r.push(chars_of(fields[i]));
        i = i + 1;
    }
    r
}

/// Every visual GUID ordered by (name, id) — the default order
pub fn by_name_order(db: &MergedIndex) -> (r: Vec<String>)
    requires
        db.wf(),
    ensures
        is_order(r.deep_view(), db.visuals_by_id@, by_name()),
{
    let n = db.visuals_by_id.len();
    let mut keys: Vec<Vec<Vec<char>>> = Vec::new();
    let mut i: usize = 0;
    while i < n
        invariant
            db.wf(),
            n == db.visuals_by_id.keys().len(),
            i <= n,
            keys@.len() == i,
            forall|p: int|
                0 <= p < i ==> #[trigger] keys_view(keys@)[p] == by_name()(
                    db.visuals_by_id@[db.visuals_by_id.keys()[p]],
                ),
        decreases n - i,
    {
        let visual = db.visuals_by_id.value_at(i);
        proof {
            db.visuals_by_id.lemma_lens();
            db.visuals_by_id.lemma_view_at(i as int);
        }
        let mut fields: Vec<&str> = Vec::new();
        fields.push(visual.name.as_str());
        fields.push(visual.id.as_str());
        let key = key_of(fields);
        let ghost prev = keys@;
        keys.push(key);
        proof {
            assert(keys@ == prev.push(key));
            assert(keys_view(keys@)[i as int] =~= by_name()(db.visuals_by_id@[db.visuals_by_id.keys()[i as int]]));
            assert forall|p: int| 0 <= p < i + 1 implies #[trigger] keys_view(keys@)[p] == by_name()(
                db.visuals_by_id@[db.visuals_by_id.keys()[p]],
            ) by {
                if p < i {
                    assert(keys_view(keys@)[p] == keys_view(prev)[p]);
                }
            }
        }
        i = i + 1;
    }
    proof {
        assert forall|v: VisualAssetView| #[trigger] by_name()(v).len() > 0 && by_name()(v).last() == v.id by {}
    }
    visual_order(db, &keys, Ghost(by_name()))
}

/// Every visual GUID ordered by id
pub fn by_id_order(db: &MergedIndex) -> (r: Vec<String>)
    requires
        db.wf(),
    ensures
        is_order(r.deep_view(), db.visuals_by_id@, by_id()),
{
    let n = db.visuals_by_id.len();
    let mut keys: Vec<Vec<Vec<char>>> = Vec::new();
    let mut i: usize = 0;
    while i < n
        invariant
            db.wf(),
            n == db.visuals_by_id.keys().len(),
            i <= n,
            keys@.len() == i,
            forall|p: int|
                0 <= p < i ==> #[trigger] keys_view(keys@)[p] == by_id()(
                    db.visuals_by_id@[db.visuals_by_id.keys()[p]],
                ),
        decreases n - i,
    {
        let visual = db.visuals_by_id.value_at(i);
        proof {
            db.visuals_by_id.lemma_lens();
            db.visuals_by_id.lemma_view_at(i as int);
        }
        let mut fields: Vec<&str> = Vec::new();
        fields.push(visual.id.as_str());
        let key = key_of(fields);
        let ghost prev = keys@;
        keys.push(key);
        proof {
            assert(keys@ == prev.push(key));
            assert(keys_view(keys@)[i as int] =~= by_id()(db.visuals_by_id@[db.visuals_by_id.keys()[i as int]]));
            assert forall|p: int| 0 <= p < i + 1 implies #[trigger] keys_view(keys@)[p] == by_id()(
                db.visuals_by_id@[db.visuals_by_id.keys()[p]],
            ) by {
                if p < i {
                    assert(keys_view(keys@)[p] == keys_view(prev)[p]);
                }
            }
        }
        i = i + 1;
    }
    proof {
        assert forall|v: VisualAssetView| #[trigger] by_id()(v).len() > 0 && by_id()(v).last() == v.id by {}
    }
    visual_order(db, &keys, Ghost(by_id()))
}

/// Every visual GUID ordered by (source, name, id), the base game first: its records carry no
/// source
pub fn by_source_order(db: &MergedIndex, sources: &ModSources) -> (r: Vec<String>)
    requires
        db.wf(),
        sources.wf(),
    ensures
        is_order(r.deep_view(), db.visuals_by_id@, by_source(sources@)),
{
    let n = db.visuals_by_id.len();
    let mut keys: Vec<Vec<Vec<char>>> = Vec::new();
    let mut i: usize = 0;
    while i < n
        invariant
            db.wf(),
            sources.wf(),
            n == db.visuals_by_id.keys().len(),
            i <= n,
            keys@.len() == i,
            forall|p: int|
                0 <= p < i ==> #[trigger] keys_view(keys@)[p] == by_source(sources@)(
                    db.visuals_by_id@[db.visuals_by_id.keys()[p]],
                ),
        decreases n - i,
    {
        let visual = db.visuals_by_id.value_at(i);
        proof {
            db.visuals_by_id.lemma_lens();
            db.visuals_by_id.lemma_view_at(i as int);
        }
        let mut fields: Vec<&str> = Vec::new();
        fields.push(source_name(sources, visual.id.as_str()));
        fields.push(visual.name.as_str());
        fields.push(visual.id.as_str());
        let key = key_of(fields);
        let ghost prev = keys@;
        keys.push(key);
        proof {
            assert(keys@ == prev.push(key));
            assert(keys_view(keys@)[i as int] =~= by_source(sources@)(db.visuals_by_id@[db.visuals_by_id.keys()[i as int]]));
            assert forall|p: int| 0 <= p < i + 1 implies #[trigger] keys_view(keys@)[p] == by_source(sources@)(
                db.visuals_by_id@[db.visuals_by_id.keys()[p]],
            ) by {
                if p < i {
                    assert(keys_view(keys@)[p] == keys_view(prev)[p]);
                }
            }
        }
        i = i + 1;
    }
    proof {
        assert forall|v: VisualAssetView| #[trigger] by_source(sources@)(v).len() > 0 && by_source(sources@)(v).last() == v.id by {}
    }
    visual_order(db, &keys, Ghost(by_source(sources@)))
}

/// The name of the mod providing `id`, or `""` for a resource that comes from the game itself
pub fn source_name<'a>(sources: &'a ModSources, id: &str) -> (r: &'a str)
    requires
        sources.wf(),
    ensures
        r@ == source_name_spec(sources@, id@),
{
    match sources.get(id) {
        Some(name) => name.as_str(),
        None => {
            proof {
                reveal_strlit("");
            }
            ""
        },
    }
}

/// The three id orders of one index: by (name, id) — the default — by id, and by (source, name, id)
pub struct VisualOrders {
    pub by_name: Vec<String>,
    pub by_id: Vec<String>,
    pub by_source: Vec<String>,
}

impl VisualOrders {
    /// These are the three orders of `visuals`, labeled by `sources`
    pub open spec fn of(&self, visuals: Map<Seq<char>, VisualAssetView>, sources: Map<Seq<char>, Seq<char>>) -> bool {
        &&& is_order(self.by_name.deep_view(), visuals, by_name())
        &&& is_order(self.by_id.deep_view(), visuals, by_id())
        &&& is_order(self.by_source.deep_view(), visuals, by_source(sources))
    }
}

/// Every visual GUID in the ascending orders the list can be sorted by. Names and sources are only
/// sort keys: neither is unique, and the GUID tiebreak keeps pagination deterministic. Built once,
/// so a sort change only picks a different cached sequence.
pub fn sorted_visual_ids(db: &MergedIndex, sources: &ModSources) -> (r: VisualOrders)
    requires
        db.wf(),
        sources.wf(),
    ensures
        r.of(db.visuals_by_id@, sources@),
{
    VisualOrders { by_name: by_name_order(db), by_id: by_id_order(db), by_source: by_source_order(db, sources) }
}

/// An order lists as many GUIDs as the visuals it orders
pub proof fn lemma_order_len(
    ids: Seq<Seq<char>>,
    visuals: Map<Seq<char>, VisualAssetView>,
    key: spec_fn(VisualAssetView) -> Seq<Seq<char>>,
)
    requires
        is_order(ids, visuals, key),
    ensures
        visuals.dom().finite(),
        ids.len() == visuals.dom().len(),
{
    assert forall|a: int, b: int| 0 <= a < ids.len() && 0 <= b < ids.len() && a != b implies ids[a] != ids[b] by {
        if ids[a] == ids[b] {
            lemma_key_irreflexive(key(visuals[ids[a]]));
            if a < b {
                assert(key_lt(key(visuals[ids[a]]), key(visuals[ids[b]])));
            } else {
                assert(key_lt(key(visuals[ids[b]]), key(visuals[ids[a]])));
            }
        }
    }
    assert(ids.no_duplicates());
    ids.unique_seq_to_set();
    assert(visuals.dom() =~= ids.to_set());
}

/// Two orders of the same visuals under the same key agree on their first `k` GUIDs
proof fn lemma_orders_agree_upto(
    a: Seq<Seq<char>>,
    b: Seq<Seq<char>>,
    visuals: Map<Seq<char>, VisualAssetView>,
    key: spec_fn(VisualAssetView) -> Seq<Seq<char>>,
    k: int,
)
    requires
        is_order(a, visuals, key),
        is_order(b, visuals, key),
        a.len() == b.len(),
        0 <= k <= a.len(),
    ensures
        forall|i: int| 0 <= i < k ==> a[i] == b[i],
    decreases k,
{
    if k > 0 {
        lemma_orders_agree_upto(a, b, visuals, key, k - 1);
        let i = k - 1;
        if a[i] != b[i] {
            assert(visuals.contains_key(a[i]));
            assert(visuals.contains_key(b[i]));
            assert(b.contains(a[i]));
            assert(a.contains(b[i]));
            let j = choose|j: int| 0 <= j < b.len() && b[j] == a[i];
            let m = choose|m: int| 0 <= m < a.len() && a[m] == b[i];
            if j < i {
                assert(a[j] == b[j]);
                assert(key_lt(key(visuals[a[j]]), key(visuals[a[i]])));
                lemma_key_irreflexive(key(visuals[a[i]]));
            } else if m < i {
                assert(a[m] == b[m]);
                assert(key_lt(key(visuals[b[m]]), key(visuals[b[i]])));
                lemma_key_irreflexive(key(visuals[b[i]]));
            } else {
                assert(key_lt(key(visuals[a[i]]), key(visuals[a[m]])));
                assert(key_lt(key(visuals[b[i]]), key(visuals[b[j]])));
                lemma_key_asymmetric(key(visuals[a[i]]), key(visuals[b[i]]));
            }
        }
    }
}

/// An index has exactly one order per key: any two lists that are both its order under the same
/// key are the same list. The cached orders are therefore a function of the index alone, and a
/// rebuild or a reload of the same index pages exactly the same way.
pub proof fn law_an_index_has_one_order(
    a: Seq<Seq<char>>,
    b: Seq<Seq<char>>,
    visuals: Map<Seq<char>, VisualAssetView>,
    key: spec_fn(VisualAssetView) -> Seq<Seq<char>>,
)
    requires
        is_order(a, visuals, key),
        is_order(b, visuals, key),
    ensures
        a == b,
{
    lemma_order_len(a, visuals, key);
    lemma_order_len(b, visuals, key);
    lemma_orders_agree_upto(a, b, visuals, key, a.len() as int);
    assert(a =~= b);
}

/// The merged database with the caches read out of it and the sources of what the mods
/// contribute: what a build assembles, and what a persisted index brings back
pub struct Assembly {
    pub db: MergedIndex,
    pub materials: MaterialCache,
    pub mod_sources: ModSources,
}

impl Assembly {
    /// Every part is well formed
    pub open spec fn wf(&self) -> bool {
        &&& self.db.wf()
        &&& self.materials.wf()
        &&& self.mod_sources.wf()
    }
}

/// Global application state: the game directory in use, the index held for it, and the caches the
/// commands answer from. The handles that reach outside the process (the archive pool, the
/// resolver) are kept next to it by the app.
pub struct AppState {
    pub game_path: Option<String>,
    pub merged_db: Option<MergedIndex>,
    /// Visual GUIDs by (name, id), so pagination order stays stable; GUIDs rather than names,
    /// since a name can belong to several visuals
    pub visual_ids: Vec<String>,
    /// The same GUIDs ordered by GUID
    pub visual_ids_by_id: Vec<String>,
    /// The same GUIDs ordered by (source, name, id), the base game first
    pub visual_ids_by_source: Vec<String>,
    /// Materials by GUID, filled once per build
    pub materials: MaterialCache,
    /// The mod providing each resource a mod provides
    pub mod_sources: ModSources,
    /// What this session knows about the index persisted on disk
    pub cache_status: CacheStatus,
    /// Page file sizes by GTS path; an empty list is a cached "no sizes here"
    pub page_file_sizes: StrMap<PageFileSizes>,
}

impl AppState {
    /// The caches are well formed, and the three orders are those of the index held — all empty
    /// while none is
    pub open spec fn wf(&self) -> bool {
        &&& self.materials.wf()
        &&& self.mod_sources.wf()
        &&& self.page_file_sizes.wf()
        &&& match self.merged_db {
            Some(db) => {
                &&& db.wf()
                &&& is_order(self.visual_ids.deep_view(), db.visuals_by_id@, by_name())
                &&& is_order(self.visual_ids_by_id.deep_view(), db.visuals_by_id@, by_id())
                &&& is_order(self.visual_ids_by_source.deep_view(), db.visuals_by_id@, by_source(self.mod_sources@))
            },
            None => {
                &&& self.visual_ids@.len() == 0
                &&& self.visual_ids_by_id@.len() == 0
                &&& self.visual_ids_by_source@.len() == 0
            },
        }
    }

    /// Nothing held: no index, empty caches, nothing to report
    pub open spec fn is_empty_index(&self) -> bool {
        &&& self.merged_db is None
        &&& self.visual_ids@.len() == 0
        &&& self.visual_ids_by_id@.len() == 0
        &&& self.visual_ids_by_source@.len() == 0
        &&& self.materials@ == Map::<Seq<char>, crate::material::MaterialInfoView>::empty()
        &&& self.mod_sources@ == Map::<Seq<char>, Seq<char>>::empty()
        &&& self.page_file_sizes@.dom() == Set::<Seq<char>>::empty()
        &&& self.cache_status.view().state == "idle"@
        &&& self.cache_status.built_at is None
        &&& self.cache_status.code is None
        &&& self.cache_status.detail is None
    }

    /// An empty state: no directory chosen and nothing built yet
    pub fn new() -> (r: Self)
        ensures
            r.wf(),
            r.game_path is None,
            r.is_empty_index(),
    {
        AppState {
            game_path: None,
            merged_db: None,
            visual_ids: Vec::new(),
            visual_ids_by_id: Vec::new(),
            visual_ids_by_source: Vec::new(),
            materials: StrMap::new(),
            mod_sources: StrMap::new(),
            cache_status: CacheStatus::idle(),
            page_file_sizes: StrMap::new(),
        }
    }

    /// Clear every cache after switching the game data directory: the index, the names and the
    /// sources read out of it, the cache status and the page file sizes all belong to the previous
    /// directory
    pub fn reset_index(&mut self)
        ensures
            final(self).wf(),
            final(self).game_path == old(self).game_path,
            final(self).is_empty_index(),
    {
        self.merged_db = None;
        self.visual_ids = Vec::new();
        self.visual_ids_by_id = Vec::new();
        self.visual_ids_by_source = Vec::new();
        self.materials = StrMap::new();
        self.mod_sources = StrMap::new();
        self.cache_status = CacheStatus::idle();
        self.page_file_sizes = StrMap::new();
    }
}

/// The statistics of a database and the material cache read out of it: one count per map, so the
/// visual count is one per GUID
pub fn stats_of(db: &MergedIndex, materials: &MaterialCache) -> (r: DatabaseStats)
    requires
        db.wf(),
        materials.wf(),
    ensures
        r.visual_count == db.visuals_by_id@.dom().len(),
        r.material_count == materials@.dom().len(),
        r.texture_count == db.textures@.dom().len(),
        r.virtual_texture_count == db.virtual_textures@.dom().len(),
{
    proof {
        db.visuals_by_id.lemma_dom_len();
        materials.lemma_dom_len();
        db.textures.lemma_dom_len();
        db.virtual_textures.lemma_dom_len();
    }
    DatabaseStats {
        visual_count: db.visuals_by_id.len(),
        material_count: materials.len(),
        texture_count: db.textures.len(),
        virtual_texture_count: db.virtual_textures.len(),
    }
}

/// The statistics of the index currently held, or `None` when nothing has been built yet. The
/// visual count is the length of the browse list, so the dashboard always matches it.
pub fn current_stats(st: &AppState) -> (r: Option<DatabaseStats>)
    requires
        st.wf(),
    ensures
        r is Some <==> st.merged_db is Some,
        r matches Some(s) ==> {
            &&& s.visual_count == st.visual_ids@.len()
            &&& s.material_count == st.materials@.dom().len()
            &&& s.texture_count == st.merged_db->0.textures@.dom().len()
            &&& s.virtual_texture_count == st.merged_db->0.virtual_textures@.dom().len()
        },
{
    match &st.merged_db {
        Some(db) => {
            proof {
                st.materials.lemma_dom_len();
                db.textures.lemma_dom_len();
                db.virtual_textures.lemma_dom_len();
            }
            Some(
                DatabaseStats {
                    visual_count: st.visual_ids.len(),
                    material_count: st.materials.len(),
                    texture_count: db.textures.len(),
                    virtual_texture_count: db.virtual_textures.len(),
                },
            )
        },
        None => None,
    }
}

/// The statistics of the index held count one visual per row of the browse list: what the
/// dashboard shows is what the list pages through.
pub proof fn law_stats_match_the_list(st: &AppState)
    requires
        st.wf(),
        st.merged_db is Some,
    ensures
        st.visual_ids@.len() == st.merged_db->0.visuals_by_id@.dom().len(),
        st.visual_ids_by_id@.len() == st.visual_ids@.len(),
        st.visual_ids_by_source@.len() == st.visual_ids@.len(),
{
    let db = st.merged_db->0;
    lemma_order_len(st.visual_ids.deep_view(), db.visuals_by_id@, by_name());
    lemma_order_len(st.visual_ids_by_id.deep_view(), db.visuals_by_id@, by_id());
    lemma_order_len(st.visual_ids_by_source.deep_view(), db.visuals_by_id@, by_source(st.mod_sources@));
}

/// The index a build produced, with everything publishing it needs
pub struct BuiltIndex {
    pub db: MergedIndex,
    pub materials: MaterialCache,
    pub mod_sources: ModSources,
    pub orders: VisualOrders,
    pub stats: DatabaseStats,
    /// Whether every pak of the game data was read; an index that came out short is not persisted
    pub complete: bool,
}

impl BuiltIndex {
    /// Every part is well formed, and the orders and statistics are those of the database
    pub open spec fn wf(&self) -> bool {
        &&& self.db.wf()
        &&& self.materials.wf()
        &&& self.mod_sources.wf()
        &&& self.orders.of(self.db.visuals_by_id@, self.mod_sources@)
        &&& self.stats.visual_count == self.db.visuals_by_id@.dom().len()
        &&& self.stats.material_count == self.materials@.dom().len()
        &&& self.stats.texture_count == self.db.textures@.dom().len()
        &&& self.stats.virtual_texture_count == self.db.virtual_textures@.dom().len()
    }

    /// The index of `assembly`, with the id orders and the statistics the page reads
    pub fn new(assembly: Assembly, complete: bool) -> (r: Self)
        requires
            assembly.wf(),
        ensures
            r.wf(),
            r.complete == complete,
            r.db == assembly.db,
            r.materials == assembly.materials,
            r.mod_sources == assembly.mod_sources,
    {
        let stats = stats_of(&assembly.db, &assembly.materials);
        let orders = sorted_visual_ids(&assembly.db, &assembly.mod_sources);
        BuiltIndex {
            db: assembly.db,
            materials: assembly.materials,
            mod_sources: assembly.mod_sources,
            orders,
            stats,
            complete,
        }
    }
}

/// Move the built index into the state, answering with its statistics. Whatever the disk had to
/// say is superseded by an index built in this session.
pub fn adopt_index(st: &mut AppState, built: BuiltIndex) -> (r: DatabaseStats)
    requires
        old(st).wf(),
        built.wf(),
    ensures
        final(st).wf(),
        r == built.stats,
        final(st).merged_db == Some(built.db),
        final(st).materials == built.materials,
        final(st).mod_sources == built.mod_sources,
        final(st).game_path == old(st).game_path,
        final(st).page_file_sizes == old(st).page_file_sizes,
        final(st).cache_status.view().state == "idle"@,
        final(st).cache_status.built_at is None,
        final(st).cache_status.code is None,
        final(st).cache_status.detail is None,
{
    let BuiltIndex { db, materials, mod_sources, orders, stats, complete: _ } = built;
    let VisualOrders { by_name, by_id, by_source } = orders;
    st.visual_ids = by_name;
    st.visual_ids_by_id = by_id;
    st.visual_ids_by_source = by_source;
    st.materials = materials;
    st.mod_sources = mod_sources;
    st.merged_db = Some(db);
    st.cache_status = CacheStatus::idle();
    stats
}

/// Put a loaded index in place of whatever `reset_index` emptied. The three orders are derived
/// rather than persisted: recomputing them keeps them consistent with the source map.
pub fn publish_index(st: &mut AppState, persisted: Option<Assembly>)
    requires
        old(st).wf(),
        persisted matches Some(a) ==> a.wf(),
    ensures
        final(st).wf(),
        final(st).game_path == old(st).game_path,
        final(st).cache_status == old(st).cache_status,
        final(st).page_file_sizes == old(st).page_file_sizes,
        match persisted {
            Some(a) => {
                &&& final(st).merged_db == Some(a.db)
                &&& final(st).materials == a.materials
                &&& final(st).mod_sources == a.mod_sources
            },
            None => *final(st) == *old(st),
        },
{
    let Some(persisted) = persisted else {
        return;
    };
    let orders = sorted_visual_ids(&persisted.db, &persisted.mod_sources);
    let VisualOrders { by_name, by_id, by_source } = orders;
    st.visual_ids = by_name;
    st.visual_ids_by_id = by_id;
    st.visual_ids_by_source = by_source;
    st.materials = persisted.materials;
    st.mod_sources = persisted.mod_sources;
    st.merged_db = Some(persisted.db);
}

} // verus!
