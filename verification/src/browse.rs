//! The paged browse list: the cached order a query picks, the keyword and origin filters, the
//! direction, and the window of matches a page shows.

use vstd::prelude::*;

use crate::app::Page;
use crate::model::{MergedIndex, VisualAssetView};
use crate::order::{key_lt, lemma_key_irreflexive, lemma_lex_asymmetric, lemma_lex_irreflexive, lex_lt};
use crate::session::{by_id, by_name, lemma_order_len, AppState};
use crate::source::ModSources;
use crate::strmap::StrMap;
use crate::text::{
    ascii_lower_char, ascii_lower_seq, ascii_lowercase, chars_of, contains, contains_seq, occurs_at, is_ascii_seq, is_empty_str,
    is_whitespace_char, lemma_trim_lowered, lemma_trim_stretch, lowercased, owned, str_eq, string_of, to_lowercase,
    trim, trim_ws,
};
use crate::visual::{summary_spec, VisualSummary, VisualSummaryView};

verus! {

/// The answer a browse query gets while no index has been built
pub const NOT_BUILT: &'static str =
    "Resource database has not been built. Please go to the Database page and build it first.";

/// The answer a command gets while no game data directory is set
pub const NOT_CONFIGURED: &'static str =
    "BG3 Data directory is not set. Please use auto-detect or select a directory first.";

/// The filter side of a browse query, resolved before the list is walked: the origin split, and
/// the direction the page is read in
pub struct Filter<'a> {
    pub origin: Option<&'a str>,
    pub descending: bool,
}

impl<'a> Filter<'a> {
    /// The filter as the query states it; a missing direction is ascending
    pub fn of(origin: Option<&'a str>, descending: Option<bool>) -> (r: Self)
        ensures
            r.origin == origin,
            r.descending == (descending == Some(true)),
    {
        Filter {
            origin,
            descending: match descending {
                Some(d) => d,
                None => false,
            },
        }
    }
}

/// Which cached order a `sort` value picks
pub open spec fn order_for(st: AppState, sort: Option<Seq<char>>) -> Seq<Seq<char>> {
    if sort == Some("id"@) {
        st.visual_ids_by_id.deep_view()
    } else if sort == Some("source"@) {
        st.visual_ids_by_source.deep_view()
    } else {
        st.visual_ids.deep_view()
    }
}

/// Sorting by GUID lists every visual of the index held once, in strictly ascending order of its
/// GUID; the default order lists them by name, a name never coming before a smaller one
pub proof fn law_the_sort_orders_follow_their_keys(st: AppState)
    requires
        st.wf(),
        st.merged_db is Some,
    ensures
        forall|k: Seq<char>| #[trigger] st.merged_db.unwrap().visuals_by_id@.contains_key(k)
            ==> order_for(st, Some("id"@)).contains(k) && order_for(st, None).contains(k),
        forall|a: int, b: int|
            0 <= a < b < order_for(st, Some("id"@)).len() ==> lex_lt(
                #[trigger] order_for(st, Some("id"@))[a],
                #[trigger] order_for(st, Some("id"@))[b],
            ),
        forall|a: int, b: int|
            0 <= a < b < order_for(st, None).len() ==> !lex_lt(
                st.merged_db.unwrap().visuals_by_id@[#[trigger] order_for(st, None)[b]].name,
                st.merged_db.unwrap().visuals_by_id@[#[trigger] order_for(st, None)[a]].name,
            ),
{
    let db = st.merged_db.unwrap();
    let vs = db.visuals_by_id@;
    let by_id_ids = st.visual_ids_by_id.deep_view();
    let by_name_ids = st.visual_ids.deep_view();
    assert(order_for(st, Some("id"@)) == by_id_ids);
    assert(order_for(st, None) == by_name_ids);
    assert forall|a: int, b: int| 0 <= a < b < by_id_ids.len() implies lex_lt(
        #[trigger] by_id_ids[a],
        #[trigger] by_id_ids[b],
    ) by {
        let (x, y) = (by_id_ids[a], by_id_ids[b]);
        assert(key_lt((by_id())(vs[x]), (by_id())(vs[y])));
        assert(vs.contains_key(x) && vs.contains_key(y));
        assert(vs[x].id == x && vs[y].id == y);
        assert((by_id())(vs[x]) == seq![x]);
        assert((by_id())(vs[y]) == seq![y]);
        if x == y {
            lemma_key_irreflexive(seq![x]);
        }
        assert(seq![x][0] == x && seq![y][0] == y);
    }
    assert forall|a: int, b: int| 0 <= a < b < by_name_ids.len() implies !lex_lt(
        vs[#[trigger] by_name_ids[b]].name,
        vs[#[trigger] by_name_ids[a]].name,
    ) by {
        let (x, y) = (by_name_ids[a], by_name_ids[b]);
        let (kx, ky) = ((by_name())(vs[x]), (by_name())(vs[y]));
        assert(key_lt(kx, ky));
        assert(kx == seq![vs[x].name, vs[x].id]);
        assert(ky == seq![vs[y].name, vs[y].id]);
        assert(kx[0] == vs[x].name && ky[0] == vs[y].name);
        if lex_lt(vs[y].name, vs[x].name) {
            lemma_lex_asymmetric(vs[y].name, vs[x].name);
            lemma_lex_irreflexive(vs[x].name);
        }
    }
}

/// The characters of an optional string
pub open spec fn opt_str(o: Option<&str>) -> Option<Seq<char>> {
    match o {
        Some(s) => Some(s@),
        None => None,
    }
}

/// The cached order `sort` picks: the GUID order, the mod-name order, or — for anything else,
/// including a missing value — the name order
pub fn ordered_ids<'a>(st: &'a AppState, sort: Option<&str>) -> (r: &'a Vec<String>)
    ensures
        r.deep_view() == order_for(*st, opt_str(sort)),
{
    proof {
        reveal_strlit("id");
        reveal_strlit("source");
    }
    match sort {
        Some(s) => {
            if str_eq(s, "id") {
                &st.visual_ids_by_id
            } else if str_eq(s, "source") {
                &st.visual_ids_by_source
            } else {
                &st.visual_ids
            }
        },
        None => &st.visual_ids,
    }
}

/// Whether `id` passes the origin split: "mod" keeps only what a mod provides, "base" only the
/// game's own resources, anything else (a missing value too) keeps both
pub open spec fn origin_ok(sources: Map<Seq<char>, Seq<char>>, id: Seq<char>, origin: Option<Seq<char>>) -> bool {
    if origin == Some("mod"@) {
        sources.contains_key(id)
    } else if origin == Some("base"@) {
        !sources.contains_key(id)
    } else {
        true
    }
}

/// Whether an id passes the `origin` split. Mod-provided ids are exactly the ones the source table
/// lists, so membership in it is the whole test.
pub fn passes_origin(sources: &ModSources, id: &str, origin: Option<&str>) -> (r: bool)
    requires
        sources.wf(),
    ensures
        r == origin_ok(sources@, id@, opt_str(origin)),
{
    proof {
        reveal_strlit("mod");
        reveal_strlit("base");
    }
    let from_mod = sources.contains_key(id);
    match origin {
        Some(o) => {
            if str_eq(o, "mod") {
                from_mod
            } else if str_eq(o, "base") {
                !from_mod
            } else {
                true
            }
        },
        None => true,
    }
}

/// Whether `id` carries the (folded) keyword: in its GUID, folded the cheap ASCII way since a GUID
/// is ASCII, or in the name of the visual it names
pub open spec fn keyword_hit(visuals: Map<Seq<char>, VisualAssetView>, id: Seq<char>, keyword: Seq<char>) -> bool {
    contains_seq(ascii_lower_seq(id), keyword) || (visuals.contains_key(id) && contains_seq(
        lowercased(visuals[id].name),
        keyword,
    ))
}

/// Whether `id` carries `keyword`, in its GUID or in its visual's name
pub fn matches_keyword(db: &MergedIndex, id: &str, keyword: &str) -> (r: bool)
    requires
        db.wf(),
    ensures
        r == keyword_hit(db.visuals_by_id@, id@, keyword@),
{
    let pattern = chars_of(keyword);
    let id_chars = chars_of(id);
    let folded = ascii_lowercase(id_chars.as_slice());
    if contains(folded.as_slice(), pattern.as_slice()) {
        return true;
    }
    match db.visuals_by_id.get(id) {
        Some(visual) => {
            let name = to_lowercase(visual.name.as_str());
            let name_chars = chars_of(name.as_str());
            contains(name_chars.as_slice(), pattern.as_slice())
        },
        None => false,
    }
}

/// Whether one id of the sorted list is in the page: both filters pass
pub open spec fn keeps_spec(
    visuals: Map<Seq<char>, VisualAssetView>,
    sources: Map<Seq<char>, Seq<char>>,
    id: Seq<char>,
    keyword: Option<Seq<char>>,
    origin: Option<Seq<char>>,
) -> bool {
    (match keyword {
        Some(kw) => keyword_hit(visuals, id, kw),
        None => true,
    }) && origin_ok(sources, id, origin)
}

/// Whether one id of the sorted list is in the page: both filters pass
pub fn keeps(
    db: &MergedIndex,
    sources: &ModSources,
    id: &str,
    keyword: Option<&str>,
    origin: Option<&str>,
) -> (r: bool)
    requires
        db.wf(),
        sources.wf(),
    ensures
        r == keeps_spec(db.visuals_by_id@, sources@, id@, opt_str(keyword), opt_str(origin)),
{
    let keyword_ok = match keyword {
        Some(kw) => matches_keyword(db, id, kw),
        None => true,
    };
    keyword_ok && passes_origin(sources, id, origin)
}

/// The ids of `ids` that `keep` holds for, in order
pub open spec fn kept(ids: Seq<Seq<char>>, keep: spec_fn(Seq<char>) -> bool) -> Seq<Seq<char>>
    decreases ids.len(),
{
    if ids.len() == 0 {
        Seq::empty()
    } else {
        kept(ids.drop_last(), keep) + if keep(ids.last()) {
            seq![ids.last()]
        } else {
            Seq::empty()
        }
    }
}

/// The filter keeps exactly the ids it holds for: an id is in the result if and only if it is one of
/// `ids` and passes, and the result never grows past the ids it filters
pub proof fn law_the_filter_keeps_exactly_what_passes(ids: Seq<Seq<char>>, keep: spec_fn(Seq<char>) -> bool)
    ensures
        kept(ids, keep).len() <= ids.len(),
        forall|x: Seq<char>| #[trigger] kept(ids, keep).contains(x) <==> (ids.contains(x) && keep(x)),
    decreases ids.len(),
{
    if ids.len() > 0 {
        let rest = ids.drop_last();
        law_the_filter_keeps_exactly_what_passes(rest, keep);
        let tail = if keep(ids.last()) {
            seq![ids.last()]
        } else {
            Seq::<Seq<char>>::empty()
        };
        assert forall|x: Seq<char>| #[trigger] kept(ids, keep).contains(x) <==> (ids.contains(x) && keep(x)) by {
            let k = kept(ids, keep);
            assert(k == kept(rest, keep) + tail);
            if k.contains(x) {
                let i = choose|i: int| 0 <= i < k.len() && k[i] == x;
                if i < kept(rest, keep).len() {
                    assert(kept(rest, keep)[i] == x);
                    assert(kept(rest, keep).contains(x));
                    let j = choose|j: int| 0 <= j < rest.len() && rest[j] == x;
                    assert(ids[j] == x);
                } else {
                    assert(tail[i - kept(rest, keep).len()] == x);
                    assert(ids[ids.len() - 1] == x);
                }
            }
            if ids.contains(x) && keep(x) {
                let j = choose|j: int| 0 <= j < ids.len() && ids[j] == x;
                if j < ids.len() - 1 {
                    assert(rest[j] == x);
                    assert(rest.contains(x));
                    assert(kept(rest, keep).contains(x));
                    let i = choose|i: int| 0 <= i < kept(rest, keep).len() && kept(rest, keep)[i] == x;
                    assert(k[i] == kept(rest, keep)[i]);
                    assert(k.contains(x));
                } else {
                    assert(tail == seq![x]);
                    assert(k[k.len() - 1] == x);
                    assert(k.contains(x));
                }
            }
        }
    }
}

/// A descending page reads the matches back to front: the `i`-th of it is the `i`-th from the end of
/// the ascending order, and an ascending page keeps that order
pub proof fn law_descending_reverses_the_order(matched: Seq<Seq<char>>)
    ensures
        directed(matched, false) == matched,
        directed(matched, true).len() == matched.len(),
        forall|i: int| 0 <= i < matched.len() ==> #[trigger] directed(matched, true)[i] == matched[matched.len() - 1 - i],
{
}

/// The keep test of a query, as a predicate on ids
pub open spec fn keep_of(
    visuals: Map<Seq<char>, VisualAssetView>,
    sources: Map<Seq<char>, Seq<char>>,
    keyword: Option<Seq<char>>,
    origin: Option<Seq<char>>,
) -> spec_fn(Seq<char>) -> bool {
    |id: Seq<char>| keeps_spec(visuals, sources, id, keyword, origin)
}

/// The matches in the direction asked for
pub open spec fn directed(matched: Seq<Seq<char>>, descending: bool) -> Seq<Seq<char>> {
    if descending {
        matched.reverse()
    } else {
        matched
    }
}

/// `matched` flipped when the page is read in descending order
pub fn in_direction(matched: Vec<String>, descending: bool) -> (r: Vec<String>)
    ensures
        r.deep_view() == directed(matched.deep_view(), descending),
{
    if !descending {
        return matched;
    }
    let ghost m = matched.deep_view();
    let mut r: Vec<String> = Vec::new();
    let mut i: usize = matched.len();
    while i > 0
        invariant
            i <= matched@.len(),
            m == matched.deep_view(),
            r.deep_view() == m.skip(i as int).reverse(),
        decreases i,
    {
        i = i - 1;
        let ghost prev = r.deep_view();
        r.push(matched[i].clone());
        assert(r.deep_view() =~= prev.push(m[i as int]));
        assert(m.skip(i as int).reverse() =~= m.skip(i + 1).reverse().push(m[i as int]));
    }
    assert(m.skip(0) =~= m);
    r
}

/// The ids that pass both filters, in the direction `filter` asks for. The cached sequences are
/// ascending and a page is sliced out of the matches, so a descending request flips the whole
/// match set rather than the page.
pub fn matched_ids(
    db: &MergedIndex,
    sources: &ModSources,
    ids: &Vec<String>,
    keyword: Option<&str>,
    filter: &Filter,
) -> (r: Vec<String>)
    requires
        db.wf(),
        sources.wf(),
    ensures
        r.deep_view() == directed(
            kept(ids.deep_view(), keep_of(db.visuals_by_id@, sources@, opt_str(keyword), opt_str(filter.origin))),
            filter.descending,
        ),
{
    let ghost keep = keep_of(db.visuals_by_id@, sources@, opt_str(keyword), opt_str(filter.origin));
    let ghost all = ids.deep_view();
    let mut matched: Vec<String> = Vec::new();
    let mut i: usize = 0;
    while i < ids.len()
        invariant
            db.wf(),
            sources.wf(),
            keep == keep_of(db.visuals_by_id@, sources@, opt_str(keyword), opt_str(filter.origin)),
            all == ids.deep_view(),
            i <= all.len(),
            matched.deep_view() == kept(all.take(i as int), keep),
        decreases all.len() - i,
    {
        let ghost prev = matched.deep_view();
        assert(all.take(i + 1).drop_last() =~= all.take(i as int));
        assert(all.take(i + 1).last() == all[i as int]);
        if keeps(db, sources, ids[i].as_str(), keyword, filter.origin) {
            matched.push(ids[i].clone());
            assert(matched.deep_view() =~= prev + seq![all[i as int]]);
        } else {
            assert(prev + Seq::<Seq<char>>::empty() =~= prev);
        }
        i = i + 1;
    }
    assert(all.take(all.len() as int) =~= all);
    in_direction(matched, filter.descending)
}

/// Where a page starts: at `offset`, or at the end when the matches run out before it
pub open spec fn page_start(total: int, offset: int) -> int {
    if offset < total {
        offset
    } else {
        total
    }
}

/// Where a page ends: `limit` rows after its start, or at the end of the matches
pub open spec fn page_end(total: int, offset: int, limit: int) -> int {
    if page_start(total, offset) + limit < total {
        page_start(total, offset) + limit
    } else {
        total
    }
}

/// The GUIDs a page shows: the window of the matches from `offset`, `limit` long
pub open spec fn window(matched: Seq<Seq<char>>, offset: int, limit: int) -> Seq<Seq<char>> {
    matched.subrange(page_start(matched.len() as int, offset), page_end(matched.len() as int, offset, limit))
}

/// The rows of the GUIDs `ids` that name a visual, as list items
pub open spec fn rows_of(
    ids: Seq<Seq<char>>,
    visuals: Map<Seq<char>, VisualAssetView>,
    sources: Map<Seq<char>, Seq<char>>,
) -> Seq<VisualSummaryView>
    decreases ids.len(),
{
    if ids.len() == 0 {
        Seq::empty()
    } else {
        rows_of(ids.drop_last(), visuals, sources) + if visuals.contains_key(ids.last()) {
            seq![summary_spec(visuals[ids.last()], sources)]
        } else {
            Seq::empty()
        }
    }
}

/// The rows of one page: the matched GUIDs of its window, as the list items the frontend renders
pub fn page_items(db: &MergedIndex, sources: &ModSources, window: &[String]) -> (r: Vec<VisualSummary>)
    requires
        db.wf(),
        sources.wf(),
    ensures
        r.deep_view() == rows_of(window@.map_values(|s: String| s@), db.visuals_by_id@, sources@),
{
    let ghost ids = window@.map_values(|s: String| s@);
    let mut r: Vec<VisualSummary> = Vec::new();
    let mut i: usize = 0;
    while i < window.len()
        invariant
            db.wf(),
            sources.wf(),
            ids == window@.map_values(|s: String| s@),
            i <= ids.len(),
            r.deep_view() == rows_of(ids.take(i as int), db.visuals_by_id@, sources@),
        decreases ids.len() - i,
    {
        let ghost prev = r.deep_view();
        assert(ids.take(i + 1).drop_last() =~= ids.take(i as int));
        assert(ids.take(i + 1).last() == window@[i as int]@);
        match db.visuals_by_id.get(window[i].as_str()) {
            Some(visual) => {
                r.push(VisualSummary::of(visual, sources));
                assert(r.deep_view() =~= prev + seq![summary_spec(db.visuals_by_id@[ids[i as int]], sources@)]);
            },
            None => {
                assert(prev + Seq::<VisualSummaryView>::empty() =~= prev);
            },
        }
        i = i + 1;
    }
    assert(ids.take(ids.len() as int) =~= ids);
    r
}

/// A page holds the matches from `offset` on, in order, up to `limit` of them: as many as the limit
/// allows while matches remain, none when the offset is past the end
pub proof fn law_a_page_is_a_slice_of_the_matches(matched: Seq<Seq<char>>, offset: int, limit: int)
    requires
        0 <= offset,
        0 <= limit,
    ensures
        offset < matched.len() && offset + limit <= matched.len() ==> window(matched, offset, limit).len() == limit,
        offset < matched.len() && offset + limit > matched.len() ==> window(matched, offset, limit).len()
            == matched.len() - offset,
        offset >= matched.len() ==> window(matched, offset, limit).len() == 0,
        forall|i: int|
            0 <= i < window(matched, offset, limit).len() ==> #[trigger] window(matched, offset, limit)[i] == matched[offset
                + i],
{
}

/// The window of matches the page shows, as the list rows the frontend renders
pub fn page_of(db: &MergedIndex, sources: &ModSources, matched: &Vec<String>, offset: usize, limit: usize) -> (r: Page<
    VisualSummary,
>)
    requires
        db.wf(),
        sources.wf(),
    ensures
        r.total == matched@.len(),
        r.offset == page_start(matched@.len() as int, offset as int),
        r.items.deep_view() == rows_of(window(matched.deep_view(), offset as int, limit as int), db.visuals_by_id@, sources@),
{
    let total = matched.len();
    let start = if offset < total {
        offset
    } else {
        total
    };
    let end = if limit < total - start {
        start + limit
    } else {
        total
    };
    let items = page_items(db, sources, &matched.as_slice()[start..end]);
    proof {
        let w = matched@.subrange(start as int, end as int).map_values(|s: String| s@);
        assert(w =~= window(matched.deep_view(), offset as int, limit as int));
    }
    Page { items, total, offset: start }
}

/// The keyword of a query, as it is compared: trimmed and lowercased, and none when blank
pub open spec fn folded_keyword(keyword: Option<Seq<char>>) -> Option<Seq<char>> {
    match keyword {
        Some(kw) => if lowercased(trim_ws(kw)).len() > 0 {
            Some(lowercased(trim_ws(kw)))
        } else {
            None
        },
        None => None,
    }
}

/// The keyword of a query, trimmed and folded for comparison; `None` when blank
pub fn fold_keyword(keyword: Option<String>) -> (r: Option<String>)
    ensures
        crate::app::opt_view(r) == folded_keyword(crate::app::opt_view(keyword)),
{
    match keyword {
        Some(kw) => {
            let chars = chars_of(kw.as_str());
            let trimmed = string_of(trim(chars.as_slice()).as_slice());
            let folded = to_lowercase(trimmed.as_str());
            if is_empty_str(folded.as_str()) {
                None
            } else {
                Some(folded)
            }
        },
        None => None,
    }
}

/// One page of the browse list: `ids` in the order picked, filtered by the keyword (trimmed and
/// folded for comparison) and by `filter`, and sliced from `offset` for `limit` rows
pub fn browse_page(
    db: &MergedIndex,
    sources: &ModSources,
    ids: &Vec<String>,
    keyword: Option<String>,
    filter: &Filter,
    offset: usize,
    limit: usize,
) -> (r: Page<VisualSummary>)
    requires
        db.wf(),
        sources.wf(),
    ensures
        ({
            let matched = directed(
                kept(
                    ids.deep_view(),
                    keep_of(
                        db.visuals_by_id@,
                        sources@,
                        folded_keyword(crate::app::opt_view(keyword)),
                        opt_str(filter.origin),
                    ),
                ),
                filter.descending,
            );
            &&& r.total == matched.len()
            &&& r.offset == page_start(matched.len() as int, offset as int)
            &&& r.items.deep_view() == rows_of(window(matched, offset as int, limit as int), db.visuals_by_id@, sources@)
        }),
{
    let folded = fold_keyword(keyword);
    let kw: Option<&str> = match &folded {
        Some(k) => Some(k.as_str()),
        None => None,
    };
    let matched = matched_ids(db, sources, ids, kw, filter);
    page_of(db, sources, &matched, offset, limit)
}

/// Browse visual assets page by page. `keyword` is matched against the asset name or its GUID;
/// `sort` picks the cached order and `descending` the direction; `origin` splits the index in two:
/// "mod" keeps only what a mod provides, "base" only the game's own resources, and anything else
/// keeps both. Refused while no index has been built.
pub fn list_visuals(
    st: &AppState,
    offset: usize,
    limit: usize,
    keyword: Option<String>,
    sort: Option<&str>,
    descending: Option<bool>,
    origin: Option<&str>,
) -> (r: Result<Page<VisualSummary>, String>)
    requires
        st.wf(),
    ensures
        st.merged_db is None ==> (r matches Err(e) && e@ == NOT_BUILT@),
        st.merged_db matches Some(db) ==> (r matches Ok(page) && ({
            let matched = directed(
                kept(
                    order_for(*st, opt_str(sort)),
                    keep_of(
                        db.visuals_by_id@,
                        st.mod_sources@,
                        folded_keyword(crate::app::opt_view(keyword)),
                        opt_str(origin),
                    ),
                ),
                descending == Some(true),
            );
            &&& page.total == matched.len()
            &&& page.offset == page_start(matched.len() as int, offset as int)
            &&& page.items.deep_view() == rows_of(window(matched, offset as int, limit as int), db.visuals_by_id@, st.mod_sources@)
        })),
{
    let db = match &st.merged_db {
        Some(db) => db,
        None => return Err(owned(NOT_BUILT)),
    };
    let ids = ordered_ids(st, sort);
    let filter = Filter::of(origin, descending);
    Ok(browse_page(db, &st.mod_sources, ids, keyword, &filter, offset, limit))
}

/// A keyword is searched for anywhere, not only at the start: a GUID is kept exactly when the
/// keyword occurs at some position of the GUID (ASCII-folded) or of its visual's lowercased name
pub proof fn law_keyword_matches_anywhere(
    visuals: Map<Seq<char>, VisualAssetView>,
    id: Seq<char>,
    kw: Seq<char>,
)
    ensures
        keyword_hit(visuals, id, kw) <==> (exists|i: int|
            0 <= i && i + kw.len() <= ascii_lower_seq(id).len() && #[trigger] ascii_lower_seq(id).subrange(
                i,
                i + kw.len(),
            ) == kw) || (visuals.contains_key(id) && exists|i: int|
            0 <= i && i + kw.len() <= lowercased(visuals[id].name).len() && #[trigger] lowercased(
                visuals[id].name,
            ).subrange(i, i + kw.len()) == kw),
{
    let f = ascii_lower_seq(id);
    if contains_seq(f, kw) {
        let i = choose|i: int| occurs_at(f, kw, i);
        assert(f.subrange(i, i + kw.len()) == kw);
    }
    if exists|i: int| 0 <= i && i + kw.len() <= f.len() && #[trigger] f.subrange(i, i + kw.len()) == kw {
        let i = choose|i: int| 0 <= i && i + kw.len() <= f.len() && #[trigger] f.subrange(i, i + kw.len()) == kw;
        assert(occurs_at(f, kw, i));
    }
    if visuals.contains_key(id) {
        let n = lowercased(visuals[id].name);
        if contains_seq(n, kw) {
            let i = choose|i: int| occurs_at(n, kw, i);
            assert(n.subrange(i, i + kw.len()) == kw);
        }
        if exists|i: int| 0 <= i && i + kw.len() <= n.len() && #[trigger] n.subrange(i, i + kw.len()) == kw {
            let i = choose|i: int| 0 <= i && i + kw.len() <= n.len() && #[trigger] n.subrange(i, i + kw.len()) == kw;
            assert(occurs_at(n, kw, i));
        }
    }
}

/// A search is blind to the case of its keyword: two ASCII keywords alike up to letter case are
/// compared as one
pub proof fn law_keyword_case_does_not_matter(k1: Seq<char>, k2: Seq<char>)
    requires
        is_ascii_seq(k1),
        is_ascii_seq(k2),
        ascii_lower_seq(k1) == ascii_lower_seq(k2),
    ensures
        folded_keyword(Some(k1)) == folded_keyword(Some(k2)),
{
    let ws = |c: char| is_whitespace_char(c);
    assert forall|c: char| #[trigger] ws(ascii_lower_char(c)) == ws(c) by {}
    lemma_trim_lowered(k1, ws);
    lemma_trim_lowered(k2, ws);
    lemma_trimmed_ascii_lowered(k1);
    lemma_trimmed_ascii_lowered(k2);
}

/// The trim of an ASCII keyword is ASCII, so its Unicode lowercase is its ASCII lowercase
proof fn lemma_trimmed_ascii_lowered(k: Seq<char>)
    requires
        is_ascii_seq(k),
    ensures
        lowercased(trim_ws(k)) == ascii_lower_seq(trim_ws(k)),
{
    let ws = |c: char| is_whitespace_char(c);
    let a = lemma_trim_stretch(k, ws);
    let t = trim_ws(k);
    assert forall|i: int| 0 <= i < t.len() implies (#[trigger] t[i] as u32) < 128 by {
        assert(t[i] == k[a + i]);
    }
}

/// Paging never skips or repeats a match: the page at `offset` of `first` rows followed by the page
/// right after it, of `second` rows, is the page at `offset` of `first + second` rows.
pub proof fn law_pages_follow_on(matched: Seq<Seq<char>>, offset: int, first: int, second: int)
    requires
        0 <= offset,
        0 <= first,
        0 <= second,
    ensures
        window(matched, offset, first) + window(matched, offset + first, second) == window(
            matched,
            offset,
            first + second,
        ),
{
    let n = matched.len() as int;
    let a = page_start(n, offset);
    let b = page_end(n, offset, first);
    assert(page_start(n, offset + first) == b);
    assert(page_end(n, offset + first, second) == page_end(n, offset, first + second));
    assert(matched.subrange(a, b) + matched.subrange(b, page_end(n, offset, first + second)) =~= matched.subrange(
        a,
        page_end(n, offset, first + second),
    ));
}

/// The "mod" and "base" splits part the index in two: every GUID passes exactly one of them.
pub proof fn law_origin_splits_in_two(sources: Map<Seq<char>, Seq<char>>, id: Seq<char>)
    ensures
        origin_ok(sources, id, Some("mod"@)) != origin_ok(sources, id, Some("base"@)),
        origin_ok(sources, id, None),
{
    reveal_strlit("mod");
    reveal_strlit("base");
    assert("mod"@ != "base"@) by {
        assert("mod"@[0] != "base"@[0]);
    }
}

/// A list of GUIDs that all name a visual gets one row per GUID, in order
pub proof fn lemma_rows_of_known(
    ids: Seq<Seq<char>>,
    visuals: Map<Seq<char>, VisualAssetView>,
    sources: Map<Seq<char>, Seq<char>>,
)
    requires
        forall|i: int| 0 <= i < ids.len() ==> visuals.contains_key(#[trigger] ids[i]),
    ensures
        rows_of(ids, visuals, sources) == ids.map_values(|id: Seq<char>| summary_spec(visuals[id], sources)),
    decreases ids.len(),
{
    if ids.len() > 0 {
        let rest = ids.drop_last();
        assert forall|i: int| 0 <= i < rest.len() implies visuals.contains_key(#[trigger] rest[i]) by {
            assert(rest[i] == ids[i]);
        }
        lemma_rows_of_known(rest, visuals, sources);
        assert(visuals.contains_key(ids[ids.len() - 1]));
        assert(rows_of(ids, visuals, sources) =~= ids.map_values(|id: Seq<char>| summary_spec(visuals[id], sources)));
    }
}

/// The matches of `ids` are among `ids`
proof fn lemma_kept_within(ids: Seq<Seq<char>>, keep: spec_fn(Seq<char>) -> bool)
    ensures
        forall|i: int| 0 <= i < kept(ids, keep).len() ==> ids.contains(#[trigger] kept(ids, keep)[i]),
    decreases ids.len(),
{
    if ids.len() > 0 {
        let rest = ids.drop_last();
        lemma_kept_within(rest, keep);
        let k = kept(ids, keep);
        assert forall|i: int| 0 <= i < k.len() implies ids.contains(#[trigger] k[i]) by {
            if i < kept(rest, keep).len() {
                assert(k[i] == kept(rest, keep)[i]);
                let j = choose|j: int| 0 <= j < rest.len() && rest[j] == k[i];
                assert(ids[j] == k[i]);
            } else {
                assert(k[i] == ids[ids.len() - 1]);
            }
        }
    }
}

/// Every GUID a page of the browse list shows gets its row: no match is dropped between the
/// window and the rows, so a page shows as many rows as its window holds matches.
pub proof fn law_every_match_has_a_row(
    st: AppState,
    sort: Option<Seq<char>>,
    keyword: Option<Seq<char>>,
    origin: Option<Seq<char>>,
    descending: bool,
    offset: int,
    limit: int,
)
    requires
        st.wf(),
        st.merged_db is Some,
        0 <= offset,
        0 <= limit,
    ensures
        ({
            let db = st.merged_db->0;
            let matched = directed(
                kept(order_for(st, sort), keep_of(db.visuals_by_id@, st.mod_sources@, keyword, origin)),
                descending,
            );
            rows_of(window(matched, offset, limit), db.visuals_by_id@, st.mod_sources@).len() == window(
                matched,
                offset,
                limit,
            ).len()
        }),
{
    let db = st.merged_db->0;
    let visuals = db.visuals_by_id@;
    let ids = order_for(st, sort);
    let keep = keep_of(visuals, st.mod_sources@, keyword, origin);
    let k = kept(ids, keep);
    let matched = directed(k, descending);
    let w = window(matched, offset, limit);
    assert forall|i: int| 0 <= i < ids.len() implies visuals.contains_key(#[trigger] ids[i]) by {}
    lemma_kept_within(ids, keep);
    assert forall|i: int| 0 <= i < w.len() implies visuals.contains_key(#[trigger] w[i]) by {
        let start = page_start(matched.len() as int, offset);
        let end = page_end(matched.len() as int, offset, limit);
        assert(0 <= start <= end <= matched.len());
        assert(w[i] == matched[start + i]);
        let j = if descending { k.len() - 1 - (start + i) } else { start + i };
        assert(0 <= j < k.len());
        assert(w[i] == k[j]);
        assert(ids.contains(k[j]));
        let p = choose|p: int| 0 <= p < ids.len() && ids[p] == k[j];
    }
    lemma_rows_of_known(w, visuals, st.mod_sources@);
}

} // verus!
