//! Staging the page files of a virtual texture: which archive entries the extractor is handed —
//! the page file and, in likelihood order, the GTS candidates that may cover it — and what they are
//! called once staged.

use vstd::prelude::*;

use crate::archives::{pak_file_name, Pak};
use crate::paths::{dir_of, dir_of_spec, file_name, file_name_spec, file_stem, file_stem_spec};
use crate::sort::{span, within};
use crate::text::{chars_eq, chars_of, concat, ends_with, has_prefix, has_suffix, lowercased, starts_with, string_of, to_lowercase};
use vstd::utf8::encode_utf8;

verus! {

broadcast use {vstd::seq_lib::group_to_multiset_ensures, vstd::multiset::group_multiset_axioms};

/// The files staged for one page file, both already on disk: the page file (`.gtp`), named after
/// its archive entry, and the candidate GTS files in likelihood order. Normally the first candidate
/// hits: a page file belongs to exactly one tile set, and every page file of that set shares its GTS.
pub struct StagedSources {
    pub gtp: String,
    pub gts_candidates: Vec<String>,
}

/// The name a staged copy of the archive entry `rel` gets: its file name; `None` when the entry
/// names no file
pub fn staged_name(rel: &str) -> (r: Option<String>)
    ensures
        crate::app::opt_view(r) == file_name_spec(rel@),
{
    let chars = chars_of(rel);
    match file_name(chars.as_slice()) {
        Some(name) => Some(string_of(name.as_slice())),
        None => None,
    }
}

/// What a tile set whose GTS could not be staged reports
pub fn missing_gts_error(gts_rel: &str) -> (r: String)
    ensures
        r@ == gts_rel@ + " not found in "@ + "VirtualTextures.pak"@,
{
    let a = chars_of(gts_rel);
    let b = chars_of(" not found in ");
    let c = chars_of(Pak::VirtualTextures.file_name());
    let ab = concat(a.as_slice(), b.as_slice());
    string_of(concat(ab.as_slice(), c.as_slice()).as_slice())
}

/// The GTS candidates a page file is extracted against: the GTS derived from its name alone when
/// that one could be staged, and otherwise the fallbacks of its directory that could
pub fn gts_candidates(derived_staged: Option<String>, fallbacks_staged: Vec<String>) -> (r: Vec<String>)
    ensures
        match derived_staged {
            Some(d) => r@ == seq![d],
            None => r@ == fallbacks_staged@,
        },
{
    match derived_staged {
        Some(d) => vec![d],
        None => fallbacks_staged,
    }
}

/// The staged candidates, or the error naming the GTS that could not be found
pub fn finish_candidates(gts_rel: String, staged: Vec<String>) -> (r: Result<Vec<String>, String>)
    ensures
        staged@.len() == 0 ==> (r matches Err(e) && e@ == gts_rel@ + " not found in "@ + "VirtualTextures.pak"@),
        staged@.len() > 0 ==> r == Ok::<Vec<String>, String>(staged),
{
    if staged.len() == 0 {
        return Err(missing_gts_error(gts_rel.as_str()));
    }
    Ok(staged)
}

/// File stem of an archive path, lower case; empty when it has none
pub open spec fn stem_lower(rel: Seq<char>) -> Seq<char> {
    lowercased(
        match file_stem_spec(rel) {
            Some(s) => s,
            None => Seq::empty(),
        },
    )
}

/// File stem of an archive path, lower case; empty when it has none
pub fn file_stem_lowercase(rel: &str) -> (r: String)
    ensures
        r@ == stem_lower(rel@),
{
    let chars = chars_of(rel);
    let stem = match file_stem(chars.as_slice()) {
        Some(s) => string_of(s.as_slice()),
        None => String::new(),
    };
    to_lowercase(stem.as_str())
}

/// Parent directory of an archive path, lower case; empty when it has none
pub fn parent_dir_lowercase(rel: &str) -> (r: String)
    ensures
        r@ == lowercased(dir_of_spec(rel@)),
{
    let chars = chars_of(rel);
    let dir = dir_of(chars.as_slice());
    to_lowercase(string_of(dir.as_slice()).as_str())
}

/// Whether `rel` is a `.gts` in the (lower case) directory `dir`
pub open spec fn gts_in_dir(rel: Seq<char>, dir: Seq<char>) -> bool {
    has_suffix(lowercased(rel), ".gts"@) && lowercased(dir_of_spec(rel)) == dir
}

/// Whether `rel` is a `.gts` in `dir`, both compared lower case
pub fn is_gts_in_dir(rel: &str, dir: &str) -> (r: bool)
    ensures
        r == gts_in_dir(rel@, dir@),
{
    proof {
        reveal_strlit(".gts");
    }
    let lower = to_lowercase(rel);
    let lower_chars = chars_of(lower.as_str());
    let ext = chars_of(".gts");
    if !ends_with(lower_chars.as_slice(), ext.as_slice()) {
        return false;
    }
    let parent = parent_dir_lowercase(rel);
    let p = chars_of(parent.as_str());
    let d = chars_of(dir);
    chars_eq(p.as_slice(), d.as_slice())
}

/// Whether the archive entry `rel` could be the GTS of the page file whose lower case stem is
/// `gtp_stem` in the lower case directory `gtp_dir`: a `.gts` beside it, named as a prefix of it
pub open spec fn is_fallback(rel: Seq<char>, gtp_stem: Seq<char>, gtp_dir: Seq<char>) -> bool {
    gts_in_dir(rel, gtp_dir) && stem_lower(rel).len() > 0 && has_prefix(gtp_stem, stem_lower(rel))
}

/// The fallback candidates among `listing`, in listing order
pub open spec fn fallbacks_in(listing: Seq<Seq<char>>, gtp_stem: Seq<char>, gtp_dir: Seq<char>) -> Seq<Seq<char>>
    decreases listing.len(),
{
    if listing.len() == 0 {
        Seq::empty()
    } else {
        fallbacks_in(listing.drop_last(), gtp_stem, gtp_dir) + if is_fallback(listing.last(), gtp_stem, gtp_dir) {
            seq![listing.last()]
        } else {
            Seq::empty()
        }
    }
}

/// `a` goes before `b`: longer first, and the earlier of two of one length first
pub open spec fn longer_first(lens: Seq<usize>, a: usize, b: usize) -> bool {
    lens[a as int] > lens[b as int] || (lens[a as int] == lens[b as int] && a < b)
}

/// The positions `idx` are in `longer_first` order
pub open spec fn ranked(idx: Seq<usize>, lens: Seq<usize>) -> bool {
    forall|a: int, b: int| 0 <= a < b < idx.len() ==> longer_first(lens, #[trigger] idx[a], #[trigger] idx[b])
}

/// Every position of `lens`, the longest first and positions of one length in their own order:
/// `sort_by_key` on the length, descending, which is stable
pub fn longest_first(lens: &Vec<usize>) -> (r: Vec<usize>)
    ensures
        r@.to_multiset() == span(0, lens@.len() as int).to_multiset(),
        within(r@, 0, lens@.len() as int),
        ranked(r@, lens@),
{
    let mut out: Vec<usize> = Vec::new();
    let mut j: usize = 0;
    assert(span(0, 0) =~= Seq::<usize>::empty());
    while j < lens.len()
        invariant
            j <= lens@.len(),
            out@.to_multiset() == span(0, j as int).to_multiset(),
            within(out@, 0, j as int),
            ranked(out@, lens@),
        decreases lens@.len() - j,
    {
        let mut k: usize = 0;
        while k < out.len() && lens[out[k]] >= lens[j]
            invariant
                k <= out@.len(),
                j < lens@.len(),
                within(out@, 0, j as int),
                forall|a: int| 0 <= a < k ==> lens@[#[trigger] out@[a] as int] >= lens@[j as int],
            decreases out@.len() - k,
        {
            k = k + 1;
        }
        let ghost before = out@;
        proof {
            assert forall|a: int| k <= a < before.len() implies lens@[#[trigger] before[a] as int] < lens@[j as int] by {
                if a > k {
                    assert(longer_first(lens@, before[k as int], before[a]));
                }
            }
        }
        out.insert(k, j);
        proof {
            assert(out@ == before.insert(k as int, j));
            assert(span(0, j + 1) =~= span(0, j as int).push(j));
            assert forall|a: int, b: int| 0 <= a < b < out@.len() implies longer_first(lens@, #[trigger] out@[a], #[trigger] out@[b]) by {
                if a < k as int && b < k as int {
                    assert(out@[a] == before[a] && out@[b] == before[b]);
                } else if a < k as int && b == k as int {
                    assert(out@[a] == before[a]);
                } else if a < k as int && b > k as int {
                    assert(out@[a] == before[a] && out@[b] == before[b - 1]);
                } else if a == k as int {
                    assert(out@[b] == before[b - 1]);
                } else {
                    assert(out@[a] == before[a - 1] && out@[b] == before[b - 1]);
                }
            }
        }
        j = j + 1;
    }
    out
}

/// The names at the positions `order`, in that order
pub open spec fn picked_names(order: Seq<usize>, names: Seq<Seq<char>>) -> Seq<Seq<char>> {
    order.map_values(|p: usize| names[p as int])
}

/// The length in bytes of each name of `names`
pub open spec fn byte_lens(names: Seq<Seq<char>>) -> Seq<usize> {
    names.map_values(|s: Seq<char>| encode_utf8(s).len() as usize)
}

/// `.gts` files of the listing that could cover the page file `gtp_rel`: in its own directory,
/// and named as a prefix of it (tile sets do not always share the index spelling of their page
/// files) — the longest name first, since the closer a name is to the page file's, the more likely
/// it is the one that accepts it
pub fn gts_fallbacks(listing: &Vec<String>, gtp_rel: &str) -> (r: Vec<String>)
    ensures
        ({
            let found = fallbacks_in(listing.deep_view(), stem_lower(gtp_rel@), lowercased(dir_of_spec(gtp_rel@)));
            &&& r.deep_view().to_multiset() == found.to_multiset()
            &&& forall|a: int, b: int|
                0 <= a < b < r@.len() ==> encode_utf8(#[trigger] r.deep_view()[a]).len() >= encode_utf8(
                    #[trigger] r.deep_view()[b],
                ).len()
            &&& exists|order: Seq<usize>|
                #![trigger picked_names(order, found)]
                {
                    &&& order.to_multiset() == span(0, found.len() as int).to_multiset()
                    &&& within(order, 0, found.len() as int)
                    &&& ranked(order, byte_lens(found))
                    &&& r.deep_view() == picked_names(order, found)
                }
        }),
{
    let gtp_stem = file_stem_lowercase(gtp_rel);
    let gtp_dir = parent_dir_lowercase(gtp_rel);
    let ghost ls = listing.deep_view();
    let ghost found_spec = fallbacks_in(ls, gtp_stem@, gtp_dir@);
    let stem_chars = chars_of(gtp_stem.as_str());
    let mut found: Vec<String> = Vec::new();
    let mut i: usize = 0;
    assert(ls.take(0) =~= Seq::<Seq<char>>::empty());
    while i < listing.len()
        invariant
            i <= ls.len(),
            ls == listing.deep_view(),
            stem_chars@ == gtp_stem@,
            found.deep_view() == fallbacks_in(ls.take(i as int), gtp_stem@, gtp_dir@),
        decreases ls.len() - i,
    {
        let rel = listing[i].as_str();
        let ghost prev = found.deep_view();
        assert(ls.take(i + 1).drop_last() =~= ls.take(i as int));
        assert(ls.take(i + 1).last() == rel@);
        let mut keep = false;
        if is_gts_in_dir(rel, gtp_dir.as_str()) {
            let stem = file_stem_lowercase(rel);
            let sc = chars_of(stem.as_str());
            if sc.len() > 0 && starts_with(stem_chars.as_slice(), sc.as_slice()) {
                keep = true;
            }
        }
        if keep {
            found.push(listing[i].clone());
            assert(found.deep_view() =~= prev + seq![rel@]);
        } else {
            assert(prev + Seq::<Seq<char>>::empty() =~= prev);
        }
        i = i + 1;
    }
    assert(ls.take(ls.len() as int) =~= ls);
    let mut lens: Vec<usize> = Vec::new();
    let mut k: usize = 0;
    while k < found.len()
        invariant
            k <= found@.len(),
            lens@.len() == k,
            forall|j: int| 0 <= j < k ==> #[trigger] lens@[j] == encode_utf8(found@[j]@).len(),
        decreases found@.len() - k,
    {
        let bytes = found[k].as_str().as_bytes();
        lens.push(bytes.len());
        k = k + 1;
    }
    let order = longest_first(&lens);
    let mut r: Vec<String> = Vec::new();
    let mut m: usize = 0;
    while m < order.len()
        invariant
            m <= order@.len(),
            lens@.len() == found@.len(),
            within(order@, 0, found@.len() as int),
            r@.len() == m,
            forall|j: int| 0 <= j < m ==> #[trigger] r.deep_view()[j] == found.deep_view()[order@[j] as int],
        decreases order@.len() - m,
    {
        let ghost prev = r.deep_view();
        r.push(found[order[m]].clone());
        assert(r.deep_view() =~= prev.push(found.deep_view()[order@[m as int] as int]));
        m = m + 1;
    }
    proof {
        let fv = found.deep_view();
        assert(r.deep_view() =~= order@.map_values(|p: usize| fv[p as int]));
        lemma_permuted(order@, fv);
        assert forall|a: int, b: int| 0 <= a < b < r@.len() implies encode_utf8(#[trigger] r.deep_view()[a]).len() >= encode_utf8(
            #[trigger] r.deep_view()[b],
        ).len() by {
            assert(longer_first(lens@, order@[a], order@[b]));
        }
        assert(lens@ =~= byte_lens(fv));
        assert(r.deep_view() == picked_names(order@, fv));
    }
    r
}

/// Picking the elements of `s` in an order that is a permutation of its positions gives the same
/// multiset as `s`
proof fn lemma_permuted(order: Seq<usize>, s: Seq<Seq<char>>)
    requires
        s.len() <= usize::MAX,
        order.to_multiset() == span(0, s.len() as int).to_multiset(),
        within(order, 0, s.len() as int),
    ensures
        order.map_values(|p: usize| s[p as int]).to_multiset() == s.to_multiset(),
    decreases s.len(),
{
    if s.len() == 0 {
        assert(order.len() == span(0, 0).len()) by {
            assert(order.to_multiset().len() == span(0, 0).to_multiset().len());
        }
        assert(order.map_values(|p: usize| s[p as int]) =~= s);
    } else {
        let n = s.len() - 1;
        let last = n as usize;
        assert(span(0, s.len() as int) =~= span(0, n).push(last));
        assert(span(0, s.len() as int)[n] == last);
        assert(span(0, s.len() as int).contains(last));
        assert(order.to_multiset().count(last) > 0);
        let i = choose|i: int| 0 <= i < order.len() && order[i] == last;
        let rest = order.remove(i);
        assert(rest.to_multiset() == span(0, n).to_multiset()) by {
            assert(rest.to_multiset() =~= order.to_multiset().remove(last));
            assert(span(0, n).to_multiset() =~= span(0, s.len() as int).to_multiset().remove(last));
        }
        assert forall|k: int| 0 <= k < rest.len() implies 0 <= #[trigger] rest[k] < n by {
            if rest[k] == last {
                assert(rest.to_multiset().count(last) > 0);
                assert(span(0, n).contains(last));
                let j = choose|j: int| 0 <= j < span(0, n).len() && span(0, n)[j] == last;
            }
        }
        let t = s.drop_last();
        lemma_permuted(rest, t);
        let picked = order.map_values(|p: usize| s[p as int]);
        let picked_rest = rest.map_values(|p: usize| t[p as int]);
        assert(picked_rest =~= picked.remove(i));
        assert(picked.remove(i).to_multiset() =~= picked.to_multiset().remove(picked[i]));
        assert(picked[i] == s[n]);
        assert(s =~= t.push(s[n]));
        assert(picked.to_multiset().count(s[n]) > 0) by {
            assert(picked.contains(s[n]));
        }
    }
}

} // verus!
