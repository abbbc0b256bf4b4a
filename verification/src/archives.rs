//! The game's archives by resource kind, and how an archive entry is looked up.
//!
//! Each of the game's four archives holds one kind of resource — a GR2 comes out of `Models.pak`, a
//! DDS out of `Textures.pak`, a material template out of `Materials.pak` and a virtual texture page
//! file out of `VirtualTextures.pak` — so a read names the kind it expects instead of searching.
//! Mod archives are searched before the game's, the last one first: a mod ships replacements, and
//! a later mod takes precedence over the game and over the mods before it.

use vstd::prelude::*;

use crate::cache::{forward_slashes, lemma_slashed_alike, same_ascii_path};
use crate::order::{deep, key_lt, lemma_key_irreflexive, lex_lt};
use crate::sort::{keys_view, ordered_by, sort_by_keys, within};
use crate::text::{
    ascii_lower_seq, chars_eq, chars_of, eq_ignore_ascii_case, eq_ignore_ascii_case_seq, is_ascii_seq, last_pos, lowercased, owned,
    rfind, slice_range, str_eq, string_of, to_lowercase,
};

verus! {

/// The game's archives; the variant is the resource kind
#[derive(Clone, Copy, PartialEq, Eq, Structural, Debug, Hash)]
pub enum Pak {
    /// GR2 meshes
    Models,
    /// DDS textures
    Textures,
    /// Material templates (`.lsf`) materials are derived from
    Materials,
    /// Virtual texture page files (`.gtp`) and the tile set metadata (`.gts`) beside them
    VirtualTextures,
}

/// File name of an archive inside the game's data directory, as a value
pub open spec fn pak_file_name_spec(pak: Pak) -> Seq<char> {
    match pak {
        Pak::Models => "Models.pak"@,
        Pak::Textures => "Textures.pak"@,
        Pak::Materials => "Materials.pak"@,
        Pak::VirtualTextures => "VirtualTextures.pak"@,
    }
}

impl Pak {
    /// File name inside the game's data directory
    pub fn file_name(self) -> (r: &'static str)
        ensures
            r@ == pak_file_name_spec(self),
    {
        match self {
            Pak::Models => "Models.pak",
            Pak::Textures => "Textures.pak",
            Pak::Materials => "Materials.pak",
            Pak::VirtualTextures => "VirtualTextures.pak",
        }
    }
}

/// File name of an archive inside the game's data directory
pub fn pak_file_name(pak: Pak) -> (r: &'static str)
    ensures
        r@ == pak_file_name_spec(pak),
{
    pak.file_name()
}

/// A path as it is compared: `\` turned into `/` (separators inside the archives are inconsistent),
/// then lowercased
pub open spec fn normalized_path(path: Seq<char>) -> Seq<char> {
    lowercased(crate::cache::forward_slashes(path))
}

/// Normalize a path for comparison: one separator, one case
pub fn normalize_path(path: &str) -> (r: String)
    ensures
        r@ == normalized_path(path@),
{
    let chars = chars_of(path);
    let slashed = crate::cache::to_forward_slashes(chars.as_slice());
    to_lowercase(string_of(slashed.as_slice()).as_str())
}

/// Position of the first entry of `names` whose normalized path is `want`
pub open spec fn entry_index(names: Seq<Seq<char>>, want: Seq<char>) -> Option<int> {
    if exists|i: int| 0 <= i < names.len() && normalized_path(#[trigger] names[i]) == want {
        Some(
            choose|i: int|
                0 <= i < names.len() && normalized_path(#[trigger] names[i]) == want && forall|j: int|
                    0 <= j < i ==> normalized_path(#[trigger] names[j]) != want,
        )
    } else {
        None
    }
}

/// The entry of a file table whose path matches `want` (already normalized), compared through
/// `normalize_path` so separators and casing do not have to agree with the archive
pub fn find_entry(names: &Vec<String>, want: &str) -> (r: Option<usize>)
    ensures
        match r {
            Some(i) => i < names@.len() && entry_index(names.deep_view(), want@) == Some(i as int),
            None => entry_index(names.deep_view(), want@) is None,
        },
{
    let ghost ns = names.deep_view();
    let w = chars_of(want);
    let mut i: usize = 0;
    while i < names.len()
        invariant
            i <= ns.len(),
            ns == names.deep_view(),
            w@ == want@,
            forall|j: int| 0 <= j < i ==> normalized_path(#[trigger] ns[j]) != want@,
        decreases ns.len() - i,
    {
        let normalized = normalize_path(names[i].as_str());
        let n = chars_of(normalized.as_str());
        if chars_eq(n.as_slice(), w.as_slice()) {
            proof {
                assert(normalized_path(ns[i as int]) == want@);
                let x = choose|x: int|
                    0 <= x < ns.len() && normalized_path(#[trigger] ns[x]) == want@ && forall|j: int|
                        0 <= j < x ==> normalized_path(#[trigger] ns[j]) != want@;
                if x < i {
                    assert(normalized_path(ns[x]) != want@);
                } else if x > i {
                    assert(normalized_path(ns[i as int]) != want@);
                }
            }
            return Some(i);
        }
        i = i + 1;
    }
    None
}

/// Two ASCII spellings of one archive path, alike up to letter case and separators, compare as one
pub proof fn law_spellings_compare_alike(a: Seq<char>, b: Seq<char>)
    requires
        same_ascii_path(a, b),
    ensures
        normalized_path(a) == normalized_path(b),
{
    lemma_slashed_alike(a, b);
}

/// The entry a lookup finds does not depend on how the file table spells its paths: two tables
/// whose paths are, entry by entry, ASCII spellings of one path give the same answer
pub proof fn law_lookup_ignores_stored_spelling(ns1: Seq<Seq<char>>, ns2: Seq<Seq<char>>, want: Seq<char>)
    requires
        ns1.len() == ns2.len(),
        forall|i: int| 0 <= i < ns1.len() ==> same_ascii_path(#[trigger] ns1[i], ns2[i]),
    ensures
        entry_index(ns1, want) == entry_index(ns2, want),
{
    assert forall|i: int| 0 <= i < ns1.len() implies normalized_path(#[trigger] ns1[i]) == normalized_path(ns2[i]) by {
        lemma_slashed_alike(ns1[i], ns2[i]);
    }
    if exists|i: int| 0 <= i < ns1.len() && normalized_path(#[trigger] ns1[i]) == want {
        let x1 = choose|i: int|
            0 <= i < ns1.len() && normalized_path(#[trigger] ns1[i]) == want && forall|j: int|
                0 <= j < i ==> normalized_path(#[trigger] ns1[j]) != want;
        let w = choose|i: int| 0 <= i < ns1.len() && normalized_path(#[trigger] ns1[i]) == want;
        lemma_first_match(ns1, want, w);
        assert(normalized_path(ns1[x1]) == normalized_path(ns2[x1]));
        let x2 = choose|i: int|
            0 <= i < ns2.len() && normalized_path(#[trigger] ns2[i]) == want && forall|j: int|
                0 <= j < i ==> normalized_path(#[trigger] ns2[j]) != want;
        lemma_first_match(ns2, want, x1);
        assert(normalized_path(ns1[x2]) == normalized_path(ns2[x2]));
        if x1 < x2 {
            assert(normalized_path(ns2[x1]) != want);
        } else if x2 < x1 {
            assert(normalized_path(ns1[x2]) != want);
        }
    } else {
        assert forall|i: int| 0 <= i < ns2.len() implies normalized_path(#[trigger] ns2[i]) != want by {
            assert(normalized_path(ns1[i]) == normalized_path(ns2[i]));
        }
    }
}

/// Where some entry matches, a first one does
proof fn lemma_first_match(ns: Seq<Seq<char>>, want: Seq<char>, w: int)
    requires
        0 <= w < ns.len(),
        normalized_path(ns[w]) == want,
    ensures
        exists|i: int|
            0 <= i < ns.len() && normalized_path(#[trigger] ns[i]) == want && forall|j: int|
                0 <= j < i ==> normalized_path(#[trigger] ns[j]) != want,
    decreases w,
{
    if exists|j: int| 0 <= j < w && normalized_path(#[trigger] ns[j]) == want {
        let j = choose|j: int| 0 <= j < w && normalized_path(#[trigger] ns[j]) == want;
        lemma_first_match(ns, want, j);
    } else {
        assert(0 <= w < ns.len() && normalized_path(ns[w]) == want && forall|j: int|
            0 <= j < w ==> normalized_path(#[trigger] ns[j]) != want);
    }
}

/// An ASCII archive path once normalized spells every separator `/` and is settled: normalizing
/// it again changes nothing
pub proof fn law_normalized_path_is_settled(path: Seq<char>)
    requires
        is_ascii_seq(path),
    ensures
        !normalized_path(path).contains('\\'),
        normalized_path(normalized_path(path)) == normalized_path(path),
{
    let f = forward_slashes(path);
    lemma_slashed_alike(path, path);
    let n = ascii_lower_seq(f);
    assert(normalized_path(path) == n);
    assert forall|i: int| 0 <= i < n.len() implies n[i] != '\\' && (#[trigger] n[i] as u32) < 128 by {
        assert(f[i] != '\\');
        assert(f[i] as u32 <= 127);
    }
    assert(forward_slashes(n) =~= n);
    assert(ascii_lower_seq(n) =~= n);
}

/// Whether a directory entry named `name` is an archive: its extension (what follows its last dot,
/// when that dot does not lead the name, as `Path::extension` reads it) is `pak` in any case
pub open spec fn is_pak_name(name: Seq<char>) -> bool {
    match last_pos(name, '.') {
        Some(d) => d > 0 && eq_ignore_ascii_case_seq(name.skip(d + 1), "pak"@),
        None => false,
    }
}

/// Whether a directory entry named `name` is an archive
pub fn is_pak_file(name: &str) -> (r: bool)
    ensures
        r == is_pak_name(name@),
{
    let c = chars_of(name);
    let pak = chars_of("pak");
    match rfind(c.as_slice(), '.') {
        Some(d) => {
            if d == 0 {
                return false;
            }
            let ext = slice_range(c.as_slice(), d + 1, c.len());
            assert(c@.subrange(d + 1, c@.len() as int) =~= c@.skip(d + 1));
            eq_ignore_ascii_case(ext.as_slice(), pak.as_slice())
        },
        None => false,
    }
}

/// The archives among the entries of the mods directory, by name: each once, in ascending order of
/// its characters (the order of their UTF-8 bytes, which is how the paths of one directory sort).
/// The order decides which mod wins, since the pool reads them last first.
pub fn pak_names(names: &Vec<String>) -> (r: Vec<String>)
    ensures
        forall|i: int, j: int| 0 <= i < j < r@.len() ==> lex_lt(#[trigger] r@[i]@, #[trigger] r@[j]@),
        forall|s: Seq<char>| #[trigger] r.deep_view().contains(s) <==> (names.deep_view().contains(s) && is_pak_name(s)),
{
    let ghost ns = names.deep_view();
    let mut kept: Vec<String> = Vec::new();
    let mut i: usize = 0;
    while i < names.len()
        invariant
            i <= ns.len(),
            ns == names.deep_view(),
            forall|a: int, b: int| 0 <= a < kept@.len() && 0 <= b < kept@.len() && a != b ==> kept@[a]@ != kept@[b]@,
            forall|s: Seq<char>|
                #[trigger] kept.deep_view().contains(s) <==> (ns.take(i as int).contains(s) && is_pak_name(s)),
        decreases ns.len() - i,
    {
        let name = names[i].as_str();
        let ghost before = kept.deep_view();
        assert(ns.take(i + 1) =~= ns.take(i as int).push(name@));
        if is_pak_file(name) {
            let mut seen = false;
            let mut k: usize = 0;
            while k < kept.len()
                invariant
                    k <= kept@.len(),
                    seen <==> exists|x: int| 0 <= x < k && kept@[x]@ == name@,
                decreases kept@.len() - k,
            {
                if str_eq(kept[k].as_str(), name) {
                    seen = true;
                }
                k = k + 1;
            }
            if !seen {
                kept.push(owned(name));
                assert(kept.deep_view() =~= before.push(name@));
                assert forall|s: Seq<char>| #[trigger] kept.deep_view().contains(s) <==> (ns.take(i + 1).contains(
                    s,
                ) && is_pak_name(s)) by {
                    if kept.deep_view().contains(s) && s != name@ {
                        let x = choose|x: int| 0 <= x < kept.deep_view().len() && #[trigger] kept.deep_view()[x] == s;
                        assert(before[x] == s);
                        assert(before.contains(s));
                    }
                    if ns.take(i + 1).contains(s) && is_pak_name(s) && s != name@ {
                        let x = choose|x: int| 0 <= x < ns.take(i + 1).len() && #[trigger] ns.take(i + 1)[x] == s;
                        assert(ns.take(i as int)[x] == s);
                        assert(before.contains(s));
                        let y = choose|y: int| 0 <= y < before.len() && #[trigger] before[y] == s;
                        assert(kept.deep_view()[y] == s);
                    }
                    if s == name@ {
                        assert(kept.deep_view()[kept.deep_view().len() - 1] == s);
                        assert(ns.take(i + 1)[i as int] == s);
                    }
                }
            } else {
                assert forall|s: Seq<char>| #[trigger] kept.deep_view().contains(s) <==> (ns.take(i + 1).contains(
                    s,
                ) && is_pak_name(s)) by {
                    if s == name@ {
                        let x = choose|x: int| 0 <= x < k && kept@[x]@ == name@;
                        assert(kept.deep_view()[x] == s);
                        assert(ns.take(i + 1)[i as int] == s);
                    } else if ns.take(i + 1).contains(s) {
                        let x = choose|x: int| 0 <= x < ns.take(i + 1).len() && #[trigger] ns.take(i + 1)[x] == s;
                        assert(ns.take(i as int)[x] == s);
                    }
                }
            }
        } else {
            assert forall|s: Seq<char>| #[trigger] kept.deep_view().contains(s) <==> (ns.take(i + 1).contains(
                s,
            ) && is_pak_name(s)) by {
                if ns.take(i + 1).contains(s) && s != name@ {
                    let x = choose|x: int| 0 <= x < ns.take(i + 1).len() && #[trigger] ns.take(i + 1)[x] == s;
                    assert(ns.take(i as int)[x] == s);
                }
            }
        }
        i = i + 1;
    }
    assert(ns.take(ns.len() as int) =~= ns);
    let mut keys: Vec<Vec<Vec<char>>> = Vec::new();
    let mut j: usize = 0;
    while j < kept.len()
        invariant
            j <= kept@.len(),
            keys@.len() == j,
            forall|a: int| 0 <= a < j ==> #[trigger] keys_view(keys@)[a] == seq![kept@[a]@],
        decreases kept@.len() - j,
    {
        let key = vec![chars_of(kept[j].as_str())];
        assert(deep(key@) =~= seq![kept@[j as int]@]);
        let ghost prev = keys_view(keys@);
        keys.push(key);
        assert(keys_view(keys@) =~= prev.push(deep(key@)));
        j = j + 1;
    }
    assert forall|a: int, b: int|
        0 <= a < keys_view(keys@).len() && 0 <= b < keys_view(keys@).len() && a != b implies keys_view(keys@)[a]
        != keys_view(keys@)[b] by {
        assert(keys_view(keys@)[a] == seq![kept@[a]@]);
        assert(keys_view(keys@)[b] == seq![kept@[b]@]);
        assert(seq![kept@[a]@][0] != seq![kept@[b]@][0]);
    }
    let order = sort_by_keys(&keys);
    let mut r: Vec<String> = Vec::new();
    let mut m: usize = 0;
    while m < order.len()
        invariant
            m <= order@.len(),
            order@.len() == kept@.len(),
            keys@.len() == kept@.len(),
            within(order@, 0, kept@.len() as int),
            ordered_by(order@, keys_view(keys@)),
            forall|a: int| 0 <= a < kept@.len() ==> #[trigger] keys_view(keys@)[a] == seq![kept@[a]@],
            r@.len() == m,
            forall|a: int| 0 <= a < m ==> #[trigger] r@[a]@ == kept@[order@[a] as int]@,
        decreases order@.len() - m,
    {
        let p = order[m];
        r.push(owned(kept[p].as_str()));
        m = m + 1;
    }
    assert forall|i: int, j: int| 0 <= i < j < r@.len() implies lex_lt(#[trigger] r@[i]@, #[trigger] r@[j]@) by {
        let (pi, pj) = (order@[i] as int, order@[j] as int);
        let ks = keys_view(keys@);
        assert(key_lt(ks[order@[i] as int], ks[order@[j] as int]));
        let (x, y) = (kept@[pi]@, kept@[pj]@);
        assert(ks[pi] == seq![x]);
        assert(ks[pj] == seq![y]);
        if x == y {
            lemma_key_irreflexive(seq![x]);
        }
        assert(seq![x][0] == x && seq![y][0] == y);
    }
    assert forall|s: Seq<char>| #[trigger] r.deep_view().contains(s) <==> kept.deep_view().contains(s) by {
        if r.deep_view().contains(s) {
            let x = choose|x: int| 0 <= x < r.deep_view().len() && #[trigger] r.deep_view()[x] == s;
            assert(kept.deep_view()[order@[x] as int] == s);
        }
        if kept.deep_view().contains(s) {
            let y = choose|y: int| 0 <= y < kept.deep_view().len() && #[trigger] kept.deep_view()[y] == s;
            assert(order@.contains(y as usize));
            let x = choose|x: int| 0 <= x < order@.len() && #[trigger] order@[x] == y as usize;
            assert(r.deep_view()[x] == s);
        }
    }
    r
}

/// The order mod archives are searched in: the last one first, so a later mod wins
pub fn mod_search_order(count: usize) -> (r: Vec<usize>)
    ensures
        r@.len() == count,
        forall|i: int| 0 <= i < count ==> #[trigger] r@[i] == count - 1 - i,
{
    let mut r: Vec<usize> = Vec::new();
    let mut i: usize = count;
    while i > 0
        invariant
            i <= count,
            r@.len() == count - i,
            forall|k: int| 0 <= k < count - i ==> #[trigger] r@[k] == count - 1 - k,
        decreases i,
    {
        i = i - 1;
        r.push(i);
    }
    r
}

} // verus!
