//! Which files of a mod archive are banks, the order they are read in, and the name a mod is
//! labeled with.

use vstd::prelude::*;

use crate::lsx::{first_module_name, module_name, LsxDocument, LsxRegion};
use crate::order::{lemma_lex_asymmetric, lemma_lex_irreflexive, lemma_lex_transitive, lex_lt};
use crate::strmap::{sorted_keys, StrMap};
use crate::text::{
    chars_of, concat, contains, contains_seq, ends_with, has_prefix, has_suffix, is_empty_str, last_pos, rfind,
    slice_range, starts_with, string_of,
};

verus! {

/// The extension of a file name: what follows its last dot (the whole name when it has none)
pub open spec fn extension_of(file: Seq<char>) -> Seq<char> {
    match last_pos(file, '.') {
        Some(p) => file.skip(p + 1),
        None => file,
    }
}

/// Some `/`-separated folder of `folders` is named `name`
pub open spec fn has_folder(folders: Seq<char>, name: Seq<char>) -> bool {
    contains_seq(seq!['/'] + folders + seq!['/'], seq!['/'] + name + seq!['/'])
}

/// Some `/`-separated folder of `folders` starts with `prefix`
pub open spec fn has_folder_prefix(folders: Seq<char>, prefix: Seq<char>) -> bool {
    contains_seq(seq!['/'] + folders, seq!['/'] + prefix)
}

/// The bank directory an archive entry belongs to: the entry is an `.lsf` or `.lsx` file under
/// `public/`, a `content` folder and a `[pak]_<name>` folder both appear on its way there (in any
/// order, with any folders between), and the directory is everything before the file name
pub open spec fn bank_dir_spec(path: Seq<char>) -> Option<Seq<char>> {
    match last_pos(path, '/') {
        None => None,
        Some(p) => {
            let dir = path.take(p);
            let file = path.skip(p + 1);
            if !(extension_of(file) == "lsf"@ || extension_of(file) == "lsx"@) {
                None
            } else if !has_prefix(dir, "public/"@) {
                None
            } else if has_folder(dir.skip(7), "content"@) && has_folder_prefix(dir.skip(7), "[pak]_"@) {
                Some(dir)
            } else {
                None
            }
        },
    }
}

/// The bank directory an archive entry belongs to, or `None` when the entry is not a bank file.
/// Everything else a module ships (`RootTemplates`, `Tags`, `GUI`, the `Mods/<name>/` metadata)
/// supplies no indexed resource, and rejecting it by path keeps it from being parsed at all.
pub fn bank_dir(path: &str) -> (r: Option<String>)
    ensures
        crate::app::opt_view(r) == bank_dir_spec(path@),
{
    proof {
        reveal_strlit("lsf");
        reveal_strlit("lsx");
        reveal_strlit("public/");
        reveal_strlit("/content/");
        reveal_strlit("/[pak]_");
        reveal_strlit("content");
        reveal_strlit("[pak]_");
    }
    let chars = chars_of(path);
    let n = chars.len();
    let p = rfind(chars.as_slice(), '/')?;
    let dir = slice_range(chars.as_slice(), 0, p);
    let file = slice_range(chars.as_slice(), p + 1, n);
    assert(chars@.subrange(0, p as int) =~= chars@.take(p as int));
    assert(chars@.subrange(p + 1, n as int) =~= chars@.skip(p + 1));
    let extension = match rfind(file.as_slice(), '.') {
        Some(d) => {
            let m = file.len();
            let e = slice_range(file.as_slice(), d + 1, m);
            assert(file@.subrange(d + 1, m as int) =~= file@.skip(d + 1));
            e
        },
        None => file,
    };
    let lsf = chars_of("lsf");
    let lsx = chars_of("lsx");
    if !(crate::text::chars_eq(extension.as_slice(), lsf.as_slice()) || crate::text::chars_eq(
        extension.as_slice(),
        lsx.as_slice(),
    )) {
        return None;
    }
    let public = chars_of("public/");
    if !starts_with(dir.as_slice(), public.as_slice()) {
        return None;
    }
    let m = dir.len();
    let folders = slice_range(dir.as_slice(), 7, m);
    assert(dir@.subrange(7, m as int) =~= dir@.skip(7));
    let mut slash: Vec<char> = Vec::new();
    slash.push('/');
    let wrapped = concat(concat(slash.as_slice(), folders.as_slice()).as_slice(), slash.as_slice());
    let opened = concat(slash.as_slice(), folders.as_slice());
    let content = chars_of("/content/");
    let bank = chars_of("/[pak]_");
    assert(seq!['/'] + "content"@ + seq!['/'] =~= "/content/"@);
    assert(seq!['/'] + "[pak]_"@ =~= "/[pak]_"@);
    if contains(wrapped.as_slice(), content.as_slice()) && contains(opened.as_slice(), bank.as_slice()) {
        Some(string_of(dir.as_slice()))
    } else {
        None
    }
}

// ---------------------------------------------------------------------------------------------
// The bank files, one directory at a time
// ---------------------------------------------------------------------------------------------

/// The files of `files` a `_merged.lsf` beside them does not stand for: the merged file holds
/// every `.lsf` bank of its directory, while `.lsx` banks stay
pub open spec fn merged_keeps(files: Seq<Seq<char>>) -> Seq<Seq<char>>
    decreases files.len(),
{
    if files.len() == 0 {
        Seq::empty()
    } else {
        merged_keeps(files.drop_last()) + if has_suffix(files.last(), "_merged.lsf"@) || has_suffix(
            files.last(),
            ".lsx"@,
        ) {
            seq![files.last()]
        } else {
            Seq::empty()
        }
    }
}

/// One bank directory's files, with the `.lsf` banks a `_merged.lsf` beside them stands for
/// dropped
pub open spec fn without_merged(files: Seq<Seq<char>>) -> Seq<Seq<char>> {
    if exists|i: int| 0 <= i < files.len() && has_suffix(#[trigger] files[i], "_merged.lsf"@) {
        merged_keeps(files)
    } else {
        files
    }
}

/// One bank directory's files, with the `.lsf` banks a `_merged.lsf` beside them stands for
/// dropped: that file already holds every one of them
pub fn without_merged_siblings(files: Vec<String>) -> (r: Vec<String>)
    ensures
        r.deep_view() == without_merged(files.deep_view()),
{
    proof {
        reveal_strlit("_merged.lsf");
        reveal_strlit(".lsx");
    }
    let ghost fs = files.deep_view();
    let merged = chars_of("_merged.lsf");
    let lsx = chars_of(".lsx");
    let mut any = false;
    let mut i: usize = 0;
    while i < files.len()
        invariant
            i <= fs.len(),
            fs == files.deep_view(),
            merged@ == "_merged.lsf"@,
            any == exists|j: int| 0 <= j < i && has_suffix(#[trigger] fs[j], "_merged.lsf"@),
        decreases fs.len() - i,
    {
        let name = chars_of(files[i].as_str());
        if ends_with(name.as_slice(), merged.as_slice()) {
            assert(has_suffix(fs[i as int], "_merged.lsf"@));
            any = true;
        }
        i = i + 1;
    }
    if !any {
        return files;
    }
    let mut kept: Vec<String> = Vec::new();
    let mut k: usize = 0;
    while k < files.len()
        invariant
            k <= fs.len(),
            fs == files.deep_view(),
            merged@ == "_merged.lsf"@,
            lsx@ == ".lsx"@,
            kept.deep_view() == merged_keeps(fs.take(k as int)),
        decreases fs.len() - k,
    {
        let ghost prev = kept.deep_view();
        assert(fs.take(k + 1).drop_last() =~= fs.take(k as int));
        assert(fs.take(k + 1).last() == fs[k as int]);
        let name = chars_of(files[k].as_str());
        if ends_with(name.as_slice(), merged.as_slice()) || ends_with(name.as_slice(), lsx.as_slice()) {
            kept.push(files[k].clone());
            assert(kept.deep_view() =~= prev + seq![fs[k as int]]);
        } else {
            assert(prev + Seq::<Seq<char>>::empty() =~= prev);
        }
        k = k + 1;
    }
    assert(fs.take(fs.len() as int) =~= fs);
    kept
}

/// The entries of `paths` in bank directory `dir`, in listing order
pub open spec fn group_of(paths: Seq<Seq<char>>, dir: Seq<char>) -> Seq<Seq<char>>
    decreases paths.len(),
{
    if paths.len() == 0 {
        Seq::empty()
    } else {
        group_of(paths.drop_last(), dir) + if bank_dir_spec(paths.last()) == Some(dir) {
            seq![paths.last()]
        } else {
            Seq::empty()
        }
    }
}

/// The bank directories of `paths`
pub open spec fn bank_dirs(paths: Seq<Seq<char>>) -> Set<Seq<char>> {
    Set::new(|d: Seq<char>| exists|i: int| 0 <= i < paths.len() && bank_dir_spec(#[trigger] paths[i]) == Some(d))
}

/// The bank directories of `paths` in ascending order — the order of a sorted map of them
pub open spec fn sorted_dirs(paths: Seq<Seq<char>>) -> Seq<Seq<char>> {
    choose|ds: Seq<Seq<char>>| sorted_keys(ds) && ds.to_set() == bank_dirs(paths)
}

/// The files of the directories `dirs`, one directory after the other
pub open spec fn files_of(dirs: Seq<Seq<char>>, paths: Seq<Seq<char>>) -> Seq<Seq<char>>
    decreases dirs.len(),
{
    if dirs.len() == 0 {
        Seq::empty()
    } else {
        files_of(dirs.drop_last(), paths) + without_merged(group_of(paths, dirs.last()))
    }
}

/// Two ascending sequences of the same keys are the same sequence
proof fn lemma_sorted_unique(a: Seq<Seq<char>>, b: Seq<Seq<char>>)
    requires
        sorted_keys(a),
        sorted_keys(b),
        a.to_set() == b.to_set(),
    ensures
        a == b,
    decreases a.len(),
{
    if a.len() == 0 {
        if b.len() > 0 {
            assert(b.to_set().contains(b[0]));
        }
        assert(b.len() == 0);
        assert(a =~= b);
    } else {
        if b.len() == 0 {
            assert(a.to_set().contains(a[0]));
            assert(false);
        }
        assert(a.to_set().contains(a[0]));
        assert(b.to_set().contains(b[0]));
        let j = choose|j: int| 0 <= j < b.len() && b[j] == a[0];
        let i = choose|i: int| 0 <= i < a.len() && a[i] == b[0];
        if j > 0 {
            assert(lex_lt(b[0], b[j]));
            if i > 0 {
                assert(lex_lt(a[0], a[i]));
                lemma_lex_asymmetric(a[0], b[0]);
            } else {
                lemma_lex_irreflexive(a[0]);
            }
        }
        assert(a[0] == b[0]);
        let a1 = a.drop_first();
        let b1 = b.drop_first();
        assert forall|x: Seq<char>| a1.to_set().contains(x) <==> b1.to_set().contains(x) by {
            if a1.to_set().contains(x) {
                let k = choose|k: int| 0 <= k < a1.len() && a1[k] == x;
                assert(lex_lt(a[0], a[k + 1]));
                lemma_lex_irreflexive(x);
                assert(a.to_set().contains(x));
                assert(b.to_set().contains(x));
                let m = choose|m: int| 0 <= m < b.len() && b[m] == x;
                if m == 0 {
                    assert(x == a[0]);
                }
                assert(b1[m - 1] == x);
            }
            if b1.to_set().contains(x) {
                let k = choose|k: int| 0 <= k < b1.len() && b1[k] == x;
                assert(lex_lt(b[0], b[k + 1]));
                lemma_lex_irreflexive(x);
                assert(b.to_set().contains(x));
                assert(a.to_set().contains(x));
                let m = choose|m: int| 0 <= m < a.len() && a[m] == x;
                if m == 0 {
                    assert(x == b[0]);
                }
                assert(a1[m - 1] == x);
            }
        }
        assert(a1.to_set() =~= b1.to_set());
        lemma_sorted_unique(a1, b1);
        assert(a =~= seq![a[0]] + a1);
        assert(b =~= seq![b[0]] + b1);
    }
}

/// The bank files of one mod, grouped one directory at a time and in ascending directory order,
/// each directory's files in listing order
pub fn bank_files(paths: &Vec<String>) -> (r: Vec<String>)
    ensures
        r.deep_view() == files_of(sorted_dirs(paths.deep_view()), paths.deep_view()),
{
    let ghost ps = paths.deep_view();
    let mut groups: StrMap<Vec<String>> = StrMap::new();
    let mut i: usize = 0;
    assert(ps.take(0) =~= Seq::<Seq<char>>::empty());
    assert(groups@ =~= Map::new(
        |d: Seq<char>| bank_dirs(ps.take(0)).contains(d),
        |d: Seq<char>| group_of(ps.take(0), d),
    ));
    while i < paths.len()
        invariant
            i <= ps.len(),
            ps == paths.deep_view(),
            groups.wf(),
            groups@ == Map::new(
                |d: Seq<char>| bank_dirs(ps.take(i as int)).contains(d),
                |d: Seq<char>| group_of(ps.take(i as int), d),
            ),
        decreases ps.len() - i,
    {
        let path = &paths[i];
        let ghost before = ps.take(i as int);
        let ghost after = ps.take(i + 1);
        assert(after.drop_last() =~= before);
        assert(after.last() == path@);
        let ghost old_groups = groups@;
        match bank_dir(path.as_str()) {
            Some(dir) => {
                match groups.index_of(dir.as_str()) {
                    Some(at) => {
                        let mut files = crate::model::copy_strings(groups.value_at(at));
                        proof {
                            groups.lemma_view_at(at as int);
                            groups.lemma_lens();
                        }
                        files.push(path.clone());
                        groups.set_value_at(at, files);
                        proof {
                            assert forall|d: Seq<char>| #[trigger] groups@.contains_key(d) == bank_dirs(after).contains(d)
                                && (groups@.contains_key(d) ==> groups@[d] == group_of(after, d)) by {
                                if bank_dirs(after).contains(d) && !bank_dirs(before).contains(d) {
                                    let j = choose|j: int| 0 <= j < after.len() && bank_dir_spec(#[trigger] after[j]) == Some(d);
                                    if j < before.len() {
                                        assert(after[j] == before[j]);
                                    }
                                }
                                if bank_dirs(before).contains(d) {
                                    let j = choose|j: int| 0 <= j < before.len() && bank_dir_spec(#[trigger] before[j]) == Some(d);
                                    assert(after[j] == before[j]);
                                }
                            }
                        }
                    },
                    None => {
                        let mut files: Vec<String> = Vec::new();
                        files.push(path.clone());
                        let ghost dir_view = dir@;
                        groups.insert(dir, files);
                        proof {
                            assert(group_of(before, dir_view) =~= Seq::<Seq<char>>::empty()) by {
                                lemma_group_empty(before, dir_view);
                            }
                            assert forall|d: Seq<char>| #[trigger] groups@.contains_key(d) == bank_dirs(after).contains(d)
                                && (groups@.contains_key(d) ==> groups@[d] == group_of(after, d)) by {
                                if bank_dirs(after).contains(d) && !bank_dirs(before).contains(d) {
                                    let j = choose|j: int| 0 <= j < after.len() && bank_dir_spec(#[trigger] after[j]) == Some(d);
                                    if j < before.len() {
                                        assert(after[j] == before[j]);
                                    }
                                }
                                if bank_dirs(before).contains(d) {
                                    let j = choose|j: int| 0 <= j < before.len() && bank_dir_spec(#[trigger] before[j]) == Some(d);
                                    assert(after[j] == before[j]);
                                }
                                if d == dir_view {
                                    assert(bank_dir_spec(after[i as int]) == Some(d));
                                }
                            }
                        }
                    },
                }
                proof {
                    assert forall|d: Seq<char>| bank_dirs(after).contains(d) <==> (#[trigger] bank_dirs(before).contains(d) || d == dir@) by {
                        if bank_dirs(after).contains(d) {
                            let j = choose|j: int| 0 <= j < after.len() && bank_dir_spec(#[trigger] after[j]) == Some(d);
                            if j < before.len() {
                                assert(after[j] == before[j]);
                            }
                        }
                        if bank_dirs(before).contains(d) {
                            let j = choose|j: int| 0 <= j < before.len() && bank_dir_spec(#[trigger] before[j]) == Some(d);
                            assert(after[j] == before[j]);
                        }
                        if d == dir@ {
                            assert(bank_dir_spec(after[i as int]) == Some(d));
                        }
                    }
                    assert(groups@ =~= Map::new(
                        |d: Seq<char>| bank_dirs(after).contains(d),
                        |d: Seq<char>| group_of(after, d),
                    ));
                }
            },
            None => {
                proof {
                    assert forall|d: Seq<char>| bank_dirs(after).contains(d) <==> #[trigger] bank_dirs(before).contains(d) by {
                        if bank_dirs(after).contains(d) {
                            let j = choose|j: int| 0 <= j < after.len() && bank_dir_spec(#[trigger] after[j]) == Some(d);
                            if j < before.len() {
                                assert(after[j] == before[j]);
                            }
                        }
                        if bank_dirs(before).contains(d) {
                            let j = choose|j: int| 0 <= j < before.len() && bank_dir_spec(#[trigger] before[j]) == Some(d);
                            assert(after[j] == before[j]);
                        }
                    }
                    assert(groups@ =~= Map::new(
                        |d: Seq<char>| bank_dirs(after).contains(d),
                        |d: Seq<char>| group_of(after, d),
                    ));
                }
            },
        }
        i = i + 1;
    }
    assert(ps.take(ps.len() as int) =~= ps);
    let ghost dirs = groups.keys();
    proof {
        groups.lemma_lens();
        groups.lemma_sorted();
        assert forall|d: Seq<char>| dirs.to_set().contains(d) <==> bank_dirs(ps).contains(d) by {
            groups.lemma_view_dom(d);
        }
        assert(dirs.to_set() =~= bank_dirs(ps));
        assert(sorted_keys(dirs) && dirs.to_set() == bank_dirs(ps));
        let sd = sorted_dirs(ps);
        assert(sorted_keys(sd) && sd.to_set() == bank_dirs(ps));
        lemma_sorted_unique(dirs, sd);
    }
    let mut r: Vec<String> = Vec::new();
    let mut k: usize = 0;
    while k < groups.len()
        invariant
            k <= dirs.len(),
            dirs == groups.keys(),
            groups.wf(),
            groups@ == Map::new(|d: Seq<char>| bank_dirs(ps).contains(d), |d: Seq<char>| group_of(ps, d)),
            r.deep_view() == files_of(dirs.take(k as int), ps),
        decreases dirs.len() - k,
    {
        proof {
            groups.lemma_view_at(k as int);
            groups.lemma_lens();
        }
        let files = crate::model::copy_strings(groups.value_at(k));
        let mut kept = without_merged_siblings(files);
        let ghost prev = r.deep_view();
        let ghost added = kept.deep_view();
        r.append(&mut kept);
        assert(dirs.take(k + 1).drop_last() =~= dirs.take(k as int));
        assert(dirs.take(k + 1).last() == dirs[k as int]);
        assert(r.deep_view() =~= prev + added);
        k = k + 1;
    }
    assert(dirs.take(dirs.len() as int) =~= dirs);
    r
}

/// A directory none of `paths` is in has no files
proof fn lemma_group_empty(paths: Seq<Seq<char>>, dir: Seq<char>)
    requires
        !bank_dirs(paths).contains(dir),
    ensures
        group_of(paths, dir) == Seq::<Seq<char>>::empty(),
    decreases paths.len(),
{
    if paths.len() > 0 {
        let rest = paths.drop_last();
        assert(!bank_dirs(rest).contains(dir)) by {
            if bank_dirs(rest).contains(dir) {
                let j = choose|j: int| 0 <= j < rest.len() && bank_dir_spec(#[trigger] rest[j]) == Some(dir);
                assert(paths[j] == rest[j]);
            }
        }
        lemma_group_empty(rest, dir);
        assert(bank_dir_spec(paths[paths.len() - 1]) != Some(dir));
    }
}

// ---------------------------------------------------------------------------------------------
// The mod's name
// ---------------------------------------------------------------------------------------------

/// Position of the first entry ending in `meta.lsx`
pub open spec fn meta_index(paths: Seq<Seq<char>>) -> Option<int> {
    if exists|i: int| 0 <= i < paths.len() && has_suffix(#[trigger] paths[i], "meta.lsx"@) {
        Some(
            choose|i: int|
                0 <= i < paths.len() && has_suffix(#[trigger] paths[i], "meta.lsx"@) && forall|j: int|
                    0 <= j < i ==> !has_suffix(#[trigger] paths[j], "meta.lsx"@),
        )
    } else {
        None
    }
}

/// The entry holding the mod's own metadata: the first one ending in `meta.lsx`
pub fn meta_path(paths: &Vec<String>) -> (r: Option<usize>)
    ensures
        match r {
            Some(i) => meta_index(paths.deep_view()) == Some(i as int) && i < paths@.len(),
            None => meta_index(paths.deep_view()) is None,
        },
{
    proof {
        reveal_strlit("meta.lsx");
    }
    let ghost ps = paths.deep_view();
    let suffix = chars_of("meta.lsx");
    let mut i: usize = 0;
    while i < paths.len()
        invariant
            i <= ps.len(),
            ps == paths.deep_view(),
            suffix@ == "meta.lsx"@,
            forall|j: int| 0 <= j < i ==> !has_suffix(#[trigger] ps[j], "meta.lsx"@),
        decreases ps.len() - i,
    {
        let name = chars_of(paths[i].as_str());
        if ends_with(name.as_slice(), suffix.as_slice()) {
            proof {
                assert(has_suffix(ps[i as int], "meta.lsx"@));
                let w = choose|x: int|
                    0 <= x < ps.len() && has_suffix(#[trigger] ps[x], "meta.lsx"@) && forall|j: int|
                        0 <= j < x ==> !has_suffix(#[trigger] ps[j], "meta.lsx"@);
                if w < i {
                    assert(!has_suffix(ps[w], "meta.lsx"@));
                } else if w > i {
                    assert(!has_suffix(ps[i as int], "meta.lsx"@));
                }
            }
            return Some(i);
        }
        i = i + 1;
    }
    None
}

/// The module name declared in a document: the first found, region by region, from region `i` on
pub open spec fn document_module_name(regions: Seq<LsxRegion>, i: int) -> Option<Seq<char>>
    decreases regions.len() - i,
{
    if i < 0 || i >= regions.len() {
        None
    } else {
        match first_module_name(regions[i].nodes@, 0) {
            Some(name) => Some(name),
            None => document_module_name(regions, i + 1),
        }
    }
}

/// The name a mod is labeled with: the `Name` its own metadata declares, which is what the game
/// and the mod manager call it; `fallback` (the archive's file stem) when the metadata is missing,
/// unreadable, or declares no name
pub open spec fn display_name_spec(metadata: Option<LsxDocument>, fallback: Seq<char>) -> Seq<char> {
    match metadata {
        Some(doc) => match document_module_name(doc.regions@, 0) {
            Some(name) => if name.len() > 0 {
                name
            } else {
                fallback
            },
            None => fallback,
        },
        None => fallback,
    }
}

/// The module name declared in a document, from region `i` on
fn module_name_in(regions: &Vec<LsxRegion>, i: usize) -> (r: Option<String>)
    ensures
        crate::app::opt_view(r) == document_module_name(regions@, i as int),
    decreases regions@.len() - i,
{
    if i >= regions.len() {
        return None;
    }
    let mut k: usize = 0;
    let nodes = &regions[i].nodes;
    while k < nodes.len()
        invariant
            i < regions@.len(),
            nodes@ == regions@[i as int].nodes@,
            k <= nodes@.len(),
            first_module_name(nodes@, 0) == first_module_name(nodes@, k as int),
        decreases nodes@.len() - k,
    {
        match module_name(&nodes[k]) {
            Some(name) => {
                return Some(name);
            },
            None => {},
        }
        k = k + 1;
    }
    module_name_in(regions, i + 1)
}

/// The name a mod is labeled with, out of its metadata document when one could be read
pub fn display_name(metadata: Option<&LsxDocument>, fallback: String) -> (r: String)
    ensures
        r@ == display_name_spec(
            match metadata {
                Some(d) => Some(*d),
                None => None,
            },
            fallback@,
        ),
{
    match metadata {
        Some(doc) => match module_name_in(&doc.regions, 0) {
            Some(name) => if is_empty_str(name.as_str()) {
                fallback
            } else {
                name
            },
            None => fallback,
        },
        None => fallback,
    }
}

} // verus!
