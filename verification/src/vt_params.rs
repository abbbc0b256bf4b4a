//! Virtual texture parameter names, read straight out of the LSF data.
//!
//! The database keeps a `VirtualTextureParameters` binding down to its GUID, so the parameter a
//! binding fills (`virtualtexture`, `overlayvirtualtexture`, …) has to be read from the documents.
//! It is read from the material's *template*: a merged document is always named `_merged.lsf`, so
//! the file holding a given material cannot be derived from it, while the `SourceFile` template
//! declares the same names in the same order — one archive read per distinct template.

use vstd::prelude::*;

use crate::app::opt_view;
use crate::strmap::StrMap;
use crate::text::{owned, str_eq};

verus! {

/// The values of a node table
pub open spec fn table_view(t: Seq<(Option<String>, Option<String>)>) -> Seq<(Option<Seq<char>>, Option<Seq<char>>)> {
    t.map_values(|row: (Option<String>, Option<String>)| (opt_view(row.0), opt_view(row.1)))
}

/// The names a template declares: the `ParameterName` of each `VirtualTextureParameters` node that
/// carries one, in document order — the order the bindings come in, which is what lets the two pair
/// up by position
pub open spec fn declared_names(table: Seq<(Option<Seq<char>>, Option<Seq<char>>)>) -> Seq<Seq<char>>
    decreases table.len(),
{
    if table.len() == 0 {
        Seq::empty()
    } else {
        declared_names(table.drop_last()) + match table.last() {
            (Some(name), Some(param)) => if name == "VirtualTextureParameters"@ {
                seq![param]
            } else {
                Seq::empty()
            },
            _ => Seq::empty(),
        }
    }
}

/// The names one template declares, out of its node table: nothing when there is none
pub open spec fn template_names_spec(table: Option<Seq<(Option<Seq<char>>, Option<Seq<char>>)>>) -> Seq<Seq<char>> {
    match table {
        Some(t) => declared_names(t),
        None => Seq::empty(),
    }
}

/// Parameter names declared by one material template, in binding order, out of its node table:
/// per node, in document order, the node's name and its `ParameterName` fixed-string attribute, as
/// maclarian's LSF reader reads them (which the caller runs, on templates whose attribute links
/// point forward). A template that could not be read contributes none — the names decorate a chip,
/// and a missing one must not fail a view.
pub fn template_names(table: Option<Vec<(Option<String>, Option<String>)>>) -> (r: Vec<String>)
    ensures
        r.deep_view() == template_names_spec(
            match table {
                Some(t) => Some(table_view(t@)),
                None => None,
            },
        ),
{
    let mut r: Vec<String> = Vec::new();
    let table = match table {
        Some(t) => t,
        None => {
            assert(r.deep_view() =~= Seq::<Seq<char>>::empty());
            return r;
        },
    };
    let ghost tv = table_view(table@);
    let mut i: usize = 0;
    assert(tv.take(0) =~= Seq::<(Option<Seq<char>>, Option<Seq<char>>)>::empty());
    while i < table.len()
        invariant
            i <= tv.len(),
            tv == table_view(table@),
            r.deep_view() == declared_names(tv.take(i as int)),
        decreases tv.len() - i,
    {
        let ghost prev = r.deep_view();
        assert(tv.take(i + 1).drop_last() =~= tv.take(i as int));
        assert(tv.take(i + 1).last() == tv[i as int]);
        match &table[i] {
            (Some(name), Some(param)) => {
                if str_eq(name.as_str(), "VirtualTextureParameters") {
                    r.push(param.clone());
                    assert(r.deep_view() =~= prev + seq![param@]);
                } else {
                    assert(prev + Seq::<Seq<char>>::empty() =~= prev);
                }
            },
            _ => {
                assert(prev + Seq::<Seq<char>>::empty() =~= prev);
            },
        }
        i = i + 1;
    }
    assert(tv.take(tv.len() as int) =~= tv);
    r
}

/// The distinct templates of `materials`, in the order they are first named
pub open spec fn templates_spec(materials: Seq<(Seq<char>, Seq<char>)>) -> Seq<Seq<char>>
    decreases materials.len(),
{
    if materials.len() == 0 {
        Seq::empty()
    } else {
        let prev = templates_spec(materials.drop_last());
        let file = materials.last().1;
        if prev.contains(file) {
            prev
        } else {
            prev.push(file)
        }
    }
}

/// The templates to read for `materials` (material id, template), each once: templates are shared
/// between materials
pub fn templates_to_read(materials: &Vec<(String, String)>) -> (r: Vec<String>)
    ensures
        r.deep_view() == templates_spec(materials.deep_view()),
{
    let ghost ms = materials.deep_view();
    let mut r: Vec<String> = Vec::new();
    let mut i: usize = 0;
    assert(ms.take(0) =~= Seq::<(Seq<char>, Seq<char>)>::empty());
    while i < materials.len()
        invariant
            i <= ms.len(),
            ms == materials.deep_view(),
            r.deep_view() == templates_spec(ms.take(i as int)),
        decreases ms.len() - i,
    {
        let file = &materials[i].1;
        assert(ms.take(i + 1).drop_last() =~= ms.take(i as int));
        assert(ms.take(i + 1).last().1 == file@);
        let mut seen = false;
        let mut k: usize = 0;
        while k < r.len()
            invariant
                k <= r@.len(),
                seen == exists|j: int| 0 <= j < k && r.deep_view()[j] == file@,
            decreases r@.len() - k,
        {
            if str_eq(r[k].as_str(), file.as_str()) {
                assert(r.deep_view()[k as int] == file@);
                seen = true;
            }
            k = k + 1;
        }
        if !seen {
            let ghost prev = r.deep_view();
            r.push(file.clone());
            assert(r.deep_view() =~= prev.push(file@));
        }
        i = i + 1;
    }
    assert(ms.take(ms.len() as int) =~= ms);
    r
}

/// The names of every material of `materials`, out of the names of its template (`templates`,
/// read once each); a template missing from `templates` names nothing. A material named twice keeps
/// its last template's names.
pub open spec fn parameters_spec(
    materials: Seq<(Seq<char>, Seq<char>)>,
    templates: Map<Seq<char>, Seq<Seq<char>>>,
) -> Map<Seq<char>, Seq<Seq<char>>>
    decreases materials.len(),
{
    if materials.len() == 0 {
        Map::empty()
    } else {
        let (id, file) = materials.last();
        parameters_spec(materials.drop_last(), templates).insert(
            id,
            if templates.contains_key(file) {
                templates[file]
            } else {
                Seq::empty()
            },
        )
    }
}

/// The parameter every binding fills, keyed by material GUID, in binding order — for the materials
/// named by `materials`, each paired with its template, out of the names read from those templates
pub fn read_parameters(materials: &Vec<(String, String)>, templates: &StrMap<Vec<String>>) -> (r: StrMap<
    Vec<String>,
>)
    requires
        templates.wf(),
    ensures
        r.wf(),
        r@ == parameters_spec(materials.deep_view(), templates@),
{
    let ghost ms = materials.deep_view();
    let mut r: StrMap<Vec<String>> = StrMap::new();
    let mut i: usize = 0;
    assert(ms.take(0) =~= Seq::<(Seq<char>, Seq<char>)>::empty());
    while i < materials.len()
        invariant
            templates.wf(),
            r.wf(),
            i <= ms.len(),
            ms == materials.deep_view(),
            r@ == parameters_spec(ms.take(i as int), templates@),
        decreases ms.len() - i,
    {
        let (material_id, source_file) = &materials[i];
        assert(ms.take(i + 1).drop_last() =~= ms.take(i as int));
        assert(ms.take(i + 1).last() == (material_id@, source_file@));
        let names = match templates.get(source_file.as_str()) {
            Some(names) => crate::model::copy_strings(names),
            None => {
                let v: Vec<String> = Vec::new();
                assert(v.deep_view() =~= Seq::<Seq<char>>::empty());
                v
            },
        };
        r.insert(material_id.clone(), names);
        i = i + 1;
    }
    assert(ms.take(ms.len() as int) =~= ms);
    r
}

} // verus!
