//! Archive paths: `/`-separated, read the way `std::path::Path` reads a Unix path.

use vstd::prelude::*;

use crate::text::{last_pos, lemma_last_pos, rfind, slice_range};

verus! {

/// The last component of `p` that is a name: `/`-separated segments, empty and `.` segments
/// skipped; `None` when there is none, or when it is `..` (`Path::file_name`)
pub open spec fn file_name_spec(p: Seq<char>) -> Option<Seq<char>>
    decreases p.len(),
{
    match last_pos(p, '/') {
        Some(i) => {
            let last = p.skip(i + 1);
            if last.len() == 0 || last == seq!['.'] {
                proof {
                    lemma_last_pos(p, '/');
                }
                file_name_spec(p.take(i))
            } else if last == seq!['.', '.'] {
                None
            } else {
                Some(last)
            }
        },
        None => if p.len() == 0 || p == seq!['.'] || p == seq!['.', '.'] {
            None
        } else {
            Some(p)
        },
    }
}

/// The stem of a file name: everything before its last dot, or the whole name when it has no dot
/// or its only dot leads it (`.hidden`)
pub open spec fn stem_of_name(name: Seq<char>) -> Seq<char> {
    match last_pos(name, '.') {
        Some(d) => if d == 0 {
            name
        } else {
            name.take(d)
        },
        None => name,
    }
}

/// The stem of the file `p` names (`Path::file_stem`)
pub open spec fn file_stem_spec(p: Seq<char>) -> Option<Seq<char>> {
    match file_name_spec(p) {
        Some(name) => Some(stem_of_name(name)),
        None => None,
    }
}

/// `Path::file_name` of a `/`-separated path
pub fn file_name(p: &[char]) -> (r: Option<Vec<char>>)
    ensures
        match r {
            Some(v) => file_name_spec(p@) == Some(v@),
            None => file_name_spec(p@) is None,
        },
    decreases p@.len(),
{
    match rfind(p, '/') {
        Some(i) => {
            let n = p.len();
            let last = slice_range(p, i + 1, n);
            assert(p@.subrange(i + 1, n as int) =~= p@.skip(i + 1));
            let k = last.len();
            if k == 0 || (k == 1 && last[0] == '.') {
                assert(k == 1 && last[0] == '.' ==> last@ =~= seq!['.']);
                let head = slice_range(p, 0, i);
                assert(p@.subrange(0, i as int) =~= p@.take(i as int));
                file_name(head.as_slice())
            } else if k == 2 && last[0] == '.' && last[1] == '.' {
                assert(last@ =~= seq!['.', '.']);
                None
            } else {
                assert(last@ != seq!['.']);
                assert(last@ != seq!['.', '.']);
                Some(last)
            }
        },
        None => {
            let k = p.len();
            if k == 0 || (k == 1 && p[0] == '.') || (k == 2 && p[0] == '.' && p[1] == '.') {
                assert(k == 1 && p[0] == '.' ==> p@ =~= seq!['.']);
                assert(k == 2 && p[0] == '.' && p[1] == '.' ==> p@ =~= seq!['.', '.']);
                None
            } else {
                assert(p@ != seq!['.']);
                assert(p@ != seq!['.', '.']);
                Some(slice_range(p, 0, k))
            }
        },
    }
}

/// `Path::file_stem` of a `/`-separated path
pub fn file_stem(p: &[char]) -> (r: Option<Vec<char>>)
    ensures
        match r {
            Some(v) => file_stem_spec(p@) == Some(v@),
            None => file_stem_spec(p@) is None,
        },
{
    let name = file_name(p)?;
    match rfind(name.as_slice(), '.') {
        Some(d) => if d == 0 {
            Some(name)
        } else {
            let stem = slice_range(name.as_slice(), 0, d);
            assert(name@.subrange(0, d as int) =~= name@.take(d as int));
            Some(stem)
        },
        None => Some(name),
    }
}

/// A path without its trailing separators and trailing `.` segments, as `Path` ignores them; a
/// lone `/` (the root) and a leading `.` of a relative path stay
pub open spec fn trim_back(p: Seq<char>) -> Seq<char>
    decreases p.len(),
{
    if p.len() >= 2 && (p.last() == '/' || (p.last() == '.' && p[p.len() - 2] == '/')) {
        trim_back(p.drop_last())
    } else {
        p
    }
}

/// `Path::parent` of a `/`-separated path: the path without its last component, ignoring
/// trailing separators and `.` segments; `None` for an empty path and for the root
pub open spec fn parent_spec(p: Seq<char>) -> Option<Seq<char>> {
    let t = trim_back(p);
    if t.len() == 0 || t == seq!['/'] {
        None
    } else {
        match last_pos(t, '/') {
            None => Some(Seq::empty()),
            Some(i) => if i == 0 {
                Some(seq!['/'])
            } else {
                Some(trim_back(t.take(i)))
            },
        }
    }
}

/// The directory an archive entry sits in: its parent, or nothing when it has none
pub open spec fn dir_of_spec(p: Seq<char>) -> Seq<char> {
    match parent_spec(p) {
        Some(d) => d,
        None => Seq::empty(),
    }
}

/// How long `p` stays once `trim_back` is done with it
fn trim_back_len(p: &[char]) -> (n: usize)
    ensures
        n <= p@.len(),
        p@.take(n as int) == trim_back(p@),
{
    let mut n: usize = p.len();
    assert(p@.take(n as int) =~= p@);
    while n >= 2 && (p[n - 1] == '/' || (p[n - 1] == '.' && p[n - 2] == '/'))
        invariant
            n <= p@.len(),
            trim_back(p@.take(n as int)) == trim_back(p@),
        decreases n,
    {
        assert(p@.take(n as int).drop_last() =~= p@.take(n - 1));
        n = n - 1;
    }
    n
}

/// The directory an archive entry sits in (`Path::parent`), empty when it has none
pub fn dir_of(p: &[char]) -> (r: Vec<char>)
    ensures
        r@ == dir_of_spec(p@),
{
    let n = trim_back_len(p);
    let t = slice_range(p, 0, n);
    assert(p@.subrange(0, n as int) =~= p@.take(n as int));
    if n == 0 || (n == 1 && t[0] == '/') {
        assert(n == 1 ==> t@ =~= seq!['/']);
        return Vec::new();
    }
    assert(t@ != seq!['/']) by {
        if t@ == seq!['/'] {
            assert(t@[0] == '/');
        }
    }
    match rfind(t.as_slice(), '/') {
        None => Vec::new(),
        Some(i) => if i == 0 {
            let mut r: Vec<char> = Vec::new();
            r.push('/');
            assert(r@ =~= seq!['/']);
            r
        } else {
            let head = slice_range(t.as_slice(), 0, i);
            assert(t@.subrange(0, i as int) =~= t@.take(i as int));
            let m = trim_back_len(head.as_slice());
            let d = slice_range(head.as_slice(), 0, m);
            assert(head@.subrange(0, m as int) =~= head@.take(m as int));
            d
        },
    }
}

} // verus!
