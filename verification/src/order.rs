//! The order strings are sorted in: lexicographic by character, which is the order `str`'s `Ord`
//! gives (UTF-8 byte order and code point order agree). A sort key made of several fields is
//! ordered field by field, the way a tuple of strings is.

use vstd::prelude::*;

verus! {

/// Result of comparing two values
#[derive(PartialEq, Eq, Clone, Copy, Debug)]
pub enum Rank {
    Less,
    Equal,
    Greater,
}

/// `a` sorts strictly before `b`: at the first position where they differ `a` has the smaller
/// character, or `a` is a proper prefix of `b`
pub open spec fn lex_lt(a: Seq<char>, b: Seq<char>) -> bool
    decreases a.len(),
{
    if a.len() == 0 {
        b.len() > 0
    } else if b.len() == 0 {
        false
    } else if a[0] != b[0] {
        a[0] < b[0]
    } else {
        lex_lt(a.drop_first(), b.drop_first())
    }
}

pub proof fn lemma_lex_irreflexive(a: Seq<char>)
    ensures
        !lex_lt(a, a),
    decreases a.len(),
{
    if a.len() > 0 {
        lemma_lex_irreflexive(a.drop_first());
    }
}

pub proof fn lemma_lex_asymmetric(a: Seq<char>, b: Seq<char>)
    ensures
        !(lex_lt(a, b) && lex_lt(b, a)),
    decreases a.len(),
{
    if a.len() > 0 && b.len() > 0 && a[0] == b[0] {
        lemma_lex_asymmetric(a.drop_first(), b.drop_first());
    }
}

pub proof fn lemma_lex_transitive(a: Seq<char>, b: Seq<char>, c: Seq<char>)
    requires
        lex_lt(a, b),
        lex_lt(b, c),
    ensures
        lex_lt(a, c),
    decreases a.len(),
{
    if a.len() > 0 && b.len() > 0 && c.len() > 0 && a[0] == b[0] && b[0] == c[0] {
        lemma_lex_transitive(a.drop_first(), b.drop_first(), c.drop_first());
    }
}

pub proof fn lemma_lex_total(a: Seq<char>, b: Seq<char>)
    ensures
        a == b || lex_lt(a, b) || lex_lt(b, a),
    decreases a.len(),
{
    if a.len() > 0 && b.len() > 0 && a[0] == b[0] {
        lemma_lex_total(a.drop_first(), b.drop_first());
        if a.drop_first() == b.drop_first() {
            assert(a =~= seq![a[0]] + a.drop_first());
            assert(b =~= seq![b[0]] + b.drop_first());
        }
    } else if a.len() == 0 && b.len() == 0 {
        assert(a =~= b);
    }
}

/// Skipping a common prefix does not change how two sequences compare
proof fn lemma_lex_skip(a: Seq<char>, b: Seq<char>, i: int)
    requires
        0 <= i <= a.len(),
        i <= b.len(),
        a.take(i) == b.take(i),
    ensures
        lex_lt(a, b) == lex_lt(a.skip(i), b.skip(i)),
    decreases i,
{
    if i > 0 {
        assert(a[0] == a.take(i)[0]);
        assert(b[0] == b.take(i)[0]);
        assert(a.drop_first().take(i - 1) =~= a.take(i).drop_first());
        assert(b.drop_first().take(i - 1) =~= b.take(i).drop_first());
        lemma_lex_skip(a.drop_first(), b.drop_first(), i - 1);
        assert(a.drop_first().skip(i - 1) =~= a.skip(i));
        assert(b.drop_first().skip(i - 1) =~= b.skip(i));
    } else {
        assert(a.skip(0) =~= a);
        assert(b.skip(0) =~= b);
    }
}

/// The spec relation a comparison result stands for
pub open spec fn rank_of(lt: bool, eq: bool) -> Rank {
    if lt {
        Rank::Less
    } else if eq {
        Rank::Equal
    } else {
        Rank::Greater
    }
}

/// Compare two character slices lexicographically
pub fn compare_chars(a: &[char], b: &[char]) -> (r: Rank)
    ensures
        r == rank_of(lex_lt(a@, b@), a@ == b@),
        r == Rank::Greater ==> lex_lt(b@, a@),
{
    let mut i: usize = 0;
    while i < a.len() && i < b.len() && a[i] == b[i]
        invariant
            i <= a@.len(),
            i <= b@.len(),
            a@.take(i as int) == b@.take(i as int),
        decreases a@.len() - i,
    {
        assert(a@.take(i + 1) =~= a@.take(i as int).push(a@[i as int]));
        assert(b@.take(i + 1) =~= b@.take(i as int).push(b@[i as int]));
        i = i + 1;
    }
    proof {
        lemma_lex_skip(a@, b@, i as int);
        lemma_lex_skip(b@, a@, i as int);
        lemma_lex_total(a@, b@);
        lemma_lex_asymmetric(a@, b@);
        lemma_lex_irreflexive(a@);
    }
    if i < a.len() && i < b.len() {
        assert(a@.skip(i as int)[0] == a@[i as int]);
        assert(b@.skip(i as int)[0] == b@[i as int]);
        if a[i] < b[i] {
            Rank::Less
        } else {
            Rank::Greater
        }
    } else if i < b.len() {
        // `a` is a proper prefix of `b`
        assert(a@.skip(i as int).len() == 0);
        Rank::Less
    } else if i < a.len() {
        assert(b@.skip(i as int).len() == 0);
        Rank::Greater
    } else {
        assert(a@ =~= a@.take(i as int));
        assert(b@ =~= b@.take(i as int));
        Rank::Equal
    }
}

// ---------------------------------------------------------------------------------------------
// Keys made of several fields
// ---------------------------------------------------------------------------------------------

/// Field-by-field order of two sort keys of the same shape: the first field where they differ
/// decides
pub open spec fn key_lt(a: Seq<Seq<char>>, b: Seq<Seq<char>>) -> bool
    decreases a.len(),
{
    if a.len() == 0 || b.len() == 0 {
        a.len() < b.len()
    } else if a[0] != b[0] {
        lex_lt(a[0], b[0])
    } else {
        key_lt(a.drop_first(), b.drop_first())
    }
}

pub proof fn lemma_key_irreflexive(a: Seq<Seq<char>>)
    ensures
        !key_lt(a, a),
    decreases a.len(),
{
    if a.len() > 0 {
        lemma_key_irreflexive(a.drop_first());
    }
}

pub proof fn lemma_key_asymmetric(a: Seq<Seq<char>>, b: Seq<Seq<char>>)
    ensures
        !(key_lt(a, b) && key_lt(b, a)),
    decreases a.len(),
{
    if a.len() > 0 && b.len() > 0 {
        if a[0] != b[0] {
            lemma_lex_asymmetric(a[0], b[0]);
        } else {
            lemma_key_asymmetric(a.drop_first(), b.drop_first());
        }
    }
}

pub proof fn lemma_key_transitive(a: Seq<Seq<char>>, b: Seq<Seq<char>>, c: Seq<Seq<char>>)
    requires
        key_lt(a, b),
        key_lt(b, c),
    ensures
        key_lt(a, c),
    decreases a.len(),
{
    if a.len() > 0 && b.len() > 0 && c.len() > 0 {
        if a[0] != b[0] && b[0] != c[0] {
            lemma_lex_transitive(a[0], b[0], c[0]);
            lemma_lex_irreflexive(a[0]);
        } else if a[0] == b[0] && b[0] == c[0] {
            lemma_key_transitive(a.drop_first(), b.drop_first(), c.drop_first());
        }
    }
}

pub proof fn lemma_key_total(a: Seq<Seq<char>>, b: Seq<Seq<char>>)
    ensures
        a == b || key_lt(a, b) || key_lt(b, a),
    decreases a.len(),
{
    if a.len() > 0 && b.len() > 0 {
        if a[0] != b[0] {
            lemma_lex_total(a[0], b[0]);
        } else {
            lemma_key_total(a.drop_first(), b.drop_first());
            if a.drop_first() == b.drop_first() {
                assert(a =~= seq![a[0]] + a.drop_first());
                assert(b =~= seq![b[0]] + b.drop_first());
            }
        }
    } else if a.len() == 0 && b.len() == 0 {
        assert(a =~= b);
    }
}

/// Compare two sort keys field by field
pub fn compare_keys(a: &Vec<Vec<char>>, b: &Vec<Vec<char>>) -> (r: Rank)
    ensures
        r == rank_of(key_lt(deep(a@), deep(b@)), deep(a@) == deep(b@)),
        r == Rank::Greater ==> key_lt(deep(b@), deep(a@)),
{
    let ghost da = deep(a@);
    let ghost db = deep(b@);
    let mut i: usize = 0;
    while i < a.len() && i < b.len()
        invariant
            da == deep(a@),
            db == deep(b@),
            i <= a@.len(),
            i <= b@.len(),
            da.take(i as int) == db.take(i as int),
        decreases a@.len() - i,
    {
        let c = compare_chars(a[i].as_slice(), b[i].as_slice());
        match c {
            Rank::Equal => {},
            _ => {
                proof {
                    lemma_key_skip(da, db, i as int);
                    lemma_key_skip(db, da, i as int);
                    assert(da.skip(i as int)[0] == a@[i as int]@);
                    assert(db.skip(i as int)[0] == b@[i as int]@);
                    lemma_lex_asymmetric(a@[i as int]@, b@[i as int]@);
                    if da == db {
                        assert(da[i as int] == db[i as int]);
                    }
                }
                return c;
            },
        }
        assert(da.take(i + 1) =~= da.take(i as int).push(da[i as int]));
        assert(db.take(i + 1) =~= db.take(i as int).push(db[i as int]));
        i = i + 1;
    }
    proof {
        lemma_key_skip(da, db, i as int);
        lemma_key_skip(db, da, i as int);
        lemma_key_irreflexive(da);
    }
    if i < b.len() {
        Rank::Less
    } else if i < a.len() {
        Rank::Greater
    } else {
        assert(da =~= da.take(i as int));
        assert(db =~= db.take(i as int));
        Rank::Equal
    }
}

/// The character sequences of a vector of character vectors
pub open spec fn deep(v: Seq<Vec<char>>) -> Seq<Seq<char>> {
    v.map_values(|x: Vec<char>| x@)
}

/// Skipping a common prefix of fields does not change how two keys compare
proof fn lemma_key_skip(a: Seq<Seq<char>>, b: Seq<Seq<char>>, i: int)
    requires
        0 <= i <= a.len(),
        i <= b.len(),
        a.take(i) == b.take(i),
    ensures
        key_lt(a, b) == key_lt(a.skip(i), b.skip(i)),
    decreases i,
{
    if i > 0 {
        assert(a[0] == a.take(i)[0]);
        assert(b[0] == b.take(i)[0]);
        assert(a.drop_first().take(i - 1) =~= a.take(i).drop_first());
        assert(b.drop_first().take(i - 1) =~= b.take(i).drop_first());
        lemma_key_skip(a.drop_first(), b.drop_first(), i - 1);
        assert(a.drop_first().skip(i - 1) =~= a.skip(i));
        assert(b.drop_first().skip(i - 1) =~= b.skip(i));
    } else {
        assert(a.skip(0) =~= a);
        assert(b.skip(0) =~= b);
    }
}

} // verus!
