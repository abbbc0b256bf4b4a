//! How a name becomes a file name: what an exported artifact may be called on disk, what a virtual
//! texture layer is called, and which GTS file belongs to a page file.

use vstd::prelude::*;

use crate::text::{
    chars_of, concat, ends_with, has_suffix, is_control, is_control_char, is_hex_digit, is_hex_digit_char,
    is_whitespace_char, last_pos, lemma_last_pos, lemma_trim_stretch, lemma_trim_untouched, rfind, slice_range,
    string_of, trim, trim_char, trim_char_seq, trim_while, trim_ws, is_char,
};

verus! {

broadcast use vstd::seq_lib::group_seq_properties;

/// The longest file name an exported artifact gets, in characters
pub const NAME_LIMIT: usize = 80;

/// Windows-forbidden and path-separating characters
pub open spec fn is_forbidden_char(c: char) -> bool {
    c == '<' || c == '>' || c == ':' || c == '"' || c == '/' || c == '\\' || c == '|' || c == '?' || c == '*'
}

/// What `replace_forbidden` makes of `c`
pub open spec fn replaced(c: char) -> char {
    if is_forbidden_char(c) {
        '_'
    } else {
        c
    }
}

/// Windows-forbidden and path-separating characters become underscores, so nothing here can name
/// a file outside the directory it is written to
pub fn replace_forbidden(c: char) -> (r: char)
    ensures
        r == replaced(c),
{
    if c == '<' || c == '>' || c == ':' || c == '"' || c == '/' || c == '\\' || c == '|' || c == '?' || c == '*' {
        '_'
    } else {
        c
    }
}

/// `raw` without its control characters, the forbidden ones replaced
pub open spec fn cleaned(raw: Seq<char>) -> Seq<char>
    decreases raw.len(),
{
    if raw.len() == 0 {
        Seq::empty()
    } else {
        cleaned(raw.drop_last()) + if is_control_char(raw.last()) {
            Seq::empty()
        } else {
            seq![replaced(raw.last())]
        }
    }
}

/// The file name `raw` becomes: control characters dropped, forbidden ones replaced, whitespace
/// and then dots trimmed off both ends, capped at `NAME_LIMIT` characters; `asset` when nothing is
/// left
pub open spec fn sanitized(raw: Seq<char>) -> Seq<char> {
    let t = trim_char_seq(trim_ws(cleaned(raw)), '.');
    if t.len() == 0 {
        "asset"@
    } else if t.len() <= NAME_LIMIT {
        t
    } else {
        t.take(NAME_LIMIT as int)
    }
}

/// Sanitize a file or directory name: strip Windows-forbidden and control characters, cap the
/// length
pub fn sanitize_file_name(raw: &str) -> (r: String)
    ensures
        r@ == sanitized(raw@),
{
    let chars = chars_of(raw);
    let mut kept: Vec<char> = Vec::new();
    let mut i: usize = 0;
    while i < chars.len()
        invariant
            i <= chars@.len(),
            chars@ == raw@,
            kept@ == cleaned(raw@.take(i as int)),
        decreases chars@.len() - i,
    {
        let c = chars[i];
        assert(raw@.take(i + 1).drop_last() =~= raw@.take(i as int));
        if !is_control(c) {
            kept.push(replace_forbidden(c));
        }
        i = i + 1;
        assert(kept@ =~= cleaned(raw@.take(i as int)));
    }
    assert(raw@.take(raw@.len() as int) =~= raw@);
    let spaced = trim(kept.as_slice());
    let trimmed = trim_char(spaced.as_slice(), '.');
    if trimmed.len() == 0 {
        let r = "asset".to_owned();
        proof {
            reveal_strlit("asset");
        }
        r
    } else if trimmed.len() <= NAME_LIMIT {
        string_of(trimmed.as_slice())
    } else {
        let capped = slice_range(trimmed.as_slice(), 0, NAME_LIMIT);
        assert(trimmed@.subrange(0, NAME_LIMIT as int) =~= trimmed@.take(NAME_LIMIT as int));
        string_of(capped.as_slice())
    }
}

/// Neither a control nor a forbidden character
pub open spec fn is_safe_char(c: char) -> bool {
    !is_control_char(c) && !is_forbidden_char(c)
}

/// Every character of `cleaned(raw)` is safe
proof fn lemma_cleaned_chars(raw: Seq<char>)
    ensures
        forall|i: int| 0 <= i < cleaned(raw).len() ==> is_safe_char(#[trigger] cleaned(raw)[i]),
    decreases raw.len(),
{
    if raw.len() > 0 {
        let rest = cleaned(raw.drop_last());
        lemma_cleaned_chars(raw.drop_last());
        let c = raw.last();
        if is_control_char(c) {
            assert(cleaned(raw) =~= rest);
        } else {
            assert(cleaned(raw) =~= rest.push(replaced(c)));
            assert(is_safe_char(replaced(c)));
        }
    }
}

/// Trimming keeps only characters of what was trimmed
proof fn lemma_trim_safe(s: Seq<char>, p: spec_fn(char) -> bool)
    requires
        forall|i: int| 0 <= i < s.len() ==> is_safe_char(#[trigger] s[i]),
    ensures
        forall|i: int| 0 <= i < trim_while(s, p).len() ==> is_safe_char(#[trigger] trim_while(s, p)[i]),
{
    let a = lemma_trim_stretch(s, p);
    let t = trim_while(s, p);
    assert forall|i: int| 0 <= i < t.len() implies is_safe_char(#[trigger] t[i]) by {
        assert(t[i] == s[a + i]);
    }
}

/// A name with no control and no forbidden character is its own cleaning
proof fn lemma_cleaned_clean(raw: Seq<char>)
    requires
        forall|i: int| 0 <= i < raw.len() ==> is_safe_char(#[trigger] raw[i]),
    ensures
        cleaned(raw) == raw,
    decreases raw.len(),
{
    if raw.len() > 0 {
        lemma_cleaned_clean(raw.drop_last());
        assert(cleaned(raw) =~= raw.drop_last().push(raw.last()));
    }
}

/// A sanitized name is never empty, never longer than `NAME_LIMIT` characters, holds no control
/// character and none of `< > : " / \ | ? *`, and never starts with a dot — so it can be neither
/// `.` nor `..`, and cannot name a file outside the directory it is written to.
pub proof fn law_sanitized_name_is_safe(raw: Seq<char>)
    ensures
        0 < sanitized(raw).len() <= NAME_LIMIT,
        forall|i: int| 0 <= i < sanitized(raw).len() ==> is_safe_char(#[trigger] sanitized(raw)[i]),
        sanitized(raw)[0] != '.',
{
    reveal_strlit("asset");
    let c = cleaned(raw);
    lemma_cleaned_chars(raw);
    let ws = trim_ws(c);
    lemma_trim_safe(c, |x: char| is_whitespace_char(x));
    let t = trim_char_seq(ws, '.');
    lemma_trim_safe(ws, is_char('.'));
    lemma_trim_stretch(ws, is_char('.'));
    let r = sanitized(raw);
    if t.len() == 0 {
        assert(r == "asset"@);
        assert forall|i: int| 0 <= i < r.len() implies is_safe_char(#[trigger] r[i]) by {}
    } else if t.len() > NAME_LIMIT {
        assert forall|i: int| 0 <= i < r.len() implies is_safe_char(#[trigger] r[i]) by {
            assert(r[i] == t[i]);
        }
    }
}

/// A name that is already clean — no control or forbidden character, nothing to trim at either
/// end, and within the limit — is kept as it is.
pub proof fn law_clean_name_is_kept(raw: Seq<char>)
    requires
        0 < raw.len() <= NAME_LIMIT,
        forall|i: int| 0 <= i < raw.len() ==> is_safe_char(#[trigger] raw[i]),
        !is_whitespace_char(raw[0]) && !is_whitespace_char(raw.last()),
        raw[0] != '.' && raw.last() != '.',
    ensures
        sanitized(raw) == raw,
{
    lemma_cleaned_clean(raw);
    lemma_trim_untouched(raw, |x: char| is_whitespace_char(x));
    lemma_trim_untouched(raw, is_char('.'));
}

/// What a layer of the extractor is called in the export
pub open spec fn layer_name(layer: Seq<char>) -> Seq<char> {
    if layer == "BaseMap"@ {
        "Albedo"@
    } else {
        trim_end_str(layer, "Map"@)
    }
}

/// `s` without every trailing `p` (`str::trim_end_matches` with a string pattern)
pub open spec fn trim_end_str(s: Seq<char>, p: Seq<char>) -> Seq<char>
    decreases s.len(),
{
    if p.len() > 0 && has_suffix(s, p) {
        trim_end_str(s.take(s.len() - p.len()), p)
    } else {
        s
    }
}

/// The extractor calls the base layer `BaseMap` while the engine calls it Albedo; the export
/// follows the engine, and the other layers just drop the trailing `Map` (`NormalMap` → `Normal`)
pub fn export_layer_name(layer: &str) -> (r: String)
    ensures
        r@ == layer_name(layer@),
{
    let chars = chars_of(layer);
    let base = chars_of("BaseMap");
    if crate::text::chars_eq(chars.as_slice(), base.as_slice()) {
        let r = "Albedo".to_owned();
        proof {
            reveal_strlit("Albedo");
        }
        return r;
    }
    let suffix = chars_of("Map");
    proof {
        reveal_strlit("Map");
    }
    let mut rest = chars;
    assert(suffix@.len() == 3);
    while ends_with(rest.as_slice(), suffix.as_slice())
        invariant
            suffix@ == "Map"@,
            suffix@.len() == 3,
            trim_end_str(rest@, suffix@) == trim_end_str(layer@, "Map"@),
        decreases rest@.len(),
    {
        let ghost prev = rest@;
        let n = rest.len();
        rest = slice_range(rest.as_slice(), 0, n - suffix.len());
        assert(rest@ =~= prev.take(prev.len() - 3));
    }
    string_of(rest.as_slice())
}

/// A page file name without its extension; the name itself when it ends in neither spelling
pub open spec fn without_gtp_extension(name: Seq<char>) -> Seq<char> {
    if has_suffix(name, ".gtp"@) || has_suffix(name, ".GTP"@) {
        name.take(name.len() - 4)
    } else {
        name
    }
}

/// Thirty-two hex digits: the hash a page file name ends in
pub open spec fn is_hash(s: Seq<char>) -> bool {
    s.len() == 32 && forall|i: int| 0 <= i < s.len() ==> is_hex_digit_char(#[trigger] s[i])
}

/// A tile set index without its trailing `_<32 hex digits>`; any other trailing word stays
pub open spec fn without_hash_suffix(stem: Seq<char>) -> Seq<char> {
    match last_pos(stem, '_') {
        Some(p) => if is_hash(stem.skip(p + 1)) {
            stem.take(p)
        } else {
            stem
        },
        None => stem,
    }
}

/// The GTS of the tile set a page file belongs to: the page file's path with the hash dropped
/// from its file name and the extension swapped, in the same directory
pub open spec fn gts_path(gtp_path: Seq<char>) -> Seq<char> {
    match last_pos(gtp_path, '/') {
        Some(p) => {
            let dir = gtp_path.take(p);
            let stem = without_hash_suffix(without_gtp_extension(gtp_path.skip(p + 1)));
            if dir.len() == 0 {
                stem + ".gts"@
            } else {
                dir + seq!['/'] + stem + ".gts"@
            }
        },
        None => without_hash_suffix(without_gtp_extension(gtp_path)) + ".gts"@,
    }
}

/// A page file name without its extension; `name` itself when it ends in neither spelling
pub fn strip_gtp_extension(name: &str) -> (r: String)
    ensures
        r@ == without_gtp_extension(name@),
{
    let chars = chars_of(name);
    let lower = chars_of(".gtp");
    let upper = chars_of(".GTP");
    proof {
        reveal_strlit(".gtp");
        reveal_strlit(".GTP");
    }
    if ends_with(chars.as_slice(), lower.as_slice()) || ends_with(chars.as_slice(), upper.as_slice()) {
        let n = chars.len();
        let stem = slice_range(chars.as_slice(), 0, n - 4);
        assert(chars@.subrange(0, n - 4) =~= chars@.take(n - 4));
        string_of(stem.as_slice())
    } else {
        string_of(chars.as_slice())
    }
}

/// Whether every character is a hex digit
fn all_hex(v: &[char]) -> (r: bool)
    ensures
        r == forall|i: int| 0 <= i < v@.len() ==> is_hex_digit_char(#[trigger] v@[i]),
{
    let mut i: usize = 0;
    while i < v.len()
        invariant
            i <= v@.len(),
            forall|j: int| 0 <= j < i ==> is_hex_digit_char(#[trigger] v@[j]),
        decreases v@.len() - i,
    {
        if !is_hex_digit(v[i]) {
            return false;
        }
        i = i + 1;
    }
    true
}

/// A tile set index without its trailing `_<32 hex digits>`: only the index names the GTS, so any
/// other trailing word is part of it and stays
pub fn strip_hash_suffix(stem: &str) -> (r: String)
    ensures
        r@ == without_hash_suffix(stem@),
{
    let chars = chars_of(stem);
    match rfind(chars.as_slice(), '_') {
        Some(pos) => {
            let n = chars.len();
            let suffix = slice_range(chars.as_slice(), pos + 1, n);
            assert(chars@.subrange(pos + 1, n as int) =~= chars@.skip(pos + 1));
            if suffix.len() == 32 && all_hex(suffix.as_slice()) {
                let kept = slice_range(chars.as_slice(), 0, pos);
                assert(chars@.subrange(0, pos as int) =~= chars@.take(pos as int));
                string_of(kept.as_slice())
            } else {
                string_of(chars.as_slice())
            }
        },
        None => string_of(chars.as_slice()),
    }
}

/// GTP path → GTS path: strip the trailing `_<32 hex digits>` and swap the extension
/// (`Generated/Public/VirtualTextures/Albedo_Normal_Physical_5_<hash>.gtp` →
/// `Generated/Public/VirtualTextures/Albedo_Normal_Physical_5.gts`). What remains is the tile set
/// index, so every page file of that set derives the same GTS.
pub fn derive_gts_path(gtp_path: &str) -> (r: String)
    ensures
        r@ == gts_path(gtp_path@),
{
    let chars = chars_of(gtp_path);
    let ext = chars_of(".gts");
    let n = chars.len();
    // Split off first and put back at the end: only the file name loses its hash suffix, while the
    // directory has to survive into the result (a GTS sits beside its page file)
    let (dir, name) = match rfind(chars.as_slice(), '/') {
        Some(p) => {
            let d = slice_range(chars.as_slice(), 0, p);
            let f = slice_range(chars.as_slice(), p + 1, n);
            assert(chars@.subrange(0, p as int) =~= chars@.take(p as int));
            assert(chars@.subrange(p + 1, n as int) =~= chars@.skip(p + 1));
            (d, f)
        },
        None => (Vec::new(), slice_range(chars.as_slice(), 0, n)),
    };
    assert(chars@.subrange(0, n as int) =~= chars@);
    let stem_name = strip_gtp_extension(string_of(name.as_slice()).as_str());
    let stem = chars_of(strip_hash_suffix(stem_name.as_str()).as_str());
    let file = concat(stem.as_slice(), ext.as_slice());
    if dir.len() == 0 {
        string_of(file.as_slice())
    } else {
        let mut with_slash = dir;
        with_slash.push('/');
        let whole = concat(with_slash.as_slice(), file.as_slice());
        assert(whole@ =~= dir@ + seq!['/'] + stem@ + ".gts"@);
        string_of(whole.as_slice())
    }
}

/// The last `c` of `a`, `c` and then `b` is the one between them, when `b` holds none
proof fn lemma_last_pos_split(a: Seq<char>, c: char, b: Seq<char>)
    requires
        forall|j: int| 0 <= j < b.len() ==> b[j] != c,
    ensures
        last_pos(a.push(c) + b, c) == Some(a.len() as int),
    decreases b.len(),
{
    if b.len() == 0 {
        assert(a.push(c) + b =~= a.push(c));
    } else {
        lemma_last_pos_split(a, c, b.drop_last());
        assert((a.push(c) + b).drop_last() =~= a.push(c) + b.drop_last());
    }
}

/// The GTS of a page file in directory `dir` keeps the directory
proof fn lemma_gts_in_dir(dir: Seq<char>, name: Seq<char>)
    requires
        dir.len() > 0,
        forall|j: int| 0 <= j < name.len() ==> name[j] != '/',
    ensures
        gts_path(dir + seq!['/'] + name) == dir + seq!['/'] + without_hash_suffix(without_gtp_extension(name)) + ".gts"@,
{
    let path = dir + seq!['/'] + name;
    assert(path =~= dir.push('/') + name);
    lemma_last_pos_split(dir, '/', name);
    assert(path.take(dir.len() as int) =~= dir);
    assert(path.skip(dir.len() as int + 1) =~= name);
}

/// A `.gtp` extension comes off, in either spelling
proof fn lemma_gtp_extension(stem: Seq<char>, ext: Seq<char>)
    requires
        ext == ".gtp"@ || ext == ".GTP"@,
    ensures
        without_gtp_extension(stem + ext) == stem,
{
    reveal_strlit(".gtp");
    reveal_strlit(".GTP");
    let name = stem + ext;
    assert(name.skip(name.len() - 4) =~= ext);
    assert(name.take(name.len() - 4) =~= stem);
}

/// A trailing `_<hash>` comes off
proof fn lemma_hash_suffix(index: Seq<char>, hash: Seq<char>)
    requires
        is_hash(hash),
    ensures
        without_hash_suffix(index + seq!['_'] + hash) == index,
{
    let stem = index + seq!['_'] + hash;
    assert(stem =~= index.push('_') + hash);
    assert forall|j: int| 0 <= j < hash.len() implies hash[j] != '_' by {
        assert(is_hex_digit_char(hash[j]));
    }
    lemma_last_pos_split(index, '_', hash);
    assert(stem.skip(index.len() as int + 1) =~= hash);
    assert(stem.take(index.len() as int) =~= index);
}

/// Every page file of a tile set derives the same GTS: the page file
/// `<dir>/<index>_<hash>.gtp` (or `.GTP`) — for any directory, any tile set index without a `/`,
/// and any thirty-two hex digit hash — resolves to `<dir>/<index>.gts`, whatever the hash and
/// whichever spelling of the extension.
pub proof fn law_page_files_share_their_gts(dir: Seq<char>, index: Seq<char>, hash: Seq<char>, ext: Seq<char>)
    requires
        dir.len() > 0,
        forall|j: int| 0 <= j < index.len() ==> index[j] != '/',
        is_hash(hash),
        ext == ".gtp"@ || ext == ".GTP"@,
    ensures
        gts_path(dir + seq!['/'] + index + seq!['_'] + hash + ext) == dir + seq!['/'] + index + ".gts"@,
{
    reveal_strlit(".gtp");
    reveal_strlit(".GTP");
    let stem = index + seq!['_'] + hash;
    let name = stem + ext;
    assert forall|j: int| 0 <= j < name.len() implies name[j] != '/' by {
        if index.len() < j < index.len() + 1 + hash.len() {
            assert(name[j] == hash[j - index.len() - 1]);
            assert(is_hex_digit_char(hash[j - index.len() - 1]));
        }
    }
    lemma_gts_in_dir(dir, name);
    assert(dir + seq!['/'] + index + seq!['_'] + hash + ext =~= dir + seq!['/'] + name);
    lemma_gtp_extension(stem, ext);
    lemma_hash_suffix(index, hash);
}

} // verus!
