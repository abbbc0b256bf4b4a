//! The rules of the index persisted on disk: which file belongs to which game directory, and when a
//! file read back may stand in for a build.
//!
//! One file per game data directory, named after the directory itself: several installations can
//! each keep their index, and switching between them costs no scan. A file is only used while it
//! still matches the sources it was built from — the app version, the game's own paks and the mod
//! paks, each by size and modification time — so a changed source is reported rather than silently
//! answered with a stale index.

use vstd::prelude::*;
use vstd::utf8::encode_utf8;

use crate::app::{opt_view, CacheStatus};
use crate::text::{
    ascii_lower_char, ascii_lower_seq, chars_of, concat, is_ascii_seq, lemma_trim_end, lemma_trim_end_prefix,
    lowercased, owned, str_eq, string_of, to_lowercase, trim_end_while,
};

verus! {

/// Bumped whenever the written shape or what a build puts in it changes: a file from another format
/// version is refused instead of misread
pub const FORMAT_VERSION: u32 = 1;

/// Stable reasons a persisted database was refused; the frontend maps them to copy
pub const CODE_VERSION: &'static str = "version";
pub const CODE_GAME_PAKS: &'static str = "game_paks";
pub const CODE_MOD_PAKS: &'static str = "mod_paks";
pub const CODE_UNREADABLE: &'static str = "unreadable";

/// One source file of a build, as it was when the build ran.
///
/// The raw fields rather than a hash of them: a hasher free to change its output across toolchains
/// would silently orphan every cache on the disk.
#[derive(Debug, PartialEq, Eq)]
pub struct PakStamp {
    /// File name — the paks are compared as a name-ordered list
    pub name: String,
    pub size: u64,
    /// Unix seconds; 0 when the file system will not say
    pub modified: u64,
}

impl PakStamp {
    pub open spec fn view(&self) -> (Seq<char>, u64, u64) {
        (self.name@, self.size, self.modified)
    }
}

/// The stamps of a list, as values
pub open spec fn stamps_view(v: Seq<PakStamp>) -> Seq<(Seq<char>, u64, u64)> {
    v.map_values(|s: PakStamp| s.view())
}

/// Whether two stamp lists describe the same files, in the same order
pub fn same_stamps(a: &Vec<PakStamp>, b: &Vec<PakStamp>) -> (r: bool)
    ensures
        r == (stamps_view(a@) == stamps_view(b@)),
{
    if a.len() != b.len() {
        assert(stamps_view(a@).len() != stamps_view(b@).len());
        return false;
    }
    let mut i: usize = 0;
    while i < a.len()
        invariant
            a@.len() == b@.len(),
            i <= a@.len(),
            forall|j: int| 0 <= j < i ==> (#[trigger] a@[j]).view() == b@[j].view(),
        decreases a@.len() - i,
    {
        if !(str_eq(a[i].name.as_str(), b[i].name.as_str()) && a[i].size == b[i].size
            && a[i].modified == b[i].modified) {
            assert(stamps_view(a@)[i as int] != stamps_view(b@)[i as int]);
            return false;
        }
        i = i + 1;
    }
    assert(stamps_view(a@) =~= stamps_view(b@));
    true
}

// ---------------------------------------------------------------------------------------------
// The file name of a directory's index
// ---------------------------------------------------------------------------------------------

/// A directory as a stable string: `/` separators, no trailing one, lowercased.
///
/// Windows paths are case-insensitive and the frontend hands back the text the user chose, so the
/// same directory can arrive spelled differently (`D:\GOG Games\…` and `D:/gog games/…`).
pub open spec fn normalized_dir(path: Seq<char>) -> Seq<char> {
    lowercased(trim_end_while(forward_slashes(path), |c: char| c == '/'))
}

/// Every `\` of a path turned into `/`
pub open spec fn forward_slashes(path: Seq<char>) -> Seq<char> {
    path.map_values(|c: char| if c == '\\' { '/' } else { c })
}

/// `path` with `\` turned into `/`
pub fn to_forward_slashes(path: &[char]) -> (r: Vec<char>)
    ensures
        r@ == forward_slashes(path@),
{
    let mut r: Vec<char> = Vec::new();
    let mut i: usize = 0;
    while i < path.len()
        invariant
            i <= path@.len(),
            r@ == forward_slashes(path@.take(i as int)),
        decreases path@.len() - i,
    {
        let c = path[i];
        r.push(if c == '\\' { '/' } else { c });
        i = i + 1;
        assert(forward_slashes(path@.take(i as int)) =~= forward_slashes(path@.take(i - 1)).push(
            if c == '\\' { '/' } else { c },
        ));
    }
    assert(path@.take(path@.len() as int) =~= path@);
    r
}

/// A directory as a stable string: lowercased, `/` separators, no trailing one
pub fn normalize(path: &str) -> (r: String)
    ensures
        r@ == normalized_dir(path@),
{
    let chars = chars_of(path);
    let slashed = to_forward_slashes(chars.as_slice());
    let mut end: usize = slashed.len();
    while end > 0 && slashed[end - 1] == '/'
        invariant
            end <= slashed@.len(),
            forall|j: int| end <= j < slashed@.len() ==> #[trigger] slashed@[j] == '/',
        decreases end,
    {
        end = end - 1;
    }
    proof {
        lemma_trim_end(slashed@, |c: char| c == '/', end as int);
    }
    let kept = string_of(crate::text::slice_range(slashed.as_slice(), 0, end).as_slice());
    assert(slashed@.subrange(0, end as int) == slashed@.take(end as int));
    to_lowercase(kept.as_str())
}

/// FNV-1a offset basis
pub const FNV_OFFSET: u64 = 0xcbf2_9ce4_8422_2325;

/// FNV-1a prime
pub const FNV_PRIME: u64 = 0x0000_0100_0000_01b3;

/// FNV-1a (64-bit) over a byte sequence
pub open spec fn fnv1a(bytes: Seq<u8>) -> u64
    decreases bytes.len(),
{
    if bytes.len() == 0 {
        FNV_OFFSET
    } else {
        (fnv1a(bytes.drop_last()) ^ (bytes.last() as u64)).wrapping_mul(FNV_PRIME)
    }
}

/// The lowercase hex digit of a nibble
pub open spec fn hex_digit(n: u64) -> char {
    if n < 10 {
        ((n + 48) as u8) as char
    } else {
        ((n - 10 + 97) as u8) as char
    }
}

/// A `u64` as 16 lowercase hex digits, most significant first (`{:016x}`)
pub open spec fn hex16(h: u64) -> Seq<char> {
    Seq::new(16, |i: int| hex_digit((h >> ((4 * (15 - i)) as u64)) & 0xF))
}

/// `{:016x}`
fn hex_of(h: u64) -> (r: Vec<char>)
    ensures
        r@ == hex16(h),
{
    let mut r: Vec<char> = Vec::new();
    let mut i: u64 = 0;
    while i < 16
        invariant
            i <= 16,
            r@ == hex16(h).take(i as int),
        decreases 16 - i,
    {
        let shift: u64 = 4 * (15 - i);
        let n = (h >> shift) & 0xF;
        assert(((h >> shift) & 0xF) < 16) by (bit_vector);
        let c = if n < 10 {
            ((n + 48) as u8) as char
        } else {
            ((n - 10 + 97) as u8) as char
        };
        assert(c == hex_digit(n));
        r.push(c);
        i = i + 1;
        assert(hex16(h).take(i as int) =~= hex16(h).take(i - 1).push(c));
    }
    assert(hex16(h).take(16) =~= hex16(h));
    r
}

/// FNV-1a over the string's UTF-8 bytes, as 16 lowercase hex digits.
///
/// Written out rather than taken from `std::hash`: a cache file name has to keep meaning the same
/// directory across builds, which a hasher free to change its algorithm does not promise.
pub fn digest(value: &str) -> (r: String)
    ensures
        r@ == hex16(fnv1a(encode_utf8(value@))),
{
    let bytes = vstd::string::StrSliceExecFns::as_bytes_vec(value);
    let mut hash: u64 = FNV_OFFSET;
    let mut i: usize = 0;
    while i < bytes.len()
        invariant
            i <= bytes@.len(),
            hash == fnv1a(bytes@.take(i as int)),
        decreases bytes@.len() - i,
    {
        assert(bytes@.take(i + 1).drop_last() =~= bytes@.take(i as int));
        hash = (hash ^ (bytes[i] as u64)).wrapping_mul(FNV_PRIME);
        i = i + 1;
    }
    assert(bytes@.take(bytes@.len() as int) =~= bytes@);
    string_of(hex_of(hash).as_slice())
}

/// The name of the file holding the index of the directory `game_path`:
/// `database-<digest of the normalized directory>.json`
pub open spec fn cache_file_name(game_path: Seq<char>) -> Seq<char> {
    "database-"@ + hex16(fnv1a(encode_utf8(normalized_dir(game_path)))) + ".json"@
}

/// The name of the file holding the index of the directory `game_path`, inside the app's data
/// directory
pub fn cache_file(game_path: &str) -> (r: String)
    ensures
        r@ == cache_file_name(game_path@),
{
    let normalized = normalize(game_path);
    let hex = digest(normalized.as_str());
    let prefix = chars_of("database-");
    let suffix = chars_of(".json");
    let hex_chars = chars_of(hex.as_str());
    let head = concat(prefix.as_slice(), hex_chars.as_slice());
    let whole = concat(head.as_slice(), suffix.as_slice());
    string_of(whole.as_slice())
}

/// Whether `c` separates the folders of a path, in either spelling
pub open spec fn is_separator(c: char) -> bool {
    c == '/' || c == '\\'
}

/// Two spellings of one directory that differ only in which separator (`\` or `/`) stands at each
/// place name the same cache file: the index built through one spelling is found through the other
pub proof fn law_separator_spellings_share_a_cache_file(a: Seq<char>, b: Seq<char>)
    requires
        a.len() == b.len(),
        forall|i: int| 0 <= i < a.len() ==> a[i] == b[i] || (is_separator(a[i]) && is_separator(b[i])),
    ensures
        cache_file_name(a) == cache_file_name(b),
{
    assert(forward_slashes(a) =~= forward_slashes(b));
}

/// A trailing separator does not change the cache file a directory's index is kept in
pub proof fn law_trailing_separator_shares_a_cache_file(a: Seq<char>, c: char)
    requires
        is_separator(c),
    ensures
        cache_file_name(a.push(c)) == cache_file_name(a),
{
    let s = forward_slashes(a.push(c));
    assert(s =~= forward_slashes(a).push('/'));
    assert(s.drop_last() =~= forward_slashes(a));
}

/// Two paths that agree, place by place, on each character up to ASCII case keep that agreement
/// once their trailing `/` are trimmed
proof fn lemma_trimmed_alike(x: Seq<char>, y: Seq<char>)
    requires
        x.len() == y.len(),
        forall|i: int| 0 <= i < x.len() ==> #[trigger] ascii_lower_char(x[i]) == ascii_lower_char(y[i]),
    ensures
        ascii_lower_seq(trim_end_while(x, |c: char| c == '/')) == ascii_lower_seq(
            trim_end_while(y, |c: char| c == '/'),
        ),
    decreases x.len(),
{
    if x.len() > 0 {
        assert(ascii_lower_char(x[x.len() - 1]) == ascii_lower_char(y[x.len() - 1]));
    }
    if x.len() > 0 && x.last() == '/' {
        let (dx, dy) = (x.drop_last(), y.drop_last());
        assert forall|i: int| 0 <= i < dx.len() implies #[trigger] ascii_lower_char(dx[i])
            == ascii_lower_char(dy[i]) by {
            assert(dx[i] == x[i] && dy[i] == y[i]);
            assert(ascii_lower_char(x[i]) == ascii_lower_char(y[i]));
        }
        lemma_trimmed_alike(dx, dy);
    } else {
        assert(ascii_lower_seq(x) =~= ascii_lower_seq(y));
    }
}

/// The trimmed `/`-spelling of an ASCII path is ASCII
proof fn lemma_trimmed_ascii(a: Seq<char>)
    requires
        is_ascii_seq(a),
    ensures
        is_ascii_seq(trim_end_while(forward_slashes(a), |c: char| c == '/')),
{
    let f = forward_slashes(a);
    let t = trim_end_while(f, |c: char| c == '/');
    lemma_trim_end_prefix(f, |c: char| c == '/');
    assert forall|i: int| 0 <= i < t.len() implies (#[trigger] t[i] as u32) < 128 by {
        assert(t[i] == f[i]);
        assert(a[i] as u32 <= 127);
    }
}

/// Whether `a` and `b` are ASCII spellings of one path: alike up to the case of their letters and
/// to which separator (`\` or `/`) stands at each place
pub open spec fn same_ascii_path(a: Seq<char>, b: Seq<char>) -> bool {
    &&& is_ascii_seq(a)
    &&& is_ascii_seq(b)
    &&& a.len() == b.len()
    &&& forall|i: int|
        0 <= i < a.len() ==> #[trigger] ascii_lower_char(a[i]) == ascii_lower_char(b[i]) || (is_separator(a[i])
            && is_separator(b[i]))
}

/// Two ASCII spellings of one path agree, place by place and up to ASCII case, once their
/// separators are all `/`; both stay ASCII
pub proof fn lemma_slashed_alike(a: Seq<char>, b: Seq<char>)
    requires
        same_ascii_path(a, b),
    ensures
        forward_slashes(a).len() == forward_slashes(b).len(),
        forall|i: int|
            0 <= i < forward_slashes(a).len() ==> #[trigger] ascii_lower_char(forward_slashes(a)[i])
                == ascii_lower_char(forward_slashes(b)[i]),
        is_ascii_seq(forward_slashes(a)),
        is_ascii_seq(forward_slashes(b)),
        ascii_lower_seq(forward_slashes(a)) == ascii_lower_seq(forward_slashes(b)),
{
    let fa = forward_slashes(a);
    let fb = forward_slashes(b);
    assert forall|i: int| 0 <= i < fa.len() implies #[trigger] ascii_lower_char(fa[i]) == ascii_lower_char(
        fb[i],
    ) by {
        assert(ascii_lower_char(a[i]) == ascii_lower_char(b[i]) || (is_separator(a[i]) && is_separator(b[i])));
        assert(a[i] as u32 <= 127);
        assert(b[i] as u32 <= 127);
    }
    assert forall|i: int| 0 <= i < fa.len() implies (#[trigger] fa[i] as u32) < 128 by {
        assert(a[i] as u32 <= 127);
    }
    assert forall|i: int| 0 <= i < fb.len() implies (#[trigger] fb[i] as u32) < 128 by {
        assert(b[i] as u32 <= 127);
    }
    assert forall|i: int| 0 <= i < fa.len() implies #[trigger] ascii_lower_seq(fa)[i] == ascii_lower_seq(fb)[i] by {
        assert(ascii_lower_char(fa[i]) == ascii_lower_char(fb[i]));
    }
    assert(ascii_lower_seq(fa) =~= ascii_lower_seq(fb));
}

/// Two ASCII spellings of one directory that differ only in the case of their letters and in
/// which separator stands at each place (`D:\GOG Games\Baldurs Gate 3\Data` and
/// `d:/gog games/baldurs gate 3/data`) name the same cache file
pub proof fn law_case_and_separator_spellings_share_a_cache_file(a: Seq<char>, b: Seq<char>)
    requires
        same_ascii_path(a, b),
    ensures
        cache_file_name(a) == cache_file_name(b),
{
    lemma_slashed_alike(a, b);
    lemma_trimmed_alike(forward_slashes(a), forward_slashes(b));
    lemma_trimmed_ascii(a);
    lemma_trimmed_ascii(b);
}

// ---------------------------------------------------------------------------------------------
// Whether a persisted index may stand in for a build
// ---------------------------------------------------------------------------------------------

/// What reading a directory's index found
pub enum Loaded<T> {
    /// A matching index, with the unix time it was built at
    Cache { built_at: u64, payload: T },
    /// Nothing was ever written for this directory
    Missing,
    /// A file is there but cannot be used; `code` is one of the `CODE_*` values above
    Stale { code: String, detail: Option<String> },
}

/// Whether the file was written by this very build: one test for both the format and the app
/// version, since a format version only changes alongside an app version
pub fn written_by_this_build(format_version: u32, app_version: &str, this_version: &str) -> (r: bool)
    ensures
        r == (format_version == FORMAT_VERSION && app_version@ == this_version@),
{
    format_version == FORMAT_VERSION && str_eq(app_version, this_version)
}

/// The reason a persisted index with these fields is refused, or `None` when it may be used: a
/// file from another build, changed game paks, changed mod paks, or an index holding no visual
pub open spec fn refusal(
    format_version: u32,
    app_version: Seq<char>,
    this_version: Seq<char>,
    stored_game: Seq<(Seq<char>, u64, u64)>,
    stored_mods: Seq<(Seq<char>, u64, u64)>,
    current_game: Seq<(Seq<char>, u64, u64)>,
    current_mods: Seq<(Seq<char>, u64, u64)>,
    visual_count: nat,
) -> Option<(Seq<char>, Option<Seq<char>>)> {
    if !(format_version == FORMAT_VERSION && app_version == this_version) {
        Some((CODE_VERSION@, Some(app_version)))
    } else if stored_game != current_game {
        Some((CODE_GAME_PAKS@, None))
    } else if stored_mods != current_mods {
        Some((CODE_MOD_PAKS@, None))
    } else if visual_count == 0 {
        Some((CODE_UNREADABLE@, Some(EMPTY_INDEX@)))
    } else {
        None
    }
}

/// Whether two lists of stamps name the same files, in the same order, each with the same size and
/// the same modification time
pub open spec fn stamps_agree(a: Seq<(Seq<char>, u64, u64)>, b: Seq<(Seq<char>, u64, u64)>) -> bool {
    &&& a.len() == b.len()
    &&& forall|i: int| 0 <= i < a.len() ==> (#[trigger] a[i]).0 == b[i].0 && a[i].1 == b[i].1 && a[i].2 == b[i].2
}

/// Field-by-field agreement of stamps is equality of the lists
proof fn lemma_stamps_agree(a: Seq<(Seq<char>, u64, u64)>, b: Seq<(Seq<char>, u64, u64)>)
    ensures
        stamps_agree(a, b) <==> a == b,
{
    if stamps_agree(a, b) {
        assert forall|i: int| 0 <= i < a.len() implies a[i] == b[i] by {
            assert(a[i].0 == b[i].0 && a[i].1 == b[i].1 && a[i].2 == b[i].2);
        }
        assert(a =~= b);
    }
}

/// A persisted index stands in for a build exactly when it was written by this format and app
/// version, its stamps of the game's paks and of the mods agree with the current ones file by file
/// — name, size and modification time — and it holds a visual. A mod rebuilt in place (same name,
/// other size or time) is refused as changed mods; game paks that changed are refused as such,
/// before the mods are looked at.
pub proof fn law_a_reused_index_matches_its_sources(
    format_version: u32,
    app_version: Seq<char>,
    this_version: Seq<char>,
    stored_game: Seq<(Seq<char>, u64, u64)>,
    stored_mods: Seq<(Seq<char>, u64, u64)>,
    current_game: Seq<(Seq<char>, u64, u64)>,
    current_mods: Seq<(Seq<char>, u64, u64)>,
    visual_count: nat,
)
    ensures
        refusal(format_version, app_version, this_version, stored_game, stored_mods, current_game, current_mods, visual_count)
            is None <==> {
            &&& format_version == FORMAT_VERSION
            &&& app_version == this_version
            &&& stamps_agree(stored_game, current_game)
            &&& stamps_agree(stored_mods, current_mods)
            &&& visual_count > 0
        },
        format_version == FORMAT_VERSION && app_version == this_version && stamps_agree(stored_game, current_game)
            && !stamps_agree(stored_mods, current_mods) ==> refusal(
            format_version,
            app_version,
            this_version,
            stored_game,
            stored_mods,
            current_game,
            current_mods,
            visual_count,
        ) == Some((CODE_MOD_PAKS@, None::<Seq<char>>)),
        format_version == FORMAT_VERSION && app_version == this_version && !stamps_agree(stored_game, current_game)
            ==> refusal(
            format_version,
            app_version,
            this_version,
            stored_game,
            stored_mods,
            current_game,
            current_mods,
            visual_count,
        ) == Some((CODE_GAME_PAKS@, None::<Seq<char>>)),
{
    lemma_stamps_agree(stored_game, current_game);
    lemma_stamps_agree(stored_mods, current_mods);
}

/// The detail of an index refused for holding no visual
pub const EMPTY_INDEX: &'static str = "the persisted index holds no visual";

/// Check a persisted index against the sources as they are now.
///
/// `format_version`, `app_version`, `built_at` and the two stored stamp lists are the file's own
/// fields, `current_game` / `current_mods` the stamps of the sources now, `visual_count` the number
/// of visuals the stored index holds: an empty index would look like a built database to every
/// command that asks for one, and the page would report zero of everything.
pub fn check_persisted<T>(
    format_version: u32,
    app_version: String,
    built_at: u64,
    stored_game: &Vec<PakStamp>,
    stored_mods: &Vec<PakStamp>,
    current_game: &Vec<PakStamp>,
    current_mods: &Vec<PakStamp>,
    visual_count: usize,
    this_version: &str,
    payload: T,
) -> (r: Loaded<T>)
    ensures
        match refusal(
            format_version,
            app_version@,
            this_version@,
            stamps_view(stored_game@),
            stamps_view(stored_mods@),
            stamps_view(current_game@),
            stamps_view(current_mods@),
            visual_count as nat,
        ) {
            Some((code, detail)) => r matches Loaded::Stale { code: c, detail: d } && c@ == code && opt_view(d) == detail,
            None => r matches Loaded::Cache { built_at: b, payload: p } && b == built_at && p == payload,
        },
{
    if !written_by_this_build(format_version, app_version.as_str(), this_version) {
        return Loaded::Stale { code: owned(CODE_VERSION), detail: Some(app_version) };
    }
    if !same_stamps(stored_game, current_game) {
        return Loaded::Stale { code: owned(CODE_GAME_PAKS), detail: None };
    }
    if !same_stamps(stored_mods, current_mods) {
        return Loaded::Stale { code: owned(CODE_MOD_PAKS), detail: None };
    }
    if visual_count == 0 {
        return Loaded::Stale { code: owned(CODE_UNREADABLE), detail: Some(owned(EMPTY_INDEX)) };
    }
    Loaded::Cache { built_at, payload }
}

/// What a read of the file says, as the status the page reports and the index to publish (when one
/// came back): a matching file is `loaded`, a missing one `idle` (the ordinary first-run case), a
/// refused one `stale` with its reason
pub fn read_cache<T>(loaded: Loaded<T>) -> (r: (CacheStatus, Option<T>))
    ensures
        match loaded {
            Loaded::Cache { built_at, payload } => r.0.state@ == "loaded"@ && r.0.built_at == Some(built_at) && r.0.code is None && r.0.detail is None && r.1 == Some(payload),
            Loaded::Missing => r.0.state@ == "idle"@ && r.0.built_at is None && r.0.code is None && r.0.detail is None && r.1 is None,
            Loaded::Stale { code, detail } => r.0.state@ == "stale"@ && r.0.built_at is None && opt_view(r.0.code) == Some(code@) && opt_view(r.0.detail) == opt_view(detail) && r.1 is None,
        },
{
    match loaded {
        Loaded::Cache { built_at, payload } => (CacheStatus::loaded(built_at), Some(payload)),
        Loaded::Missing => (CacheStatus::idle(), None),
        Loaded::Stale { code, detail } => (CacheStatus::stale(code.as_str(), detail), None),
    }
}

} // verus!
