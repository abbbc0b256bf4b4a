//! What the app reports about itself: the statistics and cache state of the index it holds, and the
//! envelope a page is answered with.

use vstd::prelude::*;

use crate::text::owned;

verus! {

/// Database statistics
#[derive(Debug, Clone, Copy, PartialEq, Eq)]
pub struct DatabaseStats {
    pub visual_count: usize,
    pub material_count: usize,
    pub texture_count: usize,
    pub virtual_texture_count: usize,
}

/// What the session knows about the index persisted on disk, so the Database page can say where
/// its statistics came from.
///
/// `state` is one of:
/// - `idle` — nothing to report: no directory selected yet, or the index was built in this session
/// - `loaded` — the index was read back from disk; `built_at` is the unix time it was built at
/// - `stale` — a file is there but was refused; `code` says why
#[derive(Debug)]
pub struct CacheStatus {
    pub state: String,
    /// Unix seconds the persisted index was built at (only for `loaded`)
    pub built_at: Option<u64>,
    /// Stable reason a file was refused: one of `version`, `game_paks`, `mod_paks`, `unreadable`
    pub code: Option<String>,
    /// Raw detail behind a `code` that needs one: the version that wrote the file, or the error
    pub detail: Option<String>,
}

/// The values of a cache status
pub struct CacheStatusView {
    pub state: Seq<char>,
    pub built_at: Option<u64>,
    pub code: Option<Seq<char>>,
    pub detail: Option<Seq<char>>,
}

/// The characters of an optional string
pub open spec fn opt_view(o: Option<String>) -> Option<Seq<char>> {
    match o {
        Some(s) => Some(s@),
        None => None,
    }
}

/// A copy of an optional string
pub fn copy_opt(o: &Option<String>) -> (r: Option<String>)
    ensures
        opt_view(r) == opt_view(*o),
{
    match o {
        Some(s) => Some(s.clone()),
        None => None,
    }
}

impl CacheStatus {
    pub open spec fn view(&self) -> CacheStatusView {
        CacheStatusView {
            state: self.state@,
            built_at: self.built_at,
            code: opt_view(self.code),
            detail: opt_view(self.detail),
        }
    }

    /// Nothing to report
    pub fn idle() -> (r: Self)
        ensures
            r.state@ == "idle"@,
            r.built_at is None,
            r.code is None,
            r.detail is None,
    {
        CacheStatus { state: owned("idle"), built_at: None, code: None, detail: None }
    }

    /// The index came back from disk
    pub fn loaded(built_at: u64) -> (r: Self)
        ensures
            r.state@ == "loaded"@,
            r.built_at == Some(built_at),
            r.code is None,
            r.detail is None,
    {
        CacheStatus { state: owned("loaded"), built_at: Some(built_at), code: None, detail: None }
    }

    /// A persisted index was found but could not be used
    pub fn stale(code: &str, detail: Option<String>) -> (r: Self)
        ensures
            r.state@ == "stale"@,
            r.built_at is None,
            opt_view(r.code) == Some(code@),
            opt_view(r.detail) == opt_view(detail),
    {
        CacheStatus { state: owned("stale"), built_at: None, code: Some(owned(code)), detail }
    }

    /// A copy of this status
    pub fn duplicate(&self) -> (r: Self)
        ensures
            r.view() == self.view(),
    {
        CacheStatus {
            state: self.state.clone(),
            built_at: self.built_at,
            code: copy_opt(&self.code),
            detail: copy_opt(&self.detail),
        }
    }
}

/// Everything a page needs to render without asking anything else: the game data directory this
/// session works on, the statistics of the index held for it, and where that index came from
#[derive(Debug)]
pub struct AppSnapshot {
    /// The game data directory in use, or `None` while none is set
    pub game_path: Option<String>,
    /// Statistics of the index held, or `None` when nothing is built yet
    pub stats: Option<DatabaseStats>,
    pub cache: CacheStatus,
}

/// App metadata for the About page
#[derive(Debug)]
pub struct AppInfo {
    /// Application version (compile-time, kept in sync with the bundle configuration)
    pub version: String,
}

/// Generic pagination result
#[derive(Debug)]
pub struct Page<T> {
    pub items: Vec<T>,
    pub total: usize,
    pub offset: usize,
}

} // verus!
