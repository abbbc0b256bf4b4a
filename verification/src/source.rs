//! Where a resource comes from: the mod that provides it, or nothing for the game's own.

use vstd::prelude::*;

use crate::app::opt_view;
use crate::strmap::StrMap;

verus! {

/// The resources a mod provides, by resource GUID, each mapped to the mod's name; a GUID absent
/// here comes from the game itself
pub type ModSources = StrMap<String>;

/// The mod providing the resource `id`, as a value: `None` for the game's own
pub open spec fn source_spec(sources: Map<Seq<char>, Seq<char>>, id: Seq<char>) -> Option<Seq<char>> {
    if sources.contains_key(id) {
        Some(sources[id])
    } else {
        None
    }
}

/// The mod that provides a resource, or `None` for the game's own
pub fn source_of(sources: &ModSources, id: &str) -> (r: Option<String>)
    requires
        sources.wf(),
    ensures
        opt_view(r) == source_spec(sources@, id@),
{
    match sources.get(id) {
        Some(name) => Some(name.clone()),
        None => None,
    }
}

} // verus!
