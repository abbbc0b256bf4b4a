//! Textures: a row of the asset's texture list.

use vstd::prelude::*;

use crate::app::{copy_opt, opt_view};
use crate::model::{TextureRef, TextureRefView, VisualAsset};
use crate::source::{source_of, source_spec, ModSources};

verus! {

/// Texture reference (DDS): a row of the asset's texture list (the detail panel), and — copied —
/// the entry the export manifest material binding it carries: the resource stated in full rather
/// than a GUID to look up
#[derive(Debug)]
pub struct TextureSummary {
    pub id: String,
    pub name: String,
    /// Mod providing this texture; absent when it comes from the game
    pub source: Option<String>,
    pub path: String,
    pub width: u32,
    pub height: u32,
    pub parameter_name: Option<String>,
}

/// The values of a texture row
pub struct TextureSummaryView {
    pub id: Seq<char>,
    pub name: Seq<char>,
    pub source: Option<Seq<char>>,
    pub path: Seq<char>,
    pub width: u32,
    pub height: u32,
    pub parameter_name: Option<Seq<char>>,
}

impl DeepView for TextureSummary {
    type V = TextureSummaryView;

    open spec fn deep_view(&self) -> TextureSummaryView {
        TextureSummaryView {
            id: self.id@,
            name: self.name@,
            source: opt_view(self.source),
            path: self.path@,
            width: self.width,
            height: self.height,
            parameter_name: opt_view(self.parameter_name),
        }
    }
}

/// The row of texture `t`, labeled with the mod that provides it
pub open spec fn texture_row(t: TextureRefView, sources: Map<Seq<char>, Seq<char>>) -> TextureSummaryView {
    TextureSummaryView {
        id: t.id,
        name: t.name,
        source: source_spec(sources, t.id),
        path: t.dds_path,
        width: t.width,
        height: t.height,
        parameter_name: t.parameter_name,
    }
}

/// A texture row shows the texture it was made from: its GUID, name, DDS path, width and height
/// (not swapped), and the parameter it is bound to, as the texture states them; only its source is
/// the row's own, the mod the source map names for the GUID, or none
pub proof fn law_a_texture_row_shows_its_texture(t: TextureRefView, sources: Map<Seq<char>, Seq<char>>)
    ensures
        texture_row(t, sources).id == t.id,
        texture_row(t, sources).name == t.name,
        texture_row(t, sources).path == t.dds_path,
        texture_row(t, sources).width == t.width,
        texture_row(t, sources).height == t.height,
        texture_row(t, sources).parameter_name == t.parameter_name,
        sources.contains_key(t.id) ==> texture_row(t, sources).source == Some(sources[t.id]),
        !sources.contains_key(t.id) ==> texture_row(t, sources).source is None,
{
}

impl TextureSummary {
    /// The row of one texture reference; its source is settled by the caller, which is the only
    /// place holding the source map
    pub fn from_texture(value: &TextureRef) -> (r: Self)
        ensures
            r.deep_view() == (TextureSummaryView { source: None, ..texture_row(value.deep_view(), Map::empty()) }),
    {
        TextureSummary {
            id: value.id.clone(),
            name: value.name.clone(),
            source: None,
            path: value.dds_path.clone(),
            width: value.width,
            height: value.height,
            parameter_name: copy_opt(&value.parameter_name),
        }
    }

    /// A copy of this row
    pub fn duplicate(&self) -> (r: Self)
        ensures
            r.deep_view() == self.deep_view(),
    {
        TextureSummary {
            id: self.id.clone(),
            name: self.name.clone(),
            source: copy_opt(&self.source),
            path: self.path.clone(),
            width: self.width,
            height: self.height,
            parameter_name: copy_opt(&self.parameter_name),
        }
    }
}

/// The textures of `value`, in the asset's own order: the texture list of the detail panel, and the
/// rows the export manifest builds its material rows from
pub fn texture_summaries(value: &VisualAsset, sources: &ModSources) -> (r: Vec<TextureSummary>)
    requires
        sources.wf(),
    ensures
        r.deep_view() == value.textures.deep_view().map_values(|t: TextureRefView| texture_row(t, sources@)),
{
    let ghost expected = value.textures.deep_view().map_values(|t: TextureRefView| texture_row(t, sources@));
    let mut rows: Vec<TextureSummary> = Vec::new();
    let mut i: usize = 0;
    while i < value.textures.len()
        invariant
            i <= value.textures@.len(),
            sources.wf(),
            expected == value.textures.deep_view().map_values(|t: TextureRefView| texture_row(t, sources@)),
            rows.deep_view() == expected.take(i as int),
        decreases value.textures@.len() - i,
    {
        let texture = &value.textures[i];
        let mut summary = TextureSummary::from_texture(texture);
        summary.source = source_of(sources, texture.id.as_str());
        let ghost prev = rows.deep_view();
        rows.push(summary);
        i = i + 1;
        assert(rows.deep_view() =~= prev.push(expected[i - 1]));
        assert(expected.take(i as int) =~= expected.take(i - 1).push(expected[i - 1]));
    }
    assert(expected.take(value.textures@.len() as int) =~= expected);
    rows
}

} // verus!
