//! The merged resource database as the app holds it: visual assets with the textures and virtual
//! textures their materials bind, indexed by GUID.
//!
//! The shapes follow the game's own banks (`VisualBank`, `TextureBank`, `VirtualTextureBank`): the
//! parser fills them, and everything the app lists, exports or merges reads them from here.

use vstd::prelude::*;

use crate::app::{copy_opt, opt_view};
use crate::strmap::StrMap;

verus! {

/// Reference to a DDS texture in `TextureBank`
#[derive(Debug)]
pub struct TextureRef {
    /// Texture resource ID (GUID)
    pub id: String,
    /// Human-readable name
    pub name: String,
    /// Path to the DDS source file
    pub dds_path: String,
    /// Pak file where this texture is located
    pub source_pak: String,
    /// Texture width in pixels
    pub width: u32,
    /// Texture height in pixels
    pub height: u32,
    /// Parameter name in the material binding it (e.g. `MSKColor`, `NormalMap`)
    pub parameter_name: Option<String>,
}

/// The values of a texture reference
pub struct TextureRefView {
    pub id: Seq<char>,
    pub name: Seq<char>,
    pub dds_path: Seq<char>,
    pub source_pak: Seq<char>,
    pub width: u32,
    pub height: u32,
    pub parameter_name: Option<Seq<char>>,
}

impl DeepView for TextureRef {
    type V = TextureRefView;

    open spec fn deep_view(&self) -> TextureRefView {
        TextureRefView {
            id: self.id@,
            name: self.name@,
            dds_path: self.dds_path@,
            source_pak: self.source_pak@,
            width: self.width,
            height: self.height,
            parameter_name: opt_view(self.parameter_name),
        }
    }
}

impl TextureRef {
    /// A copy of this reference
    pub fn duplicate(&self) -> (r: Self)
        ensures
            r.deep_view() == self.deep_view(),
    {
        TextureRef {
            id: self.id.clone(),
            name: self.name.clone(),
            dds_path: self.dds_path.clone(),
            source_pak: self.source_pak.clone(),
            width: self.width,
            height: self.height,
            parameter_name: copy_opt(&self.parameter_name),
        }
    }
}

/// Reference to a virtual (streaming) texture in `VirtualTextureBank`
#[derive(Debug)]
pub struct VirtualTextureRef {
    /// Virtual texture resource ID (GUID)
    pub id: String,
    /// Human-readable name
    pub name: String,
    /// `GTex` file name hash (32 hex digits)
    pub gtex_hash: String,
}

/// The values of a virtual texture reference
pub struct VirtualTextureRefView {
    pub id: Seq<char>,
    pub name: Seq<char>,
    pub gtex_hash: Seq<char>,
}

impl DeepView for VirtualTextureRef {
    type V = VirtualTextureRefView;

    open spec fn deep_view(&self) -> VirtualTextureRefView {
        VirtualTextureRefView { id: self.id@, name: self.name@, gtex_hash: self.gtex_hash@ }
    }
}

impl VirtualTextureRef {
    /// A copy of this reference
    pub fn duplicate(&self) -> (r: Self)
        ensures
            r.deep_view() == self.deep_view(),
    {
        VirtualTextureRef {
            id: self.id.clone(),
            name: self.name.clone(),
            gtex_hash: self.gtex_hash.clone(),
        }
    }
}

/// A visual asset (mesh) with the resources its materials bind
#[derive(Debug)]
pub struct VisualAsset {
    /// The visual resource ID (GUID)
    pub id: String,
    /// Human-readable name (e.g. `HUM_M_ARM_Robe_C_Bracers_0`)
    pub name: String,
    /// Path to the GR2 source file
    pub gr2_path: String,
    /// Pak file where the GR2 mesh is located
    pub source_pak: String,
    /// Material IDs referenced by this visual, in its own order
    pub material_ids: Vec<String>,
    /// Resolved DDS textures
    pub textures: Vec<TextureRef>,
    /// Resolved virtual textures
    pub virtual_textures: Vec<VirtualTextureRef>,
}

/// The values of a visual asset
pub struct VisualAssetView {
    pub id: Seq<char>,
    pub name: Seq<char>,
    pub gr2_path: Seq<char>,
    pub source_pak: Seq<char>,
    pub material_ids: Seq<Seq<char>>,
    pub textures: Seq<TextureRefView>,
    pub virtual_textures: Seq<VirtualTextureRefView>,
}

impl DeepView for VisualAsset {
    type V = VisualAssetView;

    open spec fn deep_view(&self) -> VisualAssetView {
        VisualAssetView {
            id: self.id@,
            name: self.name@,
            gr2_path: self.gr2_path@,
            source_pak: self.source_pak@,
            material_ids: self.material_ids.deep_view(),
            textures: self.textures.deep_view(),
            virtual_textures: self.virtual_textures.deep_view(),
        }
    }
}

/// A copy of a list of strings
pub fn copy_strings(v: &Vec<String>) -> (r: Vec<String>)
    ensures
        r.deep_view() == v.deep_view(),
{
    let mut r: Vec<String> = Vec::new();
    let mut i: usize = 0;
    while i < v.len()
        invariant
            i <= v@.len(),
            r.deep_view() == v.deep_view().take(i as int),
        decreases v@.len() - i,
    {
        let ghost prev = r.deep_view();
        r.push(v[i].clone());
        i = i + 1;
        assert(r.deep_view() =~= prev.push(v@[i - 1].deep_view()));
        assert(v.deep_view().take(i as int) =~= v.deep_view().take(i - 1).push(v@[i - 1].deep_view()));
    }
    assert(v.deep_view().take(v@.len() as int) =~= v.deep_view());
    r
}

/// A copy of a list of texture references
pub fn copy_textures(v: &Vec<TextureRef>) -> (r: Vec<TextureRef>)
    ensures
        r.deep_view() == v.deep_view(),
{
    let mut r: Vec<TextureRef> = Vec::new();
    let mut i: usize = 0;
    while i < v.len()
        invariant
            i <= v@.len(),
            r.deep_view() == v.deep_view().take(i as int),
        decreases v@.len() - i,
    {
        let ghost prev = r.deep_view();
        r.push(v[i].duplicate());
        i = i + 1;
        assert(r.deep_view() =~= prev.push(v@[i - 1].deep_view()));
        assert(v.deep_view().take(i as int) =~= v.deep_view().take(i - 1).push(v@[i - 1].deep_view()));
    }
    assert(v.deep_view().take(v@.len() as int) =~= v.deep_view());
    r
}

/// A copy of a list of virtual texture references
pub fn copy_virtual_textures(v: &Vec<VirtualTextureRef>) -> (r: Vec<VirtualTextureRef>)
    ensures
        r.deep_view() == v.deep_view(),
{
    let mut r: Vec<VirtualTextureRef> = Vec::new();
    let mut i: usize = 0;
    while i < v.len()
        invariant
            i <= v@.len(),
            r.deep_view() == v.deep_view().take(i as int),
        decreases v@.len() - i,
    {
        let ghost prev = r.deep_view();
        r.push(v[i].duplicate());
        i = i + 1;
        assert(r.deep_view() =~= prev.push(v@[i - 1].deep_view()));
        assert(v.deep_view().take(i as int) =~= v.deep_view().take(i - 1).push(v@[i - 1].deep_view()));
    }
    assert(v.deep_view().take(v@.len() as int) =~= v.deep_view());
    r
}

impl VisualAsset {
    /// A copy of this asset
    pub fn duplicate(&self) -> (r: Self)
        ensures
            r.deep_view() == self.deep_view(),
    {
        VisualAsset {
            id: self.id.clone(),
            name: self.name.clone(),
            gr2_path: self.gr2_path.clone(),
            source_pak: self.source_pak.clone(),
            material_ids: copy_strings(&self.material_ids),
            textures: copy_textures(&self.textures),
            virtual_textures: copy_virtual_textures(&self.virtual_textures),
        }
    }
}

/// The page file resolved for one `GTex` hash
#[derive(Debug)]
pub struct GtpMatch {
    /// The `GTex` hash that was searched for
    pub gtex_hash: String,
    /// Path to the `.gtp` file inside the pak
    pub gtp_path: String,
    /// Path to the pak holding it
    pub pak_path: String,
}

/// The values of a page file match
pub struct GtpMatchView {
    pub gtex_hash: Seq<char>,
    pub gtp_path: Seq<char>,
    pub pak_path: Seq<char>,
}

impl DeepView for GtpMatch {
    type V = GtpMatchView;

    open spec fn deep_view(&self) -> GtpMatchView {
        GtpMatchView {
            gtex_hash: self.gtex_hash@,
            gtp_path: self.gtp_path@,
            pak_path: self.pak_path@,
        }
    }
}

/// The complete asset database: visuals by GUID (plus the name and GR2 file indexes beside them),
/// and the textures and virtual textures they may bind
pub struct MergedIndex {
    /// Source the database was built from
    pub source_path: String,
    /// Visual assets indexed by their GUID
    pub visuals_by_id: StrMap<VisualAsset>,
    /// Visual GUID indexed by visual name
    pub visuals_by_name: StrMap<String>,
    /// Visual GUIDs indexed by GR2 file name (one GR2 can back several visuals)
    pub visuals_by_gr2: StrMap<Vec<String>>,
    /// Textures indexed by their GUID
    pub textures: StrMap<TextureRef>,
    /// Virtual textures indexed by their GUID
    pub virtual_textures: StrMap<VirtualTextureRef>,
}

impl MergedIndex {
    /// Every map of the index is well formed
    pub open spec fn wf(&self) -> bool {
        &&& self.visuals_by_id.wf()
        &&& forall|k: Seq<char>| #[trigger] self.visuals_by_id@.contains_key(k) ==> self.visuals_by_id@[k].id == k
        &&& self.visuals_by_name.wf()
        &&& self.visuals_by_gr2.wf()
        &&& self.textures.wf()
        &&& self.virtual_textures.wf()
    }

    /// An empty database built from `source_path`
    pub fn new(source_path: String) -> (r: Self)
        ensures
            r.wf(),
            r.source_path@ == source_path@,
            r.visuals_by_id@ == Map::<Seq<char>, VisualAssetView>::empty(),
            r.visuals_by_name@ == Map::<Seq<char>, Seq<char>>::empty(),
            r.visuals_by_gr2@ == Map::<Seq<char>, Seq<Seq<char>>>::empty(),
            r.textures@ == Map::<Seq<char>, TextureRefView>::empty(),
            r.virtual_textures@ == Map::<Seq<char>, VirtualTextureRefView>::empty(),
    {
        MergedIndex {
            source_path,
            visuals_by_id: StrMap::new(),
            visuals_by_name: StrMap::new(),
            visuals_by_gr2: StrMap::new(),
            textures: StrMap::new(),
            virtual_textures: StrMap::new(),
        }
    }
}

} // verus!
