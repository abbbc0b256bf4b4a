//! Mod support: what a mod's banks contribute to the index, read out of their LSX documents.
//!
//! A mod ships its banks either as one file per resource or as a single `_merged.lsf`. The format
//! is the game's own — `VisualBank` / `MaterialBank` / `TextureBank` / `VirtualTextureBank` regions,
//! each holding `Resource` nodes. Mod resources land in the same maps as the game's own and
//! override them by GUID (see `merge`).

use vstd::prelude::*;

use crate::lsx::{attr, attr_spec, resource_nodes, resources_of, LsxDocument, LsxElement, LsxRegion};
use crate::model::{TextureRef, TextureRefView, VirtualTextureRef, VirtualTextureRefView, VisualAsset, VisualAssetView};
use crate::number::{parse_u32, parse_u32_spec};
use crate::strmap::StrMap;
use crate::text::{chars_of, is_empty_str, str_eq};

verus! {

/// A texture a mod material binds, with the parameter that binds it
#[derive(Debug)]
pub struct TextureParam {
    pub parameter_name: String,
    pub texture_id: String,
}

impl DeepView for TextureParam {
    type V = (Seq<char>, Seq<char>);

    open spec fn deep_view(&self) -> (Seq<char>, Seq<char>) {
        (self.parameter_name@, self.texture_id@)
    }
}

/// One material read from a mod's `MaterialBank`
#[derive(Debug)]
pub struct ModMaterial {
    pub name: String,
    pub source_file: String,
    /// The textures it binds, in parameter order
    pub textures: Vec<TextureParam>,
    /// GUIDs of the virtual textures it binds
    pub virtual_textures: Vec<String>,
}

/// The values of a mod material
pub struct ModMaterialView {
    pub name: Seq<char>,
    pub source_file: Seq<char>,
    pub textures: Seq<(Seq<char>, Seq<char>)>,
    pub virtual_textures: Seq<Seq<char>>,
}

impl DeepView for ModMaterial {
    type V = ModMaterialView;

    open spec fn deep_view(&self) -> ModMaterialView {
        ModMaterialView {
            name: self.name@,
            source_file: self.source_file@,
            textures: self.textures.deep_view(),
            virtual_textures: self.virtual_textures.deep_view(),
        }
    }
}

/// Everything one mod contributes to the index
pub struct ModAssets {
    /// The mod's name, as the UI labels its resources
    pub name: String,
    /// Visuals whose texture lists are still unresolved: resolving needs the whole database
    pub visuals: Vec<VisualAsset>,
    pub materials: StrMap<ModMaterial>,
    pub textures: StrMap<TextureRef>,
    pub virtual_textures: StrMap<VirtualTextureRef>,
}

/// The values of a mod's contribution
pub struct ModAssetsView {
    pub name: Seq<char>,
    pub visuals: Seq<VisualAssetView>,
    pub materials: Map<Seq<char>, ModMaterialView>,
    pub textures: Map<Seq<char>, TextureRefView>,
    pub virtual_textures: Map<Seq<char>, VirtualTextureRefView>,
}

impl ModAssets {
    pub open spec fn view(&self) -> ModAssetsView {
        ModAssetsView {
            name: self.name@,
            visuals: self.visuals.deep_view(),
            materials: self.materials@,
            textures: self.textures@,
            virtual_textures: self.virtual_textures@,
        }
    }

    /// The maps are well formed
    pub open spec fn wf(&self) -> bool {
        &&& self.materials.wf()
        &&& self.textures.wf()
        &&& self.virtual_textures.wf()
    }

    /// Nothing read yet, under the mod's name
    pub fn new(name: String) -> (r: Self)
        ensures
            r.wf(),
            r@ == (ModAssetsView {
                name: name@,
                visuals: Seq::empty(),
                materials: Map::empty(),
                textures: Map::empty(),
                virtual_textures: Map::empty(),
            }),
    {
        let r = ModAssets {
            name,
            visuals: Vec::new(),
            materials: StrMap::new(),
            textures: StrMap::new(),
            virtual_textures: StrMap::new(),
        };
        assert(r.visuals.deep_view() =~= Seq::<VisualAssetView>::empty());
        r
    }
}

// ---------------------------------------------------------------------------------------------
// Visuals
// ---------------------------------------------------------------------------------------------

/// The material GUIDs the `Objects` children of a visual name, in order and without repeats
pub open spec fn material_ids_spec(children: Seq<LsxElement>) -> Seq<Seq<char>>
    decreases children.len(),
{
    if children.len() == 0 {
        Seq::empty()
    } else {
        let ids = material_ids_spec(children.drop_last());
        let child = children.last();
        let m = attr_spec(child.attributes@, "MaterialID"@);
        if child.id@ == "Objects"@ && m.len() > 0 && !ids.contains(m) {
            ids.push(m)
        } else {
            ids
        }
    }
}

/// Whether `v` holds `s`
fn contains_string(v: &Vec<String>, s: &String) -> (r: bool)
    ensures
        r == v.deep_view().contains(s@),
{
    let mut i: usize = 0;
    while i < v.len()
        invariant
            i <= v@.len(),
            forall|j: int| 0 <= j < i ==> v.deep_view()[j] != s@,
        decreases v@.len() - i,
    {
        if str_eq(v[i].as_str(), s.as_str()) {
            assert(v.deep_view()[i as int] == s@);
            return true;
        }
        i = i + 1;
    }
    false
}

/// The material GUIDs a visual binds, in the order it lists them and without repeats
pub fn material_ids_of(resource: &LsxElement) -> (r: Vec<String>)
    ensures
        r.deep_view() == material_ids_spec(resource.children@),
{
    proof {
        reveal_strlit("Objects");
        reveal_strlit("MaterialID");
    }
    let ghost children = resource.children@;
    let mut ids: Vec<String> = Vec::new();
    let mut i: usize = 0;
    while i < resource.children.len()
        invariant
            i <= children.len(),
            children == resource.children@,
            ids.deep_view() == material_ids_spec(children.take(i as int)),
        decreases children.len() - i,
    {
        let child = &resource.children[i];
        assert(children.take(i + 1).drop_last() =~= children.take(i as int));
        assert(children.take(i + 1).last() == *child);
        if str_eq(child.id.as_str(), "Objects") {
            let material_id = attr(child, "MaterialID");
            if !is_empty_str(material_id.as_str()) && !contains_string(&ids, &material_id) {
                let ghost prev = ids.deep_view();
                ids.push(material_id);
                assert(ids.deep_view() =~= prev.push(attr_spec(child.attributes@, "MaterialID"@)));
            }
        }
        i = i + 1;
    }
    assert(children.take(children.len() as int) =~= children);
    ids
}

/// The visual of a `VisualBank` resource, or `None` when it names no id or no mesh source: without
/// either the visual could neither be shown nor previewed
pub open spec fn visual_spec(resource: LsxElement) -> Option<VisualAssetView> {
    let id = attr_spec(resource.attributes@, "ID"@);
    let gr2 = attr_spec(resource.attributes@, "SourceFile"@);
    if id.len() == 0 || gr2.len() == 0 {
        None
    } else {
        Some(
            VisualAssetView {
                id: id,
                name: attr_spec(resource.attributes@, "Name"@),
                gr2_path: gr2,
                source_pak: Seq::empty(),
                material_ids: material_ids_spec(resource.children@),
                textures: Seq::empty(),
                virtual_textures: Seq::empty(),
            },
        )
    }
}

/// The visual row of a `Resource` node whose id and mesh source are already known to be set
pub fn new_visual(resource: &LsxElement, id: String, gr2_path: String) -> (r: VisualAsset)
    ensures
        r.deep_view() == (VisualAssetView {
            id: id@,
            name: attr_spec(resource.attributes@, "Name"@),
            gr2_path: gr2_path@,
            source_pak: Seq::empty(),
            material_ids: material_ids_spec(resource.children@),
            textures: Seq::empty(),
            virtual_textures: Seq::empty(),
        }),
{
    let r = VisualAsset {
        id,
        name: attr(resource, "Name"),
        gr2_path,
        source_pak: String::new(),
        material_ids: material_ids_of(resource),
        textures: Vec::new(),
        virtual_textures: Vec::new(),
    };
    assert(r.textures.deep_view() =~= Seq::<TextureRefView>::empty());
    assert(r.virtual_textures.deep_view() =~= Seq::<VirtualTextureRefView>::empty());
    r
}

/// One visual of a `VisualBank` region, or `None` when it names no id or no mesh source
pub fn visual_of(resource: &LsxElement) -> (r: Option<VisualAsset>)
    ensures
        match r {
            Some(v) => visual_spec(*resource) == Some(v.deep_view()),
            None => visual_spec(*resource) is None,
        },
{
    let id = attr(resource, "ID");
    let gr2_path = attr(resource, "SourceFile");
    if is_empty_str(id.as_str()) || is_empty_str(gr2_path.as_str()) {
        return None;
    }
    Some(new_visual(resource, id, gr2_path))
}

// ---------------------------------------------------------------------------------------------
// Materials
// ---------------------------------------------------------------------------------------------

/// The texture parameters among a material's children: each `Texture2DParameters` node that names
/// a texture, paired with the parameter binding it
pub open spec fn texture_params_spec(children: Seq<LsxElement>) -> Seq<(Seq<char>, Seq<char>)>
    decreases children.len(),
{
    if children.len() == 0 {
        Seq::empty()
    } else {
        let params = texture_params_spec(children.drop_last());
        let child = children.last();
        let id = attr_spec(child.attributes@, "ID"@);
        if child.id@ == "Texture2DParameters"@ && id.len() > 0 {
            params.push((attr_spec(child.attributes@, "ParameterName"@), id))
        } else {
            params
        }
    }
}

/// The virtual textures among a material's children: each `VirtualTextureParameters` node's GUID,
/// without repeats
pub open spec fn vt_params_spec(children: Seq<LsxElement>) -> Seq<Seq<char>>
    decreases children.len(),
{
    if children.len() == 0 {
        Seq::empty()
    } else {
        let ids = vt_params_spec(children.drop_last());
        let child = children.last();
        let id = attr_spec(child.attributes@, "ID"@);
        if child.id@ == "VirtualTextureParameters"@ && id.len() > 0 && !ids.contains(id) {
            ids.push(id)
        } else {
            ids
        }
    }
}

/// One material of a `MaterialBank` region, with the resources it binds
pub open spec fn mod_material_spec(resource: LsxElement) -> ModMaterialView {
    ModMaterialView {
        name: attr_spec(resource.attributes@, "Name"@),
        source_file: attr_spec(resource.attributes@, "SourceFile"@),
        textures: texture_params_spec(resource.children@),
        virtual_textures: vt_params_spec(resource.children@),
    }
}

/// The resources one material binds, accumulated over the child nodes of its `Resource`
pub struct BoundResources {
    pub textures: Vec<TextureParam>,
    pub virtual_textures: Vec<String>,
}

impl BoundResources {
    /// Read one child node of a material: a texture parameter, a virtual texture parameter, or
    /// neither — every other child carries no indexed resource
    pub fn push(&mut self, child: &LsxElement)
        ensures
            final(self).textures.deep_view() == (if child.id@ == "Texture2DParameters"@ && attr_spec(
                child.attributes@,
                "ID"@,
            ).len() > 0 {
                old(self).textures.deep_view().push(
                    (attr_spec(child.attributes@, "ParameterName"@), attr_spec(child.attributes@, "ID"@)),
                )
            } else {
                old(self).textures.deep_view()
            }),
            final(self).virtual_textures.deep_view() == (if child.id@ == "VirtualTextureParameters"@ && attr_spec(
                child.attributes@,
                "ID"@,
            ).len() > 0 && !old(self).virtual_textures.deep_view().contains(attr_spec(child.attributes@, "ID"@)) {
                old(self).virtual_textures.deep_view().push(attr_spec(child.attributes@, "ID"@))
            } else {
                old(self).virtual_textures.deep_view()
            }),
    {
        proof {
            reveal_strlit("Texture2DParameters");
            reveal_strlit("VirtualTextureParameters");
            assert("Texture2DParameters"@ != "VirtualTextureParameters"@) by {
                assert("Texture2DParameters"@[0] != "VirtualTextureParameters"@[0]);
            }
        }
        if str_eq(child.id.as_str(), "Texture2DParameters") {
            self.push_texture(child);
        } else if str_eq(child.id.as_str(), "VirtualTextureParameters") {
            self.push_virtual_texture(child);
        }
    }

    /// One `Texture2DParameters` node: a texture GUID paired with the parameter that binds it
    pub fn push_texture(&mut self, child: &LsxElement)
        ensures
            final(self).virtual_textures == old(self).virtual_textures,
            final(self).textures.deep_view() == (if attr_spec(child.attributes@, "ID"@).len() > 0 {
                old(self).textures.deep_view().push(
                    (attr_spec(child.attributes@, "ParameterName"@), attr_spec(child.attributes@, "ID"@)),
                )
            } else {
                old(self).textures.deep_view()
            }),
    {
        let texture_id = attr(child, "ID");
        if is_empty_str(texture_id.as_str()) {
            return;
        }
        let ghost prev = self.textures.deep_view();
        let param = TextureParam { parameter_name: attr(child, "ParameterName"), texture_id };
        let ghost pv = param.deep_view();
        self.textures.push(param);
        assert(self.textures.deep_view() =~= prev.push(pv));
    }

    /// One `VirtualTextureParameters` node: a virtual texture GUID, without repeats
    pub fn push_virtual_texture(&mut self, child: &LsxElement)
        ensures
            final(self).textures == old(self).textures,
            final(self).virtual_textures.deep_view() == (if attr_spec(child.attributes@, "ID"@).len() > 0
                && !old(self).virtual_textures.deep_view().contains(attr_spec(child.attributes@, "ID"@)) {
                old(self).virtual_textures.deep_view().push(attr_spec(child.attributes@, "ID"@))
            } else {
                old(self).virtual_textures.deep_view()
            }),
    {
        let id = attr(child, "ID");
        if !is_empty_str(id.as_str()) && !contains_string(&self.virtual_textures, &id) {
            let ghost prev = self.virtual_textures.deep_view();
            self.virtual_textures.push(id);
            assert(self.virtual_textures.deep_view() =~= prev.push(attr_spec(child.attributes@, "ID"@)));
        }
    }
}

/// One material of a `MaterialBank` region, with the resources it binds
pub fn mod_material(resource: &LsxElement) -> (r: ModMaterial)
    ensures
        r.deep_view() == mod_material_spec(*resource),
{
    let ghost children = resource.children@;
    let mut bound = BoundResources { textures: Vec::new(), virtual_textures: Vec::new() };
    assert(bound.textures.deep_view() =~= texture_params_spec(children.take(0)));
    assert(bound.virtual_textures.deep_view() =~= vt_params_spec(children.take(0)));
    let mut i: usize = 0;
    while i < resource.children.len()
        invariant
            i <= children.len(),
            children == resource.children@,
            bound.textures.deep_view() == texture_params_spec(children.take(i as int)),
            bound.virtual_textures.deep_view() == vt_params_spec(children.take(i as int)),
        decreases children.len() - i,
    {
        assert(children.take(i + 1).drop_last() =~= children.take(i as int));
        assert(children.take(i + 1).last() == children[i as int]);
        bound.push(&resource.children[i]);
        i = i + 1;
    }
    assert(children.take(children.len() as int) =~= children);
    ModMaterial {
        name: attr(resource, "Name"),
        source_file: attr(resource, "SourceFile"),
        textures: bound.textures,
        virtual_textures: bound.virtual_textures,
    }
}

// ---------------------------------------------------------------------------------------------
// Textures
// ---------------------------------------------------------------------------------------------

/// One texture of a `TextureBank` region: a size the bank does not state (or states in a form
/// `u32` does not parse) stays 0, as it does for the game's own banks
pub open spec fn mod_texture_spec(resource: LsxElement, id: Seq<char>) -> TextureRefView {
    TextureRefView {
        id: id,
        name: attr_spec(resource.attributes@, "Name"@),
        dds_path: attr_spec(resource.attributes@, "SourceFile"@),
        source_pak: Seq::empty(),
        width: match parse_u32_spec(attr_spec(resource.attributes@, "Width"@)) {
            Some(w) => w,
            None => 0,
        },
        height: match parse_u32_spec(attr_spec(resource.attributes@, "Height"@)) {
            Some(h) => h,
            None => 0,
        },
        parameter_name: None,
    }
}

/// An attribute read as a `u32`, or 0
fn attr_u32(node: &LsxElement, id: &str) -> (r: u32)
    ensures
        r == match parse_u32_spec(attr_spec(node.attributes@, id@)) {
            Some(v) => v,
            None => 0,
        },
{
    let value = attr(node, id);
    let chars = chars_of(value.as_str());
    match parse_u32(chars.as_slice()) {
        Some(v) => v,
        None => 0,
    }
}

/// One texture of a `TextureBank` region, whose id is already known to be set
pub fn mod_texture(resource: &LsxElement, id: String) -> (r: TextureRef)
    ensures
        r.deep_view() == mod_texture_spec(*resource, id@),
{
    TextureRef {
        id,
        name: attr(resource, "Name"),
        dds_path: attr(resource, "SourceFile"),
        source_pak: String::new(),
        width: attr_u32(resource, "Width"),
        height: attr_u32(resource, "Height"),
        // Filled per visual, from the parameter of the material binding it
        parameter_name: None,
    }
}

/// One virtual texture of a `VirtualTextureBank` region
pub open spec fn mod_vt_spec(resource: LsxElement, id: Seq<char>) -> VirtualTextureRefView {
    VirtualTextureRefView {
        id: id,
        name: attr_spec(resource.attributes@, "Name"@),
        gtex_hash: attr_spec(resource.attributes@, "GTexFileName"@),
    }
}

/// One virtual texture of a `VirtualTextureBank` region, whose id is already known to be set
pub fn mod_virtual_texture(resource: &LsxElement, id: String) -> (r: VirtualTextureRef)
    ensures
        r.deep_view() == mod_vt_spec(*resource, id@),
{
    VirtualTextureRef { id, name: attr(resource, "Name"), gtex_hash: attr(resource, "GTexFileName") }
}

// ---------------------------------------------------------------------------------------------
// Reading the bank regions
// ---------------------------------------------------------------------------------------------

/// The visuals of `rs`, in order, skipping the ones without an id or a mesh source
pub open spec fn visuals_from(rs: Seq<LsxElement>) -> Seq<VisualAssetView>
    decreases rs.len(),
{
    if rs.len() == 0 {
        Seq::empty()
    } else {
        visuals_from(rs.drop_last()) + match visual_spec(rs.last()) {
            Some(v) => seq![v],
            None => Seq::empty(),
        }
    }
}

/// `m` with the materials of `rs` inserted by GUID, in order; a resource without an id is skipped
pub open spec fn materials_into(m: Map<Seq<char>, ModMaterialView>, rs: Seq<LsxElement>) -> Map<Seq<char>, ModMaterialView>
    decreases rs.len(),
{
    if rs.len() == 0 {
        m
    } else {
        let prev = materials_into(m, rs.drop_last());
        let id = attr_spec(rs.last().attributes@, "ID"@);
        if id.len() > 0 {
            prev.insert(id, mod_material_spec(rs.last()))
        } else {
            prev
        }
    }
}

/// `m` with the textures of `rs` inserted by GUID, in order; a resource without an id is skipped
pub open spec fn textures_into(m: Map<Seq<char>, TextureRefView>, rs: Seq<LsxElement>) -> Map<Seq<char>, TextureRefView>
    decreases rs.len(),
{
    if rs.len() == 0 {
        m
    } else {
        let prev = textures_into(m, rs.drop_last());
        let id = attr_spec(rs.last().attributes@, "ID"@);
        if id.len() > 0 {
            prev.insert(id, mod_texture_spec(rs.last(), id))
        } else {
            prev
        }
    }
}

/// `m` with the virtual textures of `rs` inserted by GUID, in order; a resource without an id is
/// skipped
pub open spec fn vts_into(m: Map<Seq<char>, VirtualTextureRefView>, rs: Seq<LsxElement>) -> Map<
    Seq<char>,
    VirtualTextureRefView,
>
    decreases rs.len(),
{
    if rs.len() == 0 {
        m
    } else {
        let prev = vts_into(m, rs.drop_last());
        let id = attr_spec(rs.last().attributes@, "ID"@);
        if id.len() > 0 {
            prev.insert(id, mod_vt_spec(rs.last(), id))
        } else {
            prev
        }
    }
}

/// What one region adds to a mod's contribution: the region's id picks the bank, and every other
/// region (templates, tags, character visuals, …) carries no indexed resource
pub open spec fn region_read(a: ModAssetsView, region: LsxRegion) -> ModAssetsView {
    if region.id@ == "VisualBank"@ {
        ModAssetsView { visuals: a.visuals + visuals_from(resources_of(region.nodes@, "VisualBank"@)), ..a }
    } else if region.id@ == "MaterialBank"@ {
        ModAssetsView { materials: materials_into(a.materials, resources_of(region.nodes@, "MaterialBank"@)), ..a }
    } else if region.id@ == "TextureBank"@ {
        ModAssetsView { textures: textures_into(a.textures, resources_of(region.nodes@, "TextureBank"@)), ..a }
    } else if region.id@ == "VirtualTextureBank"@ {
        ModAssetsView {
            virtual_textures: vts_into(a.virtual_textures, resources_of(region.nodes@, "VirtualTextureBank"@)),
            ..a
        }
    } else {
        a
    }
}

/// What a whole document adds, region by region
pub open spec fn document_read(a: ModAssetsView, regions: Seq<LsxRegion>) -> ModAssetsView
    decreases regions.len(),
{
    if regions.len() == 0 {
        a
    } else {
        region_read(document_read(a, regions.drop_last()), regions.last())
    }
}

impl ModAssets {
    /// Add the visuals of one `VisualBank` region
    pub fn read_visuals(&mut self, region: &LsxRegion)
        requires
            old(self).wf(),
        ensures
            final(self).wf(),
            final(self)@ == (ModAssetsView {
                visuals: old(self)@.visuals + visuals_from(resources_of(region.nodes@, "VisualBank"@)),
                ..old(self)@
            }),
    {
        let resources = resource_nodes(region, "VisualBank");
        let ghost rs = resources@.map_values(|n: &LsxElement| *n);
        let ghost start = self.visuals.deep_view();
        let mut i: usize = 0;
        assert(rs.take(0) =~= Seq::<LsxElement>::empty());
        assert(start + visuals_from(rs.take(0)) =~= start);
        while i < resources.len()
            invariant
                self.wf(),
                i <= rs.len(),
                rs == resources@.map_values(|n: &LsxElement| *n),
                self.visuals.deep_view() == start + visuals_from(rs.take(i as int)),
                self.name == old(self).name,
                self.materials == old(self).materials,
                self.textures == old(self).textures,
                self.virtual_textures == old(self).virtual_textures,
            decreases rs.len() - i,
        {
            let ghost prev = self.visuals.deep_view();
            assert(rs.take(i + 1).drop_last() =~= rs.take(i as int));
            assert(rs.take(i + 1).last() == *resources[i as int]);
            match visual_of(resources[i]) {
                Some(visual) => {
                    let ghost v = visual.deep_view();
                    self.visuals.push(visual);
                    assert(self.visuals.deep_view() =~= prev.push(v));
                    assert(start + visuals_from(rs.take(i + 1)) =~= (start + visuals_from(rs.take(i as int))).push(v));
                },
                None => {
                    assert(start + visuals_from(rs.take(i + 1)) =~= start + visuals_from(rs.take(i as int)));
                },
            }
            i = i + 1;
        }
        assert(rs.take(rs.len() as int) =~= rs);
    }

    /// Add the materials of one `MaterialBank` region
    pub fn read_materials(&mut self, region: &LsxRegion)
        requires
            old(self).wf(),
        ensures
            final(self).wf(),
            final(self)@ == (ModAssetsView {
                materials: materials_into(old(self)@.materials, resources_of(region.nodes@, "MaterialBank"@)),
                ..old(self)@
            }),
    {
        let resources = resource_nodes(region, "MaterialBank");
        let ghost rs = resources@.map_values(|n: &LsxElement| *n);
        let ghost start = self.materials@;
        let mut i: usize = 0;
        assert(rs.take(0) =~= Seq::<LsxElement>::empty());
        while i < resources.len()
            invariant
                self.wf(),
                i <= rs.len(),
                rs == resources@.map_values(|n: &LsxElement| *n),
                self.materials@ == materials_into(start, rs.take(i as int)),
                self.name == old(self).name,
                self.visuals == old(self).visuals,
                self.textures == old(self).textures,
                self.virtual_textures == old(self).virtual_textures,
            decreases rs.len() - i,
        {
            let resource = resources[i];
            assert(rs.take(i + 1).drop_last() =~= rs.take(i as int));
            assert(rs.take(i + 1).last() == *resource);
            let id = attr(resource, "ID");
            if !is_empty_str(id.as_str()) {
                self.materials.insert(id, mod_material(resource));
            }
            i = i + 1;
        }
        assert(rs.take(rs.len() as int) =~= rs);
    }

    /// Add the textures of one `TextureBank` region
    pub fn read_textures(&mut self, region: &LsxRegion)
        requires
            old(self).wf(),
        ensures
            final(self).wf(),
            final(self)@ == (ModAssetsView {
                textures: textures_into(old(self)@.textures, resources_of(region.nodes@, "TextureBank"@)),
                ..old(self)@
            }),
    {
        let resources = resource_nodes(region, "TextureBank");
        let ghost rs = resources@.map_values(|n: &LsxElement| *n);
        let ghost start = self.textures@;
        let mut i: usize = 0;
        assert(rs.take(0) =~= Seq::<LsxElement>::empty());
        while i < resources.len()
            invariant
                self.wf(),
                i <= rs.len(),
                rs == resources@.map_values(|n: &LsxElement| *n),
                self.textures@ == textures_into(start, rs.take(i as int)),
                self.name == old(self).name,
                self.visuals == old(self).visuals,
                self.materials == old(self).materials,
                self.virtual_textures == old(self).virtual_textures,
            decreases rs.len() - i,
        {
            let resource = resources[i];
            assert(rs.take(i + 1).drop_last() =~= rs.take(i as int));
            assert(rs.take(i + 1).last() == *resource);
            let id = attr(resource, "ID");
            if !is_empty_str(id.as_str()) {
                let texture = mod_texture(resource, id.clone());
                self.textures.insert(id, texture);
            }
            i = i + 1;
        }
        assert(rs.take(rs.len() as int) =~= rs);
    }

    /// Add the virtual textures of one `VirtualTextureBank` region
    pub fn read_virtual_textures(&mut self, region: &LsxRegion)
        requires
            old(self).wf(),
        ensures
            final(self).wf(),
            final(self)@ == (ModAssetsView {
                virtual_textures: vts_into(
                    old(self)@.virtual_textures,
                    resources_of(region.nodes@, "VirtualTextureBank"@),
                ),
                ..old(self)@
            }),
    {
        let resources = resource_nodes(region, "VirtualTextureBank");
        let ghost rs = resources@.map_values(|n: &LsxElement| *n);
        let ghost start = self.virtual_textures@;
        let mut i: usize = 0;
        assert(rs.take(0) =~= Seq::<LsxElement>::empty());
        while i < resources.len()
            invariant
                self.wf(),
                i <= rs.len(),
                rs == resources@.map_values(|n: &LsxElement| *n),
                self.virtual_textures@ == vts_into(start, rs.take(i as int)),
                self.name == old(self).name,
                self.visuals == old(self).visuals,
                self.materials == old(self).materials,
                self.textures == old(self).textures,
            decreases rs.len() - i,
        {
            let resource = resources[i];
            assert(rs.take(i + 1).drop_last() =~= rs.take(i as int));
            assert(rs.take(i + 1).last() == *resource);
            let id = attr(resource, "ID");
            if !is_empty_str(id.as_str()) {
                let vt = mod_virtual_texture(resource, id.clone());
                self.virtual_textures.insert(id, vt);
            }
            i = i + 1;
        }
        assert(rs.take(rs.len() as int) =~= rs);
    }
}

/// Read every indexed bank region of one document into `assets`; a region that carries no
/// indexed resource is skipped
pub fn read_banks(assets: &mut ModAssets, lsx: &LsxDocument)
    requires
        old(assets).wf(),
    ensures
        final(assets).wf(),
        final(assets)@ == document_read(old(assets)@, lsx.regions@),
{
    let ghost regions = lsx.regions@;
    let ghost start = assets@;
    let mut i: usize = 0;
    assert(regions.take(0) =~= Seq::<LsxRegion>::empty());
    while i < lsx.regions.len()
        invariant
            assets.wf(),
            i <= regions.len(),
            regions == lsx.regions@,
            assets@ == document_read(start, regions.take(i as int)),
        decreases regions.len() - i,
    {
        let region = &lsx.regions[i];
        assert(regions.take(i + 1).drop_last() =~= regions.take(i as int));
        assert(regions.take(i + 1).last() == *region);
        let id = region.id.as_str();
        if str_eq(id, "VisualBank") {
            assets.read_visuals(region);
        } else if str_eq(id, "MaterialBank") {
            assets.read_materials(region);
        } else if str_eq(id, "TextureBank") {
            assets.read_textures(region);
        } else if str_eq(id, "VirtualTextureBank") {
            assets.read_virtual_textures(region);
        }
        i = i + 1;
    }
    assert(regions.take(regions.len() as int) =~= regions);
}

} // verus!
