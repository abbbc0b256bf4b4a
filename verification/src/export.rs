//! What an export is asked for and what it reports back — the formats, the artifacts written, the
//! `asset.json` manifest — and the decisions of the export pipeline: what goes into a run, what
//! each artifact is called, and what the manifest states.

use vstd::prelude::*;

use crate::app::opt_view;
use crate::material::{export_material_spec, manifest_materials, ExportMaterial, ExportMaterialView, MaterialCache};
use crate::model::{GtpMatch, TextureRef, VirtualTextureRefView, VisualAsset, VisualAssetView};
use crate::naming::{export_layer_name, layer_name, sanitize_file_name, sanitized};
use crate::paths::{file_stem, file_stem_spec};
use crate::source::{source_of, source_spec, ModSources};
use crate::text::{
    ascii_lower_seq, chars_of, concat, ends_with, has_suffix, is_empty_str, lowercased, owned, string_of,
    to_lowercase, trim, trim_ws,
};

verus! {

/// Mesh export format: the raw GR2 out of the archive, or a converted GLB
#[derive(Debug, Clone, Copy, PartialEq, Eq, Structural)]
pub enum MeshFormat {
    /// Raw GR2 bytes, straight out of the PAK (no conversion)
    Gr2,
    /// Converted GLB mesh; textures are exported separately
    Glb,
}

impl MeshFormat {
    /// The format a request without one gets
    pub fn default_format() -> (r: Self)
        ensures
            r == MeshFormat::Gr2,
    {
        MeshFormat::Gr2
    }

    pub fn is_glb(self) -> (r: bool)
        ensures
            r == (self == MeshFormat::Glb),
    {
        match self {
            MeshFormat::Glb => true,
            MeshFormat::Gr2 => false,
        }
    }

    /// File extension of the mesh artifact, as a value
    pub open spec fn extension_spec(self) -> Seq<char> {
        match self {
            MeshFormat::Gr2 => "gr2"@,
            MeshFormat::Glb => "glb"@,
        }
    }

    /// File extension of the mesh artifact
    pub fn extension(self) -> (r: &'static str)
        ensures
            r@ == self.extension_spec(),
    {
        match self {
            MeshFormat::Gr2 => "gr2",
            MeshFormat::Glb => "glb",
        }
    }
}

/// Texture export format: no separate textures, DDS, or PNG; applies to both regular and virtual
/// textures
#[derive(Debug, Clone, Copy, PartialEq, Eq, Structural)]
pub enum TextureFormat {
    /// Do not export texture files separately
    NoTextures,
    /// Export as DDS (keep the archive format)
    Dds,
    /// Export as PNG (discard DDS after successful conversion)
    Png,
}

impl TextureFormat {
    /// The format a request without one gets
    pub fn default_format() -> (r: Self)
        ensures
            r == TextureFormat::Dds,
    {
        TextureFormat::Dds
    }

    pub fn is_export(self) -> (r: bool)
        ensures
            r == (self != TextureFormat::NoTextures),
    {
        match self {
            TextureFormat::NoTextures => false,
            _ => true,
        }
    }

    pub fn is_png(self) -> (r: bool)
        ensures
            r == (self == TextureFormat::Png),
    {
        match self {
            TextureFormat::Png => true,
            _ => false,
        }
    }
}

/// Export options (submitted from the frontend)
#[derive(Debug, Clone, Copy)]
pub struct ExportOptions {
    /// Mesh output format: raw GR2 or converted GLB
    pub mesh_format: MeshFormat,
    /// Texture output format for separate files — regular and virtual textures alike
    pub texture_format: TextureFormat,
}

/// One exported artifact
#[derive(Debug)]
pub struct ExportedFile {
    pub path: String,
    /// Artifact kind: gr2 / glb / dds / png
    pub kind: String,
    pub size_bytes: usize,
}

/// Export warning: `code` is a stable enum (mapped to copy by the frontend) while `detail` carries
/// the raw detail (path / error)
#[derive(Debug)]
pub struct ExportWarning {
    pub code: String,
    pub detail: String,
}

/// Export result
#[derive(Debug)]
pub struct ExportResult {
    /// The directory actually written to (destDir/<asset name>)
    pub output_dir: String,
    pub files: Vec<ExportedFile>,
    /// Non-fatal issues: missing textures, failed PNG conversions, etc.
    pub warnings: Vec<ExportWarning>,
}

/// Content of `asset.json`: the asset and the resources it is made of — not a listing of the
/// export directory
#[derive(Debug)]
pub struct ExportManifest {
    /// Visual resource ID (GUID): the asset's identity — the name below is not unique
    pub id: String,
    pub name: String,
    /// Mod providing this asset; absent when it comes from the game
    pub source: Option<String>,
    pub path: String,
    /// The asset's materials, in its own order, each carrying the textures and virtual textures it
    /// binds
    pub materials: Vec<ExportMaterial>,
    pub exported_at_unix: u64,
    pub maclarian_version: String,
}

/// Progress phases (the frontend uses these to look up copy)
pub const PHASE_PREPARE: &'static str = "prepare";
pub const PHASE_MODEL: &'static str = "model";
/// Raw GR2 copy: no conversion happening, so the frontend shows different copy
pub const PHASE_MODEL_RAW: &'static str = "modelRaw";
pub const PHASE_TEXTURES: &'static str = "textures";
pub const PHASE_VIRTUAL: &'static str = "virtualTextures";
pub const PHASE_MANIFEST: &'static str = "manifest";
pub const PHASE_DONE: &'static str = "done";

// ---------------------------------------------------------------------------------------------
// What a run collects
// ---------------------------------------------------------------------------------------------

/// What one export run collected: the artifacts it wrote and the warnings they raised, in the order
/// the pipeline produced them
pub struct ExportOutput {
    files: Vec<ExportedFile>,
    warnings: Vec<ExportWarning>,
}

/// An artifact as a value: its path, kind and size
pub open spec fn file_view(f: ExportedFile) -> (Seq<char>, Seq<char>, usize) {
    (f.path@, f.kind@, f.size_bytes)
}

/// A warning as a value: its code and detail
pub open spec fn warning_view(w: ExportWarning) -> (Seq<char>, Seq<char>) {
    (w.code@, w.detail@)
}

impl ExportOutput {
    /// The artifacts recorded so far
    pub closed spec fn files_view(&self) -> Seq<(Seq<char>, Seq<char>, usize)> {
        self.files@.map_values(|f: ExportedFile| file_view(f))
    }

    /// The warnings recorded so far
    pub closed spec fn warnings_view(&self) -> Seq<(Seq<char>, Seq<char>)> {
        self.warnings@.map_values(|w: ExportWarning| warning_view(w))
    }

    /// Nothing collected yet
    pub fn new() -> (r: Self)
        ensures
            r.files_view() == Seq::<(Seq<char>, Seq<char>, usize)>::empty(),
            r.warnings_view() == Seq::<(Seq<char>, Seq<char>)>::empty(),
    {
        let r = ExportOutput { files: Vec::new(), warnings: Vec::new() };
        assert(r.files_view() =~= Seq::<(Seq<char>, Seq<char>, usize)>::empty());
        assert(r.warnings_view() =~= Seq::<(Seq<char>, Seq<char>)>::empty());
        r
    }

    /// Record one written artifact
    pub fn record(&mut self, path: String, kind: &str, size_bytes: usize)
        ensures
            final(self).files_view() == old(self).files_view().push((path@, kind@, size_bytes)),
            final(self).warnings_view() == old(self).warnings_view(),
    {
        let ghost prev = self.files_view();
        self.files.push(ExportedFile { path, kind: owned(kind), size_bytes });
        assert(self.files_view() =~= prev.push((path@, kind@, size_bytes)));
    }

    /// Append a structured warning: the code is localized by the frontend, the detail keeps the
    /// raw message
    pub fn warn(&mut self, code: &str, detail: String)
        ensures
            final(self).warnings_view() == old(self).warnings_view().push((code@, detail@)),
            final(self).files_view() == old(self).files_view(),
    {
        let ghost prev = self.warnings_view();
        let ghost d = detail@;
        self.warnings.push(ExportWarning { code: owned(code), detail });
        assert(self.warnings_view() =~= prev.push((code@, d)));
    }

    /// The artifacts and warnings, in the order the pipeline produced them
    pub fn into_parts(self) -> (r: (Vec<ExportedFile>, Vec<ExportWarning>))
        ensures
            r.0@.map_values(|f: ExportedFile| file_view(f)) == self.files_view(),
            r.1@.map_values(|w: ExportWarning| warning_view(w)) == self.warnings_view(),
    {
        (self.files, self.warnings)
    }
}

/// What went wrong with one artifact of an export: each is recorded as a warning and the export
/// goes on, the mesh alone aborting it
#[derive(Clone, Copy, PartialEq, Eq, Structural, Debug)]
pub enum ExportFailure {
    /// A converted PNG could not be written (the DDS is kept)
    PngWrite,
    /// A DDS could not be converted to PNG (the DDS is kept)
    PngConvert,
    /// A texture could not be read out of the archives
    TextureUnavailable,
    /// A texture could not be written
    TextureWrite,
    /// The staging directory of the virtual textures could not be created
    VtStaging,
    /// A virtual texture's hash resolved to no page file
    VtGtpNotFound,
    /// A virtual texture could not be staged or extracted
    VtFailed,
    /// `asset.json` could not be written
    ManifestWrite,
    /// `asset.json` could not be serialized
    ManifestSerialize,
}

/// The stable code a failure is reported under (the frontend maps it to copy)
pub open spec fn failure_code(f: ExportFailure) -> Seq<char> {
    match f {
        ExportFailure::PngWrite => "pngWriteFailed"@,
        ExportFailure::PngConvert => "pngConvertFailed"@,
        ExportFailure::TextureUnavailable => "textureUnavailable"@,
        ExportFailure::TextureWrite => "textureWriteFailed"@,
        ExportFailure::VtStaging => "vtStagingFailed"@,
        ExportFailure::VtGtpNotFound => "vtGtpNotFound"@,
        ExportFailure::VtFailed => "vtFailed"@,
        ExportFailure::ManifestWrite => "manifestWriteFailed"@,
        ExportFailure::ManifestSerialize => "manifestSerializeFailed"@,
    }
}

/// Whether a failure's detail names the file or virtual texture it concerns before the error
pub open spec fn failure_labeled(f: ExportFailure) -> bool {
    f is PngWrite || f is PngConvert || f is TextureWrite || f is VtFailed
}

/// The detail a failure is reported with: `<label>: <error>` where it names what it concerns, the
/// error alone otherwise (for a hash that resolved to nothing, the error is the hash)
pub open spec fn failure_detail(f: ExportFailure, label: Seq<char>, err: Seq<char>) -> Seq<char> {
    if failure_labeled(f) {
        label + ": "@ + err
    } else {
        err
    }
}

impl ExportFailure {
    /// The stable code this failure is reported under
    pub fn code(self) -> (r: &'static str)
        ensures
            r@ == failure_code(self),
    {
        match self {
            ExportFailure::PngWrite => "pngWriteFailed",
            ExportFailure::PngConvert => "pngConvertFailed",
            ExportFailure::TextureUnavailable => "textureUnavailable",
            ExportFailure::TextureWrite => "textureWriteFailed",
            ExportFailure::VtStaging => "vtStagingFailed",
            ExportFailure::VtGtpNotFound => "vtGtpNotFound",
            ExportFailure::VtFailed => "vtFailed",
            ExportFailure::ManifestWrite => "manifestWriteFailed",
            ExportFailure::ManifestSerialize => "manifestSerializeFailed",
        }
    }

    /// Whether this failure's detail names what it concerns
    pub fn is_labeled(self) -> (r: bool)
        ensures
            r == failure_labeled(self),
    {
        match self {
            ExportFailure::PngWrite | ExportFailure::PngConvert | ExportFailure::TextureWrite | ExportFailure::VtFailed => true,
            _ => false,
        }
    }
}

/// Record `failure` of the artifact `label` with the error `err` as a warning: its code, and its
/// detail labeled where the failure names what it concerns
pub fn record_failure(output: &mut ExportOutput, failure: ExportFailure, label: &str, err: &str)
    ensures
        final(output).warnings_view() == old(output).warnings_view().push(
            (failure_code(failure), failure_detail(failure, label@, err@)),
        ),
        final(output).files_view() == old(output).files_view(),
{
    let detail = if failure.is_labeled() {
        labeled_detail(label, err)
    } else {
        owned(err)
    };
    output.warn(failure.code(), detail);
}

/// A failure's detail, prefixed with what it concerns: `<label>: <error>`
pub fn labeled_detail(label: &str, err: &str) -> (r: String)
    ensures
        r@ == label@ + ": "@ + err@,
{
    proof {
        reveal_strlit(": ");
    }
    let a = chars_of(label);
    let b = chars_of(": ");
    let c = chars_of(err);
    let ab = concat(a.as_slice(), b.as_slice());
    string_of(concat(ab.as_slice(), c.as_slice()).as_slice())
}

// ---------------------------------------------------------------------------------------------
// The plan of a run
// ---------------------------------------------------------------------------------------------

/// Whether a virtual texture can be extracted: extracting needs a hash to resolve its page file
pub open spec fn is_vt_target(vt: VirtualTextureRefView) -> bool {
    trim_ws(vt.gtex_hash).len() > 0
}

/// The positions of the virtual textures of `vts` worth extracting, in order
pub open spec fn vt_targets_spec(vts: Seq<VirtualTextureRefView>) -> Seq<usize>
    decreases vts.len(),
{
    if vts.len() == 0 {
        Seq::empty()
    } else {
        vt_targets_spec(vts.drop_last()) + if is_vt_target(vts.last()) {
            seq![(vts.len() - 1) as usize]
        } else {
            Seq::empty()
        }
    }
}

/// The virtual textures extracted are exactly those with a hash to resolve, each once, in the
/// asset's order: a position is listed if and only if its virtual texture carries a non-blank hash
pub proof fn law_only_hashed_virtual_textures_are_extracted(vts: Seq<VirtualTextureRefView>)
    requires
        vts.len() <= usize::MAX,
    ensures
        forall|i: int| 0 <= i < vt_targets_spec(vts).len() ==> #[trigger] vt_targets_spec(vts)[i] < vts.len(),
        forall|i: int, j: int|
            0 <= i < j < vt_targets_spec(vts).len() ==> #[trigger] vt_targets_spec(vts)[i] < #[trigger] vt_targets_spec(
                vts,
            )[j],
        forall|p: int|
            0 <= p < vts.len() ==> (vt_targets_spec(vts).contains(p as usize) <==> is_vt_target(#[trigger] vts[p])),
    decreases vts.len(),
{
    if vts.len() > 0 {
        let rest = vts.drop_last();
        law_only_hashed_virtual_textures_are_extracted(rest);
        let r = vt_targets_spec(rest);
        let t = vt_targets_spec(vts);
        let last = (vts.len() - 1) as usize;
        let tail = if is_vt_target(vts.last()) {
            seq![last]
        } else {
            Seq::<usize>::empty()
        };
        assert(t == r + tail);
        assert forall|i: int| 0 <= i < t.len() implies #[trigger] t[i] < vts.len() by {
            if i < r.len() {
                assert(t[i] == r[i]);
            }
        }
        assert forall|i: int, j: int| 0 <= i < j < t.len() implies #[trigger] t[i] < #[trigger] t[j] by {
            assert(t[i] == r[i]);
            assert(r[i] < rest.len());
            if j < r.len() {
                assert(t[j] == r[j]);
            } else {
                assert(t[j] == last);
            }
        }
        assert forall|p: int| 0 <= p < vts.len() implies (t.contains(p as usize) <==> is_vt_target(#[trigger] vts[p])) by {
            if p < vts.len() - 1 {
                assert(rest[p] == vts[p]);
                if t.contains(p as usize) {
                    let i = choose|i: int| 0 <= i < t.len() && t[i] == p as usize;
                    if i < r.len() {
                        assert(r[i] == p as usize);
                        assert(r.contains(p as usize));
                    } else {
                        assert(t[i] == last);
                    }
                }
                if r.contains(p as usize) {
                    let i = choose|i: int| 0 <= i < r.len() && r[i] == p as usize;
                    assert(t[i] == p as usize);
                    assert(t.contains(p as usize));
                }
            } else {
                if t.contains(p as usize) {
                    let i = choose|i: int| 0 <= i < t.len() && t[i] == p as usize;
                    if i < r.len() {
                        assert(t[i] == r[i]);
                        assert(r[i] < rest.len());
                    } else {
                        assert(tail.len() > 0);
                    }
                }
                if is_vt_target(vts[p]) {
                    assert(t[t.len() - 1] == p as usize);
                    assert(t.contains(p as usize));
                }
            }
        }
    }
}

/// A texture whose DDS path names a file is named after that file, whatever parameter or display
/// name it carries
pub proof fn law_a_texture_is_named_after_its_file(
    dds_path: Seq<char>,
    p1: Option<Seq<char>>,
    n1: Seq<char>,
    p2: Option<Seq<char>>,
    n2: Seq<char>,
)
    requires
        file_stem_spec(dds_path) is Some,
    ensures
        texture_stem_spec(dds_path, p1, n1) == texture_stem_spec(dds_path, p2, n2),
        texture_stem_spec(dds_path, p1, n1) == sanitized(file_stem_spec(dds_path).unwrap()),
{
}

/// The virtual textures of the asset worth extracting, by position: they are only exported
/// together with the textures, and only with a hash to resolve
pub fn vt_targets_of(asset: &VisualAsset, export_textures: bool) -> (r: Vec<usize>)
    ensures
        r@ == (if export_textures {
            vt_targets_spec(asset.virtual_textures.deep_view())
        } else {
            Seq::empty()
        }),
{
    let mut r: Vec<usize> = Vec::new();
    if !export_textures {
        assert(r@ =~= Seq::<usize>::empty());
        return r;
    }
    let ghost vts = asset.virtual_textures.deep_view();
    let mut i: usize = 0;
    assert(vts.take(0) =~= Seq::<VirtualTextureRefView>::empty());
    while i < asset.virtual_textures.len()
        invariant
            i <= vts.len(),
            vts == asset.virtual_textures.deep_view(),
            r@ == vt_targets_spec(vts.take(i as int)),
        decreases vts.len() - i,
    {
        let chars = chars_of(asset.virtual_textures[i].gtex_hash.as_str());
        let trimmed = trim(chars.as_slice());
        let ghost prev = r@;
        assert(vts.take(i + 1).drop_last() =~= vts.take(i as int));
        assert(vts.take(i + 1).last() == vts[i as int]);
        if trimmed.len() > 0 {
            r.push(i);
            assert(r@ =~= prev + seq![i]);
        } else {
            assert(prev + Seq::<usize>::empty() =~= prev);
        }
        i = i + 1;
    }
    assert(vts.take(vts.len() as int) =~= vts);
    r
}

/// How many texture items the progress bar counts
pub fn texture_total(asset: &VisualAsset, export_textures: bool) -> (r: usize)
    ensures
        r == (if export_textures {
            asset.textures@.len()
        } else {
            0
        }),
{
    if export_textures {
        asset.textures.len()
    } else {
        0
    }
}

/// Everything decided before the first artifact is written: what the run is called, in which form
/// each artifact goes, and how many items the progress bar counts
#[derive(Debug)]
pub struct ExportPlan {
    /// The asset's file name: the export directory and the mesh are named after it
    pub dir_name: String,
    pub mesh_format: MeshFormat,
    pub export_textures: bool,
    pub convert_to_png: bool,
    /// Positions of the virtual textures to extract
    pub vt_targets: Vec<usize>,
    /// One mesh and one manifest, plus the textures and virtual textures
    pub progress_total: usize,
}

/// Decide what the export of `asset` will contain
pub fn plan_export(asset: &VisualAsset, options: ExportOptions) -> (r: ExportPlan)
    requires
        2 + asset.textures@.len() + asset.virtual_textures@.len() <= usize::MAX,
    ensures
        r.dir_name@ == sanitized(asset.name@),
        r.mesh_format == options.mesh_format,
        r.export_textures == (options.texture_format != TextureFormat::NoTextures),
        r.convert_to_png == (options.texture_format == TextureFormat::Png),
        r.vt_targets@ == (if r.export_textures {
            vt_targets_spec(asset.virtual_textures.deep_view())
        } else {
            Seq::empty()
        }),
        r.progress_total == 2 + (if r.export_textures {
            asset.textures@.len()
        } else {
            0
        }) + r.vt_targets@.len(),
{
    // Textures are always exported separately (regular + virtual); the format is a single switch
    let export_textures = options.texture_format.is_export();
    let dir_name = sanitize_file_name(asset.name.as_str());
    let vt_targets = vt_targets_of(asset, export_textures);
    proof {
        lemma_targets_within(asset.virtual_textures.deep_view());
    }
    let textures = texture_total(asset, export_textures);
    let targets = vt_targets.len();
    ExportPlan {
        dir_name,
        mesh_format: options.mesh_format,
        export_textures,
        convert_to_png: options.texture_format.is_png(),
        vt_targets,
        progress_total: 2 + textures + targets,
    }
}

/// There are no more targets than virtual textures, and each is a position of one
proof fn lemma_targets_within(vts: Seq<VirtualTextureRefView>)
    ensures
        vt_targets_spec(vts).len() <= vts.len(),
        forall|i: int| 0 <= i < vt_targets_spec(vts).len() ==> #[trigger] vt_targets_spec(vts)[i] < vts.len(),
    decreases vts.len(),
{
    if vts.len() > 0 {
        lemma_targets_within(vts.drop_last());
    }
}

// ---------------------------------------------------------------------------------------------
// The mesh
// ---------------------------------------------------------------------------------------------

/// The phase the mesh is reported under: a conversion, or a raw copy
pub fn mesh_phase(format: MeshFormat) -> (r: &'static str)
    ensures
        r@ == (if format == MeshFormat::Glb {
            PHASE_MODEL@
        } else {
            PHASE_MODEL_RAW@
        }),
{
    if format.is_glb() {
        PHASE_MODEL
    } else {
        PHASE_MODEL_RAW
    }
}

/// The file the mesh is written to: named after the asset, with the format's extension
pub fn mesh_file_name(dir_name: &str, format: MeshFormat) -> (r: String)
    ensures
        r@ == dir_name@ + "."@ + format.extension_spec(),
{
    proof {
        reveal_strlit(".");
    }
    let a = chars_of(dir_name);
    let dot = chars_of(".");
    let ext = chars_of(format.extension());
    let ad = concat(a.as_slice(), dot.as_slice());
    string_of(concat(ad.as_slice(), ext.as_slice()).as_slice())
}

/// The message a failed GLB conversion aborts the export with
pub open spec fn glb_failure(message: Seq<char>) -> Seq<char> {
    "Failed to convert mesh to GLB: "@ + message
}

/// The GLB artifact of what a conversion gave: its bytes, or its message prefixed with what failed
pub fn glb_artifact(converted: Result<Vec<u8>, String>) -> (r: Result<Vec<u8>, String>)
    ensures
        match converted {
            Ok(glb) => r matches Ok(bytes) && bytes@ == glb@,
            Err(message) => r matches Err(e) && e@ == glb_failure(message@),
        },
{
    match converted {
        Ok(glb) => Ok(glb),
        Err(message) => {
            let prefix = chars_of("Failed to convert mesh to GLB: ");
            let m = chars_of(message.as_str());
            Err(string_of(concat(prefix.as_slice(), m.as_slice()).as_slice()))
        },
    }
}

/// The mesh artifact of the archive bytes `gr2`: the archive bytes themselves for a raw GR2 (no
/// conversion run), or what the GLB conversion gave, whose failure aborts the export. The
/// conversion is maclarian's, run by the caller: its GR2 reader trusts the offsets it finds inside
/// the unpacked sections as they stand, and the caller keeps what it does with a malformed file
/// from taking the app down.
pub fn mesh_artifact(gr2: Vec<u8>, converted: Option<Result<Vec<u8>, String>>) -> (r: Result<Vec<u8>, String>)
    ensures
        match converted {
            None => r matches Ok(bytes) && bytes@ == gr2@,
            Some(Ok(glb)) => r matches Ok(bytes) && bytes@ == glb@,
            Some(Err(message)) => r matches Err(e) && e@ == glb_failure(message@),
        },
{
    match converted {
        None => Ok(gr2),
        Some(c) => glb_artifact(c),
    }
}

// ---------------------------------------------------------------------------------------------
// Textures
// ---------------------------------------------------------------------------------------------

/// The file stem of a texture: named after the DDS resource in the archive (e.g. `Body_BM`),
/// falling back to the parameter slot and then the display name only when the path names no file
pub open spec fn texture_stem_spec(dds_path: Seq<char>, parameter_name: Option<Seq<char>>, name: Seq<char>) -> Seq<
    char,
> {
    sanitized(
        match file_stem_spec(dds_path) {
            Some(stem) => stem,
            None => match parameter_name {
                Some(p) => p,
                None => name,
            },
        },
    )
}

/// File stem of a texture: never the material parameter slot (e.g. `ColorTexture`) or the bank
/// display name while the archive path names a file
pub fn texture_stem(tex: &TextureRef) -> (r: String)
    ensures
        r@ == texture_stem_spec(tex.dds_path@, opt_view(tex.parameter_name), tex.name@),
{
    let path = chars_of(tex.dds_path.as_str());
    match file_stem(path.as_slice()) {
        Some(stem) => sanitize_file_name(string_of(stem.as_slice()).as_str()),
        None => match &tex.parameter_name {
            Some(p) => sanitize_file_name(p.as_str()),
            None => sanitize_file_name(tex.name.as_str()),
        },
    }
}

/// `stem` with an extension: `<stem>.<ext>`
pub fn with_extension(stem: &str, ext: &str) -> (r: String)
    ensures
        r@ == stem@ + "."@ + ext@,
{
    proof {
        reveal_strlit(".");
    }
    let a = chars_of(stem);
    let dot = chars_of(".");
    let e = chars_of(ext);
    let ad = concat(a.as_slice(), dot.as_slice());
    string_of(concat(ad.as_slice(), e.as_slice()).as_slice())
}

/// Keep the DDS, or the PNG that replaced it: when conversion was not asked for, or the PNG did
/// not make it to disk, the DDS is what the export recorded
pub fn keep_dds_or_png(
    dds_path: String,
    dds_size: usize,
    convert_to_png: bool,
    png_replaced: bool,
    output: &mut ExportOutput,
)
    ensures
        final(output).warnings_view() == old(output).warnings_view(),
        final(output).files_view() == (if convert_to_png && png_replaced {
            old(output).files_view()
        } else {
            old(output).files_view().push((dds_path@, "dds"@, dds_size))
        }),
{
    let replaced = convert_to_png && png_replaced;
    if !replaced {
        output.record(dds_path, "dds", dds_size);
    }
}

// ---------------------------------------------------------------------------------------------
// Virtual texture layers
// ---------------------------------------------------------------------------------------------

/// The three layers the extractor writes for a virtual texture
pub const VT_LAYERS: [&'static str; 3] = ["BaseMap", "NormalMap", "PhysicalMap"];

/// The file stem an extracted layer is exported under: the asset's name and the layer as the
/// engine names it
pub fn layer_stem(safe_name: &str, layer: &str) -> (r: String)
    ensures
        r@ == safe_name@ + "_"@ + layer_name(layer@),
{
    proof {
        reveal_strlit("_");
    }
    let a = chars_of(safe_name);
    let u = chars_of("_");
    let l = export_layer_name(layer);
    let lc = chars_of(l.as_str());
    let au = concat(a.as_slice(), u.as_slice());
    string_of(concat(au.as_slice(), lc.as_slice()).as_slice())
}

/// The ending an extractor output of `layer` has: `_<layer, lowercased>.dds`
pub open spec fn layer_suffix(layer: Seq<char>) -> Seq<char> {
    "_"@ + lowercased(layer) + ".dds"@
}

/// Position of the first of `names` that is the extractor's output for `layer`: its lowercased
/// name ends with `_<layer, lowercased>.dds`
pub open spec fn layer_output_index(names: Seq<Seq<char>>, layer: Seq<char>) -> Option<int> {
    if exists|i: int| 0 <= i < names.len() && has_suffix(lowercased(#[trigger] names[i]), layer_suffix(layer)) {
        Some(
            choose|i: int|
                0 <= i < names.len() && has_suffix(lowercased(#[trigger] names[i]), layer_suffix(layer))
                    && forall|j: int| 0 <= j < i ==> !has_suffix(lowercased(#[trigger] names[j]), layer_suffix(layer)),
        )
    } else {
        None
    }
}

/// Find the extractor output for one layer among the names of the files it wrote
pub fn find_layer_output(names: &Vec<String>, layer: &str) -> (r: Option<usize>)
    ensures
        match r {
            Some(i) => i < names@.len() && layer_output_index(names.deep_view(), layer@) == Some(i as int),
            None => layer_output_index(names.deep_view(), layer@) is None,
        },
{
    proof {
        reveal_strlit("_");
        reveal_strlit(".dds");
    }
    let ghost ns = names.deep_view();
    let u = chars_of("_");
    let lower = to_lowercase(layer);
    let l = chars_of(lower.as_str());
    let dds = chars_of(".dds");
    let ul = concat(u.as_slice(), l.as_slice());
    let suffix = concat(ul.as_slice(), dds.as_slice());
    let mut i: usize = 0;
    while i < names.len()
        invariant
            i <= ns.len(),
            ns == names.deep_view(),
            suffix@ == layer_suffix(layer@),
            forall|j: int| 0 <= j < i ==> !has_suffix(lowercased(#[trigger] ns[j]), layer_suffix(layer@)),
        decreases ns.len() - i,
    {
        let name = to_lowercase(names[i].as_str());
        let chars = chars_of(name.as_str());
        if ends_with(chars.as_slice(), suffix.as_slice()) {
            proof {
                assert(has_suffix(lowercased(ns[i as int]), layer_suffix(layer@)));
                let w = choose|x: int|
                    0 <= x < ns.len() && has_suffix(lowercased(#[trigger] ns[x]), layer_suffix(layer@))
                        && forall|j: int| 0 <= j < x ==> !has_suffix(lowercased(#[trigger] ns[j]), layer_suffix(layer@));
                if w < i {
                    assert(!has_suffix(lowercased(ns[w]), layer_suffix(layer@)));
                } else if w > i {
                    assert(!has_suffix(lowercased(ns[i as int]), layer_suffix(layer@)));
                }
            }
            return Some(i);
        }
        i = i + 1;
    }
    None
}

// ---------------------------------------------------------------------------------------------
// The manifest
// ---------------------------------------------------------------------------------------------

/// `maclarian::VERSION`: the version of the maclarian crate the app was built with
#[verifier::external_body]
fn maclarian_version() -> (r: String)
    ensures
        r@ == "0.1.3"@,
{
    maclarian::VERSION.to_string()
}

/// The values of a manifest
pub struct ExportManifestView {
    pub id: Seq<char>,
    pub name: Seq<char>,
    pub source: Option<Seq<char>>,
    pub path: Seq<char>,
    pub materials: Seq<ExportMaterialView>,
    pub exported_at_unix: u64,
    pub maclarian_version: Seq<char>,
}

impl DeepView for ExportManifest {
    type V = ExportManifestView;

    open spec fn deep_view(&self) -> ExportManifestView {
        ExportManifestView {
            id: self.id@,
            name: self.name@,
            source: opt_view(self.source),
            path: self.path@,
            materials: self.materials.deep_view(),
            exported_at_unix: self.exported_at_unix,
            maclarian_version: self.maclarian_version@,
        }
    }
}

/// The manifest fields that need no resource list: the asset's identity and where it came from
pub fn manifest_base(asset: &VisualAsset, sources: &ModSources, exported_at_unix: u64) -> (r: ExportManifest)
    requires
        sources.wf(),
    ensures
        r.id@ == asset.id@,
        r.name@ == asset.name@,
        opt_view(r.source) == source_spec(sources@, asset.id@),
        r.path@ == asset.gr2_path@,
        r.materials@.len() == 0,
        r.exported_at_unix == exported_at_unix,
        r.maclarian_version@ == "0.1.3"@,
{
    ExportManifest {
        id: asset.id.clone(),
        name: asset.name.clone(),
        source: source_of(sources, asset.id.as_str()),
        path: asset.gr2_path.clone(),
        materials: Vec::new(),
        exported_at_unix,
        maclarian_version: maclarian_version(),
    }
}

/// Assemble the `asset.json` content of one export: the resource rows are built once and handed
/// to the material rows, which carry these very rows for their own resources; the manifest lists
/// the resources nowhere else
pub fn build_manifest(
    asset: &VisualAsset,
    materials: &MaterialCache,
    sources: &ModSources,
    vt_matches: &[GtpMatch],
    exported_at_unix: u64,
) -> (r: ExportManifest)
    requires
        materials.wf(),
        sources.wf(),
    ensures
        r.deep_view() == (ExportManifestView {
            id: asset.id@,
            name: asset.name@,
            source: source_spec(sources@, asset.id@),
            path: asset.gr2_path@,
            materials: asset.material_ids.deep_view().map_values(
                |id: Seq<char>|
                    export_material_spec(
                        id,
                        crate::material::known_of(materials@, id),
                        crate::visual::texture_rows(asset.deep_view(), sources@),
                        crate::visual::vt_rows(
                            asset.deep_view(),
                            vt_matches@.map_values(|g: GtpMatch| g.deep_view()),
                            materials@,
                            sources@,
                        ),
                        sources@,
                    ),
            ),
            exported_at_unix: exported_at_unix,
            maclarian_version: "0.1.3"@,
        }),
{
    let textures = crate::texture::texture_summaries(asset, sources);
    let virtual_textures = crate::virtual_textures::virtual_texture_summaries(asset, vt_matches, materials, sources);
    let rows = manifest_materials(asset, materials, textures.as_slice(), virtual_textures.as_slice(), sources);
    let mut manifest = manifest_base(asset, sources, exported_at_unix);
    proof {
        let dv = asset.deep_view();
        assert(textures@.map_values(|t: crate::texture::TextureSummary| t.deep_view()) =~= crate::visual::texture_rows(
            dv,
            sources@,
        ));
        assert(virtual_textures@.map_values(|t: crate::virtual_textures::VirtualTextureSummary| t.deep_view())
            =~= crate::visual::vt_rows(dv, vt_matches@.map_values(|g: GtpMatch| g.deep_view()), materials@, sources@));
    }
    manifest.materials = rows;
    manifest
}

/// Whether the manifest carries any virtual texture row at all; nothing is read from the archives
/// when it does not
pub fn has_vt_rows(manifest: &ExportManifest) -> (r: bool)
    ensures
        r == exists|i: int|
            0 <= i < manifest.materials@.len() && (#[trigger] manifest.materials@[i]).virtual_textures@.len() > 0,
{
    let mut i: usize = 0;
    while i < manifest.materials.len()
        invariant
            i <= manifest.materials@.len(),
            forall|j: int| 0 <= j < i ==> (#[trigger] manifest.materials@[j]).virtual_textures@.len() == 0,
        decreases manifest.materials@.len() - i,
    {
        if manifest.materials[i].virtual_textures.len() > 0 {
            return true;
        }
        i = i + 1;
    }
    false
}

} // verus!
