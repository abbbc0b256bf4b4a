use assets_lens::export::{
    build_manifest, find_layer_output, has_vt_rows, keep_dds_or_png, labeled_detail, layer_stem, mesh_artifact, record_failure,
    ExportFailure,
    mesh_file_name, mesh_phase, plan_export, texture_stem, with_extension, ExportOptions, ExportOutput,
    MeshFormat, TextureFormat,
};
use assets_lens::material::{materials_of, virtual_texture_parameter, BindingKind, MaterialCache, MaterialInfo, VirtualTextureBinding};
use assets_lens::model::{GtpMatch, TextureRef, VirtualTextureRef, VisualAsset};
use assets_lens::source::ModSources;
use assets_lens::strmap::StrMap;
use assets_lens::virtual_textures::match_for_hash;
use assets_lens::visual::VisualAssetDetail;

fn texture(id: &str, name: &str, dds_path: &str, parameter: Option<&str>) -> TextureRef {
    TextureRef {
        id: id.to_string(),
        name: name.to_string(),
        dds_path: dds_path.to_string(),
        source_pak: "Textures.pak".to_string(),
        width: 512,
        height: 256,
        parameter_name: parameter.map(str::to_string),
    }
}

fn asset() -> VisualAsset {
    VisualAsset {
        id: "V1".to_string(),
        name: "Robe<1>".to_string(),
        gr2_path: "Public/Shared/Assets/Robe.GR2".to_string(),
        source_pak: "Models.pak".to_string(),
        material_ids: vec!["M1".to_string(), "M2".to_string(), "MX".to_string()],
        textures: vec![
            texture("T1", "Robe_BM", "Public/Shared/Assets/Textures/Robe_BM.DDS", Some("BaseColor")),
            texture("T2", "Robe NM", "", Some("Normal")),
        ],
        virtual_textures: vec![
            VirtualTextureRef { id: "VT1".to_string(), name: "Robe_VT".to_string(), gtex_hash: " ABCDEF ".to_string() },
            VirtualTextureRef { id: "VT2".to_string(), name: "Blank".to_string(), gtex_hash: "  ".to_string() },
        ],
    }
}

fn binding(id: &str, parameter: &str) -> VirtualTextureBinding {
    VirtualTextureBinding { id: id.to_string(), parameter_name: parameter.to_string() }
}

fn materials() -> MaterialCache {
    let mut m = StrMap::new();
    m.insert(
        "M1".to_string(),
        MaterialInfo {
            name: "Mat1".to_string(),
            source_file: "tpl1.lsf".to_string(),
            texture_ids: vec!["T2".to_string(), "T1".to_string(), "TX".to_string()],
            virtual_textures: vec![binding("VT1", "")],
        },
    );
    m.insert(
        "M2".to_string(),
        MaterialInfo {
            name: "Mat2".to_string(),
            source_file: "tpl2.lsf".to_string(),
            texture_ids: vec![],
            virtual_textures: vec![binding("VT1", "virtualtexture")],
        },
    );
    m
}

fn sources() -> ModSources {
    let mut s = StrMap::new();
    s.insert("T1".to_string(), "ModA".to_string());
    s.insert("M2".to_string(), "ModB".to_string());
    s
}

fn matches() -> Vec<GtpMatch> {
    vec![GtpMatch {
        gtex_hash: "abcdef".to_string(),
        gtp_path: "Generated/VT/Set_5_abcdef.gtp".to_string(),
        pak_path: "VirtualTextures.pak".to_string(),
    }]
}

#[test]
fn a_hash_is_matched_trimmed_and_without_case() {
    let m = matches();
    assert_eq!(match_for_hash(&m, " ABCDEF ").map(|g| g.gtp_path.as_str()), Some("Generated/VT/Set_5_abcdef.gtp"));
    assert!(match_for_hash(&m, "abcde").is_none());
}

#[test]
fn the_detail_lists_materials_with_what_they_bind() {
    let detail = VisualAssetDetail::new(&asset(), &matches(), &materials(), &sources());
    assert_eq!(detail.id, "V1");
    assert_eq!(detail.path, "Public/Shared/Assets/Robe.GR2");
    assert_eq!(detail.source, None);
    assert_eq!(detail.materials.len(), 3);

    let m1 = &detail.materials[0];
    assert_eq!((m1.name.as_str(), m1.source_file.as_str(), m1.source.clone()), ("Mat1", "tpl1.lsf", None));
    let kinds: Vec<(BindingKind, &str, Option<&str>)> =
        m1.bindings.iter().map(|b| (b.kind, b.id.as_str(), b.parameter_name.as_deref())).collect();
    assert_eq!(
        kinds,
        vec![(BindingKind::Texture, "T2", Some("Normal")), (BindingKind::Texture, "T1", Some("BaseColor")), (BindingKind::Virtual, "VT1", None)]
    );
    assert_eq!(m1.bindings[2].name, "Robe_VT");

    let m2 = &detail.materials[1];
    assert_eq!(m2.source.as_deref(), Some("ModB"));
    assert_eq!(m2.bindings.len(), 1);
    assert_eq!(m2.bindings[0].parameter_name.as_deref(), Some("virtualtexture"));

    // A material the cache does not know keeps its row, with nothing to show but the GUID
    let unknown = &detail.materials[2];
    assert_eq!((unknown.id.as_str(), unknown.name.as_str(), unknown.bindings.len()), ("MX", "", 0));
}

#[test]
fn the_detail_rows_carry_sources_and_page_files() {
    let detail = VisualAssetDetail::new(&asset(), &matches(), &materials(), &sources());
    assert_eq!(detail.textures[0].source.as_deref(), Some("ModA"));
    assert_eq!(detail.textures[1].source, None);
    assert_eq!(detail.textures[0].path, "Public/Shared/Assets/Textures/Robe_BM.DDS");
    let vt = &detail.virtual_textures[0];
    assert_eq!(vt.path, "Generated/VT/Set_5_abcdef.gtp");
    assert_eq!(vt.hash, " ABCDEF ");
    assert_eq!((vt.width, vt.height), (None, None));
    // The first material binding it names no parameter, so the row shows none
    assert_eq!(vt.parameter_name, None);
    assert_eq!(detail.virtual_textures[1].path, "");
}

#[test]
fn the_parameter_comes_from_the_first_binding() {
    let ids = vec!["M2".to_string(), "M1".to_string()];
    assert_eq!(virtual_texture_parameter("VT1", &ids, &materials()).as_deref(), Some("virtualtexture"));
    assert_eq!(virtual_texture_parameter("VT9", &ids, &materials()), None);
}

#[test]
fn only_referenced_materials_are_copied() {
    let subset = materials_of(&vec!["M2".to_string(), "MX".to_string()], &materials());
    assert_eq!(subset.len(), 1);
    assert!(subset.contains_key("M2"));
    assert!(!subset.contains_key("M1"));
}

#[test]
fn the_plan_counts_every_step() {
    let a = asset();
    let plan = plan_export(&a, ExportOptions { mesh_format: MeshFormat::Glb, texture_format: TextureFormat::Png });
    assert_eq!(plan.dir_name, "Robe_1_");
    assert!(plan.export_textures && plan.convert_to_png);
    assert_eq!(plan.vt_targets, vec![0]);
    assert_eq!(plan.progress_total, 2 + 2 + 1);
    let bare = plan_export(&a, ExportOptions { mesh_format: MeshFormat::Gr2, texture_format: TextureFormat::NoTextures });
    assert!(!bare.export_textures && !bare.convert_to_png);
    assert!(bare.vt_targets.is_empty());
    assert_eq!(bare.progress_total, 2);
    let dds = plan_export(&a, ExportOptions { mesh_format: MeshFormat::Gr2, texture_format: TextureFormat::Dds });
    assert!(dds.export_textures && !dds.convert_to_png);
}

#[test]
fn artifacts_are_named_after_the_asset() {
    assert_eq!(mesh_file_name("Robe_1_", MeshFormat::Glb), "Robe_1_.glb");
    assert_eq!(mesh_file_name("Robe_1_", MeshFormat::Gr2), "Robe_1_.gr2");
    assert_eq!(mesh_phase(MeshFormat::Glb), "model");
    assert_eq!(mesh_phase(MeshFormat::Gr2), "modelRaw");
    let a = asset();
    assert_eq!(texture_stem(&a.textures[0]), "Robe_BM");
    assert_eq!(texture_stem(&a.textures[1]), "Normal");
    assert_eq!(texture_stem(&texture("T3", "Some:Name", "", None)), "Some_Name");
    assert_eq!(with_extension("Robe_BM", "png"), "Robe_BM.png");
    assert_eq!(layer_stem("Robe_1_", "BaseMap"), "Robe_1__Albedo");
    assert_eq!(layer_stem("Robe_1_", "PhysicalMap"), "Robe_1__Physical");
    assert_eq!(labeled_detail("Robe_BM", "not found"), "Robe_BM: not found");
}

#[test]
fn layer_outputs_are_found_by_their_suffix() {
    let names = vec!["out/Set_basemap.dds".to_string(), "out/Set_NormalMap.DDS".to_string()];
    assert_eq!(find_layer_output(&names, "BaseMap"), Some(0));
    assert_eq!(find_layer_output(&names, "NormalMap"), Some(1));
    assert_eq!(find_layer_output(&names, "PhysicalMap"), None);
}

#[test]
fn the_output_keeps_files_and_warnings_in_order() {
    let mut out = ExportOutput::new();
    out.record("Robe.glb".to_string(), "mesh", 10);
    keep_dds_or_png("textures/A.dds".to_string(), 5, true, true, &mut out);
    keep_dds_or_png("textures/B.dds".to_string(), 6, true, false, &mut out);
    keep_dds_or_png("textures/C.dds".to_string(), 7, false, false, &mut out);
    out.warn("texture_missing", "D: gone".to_string());
    let (files, warnings) = out.into_parts();
    let paths: Vec<&str> = files.iter().map(|f| f.path.as_str()).collect();
    assert_eq!(paths, vec!["Robe.glb", "textures/B.dds", "textures/C.dds"]);
    assert_eq!(files[1].kind, "dds");
    assert_eq!(files[2].size_bytes, 7);
    assert_eq!(warnings.len(), 1);
    assert_eq!((warnings[0].code.as_str(), warnings[0].detail.as_str()), ("texture_missing", "D: gone"));
}

#[test]
fn a_raw_mesh_is_copied_and_a_broken_one_fails_to_convert() {
    let gr2 = vec![1u8, 2, 3];
    assert_eq!(mesh_artifact(gr2.clone(), None), Ok(gr2.clone()));
    assert_eq!(mesh_artifact(gr2.clone(), Some(Ok(vec![9u8]))), Ok(vec![9u8]));
    let converted = maclarian::converter::gr2_gltf::convert_gr2_bytes_to_glb(&gr2).map_err(|e| e.to_string());
    let message = converted.clone().unwrap_err();
    let err = mesh_artifact(gr2, Some(converted)).unwrap_err();
    assert_eq!(err, format!("Failed to convert mesh to GLB: {message}"));
}

#[test]
fn the_manifest_lists_resources_inside_their_materials() {
    let manifest = build_manifest(&asset(), &materials(), &sources(), &matches(), 1_700_000_000);
    assert_eq!(manifest.id, "V1");
    assert_eq!(manifest.name, "Robe<1>");
    assert_eq!(manifest.path, "Public/Shared/Assets/Robe.GR2");
    assert_eq!(manifest.exported_at_unix, 1_700_000_000);
    assert_eq!(manifest.maclarian_version, "0.1.3");
    assert_eq!(manifest.materials.len(), 3);
    let m1 = &manifest.materials[0];
    let textures: Vec<&str> = m1.textures.iter().map(|t| t.id.as_str()).collect();
    assert_eq!(textures, vec!["T2", "T1"]);
    assert_eq!(m1.textures[1].source.as_deref(), Some("ModA"));
    assert_eq!(m1.virtual_textures.len(), 1);
    assert_eq!(m1.virtual_textures[0].path, "Generated/VT/Set_5_abcdef.gtp");
    assert_eq!(manifest.materials[1].source.as_deref(), Some("ModB"));
    assert!(manifest.materials[2].textures.is_empty());
    assert!(has_vt_rows(&manifest));
    let plain = build_manifest(&asset(), &StrMap::new(), &sources(), &[], 0);
    assert!(!has_vt_rows(&plain));
}

#[test]
fn a_conversion_result_becomes_a_preview_or_its_message() {
    let preview = assets_lens::preview::preview_from(Ok(b"Man".to_vec())).unwrap();
    assert_eq!(preview.base64, "TWFu");
    let message = "No meshes found in GR2 file (contains: skeleton)".to_string();
    assert_eq!(assets_lens::preview::preview_from(Err(message.clone())).unwrap_err(), message);
    assert_eq!(assets_lens::export::glb_artifact(Ok(vec![1, 2])), Ok(vec![1, 2]));
    assert_eq!(
        assets_lens::export::glb_artifact(Err("bad header".to_string())),
        Err("Failed to convert mesh to GLB: bad header".to_string())
    );
}

#[test]
fn each_failure_is_recorded_under_its_code() {
    let mut output = ExportOutput::new();
    record_failure(&mut output, ExportFailure::TextureWrite, "T.dds", "disk full");
    record_failure(&mut output, ExportFailure::VtGtpNotFound, "ignored", "abc123");
    record_failure(&mut output, ExportFailure::PngConvert, "T.dds", "bad header");
    let (_, warnings) = output.into_parts();
    let got: Vec<(String, String)> = warnings.into_iter().map(|w| (w.code, w.detail)).collect();
    assert_eq!(
        got,
        vec![
            ("textureWriteFailed".to_string(), "T.dds: disk full".to_string()),
            ("vtGtpNotFound".to_string(), "abc123".to_string()),
            ("pngConvertFailed".to_string(), "T.dds: bad header".to_string()),
        ]
    );
    assert_eq!(ExportFailure::ManifestSerialize.code(), "manifestSerializeFailed");
}
