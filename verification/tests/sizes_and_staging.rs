use assets_lens::building::{unresolved_material, vt_hashes};
use assets_lens::material::{ExportMaterial, MaterialCache, MaterialInfo, VirtualTextureBinding};
use assets_lens::model::{GtpMatch, VirtualTextureRef, VisualAsset};
use assets_lens::page_files::GTS_MAGIC;
use assets_lens::export::ExportManifest;
use assets_lens::page_sizes::{apply_manifest_sizes, apply_sizes, page_file_size, pending_gts, record_gts, SizeCache, SizeLookup};
use assets_lens::staging::{
    file_stem_lowercase, finish_candidates, gts_fallbacks, is_gts_in_dir, longest_first, missing_gts_error,
    parent_dir_lowercase, staged_name,
};
use assets_lens::strmap::StrMap;
use assets_lens::virtual_textures::VirtualTextureSummary;
use assets_lens::vt_params::{read_parameters, template_names, templates_to_read};

const HASH: &str = "0123456789abcdef0123456789abcdef";

/// One level, one page file named after `HASH`, whose level 0 tiles span 2 x 1 tiles of 64
/// content pixels each
fn gts_bytes() -> Vec<u8> {
    let mut d = vec![0u8; 300 + 536];
    let put32 = |d: &mut Vec<u8>, at: usize, v: u32| d[at..at + 4].copy_from_slice(&v.to_le_bytes());
    let put64 = |d: &mut Vec<u8>, at: usize, v: u64| d[at..at + 8].copy_from_slice(&v.to_le_bytes());
    put32(&mut d, 0, GTS_MAGIC);
    put32(&mut d, 40, 1);
    put32(&mut d, 52, 64);
    put32(&mut d, 56, 64);
    put32(&mut d, 60, 0);
    put32(&mut d, 68, 2);
    put64(&mut d, 72, 200);
    put32(&mut d, 88, 2);
    put64(&mut d, 92, 250);
    put32(&mut d, 132, 1);
    put64(&mut d, 136, 300);
    for (i, x) in [4u32, 5].iter().enumerate() {
        put32(&mut d, 200 + 12 * i + 8, i as u32);
        put32(&mut d, 250 + 4 * i, (x << 20) | (7 << 8));
    }
    for (j, unit) in format!("Set_5_{HASH}.gtp").encode_utf16().enumerate() {
        d[300 + 2 * j..300 + 2 * j + 2].copy_from_slice(&unit.to_le_bytes());
    }
    d
}

fn matched() -> GtpMatch {
    GtpMatch {
        gtex_hash: HASH.to_string(),
        gtp_path: format!("Generated/VT/Set_5_{HASH}.gtp"),
        pak_path: "VirtualTextures.pak".to_string(),
    }
}

fn row(hash: &str) -> VirtualTextureSummary {
    let vt = VirtualTextureRef { id: "vt".to_string(), name: "VT".to_string(), gtex_hash: hash.to_string() };
    VirtualTextureSummary::new(&vt, None)
}

#[test]
fn a_size_needs_the_gts_of_its_tile_set_first() {
    let mut sizes: SizeCache = StrMap::new();
    match page_file_size(&sizes, &matched(), HASH) {
        SizeLookup::Read(gts) => assert_eq!(gts, "Generated/VT/Set_5.gts"),
        SizeLookup::Known(_) => panic!("nothing is cached yet"),
    }
    let bytes = gts_bytes();
    record_gts(&mut sizes, "Generated/VT/Set_5.gts".to_string(), Some(&bytes));
    match page_file_size(&sizes, &matched(), HASH) {
        SizeLookup::Known(size) => assert_eq!(size, Some((128, 64))),
        SizeLookup::Read(_) => panic!("the table is cached"),
    }
}

#[test]
fn an_unreadable_gts_is_cached_as_no_sizes() {
    let mut sizes: SizeCache = StrMap::new();
    record_gts(&mut sizes, "Generated/VT/Set_5.gts".to_string(), None);
    assert!(matches!(page_file_size(&sizes, &matched(), HASH), SizeLookup::Known(None)));
    record_gts(&mut sizes, "Generated/VT/Set_5.gts".to_string(), Some(b"junk"));
    assert!(matches!(page_file_size(&sizes, &matched(), HASH), SizeLookup::Known(None)));
}

#[test]
fn rows_wait_for_their_gts_then_take_its_size() {
    let matches = vec![matched()];
    let mut rows = vec![row(HASH), row("no-such-hash")];
    let mut sizes: SizeCache = StrMap::new();
    assert_eq!(pending_gts(&rows, &matches, &sizes).as_deref(), Some("Generated/VT/Set_5.gts"));
    let bytes = gts_bytes();
    record_gts(&mut sizes, "Generated/VT/Set_5.gts".to_string(), Some(&bytes));
    assert_eq!(pending_gts(&rows, &matches, &sizes), None);
    apply_sizes(&mut rows, &matches, &sizes);
    assert_eq!((rows[0].width, rows[0].height), (Some(128), Some(64)));
    assert_eq!((rows[1].width, rows[1].height), (None, None));
}

#[test]
fn staged_files_are_named_after_their_entry() {
    assert_eq!(staged_name("Generated/VT/Set_5.gts").as_deref(), Some("Set_5.gts"));
    assert_eq!(staged_name(""), None);
    assert_eq!(missing_gts_error("VT/Set.gts"), "VT/Set.gts not found in VirtualTextures.pak");
    assert_eq!(finish_candidates("VT/Set.gts".to_string(), vec![]).unwrap_err(), "VT/Set.gts not found in VirtualTextures.pak");
    assert_eq!(finish_candidates("VT/Set.gts".to_string(), vec!["a".to_string()]).unwrap(), vec!["a"]);
}

#[test]
fn fallback_candidates_share_the_directory_and_a_name_prefix() {
    assert_eq!(file_stem_lowercase("VT/Dir/Set_5_AB.GTP"), "set_5_ab");
    assert_eq!(parent_dir_lowercase("VT/Dir/x.gtp"), "vt/dir");
    assert!(is_gts_in_dir("VT/Dir/Set.GTS", "vt/dir"));
    assert!(!is_gts_in_dir("VT/Other/Set.gts", "vt/dir"));
    let listing: Vec<String> = [
        "VT/Albedo.gts",
        "VT/Albedo_5.gts",
        "Other/Albedo_5_Extra.gts",
        "VT/Albedo_5_Extra.gts",
        "VT/Normal.gts",
        "VT/Albedo_5.gtp",
        "VT/albedo_5_e.GTS",
    ]
    .iter()
    .map(|s| s.to_string())
    .collect();
    assert_eq!(
        gts_fallbacks(&listing, "VT/Albedo_5_Extra_abc.gtp"),
        vec!["VT/Albedo_5_Extra.gts", "VT/albedo_5_e.GTS", "VT/Albedo_5.gts", "VT/Albedo.gts"]
    );
}

#[test]
fn the_longest_name_ranks_first_and_ties_keep_their_order() {
    assert_eq!(longest_first(&vec![3, 5, 5, 1]), vec![1, 2, 0, 3]);
    assert!(longest_first(&vec![]).is_empty());
}

#[test]
fn templates_are_read_once_and_name_every_material() {
    let pairs = vec![
        ("m1".to_string(), "a.lsf".to_string()),
        ("m2".to_string(), "b.lsf".to_string()),
        ("m3".to_string(), "a.lsf".to_string()),
    ];
    assert_eq!(templates_to_read(&pairs), vec!["a.lsf", "b.lsf"]);
    let mut templates = StrMap::new();
    templates.insert("a.lsf".to_string(), vec!["virtualtexture".to_string(), "overlayvirtualtexture".to_string()]);
    let names = read_parameters(&pairs, &templates);
    assert_eq!(names.get("m1").cloned(), Some(vec!["virtualtexture".to_string(), "overlayvirtualtexture".to_string()]));
    assert_eq!(names.get("m2").cloned(), Some(vec![]));
    assert_eq!(names.get("m3").map(Vec::len), Some(2));
    assert!(template_names(None).is_empty());
    let table = vec![
        (Some("VirtualTextureParameters".to_string()), Some("virtualtexture".to_string())),
        (Some("Other".to_string()), Some("ignored".to_string())),
        (Some("VirtualTextureParameters".to_string()), None),
        (None, Some("ignored".to_string())),
        (Some("VirtualTextureParameters".to_string()), Some("overlayvirtualtexture".to_string())),
    ];
    assert_eq!(template_names(Some(table)), vec!["virtualtexture".to_string(), "overlayvirtualtexture".to_string()]);
}

#[test]
fn only_named_hashes_are_looked_up() {
    let asset = VisualAsset {
        id: "v".to_string(),
        name: "V".to_string(),
        gr2_path: String::new(),
        source_pak: String::new(),
        material_ids: vec![],
        textures: vec![],
        virtual_textures: vec![
            VirtualTextureRef { id: "a".to_string(), name: String::new(), gtex_hash: " ABCdef ".to_string() },
            VirtualTextureRef { id: "b".to_string(), name: String::new(), gtex_hash: "   ".to_string() },
        ],
    };
    assert_eq!(vt_hashes(&asset), vec!["abcdef"]);
}

#[test]
fn a_material_needs_names_while_a_binding_lacks_one() {
    let mut materials: MaterialCache = StrMap::new();
    let info = |file: &str, name: &str| MaterialInfo {
        name: "M".to_string(),
        source_file: file.to_string(),
        texture_ids: vec![],
        virtual_textures: vec![VirtualTextureBinding { id: "vt".to_string(), parameter_name: name.to_string() }],
    };
    materials.insert("open".to_string(), info("tpl.lsf", ""));
    materials.insert("named".to_string(), info("tpl.lsf", "virtualtexture"));
    materials.insert("untemplated".to_string(), info("", ""));
    assert_eq!(unresolved_material(&materials, "open"), Some(("open".to_string(), "tpl.lsf".to_string())));
    assert_eq!(unresolved_material(&materials, "named"), None);
    assert_eq!(unresolved_material(&materials, "untemplated"), None);
    assert_eq!(unresolved_material(&materials, "missing"), None);
}

#[test]
fn the_detail_and_the_manifest_give_a_virtual_texture_one_size() {
    let mut sizes: SizeCache = StrMap::new();
    let bytes = gts_bytes();
    record_gts(&mut sizes, "Generated/VT/Set_5.gts".to_string(), Some(&bytes));
    let matches = vec![matched()];
    let mut rows = vec![row(HASH)];
    apply_sizes(&mut rows, &matches, &sizes);
    let mut manifest = ExportManifest {
        id: "id".to_string(),
        name: "Asset".to_string(),
        source: None,
        path: "Asset.GR2".to_string(),
        materials: vec![ExportMaterial {
            id: "m".to_string(),
            name: "M".to_string(),
            source: None,
            source_file: String::new(),
            textures: vec![],
            virtual_textures: vec![row(HASH)],
        }],
        exported_at_unix: 0,
        maclarian_version: "0.1.3".to_string(),
    };
    apply_manifest_sizes(&mut manifest, &matches, &sizes);
    let settled = &manifest.materials[0].virtual_textures[0];
    assert_eq!((rows[0].width, rows[0].height), (Some(128), Some(64)));
    assert_eq!((settled.width, settled.height), (rows[0].width, rows[0].height));
}
