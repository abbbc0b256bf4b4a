use assets_lens::archives::{find_entry, normalize_path, pak_names};
use assets_lens::staging::gts_candidates;
use assets_lens::browse::fold_keyword;
use assets_lens::building::{adopt_directory, restore_index};
use assets_lens::app::CacheStatus;
use assets_lens::material::{fill_virtual_texture_parameters, MaterialCache, MaterialInfo, VirtualTextureBinding};
use assets_lens::model::{MergedIndex, TextureRef, VirtualTextureRef, VisualAsset};
use assets_lens::naming::sanitize_file_name;
use assets_lens::session::{sorted_visual_ids, AppState, Assembly};
use assets_lens::strmap::StrMap;
use assets_lens::visual::VisualAssetDetail;

fn visual(id: &str, name: &str) -> VisualAsset {
    VisualAsset {
        id: id.to_string(),
        name: name.to_string(),
        gr2_path: format!("{name}.GR2"),
        source_pak: String::new(),
        material_ids: vec![],
        textures: vec![],
        virtual_textures: vec![],
    }
}

fn assembly() -> Assembly {
    let mut db = MergedIndex::new("Shared.pak".to_string());
    for (id, name) in [("c3", "Same"), ("a1", "Same"), ("b2", "Other"), ("d4", "Zed")] {
        db.visuals_by_id.insert(id.to_string(), visual(id, name));
    }
    let mut mod_sources = StrMap::new();
    mod_sources.insert("d4".to_string(), "A Mod".to_string());
    Assembly { db, materials: StrMap::new(), mod_sources }
}

#[test]
fn a_reloaded_index_pages_exactly_as_the_built_one() {
    let built = assembly();
    let orders = sorted_visual_ids(&built.db, &built.mod_sources);
    let mut st = AppState::new();
    adopt_directory(&mut st, "D:/Data".to_string());
    restore_index(&mut st, "D:/Data", CacheStatus::loaded(1), Some(assembly()));
    assert_eq!(st.visual_ids, orders.by_name);
    assert_eq!(st.visual_ids_by_id, orders.by_id);
    assert_eq!(st.visual_ids_by_source, orders.by_source);
    assert_eq!(orders.by_name, vec!["b2", "a1", "c3", "d4"]);
    assert_eq!(st.cache_status.state, "loaded");
}

#[test]
fn a_restore_for_a_directory_left_behind_changes_nothing() {
    let mut st = AppState::new();
    adopt_directory(&mut st, "D:/New".to_string());
    restore_index(&mut st, "D:/Old", CacheStatus::loaded(1), Some(assembly()));
    assert!(st.merged_db.is_none());
    assert_eq!(st.cache_status.state, "idle");
}

#[test]
fn sanitized_names_are_always_safe() {
    for raw in ["../../etc/passwd", "..", ".", "\u{1}\u{2}", "a:b|c", " .hidden", "CON<>"] {
        let name = sanitize_file_name(raw);
        assert!(!name.is_empty() && name.chars().count() <= 80, "{raw:?}");
        assert!(!name.starts_with('.'), "{raw:?} gave {name:?}");
        assert!(!name.chars().any(|c| c.is_control() || "<>:\"/\\|?*".contains(c)), "{raw:?} gave {name:?}");
    }
}

fn material(bindings: &[(&str, &str)]) -> MaterialInfo {
    MaterialInfo {
        name: "M".to_string(),
        source_file: "tpl.lsf".to_string(),
        texture_ids: vec!["t1".to_string()],
        virtual_textures: bindings
            .iter()
            .map(|(id, name)| VirtualTextureBinding { id: id.to_string(), parameter_name: name.to_string() })
            .collect(),
    }
}

#[test]
fn filling_names_again_changes_nothing() {
    let mut cache: MaterialCache = StrMap::new();
    cache.insert("m1".to_string(), material(&[("v1", ""), ("v2", "kept"), ("v3", "")]));
    let mut names = StrMap::new();
    names.insert("m1".to_string(), vec!["first".to_string(), "second".to_string()]);
    fill_virtual_texture_parameters(&mut cache, &names);
    let once: Vec<String> = cache.get("m1").unwrap().virtual_textures.iter().map(|b| b.parameter_name.clone()).collect();
    assert_eq!(once, vec!["first", "kept", ""]);
    fill_virtual_texture_parameters(&mut cache, &names);
    let twice: Vec<String> = cache.get("m1").unwrap().virtual_textures.iter().map(|b| b.parameter_name.clone()).collect();
    assert_eq!(twice, once);
}

#[test]
fn every_binding_points_at_a_row_of_the_detail() {
    let mut asset = visual("v", "Robe");
    asset.material_ids = vec!["m1".to_string(), "m2".to_string()];
    asset.textures = vec![TextureRef {
        id: "t1".to_string(),
        name: "Robe_BM".to_string(),
        dds_path: "Robe_BM.DDS".to_string(),
        source_pak: String::new(),
        width: 1,
        height: 1,
        parameter_name: None,
    }];
    asset.virtual_textures =
        vec![VirtualTextureRef { id: "v1".to_string(), name: "Robe_VT".to_string(), gtex_hash: "ab".to_string() }];
    let mut cache: MaterialCache = StrMap::new();
    cache.insert("m1".to_string(), material(&[("v1", "virtualtexture"), ("missing", "")]));
    cache.insert("m2".to_string(), material(&[]));
    let detail = VisualAssetDetail::new(&asset, &[], &cache, &StrMap::new());
    let mut seen = 0;
    for row in &detail.materials {
        for binding in &row.bindings {
            let texture = detail.textures.iter().any(|t| t.id == binding.id && t.name == binding.name);
            let virtual_texture = detail.virtual_textures.iter().any(|v| v.id == binding.id && v.name == binding.name);
            assert!(texture || virtual_texture, "{binding:?} names no row");
            seen += 1;
        }
    }
    assert_eq!(seen, 3);
}

#[test]
fn a_keyword_is_compared_whatever_its_case() {
    let a = fold_keyword(Some("  Body_Armor ".to_string()));
    let b = fold_keyword(Some("bODY_aRMOR".to_string()));
    assert_eq!(a, Some("body_armor".to_string()));
    assert_eq!(a, b);
}

#[test]
fn a_lookup_ignores_how_the_table_spells_its_paths() {
    let want = normalize_path("Generated/Public/Shared/Assets/Body.GR2");
    let one = vec!["Other/x.gr2".to_string(), "Generated\\Public\\Shared\\Assets\\Body.GR2".to_string()];
    let two = vec!["other/X.GR2".to_string(), "generated/public/shared/assets/body.gr2".to_string()];
    assert_eq!(find_entry(&one, &want), Some(1));
    assert_eq!(find_entry(&one, &want), find_entry(&two, &want));
}

#[test]
fn a_preview_grows_by_a_third_over_its_glb() {
    for n in [0usize, 1, 2, 3, 4, 10, 300] {
        let preview = assets_lens::preview::preview_from(Ok(vec![7u8; n])).unwrap();
        assert_eq!(preview.base64.len(), 4 * ((n + 2) / 3));
    }
}

#[test]
fn a_normalized_archive_path_is_settled() {
    for p in ["Generated\\Public\\Shared\\Body.GR2", "a/B\\c", "plain"] {
        let once = normalize_path(p);
        assert!(!once.contains('\\'));
        assert_eq!(normalize_path(&once), once);
    }
}

#[test]
fn mod_archives_are_listed_once_in_name_order() {
    let names: Vec<String> = ["b.pak", "A.PAK", "notes.txt", ".pak", "b.pak", "c.Pak", "pak", "d.pak.bak"]
        .iter()
        .map(|s| s.to_string())
        .collect();
    assert_eq!(pak_names(&names), vec!["A.PAK".to_string(), "b.pak".to_string(), "c.Pak".to_string()]);
}

#[test]
fn the_derived_gts_goes_first_and_alone() {
    let fallbacks = vec!["a.gts".to_string(), "b.gts".to_string()];
    assert_eq!(gts_candidates(Some("x.gts".to_string()), fallbacks.clone()), vec!["x.gts".to_string()]);
    assert_eq!(gts_candidates(None, fallbacks.clone()), fallbacks);
}
