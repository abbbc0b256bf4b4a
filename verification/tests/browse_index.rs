use assets_lens::browse::{list_visuals, NOT_BUILT};
use assets_lens::building::{adopt_directory, asset_of, on_directory, publish, should_persist, snapshot};
use assets_lens::model::{MergedIndex, TextureRef, VisualAsset};
use assets_lens::session::{current_stats, sorted_visual_ids, AppState, Assembly, BuiltIndex};
use assets_lens::strmap::StrMap;

fn visual(id: &str, name: &str, textures: usize) -> VisualAsset {
    VisualAsset {
        id: id.to_string(),
        name: name.to_string(),
        gr2_path: format!("Public/Shared/Assets/{name}.GR2"),
        source_pak: "Shared.pak".to_string(),
        material_ids: vec!["m1".to_string()],
        textures: (0..textures)
            .map(|i| TextureRef {
                id: format!("t{i}"),
                name: format!("Tex{i}"),
                dds_path: format!("Tex{i}.dds"),
                source_pak: "Textures.pak".to_string(),
                width: 64,
                height: 64,
                parameter_name: None,
            })
            .collect(),
        virtual_textures: Vec::new(),
    }
}

/// Three visuals: two named `Body` (one of them from a mod) and one named `Arm`
fn assembly() -> Assembly {
    let mut db = MergedIndex::new("Shared.pak".to_string());
    db.visuals_by_id.insert("0001".to_string(), visual("0001", "Body", 2));
    db.visuals_by_id.insert("0002".to_string(), visual("0002", "Arm", 0));
    db.visuals_by_id.insert("0003".to_string(), visual("0003", "Body", 1));
    let mut mod_sources = StrMap::new();
    mod_sources.insert("0003".to_string(), "Cool Mod".to_string());
    Assembly { db, materials: StrMap::new(), mod_sources }
}

fn built_state() -> AppState {
    let mut st = AppState::new();
    adopt_directory(&mut st, "D:/Game/Data".to_string());
    let stats = publish(&mut st, "D:/Game/Data", BuiltIndex::new(assembly(), true)).expect("same directory");
    assert_eq!(stats.visual_count, 3);
    st
}

fn ids(page: &assets_lens::app::Page<assets_lens::visual::VisualSummary>) -> Vec<&str> {
    page.items.iter().map(|row| row.id.as_str()).collect()
}

#[test]
fn the_three_orders_break_ties_by_id() {
    let a = assembly();
    let orders = sorted_visual_ids(&a.db, &a.mod_sources);
    assert_eq!(orders.by_name, vec!["0002", "0001", "0003"]);
    assert_eq!(orders.by_id, vec!["0001", "0002", "0003"]);
    assert_eq!(orders.by_source, vec!["0002", "0001", "0003"]);
}

#[test]
fn nothing_is_listed_before_a_build() {
    let st = AppState::new();
    let r = list_visuals(&st, 0, 10, None, None, None, None);
    assert_eq!(r.err().as_deref(), Some(NOT_BUILT));
    assert!(current_stats(&st).is_none());
}

#[test]
fn pages_slice_the_name_order() {
    let st = built_state();
    let page = list_visuals(&st, 0, 2, None, None, None, None).unwrap();
    assert_eq!(page.total, 3);
    assert_eq!(page.offset, 0);
    assert_eq!(ids(&page), vec!["0002", "0001"]);
    let next = list_visuals(&st, 2, 2, None, None, None, None).unwrap();
    assert_eq!(ids(&next), vec!["0003"]);
    let past = list_visuals(&st, 9, 2, None, None, None, None).unwrap();
    assert_eq!(past.offset, 3);
    assert!(past.items.is_empty());
}

#[test]
fn a_huge_limit_does_not_overflow() {
    let st = built_state();
    let page = list_visuals(&st, 1, usize::MAX, None, None, None, None).unwrap();
    assert_eq!(ids(&page), vec!["0001", "0003"]);
}

#[test]
fn the_keyword_matches_a_name_or_a_guid() {
    let st = built_state();
    let page = list_visuals(&st, 0, 10, Some("  BODY ".to_string()), None, None, None).unwrap();
    assert_eq!(ids(&page), vec!["0001", "0003"]);
    let page = list_visuals(&st, 0, 10, Some("0002".to_string()), None, None, None).unwrap();
    assert_eq!(ids(&page), vec!["0002"]);
    let page = list_visuals(&st, 0, 10, Some("   ".to_string()), None, None, None).unwrap();
    assert_eq!(page.total, 3);
    let page = list_visuals(&st, 0, 10, Some("leg".to_string()), None, None, None).unwrap();
    assert_eq!(page.total, 0);
}

#[test]
fn the_origin_splits_the_index_in_two() {
    let st = built_state();
    let mods = list_visuals(&st, 0, 10, None, None, None, Some("mod")).unwrap();
    assert_eq!(ids(&mods), vec!["0003"]);
    assert_eq!(mods.items[0].source.as_deref(), Some("Cool Mod"));
    let base = list_visuals(&st, 0, 10, None, None, None, Some("base")).unwrap();
    assert_eq!(ids(&base), vec!["0002", "0001"]);
    assert_eq!(base.items[0].source, None);
    let both = list_visuals(&st, 0, 10, None, None, None, Some("anything")).unwrap();
    assert_eq!(both.total, mods.total + base.total);
}

#[test]
fn sorting_picks_a_cached_order_and_a_direction() {
    let st = built_state();
    let by_id = list_visuals(&st, 0, 10, None, Some("id"), Some(true), None).unwrap();
    assert_eq!(ids(&by_id), vec!["0003", "0002", "0001"]);
    let first_desc = list_visuals(&st, 0, 1, None, None, Some(true), None).unwrap();
    assert_eq!(ids(&first_desc), vec!["0003"]);
    let by_source = list_visuals(&st, 0, 10, None, Some("source"), Some(false), None).unwrap();
    assert_eq!(ids(&by_source), vec!["0002", "0001", "0003"]);
}

#[test]
fn rows_carry_their_counts() {
    let st = built_state();
    let page = list_visuals(&st, 0, 10, None, Some("id"), None, None).unwrap();
    assert_eq!(page.items[0].name, "Body");
    assert_eq!(page.items[0].material_count, 1);
    assert_eq!(page.items[0].texture_count, 2);
    assert_eq!(page.items[0].virtual_texture_count, 0);
}

#[test]
fn the_statistics_match_the_list() {
    let st = built_state();
    let stats = current_stats(&st).unwrap();
    let all = list_visuals(&st, 0, 100, None, None, None, None).unwrap();
    assert_eq!(stats.visual_count, all.total);
    let snap = snapshot(&st);
    assert_eq!(snap.game_path.as_deref(), Some("D:/Game/Data"));
    assert_eq!(snap.stats.unwrap().visual_count, 3);
    assert_eq!(snap.cache.state, "idle");
}

#[test]
fn a_build_for_another_directory_is_discarded() {
    let mut st = AppState::new();
    adopt_directory(&mut st, "D:/New".to_string());
    assert!(on_directory(&st, "D:/New"));
    assert!(!on_directory(&st, "D:/Old"));
    let r = publish(&mut st, "D:/Old", BuiltIndex::new(assembly(), true));
    assert_eq!(r.err().as_deref(), Some("Game data directory changed while building; the result was discarded."));
    assert!(st.merged_db.is_none());
}

#[test]
fn switching_directories_drops_the_index() {
    let mut st = built_state();
    adopt_directory(&mut st, "E:/Other".to_string());
    assert!(st.merged_db.is_none());
    assert!(st.visual_ids.is_empty());
    assert!(list_visuals(&st, 0, 10, None, None, None, None).is_err());
}

#[test]
fn assets_are_copied_out_of_the_index() {
    let st = built_state();
    let asset = asset_of(&st, "0003").unwrap();
    assert_eq!(asset.name, "Body");
    assert_eq!(asset.textures.len(), 1);
    assert_eq!(asset_of(&st, "9999").err().as_deref(), Some(NOT_BUILT));
}

#[test]
fn only_a_complete_nonempty_build_is_persisted() {
    assert!(should_persist(&BuiltIndex::new(assembly(), true)));
    assert!(!should_persist(&BuiltIndex::new(assembly(), false)));
    let empty = Assembly { db: MergedIndex::new(String::new()), materials: StrMap::new(), mod_sources: StrMap::new() };
    assert!(!should_persist(&BuiltIndex::new(empty, true)));
}
