use assets_lens::banks::{bank_dir, bank_files, display_name, meta_path, without_merged_siblings};
use assets_lens::lsf::links_forward;
use assets_lens::lsx::{attr, bank_xml, module_name, parse_bank, resource_nodes, LsxDocument};
use assets_lens::vt_params::template_names;
use assets_lens::material::{MaterialCache, MaterialInfo};
use assets_lens::merge::merge_into;
use assets_lens::model::{MergedIndex, TextureRef, VisualAsset};
use assets_lens::mods::{read_banks, ModAssets};
use assets_lens::source::ModSources;
use assets_lens::strmap::StrMap;

const BANK: &str = r#"<?xml version="1.0" encoding="utf-8"?>
<save>
  <version major="4" minor="0" revision="9" build="322"/>
  <region id="VisualBank">
    <node id="VisualBank">
      <children>
        <node id="Resource">
          <attribute id="ID" type="FixedString" value="vis-1"/>
          <attribute id="Name" type="LSString" value="Mod_Robe"/>
          <attribute id="SourceFile" type="LSString" value="Public/CoolMod/Assets/Robe.GR2"/>
          <children>
            <node id="Objects"><attribute id="MaterialID" type="FixedString" value="mat-1"/></node>
            <node id="Objects"><attribute id="MaterialID" type="FixedString" value="mat-1"/></node>
            <node id="Objects"><attribute id="MaterialID" type="FixedString" value="game-mat"/></node>
          </children>
        </node>
        <node id="Resource">
          <attribute id="ID" type="FixedString" value="vis-no-mesh"/>
          <attribute id="Name" type="LSString" value="Nothing"/>
        </node>
      </children>
    </node>
  </region>
  <region id="MaterialBank">
    <node id="Resource">
      <attribute id="ID" type="FixedString" value="mat-1"/>
      <attribute id="Name" type="LSString" value="Robe_Mat"/>
      <attribute id="SourceFile" type="LSString" value="Public/Shared/Assets/Materials/Cloth.lsf"/>
      <children>
        <node id="Texture2DParameters">
          <attribute id="ID" type="FixedString" value="tex-1"/>
          <attribute id="ParameterName" type="FixedString" value="basecolor"/>
        </node>
        <node id="Texture2DParameters">
          <attribute id="ID" type="FixedString" value="game-tex"/>
          <attribute id="ParameterName" type="FixedString" value="normalmap"/>
        </node>
        <node id="VirtualTextureParameters"><attribute id="ID" type="FixedString" value="vt-1"/></node>
        <node id="VirtualTextureParameters"><attribute id="ID" type="FixedString" value="vt-1"/></node>
        <node id="ScalarParameters"><attribute id="ID" type="FixedString" value="ignored"/></node>
      </children>
    </node>
  </region>
  <region id="TextureBank">
    <node id="Resource">
      <attribute id="ID" type="FixedString" value="tex-1"/>
      <attribute id="Name" type="LSString" value="Robe_BM"/>
      <attribute id="SourceFile" type="LSString" value="Public/CoolMod/Assets/Robe_BM.DDS"/>
      <attribute id="Width" type="uint32" value="1024"/>
      <attribute id="Height" type="uint32" value="tall"/>
    </node>
  </region>
  <region id="VirtualTextureBank">
    <node id="Resource">
      <attribute id="ID" type="FixedString" value="vt-1"/>
      <attribute id="Name" type="LSString" value="Robe_VT"/>
      <attribute id="GTexFileName" type="FixedString" value="0123abcd"/>
    </node>
  </region>
  <region id="Tags">
    <node id="Resource"><attribute id="ID" type="FixedString" value="tag-1"/></node>
  </region>
</save>
"#;

const META: &str = r#"<?xml version="1.0" encoding="utf-8"?>
<save>
  <region id="Config">
    <node id="root">
      <children>
        <node id="ModuleInfo">
          <attribute id="Name" type="LSString" value="PixellBytes&apos; Party"/>
        </node>
      </children>
    </node>
  </region>
</save>
"#;

const BANK_PATH: &str = "public/coolmod/content/assets/[pak]_robe/robe.lsx";

fn mod_assets() -> ModAssets {
    let doc = parse_bank(BANK_PATH, BANK.as_bytes(), None).expect("a readable bank");
    let mut assets = ModAssets::new("Cool Mod".to_string());
    read_banks(&mut assets, &doc);
    assets
}

#[test]
fn a_bank_is_parsed_into_regions_and_nodes() {
    let doc = parse_bank(BANK_PATH, BANK.as_bytes(), None).unwrap();
    let ids: Vec<&str> = doc.regions.iter().map(|r| r.id.as_str()).collect();
    assert_eq!(ids, vec!["VisualBank", "MaterialBank", "TextureBank", "VirtualTextureBank", "Tags"]);
    // A per-resource region nests its resources under a node named after the bank
    assert_eq!(resource_nodes(&doc.regions[0], "VisualBank").len(), 2);
    // A region listing them directly is accepted as well
    let materials = resource_nodes(&doc.regions[1], "MaterialBank");
    assert_eq!(materials.len(), 1);
    assert_eq!(attr(materials[0], "Name"), "Robe_Mat");
    assert_eq!(attr(materials[0], "Missing"), "");
}

#[test]
fn unreadable_bank_bytes_yield_nothing() {
    assert!(parse_bank("public/m/content/[pak]_x/a.lsx", &[0xff, 0xfe, 0x00], None).is_none());
    assert!(parse_bank("public/m/content/[pak]_x/a.lsf", b"not an lsf file", None).is_none());
    // a binary bank is read through the XML its converter gave, whatever the bytes
    let doc = parse_bank("public/m/content/[pak]_x/a.lsf", b"", Some(BANK.to_string())).unwrap();
    assert_eq!(doc.regions.len(), parse_bank(BANK_PATH, BANK.as_bytes(), None).unwrap().regions.len());
}

#[test]
fn every_indexed_bank_region_is_read() {
    let assets = mod_assets();
    assert_eq!(assets.name, "Cool Mod");
    assert_eq!(assets.visuals.len(), 1);
    let visual = &assets.visuals[0];
    assert_eq!(visual.id, "vis-1");
    assert_eq!(visual.gr2_path, "Public/CoolMod/Assets/Robe.GR2");
    assert_eq!(visual.material_ids, vec!["mat-1", "game-mat"]);
    let material = assets.materials.get("mat-1").unwrap();
    assert_eq!(material.name, "Robe_Mat");
    let params: Vec<(&str, &str)> =
        material.textures.iter().map(|p| (p.parameter_name.as_str(), p.texture_id.as_str())).collect();
    assert_eq!(params, vec![("basecolor", "tex-1"), ("normalmap", "game-tex")]);
    assert_eq!(material.virtual_textures, vec!["vt-1"]);
    let texture = assets.textures.get("tex-1").unwrap();
    assert_eq!((texture.width, texture.height), (1024, 0));
    assert_eq!(texture.dds_path, "Public/CoolMod/Assets/Robe_BM.DDS");
    assert_eq!(assets.virtual_textures.get("vt-1").unwrap().gtex_hash, "0123abcd");
    assert!(assets.textures.get("tag-1").is_none());
}

fn game_texture(id: &str) -> TextureRef {
    TextureRef {
        id: id.to_string(),
        name: "Game_NM".to_string(),
        dds_path: "Public/Shared/Game_NM.DDS".to_string(),
        source_pak: "Textures.pak".to_string(),
        width: 2048,
        height: 2048,
        parameter_name: None,
    }
}

#[test]
fn a_mod_is_folded_over_the_game_by_guid() {
    let mut db = MergedIndex::new("Shared.pak".to_string());
    db.textures.insert("game-tex".to_string(), game_texture("game-tex"));
    db.visuals_by_id.insert(
        "g-vis".to_string(),
        VisualAsset {
            id: "g-vis".to_string(),
            name: "Game_Body".to_string(),
            gr2_path: "Public/Shared/Body.GR2".to_string(),
            source_pak: "Models.pak".to_string(),
            material_ids: vec![],
            textures: vec![],
            virtual_textures: vec![],
        },
    );
    let mut materials: MaterialCache = StrMap::new();
    materials.insert(
        "game-mat".to_string(),
        MaterialInfo {
            name: "Game_Mat".to_string(),
            source_file: "Game.lsf".to_string(),
            texture_ids: vec!["game-tex".to_string()],
            virtual_textures: vec![],
        },
    );
    let mut sources: ModSources = StrMap::new();

    merge_into(&mut db, mod_assets(), &mut materials, &mut sources);

    let visual = db.visuals_by_id.get("vis-1").expect("the mod visual is indexed");
    let textures: Vec<(&str, Option<&str>)> =
        visual.textures.iter().map(|t| (t.id.as_str(), t.parameter_name.as_deref())).collect();
    // The mod material binds both, in its own order; the game material adds nothing new
    assert_eq!(textures, vec![("tex-1", Some("basecolor")), ("game-tex", Some("normalmap"))]);
    let vts: Vec<&str> = visual.virtual_textures.iter().map(|v| v.id.as_str()).collect();
    assert_eq!(vts, vec!["vt-1"]);

    assert!(db.visuals_by_id.get("g-vis").is_some());
    assert_eq!(db.textures.len(), 2);
    assert_eq!(db.visuals_by_name.get("Mod_Robe").map(String::as_str), Some("vis-1"));
    assert_eq!(db.visuals_by_gr2.get("Robe.GR2").cloned(), Some(vec!["vis-1".to_string()]));

    for id in ["tex-1", "vt-1", "vis-1", "mat-1"] {
        assert_eq!(sources.get(id).map(String::as_str), Some("Cool Mod"), "{id} is labeled with the mod");
    }
    assert!(sources.get("game-tex").is_none());
    assert!(sources.get("g-vis").is_none());

    let mat = materials.get("mat-1").unwrap();
    assert_eq!(mat.texture_ids, vec!["tex-1", "game-tex"]);
    assert_eq!(mat.virtual_textures.len(), 1);
    assert_eq!(mat.virtual_textures[0].parameter_name, "");
    assert!(materials.get("game-mat").is_some());
}

#[test]
fn a_later_mod_overrides_an_earlier_one() {
    let mut db = MergedIndex::new(String::new());
    let mut materials: MaterialCache = StrMap::new();
    let mut sources: ModSources = StrMap::new();
    merge_into(&mut db, mod_assets(), &mut materials, &mut sources);
    let doc = parse_bank(BANK_PATH, BANK.as_bytes(), None).unwrap();
    let mut second = ModAssets::new("Second Mod".to_string());
    read_banks(&mut second, &doc);
    merge_into(&mut db, second, &mut materials, &mut sources);
    assert_eq!(sources.get("vis-1").map(String::as_str), Some("Second Mod"));
    assert_eq!(db.visuals_by_gr2.get("Robe.GR2").map(Vec::len), Some(2));
}

#[test]
fn bank_directories_sit_under_content_and_a_pak_folder() {
    assert_eq!(bank_dir(BANK_PATH).as_deref(), Some("public/coolmod/content/assets/[pak]_robe"));
    assert_eq!(bank_dir("public/coolmod/content/[pak]_robe/sub/bank.lsf").as_deref(), Some("public/coolmod/content/[pak]_robe/sub"));
    assert_eq!(bank_dir("public/coolmod/content/bank.lsx"), None);
    assert_eq!(bank_dir("public/coolmod/roottemplates/[pak]_x/bank.lsx"), None);
    assert_eq!(bank_dir("mods/coolmod/meta.lsx"), None);
    assert_eq!(bank_dir("public/coolmod/content/[pak]_x/readme.txt"), None);
}

#[test]
fn a_merged_bank_stands_for_the_lsf_banks_beside_it() {
    let files = vec!["d/a.lsf".to_string(), "d/a_merged.lsf".to_string(), "d/b.lsx".to_string()];
    assert_eq!(without_merged_siblings(files), vec!["d/a_merged.lsf", "d/b.lsx"]);
    let plain = vec!["d/a.lsf".to_string(), "d/b.lsx".to_string()];
    assert_eq!(without_merged_siblings(plain.clone()), plain);
}

#[test]
fn bank_files_come_one_directory_at_a_time_in_directory_order() {
    let paths: Vec<String> = [
        "public/m/content/[pak]_b/z.lsf",
        "public/m/content/[pak]_a/x.lsf",
        "public/m/content/[pak]_a/x_merged.lsf",
        "public/m/content/[pak]_a/y.lsx",
        "mods/m/meta.lsx",
    ]
    .iter()
    .map(|s| s.to_string())
    .collect();
    assert_eq!(
        bank_files(&paths),
        vec!["public/m/content/[pak]_a/x_merged.lsf", "public/m/content/[pak]_a/y.lsx", "public/m/content/[pak]_b/z.lsf"]
    );
    assert_eq!(meta_path(&paths), Some(4));
    assert_eq!(meta_path(&paths[..1].to_vec()), None);
}

#[test]
fn a_mod_is_named_by_its_metadata() {
    let meta: LsxDocument = parse_bank("mods/m/meta.lsx", META.as_bytes(), None).unwrap();
    assert_eq!(module_name(&meta.regions[0].nodes[0]).as_deref(), Some("PixellBytes' Party"));
    assert_eq!(display_name(Some(&meta), "coolmod_e4aaf48d".to_string()), "PixellBytes' Party");
    assert_eq!(display_name(None, "coolmod_e4aaf48d".to_string()), "coolmod_e4aaf48d");
    let bank = parse_bank(BANK_PATH, BANK.as_bytes(), None).unwrap();
    assert_eq!(display_name(Some(&bank), "stem".to_string()), "stem");
}

/// An uncompressed binary bank of one root node `VirtualTextureParameters` with one fixed-string attribute
/// `ParameterName` = "abc", whose link to the next attribute is `next`
fn lsf_bank(next: i32) -> Vec<u8> {
    let mut names = Vec::new();
    names.extend_from_slice(&1u32.to_le_bytes());
    names.extend_from_slice(&2u16.to_le_bytes());
    for s in ["VirtualTextureParameters", "ParameterName"] {
        names.extend_from_slice(&(s.len() as u16).to_le_bytes());
        names.extend_from_slice(s.as_bytes());
    }
    let mut nodes = Vec::new();
    for v in [0i32, -1, -1, 0] {
        nodes.extend_from_slice(&v.to_le_bytes());
    }
    let mut attrs = Vec::new();
    for v in [1i32, 22 | (4 << 6), next, 0] {
        attrs.extend_from_slice(&v.to_le_bytes());
    }
    let values = b"abc\0".to_vec();
    let mut d = Vec::new();
    d.extend_from_slice(b"LSOF");
    d.extend_from_slice(&6u32.to_le_bytes());
    d.extend_from_slice(&0u64.to_le_bytes());
    for len in [names.len(), 0, nodes.len(), attrs.len(), values.len()] {
        d.extend_from_slice(&(len as u32).to_le_bytes());
        d.extend_from_slice(&0u32.to_le_bytes());
    }
    d.extend_from_slice(&0u32.to_le_bytes());
    d.extend_from_slice(&1u32.to_le_bytes());
    for section in [&names, &nodes, &attrs, &values] {
        d.extend_from_slice(section);
    }
    d
}

/// The attribute links maclarian's LSF reader reads out of `bytes`
fn links_of(bytes: &[u8]) -> Vec<i32> {
    let doc = maclarian::formats::lsf::parse_lsf_bytes(bytes).expect("an LSF document");
    doc.attributes.iter().map(|a| a.next_index).collect()
}

#[test]
fn a_binary_bank_with_forward_links_is_read() {
    let bytes = lsf_bank(-1);
    assert!(links_forward(&links_of(&bytes)));
    let doc = maclarian::formats::lsf::parse_lsf_bytes(&bytes).unwrap();
    let xml = maclarian::converter::to_lsx(&doc).unwrap();
    assert!(xml.contains("ParameterName"));
    assert_eq!(bank_xml("public/m/a.lsf", &bytes, Some(xml.clone())), Some(xml.clone()));
    assert!(parse_bank("public/m/a.lsf", &bytes, Some(xml)).is_some());
    let table = vec![(doc.node_name(0).map(str::to_string), doc.get_fixed_string_attr(0, "ParameterName"))];
    assert_eq!(template_names(Some(table)), vec!["abc".to_string()]);
}

#[test]
fn a_binary_bank_whose_links_loop_back_is_refused() {
    let bytes = lsf_bank(0);
    assert!(!links_forward(&links_of(&bytes)));
    assert!(links_forward(&[-1, 2, 5, -1]));
    assert!(!links_forward(&[1, 1]));
    assert!(bank_xml("public/m/a.lsf", &bytes, None).is_none());
    assert!(parse_bank("public/m/a.lsf", &bytes, None).is_none());
    assert!(template_names(None).is_empty());
}
