use assets_lens::naming::{
    derive_gts_path, export_layer_name, replace_forbidden, sanitize_file_name, strip_gtp_extension,
    strip_hash_suffix,
};

const HASH: &str = "0123456789abcdef0123456789ABCDEF";

#[test]
fn forbidden_characters_become_underscores() {
    assert_eq!(sanitize_file_name("a<b>c:d\"e/f\\g|h?i*j"), "a_b_c_d_e_f_g_h_i_j");
    assert_eq!(replace_forbidden('/'), '_');
    assert_eq!(replace_forbidden('x'), 'x');
}

#[test]
fn control_characters_are_dropped() {
    assert_eq!(sanitize_file_name("a\tb\nc\u{7}"), "abc");
}

#[test]
fn spaces_then_dots_are_trimmed() {
    assert_eq!(sanitize_file_name("  ..name..  "), "name");
    // Only the dots at the ends go after the spaces did: inner spaces stay
    assert_eq!(sanitize_file_name("  . x . "), " x ");
}

#[test]
fn an_empty_name_becomes_asset() {
    assert_eq!(sanitize_file_name(""), "asset");
    assert_eq!(sanitize_file_name("..."), "asset");
    assert_eq!(sanitize_file_name(" \u{1} . "), "asset");
}

#[test]
fn long_names_are_capped_at_eighty_characters() {
    let long: String = "x".repeat(100);
    assert_eq!(sanitize_file_name(&long), "x".repeat(80));
    let wide: String = "é".repeat(90);
    assert_eq!(sanitize_file_name(&wide).chars().count(), 80);
}

#[test]
fn a_clean_name_is_kept() {
    assert_eq!(sanitize_file_name("HUM_M_ARM_Leather_A_Body"), "HUM_M_ARM_Leather_A_Body");
}

#[test]
fn a_sanitized_name_sanitizes_to_itself() {
    for raw in ["a<b", "  ..x..  ", "", "ok", "..."] {
        let once = sanitize_file_name(raw);
        assert_eq!(sanitize_file_name(&once), once);
    }
}

#[test]
fn layer_names_follow_the_engine() {
    assert_eq!(export_layer_name("BaseMap"), "Albedo");
    assert_eq!(export_layer_name("NormalMap"), "Normal");
    assert_eq!(export_layer_name("PhysicalMap"), "Physical");
    assert_eq!(export_layer_name("Other"), "Other");
    assert_eq!(export_layer_name("MapMap"), "");
}

#[test]
fn the_gtp_extension_is_stripped_in_either_case() {
    assert_eq!(strip_gtp_extension("a.gtp"), "a");
    assert_eq!(strip_gtp_extension("a.GTP"), "a");
    assert_eq!(strip_gtp_extension("a.Gtp"), "a.Gtp");
    assert_eq!(strip_gtp_extension("a"), "a");
}

#[test]
fn only_a_thirty_two_digit_hex_suffix_is_stripped() {
    assert_eq!(strip_hash_suffix(&format!("Albedo_Normal_Physical_5_{HASH}")), "Albedo_Normal_Physical_5");
    assert_eq!(strip_hash_suffix(&format!("Set_{}", &HASH[1..])), format!("Set_{}", &HASH[1..]));
    assert_eq!(strip_hash_suffix("Set_0123456789abcdef0123456789abcdeg"), "Set_0123456789abcdef0123456789abcdeg");
    assert_eq!(strip_hash_suffix(HASH), HASH);
    assert_eq!(strip_hash_suffix("Plain_Name"), "Plain_Name");
}

#[test]
fn a_page_file_derives_the_gts_beside_it() {
    let gtp = format!("Generated/Public/VirtualTextures/Albedo_Normal_Physical_5_{HASH}.gtp");
    assert_eq!(derive_gts_path(&gtp), "Generated/Public/VirtualTextures/Albedo_Normal_Physical_5.gts");
    assert_eq!(derive_gts_path(&format!("Tiles_{HASH}.gtp")), "Tiles.gts");
    assert_eq!(derive_gts_path("dir/Named.GTP"), "dir/Named.gts");
}

#[test]
fn page_files_of_one_tile_set_share_their_gts() {
    let a = derive_gts_path(&format!("VT/Albedo_Normal_Physical_5_{HASH}.gtp"));
    let b = derive_gts_path("VT/Albedo_Normal_Physical_5_ffffffffffffffffffffffffffffffff.gtp");
    let c = derive_gts_path("VT/Albedo_Normal_Physical_5_0000000000000000000000000000000A.GTP");
    assert_eq!(a, b);
    assert_eq!(a, c);
    assert_eq!(a, "VT/Albedo_Normal_Physical_5.gts");
    assert_eq!(derive_gts_path("d/Set_5.gtp"), "d/Set_5.gts");
}
