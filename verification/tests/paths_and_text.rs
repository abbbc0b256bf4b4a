use assets_lens::archives::{find_entry, mod_search_order, normalize_path, pak_file_name, Pak};
use assets_lens::cache::{
    cache_file, check_persisted, digest, normalize, read_cache, same_stamps, written_by_this_build, Loaded, PakStamp,
    FORMAT_VERSION,
};
use assets_lens::lsx::{decode_entities, replace};
use assets_lens::number::parse_u32;
use assets_lens::paths::{dir_of, file_name, file_stem};

fn chars(s: &str) -> Vec<char> {
    s.chars().collect()
}

fn text(v: Option<Vec<char>>) -> Option<String> {
    v.map(|c| c.into_iter().collect())
}

#[test]
fn file_names_follow_path_rules() {
    assert_eq!(text(file_name(&chars("a/b.txt"))), Some("b.txt".to_string()));
    assert_eq!(text(file_name(&chars("b.txt"))), Some("b.txt".to_string()));
    assert_eq!(text(file_name(&chars("a/b/"))), Some("b".to_string()));
    assert_eq!(text(file_name(&chars("a/."))), Some("a".to_string()));
    assert_eq!(text(file_name(&chars("/"))), None);
    assert_eq!(text(file_name(&chars(""))), None);
    assert_eq!(text(file_name(&chars("a/.."))), None);
}

#[test]
fn file_stems_drop_the_last_extension() {
    assert_eq!(text(file_stem(&chars("a/b.tar.gz"))), Some("b.tar".to_string()));
    assert_eq!(text(file_stem(&chars("dir/.hidden"))), Some(".hidden".to_string()));
    assert_eq!(text(file_stem(&chars("dir/plain"))), Some("plain".to_string()));
    assert_eq!(text(file_stem(&chars("/"))), None);
}

#[test]
fn the_directory_is_the_text_before_the_last_separator() {
    let d: String = dir_of(&chars("a/b/c.gtp")).into_iter().collect();
    assert_eq!(d, "a/b");
    let none: String = dir_of(&chars("c.gtp")).into_iter().collect();
    assert_eq!(none, "");
}

#[test]
fn numbers_parse_as_u32_does() {
    assert_eq!(parse_u32(&chars("42")), Some(42));
    assert_eq!(parse_u32(&chars("+5")), Some(5));
    assert_eq!(parse_u32(&chars("007")), Some(7));
    assert_eq!(parse_u32(&chars("4294967295")), Some(u32::MAX));
    assert_eq!(parse_u32(&chars("4294967296")), None);
    assert_eq!(parse_u32(&chars("")), None);
    assert_eq!(parse_u32(&chars("+")), None);
    assert_eq!(parse_u32(&chars("-1")), None);
    assert_eq!(parse_u32(&chars("1a")), None);
    assert_eq!(parse_u32(&chars(" 1")), None);
}

#[test]
fn entities_are_decoded_with_ampersand_last() {
    assert_eq!(decode_entities("PixellBytes&apos; Adjustable Party Limit"), "PixellBytes' Adjustable Party Limit");
    assert_eq!(decode_entities("&lt;a&gt; &quot;b&quot;"), "<a> \"b\"");
    assert_eq!(decode_entities("&amp;lt;"), "&lt;");
    assert_eq!(decode_entities("no escapes"), "no escapes");
}

#[test]
fn replace_swaps_every_occurrence() {
    let r: String = replace(&chars("aXbXc"), &chars("X"), &chars("--")).into_iter().collect();
    assert_eq!(r, "a--b--c");
    let r: String = replace(&chars("aaa"), &chars("aa"), &chars("b")).into_iter().collect();
    assert_eq!(r, "ba");
}

#[test]
fn digest_is_fnv1a_in_hex() {
    assert_eq!(digest(""), "cbf29ce484222325");
    assert_eq!(digest("a"), "af63dc4c8601ec8c");
    assert_eq!(digest("foobar"), "85944171f73967e8");
}

#[test]
fn a_directory_is_normalized_before_hashing() {
    assert_eq!(normalize("D:\\Games\\BG3\\Data\\"), "d:/games/bg3/data");
    assert_eq!(cache_file("d:/games"), format!("database-{}.json", digest("d:/games")));
}

#[test]
fn two_spellings_of_a_directory_share_a_cache_file() {
    let a = cache_file("D:\\GOG Games\\Baldurs Gate 3\\Data\\");
    let b = cache_file("D:/gog games/baldurs gate 3/data");
    assert_eq!(a, b);
    assert_ne!(a, cache_file("D:/GOG Games/Other"));
}

#[test]
fn only_this_build_reads_its_own_files() {
    assert!(written_by_this_build(FORMAT_VERSION, "0.4.0", "0.4.0"));
    assert!(!written_by_this_build(FORMAT_VERSION + 1, "0.4.0", "0.4.0"));
    assert!(!written_by_this_build(FORMAT_VERSION, "0.3.9", "0.4.0"));
}

fn stamp(name: &str, size: u64, modified: u64) -> PakStamp {
    PakStamp { name: name.to_string(), size, modified }
}

#[test]
fn stamps_compare_field_by_field_in_order() {
    let a = vec![stamp("Shared.pak", 10, 1), stamp("GustavX.pak", 20, 2)];
    let b = vec![stamp("Shared.pak", 10, 1), stamp("GustavX.pak", 20, 2)];
    let c = vec![stamp("GustavX.pak", 20, 2), stamp("Shared.pak", 10, 1)];
    let d = vec![stamp("Shared.pak", 10, 3), stamp("GustavX.pak", 20, 2)];
    assert!(same_stamps(&a, &b));
    assert!(!same_stamps(&a, &c));
    assert!(!same_stamps(&a, &d));
    assert!(!same_stamps(&a, &vec![]));
}

fn check(version: u32, app: &str, game: Vec<PakStamp>, mods: Vec<PakStamp>, visuals: usize) -> Loaded<u8> {
    let current_game = vec![stamp("Shared.pak", 10, 1)];
    let current_mods = vec![stamp("m.pak", 5, 5)];
    check_persisted(version, app.to_string(), 77, &game, &mods, &current_game, &current_mods, visuals, "1.0.0", 9u8)
}

#[test]
fn a_persisted_index_is_checked_against_its_sources() {
    let game = || vec![stamp("Shared.pak", 10, 1)];
    let mods = || vec![stamp("m.pak", 5, 5)];
    assert!(matches!(check(FORMAT_VERSION, "1.0.0", game(), mods(), 3), Loaded::Cache { built_at: 77, payload: 9 }));
    match check(FORMAT_VERSION, "0.9.0", game(), mods(), 3) {
        Loaded::Stale { code, detail } => {
            assert_eq!(code, "version");
            assert_eq!(detail.as_deref(), Some("0.9.0"));
        }
        _ => panic!("a file of another version is refused"),
    }
    match check(FORMAT_VERSION, "1.0.0", vec![], mods(), 3) {
        Loaded::Stale { code, detail } => {
            assert_eq!(code, "game_paks");
            assert_eq!(detail, None);
        }
        _ => panic!("changed game paks are refused"),
    }
    match check(FORMAT_VERSION, "1.0.0", game(), vec![], 3) {
        Loaded::Stale { code, detail } => {
            assert_eq!(code, "mod_paks");
            assert_eq!(detail, None);
        }
        _ => panic!("changed mod paks are refused"),
    }
    match check(FORMAT_VERSION, "1.0.0", game(), mods(), 0) {
        Loaded::Stale { code, detail } => {
            assert_eq!(code, "unreadable");
            assert_eq!(detail.as_deref(), Some("the persisted index holds no visual"));
        }
        _ => panic!("an empty index is refused"),
    }
}

#[test]
fn the_status_reports_what_loading_found() {
    let (status, payload) = read_cache(Loaded::Cache { built_at: 5, payload: 1u8 });
    assert_eq!(status.state, "loaded");
    assert_eq!(status.built_at, Some(5));
    assert_eq!(payload, Some(1));
    let (status, payload) = read_cache::<u8>(Loaded::Missing);
    assert_eq!(status.state, "idle");
    assert_eq!(payload, None);
    let (status, payload) = read_cache::<u8>(Loaded::Stale { code: "mod_paks".to_string(), detail: None });
    assert_eq!(status.state, "stale");
    assert_eq!(status.code.as_deref(), Some("mod_paks"));
    assert_eq!(payload, None);
}

#[test]
fn archives_are_named_and_searched() {
    assert_eq!(pak_file_name(Pak::Models), "Models.pak");
    assert_eq!(Pak::VirtualTextures.file_name(), "VirtualTextures.pak");
    assert_eq!(normalize_path("Public\\Shared\\Assets\\A.GR2"), "public/shared/assets/a.gr2");
    let names = vec!["Public/A.gr2".to_string(), "public\\b.DDS".to_string(), "public/b.dds".to_string()];
    assert_eq!(find_entry(&names, "public/b.dds"), Some(1));
    assert_eq!(find_entry(&names, "public/c.dds"), None);
    assert_eq!(mod_search_order(3), vec![2, 1, 0]);
    assert!(mod_search_order(0).is_empty());
}
