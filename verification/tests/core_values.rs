use assets_lens::app::CacheStatus;
use assets_lens::browse::{fold_keyword, in_direction, Filter};
use assets_lens::order::{compare_chars, compare_keys, Rank};
use assets_lens::preview::ModelPreview;
use assets_lens::sort::sort_by_keys;
use assets_lens::strmap::StrMap;
use assets_lens::text::{
    ascii_lowercase, contains, ends_with, eq_ignore_ascii_case, is_control, is_hex_digit, rfind, starts_with,
    trim, trim_char,
};

fn chars(s: &str) -> Vec<char> {
    s.chars().collect()
}

fn text(v: Vec<char>) -> String {
    v.into_iter().collect()
}

#[test]
fn the_preview_is_standard_base64() {
    assert_eq!(ModelPreview::from_glb(b"Man").base64, "TWFu");
    assert_eq!(ModelPreview::from_glb(b"Ma").base64, "TWE=");
    assert_eq!(ModelPreview::from_glb(b"M").base64, "TQ==");
    assert_eq!(ModelPreview::from_glb(b"").base64, "");
    assert_eq!(ModelPreview::from_glb(&[0xfb, 0xff]).base64, "+/8=");
}

#[test]
fn the_cache_status_reports_one_state() {
    let idle = CacheStatus::idle();
    assert_eq!((idle.state.as_str(), idle.built_at), ("idle", None));
    let loaded = CacheStatus::loaded(42);
    assert_eq!((loaded.state.as_str(), loaded.built_at), ("loaded", Some(42)));
    let stale = CacheStatus::stale("version", Some("0.1.0".to_string()));
    assert_eq!(stale.state, "stale");
    assert_eq!(stale.code.as_deref(), Some("version"));
    assert_eq!(stale.detail.as_deref(), Some("0.1.0"));
    let copy = stale.duplicate();
    assert_eq!(copy.detail.as_deref(), Some("0.1.0"));
}

#[test]
fn the_filter_reads_ascending_by_default() {
    let f = Filter::of(Some("mod"), None);
    assert_eq!((f.origin, f.descending), (Some("mod"), false));
    assert!(Filter::of(None, Some(true)).descending);
    assert!(!Filter::of(None, Some(false)).descending);
    assert_eq!(fold_keyword(Some("  Robe ".to_string())).as_deref(), Some("robe"));
    assert_eq!(fold_keyword(Some("   ".to_string())), None);
    assert_eq!(fold_keyword(None), None);
    let ids = vec!["a".to_string(), "b".to_string(), "c".to_string()];
    assert_eq!(in_direction(ids.clone(), true), vec!["c", "b", "a"]);
    assert_eq!(in_direction(ids.clone(), false), ids);
}

#[test]
fn text_helpers_behave_as_std_does() {
    assert_eq!(text(trim(&chars(" \t a b \n"))), "a b");
    assert_eq!(text(trim_char(&chars("..a.b.."), '.')), "a.b");
    assert!(starts_with(&chars("public/x"), &chars("public/")));
    assert!(ends_with(&chars("a_merged.lsf"), &chars("_merged.lsf")));
    assert!(contains(&chars("abcdef"), &chars("cde")));
    assert!(contains(&chars("abc"), &chars("")));
    assert!(!contains(&chars("abc"), &chars("abcd")));
    assert_eq!(rfind(&chars("a/b/c"), '/'), Some(3));
    assert_eq!(rfind(&chars("abc"), '/'), None);
    assert_eq!(text(ascii_lowercase(&chars("AbC-É"))), "abc-É");
    assert!(eq_ignore_ascii_case(&chars("ABCdef"), &chars("abcDEF")));
    assert!(!eq_ignore_ascii_case(&chars("É"), &chars("é")));
    assert!(is_control('\u{7f}') && is_control('\n') && !is_control(' '));
    assert!(is_hex_digit('F') && is_hex_digit('0') && !is_hex_digit('g'));
}

#[test]
fn the_string_map_keeps_keys_sorted_and_unique() {
    let mut m: StrMap<u32> = StrMap::new();
    m.insert("b".to_string(), 2);
    m.insert("a".to_string(), 1);
    m.insert("b".to_string(), 3);
    assert_eq!(m.len(), 2);
    assert_eq!(m.key_at(0), "a");
    assert_eq!(*m.value_at(1), 3);
    assert_eq!(m.get("b"), Some(&3));
    assert_eq!(m.get("c"), None);
    assert!(m.contains_key("a"));
    assert_eq!(m.index_of("b"), Some(1));
    m.set_value_at(0, 9);
    assert_eq!(m.get("a"), Some(&9));
}

#[test]
fn comparisons_are_lexicographic() {
    assert_eq!(compare_chars(&chars("abc"), &chars("abd")), Rank::Less);
    assert_eq!(compare_chars(&chars("ab"), &chars("abc")), Rank::Less);
    assert_eq!(compare_chars(&chars("b"), &chars("abc")), Rank::Greater);
    assert_eq!(compare_chars(&chars("x"), &chars("x")), Rank::Equal);
    assert_eq!(compare_chars(&chars("Z"), &chars("a")), Rank::Less);
    let k = |a: &str, b: &str| vec![chars(a), chars(b)];
    assert_eq!(compare_keys(&k("Body", "2"), &k("Body", "1")), Rank::Greater);
    assert_eq!(compare_keys(&k("Arm", "9"), &k("Body", "1")), Rank::Less);
}

#[test]
fn sorting_by_keys_lists_every_position_in_key_order() {
    let keys = vec![vec![chars("b"), chars("1")], vec![chars("a"), chars("2")], vec![chars("b"), chars("0")]];
    assert_eq!(sort_by_keys(&keys), vec![1, 2, 0]);
    assert!(sort_by_keys(&vec![]).is_empty());
}
