use std::path::Path;

use assets_lens::paths::{dir_of, file_name, file_stem};

const CORPUS: [&str; 24] = [
    "", "a", "a/b", "a/b/", "a//b", "/a", "/", "//", "a/./b", "a/.", "./a", ".", "..", "a/..", "../a", "a/b.c",
    "a/.b", "a/b.", "a.b.c", "dir/x.gtp", "Generated/Public/VT/Set_5.gts", "a/b/./", "a/b//", ".a.b",
];

fn text(v: Vec<char>) -> String {
    v.into_iter().collect()
}

#[test]
fn file_names_agree_with_std() {
    let mut wrong = Vec::new();
    for p in CORPUS {
        let ours = file_name(&p.chars().collect::<Vec<_>>()).map(text);
        let std = Path::new(p).file_name().map(|n| n.to_string_lossy().to_string());
        if ours != std {
            wrong.push(format!("{p:?}: {ours:?} vs {std:?}"));
        }
    }
    assert!(wrong.is_empty(), "{wrong:#?}");
}

#[test]
fn file_stems_agree_with_std() {
    let mut wrong = Vec::new();
    for p in CORPUS {
        let ours = file_stem(&p.chars().collect::<Vec<_>>()).map(text);
        let std = Path::new(p).file_stem().map(|n| n.to_string_lossy().to_string());
        if ours != std {
            wrong.push(format!("{p:?}: {ours:?} vs {std:?}"));
        }
    }
    assert!(wrong.is_empty(), "{wrong:#?}");
}

#[test]
fn parents_agree_with_std() {
    let mut wrong = Vec::new();
    for p in CORPUS {
        let ours = text(dir_of(&p.chars().collect::<Vec<_>>()));
        let std = Path::new(p).parent().map(|n| n.to_string_lossy().to_string()).unwrap_or_default();
        if ours != std {
            wrong.push(format!("{p:?}: {ours:?} vs {std:?}"));
        }
    }
    assert!(wrong.is_empty(), "{wrong:#?}");
}
