use std::path::Path;

use quiklang::project::{classify_entry, is_quik_file_name, join_path, EntryAction};

fn s(x: &str) -> String {
    x.to_string()
}

#[test]
fn quik_extension_follows_path_extension() {
    for name in [
        "main.quik", "a.quik", "x.y.quik", "..quik", ".quik", "quik", "main.quik.bak", "main.Quik",
        "main.quiks", "main.", "a.b", "", ".hidden.quik", "é.quik",
    ] {
        let expected = Path::new(name).extension().map_or(false, |e| e == "quik");
        assert_eq!(is_quik_file_name(&s(name)), expected, "{:?}", name);
    }
}

#[test]
fn join_follows_path_join() {
    for (base, rel) in [
        ("src", "main.quik"),
        ("", "main.quik"),
        ("src/", "lib/a.quik"),
        ("/work/project/src", "lib/a.quik"),
        ("src", "/abs.quik"),
        ("src", ""),
    ] {
        let expected = Path::new(base).join(rel).to_string_lossy().into_owned();
        assert_eq!(join_path(&s(base), &s(rel)), expected, "{:?} {:?}", base, rel);
    }
}

#[test]
fn entries_of_a_source_tree() {
    let src = s("/work/project/src");
    assert_eq!(
        classify_entry(&src, &s(""), &s("lib"), true),
        EntryAction::Descend { relative_dir: s("lib") }
    );
    assert_eq!(
        classify_entry(&src, &s("lib"), &s("util"), true),
        EntryAction::Descend { relative_dir: s("lib/util") }
    );
    assert_eq!(
        classify_entry(&src, &s(""), &s("main.quik"), false),
        EntryAction::AddSource { name: s("/work/project/src/main.quik") }
    );
    assert_eq!(
        classify_entry(&src, &s("lib/util"), &s("a.quik"), false),
        EntryAction::AddSource { name: s("/work/project/src/lib/util/a.quik") }
    );
    assert_eq!(classify_entry(&src, &s(""), &s("notes.txt"), false), EntryAction::Skip);
    assert_eq!(classify_entry(&src, &s(""), &s(".quik"), false), EntryAction::Skip);
    // a directory is descended into whatever its name
    assert_eq!(
        classify_entry(&src, &s(""), &s("old.quik"), true),
        EntryAction::Descend { relative_dir: s("old.quik") }
    );
}
