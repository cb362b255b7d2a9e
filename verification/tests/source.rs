use mdbook_rust_doc::tree::SourceTree;
use mdbook_rust_doc::{Loaded, SourceFile, Sources};

fn file(root: &str, stem: &str) -> SourceFile {
    SourceFile {
        root: root.to_string(),
        stem: stem.to_string(),
    }
}

fn empty_tree() -> Loaded {
    Loaded::Parsed(SourceTree {
        metadata: vec![],
        declarations: vec![],
    })
}

#[test]
fn the_entry_file() {
    let entry = SourceFile::entry(&"/srv/crabs".to_string());
    assert_eq!(entry, file("/srv/crabs", "lib"));
    assert!(entry.is_entry());
    assert_eq!(entry.relative_path(), vec!["src".to_string(), "lib.rs".to_string()]);
}

#[test]
fn the_file_of_a_module() {
    let entry = file("/srv/crabs", "lib");
    let module = entry.module(&"crustaceans".to_string()).unwrap();
    assert_eq!(module, file("/srv/crabs", "crustaceans"));
    assert!(!module.is_entry());
    assert_eq!(
        module.relative_path(),
        vec!["src".to_string(), "crustaceans.rs".to_string()]
    );
}

#[test]
fn a_module_below_a_module_has_no_file() {
    let module = file("/srv/crabs", "crustaceans");
    assert_eq!(module.module(&"crabs".to_string()), None);
}

#[test]
fn a_text_that_could_not_be_read() {
    assert_eq!(Loaded::read(None), Loaded::Unreadable);
}

#[test]
fn a_text_that_is_not_well_formed() {
    assert_eq!(Loaded::read(Some("pub struct {")), Loaded::Malformed);
    assert_eq!(Loaded::read(Some("fn f() { \"open")), Loaded::Malformed);
}

#[test]
fn an_empty_file() {
    assert_eq!(Loaded::read(Some("")), empty_tree());
}

#[test]
fn the_store() {
    let mut sources = Sources::new();
    assert_eq!(sources.get(&file("/a", "lib")), None);
    sources.record(file("/a", "lib"), Loaded::Unreadable);
    sources.supply(file("/a", "m"), Some("broken {"));
    sources.supply(file("/b", "lib"), Some(""));
    sources.supply(file("/b", "m"), None);
    assert_eq!(sources.get(&file("/a", "lib")), Some(&Loaded::Unreadable));
    assert_eq!(sources.get(&file("/a", "m")), Some(&Loaded::Malformed));
    assert_eq!(sources.get(&file("/b", "lib")), Some(&empty_tree()));
    assert_eq!(sources.get(&file("/b", "m")), Some(&Loaded::Unreadable));
    assert_eq!(sources.get(&file("/b", "x")), None);
    assert_eq!(sources.get(&file("/c", "lib")), None);
}

#[test]
fn a_later_note_replaces_an_earlier_one() {
    let mut sources = Sources::new();
    sources.record(file("/a", "lib"), Loaded::Unreadable);
    sources.record(file("/a", "m"), Loaded::Malformed);
    sources.record(file("/a", "lib"), empty_tree());
    assert_eq!(sources.get(&file("/a", "lib")), Some(&empty_tree()));
    assert_eq!(sources.get(&file("/a", "m")), Some(&Loaded::Malformed));
}
