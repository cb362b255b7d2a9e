use mdbook_rust_doc::registry::{parse_entries, MANIFEST_FILE};
use mdbook_rust_doc::{
    CrateRoots, ManifestReading, RegistryError, RegistryFailure, RegistryProgress, RootEntry,
};

fn named(name: &str, root: &str) -> RootEntry {
    RootEntry::Named {
        name: name.to_string(),
        root: root.to_string(),
    }
}

fn bare(root: &str) -> RootEntry {
    RootEntry::Bare {
        root: root.to_string(),
    }
}

fn built(entries: &Vec<RootEntry>, readings: &Vec<ManifestReading>) -> CrateRoots {
    match CrateRoots::try_from(entries, readings) {
        RegistryProgress::Done(Ok(roots)) => roots,
        RegistryProgress::Done(Err(error)) => panic!("no registry: {:?}", error),
        RegistryProgress::NeedManifest(root) => panic!("no registry: {} is to be read", root),
    }
}

#[test]
fn the_manifest_file() {
    assert_eq!(MANIFEST_FILE, "Cargo.toml");
}

#[test]
fn an_entry_with_a_name() {
    assert_eq!(RootEntry::parse("crabs=/srv/crabs"), named("crabs", "/srv/crabs"));
    assert_eq!(RootEntry::parse("crabs=relative/dir"), named("crabs", "relative/dir"));
}

#[test]
fn the_first_equals_sign_divides() {
    assert_eq!(RootEntry::parse("a=b=c"), named("a", "b=c"));
    assert_eq!(RootEntry::parse("=x"), named("", "x"));
    assert_eq!(RootEntry::parse("x="), named("x", ""));
    assert_eq!(RootEntry::parse("="), named("", ""));
}

#[test]
fn an_entry_without_a_name() {
    assert_eq!(RootEntry::parse("/srv/crabs"), bare("/srv/crabs"));
    assert_eq!(RootEntry::parse(""), bare(""));
}

#[test]
fn a_tilde_elsewhere_stays() {
    assert_eq!(RootEntry::parse("a=/x/~/y"), named("a", "/x/~/y"));
    assert_eq!(RootEntry::parse("x~"), bare("x~"));
    assert_eq!(RootEntry::parse("~a=/x"), named("~a", "/x"));
}

#[test]
fn a_leading_tilde_gives_way_to_the_home_directory() {
    match RootEntry::parse("crabs=~/src/crabs") {
        RootEntry::Named { name, root } => {
            assert_eq!(name, "crabs");
            assert!(root.ends_with("/src/crabs"));
            assert_ne!(root, "~/src/crabs");
            assert!(!root.starts_with('~'));
        }
        other => panic!("not a named entry: {:?}", other),
    }
    match RootEntry::parse("~/src/crabs") {
        RootEntry::Bare { root } => {
            assert!(root.ends_with("/src/crabs"));
            assert!(!root.starts_with('~'));
        }
        other => panic!("not a bare entry: {:?}", other),
    }
}

#[test]
fn another_users_home_is_not_looked_up() {
    assert_eq!(RootEntry::parse("a=~other/x"), named("a", "~other/x"));
}

#[test]
fn entries_are_read_in_order() {
    let values = vec!["a=/one".to_string(), "/two".to_string(), "c=/three".to_string()];
    assert_eq!(
        parse_entries(&values),
        vec![named("a", "/one"), bare("/two"), named("c", "/three")]
    );
    assert_eq!(parse_entries(&vec![]), vec![]);
}

#[test]
fn an_empty_registry() {
    let roots = CrateRoots::new();
    assert_eq!(roots.get("crabs"), None);
    let roots = built(&vec![], &vec![]);
    assert_eq!(roots.get("crabs"), None);
}

#[test]
fn lookup_by_name() {
    let mut roots = CrateRoots::new();
    roots.insert("crabs".to_string(), "/srv/crabs".to_string());
    roots.insert("lobsters".to_string(), "/srv/lobsters".to_string());
    assert_eq!(roots.get("crabs"), Some(&"/srv/crabs".to_string()));
    assert_eq!(roots.get("lobsters"), Some(&"/srv/lobsters".to_string()));
    assert_eq!(roots.get("shrimps"), None);
    assert_eq!(roots.get("crab"), None);
    assert_eq!(roots.get(""), None);
}

#[test]
fn a_later_root_replaces_an_earlier_one() {
    let mut roots = CrateRoots::new();
    roots.insert("crabs".to_string(), "/old".to_string());
    roots.insert("other".to_string(), "/other".to_string());
    roots.insert("crabs".to_string(), "/new".to_string());
    assert_eq!(roots.get("crabs"), Some(&"/new".to_string()));
    assert_eq!(roots.get("other"), Some(&"/other".to_string()));
}

#[test]
fn named_entries_need_no_manifest() {
    let roots = built(&vec![named("a", "/one"), named("b", "/two")], &vec![]);
    assert_eq!(roots.get("a"), Some(&"/one".to_string()));
    assert_eq!(roots.get("b"), Some(&"/two".to_string()));
}

#[test]
fn a_bare_entry_asks_for_its_manifest() {
    let entries = vec![named("a", "/one"), bare("/two"), bare("/three")];
    match CrateRoots::try_from(&entries, &vec![]) {
        RegistryProgress::NeedManifest(root) => assert_eq!(root, "/two"),
        RegistryProgress::Done(_) => panic!("no manifest asked for"),
    }
    let mut readings = vec![ManifestReading::Name("second".to_string())];
    match CrateRoots::try_from(&entries, &readings) {
        RegistryProgress::NeedManifest(root) => assert_eq!(root, "/three"),
        RegistryProgress::Done(_) => panic!("no manifest asked for"),
    }
    readings.push(ManifestReading::Name("third".to_string()));
    let roots = built(&entries, &readings);
    assert_eq!(roots.get("a"), Some(&"/one".to_string()));
    assert_eq!(roots.get("second"), Some(&"/two".to_string()));
    assert_eq!(roots.get("third"), Some(&"/three".to_string()));
    assert_eq!(roots.get("/two"), None);
}

#[test]
fn the_last_entry_of_a_name_wins() {
    let entries = vec![named("a", "/one"), bare("/two"), named("a", "/three")];
    let readings = vec![ManifestReading::Name("a".to_string())];
    assert_eq!(built(&entries, &readings).get("a"), Some(&"/three".to_string()));
    let entries = vec![named("a", "/one"), bare("/two")];
    assert_eq!(built(&entries, &readings).get("a"), Some(&"/two".to_string()));
}

#[test]
fn an_unreadable_manifest_ends_the_work() {
    let entries = vec![named("a", "/one"), bare("/two"), bare("/three")];
    let readings = vec![ManifestReading::Unreadable];
    match CrateRoots::try_from(&entries, &readings) {
        RegistryProgress::Done(Err(error)) => assert_eq!(
            error,
            RegistryError {
                kind: RegistryFailure::ManifestReadFailure,
                root: "/two".to_string()
            }
        ),
        _ => panic!("no failure"),
    }
}

#[test]
fn a_malformed_manifest_ends_the_work() {
    let entries = vec![bare("/two"), bare("/three"), named("a", "/one")];
    let readings = vec![
        ManifestReading::Name("second".to_string()),
        ManifestReading::Malformed,
        ManifestReading::Unreadable,
    ];
    match CrateRoots::try_from(&entries, &readings) {
        RegistryProgress::Done(Err(error)) => assert_eq!(
            error,
            RegistryError {
                kind: RegistryFailure::ManifestParseFailure,
                root: "/three".to_string()
            }
        ),
        _ => panic!("no failure"),
    }
}
