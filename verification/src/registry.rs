//! The registry of package roots: for each package name the directory that
//! holds its sources.

use vstd::prelude::*;
use vstd::hash_map::StringHashMap;
use vstd::string::*;

verus! {

/// The name of the manifest file that a package's directory holds.
pub const MANIFEST_FILE: &'static str = "Cargo.toml";

/// Whether `path` starts with the shorthand for the home directory: a
/// tilde that stands alone or before a path separator.
pub open spec fn names_home(path: Seq<char>) -> bool {
    &&& path.len() > 0
    &&& path[0] == '~'
    &&& (path.len() == 1 || path[1] == '/' || path[1] == '\\')
}

/// What is known of a path after the home directory was put in for the
/// shorthand: a path that does not start with the shorthand is unchanged,
/// and of a path that does, what follows the tilde still stands at the end.
/// What stands before it depends on the user and on the machine.
pub open spec fn is_expansion_of(expanded: Seq<char>, path: Seq<char>) -> bool {
    if names_home(path) {
        expanded.len() >= path.len() - 1 && expanded.skip(expanded.len() - (path.len() - 1))
            == path.skip(1)
    } else {
        expanded == path
    }
}

/// Calls `shellexpand::tilde`. It replaces a leading `~` by the home
/// directory of the user, where the tilde is followed by nothing or by a
/// path separator and the home directory is known, and returns any other
/// text as it is.
#[verifier::external_body]
fn expand_home(path: &str) -> (r: String)
    ensures
        is_expansion_of(r@, path@),
{
    shellexpand::tilde(path).into_owned()
}

/// The position of the first `=` in `text`, or the length of `text` where it
/// holds none.
pub open spec fn first_equals(text: Seq<char>) -> int
    decreases text.len(),
{
    if text.len() == 0 {
        0
    } else if text[0] == '=' {
        0
    } else {
        1 + first_equals(text.skip(1))
    }
}

/// `first_equals` is the least position that holds an `=`.
pub proof fn lemma_first_equals(text: Seq<char>)
    ensures
        0 <= first_equals(text) <= text.len(),
        first_equals(text) < text.len() ==> text[first_equals(text)] == '=',
        forall|j: int| 0 <= j < first_equals(text) ==> text[j] != '=',
    decreases text.len(),
{
    if text.len() > 0 && text[0] != '=' {
        let rest = text.skip(1);
        lemma_first_equals(rest);
        assert forall|j: int| 0 <= j < first_equals(text) implies text[j] != '=' by {
            if j > 0 {
                assert(text[j] == rest[j - 1]);
            }
        }
    }
}

/// One entry of the configuration, with the home directory put in.
#[derive(Debug, PartialEq, Eq)]
pub enum RootEntry {
    /// `name=path`: the package `name` has its root at `path`.
    Named { name: String, root: String },
    /// A directory alone. The package's name stands in the manifest that the
    /// directory holds.
    Bare { root: String },
}

/// What a `RootEntry` holds.
pub enum RootEntryView {
    Named { name: Seq<char>, root: Seq<char> },
    Bare { root: Seq<char> },
}

impl View for RootEntry {
    type V = RootEntryView;

    open spec fn view(&self) -> RootEntryView {
        match self {
            RootEntry::Named { name, root } => RootEntryView::Named { name: name@, root: root@ },
            RootEntry::Bare { root } => RootEntryView::Bare { root: root@ },
        }
    }
}

/// The views of a list of entries.
pub open spec fn entry_views(entries: Seq<RootEntry>) -> Seq<RootEntryView> {
    entries.map_values(|e: RootEntry| e@)
}

/// Whether `entry` is what the text `value` of the configuration says: a text
/// with an `=` names the package before the first `=` and its root after it,
/// any other text is a root alone.
pub open spec fn entry_reads(entry: RootEntryView, value: Seq<char>) -> bool {
    let cut = first_equals(value);
    match entry {
        RootEntryView::Named { name, root } => {
            &&& cut < value.len()
            &&& name == value.take(cut)
            &&& is_expansion_of(root, value.skip(cut + 1))
        },
        RootEntryView::Bare { root } => {
            &&& cut == value.len()
            &&& is_expansion_of(root, value)
        },
    }
}

impl RootEntry {
    /// Reads one entry of the configuration and puts the home directory in
    /// for a leading tilde of its path.
    pub fn parse(value: &str) -> (r: RootEntry)
        ensures
            entry_reads(r@, value@),
    {
        let total: usize = value.unicode_len();
        let mut k: usize = 0;
        while k < total && value.get_char(k) != '='
            invariant
                total == value@.len(),
                k <= total,
                forall|j: int| 0 <= j < k ==> value@[j] != '=',
            decreases total - k,
        {
            k = k + 1;
        }
        proof {
            lemma_first_equals(value@);
            let cut = first_equals(value@);
            if cut < k {
                assert(value@[cut] == '=');
            }
            assert(cut == k);
            assert(value@.subrange(0, k as int) =~= value@.take(k as int));
        }
        if k < total {
            proof {
                assert(value@.subrange(k + 1, total as int) =~= value@.skip(k + 1));
            }
            let name = value.substring_char(0, k).to_owned();
            let root = expand_home(value.substring_char(k + 1, total));
            RootEntry::Named { name, root }
        } else {
            RootEntry::Bare { root: expand_home(value) }
        }
    }
}

/// Reads the entries of the configuration, in order.
pub fn parse_entries(values: &Vec<String>) -> (r: Vec<RootEntry>)
    ensures
        r@.len() == values@.len(),
        forall|i: int| 0 <= i < values@.len() ==> entry_reads((#[trigger] r@[i])@, values@[i]@),
{
    let mut out: Vec<RootEntry> = Vec::new();
    let mut k: usize = 0;
    while k < values.len()
        invariant
            k <= values.len(),
            out@.len() == k,
            forall|i: int| 0 <= i < k ==> entry_reads((#[trigger] out@[i])@, values@[i]@),
        decreases values.len() - k,
    {
        out.push(RootEntry::parse(values[k].as_str()));
        k = k + 1;
    }
    out
}

/// What was found where the manifest of a bare entry should be.
#[derive(Debug, PartialEq, Eq)]
pub enum ManifestReading {
    /// The manifest names the package so.
    Name(String),
    /// The file could not be read.
    Unreadable,
    /// The file was read, and it is no manifest with a package name.
    Malformed,
}

/// What a `ManifestReading` holds.
pub enum ManifestReadingView {
    Name(Seq<char>),
    Unreadable,
    Malformed,
}

impl View for ManifestReading {
    type V = ManifestReadingView;

    open spec fn view(&self) -> ManifestReadingView {
        match self {
            ManifestReading::Name(name) => ManifestReadingView::Name(name@),
            ManifestReading::Unreadable => ManifestReadingView::Unreadable,
            ManifestReading::Malformed => ManifestReadingView::Malformed,
        }
    }
}

/// The views of a list of readings.
pub open spec fn reading_views(readings: Seq<ManifestReading>) -> Seq<ManifestReadingView> {
    readings.map_values(|r: ManifestReading| r@)
}

/// Why no registry could be built.
#[derive(Debug, Clone, Copy, PartialEq, Eq)]
pub enum RegistryFailure {
    /// The manifest of a bare entry could not be read.
    ManifestReadFailure,
    /// The manifest of a bare entry names no package.
    ManifestParseFailure,
}

/// A failure to build the registry, with the root whose manifest caused it.
#[derive(Debug, PartialEq, Eq)]
pub struct RegistryError {
    pub kind: RegistryFailure,
    pub root: String,
}

/// What a `RegistryError` holds.
pub struct RegistryErrorView {
    pub kind: RegistryFailure,
    pub root: Seq<char>,
}

impl View for RegistryError {
    type V = RegistryErrorView;

    open spec fn view(&self) -> RegistryErrorView {
        RegistryErrorView { kind: self.kind, root: self.root@ }
    }
}

/// How far building a registry has come.
pub enum RegistryProgress {
    /// The manifest in this root has to be read next.
    NeedManifest(String),
    /// All entries are worked through, or one has failed.
    Done(Result<CrateRoots, RegistryError>),
}

/// What a `RegistryProgress` holds.
pub enum RegistryProgressView {
    NeedManifest(Seq<char>),
    Done(Result<Map<Seq<char>, Seq<char>>, RegistryErrorView>),
}

impl View for RegistryProgress {
    type V = RegistryProgressView;

    open spec fn view(&self) -> RegistryProgressView {
        match self {
            RegistryProgress::NeedManifest(root) => RegistryProgressView::NeedManifest(root@),
            RegistryProgress::Done(Ok(roots)) => RegistryProgressView::Done(Ok(roots@)),
            RegistryProgress::Done(Err(error)) => RegistryProgressView::Done(Err(error@)),
        }
    }
}

/// The registry that the entries give when they are worked through in order,
/// starting from `roots`. The readings are those of the bare entries, in
/// their order. A later entry replaces an earlier one of the same name. The
/// first bare entry whose manifest was not read yet is asked for; the first
/// whose manifest is unreadable or malformed ends the work, and no registry
/// comes of it.
pub open spec fn registry_from(
    entries: Seq<RootEntryView>,
    readings: Seq<ManifestReadingView>,
    roots: Map<Seq<char>, Seq<char>>,
) -> RegistryProgressView
    decreases entries.len(),
{
    if entries.len() == 0 {
        RegistryProgressView::Done(Ok(roots))
    } else {
        match entries[0] {
            RootEntryView::Named { name, root } => registry_from(
                entries.skip(1),
                readings,
                roots.insert(name, root),
            ),
            RootEntryView::Bare { root } => {
                if readings.len() == 0 {
                    RegistryProgressView::NeedManifest(root)
                } else {
                    match readings[0] {
                        ManifestReadingView::Name(name) => registry_from(
                            entries.skip(1),
                            readings.skip(1),
                            roots.insert(name, root),
                        ),
                        ManifestReadingView::Unreadable => RegistryProgressView::Done(
                            Err(
                                RegistryErrorView {
                                    kind: RegistryFailure::ManifestReadFailure,
                                    root,
                                },
                            ),
                        ),
                        ManifestReadingView::Malformed => RegistryProgressView::Done(
                            Err(
                                RegistryErrorView {
                                    kind: RegistryFailure::ManifestParseFailure,
                                    root,
                                },
                            ),
                        ),
                    }
                }
            },
        }
    }
}

/// The names of a map of roots with the view of each root.
pub open spec fn root_views(roots: Map<Seq<char>, String>) -> Map<Seq<char>, Seq<char>> {
    Map::new(|name: Seq<char>| roots.contains_key(name), |name: Seq<char>| roots[name]@)
}

/// The roots of the packages, by package name.
pub struct CrateRoots {
    roots: StringHashMap<String>,
}

impl View for CrateRoots {
    type V = Map<Seq<char>, Seq<char>>;

    closed spec fn view(&self) -> Map<Seq<char>, Seq<char>> {
        root_views(self.roots@)
    }
}

impl CrateRoots {
    /// A registry without packages.
    pub fn new() -> (r: CrateRoots)
        ensures
            r@ == Map::<Seq<char>, Seq<char>>::empty(),
    {
        let r = CrateRoots { roots: StringHashMap::new() };
        proof {
            assert(r@ =~= Map::<Seq<char>, Seq<char>>::empty());
        }
        r
    }

    /// Puts the package `name` at `root`, in place of an earlier root of
    /// that name.
    pub fn insert(&mut self, name: String, root: String)
        ensures
            final(self)@ == old(self)@.insert(name@, root@),
    {
        let ghost before = self@;
        let ghost key = name@;
        let ghost value = root@;
        self.roots.insert(name, root);
        proof {
            assert(self@ =~= before.insert(key, value));
        }
    }

    /// The root of the package `key`, if the registry holds it.
    #[must_use]
    pub fn get(&self, key: &str) -> (r: Option<&String>)
        ensures
            match r {
                Some(root) => self@.contains_key(key@) && root@ == self@[key@],
                None => !self@.contains_key(key@),
            },
    {
        self.roots.get(key)
    }

    /// Builds the registry from the entries of the configuration and from
    /// what was read of the manifests of the bare ones so far.
    pub fn try_from(entries: &Vec<RootEntry>, readings: &Vec<ManifestReading>) -> (r:
        RegistryProgress)
        ensures
            r@ == registry_from(entry_views(entries@), reading_views(readings@), Map::empty()),
    {
        let ghost all_entries = entry_views(entries@);
        let ghost all_readings = reading_views(readings@);
        let mut roots = CrateRoots::new();
        let mut i: usize = 0;
        let mut j: usize = 0;
        proof {
            assert(all_entries.skip(0) =~= all_entries);
            assert(all_readings.skip(0) =~= all_readings);
        }
        while i < entries.len()
            invariant
                i <= entries.len(),
                j <= readings.len(),
                all_entries == entry_views(entries@),
                all_readings == reading_views(readings@),
                registry_from(all_entries.skip(i as int), all_readings.skip(j as int), roots@)
                    == registry_from(all_entries, all_readings, Map::empty()),
            decreases entries.len() - i,
        {
            proof {
                assert(all_entries.skip(i as int)[0] == entries@[i as int]@);
                assert(all_entries.skip(i as int).skip(1) =~= all_entries.skip(i + 1));
                if j < readings.len() {
                    assert(all_readings.skip(j as int)[0] == readings@[j as int]@);
                    assert(all_readings.skip(j as int).skip(1) =~= all_readings.skip(j + 1));
                }
            }
            match &entries[i] {
                RootEntry::Named { name, root } => {
                    roots.insert(name.clone(), root.clone());
                },
                RootEntry::Bare { root } => {
                    if j >= readings.len() {
                        return RegistryProgress::NeedManifest(root.clone());
                    }
                    match &readings[j] {
                        ManifestReading::Name(name) => {
                            roots.insert(name.clone(), root.clone());
                        },
                        ManifestReading::Unreadable => {
                            return RegistryProgress::Done(
                                Err(
                                    RegistryError {
                                        kind: RegistryFailure::ManifestReadFailure,
                                        root: root.clone(),
                                    },
                                ),
                            );
                        },
                        ManifestReading::Malformed => {
                            return RegistryProgress::Done(
                                Err(
                                    RegistryError {
                                        kind: RegistryFailure::ManifestParseFailure,
                                        root: root.clone(),
                                    },
                                ),
                            );
                        },
                    }
                    j = j + 1;
                },
            }
            i = i + 1;
        }
        proof {
            assert(all_entries.skip(entries.len() as int).len() == 0);
        }
        RegistryProgress::Done(Ok(roots))
    }
}

} // verus!
