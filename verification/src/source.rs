//! The source files of a package: where they stand, what was found in them,
//! and the store of those that were read for a search.

use vstd::prelude::*;
use vstd::string::*;
use crate::syntax::{parse_source, parsed_source};
use crate::tree::{SourceTree, SourceTreeView};

verus! {

/// The stem of a package's entry file.
pub open spec fn entry_stem() -> Seq<char> {
    seq!['l', 'i', 'b']
}

/// The directory, below the root of a package, that holds its source files.
pub open spec fn source_directory() -> Seq<char> {
    seq!['s', 'r', 'c']
}

/// The extension of a source file, with its dot.
pub open spec fn source_extension() -> Seq<char> {
    seq!['.', 'r', 's']
}

/// A source file of a package: the file `<stem>.rs` in the directory `src`
/// below the root of the package.
#[derive(Debug, PartialEq, Eq)]
pub struct SourceFile {
    pub root: String,
    pub stem: String,
}

/// What a `SourceFile` holds.
pub struct SourceFileView {
    pub root: Seq<char>,
    pub stem: Seq<char>,
}

impl View for SourceFile {
    type V = SourceFileView;

    open spec fn view(&self) -> SourceFileView {
        SourceFileView { root: self.root@, stem: self.stem@ }
    }
}

/// The entry file of the package at `root`.
pub open spec fn entry_file(root: Seq<char>) -> SourceFileView {
    SourceFileView { root, stem: entry_stem() }
}

/// The file that holds the body of the module `name`, which `file` declares
/// without a body: it stands beside the entry file and is named after the
/// module. A module declared so in any other file has no place.
pub open spec fn module_file(file: SourceFileView, name: Seq<char>) -> Option<SourceFileView> {
    if file.stem == entry_stem() {
        Some(SourceFileView { root: file.root, stem: name })
    } else {
        None
    }
}

impl Clone for SourceFile {
    fn clone(&self) -> (r: Self)
        ensures
            r == *self,
    {
        SourceFile { root: self.root.clone(), stem: self.stem.clone() }
    }
}

impl SourceFile {
    /// The entry file of the package at `root`.
    pub fn entry(root: &String) -> (r: SourceFile)
        ensures
            r@ == entry_file(root@),
    {
        proof {
            reveal_strlit("lib");
            assert("lib"@ =~= entry_stem());
        }
        SourceFile { root: root.clone(), stem: "lib".to_owned() }
    }

    /// Whether this is the entry file of its package.
    pub fn is_entry(&self) -> (r: bool)
        ensures
            r == (self@.stem == entry_stem()),
    {
        proof {
            reveal_strlit("lib");
            assert("lib"@ =~= entry_stem());
        }
        self.stem == "lib".to_owned()
    }

    /// The file of the module `name` that this file declares without a body.
    pub fn module(&self, name: &String) -> (r: Option<SourceFile>)
        ensures
            match r {
                Some(file) => module_file(self@, name@) == Some(file@),
                None => module_file(self@, name@) is None,
            },
    {
        if self.is_entry() {
            Some(SourceFile { root: self.root.clone(), stem: name.clone() })
        } else {
            None
        }
    }

    /// The way from the root of the package to the file: the directory and
    /// the file's name.
    pub fn relative_path(&self) -> (r: Vec<String>)
        ensures
            r@.len() == 2,
            r@[0]@ == source_directory(),
            r@[1]@ == self@.stem + source_extension(),
    {
        proof {
            reveal_strlit("src");
            reveal_strlit(".rs");
            assert("src"@ =~= source_directory());
            assert(".rs"@ =~= source_extension());
        }
        let mut name = self.stem.clone();
        name.append(".rs");
        let mut out: Vec<String> = Vec::new();
        out.push("src".to_owned());
        out.push(name);
        out
    }
}

/// What came of reading and parsing a source file.
#[derive(Debug, PartialEq, Eq)]
pub enum Loaded {
    /// The file could not be read.
    Unreadable,
    /// The file was read, and its text is not well formed.
    Malformed,
    /// The file was read and parsed.
    Parsed(SourceTree),
}

/// What a `Loaded` holds.
pub enum LoadedView {
    Unreadable,
    Malformed,
    Parsed(SourceTreeView),
}

impl View for Loaded {
    type V = LoadedView;

    open spec fn view(&self) -> LoadedView {
        match self {
            Loaded::Unreadable => LoadedView::Unreadable,
            Loaded::Malformed => LoadedView::Malformed,
            Loaded::Parsed(tree) => LoadedView::Parsed(tree@),
        }
    }
}

/// What comes of a file with this text; `None` stands for a file that could
/// not be read.
pub open spec fn loaded_from(text: Option<Seq<char>>) -> LoadedView {
    match text {
        None => LoadedView::Unreadable,
        Some(text) => match parsed_source(text) {
            None => LoadedView::Malformed,
            Some(tree) => LoadedView::Parsed(tree),
        },
    }
}

/// The view of a text that may be absent.
pub open spec fn optional_text(text: Option<&str>) -> Option<Seq<char>> {
    match text {
        Some(text) => Some(text@),
        None => None,
    }
}

impl Loaded {
    /// Parses the text of a file; `None` stands for a file that could not be
    /// read.
    pub fn read(text: Option<&str>) -> (r: Loaded)
        ensures
            r@ == loaded_from(optional_text(text)),
    {
        match text {
            None => Loaded::Unreadable,
            Some(text) => match parse_source(text) {
                None => Loaded::Malformed,
                Some(tree) => Loaded::Parsed(tree),
            },
        }
    }
}

/// The map that a list of files with what was found in them stands for. A
/// later pair replaces an earlier one for the same file.
pub open spec fn sources_of(pairs: Seq<(SourceFile, Loaded)>) -> Map<SourceFileView, LoadedView>
    decreases pairs.len(),
{
    if pairs.len() == 0 {
        Map::empty()
    } else {
        sources_of(pairs.drop_last()).insert(pairs.last().0@, pairs.last().1@)
    }
}

/// The source files that were read so far, each with what was found in it.
#[derive(Debug)]
pub struct Sources {
    pairs: Vec<(SourceFile, Loaded)>,
}

impl View for Sources {
    type V = Map<SourceFileView, LoadedView>;

    closed spec fn view(&self) -> Map<SourceFileView, LoadedView> {
        sources_of(self.pairs@)
    }
}

impl Sources {
    /// A store without files.
    pub fn new() -> (r: Sources)
        ensures
            r@ == Map::<SourceFileView, LoadedView>::empty(),
    {
        Sources { pairs: Vec::new() }
    }

    /// Notes what was found in `file`, in place of an earlier note on it.
    pub fn record(&mut self, file: SourceFile, loaded: Loaded)
        ensures
            final(self)@ == old(self)@.insert(file@, loaded@),
    {
        proof {
            assert(self.pairs@.push((file, loaded)).drop_last() =~= self.pairs@);
        }
        self.pairs.push((file, loaded));
    }

    /// Parses the text that was read from `file`, and notes what was found;
    /// `None` stands for a file that could not be read.
    pub fn supply(&mut self, file: SourceFile, text: Option<&str>)
        ensures
            final(self)@ == old(self)@.insert(file@, loaded_from(optional_text(text))),
    {
        let loaded = Loaded::read(text);
        self.record(file, loaded);
    }

    /// What was found in `file`, if it was read.
    pub fn get(&self, file: &SourceFile) -> (r: Option<&Loaded>)
        ensures
            match r {
                Some(loaded) => self@.contains_key(file@) && loaded@ == self@[file@],
                None => !self@.contains_key(file@),
            },
    {
        let mut k: usize = self.pairs.len();
        proof {
            assert(self.pairs@.take(k as int) =~= self.pairs@);
        }
        while k > 0
            invariant
                k <= self.pairs.len(),
                self@.contains_key(file@) == sources_of(self.pairs@.take(k as int)).contains_key(
                    file@,
                ),
                self@.contains_key(file@) ==> self@[file@] == sources_of(
                    self.pairs@.take(k as int),
                )[file@],
            decreases k,
        {
            proof {
                assert(self.pairs@.take(k as int).drop_last() =~= self.pairs@.take(k - 1));
                assert(self.pairs@.take(k as int).last() == self.pairs@[k - 1]);
            }
            k = k - 1;
            if self.pairs[k].0.root == file.root && self.pairs[k].0.stem == file.stem {
                return Some(&self.pairs[k].1);
            }
        }
        None
    }
}

} // verus!
