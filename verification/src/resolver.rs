//! The search for the documentation that a path addresses.
//!
//! A search reads no file itself. It works on the files that were read so
//! far; where it comes to a file that is not among them, it says which, and
//! is run again when that file has been supplied.

use vstd::prelude::*;
use vstd::string::*;
use crate::docs::{attrs_to_string, doc_text, has_malformed};
use crate::path::{copy_strings, string_views, RustPath};
use crate::registry::CrateRoots;
use crate::source::{
    entry_file, module_file, Loaded, LoadedView, SourceFile, SourceFileView, Sources,
};
use crate::tree::{
    declaration_views, field_views, member_views, metadata_views, type_has_name, type_is_named,
    variant_views, Declaration, DeclarationView, Member, MemberView, Metadata, MetadataView,
    RecordField, RecordFieldView, RecordFields, RecordFieldsView, UnionVariant, UnionVariantView,
};

verus! {

/// Why a search has failed.
#[derive(Debug, Clone, Copy, PartialEq, Eq)]
pub enum FailureKind {
    /// The registry does not hold the package that the path starts with.
    PackageNotFound,
    /// A source file could not be read.
    SourceReadFailure,
    /// The text of a source file is not well formed.
    SourceParseFailure,
    /// The search met a declaration of a kind, or a nesting of files, that
    /// it does not know.
    UnsupportedConstruct,
    /// The path goes on where nothing can be addressed, or names a
    /// positional field by something that is no number.
    InvalidPathShape,
    /// The declaration that the path leads to has a metadata entry named
    /// `doc` without a text.
    MalformedDocAttribute,
}

/// A failed search, with the place where it failed.
#[derive(Debug, PartialEq, Eq)]
pub struct ResolveError {
    pub kind: FailureKind,
    /// The segments of the path that the search had followed.
    pub consumed: Vec<String>,
    /// The file that the search was in; `None` before it came to any.
    pub file: Option<SourceFile>,
}

/// What a `ResolveError` holds.
pub struct ResolveErrorView {
    pub kind: FailureKind,
    pub consumed: Seq<Seq<char>>,
    pub file: Option<SourceFileView>,
}

impl View for ResolveError {
    type V = ResolveErrorView;

    open spec fn view(&self) -> ResolveErrorView {
        ResolveErrorView {
            kind: self.kind,
            consumed: string_views(self.consumed@),
            file: match self.file {
                Some(file) => Some(file@),
                None => None,
            },
        }
    }
}

/// How a search ends: with the documentation, `None` where the path leads
/// to nothing, or with a failure.
pub type Resolution = Result<Option<String>, ResolveError>;

/// How far a search has come.
#[derive(Debug, PartialEq, Eq)]
pub enum Progress {
    /// This file has to be read and supplied before the search can go on.
    Need(SourceFile),
    /// The search has ended.
    Done(Resolution),
}

/// What a `Progress` holds.
pub enum ProgressView {
    Need(SourceFileView),
    Done(Result<Option<Seq<char>>, ResolveErrorView>),
}

impl View for Progress {
    type V = ProgressView;

    open spec fn view(&self) -> ProgressView {
        match self {
            Progress::Need(file) => ProgressView::Need(file@),
            Progress::Done(Ok(Some(text))) => ProgressView::Done(Ok(Some(text@))),
            Progress::Done(Ok(None)) => ProgressView::Done(Ok(None)),
            Progress::Done(Err(error)) => ProgressView::Done(Err(error@)),
        }
    }
}

/// What a search among declarations comes to.
pub enum SearchView {
    /// The path ends at a declaration with this metadata, in this file.
    Found(Seq<MetadataView>, SourceFileView),
    /// Nothing here has the name that the path asks for.
    Absent,
    /// The path leads into a file that was not read yet.
    Need(SourceFileView),
    /// The search cannot go on.
    Failed(ResolveErrorView),
}

/// The first `consumed` segments of `path`; all of them where it has fewer.
pub open spec fn followed(path: Seq<Seq<char>>, consumed: int) -> Seq<Seq<char>> {
    if 0 <= consumed <= path.len() {
        path.take(consumed)
    } else {
        path
    }
}

/// The failure of kind `kind` in `file`, after `consumed` segments of `path`.
pub open spec fn failure(
    kind: FailureKind,
    path: Seq<Seq<char>>,
    consumed: int,
    file: SourceFileView,
) -> SearchView {
    SearchView::Failed(
        ResolveErrorView { kind, consumed: followed(path, consumed), file: Some(file) },
    )
}

/// Whether `c` is a decimal digit.
pub open spec fn is_digit(c: char) -> bool {
    0x30 <= c as u32 <= 0x39
}

/// The number that the decimal digits stand for.
pub open spec fn decimal_value(digits: Seq<char>) -> nat
    decreases digits.len(),
{
    if digits.len() == 0 {
        0
    } else {
        decimal_value(digits.drop_last()) * 10 + (digits.last() as u32 - 0x30) as nat
    }
}

/// The digits of a segment that is meant as a number: the segment without
/// the plus sign that it may start with.
pub open spec fn index_digits(segment: Seq<char>) -> Seq<char> {
    if segment.len() > 0 && segment[0] == '+' {
        segment.skip(1)
    } else {
        segment
    }
}

/// The position that a segment names: the segment is one decimal digit or
/// more, with or without a plus sign before them. `None` for any other
/// segment.
pub open spec fn positional_index(segment: Seq<char>) -> Option<nat> {
    let digits = index_digits(segment);
    if digits.len() > 0 && forall|i: int| 0 <= i < digits.len() ==> is_digit(#[trigger] digits[i]) {
        Some(decimal_value(digits))
    } else {
        None
    }
}

/// The metadata of the first field named `name`.
pub open spec fn named_field(fields: Seq<RecordFieldView>, name: Seq<char>) -> Option<
    Seq<MetadataView>,
>
    decreases fields.len(),
{
    if fields.len() == 0 {
        None
    } else if fields[0].name == Some(name) {
        Some(fields[0].metadata)
    } else {
        named_field(fields.skip(1), name)
    }
}

/// The first variant named `name`.
pub open spec fn named_variant(variants: Seq<UnionVariantView>, name: Seq<char>) -> Option<
    UnionVariantView,
>
    decreases variants.len(),
{
    if variants.len() == 0 {
        None
    } else if variants[0].name == name {
        Some(variants[0])
    } else {
        named_variant(variants.skip(1), name)
    }
}

/// The metadata of the first member named `name`.
pub open spec fn named_member(members: Seq<MemberView>, name: Seq<char>) -> Option<
    Seq<MetadataView>,
>
    decreases members.len(),
{
    if members.len() == 0 {
        None
    } else if members[0].name == Some(name) {
        Some(members[0].metadata)
    } else {
        named_member(members.skip(1), name)
    }
}

/// The field that segment `at + 1` of `path` addresses; segment `at` has
/// led to the record or the variant that owns the fields. A named field is
/// found by its name, a positional one by its number; a field that is not
/// there is absent, and so is any field where the path has no such segment.
/// Something that is no number fails where the fields are positional.
pub open spec fn search_fields(
    fields: RecordFieldsView,
    path: Seq<Seq<char>>,
    at: int,
    file: SourceFileView,
) -> SearchView {
    if at < 0 || at + 1 >= path.len() {
        SearchView::Absent
    } else {
        match fields {
            RecordFieldsView::Named(list) => match named_field(list, path[at + 1]) {
                Some(metadata) => SearchView::Found(metadata, file),
                None => SearchView::Absent,
            },
            RecordFieldsView::Positional(list) => match positional_index(path[at + 1]) {
                Some(index) => if index < list.len() {
                    SearchView::Found(list[index as int].metadata, file)
                } else {
                    SearchView::Absent
                },
                None => failure(FailureKind::InvalidPathShape, path, at + 1, file),
            },
            RecordFieldsView::Unit => SearchView::Absent,
        }
    }
}

/// What `path` addresses in a record, or in a variant, that segment `at`
/// has led to: the record itself where the path ends there, one of its
/// fields where one more segment follows. A longer path fails.
pub open spec fn search_record(
    metadata: Seq<MetadataView>,
    fields: RecordFieldsView,
    path: Seq<Seq<char>>,
    at: int,
    file: SourceFileView,
) -> SearchView {
    if at + 1 >= path.len() {
        SearchView::Found(metadata, file)
    } else if at + 2 < path.len() {
        failure(FailureKind::InvalidPathShape, path, at + 1, file)
    } else {
        search_fields(fields, path, at, file)
    }
}

/// What `path` addresses in a tagged union that segment `at` has led to:
/// the union itself where the path ends there; else the next segment picks
/// the first variant of that name, and the search goes on in it as in a
/// record.
pub open spec fn search_union(
    metadata: Seq<MetadataView>,
    variants: Seq<UnionVariantView>,
    path: Seq<Seq<char>>,
    at: int,
    file: SourceFileView,
) -> SearchView {
    if at + 1 >= path.len() {
        SearchView::Found(metadata, file)
    } else {
        match named_variant(variants, path[at + 1]) {
            Some(variant) => search_record(variant.metadata, variant.fields, path, at + 1, file),
            None => SearchView::Absent,
        }
    }
}

/// What `path` addresses in an implementation block that segment `at` has
/// led to: the block itself where the path ends there, the first member of
/// that name where one more segment follows. A longer path fails.
pub open spec fn search_impl(
    metadata: Seq<MetadataView>,
    members: Seq<MemberView>,
    path: Seq<Seq<char>>,
    at: int,
    file: SourceFileView,
) -> SearchView {
    if at + 1 >= path.len() {
        SearchView::Found(metadata, file)
    } else if at + 2 < path.len() {
        failure(FailureKind::InvalidPathShape, path, at + 1, file)
    } else {
        match named_member(members, path[at + 1]) {
            Some(found) => SearchView::Found(found, file),
            None => SearchView::Absent,
        }
    }
}

/// What `path` addresses in `file`, after `at` of its segments have led
/// there: the file itself where the path ends, else what the next segment
/// leads to among the declarations of the file. A file that was not read
/// yet is asked for.
pub open spec fn search_file(
    sources: Map<SourceFileView, LoadedView>,
    file: SourceFileView,
    path: Seq<Seq<char>>,
    at: int,
) -> SearchView
    decreases path.len() - at, 3int, 0int,
{
    if !sources.contains_key(file) {
        SearchView::Need(file)
    } else {
        match sources[file] {
            LoadedView::Unreadable => failure(FailureKind::SourceReadFailure, path, at, file),
            LoadedView::Malformed => failure(FailureKind::SourceParseFailure, path, at, file),
            LoadedView::Parsed(tree) => if at >= path.len() {
                SearchView::Found(tree.metadata, file)
            } else {
                search_list(sources, file, path, at, tree.declarations, 0)
            },
        }
    }
}

/// What segment `at` of `path` leads to among the declarations from
/// position `from` on: they are tried in order, and the first that is not
/// absent decides.
pub open spec fn search_list(
    sources: Map<SourceFileView, LoadedView>,
    file: SourceFileView,
    path: Seq<Seq<char>>,
    at: int,
    list: Seq<DeclarationView>,
    from: int,
) -> SearchView
    decreases path.len() - at, 2int, list.len() - from,
{
    if from < 0 || from >= list.len() {
        SearchView::Absent
    } else {
        match search_item(sources, file, path, at, list[from]) {
            SearchView::Absent => search_list(sources, file, path, at, list, from + 1),
            decided => decided,
        }
    }
}

/// What segment `at` of `path` leads to in one declaration. A declaration
/// of another name is absent, and so is one that a search passes over. The
/// search goes on in a module, a record, a tagged union, or an
/// implementation block for the type of that name. A declaration of a kind
/// that the search does not know fails.
pub open spec fn search_item(
    sources: Map<SourceFileView, LoadedView>,
    file: SourceFileView,
    path: Seq<Seq<char>>,
    at: int,
    item: DeclarationView,
) -> SearchView
    decreases path.len() - at, 1int, 0int,
{
    if at < 0 || at >= path.len() {
        SearchView::Absent
    } else {
        match item {
            DeclarationView::Module { name, metadata, body } => if name == path[at] {
                search_module(sources, file, path, at, name, metadata, body)
            } else {
                SearchView::Absent
            },
            DeclarationView::Record { name, metadata, fields } => if name == path[at] {
                search_record(metadata, fields, path, at, file)
            } else {
                SearchView::Absent
            },
            DeclarationView::TaggedUnion { name, metadata, variants } => if name == path[at] {
                search_union(metadata, variants, path, at, file)
            } else {
                SearchView::Absent
            },
            DeclarationView::Implementation { target, metadata, members } => if type_is_named(
                target,
                path[at],
            ) {
                search_impl(metadata, members, path, at, file)
            } else {
                SearchView::Absent
            },
            DeclarationView::Skipped => SearchView::Absent,
            DeclarationView::Unsupported => failure(
                FailureKind::UnsupportedConstruct,
                path,
                at,
                file,
            ),
        }
    }
}

/// What `path` addresses in a module that segment `at` has led to. Of a
/// module with its body in place: the module itself where the path ends
/// there, else what the next segment leads to in the body. A module
/// without a body stands in a file of its own, and the search goes on
/// there; where no such file has a place, it fails.
pub open spec fn search_module(
    sources: Map<SourceFileView, LoadedView>,
    file: SourceFileView,
    path: Seq<Seq<char>>,
    at: int,
    name: Seq<char>,
    metadata: Seq<MetadataView>,
    body: Option<Seq<DeclarationView>>,
) -> SearchView
    decreases path.len() - at, 0int, 0int,
{
    if at < 0 || at >= path.len() {
        SearchView::Absent
    } else {
        match body {
            Some(list) => if at + 1 >= path.len() {
                SearchView::Found(metadata, file)
            } else {
                search_list(sources, file, path, at + 1, list, 0)
            },
            None => match module_file(file, name) {
                Some(next) => search_file(sources, next, path, at + 1),
                None => failure(FailureKind::UnsupportedConstruct, path, at + 1, file),
            },
        }
    }
}

/// The answer of a search for `path` that has ended at a declaration of
/// `file` with this metadata: its documentation text, or a failure where an
/// entry named `doc` has no text.
pub open spec fn answer(
    metadata: Seq<MetadataView>,
    path: Seq<Seq<char>>,
    file: SourceFileView,
) -> ProgressView {
    if has_malformed(metadata) {
        ProgressView::Done(
            Err(
                ResolveErrorView {
                    kind: FailureKind::MalformedDocAttribute,
                    consumed: path,
                    file: Some(file),
                },
            ),
        )
    } else {
        ProgressView::Done(Ok(Some(doc_text(metadata))))
    }
}

/// What a search for `path` comes to, with the packages of `roots` and the
/// files of `sources`. The first segment names the package; the search
/// starts in its entry file.
pub open spec fn resolve(
    path: Seq<Seq<char>>,
    roots: Map<Seq<char>, Seq<char>>,
    sources: Map<SourceFileView, LoadedView>,
) -> ProgressView {
    if !roots.contains_key(path[0]) {
        ProgressView::Done(
            Err(
                ResolveErrorView {
                    kind: FailureKind::PackageNotFound,
                    consumed: Seq::empty(),
                    file: None,
                },
            ),
        )
    } else {
        match search_file(sources, entry_file(roots[path[0]]), path, 1) {
            SearchView::Found(metadata, file) => answer(metadata, path, file),
            SearchView::Absent => ProgressView::Done(Ok(None)),
            SearchView::Need(file) => ProgressView::Need(file),
            SearchView::Failed(error) => ProgressView::Done(Err(error)),
        }
    }
}

/// What a search among declarations has come to. Metadata that was found
/// is lent from the sources.
#[derive(Debug, PartialEq, Eq)]
pub enum Search<'a> {
    Found(&'a Vec<Metadata>, SourceFile),
    Absent,
    Need(SourceFile),
    Failed(ResolveError),
}

impl<'a> View for Search<'a> {
    type V = SearchView;

    open spec fn view(&self) -> SearchView {
        match self {
            Search::Found(metadata, file) => {
                SearchView::Found(metadata_views(metadata@), file@)
            },
            Search::Absent => SearchView::Absent,
            Search::Need(file) => SearchView::Need(file@),
            Search::Failed(error) => SearchView::Failed(error@),
        }
    }
}

/// What a segment says of a position.
enum Position {
    /// The segment is no number.
    NotAnIndex,
    /// The segment names this position.
    At(usize),
    /// The segment names a position beyond any that a list can have.
    Beyond,
}

/// The failure of kind `kind` in `file`, after `consumed` segments of `path`.
fn fail<'a>(kind: FailureKind, path: &Vec<String>, consumed: usize, file: &SourceFile) -> (r:
    Search<'a>)
    ensures
        r@ == failure(kind, string_views(path@), consumed as int, file@),
{
    let mut segments = copy_strings(path, 0);
    if consumed <= path.len() {
        segments.truncate(consumed);
    }
    proof {
        assert(path@.skip(0) =~= path@);
        assert(string_views(segments@) =~= followed(string_views(path@), consumed as int));
    }
    Search::Failed(ResolveError { kind, consumed: segments, file: Some(file.clone()) })
}

/// Reads a segment as a position.
fn parse_index(segment: &String) -> (r: Position)
    ensures
        match r {
            Position::NotAnIndex => positional_index(segment@) is None,
            Position::At(index) => positional_index(segment@) == Some(index as nat),
            Position::Beyond => positional_index(segment@) matches Some(index) && index
                > usize::MAX,
        },
{
    let text = segment.as_str();
    let total: usize = text.unicode_len();
    let start: usize = if total > 0 && text.get_char(0) == '+' {
        1
    } else {
        0
    };
    let ghost digits = index_digits(segment@);
    proof {
        assert(digits =~= segment@.skip(start as int));
    }
    if start == total {
        return Position::NotAnIndex;
    }
    let mut value: usize = 0;
    let mut beyond: bool = false;
    let mut k: usize = start;
    while k < total
        invariant
            start <= k <= total,
            total == segment@.len(),
            text@ == segment@,
            digits == segment@.skip(start as int),
            digits == index_digits(segment@),
            forall|j: int| 0 <= j < k - start ==> is_digit(#[trigger] digits[j]),
            !beyond ==> value == decimal_value(digits.take(k - start)),
            beyond ==> decimal_value(digits.take(k - start)) > usize::MAX,
        decreases total - k,
    {
        let code: u32 = text.get_char(k) as u32;
        proof {
            assert(digits[k - start] == segment@[k as int]);
        }
        if code < 0x30 || code > 0x39 {
            proof {
                assert(!is_digit(digits[k - start]));
            }
            return Position::NotAnIndex;
        }
        let digit: usize = (code - 0x30) as usize;
        proof {
            let longer = digits.take(k - start + 1);
            assert(longer.drop_last() =~= digits.take(k - start));
            assert(longer.last() == digits[k - start]);
        }
        if !beyond {
            if value > (usize::MAX - digit) / 10 {
                beyond = true;
            } else {
                value = value * 10 + digit;
            }
        }
        k = k + 1;
    }
    proof {
        assert(digits.take(total - start) =~= digits);
    }
    if beyond {
        Position::Beyond
    } else {
        Position::At(value)
    }
}

/// Looks for the field that segment `at + 1` of `path` addresses.
#[verifier::loop_isolation(false)]
pub fn find_attrs_in_fields<'a>(
    the_fields: &'a RecordFields,
    path: &Vec<String>,
    at: usize,
    file: &SourceFile,
) -> (r: Search<'a>)
    ensures
        r@ == search_fields(the_fields@, string_views(path@), at as int, file@),
        at + 1 < path.len() ==> match (the_fields@, positional_index(path@[at + 1]@)) {
            (RecordFieldsView::Positional(list), Some(index)) => r@ == if index < list.len() {
                SearchView::Found(list[index as int].metadata, file@)
            } else {
                SearchView::Absent
            },
            _ => true,
        },
{
    if at >= path.len() || at + 1 >= path.len() {
        return Search::Absent;
    }
    let name = &path[at + 1];
    proof {
        assert(string_views(path@)[at + 1] == name@);
    }
    match the_fields {
        RecordFields::Named(list) => {
            let ghost all = field_views(list@);
            let mut k: usize = 0;
            proof {
                assert(all.skip(0) =~= all);
            }
            while k < list.len()
                invariant
                    k <= list.len(),
                    all == field_views(list@),
                    named_field(all.skip(k as int), name@) == named_field(all, name@),
                decreases list.len() - k,
            {
                proof {
                    assert(all.skip(k as int)[0] == list@[k as int]@);
                    assert(all.skip(k as int).skip(1) =~= all.skip(k + 1));
                }
                let found = match &list[k].name {
                    Some(own) => *own == *name,
                    None => false,
                };
                if found {
                    return Search::Found(&list[k].metadata, file.clone());
                }
                k = k + 1;
            }
            proof {
                assert(all.skip(list.len() as int).len() == 0);
            }
            Search::Absent
        },
        RecordFields::Positional(list) => {
            let count: usize = list.len();
            match parse_index(name) {
                Position::NotAnIndex => fail(FailureKind::InvalidPathShape, path, at + 1, file),
                Position::At(index) => {
                    if index < count {
                        Search::Found(&list[index].metadata, file.clone())
                    } else {
                        Search::Absent
                    }
                },
                Position::Beyond => Search::Absent,
            }
        },
        RecordFields::Unit => Search::Absent,
    }
}

/// Looks for what `path` addresses in a record that segment `at` has led to.
pub fn find_attrs_in_struct<'a>(
    metadata: &'a Vec<Metadata>,
    fields: &'a RecordFields,
    path: &Vec<String>,
    at: usize,
    file: &SourceFile,
) -> (r: Search<'a>)
    ensures
        r@ == search_record(
            metadata_views(metadata@),
            fields@,
            string_views(path@),
            at as int,
            file@,
        ),
        at + 2 < path.len() ==> r@ == failure(
            FailureKind::InvalidPathShape,
            string_views(path@),
            at + 1,
            file@,
        ),
{
    if at >= path.len() || at + 1 == path.len() {
        Search::Found(metadata, file.clone())
    } else if at + 2 < path.len() {
        fail(FailureKind::InvalidPathShape, path, at + 1, file)
    } else {
        find_attrs_in_fields(fields, path, at, file)
    }
}

/// Looks for what `path` addresses in a variant that segment `at` has led to.
pub fn find_attrs_in_enum_variant<'a>(
    the_variant: &'a UnionVariant,
    path: &Vec<String>,
    at: usize,
    file: &SourceFile,
) -> (r: Search<'a>)
    ensures
        r@ == search_record(
            the_variant@.metadata,
            the_variant@.fields,
            string_views(path@),
            at as int,
            file@,
        ),
        at + 1 == path.len() ==> r@ == SearchView::Found(the_variant@.metadata, file@),
        at + 2 == path.len() ==> r@ == search_fields(
            the_variant@.fields,
            string_views(path@),
            at as int,
            file@,
        ),
{
    find_attrs_in_struct(&the_variant.metadata, &the_variant.fields, path, at, file)
}

/// Looks for what `path` addresses in a tagged union that segment `at` has
/// led to.
#[verifier::loop_isolation(false)]
pub fn find_attrs_in_enum<'a>(
    metadata: &'a Vec<Metadata>,
    variants: &'a Vec<UnionVariant>,
    path: &Vec<String>,
    at: usize,
    file: &SourceFile,
) -> (r: Search<'a>)
    ensures
        r@ == search_union(
            metadata_views(metadata@),
            variant_views(variants@),
            string_views(path@),
            at as int,
            file@,
        ),
{
    if at >= path.len() || at + 1 == path.len() {
        return Search::Found(metadata, file.clone());
    }
    let name = &path[at + 1];
    let ghost all = variant_views(variants@);
    let mut k: usize = 0;
    proof {
        assert(string_views(path@)[at + 1] == name@);
        assert(all.skip(0) =~= all);
    }
    while k < variants.len()
        invariant
            k <= variants.len(),
            at + 1 < path.len(),
            all == variant_views(variants@),
            named_variant(all.skip(k as int), name@) == named_variant(all, name@),
        decreases variants.len() - k,
    {
        proof {
            assert(all.skip(k as int)[0] == variants@[k as int]@);
            assert(all.skip(k as int).skip(1) =~= all.skip(k + 1));
        }
        if variants[k].name == *name {
            return find_attrs_in_enum_variant(&variants[k], path, at + 1, file);
        }
        k = k + 1;
    }
    proof {
        assert(all.skip(variants.len() as int).len() == 0);
    }
    Search::Absent
}

/// Looks for what `path` addresses in an implementation block that segment
/// `at` has led to.
#[verifier::loop_isolation(false)]
pub fn find_attrs_in_impl<'a>(
    metadata: &'a Vec<Metadata>,
    members: &'a Vec<Member>,
    path: &Vec<String>,
    at: usize,
    file: &SourceFile,
) -> (r: Search<'a>)
    ensures
        r@ == search_impl(
            metadata_views(metadata@),
            member_views(members@),
            string_views(path@),
            at as int,
            file@,
        ),
{
    if at >= path.len() || at + 1 == path.len() {
        return Search::Found(metadata, file.clone());
    }
    if at + 2 < path.len() {
        return fail(FailureKind::InvalidPathShape, path, at + 1, file);
    }
    let name = &path[at + 1];
    let ghost all = member_views(members@);
    let mut k: usize = 0;
    proof {
        assert(string_views(path@)[at + 1] == name@);
        assert(all.skip(0) =~= all);
    }
    while k < members.len()
        invariant
            k <= members.len(),
            all == member_views(members@),
            named_member(all.skip(k as int), name@) == named_member(all, name@),
        decreases members.len() - k,
    {
        proof {
            assert(all.skip(k as int)[0] == members@[k as int]@);
            assert(all.skip(k as int).skip(1) =~= all.skip(k + 1));
        }
        let found = match &members[k].name {
            Some(own) => *own == *name,
            None => false,
        };
        if found {
            return Search::Found(&members[k].metadata, file.clone());
        }
        k = k + 1;
    }
    proof {
        assert(all.skip(members.len() as int).len() == 0);
    }
    Search::Absent
}

/// Looks for what `path` addresses in `file`, after `at` of its segments
/// have led there.
pub fn find_item_in_file<'a>(
    sources: &'a Sources,
    file: &SourceFile,
    path: &Vec<String>,
    at: usize,
) -> (r: Search<'a>)
    ensures
        r@ == search_file(sources@, file@, string_views(path@), at as int),
    decreases path.len() - at, 3int, 0int,
{
    match sources.get(file) {
        None => Search::Need(file.clone()),
        Some(Loaded::Unreadable) => fail(FailureKind::SourceReadFailure, path, at, file),
        Some(Loaded::Malformed) => fail(FailureKind::SourceParseFailure, path, at, file),
        Some(Loaded::Parsed(tree)) => {
            if at >= path.len() {
                Search::Found(&tree.metadata, file.clone())
            } else {
                find_attrs_in_list(sources, file, &tree.declarations, path, at)
            }
        },
    }
}

/// Looks for what segment `at` of `path` leads to among the declarations
/// of `list`.
pub fn find_attrs_in_list<'a>(
    sources: &'a Sources,
    file: &SourceFile,
    list: &'a Vec<Declaration>,
    path: &Vec<String>,
    at: usize,
) -> (r: Search<'a>)
    ensures
        r@ == search_list(
            sources@,
            file@,
            string_views(path@),
            at as int,
            declaration_views(list@),
            0,
        ),
    decreases path.len() - at, 2int, 0int,
{
    let ghost all = declaration_views(list@);
    let ghost segments = string_views(path@);
    let mut k: usize = 0;
    while k < list.len()
        invariant
            k <= list.len(),
            all == declaration_views(list@),
            segments == string_views(path@),
            search_list(sources@, file@, segments, at as int, all, k as int) == search_list(
                sources@,
                file@,
                segments,
                at as int,
                all,
                0,
            ),
        decreases list.len() - k,
    {
        proof {
            assert(all[k as int] == list@[k as int]@);
        }
        match find_attrs_in_item(sources, file, &list[k], path, at) {
            Search::Absent => {},
            Search::Found(metadata, place) => {
                return Search::Found(metadata, place);
            },
            Search::Need(wanted) => {
                return Search::Need(wanted);
            },
            Search::Failed(error) => {
                return Search::Failed(error);
            },
        }
        k = k + 1;
    }
    Search::Absent
}

/// Looks for what segment `at` of `path` leads to in one declaration.
pub fn find_attrs_in_item<'a>(
    sources: &'a Sources,
    file: &SourceFile,
    item: &'a Declaration,
    path: &Vec<String>,
    at: usize,
) -> (r: Search<'a>)
    ensures
        r@ == search_item(sources@, file@, string_views(path@), at as int, item@),
    decreases path.len() - at, 1int, 0int,
{
    if at >= path.len() {
        return Search::Absent;
    }
    let head = &path[at];
    match item {
        Declaration::Module { name, metadata, body } => {
            if *name == *head {
                find_attrs_in_mod(sources, file, name, metadata, body, path, at)
            } else {
                Search::Absent
            }
        },
        Declaration::Record { name, metadata, fields } => {
            if *name == *head {
                find_attrs_in_struct(metadata, fields, path, at, file)
            } else {
                Search::Absent
            }
        },
        Declaration::TaggedUnion { name, metadata, variants } => {
            if *name == *head {
                find_attrs_in_enum(metadata, variants, path, at, file)
            } else {
                Search::Absent
            }
        },
        Declaration::Implementation { target, metadata, members } => {
            if type_has_name(target, head) {
                find_attrs_in_impl(metadata, members, path, at, file)
            } else {
                Search::Absent
            }
        },
        Declaration::Skipped => Search::Absent,
        Declaration::Unsupported => fail(FailureKind::UnsupportedConstruct, path, at, file),
    }
}

/// Looks for what `path` addresses in a module that segment `at` has led to.
pub fn find_attrs_in_mod<'a>(
    sources: &'a Sources,
    file: &SourceFile,
    name: &String,
    metadata: &'a Vec<Metadata>,
    body: &'a Option<Vec<Declaration>>,
    path: &Vec<String>,
    at: usize,
) -> (r: Search<'a>)
    ensures
        r@ == search_module(
            sources@,
            file@,
            string_views(path@),
            at as int,
            name@,
            metadata_views(metadata@),
            match *body {
                Some(list) => Some(declaration_views(list@)),
                None => None,
            },
        ),
    decreases path.len() - at, 0int, 0int,
{
    if at >= path.len() {
        return Search::Absent;
    }
    match body {
        Some(list) => {
            if at + 1 == path.len() {
                Search::Found(metadata, file.clone())
            } else {
                find_attrs_in_list(sources, file, list, path, at + 1)
            }
        },
        None => match file.module(name) {
            Some(next) => find_item_in_file(sources, &next, path, at + 1),
            None => fail(FailureKind::UnsupportedConstruct, path, at + 1, file),
        },
    }
}

impl RustPath {
    /// The segments of the path, in order.
    pub fn to_segments(&self) -> (r: Vec<String>)
        ensures
            string_views(r@) == self@,
    {
        let mut out: Vec<String> = Vec::new();
        out.push(self.head.clone());
        match &self.tail {
            Some(rest) => {
                let mut others = copy_strings(rest, 0);
                out.append(&mut others);
                proof {
                    assert(rest@.skip(0) =~= rest@);
                    assert(string_views(out@) =~= self@);
                }
            },
            None => {
                proof {
                    assert(string_views(out@) =~= self@);
                }
            },
        }
        out
    }
}

/// Looks for the documentation of the item that `path` addresses, with the
/// package roots of `crates`, in the files of `sources`. Where the search
/// comes to a file that `sources` does not hold, it asks for that file; it
/// is to be run again once the file was supplied.
pub fn find_doc_for_item(path: &RustPath, crates: &CrateRoots, sources: &Sources) -> (r: Progress)
    ensures
        r@ == resolve(path@, crates@, sources@),
{
    let segments = path.to_segments();
    let (crate_name, _) = path.head_tail();
    match crates.get(crate_name) {
        None => {
            let error = ResolveError {
                kind: FailureKind::PackageNotFound,
                consumed: Vec::new(),
                file: None,
            };
            proof {
                assert(error@.consumed =~= Seq::<Seq<char>>::empty());
            }
            Progress::Done(Err(error))
        },
        Some(crate_path) => {
            let lib_file = SourceFile::entry(crate_path);
            proof {
                assert(string_views(segments@)[0] == segments@[0]@);
            }
            match find_item_in_file(sources, &lib_file, &segments, 1) {
                Search::Found(attrs, file) => match attrs_to_string(attrs) {
                    Ok(text) => Progress::Done(Ok(Some(text))),
                    Err(_) => Progress::Done(
                        Err(
                            ResolveError {
                                kind: FailureKind::MalformedDocAttribute,
                                consumed: segments,
                                file: Some(file),
                            },
                        ),
                    ),
                },
                Search::Absent => Progress::Done(Ok(None)),
                Search::Need(file) => Progress::Need(file),
                Search::Failed(error) => Progress::Done(Err(error)),
            }
        },
    }
}

} // verus!
