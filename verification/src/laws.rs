//! What holds of every search.

use vstd::prelude::*;
use crate::docs::{doc_text, has_malformed};
use crate::resolver::{
    answer, failure, named_variant, positional_index, resolve, search_fields, search_file,
    search_item, search_list, search_module, search_record, search_union, FailureKind,
    ProgressView, ResolveErrorView, SearchView,
};
use crate::source::{entry_file, module_file, LoadedView, SourceFileView};
use crate::tree::{
    DeclarationView, MetadataView, RecordFieldView, RecordFieldsView, UnionVariantView,
};

verus! {

/// A package that the registry does not hold is not found, whatever follows
/// in the path and whatever files were read.
pub proof fn law_unknown_package(
    path: Seq<Seq<char>>,
    roots: Map<Seq<char>, Seq<char>>,
    sources: Map<SourceFileView, LoadedView>,
)
    requires
        !roots.contains_key(path[0]),
    ensures
        resolve(path, roots, sources) == ProgressView::Done(
            Err(
                ResolveErrorView {
                    kind: FailureKind::PackageNotFound,
                    consumed: Seq::empty(),
                    file: None,
                },
            ),
        ),
{
}

/// A path that goes on behind a field of a record fails: no field has
/// anything inside that a path could address.
pub proof fn law_nothing_inside_a_field(
    sources: Map<SourceFileView, LoadedView>,
    file: SourceFileView,
    path: Seq<Seq<char>>,
    at: int,
    name: Seq<char>,
    metadata: Seq<MetadataView>,
    fields: RecordFieldsView,
)
    requires
        0 <= at,
        at + 2 < path.len(),
        name == path[at],
    ensures
        search_item(sources, file, path, at, DeclarationView::Record { name, metadata, fields })
            == failure(FailureKind::InvalidPathShape, path, at + 1, file),
{
}

/// Whatever the fields of a record are, and whether or not the next segment
/// names one of them: a path that goes on behind that segment fails.
pub proof fn law_path_beyond_a_field(
    metadata: Seq<MetadataView>,
    fields: RecordFieldsView,
    path: Seq<Seq<char>>,
    at: int,
    file: SourceFileView,
)
    requires
        0 <= at,
        at + 2 < path.len(),
    ensures
        search_record(metadata, fields, path, at, file) == failure(
            FailureKind::InvalidPathShape,
            path,
            at + 1,
            file,
        ),
        search_record(metadata, fields, path, at, file) matches SearchView::Failed(error)
            && error.kind == FailureKind::InvalidPathShape && error.consumed == path.take(at + 1),
{
}

/// Among positional fields a number finds the field at that position,
/// counted from zero, and no other.
pub proof fn law_position_within(
    fields: Seq<RecordFieldView>,
    path: Seq<Seq<char>>,
    at: int,
    file: SourceFileView,
    index: nat,
)
    requires
        0 <= at,
        at + 1 < path.len(),
        positional_index(path[at + 1]) == Some(index),
        index < fields.len(),
    ensures
        search_fields(RecordFieldsView::Positional(fields), path, at, file) == SearchView::Found(
            fields[index as int].metadata,
            file,
        ),
{
}

/// Among positional fields a number at or beyond their count finds
/// nothing, and does not fail.
pub proof fn law_position_beyond(
    fields: Seq<RecordFieldView>,
    path: Seq<Seq<char>>,
    at: int,
    file: SourceFileView,
    index: nat,
)
    requires
        0 <= at,
        at + 1 < path.len(),
        positional_index(path[at + 1]) == Some(index),
        index >= fields.len(),
    ensures
        search_fields(RecordFieldsView::Positional(fields), path, at, file) == SearchView::Absent,
{
}

/// A path that ends at a variant finds the variant's own metadata, and the
/// path that goes on by the segment of a field finds the field's: neither
/// is given for the other, and where their documentation differs, so do the
/// two answers.
pub proof fn law_variant_alone_and_with_field(
    variant: UnionVariantView,
    path: Seq<Seq<char>>,
    at: int,
    file: SourceFileView,
    segment: Seq<char>,
    field: Seq<MetadataView>,
)
    requires
        0 <= at,
        at + 1 == path.len(),
        search_fields(variant.fields, path.push(segment), at, file) == SearchView::Found(
            field,
            file,
        ),
    ensures
        search_record(variant.metadata, variant.fields, path, at, file) == SearchView::Found(
            variant.metadata,
            file,
        ),
        search_record(variant.metadata, variant.fields, path.push(segment), at, file)
            == SearchView::Found(field, file),
        doc_text(variant.metadata) != doc_text(field) ==> search_record(
            variant.metadata,
            variant.fields,
            path,
            at,
            file,
        ) != search_record(variant.metadata, variant.fields, path.push(segment), at, file),
{
}

/// A number addresses the positional field at that position, and nothing
/// where the record has fewer fields.
pub proof fn law_positional_field(
    sources: Map<SourceFileView, LoadedView>,
    file: SourceFileView,
    path: Seq<Seq<char>>,
    at: int,
    name: Seq<char>,
    metadata: Seq<MetadataView>,
    fields: Seq<RecordFieldView>,
    index: nat,
)
    requires
        0 <= at,
        at + 2 == path.len(),
        name == path[at],
        positional_index(path[at + 1]) == Some(index),
    ensures
        search_item(
            sources,
            file,
            path,
            at,
            DeclarationView::Record {
                name,
                metadata,
                fields: RecordFieldsView::Positional(fields),
            },
        ) == if index < fields.len() {
            SearchView::Found(fields[index as int].metadata, file)
        } else {
            SearchView::Absent
        },
{
}

/// A path to a variant finds the variant, and the path that goes on by one
/// segment finds the field: where the documentation of the two differs, so
/// do the two answers.
pub proof fn law_variant_and_field(
    metadata: Seq<MetadataView>,
    variants: Seq<UnionVariantView>,
    path: Seq<Seq<char>>,
    at: int,
    file: SourceFileView,
    segment: Seq<char>,
    variant: UnionVariantView,
    field: Seq<MetadataView>,
)
    requires
        0 <= at,
        at + 2 == path.len(),
        named_variant(variants, path[at + 1]) == Some(variant),
        search_fields(variant.fields, path.push(segment), at + 1, file) == SearchView::Found(
            field,
            file,
        ),
        doc_text(variant.metadata) != doc_text(field),
    ensures
        search_union(metadata, variants, path, at, file) == SearchView::Found(
            variant.metadata,
            file,
        ),
        search_union(metadata, variants, path.push(segment), at, file) == SearchView::Found(
            field,
            file,
        ),
        search_union(metadata, variants, path, at, file) != search_union(
            metadata,
            variants,
            path.push(segment),
            at,
            file,
        ),
{
    let longer = path.push(segment);
    assert(longer[at + 1] == path[at + 1]);
}

/// Among the declarations of a list, the first that is not absent decides:
/// those before it do not matter, those behind it are not looked at.
pub proof fn law_first_decides(
    sources: Map<SourceFileView, LoadedView>,
    file: SourceFileView,
    path: Seq<Seq<char>>,
    at: int,
    list: Seq<DeclarationView>,
    first: int,
)
    requires
        0 <= first < list.len(),
        forall|j: int|
            0 <= j < first ==> (#[trigger] search_item(sources, file, path, at, list[j])) is Absent,
        !(search_item(sources, file, path, at, list[first]) is Absent),
    ensures
        search_list(sources, file, path, at, list, 0) == search_item(
            sources,
            file,
            path,
            at,
            list[first],
        ),
{
    lemma_absent_before(sources, file, path, at, list, first, 0);
}

proof fn lemma_absent_before(
    sources: Map<SourceFileView, LoadedView>,
    file: SourceFileView,
    path: Seq<Seq<char>>,
    at: int,
    list: Seq<DeclarationView>,
    first: int,
    from: int,
)
    requires
        0 <= from <= first < list.len(),
        forall|j: int|
            0 <= j < first ==> (#[trigger] search_item(sources, file, path, at, list[j])) is Absent,
        !(search_item(sources, file, path, at, list[first]) is Absent),
    ensures
        search_list(sources, file, path, at, list, from) == search_item(
            sources,
            file,
            path,
            at,
            list[first],
        ),
    decreases first - from,
{
    if from < first {
        assert(search_item(sources, file, path, at, list[from]) is Absent);
        lemma_absent_before(sources, file, path, at, list, first, from + 1);
    }
}

/// A list in which every declaration is absent is absent.
pub proof fn law_all_absent(
    sources: Map<SourceFileView, LoadedView>,
    file: SourceFileView,
    path: Seq<Seq<char>>,
    at: int,
    list: Seq<DeclarationView>,
    from: int,
)
    requires
        0 <= from,
        forall|j: int|
            0 <= j < list.len() ==> (#[trigger] search_item(sources, file, path, at, list[j]))
                is Absent,
    ensures
        search_list(sources, file, path, at, list, from) is Absent,
    decreases list.len() - from,
{
    if from < list.len() {
        assert(search_item(sources, file, path, at, list[from]) is Absent);
        law_all_absent(sources, file, path, at, list, from + 1);
    }
}

/// Whether the record `name`, with these fields, is the first declaration
/// of the entry file of the package of `path` that segment 1 of `path`
/// leads into.
pub open spec fn record_leads(
    path: Seq<Seq<char>>,
    roots: Map<Seq<char>, Seq<char>>,
    sources: Map<SourceFileView, LoadedView>,
    place: int,
    metadata: Seq<MetadataView>,
    fields: RecordFieldsView,
) -> bool {
    let file = entry_file(roots[path[0]]);
    &&& path.len() >= 2
    &&& roots.contains_key(path[0])
    &&& sources.contains_key(file)
    &&& sources[file] matches LoadedView::Parsed(tree)
    &&& 0 <= place < tree.declarations.len()
    &&& tree.declarations[place] == (DeclarationView::Record { name: path[1], metadata, fields })
    &&& forall|j: int|
        0 <= j < place ==> (#[trigger] search_item(sources, file, path, 1, tree.declarations[j]))
            is Absent
}

/// In the entry file of a package, a path of a record, a field and more
/// fails, and the failure tells how far the path was followed.
pub proof fn law_nothing_inside_a_field_of_a_package(
    path: Seq<Seq<char>>,
    roots: Map<Seq<char>, Seq<char>>,
    sources: Map<SourceFileView, LoadedView>,
    place: int,
    metadata: Seq<MetadataView>,
    fields: RecordFieldsView,
)
    requires
        record_leads(path, roots, sources, place, metadata, fields),
        path.len() > 3,
    ensures
        resolve(path, roots, sources) == ProgressView::Done(
            Err(
                ResolveErrorView {
                    kind: FailureKind::InvalidPathShape,
                    consumed: path.take(2),
                    file: Some(entry_file(roots[path[0]])),
                },
            ),
        ),
{
    let file = entry_file(roots[path[0]]);
    let tree = sources[file]->Parsed_0;
    law_first_decides(sources, file, path, 1, tree.declarations, place);
}

/// A search that ends at a declaration whose metadata has an entry named
/// `doc` without a text fails, and the failure tells the whole path and the
/// file of the declaration. It gives the documentation text in every other
/// case.
pub proof fn law_malformed_documentation(
    metadata: Seq<MetadataView>,
    path: Seq<Seq<char>>,
    file: SourceFileView,
)
    ensures
        has_malformed(metadata) <==> answer(metadata, path, file) matches ProgressView::Done(
            Err(_),
        ),
        has_malformed(metadata) ==> answer(metadata, path, file) == ProgressView::Done(
            Err(
                ResolveErrorView {
                    kind: FailureKind::MalformedDocAttribute,
                    consumed: path,
                    file: Some(file),
                },
            ),
        ),
        !has_malformed(metadata) ==> answer(metadata, path, file) == ProgressView::Done(
            Ok(Some(doc_text(metadata))),
        ),
{
}

/// In the entry file of a package, a path of a record and a number gives
/// the documentation of the positional field at that position.
pub proof fn law_positional_field_of_a_package(
    path: Seq<Seq<char>>,
    roots: Map<Seq<char>, Seq<char>>,
    sources: Map<SourceFileView, LoadedView>,
    place: int,
    metadata: Seq<MetadataView>,
    fields: Seq<RecordFieldView>,
    index: nat,
)
    requires
        record_leads(path, roots, sources, place, metadata, RecordFieldsView::Positional(fields)),
        path.len() == 3,
        positional_index(path[2]) == Some(index),
        index < fields.len(),
    ensures
        resolve(path, roots, sources) == answer(
            fields[index as int].metadata,
            path,
            entry_file(roots[path[0]]),
        ),
        !has_malformed(fields[index as int].metadata) ==> resolve(path, roots, sources)
            == ProgressView::Done(Ok(Some(doc_text(fields[index as int].metadata)))),
{
    let file = entry_file(roots[path[0]]);
    let tree = sources[file]->Parsed_0;
    law_first_decides(sources, file, path, 1, tree.declarations, place);
}

/// A search asks only for a file that was not read.
pub proof fn lemma_needed_file_is_missing(
    sources: Map<SourceFileView, LoadedView>,
    file: SourceFileView,
    path: Seq<Seq<char>>,
    at: int,
)
    ensures
        search_file(sources, file, path, at) matches SearchView::Need(wanted)
            ==> !sources.contains_key(wanted),
    decreases path.len() - at, 3int, 0int,
{
    if sources.contains_key(file) {
        match sources[file] {
            LoadedView::Parsed(tree) => {
                if at < path.len() {
                    lemma_needed_file_is_missing_list(
                        sources,
                        file,
                        path,
                        at,
                        tree.declarations,
                        0,
                    );
                }
            },
            _ => {},
        }
    }
}

proof fn lemma_needed_file_is_missing_list(
    sources: Map<SourceFileView, LoadedView>,
    file: SourceFileView,
    path: Seq<Seq<char>>,
    at: int,
    list: Seq<DeclarationView>,
    from: int,
)
    ensures
        search_list(sources, file, path, at, list, from) matches SearchView::Need(wanted)
            ==> !sources.contains_key(wanted),
    decreases path.len() - at, 2int, list.len() - from,
{
    if 0 <= from < list.len() {
        lemma_needed_file_is_missing_item(sources, file, path, at, list[from]);
        lemma_needed_file_is_missing_list(sources, file, path, at, list, from + 1);
    }
}

proof fn lemma_needed_file_is_missing_item(
    sources: Map<SourceFileView, LoadedView>,
    file: SourceFileView,
    path: Seq<Seq<char>>,
    at: int,
    item: DeclarationView,
)
    ensures
        search_item(sources, file, path, at, item) matches SearchView::Need(wanted)
            ==> !sources.contains_key(wanted),
    decreases path.len() - at, 1int, 0int,
{
    if 0 <= at < path.len() {
        match item {
            DeclarationView::Module { name, metadata, body } => {
                if name == path[at] {
                    match body {
                        Some(list) => {
                            if at + 1 < path.len() {
                                lemma_needed_file_is_missing_list(
                                    sources,
                                    file,
                                    path,
                                    at + 1,
                                    list,
                                    0,
                                );
                            }
                        },
                        None => {
                            match module_file(file, name) {
                                Some(next) => {
                                    lemma_needed_file_is_missing(sources, next, path, at + 1);
                                },
                                None => {},
                            }
                        },
                    }
                }
            },
            _ => {},
        }
    }
}

/// What a search in a file has come to, unless it asks for a file, stays
/// what it is when further files are read.
proof fn lemma_settled_file(
    fewer: Map<SourceFileView, LoadedView>,
    more: Map<SourceFileView, LoadedView>,
    file: SourceFileView,
    path: Seq<Seq<char>>,
    at: int,
)
    requires
        fewer.submap_of(more),
        !(search_file(fewer, file, path, at) is Need),
    ensures
        search_file(more, file, path, at) == search_file(fewer, file, path, at),
    decreases path.len() - at, 3int, 0int,
{
    assert(fewer.dom().contains(file));
    match fewer[file] {
        LoadedView::Parsed(tree) => {
            if at < path.len() {
                lemma_settled_list(fewer, more, file, path, at, tree.declarations, 0);
            }
        },
        _ => {},
    }
}

proof fn lemma_settled_list(
    fewer: Map<SourceFileView, LoadedView>,
    more: Map<SourceFileView, LoadedView>,
    file: SourceFileView,
    path: Seq<Seq<char>>,
    at: int,
    list: Seq<DeclarationView>,
    from: int,
)
    requires
        fewer.submap_of(more),
        !(search_list(fewer, file, path, at, list, from) is Need),
    ensures
        search_list(more, file, path, at, list, from) == search_list(
            fewer,
            file,
            path,
            at,
            list,
            from,
        ),
    decreases path.len() - at, 2int, list.len() - from,
{
    if 0 <= from < list.len() {
        lemma_settled_item(fewer, more, file, path, at, list[from]);
        if search_item(fewer, file, path, at, list[from]) is Absent {
            lemma_settled_list(fewer, more, file, path, at, list, from + 1);
        }
    }
}

proof fn lemma_settled_item(
    fewer: Map<SourceFileView, LoadedView>,
    more: Map<SourceFileView, LoadedView>,
    file: SourceFileView,
    path: Seq<Seq<char>>,
    at: int,
    item: DeclarationView,
)
    requires
        fewer.submap_of(more),
        !(search_item(fewer, file, path, at, item) is Need),
    ensures
        search_item(more, file, path, at, item) == search_item(fewer, file, path, at, item),
    decreases path.len() - at, 1int, 0int,
{
    if 0 <= at < path.len() {
        match item {
            DeclarationView::Module { name, metadata, body } => {
                if name == path[at] {
                    match body {
                        Some(list) => {
                            if at + 1 < path.len() {
                                lemma_settled_list(fewer, more, file, path, at + 1, list, 0);
                            }
                        },
                        None => {
                            match module_file(file, name) {
                                Some(next) => {
                                    lemma_settled_file(fewer, more, next, path, at + 1);
                                },
                                None => {},
                            }
                        },
                    }
                }
            },
            _ => {},
        }
    }
}

/// A search asks only for a file that the store does not hold: once the
/// file is supplied, the search does not ask for it again.
pub proof fn law_asks_for_missing_file(
    path: Seq<Seq<char>>,
    roots: Map<Seq<char>, Seq<char>>,
    sources: Map<SourceFileView, LoadedView>,
)
    ensures
        resolve(path, roots, sources) matches ProgressView::Need(wanted) ==> !sources.contains_key(
            wanted,
        ),
{
    if roots.contains_key(path[0]) {
        lemma_needed_file_is_missing(
            sources,
            entry_file(roots[path[0]]),
            path,
            1,
        );
    }
}

/// The answer of a search that has ended stays what it is when further
/// files are read.
pub proof fn law_answer_is_settled(
    path: Seq<Seq<char>>,
    roots: Map<Seq<char>, Seq<char>>,
    fewer: Map<SourceFileView, LoadedView>,
    more: Map<SourceFileView, LoadedView>,
)
    requires
        fewer.submap_of(more),
        resolve(path, roots, fewer) is Done,
    ensures
        resolve(path, roots, more) == resolve(path, roots, fewer),
{
    if roots.contains_key(path[0]) {
        lemma_settled_file(fewer, more, entry_file(roots[path[0]]), path, 1);
    }
}

/// Two searches for one path over the same files end with the same answer,
/// in whatever order and number the files were read for each.
pub proof fn law_same_files_same_answer(
    path: Seq<Seq<char>>,
    roots: Map<Seq<char>, Seq<char>>,
    files: Map<SourceFileView, LoadedView>,
    first: Map<SourceFileView, LoadedView>,
    second: Map<SourceFileView, LoadedView>,
)
    requires
        first.submap_of(files),
        second.submap_of(files),
        resolve(path, roots, first) is Done,
        resolve(path, roots, second) is Done,
    ensures
        resolve(path, roots, first) == resolve(path, roots, second),
{
    law_answer_is_settled(path, roots, first, files);
    law_answer_is_settled(path, roots, second, files);
}

} // verus!
