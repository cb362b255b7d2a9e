//! The declarations of one source file, as far as documentation can be
//! addressed in them: modules, records, tagged unions and implementation
//! blocks, each with the metadata written on it.

use vstd::prelude::*;

verus! {

/// One metadata entry (an attribute) of a declaration.
#[derive(Debug, PartialEq, Eq)]
pub struct Metadata {
    /// The name of the entry, where it is a single identifier.
    pub name: Option<String>,
    /// The text of the entry, where it has the form `name = "text"`. The
    /// quotes are gone and the escapes are resolved.
    pub text: Option<String>,
}

/// What a `Metadata` holds.
pub struct MetadataView {
    pub name: Option<Seq<char>>,
    pub text: Option<Seq<char>>,
}

/// The view of a string that may be absent.
pub open spec fn optional_view(s: Option<String>) -> Option<Seq<char>> {
    match s {
        Some(s) => Some(s@),
        None => None,
    }
}

impl View for Metadata {
    type V = MetadataView;

    open spec fn view(&self) -> MetadataView {
        MetadataView { name: optional_view(self.name), text: optional_view(self.text) }
    }
}

/// The views of a list of metadata entries.
pub open spec fn metadata_views(entries: Seq<Metadata>) -> Seq<MetadataView> {
    entries.map_values(|m: Metadata| m@)
}

/// A field of a record or of a variant.
#[derive(Debug, PartialEq, Eq)]
pub struct RecordField {
    /// The field's name; `None` for a positional field.
    pub name: Option<String>,
    pub metadata: Vec<Metadata>,
}

/// What a `RecordField` holds.
pub struct RecordFieldView {
    pub name: Option<Seq<char>>,
    pub metadata: Seq<MetadataView>,
}

impl View for RecordField {
    type V = RecordFieldView;

    open spec fn view(&self) -> RecordFieldView {
        RecordFieldView { name: optional_view(self.name), metadata: metadata_views(self.metadata@) }
    }
}

/// The views of a list of fields.
pub open spec fn field_views(fields: Seq<RecordField>) -> Seq<RecordFieldView> {
    fields.map_values(|f: RecordField| f@)
}

/// The fields of a record or of a variant.
#[derive(Debug, PartialEq, Eq)]
pub enum RecordFields {
    /// RecordFields found by name.
    Named(Vec<RecordField>),
    /// RecordFields found by position, counted from zero.
    Positional(Vec<RecordField>),
    /// No fields at all.
    Unit,
}

/// What a `RecordFields` holds.
pub enum RecordFieldsView {
    Named(Seq<RecordFieldView>),
    Positional(Seq<RecordFieldView>),
    Unit,
}

impl View for RecordFields {
    type V = RecordFieldsView;

    open spec fn view(&self) -> RecordFieldsView {
        match self {
            RecordFields::Named(fields) => RecordFieldsView::Named(field_views(fields@)),
            RecordFields::Positional(fields) => RecordFieldsView::Positional(field_views(fields@)),
            RecordFields::Unit => RecordFieldsView::Unit,
        }
    }
}

/// A variant of a tagged union. It is shaped like a record.
#[derive(Debug, PartialEq, Eq)]
pub struct UnionVariant {
    pub name: String,
    pub metadata: Vec<Metadata>,
    pub fields: RecordFields,
}

/// What a `UnionVariant` holds.
pub struct UnionVariantView {
    pub name: Seq<char>,
    pub metadata: Seq<MetadataView>,
    pub fields: RecordFieldsView,
}

impl View for UnionVariant {
    type V = UnionVariantView;

    open spec fn view(&self) -> UnionVariantView {
        UnionVariantView {
            name: self.name@,
            metadata: metadata_views(self.metadata@),
            fields: self.fields@,
        }
    }
}

/// The views of a list of variants.
pub open spec fn variant_views(variants: Seq<UnionVariant>) -> Seq<UnionVariantView> {
    variants.map_values(|v: UnionVariant| v@)
}

/// A member of an implementation block.
#[derive(Debug, PartialEq, Eq)]
pub struct Member {
    /// The name of a constant, a method or an associated type; `None` for a
    /// member of another kind, which no path can address.
    pub name: Option<String>,
    pub metadata: Vec<Metadata>,
}

/// What a `Member` holds.
pub struct MemberView {
    pub name: Option<Seq<char>>,
    pub metadata: Seq<MetadataView>,
}

impl View for Member {
    type V = MemberView;

    open spec fn view(&self) -> MemberView {
        MemberView { name: optional_view(self.name), metadata: metadata_views(self.metadata@) }
    }
}

/// The views of a list of members.
pub open spec fn member_views(members: Seq<Member>) -> Seq<MemberView> {
    members.map_values(|m: Member| m@)
}

/// The type that an implementation block is attached to, as far as its name
/// can be read off.
#[derive(Debug, PartialEq, Eq)]
pub enum TypeExpr {
    /// A type written as a path; the names of its segments, in order.
    Path(Vec<String>),
    /// A reference to another type.
    Reference(Box<TypeExpr>),
    /// Any other form of type. It has no name.
    Other,
}

/// What a `TypeExpr` holds.
pub enum TypeExprView {
    Path(Seq<Seq<char>>),
    Reference(Box<TypeExprView>),
    Other,
}

/// The view of a type expression.
pub open spec fn type_view(t: TypeExpr) -> TypeExprView
    decreases t,
{
    match t {
        TypeExpr::Path(segments) => TypeExprView::Path(segments@.map_values(|s: String| s@)),
        TypeExpr::Reference(inner) => TypeExprView::Reference(Box::new(type_view(*inner))),
        TypeExpr::Other => TypeExprView::Other,
    }
}

impl View for TypeExpr {
    type V = TypeExprView;

    open spec fn view(&self) -> TypeExprView {
        type_view(*self)
    }
}

/// Whether `name` is the name of the type: the last segment of the path that
/// is left when the references around it are taken off.
pub open spec fn type_is_named(t: TypeExprView, name: Seq<char>) -> bool
    decreases t,
{
    match t {
        TypeExprView::Path(segments) => segments.len() > 0 && segments.last() == name,
        TypeExprView::Reference(inner) => type_is_named(*inner, name),
        TypeExprView::Other => false,
    }
}

/// Whether `name` names the type, references aside.
pub fn type_has_name(the_type: &TypeExpr, name: &String) -> (r: bool)
    ensures
        r == type_is_named(the_type@, name@),
    decreases the_type,
{
    match the_type {
        TypeExpr::Path(segments) => {
            let count: usize = segments.len();
            if count == 0 {
                false
            } else {
                segments[count - 1] == *name
            }
        },
        TypeExpr::Reference(inner) => type_has_name(inner, name),
        TypeExpr::Other => false,
    }
}

/// The kind of a declaration that holds nothing a path could lead into.
#[derive(Debug, Clone, Copy, PartialEq, Eq)]
pub enum ItemKind {
    /// A `use` declaration.
    Import,
    /// A block of foreign declarations.
    ForeignModule,
    /// An `extern crate` declaration.
    ExternCrate,
    /// A constant.
    Constant,
    /// A free function.
    Function,
    /// The invocation of a macro.
    MacroInvocation,
    /// A static.
    Static,
    /// A trait.
    Trait,
    /// An alias of traits.
    TraitAlias,
    /// An alias of a type.
    TypeAlias,
    /// A union.
    Union,
    /// Any other kind.
    Other,
}

/// Whether a search passes over a declaration of this kind: imports and
/// foreign declarations lead nowhere and hide nothing. A declaration of any
/// other of these kinds may hide what is sought, so a search that meets one
/// gives up.
pub open spec fn is_passed_over(kind: ItemKind) -> bool {
    kind is Import || kind is ForeignModule || kind is ExternCrate
}

/// Whether a search passes over a declaration of this kind.
pub fn passed_over(kind: &ItemKind) -> (r: bool)
    ensures
        r == is_passed_over(*kind),
{
    match kind {
        ItemKind::Import | ItemKind::ForeignModule | ItemKind::ExternCrate => true,
        _ => false,
    }
}

/// The declaration that stands for one of such a kind.
pub open spec fn plain_declaration(kind: ItemKind) -> DeclarationView {
    if is_passed_over(kind) {
        DeclarationView::Skipped
    } else {
        DeclarationView::Unsupported
    }
}

impl Declaration {
    /// The declaration that stands for one of a kind that holds nothing a
    /// path could lead into.
    pub fn plain(kind: &ItemKind) -> (r: Declaration)
        ensures
            r@ == plain_declaration(*kind),
    {
        if passed_over(kind) {
            Declaration::Skipped
        } else {
            Declaration::Unsupported
        }
    }
}

/// One declaration of a file or of an inline module.
#[derive(Debug, PartialEq, Eq)]
pub enum Declaration {
    /// A module. Its body is written in place, or it is `None` and stands in
    /// a file of its own.
    Module { name: String, metadata: Vec<Metadata>, body: Option<Vec<Declaration>> },
    /// A record type.
    Record { name: String, metadata: Vec<Metadata>, fields: RecordFields },
    /// A tagged union with its variants, in order.
    TaggedUnion { name: String, metadata: Vec<Metadata>, variants: Vec<UnionVariant> },
    /// An implementation block, found by the name of the type it is attached to.
    Implementation { target: TypeExpr, metadata: Vec<Metadata>, members: Vec<Member> },
    /// An import or a foreign declaration: no path leads into it, and a
    /// search passes over it.
    Skipped,
    /// A declaration of any other kind. A search that meets one gives up.
    Unsupported,
}

/// What a `Declaration` holds.
pub enum DeclarationView {
    Module { name: Seq<char>, metadata: Seq<MetadataView>, body: Option<Seq<DeclarationView>> },
    Record { name: Seq<char>, metadata: Seq<MetadataView>, fields: RecordFieldsView },
    TaggedUnion { name: Seq<char>, metadata: Seq<MetadataView>, variants: Seq<UnionVariantView> },
    Implementation { target: TypeExprView, metadata: Seq<MetadataView>, members: Seq<MemberView> },
    Skipped,
    Unsupported,
}

/// The view of a declaration.
pub open spec fn declaration_view(d: Declaration) -> DeclarationView
    decreases d,
{
    match d {
        Declaration::Module { name, metadata, body } => DeclarationView::Module {
            name: name@,
            metadata: metadata_views(metadata@),
            body: match body {
                Some(inner) => Some(declaration_views(inner@)),
                None => None,
            },
        },
        Declaration::Record { name, metadata, fields } => DeclarationView::Record {
            name: name@,
            metadata: metadata_views(metadata@),
            fields: fields@,
        },
        Declaration::TaggedUnion { name, metadata, variants } => DeclarationView::TaggedUnion {
            name: name@,
            metadata: metadata_views(metadata@),
            variants: variant_views(variants@),
        },
        Declaration::Implementation { target, metadata, members } => {
            DeclarationView::Implementation {
                target: target@,
                metadata: metadata_views(metadata@),
                members: member_views(members@),
            }
        },
        Declaration::Skipped => DeclarationView::Skipped,
        Declaration::Unsupported => DeclarationView::Unsupported,
    }
}

/// The views of a list of declarations.
pub open spec fn declaration_views(list: Seq<Declaration>) -> Seq<DeclarationView>
    decreases list,
{
    Seq::new(
        list.len(),
        |i: int|
            if 0 <= i < list.len() {
                declaration_view(list[i])
            } else {
                DeclarationView::Skipped
            },
    )
}

impl View for Declaration {
    type V = DeclarationView;

    open spec fn view(&self) -> DeclarationView {
        declaration_view(*self)
    }
}

/// A parsed source file: the metadata of the file itself and its top-level
/// declarations, in order.
#[derive(Debug, PartialEq, Eq)]
pub struct SourceTree {
    pub metadata: Vec<Metadata>,
    pub declarations: Vec<Declaration>,
}

/// What a `SourceTree` holds.
pub struct SourceTreeView {
    pub metadata: Seq<MetadataView>,
    pub declarations: Seq<DeclarationView>,
}

impl View for SourceTree {
    type V = SourceTreeView;

    open spec fn view(&self) -> SourceTreeView {
        SourceTreeView {
            metadata: metadata_views(self.metadata@),
            declarations: declaration_views(self.declarations@),
        }
    }
}

} // verus!
