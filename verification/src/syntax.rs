//! Reading source text: the text is parsed by `syn`, and what it finds is
//! brought into the declarations of `crate::tree`.
//!
//! The values that `syn` hands out are opaque here. What each of them holds
//! has a name, and the small functions at the top of this file take them
//! apart one level at a time. Their contracts are believed, not proved. The
//! conversion below them is verified against those contracts.

use vstd::prelude::*;
use crate::tree::{
    declaration_views, field_views, member_views, metadata_views, optional_view,
    plain_declaration, variant_views, Declaration, DeclarationView, ItemKind, Member, MemberView,
    Metadata, MetadataView, RecordField, RecordFieldView, RecordFields, RecordFieldsView,
    SourceTree, SourceTreeView, TypeExpr, TypeExprView, UnionVariant, UnionVariantView,
};

verus! {

/// An attribute, as `syn` parsed it.
#[verifier::external_type_specification]
#[verifier::external_body]
pub struct ExAttribute(syn::Attribute);

/// An item of a file or of a module, as `syn` parsed it.
#[verifier::external_type_specification]
#[verifier::external_body]
pub struct ExItem(syn::Item);

/// The fields of a struct or of a variant, as `syn` parsed them.
#[verifier::external_type_specification]
#[verifier::external_body]
pub struct ExFields(syn::Fields);

/// One field, as `syn` parsed it.
#[verifier::external_type_specification]
#[verifier::external_body]
pub struct ExField(syn::Field);

/// A variant of an enum, as `syn` parsed it.
#[verifier::external_type_specification]
#[verifier::external_body]
pub struct ExVariant(syn::Variant);

/// An item of an impl block, as `syn` parsed it.
#[verifier::external_type_specification]
#[verifier::external_body]
pub struct ExImplItem(syn::ImplItem);

/// A type, as `syn` parsed it.
#[verifier::external_type_specification]
#[verifier::external_body]
pub struct ExType(syn::Type);

/// A segment of a path, as `syn` parsed it.
#[verifier::external_type_specification]
#[verifier::external_body]
pub struct ExPathSegment(syn::PathSegment);

/// What `syn::parse_file` finds in a text; `None` where it refuses the text.
pub uninterp spec fn parsed_source(text: Seq<char>) -> Option<SourceTreeView>;

/// What an attribute holds: its name, where its path is one identifier, and
/// its text, where it has the form `name = "text"`.
pub uninterp spec fn metadata_of(attribute: syn::Attribute) -> MetadataView;

/// What an item holds: the declaration that it is, with all that stands
/// inside it.
pub uninterp spec fn declaration_of(item: syn::Item) -> DeclarationView;

/// The kind of an item that is no module, struct, enum or impl block.
pub uninterp spec fn kind_of(item: syn::Item) -> ItemKind;

/// What the fields of a struct or of a variant hold: named fields,
/// positional fields, or none.
pub uninterp spec fn fields_of(fields: syn::Fields) -> RecordFieldsView;

/// What one field holds: its name, where it has one, and its attributes.
pub uninterp spec fn field_of(field: syn::Field) -> RecordFieldView;

/// What a variant of an enum holds: its name, its attributes and its
/// fields.
pub uninterp spec fn variant_of(variant: syn::Variant) -> UnionVariantView;

/// What an item of an impl block holds: its attributes, and its name where
/// it is a constant, a function or an associated type.
pub uninterp spec fn member_of(member: syn::ImplItem) -> MemberView;

/// What a type holds, as far as its name can be read off: the names of the
/// segments of a path, or the type that a reference refers to.
pub uninterp spec fn type_of(ty: syn::Type) -> TypeExprView;

/// The name of a segment of a path.
pub uninterp spec fn segment_of(segment: syn::PathSegment) -> Seq<char>;

spec fn attribute_views(attributes: Seq<syn::Attribute>) -> Seq<MetadataView> {
    attributes.map_values(|a: syn::Attribute| metadata_of(a))
}

spec fn item_views(items: Seq<syn::Item>) -> Seq<DeclarationView> {
    items.map_values(|i: syn::Item| declaration_of(i))
}

spec fn syn_field_views(fields: Seq<syn::Field>) -> Seq<RecordFieldView> {
    fields.map_values(|f: syn::Field| field_of(f))
}

spec fn syn_variant_views(variants: Seq<syn::Variant>) -> Seq<UnionVariantView> {
    variants.map_values(|v: syn::Variant| variant_of(v))
}

spec fn syn_member_views(members: Seq<syn::ImplItem>) -> Seq<MemberView> {
    members.map_values(|m: syn::ImplItem| member_of(m))
}

spec fn segment_names(segments: Seq<syn::PathSegment>) -> Seq<Seq<char>> {
    segments.map_values(|s: syn::PathSegment| segment_of(s))
}

/// A parsed file, one level deep.
struct FileParts {
    attributes: Vec<syn::Attribute>,
    items: Vec<syn::Item>,
}

impl FileParts {
    spec fn stands_for(self) -> SourceTreeView {
        SourceTreeView {
            metadata: attribute_views(self.attributes@),
            declarations: item_views(self.items@),
        }
    }
}

/// An item, one level deep.
enum ItemParts {
    Module(String, Vec<syn::Attribute>, Option<Vec<syn::Item>>),
    Record(String, Vec<syn::Attribute>, syn::Fields),
    TaggedUnion(String, Vec<syn::Attribute>, Vec<syn::Variant>),
    Implementation(syn::Type, Vec<syn::Attribute>, Vec<syn::ImplItem>),
    /// An item of any other kind. Nothing of it is read but its kind.
    Plain,
}

impl ItemParts {
    /// The declaration that the parts stand for, where `kind` is the kind
    /// of an item that is none of the four.
    spec fn stands_for(self, kind: ItemKind) -> DeclarationView {
        match self {
            ItemParts::Module(name, attributes, body) => DeclarationView::Module {
                name: name@,
                metadata: attribute_views(attributes@),
                body: match body {
                    Some(items) => Some(item_views(items@)),
                    None => None,
                },
            },
            ItemParts::Record(name, attributes, fields) => DeclarationView::Record {
                name: name@,
                metadata: attribute_views(attributes@),
                fields: fields_of(fields),
            },
            ItemParts::TaggedUnion(name, attributes, variants) => DeclarationView::TaggedUnion {
                name: name@,
                metadata: attribute_views(attributes@),
                variants: syn_variant_views(variants@),
            },
            ItemParts::Implementation(target, attributes, members) => {
                DeclarationView::Implementation {
                    target: type_of(target),
                    metadata: attribute_views(attributes@),
                    members: syn_member_views(members@),
                }
            },
            ItemParts::Plain => plain_declaration(kind),
        }
    }
}

/// The fields of a struct or of a variant, one level deep.
enum FieldsParts {
    Named(Vec<syn::Field>),
    Positional(Vec<syn::Field>),
    Unit,
}

impl FieldsParts {
    spec fn stands_for(self) -> RecordFieldsView {
        match self {
            FieldsParts::Named(fields) => RecordFieldsView::Named(syn_field_views(fields@)),
            FieldsParts::Positional(fields) => {
                RecordFieldsView::Positional(syn_field_views(fields@))
            },
            FieldsParts::Unit => RecordFieldsView::Unit,
        }
    }
}

/// A name, where there is one, and attributes: a field or an impl item.
struct NamedParts {
    name: Option<String>,
    attributes: Vec<syn::Attribute>,
}

impl NamedParts {
    spec fn as_field(self) -> RecordFieldView {
        RecordFieldView {
            name: optional_view(self.name),
            metadata: attribute_views(self.attributes@),
        }
    }

    spec fn as_member(self) -> MemberView {
        MemberView { name: optional_view(self.name), metadata: attribute_views(self.attributes@) }
    }
}

/// A variant, one level deep.
struct VariantParts {
    name: String,
    attributes: Vec<syn::Attribute>,
    fields: syn::Fields,
}

impl VariantParts {
    spec fn stands_for(self) -> UnionVariantView {
        UnionVariantView {
            name: self.name@,
            metadata: attribute_views(self.attributes@),
            fields: fields_of(self.fields),
        }
    }
}

/// A type, one level deep.
enum TypeParts {
    Path(Vec<syn::PathSegment>),
    Reference(syn::Type),
    Other,
}

impl TypeParts {
    spec fn stands_for(self) -> TypeExprView {
        match self {
            TypeParts::Path(segments) => TypeExprView::Path(segment_names(segments@)),
            TypeParts::Reference(inner) => TypeExprView::Reference(Box::new(type_of(inner))),
            TypeParts::Other => TypeExprView::Other,
        }
    }
}

/// Calls `syn::parse_file`. The attributes and the items of the file it
/// returns are what `parsed_source` names for this text; an error of the
/// parser is `None`.
#[verifier::external_body]
fn parse_file(text: &str) -> (r: Option<FileParts>)
    ensures
        match r {
            Some(parts) => parsed_source(text@) == Some(parts.stands_for()),
            None => parsed_source(text@) is None,
        },
{
    match syn::parse_file(text) {
        Ok(file) => Some(FileParts { attributes: file.attrs, items: file.items }),
        Err(_) => None,
    }
}

/// Reads one `syn::Attribute`: the identifier that its path consists of
/// (`syn::Path::get_ident`), and the value of the string literal
/// (`syn::LitStr::value`) where the attribute has the form `name = "text"`.
#[verifier::external_body]
fn attribute_parts(attribute: &syn::Attribute) -> (r: Metadata)
    ensures
        r@ == metadata_of(*attribute),
{
    let name = match attribute.path().get_ident() {
        Some(ident) => Some(ident.to_string()),
        None => None,
    };
    let text = match &attribute.meta {
        syn::Meta::NameValue(syn::MetaNameValue {
            value: syn::Expr::Lit(syn::ExprLit { lit: syn::Lit::Str(literal), .. }),
            ..
        }) => Some(literal.value()),
        _ => None,
    };
    Metadata { name, text }
}

/// Tells a module, a struct, an enum and an impl block among the variants of
/// `syn::Item` apart from the others, and hands out the name, the attributes
/// and what is inside. Of any other item it hands out nothing.
#[verifier::external_body]
fn item_parts(item: &syn::Item) -> (r: ItemParts)
    ensures
        r.stands_for(kind_of(*item)) == declaration_of(*item),
{
    match item.clone() {
        syn::Item::Mod(m) => {
            ItemParts::Module(m.ident.to_string(), m.attrs, m.content.map(|c| c.1))
        },
        syn::Item::Struct(s) => ItemParts::Record(s.ident.to_string(), s.attrs, s.fields),
        syn::Item::Enum(e) => {
            ItemParts::TaggedUnion(e.ident.to_string(), e.attrs, e.variants.into_iter().collect())
        },
        syn::Item::Impl(i) => ItemParts::Implementation(*i.self_ty, i.attrs, i.items),
        _ => ItemParts::Plain,
    }
}

/// Tells the other variants of `syn::Item` apart, one kind for each. A
/// module, a struct, an enum, an impl block and a variant that `syn` gives
/// no structure are of the kind `Other`.
#[verifier::external_body]
fn item_kind(item: &syn::Item) -> (r: ItemKind)
    ensures
        r == kind_of(*item),
{
    match item {
        syn::Item::Use(_) => ItemKind::Import,
        syn::Item::ForeignMod(_) => ItemKind::ForeignModule,
        syn::Item::ExternCrate(_) => ItemKind::ExternCrate,
        syn::Item::Const(_) => ItemKind::Constant,
        syn::Item::Fn(_) => ItemKind::Function,
        syn::Item::Macro(_) => ItemKind::MacroInvocation,
        syn::Item::Static(_) => ItemKind::Static,
        syn::Item::Trait(_) => ItemKind::Trait,
        syn::Item::TraitAlias(_) => ItemKind::TraitAlias,
        syn::Item::Type(_) => ItemKind::TypeAlias,
        syn::Item::Union(_) => ItemKind::Union,
        _ => ItemKind::Other,
    }
}

/// Tells the variants of `syn::Fields` apart and hands out the fields.
#[verifier::external_body]
fn fields_parts(fields: &syn::Fields) -> (r: FieldsParts)
    ensures
        r.stands_for() == fields_of(*fields),
{
    match fields {
        syn::Fields::Named(f) => FieldsParts::Named(f.named.iter().cloned().collect()),
        syn::Fields::Unnamed(f) => FieldsParts::Positional(f.unnamed.iter().cloned().collect()),
        syn::Fields::Unit => FieldsParts::Unit,
    }
}

/// Reads the name, where there is one, and the attributes of a `syn::Field`.
#[verifier::external_body]
fn field_parts(field: &syn::Field) -> (r: NamedParts)
    ensures
        r.as_field() == field_of(*field),
{
    let name = match &field.ident {
        Some(ident) => Some(ident.to_string()),
        None => None,
    };
    NamedParts { name, attributes: field.attrs.clone() }
}

/// Reads the name, the attributes and the fields of a `syn::Variant`.
#[verifier::external_body]
fn variant_parts(variant: &syn::Variant) -> (r: VariantParts)
    ensures
        r.stands_for() == variant_of(*variant),
{
    VariantParts {
        name: variant.ident.to_string(),
        attributes: variant.attrs.clone(),
        fields: variant.fields.clone(),
    }
}

/// Tells the variants of `syn::ImplItem` apart. A constant, a function and
/// an associated type have a name and attributes, the invocation of a macro
/// has attributes alone, and a variant that `syn` gives no structure has
/// neither.
#[verifier::external_body]
fn member_parts(member: &syn::ImplItem) -> (r: NamedParts)
    ensures
        r.as_member() == member_of(*member),
{
    let (name, attributes) = match member.clone() {
        syn::ImplItem::Const(c) => (Some(c.ident.to_string()), c.attrs),
        syn::ImplItem::Fn(f) => (Some(f.sig.ident.to_string()), f.attrs),
        syn::ImplItem::Type(t) => (Some(t.ident.to_string()), t.attrs),
        syn::ImplItem::Macro(m) => (None, m.attrs),
        _ => (None, Vec::new()),
    };
    NamedParts { name, attributes }
}

/// Tells the variants of `syn::Type` apart. Of a path it hands out the
/// segments, of a reference the type referred to; any other type is `Other`.
#[verifier::external_body]
fn type_parts(ty: &syn::Type) -> (r: TypeParts)
    ensures
        r.stands_for() == type_of(*ty),
{
    match ty {
        syn::Type::Path(p) => TypeParts::Path(p.path.segments.iter().cloned().collect()),
        syn::Type::Reference(r) => TypeParts::Reference((*r.elem).clone()),
        _ => TypeParts::Other,
    }
}

/// Reads the name of a `syn::PathSegment`.
#[verifier::external_body]
fn segment_name(segment: &syn::PathSegment) -> (r: String)
    ensures
        r@ == segment_of(*segment),
{
    segment.ident.to_string()
}

fn convert_attributes(attributes: &Vec<syn::Attribute>) -> (r: Vec<Metadata>)
    ensures
        metadata_views(r@) == attribute_views(attributes@),
{
    let mut out: Vec<Metadata> = Vec::new();
    let mut k: usize = 0;
    while k < attributes.len()
        invariant
            k <= attributes.len(),
            out@.len() == k,
            forall|j: int| 0 <= j < k ==> (#[trigger] out@[j])@ == metadata_of(attributes@[j]),
        decreases attributes.len() - k,
    {
        out.push(attribute_parts(&attributes[k]));
        k = k + 1;
    }
    assert(metadata_views(out@) =~= attribute_views(attributes@));
    out
}

fn convert_field(field: &syn::Field) -> (r: RecordField)
    ensures
        r@ == field_of(*field),
{
    let parts = field_parts(field);
    let metadata = convert_attributes(&parts.attributes);
    RecordField { name: parts.name, metadata }
}

fn convert_field_list(fields: &Vec<syn::Field>) -> (r: Vec<RecordField>)
    ensures
        field_views(r@) == syn_field_views(fields@),
{
    let mut out: Vec<RecordField> = Vec::new();
    let mut k: usize = 0;
    while k < fields.len()
        invariant
            k <= fields.len(),
            out@.len() == k,
            forall|j: int| 0 <= j < k ==> (#[trigger] out@[j])@ == field_of(fields@[j]),
        decreases fields.len() - k,
    {
        out.push(convert_field(&fields[k]));
        k = k + 1;
    }
    assert(field_views(out@) =~= syn_field_views(fields@));
    out
}

fn convert_fields(fields: &syn::Fields) -> (r: RecordFields)
    ensures
        r@ == fields_of(*fields),
{
    match fields_parts(fields) {
        FieldsParts::Named(list) => RecordFields::Named(convert_field_list(&list)),
        FieldsParts::Positional(list) => RecordFields::Positional(convert_field_list(&list)),
        FieldsParts::Unit => RecordFields::Unit,
    }
}

fn convert_variant(variant: &syn::Variant) -> (r: UnionVariant)
    ensures
        r@ == variant_of(*variant),
{
    let parts = variant_parts(variant);
    let metadata = convert_attributes(&parts.attributes);
    let fields = convert_fields(&parts.fields);
    UnionVariant { name: parts.name, metadata, fields }
}

fn convert_variants(variants: &Vec<syn::Variant>) -> (r: Vec<UnionVariant>)
    ensures
        variant_views(r@) == syn_variant_views(variants@),
{
    let mut out: Vec<UnionVariant> = Vec::new();
    let mut k: usize = 0;
    while k < variants.len()
        invariant
            k <= variants.len(),
            out@.len() == k,
            forall|j: int| 0 <= j < k ==> (#[trigger] out@[j])@ == variant_of(variants@[j]),
        decreases variants.len() - k,
    {
        out.push(convert_variant(&variants[k]));
        k = k + 1;
    }
    assert(variant_views(out@) =~= syn_variant_views(variants@));
    out
}

fn convert_member(member: &syn::ImplItem) -> (r: Member)
    ensures
        r@ == member_of(*member),
{
    let parts = member_parts(member);
    let metadata = convert_attributes(&parts.attributes);
    Member { name: parts.name, metadata }
}

fn convert_members(members: &Vec<syn::ImplItem>) -> (r: Vec<Member>)
    ensures
        member_views(r@) == syn_member_views(members@),
{
    let mut out: Vec<Member> = Vec::new();
    let mut k: usize = 0;
    while k < members.len()
        invariant
            k <= members.len(),
            out@.len() == k,
            forall|j: int| 0 <= j < k ==> (#[trigger] out@[j])@ == member_of(members@[j]),
        decreases members.len() - k,
    {
        out.push(convert_member(&members[k]));
        k = k + 1;
    }
    assert(member_views(out@) =~= syn_member_views(members@));
    out
}

fn convert_type(ty: &syn::Type) -> (r: TypeExpr)
    ensures
        r@ == type_of(*ty),
    decreases type_of(*ty),
{
    let parts = type_parts(ty);
    match parts {
        TypeParts::Path(segments) => {
            let mut names: Vec<String> = Vec::new();
            let mut k: usize = 0;
            while k < segments.len()
                invariant
                    k <= segments.len(),
                    names@.len() == k,
                    forall|j: int|
                        0 <= j < k ==> (#[trigger] names@[j])@ == segment_of(segments@[j]),
                decreases segments.len() - k,
            {
                names.push(segment_name(&segments[k]));
                k = k + 1;
            }
            proof {
                assert(names@.map_values(|s: String| s@) =~= segment_names(segments@));
            }
            TypeExpr::Path(names)
        },
        TypeParts::Reference(inner) => {
            proof {
                let whole = type_of(*ty);
                assert(whole matches TypeExprView::Reference(b) && *b == type_of(inner));
                assert(decreases_to!(whole => whole->Reference_0));
            }
            TypeExpr::Reference(Box::new(convert_type(&inner)))
        },
        TypeParts::Other => TypeExpr::Other,
    }
}

fn convert_item(item: &syn::Item) -> (r: Declaration)
    ensures
        r@ == declaration_of(*item),
    decreases declaration_of(*item),
{
    let parts = item_parts(item);
    match parts {
        ItemParts::Module(name, attributes, body) => {
            let metadata = convert_attributes(&attributes);
            let body = match body {
                Some(items) => {
                    proof {
                        let whole = declaration_of(*item);
                        assert(parts.stands_for(kind_of(*item)) == whole);
                        assert(whole matches DeclarationView::Module { body: Some(inner), .. }
                            && inner == item_views(items@));
                        assert(decreases_to!(whole => whole->body));
                        assert(decreases_to!(whole->body => whole->body->0));
                    }
                    Some(convert_items(&items))
                },
                None => None,
            };
            Declaration::Module { name, metadata, body }
        },
        ItemParts::Record(name, attributes, fields) => {
            let metadata = convert_attributes(&attributes);
            let fields = convert_fields(&fields);
            Declaration::Record { name, metadata, fields }
        },
        ItemParts::TaggedUnion(name, attributes, variants) => {
            let metadata = convert_attributes(&attributes);
            let variants = convert_variants(&variants);
            Declaration::TaggedUnion { name, metadata, variants }
        },
        ItemParts::Implementation(target, attributes, members) => {
            let metadata = convert_attributes(&attributes);
            let target = convert_type(&target);
            let members = convert_members(&members);
            Declaration::Implementation { target, metadata, members }
        },
        ItemParts::Plain => {
            let kind = item_kind(item);
            Declaration::plain(&kind)
        },
    }
}

fn convert_items(items: &Vec<syn::Item>) -> (r: Vec<Declaration>)
    ensures
        declaration_views(r@) == item_views(items@),
    decreases item_views(items@),
{
    let mut out: Vec<Declaration> = Vec::new();
    let mut k: usize = 0;
    while k < items.len()
        invariant
            k <= items.len(),
            out@.len() == k,
            forall|j: int| 0 <= j < k ==> (#[trigger] out@[j])@ == declaration_of(items@[j]),
        decreases items.len() - k,
    {
        proof {
            let all = item_views(items@);
            assert(all[k as int] == declaration_of(items@[k as int]));
            assert(decreases_to!(all => all[k as int]));
        }
        out.push(convert_item(&items[k]));
        k = k + 1;
    }
    assert(declaration_views(out@) =~= item_views(items@));
    out
}

/// Parses the text of a source file. The result is what the parser finds in
/// the text, `None` where the text is not well formed.
pub fn parse_source(text: &str) -> (r: Option<SourceTree>)
    ensures
        match r {
            Some(tree) => parsed_source(text@) == Some(tree@),
            None => parsed_source(text@) is None,
        },
{
    match parse_file(text) {
        Some(parts) => {
            let metadata = convert_attributes(&parts.attributes);
            let declarations = convert_items(&parts.items);
            Some(SourceTree { metadata, declarations })
        },
        None => None,
    }
}

} // verus!
