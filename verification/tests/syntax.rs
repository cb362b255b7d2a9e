use mdbook_rust_doc::syntax::parse_source;
use mdbook_rust_doc::tree::{
    passed_over, type_has_name, Declaration, ItemKind, Member, Metadata, RecordField,
    RecordFields, SourceTree, TypeExpr, UnionVariant,
};

fn doc(text: &str) -> Metadata {
    Metadata {
        name: Some("doc".to_string()),
        text: Some(text.to_string()),
    }
}

fn marker(name: &str) -> Metadata {
    Metadata {
        name: Some(name.to_string()),
        text: None,
    }
}

fn field(name: &str, metadata: Vec<Metadata>) -> RecordField {
    RecordField {
        name: Some(name.to_string()),
        metadata,
    }
}

fn slot(metadata: Vec<Metadata>) -> RecordField {
    RecordField {
        name: None,
        metadata,
    }
}

fn member(name: &str, metadata: Vec<Metadata>) -> Member {
    Member {
        name: Some(name.to_string()),
        metadata,
    }
}

fn declarations(text: &str) -> Vec<Declaration> {
    parse_source(text).unwrap().declarations
}

#[test]
fn text_that_is_not_well_formed() {
    assert_eq!(parse_source("pub struct {"), None);
    assert_eq!(parse_source("mod"), None);
    assert_eq!(parse_source("this is prose"), None);
}

#[test]
fn an_empty_text() {
    assert_eq!(
        parse_source(""),
        Some(SourceTree {
            metadata: vec![],
            declarations: vec![]
        })
    );
}

#[test]
fn the_metadata_of_a_file() {
    let tree = parse_source("//! First line.\n//! Second line.\n#![allow(dead_code)]\n").unwrap();
    assert_eq!(
        tree.metadata,
        vec![doc(" First line."), doc(" Second line."), marker("allow")]
    );
    assert_eq!(tree.declarations, vec![]);
}

#[test]
fn the_forms_of_metadata() {
    let found = declarations(
        "/// line\n/** block */\n#[doc = \"written \\\"out\\\"\"]\n#[doc(hidden)]\n#[derive(Debug)]\n#[cfg_attr(test, allow(unused))]\n#[path = \"p.rs\"]\n#[doc = 3]\n#[a::b]\n#[a::b = \"c\"]\nstruct S;",
    );
    assert_eq!(
        found,
        vec![Declaration::Record {
            name: "S".to_string(),
            metadata: vec![
                doc(" line"),
                doc(" block "),
                doc("written \"out\""),
                marker("doc"),
                marker("derive"),
                marker("cfg_attr"),
                Metadata {
                    name: Some("path".to_string()),
                    text: Some("p.rs".to_string())
                },
                marker("doc"),
                Metadata {
                    name: None,
                    text: None
                },
                Metadata {
                    name: None,
                    text: Some("c".to_string())
                },
            ],
            fields: RecordFields::Unit,
        }]
    );
}

#[test]
fn records() {
    let found = declarations(
        "/// Named.\npub struct A {\n    /// One.\n    pub one: u8,\n    two: String,\n}\n/// Positional.\nstruct B(\n    /// First.\n    u8,\n    #[allow(x)] String,\n);\nstruct C;\nstruct D {}\nstruct E();\n",
    );
    assert_eq!(
        found,
        vec![
            Declaration::Record {
                name: "A".to_string(),
                metadata: vec![doc(" Named.")],
                fields: RecordFields::Named(vec![field("one", vec![doc(" One.")]), field("two", vec![])]),
            },
            Declaration::Record {
                name: "B".to_string(),
                metadata: vec![doc(" Positional.")],
                fields: RecordFields::Positional(vec![
                    slot(vec![doc(" First.")]),
                    slot(vec![marker("allow")])
                ]),
            },
            Declaration::Record {
                name: "C".to_string(),
                metadata: vec![],
                fields: RecordFields::Unit,
            },
            Declaration::Record {
                name: "D".to_string(),
                metadata: vec![],
                fields: RecordFields::Named(vec![]),
            },
            Declaration::Record {
                name: "E".to_string(),
                metadata: vec![],
                fields: RecordFields::Positional(vec![]),
            },
        ]
    );
}

#[test]
fn tagged_unions() {
    let found = declarations(
        "/// Colors.\nenum Color {\n    /// Plain.\n    Plain,\n    /// Mixed.\n    Mixed {\n        /// More.\n        primary: u8,\n    },\n    Red(\n        /// How red.\n        String,\n    ),\n    Numbered = 7,\n}\nenum Never {}\n",
    );
    assert_eq!(
        found,
        vec![
            Declaration::TaggedUnion {
                name: "Color".to_string(),
                metadata: vec![doc(" Colors.")],
                variants: vec![
                    UnionVariant {
                        name: "Plain".to_string(),
                        metadata: vec![doc(" Plain.")],
                        fields: RecordFields::Unit,
                    },
                    UnionVariant {
                        name: "Mixed".to_string(),
                        metadata: vec![doc(" Mixed.")],
                        fields: RecordFields::Named(vec![field("primary", vec![doc(" More.")])]),
                    },
                    UnionVariant {
                        name: "Red".to_string(),
                        metadata: vec![],
                        fields: RecordFields::Positional(vec![slot(vec![doc(" How red.")])]),
                    },
                    UnionVariant {
                        name: "Numbered".to_string(),
                        metadata: vec![],
                        fields: RecordFields::Unit,
                    },
                ],
            },
            Declaration::TaggedUnion {
                name: "Never".to_string(),
                metadata: vec![],
                variants: vec![],
            },
        ]
    );
}

#[test]
fn implementation_blocks() {
    let found = declarations(
        "/// Block.\nimpl Color {\n    /// A constant.\n    const C: u8 = 1;\n    /// A method.\n    pub fn m(&self) {}\n    /// A type.\n    type T = u8;\n    some_macro!();\n    /// Made.\n    make_more!();\n}\n",
    );
    assert_eq!(
        found,
        vec![Declaration::Implementation {
            target: TypeExpr::Path(vec!["Color".to_string()]),
            metadata: vec![doc(" Block.")],
            members: vec![
                member("C", vec![doc(" A constant.")]),
                member("m", vec![doc(" A method.")]),
                member("T", vec![doc(" A type.")]),
                Member {
                    name: None,
                    metadata: vec![]
                },
                Member {
                    name: None,
                    metadata: vec![doc(" Made.")]
                },
            ],
        }]
    );
}

fn target_of(text: &str) -> TypeExpr {
    match declarations(text).pop() {
        Some(Declaration::Implementation { target, .. }) => target,
        other => panic!("no implementation block: {:?}", other),
    }
}

fn reference(inner: TypeExpr) -> TypeExpr {
    TypeExpr::Reference(Box::new(inner))
}

fn path(segments: &[&str]) -> TypeExpr {
    TypeExpr::Path(segments.iter().map(|s| s.to_string()).collect())
}

#[test]
fn the_type_of_an_implementation_block() {
    assert_eq!(target_of("impl Color {}"), path(&["Color"]));
    assert_eq!(target_of("impl crate::colors::Color {}"), path(&["crate", "colors", "Color"]));
    assert_eq!(target_of("impl ::colors::Color {}"), path(&["colors", "Color"]));
    assert_eq!(target_of("impl<T> Color<T> {}"), path(&["Color"]));
    assert_eq!(target_of("impl<T> colors::Color<T>::Shade {}"), path(&["colors", "Color", "Shade"]));
    assert_eq!(target_of("impl Display for Color {}"), path(&["Color"]));
    assert_eq!(target_of("impl<'a> Show for &'a Color {}"), reference(path(&["Color"])));
    assert_eq!(
        target_of("impl Show for &&mut a::Color {}"),
        reference(reference(path(&["a", "Color"])))
    );
    assert_eq!(target_of("impl Show for (A, B) {}"), TypeExpr::Other);
    assert_eq!(target_of("impl Show for (Color) {}"), TypeExpr::Other);
    assert_eq!(target_of("impl Show for [Color] {}"), TypeExpr::Other);
    assert_eq!(target_of("impl Show for &[Color] {}"), reference(TypeExpr::Other));
    assert_eq!(target_of("impl Show for *const Color {}"), TypeExpr::Other);
    assert_eq!(target_of("impl Show for Box<Color> {}"), path(&["Box"]));
}

#[test]
fn the_name_of_a_type() {
    let color = "Color".to_string();
    let other = "Colour".to_string();
    let colors = "colors".to_string();
    assert!(type_has_name(&path(&["Color"]), &color));
    assert!(!type_has_name(&path(&["Color"]), &other));
    assert!(type_has_name(&path(&["crate", "colors", "Color"]), &color));
    assert!(!type_has_name(&path(&["crate", "colors", "Color"]), &colors));
    assert!(!type_has_name(&path(&["Color", "colors"]), &color));
    assert!(!type_has_name(&path(&[]), &color));
    let twice = reference(reference(path(&["a", "Color"])));
    assert!(type_has_name(&twice, &color));
    assert!(!type_has_name(&twice, &other));
    assert!(!type_has_name(&TypeExpr::Other, &color));
    assert!(!type_has_name(&reference(TypeExpr::Other), &color));
}

#[test]
fn modules() {
    let found = declarations(
        "/// Inline.\nmod a {\n    //! Inside.\n    /// Deep.\n    pub mod b {\n        struct S;\n    }\n    mod c;\n}\n/// Elsewhere.\npub mod d;\nmod e {}\n",
    );
    assert_eq!(
        found,
        vec![
            Declaration::Module {
                name: "a".to_string(),
                metadata: vec![doc(" Inline."), doc(" Inside.")],
                body: Some(vec![
                    Declaration::Module {
                        name: "b".to_string(),
                        metadata: vec![doc(" Deep.")],
                        body: Some(vec![Declaration::Record {
                            name: "S".to_string(),
                            metadata: vec![],
                            fields: RecordFields::Unit,
                        }]),
                    },
                    Declaration::Module {
                        name: "c".to_string(),
                        metadata: vec![],
                        body: None,
                    },
                ]),
            },
            Declaration::Module {
                name: "d".to_string(),
                metadata: vec![doc(" Elsewhere.")],
                body: None,
            },
            Declaration::Module {
                name: "e".to_string(),
                metadata: vec![],
                body: Some(vec![]),
            },
        ]
    );
}

#[test]
fn declarations_that_are_passed_over() {
    assert_eq!(
        declarations("use std::fmt;\nextern crate alloc;\nextern \"C\" {\n    fn f();\n}\n"),
        vec![Declaration::Skipped, Declaration::Skipped, Declaration::Skipped]
    );
}

#[test]
fn declarations_of_other_kinds() {
    assert_eq!(
        declarations(
            "const A: u8 = 1;\nfn f() {}\nsome_macro!();\nstatic S: u8 = 1;\ntrait T {}\ntrait U = T;\ntype V = u8;\nunion W { a: u8 }\nmacro_rules! m { () => {} }\n"
        ),
        vec![
            Declaration::Unsupported,
            Declaration::Unsupported,
            Declaration::Unsupported,
            Declaration::Unsupported,
            Declaration::Unsupported,
            Declaration::Unsupported,
            Declaration::Unsupported,
            Declaration::Unsupported,
            Declaration::Unsupported,
        ]
    );
}

#[test]
fn raw_names_keep_their_mark() {
    assert_eq!(
        declarations("struct r#type { r#fn: u8 }"),
        vec![Declaration::Record {
            name: "r#type".to_string(),
            metadata: vec![],
            fields: RecordFields::Named(vec![field("r#fn", vec![])]),
        }]
    );
}

#[test]
fn texts_with_odd_literals() {
    for text in [
        "#[doc = \"\\q\"]\nstruct S;",
        "#[doc = \"\\x80\"]\nstruct S;",
        "#[doc = \"\\u{110000}\"]\nstruct S;",
        "#[doc = \"\\u{d800}\"]\nstruct S;",
        "#[doc = \"open]\nstruct S;",
        "#[doc = 'c']\nstruct S",
    ] {
        assert_eq!(parse_source(text), None, "{}", text);
    }
    let found = declarations(
        "#[doc = r#\"raw \"text\"\"#]\n#[doc = \"line\\\n    folded\"]\n#[doc = \"tab\\there \\u{e9}\"]\n#[doc = b\"bytes\"]\n#[doc = c\"c string\"]\n#[doc = 'c']\n#[doc = \"suffixed\"suffix]\nstruct S;",
    );
    assert_eq!(
        found,
        vec![Declaration::Record {
            name: "S".to_string(),
            metadata: vec![
                doc("raw \"text\""),
                doc("linefolded"),
                doc("tab\there \u{e9}"),
                marker("doc"),
                marker("doc"),
                marker("doc"),
                doc("suffixed"),
            ],
            fields: RecordFields::Unit,
        }]
    );
}

#[test]
fn a_mark_and_a_first_line_before_the_code() {
    let tree = parse_source("\u{feff}#!/usr/bin/env run\n//! Documented.\nstruct S;").unwrap();
    assert_eq!(tree.metadata, vec![doc(" Documented.")]);
    assert_eq!(tree.declarations.len(), 1);
}

#[test]
fn the_kinds_that_a_search_passes_over() {
    for kind in [ItemKind::Import, ItemKind::ForeignModule, ItemKind::ExternCrate] {
        assert!(passed_over(&kind), "{:?}", kind);
        assert_eq!(Declaration::plain(&kind), Declaration::Skipped, "{:?}", kind);
    }
}

#[test]
fn the_kinds_that_end_a_search() {
    for kind in [
        ItemKind::Constant,
        ItemKind::Function,
        ItemKind::MacroInvocation,
        ItemKind::Static,
        ItemKind::Trait,
        ItemKind::TraitAlias,
        ItemKind::TypeAlias,
        ItemKind::Union,
        ItemKind::Other,
    ] {
        assert!(!passed_over(&kind), "{:?}", kind);
        assert_eq!(Declaration::plain(&kind), Declaration::Unsupported, "{:?}", kind);
    }
}

#[test]
fn each_kind_of_declaration_alone() {
    for text in ["use std::fmt;", "extern crate alloc;", "extern \"C\" {}"] {
        assert_eq!(declarations(text), vec![Declaration::Skipped], "{}", text);
    }
    for text in [
        "const A: u8 = 1;",
        "fn f() {}",
        "some_macro!();",
        "macro_rules! m { () => {} }",
        "static S: u8 = 1;",
        "trait T {}",
        "trait U = T;",
        "type V = u8;",
        "union W { a: u8 }",
    ] {
        assert_eq!(declarations(text), vec![Declaration::Unsupported], "{}", text);
    }
}
