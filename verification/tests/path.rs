use mdbook_rust_doc::{PathError, RustPath};

fn path(segments: &[&str]) -> RustPath {
    RustPath {
        head: segments[0].to_string(),
        tail: if segments.len() > 1 {
            Some(segments[1..].iter().map(|s| s.to_string()).collect())
        } else {
            None
        },
    }
}

#[test]
fn test_single() {
    assert_eq!(
        RustPath::from_str("one").unwrap(),
        RustPath {
            head: "one".to_string(),
            tail: None
        }
    );
}

#[test]
fn test_double() {
    assert_eq!(
        RustPath::from_str("one::two").unwrap(),
        RustPath {
            head: "one".to_string(),
            tail: Some(vec!["two".to_string()])
        }
    );
}

#[test]
fn test_triple() {
    assert_eq!(
        RustPath::from_str("one::two::three").unwrap(),
        RustPath {
            head: "one".to_string(),
            tail: Some(vec!["two".to_string(), "three".to_string()])
        }
    );
}

#[test]
fn test_tuple_indexes() {
    assert_eq!(
        RustPath::from_str("a_tuple::0").unwrap(),
        RustPath {
            head: "a_tuple".to_string(),
            tail: Some(vec!["0".to_string()])
        }
    );
}

#[test]
fn test_failure_1() {
    assert_eq!(
        RustPath::from_str("test_crate::crustaceans::CookedCrab::0").unwrap(),
        RustPath {
            head: "test_crate".to_string(),
            tail: Some(vec![
                "crustaceans".to_string(),
                "CookedCrab".to_string(),
                "0".to_string(),
            ])
        }
    );
}

#[test]
fn empty_text_is_refused() {
    assert_eq!(RustPath::from_str(""), Err(PathError::Empty));
}

#[test]
fn segments_are_not_checked() {
    assert_eq!(RustPath::from_str("0").unwrap(), path(&["0"]));
    assert_eq!(RustPath::from_str("a b::c-d").unwrap(), path(&["a b", "c-d"]));
    assert_eq!(RustPath::from_str("grüße::日本").unwrap(), path(&["grüße", "日本"]));
}

#[test]
fn separators_are_found_from_the_left() {
    assert_eq!(RustPath::from_str("::").unwrap(), path(&["", ""]));
    assert_eq!(RustPath::from_str("a::").unwrap(), path(&["a", ""]));
    assert_eq!(RustPath::from_str("::a").unwrap(), path(&["", "a"]));
    assert_eq!(RustPath::from_str("a:::b").unwrap(), path(&["a", ":b"]));
    assert_eq!(RustPath::from_str("a::::b").unwrap(), path(&["a", "", "b"]));
    assert_eq!(RustPath::from_str("a:b").unwrap(), path(&["a:b"]));
    assert_eq!(RustPath::from_str(":").unwrap(), path(&[":"]));
}

#[test]
fn printing_gives_the_parsed_text_back() {
    for text in [
        "one",
        "one::two",
        "one::two::three",
        "a_tuple::0",
        "::",
        "a::",
        "::a",
        "a:::b",
        "a::::b",
        ":",
        "grüße::日本::x",
    ] {
        assert_eq!(RustPath::from_str(text).unwrap().to_string(), text);
    }
}

#[test]
fn printing_joins_the_segments() {
    assert_eq!(path(&["one"]).to_string(), "one");
    assert_eq!(path(&["one", "two", "three"]).to_string(), "one::two::three");
}

#[test]
fn head_and_tail() {
    let one = path(&["one"]);
    assert_eq!(one.head_tail(), ("one", None));
    let two = path(&["one", "two"]);
    assert_eq!(two.head_tail(), ("one", Some(path(&["two"]))));
    let three = path(&["one", "two", "three"]);
    assert_eq!(three.head_tail(), ("one", Some(path(&["two", "three"]))));
    let four = path(&["a", "b", "c", "d"]);
    assert_eq!(four.head_tail(), ("a", Some(path(&["b", "c", "d"]))));
}

#[test]
fn an_empty_tail_counts_as_none() {
    let odd = RustPath {
        head: "one".to_string(),
        tail: Some(vec![]),
    };
    assert_eq!(odd.head_tail(), ("one", None));
    assert_eq!(odd.to_segments(), vec!["one".to_string()]);
}

#[test]
fn head_and_tail_rejoin_to_the_text() {
    for text in ["one::two", "one::two::three", "a::::b", "x::0::1::2"] {
        let parsed = RustPath::from_str(text).unwrap();
        let (head, tail) = parsed.head_tail();
        let tail = tail.unwrap();
        assert_eq!(format!("{}::{}", head, tail.to_string()), text);
    }
}

#[test]
fn segments_in_order() {
    assert_eq!(
        RustPath::from_str("a::b::c").unwrap().to_segments(),
        vec!["a".to_string(), "b".to_string(), "c".to_string()]
    );
}
