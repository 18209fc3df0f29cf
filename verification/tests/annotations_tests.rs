use ijevim::review::annotations::{
    add_annotation, annotation_id, annotations_for_file, annotations_to_json, escape_json,
    generate_annotation_id, parse_annotations_json, remove_annotation, toggle_resolved,
    unescape_json, AnnotationIds,
};
use ijevim::review::state::Annotation;

fn ann(id: &str, path: &str, line: usize, text: &str, resolved: bool, at: &str) -> Annotation {
    Annotation {
        id: id.to_string(),
        file_path: path.to_string(),
        line,
        text: text.to_string(),
        resolved,
        created_at: at.to_string(),
    }
}

#[test]
fn test_escape_roundtrip() {
    let original = r#"hello "world" and
newline and \ backslash"#;
    let escaped = escape_json(original);
    let unescaped = unescape_json(&escaped);
    assert_eq!(original, unescaped);
}

#[test]
fn test_annotations_json_roundtrip() {
    let anns = vec![
        Annotation {
            id: "ann-123".to_string(),
            file_path: "src/main.rs".to_string(),
            line: 42,
            text: "check null case".to_string(),
            resolved: false,
            created_at: "2026-06-08T12:00:00Z".to_string(),
        },
        Annotation {
            id: "ann-456".to_string(),
            file_path: "src/lib.rs".to_string(),
            line: 10,
            text: r#"needs "quotes" escaped"#.to_string(),
            resolved: true,
            created_at: "2026-06-08T13:00:00Z".to_string(),
        },
    ];

    let json = annotations_to_json(&anns);
    let parsed = parse_annotations_json(&json).unwrap();

    assert_eq!(parsed.len(), 2);
    assert_eq!(parsed[0].id, "ann-123");
    assert_eq!(parsed[0].file_path, "src/main.rs");
    assert_eq!(parsed[0].line, 42);
    assert!(!parsed[0].resolved);
    assert_eq!(parsed[1].text, r#"needs "quotes" escaped"#);
    assert!(parsed[1].resolved);
}

#[test]
fn test_parse_empty_json() {
    let parsed = parse_annotations_json(r#"{"version":1,"annotations":[]}"#).unwrap();
    assert!(parsed.is_empty());
}

#[test]
fn test_parse_no_annotations_key() {
    let parsed = parse_annotations_json(r#"{}"#).unwrap();
    assert!(parsed.is_empty());
}

#[test]
fn test_generate_id_unique() {
    let id1 = generate_annotation_id();
    let id2 = generate_annotation_id();
    assert_ne!(id1, id2);
}

#[test]
fn escape_json_exact_output() {
    assert_eq!(escape_json("a\"b\\c\nd\te\rf"), "a\\\"b\\\\c\\nd\\te\\rf");
    assert_eq!(unescape_json("x\\u0041\\/y\\n"), "x\\u0041\\/y\n");
}

#[test]
fn annotations_to_json_exact_text() {
    let anns = vec![ann("ann-1", "a.rs", 3, "hi", false, "t0")];
    let json = annotations_to_json(&anns);
    assert!(json.starts_with("{\n  \"version\": 1,\n  \"annotations\": [\n"));
    assert!(json.contains("\"id\": \"ann-1\""));
    assert!(json.contains("\"file_path\": \"a.rs\""));
    assert!(json.contains("\"line\": 3"));
    assert!(json.contains("\"resolved\": false"));
    assert!(json.ends_with("\"t0\"}\n  ]\n}\n"));
}

#[test]
fn parse_skips_objects_without_id() {
    let parsed = parse_annotations_json(
        r#"{"annotations":[{"file_path":"a.rs","line":1},{"id":"x","file_path":"b.rs","line":7,"text":"t","resolved":true,"created_at":"c"}]}"#,
    )
    .unwrap();
    assert_eq!(parsed.len(), 1);
    assert_eq!(parsed[0].id, "x");
    assert_eq!(parsed[0].file_path, "b.rs");
    assert_eq!(parsed[0].line, 7);
    assert!(parsed[0].resolved);
}

#[test]
fn annotation_list_operations() {
    let v = add_annotation(Vec::new(), ann("a", "x.rs", 1, "one", false, "t"));
    let v = add_annotation(v, ann("b", "y.rs", 2, "two", false, "t"));
    let v = add_annotation(v, ann("c", "x.rs", 3, "three", false, "t"));
    assert_eq!(v.len(), 3);
    let v = toggle_resolved(v, "b");
    assert!(v[1].resolved);
    assert!(!v[0].resolved);
    let for_x = annotations_for_file(&v, "x.rs");
    assert_eq!(for_x.len(), 2);
    assert_eq!(for_x[0].id, "a");
    assert_eq!(for_x[1].id, "c");
    let v = remove_annotation(v, "a");
    assert_eq!(v.len(), 2);
    assert_eq!(v[0].id, "b");
    let v = remove_annotation(v, "missing");
    assert_eq!(v.len(), 2);
}

#[test]
fn annotation_id_format() {
    assert_eq!(annotation_id(0), "ann-0");
    assert_eq!(annotation_id(1234567890123), "ann-1234567890123");
    assert!(generate_annotation_id().starts_with("ann-"));
}

#[test]
fn json_roundtrip_keeps_braces_quotes_and_backslashes() {
    let anns = vec![
        ann("ann-{1}", "dir/{x}.rs", 0, "a } b { \"c\" \\ d\n\te", true, "t\r"),
        ann("x", "", 18446744073709551615, "", false, ""),
    ];
    let parsed = parse_annotations_json(&annotations_to_json(&anns)).unwrap();
    assert_eq!(parsed.len(), 2);
    for (p, a) in parsed.iter().zip(anns.iter()) {
        assert_eq!(p.id, a.id);
        assert_eq!(p.file_path, a.file_path);
        assert_eq!(p.line, a.line);
        assert_eq!(p.text, a.text);
        assert_eq!(p.resolved, a.resolved);
        assert_eq!(p.created_at, a.created_at);
    }
    assert!(parse_annotations_json(&annotations_to_json(&[])).unwrap().is_empty());
}

#[test]
fn annotation_ids_are_distinct_and_growing() {
    let mut ids = AnnotationIds::new();
    let a = ids.next();
    let b = ids.next();
    let c = ids.next();
    assert_ne!(a, b);
    assert_ne!(b, c);
    let num = |s: &str| s.trim_start_matches("ann-").parse::<u128>().unwrap();
    assert!(num(&a) < num(&b) && num(&b) < num(&c));
    assert_eq!(AnnotationIds::next_number(Some(10), 5), 11);
    assert_eq!(AnnotationIds::next_number(Some(10), 20), 20);
    assert_eq!(AnnotationIds::next_number(None, 7), 7);
}
