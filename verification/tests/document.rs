use edge_copilot_helper::codec::parse_document;
use edge_copilot_helper::document::{find_member, ConfigDocument};
use edge_copilot_helper::patcher::{patch_variations_country, set_chat_ip_eligibility_status};

fn text(s: &str) -> ConfigDocument {
    ConfigDocument::String(s.to_string())
}

fn member(key: &str, value: ConfigDocument) -> (String, ConfigDocument) {
    (key.to_string(), value)
}

#[test]
fn objects_are_built_member_by_member() {
    let mut doc = ConfigDocument::empty_object();
    assert_eq!(doc, ConfigDocument::Object(vec![]));
    assert!(doc.set_member("a", text("1")));
    assert!(doc.set_member("b", ConfigDocument::Bool(true)));
    assert!(doc.set_member("a", text("2")));
    assert_eq!(
        doc,
        ConfigDocument::Object(vec![
            member("a", text("2")),
            member("b", ConfigDocument::Bool(true)),
        ])
    );
    assert!(doc.is_wf());
}

#[test]
fn set_member_leaves_what_is_no_object() {
    let mut doc = ConfigDocument::Array(vec![text("x")]);
    assert!(!doc.set_member("a", text("1")));
    assert_eq!(doc, ConfigDocument::Array(vec![text("x")]));
}

#[test]
fn the_invariant_is_checked_at_every_depth() {
    assert!(ConfigDocument::Null.is_wf());
    assert!(text("a").is_wf());
    assert!(ConfigDocument::Array(vec![]).is_wf());
    let twice = ConfigDocument::Object(vec![member("a", text("1")), member("a", text("2"))]);
    assert!(!twice.is_wf());
    let once = ConfigDocument::Object(vec![member("a", text("1")), member("b", text("1"))]);
    assert!(once.is_wf());
    assert!(!ConfigDocument::Array(vec![once.clone(), twice.clone()]).is_wf());
    assert!(ConfigDocument::Array(vec![once.clone(), once.clone()]).is_wf());
    let hidden = ConfigDocument::Object(vec![member("deep", ConfigDocument::Array(vec![twice]))]);
    assert!(!hidden.is_wf());
    assert!(ConfigDocument::Object(vec![member("deep", once)]).is_wf());
}

#[test]
fn parsed_and_patched_documents_keep_the_invariant() {
    let mut doc = parse_document(r#"{"a":{"b":[{"c":1,"d":2}]},"a":3,"e":{"e":{"e":null}}}"#)
        .expect("valid JSON");
    assert!(doc.is_wf());
    assert!(patch_variations_country(&mut doc));
    assert!(set_chat_ip_eligibility_status(&mut doc));
    assert!(doc.is_wf());
}

#[test]
fn members_are_found_by_key() {
    let members = vec![
        member("a", text("1")),
        member("b", text("2")),
        member("c", text("3")),
    ];
    assert_eq!(find_member(&members, &"a".to_string()), Some(0));
    assert_eq!(find_member(&members, &"c".to_string()), Some(2));
    assert_eq!(find_member(&members, &"d".to_string()), None);
    assert_eq!(find_member(&vec![], &"a".to_string()), None);
}

#[test]
fn a_copy_equals_the_document() {
    let doc = ConfigDocument::Object(vec![
        member("n", ConfigDocument::Number(serde_json::Number::from(-3))),
        member(
            "list",
            ConfigDocument::Array(vec![
                ConfigDocument::Null,
                text("x"),
                ConfigDocument::Bool(false),
            ]),
        ),
        member("o", ConfigDocument::Object(vec![member("k", text("v"))])),
    ]);
    assert_eq!(doc.clone(), doc);
}
