use serde_json::Value;
use vscode_generator::{Snippet, SnippetBuilder, SnippetsFile};

fn lines(parts: &[&str]) -> Vec<String> {
    parts.iter().map(|p| p.to_string()).collect()
}

#[test]
fn round_trip_single_record() {
    let snippet = Snippet::builder()
        .set_prefix("fn")
        .set_body(lines(&["fn ${1:name}(${2:args}) {", "    ${0}", "}"]))
        .set_description("Create a new function")
        .set_scope("rust")
        .build()
        .unwrap();
    let key = snippet.name.clone();

    let file = SnippetsFile::new(vec![snippet]);
    let json = file.to_json().unwrap();
    let value: Value = serde_json::from_str(&json).unwrap();

    let top = value.as_object().unwrap();
    assert_eq!(top.len(), 1);
    let record = top.get(&key).unwrap().as_object().unwrap();
    assert_eq!(record.get("prefix").unwrap(), "fn");
    let body = record.get("body").unwrap().as_array().unwrap();
    assert_eq!(body.len(), 3);
    assert_eq!(body[0], "fn ${1:name}(${2:args}) {");
    assert_eq!(body[1], "    ${0}");
    assert_eq!(body[2], "}");
    assert_eq!(record.get("description").unwrap(), "Create a new function");
    assert_eq!(record.get("scope").unwrap(), "rust");
    assert!(record.get("is_file_template").is_none());
    assert!(record.get("priority").is_none());
    assert_eq!(record.len(), 4);
}

#[test]
fn omitted_fields_leave_no_members() {
    let snippet = Snippet::new("fn", lines(&["body line"]));
    let json = snippet.to_json().unwrap();
    let value: Value = serde_json::from_str(&json).unwrap();
    let record = value.as_object().unwrap();
    assert_eq!(record.len(), 2);
    assert!(record.contains_key("prefix"));
    assert!(record.contains_key("body"));
}

#[test]
fn optional_fields_serialize_when_set() {
    let snippet = Snippet::builder()
        .set_prefix("tmpl")
        .add_line("x")
        .set_description("a template")
        .set_scope("rust")
        .set_is_file_template(true)
        .set_priority(12)
        .build()
        .unwrap();
    let json = snippet.to_json().unwrap();
    let value: Value = serde_json::from_str(&json).unwrap();
    let record = value.as_object().unwrap();
    assert_eq!(record.get("prefix").unwrap(), "tmpl");
    assert_eq!(record.get("description").unwrap(), "a template");
    assert_eq!(record.get("scope").unwrap(), "rust");
    assert_eq!(record.get("is_file_template").unwrap(), true);
    assert_eq!(record.get("priority").unwrap(), 12);
    assert_eq!(record.len(), 6);
}

#[test]
fn string_escaping_survives_a_parse() {
    let tricky = "quote \" backslash \\ newline \n tab \t cr \r bell \u{7} form \u{c} back \u{8} unicode é 中";
    let snippet = Snippet::builder()
        .set_prefix("weird \"prefix\"")
        .add_line(tricky)
        .set_description("desc with \\ and \"")
        .build()
        .unwrap();
    let json = snippet.to_json().unwrap();
    let value: Value = serde_json::from_str(&json).unwrap();
    let record = value.as_object().unwrap();
    assert_eq!(record.get("prefix").unwrap(), "weird \"prefix\"");
    assert_eq!(record.get("body").unwrap().as_array().unwrap()[0], tricky);
    assert_eq!(record.get("description").unwrap(), "desc with \\ and \"");
}

#[test]
fn priority_zero_and_large_values() {
    let snippet = Snippet::builder()
        .set_prefix("p")
        .add_line("x")
        .set_priority(0)
        .build()
        .unwrap();
    let json = snippet.to_json().unwrap();
    let value: Value = serde_json::from_str(&json).unwrap();
    assert_eq!(value.get("priority").unwrap(), 0);

    let snippet = Snippet::builder()
        .set_prefix("p")
        .add_line("x")
        .set_priority(u32::MAX)
        .build()
        .unwrap();
    let json = snippet.to_json().unwrap();
    let value: Value = serde_json::from_str(&json).unwrap();
    assert_eq!(value.get("priority").unwrap(), u32::MAX);
}

#[test]
fn empty_collection_serializes_to_an_empty_object() {
    let file = SnippetsFile::new(vec![]);
    let json = file.to_json().unwrap();
    let value: Value = serde_json::from_str(&json).unwrap();
    assert_eq!(value.as_object().unwrap().len(), 0);
}

#[test]
fn keys_of_the_document_are_the_snippet_names() {
    let a = SnippetBuilder::new()
        .set_name("alpha")
        .set_prefix("a")
        .add_line("1")
        .build()
        .unwrap();
    let b = SnippetBuilder::new()
        .set_name("beta")
        .set_prefix("b")
        .add_line("2")
        .build()
        .unwrap();
    let file = SnippetsFile::new(vec![a, b]);
    let json = file.to_json().unwrap();
    let value: Value = serde_json::from_str(&json).unwrap();
    let top = value.as_object().unwrap();
    assert_eq!(top.len(), 2);
    assert_eq!(top.get("alpha").unwrap().get("prefix").unwrap(), "a");
    assert_eq!(top.get("beta").unwrap().get("prefix").unwrap(), "b");
    // The name appears only as the enclosing property name.
    assert!(top.get("alpha").unwrap().get("name").is_none());
}
