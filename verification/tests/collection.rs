use vscode_generator::{SnippetBuilder, SnippetsFile};

fn lines(parts: &[&str]) -> Vec<String> {
    parts.iter().map(|p| p.to_string()).collect()
}

#[test]
fn distinct_names_make_two_entries() {
    let a = SnippetBuilder::new()
        .set_name("one")
        .set_prefix("a")
        .set_body(lines(&["1"]))
        .build()
        .unwrap();
    let b = SnippetBuilder::new()
        .set_name("two")
        .set_prefix("b")
        .set_body(lines(&["2"]))
        .build()
        .unwrap();
    let mut file = SnippetsFile::new(vec![]);
    file.add_snippet(a);
    file.add_snippet(b);
    assert_eq!(file.len(), 2);
}

#[test]
fn shared_name_keeps_the_second_record() {
    let first = SnippetBuilder::new()
        .set_name("shared")
        .set_prefix("first")
        .set_body(lines(&["1"]))
        .build()
        .unwrap();
    let second = SnippetBuilder::new()
        .set_name("shared")
        .set_prefix("second")
        .set_body(lines(&["2"]))
        .build()
        .unwrap();
    let mut file = SnippetsFile::new(vec![]);
    file.add_snippet(first);
    file.add_snippet(second);
    assert_eq!(file.len(), 1);
    let stored = file.get(&"shared".to_string()).unwrap();
    assert_eq!(stored.prefix, "second");
}

#[test]
fn default_names_from_the_generator_do_not_collide() {
    let a = SnippetBuilder::new().set_prefix("a").add_line("1").build().unwrap();
    let b = SnippetBuilder::new().set_prefix("b").add_line("2").build().unwrap();
    let mut file = SnippetsFile::new(vec![]);
    file.add_snippet(a);
    file.add_snippet(b);
    assert_eq!(file.len(), 2);
}

#[test]
fn new_inserts_the_initial_batch_in_order() {
    let first = SnippetBuilder::new()
        .set_name("dup")
        .set_prefix("first")
        .add_line("1")
        .build()
        .unwrap();
    let other = SnippetBuilder::new()
        .set_name("other")
        .set_prefix("o")
        .add_line("3")
        .build()
        .unwrap();
    let second = SnippetBuilder::new()
        .set_name("dup")
        .set_prefix("second")
        .add_line("2")
        .build()
        .unwrap();
    let file = SnippetsFile::new(vec![first, other, second]);
    assert_eq!(file.len(), 2);
    assert_eq!(file.get(&"dup".to_string()).unwrap().prefix, "second");
    assert_eq!(file.get(&"other".to_string()).unwrap().prefix, "o");
}

#[test]
fn add_snippets_extends_the_collection() {
    let mut file = SnippetsFile::new(vec![]);
    file.add_snippets(vec![
        SnippetBuilder::new().set_name("a").set_prefix("a").add_line("1").build().unwrap(),
        SnippetBuilder::new().set_name("b").set_prefix("b").add_line("2").build().unwrap(),
    ]);
    file.add_snippets(vec![
        SnippetBuilder::new().set_name("b").set_prefix("bb").add_line("2").build().unwrap(),
        SnippetBuilder::new().set_name("c").set_prefix("c").add_line("3").build().unwrap(),
    ]);
    assert_eq!(file.len(), 3);
    assert_eq!(file.get(&"b".to_string()).unwrap().prefix, "bb");
}

#[test]
fn get_misses_absent_names() {
    let file = SnippetsFile::new(vec![]);
    assert!(file.get(&"missing".to_string()).is_none());
}

#[test]
fn snippets_accessor_exposes_the_records() {
    let a = SnippetBuilder::new().set_name("a").set_prefix("p").add_line("1").build().unwrap();
    let file = SnippetsFile::new(vec![a]);
    let stored = file.snippets();
    assert_eq!(stored.len(), 1);
    assert_eq!(stored[0].name, "a");
}
