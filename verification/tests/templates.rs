use vscode_generator::Snippet;

fn lines(parts: &[&str]) -> Vec<String> {
    parts.iter().map(|p| p.to_string()).collect()
}

#[test]
fn text_template() {
    let snippet = Snippet::text("hello", "println!(\"Hello, world!\");")
        .set_description("Prints 'Hello, world!'")
        .build()
        .unwrap();
    assert_eq!(snippet.prefix, "hello");
    assert_eq!(snippet.body, lines(&["println!(\"Hello, world!\");"]));
    assert_eq!(snippet.description.as_deref(), Some("Prints 'Hello, world!'"));
    assert_eq!(snippet.scope, None);
}

#[test]
fn todo_comment_template_with_default_marker() {
    let snippet = Snippet::todo_comment("todo", "TODO", None).build().unwrap();
    assert_eq!(snippet.prefix, "todo");
    assert_eq!(snippet.body, lines(&["// TODO: ${1:...}"]));
}

#[test]
fn todo_comment_template_with_custom_marker() {
    let snippet = Snippet::todo_comment("note", "NOTE", Some("#")).build().unwrap();
    assert_eq!(snippet.body, lines(&["# NOTE: ${1:...}"]));
}

#[test]
fn fn_alias_template() {
    let snippet = Snippet::fn_alias("pr", "println!").build().unwrap();
    assert_eq!(snippet.prefix, "pr");
    assert_eq!(snippet.body, lines(&["println!()"]));
    assert_eq!(snippet.scope, None);
}

#[test]
fn rust_text_template_is_scoped() {
    let snippet = Snippet::rust_text("hw", "println!(\"Hello\")").build().unwrap();
    assert_eq!(snippet.body, lines(&["println!(\"Hello\")"]));
    assert_eq!(snippet.scope.as_deref(), Some("rust"));
}

#[test]
fn rust_todo_comment_template_is_scoped() {
    let snippet = Snippet::rust_todo_comment("/TODO", "TODO", None).build().unwrap();
    assert_eq!(snippet.body, lines(&["// TODO: ${1:...}"]));
    assert_eq!(snippet.scope.as_deref(), Some("rust"));
}

#[test]
fn rust_fn_alias_template_is_scoped() {
    let snippet = Snippet::rust_fn_alias(".unwrap", ".unwrap").build().unwrap();
    assert_eq!(snippet.body, lines(&[".unwrap()"]));
    assert_eq!(snippet.scope.as_deref(), Some("rust"));
}

#[test]
fn rust_macro_alias_template_with_default_braces() {
    let snippet = Snippet::rust_macro_alias("fmt", "format", None)
        .set_description("format! macro")
        .build()
        .unwrap();
    assert_eq!(snippet.body, lines(&["format!(\"${1:args}\")"]));
    assert_eq!(snippet.scope.as_deref(), Some("rust"));
}

#[test]
fn rust_macro_alias_template_with_custom_braces() {
    let snippet = Snippet::rust_macro_alias("map!", "map", Some((" {", "}"))).build().unwrap();
    assert_eq!(snippet.body, lines(&["map! {\"${1:args}\"}"]));
}

#[test]
fn rust_attr_template_joins_arguments() {
    let snippet = Snippet::rust_attr("der", "derive", vec!["Debug", "Clone"])
        .set_description("Common derive attributes")
        .build()
        .unwrap();
    assert_eq!(snippet.body, lines(&["#[derive(${1:Debug|Clone})]"]));
    assert_eq!(snippet.scope.as_deref(), Some("rust"));
}

#[test]
fn rust_attr_template_with_one_and_zero_arguments() {
    let snippet = Snippet::rust_attr("cfg", "cfg", vec!["test"]).build().unwrap();
    assert_eq!(snippet.body, lines(&["#[cfg(${1:test})]"]));
    let snippet = Snippet::rust_attr("any", "any", vec![]).build().unwrap();
    assert_eq!(snippet.body, lines(&["#[any(${1:})]"]));
}
