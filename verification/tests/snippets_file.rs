use vscode_generator::{Error, Snippet, SnippetsFile};

fn lines(parts: &[&str]) -> Vec<String> {
    parts.iter().map(|p| p.to_string()).collect()
}

#[test]
fn test_snippets() -> Result<(), Error> {
    // create snippets:
    let snippet = Snippet::builder()
        .set_prefix("fn")
        .set_body(lines(&[
            "fn ${1:name}(${2:args}) ${3:-> ReturnType }{",
            "    ${0}",
            "}",
        ]))
        .set_description("Create a new function")
        .set_scope("rust")
        .build()?;

    // collect and serialize the snippets (writing the document to a user's
    // snippets folder is the caller's job):
    let snippets_file = SnippetsFile::new(vec![snippet]);
    snippets_file.to_json().unwrap();

    Ok(())
}
