//! The snippet record: an immutable, validated VS Code snippet definition and
//! its serialization to the editor's JSON value object.

use vstd::prelude::*;
use vstd::string::*;
use super::snippet_builder::{generated_name, SnippetBuilder};
use crate::error::Error;
use crate::json::{append_decimal, append_quoted, dec_digits, push_char, quoted};

verus! {

/// The mathematical model of a snippet record: every field as a plain
/// sequence value.
pub struct SnippetView {
    pub name: Seq<char>,
    pub prefix: Seq<char>,
    pub body: Seq<Seq<char>>,
    pub description: Option<Seq<char>>,
    pub scope: Option<Seq<char>>,
    pub is_file_template: Option<bool>,
    pub priority: Option<u32>,
}

/// The sequence of line contents held by a sequence of strings.
pub open spec fn lines_view(lines: Seq<String>) -> Seq<Seq<char>> {
    Seq::new(lines.len(), |i: int| lines[i]@)
}

/// A VS Code snippet: a named record of trigger text (`prefix`), body lines,
/// and optional metadata. The `name` is the key under which the record is
/// stored in a snippets file; it is not part of the serialized value object.
#[derive(Debug, Clone, PartialEq)]
pub struct Snippet {
    /// Unique identifier for the snippet (not serialized).
    pub name: String,
    /// The trigger text for the snippet.
    pub prefix: String,
    /// The actual content of the snippet, one string per emitted line.
    pub body: Vec<String>,
    /// Optional description of what the snippet does.
    pub description: Option<String>,
    /// Optional language scope (e.g., "rust").
    pub scope: Option<String>,
    /// Optional flag for file templates.
    pub is_file_template: Option<bool>,
    /// Optional priority in the suggestion list.
    pub priority: Option<u32>,
}

impl View for Snippet {
    type V = SnippetView;

    open spec fn view(&self) -> SnippetView {
        SnippetView {
            name: self.name@,
            prefix: self.prefix@,
            body: lines_view(self.body@),
            description: match self.description {
                Some(d) => Some(d@),
                None => None,
            },
            scope: match self.scope {
                Some(s) => Some(s@),
                None => None,
            },
            is_file_template: self.is_file_template,
            priority: self.priority,
        }
    }
}

/// The comma-separated JSON string literals for the body lines.
pub open spec fn body_items(lines: Seq<Seq<char>>) -> Seq<char>
    decreases lines.len(),
{
    if lines.len() == 0 {
        Seq::empty()
    } else if lines.len() == 1 {
        quoted(lines[0])
    } else {
        body_items(lines.drop_last()) + seq![','] + quoted(lines.last())
    }
}

/// The JSON array holding the body lines.
pub open spec fn body_json(lines: Seq<Seq<char>>) -> Seq<char> {
    seq!['['] + body_items(lines) + seq![']']
}

/// The JSON text for a boolean.
pub open spec fn bool_json(b: bool) -> Seq<char> {
    if b {
        "true"@
    } else {
        "false"@
    }
}

/// The serialized value object of one snippet record: `prefix` and `body`
/// always present, each optional field present exactly when it is set, the
/// name never present.
pub open spec fn snippet_json(v: SnippetView) -> Seq<char> {
    "{\"prefix\":"@ + quoted(v.prefix) + ",\"body\":"@ + body_json(v.body) + (match v.description {
        Some(d) => ",\"description\":"@ + quoted(d),
        None => Seq::empty(),
    }) + (match v.scope {
        Some(s) => ",\"scope\":"@ + quoted(s),
        None => Seq::empty(),
    }) + (match v.is_file_template {
        Some(b) => ",\"is_file_template\":"@ + bool_json(b),
        None => Seq::empty(),
    }) + (match v.priority {
        Some(p) => ",\"priority\":"@ + dec_digits(p as nat),
        None => Seq::empty(),
    }) + seq!['}']
}

/// A record with no optional fields set serializes to a value object holding
/// exactly the `prefix` and `body` members, with nothing else, not even null
/// members.
pub proof fn lemma_minimal_snippet_json(v: SnippetView)
    requires
        v.description is None,
        v.scope is None,
        v.is_file_template is None,
        v.priority is None,
    ensures
        snippet_json(v) == "{\"prefix\":"@ + quoted(v.prefix) + ",\"body\":"@ + body_json(v.body)
            + seq!['}'],
{
    assert(snippet_json(v) =~= "{\"prefix\":"@ + quoted(v.prefix) + ",\"body\":"@ + body_json(
        v.body,
    ) + seq!['}']);
}

/// Appends the JSON array of body lines.
fn append_body_json(out: &mut String, lines: &Vec<String>)
    ensures
        final(out)@ == old(out)@ + body_json(lines_view(lines@)),
{
    push_char(out, '[');
    let ghost opened: Seq<char> = out@;
    let ghost lv: Seq<Seq<char>> = lines_view(lines@);
    proof {
        assert(opened + body_items(lv.subrange(0, 0)) =~= opened);
    }
    let n = lines.len();
    let mut i: usize = 0;
    while i < n
        invariant
            n == lines@.len(),
            i <= n,
            lv == lines_view(lines@),
            out@ == opened + body_items(lv.subrange(0, i as int)),
        decreases n - i,
    {
        if i > 0 {
            push_char(out, ',');
        }
        append_quoted(out, lines[i].as_str());
        proof {
            let pre = lv.subrange(0, i as int);
            let ext = lv.subrange(0, i as int + 1);
            assert(ext.drop_last() =~= pre);
            assert(ext.last() == lv[i as int]);
            if i == 0 {
                assert(body_items(ext) == quoted(lv[0]));
                assert(opened + quoted(lv[0]) =~= opened + body_items(ext));
            } else {
                assert(body_items(ext) == body_items(pre) + seq![','] + quoted(lv[i as int]));
                assert((opened + body_items(pre)).push(',') + quoted(lv[i as int]) =~= opened
                    + body_items(ext));
            }
        }
        i = i + 1;
    }
    proof {
        assert(lv.subrange(0, n as int) =~= lv);
    }
    push_char(out, ']');
    assert(out@ =~= old(out)@ + body_json(lv));
}

/// Appends the serialized value object of `s`.
#[verifier::rlimit(60)]
pub(crate) fn append_snippet_json(out: &mut String, s: &Snippet)
    ensures
        final(out)@ == old(out)@ + snippet_json(s@),
{
    out.append("{\"prefix\":");
    append_quoted(out, s.prefix.as_str());
    out.append(",\"body\":");
    append_body_json(out, &s.body);
    if let Some(d) = &s.description {
        out.append(",\"description\":");
        append_quoted(out, d.as_str());
    }
    if let Some(sc) = &s.scope {
        out.append(",\"scope\":");
        append_quoted(out, sc.as_str());
    }
    if let Some(b) = &s.is_file_template {
        if *b {
            out.append(",\"is_file_template\":");
            out.append("true");
        } else {
            out.append(",\"is_file_template\":");
            out.append("false");
        }
    }
    if let Some(p) = &s.priority {
        out.append(",\"priority\":");
        append_decimal(out, *p as u128);
    }
    push_char(out, '}');
    assert(out@ =~= old(out)@ + snippet_json(s@));
}

/// The body line of a comment template: the comment marker, the comment
/// name, and a placeholder.
pub open spec fn todo_line(marker: Seq<char>, comment_name: Seq<char>) -> Seq<char> {
    marker + " "@ + comment_name + ": ${1:...}"@
}

/// The body line of a function-alias template.
pub open spec fn fn_alias_line(fn_name: Seq<char>) -> Seq<char> {
    fn_name + "()"@
}

/// The body line of a macro-alias template: the macro name, a bang, and a
/// quoted placeholder between the given braces.
pub open spec fn macro_alias_line(macro_name: Seq<char>, lpar: Seq<char>, rpar: Seq<char>) -> Seq<
    char,
> {
    macro_name + "!"@ + lpar + "\"${1:args}\""@ + rpar
}

/// The given parts joined with a pipe separator.
pub open spec fn pipe_joined(parts: Seq<Seq<char>>) -> Seq<char>
    decreases parts.len(),
{
    if parts.len() == 0 {
        Seq::empty()
    } else if parts.len() == 1 {
        parts[0]
    } else {
        pipe_joined(parts.drop_last()) + seq!['|'] + parts.last()
    }
}

/// The body line of an attribute template: the attribute name applied to a
/// placeholder offering the given arguments as choices.
pub open spec fn attr_line(attr_name: Seq<char>, args: Seq<Seq<char>>) -> Seq<char> {
    "#["@ + attr_name + "(${1:"@ + pipe_joined(args) + "})]"@
}

/// The sequence of string-slice contents held by a sequence of slices.
pub open spec fn strs_view(parts: Seq<&str>) -> Seq<Seq<char>> {
    Seq::new(parts.len(), |i: int| parts[i]@)
}

/// Joins string slices with a pipe separator.
fn join_pipe(parts: &Vec<&str>) -> (r: String)
    ensures
        r@ == pipe_joined(strs_view(parts@)),
{
    let ghost pv: Seq<Seq<char>> = strs_view(parts@);
    let mut out = String::new();
    proof {
        assert(out@ =~= pipe_joined(pv.subrange(0, 0)));
    }
    let n = parts.len();
    let mut i: usize = 0;
    while i < n
        invariant
            n == parts@.len(),
            i <= n,
            pv == strs_view(parts@),
            out@ == pipe_joined(pv.subrange(0, i as int)),
        decreases n - i,
    {
        if i > 0 {
            push_char(&mut out, '|');
        }
        out.append(parts[i]);
        proof {
            let pre = pv.subrange(0, i as int);
            let ext = pv.subrange(0, i as int + 1);
            assert(ext.drop_last() =~= pre);
            assert(ext.last() == pv[i as int]);
            if i == 0 {
                assert(out@ =~= pipe_joined(ext));
            } else {
                assert(pipe_joined(ext) == pipe_joined(pre) + seq!['|'] + pv[i as int]);
                assert(out@ =~= pipe_joined(ext));
            }
        }
        i = i + 1;
    }
    proof {
        assert(pv.subrange(0, n as int) =~= pv);
    }
    out
}

impl Snippet {
    /// Creates a snippet with the required fields and an auto-generated
    /// name; the trigger and the body must be non-empty.
    pub fn new(prefix: &str, body: Vec<String>) -> (r: Self)
        requires
            prefix@.len() > 0,
            body@.len() > 0,
        ensures
            r@.name.len() > 0,
            generated_name(r@.name),
            r@.prefix == prefix@,
            r@.body == lines_view(body@),
            r@.description is None,
            r@.scope is None,
            r@.is_file_template is None,
            r@.priority is None,
    {
        Self::builder().set_prefix(prefix).set_body(body).build().unwrap()
    }

    /// Creates a new [`SnippetBuilder`].
    pub fn builder() -> (r: SnippetBuilder)
        ensures
            r@.name.len() > 0,
            generated_name(r@.name),
            r@.prefix.len() == 0,
            r@.body.len() == 0,
            r@.description is None,
            r@.scope is None,
            r@.is_file_template is None,
            r@.priority is None,
    {
        SnippetBuilder::new()
    }

    /// Creates a simple one-line text snippet, staged in a builder.
    pub fn text(prefix: &str, text: &str) -> (r: SnippetBuilder)
        ensures
            r@.name.len() > 0,
            r@.prefix == prefix@,
            r@.body == seq![text@],
            r@.description is None,
            r@.scope is None,
            r@.is_file_template is None,
            r@.priority is None,
    {
        let mut body: Vec<String> = Vec::new();
        body.push(String::from_str(text));
        proof {
            assert(lines_view(body@) =~= seq![text@]);
        }
        Self::builder().set_prefix(prefix).set_body(body)
    }

    /// Creates a comment template (TODO, NOTE, and the like); the comment
    /// marker defaults to a line comment.
    pub fn todo_comment(prefix: &str, comment_name: &str, comment_type: Option<&str>) -> (r:
        SnippetBuilder)
        ensures
            r@.name.len() > 0,
            r@.prefix == prefix@,
            r@.body == seq![
                match comment_type {
                    Some(t) => todo_line(t@, comment_name@),
                    None => todo_line("//"@, comment_name@),
                },
            ],
            r@.description is None,
            r@.scope is None,
            r@.is_file_template is None,
            r@.priority is None,
    {
        let marker: &str = match comment_type {
            Some(t) => t,
            None => "//",
        };
        let mut line = String::from_str(marker);
        line.append(" ");
        line.append(comment_name);
        line.append(": ${1:...}");
        let mut body: Vec<String> = Vec::new();
        body.push(line);
        proof {
            assert(lines_view(body@) =~= seq![todo_line(marker@, comment_name@)]);
        }
        Self::builder().set_prefix(prefix).set_body(body)
    }

    /// Creates a function-alias template.
    pub fn fn_alias(prefix: &str, fn_name: &str) -> (r: SnippetBuilder)
        ensures
            r@.name.len() > 0,
            r@.prefix == prefix@,
            r@.body == seq![fn_alias_line(fn_name@)],
            r@.description is None,
            r@.scope is None,
            r@.is_file_template is None,
            r@.priority is None,
    {
        let mut line = String::from_str(fn_name);
        line.append("()");
        let mut body: Vec<String> = Vec::new();
        body.push(line);
        proof {
            assert(lines_view(body@) =~= seq![fn_alias_line(fn_name@)]);
        }
        Self::builder().set_prefix(prefix).set_body(body)
    }
}

/// The snippet templates for the Rust programming language.
impl Snippet {
    /// Creates a simple text snippet scoped to Rust.
    pub fn rust_text(prefix: &str, text: &str) -> (r: SnippetBuilder)
        ensures
            r@.name.len() > 0,
            r@.prefix == prefix@,
            r@.body == seq![text@],
            r@.description is None,
            r@.scope == Some("rust"@),
            r@.is_file_template is None,
            r@.priority is None,
    {
        Self::text(prefix, text).set_scope("rust")
    }

    /// Creates a comment template scoped to Rust.
    pub fn rust_todo_comment(prefix: &str, comment_name: &str, comment_type: Option<&str>) -> (r:
        SnippetBuilder)
        ensures
            r@.name.len() > 0,
            r@.prefix == prefix@,
            r@.body == seq![
                match comment_type {
                    Some(t) => todo_line(t@, comment_name@),
                    None => todo_line("//"@, comment_name@),
                },
            ],
            r@.description is None,
            r@.scope == Some("rust"@),
            r@.is_file_template is None,
            r@.priority is None,
    {
        Self::todo_comment(prefix, comment_name, comment_type).set_scope("rust")
    }

    /// Creates a function-alias template scoped to Rust.
    pub fn rust_fn_alias(prefix: &str, fn_name: &str) -> (r: SnippetBuilder)
        ensures
            r@.name.len() > 0,
            r@.prefix == prefix@,
            r@.body == seq![fn_alias_line(fn_name@)],
            r@.description is None,
            r@.scope == Some("rust"@),
            r@.is_file_template is None,
            r@.priority is None,
    {
        Self::fn_alias(prefix, fn_name).set_scope("rust")
    }

    /// Creates a macro-alias template scoped to Rust; the braces around the
    /// argument placeholder default to parentheses.
    pub fn rust_macro_alias(prefix: &str, macro_name: &str, custom_braces: Option<(&str, &str)>)
        -> (r: SnippetBuilder)
        ensures
            r@.name.len() > 0,
            r@.prefix == prefix@,
            r@.body == seq![
                match custom_braces {
                    Some(braces) => macro_alias_line(macro_name@, braces.0@, braces.1@),
                    None => macro_alias_line(macro_name@, "("@, ")"@),
                },
            ],
            r@.description is None,
            r@.scope == Some("rust"@),
            r@.is_file_template is None,
            r@.priority is None,
    {
        let braces: (&str, &str) = match custom_braces {
            Some(b) => b,
            None => ("(", ")"),
        };
        let mut line = String::from_str(macro_name);
        line.append("!");
        line.append(braces.0);
        line.append("\"${1:args}\"");
        line.append(braces.1);
        let mut body: Vec<String> = Vec::new();
        body.push(line);
        proof {
            assert(lines_view(body@) =~= seq![macro_alias_line(macro_name@, braces.0@, braces.1@)]);
        }
        Self::builder().set_prefix(prefix).set_body(body).set_scope("rust")
    }

    /// Creates an attribute template scoped to Rust, offering the given
    /// arguments as placeholder choices.
    pub fn rust_attr(prefix: &str, attr_name: &str, attr_args: Vec<&str>) -> (r: SnippetBuilder)
        ensures
            r@.name.len() > 0,
            r@.prefix == prefix@,
            r@.body == seq![attr_line(attr_name@, strs_view(attr_args@))],
            r@.description is None,
            r@.scope == Some("rust"@),
            r@.is_file_template is None,
            r@.priority is None,
    {
        let joined = join_pipe(&attr_args);
        let mut line = String::from_str("#[");
        line.append(attr_name);
        line.append("(${1:");
        line.append(joined.as_str());
        line.append("})]");
        let mut body: Vec<String> = Vec::new();
        body.push(line);
        proof {
            assert(lines_view(body@) =~= seq![attr_line(attr_name@, strs_view(attr_args@))]);
        }
        Self::builder().set_prefix(prefix).set_body(body).set_scope("rust")
    }
}

impl Snippet {
    /// Converts the snippet to its JSON value object.
    pub fn to_json(&self) -> (r: Result<String, Error>)
        ensures
            r matches Ok(text) && text@ == snippet_json(self@),
    {
        let mut out = String::new();
        append_snippet_json(&mut out, self);
        Ok(out)
    }
}

} // verus!
