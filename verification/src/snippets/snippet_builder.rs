//! The fluent builder: a mutable staging area for one snippet record,
//! validated and finalized into an immutable [`Snippet`].

use vstd::prelude::*;
use vstd::string::*;
use super::snippet::{lines_view, Snippet, SnippetView};
use crate::error::Error;
use crate::json::{append_decimal, dec_digits, push_char};

verus! {

/// Relies on `std::time::SystemTime::now` and `duration_since` against the
/// Unix epoch: the current wall-clock time in milliseconds (zero if the clock
/// reads before the epoch). Nothing can be promised of a clock reading.
#[verifier::external_body]
fn unix_millis() -> u128 {
    std::time::SystemTime::now()
        .duration_since(std::time::SystemTime::UNIX_EPOCH)
        .unwrap_or_default()
        .as_millis()
}

/// Relies on `fastrand::u8` over the range `0..bound`: the draw lies below
/// the bound; the function panics only on an empty range, which the
/// precondition rules out.
#[verifier::external_body]
fn random_below(bound: u8) -> (r: u8)
    requires
        bound > 0,
    ensures
        r < bound,
{
    fastrand::u8(0..bound)
}

/// Whether `c` is a lower-case ASCII letter.
pub open spec fn is_lower_letter(c: char) -> bool {
    97 <= c as u32 <= 122
}

/// The shape of a generated snippet name: the fixed stem, a decimal
/// timestamp, an underscore, and a random suffix.
pub open spec fn gen_name_form(t: nat, suffix: Seq<char>) -> Seq<char> {
    "snippet_"@ + dec_digits(t) + "_"@ + suffix
}

/// Whether `s` is a name the generator can produce: the fixed stem, some
/// decimal timestamp, and six random lower-case letters.
pub open spec fn generated_name(s: Seq<char>) -> bool {
    exists|t: nat, suffix: Seq<char>|
        {
            &&& s == #[trigger] gen_name_form(t, suffix)
            &&& suffix.len() == 6
            &&& forall|i: int| 0 <= i < suffix.len() ==> is_lower_letter(#[trigger] suffix[i])
        }
}

/// The lower-case ASCII letter at offset `d` from `'a'`.
fn letter_char(d: u8) -> (c: char)
    requires
        d < 26,
    ensures
        is_lower_letter(c),
{
    let c = (97u8 + d) as char;
    c
}

/// A mutable staging area holding the same fields as [`Snippet`], plus
/// defaults: the name starts out auto-generated, the prefix empty, the body
/// empty, every optional field absent. Each setter consumes the builder and
/// returns the updated one, so calls chain.
#[derive(Debug, Clone)]
pub struct SnippetBuilder {
    pub name: String,
    pub prefix: String,
    pub body: Vec<String>,
    pub description: Option<String>,
    pub scope: Option<String>,
    pub is_file_template: Option<bool>,
    pub priority: Option<u32>,
}

impl View for SnippetBuilder {
    type V = SnippetView;

    open spec fn view(&self) -> SnippetView {
        SnippetView {
            name: self.name@,
            prefix: self.prefix@,
            body: lines_view(self.body@),
            description: match self.description {
                Some(d) => Some(d@),
                None => None,
            },
            scope: match self.scope {
                Some(s) => Some(s@),
                None => None,
            },
            is_file_template: self.is_file_template,
            priority: self.priority,
        }
    }
}

impl SnippetBuilder {
    /// Creates a builder with an auto-generated name and everything else
    /// empty or absent.
    pub fn new() -> (r: Self)
        ensures
            r@.name.len() > 0,
            generated_name(r@.name),
            r@.prefix.len() == 0,
            r@.body.len() == 0,
            r@.description is None,
            r@.scope is None,
            r@.is_file_template is None,
            r@.priority is None,
    {
        Self::default()
    }

    /// Generates a practically unique name for a snippet: a millisecond
    /// wall-clock timestamp and six random lower-case letters.
    pub fn gen_name() -> (r: String)
        ensures
            r@.len() > 0,
            generated_name(r@),
    {
        let m = unix_millis();
        let mut out = String::from_str("snippet_");
        append_decimal(&mut out, m);
        out.append("_");
        let ghost base: Seq<char> = out@;
        let ghost mut suffix: Seq<char> = Seq::empty();
        proof {
            assert(base + suffix =~= base);
        }
        let mut i: usize = 0;
        while i < 6
            invariant
                out@ == base + suffix,
                suffix.len() == i,
                i <= 6,
                base == "snippet_"@ + dec_digits(m as nat) + "_"@,
                forall|j: int| 0 <= j < suffix.len() ==> is_lower_letter(#[trigger] suffix[j]),
            decreases 6 - i,
        {
            let d = random_below(26);
            let c = letter_char(d);
            push_char(&mut out, c);
            proof {
                assert((base + suffix).push(c) =~= base + suffix.push(c));
                suffix = suffix.push(c);
            }
            i = i + 1;
        }
        proof {
            reveal_strlit("snippet_");
            assert(out@ =~= gen_name_form(m as nat, suffix));
            assert(generated_name(out@)) by {
                assert(out@ == gen_name_form(m as nat, suffix));
            }
        }
        out
    }

    /// Checks the builder state: the name, then the prefix, then the body
    /// must be non-empty; the first failing check decides the error.
    pub fn validate(&self) -> (r: Result<(), Error>)
        ensures
            r is Ok <==> self@.name.len() > 0 && self@.prefix.len() > 0 && self@.body.len() > 0,
            self@.name.len() == 0 ==> r == Err::<(), Error>(Error::NameIsRequired),
            self@.name.len() > 0 && self@.prefix.len() == 0 ==> r == Err::<(), Error>(
                Error::PrefixIsRequired,
            ),
            self@.name.len() > 0 && self@.prefix.len() > 0 && self@.body.len() == 0 ==> r
                == Err::<(), Error>(Error::BodyIsEmpty),
    {
        if self.name.as_str().is_empty() {
            return Err(Error::NameIsRequired);
        }
        if self.prefix.as_str().is_empty() {
            return Err(Error::PrefixIsRequired);
        }
        if self.body.len() == 0 {
            return Err(Error::BodyIsEmpty);
        }
        Ok(())
    }

    /// Finalizes the builder into an immutable [`Snippet`] holding exactly
    /// the staged field values; fails with the first validation error.
    pub fn build(self) -> (r: Result<Snippet, Error>)
        ensures
            self@.name.len() > 0 && self@.prefix.len() > 0 && self@.body.len() > 0 ==> (r matches Ok(
                s,
            ) && s@ == self@),
            self@.name.len() == 0 ==> r == Err::<Snippet, Error>(Error::NameIsRequired),
            self@.name.len() > 0 && self@.prefix.len() == 0 ==> r == Err::<Snippet, Error>(
                Error::PrefixIsRequired,
            ),
            self@.name.len() > 0 && self@.prefix.len() > 0 && self@.body.len() == 0 ==> r
                == Err::<Snippet, Error>(Error::BodyIsEmpty),
    {
        match self.validate() {
            Err(e) => Err(e),
            Ok(_) => Ok(
                Snippet {
                    name: self.name,
                    prefix: self.prefix,
                    body: self.body,
                    description: self.description,
                    scope: self.scope,
                    is_file_template: self.is_file_template,
                    priority: self.priority,
                },
            ),
        }
    }

    /// Sets the name of the snippet.
    pub fn set_name(self, name: &str) -> (r: Self)
        ensures
            r@ == (SnippetView { name: name@, ..self@ }),
    {
        SnippetBuilder { name: String::from_str(name), ..self }
    }

    /// Sets the prefix (trigger) of the snippet.
    pub fn set_prefix(self, prefix: &str) -> (r: Self)
        ensures
            r@ == (SnippetView { prefix: prefix@, ..self@ }),
    {
        SnippetBuilder { prefix: String::from_str(prefix), ..self }
    }

    /// Replaces the entire body of the snippet.
    pub fn set_body(self, body: Vec<String>) -> (r: Self)
        ensures
            r@ == (SnippetView { body: lines_view(body@), ..self@ }),
    {
        SnippetBuilder { body, ..self }
    }

    /// Applies a transformation to the whole body.
    pub fn map_body<F: FnOnce(Vec<String>) -> Vec<String>>(self, f: F) -> (r: Self)
        requires
            call_requires(f, (self.body,)),
        ensures
            call_ensures(f, (self.body, ), r.body),
            r@ == (SnippetView { body: lines_view(r.body@), ..self@ }),
    {
        let SnippetBuilder { name, prefix, body, description, scope, is_file_template, priority } =
            self;
        let body = f(body);
        SnippetBuilder { name, prefix, body, description, scope, is_file_template, priority }
    }

    /// Appends a single line to the body.
    pub fn add_line(self, line: &str) -> (r: Self)
        ensures
            r@ == (SnippetView { body: self@.body.push(line@), ..self@ }),
    {
        let mut b = self;
        b.body.push(String::from_str(line));
        proof {
            assert(lines_view(b.body@) =~= lines_view(self.body@).push(line@));
        }
        b
    }

    /// Appends several lines to the body, in order.
    pub fn add_lines(self, lines: Vec<String>) -> (r: Self)
        ensures
            r@ == (SnippetView { body: self@.body + lines_view(lines@), ..self@ }),
    {
        let mut b = self;
        let mut rest = lines;
        b.body.append(&mut rest);
        proof {
            assert(lines_view(b.body@) =~= lines_view(self.body@) + lines_view(lines@));
        }
        b
    }

    /// Replaces the line at position `n`; fails when `n` is at or beyond the
    /// body length.
    pub fn set_line(self, n: usize, line: &str) -> (r: Result<Self, Error>)
        ensures
            n < self@.body.len() ==> (r matches Ok(b) && b@ == (SnippetView {
                body: self@.body.update(n as int, line@),
                ..self@
            })),
            n >= self@.body.len() ==> r == Err::<SnippetBuilder, Error>(
                Error::IndexOutOfBounds(n),
            ),
    {
        if n >= self.body.len() {
            return Err(Error::IndexOutOfBounds(n));
        }
        let mut b = self;
        b.body[n] = String::from_str(line);
        proof {
            assert(lines_view(b.body@) =~= lines_view(self.body@).update(n as int, line@));
        }
        Ok(b)
    }

    /// Applies a transformation to the line at position `n`; fails when `n`
    /// is at or beyond the body length.
    pub fn map_line<F: FnOnce(String) -> String>(self, n: usize, f: F) -> (r: Result<Self, Error>)
        requires
            n < self.body@.len() ==> call_requires(f, (self.body@[n as int],)),
        ensures
            n < self@.body.len() ==> (r matches Ok(b) && call_ensures(
                f,
                (self.body@[n as int],),
                b.body@[n as int],
            ) && b@ == (SnippetView {
                body: self@.body.update(n as int, b.body@[n as int]@),
                ..self@
            })),
            n >= self@.body.len() ==> r == Err::<SnippetBuilder, Error>(
                Error::IndexOutOfBounds(n),
            ),
    {
        if n >= self.body.len() {
            return Err(Error::IndexOutOfBounds(n));
        }
        let mut b = self;
        let line = b.body[n].clone();
        let new_line = f(line);
        b.body[n] = new_line;
        proof {
            assert(lines_view(b.body@) =~= lines_view(self.body@).update(
                n as int,
                b.body@[n as int]@,
            ));
        }
        Ok(b)
    }

    /// Sets the description of the snippet.
    pub fn set_description(self, description: &str) -> (r: Self)
        ensures
            r@ == (SnippetView { description: Some(description@), ..self@ }),
    {
        SnippetBuilder { description: Some(String::from_str(description)), ..self }
    }

    /// Sets the language scope of the snippet.
    pub fn set_scope(self, scope: &str) -> (r: Self)
        ensures
            r@ == (SnippetView { scope: Some(scope@), ..self@ }),
    {
        SnippetBuilder { scope: Some(String::from_str(scope)), ..self }
    }

    /// Sets whether this snippet is a file template.
    pub fn set_is_file_template(self, is_template: bool) -> (r: Self)
        ensures
            r@ == (SnippetView { is_file_template: Some(is_template), ..self@ }),
    {
        SnippetBuilder { is_file_template: Some(is_template), ..self }
    }

    /// Sets the priority of the snippet in the suggestion list.
    pub fn set_priority(self, priority: u32) -> (r: Self)
        ensures
            r@ == (SnippetView { priority: Some(priority), ..self@ }),
    {
        SnippetBuilder { priority: Some(priority), ..self }
    }
}

impl Default for SnippetBuilder {
    /// The default builder: auto-generated name, empty prefix, empty body,
    /// no optional fields.
    fn default() -> (r: Self)
        ensures
            r@.name.len() > 0,
            generated_name(r@.name),
            r@.prefix.len() == 0,
            r@.body.len() == 0,
            r@.description is None,
            r@.scope is None,
            r@.is_file_template is None,
            r@.priority is None,
    {
        SnippetBuilder {
            name: SnippetBuilder::gen_name(),
            prefix: String::new(),
            body: Vec::new(),
            description: None,
            scope: None,
            is_file_template: None,
            priority: None,
        }
    }
}

} // verus!
