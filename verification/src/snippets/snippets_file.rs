//! The keyed collection of snippet records: insertion with
//! last-writer-wins semantics per name, and serialization of the whole
//! collection to the editor's JSON document.

use vstd::prelude::*;
use super::snippet::{append_snippet_json, snippet_json, Snippet, SnippetView};
use crate::error::Error;
use crate::json::{append_quoted, push_char, quoted};

verus! {

broadcast use vstd::set::group_set_axioms, vstd::map::group_map_axioms;

/// Whether no two entries share a name.
pub open spec fn unique_names(entries: Seq<SnippetView>) -> bool {
    forall|i: int, j: int| 0 <= i < j < entries.len() ==> entries[i].name != entries[j].name
}

/// Whether some entry carries the given name.
pub open spec fn has_name(entries: Seq<SnippetView>, name: Seq<char>) -> bool {
    exists|i: int| 0 <= i < entries.len() && entries[i].name == name
}

/// The mapping from names to records that a sequence of entries holds, a
/// later entry overwriting an earlier one with the same name.
pub open spec fn entries_map(entries: Seq<SnippetView>) -> Map<Seq<char>, SnippetView>
    decreases entries.len(),
{
    if entries.len() == 0 {
        Map::empty()
    } else {
        entries_map(entries.drop_last()).insert(entries.last().name, entries.last())
    }
}

/// The mapping after inserting every entry of `vs` into `m`, in order.
pub open spec fn inserted_all(
    m: Map<Seq<char>, SnippetView>,
    vs: Seq<SnippetView>,
) -> Map<Seq<char>, SnippetView>
    decreases vs.len(),
{
    if vs.len() == 0 {
        m
    } else {
        inserted_all(m, vs.drop_last()).insert(vs.last().name, vs.last())
    }
}

/// The views of a sequence of snippets.
pub open spec fn snippets_view(snippets: Seq<Snippet>) -> Seq<SnippetView> {
    Seq::new(snippets.len(), |i: int| snippets[i]@)
}

/// The mapping a sequence of entries holds is keyed by exactly the entry
/// names; with unique names it has one entry per element.
pub proof fn lemma_entries_map_props(entries: Seq<SnippetView>)
    ensures
        entries_map(entries).dom().finite(),
        forall|k: Seq<char>| #[trigger]
            entries_map(entries).dom().contains(k) <==> has_name(entries, k),
        forall|i: int|
            0 <= i < entries.len() ==> entries_map(entries).dom().contains(
                #[trigger] entries[i].name,
            ),
        unique_names(entries) ==> entries_map(entries).dom().len() == entries.len(),
    decreases entries.len(),
{
    if entries.len() == 0 {
    } else {
        let dl = entries.drop_last();
        lemma_entries_map_props(dl);
        assert forall|k: Seq<char>| #[trigger]
            entries_map(entries).dom().contains(k) implies has_name(entries, k) by {
            if k == entries.last().name {
                assert(entries[entries.len() - 1].name == k);
            } else {
                assert(has_name(dl, k));
                let i = choose|i: int| 0 <= i < dl.len() && dl[i].name == k;
                assert(entries[i].name == k);
            }
        }
        assert forall|k: Seq<char>| has_name(entries, k) implies entries_map(
            entries,
        ).dom().contains(k) by {
            let i = choose|i: int| 0 <= i < entries.len() && entries[i].name == k;
            if i < entries.len() - 1 {
                assert(dl[i].name == k);
                assert(has_name(dl, k));
            }
        }
        assert forall|ix: int| 0 <= ix < entries.len() implies entries_map(entries).dom().contains(
            #[trigger] entries[ix].name,
        ) by {
            assert(has_name(entries, entries[ix].name));
        }
        if unique_names(entries) {
            assert(unique_names(dl));
            assert(!has_name(dl, entries.last().name)) by {
                if has_name(dl, entries.last().name) {
                    let i = choose|i: int|
                        0 <= i < dl.len() && dl[i].name == entries.last().name;
                    assert(entries[i].name == entries[entries.len() - 1].name);
                }
            }
            assert(!entries_map(dl).dom().contains(entries.last().name));
        }
    }
}

/// Replacing the entry that already carries a record's name updates the
/// mapping exactly as inserting the record would.
proof fn lemma_entries_map_update(entries: Seq<SnippetView>, i: int, v: SnippetView)
    requires
        0 <= i < entries.len(),
        entries[i].name == v.name,
        unique_names(entries),
    ensures
        entries_map(entries.update(i, v)) == entries_map(entries).insert(v.name, v),
    decreases entries.len(),
{
    let t = entries.update(i, v);
    let dl = entries.drop_last();
    if i == entries.len() - 1 {
        assert(t.drop_last() =~= dl);
        assert(t.last() == v);
        assert(entries_map(dl).insert(entries.last().name, entries.last()).insert(v.name, v)
            =~= entries_map(dl).insert(v.name, v));
    } else {
        assert(t.drop_last() =~= dl.update(i, v));
        assert(t.last() == entries.last());
        assert(unique_names(dl));
        assert(dl[i].name == v.name);
        lemma_entries_map_update(dl, i, v);
        assert(v.name != entries.last().name);
        assert(entries_map(dl).insert(v.name, v).insert(entries.last().name, entries.last())
            =~= entries_map(dl).insert(entries.last().name, entries.last()).insert(v.name, v));
    }
}

/// The record stored under a name is the entry that carries that name, when
/// names are unique.
pub proof fn lemma_entries_map_get(entries: Seq<SnippetView>, i: int)
    requires
        unique_names(entries),
        0 <= i < entries.len(),
    ensures
        entries_map(entries)[entries[i].name] == entries[i],
    decreases entries.len(),
{
    let dl = entries.drop_last();
    if i == entries.len() - 1 {
    } else {
        assert(unique_names(dl));
        assert(dl[i] == entries[i]);
        lemma_entries_map_get(dl, i);
        assert(entries[i].name != entries.last().name);
    }
}

/// Starting from the empty mapping, inserting entries in order builds
/// exactly the mapping those entries hold.
pub proof fn lemma_inserted_all_empty(vs: Seq<SnippetView>)
    ensures
        inserted_all(Map::empty(), vs) == entries_map(vs),
    decreases vs.len(),
{
    if vs.len() == 0 {
    } else {
        lemma_inserted_all_empty(vs.drop_last());
    }
}

/// Inserting two records into an empty collection leaves a mapping of two
/// entries when their names differ; when the names coincide it leaves one
/// entry, holding the second record.
pub proof fn lemma_pair_insert(a: SnippetView, b: SnippetView)
    ensures
        inserted_all(Map::empty(), seq![a, b])[b.name] == b,
        a.name != b.name ==> inserted_all(Map::empty(), seq![a, b]).dom().len() == 2,
        a.name == b.name ==> inserted_all(Map::empty(), seq![a, b]).dom().len() == 1,
{
    let vs: Seq<SnippetView> = seq![a, b];
    let m0: Map<Seq<char>, SnippetView> = Map::empty();
    assert(vs.drop_last() =~= seq![a]);
    assert(seq![a].drop_last() =~= Seq::<SnippetView>::empty());
    assert(inserted_all(m0, Seq::<SnippetView>::empty()) == m0);
    assert(seq![a].last() == a);
    assert(vs.last() == b);
    assert(inserted_all(m0, seq![a]) == m0.insert(a.name, a));
    assert(inserted_all(m0, vs) == m0.insert(a.name, a).insert(b.name, b));
    assert(m0.insert(a.name, a).insert(b.name, b).dom() == m0.dom().insert(a.name).insert(b.name));
    assert(m0.dom() =~= Set::<Seq<char>>::empty());
    assert(Set::<Seq<char>>::empty().insert(a.name).len() == 1);
}

/// The comma-separated `"name": value` members of the snippets document.
pub open spec fn entry_items(entries: Seq<SnippetView>) -> Seq<char>
    decreases entries.len(),
{
    if entries.len() == 0 {
        Seq::empty()
    } else if entries.len() == 1 {
        quoted(entries[0].name) + seq![':'] + snippet_json(entries[0])
    } else {
        entry_items(entries.drop_last()) + seq![','] + quoted(entries.last().name) + seq![':']
            + snippet_json(entries.last())
    }
}

/// The serialized snippets document: one JSON object whose property names
/// are the snippet names and whose values are the snippet value objects.
pub open spec fn file_json(entries: Seq<SnippetView>) -> Seq<char> {
    seq!['{'] + entry_items(entries) + seq!['}']
}

/// A collection of snippet records keyed by their names: inserting a record
/// overwrites any record already stored under the same name.
#[derive(Debug, Clone)]
pub struct SnippetsFile {
    snippets: Vec<Snippet>,
}

impl View for SnippetsFile {
    type V = Seq<SnippetView>;

    closed spec fn view(&self) -> Seq<SnippetView> {
        snippets_view(self.snippets@)
    }
}

impl SnippetsFile {
    /// Whether the collection is well-formed: no two entries share a name.
    /// Every constructor establishes this and every method preserves it.
    pub open spec fn wf(&self) -> bool {
        unique_names(self@)
    }

    /// Creates a collection holding the given snippets, inserted in order
    /// (a later snippet overwrites an earlier one with the same name).
    pub fn new(snippets: Vec<Snippet>) -> (r: Self)
        ensures
            r.wf(),
            entries_map(r@) == inserted_all(Map::empty(), snippets_view(snippets@)),
    {
        let mut file = SnippetsFile { snippets: Vec::new() };
        assert(file@ =~= Seq::<SnippetView>::empty());
        file.add_snippets(snippets);
        file
    }

    /// The number of records currently stored.
    pub fn len(&self) -> (r: usize)
        ensures
            r == self@.len(),
    {
        self.snippets.len()
    }

    /// The stored records, in an unspecified order.
    pub fn snippets(&self) -> (r: &Vec<Snippet>)
        ensures
            snippets_view(r@) == self@,
    {
        &self.snippets
    }

    /// Looks up the record stored under the given name.
    pub fn get(&self, name: &String) -> (r: Option<&Snippet>)
        requires
            self.wf(),
        ensures
            match r {
                Some(s) => entries_map(self@).dom().contains(name@) && s@ == entries_map(
                    self@,
                )[name@],
                None => !entries_map(self@).dom().contains(name@),
            },
    {
        let n = self.snippets.len();
        let mut i: usize = 0;
        while i < n
            invariant
                n == self.snippets@.len(),
                self.wf(),
                i <= n,
                forall|j: int| 0 <= j < i ==> (#[trigger] self@[j]).name != name@,
            decreases n - i,
        {
            if self.snippets[i].name == *name {
                proof {
                    assert(self@[i as int] == self.snippets@[i as int]@);
                    assert(self@[i as int].name == name@);
                    lemma_entries_map_props(self@);
                    assert(has_name(self@, name@)) by {
                        assert(self@[i as int].name == name@);
                    }
                    lemma_entries_map_get(self@, i as int);
                }
                return Some(&self.snippets[i]);
            }
            proof {
                assert(self@[i as int] == self.snippets@[i as int]@);
                assert(self@[i as int].name == self.snippets@[i as int].name@);
            }
            i = i + 1;
        }
        proof {
            lemma_entries_map_props(self@);
            assert(!has_name(self@, name@)) by {
                if has_name(self@, name@) {
                    let j = choose|j: int| 0 <= j < self@.len() && self@[j].name == name@;
                    assert(self@[j].name != name@);
                }
            }
        }
        None
    }

    /// Inserts one snippet, overwriting any record stored under the same
    /// name.
    pub fn add_snippet(&mut self, snippet: Snippet)
        requires
            old(self).wf(),
        ensures
            final(self).wf(),
            entries_map(final(self)@) == entries_map(old(self)@).insert(snippet@.name, snippet@),
            has_name(old(self)@, snippet@.name) ==> final(self)@.len() == old(self)@.len(),
            !has_name(old(self)@, snippet@.name) ==> final(self)@.len() == old(self)@.len() + 1,
    {
        let ghost entries: Seq<SnippetView> = self@;
        let ghost v: SnippetView = snippet@;
        let n = self.snippets.len();
        let mut i: usize = 0;
        let mut found: bool = false;
        while i < n && !found
            invariant
                n == self.snippets@.len(),
                i <= n,
                entries == self@,
                v == snippet@,
                found ==> i < n && entries[i as int].name == v.name,
                !found ==> forall|j: int| 0 <= j < i ==> (#[trigger] entries[j]).name != v.name,
            decreases n - i + (if found { 0int } else { 1int }),
        {
            if self.snippets[i].name == snippet.name {
                found = true;
                proof {
                    assert(entries[i as int] == self.snippets@[i as int]@);
                    assert(entries[i as int].name == self.snippets@[i as int].name@);
                    assert(v.name == snippet.name@);
                }
            } else {
                proof {
                    assert(entries[i as int] == self.snippets@[i as int]@);
                    assert(entries[i as int].name == self.snippets@[i as int].name@);
                    assert(v.name == snippet.name@);
                    assert(entries[i as int].name != v.name);
                }
                i = i + 1;
            }
        }
        if found {
            let ghost pre_vec: Seq<Snippet> = self.snippets@;
            proof {
                assert(has_name(entries, v.name)) by {
                    assert(entries[i as int].name == v.name);
                }
            }
            self.snippets[i] = snippet;
            proof {
                assert(self.snippets@[i as int]@ == v);
                assert forall|j: int| 0 <= j < self@.len() implies self@[j] == entries.update(
                    i as int,
                    v,
                )[j] by {
                    assert(self@[j] == self.snippets@[j]@);
                    if j != i {
                        assert(self.snippets@[j] == pre_vec[j]);
                        assert(entries[j] == snippets_view(pre_vec)[j]);
                        assert(entries[j] == pre_vec[j]@);
                    }
                }
                assert(self@ =~= entries.update(i as int, v));
                lemma_entries_map_update(entries, i as int, v);
                assert forall|p: int, q: int|
                    0 <= p < q < self@.len() implies (#[trigger] self@[p]).name
                    != (#[trigger] self@[q]).name by {
                    let u = entries.update(i as int, v);
                    assert(self@[p] == u[p]);
                    assert(self@[q] == u[q]);
                    if p != i && q != i {
                        assert(entries[p].name != entries[q].name);
                    } else if p == i {
                        assert(u[p].name == entries[p].name);
                        assert(entries[p].name != entries[q].name);
                    } else {
                        assert(u[q].name == entries[q].name);
                        assert(entries[p].name != entries[q].name);
                    }
                }
            }
        } else {
            let ghost pre_vec: Seq<Snippet> = self.snippets@;
            proof {
                assert(!has_name(entries, v.name)) by {
                    if has_name(entries, v.name) {
                        let j = choose|j: int|
                            0 <= j < entries.len() && entries[j].name == v.name;
                        assert(entries[j].name != v.name);
                    }
                }
            }
            self.snippets.push(snippet);
            proof {
                assert(self.snippets@ == pre_vec.push(snippet));
                assert forall|j: int| 0 <= j < self@.len() implies self@[j] == entries.push(v)[j] by {
                    assert(self@[j] == self.snippets@[j]@);
                    if j < entries.len() {
                        assert(self.snippets@[j] == pre_vec[j]);
                        assert(entries[j] == pre_vec[j]@);
                    } else {
                        assert(self.snippets@[j]@ == v);
                    }
                }
                assert(self@ =~= entries.push(v));
                assert(entries.push(v).drop_last() =~= entries);
                assert(entries.push(v).last() == v);
                assert forall|p: int, q: int|
                    0 <= p < q < self@.len() implies (#[trigger] self@[p]).name
                    != (#[trigger] self@[q]).name by {
                    if q == entries.len() {
                        assert(self@[p] == entries[p]);
                        assert(self@[q] == v);
                        assert(entries[p].name != v.name);
                    } else {
                        assert(self@[p] == entries[p]);
                        assert(self@[q] == entries[q]);
                        assert(entries[p].name != entries[q].name);
                    }
                }
            }
        }
    }

    /// Inserts several snippets, in order, each overwriting any record
    /// stored under the same name.
    pub fn add_snippets(&mut self, snippets: Vec<Snippet>)
        requires
            old(self).wf(),
        ensures
            final(self).wf(),
            entries_map(final(self)@) == inserted_all(
                entries_map(old(self)@),
                snippets_view(snippets@),
            ),
    {
        let ghost m0: Map<Seq<char>, SnippetView> = entries_map(self@);
        let ghost vs: Seq<SnippetView> = snippets_view(snippets@);
        let mut rest = snippets;
        proof {
            assert(rest@ =~= snippets@.subrange(0, snippets@.len() as int));
        }
        let ghost mut i: int = 0;
        while rest.len() > 0
            invariant
                0 <= i,
                i + rest@.len() == vs.len(),
                rest@ == snippets@.subrange(i, vs.len() as int),
                vs == snippets_view(snippets@),
                self.wf(),
                entries_map(self@) == inserted_all(m0, vs.subrange(0, i)),
            decreases rest@.len(),
        {
            let snippet = rest.remove(0);
            proof {
                assert(rest@ =~= snippets@.subrange(i + 1, vs.len() as int));
                assert(snippet == snippets@[i]);
                assert(snippet@ == vs[i]);
            }
            self.add_snippet(snippet);
            proof {
                let pre = vs.subrange(0, i);
                let ext = vs.subrange(0, i + 1);
                assert(ext.drop_last() =~= pre);
                assert(ext.last() == vs[i]);
                i = i + 1;
            }
        }
        proof {
            assert(vs.subrange(0, vs.len() as int) =~= vs);
        }
    }

    /// Serializes the collection to the snippets-file JSON document; the
    /// encoder cannot fail on this data model.
    pub fn to_json(&self) -> (r: Result<String, Error>)
        ensures
            r matches Ok(text) && text@ == file_json(self@),
    {
        let mut out = String::new();
        push_char(&mut out, '{');
        let ghost opened: Seq<char> = out@;
        proof {
            assert(opened =~= seq!['{']);
            assert(opened + entry_items(self@.subrange(0, 0)) =~= opened);
        }
        let n = self.snippets.len();
        let mut i: usize = 0;
        while i < n
            invariant
                n == self.snippets@.len(),
                i <= n,
                opened == seq!['{'],
                out@ == opened + entry_items(self@.subrange(0, i as int)),
            decreases n - i,
        {
            if i > 0 {
                push_char(&mut out, ',');
            }
            append_quoted(&mut out, self.snippets[i].name.as_str());
            push_char(&mut out, ':');
            append_snippet_json(&mut out, &self.snippets[i]);
            proof {
                let pre = self@.subrange(0, i as int);
                let ext = self@.subrange(0, i as int + 1);
                assert(ext.drop_last() =~= pre);
                assert(ext.last() == self@[i as int]);
                if i == 0 {
                    assert(entry_items(ext) == quoted(self@[0].name) + seq![':'] + snippet_json(
                        self@[0],
                    ));
                    assert(out@ =~= opened + entry_items(ext));
                } else {
                    assert(entry_items(ext) == entry_items(pre) + seq![','] + quoted(
                        self@[i as int].name,
                    ) + seq![':'] + snippet_json(self@[i as int]));
                    assert(out@ =~= opened + entry_items(ext));
                }
            }
            i = i + 1;
        }
        proof {
            assert(self@.subrange(0, n as int) =~= self@);
        }
        push_char(&mut out, '}');
        assert(out@ =~= file_json(self@));
        Ok(out)
    }
}

} // verus!
