//! The notes that a graph is built from: each with its identifier and the
//! targets it mentions, and no identifier twice.

use vstd::hash_map::StringHashMap;
use vstd::prelude::*;

verus! {

/// One note: its identifier and the targets it mentions, in order.
#[derive(Clone, Debug, PartialEq, Eq)]
pub struct Document {
    pub id: String,
    pub links: Vec<String>,
}

/// What a `Document` holds, as plain sequences.
pub ghost struct DocumentView {
    pub id: Seq<char>,
    pub links: Seq<Seq<char>>,
}

impl View for Document {
    type V = DocumentView;

    open spec fn view(&self) -> DocumentView {
        DocumentView { id: self.id@, links: self.links.deep_view() }
    }
}

/// The identifier of the note in the file of this name: the name without
/// its extension, where the extension is `md` and something stands before
/// it. Other files hold no note.
pub open spec fn note_id_of(file_name: Seq<char>) -> Option<Seq<char>> {
    let n = file_name.len() as int;
    if n > 3 && file_name[n - 3] == '.' && file_name[n - 2] == 'm' && file_name[n - 1] == 'd' {
        Some(file_name.subrange(0, n - 3))
    } else {
        None
    }
}

/// The identifier of the note in the file of this name, if the file holds
/// a note.
pub fn note_id(file_name: &str) -> (id: Option<String>)
    ensures
        match id {
            Some(id) => note_id_of(file_name@) == Some(id@),
            None => note_id_of(file_name@) is None,
        },
{
    let n = file_name.unicode_len();
    if n > 3 && file_name.get_char(n - 3) == '.' && file_name.get_char(n - 2) == 'm'
        && file_name.get_char(n - 1) == 'd' {
        Some(file_name.substring_char(0, n - 3).to_owned())
    } else {
        None
    }
}

/// The identifiers of a sequence of notes, in order.
pub open spec fn ids(docs: Seq<DocumentView>) -> Seq<Seq<char>> {
    docs.map_values(|d: DocumentView| d.id)
}

/// No two notes share an identifier.
pub open spec fn distinct_ids(docs: Seq<DocumentView>) -> bool {
    ids(docs).no_duplicates()
}

/// `docs` with the note `id`: a note with that identifier keeps its place
/// and takes the new links; a new identifier goes to the end.
pub open spec fn with_document(
    docs: Seq<DocumentView>,
    id: Seq<char>,
    links: Seq<Seq<char>>,
) -> Seq<DocumentView> {
    if ids(docs).contains(id) {
        docs.update(ids(docs).index_of(id), DocumentView { id, links })
    } else {
        docs.push(DocumentView { id, links })
    }
}

/// The number of mentions in the first `n` notes.
pub open spec fn links_upto(docs: Seq<DocumentView>, n: int) -> nat
    decreases n,
{
    if n <= 0 {
        0
    } else {
        links_upto(docs, n - 1) + docs[n - 1].links.len()
    }
}

/// The number of mentions in all notes.
pub open spec fn link_total(docs: Seq<DocumentView>) -> nat {
    links_upto(docs, docs.len() as int)
}

/// The graph's indices are 32 bits wide: it takes fewer than `u32::MAX`
/// notes, and fewer than `u32::MAX` mentions in all.
pub open spec fn within_capacity(docs: Seq<DocumentView>) -> bool {
    docs.len() < u32::MAX && link_total(docs) < u32::MAX
}

/// The mentions of the first `n` notes are among those of all notes.
pub proof fn lemma_links_upto_bound(docs: Seq<DocumentView>, n: int)
    requires
        0 <= n <= docs.len(),
    ensures
        links_upto(docs, n) <= link_total(docs),
    decreases docs.len() - n,
{
    if n < docs.len() {
        lemma_links_upto_bound(docs, n + 1);
    }
}

/// A set of notes keyed by identifier, in the order in which the identifiers
/// first came.
pub struct Corpus {
    docs: Vec<Document>,
    index: StringHashMap<usize>,
}

impl View for Corpus {
    type V = Seq<DocumentView>;

    closed spec fn view(&self) -> Seq<DocumentView> {
        self.docs@.map_values(|d: Document| d@)
    }
}

impl Corpus {
    /// The index holds the place of each note under the note's identifier,
    /// and nothing else; so no identifier occurs twice.
    pub closed spec fn wf(&self) -> bool {
        &&& forall|i: int|
            0 <= i < self@.len() ==> self.index@.contains_key(#[trigger] self@[i].id)
                && self.index@[self@[i].id] == i
        &&& forall|id: Seq<char>| #[trigger]
            self.index@.contains_key(id) ==> self.index@[id] < self@.len()
                && self@[self.index@[id] as int].id == id
    }

    /// A corpus holds no identifier twice.
    pub proof fn lemma_distinct(&self)
        requires
            self.wf(),
        ensures
            distinct_ids(self@),
    {
        let names = ids(self@);
        assert forall|i: int, j: int|
            0 <= i < names.len() && 0 <= j < names.len() && i != j implies names[i]
            != names[j] by {}
    }

    /// A corpus without notes.
    pub fn new() -> (corpus: Corpus)
        ensures
            corpus.wf(),
            corpus@ == Seq::<DocumentView>::empty(),
    {
        Corpus { docs: Vec::new(), index: StringHashMap::new() }
    }

    /// The number of notes.
    pub fn len(&self) -> (n: usize)
        ensures
            n == self@.len(),
    {
        self.docs.len()
    }

    /// The note at place `i`.
    pub fn document(&self, i: usize) -> (doc: &Document)
        requires
            i < self@.len(),
        ensures
            doc@ == self@[i as int],
    {
        &self.docs[i]
    }

    /// Whether a graph can hold the corpus.
    pub fn fits(&self) -> (b: bool)
        ensures
            b == within_capacity(self@),
    {
        let n = self.docs.len();
        if n >= u32::MAX as usize {
            return false;
        }
        let mut total: usize = 0;
        let mut i: usize = 0;
        while i < n
            invariant
                i <= n,
                n == self@.len(),
                total == links_upto(self@, i as int),
                total < u32::MAX,
            decreases n - i,
        {
            let m = self.docs[i].links.len();
            proof {
                lemma_links_upto_bound(self@, i + 1);
            }
            if m >= u32::MAX as usize - total {
                return false;
            }
            total = total + m;
            i += 1;
        }
        true
    }

    /// The place of the note `id`, if the corpus has it.
    pub fn position(&self, id: &String) -> (place: Option<usize>)
        requires
            self.wf(),
        ensures
            match place {
                Some(i) => i < self@.len() && self@[i as int].id == id@,
                None => !ids(self@).contains(id@),
            },
    {
        match self.index.get(id.as_str()) {
            Some(place) => Some(*place),
            None => {
                assert forall|i: int| 0 <= i < self@.len() implies ids(self@)[i] != id@ by {}
                None
            },
        }
    }

    /// Puts a note into the corpus. A note that the corpus already has under
    /// this identifier is replaced, in its place.
    pub fn insert(&mut self, id: String, links: Vec<String>)
        requires
            old(self).wf(),
        ensures
            final(self).wf(),
            final(self)@ == with_document(old(self)@, id@, links.deep_view()),
    {
        let ghost before = self@;
        let ghost entry = DocumentView { id: id@, links: links.deep_view() };
        proof {
            self.lemma_distinct();
        }
        match self.position(&id) {
            Some(i) => {
                self.docs.set(i, Document { id, links });
                proof {
                    assert(ids(before)[i as int] == entry.id);
                    assert(self@ =~= before.update(i as int, entry));
                    assert forall|k: int| 0 <= k < self@.len() implies self@[k].id
                        == before[k].id by {}
                }
            },
            None => {
                let place = self.docs.len();
                self.index.insert(id.clone(), place);
                self.docs.push(Document { id, links });
                proof {
                    assert(self@ =~= before.push(entry));
                    assert forall|k: int| 0 <= k < before.len() implies before[k].id
                        != entry.id by {
                        assert(ids(before)[k] == before[k].id);
                    }
                }
            },
        }
    }
}

} // verus!
