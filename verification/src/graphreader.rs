//! From notes to a graph: one node for each note, one edge for each mention
//! of another note, and a report of what was found on the way.

use crate::corpus::{
    distinct_ids, ids, lemma_links_upto_bound, links_upto, with_document, within_capacity, Corpus,
    DocumentView,
};
use crate::forcegraph::{
    add_note, dense, edge_slots, empty_graph, filled, incident, link_notes, neighbor_count,
    node_slots,
};
use crate::links::{link_targets, read_links};
use fdg_sim::ForceGraph;
use vstd::prelude::*;
use vstd::string::StringExecFns;
use vstd::utf8::{decode_utf8, valid_utf8};

verus! {

/// What building a graph may report. None of these stops the building.
#[derive(Clone, Debug, PartialEq, Eq)]
pub enum Diagnostic {
    /// A note that could not be read as text; it is not part of the graph.
    Unreadable { id: String },
    /// A mention in `source` of a note that does not exist.
    DanglingLink { source: String, target: String },
    /// A mention of a note in itself.
    SelfReference { id: String },
    /// A note that no edge joins to another.
    Orphan { id: String },
}

/// What a `Diagnostic` holds, as plain sequences.
pub ghost enum Finding {
    Unreadable { id: Seq<char> },
    DanglingLink { source: Seq<char>, target: Seq<char> },
    SelfReference { id: Seq<char> },
    Orphan { id: Seq<char> },
}

impl View for Diagnostic {
    type V = Finding;

    open spec fn view(&self) -> Finding {
        match self {
            Diagnostic::Unreadable { id } => Finding::Unreadable { id: id@ },
            Diagnostic::DanglingLink { source, target } => Finding::DanglingLink {
                source: source@,
                target: target@,
            },
            Diagnostic::SelfReference { id } => Finding::SelfReference { id: id@ },
            Diagnostic::Orphan { id } => Finding::Orphan { id: id@ },
        }
    }
}

/// What a finding says in words.
pub open spec fn message_of(finding: Finding) -> Seq<char> {
    match finding {
        Finding::Unreadable { id } => id + " could not be read"@,
        Finding::DanglingLink { source, target } => target + " is a bad link from "@ + source,
        Finding::SelfReference { id } => "Self reference in "@ + id,
        Finding::Orphan { id } => id + " has no neighbors"@,
    }
}

impl Diagnostic {
    /// The diagnostic in words, for the reader of the report.
    pub fn message(&self) -> (text: String)
        ensures
            text@ == message_of(self@),
    {
        match self {
            Diagnostic::Unreadable { id } => id.clone().concat(" could not be read"),
            Diagnostic::DanglingLink { source, target } => target.clone().concat(
                " is a bad link from ",
            ).concat(source.as_str()),
            Diagnostic::SelfReference { id } => "Self reference in ".to_owned().concat(
                id.as_str(),
            ),
            Diagnostic::Orphan { id } => id.clone().concat(" has no neighbors"),
        }
    }
}

impl DeepView for Diagnostic {
    type V = Finding;

    open spec fn deep_view(&self) -> Finding {
        self@
    }
}

/// What becomes of one mention.
pub ghost enum Outcome {
    /// An edge to the node with this index.
    Edge(int),
    /// The target is no note.
    Dangling,
    /// The target is the note that mentions it.
    SelfReference,
}

/// What becomes of the mention of `target` in the note at place `source`.
pub open spec fn resolve(ids: Seq<Seq<char>>, source: int, target: Seq<char>) -> Outcome {
    if !ids.contains(target) {
        Outcome::Dangling
    } else if target == ids[source] {
        Outcome::SelfReference
    } else {
        Outcome::Edge(ids.index_of(target))
    }
}

/// The edge that one mention gives, if it gives one.
pub open spec fn link_edge(ids: Seq<Seq<char>>, source: int, target: Seq<char>) -> Seq<
    (int, int),
> {
    match resolve(ids, source, target) {
        Outcome::Edge(t) => seq![(source, t)],
        _ => Seq::empty(),
    }
}

/// The finding that one mention gives, if it gives one.
pub open spec fn link_finding(ids: Seq<Seq<char>>, source: int, target: Seq<char>) -> Seq<
    Finding,
> {
    match resolve(ids, source, target) {
        Outcome::Edge(_) => Seq::empty(),
        Outcome::Dangling => seq![Finding::DanglingLink { source: ids[source], target }],
        Outcome::SelfReference => seq![Finding::SelfReference { id: target }],
    }
}

/// The edges that the mentions `links` of the note at place `source` give,
/// in the order of the mentions.
pub open spec fn note_edges(ids: Seq<Seq<char>>, source: int, links: Seq<Seq<char>>) -> Seq<
    (int, int),
>
    decreases links.len(),
{
    if links.len() == 0 {
        Seq::empty()
    } else {
        note_edges(ids, source, links.drop_last()) + link_edge(ids, source, links.last())
    }
}

/// The findings that the mentions `links` of the note at place `source`
/// give, in the order of the mentions.
pub open spec fn note_findings(ids: Seq<Seq<char>>, source: int, links: Seq<Seq<char>>) -> Seq<
    Finding,
>
    decreases links.len(),
{
    if links.len() == 0 {
        Seq::empty()
    } else {
        note_findings(ids, source, links.drop_last()) + link_finding(ids, source, links.last())
    }
}

/// The edges that the first `n` notes give.
pub open spec fn edges_upto(docs: Seq<DocumentView>, n: int) -> Seq<(int, int)>
    decreases n,
{
    if n <= 0 {
        Seq::empty()
    } else {
        edges_upto(docs, n - 1) + note_edges(ids(docs), n - 1, docs[n - 1].links)
    }
}

/// The findings that the mentions of the first `n` notes give.
pub open spec fn findings_upto(docs: Seq<DocumentView>, n: int) -> Seq<Finding>
    decreases n,
{
    if n <= 0 {
        Seq::empty()
    } else {
        findings_upto(docs, n - 1) + note_findings(ids(docs), n - 1, docs[n - 1].links)
    }
}

/// The edges of the graph of `docs`: for each note in turn, for each of its
/// mentions in turn, the edge from the note to the one it mentions.
pub open spec fn resolved_edges(docs: Seq<DocumentView>) -> Seq<(int, int)> {
    edges_upto(docs, docs.len() as int)
}

/// No edge has `a` at either end.
pub open spec fn is_orphan(edges: Seq<(int, int)>, a: int) -> bool {
    forall|k: int| 0 <= k < edges.len() ==> (#[trigger] edges[k]).0 != a && edges[k].1 != a
}

/// The orphans among the first `n` nodes, in order.
pub open spec fn orphans_upto(ids: Seq<Seq<char>>, edges: Seq<(int, int)>, n: int) -> Seq<
    Finding,
>
    decreases n,
{
    if n <= 0 {
        Seq::empty()
    } else if is_orphan(edges, n - 1) {
        orphans_upto(ids, edges, n - 1).push(Finding::Orphan { id: ids[n - 1] })
    } else {
        orphans_upto(ids, edges, n - 1)
    }
}

/// The report on the graph of `docs`: what the mentions gave, in their order,
/// then the orphans, in the order of the nodes.
pub open spec fn report_of(docs: Seq<DocumentView>) -> Seq<Finding> {
    findings_upto(docs, docs.len() as int) + orphans_upto(
        ids(docs),
        resolved_edges(docs),
        docs.len() as int,
    )
}

/// A graph with the report on its building.
pub struct Built {
    pub graph: ForceGraph<(), ()>,
    pub report: Vec<Diagnostic>,
}

/// A node has no edge exactly where no edge slot touches it.
proof fn lemma_incident_zero(edges: Seq<(int, int)>, a: int)
    ensures
        (incident(filled(edges), a) == 0) == is_orphan(edges, a),
    decreases edges.len(),
{
    let slots = filled(edges);
    if edges.len() > 0 {
        let rest = edges.drop_last();
        assert(slots.drop_last() =~= filled(rest));
        lemma_incident_zero(rest, a);
        if is_orphan(edges, a) {
            assert forall|k: int| 0 <= k < rest.len() implies (#[trigger] rest[k]).0 != a
                && rest[k].1 != a by {}
        } else if is_orphan(rest, a) {
            assert forall|k: int| 0 <= k < edges.len() - 1 implies (#[trigger] edges[k]).0 != a
                && edges[k].1 != a by {
                assert(rest[k] == edges[k]);
            }
        }
    }
}

/// A note gives at most one edge for each of its mentions.
proof fn lemma_note_edges_len(ids: Seq<Seq<char>>, source: int, links: Seq<Seq<char>>)
    ensures
        note_edges(ids, source, links).len() <= links.len(),
    decreases links.len(),
{
    if links.len() > 0 {
        lemma_note_edges_len(ids, source, links.drop_last());
    }
}

/// The first `n` notes give at most one edge for each of their mentions.
proof fn lemma_edges_upto_len(docs: Seq<DocumentView>, n: int)
    requires
        0 <= n <= docs.len(),
    ensures
        edges_upto(docs, n).len() <= links_upto(docs, n),
    decreases n,
{
    if n > 0 {
        lemma_edges_upto_len(docs, n - 1);
        lemma_note_edges_len(ids(docs), n - 1, docs[n - 1].links);
    }
}

/// One node for each note, in the order of the corpus, and no edge.
fn add_nodes(corpus: &Corpus) -> (graph: ForceGraph<(), ()>)
    requires
        corpus@.len() < u32::MAX,
    ensures
        node_slots(graph) == filled(ids(corpus@)),
        edge_slots(graph).len() == 0,
{
    let mut graph = empty_graph();
    let n = corpus.len();
    let mut i: usize = 0;
    while i < n
        invariant
            i <= n,
            n == corpus@.len(),
            n < u32::MAX,
            node_slots(graph) == filled(ids(corpus@).take(i as int)),
            edge_slots(graph).len() == 0,
        decreases n - i,
    {
        add_note(&mut graph, &corpus.document(i).id);
        i += 1;
    }
    graph
}

/// Resolves the mentions of the note at place `source`: an edge for each
/// mention of another note, a finding for each other mention.
fn add_note_links(
    graph: &mut ForceGraph<(), ()>,
    report: &mut Vec<Diagnostic>,
    corpus: &Corpus,
    source: usize,
)
    requires
        corpus.wf(),
        source < corpus@.len() < u32::MAX,
        node_slots(*old(graph)) == filled(ids(corpus@)),
        dense(edge_slots(*old(graph))),
        edge_slots(*old(graph)).len() + corpus@[source as int].links.len() < u32::MAX,
    ensures
        node_slots(*final(graph)) == node_slots(*old(graph)),
        edge_slots(*final(graph)) == edge_slots(*old(graph)) + filled(
            note_edges(ids(corpus@), source as int, corpus@[source as int].links),
        ),
        final(report).deep_view() == old(report).deep_view() + note_findings(
            ids(corpus@),
            source as int,
            corpus@[source as int].links,
        ),
{
    let doc = corpus.document(source);
    proof {
        corpus.lemma_distinct();
    }
    let ghost names = ids(corpus@);
    let ghost links = corpus@[source as int].links;
    let ghost edges0 = edge_slots(*graph);
    let ghost report0 = report.deep_view();
    let m = doc.links.len();
    let mut k: usize = 0;
    while k < m
        invariant
            k <= m,
            m == links.len(),
            corpus.wf(),
            distinct_ids(corpus@),
            names == ids(corpus@),
            doc@ == corpus@[source as int],
            links == corpus@[source as int].links,
            source < corpus@.len() < u32::MAX,
            node_slots(*graph) == filled(names),
            edges0.len() + m < u32::MAX,
            dense(edges0),
            edge_slots(*graph) == edges0 + filled(
                note_edges(names, source as int, links.take(k as int)),
            ),
            report.deep_view() == report0 + note_findings(
                names,
                source as int,
                links.take(k as int),
            ),
        decreases m - k,
    {
        let target = &doc.links[k];
        let ghost done = links.take(k as int);
        let ghost next = links.take(k as int + 1);
        proof {
            assert(next.drop_last() =~= done);
            lemma_note_edges_len(names, source as int, done);
        }
        match corpus.position(target) {
            None => {
                let found = Diagnostic::DanglingLink {
                    source: doc.id.clone(),
                    target: target.clone(),
                };
                let ghost so_far = report.deep_view();
                report.push(found);
                proof {
                    assert(report.deep_view() =~= so_far.push(found@));
                }
            },
            Some(t) => {
                proof {
                    assert(names[t as int] == target@);
                }
                if t == source {
                    let found = Diagnostic::SelfReference { id: target.clone() };
                    let ghost so_far = report.deep_view();
                    report.push(found);
                    proof {
                        assert(report.deep_view() =~= so_far.push(found@));
                    }
                } else {
                    link_notes(graph, source, t);
                }
            },
        }
        k += 1;
    }
    assert(links.take(m as int) =~= links);
}

/// Reports the nodes that no edge joins to another.
fn report_orphans(graph: &ForceGraph<(), ()>, report: &mut Vec<Diagnostic>, corpus: &Corpus)
    requires
        corpus@.len() < u32::MAX,
        edge_slots(*graph) == filled(resolved_edges(corpus@)),
    ensures
        final(report).deep_view() == old(report).deep_view() + orphans_upto(
            ids(corpus@),
            resolved_edges(corpus@),
            corpus@.len() as int,
        ),
{
    let ghost names = ids(corpus@);
    let ghost edges = resolved_edges(corpus@);
    let ghost report0 = report.deep_view();
    let n = corpus.len();
    let mut i: usize = 0;
    while i < n
        invariant
            i <= n,
            n == corpus@.len(),
            n < u32::MAX,
            names == ids(corpus@),
            edges == resolved_edges(corpus@),
            edge_slots(*graph) == filled(edges),
            report.deep_view() == report0 + orphans_upto(names, edges, i as int),
        decreases n - i,
    {
        proof {
            lemma_incident_zero(edges, i as int);
        }
        if neighbor_count(graph, i) == 0 {
            let found = Diagnostic::Orphan { id: corpus.document(i).id.clone() };
            let ghost so_far = report.deep_view();
            report.push(found);
            proof {
                assert(report.deep_view() =~= so_far.push(found@));
            }
        }
        i += 1;
    }
}

/// Builds the graph of a corpus: a node for each note, in the order of the
/// corpus and named by the note's identifier; an edge for each mention of
/// another note of the corpus, in the order of the mentions; and the report.
/// A mention of a note that the corpus lacks, or of the note itself, gives a
/// finding and no edge. A corpus without notes gives an empty graph.
pub fn build_graph(corpus: &Corpus) -> (built: Built)
    requires
        corpus.wf(),
        within_capacity(corpus@),
    ensures
        node_slots(built.graph) == filled(ids(corpus@)),
        edge_slots(built.graph) == filled(resolved_edges(corpus@)),
        built.report.deep_view() == report_of(corpus@),
{
    let mut graph = add_nodes(corpus);
    let mut report: Vec<Diagnostic> = Vec::new();
    let n = corpus.len();
    let mut i: usize = 0;
    while i < n
        invariant
            i <= n,
            n == corpus@.len(),
            corpus.wf(),
            within_capacity(corpus@),
            node_slots(graph) == filled(ids(corpus@)),
            edge_slots(graph) == filled(edges_upto(corpus@, i as int)),
            report.deep_view() == findings_upto(corpus@, i as int),
        decreases n - i,
    {
        proof {
            lemma_edges_upto_len(corpus@, i as int);
            lemma_links_upto_bound(corpus@, i + 1);
        }
        add_note_links(&mut graph, &mut report, corpus, i);
        i += 1;
    }
    report_orphans(&graph, &mut report, corpus);
    Built { graph, report }
}

/// A note as it was found: its identifier and its content, or no content
/// where the note could not be read.
#[derive(Clone, Debug, PartialEq, Eq)]
pub struct RawNote {
    pub id: String,
    pub content: Option<Vec<u8>>,
}

/// What a `RawNote` stands for: its identifier and its text, or no text
/// where the note could not be read as text.
pub ghost struct RawNoteView {
    pub id: Seq<char>,
    pub text: Option<Seq<char>>,
}

/// The text of a note's content: what the bytes encode in UTF-8, and nothing
/// where there are no bytes or where they encode no text.
pub open spec fn text_of(content: Option<Vec<u8>>) -> Option<Seq<char>> {
    match content {
        Some(bytes) => if valid_utf8(bytes@) {
            Some(decode_utf8(bytes@))
        } else {
            None
        },
        None => None,
    }
}

impl View for RawNote {
    type V = RawNoteView;

    open spec fn view(&self) -> RawNoteView {
        RawNoteView { id: self.id@, text: text_of(self.content) }
    }
}

impl DeepView for RawNote {
    type V = RawNoteView;

    open spec fn deep_view(&self) -> RawNoteView {
        self@
    }
}

/// The corpus of the first `n` notes: each readable note with the targets
/// that its text mentions; of two notes with one identifier the later is
/// kept, in the place of the earlier.
pub open spec fn corpus_upto(notes: Seq<RawNoteView>, n: int) -> Seq<DocumentView>
    decreases n,
{
    if n <= 0 {
        Seq::empty()
    } else {
        match notes[n - 1].text {
            Some(text) => with_document(
                corpus_upto(notes, n - 1),
                notes[n - 1].id,
                link_targets(text),
            ),
            None => corpus_upto(notes, n - 1),
        }
    }
}

/// The corpus of all the notes.
pub open spec fn corpus_of(notes: Seq<RawNoteView>) -> Seq<DocumentView> {
    corpus_upto(notes, notes.len() as int)
}

/// A finding for each of the first `n` notes that could not be read.
pub open spec fn unreadable_upto(notes: Seq<RawNoteView>, n: int) -> Seq<Finding>
    decreases n,
{
    if n <= 0 {
        Seq::empty()
    } else if notes[n - 1].text is None {
        unreadable_upto(notes, n - 1).push(Finding::Unreadable { id: notes[n - 1].id })
    } else {
        unreadable_upto(notes, n - 1)
    }
}

/// Why no graph was built.
#[derive(Clone, Copy, Debug, PartialEq, Eq)]
pub enum BuildError {
    /// There was no note at all.
    NoDocuments,
    /// The notes, or their mentions, are more than the graph's 32-bit
    /// indices can number.
    TooLarge,
}

/// Reads the notes into a corpus: the mentions of each note that is text
/// are extracted from it, and each note that could not be read, or is no
/// text, is reported and left out.
pub fn read_corpus(notes: &Vec<RawNote>) -> (read: (Corpus, Vec<Diagnostic>))
    ensures
        read.0.wf(),
        read.0@ == corpus_of(notes.deep_view()),
        read.1.deep_view() == unreadable_upto(notes.deep_view(), notes.len() as int),
{
    let ghost raw = notes.deep_view();
    let mut corpus = Corpus::new();
    let mut report: Vec<Diagnostic> = Vec::new();
    let n = notes.len();
    let mut i: usize = 0;
    while i < n
        invariant
            i <= n,
            n == notes.len(),
            raw == notes.deep_view(),
            corpus.wf(),
            corpus@ == corpus_upto(raw, i as int),
            report.deep_view() == unreadable_upto(raw, i as int),
        decreases n - i,
    {
        let note = &notes[i];
        let links = match &note.content {
            Some(bytes) => read_links(bytes.as_slice()),
            None => None,
        };
        match links {
            Some(links) => {
                corpus.insert(note.id.clone(), links);
            },
            None => {
                let found = Diagnostic::Unreadable { id: note.id.clone() };
                report.push(found);
            },
        }
        i += 1;
    }
    (corpus, report)
}

/// Builds the graph of a set of notes, with the report: first the notes
/// that could not be read, then what `build_graph` reports on the rest.
///
/// Fails with `NoDocuments` exactly where `notes` is empty, and with
/// `TooLarge` exactly where there are notes and the graph could not hold
/// their corpus.
pub fn generate_graph(notes: &Vec<RawNote>) -> (outcome: Result<Built, BuildError>)
    ensures
        match outcome {
            Ok(built) => {
                let docs = corpus_of(notes.deep_view());
                &&& notes.len() > 0
                &&& within_capacity(docs)
                &&& node_slots(built.graph) == filled(ids(docs))
                &&& edge_slots(built.graph) == filled(resolved_edges(docs))
                &&& built.report.deep_view() == unreadable_upto(
                    notes.deep_view(),
                    notes.len() as int,
                ) + report_of(docs)
            },
            Err(BuildError::NoDocuments) => notes.len() == 0,
            Err(BuildError::TooLarge) => notes.len() > 0 && !within_capacity(
                corpus_of(notes.deep_view()),
            ),
        },
{
    if notes.len() == 0 {
        return Err(BuildError::NoDocuments);
    }
    let (corpus, mut report) = read_corpus(notes);
    if !corpus.fits() {
        return Err(BuildError::TooLarge);
    }
    let built = build_graph(&corpus);
    let Built { graph, report: mut found } = built;
    report.append(&mut found);
    Ok(Built { graph, report })
}

} // verus!
