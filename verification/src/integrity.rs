//! What holds of every graph that is built from a corpus, proved from the
//! definitions that `build_graph` and `generate_graph` are specified by.

use crate::corpus::{distinct_ids, ids, link_total, links_upto, with_document, DocumentView};
use crate::graphreader::{
    corpus_of, corpus_upto, edges_upto, findings_upto, is_orphan, link_finding, note_edges,
    note_findings, orphans_upto, report_of, resolved_edges, Finding, RawNoteView,
};
use crate::links::link_targets;
use vstd::prelude::*;

verus! {

/// The edge `e` stands for a mention: it leaves a note of `docs` for another
/// note of `docs` whose identifier the first one mentions.
pub open spec fn from_mention(docs: Seq<DocumentView>, e: (int, int)) -> bool {
    &&& 0 <= e.0 < docs.len()
    &&& 0 <= e.1 < docs.len()
    &&& e.0 != e.1
    &&& docs[e.0].links.contains(docs[e.1].id)
}

/// The number of places at which `x` stands in `s`.
pub open spec fn occurrences<T>(s: Seq<T>, x: T) -> nat
    decreases s.len(),
{
    if s.len() == 0 {
        0
    } else if s.last() == x {
        occurrences(s.drop_last(), x) + 1
    } else {
        occurrences(s.drop_last(), x)
    }
}

/// The number of edges that leave the node `a`.
pub open spec fn out_degree(edges: Seq<(int, int)>, a: int) -> nat
    decreases edges.len(),
{
    if edges.len() == 0 {
        0
    } else if edges.last().0 == a {
        out_degree(edges.drop_last(), a) + 1
    } else {
        out_degree(edges.drop_last(), a)
    }
}

/// The identifiers of the first `n` notes that could be read.
pub open spec fn readable_ids(notes: Seq<RawNoteView>, n: int) -> Set<Seq<char>> {
    Set::new(
        |id: Seq<char>|
            exists|j: int| 0 <= j < n && #[trigger] notes[j].id == id && notes[j].text is Some,
    )
}

/// What stands in two sequences stands as often in the two put together.
proof fn lemma_occurrences_add<T>(s: Seq<T>, t: Seq<T>, x: T)
    ensures
        occurrences(s + t, x) == occurrences(s, x) + occurrences(t, x),
    decreases t.len(),
{
    if t.len() > 0 {
        assert((s + t).drop_last() =~= s + t.drop_last());
        lemma_occurrences_add(s, t.drop_last(), x);
    }
}

/// The edges of one note stand for mentions of that note.
proof fn lemma_note_edges_from_mentions(docs: Seq<DocumentView>, source: int, links: Seq<Seq<char>>)
    requires
        0 <= source < docs.len(),
        forall|k: int| 0 <= k < links.len() ==> docs[source].links.contains(#[trigger] links[k]),
    ensures
        forall|k: int|
            0 <= k < note_edges(ids(docs), source, links).len() ==> from_mention(
                docs,
                #[trigger] note_edges(ids(docs), source, links)[k],
            ) && note_edges(ids(docs), source, links)[k].0 == source,
    decreases links.len(),
{
    let names = ids(docs);
    if links.len() > 0 {
        let rest = links.drop_last();
        assert forall|k: int| 0 <= k < rest.len() implies docs[source].links.contains(
            #[trigger] rest[k],
        ) by {}
        lemma_note_edges_from_mentions(docs, source, rest);
        let before = note_edges(names, source, rest);
        let all = note_edges(names, source, links);
        assert forall|k: int| 0 <= k < all.len() implies from_mention(docs, #[trigger] all[k])
            && all[k].0 == source by {}
    }
}

/// Every edge of the graph stands for a mention: it joins two different
/// notes of the corpus, the first of which mentions the second. So a note
/// that mentions itself has no edge for that, and a mention of a note that
/// the corpus lacks has none either.
pub proof fn lemma_edges_from_mentions(docs: Seq<DocumentView>)
    ensures
        forall|k: int|
            0 <= k < resolved_edges(docs).len() ==> from_mention(
                docs,
                #[trigger] resolved_edges(docs)[k],
            ),
{
    lemma_edges_upto_from_mentions(docs, docs.len() as int);
}

/// The edges of the first `n` notes stand for mentions of those notes.
proof fn lemma_edges_upto_from_mentions(docs: Seq<DocumentView>, n: int)
    requires
        0 <= n <= docs.len(),
    ensures
        forall|k: int|
            0 <= k < edges_upto(docs, n).len() ==> from_mention(
                docs,
                #[trigger] edges_upto(docs, n)[k],
            ) && edges_upto(docs, n)[k].0 < n,
    decreases n,
{
    if n > 0 {
        lemma_edges_upto_from_mentions(docs, n - 1);
        let links = docs[n - 1].links;
        assert forall|k: int| 0 <= k < links.len() implies docs[n - 1].links.contains(
            #[trigger] links[k],
        ) by {}
        lemma_note_edges_from_mentions(docs, n - 1, links);
        let before = edges_upto(docs, n - 1);
        let all = edges_upto(docs, n);
        assert forall|k: int| 0 <= k < all.len() implies from_mention(docs, #[trigger] all[k])
            && all[k].0 < n by {}
    }
}

/// A node that no edge leaves has out-degree zero.
proof fn lemma_out_degree_zero(edges: Seq<(int, int)>, a: int)
    requires
        forall|k: int| 0 <= k < edges.len() ==> (#[trigger] edges[k]).0 != a,
    ensures
        out_degree(edges, a) == 0,
    decreases edges.len(),
{
    if edges.len() > 0 {
        let rest = edges.drop_last();
        assert forall|k: int| 0 <= k < rest.len() implies (#[trigger] rest[k]).0 != a by {}
        lemma_out_degree_zero(rest, a);
    }
}

/// A note that mentions nothing has its node, under its identifier and at
/// its place, and no edge leaves that node.
pub proof fn lemma_note_without_links(docs: Seq<DocumentView>, i: int)
    requires
        0 <= i < docs.len(),
        docs[i].links.len() == 0,
    ensures
        ids(docs)[i] == docs[i].id,
        out_degree(resolved_edges(docs), i) == 0,
{
    lemma_edges_from_mentions(docs);
    let edges = resolved_edges(docs);
    assert forall|k: int| 0 <= k < edges.len() implies (#[trigger] edges[k]).0 != i by {}
    lemma_out_degree_zero(edges, i);
}

/// Among the findings on the mentions of one note, a self-reference stands
/// once for each mention of the note's own identifier, and a dangling link
/// once for each mention of an identifier that no note has.
proof fn lemma_note_findings_count(
    names: Seq<Seq<char>>,
    source: int,
    links: Seq<Seq<char>>,
    finding: Finding,
)
    requires
        0 <= source < names.len(),
    ensures
        finding matches Finding::SelfReference { id } ==> occurrences(
            note_findings(names, source, links),
            finding,
        ) == if id == names[source] {
            occurrences(links, id)
        } else {
            0
        },
        finding matches Finding::DanglingLink { source: from, target } ==> occurrences(
            note_findings(names, source, links),
            finding,
        ) == if from == names[source] && !names.contains(target) {
            occurrences(links, target)
        } else {
            0
        },
        finding is Orphan || finding is Unreadable ==> occurrences(
            note_findings(names, source, links),
            finding,
        ) == 0,
    decreases links.len(),
{
    if links.len() > 0 {
        let rest = links.drop_last();
        let last = links.last();
        lemma_note_findings_count(names, source, rest, finding);
        lemma_occurrences_add(
            note_findings(names, source, rest),
            link_finding(names, source, last),
            finding,
        );
        let one = link_finding(names, source, last);
        if one.len() == 1 {
            assert(occurrences(one.drop_last(), finding) == 0);
        }
    }
}

/// Among the findings on the mentions of the first `n` notes, those on the
/// note at place `i` stand as often as that note gives rise to them.
proof fn lemma_findings_upto_count(docs: Seq<DocumentView>, n: int, i: int, finding: Finding)
    requires
        0 <= n <= docs.len(),
        0 <= i < docs.len(),
        distinct_ids(docs),
        finding matches Finding::SelfReference { id } ==> id == docs[i].id,
        finding matches Finding::DanglingLink { source, target } ==> source == docs[i].id && !ids(
            docs,
        ).contains(target),
        finding is SelfReference || finding is DanglingLink,
    ensures
        occurrences(findings_upto(docs, n), finding) == if i < n {
            match finding {
                Finding::SelfReference { id } => occurrences(docs[i].links, id),
                Finding::DanglingLink { source, target } => occurrences(docs[i].links, target),
                _ => 0,
            }
        } else {
            0
        },
    decreases n,
{
    if n > 0 {
        let names = ids(docs);
        lemma_findings_upto_count(docs, n - 1, i, finding);
        lemma_note_findings_count(names, n - 1, docs[n - 1].links, finding);
        lemma_occurrences_add(
            findings_upto(docs, n - 1),
            note_findings(names, n - 1, docs[n - 1].links),
            finding,
        );
        if n - 1 != i {
            assert(names[n - 1] != names[i]);
        }
    }
}

/// Among the orphans stands nothing but orphans.
proof fn lemma_orphans_count(
    names: Seq<Seq<char>>,
    edges: Seq<(int, int)>,
    n: int,
    finding: Finding,
)
    requires
        !(finding is Orphan),
    ensures
        occurrences(orphans_upto(names, edges, n), finding) == 0,
    decreases n,
{
    if n > 0 {
        lemma_orphans_count(names, edges, n - 1, finding);
        let before = orphans_upto(names, edges, n - 1);
        let orphan = Finding::Orphan { id: names[n - 1] };
        assert(before.push(orphan).drop_last() =~= before);
    }
}

/// A note that mentions itself is reported for it once for each such
/// mention: the report holds the self-reference of a note as often as the
/// note's mentions hold the note's own identifier.
pub proof fn lemma_self_references_reported(docs: Seq<DocumentView>, i: int)
    requires
        distinct_ids(docs),
        0 <= i < docs.len(),
    ensures
        occurrences(report_of(docs), Finding::SelfReference { id: docs[i].id }) == occurrences(
            docs[i].links,
            docs[i].id,
        ),
{
    let finding = Finding::SelfReference { id: docs[i].id };
    let n = docs.len() as int;
    lemma_findings_upto_count(docs, n, i, finding);
    lemma_orphans_count(ids(docs), resolved_edges(docs), n, finding);
    lemma_occurrences_add(
        findings_upto(docs, n),
        orphans_upto(ids(docs), resolved_edges(docs), n),
        finding,
    );
}

/// A mention of an identifier that no note has is reported once for each
/// such mention: the report holds the dangling link from a note to `target`
/// as often as the note's mentions hold `target`.
pub proof fn lemma_dangling_links_reported(docs: Seq<DocumentView>, i: int, target: Seq<char>)
    requires
        distinct_ids(docs),
        0 <= i < docs.len(),
        !ids(docs).contains(target),
    ensures
        occurrences(
            report_of(docs),
            Finding::DanglingLink { source: docs[i].id, target },
        ) == occurrences(docs[i].links, target),
{
    let finding = Finding::DanglingLink { source: docs[i].id, target };
    let n = docs.len() as int;
    lemma_findings_upto_count(docs, n, i, finding);
    lemma_orphans_count(ids(docs), resolved_edges(docs), n, finding);
    lemma_occurrences_add(
        findings_upto(docs, n),
        orphans_upto(ids(docs), resolved_edges(docs), n),
        finding,
    );
}

/// Among the orphans of the first `n` nodes, a node stands once if no edge
/// has it at an end, and not at all if one has.
proof fn lemma_orphans_upto_count(docs: Seq<DocumentView>, edges: Seq<(int, int)>, n: int, i: int)
    requires
        distinct_ids(docs),
        0 <= n <= docs.len(),
        0 <= i < docs.len(),
    ensures
        occurrences(orphans_upto(ids(docs), edges, n), Finding::Orphan { id: docs[i].id }) == if i
            < n && is_orphan(edges, i) {
            1nat
        } else {
            0nat
        },
    decreases n,
{
    if n > 0 {
        let names = ids(docs);
        lemma_orphans_upto_count(docs, edges, n - 1, i);
        let before = orphans_upto(names, edges, n - 1);
        let orphan = Finding::Orphan { id: names[n - 1] };
        assert(before.push(orphan).drop_last() =~= before);
        if n - 1 != i {
            assert(names[n - 1] != names[i]);
        }
    }
}

/// A note that no edge joins to another is reported as an orphan, once, and
/// a note that has an edge is not.
pub proof fn lemma_orphans_reported(docs: Seq<DocumentView>, i: int)
    requires
        distinct_ids(docs),
        0 <= i < docs.len(),
    ensures
        occurrences(report_of(docs), Finding::Orphan { id: docs[i].id }) == if is_orphan(
            resolved_edges(docs),
            i,
        ) {
            1nat
        } else {
            0nat
        },
{
    let finding = Finding::Orphan { id: docs[i].id };
    let n = docs.len() as int;
    lemma_findings_count_other(docs, n, finding);
    lemma_orphans_upto_count(docs, resolved_edges(docs), n, i);
    lemma_occurrences_add(
        findings_upto(docs, n),
        orphans_upto(ids(docs), resolved_edges(docs), n),
        finding,
    );
}

/// The findings on mentions are dangling links and self-references, nothing
/// else.
proof fn lemma_findings_count_other(docs: Seq<DocumentView>, n: int, finding: Finding)
    requires
        0 <= n <= docs.len(),
        finding is Orphan || finding is Unreadable,
    ensures
        occurrences(findings_upto(docs, n), finding) == 0,
    decreases n,
{
    if n > 0 {
        lemma_findings_count_other(docs, n - 1, finding);
        lemma_note_findings_count(ids(docs), n - 1, docs[n - 1].links, finding);
        lemma_occurrences_add(
            findings_upto(docs, n - 1),
            note_findings(ids(docs), n - 1, docs[n - 1].links),
            finding,
        );
    }
}

/// Each mention of one note gives an edge or a finding, and never both.
proof fn lemma_note_accounted(names: Seq<Seq<char>>, source: int, links: Seq<Seq<char>>)
    ensures
        note_edges(names, source, links).len() + note_findings(names, source, links).len()
            == links.len(),
    decreases links.len(),
{
    if links.len() > 0 {
        lemma_note_accounted(names, source, links.drop_last());
    }
}

/// Each mention of the first `n` notes gives an edge or a finding, and never
/// both.
proof fn lemma_upto_accounted(docs: Seq<DocumentView>, n: int)
    requires
        0 <= n <= docs.len(),
    ensures
        edges_upto(docs, n).len() + findings_upto(docs, n).len() == links_upto(docs, n),
    decreases n,
{
    if n > 0 {
        lemma_upto_accounted(docs, n - 1);
        lemma_note_accounted(ids(docs), n - 1, docs[n - 1].links);
    }
}

/// No mention is lost: each gives an edge of the graph or a finding of the
/// report, and never both, so that the edges and the findings on mentions
/// are as many as the mentions.
pub proof fn lemma_every_mention_accounted(docs: Seq<DocumentView>)
    ensures
        resolved_edges(docs).len() + findings_upto(docs, docs.len() as int).len() == link_total(
            docs,
        ),
{
    lemma_upto_accounted(docs, docs.len() as int);
}

/// Putting a note into notes with distinct identifiers leaves the
/// identifiers distinct, and adds the note's identifier to them.
pub proof fn lemma_with_document(docs: Seq<DocumentView>, id: Seq<char>, links: Seq<Seq<char>>)
    requires
        distinct_ids(docs),
    ensures
        distinct_ids(with_document(docs, id, links)),
        ids(with_document(docs, id, links)).to_set() == ids(docs).to_set().insert(id),
{
    let names = ids(docs);
    let after = with_document(docs, id, links);
    if names.contains(id) {
        assert(ids(after) =~= names);
    } else {
        assert forall|a: int, b: int|
            0 <= a < ids(after).len() && 0 <= b < ids(after).len() && a != b implies ids(
            after,
        )[a] != ids(after)[b] by {
            if a < names.len() {
                assert(names.contains(names[a]));
            }
            if b < names.len() {
                assert(names.contains(names[b]));
            }
        }
        assert(ids(after).to_set() =~= names.to_set().insert(id)) by {
            assert forall|x: Seq<char>| ids(after).to_set().contains(x) implies names.to_set().insert(
                id,
            ).contains(x) by {
                let k = choose|k: int| 0 <= k < ids(after).len() && ids(after)[k] == x;
                if k < names.len() {
                    assert(names[k] == x);
                }
            }
            assert forall|x: Seq<char>| names.to_set().insert(id).contains(x) implies ids(
                after,
            ).to_set().contains(x) by {
                if x == id {
                    assert(ids(after)[names.len() as int] == x);
                } else {
                    let k = choose|k: int| 0 <= k < names.len() && names[k] == x;
                    assert(ids(after)[k] == x);
                }
            }
        }
    }
}

/// The graph has one node for each identifier: with distinct identifiers,
/// as many nodes as there are identifiers, whatever the edges are.
pub proof fn lemma_node_count(docs: Seq<DocumentView>)
    requires
        distinct_ids(docs),
    ensures
        ids(docs).len() == ids(docs).to_set().len(),
{
    ids(docs).unique_seq_to_set();
}

/// The corpus of a set of notes has each identifier of a readable note once.
pub proof fn lemma_corpus_ids(notes: Seq<RawNoteView>, n: int)
    requires
        0 <= n <= notes.len(),
    ensures
        distinct_ids(corpus_upto(notes, n)),
        ids(corpus_upto(notes, n)).to_set() == readable_ids(notes, n),
    decreases n,
{
    if n > 0 {
        lemma_corpus_ids(notes, n - 1);
        let before = corpus_upto(notes, n - 1);
        match notes[n - 1].text {
            Some(text) => {
                lemma_with_document(before, notes[n - 1].id, link_targets(text));
                assert(readable_ids(notes, n) =~= readable_ids(notes, n - 1).insert(
                    notes[n - 1].id,
                )) by {
                    assert forall|x: Seq<char>| readable_ids(notes, n).contains(x) implies readable_ids(
                        notes,
                        n - 1,
                    ).insert(notes[n - 1].id).contains(x) by {}
                }
            },
            None => {
                assert(readable_ids(notes, n) =~= readable_ids(notes, n - 1)) by {
                    assert forall|x: Seq<char>| readable_ids(notes, n).contains(x) implies readable_ids(
                        notes,
                        n - 1,
                    ).contains(x) by {}
                }
            },
        }
    }
}

/// The graph of a set of notes has as many nodes as the readable notes have
/// different identifiers.
pub proof fn lemma_node_count_of_notes(notes: Seq<RawNoteView>)
    ensures
        ids(corpus_of(notes)).len() == readable_ids(notes, notes.len() as int).len(),
{
    lemma_corpus_ids(notes, notes.len() as int);
    lemma_node_count(corpus_of(notes));
}

} // verus!
