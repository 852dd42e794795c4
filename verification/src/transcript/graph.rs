//! How the blocks of a transcript relate to each other.
use vstd::prelude::*;

use crate::text::{clone_option, push_item};
use crate::transcript::models::{
    GraphEdgeKind, LineKind, SourceContinuity, TranscriptBlock, TranscriptBlockView,
    TranscriptGraph, TranscriptGraphEdge, TranscriptGraphEdgeView, TranscriptGraphNode,
    TranscriptGraphNodeView, TranscriptGraphView,
};

verus! {

/// A relation between two blocks, by their positions.
pub struct Link {
    pub from: int,
    pub to: int,
    pub kind: GraphEdgeKind,
}

/// The relations between blocks, the question that an answer would respond to, and the
/// objection that interrupted it.
#[verifier::ext_equal]
pub struct Links {
    pub links: Seq<Link>,
    pub question: Option<int>,
    pub interruptor: Option<int>,
}

/// Whether a block ends what was asked before it.
pub open spec fn ends_questioning(kind: LineKind) -> bool {
    kind == LineKind::ExaminationHeading || kind == LineKind::Heading || kind
        == LineKind::RedactionMarker || kind == LineKind::Parenthetical
}

/// The relations after one more block.
pub open spec fn link_step(l: Links, blocks: Seq<TranscriptBlockView>, index: int) -> Links {
    let block = blocks[index];
    let followed = if index > 0 {
        l.links.push(Link { from: index - 1, to: index, kind: GraphEdgeKind::Follows })
    } else {
        l.links
    };
    let gap = block.source_continuity == SourceContinuity::GapBefore;
    let question = if gap {
        None
    } else {
        l.question
    };
    let interruptor = if gap {
        None
    } else {
        l.interruptor
    };
    match block.kind {
        LineKind::Question => Links {
            links: match interruptor {
                Some(i) => followed.push(
                    Link { from: index, to: i, kind: GraphEdgeKind::ResumesAfter },
                ),
                None => followed,
            },
            question: Some(index),
            interruptor: None,
        },
        LineKind::Answer => Links {
            links: match question {
                Some(q) => followed.push(
                    Link { from: index, to: q, kind: GraphEdgeKind::RespondsTo },
                ),
                None => followed,
            },
            question,
            interruptor,
        },
        LineKind::Objection => match question {
            Some(q) => Links {
                links: followed.push(
                    Link { from: index, to: q, kind: GraphEdgeKind::Interrupts },
                ),
                question,
                interruptor: Some(index),
            },
            None => Links { links: followed, question, interruptor },
        },
        LineKind::InterpreterStatement => Links {
            links: if index > 0 {
                followed.push(
                    Link { from: index, to: index - 1, kind: GraphEdgeKind::Interprets },
                )
            } else {
                followed
            },
            question,
            interruptor,
        },
        _ => if ends_questioning(block.kind) {
            Links { links: followed, question: None, interruptor: None }
        } else {
            Links { links: followed, question, interruptor }
        },
    }
}

/// The relations between the first `n` blocks.
pub open spec fn links_after(blocks: Seq<TranscriptBlockView>, n: int) -> Links
    decreases n,
{
    if n <= 0 {
        Links { links: seq![], question: None, interruptor: None }
    } else {
        link_step(links_after(blocks, n - 1), blocks, n - 1)
    }
}

/// The identifier of a block's node.
pub open spec fn node_id(block: TranscriptBlockView) -> Seq<char> {
    "node_"@ + block.id
}

/// A relation, by the identifiers of its nodes.
pub open spec fn graph_edge(link: Link, blocks: Seq<TranscriptBlockView>) ->
    TranscriptGraphEdgeView {
    TranscriptGraphEdgeView {
        from: node_id(blocks[link.from]),
        to: node_id(blocks[link.to]),
        kind: link.kind,
    }
}

/// Relations, by the identifiers of their nodes.
pub open spec fn graph_edges(links: Seq<Link>, blocks: Seq<TranscriptBlockView>) -> Seq<
    TranscriptGraphEdgeView,
> {
    Seq::new(links.len(), |k: int| graph_edge(links[k], blocks))
}

/// The node of a block.
pub open spec fn graph_node(block: TranscriptBlockView) -> TranscriptGraphNodeView {
    TranscriptGraphNodeView {
        id: node_id(block),
        block_id: block.id,
        kind: block.kind,
        participant_id: block.participant_id,
    }
}

/// The blocks of a transcript and how they relate.
pub open spec fn transcript_graph(blocks: Seq<TranscriptBlockView>) -> TranscriptGraphView {
    TranscriptGraphView {
        nodes: Seq::new(blocks.len(), |i: int| graph_node(blocks[i])),
        edges: graph_edges(links_after(blocks, blocks.len() as int).links, blocks),
    }
}

fn node_name(block: &TranscriptBlock) -> (r: String)
    ensures
        r@ == node_id(block.deep_view()),
{
    "node_".to_owned().concat(block.id.as_str())
}

fn push_edge(
    edges: &mut Vec<TranscriptGraphEdge>,
    blocks: &Vec<TranscriptBlock>,
    from: usize,
    to: usize,
    kind: GraphEdgeKind,
    Ghost(links): Ghost<Seq<Link>>,
)
    requires
        from < blocks@.len(),
        to < blocks@.len(),
        old(edges).deep_view() == graph_edges(links, blocks.deep_view()),
    ensures
        final(edges).deep_view() == graph_edges(
            links.push(Link { from: from as int, to: to as int, kind }),
            blocks.deep_view(),
        ),
{
    assert(blocks.deep_view()[from as int] == blocks@[from as int].deep_view());
    assert(blocks.deep_view()[to as int] == blocks@[to as int].deep_view());
    let ghost link = Link { from: from as int, to: to as int, kind };
    push_item(
        edges,
        TranscriptGraphEdge { from: node_name(&blocks[from]), to: node_name(&blocks[to]), kind },
    );
    assert(edges.deep_view() =~= graph_edges(links.push(link), blocks.deep_view()));
}

fn build_nodes(blocks: &Vec<TranscriptBlock>) -> (r: Vec<TranscriptGraphNode>)
    ensures
        r.deep_view() == transcript_graph(blocks.deep_view()).nodes,
{
    let ghost view = blocks.deep_view();
    let mut nodes: Vec<TranscriptGraphNode> = Vec::new();
    for i in 0..blocks.len()
        invariant
            view == blocks.deep_view(),
            nodes.deep_view() == Seq::new(i as nat, |j: int| graph_node(view[j])),
    {
        assert(view[i as int] == blocks@[i as int].deep_view());
        let block = &blocks[i];
        push_item(
            &mut nodes,
            TranscriptGraphNode {
                id: node_name(block),
                block_id: block.id.clone(),
                kind: block.kind,
                participant_id: clone_option(&block.participant_id),
            },
        );
        assert(nodes.deep_view() =~= Seq::new((i + 1) as nat, |j: int| graph_node(view[j])));
    }
    nodes
}

/// Whether positions and their executable counterparts agree.
spec fn same_position(a: Option<usize>, b: Option<int>) -> bool {
    match (a, b) {
        (Some(i), Some(j)) => i == j,
        (None, None) => true,
        _ => false,
    }
}

pub fn build_transcript_graph(blocks: &Vec<TranscriptBlock>) -> (r: TranscriptGraph)
    ensures
        r.deep_view() == transcript_graph(blocks.deep_view()),
{
    let ghost view = blocks.deep_view();
    let nodes = build_nodes(blocks);
    let mut edges: Vec<TranscriptGraphEdge> = Vec::new();
    let mut question: Option<usize> = None;
    let mut interruptor: Option<usize> = None;
    assert(edges.deep_view() =~= graph_edges(seq![], view));
    for index in 0..blocks.len()
        invariant
            view == blocks.deep_view(),
            edges.deep_view() == graph_edges(links_after(view, index as int).links, view),
            same_position(question, links_after(view, index as int).question),
            same_position(interruptor, links_after(view, index as int).interruptor),
            question matches Some(q) ==> q < index,
            interruptor matches Some(i) ==> i < index,
    {
        assert(view[index as int] == blocks@[index as int].deep_view());
        let ghost before = links_after(view, index as int);
        let ghost followed = if index > 0 {
            before.links.push(Link { from: index - 1, to: index as int, kind: GraphEdgeKind::Follows })
        } else {
            before.links
        };
        if index > 0 {
            push_edge(
                &mut edges,
                blocks,
                index - 1,
                index,
                GraphEdgeKind::Follows,
                Ghost(before.links),
            );
        }
        if blocks[index].source_continuity == SourceContinuity::GapBefore {
            question = None;
            interruptor = None;
        }
        match blocks[index].kind {
            LineKind::Question => {
                match interruptor {
                    Some(i) => {
                        push_edge(
                            &mut edges,
                            blocks,
                            index,
                            i,
                            GraphEdgeKind::ResumesAfter,
                            Ghost(followed),
                        );
                    },
                    None => {},
                }
                interruptor = None;
                question = Some(index);
            },
            LineKind::Answer => {
                match question {
                    Some(q) => {
                        push_edge(
                            &mut edges,
                            blocks,
                            index,
                            q,
                            GraphEdgeKind::RespondsTo,
                            Ghost(followed),
                        );
                    },
                    None => {},
                }
            },
            LineKind::Objection => {
                match question {
                    Some(q) => {
                        push_edge(
                            &mut edges,
                            blocks,
                            index,
                            q,
                            GraphEdgeKind::Interrupts,
                            Ghost(followed),
                        );
                        interruptor = Some(index);
                    },
                    None => {},
                }
            },
            LineKind::InterpreterStatement => {
                if index > 0 {
                    push_edge(
                        &mut edges,
                        blocks,
                        index,
                        index - 1,
                        GraphEdgeKind::Interprets,
                        Ghost(followed),
                    );
                }
            },
            LineKind::ExaminationHeading
            | LineKind::Heading
            | LineKind::RedactionMarker
            | LineKind::Parenthetical => {
                question = None;
                interruptor = None;
            },
            _ => {},
        }
    }
    TranscriptGraph { nodes, edges }
}

// ---------------------------------------------------------------------------
// Laws
// ---------------------------------------------------------------------------

/// Whether a block leaves an open question open: there is no gap in the source before it, and it
/// is no heading, no redaction, no parenthetical and no other question.
pub open spec fn keeps_question(block: TranscriptBlockView) -> bool {
    &&& block.source_continuity != SourceContinuity::GapBefore
    &&& block.kind != LineKind::Question
    &&& block.kind != LineKind::ExaminationHeading
    &&& block.kind != LineKind::Heading
    &&& block.kind != LineKind::RedactionMarker
    &&& block.kind != LineKind::Parenthetical
}

/// Whether the question at `q` is still open before the block at `n`: no gap in the source,
/// no heading, no redaction and no parenthetical came since, and no other question.
pub open spec fn question_open(blocks: Seq<TranscriptBlockView>, q: int, n: int) -> bool {
    &&& 0 <= q < n <= blocks.len()
    &&& blocks[q].kind == LineKind::Question
    &&& forall|m: int| q < m < n ==> keeps_question(#[trigger] blocks[m])
}

/// Whether the block at `i` is an objection to an open question, and the last one before the
/// block at `n` that any question may resume after.
pub open spec fn objection_open(blocks: Seq<TranscriptBlockView>, i: int, n: int) -> bool {
    &&& 0 <= i < n <= blocks.len()
    &&& blocks[i].kind == LineKind::Objection
    &&& blocks[i].source_continuity != SourceContinuity::GapBefore
    &&& exists|q: int| question_open(blocks, q, i)
    &&& forall|m: int|
        i < m < n ==> keeps_question(#[trigger] blocks[m]) && blocks[m].kind != LineKind::Objection
}

/// Whether two blocks are related in a way, by nothing but the blocks themselves: each block
/// follows the one before it, an answer responds to the question that is open, an objection
/// interrupts it, the next question resumes after the objection, and an interpreter interprets
/// what was said just before.
pub open spec fn related(
    blocks: Seq<TranscriptBlockView>,
    from: int,
    to: int,
    kind: GraphEdgeKind,
) -> bool {
    match kind {
        GraphEdgeKind::Follows => to == from + 1,
        GraphEdgeKind::RespondsTo => {
            &&& blocks[from].kind == LineKind::Answer
            &&& blocks[from].source_continuity != SourceContinuity::GapBefore
            &&& question_open(blocks, to, from)
        },
        GraphEdgeKind::Interrupts => {
            &&& blocks[from].kind == LineKind::Objection
            &&& blocks[from].source_continuity != SourceContinuity::GapBefore
            &&& question_open(blocks, to, from)
        },
        GraphEdgeKind::ResumesAfter => {
            &&& blocks[from].kind == LineKind::Question
            &&& blocks[from].source_continuity != SourceContinuity::GapBefore
            &&& objection_open(blocks, to, from)
        },
        GraphEdgeKind::Interprets => {
            &&& blocks[from].kind == LineKind::InterpreterStatement
            &&& to == from - 1
        },
    }
}

/// The later of the two blocks that a relation joins.
pub open spec fn later_end(link: Link) -> int {
    if link.from < link.to {
        link.to
    } else {
        link.from
    }
}

proof fn lemma_open_positions(blocks: Seq<TranscriptBlockView>, n: int)
    requires
        0 <= n <= blocks.len(),
    ensures
        forall|q: int|
            question_open(blocks, q, n) <==> links_after(blocks, n).question == Some(q),
        forall|i: int|
            objection_open(blocks, i, n) <==> links_after(blocks, n).interruptor == Some(i),
    decreases n,
{
    if n > 0 {
        lemma_open_positions(blocks, n - 1);
        let before = links_after(blocks, n - 1);
        let after = links_after(blocks, n);
        let block = blocks[n - 1];
        assert(after == link_step(before, blocks, n - 1));
        if before.question is Some {
            assert(question_open(blocks, before.question->0, n - 1));
        }
        assert forall|q: int|
            question_open(blocks, q, n) <==> after.question == Some(q) by {
            if q < n - 1 {
                assert(question_open(blocks, q, n) <==> question_open(blocks, q, n - 1)
                    && keeps_question(block)) by {
                    if question_open(blocks, q, n - 1) && keeps_question(block) {
                        assert forall|m: int| q < m < n implies keeps_question(
                            #[trigger] blocks[m],
                        ) by {
                            if m < n - 1 {
                                assert(keeps_question(blocks[m]));
                            }
                        }
                    }
                }
            }
        }
        assert forall|i: int|
            objection_open(blocks, i, n) <==> after.interruptor == Some(i) by {
            assert(objection_open(blocks, i, n - 1) <==> before.interruptor == Some(i));
            if i < n - 1 {
                assert(objection_open(blocks, i, n) <==> objection_open(blocks, i, n - 1)
                    && keeps_question(block) && block.kind != LineKind::Objection) by {
                    if objection_open(blocks, i, n) {
                        assert(keeps_question(blocks[n - 1]));
                        assert forall|m: int| i < m < n - 1 implies keeps_question(
                            #[trigger] blocks[m],
                        ) && blocks[m].kind != LineKind::Objection by {}
                    }
                }
                if objection_open(blocks, i, n - 1) {
                    lemma_objection_keeps_question(blocks, i, n - 1);
                    let prior = n - 1;
                    let q = choose|q: int| question_open(blocks, q, prior);
                    assert(before.question == Some(q));
                }
            }
            if i == n - 1 {
                assert(objection_open(blocks, i, n) <==> block.kind == LineKind::Objection
                    && block.source_continuity != SourceContinuity::GapBefore && exists|q: int|
                    question_open(blocks, q, i));
                if objection_open(blocks, i, n) {
                    let q = choose|q: int| question_open(blocks, q, i);
                    assert(before.question == Some(q));
                }
            }
        }
    }
}

/// Where an objection is open, so is a question.
proof fn lemma_objection_keeps_question(blocks: Seq<TranscriptBlockView>, i: int, n: int)
    requires
        objection_open(blocks, i, n),
    ensures
        exists|q: int| question_open(blocks, q, n),
{
    let q = choose|q: int| question_open(blocks, q, i);
    assert(keeps_question(blocks[i]));
    assert forall|m: int| q < m < n implies keeps_question(#[trigger] blocks[m]) by {
        if m < i {
            assert(keeps_question(blocks[m]));
        } else if m > i {
            assert(keeps_question(blocks[m]));
        }
    }
    assert(question_open(blocks, q, n));
}

proof fn lemma_links(blocks: Seq<TranscriptBlockView>, n: int)
    requires
        0 <= n <= blocks.len(),
    ensures
        forall|k: int|
            0 <= k < links_after(blocks, n).links.len() ==> {
                let link = #[trigger] links_after(blocks, n).links[k];
                0 <= link.from < n && 0 <= link.to < n && related(
                    blocks,
                    link.from,
                    link.to,
                    link.kind,
                )
            },
        forall|from: int, to: int, kind: GraphEdgeKind|
            0 <= from < n && 0 <= to < n && related(blocks, from, to, kind)
                ==> #[trigger] links_after(blocks, n).links.contains(Link { from, to, kind }),
        links_after(blocks, n).links.no_duplicates(),
        forall|j: int, k: int|
            0 <= j < k < links_after(blocks, n).links.len() ==> later_end(
                #[trigger] links_after(blocks, n).links[j],
            ) <= later_end(#[trigger] links_after(blocks, n).links[k]),
    decreases n,
{
    if n > 0 {
        lemma_links(blocks, n - 1);
        lemma_open_positions(blocks, n - 1);
        let before = links_after(blocks, n - 1).links;
        let after = links_after(blocks, n).links;
        assert(links_after(blocks, n) == link_step(links_after(blocks, n - 1), blocks, n - 1));
        assert forall|k: int| 0 <= k < before.len() implies after[k] == before[k] by {}
        let open = links_after(blocks, n - 1);
        if open.question is Some {
            assert(question_open(blocks, open.question->0, n - 1));
        }
        if open.interruptor is Some {
            assert(objection_open(blocks, open.interruptor->0, n - 1));
        }
        let added = after.skip(before.len() as int);
        assert(after =~= before + added);
        assert(added.len() <= 2);
        assert forall|k: int| 0 <= k < added.len() implies later_end(#[trigger] added[k]) == n - 1
            && 0 <= added[k].from < n && 0 <= added[k].to < n && related(
            blocks,
            added[k].from,
            added[k].to,
            added[k].kind,
        ) by {}
        assert(added.len() == 2 ==> added[0].kind != added[1].kind);
        assert forall|k: int| 0 <= k < after.len() implies ({
            let link = #[trigger] after[k];
            0 <= link.from < n && 0 <= link.to < n && related(
                blocks,
                link.from,
                link.to,
                link.kind,
            )
        }) by {
            if k >= before.len() {
                assert(after[k] == added[k - before.len()]);
            } else {
                assert(after[k] == before[k]);
            }
        }
        assert forall|from: int, to: int, kind: GraphEdgeKind|
            0 <= from < n && 0 <= to < n && related(blocks, from, to, kind) implies
            #[trigger] after.contains(Link { from, to, kind }) by {
            let link = Link { from, to, kind };
            if from < n - 1 && to < n - 1 {
                assert(before.contains(link));
                let k = choose|k: int| 0 <= k < before.len() && before[k] == link;
                assert(after[k] == link);
            } else {
                let k = before.len() as int;
                assert(after.len() > k);
                assert(after[k] == link || (after.len() > k + 1 && after[k + 1] == link));
            }
        }
        assert forall|j: int, k: int| 0 <= j < k < after.len() implies later_end(
            #[trigger] after[j],
        ) <= later_end(#[trigger] after[k]) && after[j] != after[k] by {
            if j < before.len() {
                assert(after[j] == before[j]);
                if k >= before.len() {
                    assert(after[k] == added[k - before.len()]);
                } else {
                    assert(after[k] == before[k]);
                }
            } else {
                assert(after[j] == added[j - before.len()]);
                assert(after[k] == added[k - before.len()]);
            }
        }
    }
}

/// The relations of a transcript are exactly those that its blocks have: nothing is related
/// that is not, as across a gap in the source, and no answer, objection or resumption that is
/// related is left out. Each relation stands once, in the order of the blocks that bring it.
pub proof fn law_links_are_exact(
    blocks: Seq<TranscriptBlockView>,
    from: int,
    to: int,
    kind: GraphEdgeKind,
)
    requires
        0 <= from < blocks.len(),
        0 <= to < blocks.len(),
    ensures
        ({
            let links = links_after(blocks, blocks.len() as int).links;
            &&& links.contains(Link { from, to, kind }) <==> related(blocks, from, to, kind)
            &&& links.no_duplicates()
            &&& forall|j: int, k: int|
                0 <= j < k < links.len() ==> later_end(#[trigger] links[j]) <= later_end(
                    #[trigger] links[k],
                )
        }),
{
    lemma_links(blocks, blocks.len() as int);
    let links = links_after(blocks, blocks.len() as int).links;
    if links.contains(Link { from, to, kind }) {
        let k = choose|k: int| 0 <= k < links.len() && links[k] == (Link { from, to, kind });
        assert(related(blocks, links[k].from, links[k].to, links[k].kind));
    }
}

/// Whether a relation is one that the blocks between its ends allow.
pub open spec fn sound_link(link: Link, blocks: Seq<TranscriptBlockView>) -> bool {
    match link.kind {
        GraphEdgeKind::Follows => link.to == link.from + 1,
        GraphEdgeKind::RespondsTo => {
            &&& blocks[link.from].kind == LineKind::Answer
            &&& blocks[link.from].source_continuity != SourceContinuity::GapBefore
            &&& question_open(blocks, link.to, link.from)
        },
        GraphEdgeKind::Interrupts => {
            &&& blocks[link.from].kind == LineKind::Objection
            &&& blocks[link.from].source_continuity != SourceContinuity::GapBefore
            &&& question_open(blocks, link.to, link.from)
        },
        GraphEdgeKind::ResumesAfter => {
            &&& blocks[link.from].kind == LineKind::Question
            &&& blocks[link.to].kind == LineKind::Objection
            &&& link.to < link.from
        },
        GraphEdgeKind::Interprets => {
            &&& blocks[link.from].kind == LineKind::InterpreterStatement
            &&& link.to == link.from - 1
        },
    }
}

proof fn lemma_links_are_sound(blocks: Seq<TranscriptBlockView>, n: int)
    requires
        0 <= n <= blocks.len(),
    ensures
        forall|k: int|
            0 <= k < links_after(blocks, n).links.len() ==> {
                let link = #[trigger] links_after(blocks, n).links[k];
                0 <= link.from < n && 0 <= link.to < n && sound_link(link, blocks)
            },
        links_after(blocks, n).question matches Some(q) ==> question_open(blocks, q, n),
        links_after(blocks, n).interruptor matches Some(i) ==> 0 <= i < n && blocks[i].kind
            == LineKind::Objection,
    decreases n,
{
    if n > 0 {
        lemma_links_are_sound(blocks, n - 1);
        let before = links_after(blocks, n - 1);
        let after = links_after(blocks, n);
        assert forall|k: int| 0 <= k < before.links.len() implies after.links[k]
            == before.links[k] by {}
        assert(after == link_step(before, blocks, n - 1));
    }
}

/// Relations join blocks of the document, and an answer or an objection is related only to
/// a question that is still open: never across a gap in the source, a heading, a redaction
/// or a parenthetical.
pub proof fn law_links_are_sound(blocks: Seq<TranscriptBlockView>)
    ensures
        forall|k: int|
            0 <= k < links_after(blocks, blocks.len() as int).links.len() ==> {
                let link = #[trigger] links_after(blocks, blocks.len() as int).links[k];
                0 <= link.from < blocks.len() && 0 <= link.to < blocks.len() && sound_link(
                    link,
                    blocks,
                )
            },
{
    lemma_links_are_sound(blocks, blocks.len() as int);
}

/// The graph has a node for each block, named after it, with its kind and its participant, and an
/// edge for each relation, between the nodes of the two blocks.
pub proof fn law_graph_names_blocks(blocks: Seq<TranscriptBlockView>, i: int, k: int)
    ensures
        ({
            let graph = transcript_graph(blocks);
            let links = links_after(blocks, blocks.len() as int).links;
            &&& graph.nodes.len() == blocks.len()
            &&& graph.edges.len() == links.len()
            &&& 0 <= i < blocks.len() ==> {
                &&& graph.nodes[i].id == "node_"@ + blocks[i].id
                &&& graph.nodes[i].block_id == blocks[i].id
                &&& graph.nodes[i].kind == blocks[i].kind
                &&& graph.nodes[i].participant_id == blocks[i].participant_id
            }
            &&& 0 <= k < links.len() ==> {
                &&& graph.edges[k].from == "node_"@ + blocks[links[k].from].id
                &&& graph.edges[k].to == "node_"@ + blocks[links[k].to].id
                &&& graph.edges[k].kind == links[k].kind
            }
        }),
{
}

/// An answer is joined by an edge to the question that is open before it, and an objection to the
/// question that it interrupts, whatever else was said in between.
pub proof fn law_answers_are_joined_to_questions(
    blocks: Seq<TranscriptBlockView>,
    q: int,
    n: int,
)
    requires
        0 <= q < n < blocks.len(),
        blocks[q].kind == LineKind::Question,
        forall|m: int|
            q < m < n ==> {
                &&& (#[trigger] blocks[m]).source_continuity != SourceContinuity::GapBefore
                &&& blocks[m].kind != LineKind::Question
                &&& blocks[m].kind != LineKind::ExaminationHeading
                &&& blocks[m].kind != LineKind::Heading
                &&& blocks[m].kind != LineKind::RedactionMarker
                &&& blocks[m].kind != LineKind::Parenthetical
            },
        blocks[n].source_continuity != SourceContinuity::GapBefore,
    ensures
        blocks[n].kind == LineKind::Answer ==> transcript_graph(blocks).edges.contains(
            TranscriptGraphEdgeView {
                from: "node_"@ + blocks[n].id,
                to: "node_"@ + blocks[q].id,
                kind: GraphEdgeKind::RespondsTo,
            },
        ),
        blocks[n].kind == LineKind::Objection ==> transcript_graph(blocks).edges.contains(
            TranscriptGraphEdgeView {
                from: "node_"@ + blocks[n].id,
                to: "node_"@ + blocks[q].id,
                kind: GraphEdgeKind::Interrupts,
            },
        ),
{
    assert(question_open(blocks, q, n));
    let kind = if blocks[n].kind == LineKind::Answer {
        GraphEdgeKind::RespondsTo
    } else {
        GraphEdgeKind::Interrupts
    };
    law_links_are_exact(blocks, n, q, kind);
    if blocks[n].kind == LineKind::Answer || blocks[n].kind == LineKind::Objection {
        let links = links_after(blocks, blocks.len() as int).links;
        let link = Link { from: n, to: q, kind };
        let k = choose|k: int| 0 <= k < links.len() && links[k] == link;
        assert(transcript_graph(blocks).edges[k] == graph_edge(link, blocks));
    }
}

} // verus!
