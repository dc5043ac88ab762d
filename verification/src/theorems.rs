//! What holds of every plan that the ingestion makes.
use vstd::prelude::*;
use crate::chunker::{chunks_of, chunks_of_partition, joined, within, CHUNK_TARGET};
use crate::config::{FileTypesView, IndexTypesView};
use crate::embedding::{jobs_for, jobs_for_every_chunk, JobView};
use crate::entities::{
    chunk_plan, chunk_plans, entity_of, passes_through, planned, planned_siblings, PlanView,
};
use crate::error::IndexError;
use crate::ingestion::{
    file_plan, file_request, left_out, populate_action, ActionView, EntryView, FilePlanView,
};
use crate::language::{grammar_for, Grammar};
use crate::syntax::{
    all_cut_from, all_fit, cut_from, owned_all, parsed_syntax, NodeView, SyntaxView,
};
use crate::text::slice_text;

verus! {

/// What an entity has from its syntax node: the kind of the node, the
/// bytes that it spans and its text.
pub struct Span {
    pub kind: Seq<char>,
    pub start_byte: nat,
    pub end_byte: nat,
    pub text: Seq<char>,
}

/// The span of a syntax node.
pub open spec fn span_of_node(node: NodeView) -> Span {
    Span {
        kind: node.kind,
        start_byte: node.start_byte,
        end_byte: node.end_byte,
        text: node.text,
    }
}

/// The span of a planned entity.
pub open spec fn span_of_plan(plan: PlanView) -> Span {
    Span {
        kind: plan.entity.entity_type,
        start_byte: plan.entity.start_byte,
        end_byte: plan.entity.end_byte,
        text: plan.entity.text,
    }
}

/// The test that the index-type filter makes of a node in a file of the
/// extension `extension`.
pub open spec fn is_indexed_node(extension: Seq<char>, index_types: IndexTypesView) -> spec_fn(
    NodeView,
) -> bool {
    |node: NodeView| index_types.indexes(extension, node.kind)
}

/// The entities created directly below a file are the children of the root
/// of its syntax tree that the index-type filter lets pass, in source order,
/// each as a super entity. This is stated for a file none of whose top-level
/// nodes is a Python block that passes its children through.
pub proof fn top_level_entities_are_the_indexed_children(
    nodes: Seq<NodeView>,
    extension: Seq<char>,
    index_types: IndexTypesView,
)
    requires
        forall|i: int| 0 <= i < nodes.len() ==> !passes_through(#[trigger] nodes[i], extension),
    ensures
        planned_siblings(nodes, true, extension, index_types).map_values(
            |plan: PlanView| span_of_plan(plan),
        ) == nodes.filter(is_indexed_node(extension, index_types)).map_values(
            |node: NodeView| span_of_node(node),
        ),
        forall|j: int|
            0 <= j < planned_siblings(nodes, true, extension, index_types).len()
                ==> (#[trigger] planned_siblings(nodes, true, extension, index_types)[j]).is_super,
    decreases nodes.len(),
{
    reveal(Seq::filter);
    let keep = is_indexed_node(extension, index_types);
    if nodes.len() > 0 {
        let before = nodes.drop_last();
        let last = nodes.last();
        assert forall|i: int| 0 <= i < before.len() implies !passes_through(
            #[trigger] before[i],
            extension,
        ) by {
            assert(before[i] == nodes[i]);
        }
        top_level_entities_are_the_indexed_children(before, extension, index_types);
        assert(!passes_through(nodes[nodes.len() - 1], extension));
        let plan_before = planned_siblings(before, true, extension, index_types);
        let plan_last = planned(last, true, nodes.len(), extension, index_types);
        let plan = planned_siblings(nodes, true, extension, index_types);
        assert(plan == plan_before + plan_last);
        if keep(last) {
            assert(plan_last.len() == 1);
            assert(span_of_plan(plan_last[0]) == span_of_node(last));
            assert(nodes.filter(keep) == before.filter(keep).push(last));
            assert(plan.map_values(|plan: PlanView| span_of_plan(plan)) =~= plan_before.map_values(
                |plan: PlanView| span_of_plan(plan),
            ).push(span_of_node(last)));
            assert(nodes.filter(keep).map_values(|node: NodeView| span_of_node(node))
                =~= before.filter(keep).map_values(|node: NodeView| span_of_node(node)).push(
                span_of_node(last),
            ));
        } else {
            assert(plan_last.len() == 0);
            assert(plan =~= plan_before);
            assert(nodes.filter(keep) == before.filter(keep));
        }
    } else {
        assert(planned_siblings(nodes, true, extension, index_types).map_values(
            |plan: PlanView| span_of_plan(plan),
        ) =~= Seq::<Span>::empty());
        assert(nodes.filter(keep).map_values(|node: NodeView| span_of_node(node)) =~= Seq::<
            Span,
        >::empty());
    }
}

/// In a group of siblings each of which becomes an entity, the entities
/// are numbered `1..n` in source order, without gap or repetition: the
/// entity at position `i` is made of the node at position `i` and has the
/// order `i + 1`.
pub proof fn sibling_orders_count_from_one(
    nodes: Seq<NodeView>,
    is_super: bool,
    extension: Seq<char>,
    index_types: IndexTypesView,
)
    requires
        forall|i: int|
            0 <= i < nodes.len() ==> {
                &&& !passes_through(#[trigger] nodes[i], extension)
                &&& index_types.indexes(extension, nodes[i].kind)
            },
    ensures
        planned_siblings(nodes, is_super, extension, index_types).len() == nodes.len(),
        forall|i: int|
            0 <= i < nodes.len() ==> (#[trigger] planned_siblings(
                nodes,
                is_super,
                extension,
                index_types,
            )[i]).entity == entity_of(nodes[i], (i + 1) as nat),
    decreases nodes.len(),
{
    if nodes.len() > 0 {
        let before = nodes.drop_last();
        assert forall|i: int| 0 <= i < before.len() implies {
            &&& !passes_through(#[trigger] before[i], extension)
            &&& index_types.indexes(extension, before[i].kind)
        } by {
            assert(before[i] == nodes[i]);
        }
        sibling_orders_count_from_one(before, is_super, extension, index_types);
        let last = nodes[nodes.len() - 1];
        assert(!passes_through(last, extension) && index_types.indexes(extension, last.kind));
        let plan_before = planned_siblings(before, is_super, extension, index_types);
        let plan_last = planned(last, is_super, nodes.len(), extension, index_types);
        assert(nodes.last() == last);
        assert(planned_siblings(nodes, is_super, extension, index_types) == plan_before
            + plan_last);
        assert(plan_last.len() == 1);
        assert(plan_last[0].entity == entity_of(last, nodes.len()));
        assert forall|i: int| 0 <= i < nodes.len() implies (#[trigger] planned_siblings(
            nodes,
            is_super,
            extension,
            index_types,
        )[i]).entity == entity_of(nodes[i], (i + 1) as nat) by {
            if i < nodes.len() - 1 {
                assert(before[i] == nodes[i]);
            }
        }
    }
}

/// The entities made of the chunks of a file are numbered `1..k` in the
/// order of the chunks, and each carries its chunk as its text.
pub proof fn chunk_orders_count_from_one(chunks: Seq<Seq<char>>)
    ensures
        chunk_plans(chunks).len() == chunks.len(),
        forall|i: int|
            0 <= i < chunks.len() ==> #[trigger] chunk_plans(chunks)[i] == chunk_plan(
                chunks[i],
                (i + 1) as nat,
            ),
    decreases chunks.len(),
{
    if chunks.len() > 0 {
        chunk_orders_count_from_one(chunks.drop_last());
        assert forall|i: int| 0 <= i < chunks.len() implies #[trigger] chunk_plans(chunks)[i]
            == chunk_plan(chunks[i], (i + 1) as nat) by {
            if i < chunks.len() - 1 {
                assert(chunks.drop_last()[i] == chunks[i]);
            }
        }
    }
}

/// The chunks that are enqueued for a super entity are the chunks of its
/// text: there is one job for each chunk, in order, and the chunks of the
/// jobs, one after the other, spell the text of the entity.
pub proof fn super_entity_jobs_spell_its_text(
    node: NodeView,
    order: nat,
    extension: Seq<char>,
    index_types: IndexTypesView,
    entity_id: Seq<char>,
    port: u16,
)
    requires
        !passes_through(node, extension),
        index_types.indexes(extension, node.kind),
    ensures
        ({
            let plan = planned(node, true, order, extension, index_types);
            let jobs = jobs_for(plan[0].chunks, entity_id, port);
            &&& plan.len() == 1
            &&& plan[0].chunks == chunks_of(node.text)
            &&& jobs.map_values(|job: JobView| job.chunk) == chunks_of(node.text)
            &&& joined(jobs.map_values(|job: JobView| job.chunk)) == node.text
            &&& within(jobs.map_values(|job: JobView| job.chunk), CHUNK_TARGET as nat)
        }),
{
    let chunks = chunks_of(node.text);
    chunks_of_partition(node.text);
    jobs_for_every_chunk(chunks, entity_id, port);
    assert(jobs_for(chunks, entity_id, port).map_values(|job: JobView| job.chunk) =~= chunks);
}

/// A sub entity is not embedded: its plan carries no chunk, and so it has
/// no job.
pub proof fn sub_entities_have_no_jobs(
    node: NodeView,
    order: nat,
    extension: Seq<char>,
    index_types: IndexTypesView,
    entity_id: Seq<char>,
    port: u16,
)
    requires
        !passes_through(node, extension),
        index_types.indexes(extension, node.kind),
    ensures
        planned(node, false, order, extension, index_types).len() == 1,
        jobs_for(planned(node, false, order, extension, index_types)[0].chunks, entity_id, port)
            == Seq::<JobView>::empty(),
{
}

/// The entities created directly below a file of a supported extension are
/// the children of the root of its syntax tree that the index-type filter
/// lets pass, each with the text that its range cuts out of the file. This
/// is stated for a file whose tree fits its text and none of whose top-level
/// nodes is a Python block that passes its children through.
pub proof fn entities_of_a_supported_file(
    name: Seq<char>,
    extension: Seq<char>,
    source: Seq<char>,
    parent_id: Seq<char>,
    is_super: bool,
    index_types: IndexTypesView,
    file_types: FileTypesView,
    grammar: Grammar,
    nodes: Seq<SyntaxView>,
)
    requires
        grammar_for(extension) == Some(grammar),
        parsed_syntax(source, grammar) == Some(nodes),
        file_types.supports(extension),
        all_fit(nodes, vstd::utf8::encode_utf8(source)),
        forall|i: int|
            0 <= i < owned_all(nodes, source).len() ==> !passes_through(
                #[trigger] owned_all(nodes, source)[i],
                extension,
            ),
    ensures
        file_plan(name, extension, source, parent_id, is_super, index_types, file_types) is Ok,
        ({
            let plan = file_plan(
                name,
                extension,
                source,
                parent_id,
                is_super,
                index_types,
                file_types,
            )->Ok_0;
            &&& plan.request == file_request(name, extension, source, parent_id, is_super)
            &&& plan.entities is Some
            &&& plan.entities->Some_0.map_values(|plan: PlanView| span_of_plan(plan)) == owned_all(
                nodes,
                source,
            ).filter(is_indexed_node(extension, index_types)).map_values(
                |node: NodeView| span_of_node(node),
            )
        }),
{
    top_level_entities_are_the_indexed_children(owned_all(nodes, source), extension, index_types);
}

/// A file whose extension is listed neither as supported nor as
/// unsupported is created, and nothing else: it is kept without entities,
/// and so no chunk of it is embedded. This is stated for a file whose parsing does not
/// fail.
pub proof fn unlisted_extension_creates_only_the_file(
    name: Seq<char>,
    extension: Seq<char>,
    source: Seq<char>,
    parent_id: Seq<char>,
    is_super: bool,
    index_types: IndexTypesView,
    file_types: FileTypesView,
)
    requires
        !file_types.supports(extension),
        !file_types.chunks(extension),
        grammar_for(extension) matches Some(grammar) ==> parsed_syntax(source, grammar) is Some,
    ensures
        file_plan(name, extension, source, parent_id, is_super, index_types, file_types) == Ok::<
            FilePlanView,
            IndexError,
        >(
            FilePlanView {
                request: file_request(name, extension, source, parent_id, is_super),
                entities: None,
            },
        ),
{
}

/// An empty text has no chunks, so an empty file that no grammar parses
/// gets no entity and no embedding job.
pub proof fn empty_text_has_no_chunks()
    ensures
        chunks_of(Seq::<char>::empty()) == Seq::<Seq<char>>::empty(),
        chunk_plans(chunks_of(Seq::<char>::empty())) == Seq::<PlanView>::empty(),
{
    let text = Seq::<char>::empty();
    let chunks = chunks_of(text);
    chunks_of_partition(text);
    if chunks.len() > 0 {
        let last = chunks.last();
        assert(last == chunks[chunks.len() - 1]);
        assert(joined(chunks) == joined(chunks.drop_last()) + last);
        assert(joined(chunks).len() >= last.len());
    }
    assert(chunks =~= Seq::<Seq<char>>::empty());
}

/// Whatever the walk leaves out yields nothing: a directory that holds
/// nothing else is ingested as a folder without content.
pub proof fn ignored_entries_yield_nothing(entry: EntryView, parent_id: Seq<char>, is_super: bool)
    requires
        left_out(entry),
    ensures
        populate_action(entry, parent_id, is_super) == ActionView::Skip,
{
}

/// Below the top of a plan every entity is a sub entity that carries no
/// chunk, and so does every entity below it.
pub open spec fn nested_without_chunks(plans: Seq<PlanView>) -> bool
    decreases plans,
{
    plans.len() == 0 || (nested_without_chunks(plans.drop_last()) && !plans.last().is_super
        && plans.last().chunks.len() == 0 && nested_without_chunks(plans.last().children))
}

/// Chunks are carried by super entities only: in what is planned for a
/// group of siblings, every entity below the top is a sub entity without
/// chunks, and an entity at the top carries chunks only where the group is
/// planned as super entities.
pub proof fn only_super_entities_are_embedded(
    nodes: Seq<NodeView>,
    is_super: bool,
    extension: Seq<char>,
    index_types: IndexTypesView,
)
    ensures
        !is_super ==> nested_without_chunks(
            planned_siblings(nodes, is_super, extension, index_types),
        ),
        forall|i: int|
            0 <= i < planned_siblings(nodes, is_super, extension, index_types).len() ==> {
                let plan = #[trigger] planned_siblings(nodes, is_super, extension, index_types)[i];
                &&& nested_without_chunks(plan.children)
                &&& plan.chunks.len() > 0 ==> plan.is_super && is_super
            },
    decreases nodes,
{
    if nodes.len() > 0 {
        let last = nodes.last();
        let before = planned_siblings(nodes.drop_last(), is_super, extension, index_types);
        let found = planned(last, is_super, nodes.len(), extension, index_types);
        let all = planned_siblings(nodes, is_super, extension, index_types);
        assert(all == before + found);
        only_super_entities_are_embedded(nodes.drop_last(), is_super, extension, index_types);
        only_super_entities_are_embedded(last.children, false, extension, index_types);
        let below = planned_siblings(last.children, false, extension, index_types);
        assert forall|j: int| 0 <= j < found.len() implies {
            let plan = #[trigger] found[j];
            &&& nested_without_chunks(plan.children)
            &&& plan.chunks.len() > 0 ==> plan.is_super && is_super
            &&& !is_super ==> !plan.is_super && plan.chunks.len() == 0
        } by {
            if passes_through(last, extension) {
                assert(found == below);
                nested_at(below, j);
            }
        }
        assert forall|i: int| 0 <= i < all.len() implies {
            let plan = #[trigger] all[i];
            &&& nested_without_chunks(plan.children)
            &&& plan.chunks.len() > 0 ==> plan.is_super && is_super
        } by {
            if i < before.len() {
                assert(all[i] == before[i]);
            } else {
                assert(all[i] == found[i - before.len()]);
            }
        }
        if !is_super {
            if passes_through(last, extension) {
                assert(found == below);
            } else if index_types.indexes(extension, last.kind) {
                assert(found.drop_last() =~= Seq::<PlanView>::empty());
                assert(nested_without_chunks(found.drop_last()));
                assert(found.last().children == below);
            }
            assert(nested_without_chunks(found));
            nested_join(before, found);
        }
    }
}

/// Each plan of a forest that is nested without chunks is a sub entity
/// without chunks, above a forest of the same kind.
proof fn nested_at(plans: Seq<PlanView>, at: int)
    requires
        nested_without_chunks(plans),
        0 <= at < plans.len(),
    ensures
        !plans[at].is_super,
        plans[at].chunks.len() == 0,
        nested_without_chunks(plans[at].children),
    decreases plans.len(),
{
    if at < plans.len() - 1 {
        nested_at(plans.drop_last(), at);
        assert(plans.drop_last()[at] == plans[at]);
    }
}

/// Two forests that are nested without chunks stay so when joined.
proof fn nested_join(a: Seq<PlanView>, b: Seq<PlanView>)
    requires
        nested_without_chunks(a),
        nested_without_chunks(b),
    ensures
        nested_without_chunks(a + b),
    decreases b.len(),
{
    if b.len() == 0 {
        assert(a + b =~= a);
    } else {
        nested_join(a, b.drop_last());
        assert((a + b).drop_last() =~= a + b.drop_last());
        assert((a + b).last() == b.last());
    }
}

/// Every planned entity spans the text that its byte range cuts out of
/// `source`, and so does every entity below it.
pub open spec fn plans_cut_from(plans: Seq<PlanView>, source: Seq<char>) -> bool
    decreases plans,
{
    plans.len() == 0 || (plans_cut_from(plans.drop_last(), source) && {
        let entity = plans.last().entity;
        &&& entity.start_byte <= entity.end_byte
        &&& entity.text == slice_text(source, entity.start_byte as int, entity.end_byte as int)
        &&& plans_cut_from(plans.last().children, source)
    })
}

/// Two forests of plans that are cut from a source stay so when joined.
proof fn plans_cut_join(a: Seq<PlanView>, b: Seq<PlanView>, source: Seq<char>)
    requires
        plans_cut_from(a, source),
        plans_cut_from(b, source),
    ensures
        plans_cut_from(a + b, source),
    decreases b.len(),
{
    if b.len() == 0 {
        assert(a + b =~= a);
    } else {
        plans_cut_join(a, b.drop_last(), source);
        assert((a + b).drop_last() =~= a + b.drop_last());
        assert((a + b).last() == b.last());
    }
}

/// The entities planned from the nodes of a file keep what holds of the
/// nodes: the range of each is not reversed, and its text is the slice of
/// the file at that range.
pub proof fn planned_entities_are_cut_from_the_file(
    nodes: Seq<NodeView>,
    is_super: bool,
    extension: Seq<char>,
    index_types: IndexTypesView,
    source: Seq<char>,
)
    requires
        all_cut_from(nodes, source),
    ensures
        plans_cut_from(planned_siblings(nodes, is_super, extension, index_types), source),
    decreases nodes,
{
    if nodes.len() > 0 {
        let last = nodes.last();
        let before = planned_siblings(nodes.drop_last(), is_super, extension, index_types);
        let found = planned(last, is_super, nodes.len(), extension, index_types);
        assert(cut_from(last, source));
        planned_entities_are_cut_from_the_file(
            nodes.drop_last(),
            is_super,
            extension,
            index_types,
            source,
        );
        planned_entities_are_cut_from_the_file(
            last.children,
            false,
            extension,
            index_types,
            source,
        );
        if !passes_through(last, extension) && index_types.indexes(extension, last.kind) {
            assert(found.drop_last() =~= Seq::<PlanView>::empty());
            assert(plans_cut_from(found.drop_last(), source));
        }
        plans_cut_join(before, found, source);
    }
}

} // verus!
