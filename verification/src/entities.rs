//! The entities of a file: which syntax nodes become entities of the store,
//! in which order, and which chunks of their text are embedded.
//!
//! The identifiers that the store hands out are not known when a plan is
//! made, so a plan is a tree without them, and the request for one planned
//! entity is made once its parent exists.
use vstd::prelude::*;
use crate::chunker::{chunk_entity, chunks_of};
use crate::config::{IndexTypesConfig, IndexTypesView};
use crate::store::{createSubEntityInput, createSuperEntityInput, RequestView, StoreRequest};
use crate::syntax::{node_views, NodeView, OwnedNode};
use crate::text::same_text;

verus! {

/// An entity as it is created in the store: a syntax node of a file, or a
/// chunk of a file that no grammar parses.
#[derive(Clone, Debug, PartialEq, Eq)]
pub struct CodeEntity {
    pub entity_type: String,
    pub start_byte: usize,
    pub end_byte: usize,
    pub order: usize,
    pub text: String,
}

/// What a `CodeEntity` holds.
pub struct EntityView {
    pub entity_type: Seq<char>,
    pub start_byte: nat,
    pub end_byte: nat,
    pub order: nat,
    pub text: Seq<char>,
}

impl View for CodeEntity {
    type V = EntityView;

    open spec fn view(&self) -> EntityView {
        EntityView {
            entity_type: self.entity_type@,
            start_byte: self.start_byte as nat,
            end_byte: self.end_byte as nat,
            order: self.order as nat,
            text: self.text@,
        }
    }
}

/// An entity that is to be created, with the chunks of its text that are to
/// be embedded and the entities that are to be created below it.
#[derive(Debug, PartialEq, Eq)]
pub struct PlannedEntity {
    pub entity: CodeEntity,
    /// A super entity is a direct child of a file; a sub entity hangs below
    /// another entity.
    pub is_super: bool,
    pub chunks: Vec<String>,
    pub children: Vec<PlannedEntity>,
}

/// What a `PlannedEntity` holds.
pub struct PlanView {
    pub entity: EntityView,
    pub is_super: bool,
    pub chunks: Seq<Seq<char>>,
    pub children: Seq<PlanView>,
}

impl View for PlannedEntity {
    type V = PlanView;

    open spec fn view(&self) -> PlanView {
        plan_view(*self)
    }
}

/// What one planned entity holds.
pub open spec fn plan_view(plan: PlannedEntity) -> PlanView
    decreases plan,
{
    PlanView {
        entity: plan.entity@,
        is_super: plan.is_super,
        chunks: plan.chunks.deep_view(),
        children: plan_views(plan.children@),
    }
}

/// What a sequence of planned entities holds, one by one.
pub open spec fn plan_views(plans: Seq<PlannedEntity>) -> Seq<PlanView>
    decreases plans,
{
    if plans.len() == 0 {
        Seq::empty()
    } else {
        plan_views(plans.drop_last()).push(plan_view(plans.last()))
    }
}

/// The views of two sequences of plans, one after the other, are the views
/// of the sequences joined.
proof fn plan_views_join(a: Seq<PlannedEntity>, b: Seq<PlannedEntity>)
    ensures
        plan_views(a + b) == plan_views(a) + plan_views(b),
    decreases b.len(),
{
    if b.len() == 0 {
        assert(a + b =~= a);
        assert(plan_views(a) + plan_views(b) =~= plan_views(a));
    } else {
        plan_views_join(a, b.drop_last());
        assert((a + b).drop_last() =~= a + b.drop_last());
        assert((a + b).last() == b.last());
        assert(plan_views(a + b) =~= plan_views(a) + plan_views(b));
    }
}

/// A block of a Python file that has children is not an entity of its own:
/// its children stand in its place.
pub open spec fn passes_through(node: NodeView, extension: Seq<char>) -> bool {
    extension == "py"@ && node.kind == "block"@ && node.children.len() > 0
}

/// The entity that a node becomes when it is created as sibling number
/// `order`.
pub open spec fn entity_of(node: NodeView, order: nat) -> EntityView {
    EntityView {
        entity_type: node.kind,
        start_byte: node.start_byte,
        end_byte: node.end_byte,
        order,
        text: node.text,
    }
}

/// What is created for one node that is sibling number `order`. A Python
/// block with children yields what its children yield, as sub entities
/// counted from one. A node whose kind is indexed yields one entity: a
/// super entity carries the chunks of its text, and its children follow
/// below it as sub entities. Any other node yields nothing, and neither
/// does what lies below it.
pub open spec fn planned(
    node: NodeView,
    is_super: bool,
    order: nat,
    extension: Seq<char>,
    index_types: IndexTypesView,
) -> Seq<PlanView>
    decreases node,
{
    if passes_through(node, extension) {
        planned_siblings(node.children, false, extension, index_types)
    } else if index_types.indexes(extension, node.kind) {
        seq![
            PlanView {
                entity: entity_of(node, order),
                is_super,
                chunks: if is_super {
                    chunks_of(node.text)
                } else {
                    Seq::empty()
                },
                children: planned_siblings(node.children, false, extension, index_types),
            },
        ]
    } else {
        Seq::empty()
    }
}

/// What is created for a group of siblings, in source order: the node at
/// position `i` is sibling number `i + 1`.
pub open spec fn planned_siblings(
    nodes: Seq<NodeView>,
    is_super: bool,
    extension: Seq<char>,
    index_types: IndexTypesView,
) -> Seq<PlanView>
    decreases nodes,
{
    if nodes.len() == 0 {
        Seq::empty()
    } else {
        planned_siblings(nodes.drop_last(), is_super, extension, index_types) + planned(
            nodes.last(),
            is_super,
            nodes.len(),
            extension,
            index_types,
        )
    }
}

/// Plans one node and what lies below it.
pub fn process_entity(
    node: &OwnedNode,
    is_super: bool,
    order: usize,
    extension: &str,
    index_types: &IndexTypesConfig,
) -> (plan: Vec<PlannedEntity>)
    ensures
        plan_views(plan@) == planned(node@, is_super, order as nat, extension@, index_types@),
    decreases node,
{
    if same_text(extension, "py") && same_text(node.kind.as_str(), "block")
        && node.children.len() > 0 {
        proof {
            node_views_length(node.children@);
        }
        plan_siblings(&node.children, false, extension, index_types)
    } else if index_types.is_indexed(extension, node.kind.as_str()) {
        proof {
            node_views_length(node.children@);
        }
        let chunks = if is_super {
            chunk_entity(node.text.as_str())
        } else {
            Vec::new()
        };
        let children = plan_siblings(&node.children, false, extension, index_types);
        let entity = CodeEntity {
            entity_type: node.kind.clone(),
            start_byte: node.start_byte,
            end_byte: node.end_byte,
            order,
            text: node.text.clone(),
        };
        let planned_entity = PlannedEntity { entity, is_super, chunks, children };
        let mut plan: Vec<PlannedEntity> = Vec::new();
        plan.push(planned_entity);
        proof {
            assert(plan@.drop_last() =~= Seq::<PlannedEntity>::empty());
            assert(plan_views(plan@.drop_last()) =~= Seq::<PlanView>::empty());
            assert(plan@.last() == planned_entity);
            if !is_super {
                assert(chunks.deep_view() =~= Seq::<Seq<char>>::empty());
            }
            assert(plan_views(plan@) =~= seq![planned_entity@]);
        }
        plan
    } else {
        proof {
            node_views_length(node.children@);
        }
        Vec::new()
    }
}

/// `node_views` keeps the length.
proof fn node_views_length(nodes: Seq<OwnedNode>)
    ensures
        node_views(nodes).len() == nodes.len(),
{
    crate::syntax::node_views_positions(nodes);
}

/// Plans a group of siblings in source order.
fn plan_siblings(
    nodes: &Vec<OwnedNode>,
    is_super: bool,
    extension: &str,
    index_types: &IndexTypesConfig,
) -> (plan: Vec<PlannedEntity>)
    ensures
        plan_views(plan@) == planned_siblings(
            node_views(nodes@),
            is_super,
            extension@,
            index_types@,
        ),
    decreases nodes,
{
    let mut plan: Vec<PlannedEntity> = Vec::new();
    let mut i: usize = 0;
    assert(nodes@.take(0) =~= Seq::empty());
    while i < nodes.len()
        invariant
            i <= nodes.len(),
            plan_views(plan@) == planned_siblings(
                node_views(nodes@.take(i as int)),
                is_super,
                extension@,
                index_types@,
            ),
        decreases nodes.len() - i,
    {
        let mut found = process_entity(&nodes[i], is_super, i + 1, extension, index_types);
        proof {
            let before = node_views(nodes@.take(i as int));
            let now = node_views(nodes@.take(i + 1));
            assert(nodes@.take(i + 1).drop_last() =~= nodes@.take(i as int));
            assert(nodes@.take(i + 1).last() == nodes@[i as int]);
            node_views_length(nodes@.take(i as int));
            assert(now =~= before.push(nodes@[i as int]@));
            assert(now.drop_last() =~= before);
            plan_views_join(plan@, found@);
        }
        plan.append(&mut found);
        i += 1;
    }
    assert(nodes@.take(nodes.len() as int) =~= nodes@);
    plan
}

/// Plans the entities of a parsed file from the children of the root of its
/// syntax tree: each is a candidate super entity, numbered from one in
/// source order.
pub fn ingest_entities(nodes: &Vec<OwnedNode>, extension: &str, index_types: &IndexTypesConfig) -> (plan:
    Vec<PlannedEntity>)
    ensures
        plan_views(plan@) == planned_siblings(node_views(nodes@), true, extension@, index_types@),
{
    plan_siblings(nodes, true, extension, index_types)
}

/// The entity made of one chunk of a file that no grammar parses: a super
/// entity of type `chunk` that spans the chunk and is embedded whole.
pub open spec fn chunk_plan(chunk: Seq<char>, order: nat) -> PlanView {
    PlanView {
        entity: EntityView {
            entity_type: "chunk"@,
            start_byte: 0,
            end_byte: vstd::utf8::encode_utf8(chunk).len(),
            order,
            text: chunk,
        },
        is_super: true,
        chunks: seq![chunk],
        children: Seq::empty(),
    }
}

/// The entities made of the chunks of a file, numbered from one.
pub open spec fn chunk_plans(chunks: Seq<Seq<char>>) -> Seq<PlanView>
    decreases chunks.len(),
{
    if chunks.len() == 0 {
        Seq::empty()
    } else {
        chunk_plans(chunks.drop_last()).push(chunk_plan(chunks.last(), chunks.len()))
    }
}

/// Plans the entities of a file that no grammar parses: one super entity
/// for each chunk of its text, in order.
pub fn process_unsupported_file(chunks: &Vec<String>) -> (plan: Vec<PlannedEntity>)
    ensures
        plan_views(plan@) == chunk_plans(chunks.deep_view()),
{
    let mut plan: Vec<PlannedEntity> = Vec::new();
    let mut i: usize = 0;
    assert(chunks.deep_view().take(0) =~= Seq::<Seq<char>>::empty());
    while i < chunks.len()
        invariant
            i <= chunks.len(),
            plan_views(plan@) == chunk_plans(chunks.deep_view().take(i as int)),
        decreases chunks.len() - i,
    {
        let chunk = &chunks[i];
        let mut embedded: Vec<String> = Vec::new();
        embedded.push(chunk.clone());
        let entity = CodeEntity {
            entity_type: "chunk".to_owned(),
            start_byte: 0,
            end_byte: chunk.as_str().as_bytes().len(),
            order: i + 1,
            text: chunk.clone(),
        };
        let planned_entity = PlannedEntity {
            entity,
            is_super: true,
            chunks: embedded,
            children: Vec::new(),
        };
        let ghost before = plan@;
        plan.push(planned_entity);
        proof {
            let views = chunks.deep_view();
            assert(views.take(i + 1).drop_last() =~= views.take(i as int));
            assert(views.take(i + 1).last() == chunk@);
            assert(plan@.drop_last() =~= before);
            assert(planned_entity.chunks.deep_view() =~= seq![chunk@]);
            assert(plan_views(planned_entity.children@) =~= Seq::<PlanView>::empty());
            assert(planned_entity@ == chunk_plan(chunk@, (i + 1) as nat));
        }
        i += 1;
    }
    assert(chunks.deep_view().take(chunks.len() as int) =~= chunks.deep_view());
    plan
}

/// The request that creates an entity below `parent_id`: below a file for a
/// super entity, below another entity for a sub entity.
pub open spec fn entity_request(entity: EntityView, parent_id: Seq<char>, is_super: bool) -> RequestView {
    if is_super {
        RequestView::CreateSuperEntity {
            file_id: parent_id,
            entity_type: entity.entity_type,
            start_byte: entity.start_byte,
            end_byte: entity.end_byte,
            order: entity.order,
            text: entity.text,
        }
    } else {
        RequestView::CreateSubEntity {
            entity_id: parent_id,
            entity_type: entity.entity_type,
            start_byte: entity.start_byte,
            end_byte: entity.end_byte,
            order: entity.order,
            text: entity.text,
        }
    }
}

impl PlannedEntity {
    /// The request that creates this entity, once its parent has the
    /// identifier `parent_id`.
    pub fn request(&self, parent_id: &str) -> (request: StoreRequest)
        ensures
            request@ == entity_request(self.entity@, parent_id@, self.is_super),
    {
        let entity = &self.entity;
        if self.is_super {
            StoreRequest::CreateSuperEntity(
                createSuperEntityInput {
                    file_id: parent_id.to_owned(),
                    entity_type: entity.entity_type.clone(),
                    start_byte: entity.start_byte as u64,
                    end_byte: entity.end_byte as u64,
                    order: entity.order as u64,
                    text: entity.text.clone(),
                },
            )
        } else {
            StoreRequest::CreateSubEntity(
                createSubEntityInput {
                    entity_id: parent_id.to_owned(),
                    entity_type: entity.entity_type.clone(),
                    start_byte: entity.start_byte as u64,
                    end_byte: entity.end_byte as u64,
                    order: entity.order as u64,
                    text: entity.text.clone(),
                },
            )
        }
    }
}

} // verus!
