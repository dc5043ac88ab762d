//! The entity extractor: a parsed syntax tree becomes a tree of nodes that
//! own their text, so that nothing borrows from the parser once the work is
//! handed on.
use vstd::prelude::*;
use vstd::string::StringSliceAdditionalSpecFns;
use crate::language::Grammar;
use crate::text::{slice_source, slice_text, sliceable};

verus! {

/// A node of a syntax tree as the parser reports it: its kind, the bytes of
/// the source that it spans, and its children in source order.
#[derive(Debug, PartialEq, Eq)]
pub struct SyntaxNode {
    pub kind: String,
    pub start_byte: usize,
    pub end_byte: usize,
    pub children: Vec<SyntaxNode>,
}

/// A detached copy of a syntax-tree subtree, with its own copy of the text
/// it spans.
#[derive(Debug, PartialEq, Eq)]
pub struct OwnedNode {
    pub kind: String,
    pub start_byte: usize,
    pub end_byte: usize,
    pub text: String,
    pub children: Vec<OwnedNode>,
}

/// What a `SyntaxNode` holds.
pub struct SyntaxView {
    pub kind: Seq<char>,
    pub start_byte: nat,
    pub end_byte: nat,
    pub children: Seq<SyntaxView>,
}

impl View for SyntaxNode {
    type V = SyntaxView;

    open spec fn view(&self) -> SyntaxView {
        syntax_view(*self)
    }
}

/// What one syntax node holds.
pub open spec fn syntax_view(node: SyntaxNode) -> SyntaxView
    decreases node,
{
    SyntaxView {
        kind: node.kind@,
        start_byte: node.start_byte as nat,
        end_byte: node.end_byte as nat,
        children: syntax_views(node.children@),
    }
}

/// What a sequence of syntax nodes holds, node by node.
pub open spec fn syntax_views(nodes: Seq<SyntaxNode>) -> Seq<SyntaxView>
    decreases nodes,
{
    if nodes.len() == 0 {
        Seq::empty()
    } else {
        syntax_views(nodes.drop_last()).push(syntax_view(nodes.last()))
    }
}

/// `syntax_views` keeps the length and the positions.
pub proof fn syntax_views_positions(nodes: Seq<SyntaxNode>)
    ensures
        syntax_views(nodes).len() == nodes.len(),
        forall|i: int| 0 <= i < nodes.len() ==> syntax_views(nodes)[i] == #[trigger] nodes[i]@,
    decreases nodes.len(),
{
    if nodes.len() > 0 {
        syntax_views_positions(nodes.drop_last());
        assert forall|i: int| 0 <= i < nodes.len() implies syntax_views(nodes)[i]
            == #[trigger] nodes[i]@ by {
            if i < nodes.len() - 1 {
                assert(nodes.drop_last()[i] == nodes[i]);
            }
        }
    }
}

/// What an `OwnedNode` holds.
pub struct NodeView {
    pub kind: Seq<char>,
    pub start_byte: nat,
    pub end_byte: nat,
    pub text: Seq<char>,
    pub children: Seq<NodeView>,
}

impl View for OwnedNode {
    type V = NodeView;

    open spec fn view(&self) -> NodeView {
        node_view(*self)
    }
}

/// What one node holds.
pub open spec fn node_view(node: OwnedNode) -> NodeView
    decreases node,
{
    NodeView {
        kind: node.kind@,
        start_byte: node.start_byte as nat,
        end_byte: node.end_byte as nat,
        text: node.text@,
        children: node_views(node.children@),
    }
}

/// What a sequence of nodes holds, node by node.
pub open spec fn node_views(nodes: Seq<OwnedNode>) -> Seq<NodeView>
    decreases nodes,
{
    if nodes.len() == 0 {
        Seq::empty()
    } else {
        node_views(nodes.drop_last()).push(node_view(nodes.last()))
    }
}

/// `node_views` keeps the length and the positions.
pub proof fn node_views_positions(nodes: Seq<OwnedNode>)
    ensures
        node_views(nodes).len() == nodes.len(),
        forall|i: int| 0 <= i < nodes.len() ==> node_views(nodes)[i] == #[trigger] nodes[i]@,
    decreases nodes.len(),
{
    if nodes.len() > 0 {
        node_views_positions(nodes.drop_last());
        assert forall|i: int| 0 <= i < nodes.len() implies node_views(nodes)[i]
            == #[trigger] nodes[i]@ by {
            if i < nodes.len() - 1 {
                assert(nodes.drop_last()[i] == nodes[i]);
            }
        }
    }
}

/// The byte range of `node` and of every node below it can be cut out of a
/// source with the bytes `bytes`.
pub open spec fn fits(node: SyntaxView, bytes: Seq<u8>) -> bool
    decreases node,
{
    sliceable(bytes, node.start_byte as int, node.end_byte as int) && all_fit(
        node.children,
        bytes,
    )
}

/// Every node of `nodes` fits a source with the bytes `bytes`.
pub open spec fn all_fit(nodes: Seq<SyntaxView>, bytes: Seq<u8>) -> bool
    decreases nodes,
{
    nodes.len() == 0 || (all_fit(nodes.drop_last(), bytes) && fits(nodes.last(), bytes))
}

/// The owned copy of `node` over the source `source`: each node keeps its
/// kind and range and gains the text that its range spans.
pub open spec fn owned(node: SyntaxView, source: Seq<char>) -> NodeView
    decreases node,
{
    NodeView {
        kind: node.kind,
        start_byte: node.start_byte,
        end_byte: node.end_byte,
        text: slice_text(source, node.start_byte as int, node.end_byte as int),
        children: owned_all(node.children, source),
    }
}

/// The owned copies of `nodes`, in order.
pub open spec fn owned_all(nodes: Seq<SyntaxView>, source: Seq<char>) -> Seq<NodeView>
    decreases nodes,
{
    if nodes.len() == 0 {
        Seq::empty()
    } else {
        owned_all(nodes.drop_last(), source).push(owned(nodes.last(), source))
    }
}

/// Every node of the tree spans the text that its byte range cuts out of
/// `source`, and its range is not reversed.
pub open spec fn cut_from(node: NodeView, source: Seq<char>) -> bool
    decreases node,
{
    &&& node.start_byte <= node.end_byte
    &&& node.text == slice_text(source, node.start_byte as int, node.end_byte as int)
    &&& all_cut_from(node.children, source)
}

/// Every node of `nodes` is cut from `source`.
pub open spec fn all_cut_from(nodes: Seq<NodeView>, source: Seq<char>) -> bool
    decreases nodes,
{
    nodes.len() == 0 || (all_cut_from(nodes.drop_last(), source) && cut_from(
        nodes.last(),
        source,
    ))
}

/// A prefix of nodes that all fit still fits, and so does each node.
proof fn all_fit_take(nodes: Seq<SyntaxView>, bytes: Seq<u8>, n: int)
    requires
        0 <= n <= nodes.len(),
        all_fit(nodes, bytes),
    ensures
        all_fit(nodes.take(n), bytes),
        n < nodes.len() ==> fits(nodes[n], bytes),
    decreases nodes.len(),
{
    if n < nodes.len() {
        if n < nodes.len() - 1 {
            all_fit_take(nodes.drop_last(), bytes, n);
            assert(nodes.drop_last().take(n) =~= nodes.take(n));
            assert(nodes.drop_last()[n] == nodes[n]);
        } else {
            assert(nodes.take(n) =~= nodes.drop_last());
        }
    } else {
        assert(nodes.take(n) =~= nodes);
    }
}

/// Copies one node and everything below it, cutting each node's text out
/// of `source`.
fn build_owned_node(node: &SyntaxNode, source: &str) -> (built: Option<OwnedNode>)
    ensures
        built is Some <==> fits(node@, source.spec_bytes()),
        built matches Some(o) ==> o@ == owned(node@, source@),
    decreases node,
{
    let text = match slice_source(source, node.start_byte, node.end_byte) {
        Some(t) => t,
        None => { return None; },
    };
    let children = match build_owned_nodes(&node.children, source) {
        Some(c) => c,
        None => { return None; },
    };
    Some(
        OwnedNode {
            kind: node.kind.clone(),
            start_byte: node.start_byte,
            end_byte: node.end_byte,
            text,
            children,
        },
    )
}

/// Builds the owned copies of `nodes`, the children of one syntax node, in
/// source order. The text of each node is the slice of `source` at its byte
/// range. The result is `None` where some range of the tree is no slice of
/// `source`: it lies outside the text or splits a character.
pub fn build_owned_nodes(nodes: &Vec<SyntaxNode>, source: &str) -> (built: Option<Vec<OwnedNode>>)
    ensures
        built is Some <==> all_fit(syntax_views(nodes@), source.spec_bytes()),
        built matches Some(v) ==> node_views(v@) == owned_all(syntax_views(nodes@), source@),
    decreases nodes,
{
    let ghost views = syntax_views(nodes@);
    proof {
        syntax_views_positions(nodes@);
    }
    let mut built: Vec<OwnedNode> = Vec::new();
    let mut i: usize = 0;
    assert(views.take(0) =~= Seq::empty());
    while i < nodes.len()
        invariant
            i <= nodes.len(),
            views == syntax_views(nodes@),
            views.len() == nodes.len(),
            forall|j: int| 0 <= j < nodes.len() ==> views[j] == #[trigger] nodes@[j]@,
            all_fit(views.take(i as int), source.spec_bytes()),
            node_views(built@) == owned_all(views.take(i as int), source@),
        decreases nodes.len() - i,
    {
        assert(views.take(i + 1).drop_last() =~= views.take(i as int));
        assert(views.take(i + 1).last() == nodes@[i as int]@);
        match build_owned_node(&nodes[i], source) {
            Some(node) => {
                let ghost before = built@;
                built.push(node);
                assert(built@.drop_last() =~= before);
            },
            None => {
                proof {
                    if all_fit(views, source.spec_bytes()) {
                        all_fit_take(views, source.spec_bytes(), i as int);
                    }
                }
                return None;
            },
        }
        i += 1;
    }
    assert(views.take(nodes.len() as int) =~= views);
    Some(built)
}

/// Every owned copy is cut from its source: the range of a node that fits
/// is not reversed, and its text is the slice at that range.
pub proof fn owned_is_cut_from(nodes: Seq<SyntaxView>, source: Seq<char>)
    requires
        all_fit(nodes, vstd::utf8::encode_utf8(source)),
    ensures
        all_cut_from(owned_all(nodes, source), source),
    decreases nodes,
{
    if nodes.len() > 0 {
        let last = nodes.last();
        assert(fits(last, vstd::utf8::encode_utf8(source)));
        owned_is_cut_from(nodes.drop_last(), source);
        owned_is_cut_from(last.children, source);
        assert(owned_all(nodes, source).drop_last() =~= owned_all(nodes.drop_last(), source));
        assert(owned_all(nodes, source).last() == owned(last, source));
        assert(cut_from(owned(last, source), source));
    }
}

/// `tree_sitter::Tree`, which is handed from the parsing of a source to
/// the copying of its nodes.
#[verifier::external_type_specification]
#[verifier::external_body]
pub struct ExSyntaxTree(tree_sitter::Tree);

/// `tree_sitter::Node`, a node of such a tree.
#[verifier::external_type_specification]
#[verifier::external_body]
pub struct ExSyntaxTreeNode<'a>(tree_sitter::Node<'a>);

/// The children of the root of the tree that the parser builds for a source
/// under a grammar, where it builds one.
pub uninterp spec fn parsed_syntax(source: Seq<char>, grammar: Grammar) -> Option<Seq<SyntaxView>>;

/// The nodes below the root of a `tree_sitter::Tree`.
pub uninterp spec fn tree_syntax(tree: tree_sitter::Tree) -> Seq<SyntaxView>;

/// The nodes below a `tree_sitter::Node`.
pub uninterp spec fn node_syntax(node: tree_sitter::Node) -> Seq<SyntaxView>;

/// Makes a `tree_sitter::Parser`, gives it the language of `grammar` with
/// `Parser::set_language` and parses `source` with `Parser::parse`. With no
/// old tree and no options the tree depends on the source and the language
/// alone: it holds what `parsed_syntax` names, and there is none where the
/// language is refused or the parser gives up.
#[verifier::external_body]
fn parse_tree(source: &str, grammar: Grammar) -> (tree: Option<tree_sitter::Tree>)
    ensures
        match parsed_syntax(source@, grammar) {
            Some(nodes) => tree.is_some() && tree_syntax(tree.unwrap()) == nodes,
            None => tree.is_none(),
        },
{
    let language: tree_sitter::Language = match grammar {
        Grammar::Python => tree_sitter_python::LANGUAGE.into(),
        Grammar::Rust => tree_sitter_rust::LANGUAGE.into(),
        Grammar::Zig => tree_sitter_zig::LANGUAGE.into(),
        Grammar::Cpp => tree_sitter_cpp::LANGUAGE.into(),
        Grammar::C => tree_sitter_c::LANGUAGE.into(),
        Grammar::TypeScript => tree_sitter_typescript::LANGUAGE_TYPESCRIPT.into(),
        Grammar::Tsx => tree_sitter_typescript::LANGUAGE_TSX.into(),
        Grammar::JavaScript => tree_sitter_javascript::LANGUAGE.into(),
    };
    let mut parser = tree_sitter::Parser::new();
    parser.set_language(&language).ok()?;
    parser.parse(source, None)
}

/// Calls `Tree::root_node`: the nodes below the root are the nodes of the
/// tree.
#[verifier::external_body]
fn tree_root<'a>(tree: &'a tree_sitter::Tree) -> (root: tree_sitter::Node<'a>)
    ensures
        node_syntax(root) == tree_syntax(*tree),
{
    tree.root_node()
}

/// Walks the children of a node with `Node::children` and copies each one:
/// its `kind`, `start_byte` and `end_byte`, and its own children in turn.
#[verifier::external_body]
fn node_children(node: tree_sitter::Node) -> (children: Vec<SyntaxNode>)
    ensures
        syntax_views(children@) == node_syntax(node),
{
    let mut cursor = node.walk();
    node.children(&mut cursor).map(|child| SyntaxNode {
        kind: child.kind().to_string(),
        start_byte: child.start_byte(),
        end_byte: child.end_byte(),
        children: node_children(child),
    }).collect()
}

/// Parses `source` under `grammar` and returns the children of the root of
/// its syntax tree, in source order; `None` where the parser gives no tree.
pub fn parse_source(source: &str, grammar: Grammar) -> (nodes: Option<Vec<SyntaxNode>>)
    ensures
        match nodes {
            Some(v) => parsed_syntax(source@, grammar) == Some(syntax_views(v@)),
            None => parsed_syntax(source@, grammar) is None,
        },
{
    match parse_tree(source, grammar) {
        Some(tree) => {
            let root = tree_root(&tree);
            Some(node_children(root))
        },
        None => None,
    }
}

} // verus!
