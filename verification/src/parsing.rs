//! Parsing source text with tree-sitter, and copying the resulting tree into
//! the library's own [`SyntaxNode`] model.
//!
//! What tree a grammar gives for a text is tree-sitter's to say: it is named
//! [`parsed_tree`], as plain values, and the copy is proved to reproduce it
//! node for node.

use vstd::prelude::*;
use crate::syntax::SyntaxNode;

verus! {

#[verifier::external_type_specification]
#[verifier::external_body]
pub struct ExTree(tree_sitter::Tree);

#[verifier::external_type_specification]
#[verifier::external_body]
pub struct ExNode<'tree>(tree_sitter::Node<'tree>);

/// The grammars the engine parses with.
#[derive(Debug, Clone, Copy, PartialEq, Eq, Structural)]
pub enum Grammar {
    Java,
    JavaScript,
    TypeScript,
    Python,
    CSharp,
    Php,
}

/// A node of a tree-sitter syntax tree as plain values: its kind, the field
/// under which it hangs from its parent, its byte range, its zero-based
/// start row, and all its children (named and anonymous) in order.
pub struct ParsedNode {
    pub kind: Seq<char>,
    pub field: Option<Seq<char>>,
    pub start_byte: usize,
    pub end_byte: usize,
    pub start_row: usize,
    pub children: Seq<ParsedNode>,
}

/// The tree that a tree-sitter parser set to `grammar` builds for the whole
/// text `source`, with no earlier tree; none when the parser refuses the
/// grammar or gives no tree.
pub uninterp spec fn parsed_tree(grammar: Grammar, source: Seq<char>) -> Option<ParsedNode>;

/// The node reached from `t` by taking, at each step, the child at the next
/// index of `path`.
pub open spec fn node_at(t: ParsedNode, path: Seq<u32>) -> Option<ParsedNode>
    decreases path.len(),
{
    if path.len() == 0 {
        Some(t)
    } else {
        match node_at(t, path.drop_last()) {
            Some(p) => if (path.last() as int) < p.children.len() {
                Some(p.children[path.last() as int])
            } else {
                None
            },
            None => None,
        }
    }
}

/// The number of line feeds in `s`.
pub open spec fn newline_count(s: Seq<char>) -> nat
    decreases s.len(),
{
    if s.len() == 0 {
        0
    } else {
        newline_count(s.drop_last()) + if s.last() == '\n' {
            1nat
        } else {
            0nat
        }
    }
}

/// Whether `m` and all its descendants start on a row at most `k`.
pub open spec fn rows_within(m: ParsedNode, k: int) -> bool
    decreases m,
{
    &&& m.start_row <= k
    &&& forall|i: int| 0 <= i < m.children.len() ==> rows_within(#[trigger] m.children[i], k)
}

/// The last one-based line a text can reach: one more than its line feeds,
/// kept within `u32`.
pub open spec fn line_bound(source: Seq<char>) -> int {
    if newline_count(source) < u32::MAX {
        newline_count(source) + 1int
    } else {
        u32::MAX as int
    }
}

/// Whether `t` and all its descendants start on a line from 1 to `b`.
pub open spec fn lines_within(t: SyntaxNode, b: int) -> bool
    decreases t,
{
    &&& 1 <= t.line <= b
    &&& forall|i: int| 0 <= i < t.children@.len() ==> lines_within(#[trigger] t.children@[i], b)
}

/// A text parsed by tree-sitter, with the grammar and the text it was
/// parsed from.
pub struct ParsedSource {
    tree: tree_sitter::Tree,
    grammar: Grammar,
    text: String,
}

/// A node of a [`ParsedSource`]'s tree, with its path from the root.
pub struct TreeNode<'t> {
    source: &'t ParsedSource,
    node: tree_sitter::Node<'t>,
    path: Vec<u32>,
}

impl ParsedSource {
    /// The tree this source was parsed into.
    pub closed spec fn tree_spec(&self) -> Option<ParsedNode> {
        parsed_tree(self.grammar, self.text@)
    }
}

impl<'t> TreeNode<'t> {
    /// The node of the tree that this value stands for.
    pub closed spec fn at(&self) -> Option<ParsedNode> {
        match self.source.tree_spec() {
            Some(t) => node_at(t, self.path@),
            None => None,
        }
    }
}

/// Sets a new `tree_sitter::Parser` to the grammar's language (the
/// `LANGUAGE` constant of the grammar's crate, `LANGUAGE_TYPESCRIPT` and
/// `LANGUAGE_PHP` for TypeScript and PHP) and parses the whole of `source`
/// with `Parser::parse`, with no earlier tree. The result is there exactly
/// when [`parsed_tree`] names a tree, the root of that tree hangs under no
/// field, and no node starts on a row beyond the text's line feeds (a row
/// counts the line feeds before the node).
#[verifier::external_body]
fn parse_source(grammar: Grammar, source: &str) -> (r: Option<ParsedSource>)
    ensures
        r is Some <==> parsed_tree(grammar, source@) is Some,
        r matches Some(p) ==> p.tree_spec() == parsed_tree(grammar, source@) && p.tree_spec()->0.field is None
            && rows_within(p.tree_spec()->0, newline_count(source@) as int),
{
    let language: tree_sitter::Language = match grammar {
        Grammar::Java => tree_sitter_java::LANGUAGE.into(),
        Grammar::JavaScript => tree_sitter_javascript::LANGUAGE.into(),
        Grammar::TypeScript => tree_sitter_typescript::LANGUAGE_TYPESCRIPT.into(),
        Grammar::Python => tree_sitter_python::LANGUAGE.into(),
        Grammar::CSharp => tree_sitter_c_sharp::LANGUAGE.into(),
        Grammar::Php => tree_sitter_php::LANGUAGE_PHP.into(),
    };
    let mut parser = tree_sitter::Parser::new();
    parser.set_language(&language).ok()?;
    let tree = parser.parse(source, None)?;
    Some(ParsedSource { tree, grammar, text: source.to_owned() })
}

/// `Tree::root_node`: the root, at the empty path.
#[verifier::external_body]
fn root_of<'t>(source: &'t ParsedSource) -> (r: TreeNode<'t>)
    ensures
        r.source == source,
        r.path@ == Seq::<u32>::empty(),
{
    TreeNode { source, node: source.tree.root_node(), path: Vec::new() }
}

/// `Node::child(i)` for an index below the number of children, which
/// tree-sitter always answers with the child; `path` is the child's path.
#[verifier::external_body]
fn child_of<'t>(node: &TreeNode<'t>, i: u32, path: Vec<u32>) -> (r: TreeNode<'t>)
    requires
        node.at() matches Some(m) && (i as int) < m.children.len(),
        path@ == node.path@.push(i),
    ensures
        r.source == node.source,
        r.path@ == path@,
{
    TreeNode { source: node.source, node: node.node.child(i).unwrap(), path }
}

/// `Node::kind`: the node's grammar kind.
#[verifier::external_body]
fn kind_of<'t>(node: &TreeNode<'t>) -> (r: &'t str)
    requires
        node.at() is Some,
    ensures
        r@ == node.at()->0.kind,
{
    node.node.kind()
}

/// `Node::child_count`: the number of children, named and anonymous.
#[verifier::external_body]
fn child_count_of(node: &TreeNode) -> (r: u32)
    requires
        node.at() is Some,
    ensures
        r as int == node.at()->0.children.len(),
{
    node.node.child_count() as u32
}

/// `Node::field_name_for_child(i)`: the field under which the child at
/// index `i` hangs, if any.
#[verifier::external_body]
fn field_of_child<'t>(node: &TreeNode<'t>, i: u32) -> (r: Option<&'t str>)
    requires
        node.at() matches Some(m) && (i as int) < m.children.len(),
    ensures
        match r {
            Some(f) => node.at()->0.children[i as int].field == Some(f@),
            None => node.at()->0.children[i as int].field is None,
        },
{
    node.node.field_name_for_child(i)
}

/// `Node::start_byte`.
#[verifier::external_body]
fn start_byte_of(node: &TreeNode) -> (r: usize)
    requires
        node.at() is Some,
    ensures
        r == node.at()->0.start_byte,
{
    node.node.start_byte()
}

/// `Node::end_byte`.
#[verifier::external_body]
fn end_byte_of(node: &TreeNode) -> (r: usize)
    requires
        node.at() is Some,
    ensures
        r == node.at()->0.end_byte,
{
    node.node.end_byte()
}

/// The `row` of `Node::start_position`.
#[verifier::external_body]
fn start_row_of(node: &TreeNode) -> (r: usize)
    requires
        node.at() is Some,
    ensures
        r == node.at()->0.start_row,
{
    node.node.start_position().row
}

/// The one-based line of a zero-based row, kept within `u32`.
pub open spec fn line_of_row(row: usize) -> u32 {
    if row < u32::MAX {
        (row + 1) as u32
    } else {
        u32::MAX
    }
}

/// Whether the field name `f` of the model is `m`'s field.
pub open spec fn same_field(f: Option<String>, m: Option<Seq<char>>) -> bool {
    match f {
        Some(g) => m == Some(g@),
        None => m is None,
    }
}

/// Whether `n` reproduces the tree-sitter node `m` and all its descendants:
/// the same kind, field, byte range and children, and the one-based line of
/// its start row.
pub open spec fn copies(n: SyntaxNode, m: ParsedNode) -> bool
    decreases m,
{
    &&& n.kind@ == m.kind
    &&& same_field(n.field, m.field)
    &&& n.start == m.start_byte
    &&& n.end == m.end_byte
    &&& n.line == line_of_row(m.start_row)
    &&& n.children@.len() == m.children.len()
    &&& forall|i: int|
        0 <= i < m.children.len() ==> copies(#[trigger] n.children@[i], m.children[i])
}

/// `path` with `i` appended.
fn extend_path(path: &Vec<u32>, i: u32) -> (r: Vec<u32>)
    ensures
        r@ == path@.push(i),
{
    let mut r: Vec<u32> = Vec::new();
    let n = path.len();
    for k in 0..n
        invariant
            n == path.len(),
            r@ == path@.take(k as int),
    {
        r.push(path[k]);
        assert(r@ =~= path@.take(k + 1));
    }
    assert(path@.take(n as int) =~= path@);
    r.push(i);
    r
}

/// Copies `node` and its descendants into the model; `field` is the field
/// under which `node` hangs.
fn copy_node(node: &TreeNode, field: Option<String>) -> (r: SyntaxNode)
    requires
        node.at() is Some,
        same_field(field, node.at()->0.field),
    ensures
        copies(r, node.at()->0),
    decreases node.at()->0,
{
    let ghost m = node.at()->0;
    let kind = kind_of(node).to_owned();
    let row = start_row_of(node);
    let line = if row < u32::MAX as usize {
        (row + 1) as u32
    } else {
        u32::MAX
    };
    let count = child_count_of(node);
    let mut children: Vec<SyntaxNode> = Vec::new();
    for i in 0..count
        invariant
            node.at() == Some(m),
            count as int == m.children.len(),
            children@.len() == i,
            forall|j: int| 0 <= j < i ==> copies(#[trigger] children@[j], m.children[j]),
    {
        let path = extend_path(&node.path, i);
        let child = child_of(node, i, path);
        assert(child.path@.drop_last() =~= node.path@);
        assert(child.at() == Some(m.children[i as int]));
        let child_field = match field_of_child(node, i) {
            Some(f) => Some(f.to_owned()),
            None => None,
        };
        proof {
            assert(decreases_to!(m => m.children));
            assert(decreases_to!(m.children => m.children[i as int]));
        }
        let copied = copy_node(&child, child_field);
        children.push(copied);
    }
    let start = start_byte_of(node);
    let end = end_byte_of(node);
    SyntaxNode { kind, field, start, end, line, children }
}

/// The copy of a tree whose rows stay within `k` has its lines within the
/// line after row `k`.
proof fn lemma_copied_lines(t: SyntaxNode, m: ParsedNode, k: int)
    requires
        copies(t, m),
        rows_within(m, k),
        0 <= k,
    ensures
        lines_within(t, if k < u32::MAX { k + 1 } else { u32::MAX as int }),
    decreases m,
{
    assert forall|i: int| 0 <= i < t.children@.len() implies lines_within(
        #[trigger] t.children@[i],
        if k < u32::MAX { k + 1 } else { u32::MAX as int },
    ) by {
        assert(copies(t.children@[i], m.children[i]));
        assert(rows_within(m.children[i], k));
        assert(decreases_to!(m => m.children));
        assert(decreases_to!(m.children => m.children[i]));
        lemma_copied_lines(t.children@[i], m.children[i], k);
    }
}

/// Parses `source` with `grammar` and copies the tree into the model: the
/// copy of [`parsed_tree`], or nothing when tree-sitter refuses the grammar
/// or gives no tree. Every node of the copy starts on a line of the text.
pub fn syntax_tree(source: &str, grammar: Grammar) -> (r: Option<SyntaxNode>)
    ensures
        match parsed_tree(grammar, source@) {
            Some(m) => r matches Some(t) && copies(t, m),
            None => r is None,
        },
        r matches Some(t) ==> lines_within(t, line_bound(source@)),
{
    match parse_source(grammar, source) {
        Some(parsed) => {
            let root = root_of(&parsed);
            assert(root.at() == parsed.tree_spec());
            let t = copy_node(&root, None);
            proof {
                lemma_copied_lines(t, parsed.tree_spec()->0, newline_count(source@) as int);
            }
            Some(t)
        },
        None => None,
    }
}

} // verus!
