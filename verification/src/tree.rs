//! The drawing of the spatial subdivision of a tile: one rectangle for each
//! leaf, in the order of the tree.

use vstd::prelude::*;
use vstd::string::*;
use crate::model::{SvgRect, TileNode};
use crate::number::{free_of, is_number_text, lemma_number_text_is_plain};

verus! {

/// The rectangle element of a leaf.
pub open spec fn leaf_fragment(rect: SvgRect) -> Seq<char> {
    "<rect x=\""@ + rect.x@ + "\" y=\""@ + rect.y@ + "\" width=\""@ + rect.width@
        + "\" height=\""@ + rect.height@ + "\" />\n"@
}

/// The rectangle elements of a tree. A leaf gives one, or none where it has
/// no rectangle; an interior node gives those of its children, in their order.
pub open spec fn fragments(node: TileNode) -> Seq<Seq<char>>
    decreases node, 0nat,
{
    match node {
        TileNode::Leaf { rect: Some(rect) } => seq![leaf_fragment(rect)],
        TileNode::Leaf { rect: None } => Seq::empty(),
        TileNode::Node { children } => children_fragments(children@, children@.len()),
    }
}

/// The rectangle elements of the first `n` of `children`.
pub open spec fn children_fragments(children: Seq<TileNode>, n: nat) -> Seq<Seq<char>>
    decreases children, n,
{
    if n == 0 || n > children.len() {
        Seq::empty()
    } else {
        children_fragments(children, (n - 1) as nat) + fragments(children[n - 1])
    }
}

/// The texts of a sequence of strings.
pub open spec fn texts(strings: Seq<String>) -> Seq<Seq<char>> {
    strings.map_values(|s: String| s@)
}

/// The drawing of a tree: its rectangle elements one after the other.
pub open spec fn node_svg(node: TileNode) -> Seq<char> {
    fragments(node).flatten()
}

fn leaf_string(rect: &SvgRect) -> (out: String)
    ensures
        out@ == leaf_fragment(*rect),
{
    let mut out = String::new();
    out.append("<rect x=\"");
    out.append(rect.x.as_str());
    out.append("\" y=\"");
    out.append(rect.y.as_str());
    out.append("\" width=\"");
    out.append(rect.width.as_str());
    out.append("\" height=\"");
    out.append(rect.height.as_str());
    out.append("\" />\n");
    assert(out@ =~= leaf_fragment(*rect));
    out
}

fn collect_fragments(node: &TileNode, out: &mut Vec<String>)
    ensures
        texts(final(out)@) == texts(old(out)@) + fragments(*node),
    decreases node,
{
    match node {
        TileNode::Leaf { rect: Some(rect) } => {
            out.push(leaf_string(rect));
            assert(texts(out@) =~= texts(old(out)@) + fragments(*node));
        },
        TileNode::Leaf { rect: None } => {
            assert(texts(out@) =~= texts(old(out)@) + fragments(*node));
        },
        TileNode::Node { children } => {
            let mut i: usize = 0;
            assert(texts(out@) =~= texts(old(out)@) + children_fragments(children@, 0));
            while i < children.len()
                invariant
                    i <= children@.len(),
                    *node == (TileNode::Node { children: *children }),
                    decreases_to!(*node => *children),
                    texts(out@) == texts(old(out)@) + children_fragments(children@, i as nat),
                decreases children@.len() - i,
            {
                proof {
                    vstd::std_specs::vec::axiom_vec_index_decreases(*children, i as int);
                    assert(decreases_to!(*node => children[i as int]));
                }
                collect_fragments(&children[i], out);
                assert(texts(out@) =~= texts(old(out)@) + children_fragments(
                    children@,
                    (i + 1) as nat,
                ));
                i += 1;
            }
        },
    }
}

/// The rectangle elements of a tree, in the order of the tree.
pub fn flatten(node: &TileNode) -> (out: Vec<String>)
    ensures
        texts(out@) == fragments(*node),
{
    let mut out: Vec<String> = Vec::new();
    collect_fragments(node, &mut out);
    assert(texts(out@) =~= fragments(*node));
    out
}

/// The drawing of a tree: its rectangle elements one after the other.
pub fn tile_node_to_svg(node: &TileNode) -> (svg: String)
    ensures
        svg@ == node_svg(*node),
{
    let parts = flatten(node);
    let mut svg = String::new();
    let mut i: usize = 0;
    proof {
        assert(texts(parts@).take(0) =~= Seq::<Seq<char>>::empty());
        assert(svg@ =~= texts(parts@).take(0).flatten());
    }
    while i < parts.len()
        invariant
            i <= parts@.len(),
            svg@ == texts(parts@).take(i as int).flatten(),
        decreases parts.len() - i,
    {
        svg.append(parts[i].as_str());
        proof {
            let sofar = texts(parts@).take(i as int);
            assert(texts(parts@).take(i + 1) =~= sofar.push(parts@[i as int]@));
            sofar.lemma_flatten_push(parts@[i as int]@);
        }
        i += 1;
    }
    proof {
        assert(texts(parts@).take(parts@.len() as int) =~= texts(parts@));
    }
    svg
}

/// A leaf with a rectangle gives exactly one rectangle element: its own.
pub proof fn lemma_leaf_gives_one_fragment(rect: SvgRect)
    ensures
        fragments(TileNode::Leaf { rect: Some(rect) }) == seq![leaf_fragment(rect)],
        fragments(TileNode::Leaf { rect: Some(rect) }).len() == 1,
        node_svg(TileNode::Leaf { rect: Some(rect) }) == leaf_fragment(rect),
{
    seq![leaf_fragment(rect)].lemma_flatten_one_element();
}

/// A leaf without a rectangle and an interior node without children give
/// nothing.
pub proof fn lemma_nothing_to_draw(children: Vec<TileNode>)
    requires
        children@.len() == 0,
    ensures
        fragments(TileNode::Leaf { rect: None }) == Seq::<Seq<char>>::empty(),
        fragments(TileNode::Node { children }) == Seq::<Seq<char>>::empty(),
        node_svg(TileNode::Node { children }) == Seq::<char>::empty(),
{
}

/// The elements of the first `n` children depend on those children alone.
pub proof fn lemma_children_fragments_prefix(a: Seq<TileNode>, b: Seq<TileNode>, n: nat)
    requires
        n <= a.len(),
        n <= b.len(),
        forall|i: int| 0 <= i < n ==> a[i] == b[i],
    ensures
        children_fragments(a, n) == children_fragments(b, n),
    decreases n,
{
    if n > 0 {
        lemma_children_fragments_prefix(a, b, (n - 1) as nat);
    }
}

/// An interior node gives the elements of its children one after the other, in
/// their order: those of its first children, then those of the child that
/// follows them.
pub proof fn lemma_interior_step(children: Vec<TileNode>, front: Vec<TileNode>)
    requires
        children@.len() > 0,
        front@ == children@.drop_last(),
    ensures
        fragments(TileNode::Node { children }) == fragments(TileNode::Node { children: front })
            + fragments(children@.last()),
{
    lemma_children_fragments_prefix(children@, front@, front@.len());
}

/// An interior node over two runs of children gives the elements of the first
/// run followed by those of the second.
pub proof fn lemma_interior_concat(a: Vec<TileNode>, b: Vec<TileNode>, both: Vec<TileNode>)
    requires
        both@ == a@ + b@,
    ensures
        fragments(TileNode::Node { children: both }) == fragments(TileNode::Node { children: a })
            + fragments(TileNode::Node { children: b }),
        node_svg(TileNode::Node { children: both }) == node_svg(TileNode::Node { children: a })
            + node_svg(TileNode::Node { children: b }),
{
    lemma_children_concat(a@, b@, b@.len());
    vstd::seq_lib::lemma_flatten_concat(
        fragments(TileNode::Node { children: a }),
        fragments(TileNode::Node { children: b }),
    );
}

proof fn lemma_children_concat(a: Seq<TileNode>, b: Seq<TileNode>, n: nat)
    requires
        n <= b.len(),
    ensures
        children_fragments(a + b, a.len() + n) == children_fragments(a, a.len())
            + children_fragments(b, n),
    decreases n,
{
    if n == 0 {
        lemma_children_fragments_prefix(a + b, a, a.len());
        assert(children_fragments(a, a.len()) + children_fragments(b, 0) =~= children_fragments(
            a,
            a.len(),
        ));
    } else {
        lemma_children_concat(a, b, (n - 1) as nat);
        assert((a + b)[a.len() + n - 1] == b[n - 1]);
        assert(children_fragments(a + b, a.len() + n) =~= children_fragments(a, a.len())
            + children_fragments(b, n));
    }
}

/// The leaves of a tree, in the order of the tree.
pub open spec fn leaves(node: TileNode) -> Seq<TileNode>
    decreases node, 0nat,
{
    match node {
        TileNode::Leaf { .. } => seq![node],
        TileNode::Node { children } => children_leaves(children@, children@.len()),
    }
}

/// The leaves of the first `n` of `children`.
pub open spec fn children_leaves(children: Seq<TileNode>, n: nat) -> Seq<TileNode>
    decreases children, n,
{
    if n == 0 || n > children.len() {
        Seq::empty()
    } else {
        children_leaves(children, (n - 1) as nat) + leaves(children[n - 1])
    }
}

/// Whether every node of `nodes` is a leaf.
pub open spec fn all_leaves(nodes: Seq<TileNode>) -> bool {
    forall|i: int| 0 <= i < nodes.len() ==> #[trigger] nodes[i] is Leaf
}

proof fn lemma_leaves_are_leaves(node: TileNode)
    ensures
        all_leaves(leaves(node)),
    decreases node, 0nat,
{
    match node {
        TileNode::Leaf { .. } => {},
        TileNode::Node { children } => {
            lemma_children_leaves_are_leaves(children@, children@.len());
        },
    }
}

proof fn lemma_children_leaves_are_leaves(children: Seq<TileNode>, n: nat)
    ensures
        all_leaves(children_leaves(children, n)),
    decreases children, n,
{
    if !(n == 0 || n > children.len()) {
        lemma_children_leaves_are_leaves(children, (n - 1) as nat);
        lemma_leaves_are_leaves(children[n - 1]);
    }
}

proof fn lemma_fragments_of_leaves(node: TileNode)
    ensures
        children_fragments(leaves(node), leaves(node).len()) == fragments(node),
    decreases node, 0nat,
{
    match node {
        TileNode::Leaf { .. } => {
            let one = seq![node];
            assert(children_fragments(one, 0) + fragments(one[0]) =~= fragments(node));
        },
        TileNode::Node { children } => {
            lemma_children_fragments_of_leaves(children@, children@.len());
        },
    }
}

proof fn lemma_children_fragments_of_leaves(children: Seq<TileNode>, n: nat)
    ensures
        children_fragments(children_leaves(children, n), children_leaves(children, n).len())
            == children_fragments(children, n),
    decreases children, n,
{
    if !(n == 0 || n > children.len()) {
        let front = children_leaves(children, (n - 1) as nat);
        let back = leaves(children[n - 1]);
        lemma_children_fragments_of_leaves(children, (n - 1) as nat);
        lemma_fragments_of_leaves(children[n - 1]);
        lemma_children_concat(front, back, back.len());
    }
}

proof fn lemma_leaves_of_leaves(nodes: Seq<TileNode>, n: nat)
    requires
        all_leaves(nodes),
        n <= nodes.len(),
    ensures
        children_leaves(nodes, n) == nodes.take(n as int),
    decreases n,
{
    if n == 0 {
        assert(nodes.take(0) =~= Seq::<TileNode>::empty());
    } else {
        lemma_leaves_of_leaves(nodes, (n - 1) as nat);
        assert(nodes[n - 1] is Leaf);
        assert(leaves(nodes[n - 1]) == seq![nodes[n - 1]]);
        assert(children_leaves(nodes, n) == children_leaves(nodes, (n - 1) as nat) + leaves(
            nodes[n - 1],
        ));
        assert(nodes.take(n as int) =~= nodes.take(n - 1) + seq![nodes[n - 1]]);
    }
}

/// Flattening is idempotent. The flat tree of a tree is an interior node over
/// the leaves of the tree, in their order: it gives the rectangle elements that
/// the tree gives, and its own flat tree is itself.
pub proof fn lemma_flattening_is_idempotent(node: TileNode, flat: Vec<TileNode>)
    requires
        flat@ == leaves(node),
    ensures
        fragments(TileNode::Node { children: flat }) == fragments(node),
        node_svg(TileNode::Node { children: flat }) == node_svg(node),
        leaves(TileNode::Node { children: flat }) == flat@,
{
    lemma_fragments_of_leaves(node);
    lemma_leaves_are_leaves(node);
    lemma_leaves_of_leaves(flat@, flat@.len());
    assert(flat@.take(flat@.len() as int) =~= flat@);
}

/// Whether `s` opens exactly one element: it begins with an angle bracket and
/// holds no other.
pub open spec fn opens_one_element(s: Seq<char>) -> bool {
    s.len() > 0 && s[0] == '<' && forall|i: int| 1 <= i < s.len() ==> #[trigger] s[i] != '<'
}

proof fn lemma_append_plain(s: Seq<char>, tail: Seq<char>)
    requires
        opens_one_element(s),
        free_of(tail, '<'),
    ensures
        opens_one_element(s + tail),
{
    let both = s + tail;
    assert forall|i: int| 1 <= i < both.len() implies #[trigger] both[i] != '<' by {
        if i < s.len() {
            assert(both[i] == s[i]);
        } else {
            assert(both[i] == tail[i - s.len()]);
        }
    }
    assert(both[0] == s[0]);
}

/// The rectangle element of a leaf is one element and no more: whatever the
/// four numbers of the rectangle, it opens at its first character and nowhere
/// else.
pub proof fn lemma_leaf_fragment_is_one_element(rect: SvgRect)
    requires
        is_number_text(rect.x@),
        is_number_text(rect.y@),
        is_number_text(rect.width@),
        is_number_text(rect.height@),
    ensures
        opens_one_element(leaf_fragment(rect)),
{
    reveal_strlit("<rect x=\"");
    reveal_strlit("\" y=\"");
    reveal_strlit("\" width=\"");
    reveal_strlit("\" height=\"");
    reveal_strlit("\" />\n");
    lemma_number_text_is_plain(rect.x@);
    lemma_number_text_is_plain(rect.y@);
    lemma_number_text_is_plain(rect.width@);
    lemma_number_text_is_plain(rect.height@);
    let p0 = "<rect x=\""@;
    assert(opens_one_element(p0));
    let p1 = p0 + rect.x@;
    lemma_append_plain(p0, rect.x@);
    let p2 = p1 + "\" y=\""@;
    lemma_append_plain(p1, "\" y=\""@);
    let p3 = p2 + rect.y@;
    lemma_append_plain(p2, rect.y@);
    let p4 = p3 + "\" width=\""@;
    lemma_append_plain(p3, "\" width=\""@);
    let p5 = p4 + rect.width@;
    lemma_append_plain(p4, rect.width@);
    let p6 = p5 + "\" height=\""@;
    lemma_append_plain(p5, "\" height=\""@);
    let p7 = p6 + rect.height@;
    lemma_append_plain(p6, rect.height@);
    lemma_append_plain(p7, "\" />\n"@);
}

} // verus!
