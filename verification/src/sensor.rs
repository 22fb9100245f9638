//! The sensor tree that the hardware monitor publishes, and the searches
//! and extractions made on it.

use vstd::prelude::*;

use crate::text::{
    all_white_space, lemma_leading_word_prefix, lemma_skip_all_white_space,
    lemma_skip_white_space_prefix, first_word, first_word_of, has_prefix, lemma_first_word_shape, no_white_space, str_equals,
    str_starts_with,
};

verus! {

/// One node of the sensor tree: a label, the child nodes if any, and the
/// reading shown next to the label if any.
#[derive(Debug)]
pub struct SensorNode {
    pub text: String,
    pub children: Option<Vec<SensorNode>>,
    pub value: Option<String>,
}

/// The children of `node` as a sequence; empty when it has none.
pub open spec fn children_of(node: SensorNode) -> Seq<SensorNode> {
    match node.children {
        Some(cs) => cs@,
        None => Seq::empty(),
    }
}

/// The first node, in pre-order (the node itself, then each child's subtree
/// in order), whose label is `target`.
pub open spec fn node_find(node: SensorNode, target: Seq<char>) -> Option<SensorNode>
    decreases node, 0int,
{
    if node.text@ == target {
        Some(node)
    } else {
        match node.children {
            Some(cs) => nodes_find(cs@, 0, target),
            None => None,
        }
    }
}

/// The first node with label `target` in the subtrees of `nodes[i]`,
/// `nodes[i + 1]`, ... in order.
pub open spec fn nodes_find(nodes: Seq<SensorNode>, i: int, target: Seq<char>) -> Option<
    SensorNode,
>
    decreases nodes, nodes.len() - i,
{
    if 0 <= i < nodes.len() {
        match node_find(nodes[i], target) {
            Some(n) => Some(n),
            None => nodes_find(nodes, i + 1, target),
        }
    } else {
        None
    }
}

/// Whether some node of the tree rooted at `node` is labelled `target`.
pub open spec fn has_label(node: SensorNode, target: Seq<char>) -> bool
    decreases node, 0int,
{
    node.text@ == target || match node.children {
        Some(cs) => any_has_label(cs@, 0, target),
        None => false,
    }
}

/// Whether some node in the subtrees of `nodes[i]`, `nodes[i + 1]`, ... is
/// labelled `target`.
pub open spec fn any_has_label(nodes: Seq<SensorNode>, i: int, target: Seq<char>) -> bool
    decreases nodes, nodes.len() - i,
{
    0 <= i < nodes.len() && (has_label(nodes[i], target) || any_has_label(nodes, i + 1, target))
}

/// Whether `m` is a node of the tree rooted at `node`.
pub open spec fn in_tree(node: SensorNode, m: SensorNode) -> bool
    decreases node, 0int,
{
    node == m || match node.children {
        Some(cs) => in_trees(cs@, 0, m),
        None => false,
    }
}

/// Whether `m` is a node of the subtrees of `nodes[i]`, `nodes[i + 1]`, ...
pub open spec fn in_trees(nodes: Seq<SensorNode>, i: int, m: SensorNode) -> bool
    decreases nodes, nodes.len() - i,
{
    0 <= i < nodes.len() && (in_tree(nodes[i], m) || in_trees(nodes, i + 1, m))
}

/// The search finds a node exactly when the tree has a node with the
/// label, and what it finds is a node of the tree with that label.
pub proof fn lemma_find_node_sound_and_complete(node: SensorNode, target: Seq<char>)
    ensures
        node_find(node, target).is_some() == has_label(node, target),
        node_find(node, target).is_some() ==> node_find(node, target).unwrap().text@ == target
            && in_tree(node, node_find(node, target).unwrap()),
    decreases node, 0int,
{
    if node.text@ != target {
        match node.children {
            Some(cs) => {
                lemma_nodes_find_sound_and_complete(cs@, 0, target);
            },
            None => {},
        }
    }
}

/// The search over a list of subtrees, like `lemma_find_node_sound_and_complete`.
pub proof fn lemma_nodes_find_sound_and_complete(
    nodes: Seq<SensorNode>,
    i: int,
    target: Seq<char>,
)
    ensures
        nodes_find(nodes, i, target).is_some() == any_has_label(nodes, i, target),
        nodes_find(nodes, i, target).is_some() ==> nodes_find(nodes, i, target).unwrap().text@
            == target && in_trees(nodes, i, nodes_find(nodes, i, target).unwrap()),
    decreases nodes, nodes.len() - i,
{
    if 0 <= i < nodes.len() {
        lemma_find_node_sound_and_complete(nodes[i], target);
        lemma_nodes_find_sound_and_complete(nodes, i + 1, target);
    }
}

/// The search visits the tree in pre-order: a node labelled `target` is
/// its own answer, and otherwise the answer comes from the first child
/// whose subtree has a node labelled `target`, before any later child.
pub proof fn lemma_find_node_preorder(node: SensorNode, target: Seq<char>)
    ensures
        node.text@ == target ==> node_find(node, target) == Some(node),
        node.text@ != target ==> forall|i: int|
            0 <= i < children_of(node).len() && has_label(#[trigger] children_of(node)[i], target)
                && (forall|j: int| 0 <= j < i ==> !has_label(children_of(node)[j], target))
                ==> node_find(node, target) == node_find(children_of(node)[i], target),
        node.text@ != target && node.children.is_none() ==> node_find(node, target).is_none(),
{
    if node.text@ != target {
        match node.children {
            Some(cs) => {
                assert forall|i: int|
                    0 <= i < children_of(node).len() && has_label(
                        #[trigger] children_of(node)[i],
                        target,
                    ) && (forall|j: int| 0 <= j < i ==> !has_label(children_of(node)[j], target))
                    implies node_find(node, target) == node_find(children_of(node)[i], target) by {
                    lemma_nodes_find_first_subtree(cs@, 0, i, target);
                }
            },
            None => {},
        }
    }
}

proof fn lemma_nodes_find_first_subtree(nodes: Seq<SensorNode>, from: int, i: int, target: Seq<char>)
    requires
        0 <= from <= i < nodes.len(),
        has_label(nodes[i], target),
        forall|j: int| 0 <= j < i ==> !has_label(nodes[j], target),
    ensures
        nodes_find(nodes, from, target) == node_find(nodes[i], target),
    decreases i - from,
{
    lemma_find_node_sound_and_complete(nodes[from], target);
    if from < i {
        lemma_nodes_find_first_subtree(nodes, from + 1, i, target);
    }
}

/// The same node, seen through an optional reference.
pub open spec fn deref_opt(r: Option<&SensorNode>) -> Option<SensorNode> {
    match r {
        Some(n) => Some(*n),
        None => None,
    }
}

/// Searches the tree rooted at `node` for the first node, in pre-order,
/// whose label is `target`.
pub fn find_node<'a>(node: &'a SensorNode, target: &str) -> (r: Option<&'a SensorNode>)
    ensures
        deref_opt(r) == node_find(*node, target@),
    decreases node,
{
    if str_equals(node.text.as_str(), target) {
        return Some(node);
    }
    match &node.children {
        None => None,
        Some(children) => {
            let mut i: usize = 0;
            while i < children.len()
                invariant
                    node.text@ != target@,
                    node.children == Some(*children),
                    i <= children.len(),
                    nodes_find(children@, 0, target@) == nodes_find(children@, i as int, target@),
                decreases children.len() - i,
            {
                assert(decreases_to!(node => children@[i as int]));
                let found = find_node(&children[i], target);
                if found.is_some() {
                    return found;
                }
                i = i + 1;
            }
            None
        },
    }
}

/// Whether `node` is a per-core reading: its label begins with "CPU Core"
/// and it shows a value.
pub open spec fn is_core_reading(node: SensorNode) -> bool {
    has_prefix(node.text@, "CPU Core"@) && node.value is Some
}

/// The values of the per-core readings among `nodes`, in order.
pub open spec fn core_readings(nodes: Seq<SensorNode>) -> Seq<String>
    decreases nodes.len(),
{
    if nodes.len() == 0 {
        Seq::empty()
    } else {
        let earlier = core_readings(nodes.drop_last());
        if is_core_reading(nodes.last()) {
            earlier.push(nodes.last().value.unwrap())
        } else {
            earlier
        }
    }
}

/// Each per-core value that `collect_data` lists is the value of a child
/// whose label begins with "CPU Core", and the list is never longer than
/// the list of children.
pub proof fn lemma_core_readings_come_from_children(nodes: Seq<SensorNode>)
    ensures
        core_readings(nodes).len() <= nodes.len(),
        forall|k: int|
            #![trigger core_readings(nodes)[k]]
            0 <= k < core_readings(nodes).len() ==> exists|i: int|
                0 <= i < nodes.len() && is_core_reading(#[trigger] nodes[i])
                    && nodes[i].value.unwrap() == core_readings(nodes)[k],
    decreases nodes.len(),
{
    if nodes.len() > 0 {
        let init = nodes.drop_last();
        lemma_core_readings_come_from_children(init);
        assert forall|k: int|
            #![trigger core_readings(nodes)[k]]
            0 <= k < core_readings(nodes).len() implies exists|i: int|
            0 <= i < nodes.len() && is_core_reading(#[trigger] nodes[i])
                && nodes[i].value.unwrap() == core_readings(nodes)[k] by {
            if k < core_readings(init).len() {
                let i = choose|i: int|
                    0 <= i < init.len() && is_core_reading(#[trigger] init[i])
                        && init[i].value.unwrap() == core_readings(init)[k];
                assert(nodes[i] == init[i]);
            } else {
                assert(nodes[nodes.len() - 1] == nodes.last());
            }
        }
    }
}

/// The values of the children of `node` whose label begins with "CPU Core"
/// and that show a value, in the children's order.
pub fn collect_data(node: &SensorNode) -> (r: Vec<String>)
    ensures
        r@ == core_readings(children_of(*node)),
{
    let mut out: Vec<String> = Vec::new();
    match &node.children {
        None => {
            assert(children_of(*node) =~= Seq::<SensorNode>::empty());
        },
        Some(children) => {
            let n = children.len();
            for i in 0..n
                invariant
                    n == children@.len(),
                    out@ == core_readings(children@.take(i as int)),
            {
                assert(children@.take(i + 1).drop_last() =~= children@.take(i as int));
                let child = &children[i];
                if str_starts_with(child.text.as_str(), "CPU Core") {
                    match &child.value {
                        Some(v) => {
                            out.push(v.clone());
                        },
                        None => {},
                    }
                }
            }
            assert(children@.take(n as int) =~= children@);
        },
    }
    out
}

/// The text that `extract_number` gives for a reading `s`: its first
/// whitespace-separated word, or "N/A" when it has none.
pub open spec fn extracted_number(s: Seq<char>) -> Seq<char> {
    match first_word(s) {
        Some(w) => w,
        None => "N/A"@,
    }
}

/// The numeric part of a reading such as "42.5 °C": its first
/// whitespace-separated word, or "N/A" when the reading is blank.
pub fn extract_number(s: &str) -> (r: String)
    ensures
        r@ == extracted_number(s@),
{
    match first_word_of(s) {
        Some(w) => w,
        None => "N/A".to_owned(),
    }
}

/// What `extract_number` gives is never empty and holds no whitespace, and
/// extracting the number again gives it back unchanged.
pub proof fn lemma_extract_number_idempotent(s: Seq<char>)
    ensures
        extracted_number(s).len() > 0,
        no_white_space(extracted_number(s)),
        extracted_number(extracted_number(s)) == extracted_number(s),
{
    reveal_strlit("N/A");
    lemma_first_word_shape(s);
    let w = extracted_number(s);
    assert(w.len() > 0 && no_white_space(w));
    lemma_first_word_shape(w);
}

/// The number extracted from a reading that consists of some whitespace,
/// then a word without whitespace, then either nothing or text starting with
/// whitespace, is that word.
pub proof fn lemma_extract_number_is_first_word(ws: Seq<char>, w: Seq<char>, rest: Seq<char>)
    requires
        all_white_space(ws),
        w.len() > 0,
        no_white_space(w),
        rest.len() == 0 || crate::text::is_white_space_spec(rest[0]),
    ensures
        extracted_number(ws + w + rest) == w,
{
    assert(!crate::text::is_white_space_spec(w[0]));
    assert((w + rest)[0] == w[0]);
    assert(ws + w + rest =~= ws + (w + rest));
    lemma_skip_white_space_prefix(ws, w + rest);
    lemma_leading_word_prefix(w, rest);
}

/// The number extracted from a reading made only of whitespace (or empty)
/// is "N/A".
pub proof fn lemma_extract_number_of_blank(s: Seq<char>)
    requires
        all_white_space(s),
    ensures
        extracted_number(s) == "N/A"@,
{
    lemma_skip_all_white_space(s);
}

/// The per-core values of two lists of children placed one after the other
/// are those of the first list followed by those of the second.
pub proof fn lemma_core_readings_concat(a: Seq<SensorNode>, b: Seq<SensorNode>)
    ensures
        core_readings(a + b) == core_readings(a) + core_readings(b),
    decreases b.len(),
{
    if b.len() == 0 {
        assert(a + b =~= a);
        assert(core_readings(a) + core_readings(b) =~= core_readings(a));
    } else {
        lemma_core_readings_concat(a, b.drop_last());
        assert((a + b).drop_last() =~= a + b.drop_last());
        assert((a + b).last() == b.last());
        assert(core_readings(a) + core_readings(b.drop_last()).push(b.last().value.unwrap())
            =~= (core_readings(a) + core_readings(b.drop_last())).push(b.last().value.unwrap()));
    }
}

/// One child contributes exactly its value when it is a per-core reading
/// and nothing otherwise; so a list with one more child has one more value
/// exactly when that child is a per-core reading, even when the value
/// repeats an earlier one.
pub proof fn lemma_core_readings_one_per_core_child(s: Seq<SensorNode>, n: SensorNode)
    ensures
        core_readings(seq![n]) == if is_core_reading(n) {
            seq![n.value.unwrap()]
        } else {
            Seq::<String>::empty()
        },
        is_core_reading(n) ==> core_readings(s.push(n)) == core_readings(s).push(n.value.unwrap()),
        !is_core_reading(n) ==> core_readings(s.push(n)) == core_readings(s),
        core_readings(Seq::<SensorNode>::empty()) == Seq::<String>::empty(),
{
    assert(seq![n].drop_last() =~= Seq::<SensorNode>::empty());
    assert(core_readings(Seq::<SensorNode>::empty()) =~= Seq::<String>::empty());
    assert(seq![n].last() == n);
    if is_core_reading(n) {
        assert(core_readings(seq![n]) =~= seq![n.value.unwrap()]);
    } else {
        assert(core_readings(seq![n]) =~= Seq::<String>::empty());
    }
    assert(s.push(n) =~= s + seq![n]);
    lemma_core_readings_concat(s, seq![n]);
    if is_core_reading(n) {
        assert(core_readings(s) + seq![n.value.unwrap()] =~= core_readings(s).push(
            n.value.unwrap(),
        ));
    } else {
        assert(core_readings(s) + Seq::<String>::empty() =~= core_readings(s));
    }
}

/// `collect_data` lists one value per per-core child: its length is the
/// number of such children, and its k-th entry is the value of the k-th
/// such child.
pub proof fn lemma_core_readings_count(s: Seq<SensorNode>)
    ensures
        core_readings(s).len() == s.filter(|c: SensorNode| is_core_reading(c)).len(),
        forall|k: int|
            #![trigger core_readings(s)[k]]
            0 <= k < core_readings(s).len() ==> core_readings(s)[k] == s.filter(
                |c: SensorNode| is_core_reading(c),
            )[k].value.unwrap(),
    decreases s.len(),
{
    reveal_with_fuel(Seq::filter, 1);
    let f = |c: SensorNode| is_core_reading(c);
    if s.len() > 0 {
        lemma_core_readings_count(s.drop_last());
        assert(s.filter(f) == if f(s.last()) {
            s.drop_last().filter(f).push(s.last())
        } else {
            s.drop_last().filter(f)
        });
    } else {
        assert(s.filter(f) =~= Seq::<SensorNode>::empty());
    }
}

} // verus!
