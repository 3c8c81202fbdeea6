//! The syntax tree of a Solidity source unit, as plain values copied from the parser's tree, and the list of
//! source items made from it.
//!
//! A node holds what the parser gives for one item, with byte offsets in the text. Listing the items is
//! done here: the items that carry no `NatSpec` (pragmas, imports, `using` directives, value types) are left
//! out, each contract is listed before the items of its body, and these get the contract as their parent.
use vstd::prelude::*;

use crate::definitions::{Identifier, Visibility};
use crate::items::{document_from_items, extracted, completes, completable, DocComment, SolItem, SolItemKind};
use crate::parser::ParsedDocument;
use crate::textindex::position_after;

verus! {

/// The kind of a node of the syntax tree
#[derive(Debug, Clone, Copy, PartialEq, Eq, Structural)]
pub enum NodeKind {
    Pragma,
    Import,
    Using,
    UserValueType,
    Contract,
    AbstractContract,
    Interface,
    Library,
    Constructor,
    Function,
    Modifier,
    Fallback,
    Receive,
    Variable,
    Struct,
    Enum,
    Error,
    Event,
}

/// A node of the syntax tree, as the parser gives it
///
/// The fields that an item of this kind does not have are left empty (`None`, zero or an empty list).
#[derive(Debug)]
pub struct SolNode {
    pub kind: NodeKind,
    /// The name of the item, if it has one
    pub name: Option<String>,
    /// The byte span of the whole item
    pub start: usize,
    pub end: usize,
    /// For a contract, interface or library: where its name ends
    pub name_end: usize,
    /// For a contract: where its last base ends, if it has bases
    pub bases_end: Option<usize>,
    /// For a contract: where its storage layout ends, if it has one
    pub layout_end: Option<usize>,
    /// For a function-like item: the byte span of its header
    pub header_start: usize,
    pub header_end: usize,
    /// The doc-comments right before the item
    pub docs: Vec<DocComment>,
    /// The params of a function-like item, error or event; the fields of a struct; the variants of an enum
    pub params: Vec<Identifier>,
    /// The returns of a function
    pub returns: Vec<Identifier>,
    /// The visibility written on the item, if any
    pub visibility: Option<Visibility>,
    /// Whether the item is marked `override`
    pub is_override: bool,
    /// For a contract, interface or library: the nodes of its body
    pub body: Vec<SolNode>,
}

/// Nodes that give no source item
pub open spec fn is_ignored(k: NodeKind) -> bool {
    k == NodeKind::Pragma || k == NodeKind::Import || k == NodeKind::Using || k == NodeKind::UserValueType
}

/// Nodes that hold other items
pub open spec fn is_container_node(k: NodeKind) -> bool {
    k == NodeKind::Contract || k == NodeKind::AbstractContract || k == NodeKind::Interface || k
        == NodeKind::Library
}

/// Function-like nodes, whose span is that of their header
pub open spec fn is_function_like(k: NodeKind) -> bool {
    k == NodeKind::Constructor || k == NodeKind::Function || k == NodeKind::Modifier || k
        == NodeKind::Fallback || k == NodeKind::Receive
}

/// The kind of the item of a node that gives one
pub open spec fn item_kind(k: NodeKind) -> SolItemKind {
    match k {
        NodeKind::Contract => SolItemKind::Contract,
        NodeKind::AbstractContract => SolItemKind::AbstractContract,
        NodeKind::Interface => SolItemKind::Interface,
        NodeKind::Library => SolItemKind::Library,
        NodeKind::Constructor => SolItemKind::Constructor,
        NodeKind::Function => SolItemKind::Function,
        NodeKind::Modifier => SolItemKind::Modifier,
        NodeKind::Fallback => SolItemKind::Fallback,
        NodeKind::Receive => SolItemKind::Receive,
        NodeKind::Variable => SolItemKind::Variable,
        NodeKind::Struct => SolItemKind::Struct,
        NodeKind::Enum => SolItemKind::Enum,
        NodeKind::Error => SolItemKind::Error,
        _ => SolItemKind::Event,
    }
}

/// The byte offsets listed for an optional offset
pub open spec fn opt_offsets(o: Option<usize>) -> Seq<usize> {
    match o {
        Some(v) => seq![v],
        None => Seq::empty(),
    }
}

/// The item `it` is the one listed for the node `n`, whatever its parent
///
/// A contract, interface or library spans from its start to the end of its name, its last base or its storage
/// layout; a function-like item spans its header; other items span the whole node. Items without a written
/// visibility are internal.
pub open spec fn item_from(n: SolNode, it: SolItem) -> bool {
    &&& it.kind == item_kind(n.kind)
    &&& it.name == n.name
    &&& if is_container_node(n.kind) {
        it.start == n.start && it.end == n.name_end && it.other_ends@ == opt_offsets(n.bases_end)
            + opt_offsets(n.layout_end)
    } else if is_function_like(n.kind) {
        it.start == n.header_start && it.end == n.header_end && it.other_ends@.len() == 0
    } else {
        it.start == n.start && it.end == n.end && it.other_ends@.len() == 0
    }
    &&& it.docs@ == n.docs@
    &&& it.params@ == n.params@
    &&& it.returns@ == n.returns@
    &&& it.visibility == match n.visibility {
        Some(v) => v,
        None => Visibility::Internal,
    }
    &&& it.is_override == n.is_override
}

/// Where the items of a list come from: the position of a top-level node, and the position in its body of the
/// body node, or `-1` for the top-level node itself
pub open spec fn node_refs(nodes: Seq<SolNode>) -> Seq<(int, int)>
    decreases nodes.len(),
{
    if nodes.len() == 0 {
        Seq::empty()
    } else {
        let i = nodes.len() - 1;
        let n = nodes.last();
        node_refs(nodes.drop_last()) + if is_ignored(n.kind) {
            Seq::empty()
        } else if is_container_node(n.kind) {
            seq![(i, -1)] + body_refs(n.body@, i)
        } else {
            seq![(i, -1)]
        }
    }
}

/// Where the items of the body of top-level node `i` come from
pub open spec fn body_refs(body: Seq<SolNode>, i: int) -> Seq<(int, int)>
    decreases body.len(),
{
    if body.len() == 0 {
        Seq::empty()
    } else {
        body_refs(body.drop_last(), i) + if is_ignored(body.last().kind) {
            Seq::empty()
        } else {
            seq![(i, body.len() - 1)]
        }
    }
}

/// The node that item reference `r` points to
pub open spec fn node_at(nodes: Seq<SolNode>, r: (int, int)) -> SolNode {
    if r.1 < 0 {
        nodes[r.0]
    } else {
        nodes[r.0].body@[r.1]
    }
}

/// `items` are the items listed for the nodes `nodes`, in order: each made from its node, the top-level items
/// without a parent, the items of a body with the position of the item of their container as parent
pub open spec fn listed(nodes: Seq<SolNode>, items: Seq<SolItem>) -> bool {
    let refs = node_refs(nodes);
    &&& items.len() == refs.len()
    &&& forall|k: int| 0 <= k < items.len() ==> item_from(node_at(nodes, refs[k]), #[trigger] items[k])
    &&& forall|k: int| 0 <= k < items.len() && refs[k].1 < 0 ==> (#[trigger] items[k]).parent is None
    &&& forall|k: int|
        0 <= k < items.len() && refs[k].1 >= 0 ==> ((#[trigger] items[k]).parent matches Some(c) && c < k
            && refs[c as int] == (refs[k].0, -1int))
}

fn copy_docs(v: &Vec<DocComment>) -> (r: Vec<DocComment>)
    ensures
        r@ == v@,
{
    let mut r: Vec<DocComment> = Vec::new();
    let mut k: usize = 0;
    while k < v.len()
        invariant
            k <= v@.len(),
            r@ == v@.take(k as int),
        decreases v@.len() - k,
    {
        let d = &v[k];
        r.push(DocComment { text: d.text.clone(), start: d.start, end: d.end });
        proof {
            assert(v@.take(k + 1) =~= v@.take(k as int).push(v@[k as int]));
        }
        k = k + 1;
    }
    proof {
        assert(v@.take(k as int) =~= v@);
    }
    r
}

fn copy_idents(v: &Vec<Identifier>) -> (r: Vec<Identifier>)
    ensures
        r@ == v@,
{
    let mut r: Vec<Identifier> = Vec::new();
    let mut k: usize = 0;
    while k < v.len()
        invariant
            k <= v@.len(),
            r@ == v@.take(k as int),
        decreases v@.len() - k,
    {
        r.push(v[k].clone());
        proof {
            assert(v@.take(k + 1) =~= v@.take(k as int).push(v@[k as int]));
        }
        k = k + 1;
    }
    proof {
        assert(v@.take(k as int) =~= v@);
    }
    r
}

fn kind_of_item(k: NodeKind) -> (r: SolItemKind)
    ensures
        r == item_kind(k),
{
    match k {
        NodeKind::Contract => SolItemKind::Contract,
        NodeKind::AbstractContract => SolItemKind::AbstractContract,
        NodeKind::Interface => SolItemKind::Interface,
        NodeKind::Library => SolItemKind::Library,
        NodeKind::Constructor => SolItemKind::Constructor,
        NodeKind::Function => SolItemKind::Function,
        NodeKind::Modifier => SolItemKind::Modifier,
        NodeKind::Fallback => SolItemKind::Fallback,
        NodeKind::Receive => SolItemKind::Receive,
        NodeKind::Variable => SolItemKind::Variable,
        NodeKind::Struct => SolItemKind::Struct,
        NodeKind::Enum => SolItemKind::Enum,
        NodeKind::Error => SolItemKind::Error,
        _ => SolItemKind::Event,
    }
}

/// The item listed for a node, with the given parent
fn item_of(n: &SolNode, parent: Option<usize>) -> (it: SolItem)
    ensures
        item_from(*n, it),
        it.parent == parent,
{
    let name = match &n.name {
        Some(s) => Some(s.clone()),
        None => None,
    };
    let container = n.kind == NodeKind::Contract || n.kind == NodeKind::AbstractContract || n.kind
        == NodeKind::Interface || n.kind == NodeKind::Library;
    let function_like = n.kind == NodeKind::Constructor || n.kind == NodeKind::Function || n.kind
        == NodeKind::Modifier || n.kind == NodeKind::Fallback || n.kind == NodeKind::Receive;
    let mut other_ends: Vec<usize> = Vec::new();
    let (start, end) = if container {
        match n.bases_end {
            Some(b) => other_ends.push(b),
            None => {},
        }
        match n.layout_end {
            Some(l) => other_ends.push(l),
            None => {},
        }
        proof {
            assert(other_ends@ =~= opt_offsets(n.bases_end) + opt_offsets(n.layout_end));
        }
        (n.start, n.name_end)
    } else if function_like {
        (n.header_start, n.header_end)
    } else {
        (n.start, n.end)
    };
    let visibility = match n.visibility {
        Some(v) => v,
        None => Visibility::Internal,
    };
    SolItem {
        kind: kind_of_item(n.kind),
        name,
        start,
        end,
        other_ends,
        docs: copy_docs(&n.docs),
        params: copy_idents(&n.params),
        returns: copy_idents(&n.returns),
        visibility,
        is_override: n.is_override,
        parent,
    }
}

/// The source items of a syntax tree, in order: each contract, interface or library before the items of its
/// body, which get it as their parent; pragmas, imports, `using` directives and value types are left out
pub fn list_items(nodes: &[SolNode]) -> (items: Vec<SolItem>)
    ensures
        listed(nodes@, items@),
{
    let mut items: Vec<SolItem> = Vec::new();
    let mut i: usize = 0;
    while i < nodes.len()
        invariant
            i <= nodes@.len(),
            listed(nodes@.take(i as int), items@),
            forall|k: int|
                0 <= k < items@.len() ==> 0 <= (#[trigger] node_refs(nodes@.take(i as int))[k]).0 < i,
        decreases nodes@.len() - i,
    {
        let ghost before = items@;
        let ghost pre = nodes@.take(i as int);
        let ghost cur = nodes@.take(i + 1);
        proof {
            assert(cur.drop_last() =~= pre);
            assert(cur.last() == nodes@[i as int]);
            assert forall|r: (int, int)| 0 <= r.0 < i implies #[trigger] node_at(cur, r) == node_at(pre, r) by {
                assert(cur[r.0] == pre[r.0]);
            }
        }
        let n = &nodes[i];
        let ignored = n.kind == NodeKind::Pragma || n.kind == NodeKind::Import || n.kind == NodeKind::Using
            || n.kind == NodeKind::UserValueType;
        if ignored {
            proof {
                assert(node_refs(cur) =~= node_refs(pre));
                assert forall|k: int| 0 <= k < items@.len() implies item_from(
                    node_at(cur, node_refs(cur)[k]),
                    #[trigger] items@[k],
                ) by {
                    assert(node_at(cur, node_refs(pre)[k]) == node_at(pre, node_refs(pre)[k]));
                }
            }
        } else {
            let c = items.len();
            items.push(item_of(n, None));
            let container = n.kind == NodeKind::Contract || n.kind == NodeKind::AbstractContract || n.kind
                == NodeKind::Interface || n.kind == NodeKind::Library;
            let ghost top = node_refs(pre).push((i as int, -1int));
            proof {
                assert forall|k: int| 0 <= k < items@.len() implies item_from(
                    node_at(cur, top[k]),
                    #[trigger] items@[k],
                ) by {
                    if k < c {
                        assert(node_at(cur, node_refs(pre)[k]) == node_at(pre, node_refs(pre)[k]));
                        assert(items@[k] == before[k]);
                    }
                }
                assert forall|k: int| 0 <= k < items@.len() && top[k].1 < 0 implies (
                #[trigger] items@[k]).parent is None by {
                    if k < c {
                        assert(items@[k] == before[k]);
                    }
                }
                assert forall|k: int| 0 <= k < items@.len() && top[k].1 >= 0 implies ((
                #[trigger] items@[k]).parent matches Some(p) && p < k && top[p as int] == (top[k].0, -1int)) by {
                    assert(k < c);
                    assert(items@[k] == before[k]);
                }
            }
            if container {
                let mut j: usize = 0;
                while j < n.body.len()
                    invariant
                        n == &nodes@[i as int],
                        j <= n.body@.len(),
                        c == before.len(),
                        c == node_refs(pre).len(),
                        i < nodes@.len(),
                        cur == nodes@.take(i + 1),
                        items@.len() == c + 1 + body_refs(n.body@.take(j as int), i as int).len(),
                        forall|k: int| 0 <= k < c ==> #[trigger] items@[k] == before[k],
                        item_from(*n, items@[c as int]),
                        items@[c as int].parent is None,
                        forall|k: int|
                            c < k < items@.len() ==> item_from(
                                node_at(cur, body_refs(n.body@.take(j as int), i as int)[k - c - 1]),
                                #[trigger] items@[k],
                            ) && items@[k].parent == Some(c),
                        forall|q: int|
                            0 <= q < body_refs(n.body@.take(j as int), i as int).len() ==> (#[trigger] body_refs(
                                n.body@.take(j as int),
                                i as int,
                            )[q]).0 == i && 0 <= body_refs(n.body@.take(j as int), i as int)[q].1 < j,
                    decreases n.body@.len() - j,
                {
                    let ghost bt = n.body@.take(j as int);
                    let ghost bt1 = n.body@.take(j + 1);
                    proof {
                        assert(bt1.drop_last() =~= bt);
                        assert(bt1.last() == n.body@[j as int]);
                    }
                    let b = &n.body[j];
                    let skip = b.kind == NodeKind::Pragma || b.kind == NodeKind::Import || b.kind
                        == NodeKind::Using || b.kind == NodeKind::UserValueType;
                    if skip {
                        proof {
                            assert(body_refs(bt1, i as int) =~= body_refs(bt, i as int));
                        }
                    } else {
                        let ghost mid = items@;
                        items.push(item_of(b, Some(c)));
                        proof {
                            assert(body_refs(bt1, i as int) =~= body_refs(bt, i as int).push((i as int, j as int)));
                            assert(node_at(cur, (i as int, j as int)) == n.body@[j as int]);
                            assert forall|k: int| c < k < items@.len() implies item_from(
                                node_at(cur, body_refs(bt1, i as int)[k - c - 1]),
                                #[trigger] items@[k],
                            ) && items@[k].parent == Some(c) by {
                                if k < items@.len() - 1 {
                                    assert(items@[k] == mid[k]);
                                }
                            }
                        }
                    }
                    j = j + 1;
                }
                proof {
                    assert(n.body@.take(j as int) =~= n.body@);
                    let refs = node_refs(cur);
                    assert(refs =~= node_refs(pre) + (seq![(i as int, -1int)] + body_refs(n.body@, i as int)));
                    assert forall|k: int| 0 <= k < items@.len() implies item_from(
                        node_at(cur, refs[k]),
                        #[trigger] items@[k],
                    ) by {
                        if k < c {
                            assert(refs[k] == node_refs(pre)[k]);
                            assert(node_at(cur, node_refs(pre)[k]) == node_at(pre, node_refs(pre)[k]));
                        } else if k > c {
                            assert(refs[k] == body_refs(n.body@, i as int)[k - c - 1]);
                        }
                    }
                    assert forall|k: int| 0 <= k < items@.len() && refs[k].1 < 0 implies (
                    #[trigger] items@[k]).parent is None by {
                        if k > c {
                            assert(refs[k] == body_refs(n.body@, i as int)[k - c - 1]);
                        }
                    }
                    assert forall|k: int| 0 <= k < items@.len() && refs[k].1 >= 0 implies ((
                    #[trigger] items@[k]).parent matches Some(p) && p < k && refs[p as int] == (
                    refs[k].0, -1int)) by {
                        if k < c {
                            assert(refs[k] == node_refs(pre)[k]);
                            assert(items@[k] == before[k]);
                            let p = items@[k].parent->Some_0;
                            assert(refs[p as int] == node_refs(pre)[p as int]);
                        } else if k > c {
                            assert(refs[k] == body_refs(n.body@, i as int)[k - c - 1]);
                            assert(refs[c as int] == (i as int, -1int));
                        }
                    }
                    assert forall|k: int| 0 <= k < items@.len() implies 0 <= (#[trigger] refs[k]).0 < i + 1 by {
                        if k < c {
                            assert(refs[k] == node_refs(pre)[k]);
                        } else if k > c {
                            assert(refs[k] == body_refs(n.body@, i as int)[k - c - 1]);
                        }
                    }
                }
            } else {
                proof {
                    assert(node_refs(cur) =~= top);
                }
            }
        }
        i = i + 1;
    }
    proof {
        assert(nodes@.take(i as int) =~= nodes@);
    }
    items
}

/// The parsed document of the text `source`, from the syntax tree that a parser gives for it
///
/// There is no document where the spans cannot be completed (an offset that is not a character boundary, or a
/// search for an index that fails).
pub fn document_from_tree(source: &str, nodes: &[SolNode]) -> (r: Option<ParsedDocument>)
    requires
        position_after(source@).utf8 <= usize::MAX,
    ensures
        exists|items: Seq<SolItem>|
            #[trigger] listed(nodes@, items) && match r {
                Some(doc) => exists|defs: Seq<crate::definitions::Definition>|
                    #[trigger] extracted(items, defs) && completes(source@, defs, doc.definitions@),
                None => exists|defs: Seq<crate::definitions::Definition>|
                    #[trigger] extracted(items, defs) && !completable(source@, defs),
            },
{
    let items = list_items(nodes);
    let r = document_from_items(source, items.as_slice());
    assert(listed(nodes@, items@));
    r
}

} // verus!
