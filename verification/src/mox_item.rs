//! Markup nodes and the items they become: tags with attributes and children,
//! expressions, or nothing.
use vstd::prelude::*;
use crate::mox::{
    attr_name_verdict, check_node_type, copy_bytes, is_mangled_path, item_kind, mangled,
    tag_name_verdict, validate_attr_name, validate_tag_name, ItemKind, NodeError, NodeName, NodeType,
    Segment, Target,
};

verus! {

/// A parsed markup node, as far as the conversion reads it. Expressions are
/// kept as their source text.
#[derive(Debug)]
pub struct Node {
    pub node_type: NodeType,
    pub name: Option<NodeName>,
    pub value: Option<Vec<u8>>,
    pub attributes: Vec<Node>,
    pub children: Vec<Node>,
}

/// An attribute of a tag: a method of the builder and its argument. Without
/// a value the name itself is the argument.
#[derive(Debug)]
pub struct MoxAttr {
    pub name: Vec<u8>,
    pub value: Option<Vec<u8>>,
}

/// An expression that becomes a child of the enclosing tag.
#[derive(Debug)]
pub struct MoxExpr {
    pub expr: Vec<u8>,
}

/// A tag: a builder named by a path, with attributes and children.
#[derive(Debug)]
pub struct MoxTag {
    pub name: Vec<Segment>,
    pub attributes: Vec<MoxAttr>,
    pub children: Vec<MoxItem>,
}

/// What a node becomes.
#[derive(Debug)]
pub enum MoxItem {
    Tag(MoxTag),
    Expr(MoxExpr),
    /// Comments and doctypes leave nothing behind.
    Nothing,
}

/// Two optional byte strings hold the same.
pub open spec fn same_value(a: Option<Vec<u8>>, b: Option<Vec<u8>>) -> bool {
    match (a, b) {
        (Some(x), Some(y)) => x@ == y@,
        (None, None) => true,
        _ => false,
    }
}

/// A node that is to become an attribute has what the conversion reads: an
/// attribute node has a name.
pub open spec fn attr_complete(node: Node) -> bool {
    node.node_type == NodeType::Attribute ==> node.name is Some
}

/// A node that is to become an expression has what the conversion reads:
/// text and blocks have a value.
pub open spec fn expr_complete(node: Node) -> bool {
    (node.node_type == NodeType::Text || node.node_type == NodeType::Block) ==> node.value is Some
}

/// A node that is to become an item has what the conversion reads: elements
/// have a name, their attribute nodes have names, text and blocks have
/// values, and so on down the children.
pub open spec fn complete(node: Node) -> bool
    decreases node,
{
    match node.node_type {
        NodeType::Element => {
            &&& node.name is Some
            &&& forall|i: int| 0 <= i < node.attributes@.len() ==> attr_complete(#[trigger] node.attributes@[i])
            &&& forall|i: int| 0 <= i < node.children@.len() ==> complete(#[trigger] node.children@[i])
        },
        _ => expr_complete(node),
    }
}

/// Why a node cannot become an attribute, if it cannot.
pub open spec fn attr_error(node: Node) -> Option<NodeError> {
    if node.node_type != NodeType::Attribute {
        Some(NodeError::CannotConvert(node.node_type, Target::Attr))
    } else {
        match attr_name_verdict(node.name.unwrap()) {
            Ok(_) => None,
            Err(e) => Some(e),
        }
    }
}

/// `attr` is what `node` becomes as an attribute.
pub open spec fn attr_matches(node: Node, attr: MoxAttr) -> bool {
    &&& node.name matches Some(NodeName::Path { segments, .. })
    &&& segments@.len() > 0
    &&& attr.name@ == mangled(segments@[0].ident@)
    &&& same_value(node.value, attr.value)
}

/// `expr` is what `node` becomes as an expression.
pub open spec fn expr_matches(node: Node, expr: MoxExpr) -> bool {
    node.value matches Some(v) && expr.expr@ == v@
}

/// Why a node cannot become an expression, if it cannot.
pub open spec fn expr_error(node: Node) -> Option<NodeError> {
    if node.node_type == NodeType::Text || node.node_type == NodeType::Block {
        None
    } else {
        Some(NodeError::CannotConvert(node.node_type, Target::Expr))
    }
}

/// The first reason why one of the first `n` nodes cannot become an
/// attribute, if there is one.
pub open spec fn first_attr_error(nodes: Seq<Node>, n: nat) -> Option<NodeError>
    decreases n,
{
    if n == 0 || n > nodes.len() {
        None
    } else {
        match first_attr_error(nodes, (n - 1) as nat) {
            Some(e) => Some(e),
            None => attr_error(nodes[n - 1]),
        }
    }
}

/// The first reason why one of the first `n` nodes cannot become an item, if
/// there is one.
pub open spec fn first_item_error(nodes: Seq<Node>, n: nat) -> Option<NodeError>
    decreases nodes, n,
{
    if n == 0 || n > nodes.len() {
        None
    } else {
        match first_item_error(nodes, (n - 1) as nat) {
            Some(e) => Some(e),
            None => item_error(nodes[n - 1]),
        }
    }
}

/// Why an element cannot become a tag, if it cannot: the verdict on its name,
/// else the first attribute that is refused, else the first child.
pub open spec fn tag_error(node: Node) -> Option<NodeError>
    decreases node, 1nat,
{
    if node.node_type != NodeType::Element {
        Some(NodeError::CannotConvert(node.node_type, Target::Tag))
    } else {
        match tag_name_verdict(node.name.unwrap()) {
            Err(e) => Some(e),
            Ok(_) => match first_attr_error(node.attributes@, node.attributes@.len()) {
                Some(e) => Some(e),
                None => first_item_error(node.children@, node.children@.len()),
            },
        }
    }
}

/// Why a node cannot become an item, if it cannot.
pub open spec fn item_error(node: Node) -> Option<NodeError>
    decreases node, 2nat,
{
    match node.node_type {
        NodeType::Element => tag_error(node),
        NodeType::Text | NodeType::Block | NodeType::Comment | NodeType::Doctype => None,
        NodeType::Attribute | NodeType::Fragment => Some(
            NodeError::CannotConvert(node.node_type, Target::Item),
        ),
    }
}

/// `path` is the name of `node`, accepted as the name of a tag and
/// respelled.
pub open spec fn named_by(node: Node, path: Seq<Segment>) -> bool {
    node.name matches Some(NodeName::Path { segments, .. }) && is_mangled_path(segments@, path)
}

/// `tag` is what the element `node` becomes.
pub open spec fn tag_matches(node: Node, tag: MoxTag) -> bool
    decreases node, 1nat,
{
    &&& named_by(node, tag.name@)
    &&& tag.attributes@.len() == node.attributes@.len()
    &&& forall|i: int|
        0 <= i < node.attributes@.len() ==> attr_matches(
            #[trigger] node.attributes@[i],
            tag.attributes@[i],
        )
    &&& tag.children@.len() == node.children@.len()
    &&& forall|i: int|
        0 <= i < node.children@.len() ==> item_matches(#[trigger] node.children@[i], tag.children@[i])
}

/// `item` is what `node` becomes.
pub open spec fn item_matches(node: Node, item: MoxItem) -> bool
    decreases node, 2nat,
{
    match node.node_type {
        NodeType::Element => item matches MoxItem::Tag(tag) && tag_matches(node, tag),
        NodeType::Text | NodeType::Block => item matches MoxItem::Expr(e) && expr_matches(node, e),
        NodeType::Comment | NodeType::Doctype => item is Nothing,
        NodeType::Attribute | NodeType::Fragment => false,
    }
}

/// A copy of an optional byte string.
pub fn copy_value(value: &Option<Vec<u8>>) -> (copy: Option<Vec<u8>>)
    ensures
        same_value(*value, copy),
{
    match value {
        Some(bytes) => Some(copy_bytes(bytes)),
        None => None,
    }
}

impl MoxAttr {
    /// Makes an attribute of an attribute node with an acceptable name, and
    /// refuses every other node.
    pub fn try_from(node: &Node) -> (r: Result<MoxAttr, NodeError>)
        requires
            attr_complete(*node),
        ensures
            match r {
                Ok(attr) => attr_error(*node) is None && attr_matches(*node, attr),
                Err(e) => attr_error(*node) == Some(e),
            },
    {
        if let Err(e) = check_node_type(node.node_type, Target::Attr) {
            return Err(e);
        }
        match &node.name {
            Some(name) => match validate_attr_name(name) {
                Ok(ident) => Ok(MoxAttr { name: ident, value: copy_value(&node.value) }),
                Err(e) => Err(e),
            },
            None => Err(NodeError::InvalidAttrName),
        }
    }
}

impl MoxExpr {
    /// Makes an expression of a text or block node, and refuses every other
    /// node.
    pub fn try_from(node: &Node) -> (r: Result<MoxExpr, NodeError>)
        requires
            expr_complete(*node),
        ensures
            match r {
                Ok(e) => expr_error(*node) is None && expr_matches(*node, e),
                Err(e) => expr_error(*node) == Some(e),
            },
    {
        if let Err(e) = check_node_type(node.node_type, Target::Expr) {
            return Err(e);
        }
        match &node.value {
            Some(v) => Ok(MoxExpr { expr: copy_bytes(v) }),
            None => Err(NodeError::CannotConvert(node.node_type, Target::Expr)),
        }
    }
}

impl MoxTag {
    /// Makes a tag of an element: its name must be a path, each attribute
    /// node an acceptable attribute, each child an item. The first refusal,
    /// in that order, is the result.
    pub fn try_from(node: &Node) -> (r: Result<MoxTag, NodeError>)
        requires
            node.node_type == NodeType::Element ==> complete(*node),
        ensures
            match r {
                Ok(tag) => tag_error(*node) is None && tag_matches(*node, tag),
                Err(e) => tag_error(*node) == Some(e),
            },
        decreases node, 1nat,
    {
        if let Err(e) = check_node_type(node.node_type, Target::Tag) {
            return Err(e);
        }
        let name = match &node.name {
            Some(name) => match validate_tag_name(name) {
                Ok(path) => path,
                Err(e) => {
                    return Err(e);
                },
            },
            None => {
                return Err(NodeError::BlockTagName);
            },
        };
        let mut attributes: Vec<MoxAttr> = Vec::new();
        let mut i: usize = 0;
        while i < node.attributes.len()
            invariant
                i <= node.attributes@.len(),
                node.node_type == NodeType::Element,
                complete(*node),
                named_by(*node, name@),
                attributes@.len() == i,
                first_attr_error(node.attributes@, i as nat) is None,
                forall|j: int| 0 <= j < i ==> attr_matches(#[trigger] node.attributes@[j], attributes@[j]),
            decreases node.attributes@.len() - i,
        {
            match MoxAttr::try_from(&node.attributes[i]) {
                Ok(attr) => attributes.push(attr),
                Err(e) => {
                    proof {
                        assert(first_attr_error(node.attributes@, (i + 1) as nat) == Some(e));
                        lemma_attr_error_stays(node.attributes@, (i + 1) as nat, node.attributes@.len());
                    }
                    return Err(e);
                },
            }
            i += 1;
        }
        let mut children: Vec<MoxItem> = Vec::new();
        let mut k: usize = 0;
        while k < node.children.len()
            invariant
                k <= node.children@.len(),
                node.node_type == NodeType::Element,
                complete(*node),
                named_by(*node, name@),
                attributes@.len() == node.attributes@.len(),
                first_attr_error(node.attributes@, node.attributes@.len()) is None,
                forall|j: int|
                    0 <= j < node.attributes@.len() ==> attr_matches(
                        #[trigger] node.attributes@[j],
                        attributes@[j],
                    ),
                children@.len() == k,
                first_item_error(node.children@, k as nat) is None,
                forall|j: int| 0 <= j < k ==> item_matches(#[trigger] node.children@[j], children@[j]),
            decreases node.children@.len() - k,
        {
            match MoxItem::try_from(&node.children[k]) {
                Ok(item) => children.push(item),
                Err(e) => {
                    proof {
                        assert(first_item_error(node.children@, (k + 1) as nat) == Some(e));
                        lemma_item_error_stays(node.children@, (k + 1) as nat, node.children@.len());
                    }
                    return Err(e);
                },
            }
            k += 1;
        }
        Ok(MoxTag { name, attributes, children })
    }
}

impl MoxItem {
    /// Makes an item of a node: a tag of an element, an expression of text or
    /// a block, nothing of a comment or a doctype. Attributes and fragments
    /// are refused.
    pub fn try_from(node: &Node) -> (r: Result<MoxItem, NodeError>)
        requires
            complete(*node),
        ensures
            match r {
                Ok(item) => item_error(*node) is None && item_matches(*node, item),
                Err(e) => item_error(*node) == Some(e),
            },
        decreases node, 2nat,
    {
        match item_kind(node.node_type) {
            Ok(ItemKind::Tag) => match MoxTag::try_from(node) {
                Ok(tag) => Ok(MoxItem::Tag(tag)),
                Err(e) => Err(e),
            },
            Ok(ItemKind::Expr) => match MoxExpr::try_from(node) {
                Ok(e) => Ok(MoxItem::Expr(e)),
                Err(e) => Err(e),
            },
            Ok(ItemKind::Nothing) => Ok(MoxItem::Nothing),
            Err(e) => Err(e),
        }
    }
}

/// Once one of the first `n` nodes is refused as an attribute, the first
/// refusal among more of them is the same.
proof fn lemma_attr_error_stays(nodes: Seq<Node>, n: nat, m: nat)
    requires
        n <= m <= nodes.len(),
        first_attr_error(nodes, n) is Some,
    ensures
        first_attr_error(nodes, m) == first_attr_error(nodes, n),
    decreases m,
{
    if n < m {
        lemma_attr_error_stays(nodes, n, (m - 1) as nat);
    }
}

/// Once one of the first `n` nodes is refused as an item, the first refusal
/// among more of them is the same.
proof fn lemma_item_error_stays(nodes: Seq<Node>, n: nat, m: nat)
    requires
        n <= m <= nodes.len(),
        first_item_error(nodes, n) is Some,
    ensures
        first_item_error(nodes, m) == first_item_error(nodes, n),
    decreases m,
{
    if n < m {
        lemma_item_error_stays(nodes, n, (m - 1) as nat);
    }
}

} // verus!
