//! The rules by which markup nodes become builder calls: which kind of node
//! becomes what, which names are accepted, and how a name that is a keyword is
//! spelled.
use vstd::prelude::*;
use crate::cache_cell::same_bytes;

verus! {

/// The kind of a parsed markup node.
#[derive(Clone, Copy, Debug, PartialEq, Eq, Structural)]
pub enum NodeType {
    Element,
    Attribute,
    Text,
    Comment,
    Doctype,
    Fragment,
    Block,
}

/// What a node is converted to.
#[derive(Clone, Copy, Debug, PartialEq, Eq, Structural)]
pub enum Target {
    /// An item of any kind.
    Item,
    /// A tag: a builder call with attributes and children.
    Tag,
    /// An attribute of a tag.
    Attr,
    /// An expression that becomes a child.
    Expr,
}

/// What an item consists of.
#[derive(Clone, Copy, Debug, PartialEq, Eq, Structural)]
pub enum ItemKind {
    Tag,
    Expr,
    /// Comments and doctypes leave nothing behind.
    Nothing,
}

/// Why a node was refused.
#[derive(Clone, Copy, Debug, PartialEq, Eq, Structural)]
pub enum NodeError {
    /// A node of this kind cannot become that target.
    CannotConvert(NodeType, Target),
    /// A tag name written with dashes.
    DashTagName,
    /// A tag name written with colons.
    ColonTagName,
    /// A block expression in the place of a tag name.
    BlockTagName,
    /// A path that is not a single plain identifier, or a block, in the
    /// place of an attribute name.
    InvalidAttrName,
    /// An attribute name written with dashes.
    DashAttrName,
    /// An attribute name written with colons.
    ColonAttrName,
    /// What follows the `%` of a formatting block is not a list of one or
    /// more expressions, separated by commas.
    FormatArguments,
}

/// The message shown for an error.
pub open spec fn message_of(error: NodeError) -> Seq<char> {
    match error {
        NodeError::CannotConvert(_, _) => "Cannot convert the node to the item asked for"@,
        NodeError::DashTagName => "Dash tag name syntax isn't supported"@,
        NodeError::ColonTagName => "Colon tag name syntax isn't supported"@,
        NodeError::BlockTagName => "Block expression as a tag name isn't supported"@,
        NodeError::InvalidAttrName => "Invalid name for an attribute"@,
        NodeError::DashAttrName => "Dash attribute name syntax isn't supported"@,
        NodeError::ColonAttrName => "Colon attribute name syntax isn't supported"@,
        NodeError::FormatArguments => "Expected one or more expressions, separated by commas"@,
    }
}

impl NodeError {
    /// The message shown for the error.
    pub fn message(&self) -> (text: String)
        ensures
            text@ == message_of(*self),
    {
        match self {
            NodeError::CannotConvert(_, _) => "Cannot convert the node to the item asked for".to_owned(),
            NodeError::DashTagName => "Dash tag name syntax isn't supported".to_owned(),
            NodeError::ColonTagName => "Colon tag name syntax isn't supported".to_owned(),
            NodeError::BlockTagName => "Block expression as a tag name isn't supported".to_owned(),
            NodeError::InvalidAttrName => "Invalid name for an attribute".to_owned(),
            NodeError::DashAttrName => "Dash attribute name syntax isn't supported".to_owned(),
            NodeError::ColonAttrName => "Colon attribute name syntax isn't supported".to_owned(),
            NodeError::FormatArguments => "Expected one or more expressions, separated by commas".to_owned(),
        }
    }
}

/// One segment of a path: an identifier, and the source text of the generic
/// arguments that follow it, which is empty where none do.
#[derive(Debug)]
pub struct Segment {
    pub ident: Vec<u8>,
    pub arguments: Vec<u8>,
}

/// A copy of `bytes`.
pub fn copy_bytes(bytes: &Vec<u8>) -> (copy: Vec<u8>)
    ensures
        copy@ == bytes@,
{
    let mut copy: Vec<u8> = Vec::new();
    let mut i: usize = 0;
    while i < bytes.len()
        invariant
            i <= bytes@.len(),
            copy@ == bytes@.take(i as int),
        decreases bytes@.len() - i,
    {
        copy.push(bytes[i]);
        assert(bytes@.take(i as int + 1) =~= bytes@.take(i as int).push(bytes@[i as int]));
        i += 1;
    }
    assert(bytes@.take(bytes@.len() as int) =~= bytes@);
    copy
}

/// How the name of a node was written.
#[derive(Debug)]
pub enum NodeName {
    /// A path. `decorated` says that it carries attributes, a qualified self
    /// type or a leading `::`.
    Path { decorated: bool, segments: Vec<Segment> },
    Dash,
    Colon,
    Block,
}

/// The kind of item that a node of kind `node_type` becomes.
pub open spec fn item_kind_of(node_type: NodeType) -> Result<ItemKind, NodeError> {
    match node_type {
        NodeType::Element => Ok(ItemKind::Tag),
        NodeType::Text | NodeType::Block => Ok(ItemKind::Expr),
        NodeType::Comment | NodeType::Doctype => Ok(ItemKind::Nothing),
        NodeType::Attribute | NodeType::Fragment => Err(
            NodeError::CannotConvert(node_type, Target::Item),
        ),
    }
}

/// Decides what a node of kind `node_type` becomes as an item: an element
/// becomes a tag, text and blocks become expressions, comments and doctypes
/// leave nothing, and attributes and fragments are refused.
pub fn item_kind(node_type: NodeType) -> (r: Result<ItemKind, NodeError>)
    ensures
        r == item_kind_of(node_type),
{
    match node_type {
        NodeType::Element => Ok(ItemKind::Tag),
        NodeType::Attribute => Err(NodeError::CannotConvert(node_type, Target::Item)),
        NodeType::Fragment => Err(NodeError::CannotConvert(node_type, Target::Item)),
        NodeType::Text => Ok(ItemKind::Expr),
        NodeType::Block => Ok(ItemKind::Expr),
        NodeType::Comment => Ok(ItemKind::Nothing),
        NodeType::Doctype => Ok(ItemKind::Nothing),
    }
}

/// The kinds of node that `target` is made from: a tag from an element, an
/// attribute from an attribute, an expression from text or a block.
pub open spec fn becomes(node_type: NodeType, target: Target) -> bool {
    match target {
        Target::Item => item_kind_of(node_type) is Ok,
        Target::Tag => node_type == NodeType::Element,
        Target::Attr => node_type == NodeType::Attribute,
        Target::Expr => node_type == NodeType::Text || node_type == NodeType::Block,
    }
}

/// Accepts a node of kind `node_type` as the source of `target`, or says
/// that the one cannot become the other.
pub fn check_node_type(node_type: NodeType, target: Target) -> (r: Result<(), NodeError>)
    ensures
        r is Ok == becomes(node_type, target),
        r is Err ==> r == Err::<(), NodeError>(NodeError::CannotConvert(node_type, target)),
{
    let fits = match target {
        Target::Item => item_kind(node_type).is_ok(),
        Target::Tag => node_type == NodeType::Element,
        Target::Attr => node_type == NodeType::Attribute,
        Target::Expr => node_type == NodeType::Text || node_type == NodeType::Block,
    };
    if fits {
        Ok(())
    } else {
        Err(NodeError::CannotConvert(node_type, target))
    }
}

/// The bytes of `async`.
pub open spec fn word_async() -> Seq<u8> {
    seq![0x61u8, 0x73u8, 0x79u8, 0x6eu8, 0x63u8]
}

/// The bytes of `for`.
pub open spec fn word_for() -> Seq<u8> {
    seq![0x66u8, 0x6fu8, 0x72u8]
}

/// The bytes of `loop`.
pub open spec fn word_loop() -> Seq<u8> {
    seq![0x6cu8, 0x6fu8, 0x6fu8, 0x70u8]
}

/// The bytes of `type`.
pub open spec fn word_type() -> Seq<u8> {
    seq![0x74u8, 0x79u8, 0x70u8, 0x65u8]
}

/// The names that cannot be written as they are because the language
/// reserves them: `async`, `for`, `loop` and `type`.
pub open spec fn is_reserved(name: Seq<u8>) -> bool {
    name == word_async() || name == word_for() || name == word_loop() || name == word_type()
}

/// The spelling under which `name` is used: a reserved name gets an
/// underscore appended, every other name stays.
pub open spec fn mangled(name: Seq<u8>) -> Seq<u8> {
    if is_reserved(name) {
        name.push(0x5fu8)
    } else {
        name
    }
}

/// Whether `name` is reserved.
pub fn reserved(name: &Vec<u8>) -> (r: bool)
    ensures
        r == is_reserved(name@),
{
    let word_a: Vec<u8> = vec![0x61u8, 0x73u8, 0x79u8, 0x6eu8, 0x63u8];
    let word_f: Vec<u8> = vec![0x66u8, 0x6fu8, 0x72u8];
    let word_l: Vec<u8> = vec![0x6cu8, 0x6fu8, 0x6fu8, 0x70u8];
    let word_t: Vec<u8> = vec![0x74u8, 0x79u8, 0x70u8, 0x65u8];
    proof {
        assert(word_a@ =~= word_async());
        assert(word_f@ =~= word_for());
        assert(word_l@ =~= word_loop());
        assert(word_t@ =~= word_type());
    }
    same_bytes(name, &word_a) || same_bytes(name, &word_f) || same_bytes(name, &word_l) || same_bytes(
        name,
        &word_t,
    )
}

/// Respells `ident` where it is reserved.
pub fn mangle_ident(ident: &mut Vec<u8>)
    ensures
        final(ident)@ == mangled(old(ident)@),
{
    if reserved(ident) {
        ident.push(0x5fu8);
    }
}

/// Respells every segment of a path.
pub fn mangle_expr_path(segments: &mut Vec<Segment>)
    ensures
        final(segments)@.len() == old(segments)@.len(),
        forall|i: int|
            0 <= i < old(segments)@.len() ==> {
                &&& (#[trigger] final(segments)@[i]).ident@ == mangled(old(segments)@[i].ident@)
                &&& final(segments)@[i].arguments@ == old(segments)@[i].arguments@
            },
{
    let n: usize = segments.len();
    let mut i: usize = 0;
    while i < n
        invariant
            i <= n,
            n == segments@.len(),
            n == old(segments)@.len(),
            forall|j: int|
                0 <= j < i ==> {
                    &&& (#[trigger] segments@[j]).ident@ == mangled(old(segments)@[j].ident@)
                    &&& segments@[j].arguments@ == old(segments)@[j].arguments@
                },
            forall|j: int| i <= j < n ==> (#[trigger] segments@[j]) == old(segments)@[j],
        decreases n - i,
    {
        mangle_ident(&mut segments[i].ident);
        i += 1;
    }
}

/// Whether `name` can name a tag: any path can.
pub open spec fn tag_name_verdict(name: NodeName) -> Result<(), NodeError> {
    match name {
        NodeName::Path { .. } => Ok(()),
        NodeName::Dash => Err(NodeError::DashTagName),
        NodeName::Colon => Err(NodeError::ColonTagName),
        NodeName::Block => Err(NodeError::BlockTagName),
    }
}

/// `path` is `segments` with every identifier respelled where it is
/// reserved.
pub open spec fn is_mangled_path(segments: Seq<Segment>, path: Seq<Segment>) -> bool {
    &&& path.len() == segments.len()
    &&& forall|i: int|
        0 <= i < segments.len() ==> {
            &&& (#[trigger] path[i]).ident@ == mangled(segments[i].ident@)
            &&& path[i].arguments@ == segments[i].arguments@
        }
}

/// The name of a tag: the segments of a path, each respelled where it is
/// reserved. A name written with dashes or colons, or a block, is refused.
pub fn validate_tag_name(name: &NodeName) -> (r: Result<Vec<Segment>, NodeError>)
    ensures
        match r {
            Ok(path) => {
                &&& *name matches NodeName::Path { segments, .. }
                &&& is_mangled_path(segments@, path@)
            },
            Err(e) => tag_name_verdict(*name) == Err::<(), NodeError>(e),
        },
{
    match name {
        NodeName::Path { decorated: _, segments } => {
            let mut path: Vec<Segment> = Vec::new();
            let mut i: usize = 0;
            while i < segments.len()
                invariant
                    i <= segments@.len(),
                    path@.len() == i,
                    forall|j: int|
                        0 <= j < i ==> {
                            &&& (#[trigger] path@[j]).ident@ == segments@[j].ident@
                            &&& path@[j].arguments@ == segments@[j].arguments@
                        },
                decreases segments@.len() - i,
            {
                path.push(
                    Segment {
                        ident: copy_bytes(&segments[i].ident),
                        arguments: copy_bytes(&segments[i].arguments),
                    },
                );
                i += 1;
            }
            mangle_expr_path(&mut path);
            Ok(path)
        },
        NodeName::Dash => Err(NodeError::DashTagName),
        NodeName::Colon => Err(NodeError::ColonTagName),
        NodeName::Block => Err(NodeError::BlockTagName),
    }
}

/// Whether `name` can name an attribute: only an undecorated path of one
/// segment without generic arguments can.
pub open spec fn attr_name_verdict(name: NodeName) -> Result<(), NodeError> {
    match name {
        NodeName::Path { decorated, segments } => if !decorated && segments@.len() == 1
            && segments@[0].arguments@.len() == 0 {
            Ok(())
        } else {
            Err(NodeError::InvalidAttrName)
        },
        NodeName::Dash => Err(NodeError::DashAttrName),
        NodeName::Colon => Err(NodeError::ColonAttrName),
        NodeName::Block => Err(NodeError::InvalidAttrName),
    }
}

/// The name of an attribute: the single identifier of an undecorated path,
/// respelled where it is reserved. Every other name is refused.
pub fn validate_attr_name(name: &NodeName) -> (r: Result<Vec<u8>, NodeError>)
    ensures
        match r {
            Ok(ident) => {
                &&& attr_name_verdict(*name) is Ok
                &&& *name matches NodeName::Path { segments, .. }
                &&& ident@ == mangled(segments@[0].ident@)
            },
            Err(e) => attr_name_verdict(*name) == Err::<(), NodeError>(e),
        },
{
    match name {
        NodeName::Path { decorated, segments } => {
            if *decorated || segments.len() != 1 {
                return Err(NodeError::InvalidAttrName);
            }
            if segments[0].arguments.len() != 0 {
                return Err(NodeError::InvalidAttrName);
            }
            let mut ident = copy_bytes(&segments[0].ident);
            mangle_ident(&mut ident);
            Ok(ident)
        },
        NodeName::Dash => Err(NodeError::DashAttrName),
        NodeName::Colon => Err(NodeError::ColonAttrName),
        NodeName::Block => Err(NodeError::InvalidAttrName),
    }
}

} // verus!
