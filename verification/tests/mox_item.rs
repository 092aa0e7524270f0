use moxie::mox::{NodeError, NodeName, NodeType, Segment, Target};
use moxie::mox_item::{copy_value, MoxAttr, MoxExpr, MoxItem, MoxTag, Node};
use moxie::mox_tokens::{
    expand, format_block, format_checked, push_bytes, push_path, push_text, transform_block,
};

fn bytes(s: &str) -> Vec<u8> {
    s.as_bytes().to_vec()
}

fn text(b: Vec<u8>) -> String {
    String::from_utf8(b).expect("utf-8")
}

fn path(idents: &[&str]) -> NodeName {
    NodeName::Path {
        decorated: false,
        segments: idents.iter().map(|i| Segment { ident: bytes(i), arguments: Vec::new() }).collect(),
    }
}

fn node(node_type: NodeType) -> Node {
    Node { node_type, name: None, value: None, attributes: Vec::new(), children: Vec::new() }
}

fn element(name: NodeName, attributes: Vec<Node>, children: Vec<Node>) -> Node {
    Node { node_type: NodeType::Element, name: Some(name), value: None, attributes, children }
}

fn attribute(name: NodeName, value: Option<&str>) -> Node {
    Node {
        node_type: NodeType::Attribute,
        name: Some(name),
        value: value.map(bytes),
        attributes: Vec::new(),
        children: Vec::new(),
    }
}

fn valued(node_type: NodeType, value: &str) -> Node {
    Node { node_type, name: None, value: Some(bytes(value)), attributes: Vec::new(), children: Vec::new() }
}

fn render(item: &MoxItem) -> String {
    let mut out = Vec::new();
    item.to_tokens(&mut out);
    text(out)
}

#[test]
fn element_becomes_a_builder_call() {
    let n = element(path(&["div"]), vec![], vec![]);
    assert_eq!(text(expand(&n).expect("an element")), "mox::topo::call(|| { div().build() })");
}

#[test]
fn attributes_and_children_follow_the_name() {
    let n = element(
        path(&["html", "button"]),
        vec![attribute(path(&["type"]), Some("\"submit\"")), attribute(path(&["disabled"]), None)],
        vec![
            valued(NodeType::Text, "\"Save\""),
            node(NodeType::Comment),
            element(path(&["loop"]), vec![], vec![valued(NodeType::Block, "{ count }")]),
        ],
    );
    assert_eq!(
        text(expand(&n).expect("an element")),
        "mox::topo::call(|| { html::button().type_(\"submit\").disabled(disabled)\
         .child(\"Save\".into_child()).child()\
         .child(mox::topo::call(|| { loop_().child({ count }.into_child()).build() }))\
         .build() })"
    );
}

#[test]
fn items_by_kind_of_node() {
    let item = MoxItem::try_from(&valued(NodeType::Text, "x")).expect("text");
    assert!(matches!(&item, MoxItem::Expr(e) if e.expr == bytes("x")));
    assert_eq!(render(&item), "x.into_child()");
    let item = MoxItem::try_from(&valued(NodeType::Block, "{ y }")).expect("block");
    assert_eq!(render(&item), "{ y }.into_child()");
    assert!(matches!(MoxItem::try_from(&node(NodeType::Comment)), Ok(MoxItem::Nothing)));
    assert!(matches!(MoxItem::try_from(&node(NodeType::Doctype)), Ok(MoxItem::Nothing)));
    assert_eq!(render(&MoxItem::Nothing), "");
    assert_eq!(
        MoxItem::try_from(&node(NodeType::Fragment)).err(),
        Some(NodeError::CannotConvert(NodeType::Fragment, Target::Item))
    );
    assert_eq!(
        MoxItem::try_from(&attribute(path(&["a"]), None)).err(),
        Some(NodeError::CannotConvert(NodeType::Attribute, Target::Item))
    );
}

#[test]
fn tag_refuses_other_nodes_and_names() {
    assert_eq!(
        MoxTag::try_from(&valued(NodeType::Text, "x")).err(),
        Some(NodeError::CannotConvert(NodeType::Text, Target::Tag))
    );
    assert_eq!(MoxTag::try_from(&element(NodeName::Dash, vec![], vec![])).err(), Some(NodeError::DashTagName));
    assert_eq!(MoxTag::try_from(&element(NodeName::Colon, vec![], vec![])).err(), Some(NodeError::ColonTagName));
    assert_eq!(MoxTag::try_from(&element(NodeName::Block, vec![], vec![])).err(), Some(NodeError::BlockTagName));
}

#[test]
fn first_refusal_wins() {
    let n = element(
        path(&["div"]),
        vec![attribute(path(&["id"]), None), attribute(NodeName::Colon, None), attribute(NodeName::Dash, None)],
        vec![node(NodeType::Fragment)],
    );
    assert_eq!(MoxTag::try_from(&n).err(), Some(NodeError::ColonAttrName));
    let n = element(
        path(&["div"]),
        vec![attribute(path(&["id"]), None)],
        vec![valued(NodeType::Text, "t"), element(NodeName::Dash, vec![], vec![]), node(NodeType::Fragment)],
    );
    assert_eq!(expand(&n).err(), Some(NodeError::DashTagName));
    let n = element(NodeName::Block, vec![attribute(NodeName::Dash, None)], vec![node(NodeType::Fragment)]);
    assert_eq!(expand(&n).err(), Some(NodeError::BlockTagName));
    let n = element(path(&["div"]), vec![valued(NodeType::Text, "t")], vec![]);
    assert_eq!(expand(&n).err(), Some(NodeError::CannotConvert(NodeType::Text, Target::Attr)));
}

#[test]
fn attribute_from_node() {
    let attr = MoxAttr::try_from(&attribute(path(&["for"]), Some("id"))).expect("an attribute");
    assert_eq!(attr.name, bytes("for_"));
    assert_eq!(attr.value, Some(bytes("id")));
    let mut out = Vec::new();
    attr.to_tokens(&mut out);
    assert_eq!(text(out), ".for_(id)");
    let attr = MoxAttr::try_from(&attribute(path(&["checked"]), None)).expect("an attribute");
    assert_eq!(attr.value, None);
    let mut out = bytes("x");
    attr.to_tokens(&mut out);
    assert_eq!(text(out), "x.checked(checked)");
    assert_eq!(
        MoxAttr::try_from(&attribute(path(&["a", "b"]), None)).err(),
        Some(NodeError::InvalidAttrName)
    );
    assert_eq!(
        MoxAttr::try_from(&element(path(&["a"]), vec![], vec![])).err(),
        Some(NodeError::CannotConvert(NodeType::Element, Target::Attr))
    );
}

#[test]
fn expression_from_node() {
    let expr = MoxExpr::try_from(&valued(NodeType::Block, "{ 1 + 1 }")).expect("a block");
    assert_eq!(expr.expr, bytes("{ 1 + 1 }"));
    let mut out = Vec::new();
    expr.to_tokens(&mut out);
    assert_eq!(text(out), "{ 1 + 1 }.into_child()");
    assert_eq!(
        MoxExpr::try_from(&node(NodeType::Doctype)).err(),
        Some(NodeError::CannotConvert(NodeType::Doctype, Target::Expr))
    );
}

#[test]
fn paths_are_joined_with_their_arguments() {
    let segments = vec![
        Segment { ident: bytes("a"), arguments: Vec::new() },
        Segment { ident: bytes("b"), arguments: bytes("::<T>") },
        Segment { ident: bytes("c"), arguments: Vec::new() },
    ];
    let mut out = bytes(">");
    push_path(&mut out, &segments);
    assert_eq!(text(out), ">a::b::<T>::c");
    let mut out = Vec::new();
    push_path(&mut out, &Vec::new());
    assert_eq!(text(out), "");
}

#[test]
fn pushing_text_and_bytes_appends() {
    let mut out = bytes("a");
    push_text(&mut out, "bc");
    push_bytes(&mut out, &bytes("de"));
    push_text(&mut out, "");
    assert_eq!(text(out), "abcde");
    assert_eq!(copy_value(&Some(bytes("v"))), Some(bytes("v")));
    assert_eq!(copy_value(&None), None);
}

#[test]
fn format_block_wraps_the_arguments() {
    assert_eq!(text(format_block(&bytes("\"{} items\", n"))), "format_args!(\"{} items\", n)");
}

#[test]
fn blocks_that_begin_with_a_percent_sign_are_formatted() {
    assert_eq!(
        transform_block(&bytes("% \"{}\", n")).map(|t| t.map(text)),
        Ok(Some("format_args!( \"{}\", n)".to_string()))
    );
    assert_eq!(
        transform_block(&bytes(" \t\n%x")).map(|t| t.map(text)),
        Ok(Some("format_args!(x)".to_string()))
    );
    assert_eq!(
        transform_block(&bytes("%a + 1, f(b), [c; 2]")).map(|t| t.map(text)),
        Ok(Some("format_args!(a + 1, f(b), [c; 2])".to_string()))
    );
    assert_eq!(transform_block(&bytes("count % 2")), Ok(None));
    assert_eq!(transform_block(&bytes("")), Ok(None));
    assert_eq!(transform_block(&bytes("   ")), Ok(None));
}

#[test]
fn formatting_blocks_need_a_list_of_expressions() {
    assert_eq!(transform_block(&bytes("%")), Err(NodeError::FormatArguments));
    assert_eq!(transform_block(&bytes("% ")), Err(NodeError::FormatArguments));
    assert_eq!(transform_block(&bytes("%a,")), Err(NodeError::FormatArguments));
    assert_eq!(transform_block(&bytes("%a b")), Err(NodeError::FormatArguments));
    assert_eq!(transform_block(&bytes("%a; b")), Err(NodeError::FormatArguments));
    assert_eq!(transform_block(&bytes("%(a")), Err(NodeError::FormatArguments));
    assert_eq!(transform_block(&vec![0x25, 0xff, 0xfe]), Err(NodeError::FormatArguments));
}

#[test]
fn format_checked_follows_the_verdict() {
    assert_eq!(format_checked(&bytes("a"), true).map(text), Ok("format_args!(a)".to_string()));
    assert_eq!(format_checked(&bytes("a"), false), Err(NodeError::FormatArguments));
}
