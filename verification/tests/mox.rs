use moxie::mox::{
    check_node_type, copy_bytes, item_kind, mangle_expr_path, mangle_ident, reserved, validate_attr_name,
    validate_tag_name, ItemKind, NodeError, NodeName, NodeType, Segment, Target,
};

fn bytes(s: &str) -> Vec<u8> {
    s.as_bytes().to_vec()
}

fn plain(ident: &str) -> Segment {
    Segment { ident: bytes(ident), arguments: Vec::new() }
}

fn mangle(ident: &str) -> Vec<u8> {
    let mut ident = bytes(ident);
    mangle_ident(&mut ident);
    ident
}

#[test]
fn reserved_names_get_an_underscore() {
    assert_eq!(mangle("async"), bytes("async_"));
    assert_eq!(mangle("for"), bytes("for_"));
    assert_eq!(mangle("loop"), bytes("loop_"));
    assert_eq!(mangle("type"), bytes("type_"));
}

#[test]
fn other_names_stay() {
    assert_eq!(mangle("div"), bytes("div"));
    assert_eq!(mangle("types"), bytes("types"));
    assert_eq!(mangle("typ"), bytes("typ"));
    assert_eq!(mangle("type_"), bytes("type_"));
    assert_eq!(mangle(""), bytes(""));
    assert_eq!(mangle("Loop"), bytes("Loop"));
    assert!(reserved(&bytes("for")));
    assert!(!reserved(&bytes("fo")));
}

#[test]
fn every_segment_of_a_path_is_respelled() {
    let mut path = vec![plain("html"), plain("type"), Segment { ident: bytes("for"), arguments: bytes("::<T>") }];
    mangle_expr_path(&mut path);
    let idents: Vec<Vec<u8>> = path.iter().map(|s| s.ident.clone()).collect();
    assert_eq!(idents, vec![bytes("html"), bytes("type_"), bytes("for_")]);
    assert_eq!(path[2].arguments, bytes("::<T>"));
    assert!(path[0].arguments.is_empty());
}

#[test]
fn items_by_node_type() {
    assert_eq!(item_kind(NodeType::Element), Ok(ItemKind::Tag));
    assert_eq!(item_kind(NodeType::Text), Ok(ItemKind::Expr));
    assert_eq!(item_kind(NodeType::Block), Ok(ItemKind::Expr));
    assert_eq!(item_kind(NodeType::Comment), Ok(ItemKind::Nothing));
    assert_eq!(item_kind(NodeType::Doctype), Ok(ItemKind::Nothing));
    assert_eq!(
        item_kind(NodeType::Attribute),
        Err(NodeError::CannotConvert(NodeType::Attribute, Target::Item))
    );
    assert_eq!(
        item_kind(NodeType::Fragment),
        Err(NodeError::CannotConvert(NodeType::Fragment, Target::Item))
    );
}

#[test]
fn targets_by_node_type() {
    assert_eq!(check_node_type(NodeType::Element, Target::Tag), Ok(()));
    assert_eq!(check_node_type(NodeType::Comment, Target::Item), Ok(()));
    assert_eq!(
        check_node_type(NodeType::Attribute, Target::Item),
        Err(NodeError::CannotConvert(NodeType::Attribute, Target::Item))
    );
    assert_eq!(check_node_type(NodeType::Attribute, Target::Attr), Ok(()));
    assert_eq!(check_node_type(NodeType::Text, Target::Expr), Ok(()));
    assert_eq!(check_node_type(NodeType::Block, Target::Expr), Ok(()));
    assert_eq!(
        check_node_type(NodeType::Fragment, Target::Tag),
        Err(NodeError::CannotConvert(NodeType::Fragment, Target::Tag))
    );
    assert_eq!(
        check_node_type(NodeType::Element, Target::Attr),
        Err(NodeError::CannotConvert(NodeType::Element, Target::Attr))
    );
    assert_eq!(
        check_node_type(NodeType::Comment, Target::Expr),
        Err(NodeError::CannotConvert(NodeType::Comment, Target::Expr))
    );
}

#[test]
fn tag_names() {
    let path = NodeName::Path { decorated: true, segments: vec![plain("ui"), plain("loop")] };
    let accepted = validate_tag_name(&path).expect("a path names a tag");
    assert_eq!(accepted.len(), 2);
    assert_eq!(accepted[0].ident, bytes("ui"));
    assert_eq!(accepted[1].ident, bytes("loop_"));
    assert_eq!(validate_tag_name(&NodeName::Dash).err(), Some(NodeError::DashTagName));
    assert_eq!(validate_tag_name(&NodeName::Colon).err(), Some(NodeError::ColonTagName));
    assert_eq!(validate_tag_name(&NodeName::Block).err(), Some(NodeError::BlockTagName));
}

#[test]
fn attribute_names() {
    let one = NodeName::Path { decorated: false, segments: vec![plain("type")] };
    assert_eq!(validate_attr_name(&one), Ok(bytes("type_")));
    let one = NodeName::Path { decorated: false, segments: vec![plain("class")] };
    assert_eq!(validate_attr_name(&one), Ok(bytes("class")));
    let two = NodeName::Path { decorated: false, segments: vec![plain("a"), plain("b")] };
    assert_eq!(validate_attr_name(&two), Err(NodeError::InvalidAttrName));
    let none = NodeName::Path { decorated: false, segments: vec![] };
    assert_eq!(validate_attr_name(&none), Err(NodeError::InvalidAttrName));
    let decorated = NodeName::Path { decorated: true, segments: vec![plain("a")] };
    assert_eq!(validate_attr_name(&decorated), Err(NodeError::InvalidAttrName));
    let generic = NodeName::Path {
        decorated: false,
        segments: vec![Segment { ident: bytes("a"), arguments: bytes("<u8>") }],
    };
    assert_eq!(validate_attr_name(&generic), Err(NodeError::InvalidAttrName));
    assert_eq!(validate_attr_name(&NodeName::Dash), Err(NodeError::DashAttrName));
    assert_eq!(validate_attr_name(&NodeName::Colon), Err(NodeError::ColonAttrName));
    assert_eq!(validate_attr_name(&NodeName::Block), Err(NodeError::InvalidAttrName));
}

#[test]
fn messages() {
    assert_eq!(NodeError::DashTagName.message(), "Dash tag name syntax isn't supported");
    assert_eq!(NodeError::ColonTagName.message(), "Colon tag name syntax isn't supported");
    assert_eq!(NodeError::BlockTagName.message(), "Block expression as a tag name isn't supported");
    assert_eq!(NodeError::InvalidAttrName.message(), "Invalid name for an attribute");
    assert_eq!(NodeError::DashAttrName.message(), "Dash attribute name syntax isn't supported");
    assert_eq!(NodeError::ColonAttrName.message(), "Colon attribute name syntax isn't supported");
    assert_eq!(
        NodeError::FormatArguments.message(),
        "Expected one or more expressions, separated by commas"
    );
    assert_eq!(
        NodeError::CannotConvert(NodeType::Text, Target::Tag).message(),
        "Cannot convert the node to the item asked for"
    );
}

#[test]
fn copy_bytes_copies() {
    assert_eq!(copy_bytes(&bytes("abc")), bytes("abc"));
    assert_eq!(copy_bytes(&bytes("")), bytes(""));
}
