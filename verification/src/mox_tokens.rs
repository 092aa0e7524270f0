//! The builder calls that items stand for, written out as source text.
use vstd::prelude::*;
use vstd::string::StringSliceAdditionalSpecFns;
use crate::mox::{NodeError, Segment};
use crate::mox_item::{complete, item_error, item_matches, MoxAttr, MoxExpr, MoxItem, MoxTag, Node};

verus! {

/// The text of a path: its segments, each with its generic arguments, joined
/// by `::`. Only the first `n` segments are written.
pub open spec fn path_text(segments: Seq<Segment>, n: nat) -> Seq<u8>
    decreases n,
{
    if n == 0 || n > segments.len() {
        Seq::empty()
    } else if n == 1 {
        segments[0].ident@ + segments[0].arguments@
    } else {
        path_text(segments, (n - 1) as nat) + "::".spec_bytes() + segments[n - 1].ident@ + segments[n
            - 1].arguments@
    }
}

/// The text of an attribute: a call of the method of its name, with its
/// value as the argument, or with the name itself where it has no value.
pub open spec fn attr_text(attr: MoxAttr) -> Seq<u8> {
    ".".spec_bytes() + attr.name@ + "(".spec_bytes() + (match attr.value {
        Some(v) => v@,
        None => attr.name@,
    }) + ")".spec_bytes()
}

/// The text of the first `n` attributes, one after the other.
pub open spec fn attrs_text(attrs: Seq<MoxAttr>, n: nat) -> Seq<u8>
    decreases n,
{
    if n == 0 || n > attrs.len() {
        Seq::empty()
    } else {
        attrs_text(attrs, (n - 1) as nat) + attr_text(attrs[n - 1])
    }
}

/// The text of an expression: its conversion into a child.
pub open spec fn expr_text(expr: MoxExpr) -> Seq<u8> {
    expr.expr@ + ".into_child()".spec_bytes()
}

/// The text of the first `n` children: each is handed to `child`.
pub open spec fn children_text(items: Seq<MoxItem>, n: nat) -> Seq<u8>
    decreases items, n,
{
    if n == 0 || n > items.len() {
        Seq::empty()
    } else {
        children_text(items, (n - 1) as nat) + ".child(".spec_bytes() + item_text(items[n - 1])
            + ")".spec_bytes()
    }
}

/// The text of a tag: a call of the builder of its name, then its attributes,
/// then its children, then `build`, all inside one `mox::topo::call`.
pub open spec fn tag_text(tag: MoxTag) -> Seq<u8>
    decreases tag,
{
    "mox::topo::call(|| { ".spec_bytes() + path_text(tag.name@, tag.name@.len()) + "()".spec_bytes()
        + attrs_text(tag.attributes@, tag.attributes@.len()) + children_text(
        tag.children@,
        tag.children@.len(),
    ) + ".build() })".spec_bytes()
}

/// The text of an item. An item that is nothing has no text.
pub open spec fn item_text(item: MoxItem) -> Seq<u8>
    decreases item,
{
    match item {
        MoxItem::Tag(tag) => tag_text(tag),
        MoxItem::Expr(expr) => expr_text(expr),
        MoxItem::Nothing => Seq::empty(),
    }
}

/// Appends the bytes of `text`.
pub fn push_text(tokens: &mut Vec<u8>, text: &str)
    ensures
        final(tokens)@ == old(tokens)@ + text.spec_bytes(),
{
    let bytes = text.as_bytes();
    let mut i: usize = 0;
    while i < bytes.len()
        invariant
            i <= bytes@.len(),
            bytes@ == text.spec_bytes(),
            tokens@ == old(tokens)@ + bytes@.take(i as int),
        decreases bytes@.len() - i,
    {
        tokens.push(bytes[i]);
        assert(bytes@.take(i as int + 1) =~= bytes@.take(i as int).push(bytes@[i as int]));
        i += 1;
    }
    assert(bytes@.take(bytes@.len() as int) =~= bytes@);
}

/// Appends `bytes`.
pub fn push_bytes(tokens: &mut Vec<u8>, bytes: &Vec<u8>)
    ensures
        final(tokens)@ == old(tokens)@ + bytes@,
{
    let mut i: usize = 0;
    while i < bytes.len()
        invariant
            i <= bytes@.len(),
            tokens@ == old(tokens)@ + bytes@.take(i as int),
        decreases bytes@.len() - i,
    {
        tokens.push(bytes[i]);
        assert(bytes@.take(i as int + 1) =~= bytes@.take(i as int).push(bytes@[i as int]));
        i += 1;
    }
    assert(bytes@.take(bytes@.len() as int) =~= bytes@);
}

/// Appends the text of a path.
pub fn push_path(tokens: &mut Vec<u8>, segments: &Vec<Segment>)
    ensures
        final(tokens)@ == old(tokens)@ + path_text(segments@, segments@.len()),
{
    let mut i: usize = 0;
    while i < segments.len()
        invariant
            i <= segments@.len(),
            tokens@ == old(tokens)@ + path_text(segments@, i as nat),
        decreases segments@.len() - i,
    {
        if i > 0 {
            push_text(tokens, "::");
        }
        push_bytes(tokens, &segments[i].ident);
        push_bytes(tokens, &segments[i].arguments);
        assert(tokens@ =~= old(tokens)@ + path_text(segments@, (i + 1) as nat));
        i += 1;
    }
}

impl MoxAttr {
    /// Appends the text of the attribute.
    pub fn to_tokens(&self, tokens: &mut Vec<u8>)
        ensures
            final(tokens)@ == old(tokens)@ + attr_text(*self),
    {
        push_text(tokens, ".");
        push_bytes(tokens, &self.name);
        push_text(tokens, "(");
        match &self.value {
            Some(v) => push_bytes(tokens, v),
            None => push_bytes(tokens, &self.name),
        }
        push_text(tokens, ")");
        assert(tokens@ =~= old(tokens)@ + attr_text(*self));
    }
}

impl MoxExpr {
    /// Appends the text of the expression.
    pub fn to_tokens(&self, tokens: &mut Vec<u8>)
        ensures
            final(tokens)@ == old(tokens)@ + expr_text(*self),
    {
        push_bytes(tokens, &self.expr);
        push_text(tokens, ".into_child()");
        assert(tokens@ =~= old(tokens)@ + expr_text(*self));
    }
}

impl MoxTag {
    /// Appends the text of the tag.
    pub fn to_tokens(&self, tokens: &mut Vec<u8>)
        ensures
            final(tokens)@ == old(tokens)@ + tag_text(*self),
        decreases self,
    {
        push_text(tokens, "mox::topo::call(|| { ");
        push_path(tokens, &self.name);
        push_text(tokens, "()");
        let ghost head = tokens@;
        let mut i: usize = 0;
        while i < self.attributes.len()
            invariant
                i <= self.attributes@.len(),
                tokens@ == head + attrs_text(self.attributes@, i as nat),
            decreases self.attributes@.len() - i,
        {
            self.attributes[i].to_tokens(tokens);
            assert(tokens@ =~= head + attrs_text(self.attributes@, (i + 1) as nat));
            i += 1;
        }
        let ghost middle = tokens@;
        let mut k: usize = 0;
        while k < self.children.len()
            invariant
                k <= self.children@.len(),
                tokens@ == middle + children_text(self.children@, k as nat),
            decreases self.children@.len() - k,
        {
            push_text(tokens, ".child(");
            self.children[k].to_tokens(tokens);
            push_text(tokens, ")");
            assert(tokens@ =~= middle + children_text(self.children@, (k + 1) as nat));
            k += 1;
        }
        push_text(tokens, ".build() })");
        assert(tokens@ =~= old(tokens)@ + tag_text(*self));
    }
}

impl MoxItem {
    /// Appends the text of the item.
    pub fn to_tokens(&self, tokens: &mut Vec<u8>)
        ensures
            final(tokens)@ == old(tokens)@ + item_text(*self),
        decreases self,
    {
        match self {
            MoxItem::Tag(tag) => tag.to_tokens(tokens),
            MoxItem::Expr(expr) => expr.to_tokens(tokens),
            MoxItem::Nothing => {
                assert(tokens@ =~= old(tokens)@ + item_text(*self));
            },
        }
    }
}

/// The text of a block that begins with `%`: its arguments, handed to
/// `format_args!`.
pub open spec fn format_text(arguments: Seq<u8>) -> Seq<u8> {
    "format_args!(".spec_bytes() + arguments + ")".spec_bytes()
}

/// Writes the formatting call that stands for a block of the form
/// `{% arguments}`.
pub fn format_block(arguments: &Vec<u8>) -> (text: Vec<u8>)
    ensures
        text@ == format_text(arguments@),
{
    let mut text: Vec<u8> = Vec::new();
    push_text(&mut text, "format_args!(");
    push_bytes(&mut text, arguments);
    push_text(&mut text, ")");
    assert(text@ =~= format_text(arguments@));
    text
}

/// Whether `byte` is blank: a space, a tab, a line feed or a carriage return.
pub open spec fn is_blank(byte: u8) -> bool {
    byte == 0x20u8 || byte == 0x09u8 || byte == 0x0au8 || byte == 0x0du8
}

/// The content of a block begins, after `k` blanks, with `%`.
pub open spec fn marked_at(block: Seq<u8>, k: int) -> bool {
    &&& 0 <= k < block.len()
    &&& block[k] == 0x25u8
    &&& forall|j: int| 0 <= j < k ==> is_blank(#[trigger] block[j])
}

/// Whether `text` reads as a list of one or more expressions, separated by
/// commas and with nothing after the last: what `syn` decides.
pub uninterp spec fn is_argument_list(text: Seq<u8>) -> bool;

/// `syn::parse::Parser::parse_str`, with
/// `Punctuated::<Expr, Comma>::parse_separated_nonempty` as the parser, on
/// the text as UTF-8: whether the whole text parses. Text that is not UTF-8
/// does not.
#[verifier::external_body]
fn parses_as_arguments(text: &Vec<u8>) -> (accepted: bool)
    ensures
        accepted == is_argument_list(text@),
{
    match std::str::from_utf8(text) {
        Ok(source) => syn::parse::Parser::parse_str(
            syn::punctuated::Punctuated::<syn::Expr, syn::token::Comma>::parse_separated_nonempty,
            source,
        ).is_ok(),
        Err(_) => false,
    }
}

/// What a block that begins with `%` becomes, given whether what follows the
/// `%` was accepted as a list of arguments: a formatting call on the
/// arguments, or a refusal.
pub fn format_checked(arguments: &Vec<u8>, accepted: bool) -> (r: Result<Vec<u8>, NodeError>)
    ensures
        match r {
            Ok(text) => accepted && text@ == format_text(arguments@),
            Err(e) => !accepted && e == NodeError::FormatArguments,
        },
{
    if accepted {
        Ok(format_block(arguments))
    } else {
        Err(NodeError::FormatArguments)
    }
}

/// Rewrites the content of a block that begins with `%` into a formatting
/// call on what follows the `%`, and leaves every other block alone. What
/// follows the `%` must be a list of one or more expressions.
pub fn transform_block(block: &Vec<u8>) -> (r: Result<Option<Vec<u8>>, NodeError>)
    ensures
        match r {
            Ok(Some(text)) => exists|k: int|
                #[trigger] marked_at(block@, k) && is_argument_list(block@.skip(k + 1)) && text@
                    == format_text(block@.skip(k + 1)),
            Ok(None) => forall|k: int| !#[trigger] marked_at(block@, k),
            Err(e) => e == NodeError::FormatArguments && exists|k: int|
                #[trigger] marked_at(block@, k) && !is_argument_list(block@.skip(k + 1)),
        },
{
    let mut i: usize = 0;
    while i < block.len() && (block[i] == 0x20u8 || block[i] == 0x09u8 || block[i] == 0x0au8 || block[i]
        == 0x0du8)
        invariant
            i <= block@.len(),
            forall|j: int| 0 <= j < i ==> is_blank(#[trigger] block@[j]),
        decreases block@.len() - i,
    {
        i += 1;
    }
    if i < block.len() && block[i] == 0x25u8 {
        let mut arguments: Vec<u8> = Vec::new();
        let mut k: usize = i + 1;
        while k < block.len()
            invariant
                i < k <= block@.len(),
                arguments@ == block@.subrange(i + 1, k as int),
            decreases block@.len() - k,
        {
            arguments.push(block[k]);
            assert(block@.subrange(i + 1, k as int + 1) =~= block@.subrange(i + 1, k as int).push(
                block@[k as int],
            ));
            k += 1;
        }
        assert(arguments@ =~= block@.skip(i as int + 1));
        assert(marked_at(block@, i as int));
        let accepted = parses_as_arguments(&arguments);
        match format_checked(&arguments, accepted) {
            Ok(text) => Ok(Some(text)),
            Err(e) => Err(e),
        }
    } else {
        assert forall|k: int| !#[trigger] marked_at(block@, k) by {
            if marked_at(block@, k) {
                if k < i {
                    assert(is_blank(block@[k]));
                } else if k > i {
                    assert(is_blank(block@[i as int]));
                }
            }
        }
        Ok(None)
    }
}

/// Rewrites one markup node into the text of the builder calls that it
/// stands for, or says why the node is refused.
pub fn expand(node: &Node) -> (r: Result<Vec<u8>, NodeError>)
    requires
        complete(*node),
    ensures
        match r {
            Ok(text) => item_error(*node) is None && exists|item: MoxItem|
                item_matches(*node, item) && text@ == item_text(item),
            Err(e) => item_error(*node) == Some(e),
        },
{
    match MoxItem::try_from(node) {
        Ok(item) => {
            let mut text: Vec<u8> = Vec::new();
            item.to_tokens(&mut text);
            assert(text@ =~= item_text(item));
            Ok(text)
        },
        Err(e) => Err(e),
    }
}

} // verus!
