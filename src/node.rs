use vstd::prelude::*;

verus! {

/// A place in the source text.
#[derive(Debug)]
pub struct Point {
    /// 1-indexed line.
    pub line: usize,
    /// 1-indexed column.
    pub column: usize,
    /// 0-indexed byte offset.
    pub offset: usize,
}

/// The range of source text that a node spans.
#[derive(Debug)]
pub struct Position {
    pub start: Point,
    pub end: Point,
}

/// The kind of a node, with the fields that are meaningful to that kind.
#[derive(Debug)]
pub enum NodeKind {
    Root,
    BlockQuote,
    FootnoteDefinition,
    MdxJsxFlowElement,
    List { ordered: bool, start: Option<u32>, spread: bool },
    MdxjsEsm { value: String },
    Toml { value: String },
    Yaml { value: String },
    Break,
    InlineCode { value: String },
    InlineMath { value: String },
    Delete,
    Emphasis,
    MdxTextExpression { value: String },
    FootnoteReference { identifier: String, label: Option<String> },
    Html { value: String },
    Image { alt: String, url: String, title: Option<String> },
    ImageReference { alt: String, identifier: String, label: Option<String> },
    MdxJsxTextElement,
    Link { url: String, title: Option<String> },
    LinkReference { identifier: String, label: Option<String> },
    Strong,
    Text { value: String },
    Code { value: String, lang: Option<String>, meta: Option<String> },
    Math { value: String, meta: Option<String> },
    MdxFlowExpression { value: String },
    Heading { depth: u8 },
    Table,
    ThematicBreak,
    TableRow,
    TableCell,
    ListItem { spread: bool, checked: Option<bool> },
    Definition { url: String, title: Option<String>, identifier: String, label: Option<String> },
    Paragraph,
}

/// A node of a parsed markdown document: its kind, where it stands in the
/// source (if known), and its children in document order.
pub struct MdNode {
    pub kind: NodeKind,
    pub position: Option<Position>,
    pub children: Vec<MdNode>,
}

/// The number of nodes in the tree rooted at `n`, `n` included.
pub open spec fn node_count(n: MdNode) -> nat
    decreases n, n.children@.len() + 1,
{
    1 + children_count(n, 0, n.children@.len() as int)
}

/// The number of nodes in the subtrees of the children `i..k` of `n`.
pub open spec fn children_count(n: MdNode, i: int, k: int) -> nat
    decreases n, k - i,
{
    if i < 0 || i >= k || k > n.children@.len() {
        0
    } else {
        node_count(n.children@[i]) + children_count(n, i + 1, k)
    }
}

} // verus!
