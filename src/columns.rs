use vstd::prelude::*;
use crate::flatten::{FlatRow, RowSpec};
use crate::node::{NodeKind, Position};

verus! {

/// The columns of the relation, in the order of its schema.
#[derive(Clone, Copy, Debug)]
pub enum Columns {
    Parent,
    NodeType,
    Value,
    Details,
    StartOffset,
    StartLine,
    StartColumn,
    EndOffset,
    EndLine,
    EndColumn,
    Raw,
    InputText,
}

/// The column at schema index `index`, if there is one.
pub open spec fn column_spec(index: int) -> Option<Columns> {
    if index == 0 {
        Some(Columns::Parent)
    } else if index == 1 {
        Some(Columns::NodeType)
    } else if index == 2 {
        Some(Columns::Value)
    } else if index == 3 {
        Some(Columns::Details)
    } else if index == 4 {
        Some(Columns::StartOffset)
    } else if index == 5 {
        Some(Columns::StartLine)
    } else if index == 6 {
        Some(Columns::StartColumn)
    } else if index == 7 {
        Some(Columns::EndOffset)
    } else if index == 8 {
        Some(Columns::EndLine)
    } else if index == 9 {
        Some(Columns::EndColumn)
    } else if index == 10 {
        Some(Columns::InputText)
    } else if index == 11 {
        Some(Columns::Raw)
    } else {
        None
    }
}

/// Maps a schema index to its column.
pub fn column(index: i32) -> (r: Option<Columns>)
    ensures
        r == column_spec(index as int),
{
    match index {
        0 => Some(Columns::Parent),
        1 => Some(Columns::NodeType),
        2 => Some(Columns::Value),
        3 => Some(Columns::Details),
        4 => Some(Columns::StartOffset),
        5 => Some(Columns::StartLine),
        6 => Some(Columns::StartColumn),
        7 => Some(Columns::EndOffset),
        8 => Some(Columns::EndLine),
        9 => Some(Columns::EndColumn),
        10 => Some(Columns::InputText),
        11 => Some(Columns::Raw),
        _ => None,
    }
}

/// The name of a node kind as the `node_type` column shows it.
pub open spec fn kind_name(k: NodeKind) -> Seq<char> {
    match k {
        NodeKind::Root => "Root"@,
        NodeKind::BlockQuote => "BlockQuote"@,
        NodeKind::FootnoteDefinition => "FootnoteDefinition"@,
        NodeKind::MdxJsxFlowElement => "MdxJsxFlowElement"@,
        NodeKind::List { .. } => "List"@,
        NodeKind::MdxjsEsm { .. } => "MdxjsEsm"@,
        NodeKind::Toml { .. } => "Toml"@,
        NodeKind::Yaml { .. } => "Yaml"@,
        NodeKind::Break => "Break"@,
        NodeKind::InlineCode { .. } => "InlineCode"@,
        NodeKind::InlineMath { .. } => "InlineMath"@,
        NodeKind::Delete => "Delete"@,
        NodeKind::Emphasis => "Emphasis"@,
        NodeKind::MdxTextExpression { .. } => "MdxTextExpression"@,
        NodeKind::FootnoteReference { .. } => "FootnoteReference"@,
        NodeKind::Html { .. } => "Html"@,
        NodeKind::Image { .. } => "Image"@,
        NodeKind::ImageReference { .. } => "ImageReference"@,
        NodeKind::MdxJsxTextElement => "MdxJsxTextElement"@,
        NodeKind::Link { .. } => "Link"@,
        NodeKind::LinkReference { .. } => "LinkReference"@,
        NodeKind::Strong => "Strong"@,
        NodeKind::Text { .. } => "Text"@,
        NodeKind::Code { .. } => "Code"@,
        NodeKind::Math { .. } => "Math"@,
        NodeKind::MdxFlowExpression { .. } => "MdxFlowExpression"@,
        NodeKind::Heading { .. } => "Heading"@,
        NodeKind::Table => "Table"@,
        NodeKind::ThematicBreak => "ThematicBreak"@,
        NodeKind::TableRow => "TableRow"@,
        NodeKind::TableCell => "TableCell"@,
        NodeKind::ListItem { .. } => "ListItem"@,
        NodeKind::Definition { .. } => "Definition"@,
        NodeKind::Paragraph => "Paragraph"@,
    }
}

/// The name of the kind of `k`.
pub fn node_type(k: &NodeKind) -> (r: &'static str)
    ensures
        r@ == kind_name(*k),
{
    match k {
        NodeKind::Root => "Root",
        NodeKind::BlockQuote => "BlockQuote",
        NodeKind::FootnoteDefinition => "FootnoteDefinition",
        NodeKind::MdxJsxFlowElement => "MdxJsxFlowElement",
        NodeKind::List { .. } => "List",
        NodeKind::MdxjsEsm { .. } => "MdxjsEsm",
        NodeKind::Toml { .. } => "Toml",
        NodeKind::Yaml { .. } => "Yaml",
        NodeKind::Break => "Break",
        NodeKind::InlineCode { .. } => "InlineCode",
        NodeKind::InlineMath { .. } => "InlineMath",
        NodeKind::Delete => "Delete",
        NodeKind::Emphasis => "Emphasis",
        NodeKind::MdxTextExpression { .. } => "MdxTextExpression",
        NodeKind::FootnoteReference { .. } => "FootnoteReference",
        NodeKind::Html { .. } => "Html",
        NodeKind::Image { .. } => "Image",
        NodeKind::ImageReference { .. } => "ImageReference",
        NodeKind::MdxJsxTextElement => "MdxJsxTextElement",
        NodeKind::Link { .. } => "Link",
        NodeKind::LinkReference { .. } => "LinkReference",
        NodeKind::Strong => "Strong",
        NodeKind::Text { .. } => "Text",
        NodeKind::Code { .. } => "Code",
        NodeKind::Math { .. } => "Math",
        NodeKind::MdxFlowExpression { .. } => "MdxFlowExpression",
        NodeKind::Heading { .. } => "Heading",
        NodeKind::Table => "Table",
        NodeKind::ThematicBreak => "ThematicBreak",
        NodeKind::TableRow => "TableRow",
        NodeKind::TableCell => "TableCell",
        NodeKind::ListItem { .. } => "ListItem",
        NodeKind::Definition { .. } => "Definition",
        NodeKind::Paragraph => "Paragraph",
    }
}

/// The literal text of a leaf kind; `None` for the structural kinds.
pub open spec fn text_value(k: NodeKind) -> Option<Seq<char>> {
    match k {
        NodeKind::Html { value } => Some(value@),
        NodeKind::Text { value } => Some(value@),
        NodeKind::Code { value, .. } => Some(value@),
        NodeKind::Math { value, .. } => Some(value@),
        NodeKind::InlineCode { value } => Some(value@),
        NodeKind::InlineMath { value } => Some(value@),
        NodeKind::Yaml { value } => Some(value@),
        NodeKind::Toml { value } => Some(value@),
        NodeKind::MdxjsEsm { value } => Some(value@),
        NodeKind::MdxFlowExpression { value } => Some(value@),
        NodeKind::MdxTextExpression { value } => Some(value@),
        _ => None,
    }
}

pub open spec fn opt_string_view(o: Option<String>) -> Option<Seq<char>> {
    match o {
        Some(s) => Some(s@),
        None => None,
    }
}

/// The literal text of `k`, if its kind is a leaf kind with text.
pub fn node_value(k: &NodeKind) -> (r: Option<String>)
    ensures
        opt_string_view(r) == text_value(*k),
{
    match k {
        NodeKind::Html { value } => Some(value.clone()),
        NodeKind::Text { value } => Some(value.clone()),
        NodeKind::Code { value, .. } => Some(value.clone()),
        NodeKind::Math { value, .. } => Some(value.clone()),
        NodeKind::InlineCode { value } => Some(value.clone()),
        NodeKind::InlineMath { value } => Some(value.clone()),
        NodeKind::Yaml { value } => Some(value.clone()),
        NodeKind::Toml { value } => Some(value.clone()),
        NodeKind::MdxjsEsm { value } => Some(value.clone()),
        NodeKind::MdxFlowExpression { value } => Some(value.clone()),
        NodeKind::MdxTextExpression { value } => Some(value.clone()),
        _ => None,
    }
}

/// One attribute value of a node.
#[derive(Debug)]
pub enum DetailValue {
    Null,
    Bool(bool),
    Int(i64),
    Text(String),
}

/// The mathematical content of an attribute value.
pub enum DetailModel {
    Null,
    Bool(bool),
    Int(int),
    Text(Seq<char>),
}

impl View for DetailValue {
    type V = DetailModel;

    open spec fn view(&self) -> DetailModel {
        match self {
            DetailValue::Null => DetailModel::Null,
            DetailValue::Bool(b) => DetailModel::Bool(*b),
            DetailValue::Int(i) => DetailModel::Int(*i as int),
            DetailValue::Text(s) => DetailModel::Text(s@),
        }
    }
}

/// A node's attributes: keys and values in a fixed order.
pub type Details = Vec<(&'static str, DetailValue)>;

pub open spec fn details_view(d: Details) -> Seq<(Seq<char>, DetailModel)> {
    d@.map_values(|e: (&'static str, DetailValue)| (e.0@, e.1@))
}

pub open spec fn opt_text_model(o: Option<String>) -> DetailModel {
    match o {
        Some(s) => DetailModel::Text(s@),
        None => DetailModel::Null,
    }
}

pub open spec fn opt_bool_model(o: Option<bool>) -> DetailModel {
    match o {
        Some(b) => DetailModel::Bool(b),
        None => DetailModel::Null,
    }
}

pub open spec fn opt_int_model(o: Option<u32>) -> DetailModel {
    match o {
        Some(i) => DetailModel::Int(i as int),
        None => DetailModel::Null,
    }
}

/// The attributes of a node kind, or `None` for a kind without any.
pub open spec fn details_spec(k: NodeKind) -> Option<Seq<(Seq<char>, DetailModel)>> {
    match k {
        NodeKind::List { ordered, start, spread } => Some(
            seq![
                ("ordered"@, DetailModel::Bool(ordered)),
                ("start"@, opt_int_model(start)),
                ("spread"@, DetailModel::Bool(spread)),
            ],
        ),
        NodeKind::FootnoteReference { identifier, label } => Some(
            seq![("identifier"@, DetailModel::Text(identifier@)), ("label"@, opt_text_model(label))],
        ),
        NodeKind::Image { alt, url, title } => Some(
            seq![
                ("alt"@, DetailModel::Text(alt@)),
                ("url"@, DetailModel::Text(url@)),
                ("title"@, opt_text_model(title)),
            ],
        ),
        NodeKind::ImageReference { alt, identifier, label } => Some(
            seq![
                ("alt"@, DetailModel::Text(alt@)),
                ("identifier"@, DetailModel::Text(identifier@)),
                ("label"@, opt_text_model(label)),
            ],
        ),
        NodeKind::Link { url, title } => Some(
            seq![("url"@, DetailModel::Text(url@)), ("title"@, opt_text_model(title))],
        ),
        NodeKind::LinkReference { identifier, label } => Some(
            seq![("identifier"@, DetailModel::Text(identifier@)), ("label"@, opt_text_model(label))],
        ),
        NodeKind::Code { lang, meta, .. } => Some(
            seq![("language"@, opt_text_model(lang)), ("meta"@, opt_text_model(meta))],
        ),
        NodeKind::Math { meta, .. } => Some(seq![("meta"@, opt_text_model(meta))]),
        NodeKind::Heading { depth } => Some(seq![("depth"@, DetailModel::Int(depth as int))]),
        NodeKind::ListItem { spread, checked } => Some(
            seq![("spread"@, DetailModel::Bool(spread)), ("checked"@, opt_bool_model(checked))],
        ),
        NodeKind::Definition { url, title, identifier, label } => Some(
            seq![
                ("url"@, DetailModel::Text(url@)),
                ("title"@, opt_text_model(title)),
                ("identifier"@, DetailModel::Text(identifier@)),
                ("label"@, opt_text_model(label)),
            ],
        ),
        _ => None,
    }
}

fn text_detail(s: &String) -> (r: DetailValue)
    ensures
        r@ == DetailModel::Text(s@),
{
    DetailValue::Text(s.clone())
}

fn opt_text_detail(o: &Option<String>) -> (r: DetailValue)
    ensures
        r@ == opt_text_model(*o),
{
    match o {
        Some(s) => DetailValue::Text(s.clone()),
        None => DetailValue::Null,
    }
}

fn opt_bool_detail(o: &Option<bool>) -> (r: DetailValue)
    ensures
        r@ == opt_bool_model(*o),
{
    match o {
        Some(b) => DetailValue::Bool(*b),
        None => DetailValue::Null,
    }
}

fn opt_int_detail(o: &Option<u32>) -> (r: DetailValue)
    ensures
        r@ == opt_int_model(*o),
{
    match o {
        Some(i) => DetailValue::Int(*i as i64),
        None => DetailValue::Null,
    }
}

fn one(k0: &'static str, v0: DetailValue) -> (r: Details)
    ensures
        details_view(r) == seq![(k0@, v0@)],
{
    let mut d: Details = Vec::new();
    d.push((k0, v0));
    proof {
        assert(details_view(d) =~= seq![(k0@, v0@)]);
    }
    d
}

fn two(k0: &'static str, v0: DetailValue, k1: &'static str, v1: DetailValue) -> (r: Details)
    ensures
        details_view(r) == seq![(k0@, v0@), (k1@, v1@)],
{
    let mut d: Details = Vec::new();
    d.push((k0, v0));
    d.push((k1, v1));
    proof {
        assert(details_view(d) =~= seq![(k0@, v0@), (k1@, v1@)]);
    }
    d
}

fn three(
    k0: &'static str,
    v0: DetailValue,
    k1: &'static str,
    v1: DetailValue,
    k2: &'static str,
    v2: DetailValue,
) -> (r: Details)
    ensures
        details_view(r) == seq![(k0@, v0@), (k1@, v1@), (k2@, v2@)],
{
    let mut d = two(k0, v0, k1, v1);
    let ghost d0 = d;
    d.push((k2, v2));
    proof {
        assert(details_view(d) =~= details_view(d0).push((k2@, v2@)));
        assert(details_view(d) =~= seq![(k0@, v0@), (k1@, v1@), (k2@, v2@)]);
    }
    d
}

/// The attributes of `k`, or `None` for a kind without any.
pub fn node_details(k: &NodeKind) -> (r: Option<Details>)
    ensures
        match r {
            Some(d) => details_spec(*k) == Some(details_view(d)),
            None => details_spec(*k) is None,
        },
{
    match k {
        NodeKind::List { ordered, start, spread } => Some(
            three(
                "ordered",
                DetailValue::Bool(*ordered),
                "start",
                opt_int_detail(start),
                "spread",
                DetailValue::Bool(*spread),
            ),
        ),
        NodeKind::FootnoteReference { identifier, label } => Some(
            two("identifier", text_detail(identifier), "label", opt_text_detail(label)),
        ),
        NodeKind::Image { alt, url, title } => Some(
            three(
                "alt",
                text_detail(alt),
                "url",
                text_detail(url),
                "title",
                opt_text_detail(title),
            ),
        ),
        NodeKind::ImageReference { alt, identifier, label } => Some(
            three(
                "alt",
                text_detail(alt),
                "identifier",
                text_detail(identifier),
                "label",
                opt_text_detail(label),
            ),
        ),
        NodeKind::Link { url, title } => Some(
            two("url", text_detail(url), "title", opt_text_detail(title)),
        ),
        NodeKind::LinkReference { identifier, label } => Some(
            two("identifier", text_detail(identifier), "label", opt_text_detail(label)),
        ),
        NodeKind::Code { lang, meta, .. } => Some(
            two("language", opt_text_detail(lang), "meta", opt_text_detail(meta)),
        ),
        NodeKind::Math { meta, .. } => Some(one("meta", opt_text_detail(meta))),
        NodeKind::Heading { depth } => Some(one("depth", DetailValue::Int(*depth as i64))),
        NodeKind::ListItem { spread, checked } => Some(
            two("spread", DetailValue::Bool(*spread), "checked", opt_bool_detail(checked)),
        ),
        NodeKind::Definition { url, title, identifier, label } => {
            let mut d = three(
                "url",
                text_detail(url),
                "title",
                opt_text_detail(title),
                "identifier",
                text_detail(identifier),
            );
            let ghost d0 = d;
            d.push(("label", opt_text_detail(label)));
            proof {
                assert(details_view(d) =~= details_view(d0).push(("label"@, opt_text_model(*label))));
            }
            Some(d)
        },
        NodeKind::Root | NodeKind::BlockQuote | NodeKind::FootnoteDefinition
        | NodeKind::MdxJsxFlowElement | NodeKind::MdxjsEsm { .. } | NodeKind::Toml { .. }
        | NodeKind::Yaml { .. } | NodeKind::Break | NodeKind::InlineCode { .. }
        | NodeKind::InlineMath { .. } | NodeKind::Delete | NodeKind::Emphasis
        | NodeKind::MdxTextExpression { .. } | NodeKind::Html { .. }
        | NodeKind::MdxJsxTextElement | NodeKind::Strong | NodeKind::Text { .. }
        | NodeKind::MdxFlowExpression { .. } | NodeKind::Table | NodeKind::ThematicBreak
        | NodeKind::TableRow | NodeKind::TableCell | NodeKind::Paragraph => None,
    }
}

/// The value of one column of one row.
#[derive(Debug)]
pub enum ColumnValue {
    Null,
    Int(usize),
    Text(String),
    Bytes(Vec<u8>),
    Json(Details),
}

/// The mathematical content of a column value.
pub enum ColumnModel {
    Null,
    Int(int),
    Text(Seq<char>),
    Bytes(Seq<u8>),
    Json(Seq<(Seq<char>, DetailModel)>),
}

impl View for ColumnValue {
    type V = ColumnModel;

    open spec fn view(&self) -> ColumnModel {
        match self {
            ColumnValue::Null => ColumnModel::Null,
            ColumnValue::Int(i) => ColumnModel::Int(*i as int),
            ColumnValue::Text(s) => ColumnModel::Text(s@),
            ColumnValue::Bytes(b) => ColumnModel::Bytes(b@),
            ColumnValue::Json(d) => ColumnModel::Json(details_view(*d)),
        }
    }
}

/// The source bytes that `pos` spans, where it lies within `input`.
pub open spec fn raw_slice(pos: Option<Position>, input: Seq<u8>) -> Option<Seq<u8>> {
    match pos {
        Some(p) => if p.start.offset <= p.end.offset <= input.len() {
            Some(input.subrange(p.start.offset as int, p.end.offset as int))
        } else {
            None
        },
        None => None,
    }
}

/// The value of column `c` for `row`, whose document source is `input`.
pub open spec fn column_model(row: RowSpec, input: Seq<u8>, c: Columns) -> ColumnModel {
    match c {
        Columns::Parent => ColumnModel::Int(row.parent_id as int),
        Columns::NodeType => ColumnModel::Text(kind_name(row.kind)),
        Columns::Value => match text_value(row.kind) {
            Some(t) => ColumnModel::Text(t),
            None => ColumnModel::Null,
        },
        Columns::Details => match details_spec(row.kind) {
            Some(d) => ColumnModel::Json(d),
            None => ColumnModel::Null,
        },
        Columns::StartOffset => match row.position {
            Some(p) => ColumnModel::Int(p.start.offset as int),
            None => ColumnModel::Null,
        },
        Columns::StartLine => match row.position {
            Some(p) => ColumnModel::Int(p.start.line as int),
            None => ColumnModel::Null,
        },
        Columns::StartColumn => match row.position {
            Some(p) => ColumnModel::Int(p.start.column as int),
            None => ColumnModel::Null,
        },
        Columns::EndOffset => match row.position {
            Some(p) => ColumnModel::Int(p.end.offset as int),
            None => ColumnModel::Null,
        },
        Columns::EndLine => match row.position {
            Some(p) => ColumnModel::Int(p.end.line as int),
            None => ColumnModel::Null,
        },
        Columns::EndColumn => match row.position {
            Some(p) => ColumnModel::Int(p.end.column as int),
            None => ColumnModel::Null,
        },
        Columns::Raw => match raw_slice(row.position, input) {
            Some(b) => ColumnModel::Bytes(b),
            None => ColumnModel::Null,
        },
        Columns::InputText => ColumnModel::Null,
    }
}

/// A copy of the bytes `start..end` of `input`.
pub fn source_slice(input: &Vec<u8>, start: usize, end: usize) -> (r: Vec<u8>)
    requires
        start <= end <= input@.len(),
    ensures
        r@ == input@.subrange(start as int, end as int),
{
    let mut out: Vec<u8> = Vec::new();
    let mut i: usize = start;
    while i < end
        invariant
            start <= i <= end <= input@.len(),
            out@ == input@.subrange(start as int, i as int),
        decreases end - i,
    {
        out.push(input[i]);
        i = i + 1;
        proof {
            assert(out@ =~= input@.subrange(start as int, i as int));
        }
    }
    out
}

/// Projects column `c` of `row`, whose document source is `input`.
pub fn project(row: &FlatRow, input: &Vec<u8>, c: Columns) -> (r: ColumnValue)
    ensures
        r@ == column_model(row@, input@, c),
{
    match c {
        Columns::Parent => ColumnValue::Int(row.parent_id),
        Columns::NodeType => ColumnValue::Text(node_type(&row.kind).to_owned()),
        Columns::Value => match node_value(&row.kind) {
            Some(t) => ColumnValue::Text(t),
            None => ColumnValue::Null,
        },
        Columns::Details => match node_details(&row.kind) {
            Some(d) => ColumnValue::Json(d),
            None => ColumnValue::Null,
        },
        Columns::StartOffset => match &row.position {
            Some(p) => ColumnValue::Int(p.start.offset),
            None => ColumnValue::Null,
        },
        Columns::StartLine => match &row.position {
            Some(p) => ColumnValue::Int(p.start.line),
            None => ColumnValue::Null,
        },
        Columns::StartColumn => match &row.position {
            Some(p) => ColumnValue::Int(p.start.column),
            None => ColumnValue::Null,
        },
        Columns::EndOffset => match &row.position {
            Some(p) => ColumnValue::Int(p.end.offset),
            None => ColumnValue::Null,
        },
        Columns::EndLine => match &row.position {
            Some(p) => ColumnValue::Int(p.end.line),
            None => ColumnValue::Null,
        },
        Columns::EndColumn => match &row.position {
            Some(p) => ColumnValue::Int(p.end.column),
            None => ColumnValue::Null,
        },
        Columns::Raw => match &row.position {
            Some(p) => if p.start.offset <= p.end.offset && p.end.offset <= input.len() {
                ColumnValue::Bytes(source_slice(input, p.start.offset, p.end.offset))
            } else {
                ColumnValue::Null
            },
            None => ColumnValue::Null,
        },
        Columns::InputText => ColumnValue::Null,
    }
}

/// Where a row has a position range within the source, its raw column is
/// exactly the source bytes between its start and end offsets.
pub proof fn raw_is_source_slice(row: RowSpec, input: Seq<u8>)
    requires
        row.position is Some,
        row.position->0.start.offset <= row.position->0.end.offset <= input.len(),
    ensures
        column_model(row, input, Columns::Raw) == ColumnModel::Bytes(
            input.subrange(
                row.position->0.start.offset as int,
                row.position->0.end.offset as int,
            ),
        ),
{
}

/// A row without position information has every position column and its
/// raw column null.
pub proof fn no_position_gives_nulls(row: RowSpec, input: Seq<u8>)
    requires
        row.position is None,
    ensures
        column_model(row, input, Columns::StartOffset) == ColumnModel::Null,
        column_model(row, input, Columns::StartLine) == ColumnModel::Null,
        column_model(row, input, Columns::StartColumn) == ColumnModel::Null,
        column_model(row, input, Columns::EndOffset) == ColumnModel::Null,
        column_model(row, input, Columns::EndLine) == ColumnModel::Null,
        column_model(row, input, Columns::EndColumn) == ColumnModel::Null,
        column_model(row, input, Columns::Raw) == ColumnModel::Null,
{
}

} // verus!
