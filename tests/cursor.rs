use sqlite_md::columns::{node_details, node_type, node_value, ColumnValue, Columns, DetailValue};
use sqlite_md::cursor::MdAstCursor;
use sqlite_md::node::{MdNode, NodeKind, Point, Position};

fn pos(so: usize, sl: usize, sc: usize, eo: usize, el: usize, ec: usize) -> Option<Position> {
    Some(Position {
        start: Point { line: sl, column: sc, offset: so },
        end: Point { line: el, column: ec, offset: eo },
    })
}

fn leaf(kind: NodeKind, position: Option<Position>) -> MdNode {
    MdNode { kind, position, children: vec![] }
}

fn s(v: &str) -> String {
    v.to_string()
}

fn heading_doc() -> (MdNode, &'static str) {
    let src = "# Hi\n\nworld";
    let tree = MdNode {
        kind: NodeKind::Root,
        position: pos(0, 1, 1, 11, 3, 6),
        children: vec![
            MdNode {
                kind: NodeKind::Heading { depth: 1 },
                position: pos(0, 1, 1, 4, 1, 5),
                children: vec![leaf(NodeKind::Text { value: s("Hi") }, pos(2, 1, 3, 4, 1, 5))],
            },
            MdNode {
                kind: NodeKind::Paragraph,
                position: pos(6, 3, 1, 11, 3, 6),
                children: vec![leaf(NodeKind::Text { value: s("world") }, pos(6, 3, 1, 11, 3, 6))],
            },
        ],
    };
    (tree, src)
}

fn as_int(v: ColumnValue) -> Option<usize> {
    match v {
        ColumnValue::Int(i) => Some(i),
        _ => None,
    }
}

fn text(v: ColumnValue) -> Option<String> {
    match v {
        ColumnValue::Text(t) => Some(t),
        _ => None,
    }
}

fn bytes(v: ColumnValue) -> Option<Vec<u8>> {
    match v {
        ColumnValue::Bytes(b) => Some(b),
        _ => None,
    }
}

#[test]
fn cursor_walks_heading_document() {
    let (tree, src) = heading_doc();
    let mut cur = MdAstCursor::new();
    assert!(cur.eof());
    cur.filter(tree, src.as_bytes().to_vec());
    let mut seen = vec![];
    while !cur.eof() {
        seen.push((
            cur.rowid(),
            as_int(cur.column(0)).unwrap(),
            text(cur.column(1)).unwrap(),
            text(cur.column(2)),
        ));
        cur.next();
    }
    cur.next();
    assert!(cur.eof());
    assert_eq!(
        seen,
        vec![
            (0, 0, s("Root"), None),
            (1, 0, s("Heading"), None),
            (2, 1, s("Text"), Some(s("Hi"))),
            (3, 0, s("Paragraph"), None),
            (4, 3, s("Text"), Some(s("world"))),
        ]
    );
}

#[test]
fn heading_details_and_positions() {
    let (tree, src) = heading_doc();
    let mut cur = MdAstCursor::new();
    cur.filter(tree, src.as_bytes().to_vec());
    cur.next();
    match cur.column(3) {
        ColumnValue::Json(d) => {
            assert_eq!(d.len(), 1);
            assert_eq!(d[0].0, "depth");
            assert!(matches!(d[0].1, DetailValue::Int(1)));
        }
        other => panic!("unexpected {:?}", other),
    }
    assert_eq!(as_int(cur.column(4)), Some(0));
    assert_eq!(as_int(cur.column(5)), Some(1));
    assert_eq!(as_int(cur.column(6)), Some(1));
    assert_eq!(as_int(cur.column(7)), Some(4));
    assert_eq!(as_int(cur.column(8)), Some(1));
    assert_eq!(as_int(cur.column(9)), Some(5));
    assert_eq!(bytes(cur.column(11)), Some(b"# Hi".to_vec()));
    assert!(matches!(cur.column(10), ColumnValue::Null));
    assert!(matches!(cur.column(12), ColumnValue::Null));
    assert!(matches!(cur.column(-1), ColumnValue::Null));
}

#[test]
fn raw_is_exact_source_slice() {
    let (tree, src) = heading_doc();
    let mut cur = MdAstCursor::new();
    cur.filter(tree, src.as_bytes().to_vec());
    let mut raws = vec![];
    while !cur.eof() {
        raws.push(String::from_utf8(bytes(cur.column(11)).unwrap()).unwrap());
        cur.next();
    }
    assert_eq!(raws, vec![s("# Hi\n\nworld"), s("# Hi"), s("Hi"), s("world"), s("world")]);
}

#[test]
fn raw_outside_source_is_null() {
    let mut cur = MdAstCursor::new();
    cur.filter(leaf(NodeKind::Root, pos(2, 1, 3, 9, 1, 10)), b"abc".to_vec());
    assert!(matches!(cur.column(11), ColumnValue::Null));
    assert_eq!(as_int(cur.column(7)), Some(9));
}

#[test]
fn no_position_gives_null_columns() {
    let mut cur = MdAstCursor::new();
    cur.filter(leaf(NodeKind::Root, None), b"text".to_vec());
    for i in 4..10 {
        assert!(matches!(cur.column(i), ColumnValue::Null));
    }
    assert!(matches!(cur.column(11), ColumnValue::Null));
    assert!(matches!(cur.column(3), ColumnValue::Null));
    assert_eq!(cur.rowid(), 0);
}

#[test]
fn link_details_have_url_and_title() {
    let link = NodeKind::Link { url: s("b"), title: Some(s("c")) };
    let d = node_details(&link).unwrap();
    assert_eq!(d.len(), 2);
    assert_eq!(d[0].0, "url");
    assert!(matches!(&d[0].1, DetailValue::Text(t) if t == "b"));
    assert_eq!(d[1].0, "title");
    assert!(matches!(&d[1].1, DetailValue::Text(t) if t == "c"));
    assert_eq!(node_type(&link), "Link");
    assert!(node_value(&link).is_none());
}

#[test]
fn list_and_item_details() {
    let list = NodeKind::List { ordered: true, start: Some(3), spread: false };
    let d = node_details(&list).unwrap();
    let keys: Vec<&str> = d.iter().map(|e| e.0).collect();
    assert_eq!(keys, vec!["ordered", "start", "spread"]);
    assert!(matches!(d[0].1, DetailValue::Bool(true)));
    assert!(matches!(d[1].1, DetailValue::Int(3)));
    assert!(matches!(d[2].1, DetailValue::Bool(false)));
    let item = NodeKind::ListItem { spread: true, checked: None };
    let d = node_details(&item).unwrap();
    assert!(matches!(d[0].1, DetailValue::Bool(true)));
    assert_eq!(d[1].0, "checked");
    assert!(matches!(d[1].1, DetailValue::Null));
}

#[test]
fn code_definition_and_reference_details() {
    let code = NodeKind::Code { value: s("x"), lang: Some(s("rs")), meta: None };
    let d = node_details(&code).unwrap();
    assert_eq!(d[0].0, "language");
    assert!(matches!(&d[0].1, DetailValue::Text(t) if t == "rs"));
    assert!(matches!(d[1].1, DetailValue::Null));
    assert_eq!(node_value(&code), Some(s("x")));
    let def = NodeKind::Definition { url: s("u"), title: None, identifier: s("id"), label: Some(s("Id")) };
    let keys: Vec<&str> = node_details(&def).unwrap().iter().map(|e| e.0).collect();
    assert_eq!(keys, vec!["url", "title", "identifier", "label"]);
    let img = NodeKind::ImageReference { alt: s("a"), identifier: s("i"), label: None };
    let keys: Vec<&str> = node_details(&img).unwrap().iter().map(|e| e.0).collect();
    assert_eq!(keys, vec!["alt", "identifier", "label"]);
    assert!(node_details(&NodeKind::Table).is_none());
    assert!(node_details(&NodeKind::Paragraph).is_none());
}

#[test]
fn column_indexes_follow_schema() {
    assert!(matches!(sqlite_md::columns::column(0), Some(Columns::Parent)));
    assert!(matches!(sqlite_md::columns::column(3), Some(Columns::Details)));
    assert!(matches!(sqlite_md::columns::column(10), Some(Columns::InputText)));
    assert!(matches!(sqlite_md::columns::column(11), Some(Columns::Raw)));
    assert!(sqlite_md::columns::column(12).is_none());
    assert_eq!(node_type(&NodeKind::BlockQuote), "BlockQuote");
    assert_eq!(node_value(&NodeKind::Yaml { value: s("a: 1") }), Some(s("a: 1")));
}

#[test]
fn next_always_moves_one_row() {
    let mut cur = MdAstCursor::new();
    cur.filter(leaf(NodeKind::Root, None), b"".to_vec());
    assert_eq!(cur.position(), 0);
    cur.next();
    assert_eq!(cur.position(), 1);
    assert!(cur.eof());
    cur.next();
    assert_eq!(cur.position(), 2);
    assert!(cur.eof());
}
