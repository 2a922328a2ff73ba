use sqlite_md::flatten::{all_nodes, FlatRow};
use sqlite_md::node::{MdNode, NodeKind, Point, Position};

fn pos(so: usize, sl: usize, sc: usize, eo: usize, el: usize, ec: usize) -> Option<Position> {
    Some(Position {
        start: Point { line: sl, column: sc, offset: so },
        end: Point { line: el, column: ec, offset: eo },
    })
}

fn text(v: &str, position: Option<Position>) -> MdNode {
    MdNode { kind: NodeKind::Text { value: v.to_string() }, position, children: vec![] }
}

fn node(kind: NodeKind, children: Vec<MdNode>) -> MdNode {
    MdNode { kind, position: None, children }
}

/// The tree of "# Hi\n\nworld".
fn heading_and_paragraph() -> MdNode {
    MdNode {
        kind: NodeKind::Root,
        position: pos(0, 1, 1, 11, 3, 6),
        children: vec![
            MdNode {
                kind: NodeKind::Heading { depth: 1 },
                position: pos(0, 1, 1, 4, 1, 5),
                children: vec![text("Hi", pos(2, 1, 3, 4, 1, 5))],
            },
            MdNode {
                kind: NodeKind::Paragraph,
                position: pos(6, 3, 1, 11, 3, 6),
                children: vec![text("world", pos(6, 3, 1, 11, 3, 6))],
            },
        ],
    }
}

fn ids_and_parents(rows: &[FlatRow]) -> Vec<(usize, usize)> {
    rows.iter().map(|r| (r.id, r.parent_id)).collect()
}

#[test]
fn flatten_heading_and_paragraph() {
    let rows = all_nodes(heading_and_paragraph());
    assert_eq!(rows.len(), 5);
    assert_eq!(ids_and_parents(&rows), vec![(0, 0), (1, 0), (2, 1), (3, 0), (4, 3)]);
    assert!(matches!(rows[0].kind, NodeKind::Root));
    assert!(matches!(rows[1].kind, NodeKind::Heading { depth: 1 }));
    assert!(matches!(&rows[2].kind, NodeKind::Text { value } if value == "Hi"));
    assert!(matches!(rows[3].kind, NodeKind::Paragraph));
    assert!(matches!(&rows[4].kind, NodeKind::Text { value } if value == "world"));
}

#[test]
fn flatten_root_only() {
    let rows = all_nodes(node(NodeKind::Root, vec![]));
    assert_eq!(rows.len(), 1);
    assert_eq!(ids_and_parents(&rows), vec![(0, 0)]);
}

#[test]
fn flatten_preorder_keeps_subtrees_contiguous() {
    // root
    //   a: list
    //     a1: item (with b: paragraph, c: text)
    //     a2: item
    //   d: thematic break
    let tree = node(
        NodeKind::Root,
        vec![
            node(
                NodeKind::List { ordered: false, start: None, spread: false },
                vec![
                    node(
                        NodeKind::ListItem { spread: false, checked: None },
                        vec![node(NodeKind::Paragraph, vec![text("c", None)])],
                    ),
                    node(NodeKind::ListItem { spread: false, checked: Some(true) }, vec![]),
                ],
            ),
            node(NodeKind::ThematicBreak, vec![]),
        ],
    );
    let rows = all_nodes(tree);
    assert_eq!(
        ids_and_parents(&rows),
        vec![(0, 0), (1, 0), (2, 1), (3, 2), (4, 3), (5, 1), (6, 0)]
    );
    assert!(matches!(rows[5].kind, NodeKind::ListItem { checked: Some(true), .. }));
    assert!(matches!(rows[6].kind, NodeKind::ThematicBreak));
}

#[test]
fn flatten_row_count_is_node_count() {
    let mut children = vec![];
    for i in 0..50 {
        let grand: Vec<MdNode> = (0..i).map(|_| text("x", None)).collect();
        children.push(node(NodeKind::Paragraph, grand));
    }
    let rows = all_nodes(node(NodeKind::Root, children));
    assert_eq!(rows.len(), 1 + 50 + (0..50).sum::<usize>());
    for (i, r) in rows.iter().enumerate() {
        assert_eq!(r.id, i);
        if i > 0 {
            assert!(r.parent_id < i);
        }
    }
}

#[test]
fn flatten_deep_nesting() {
    let mut tree = text("leaf", None);
    for _ in 0..20000 {
        tree = node(NodeKind::BlockQuote, vec![tree]);
    }
    let rows = all_nodes(node(NodeKind::Root, vec![tree]));
    assert_eq!(rows.len(), 20002);
    for (i, r) in rows.iter().enumerate() {
        assert_eq!(r.id, i);
        assert_eq!(r.parent_id, if i == 0 { 0 } else { i - 1 });
    }
}

#[test]
fn flatten_twice_gives_same_rows() {
    let a = all_nodes(heading_and_paragraph());
    let b = all_nodes(heading_and_paragraph());
    assert_eq!(a.len(), 5);
    assert_eq!(format!("{:?}", a), format!("{:?}", b));
}
