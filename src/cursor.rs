use vstd::prelude::*;
use crate::columns::{column, column_model, column_spec, project, ColumnModel, ColumnValue};
use crate::flatten::{all_nodes, flattened, rows_view, FlatRow, RowSpec};
use crate::node::MdNode;

verus! {

/// What a cursor holds: the rows of one scan, the source they came from,
/// and the position of the current row.
pub struct ScanModel {
    pub rows: Seq<RowSpec>,
    pub input: Seq<u8>,
    pub pos: nat,
}

/// The state of one scan over the rows of one document.
pub struct MdAstCursor {
    rowid: usize,
    all_nodes: Vec<FlatRow>,
    input_text: Vec<u8>,
}

impl View for MdAstCursor {
    type V = ScanModel;

    closed spec fn view(&self) -> ScanModel {
        ScanModel {
            rows: rows_view(self.all_nodes@),
            input: self.input_text@,
            pos: self.rowid as nat,
        }
    }
}

impl MdAstCursor {
    /// A cursor with no rows, not bound to any document yet.
    pub fn new() -> (r: MdAstCursor)
        ensures
            r@.rows.len() == 0,
            r@.input.len() == 0,
            r@.pos == 0,
    {
        MdAstCursor { rowid: 0, all_nodes: Vec::new(), input_text: Vec::new() }
    }

    /// Binds the scan to a document: `root` is the parse tree of the source
    /// bytes `input_text`. The rows become the flattened tree and the current
    /// row the first one.
    pub fn filter(&mut self, root: MdNode, input_text: Vec<u8>)
        ensures
            final(self)@ == (ScanModel { rows: flattened(root), input: input_text@, pos: 0 }),
    {
        self.all_nodes = all_nodes(root);
        self.input_text = input_text;
        self.rowid = 0;
    }

    /// Moves to the next row. Whether a row is left is the caller's to ask,
    /// through `eof`.
    pub fn next(&mut self)
        requires
            old(self)@.pos < usize::MAX,
        ensures
            final(self)@.rows == old(self)@.rows,
            final(self)@.input == old(self)@.input,
            final(self)@.pos == old(self)@.pos + 1,
    {
        self.rowid = self.rowid + 1;
    }

    /// The position of the current row within the scan.
    pub fn position(&self) -> (r: usize)
        ensures
            r == self@.pos,
    {
        self.rowid
    }

    /// Whether the scan has passed its last row.
    pub fn eof(&self) -> (r: bool)
        ensures
            r == (self@.pos >= self@.rows.len()),
    {
        self.rowid >= self.all_nodes.len()
    }

    /// The value of the column at schema index `i` for the current row;
    /// null for an index outside the schema.
    pub fn column(&self, i: i32) -> (r: ColumnValue)
        requires
            self@.pos < self@.rows.len(),
        ensures
            r@ == match column_spec(i as int) {
                Some(c) => column_model(self@.rows[self@.pos as int], self@.input, c),
                None => ColumnModel::Null,
            },
    {
        let row = &self.all_nodes[self.rowid];
        match column(i) {
            Some(c) => project(row, &self.input_text, c),
            None => ColumnValue::Null,
        }
    }

    /// The id of the current row, its identity within the scan.
    pub fn rowid(&self) -> (r: usize)
        requires
            self@.pos < self@.rows.len(),
        ensures
            r == self@.rows[self@.pos as int].id,
    {
        self.all_nodes[self.rowid].id
    }
}

} // verus!
