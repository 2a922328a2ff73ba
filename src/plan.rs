use vstd::prelude::*;
use crate::cursor::MdAstCursor;

verus! {

/// The schema of the relation, as the host declares a table.
pub const CREATE_SQL: &'static str = "CREATE TABLE x(parent, node_type, value, details, start_offset, start_line, start_column, end_offset, end_line, end_column, input_text hidden, raw hidden)";

/// The schema index of the hidden column that binds the document source.
pub const INPUT_TEXT_COLUMN: i32 = 10;

/// The row count reported to the host for one parse of input of any size.
pub const ESTIMATED_ROWS: i64 = 100000;

/// One predicate of a query, as the host offers it to the planner.
#[derive(Clone, Copy, Debug)]
pub struct ConstraintInfo {
    /// The schema index of the column it constrains.
    pub column: i32,
    /// Whether the host can deliver its argument to the scan.
    pub usable: bool,
    /// Whether it is an equality.
    pub equality: bool,
}

/// Why a query cannot be planned.
#[derive(Clone, Copy, Debug)]
pub enum PlanError {
    /// The source column carries a predicate other than a usable equality.
    UnsupportedInputConstraint,
    /// No predicate supplies the source column.
    MissingInput,
}

/// An accepted plan.
#[derive(Debug)]
pub struct IndexPlan {
    /// For each predicate, whether the scan consumes it: its argument is
    /// passed to the scan as the first argument and the host does not check
    /// it again.
    pub consumed: Vec<bool>,
    pub estimated_rows: i64,
    /// The one supported strategy.
    pub idx_num: i32,
}

pub open spec fn on_input(c: ConstraintInfo) -> bool {
    c.column == INPUT_TEXT_COLUMN
}

pub open spec fn supported(c: ConstraintInfo) -> bool {
    c.usable && c.equality
}

/// The planning decision for the predicates `cs`.
pub open spec fn plan_spec(cs: Seq<ConstraintInfo>) -> Result<Seq<bool>, PlanError> {
    if exists|i: int| 0 <= i < cs.len() && on_input(cs[i]) && !supported(cs[i]) {
        Err(PlanError::UnsupportedInputConstraint)
    } else if !exists|i: int| 0 <= i < cs.len() && on_input(cs[i]) {
        Err(PlanError::MissingInput)
    } else {
        Ok(cs.map_values(|c: ConstraintInfo| on_input(c)))
    }
}

/// The table-valued function over markdown syntax trees.
pub struct MdAstTable {}

impl MdAstTable {
    /// A table and the schema it declares.
    pub fn connect() -> (r: (&'static str, MdAstTable))
        ensures
            r.0@ == CREATE_SQL@,
    {
        (CREATE_SQL, MdAstTable {  })
    }

    /// Plans a query with the predicates `constraints`: the source column
    /// must carry a usable equality, and no other kind of predicate; the
    /// other columns are filtered by the host.
    pub fn best_index(&self, constraints: &Vec<ConstraintInfo>) -> (r: Result<IndexPlan, PlanError>)
        ensures
            match r {
                Ok(p) => plan_spec(constraints@) == Ok::<Seq<bool>, PlanError>(p.consumed@)
                    && p.estimated_rows == ESTIMATED_ROWS && p.idx_num == 1,
                Err(e) => plan_spec(constraints@) == Err::<Seq<bool>, PlanError>(e),
            },
    {
        let mut consumed: Vec<bool> = Vec::new();
        let mut has_input = false;
        let mut i: usize = 0;
        while i < constraints.len()
            invariant
                i <= constraints@.len(),
                consumed@ == constraints@.subrange(0, i as int).map_values(
                    |c: ConstraintInfo| on_input(c),
                ),
                forall|j: int| 0 <= j < i && on_input(constraints@[j]) ==> supported(constraints@[j]),
                has_input == exists|j: int| 0 <= j < i && on_input(constraints@[j]),
            decreases constraints@.len() - i,
        {
            let c = constraints[i];
            if c.column == INPUT_TEXT_COLUMN {
                if c.usable && c.equality {
                    has_input = true;
                    consumed.push(true);
                } else {
                    return Err(PlanError::UnsupportedInputConstraint);
                }
            } else {
                consumed.push(false);
            }
            i = i + 1;
            proof {
                assert(consumed@ =~= constraints@.subrange(0, i as int).map_values(
                    |c: ConstraintInfo| on_input(c),
                ));
            }
        }
        if !has_input {
            return Err(PlanError::MissingInput);
        }
        proof {
            assert(constraints@.subrange(0, i as int) =~= constraints@);
        }
        Ok(IndexPlan { consumed, estimated_rows: ESTIMATED_ROWS, idx_num: 1 })
    }

    /// Opens a fresh cursor for one scan.
    pub fn open(&mut self) -> (r: MdAstCursor)
        ensures
            r@.rows.len() == 0,
            r@.input.len() == 0,
            r@.pos == 0,
    {
        MdAstCursor::new()
    }
}

/// Planning fails exactly when the source column has no predicate or has
/// one that is not a usable equality.
pub proof fn planning_requires_input_equality(cs: Seq<ConstraintInfo>)
    ensures
        plan_spec(cs) is Ok <==> (exists|i: int| 0 <= i < cs.len() && on_input(cs[i])) && (forall|
            i: int,
        |
            0 <= i < cs.len() && on_input(cs[i]) ==> supported(cs[i])),
{
}

} // verus!
