use sqlite_md::plan::{ConstraintInfo, MdAstTable, PlanError, CREATE_SQL, ESTIMATED_ROWS};

fn c(column: i32, usable: bool, equality: bool) -> ConstraintInfo {
    ConstraintInfo { column, usable, equality }
}

#[test]
fn plan_accepts_input_equality() {
    let (schema, table) = MdAstTable::connect();
    assert_eq!(schema, CREATE_SQL);
    let plan = table.best_index(&vec![c(1, true, true), c(10, true, true), c(4, true, false)]).unwrap();
    assert_eq!(plan.consumed, vec![false, true, false]);
    assert_eq!(plan.estimated_rows, ESTIMATED_ROWS);
    assert_eq!(plan.estimated_rows, 100000);
    assert_eq!(plan.idx_num, 1);
}

#[test]
fn plan_ignores_rowid_constraint() {
    let (_, table) = MdAstTable::connect();
    let plan = table.best_index(&vec![c(-1, true, false), c(10, true, true)]).unwrap();
    assert_eq!(plan.consumed, vec![false, true]);
}

#[test]
fn plan_rejects_missing_input() {
    let (_, table) = MdAstTable::connect();
    assert!(matches!(table.best_index(&vec![]), Err(PlanError::MissingInput)));
    assert!(matches!(table.best_index(&vec![c(0, true, true)]), Err(PlanError::MissingInput)));
}

#[test]
fn plan_rejects_input_inequality() {
    let (_, table) = MdAstTable::connect();
    assert!(matches!(
        table.best_index(&vec![c(10, true, true), c(10, true, false)]),
        Err(PlanError::UnsupportedInputConstraint)
    ));
}

#[test]
fn plan_rejects_unusable_input_equality() {
    let (_, table) = MdAstTable::connect();
    assert!(matches!(
        table.best_index(&vec![c(10, false, true)]),
        Err(PlanError::UnsupportedInputConstraint)
    ));
}
