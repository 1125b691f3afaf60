use ressa::constraints::{
    default_true, new_literal, Constraint, ConstraintComposition, ConstraintLogic, ConstraintTree, MethodConstraint,
    RelationalConstraint, StructuralConstraint, VariableConstraint,
};
use ressa::op::Op;

#[test]
fn operator_symbols_round_trip() {
    assert_eq!(Op::from_symbol("+="), Op::PlusEqual);
    assert_eq!(Op::from_symbol(">>>"), Op::UnsignedBitShiftRight);
    assert_eq!(Op::from_symbol("<=>"), Op::Other("<=>".to_string()));
    assert_eq!(Op::LessThanEqualTo.into_symbol(), "<=");
    assert_eq!(Op::Other("::".to_string()).into_symbol(), "::");
    assert_eq!(Op::from_symbol("&&").into_symbol(), "&&");
}

#[test]
fn operators_convert_to_constraints() {
    assert_eq!(ConstraintComposition::try_convert(&Op::AndAnd), Some(ConstraintComposition::And));
    assert_eq!(ConstraintComposition::try_convert(&Op::Pipe), Some(ConstraintComposition::Or));
    assert_eq!(ConstraintComposition::try_convert(&Op::EqualEqual), None);
    assert_eq!(ConstraintLogic::try_convert(&Op::Equal), Some(ConstraintLogic::Equal));
    assert_eq!(ConstraintLogic::try_convert(&Op::GreaterThanEqualTo), Some(ConstraintLogic::GreaterThanEqualTo));
    assert_eq!(ConstraintLogic::try_convert(&Op::Plus), None);
    assert!(ConstraintComposition::Plus.reorderable());
    assert!(!ConstraintComposition::Minus.reorderable());
}

#[test]
fn validity_needs_a_relation() {
    let rel = ConstraintTree::RelationalConstraint(RelationalConstraint::equal(
        ConstraintTree::VariableConstraint(VariableConstraint::new("#{x}")),
        new_literal("5".to_string()),
    ));
    assert!(rel.valid_constraint());
    let nested = ConstraintTree::StructuralConstraint(StructuralConstraint::and(vec![new_literal("a".to_string()), rel]));
    assert!(nested.valid_constraint());
    let plain = ConstraintTree::StructuralConstraint(StructuralConstraint::not(vec![new_literal("a".to_string())]));
    assert!(!plain.valid_constraint());
    let call = ConstraintTree::MethodConstraint(MethodConstraint::new(None, vec![]));
    assert!(!call.valid_constraint());
    let c = Constraint::create_constraint(plain);
    assert!(c.essential && c.guaranteed && c.callback.is_none());
    assert!(default_true());
}

#[test]
fn variable_constraint_matches() {
    let v = VariableConstraint::new("^get#{entity}$");
    assert_eq!(v.as_str(), "^get#{entity}$");
    assert!(v.matches("getUser"));
    assert!(!v.matches("putUser"));
    assert!(!VariableConstraint::new("(").matches("("));
}
