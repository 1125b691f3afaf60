//! Constraints over the values found by patterns: literals, variables,
//! method calls, structural compositions and relations.

use vstd::prelude::*;
use crate::op::Op;
use crate::pattern::{regex_compiles, regex_named_groups, translate, CompiledPattern};
use crate::text::to_owned_string;

verus! {

/// The default of the `essential` and `guaranteed` flags.
pub fn default_true() -> (r: bool)
    ensures
        r,
{
    true
}

/// A constraint, whether it is essential, and whether it is guaranteed to hold.
#[derive(Debug, PartialEq, Eq, Hash)]
pub struct Constraint {
    /// Callback run on success.
    pub callback: Option<String>,
    /// Whether the constraint is essential to matching.
    pub essential: bool,
    /// Whether the constraint is guaranteed to be met, or only possibly.
    pub guaranteed: bool,
    /// The constraint itself.
    pub value: ConstraintTree,
}

impl Constraint {
    /// A constraint with the given parts.
    pub fn new(callback: Option<String>, essential: bool, guaranteed: bool, value: ConstraintTree) -> (r: Constraint)
        ensures
            r == (Constraint { callback, essential, guaranteed, value }),
    {
        Constraint { callback, essential, guaranteed, value }
    }

    /// An essential, guaranteed constraint on `value`, without callback.
    pub fn create_constraint(value: ConstraintTree) -> (r: Constraint)
        ensures
            r == (Constraint { callback: None, essential: true, guaranteed: true, value }),
    {
        Constraint::new(None, default_true(), default_true(), value)
    }
}

/// A constraint: on a variable, a literal, a method call, a relation or a
/// composition.
#[derive(Debug, PartialEq, Eq, Hash)]
pub enum ConstraintTree {
    VariableConstraint(VariableConstraint),
    LiteralConstraint(String),
    MethodConstraint(MethodConstraint),
    RelationalConstraint(RelationalConstraint),
    StructuralConstraint(StructuralConstraint),
}

/// A relation, or a composition with such a constraint among its children.
pub open spec fn is_valid_constraint(t: ConstraintTree) -> bool
    decreases t, 1int, 0int,
{
    match t {
        ConstraintTree::RelationalConstraint(_) => true,
        ConstraintTree::StructuralConstraint(s) => any_valid(s, s.children.len() as int),
        _ => false,
    }
}

/// One of the first `n` children of `s` is a valid constraint.
pub open spec fn any_valid(s: StructuralConstraint, n: int) -> bool
    decreases s, 0int, n,
{
    if n <= 0 {
        false
    } else {
        any_valid(s, n - 1) || (n - 1 < s.children.len() && is_valid_constraint(s.children[n - 1]))
    }
}

broadcast use vstd::std_specs::vec::group_vec_axioms;

proof fn lemma_any_valid_grows(s: StructuralConstraint, k: int, n: int)
    requires
        any_valid(s, k),
        k <= n,
    ensures
        any_valid(s, n),
    decreases n - k,
{
    if k < n {
        lemma_any_valid_grows(s, k, n - 1);
    }
}

impl ConstraintTree {
    /// Whether the tree holds a relation: it is one, or it composes one.
    pub fn valid_constraint(&self) -> (r: bool)
        ensures
            r == is_valid_constraint(*self),
        decreases self,
    {
        match self {
            ConstraintTree::RelationalConstraint(_) => true,
            ConstraintTree::StructuralConstraint(s) => any_child_valid(s),
            _ => false,
        }
    }
}

/// Whether some child of `s` holds a relation.
fn any_child_valid(s: &StructuralConstraint) -> (r: bool)
    ensures
        r == any_valid(*s, s.children.len() as int),
    decreases s,
{
    let mut i: usize = 0;
    while i < s.children.len()
        invariant
            i <= s.children.len(),
            !any_valid(*s, i as int),
        decreases s.children.len() - i,
    {
        if s.children[i].valid_constraint() {
            proof {
                lemma_any_valid_grows(*s, i + 1, s.children.len() as int);
            }
            return true;
        }
        i += 1;
    }
    false
}

/// A literal constraint.
pub fn new_literal(literal: String) -> (r: ConstraintTree)
    ensures
        r == ConstraintTree::LiteralConstraint(literal),
{
    ConstraintTree::LiteralConstraint(literal)
}

/// A constraint on a variable, given by a capture pattern.
#[derive(Debug, PartialEq, Eq, Hash)]
pub struct VariableConstraint {
    pub pattern: String,
}

impl VariableConstraint {
    /// The constraint whose pattern is `name`.
    pub fn new(name: &str) -> (r: VariableConstraint)
        ensures
            r.pattern@ == name@,
    {
        VariableConstraint { pattern: to_owned_string(name) }
    }

    /// Whether `match_str` matches the pattern, references aside; a
    /// pattern that cannot be compiled matches nothing.
    pub fn matches(&self, match_str: &str) -> (r: bool)
        ensures
            r == (regex_compiles(translate(self.pattern@).text)
                && regex_named_groups(translate(self.pattern@).text, match_str@, translate(self.pattern@).vars) is Some),
    {
        match CompiledPattern::from_pattern(self.pattern.as_str()) {
            Ok(cp) => cp.primitive_matches(match_str),
            Err(_) => false,
        }
    }

    /// The pattern.
    pub fn as_str(&self) -> (r: &str)
        ensures
            r@ == self.pattern@,
    {
        self.pattern.as_str()
    }
}

/// A constraint on a method call: what is called and its arguments.
#[derive(Debug, PartialEq, Eq, Hash)]
pub struct MethodConstraint {
    pub called: Option<Box<ConstraintTree>>,
    pub args: Vec<ConstraintTree>,
}

impl MethodConstraint {
    /// The constraint on calls of `callee` with `args`.
    pub fn new(callee: Option<ConstraintTree>, args: Vec<ConstraintTree>) -> (r: MethodConstraint)
        ensures
            r.args == args,
            match callee {
                Some(c) => r.called matches Some(b) && *b == c,
                None => r.called is None,
            },
    {
        let called = match callee {
            Some(c) => Some(Box::new(c)),
            None => None,
        };
        MethodConstraint { called, args }
    }
}

/// How children are composed.
#[derive(Debug, Clone, Copy, PartialEq, Eq, Hash, Structural)]
pub enum ConstraintComposition {
    And,
    Or,
    Not,
    Plus,
    Minus,
    Multiply,
    Divide,
    ShiftLeft,
    UnsignedShiftLeft,
    ShiftRight,
    Dot,
}

/// The composition an operator stands for, if any.
pub open spec fn composition_of(op: Op) -> Option<ConstraintComposition> {
    match op {
        Op::AndAnd | Op::And => Some(ConstraintComposition::And),
        Op::PipePipe | Op::Pipe => Some(ConstraintComposition::Or),
        Op::Plus => Some(ConstraintComposition::Plus),
        Op::Minus => Some(ConstraintComposition::Minus),
        Op::Star => Some(ConstraintComposition::Multiply),
        Op::Slash => Some(ConstraintComposition::Divide),
        Op::BitShiftLeft => Some(ConstraintComposition::ShiftLeft),
        Op::BitShiftRight => Some(ConstraintComposition::ShiftRight),
        Op::UnsignedBitShiftRight => Some(ConstraintComposition::UnsignedShiftLeft),
        _ => None,
    }
}

impl ConstraintComposition {
    /// The composition an operator stands for.
    pub fn try_convert(value: &Op) -> (r: Option<Self>)
        ensures
            r == composition_of(*value),
    {
        match value {
            Op::AndAnd | Op::And => Some(ConstraintComposition::And),
            Op::PipePipe | Op::Pipe => Some(ConstraintComposition::Or),
            Op::Plus => Some(ConstraintComposition::Plus),
            Op::Minus => Some(ConstraintComposition::Minus),
            Op::Star => Some(ConstraintComposition::Multiply),
            Op::Slash => Some(ConstraintComposition::Divide),
            Op::BitShiftLeft => Some(ConstraintComposition::ShiftLeft),
            Op::BitShiftRight => Some(ConstraintComposition::ShiftRight),
            Op::UnsignedBitShiftRight => Some(ConstraintComposition::UnsignedShiftLeft),
            _ => None,
        }
    }

    /// Whether the children of this composition may be reordered.
    pub fn reorderable(&self) -> (r: bool)
        ensures
            r == (*self == ConstraintComposition::And || *self == ConstraintComposition::Or || *self
                == ConstraintComposition::Not || *self == ConstraintComposition::Plus || *self
                == ConstraintComposition::Multiply),
    {
        match self {
            ConstraintComposition::And
            | ConstraintComposition::Or
            | ConstraintComposition::Not
            | ConstraintComposition::Plus
            | ConstraintComposition::Multiply => true,
            _ => false,
        }
    }
}

/// Children linked by a composition.
#[derive(Debug, PartialEq, Eq, Hash)]
pub struct StructuralConstraint {
    pub kind: ConstraintComposition,
    pub children: Vec<ConstraintTree>,
}

impl StructuralConstraint {
    /// `children` linked by `kind`.
    pub fn new(kind: ConstraintComposition, children: Vec<ConstraintTree>) -> (r: StructuralConstraint)
        ensures
            r == (StructuralConstraint { kind, children }),
    {
        StructuralConstraint { kind, children }
    }

    /// A conjunction of `children`.
    pub fn and(children: Vec<ConstraintTree>) -> (r: StructuralConstraint)
        ensures
            r == (StructuralConstraint { kind: ConstraintComposition::And, children }),
    {
        StructuralConstraint::new(ConstraintComposition::And, children)
    }

    /// A negation of `children`.
    pub fn not(children: Vec<ConstraintTree>) -> (r: StructuralConstraint)
        ensures
            r == (StructuralConstraint { kind: ConstraintComposition::Not, children }),
    {
        StructuralConstraint::new(ConstraintComposition::Not, children)
    }

    /// A member selection over `children`.
    pub fn dot(children: Vec<ConstraintTree>) -> (r: StructuralConstraint)
        ensures
            r == (StructuralConstraint { kind: ConstraintComposition::Dot, children }),
    {
        StructuralConstraint::new(ConstraintComposition::Dot, children)
    }
}

/// How two sides are related.
#[derive(Debug, Clone, Copy, PartialEq, Eq, Hash, Structural)]
pub enum ConstraintLogic {
    NotEqual,
    Equal,
    LessThan,
    LessThanEqualTo,
    GreaterThan,
    GreaterThanEqualTo,
}

/// The relation an operator stands for, if any.
pub open spec fn logic_of(op: Op) -> Option<ConstraintLogic> {
    match op {
        Op::EqualEqual => Some(ConstraintLogic::Equal),
        Op::NotEqual => Some(ConstraintLogic::NotEqual),
        Op::GreaterThan => Some(ConstraintLogic::GreaterThan),
        Op::GreaterThanEqualTo => Some(ConstraintLogic::GreaterThanEqualTo),
        Op::LessThan => Some(ConstraintLogic::LessThan),
        Op::LessThanEqualTo => Some(ConstraintLogic::LessThanEqualTo),
        Op::Equal => Some(ConstraintLogic::Equal),
        _ => None,
    }
}

impl ConstraintLogic {
    /// The relation an operator stands for.
    pub fn try_convert(value: &Op) -> (r: Option<Self>)
        ensures
            r == logic_of(*value),
    {
        match value {
            Op::EqualEqual => Some(ConstraintLogic::Equal),
            Op::NotEqual => Some(ConstraintLogic::NotEqual),
            Op::GreaterThan => Some(ConstraintLogic::GreaterThan),
            Op::GreaterThanEqualTo => Some(ConstraintLogic::GreaterThanEqualTo),
            Op::LessThan => Some(ConstraintLogic::LessThan),
            Op::LessThanEqualTo => Some(ConstraintLogic::LessThanEqualTo),
            Op::Equal => Some(ConstraintLogic::Equal),
            _ => None,
        }
    }
}

/// Two sides in a relation.
#[derive(Debug, PartialEq, Eq, Hash)]
pub struct RelationalConstraint {
    pub kind: ConstraintLogic,
    pub lhs: Box<ConstraintTree>,
    pub rhs: Box<ConstraintTree>,
}

impl RelationalConstraint {
    /// `lhs` and `rhs` related by `kind`.
    pub fn new(kind: ConstraintLogic, lhs: ConstraintTree, rhs: ConstraintTree) -> (r: RelationalConstraint)
        ensures
            r.kind == kind,
            *r.lhs == lhs,
            *r.rhs == rhs,
    {
        RelationalConstraint { kind, lhs: Box::new(lhs), rhs: Box::new(rhs) }
    }

    /// `lhs` equal to `rhs`.
    pub fn equal(lhs: ConstraintTree, rhs: ConstraintTree) -> (r: RelationalConstraint)
        ensures
            r.kind == ConstraintLogic::Equal,
            *r.lhs == lhs,
            *r.rhs == rhs,
    {
        RelationalConstraint::new(ConstraintLogic::Equal, lhs, rhs)
    }
}

} // verus!
