//! Operators of method bodies, and their symbols.

use vstd::prelude::*;
use crate::text::{str_eq, to_owned_string};

verus! {

/// An operator; `Other` holds a symbol that is none of the known ones.
#[derive(Debug, Clone, PartialEq, Eq)]
pub enum Op {
    Plus,
    Minus,
    Star,
    Slash,
    Modulus,
    PlusPlus,
    MinusMinus,
    And,
    Pipe,
    Carat,
    Tilde,
    BitShiftLeft,
    BitShiftRight,
    UnsignedBitShiftRight,
    FatArrow,
    ThinArrow,
    ExclamationPoint,
    QuestionMark,
    Colon,
    Equal,
    PlusEqual,
    MinusEqual,
    StarEqual,
    SlashEqual,
    ModulusEqual,
    AndEqual,
    PipeEqual,
    CaratEqual,
    TildeEqual,
    AndAnd,
    PipePipe,
    EqualEqual,
    NotEqual,
    GreaterThan,
    GreaterThanEqualTo,
    LessThan,
    LessThanEqualTo,
    Other(String),
}

/// The symbol of an operator.
pub open spec fn op_symbol(op: Op) -> Seq<char> {
    match op {
        Op::Plus => "+"@,
        Op::Minus => "-"@,
        Op::Star => "*"@,
        Op::Slash => "/"@,
        Op::Modulus => "%"@,
        Op::PlusPlus => "++"@,
        Op::MinusMinus => "--"@,
        Op::And => "&"@,
        Op::Pipe => "|"@,
        Op::Carat => "^"@,
        Op::Tilde => "~"@,
        Op::BitShiftLeft => "<<"@,
        Op::BitShiftRight => ">>"@,
        Op::UnsignedBitShiftRight => ">>>"@,
        Op::FatArrow => "=>"@,
        Op::ThinArrow => "->"@,
        Op::ExclamationPoint => "!"@,
        Op::QuestionMark => "?"@,
        Op::Colon => ":"@,
        Op::Equal => "="@,
        Op::PlusEqual => "+="@,
        Op::MinusEqual => "-="@,
        Op::StarEqual => "*="@,
        Op::SlashEqual => "/="@,
        Op::ModulusEqual => "%="@,
        Op::AndEqual => "&="@,
        Op::PipeEqual => "|="@,
        Op::CaratEqual => "^="@,
        Op::TildeEqual => "~="@,
        Op::AndAnd => "&&"@,
        Op::PipePipe => "||"@,
        Op::EqualEqual => "=="@,
        Op::NotEqual => "!="@,
        Op::GreaterThan => ">"@,
        Op::GreaterThanEqualTo => ">="@,
        Op::LessThan => "<"@,
        Op::LessThanEqualTo => "<="@,
        Op::Other(value) => value@,
    }
}

/// The symbol of a known operator, as a string literal.
fn known_symbol(op: &Op) -> (r: Option<&'static str>)
    ensures
        match op {
            Op::Other(_) => r is None,
            _ => r matches Some(t) && t@ == op_symbol(*op),
        },
{
    let t = match op {
        Op::Plus => "+",
        Op::Minus => "-",
        Op::Star => "*",
        Op::Slash => "/",
        Op::Modulus => "%",
        Op::PlusPlus => "++",
        Op::MinusMinus => "--",
        Op::And => "&",
        Op::Pipe => "|",
        Op::Carat => "^",
        Op::Tilde => "~",
        Op::BitShiftLeft => "<<",
        Op::BitShiftRight => ">>",
        Op::UnsignedBitShiftRight => ">>>",
        Op::FatArrow => "=>",
        Op::ThinArrow => "->",
        Op::ExclamationPoint => "!",
        Op::QuestionMark => "?",
        Op::Colon => ":",
        Op::Equal => "=",
        Op::PlusEqual => "+=",
        Op::MinusEqual => "-=",
        Op::StarEqual => "*=",
        Op::SlashEqual => "/=",
        Op::ModulusEqual => "%=",
        Op::AndEqual => "&=",
        Op::PipeEqual => "|=",
        Op::CaratEqual => "^=",
        Op::TildeEqual => "~=",
        Op::AndAnd => "&&",
        Op::PipePipe => "||",
        Op::EqualEqual => "==",
        Op::NotEqual => "!=",
        Op::GreaterThan => ">",
        Op::GreaterThanEqualTo => ">=",
        Op::LessThan => "<",
        Op::LessThanEqualTo => "<=",
        Op::Other(_) => {
            return None;
        },
    };
    Some(t)
}

impl Op {
    /// The operator's symbol.
    pub fn into_symbol(self) -> (r: String)
        ensures
            r@ == op_symbol(self),
    {
        match known_symbol(&self) {
            Some(t) => to_owned_string(t),
            None => match self {
                Op::Other(value) => value,
                _ => String::new(),
            },
        }
    }

    /// The operator whose symbol is `s`; `Other` when no known operator has it.
    pub fn from_symbol(s: &str) -> (r: Op)
        ensures
            op_symbol(r) == s@,
            (r is Other) <==> (forall|op: Op| !(op is Other) ==> op_symbol(op) != s@),
    {
        from_symbol_known(s)
    }
}

fn from_symbol_known(s: &str) -> (r: Op)
    ensures
        op_symbol(r) == s@,
        (r is Other) <==> (forall|op: Op| !(op is Other) ==> op_symbol(op) != s@),
{
    if str_eq(s, "+") {
        assert(op_symbol(Op::Plus) == s@);
        return Op::Plus;
    }
    if str_eq(s, "-") {
        assert(op_symbol(Op::Minus) == s@);
        return Op::Minus;
    }
    if str_eq(s, "*") {
        assert(op_symbol(Op::Star) == s@);
        return Op::Star;
    }
    if str_eq(s, "/") {
        assert(op_symbol(Op::Slash) == s@);
        return Op::Slash;
    }
    if str_eq(s, "%") {
        assert(op_symbol(Op::Modulus) == s@);
        return Op::Modulus;
    }
    if str_eq(s, "++") {
        assert(op_symbol(Op::PlusPlus) == s@);
        return Op::PlusPlus;
    }
    if str_eq(s, "--") {
        assert(op_symbol(Op::MinusMinus) == s@);
        return Op::MinusMinus;
    }
    if str_eq(s, "&") {
        assert(op_symbol(Op::And) == s@);
        return Op::And;
    }
    if str_eq(s, "|") {
        assert(op_symbol(Op::Pipe) == s@);
        return Op::Pipe;
    }
    if str_eq(s, "^") {
        assert(op_symbol(Op::Carat) == s@);
        return Op::Carat;
    }
    if str_eq(s, "~") {
        assert(op_symbol(Op::Tilde) == s@);
        return Op::Tilde;
    }
    if str_eq(s, "<<") {
        assert(op_symbol(Op::BitShiftLeft) == s@);
        return Op::BitShiftLeft;
    }
    if str_eq(s, ">>") {
        assert(op_symbol(Op::BitShiftRight) == s@);
        return Op::BitShiftRight;
    }
    if str_eq(s, ">>>") {
        assert(op_symbol(Op::UnsignedBitShiftRight) == s@);
        return Op::UnsignedBitShiftRight;
    }
    if str_eq(s, "=>") {
        assert(op_symbol(Op::FatArrow) == s@);
        return Op::FatArrow;
    }
    if str_eq(s, "->") {
        assert(op_symbol(Op::ThinArrow) == s@);
        return Op::ThinArrow;
    }
    if str_eq(s, "!") {
        assert(op_symbol(Op::ExclamationPoint) == s@);
        return Op::ExclamationPoint;
    }
    if str_eq(s, "?") {
        assert(op_symbol(Op::QuestionMark) == s@);
        return Op::QuestionMark;
    }
    if str_eq(s, ":") {
        assert(op_symbol(Op::Colon) == s@);
        return Op::Colon;
    }
    if str_eq(s, "=") {
        assert(op_symbol(Op::Equal) == s@);
        return Op::Equal;
    }
    if str_eq(s, "+=") {
        assert(op_symbol(Op::PlusEqual) == s@);
        return Op::PlusEqual;
    }
    if str_eq(s, "-=") {
        assert(op_symbol(Op::MinusEqual) == s@);
        return Op::MinusEqual;
    }
    if str_eq(s, "*=") {
        assert(op_symbol(Op::StarEqual) == s@);
        return Op::StarEqual;
    }
    if str_eq(s, "/=") {
        assert(op_symbol(Op::SlashEqual) == s@);
        return Op::SlashEqual;
    }
    if str_eq(s, "%=") {
        assert(op_symbol(Op::ModulusEqual) == s@);
        return Op::ModulusEqual;
    }
    if str_eq(s, "&=") {
        assert(op_symbol(Op::AndEqual) == s@);
        return Op::AndEqual;
    }
    if str_eq(s, "|=") {
        assert(op_symbol(Op::PipeEqual) == s@);
        return Op::PipeEqual;
    }
    if str_eq(s, "^=") {
        assert(op_symbol(Op::CaratEqual) == s@);
        return Op::CaratEqual;
    }
    if str_eq(s, "~=") {
        assert(op_symbol(Op::TildeEqual) == s@);
        return Op::TildeEqual;
    }
    if str_eq(s, "&&") {
        assert(op_symbol(Op::AndAnd) == s@);
        return Op::AndAnd;
    }
    if str_eq(s, "||") {
        assert(op_symbol(Op::PipePipe) == s@);
        return Op::PipePipe;
    }
    if str_eq(s, "==") {
        assert(op_symbol(Op::EqualEqual) == s@);
        return Op::EqualEqual;
    }
    if str_eq(s, "!=") {
        assert(op_symbol(Op::NotEqual) == s@);
        return Op::NotEqual;
    }
    if str_eq(s, ">") {
        assert(op_symbol(Op::GreaterThan) == s@);
        return Op::GreaterThan;
    }
    if str_eq(s, ">=") {
        assert(op_symbol(Op::GreaterThanEqualTo) == s@);
        return Op::GreaterThanEqualTo;
    }
    if str_eq(s, "<") {
        assert(op_symbol(Op::LessThan) == s@);
        return Op::LessThan;
    }
    if str_eq(s, "<=") {
        assert(op_symbol(Op::LessThanEqualTo) == s@);
        return Op::LessThanEqualTo;
    }
    Op::Other(to_owned_string(s))
}

} // verus!
