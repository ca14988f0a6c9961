//! Operator precedence tables.
//!
//! Maps token kinds to the operator they represent plus a numeric
//! precedence level (higher binds tighter) and an associativity flag.

use vstd::prelude::*;
use crate::ast::{AssignmentOperator, BinaryOperator, LogicalOperator};
use crate::token::{Symbol, TokenKind};

verus! {

/// Whether the infix operator surfaces as a binary or a logical
/// expression.
#[derive(Debug, Clone, Copy, PartialEq, Eq, Structural)]
pub enum BinaryKind {
    /// Maps to `ExpressionKind::Binary`.
    Binary(BinaryOperator),
    /// Maps to `ExpressionKind::Logical`.
    Logical(LogicalOperator),
}

/// Information about a binary infix operator.
#[derive(Debug, Clone, Copy, PartialEq, Eq, Structural)]
pub struct BinaryInfo {
    /// The classified operator (binary or logical).
    pub op: BinaryKind,
    /// Numeric precedence; higher binds tighter.
    pub precedence: u8,
    /// True for right-associative operators (only `**` among binaries).
    pub right_assoc: bool,
}

/// Minimum precedence the parser starts at (admits all binary operators).
pub const MIN_PRECEDENCE: u8 = 1;

/// The binary-operator table: `??` 3, `||` 4, `&&` 5, `|` 6, `^` 7, `&` 8,
/// equality 9, relational (with `in`, `instanceof`) 10, shifts 11,
/// additive 12, multiplicative 13, `**` 14 (right-associative).
pub open spec fn spec_binary_info(kind: TokenKind) -> Option<BinaryInfo> {
    match kind {
        TokenKind::Symbol(Symbol::QQ) => Some(BinaryInfo { op: BinaryKind::Logical(LogicalOperator::NullishCoalescing), precedence: 3, right_assoc: false }),
        TokenKind::Symbol(Symbol::PipePipe) => Some(BinaryInfo { op: BinaryKind::Logical(LogicalOperator::Or), precedence: 4, right_assoc: false }),
        TokenKind::Symbol(Symbol::AmpAmp) => Some(BinaryInfo { op: BinaryKind::Logical(LogicalOperator::And), precedence: 5, right_assoc: false }),
        TokenKind::Symbol(Symbol::Pipe) => Some(BinaryInfo { op: BinaryKind::Binary(BinaryOperator::BitwiseOr), precedence: 6, right_assoc: false }),
        TokenKind::Symbol(Symbol::Caret) => Some(BinaryInfo { op: BinaryKind::Binary(BinaryOperator::BitwiseXor), precedence: 7, right_assoc: false }),
        TokenKind::Symbol(Symbol::Amp) => Some(BinaryInfo { op: BinaryKind::Binary(BinaryOperator::BitwiseAnd), precedence: 8, right_assoc: false }),
        TokenKind::Symbol(Symbol::EqEq) => Some(BinaryInfo { op: BinaryKind::Binary(BinaryOperator::Equal), precedence: 9, right_assoc: false }),
        TokenKind::Symbol(Symbol::BangEq) => Some(BinaryInfo { op: BinaryKind::Binary(BinaryOperator::NotEqual), precedence: 9, right_assoc: false }),
        TokenKind::Symbol(Symbol::EqEqEq) => Some(BinaryInfo { op: BinaryKind::Binary(BinaryOperator::StrictEqual), precedence: 9, right_assoc: false }),
        TokenKind::Symbol(Symbol::BangEqEq) => Some(BinaryInfo { op: BinaryKind::Binary(BinaryOperator::StrictNotEqual), precedence: 9, right_assoc: false }),
        TokenKind::Symbol(Symbol::Lt) => Some(BinaryInfo { op: BinaryKind::Binary(BinaryOperator::LessThan), precedence: 10, right_assoc: false }),
        TokenKind::Symbol(Symbol::LtEq) => Some(BinaryInfo { op: BinaryKind::Binary(BinaryOperator::LessThanOrEqual), precedence: 10, right_assoc: false }),
        TokenKind::Symbol(Symbol::Gt) => Some(BinaryInfo { op: BinaryKind::Binary(BinaryOperator::GreaterThan), precedence: 10, right_assoc: false }),
        TokenKind::Symbol(Symbol::GtEq) => Some(BinaryInfo { op: BinaryKind::Binary(BinaryOperator::GreaterThanOrEqual), precedence: 10, right_assoc: false }),
        TokenKind::Symbol(Symbol::KwInstanceof) => Some(BinaryInfo { op: BinaryKind::Binary(BinaryOperator::InstanceOf), precedence: 10, right_assoc: false }),
        TokenKind::Symbol(Symbol::KwIn) => Some(BinaryInfo { op: BinaryKind::Binary(BinaryOperator::In), precedence: 10, right_assoc: false }),
        TokenKind::Symbol(Symbol::LtLt) => Some(BinaryInfo { op: BinaryKind::Binary(BinaryOperator::LeftShift), precedence: 11, right_assoc: false }),
        TokenKind::Symbol(Symbol::GtGt) => Some(BinaryInfo { op: BinaryKind::Binary(BinaryOperator::RightShift), precedence: 11, right_assoc: false }),
        TokenKind::Symbol(Symbol::GtGtGt) => Some(BinaryInfo { op: BinaryKind::Binary(BinaryOperator::UnsignedRightShift), precedence: 11, right_assoc: false }),
        TokenKind::Symbol(Symbol::Plus) => Some(BinaryInfo { op: BinaryKind::Binary(BinaryOperator::Add), precedence: 12, right_assoc: false }),
        TokenKind::Symbol(Symbol::Minus) => Some(BinaryInfo { op: BinaryKind::Binary(BinaryOperator::Subtract), precedence: 12, right_assoc: false }),
        TokenKind::Symbol(Symbol::Star) => Some(BinaryInfo { op: BinaryKind::Binary(BinaryOperator::Multiply), precedence: 13, right_assoc: false }),
        TokenKind::Symbol(Symbol::Slash) => Some(BinaryInfo { op: BinaryKind::Binary(BinaryOperator::Divide), precedence: 13, right_assoc: false }),
        TokenKind::Symbol(Symbol::Percent) => Some(BinaryInfo { op: BinaryKind::Binary(BinaryOperator::Remainder), precedence: 13, right_assoc: false }),
        TokenKind::Symbol(Symbol::StarStar) => Some(BinaryInfo { op: BinaryKind::Binary(BinaryOperator::Exponentiation), precedence: 14, right_assoc: true }),
        _ => None,
    }
}

/// Look up the binary-operator information for a token kind, returning
/// `None` if the token is not a binary operator.
pub fn binary_info(kind: &TokenKind) -> (r: Option<BinaryInfo>)
    ensures
        r == spec_binary_info(*kind),
{
    match kind {
        TokenKind::Symbol(Symbol::QQ) => Some(BinaryInfo { op: BinaryKind::Logical(LogicalOperator::NullishCoalescing), precedence: 3, right_assoc: false }),
        TokenKind::Symbol(Symbol::PipePipe) => Some(BinaryInfo { op: BinaryKind::Logical(LogicalOperator::Or), precedence: 4, right_assoc: false }),
        TokenKind::Symbol(Symbol::AmpAmp) => Some(BinaryInfo { op: BinaryKind::Logical(LogicalOperator::And), precedence: 5, right_assoc: false }),
        TokenKind::Symbol(Symbol::Pipe) => Some(BinaryInfo { op: BinaryKind::Binary(BinaryOperator::BitwiseOr), precedence: 6, right_assoc: false }),
        TokenKind::Symbol(Symbol::Caret) => Some(BinaryInfo { op: BinaryKind::Binary(BinaryOperator::BitwiseXor), precedence: 7, right_assoc: false }),
        TokenKind::Symbol(Symbol::Amp) => Some(BinaryInfo { op: BinaryKind::Binary(BinaryOperator::BitwiseAnd), precedence: 8, right_assoc: false }),
        TokenKind::Symbol(Symbol::EqEq) => Some(BinaryInfo { op: BinaryKind::Binary(BinaryOperator::Equal), precedence: 9, right_assoc: false }),
        TokenKind::Symbol(Symbol::BangEq) => Some(BinaryInfo { op: BinaryKind::Binary(BinaryOperator::NotEqual), precedence: 9, right_assoc: false }),
        TokenKind::Symbol(Symbol::EqEqEq) => Some(BinaryInfo { op: BinaryKind::Binary(BinaryOperator::StrictEqual), precedence: 9, right_assoc: false }),
        TokenKind::Symbol(Symbol::BangEqEq) => Some(BinaryInfo { op: BinaryKind::Binary(BinaryOperator::StrictNotEqual), precedence: 9, right_assoc: false }),
        TokenKind::Symbol(Symbol::Lt) => Some(BinaryInfo { op: BinaryKind::Binary(BinaryOperator::LessThan), precedence: 10, right_assoc: false }),
        TokenKind::Symbol(Symbol::LtEq) => Some(BinaryInfo { op: BinaryKind::Binary(BinaryOperator::LessThanOrEqual), precedence: 10, right_assoc: false }),
        TokenKind::Symbol(Symbol::Gt) => Some(BinaryInfo { op: BinaryKind::Binary(BinaryOperator::GreaterThan), precedence: 10, right_assoc: false }),
        TokenKind::Symbol(Symbol::GtEq) => Some(BinaryInfo { op: BinaryKind::Binary(BinaryOperator::GreaterThanOrEqual), precedence: 10, right_assoc: false }),
        TokenKind::Symbol(Symbol::KwInstanceof) => Some(BinaryInfo { op: BinaryKind::Binary(BinaryOperator::InstanceOf), precedence: 10, right_assoc: false }),
        TokenKind::Symbol(Symbol::KwIn) => Some(BinaryInfo { op: BinaryKind::Binary(BinaryOperator::In), precedence: 10, right_assoc: false }),
        TokenKind::Symbol(Symbol::LtLt) => Some(BinaryInfo { op: BinaryKind::Binary(BinaryOperator::LeftShift), precedence: 11, right_assoc: false }),
        TokenKind::Symbol(Symbol::GtGt) => Some(BinaryInfo { op: BinaryKind::Binary(BinaryOperator::RightShift), precedence: 11, right_assoc: false }),
        TokenKind::Symbol(Symbol::GtGtGt) => Some(BinaryInfo { op: BinaryKind::Binary(BinaryOperator::UnsignedRightShift), precedence: 11, right_assoc: false }),
        TokenKind::Symbol(Symbol::Plus) => Some(BinaryInfo { op: BinaryKind::Binary(BinaryOperator::Add), precedence: 12, right_assoc: false }),
        TokenKind::Symbol(Symbol::Minus) => Some(BinaryInfo { op: BinaryKind::Binary(BinaryOperator::Subtract), precedence: 12, right_assoc: false }),
        TokenKind::Symbol(Symbol::Star) => Some(BinaryInfo { op: BinaryKind::Binary(BinaryOperator::Multiply), precedence: 13, right_assoc: false }),
        TokenKind::Symbol(Symbol::Slash) => Some(BinaryInfo { op: BinaryKind::Binary(BinaryOperator::Divide), precedence: 13, right_assoc: false }),
        TokenKind::Symbol(Symbol::Percent) => Some(BinaryInfo { op: BinaryKind::Binary(BinaryOperator::Remainder), precedence: 13, right_assoc: false }),
        TokenKind::Symbol(Symbol::StarStar) => Some(BinaryInfo { op: BinaryKind::Binary(BinaryOperator::Exponentiation), precedence: 14, right_assoc: true }),
        _ => None,
    }
}

/// The assignment-operator table.
pub open spec fn spec_assignment_operator(kind: TokenKind) -> Option<AssignmentOperator> {
    match kind {
        TokenKind::Symbol(Symbol::Eq) => Some(AssignmentOperator::Assign),
        TokenKind::Symbol(Symbol::PlusEq) => Some(AssignmentOperator::AddAssign),
        TokenKind::Symbol(Symbol::MinusEq) => Some(AssignmentOperator::SubtractAssign),
        TokenKind::Symbol(Symbol::StarEq) => Some(AssignmentOperator::MultiplyAssign),
        TokenKind::Symbol(Symbol::SlashEq) => Some(AssignmentOperator::DivideAssign),
        TokenKind::Symbol(Symbol::PercentEq) => Some(AssignmentOperator::RemainderAssign),
        TokenKind::Symbol(Symbol::StarStarEq) => Some(AssignmentOperator::ExponentiationAssign),
        TokenKind::Symbol(Symbol::LtLtEq) => Some(AssignmentOperator::LeftShiftAssign),
        TokenKind::Symbol(Symbol::GtGtEq) => Some(AssignmentOperator::RightShiftAssign),
        TokenKind::Symbol(Symbol::GtGtGtEq) => Some(AssignmentOperator::UnsignedRightShiftAssign),
        TokenKind::Symbol(Symbol::AmpEq) => Some(AssignmentOperator::BitwiseAndAssign),
        TokenKind::Symbol(Symbol::PipeEq) => Some(AssignmentOperator::BitwiseOrAssign),
        TokenKind::Symbol(Symbol::CaretEq) => Some(AssignmentOperator::BitwiseXorAssign),
        TokenKind::Symbol(Symbol::AmpAmpEq) => Some(AssignmentOperator::LogicalAndAssign),
        TokenKind::Symbol(Symbol::PipePipeEq) => Some(AssignmentOperator::LogicalOrAssign),
        TokenKind::Symbol(Symbol::QQEq) => Some(AssignmentOperator::NullishCoalescingAssign),
        _ => None,
    }
}

/// Look up the assignment operator for the token, returning `None` if not
/// an assignment.
pub fn assignment_operator(kind: &TokenKind) -> (r: Option<AssignmentOperator>)
    ensures
        r == spec_assignment_operator(*kind),
{
    match kind {
        TokenKind::Symbol(Symbol::Eq) => Some(AssignmentOperator::Assign),
        TokenKind::Symbol(Symbol::PlusEq) => Some(AssignmentOperator::AddAssign),
        TokenKind::Symbol(Symbol::MinusEq) => Some(AssignmentOperator::SubtractAssign),
        TokenKind::Symbol(Symbol::StarEq) => Some(AssignmentOperator::MultiplyAssign),
        TokenKind::Symbol(Symbol::SlashEq) => Some(AssignmentOperator::DivideAssign),
        TokenKind::Symbol(Symbol::PercentEq) => Some(AssignmentOperator::RemainderAssign),
        TokenKind::Symbol(Symbol::StarStarEq) => Some(AssignmentOperator::ExponentiationAssign),
        TokenKind::Symbol(Symbol::LtLtEq) => Some(AssignmentOperator::LeftShiftAssign),
        TokenKind::Symbol(Symbol::GtGtEq) => Some(AssignmentOperator::RightShiftAssign),
        TokenKind::Symbol(Symbol::GtGtGtEq) => Some(AssignmentOperator::UnsignedRightShiftAssign),
        TokenKind::Symbol(Symbol::AmpEq) => Some(AssignmentOperator::BitwiseAndAssign),
        TokenKind::Symbol(Symbol::PipeEq) => Some(AssignmentOperator::BitwiseOrAssign),
        TokenKind::Symbol(Symbol::CaretEq) => Some(AssignmentOperator::BitwiseXorAssign),
        TokenKind::Symbol(Symbol::AmpAmpEq) => Some(AssignmentOperator::LogicalAndAssign),
        TokenKind::Symbol(Symbol::PipePipeEq) => Some(AssignmentOperator::LogicalOrAssign),
        TokenKind::Symbol(Symbol::QQEq) => Some(AssignmentOperator::NullishCoalescingAssign),
        _ => None,
    }
}

} // verus!
