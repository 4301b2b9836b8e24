//! Runtime errors.

use crate::expr::UnaryOp;
use crate::literal::{kind_name, Literal, Value};
use vstd::prelude::*;
use vstd::string::StringExecFns;

verus! {

/// Why evaluation stopped.
#[derive(Debug)]
pub enum RuntimeError {
    /// An operand of a kind that the operator does not take.
    ForbiddenType(String),
    /// Two operands whose kinds the operator does not take together.
    TypeMismatch(String),
    /// A division by zero.
    DivideByZero,
    /// A variable that no scope declares.
    UndeclaredVariable(String),
    /// An assignment to a variable that was declared immutable.
    AssignmentToImmutable(String),
}

/// The mathematical model of a [`RuntimeError`].
pub enum RuntimeErrorView {
    ForbiddenType(Seq<char>),
    TypeMismatch(Seq<char>),
    DivideByZero,
    UndeclaredVariable(Seq<char>),
    AssignmentToImmutable(Seq<char>),
}

impl View for RuntimeError {
    type V = RuntimeErrorView;

    open spec fn view(&self) -> RuntimeErrorView {
        match self {
            RuntimeError::ForbiddenType(msg) => RuntimeErrorView::ForbiddenType(msg@),
            RuntimeError::TypeMismatch(msg) => RuntimeErrorView::TypeMismatch(msg@),
            RuntimeError::DivideByZero => RuntimeErrorView::DivideByZero,
            RuntimeError::UndeclaredVariable(name) => RuntimeErrorView::UndeclaredVariable(name@),
            RuntimeError::AssignmentToImmutable(name) => RuntimeErrorView::AssignmentToImmutable(
                name@,
            ),
        }
    }
}

/// How a prefix operator is spelled.
pub open spec fn unary_symbol(op: UnaryOp) -> Seq<char> {
    match op {
        UnaryOp::Neg => "-"@,
        UnaryOp::Not => "!"@,
    }
}

/// `head`, the kind of `first`, `middle`, the kind of `second`, and a
/// closing backquote.
pub open spec fn about_two(head: Seq<char>, first: Value, middle: Seq<char>, second: Value) -> Seq<
    char,
> {
    head + kind_name(first) + middle + kind_name(second) + "`"@
}

/// The message for a prefix operator on an operand that it does not take.
pub open spec fn unary_message(op: UnaryOp, right: Value) -> Seq<char> {
    "Cannot apply unary operator `"@ + unary_symbol(op) + "` to `"@ + kind_name(right) + "`"@
}

/// The message for an ordering of values that are not both numbers.
pub open spec fn comparison_message(left: Value, right: Value) -> Seq<char> {
    about_two("Cannot compare `"@, left, "` with `"@, right)
}

/// The message for a sum that is neither of numbers nor with a string.
pub open spec fn addition_message(left: Value, right: Value) -> Seq<char> {
    about_two("Cannot add `"@, left, "` to `"@, right)
}

/// The message for a difference of values that are not both numbers.
pub open spec fn substraction_message(left: Value, right: Value) -> Seq<char> {
    about_two("Cannot substract `"@, right, "` from `"@, left)
}

/// The message for a product of values that are not both numbers.
pub open spec fn multiplication_message(left: Value, right: Value) -> Seq<char> {
    about_two("Cannot multiply `"@, left, "` by `"@, right)
}

/// The message for a quotient of values that are not both numbers.
pub open spec fn division_message(left: Value, right: Value) -> Seq<char> {
    about_two("Cannot divide `"@, left, "` by `"@, right)
}

/// Builds a message about the kinds of two values.
fn two_kinds(head: &str, first: &Literal, middle: &str, second: &Literal) -> (r: String)
    ensures
        r@ == about_two(head@, first@, middle@, second@),
{
    let mut msg = head.to_owned();
    msg.append(first.to_type_string().as_str());
    msg.append(middle);
    msg.append(second.to_type_string().as_str());
    msg.append("`");
    msg
}

impl RuntimeError {
    /// The error of a prefix operator on an operand that it does not take.
    pub fn unary<T>(op: UnaryOp, right: Literal) -> (r: Result<T, Self>)
        ensures
            r matches Err(e) && e@ == RuntimeErrorView::ForbiddenType(unary_message(op, right@)),
    {
        let mut msg = "Cannot apply unary operator `".to_owned();
        msg.append(
            match op {
                UnaryOp::Neg => "-",
                UnaryOp::Not => "!",
            },
        );
        msg.append("` to `");
        msg.append(right.to_type_string().as_str());
        msg.append("`");
        Err(Self::ForbiddenType(msg))
    }

    /// The error of an ordering of values that are not both numbers.
    pub fn comparison<T>(left: Literal, right: Literal) -> (r: Result<T, Self>)
        ensures
            r matches Err(e) && e@ == RuntimeErrorView::TypeMismatch(
                comparison_message(left@, right@),
            ),
    {
        Err(Self::TypeMismatch(two_kinds("Cannot compare `", &left, "` with `", &right)))
    }

    /// The error of a sum that is neither of numbers nor with a string.
    pub fn addition<T>(left: Literal, right: Literal) -> (r: Result<T, Self>)
        ensures
            r matches Err(e) && e@ == RuntimeErrorView::TypeMismatch(
                addition_message(left@, right@),
            ),
    {
        Err(Self::TypeMismatch(two_kinds("Cannot add `", &left, "` to `", &right)))
    }

    /// The error of a difference of values that are not both numbers.
    pub fn substraction<T>(left: Literal, right: Literal) -> (r: Result<T, Self>)
        ensures
            r matches Err(e) && e@ == RuntimeErrorView::TypeMismatch(
                substraction_message(left@, right@),
            ),
    {
        Err(Self::TypeMismatch(two_kinds("Cannot substract `", &right, "` from `", &left)))
    }

    /// The error of a product of values that are not both numbers.
    pub fn multiplication<T>(left: Literal, right: Literal) -> (r: Result<T, Self>)
        ensures
            r matches Err(e) && e@ == RuntimeErrorView::TypeMismatch(
                multiplication_message(left@, right@),
            ),
    {
        Err(Self::TypeMismatch(two_kinds("Cannot multiply `", &left, "` by `", &right)))
    }

    /// The error of a quotient of values that are not both numbers.
    pub fn division<T>(left: Literal, right: Literal) -> (r: Result<T, Self>)
        ensures
            r matches Err(e) && e@ == RuntimeErrorView::TypeMismatch(
                division_message(left@, right@),
            ),
    {
        Err(Self::TypeMismatch(two_kinds("Cannot divide `", &left, "` by `", &right)))
    }

    /// The error of a name that no scope declares.
    pub fn undeclared_var<T>(name: &str) -> (r: Result<T, Self>)
        ensures
            r matches Err(e) && e@ == RuntimeErrorView::UndeclaredVariable(name@),
    {
        Err(Self::UndeclaredVariable(name.to_owned()))
    }

    /// The error of an assignment to the immutable variable `name`.
    pub fn assignment<T>(name: &str) -> (r: Result<T, Self>)
        ensures
            r matches Err(e) && e@ == RuntimeErrorView::AssignmentToImmutable(name@),
    {
        Err(Self::AssignmentToImmutable(name.to_owned()))
    }
}

} // verus!
