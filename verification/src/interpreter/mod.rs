//! The evaluator: statements run in order against an environment, and the
//! first runtime error ends the run.
//!
//! The four arithmetic operations on numbers and the decimal text of a
//! number are the caller's: `arith` is handed an operator, which is one of
//! `Add`, `Sub`, `Multiply` and `Divide`, and two bit patterns, and returns
//! the pattern of the result; `show` is handed a bit pattern and returns
//! its text.

pub mod env;
pub mod error;

use crate::expr::{
    lemma_stmt_views_index, stmt_views, BinaryOp, Expr, ExprView, Stmt, StmtView, UnaryOp,
};
use crate::interpreter::env::{
    assigned, declared, lemma_assigned_keeps_names, lemma_lookup_assigned, lemma_lookup_by_names,
    lookup, names_kept, popped, pushed, Env, ScopeView, VariableView,
};
use crate::interpreter::error::{
    addition_message, comparison_message, division_message, multiplication_message,
    substraction_message, unary_message, RuntimeError, RuntimeErrorView,
};
use crate::literal::{shows, text_of, value_eq, Literal, Value};
use crate::number;
use vstd::prelude::*;
use vstd::string::StringExecFns;

verus! {

/// The pattern that `arith` computes from an operator and two patterns.
pub open spec fn computed<A: Fn(BinaryOp, u64, u64) -> u64>(
    arith: A,
    op: BinaryOp,
    a: u64,
    b: u64,
) -> u64 {
    choose|r: u64| arith.ensures((op, a, b), r)
}

/// `arith` can serve as the arithmetic: it accepts every operator and pair
/// of patterns, and what it returns depends on them alone.
pub open spec fn computes<A: Fn(BinaryOp, u64, u64) -> u64>(arith: A) -> bool {
    &&& forall|op: BinaryOp, a: u64, b: u64| #[trigger] arith.requires((op, a, b))
    &&& forall|op: BinaryOp, a: u64, b: u64, r: u64| #[trigger]
        arith.ensures((op, a, b), r) ==> r == computed(arith, op, a, b)
}

/// The value that stands for a truth value.
pub open spec fn truth(b: bool) -> Value {
    if b {
        Value::True
    } else {
        Value::False
    }
}

/// What a prefix operator makes of a value: `!` flips a truth value, `-`
/// negates a number, and any other operand is refused.
pub open spec fn apply_unary(op: UnaryOp, right: Value) -> Result<Value, RuntimeErrorView> {
    match (op, right) {
        (UnaryOp::Not, Value::True) => Ok(Value::False),
        (UnaryOp::Not, Value::False) => Ok(Value::True),
        (UnaryOp::Neg, Value::Number(bits)) => Ok(Value::Number(number::negated(bits))),
        _ => Err(RuntimeErrorView::ForbiddenType(unary_message(op, right))),
    }
}

/// Whether two numbers stand in the order that `op` asks for.
pub open spec fn in_order(op: BinaryOp, a: u64, b: u64) -> bool {
    match op {
        BinaryOp::Greater => number::number_lt(b, a),
        BinaryOp::GreaterEqual => number::number_le(b, a),
        BinaryOp::Less => number::number_lt(a, b),
        _ => number::number_le(a, b),
    }
}

/// What an ordering operator makes of two values: a truth value for two
/// numbers, and a refusal otherwise.
pub open spec fn compared(op: BinaryOp, left: Value, right: Value) -> Result<
    Value,
    RuntimeErrorView,
> {
    match (left, right) {
        (Value::Number(a), Value::Number(b)) => Ok(truth(in_order(op, a, b))),
        _ => Err(RuntimeErrorView::TypeMismatch(comparison_message(left, right))),
    }
}

/// The message with which `op` refuses operands that are not both numbers.
pub open spec fn refusal(op: BinaryOp, left: Value, right: Value) -> Seq<char> {
    match op {
        BinaryOp::Sub => substraction_message(left, right),
        BinaryOp::Multiply => multiplication_message(left, right),
        _ => division_message(left, right),
    }
}

/// What `-`, `*` and `/` make of two values: what `arith` computes for two
/// numbers, and a refusal otherwise.
pub open spec fn calculated<A: Fn(BinaryOp, u64, u64) -> u64>(
    op: BinaryOp,
    left: Value,
    right: Value,
    arith: A,
) -> Result<Value, RuntimeErrorView> {
    match (left, right) {
        (Value::Number(a), Value::Number(b)) => Ok(Value::Number(computed(arith, op, a, b))),
        _ => Err(RuntimeErrorView::TypeMismatch(refusal(op, left, right))),
    }
}

/// What `+` makes of two values: the sum of two numbers, the concatenated
/// texts where either is a string, and a refusal otherwise.
pub open spec fn added<A: Fn(BinaryOp, u64, u64) -> u64, S: Fn(u64) -> String>(
    left: Value,
    right: Value,
    arith: A,
    show: S,
) -> Result<Value, RuntimeErrorView> {
    if left is Number && right is Number {
        Ok(Value::Number(computed(arith, BinaryOp::Add, left->Number_0, right->Number_0)))
    } else if left is Text || right is Text {
        Ok(Value::Text(text_of(left, show) + text_of(right, show)))
    } else {
        Err(RuntimeErrorView::TypeMismatch(addition_message(left, right)))
    }
}

/// What an infix operator makes of two values. Equality takes any two
/// values. A division of a number by either zero is refused as a division
/// by zero, before anything is computed.
pub open spec fn apply_binary<A: Fn(BinaryOp, u64, u64) -> u64, S: Fn(u64) -> String>(
    op: BinaryOp,
    left: Value,
    right: Value,
    arith: A,
    show: S,
) -> Result<Value, RuntimeErrorView> {
    match op {
        BinaryOp::Equal => Ok(truth(value_eq(left, right))),
        BinaryOp::NotEqual => Ok(truth(!value_eq(left, right))),
        BinaryOp::Greater | BinaryOp::GreaterEqual | BinaryOp::Less | BinaryOp::LessEqual => compared(
            op,
            left,
            right,
        ),
        BinaryOp::Add => added(left, right, arith, show),
        BinaryOp::Sub | BinaryOp::Multiply => calculated(op, left, right, arith),
        BinaryOp::Divide => if left is Number && right is Number && number::is_zero(
            right->Number_0,
        ) {
            Err(RuntimeErrorView::DivideByZero)
        } else {
            calculated(op, left, right, arith)
        },
    }
}

/// A value or the error that replaced it, and the scopes afterwards.
pub struct Evaluated {
    pub result: Result<Value, RuntimeErrorView>,
    pub env: Seq<ScopeView>,
}

/// What evaluating `e` in `env` yields. Operands are evaluated from left
/// to right, and the first error ends the evaluation.
pub open spec fn eval<A: Fn(BinaryOp, u64, u64) -> u64, S: Fn(u64) -> String>(
    e: ExprView,
    env: Seq<ScopeView>,
    arith: A,
    show: S,
) -> Evaluated
    decreases e,
{
    match e {
        ExprView::Literal(v) => Evaluated { result: Ok(v), env },
        ExprView::Group(inner) => eval(*inner, env, arith, show),
        ExprView::Var(name) => Evaluated {
            result: match lookup(env, name) {
                Some(var) => Ok(var.value),
                None => Err(RuntimeErrorView::UndeclaredVariable(name)),
            },
            env,
        },
        ExprView::Assign(name, value) => {
            let v = eval(*value, env, arith, show);
            match v.result {
                Err(_) => v,
                Ok(x) => match lookup(v.env, name) {
                    None => Evaluated {
                        result: Err(RuntimeErrorView::UndeclaredVariable(name)),
                        env: v.env,
                    },
                    Some(var) => if var.mutable {
                        Evaluated { result: Ok(x), env: assigned(v.env, name, x) }
                    } else {
                        Evaluated {
                            result: Err(RuntimeErrorView::AssignmentToImmutable(name)),
                            env: v.env,
                        }
                    },
                },
            }
        },
        ExprView::Unary(op, operand) => {
            let right = eval(*operand, env, arith, show);
            match right.result {
                Err(_) => right,
                Ok(x) => Evaluated { result: apply_unary(op, x), env: right.env },
            }
        },
        ExprView::Binary(l, op, r) => {
            let left = eval(*l, env, arith, show);
            match left.result {
                Err(_) => left,
                Ok(x) => {
                    let right = eval(*r, left.env, arith, show);
                    match right.result {
                        Err(_) => right,
                        Ok(y) => Evaluated {
                            result: apply_binary(op, x, y, arith, show),
                            env: right.env,
                        },
                    }
                },
            }
        },
    }
}

/// Whether a run went through, the scopes afterwards, and all the lines
/// printed so far.
pub struct Ran {
    pub result: Result<(), RuntimeErrorView>,
    pub env: Seq<ScopeView>,
    pub out: Seq<Seq<char>>,
}

/// What running the statement `s` in `env` does, `out` being the lines
/// printed before. A block runs in a scope of its own, which is left again
/// whether the block went through or not.
pub open spec fn run_stmt<A: Fn(BinaryOp, u64, u64) -> u64, S: Fn(u64) -> String>(
    s: StmtView,
    env: Seq<ScopeView>,
    out: Seq<Seq<char>>,
    arith: A,
    show: S,
) -> Ran
    decreases s, 0nat,
{
    match s {
        StmtView::Var { name, initializer, mutable } => {
            let v = eval(initializer, env, arith, show);
            match v.result {
                Ok(x) => Ran { result: Ok(()), env: declared(v.env, name, x, mutable), out },
                Err(e) => Ran { result: Err(e), env: v.env, out },
            }
        },
        StmtView::Expr(e) => {
            let v = eval(e, env, arith, show);
            match v.result {
                Ok(_) => Ran { result: Ok(()), env: v.env, out },
                Err(e) => Ran { result: Err(e), env: v.env, out },
            }
        },
        StmtView::Print(e) => {
            let v = eval(e, env, arith, show);
            match v.result {
                Ok(x) => Ran { result: Ok(()), env: v.env, out: out.push(text_of(x, show)) },
                Err(e) => Ran { result: Err(e), env: v.env, out },
            }
        },
        StmtView::Block(stmts) => {
            let inner = run_stmts(stmts, pushed(env), out, arith, show);
            Ran { result: inner.result, env: popped(inner.env), out: inner.out }
        },
    }
}

/// What running the statements `stmts` in order does. The first error ends
/// the run.
pub open spec fn run_stmts<A: Fn(BinaryOp, u64, u64) -> u64, S: Fn(u64) -> String>(
    stmts: Seq<StmtView>,
    env: Seq<ScopeView>,
    out: Seq<Seq<char>>,
    arith: A,
    show: S,
) -> Ran
    decreases stmts, 1nat,
{
    if stmts.len() == 0 {
        Ran { result: Ok(()), env, out }
    } else {
        let first = run_stmt(stmts[0], env, out, arith, show);
        match first.result {
            Err(_) => first,
            Ok(_) => run_stmts(stmts.drop_first(), first.env, first.out, arith, show),
        }
    }
}


/// An expression changes values only: in every scope the names stay the
/// same, and so does the number of scopes.
pub proof fn lemma_eval_keeps_names<A: Fn(BinaryOp, u64, u64) -> u64, S: Fn(u64) -> String>(
    e: ExprView,
    env: Seq<ScopeView>,
    arith: A,
    show: S,
)
    ensures
        names_kept(env, eval(e, env, arith, show).env, env.len() as int),
    decreases e,
{
    match e {
        ExprView::Literal(_) => {},
        ExprView::Var(_) => {},
        ExprView::Group(inner) => {
            lemma_eval_keeps_names(*inner, env, arith, show);
        },
        ExprView::Assign(name, value) => {
            lemma_eval_keeps_names(*value, env, arith, show);
            let v = eval(*value, env, arith, show);
            if v.result is Ok {
                lemma_assigned_keeps_names(v.env, name, v.result->Ok_0);
            }
        },
        ExprView::Unary(_, operand) => {
            lemma_eval_keeps_names(*operand, env, arith, show);
        },
        ExprView::Binary(l, _, r) => {
            lemma_eval_keeps_names(*l, env, arith, show);
            lemma_eval_keeps_names(*r, eval(*l, env, arith, show).env, arith, show);
        },
    }
}

/// A statement leaves every scope that it enters, whether it goes through
/// or fails, and declares in the innermost scope only: the number of scopes
/// is the same afterwards, and so are the names of all scopes but the
/// innermost.
pub proof fn lemma_run_stmt_keeps_names<A: Fn(BinaryOp, u64, u64) -> u64, S: Fn(u64) -> String>(
    s: StmtView,
    env: Seq<ScopeView>,
    out: Seq<Seq<char>>,
    arith: A,
    show: S,
)
    requires
        env.len() >= 1,
    ensures
        names_kept(env, run_stmt(s, env, out, arith, show).env, env.len() - 1),
    decreases s, 0nat,
{
    match s {
        StmtView::Var { name, initializer, mutable } => {
            lemma_eval_keeps_names(initializer, env, arith, show);
        },
        StmtView::Expr(e) => {
            lemma_eval_keeps_names(e, env, arith, show);
        },
        StmtView::Print(e) => {
            lemma_eval_keeps_names(e, env, arith, show);
        },
        StmtView::Block(stmts) => {
            lemma_block_keeps_names(stmts, env, out, arith, show);
        },
    }
}

/// A run of statements leaves every scope that it enters and declares in
/// the innermost scope only.
pub proof fn lemma_run_stmts_keeps_names<A: Fn(BinaryOp, u64, u64) -> u64, S: Fn(u64) -> String>(
    stmts: Seq<StmtView>,
    env: Seq<ScopeView>,
    out: Seq<Seq<char>>,
    arith: A,
    show: S,
)
    requires
        env.len() >= 1,
    ensures
        names_kept(env, run_stmts(stmts, env, out, arith, show).env, env.len() - 1),
    decreases stmts, 1nat,
{
    if stmts.len() > 0 {
        lemma_run_stmt_keeps_names(stmts[0], env, out, arith, show);
        let first = run_stmt(stmts[0], env, out, arith, show);
        if first.result is Ok {
            lemma_run_stmts_keeps_names(stmts.drop_first(), first.env, first.out, arith, show);
        }
    }
}

/// A block declares nothing outside itself: after it, whether it went
/// through or failed, every scope has the names it had before.
pub proof fn lemma_block_keeps_names<A: Fn(BinaryOp, u64, u64) -> u64, S: Fn(u64) -> String>(
    stmts: Seq<StmtView>,
    env: Seq<ScopeView>,
    out: Seq<Seq<char>>,
    arith: A,
    show: S,
)
    requires
        env.len() >= 1,
    ensures
        names_kept(
            env,
            run_stmt(StmtView::Block(stmts), env, out, arith, show).env,
            env.len() as int,
        ),
    decreases stmts, 2nat,
{
    lemma_run_stmts_keeps_names(stmts, pushed(env), out, arith, show);
    let inner = run_stmts(stmts, pushed(env), out, arith, show);
    let after = popped(inner.env);
    assert forall|i: int| 0 <= i < env.len() implies (#[trigger] after[i]).dom() == env[i].dom() by {
        assert(after[i] == inner.env[i]);
        assert(pushed(env)[i] == env[i]);
    }
}

/// The scope of a block is popped on exit: a name that is undeclared
/// before a block is undeclared after it, whatever the block declared and
/// whether it went through or failed.
pub proof fn lemma_block_scope_is_popped<A: Fn(BinaryOp, u64, u64) -> u64, S: Fn(u64) -> String>(
    stmts: Seq<StmtView>,
    env: Seq<ScopeView>,
    out: Seq<Seq<char>>,
    arith: A,
    show: S,
    name: Seq<char>,
)
    requires
        env.len() >= 1,
        lookup(env, name) is None,
    ensures
        lookup(run_stmt(StmtView::Block(stmts), env, out, arith, show).env, name) is None,
{
    lemma_block_keeps_names(stmts, env, out, arith, show);
    lemma_lookup_by_names(
        env,
        run_stmt(StmtView::Block(stmts), env, out, arith, show).env,
        name,
    );
}

/// Equality is reflexive: where evaluating `e` yields a value that is not
/// a NaN and leaves the scopes as they are, `e == e` is true.
pub proof fn lemma_equality_is_reflexive<A: Fn(BinaryOp, u64, u64) -> u64, S: Fn(u64) -> String>(
    e: ExprView,
    env: Seq<ScopeView>,
    arith: A,
    show: S,
)
    requires
        eval(e, env, arith, show).env == env,
        eval(e, env, arith, show).result matches Ok(v) && !(v matches Value::Number(bits)
            && number::is_nan(bits)),
    ensures
        eval(
            ExprView::Binary(Box::new(e), BinaryOp::Equal, Box::new(e)),
            env,
            arith,
            show,
        ) == (Evaluated { result: Ok(Value::True), env }),
{
}

/// A chained assignment `a = b = v` to two mutable variables assigns the
/// value to both, to `b` first, and yields the value.
pub proof fn lemma_chained_assignment<A: Fn(BinaryOp, u64, u64) -> u64, S: Fn(u64) -> String>(
    env: Seq<ScopeView>,
    a: Seq<char>,
    b: Seq<char>,
    v: Value,
    arith: A,
    show: S,
)
    requires
        lookup(env, a) matches Some(var) && var.mutable,
        lookup(env, b) matches Some(var) && var.mutable,
    ensures
        ({
            let chain = ExprView::Assign(
                a,
                Box::new(ExprView::Assign(b, Box::new(ExprView::Literal(v)))),
            );
            let after = eval(chain, env, arith, show);
            &&& after.result == Ok::<Value, RuntimeErrorView>(v)
            &&& after.env == assigned(assigned(env, b, v), a, v)
            &&& lookup(after.env, a) == Some(VariableView { value: v, mutable: true })
            &&& lookup(after.env, b) == Some(VariableView { value: v, mutable: true })
        }),
{
    let first = assigned(env, b, v);
    lemma_lookup_assigned(env, b, v, a);
    lemma_lookup_assigned(env, b, v, b);
    lemma_lookup_assigned(first, a, v, a);
    lemma_lookup_assigned(first, a, v, b);
    let inner = ExprView::Assign(b, Box::new(ExprView::Literal(v)));
    assert(eval(ExprView::Literal(v), env, arith, show) == (Evaluated { result: Ok(v), env }));
    assert(eval(inner, env, arith, show) == (Evaluated { result: Ok(v), env: first }));
}

/// The model of the outcome of an evaluation.
pub open spec fn value_result_view(r: Result<Literal, RuntimeError>) -> Result<
    Value,
    RuntimeErrorView,
> {
    match r {
        Ok(v) => Ok(v@),
        Err(e) => Err(e@),
    }
}

/// The model of the outcome of a run.
pub open spec fn unit_result_view(r: Result<(), RuntimeError>) -> Result<(), RuntimeErrorView> {
    match r {
        Ok(_) => Ok(()),
        Err(e) => Err(e@),
    }
}

/// The printed lines as texts.
pub open spec fn lines(out: Seq<String>) -> Seq<Seq<char>> {
    out.map_values(|line: String| line@)
}

/// The value that stands for a truth value.
fn truth_of(b: bool) -> (r: Literal)
    ensures
        r@ == truth(b),
{
    if b {
        Literal::True
    } else {
        Literal::False
    }
}

/// A session: the environment that its statements run against.
pub struct Interpreter {
    env: Env,
}

impl Interpreter {
    /// The scopes of the session's environment.
    pub closed spec fn scopes(&self) -> Seq<ScopeView> {
        self.env@
    }

    /// There is always a global scope.
    pub open spec fn wf(&self) -> bool {
        self.scopes().len() >= 1
    }

    /// A session with an empty global scope.
    pub fn new() -> (r: Self)
        ensures
            r.wf(),
            r.scopes() == seq![Map::<Seq<char>, VariableView>::empty()],
    {
        Self { env: Env::new() }
    }

    /// The session's environment.
    pub fn env(&self) -> (r: &Env)
        ensures
            r@ == self.scopes(),
    {
        &self.env
    }

    /// Runs the statements in order against the session's environment and
    /// appends what they print to `out`. The first runtime error ends the
    /// run and is returned.
    pub fn evaluate<A: Fn(BinaryOp, u64, u64) -> u64, S: Fn(u64) -> String>(
        &mut self,
        ast: Vec<Stmt>,
        arith: &A,
        show: &S,
        out: &mut Vec<String>,
    ) -> (r: Result<(), RuntimeError>)
        requires
            old(self).wf(),
            computes(*arith),
            shows(*show),
        ensures
            final(self).wf(),
            final(self).scopes().len() == old(self).scopes().len(),
            final(self).scopes() == run_stmts(
                stmt_views(ast@),
                old(self).scopes(),
                lines(old(out)@),
                *arith,
                *show,
            ).env,
            lines(final(out)@) == run_stmts(
                stmt_views(ast@),
                old(self).scopes(),
                lines(old(out)@),
                *arith,
                *show,
            ).out,
            unit_result_view(r) == run_stmts(
                stmt_views(ast@),
                old(self).scopes(),
                lines(old(out)@),
                *arith,
                *show,
            ).result,
    {
        Self::statements(&mut self.env, &ast, arith, show, out)
    }

    /// Runs statements in order.
    pub(crate) fn statements<A: Fn(BinaryOp, u64, u64) -> u64, S: Fn(u64) -> String>(
        env: &mut Env,
        stmts: &Vec<Stmt>,
        arith: &A,
        show: &S,
        out: &mut Vec<String>,
    ) -> (r: Result<(), RuntimeError>)
        requires
            old(env).wf(),
            computes(*arith),
            shows(*show),
        ensures
            final(env)@.len() == old(env)@.len(),
            final(env)@ == run_stmts(
                stmt_views(stmts@),
                old(env)@,
                lines(old(out)@),
                *arith,
                *show,
            ).env,
            lines(final(out)@) == run_stmts(
                stmt_views(stmts@),
                old(env)@,
                lines(old(out)@),
                *arith,
                *show,
            ).out,
            unit_result_view(r) == run_stmts(
                stmt_views(stmts@),
                old(env)@,
                lines(old(out)@),
                *arith,
                *show,
            ).result,
        decreases stmts,
    {
        let ghost all = stmt_views(stmts@);
        let mut i: usize = 0;
        proof {
            crate::expr::lemma_stmt_views_len(stmts@);
            assert(all.skip(0) == all);
        }
        while i < stmts.len()
            invariant
                i <= stmts.len(),
                all == stmt_views(stmts@),
                all.len() == stmts.len(),
                env.wf(),
                env@.len() == old(env)@.len(),
                computes(*arith),
                shows(*show),
                run_stmts(all.skip(i as int), env@, lines(out@), *arith, *show) == run_stmts(
                    all,
                    old(env)@,
                    lines(old(out)@),
                    *arith,
                    *show,
                ),
            decreases stmts.len() - i,
        {
            proof {
                lemma_stmt_views_index(stmts@, i as int);
                assert(all.skip(i as int)[0] == stmts@[i as int]@);
                assert(all.skip(i as int).drop_first() == all.skip(i + 1));
            }
            match Self::statement(env, &stmts[i], arith, show, out) {
                Ok(_) => {},
                Err(e) => {
                    return Err(e);
                },
            }
            i += 1;
        }
        Ok(())
    }

    /// Runs one statement.
    fn statement<A: Fn(BinaryOp, u64, u64) -> u64, S: Fn(u64) -> String>(
        env: &mut Env,
        stmt: &Stmt,
        arith: &A,
        show: &S,
        out: &mut Vec<String>,
    ) -> (r: Result<(), RuntimeError>)
        requires
            old(env).wf(),
            computes(*arith),
            shows(*show),
        ensures
            final(env)@.len() == old(env)@.len(),
            final(env)@ == run_stmt(stmt@, old(env)@, lines(old(out)@), *arith, *show).env,
            lines(final(out)@) == run_stmt(stmt@, old(env)@, lines(old(out)@), *arith, *show).out,
            unit_result_view(r) == run_stmt(
                stmt@,
                old(env)@,
                lines(old(out)@),
                *arith,
                *show,
            ).result,
        decreases stmt,
    {
        match stmt {
            Stmt::Var { name, initializer, mutable } => {
                let value = match Self::expr(env, initializer, arith, show) {
                    Ok(v) => v,
                    Err(e) => {
                        return Err(e);
                    },
                };
                env.declare(name.clone(), value, *mutable);
                Ok(())
            },
            Stmt::Expr(e) => {
                match Self::expr(env, e, arith, show) {
                    Ok(_) => Ok(()),
                    Err(e) => Err(e),
                }
            },
            Stmt::Print(e) => {
                let value = match Self::expr(env, e, arith, show) {
                    Ok(v) => v,
                    Err(e) => {
                        return Err(e);
                    },
                };
                let line = value.to_text(show);
                proof {
                    assert(lines(out@.push(line)) =~= lines(out@).push(line@));
                }
                out.push(line);
                Ok(())
            },
            Stmt::Block(stmts) => {
                env.push_scope();
                let r = Self::statements(env, stmts, arith, show, out);
                env.pop_scope();
                r
            },
        }
    }

    /// Evaluates an expression.
    fn expr<A: Fn(BinaryOp, u64, u64) -> u64, S: Fn(u64) -> String>(
        env: &mut Env,
        expr: &Expr,
        arith: &A,
        show: &S,
    ) -> (r: Result<Literal, RuntimeError>)
        requires
            old(env).wf(),
            computes(*arith),
            shows(*show),
        ensures
            final(env)@.len() == old(env)@.len(),
            final(env)@ == eval(expr@, old(env)@, *arith, *show).env,
            value_result_view(r) == eval(expr@, old(env)@, *arith, *show).result,
        decreases expr,
    {
        match expr {
            Expr::Var(name) => match env.get(name.as_str()) {
                Ok(value) => Ok(value.clone()),
                Err(e) => Err(e),
            },
            Expr::Assign(name, value) => {
                let value = match Self::expr(env, value, arith, show) {
                    Ok(v) => v,
                    Err(e) => {
                        return Err(e);
                    },
                };
                match env.set(name.as_str(), value.clone()) {
                    Ok(_) => Ok(value),
                    Err(e) => Err(e),
                }
            },
            Expr::Literal(literal) => Ok(literal.clone()),
            Expr::Group(inner) => Self::expr(env, inner, arith, show),
            Expr::Unary(op, operand) => {
                let right = match Self::expr(env, operand, arith, show) {
                    Ok(v) => v,
                    Err(e) => {
                        return Err(e);
                    },
                };
                Self::unary(*op, right)
            },
            Expr::Binary(expr_l, op, expr_r) => {
                let left = match Self::expr(env, expr_l, arith, show) {
                    Ok(v) => v,
                    Err(e) => {
                        return Err(e);
                    },
                };
                let right = match Self::expr(env, expr_r, arith, show) {
                    Ok(v) => v,
                    Err(e) => {
                        return Err(e);
                    },
                };
                Self::binary(left, *op, right, arith, show)
            },
        }
    }

    /// Applies a prefix operator to a value.
    pub fn unary(op: UnaryOp, right: Literal) -> (r: Result<Literal, RuntimeError>)
        ensures
            value_result_view(r) == apply_unary(op, right@),
    {
        match (op, right) {
            (UnaryOp::Not, Literal::True) => Ok(Literal::False),
            (UnaryOp::Not, Literal::False) => Ok(Literal::True),
            (UnaryOp::Neg, Literal::Number(bits)) => Ok(Literal::Number(number::negate(bits))),
            (op, literal) => RuntimeError::unary(op, literal),
        }
    }

    /// Applies an infix operator to two values.
    pub fn binary<A: Fn(BinaryOp, u64, u64) -> u64, S: Fn(u64) -> String>(
        left: Literal,
        op: BinaryOp,
        right: Literal,
        arith: &A,
        show: &S,
    ) -> (r: Result<Literal, RuntimeError>)
        requires
            computes(*arith),
            shows(*show),
        ensures
            value_result_view(r) == apply_binary(op, left@, right@, *arith, *show),
    {
        match op {
            BinaryOp::Equal => Ok(truth_of(left == right)),
            BinaryOp::NotEqual => Ok(truth_of(left != right)),
            BinaryOp::Greater => Self::comparison(left, right, op),
            BinaryOp::GreaterEqual => Self::comparison(left, right, op),
            BinaryOp::Less => Self::comparison(left, right, op),
            BinaryOp::LessEqual => Self::comparison(left, right, op),
            BinaryOp::Add => match (&left, &right) {
                (Literal::Number(l), Literal::Number(r)) => Ok(
                    Literal::Number(arith(BinaryOp::Add, *l, *r)),
                ),
                (Literal::String(_), _) => {
                    let mut value = left.to_text(show);
                    value.append(right.to_text(show).as_str());
                    Ok(Literal::String(value))
                },
                (_, Literal::String(_)) => {
                    let mut value = left.to_text(show);
                    value.append(right.to_text(show).as_str());
                    Ok(Literal::String(value))
                },
                _ => RuntimeError::addition(left, right),
            },
            BinaryOp::Sub => Self::algebraic(left, right, op, arith),
            BinaryOp::Multiply => Self::algebraic(left, right, op, arith),
            BinaryOp::Divide => {
                let by_zero = match (&left, &right) {
                    (Literal::Number(_), Literal::Number(r)) => number::zero(*r),
                    _ => false,
                };
                if by_zero {
                    Err(RuntimeError::DivideByZero)
                } else {
                    Self::algebraic(left, right, op, arith)
                }
            },
        }
    }

    /// Applies an ordering operator to two values.
    pub fn comparison(left: Literal, right: Literal, op: BinaryOp) -> (r: Result<
        Literal,
        RuntimeError,
    >)
        ensures
            value_result_view(r) == compared(op, left@, right@),
    {
        match (&left, &right) {
            (Literal::Number(l), Literal::Number(r)) => Ok(
                truth_of(
                    match op {
                        BinaryOp::Greater => number::less(*r, *l),
                        BinaryOp::GreaterEqual => number::less_equal(*r, *l),
                        BinaryOp::Less => number::less(*l, *r),
                        _ => number::less_equal(*l, *r),
                    },
                ),
            ),
            _ => RuntimeError::comparison(left, right),
        }
    }

    /// Applies `-`, `*` or `/` to two values.
    pub fn algebraic<A: Fn(BinaryOp, u64, u64) -> u64>(
        left: Literal,
        right: Literal,
        op: BinaryOp,
        arith: &A,
    ) -> (r: Result<Literal, RuntimeError>)
        requires
            computes(*arith),
        ensures
            value_result_view(r) == calculated(op, left@, right@, *arith),
    {
        match (&left, &right) {
            (Literal::Number(l), Literal::Number(r)) => Ok(Literal::Number(arith(op, *l, *r))),
            _ => match op {
                BinaryOp::Sub => RuntimeError::substraction(left, right),
                BinaryOp::Multiply => RuntimeError::multiplication(left, right),
                _ => RuntimeError::division(left, right),
            },
        }
    }
}


/// Runs the statements in order against `env` and appends what they print
/// to `out`. The first runtime error ends the run and is returned; what ran
/// before it stays done. The number of scopes is the same afterwards.
pub fn run<A: Fn(BinaryOp, u64, u64) -> u64, S: Fn(u64) -> String>(
    stmts: &Vec<Stmt>,
    env: &mut Env,
    arith: &A,
    show: &S,
    out: &mut Vec<String>,
) -> (r: Result<(), RuntimeError>)
    requires
        old(env).wf(),
        computes(*arith),
        shows(*show),
    ensures
        final(env)@.len() == old(env)@.len(),
        final(env)@ == run_stmts(
            stmt_views(stmts@),
            old(env)@,
            lines(old(out)@),
            *arith,
            *show,
        ).env,
        lines(final(out)@) == run_stmts(
            stmt_views(stmts@),
            old(env)@,
            lines(old(out)@),
            *arith,
            *show,
        ).out,
        unit_result_view(r) == run_stmts(
            stmt_views(stmts@),
            old(env)@,
            lines(old(out)@),
            *arith,
            *show,
        ).result,
{
    Interpreter::statements(env, stmts, arith, show, out)
}

} // verus!
