//! A visitor over the syntax tree: a pass implements `Visitor` for the nodes
//! it cares about and calls `walk_stmt` / `walk_expr` for the default
//! structural recursion into a node's children.
use vstd::prelude::*;

use crate::ast::{Expr, ExprNode, Stmt};

verus! {

/// A pass over the syntax tree.
pub trait Visitor: Sized {
    /// The pass may go from state `self` to state `next` by visiting `s`.
    /// A pass states this to learn what a walk did to it; by default
    /// nothing is stated.
    open spec fn visits_stmt(&self, s: Stmt, next: Self) -> bool {
        true
    }

    /// The pass may go from state `self` to state `next` by visiting `e`.
    /// By default nothing is stated.
    open spec fn visits_expr(&self, e: ExprNode, next: Self) -> bool {
        true
    }

    fn visit_stmt(&mut self, s: &Stmt)
        ensures
            old(self).visits_stmt(*s, *final(self)),
    ;

    fn visit_expr(&mut self, e: &ExprNode)
        ensures
            old(self).visits_expr(*e, *final(self)),
    ;
}

/// A node handed to a visitor.
pub ghost enum Visit {
    Stmt(Stmt),
    Expr(ExprNode),
}

/// `v` may reach `w` by visiting the node `n`.
pub open spec fn visits<V: Visitor>(v: V, n: Visit, w: V) -> bool {
    match n {
        Visit::Stmt(s) => v.visits_stmt(s, w),
        Visit::Expr(e) => v.visits_expr(e, w),
    }
}

/// `v` may reach `w` by visiting the nodes `ns`, in order.
pub open spec fn visits_all<V: Visitor>(v: V, ns: Seq<Visit>, w: V) -> bool
    decreases ns.len(),
{
    if ns.len() == 0 {
        v == w
    } else {
        exists|m: V| #[trigger] visits(v, ns[0], m) && visits_all(m, ns.drop_first(), w)
    }
}

/// Statements as visits.
pub open spec fn stmt_visits(ss: Seq<Stmt>) -> Seq<Visit> {
    ss.map_values(|s: Stmt| Visit::Stmt(s))
}

/// Expressions as visits.
pub open spec fn expr_visits(es: Seq<ExprNode>) -> Seq<Visit> {
    es.map_values(|e: ExprNode| Visit::Expr(e))
}

/// The children of a statement that the default walk visits, in order. A
/// `for` loop is not walked.
pub open spec fn stmt_children(s: Stmt) -> Seq<Visit> {
    match s {
        Stmt::Block(stmts) => stmt_visits(stmts@),
        Stmt::While(test, body) => seq![Visit::Expr(test), Visit::Stmt(*body)],
        Stmt::If(test, body, alt) => seq![
            Visit::Expr(test),
            Visit::Stmt(*body),
            Visit::Stmt(*alt),
        ],
        Stmt::Return(value) => match value {
            Some(e) => seq![Visit::Expr(e)],
            None => Seq::empty(),
        },
        Stmt::Declaration(_, rhs) => seq![Visit::Expr(rhs)],
        Stmt::FunDecl(_, params, _, body) => expr_visits(params@).push(Visit::Stmt(*body)),
        Stmt::Assignment(lhs, rhs) => seq![Visit::Expr(lhs), Visit::Expr(rhs)],
        Stmt::For(_, _, _, _) => Seq::empty(),
    }
}

/// The children of an expression that the default walk visits, in order.
/// Call arguments are not walked.
pub open spec fn expr_children(e: ExprNode) -> Seq<Visit> {
    match *e.expr {
        Expr::BinaryOp(lhs, _, rhs) => seq![Visit::Expr(lhs), Visit::Expr(rhs)],
        Expr::UnaryOp(_, rhs) => seq![Visit::Expr(rhs)],
        _ => Seq::empty(),
    }
}

/// Visiting one more node extends a sequence of visits.
proof fn lemma_visits_push<V: Visitor>(a: V, ns: Seq<Visit>, b: V, n: Visit, c: V)
    requires
        visits_all(a, ns, b),
        visits(b, n, c),
    ensures
        visits_all(a, ns.push(n), c),
    decreases ns.len(),
{
    if ns.len() == 0 {
        assert(ns.push(n).drop_first() =~= Seq::<Visit>::empty());
        assert(visits_all(c, ns.push(n).drop_first(), c));
        assert(visits(a, ns.push(n)[0], c));
    } else {
        let m = choose|m: V| #[trigger] visits(a, ns[0], m) && visits_all(m, ns.drop_first(), b);
        lemma_visits_push(m, ns.drop_first(), b, n, c);
        assert(ns.push(n).drop_first() =~= ns.drop_first().push(n));
        assert(visits_all(m, ns.push(n).drop_first(), c));
        assert(visits(a, ns.push(n)[0], m));
    }
}

/// Visits the children of `s` in order: each statement of a block; the
/// condition and body of a `while`; the condition and both branches of an
/// `if`; the value of a `return`, if any; the initial value of a declaration;
/// the parameters and then the body of a function declaration; the target and
/// then the value of an assignment. A `for` loop is not walked.
pub fn walk_stmt<V: Visitor>(v: &mut V, s: &Stmt)
    ensures
        visits_all(*old(v), stmt_children(*s), *final(v)),
{
    let ghost start = *v;
    let ghost mut done: Seq<Visit> = Seq::empty();
    match s {
        Stmt::Block(stmts) => {
            walk_stmts(v, stmts);
            proof {
                done = stmt_visits(stmts@);
            }
        },
        Stmt::While(test, body) => {
            let ghost before = *v;
            v.visit_expr(test);
            proof {
                lemma_visits_push(start, done, before, Visit::Expr(*test), *v);
                done = done.push(Visit::Expr(*test));
            }
            let ghost before = *v;
            v.visit_stmt(&**body);
            proof {
                lemma_visits_push(start, done, before, Visit::Stmt(**body), *v);
                done = done.push(Visit::Stmt(**body));
            }
        },
        Stmt::If(test, body, alt) => {
            let ghost before = *v;
            v.visit_expr(test);
            proof {
                lemma_visits_push(start, done, before, Visit::Expr(*test), *v);
                done = done.push(Visit::Expr(*test));
            }
            let ghost before = *v;
            v.visit_stmt(&**body);
            proof {
                lemma_visits_push(start, done, before, Visit::Stmt(**body), *v);
                done = done.push(Visit::Stmt(**body));
            }
            let ghost before = *v;
            v.visit_stmt(&**alt);
            proof {
                lemma_visits_push(start, done, before, Visit::Stmt(**alt), *v);
                done = done.push(Visit::Stmt(**alt));
            }
        },
        Stmt::Return(value) => {
            if let Some(value) = value {
            let ghost before = *v;
            v.visit_expr(value);
            proof {
                lemma_visits_push(start, done, before, Visit::Expr(*value), *v);
                done = done.push(Visit::Expr(*value));
            }
            }
        },
        Stmt::Declaration(_, rhs) => {
            let ghost before = *v;
            v.visit_expr(rhs);
            proof {
                lemma_visits_push(start, done, before, Visit::Expr(*rhs), *v);
                done = done.push(Visit::Expr(*rhs));
            }
        },
        Stmt::FunDecl(_, params, _, body) => {
            walk_exprs(v, params);
            proof {
                done = expr_visits(params@);
            }
            let ghost before = *v;
            v.visit_stmt(&**body);
            proof {
                lemma_visits_push(start, done, before, Visit::Stmt(**body), *v);
                done = done.push(Visit::Stmt(**body));
            }
        },
        Stmt::Assignment(lhs, rhs) => {
            let ghost before = *v;
            v.visit_expr(lhs);
            proof {
                lemma_visits_push(start, done, before, Visit::Expr(*lhs), *v);
                done = done.push(Visit::Expr(*lhs));
            }
            let ghost before = *v;
            v.visit_expr(rhs);
            proof {
                lemma_visits_push(start, done, before, Visit::Expr(*rhs), *v);
                done = done.push(Visit::Expr(*rhs));
            }
        },
        Stmt::For(_, _, _, _) => {},
    }
    assert(done =~= stmt_children(*s));
}

/// Visits the operands of `e` in order: both sides of a binary operation, the
/// operand of a unary one. Identifiers, literals and calls have no children
/// that are walked.
pub fn walk_expr<V: Visitor>(v: &mut V, e: &ExprNode)
    ensures
        visits_all(*old(v), expr_children(*e), *final(v)),
{
    let ghost start = *v;
    let ghost mut done: Seq<Visit> = Seq::empty();
    match &*e.expr {
        Expr::Identifier(_) => {},
        Expr::Literal(_) => {},
        Expr::BinaryOp(lhs, _, rhs) => {
            let ghost before = *v;
            v.visit_expr(lhs);
            proof {
                lemma_visits_push(start, done, before, Visit::Expr(*lhs), *v);
                done = done.push(Visit::Expr(*lhs));
            }
            let ghost before = *v;
            v.visit_expr(rhs);
            proof {
                lemma_visits_push(start, done, before, Visit::Expr(*rhs), *v);
                done = done.push(Visit::Expr(*rhs));
            }
        },
        Expr::UnaryOp(_, rhs) => {
            let ghost before = *v;
            v.visit_expr(rhs);
            proof {
                lemma_visits_push(start, done, before, Visit::Expr(*rhs), *v);
                done = done.push(Visit::Expr(*rhs));
            }
        },
        Expr::FunCall(_, _) => {},
    }
    assert(done =~= expr_children(*e));
}

/// Visits each statement of `stmts` in order.
fn walk_stmts<V: Visitor>(v: &mut V, stmts: &Vec<Stmt>)
    ensures
        visits_all(*old(v), stmt_visits(stmts@), *final(v)),
{
    let ghost start = *v;
    let mut i: usize = 0;
    while i < stmts.len()
        invariant
            i <= stmts@.len(),
            visits_all(start, stmt_visits(stmts@.take(i as int)), *v),
        decreases stmts@.len() - i,
    {
        let ghost before = *v;
        v.visit_stmt(&stmts[i]);
        proof {
            lemma_visits_push(
                start,
                stmt_visits(stmts@.take(i as int)),
                before,
                Visit::Stmt(stmts@[i as int]),
                *v,
            );
            assert(stmt_visits(stmts@.take(i as int)).push(Visit::Stmt(stmts@[i as int]))
                =~= stmt_visits(stmts@.take(i + 1)));
        }
        i = i + 1;
    }
    assert(stmts@.take(i as int) =~= stmts@);
}

/// Visits each expression of `exprs` in order.
fn walk_exprs<V: Visitor>(v: &mut V, exprs: &Vec<ExprNode>)
    ensures
        visits_all(*old(v), expr_visits(exprs@), *final(v)),
{
    let ghost start = *v;
    let mut i: usize = 0;
    while i < exprs.len()
        invariant
            i <= exprs@.len(),
            visits_all(start, expr_visits(exprs@.take(i as int)), *v),
        decreases exprs@.len() - i,
    {
        let ghost before = *v;
        v.visit_expr(&exprs[i]);
        proof {
            lemma_visits_push(
                start,
                expr_visits(exprs@.take(i as int)),
                before,
                Visit::Expr(exprs@[i as int]),
                *v,
            );
            assert(expr_visits(exprs@.take(i as int)).push(Visit::Expr(exprs@[i as int]))
                =~= expr_visits(exprs@.take(i + 1)));
        }
        i = i + 1;
    }
    assert(exprs@.take(i as int) =~= exprs@);
}

} // verus!
