use esta::ast::{Expr, ExprNode, Stmt};
use esta::visitor::{walk_expr, walk_stmt, Visitor};

fn lit(k: i64) -> ExprNode {
    ExprNode { expr: Box::new(Expr::Literal(k)) }
}

fn ident(name: &str) -> ExprNode {
    ExprNode { expr: Box::new(Expr::Identifier(name.to_string())) }
}

fn bin(lhs: ExprNode, op: &str, rhs: ExprNode) -> ExprNode {
    ExprNode { expr: Box::new(Expr::BinaryOp(lhs, op.to_string(), rhs)) }
}

fn describe_expr(e: &ExprNode) -> String {
    match &*e.expr {
        Expr::Identifier(id) => id.clone(),
        Expr::Literal(k) => k.to_string(),
        Expr::BinaryOp(_, op, _) => op.clone(),
        Expr::UnaryOp(op, _) => format!("unary {}", op),
        Expr::FunCall(id, _) => format!("call {}", id),
    }
}

fn describe_stmt(s: &Stmt) -> String {
    match s {
        Stmt::Block(_) => "block".to_string(),
        Stmt::While(_, _) => "while".to_string(),
        Stmt::If(_, _, _) => "if".to_string(),
        Stmt::Return(_) => "return".to_string(),
        Stmt::Declaration(id, _) => format!("let {}", id),
        Stmt::FunDecl(id, _, _, _) => format!("fn {}", id),
        Stmt::Assignment(_, _) => "assign".to_string(),
        Stmt::For(_, _, _, _) => "for".to_string(),
    }
}

/// Records each node it is handed, without going deeper.
struct Shallow {
    seen: Vec<String>,
}

impl Visitor for Shallow {
    fn visit_stmt(&mut self, s: &Stmt) {
        self.seen.push(describe_stmt(s));
    }

    fn visit_expr(&mut self, e: &ExprNode) {
        self.seen.push(describe_expr(e));
    }
}

/// Walks the whole tree, recording every node in pre-order.
struct Deep {
    seen: Vec<String>,
}

impl Visitor for Deep {
    fn visit_stmt(&mut self, s: &Stmt) {
        self.seen.push(describe_stmt(s));
        walk_stmt(self, s);
    }

    fn visit_expr(&mut self, e: &ExprNode) {
        self.seen.push(describe_expr(e));
        walk_expr(self, e);
    }
}

fn sample() -> Stmt {
    Stmt::If(
        bin(ident("x"), "<", lit(3)),
        Box::new(Stmt::Assignment(ident("x"), bin(ident("x"), "+", lit(1)))),
        Box::new(Stmt::Return(Some(ident("x")))),
    )
}

#[test]
fn walk_if_visits_condition_then_branches() {
    let mut v = Shallow { seen: vec![] };
    walk_stmt(&mut v, &sample());
    assert_eq!(v.seen, vec!["<", "assign", "return"]);
}

#[test]
fn deep_walk_is_pre_order() {
    let mut v = Deep { seen: vec![] };
    v.visit_stmt(&sample());
    assert_eq!(
        v.seen,
        vec!["if", "<", "x", "3", "assign", "x", "+", "x", "1", "return", "x"]
    );
}

#[test]
fn walk_block_and_function_declaration() {
    let body = Stmt::Block(vec![
        Stmt::Declaration("a".to_string(), lit(1)),
        Stmt::While(ident("a"), Box::new(Stmt::Return(None))),
    ]);
    let decl = Stmt::FunDecl(
        "f".to_string(),
        vec![ident("p"), ident("q")],
        "int".to_string(),
        Box::new(body),
    );
    let mut v = Shallow { seen: vec![] };
    walk_stmt(&mut v, &decl);
    assert_eq!(v.seen, vec!["p", "q", "block"]);
    let mut d = Deep { seen: vec![] };
    d.visit_stmt(&decl);
    assert_eq!(d.seen, vec!["fn f", "p", "q", "block", "let a", "1", "while", "a", "return"]);
}

#[test]
fn walk_skips_for_loops_calls_and_leaves() {
    let for_loop = Stmt::For(
        Box::new(Stmt::Declaration("i".to_string(), lit(0))),
        ident("i"),
        Box::new(Stmt::Block(vec![])),
        Box::new(Stmt::Block(vec![])),
    );
    let mut v = Shallow { seen: vec![] };
    walk_stmt(&mut v, &for_loop);
    walk_stmt(&mut v, &Stmt::Return(None));
    walk_expr(&mut v, &ExprNode { expr: Box::new(Expr::FunCall("g".to_string(), vec![lit(1)])) });
    walk_expr(&mut v, &lit(5));
    assert!(v.seen.is_empty());
    let neg = ExprNode { expr: Box::new(Expr::UnaryOp("-".to_string(), lit(2))) };
    walk_expr(&mut v, &neg);
    assert_eq!(v.seen, vec!["2"]);
}
