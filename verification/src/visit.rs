//! Visitors: what walks a syntax tree, and what lets itself be walked.

use vstd::prelude::*;
use crate::ast::{Expr, ExprView, Stmt, StmtView};
use crate::printer::{expr_text, stmt_text, AstPrinter};

verus! {

/// Something that computes an output from a statement or an expression.
pub trait Visitor {
    type Output;

    /// Whether `output` is what the visitor yields for `stmt`. A visitor
    /// that says nothing of its output need not define this.
    open spec fn yields_for_stmt(&self, stmt: StmtView, output: Self::Output) -> bool {
        true
    }

    /// Whether `output` is what the visitor yields for `expr`. A visitor
    /// that says nothing of its output need not define this.
    open spec fn yields_for_expr(&self, expr: ExprView, output: Self::Output) -> bool {
        true
    }

    fn visit_stmt(&mut self, stmt: &Stmt) -> (r: Self::Output)
        ensures
            old(self).yields_for_stmt(stmt@, r),
    ;

    fn visit_expr(&mut self, expr: &Expr) -> (r: Self::Output)
        ensures
            old(self).yields_for_expr(expr@, r),
    ;
}

/// Something a visitor can be sent to.
pub trait VisitorAcceptor {
    /// Sends `visitor` to this, and returns what it yields.
    fn accept<V: Visitor>(&self, visitor: &mut V) -> (r: V::Output);
}

impl VisitorAcceptor for Stmt {
    /// Sends `visitor` to the statement.
    fn accept<V: Visitor>(&self, visitor: &mut V) -> (r: V::Output)
        ensures
            old(visitor).yields_for_stmt(self@, r),
    {
        visitor.visit_stmt(self)
    }
}

impl VisitorAcceptor for Expr {
    /// Sends `visitor` to the expression.
    fn accept<V: Visitor>(&self, visitor: &mut V) -> (r: V::Output)
        ensures
            old(visitor).yields_for_expr(self@, r),
    {
        visitor.visit_expr(self)
    }
}

impl Visitor for AstPrinter {
    type Output = String;

    open spec fn yields_for_stmt(&self, stmt: StmtView, output: String) -> bool {
        output@ == stmt_text(stmt)
    }

    open spec fn yields_for_expr(&self, expr: ExprView, output: String) -> bool {
        output@ == expr_text(expr)
    }

    fn visit_stmt(&mut self, stmt: &Stmt) -> (r: String) {
        AstPrinter::visit_stmt(self, stmt)
    }

    fn visit_expr(&mut self, expr: &Expr) -> (r: String) {
        AstPrinter::visit_expr(self, expr)
    }
}

} // verus!
