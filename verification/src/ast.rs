//! The syntax tree: statements, expressions, operators and literals.

use vstd::prelude::*;
use crate::token::TokenKind;

verus! {

/// A piece of source text with the line it stands on.
#[derive(Clone, Debug)]
pub struct STR(pub String, pub usize);

impl View for STR {
    type V = (Seq<char>, usize);

    open spec fn view(&self) -> (Seq<char>, usize) {
        (self.0@, self.1)
    }
}

/// The operators of the language.
#[derive(Debug, Clone, Copy, PartialEq, Eq, Structural)]
pub enum Operator {
    /// +
    Plus,
    /// -
    Minus,
    /// *
    Multiply,
    /// /
    Divide,
    /// ==
    Equal,
    /// !=
    NotEqual,
    /// >
    Greater,
    /// >=
    GreaterEqual,
    /// <
    Less,
    /// <=
    LessEqual,
    /// !
    Not,
    /// and
    And,
    /// or
    Or,
}

/// An operator with the line it stands on.
#[derive(Debug, Clone, Copy, PartialEq, Eq, Structural)]
pub struct PosedOperator(pub Operator, pub usize);

/// A literal as it is written.
#[derive(Debug, Clone)]
pub enum LiteralValue {
    /// A number, by its digits.
    Number(String),
    /// A string, without its quotes.
    String(String),
    Bool(bool),
    Nil,
}

/// What a [`LiteralValue`] holds, with sequences of characters for its
/// strings.
pub enum LiteralView {
    Number(Seq<char>),
    String(Seq<char>),
    Bool(bool),
    Nil,
}

impl View for LiteralValue {
    type V = LiteralView;

    open spec fn view(&self) -> LiteralView {
        match self {
            LiteralValue::Number(s) => LiteralView::Number(s@),
            LiteralValue::String(s) => LiteralView::String(s@),
            LiteralValue::Bool(b) => LiteralView::Bool(*b),
            LiteralValue::Nil => LiteralView::Nil,
        }
    }
}

/// A literal with the line it stands on.
#[derive(Debug, Clone)]
pub struct PosedLiteral(pub LiteralValue, pub usize);

impl View for PosedLiteral {
    type V = (LiteralView, usize);

    open spec fn view(&self) -> (LiteralView, usize) {
        (self.0@, self.1)
    }
}

/// An expression.
#[derive(Debug)]
pub enum Expr {
    Assign { name: STR, val: Box<Expr> },
    Binary { left: Box<Expr>, op: PosedOperator, right: Box<Expr> },
    Call { callee: Box<Expr>, args: Vec<Expr> },
    Get { obj: Box<Expr>, name: STR },
    Grouping { expr: Box<Expr> },
    Literal { val: PosedLiteral },
    Logical { left: Box<Expr>, op: PosedOperator, right: Box<Expr> },
    SetProp { obj: Box<Expr>, name: STR, val: Box<Expr> },
    Super { keyword: STR, method: STR },
    This { keyword: STR },
    Unary { op: PosedOperator, right: Box<Expr> },
    Var { name: STR },
}

/// What an [`Expr`] holds, with sequences of characters for its strings.
pub enum ExprView {
    Assign { name: (Seq<char>, usize), val: Box<ExprView> },
    Binary { left: Box<ExprView>, op: PosedOperator, right: Box<ExprView> },
    Call { callee: Box<ExprView>, args: Seq<ExprView> },
    Get { obj: Box<ExprView>, name: (Seq<char>, usize) },
    Grouping { expr: Box<ExprView> },
    Literal { val: (LiteralView, usize) },
    Logical { left: Box<ExprView>, op: PosedOperator, right: Box<ExprView> },
    SetProp { obj: Box<ExprView>, name: (Seq<char>, usize), val: Box<ExprView> },
    Super { keyword: (Seq<char>, usize), method: (Seq<char>, usize) },
    This { keyword: (Seq<char>, usize) },
    Unary { op: PosedOperator, right: Box<ExprView> },
    Var { name: (Seq<char>, usize) },
}

/// The views of `exprs`, in order.
pub open spec fn exprs_view(exprs: Seq<Expr>) -> Seq<ExprView>
    decreases exprs,
{
    if exprs.len() == 0 {
        Seq::empty()
    } else {
        exprs_view(exprs.drop_last()).push(expr_view(exprs.last()))
    }
}

/// What `expr` holds, with sequences of characters for its strings.
pub open spec fn expr_view(expr: Expr) -> ExprView
    decreases expr,
{
    match expr {
        Expr::Assign { name, val } => ExprView::Assign { name: name@, val: Box::new(expr_view(*val)) },
        Expr::Binary { left, op, right } => ExprView::Binary {
            left: Box::new(expr_view(*left)),
            op,
            right: Box::new(expr_view(*right)),
        },
        Expr::Call { callee, args } => ExprView::Call {
            callee: Box::new(expr_view(*callee)),
            args: exprs_view(args@),
        },
        Expr::Get { obj, name } => ExprView::Get { obj: Box::new(expr_view(*obj)), name: name@ },
        Expr::Grouping { expr } => ExprView::Grouping { expr: Box::new(expr_view(*expr)) },
        Expr::Literal { val } => ExprView::Literal { val: val@ },
        Expr::Logical { left, op, right } => ExprView::Logical {
            left: Box::new(expr_view(*left)),
            op,
            right: Box::new(expr_view(*right)),
        },
        Expr::SetProp { obj, name, val } => ExprView::SetProp {
            obj: Box::new(expr_view(*obj)),
            name: name@,
            val: Box::new(expr_view(*val)),
        },
        Expr::Super { keyword, method } => ExprView::Super { keyword: keyword@, method: method@ },
        Expr::This { keyword } => ExprView::This { keyword: keyword@ },
        Expr::Unary { op, right } => ExprView::Unary { op, right: Box::new(expr_view(*right)) },
        Expr::Var { name } => ExprView::Var { name: name@ },
    }
}

impl View for Expr {
    type V = ExprView;

    open spec fn view(&self) -> ExprView {
        expr_view(*self)
    }
}

/// The views of `names`, in order.
pub open spec fn names_view(names: Seq<STR>) -> Seq<(Seq<char>, usize)> {
    names.map_values(|name: STR| name@)
}

/// A function: its name, the names of its parameters and its body.
#[derive(Debug)]
pub struct FunctionDecl {
    pub name: STR,
    pub params: Vec<STR>,
    pub body: Vec<Stmt>,
}

/// What a [`FunctionDecl`] holds, with sequences of characters for its
/// strings.
pub struct FunctionView {
    pub name: (Seq<char>, usize),
    pub params: Seq<(Seq<char>, usize)>,
    pub body: Seq<StmtView>,
}

/// A statement.
#[derive(Debug)]
pub enum Stmt {
    Block { stmts: Vec<Stmt> },
    Class { name: STR, superclass: Option<STR>, methods: Vec<FunctionDecl> },
    Expression { expr: Expr },
    Function { decl: FunctionDecl },
    If { cond: Expr, then_branch: Box<Stmt>, else_branch: Option<Box<Stmt>> },
    Print { expr: Expr },
    Return { keyword: STR, value: Option<Expr> },
    Variable { name: STR, initializer: Option<Expr> },
    While { cond: Expr, body: Box<Stmt> },
}

/// What a [`Stmt`] holds, with sequences of characters for its strings.
pub enum StmtView {
    Block { stmts: Seq<StmtView> },
    Class { name: (Seq<char>, usize), superclass: Option<(Seq<char>, usize)>, methods: Seq<FunctionView> },
    Expression { expr: ExprView },
    Function { decl: FunctionView },
    If { cond: ExprView, then_branch: Box<StmtView>, else_branch: Option<Box<StmtView>> },
    Print { expr: ExprView },
    Return { keyword: (Seq<char>, usize), value: Option<ExprView> },
    Variable { name: (Seq<char>, usize), initializer: Option<ExprView> },
    While { cond: ExprView, body: Box<StmtView> },
}

/// The view of an expression that may be missing.
pub open spec fn optional_expr_view(expr: Option<Expr>) -> Option<ExprView> {
    match expr {
        Some(e) => Some(expr_view(e)),
        None => None,
    }
}

/// The view of a name that may be missing.
pub open spec fn optional_name_view(name: Option<STR>) -> Option<(Seq<char>, usize)> {
    match name {
        Some(n) => Some(n@),
        None => None,
    }
}

/// The views of `stmts`, in order.
pub open spec fn stmts_view(stmts: Seq<Stmt>) -> Seq<StmtView>
    decreases stmts,
{
    if stmts.len() == 0 {
        Seq::empty()
    } else {
        stmts_view(stmts.drop_last()).push(stmt_view(stmts.last()))
    }
}

/// The views of `decls`, in order.
pub open spec fn functions_view(decls: Seq<FunctionDecl>) -> Seq<FunctionView>
    decreases decls,
{
    if decls.len() == 0 {
        Seq::empty()
    } else {
        functions_view(decls.drop_last()).push(function_view(decls.last()))
    }
}

/// What `decl` holds, with sequences of characters for its strings.
pub open spec fn function_view(decl: FunctionDecl) -> FunctionView
    decreases decl,
{
    FunctionView {
        name: decl.name@,
        params: names_view(decl.params@),
        body: stmts_view(decl.body@),
    }
}

/// What `stmt` holds, with sequences of characters for its strings.
pub open spec fn stmt_view(stmt: Stmt) -> StmtView
    decreases stmt,
{
    match stmt {
        Stmt::Block { stmts } => StmtView::Block { stmts: stmts_view(stmts@) },
        Stmt::Class { name, superclass, methods } => StmtView::Class {
            name: name@,
            superclass: optional_name_view(superclass),
            methods: functions_view(methods@),
        },
        Stmt::Expression { expr } => StmtView::Expression { expr: expr_view(expr) },
        Stmt::Function { decl } => StmtView::Function { decl: function_view(decl) },
        Stmt::If { cond, then_branch, else_branch } => StmtView::If {
            cond: expr_view(cond),
            then_branch: Box::new(stmt_view(*then_branch)),
            else_branch: match else_branch {
                Some(b) => Some(Box::new(stmt_view(*b))),
                None => None,
            },
        },
        Stmt::Print { expr } => StmtView::Print { expr: expr_view(expr) },
        Stmt::Return { keyword, value } => StmtView::Return {
            keyword: keyword@,
            value: optional_expr_view(value),
        },
        Stmt::Variable { name, initializer } => StmtView::Variable {
            name: name@,
            initializer: optional_expr_view(initializer),
        },
        Stmt::While { cond, body } => StmtView::While {
            cond: expr_view(cond),
            body: Box::new(stmt_view(*body)),
        },
    }
}

impl View for FunctionDecl {
    type V = FunctionView;

    open spec fn view(&self) -> FunctionView {
        function_view(*self)
    }
}

impl View for Stmt {
    type V = StmtView;

    open spec fn view(&self) -> StmtView {
        stmt_view(*self)
    }
}

/// Pushing an expression pushes its view.
pub proof fn lemma_exprs_view_push(exprs: Seq<Expr>, expr: Expr)
    ensures
        exprs_view(exprs.push(expr)) == exprs_view(exprs).push(expr@),
{
    assert(exprs.push(expr).drop_last() =~= exprs);
}

/// Pushing a statement pushes its view.
pub proof fn lemma_stmts_view_push(stmts: Seq<Stmt>, stmt: Stmt)
    ensures
        stmts_view(stmts.push(stmt)) == stmts_view(stmts).push(stmt@),
{
    assert(stmts.push(stmt).drop_last() =~= stmts);
}

/// Pushing a function pushes its view.
pub proof fn lemma_functions_view_push(decls: Seq<FunctionDecl>, decl: FunctionDecl)
    ensures
        functions_view(decls.push(decl)) == functions_view(decls).push(decl@),
{
    assert(decls.push(decl).drop_last() =~= decls);
}

/// A sequence of views is as long as what it views, item by item.
pub proof fn lemma_stmts_view_index(stmts: Seq<Stmt>)
    ensures
        stmts_view(stmts).len() == stmts.len(),
        forall|i: int| 0 <= i < stmts.len() ==> (#[trigger] stmts_view(stmts)[i]) == stmts[i]@,
    decreases stmts.len(),
{
    if stmts.len() > 0 {
        lemma_stmts_view_index(stmts.drop_last());
    }
}

/// A sequence of views is as long as what it views, item by item.
pub proof fn lemma_exprs_view_index(exprs: Seq<Expr>)
    ensures
        exprs_view(exprs).len() == exprs.len(),
        forall|i: int| 0 <= i < exprs.len() ==> (#[trigger] exprs_view(exprs)[i]) == exprs[i]@,
    decreases exprs.len(),
{
    if exprs.len() > 0 {
        lemma_exprs_view_index(exprs.drop_last());
    }
}

/// A sequence of views is as long as what it views, item by item.
pub proof fn lemma_functions_view_index(decls: Seq<FunctionDecl>)
    ensures
        functions_view(decls).len() == decls.len(),
        forall|i: int|
            0 <= i < decls.len() ==> (#[trigger] functions_view(decls)[i]) == decls[i]@,
    decreases decls.len(),
{
    if decls.len() > 0 {
        lemma_functions_view_index(decls.drop_last());
    }
}

impl Operator {
    /// The operator that a token of kind `kind` stands for, if any.
    pub open spec fn of_kind(kind: TokenKind) -> Option<Operator> {
        match kind {
            TokenKind::Plus => Some(Operator::Plus),
            TokenKind::Minus => Some(Operator::Minus),
            TokenKind::Star => Some(Operator::Multiply),
            TokenKind::Slash => Some(Operator::Divide),
            TokenKind::EqEq => Some(Operator::Equal),
            TokenKind::BangEq => Some(Operator::NotEqual),
            TokenKind::Gt => Some(Operator::Greater),
            TokenKind::GtEq => Some(Operator::GreaterEqual),
            TokenKind::Lt => Some(Operator::Less),
            TokenKind::LtEq => Some(Operator::LessEqual),
            TokenKind::Bang => Some(Operator::Not),
            _ => None,
        }
    }

    /// The operator that a token of kind `kind` stands for, if any.
    pub fn try_from_kind(kind: TokenKind) -> (r: Option<Operator>)
        ensures
            r == Operator::of_kind(kind),
    {
        match kind {
            TokenKind::Plus => Some(Operator::Plus),
            TokenKind::Minus => Some(Operator::Minus),
            TokenKind::Star => Some(Operator::Multiply),
            TokenKind::Slash => Some(Operator::Divide),
            TokenKind::EqEq => Some(Operator::Equal),
            TokenKind::BangEq => Some(Operator::NotEqual),
            TokenKind::Gt => Some(Operator::Greater),
            TokenKind::GtEq => Some(Operator::GreaterEqual),
            TokenKind::Lt => Some(Operator::Less),
            TokenKind::LtEq => Some(Operator::LessEqual),
            TokenKind::Bang => Some(Operator::Not),
            _ => None,
        }
    }

    /// How the operator is written.
    pub open spec fn symbol_of(self) -> Seq<char> {
        match self {
            Operator::Plus => "+"@,
            Operator::Minus => "-"@,
            Operator::Multiply => "*"@,
            Operator::Divide => "/"@,
            Operator::Equal => "=="@,
            Operator::NotEqual => "!="@,
            Operator::Greater => ">"@,
            Operator::GreaterEqual => ">="@,
            Operator::Less => "<"@,
            Operator::LessEqual => "<="@,
            Operator::Not => "!"@,
            Operator::And => "and"@,
            Operator::Or => "or"@,
        }
    }

    /// How the operator is written.
    pub fn symbol(self) -> (r: &'static str)
        ensures
            r@ == self.symbol_of(),
    {
        match self {
            Operator::Plus => "+",
            Operator::Minus => "-",
            Operator::Multiply => "*",
            Operator::Divide => "/",
            Operator::Equal => "==",
            Operator::NotEqual => "!=",
            Operator::Greater => ">",
            Operator::GreaterEqual => ">=",
            Operator::Less => "<",
            Operator::LessEqual => "<=",
            Operator::Not => "!",
            Operator::And => "and",
            Operator::Or => "or",
        }
    }
}

impl ExprView {
    /// The line that stands for the expression in error messages: that of
    /// its name, operator or keyword; for a call, that of what is called.
    pub open spec fn line(self) -> usize
        decreases self,
    {
        match self {
            ExprView::Assign { name, .. } => name.1,
            ExprView::Binary { op, .. } => op.1,
            ExprView::Call { callee, .. } => callee.line(),
            ExprView::Get { name, .. } => name.1,
            ExprView::Grouping { expr } => expr.line(),
            ExprView::Literal { val } => val.1,
            ExprView::Logical { op, .. } => op.1,
            ExprView::SetProp { name, .. } => name.1,
            ExprView::Super { keyword, .. } => keyword.1,
            ExprView::This { keyword } => keyword.1,
            ExprView::Unary { op, .. } => op.1,
            ExprView::Var { name } => name.1,
        }
    }
}

impl Expr {
    /// The line that stands for the expression in error messages: that of
    /// its name, operator or keyword; for a call, that of what is called.
    pub fn line(&self) -> (r: usize)
        ensures
            r == self@.line(),
        decreases self,
    {
        match self {
            Expr::Assign { name, .. } => name.1,
            Expr::Binary { op, .. } => op.1,
            Expr::Call { callee, .. } => callee.line(),
            Expr::Get { name, .. } => name.1,
            Expr::Grouping { expr } => expr.line(),
            Expr::Literal { val } => val.1,
            Expr::Logical { op, .. } => op.1,
            Expr::SetProp { name, .. } => name.1,
            Expr::Super { keyword, .. } => keyword.1,
            Expr::This { keyword } => keyword.1,
            Expr::Unary { op, .. } => op.1,
            Expr::Var { name } => name.1,
        }
    }
}

} // verus!
