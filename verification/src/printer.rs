//! Prints a syntax tree. Each statement becomes one piece of text; the parts
//! of a statement stand below it, indented.

use vstd::prelude::*;
use crate::ast::{
    lemma_exprs_view_index, lemma_functions_view_index, lemma_stmts_view_index,
    names_view, Expr, ExprView, FunctionDecl, FunctionView, LiteralValue, LiteralView, Stmt,
    StmtView, STR,
};
use crate::text::{chars_of, join, push_char};

verus! {

/// `text` with four spaces before each of its lines.
pub open spec fn indented(text: Seq<char>) -> Seq<char>
    decreases text.len(),
{
    if text.len() == 0 {
        "    "@
    } else if text.last() == '\n' {
        indented(text.drop_last()) + "\n    "@
    } else {
        indented(text.drop_last()).push(text.last())
    }
}

/// Each of `contents` on lines of its own, indented.
pub open spec fn stacked(contents: Seq<Seq<char>>) -> Seq<char>
    decreases contents.len(),
{
    if contents.len() == 0 {
        Seq::empty()
    } else {
        stacked(contents.drop_last()) + "\n"@ + indented(contents.last())
    }
}

/// `starting` and `::`, then each of `contents` on lines of its own,
/// indented, and `ending` behind the last of them.
pub open spec fn multi_lines(starting: Seq<char>, contents: Seq<Seq<char>>, ending: Seq<char>) -> Seq<
    char,
> {
    starting + "::"@ + stacked(contents) + if contents.len() > 0 {
        ending
    } else {
        Seq::empty()
    }
}

/// The texts of `texts`, in order.
pub open spec fn texts_view(texts: Seq<String>) -> Seq<Seq<char>> {
    texts.map_values(|t: String| t@)
}

/// How a literal is printed: a number by its digits, a string by its text.
pub open spec fn literal_text(value: LiteralView) -> Seq<char> {
    match value {
        LiteralView::Number(digits) => digits,
        LiteralView::String(text) => text,
        LiteralView::Bool(b) => if b {
            "true"@
        } else {
            "false"@
        },
        LiteralView::Nil => "nil"@,
    }
}

/// The texts of `exprs` with `, ` between them.
pub open spec fn list_text(exprs: Seq<ExprView>) -> Seq<char>
    decreases exprs,
{
    if exprs.len() == 0 {
        Seq::empty()
    } else if exprs.len() == 1 {
        expr_text(exprs[0])
    } else {
        list_text(exprs.drop_last()) + ", "@ + expr_text(exprs.last())
    }
}

/// How an expression is printed.
pub open spec fn expr_text(expr: ExprView) -> Seq<char>
    decreases expr,
{
    match expr {
        ExprView::Assign { name, val } => "(assign "@ + name.0 + " "@ + expr_text(*val) + ")"@,
        ExprView::Binary { left, op, right } => "("@ + op.0.symbol_of() + " "@ + expr_text(*left)
            + " "@ + expr_text(*right) + ")"@,
        ExprView::Call { callee, args } => "(call "@ + expr_text(*callee) + " with ["@
            + list_text(args) + "])"@,
        ExprView::Get { obj, name } => "(get "@ + expr_text(*obj) + "."@ + name.0 + ")"@,
        ExprView::Grouping { expr } => "(group "@ + expr_text(*expr) + ")"@,
        ExprView::Literal { val } => literal_text(val.0),
        ExprView::Logical { left, op, right } => "("@ + op.0.symbol_of() + " "@ + expr_text(*left)
            + " "@ + expr_text(*right) + ")"@,
        ExprView::SetProp { obj, name, val } => "(set "@ + expr_text(*obj) + "."@ + name.0
            + " <- "@ + expr_text(*val) + ")"@,
        ExprView::Super { method, .. } => "(super "@ + method.0 + ")"@,
        ExprView::This { .. } => "(this)"@,
        ExprView::Unary { op, right } => "("@ + op.0.symbol_of() + " "@ + expr_text(*right) + ")"@,
        ExprView::Var { name } => "(var "@ + name.0 + ")"@,
    }
}

/// The names `names` with `, ` between them.
pub open spec fn names_text(names: Seq<(Seq<char>, usize)>) -> Seq<char>
    decreases names.len(),
{
    if names.len() == 0 {
        Seq::empty()
    } else if names.len() == 1 {
        names[0].0
    } else {
        names_text(names.drop_last()) + ", "@ + names.last().0
    }
}

/// The texts of `stmts`, in order.
pub open spec fn stmts_texts(stmts: Seq<StmtView>) -> Seq<Seq<char>>
    decreases stmts,
{
    if stmts.len() == 0 {
        Seq::empty()
    } else {
        stmts_texts(stmts.drop_last()).push(stmt_text(stmts.last()))
    }
}

/// The texts of `decls`, in order.
pub open spec fn functions_texts(decls: Seq<FunctionView>) -> Seq<Seq<char>>
    decreases decls,
{
    if decls.len() == 0 {
        Seq::empty()
    } else {
        functions_texts(decls.drop_last()).push(function_text(decls.last()))
    }
}

/// How a function is printed: its name and parameters, then its body.
pub open spec fn function_text(decl: FunctionView) -> Seq<char>
    decreases decl,
{
    multi_lines(
        if decl.name.0.len() == 0 {
            "(function "@
        } else {
            "(function "@ + decl.name.0 + "("@ + names_text(decl.params) + ") "@
        },
        stmts_texts(decl.body),
        ")"@,
    )
}

/// How a statement is printed.
pub open spec fn stmt_text(stmt: StmtView) -> Seq<char>
    decreases stmt,
{
    match stmt {
        StmtView::Block { stmts } => multi_lines("(block "@, stmts_texts(stmts), ")"@),
        StmtView::Class { name, superclass, methods } => multi_lines(
            match superclass {
                Some(s) => "(class "@ + name.0 + " extends "@ + s.0 + " "@,
                None => "(class "@ + name.0 + " "@,
            },
            functions_texts(methods),
            ")"@,
        ),
        StmtView::Expression { expr } => expr_text(expr),
        StmtView::Function { decl } => function_text(decl),
        StmtView::If { cond, then_branch, else_branch } => match else_branch {
            Some(e) => multi_lines(
                "(if "@ + expr_text(cond) + " then "@,
                seq![stmt_text(*then_branch)],
                "\n"@,
            ) + multi_lines(" else "@, seq![stmt_text(*e)], ")"@),
            None => multi_lines(
                "(if "@ + expr_text(cond) + " then "@,
                seq![stmt_text(*then_branch)],
                ")"@,
            ),
        },
        StmtView::Print { expr } => "(print "@ + expr_text(expr) + ")"@,
        StmtView::Return { value, .. } => match value {
            Some(v) => "(return "@ + expr_text(v) + ")"@,
            None => "(return)"@,
        },
        StmtView::Variable { name, initializer } => "(var "@ + name.0 + " "@ + (match initializer {
            Some(e) => expr_text(e),
            None => "nil"@,
        }) + ")"@,
        StmtView::While { cond, body } => multi_lines(
            "(while "@ + expr_text(cond) + " "@,
            seq![stmt_text(*body)],
            ")"@,
        ),
    }
}

/// `text` with four spaces before each of its lines.
pub fn indent(text: &str) -> (r: String)
    ensures
        r@ == indented(text@),
{
    let chars = chars_of(text);
    let mut r = "    ".to_owned();
    let mut i: usize = 0;
    assert(chars@.take(0) =~= Seq::empty());
    while i < chars.len()
        invariant
            i <= chars.len(),
            chars@ == text@,
            r@ == indented(chars@.take(i as int)),
        decreases chars.len() - i,
    {
        assert(chars@.take(i + 1).drop_last() =~= chars@.take(i as int));
        assert(chars@.take(i + 1).last() == chars[i as int]);
        if chars[i] == '\n' {
            r = join(r, "\n    ");
        } else {
            push_char(&mut r, chars[i]);
        }
        i += 1;
    }
    assert(chars@.take(i as int) =~= chars@);
    r
}

/// One text of one content.
fn single(content: String) -> (r: Vec<String>)
    ensures
        texts_view(r@) == seq![content@],
{
    let mut r: Vec<String> = Vec::new();
    r.push(content);
    assert(texts_view(r@) =~= seq![content@]);
    r
}

/// Prints syntax trees.
pub struct AstPrinter;

impl Default for AstPrinter {
    fn default() -> (r: Self)
        ensures
            r == AstPrinter,
    {
        AstPrinter
    }
}

impl AstPrinter {
    /// `starting` and `::`, then each of `contents` on lines of its own,
    /// indented, and `ending` behind the last of them.
    pub fn stringify_multi_lines(&mut self, starting: &str, contents: &Vec<String>, ending: &str) -> (r:
        String)
        ensures
            r@ == multi_lines(starting@, texts_view(contents@), ending@),
    {
        let mut r = join(starting.to_owned(), "::");
        let ghost all = texts_view(contents@);
        let mut i: usize = 0;
        assert(all.take(0) =~= Seq::empty());
        while i < contents.len()
            invariant
                i <= contents.len(),
                all == texts_view(contents@),
                r@ == starting@ + "::"@ + stacked(all.take(i as int)),
            decreases contents.len() - i,
        {
            assert(all.take(i + 1).drop_last() =~= all.take(i as int));
            assert(all.take(i + 1).last() == contents[i as int]@);
            let line = indent(contents[i].as_str());
            r = join(join(r, "\n"), line.as_str());
            assert(r@ =~= starting@ + "::"@ + stacked(all.take(i + 1)));
            i += 1;
        }
        assert(all.take(i as int) =~= all);
        if contents.len() > 0 {
            r = join(r, ending);
        } else {
            assert(r@ =~= r@ + Seq::empty());
        }
        r
    }

    /// The names `names` with `, ` between them.
    fn stringify_names(names: &Vec<STR>) -> (r: String)
        ensures
            r@ == names_text(names_view(names@)),
    {
        let ghost all = names_view(names@);
        let mut r = String::new();
        let mut i: usize = 0;
        assert(all.take(0) =~= Seq::empty());
        while i < names.len()
            invariant
                i <= names.len(),
                all == names_view(names@),
                r@ == names_text(all.take(i as int)),
            decreases names.len() - i,
        {
            assert(all.take(i + 1).drop_last() =~= all.take(i as int));
            assert(all.take(i + 1).last() == names[i as int]@);
            assert(i == 0 ==> all.take(1)[0] == names[0]@);
            if i > 0 {
                r = join(r, ", ");
            }
            r = join(r, names[i].0.as_str());
            assert(r@ =~= names_text(all.take(i + 1)));
            i += 1;
        }
        assert(all.take(i as int) =~= all);
        r
    }

    /// Prints a function: its name and parameters, then its body.
    pub fn stringify_function(&mut self, decl: &FunctionDecl) -> (r: String)
        ensures
            r@ == function_text(decl@),
        decreases decl,
    {
        let starting = if decl.name.0.as_str().is_empty() {
            "(function ".to_owned()
        } else {
            join(
                join(
                    join(join("(function ".to_owned(), decl.name.0.as_str()), "("),
                    Self::stringify_names(&decl.params).as_str(),
                ),
                ") ",
            )
        };
        let ghost all = crate::ast::stmts_view(decl.body@);
        proof {
            lemma_stmts_view_index(decl.body@);
        }
        let mut body: Vec<String> = Vec::new();
        let mut i: usize = 0;
        assert(all.take(0) =~= Seq::empty());
        assert(texts_view(body@) =~= Seq::empty());
        while i < decl.body.len()
            invariant
                i <= decl.body.len(),
                all == crate::ast::stmts_view(decl.body@),
                all.len() == decl.body.len(),
                forall|k: int| 0 <= k < decl.body.len() ==> (#[trigger] all[k]) == decl.body[k]@,
                texts_view(body@) == stmts_texts(all.take(i as int)),
            decreases decl.body.len() - i,
        {
            assert(all.take(i + 1).drop_last() =~= all.take(i as int));
            assert(all.take(i + 1).last() == decl.body[i as int]@);
            let text = self.visit_stmt(&decl.body[i]);
            let ghost before = body@;
            body.push(text);
            assert(texts_view(body@) =~= texts_view(before).push(text@));
            i += 1;
        }
        assert(all.take(i as int) =~= all);
        self.stringify_multi_lines(starting.as_str(), &body, ")")
    }

    /// Prints a variable declaration.
    pub fn stringify_variable(&mut self, name: &STR, initializer: &Option<Expr>) -> (r: String)
        ensures
            r@ == "(var "@ + name@.0 + " "@ + (match initializer {
                Some(e) => expr_text(e@),
                None => "nil"@,
            }) + ")"@,
    {
        let init = match initializer {
            Some(e) => self.visit_expr(e),
            None => "nil".to_owned(),
        };
        join(join(join(join("(var ".to_owned(), name.0.as_str()), " "), init.as_str()), ")")
    }

    /// Prints the statements `stmts`, each for itself.
    fn visit_stmts(&mut self, stmts: &Vec<Stmt>) -> (r: Vec<String>)
        ensures
            texts_view(r@) == stmts_texts(crate::ast::stmts_view(stmts@)),
        decreases stmts,
    {
        let ghost all = crate::ast::stmts_view(stmts@);
        proof {
            lemma_stmts_view_index(stmts@);
        }
        let mut texts: Vec<String> = Vec::new();
        let mut i: usize = 0;
        assert(all.take(0) =~= Seq::empty());
        assert(texts_view(texts@) =~= Seq::empty());
        while i < stmts.len()
            invariant
                i <= stmts.len(),
                all == crate::ast::stmts_view(stmts@),
                all.len() == stmts.len(),
                forall|k: int| 0 <= k < stmts.len() ==> (#[trigger] all[k]) == stmts[k]@,
                texts_view(texts@) == stmts_texts(all.take(i as int)),
            decreases stmts.len() - i,
        {
            assert(all.take(i + 1).drop_last() =~= all.take(i as int));
            assert(all.take(i + 1).last() == stmts[i as int]@);
            let text = self.visit_stmt(&stmts[i]);
            let ghost before = texts@;
            texts.push(text);
            assert(texts_view(texts@) =~= texts_view(before).push(text@));
            i += 1;
        }
        assert(all.take(i as int) =~= all);
        texts
    }

    /// Prints the functions `decls`, each for itself.
    fn visit_functions(&mut self, decls: &Vec<FunctionDecl>) -> (r: Vec<String>)
        ensures
            texts_view(r@) == functions_texts(crate::ast::functions_view(decls@)),
        decreases decls,
    {
        let ghost all = crate::ast::functions_view(decls@);
        proof {
            lemma_functions_view_index(decls@);
        }
        let mut texts: Vec<String> = Vec::new();
        let mut i: usize = 0;
        assert(all.take(0) =~= Seq::empty());
        assert(texts_view(texts@) =~= Seq::empty());
        while i < decls.len()
            invariant
                i <= decls.len(),
                all == crate::ast::functions_view(decls@),
                all.len() == decls.len(),
                forall|k: int| 0 <= k < decls.len() ==> (#[trigger] all[k]) == decls[k]@,
                texts_view(texts@) == functions_texts(all.take(i as int)),
            decreases decls.len() - i,
        {
            assert(all.take(i + 1).drop_last() =~= all.take(i as int));
            assert(all.take(i + 1).last() == decls[i as int]@);
            let text = self.stringify_function(&decls[i]);
            let ghost before = texts@;
            texts.push(text);
            assert(texts_view(texts@) =~= texts_view(before).push(text@));
            i += 1;
        }
        assert(all.take(i as int) =~= all);
        texts
    }

    /// Prints the expressions `exprs` with `, ` between them.
    fn visit_exprs(&mut self, exprs: &Vec<Expr>) -> (r: String)
        ensures
            r@ == list_text(crate::ast::exprs_view(exprs@)),
        decreases exprs,
    {
        let ghost all = crate::ast::exprs_view(exprs@);
        proof {
            lemma_exprs_view_index(exprs@);
        }
        let mut list = String::new();
        let mut i: usize = 0;
        assert(all.take(0) =~= Seq::empty());
        while i < exprs.len()
            invariant
                i <= exprs.len(),
                all == crate::ast::exprs_view(exprs@),
                all.len() == exprs.len(),
                forall|k: int| 0 <= k < exprs.len() ==> (#[trigger] all[k]) == exprs[k]@,
                list@ == list_text(all.take(i as int)),
            decreases exprs.len() - i,
        {
            assert(all.take(i + 1).drop_last() =~= all.take(i as int));
            assert(all.take(i + 1).last() == exprs[i as int]@);
            assert(i == 0 ==> all.take(1)[0] == exprs[0]@);
            if i > 0 {
                list = join(list, ", ");
            }
            list = join(list, self.visit_expr(&exprs[i]).as_str());
            assert(list@ =~= list_text(all.take(i + 1)));
            i += 1;
        }
        assert(all.take(i as int) =~= all);
        list
    }

    /// Prints a statement.
    pub fn visit_stmt(&mut self, stmt: &Stmt) -> (r: String)
        ensures
            r@ == stmt_text(stmt@),
        decreases stmt,
    {
        match stmt {
            Stmt::Block { stmts } => {
                let texts = self.visit_stmts(stmts);
                self.stringify_multi_lines("(block ", &texts, ")")
            },
            Stmt::Class { name, superclass, methods } => {
                let starting = match superclass {
                    Some(s) => join(
                        join(
                            join(join("(class ".to_owned(), name.0.as_str()), " extends "),
                            s.0.as_str(),
                        ),
                        " ",
                    ),
                    None => join(join("(class ".to_owned(), name.0.as_str()), " "),
                };
                let texts = self.visit_functions(methods);
                self.stringify_multi_lines(starting.as_str(), &texts, ")")
            },
            Stmt::Expression { expr } => self.visit_expr(expr),
            Stmt::Function { decl } => self.stringify_function(decl),
            Stmt::If { cond, then_branch, else_branch } => {
                let starting = join(join("(if ".to_owned(), self.visit_expr(cond).as_str()), " then ");
                let then_content = single(self.visit_stmt(then_branch));
                match else_branch {
                    Some(e) => {
                        let if_then = self.stringify_multi_lines(
                            starting.as_str(),
                            &then_content,
                            "\n",
                        );
                        let else_content = single(self.visit_stmt(e));
                        let otherwise = self.stringify_multi_lines(" else ", &else_content, ")");
                        join(if_then, otherwise.as_str())
                    },
                    None => self.stringify_multi_lines(starting.as_str(), &then_content, ")"),
                }
            },
            Stmt::Print { expr } => join(
                join("(print ".to_owned(), self.visit_expr(expr).as_str()),
                ")",
            ),
            Stmt::Return { value, .. } => match value {
                Some(v) => join(join("(return ".to_owned(), self.visit_expr(v).as_str()), ")"),
                None => "(return)".to_owned(),
            },
            Stmt::Variable { name, initializer } => self.stringify_variable(name, initializer),
            Stmt::While { cond, body } => {
                let starting = join(join("(while ".to_owned(), self.visit_expr(cond).as_str()), " ");
                let content = single(self.visit_stmt(body));
                self.stringify_multi_lines(starting.as_str(), &content, ")")
            },
        }
    }

    /// Prints an operator with its operands.
    fn stringify_operator(symbol: &str, left: Option<&str>, right: &str) -> (r: String)
        ensures
            r@ == match left {
                Some(l) => "("@ + symbol@ + " "@ + l@ + " "@ + right@ + ")"@,
                None => "("@ + symbol@ + " "@ + right@ + ")"@,
            },
    {
        let head = join(join("(".to_owned(), symbol), " ");
        let head = match left {
            Some(l) => join(join(head, l), " "),
            None => head,
        };
        join(join(head, right), ")")
    }

    /// Prints an expression.
    pub fn visit_expr(&mut self, expr: &Expr) -> (r: String)
        ensures
            r@ == expr_text(expr@),
        decreases expr,
    {
        match expr {
            Expr::Assign { name, val } => join(
                join(
                    join(join("(assign ".to_owned(), name.0.as_str()), " "),
                    self.visit_expr(val).as_str(),
                ),
                ")",
            ),
            Expr::Binary { left, op, right } => {
                let l = self.visit_expr(left);
                let r = self.visit_expr(right);
                Self::stringify_operator(op.0.symbol(), Some(l.as_str()), r.as_str())
            },
            Expr::Call { callee, args } => {
                let head = join(
                    join("(call ".to_owned(), self.visit_expr(callee).as_str()),
                    " with [",
                );
                let list = self.visit_exprs(args);
                join(join(head, list.as_str()), "])")
            },
            Expr::Get { obj, name } => join(
                join(
                    join(join("(get ".to_owned(), self.visit_expr(obj).as_str()), "."),
                    name.0.as_str(),
                ),
                ")",
            ),
            Expr::Grouping { expr } => join(
                join("(group ".to_owned(), self.visit_expr(expr).as_str()),
                ")",
            ),
            Expr::Literal { val } => match &val.0 {
                LiteralValue::Number(digits) => digits.clone(),
                LiteralValue::String(text) => text.clone(),
                LiteralValue::Bool(b) => if *b {
                    "true".to_owned()
                } else {
                    "false".to_owned()
                },
                LiteralValue::Nil => "nil".to_owned(),
            },
            Expr::Logical { left, op, right } => {
                let l = self.visit_expr(left);
                let r = self.visit_expr(right);
                Self::stringify_operator(op.0.symbol(), Some(l.as_str()), r.as_str())
            },
            Expr::SetProp { obj, name, val } => join(
                join(
                    join(
                        join(
                            join(join("(set ".to_owned(), self.visit_expr(obj).as_str()), "."),
                            name.0.as_str(),
                        ),
                        " <- ",
                    ),
                    self.visit_expr(val).as_str(),
                ),
                ")",
            ),
            Expr::Super { method, .. } => join(
                join("(super ".to_owned(), method.0.as_str()),
                ")",
            ),
            Expr::This { .. } => "(this)".to_owned(),
            Expr::Unary { op, right } => {
                let r = self.visit_expr(right);
                Self::stringify_operator(op.0.symbol(), None, r.as_str())
            },
            Expr::Var { name } => join(join("(var ".to_owned(), name.0.as_str()), ")"),
        }
    }
}

} // verus!
