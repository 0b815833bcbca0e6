//! A tree-walk interpreter.
//!
//! No bytecode is made: the interpreter walks the syntax tree. It does so
//! step by step, see [`Interpreter::step`]: the host calls `step` until it
//! answers [`Action::Done`], and does in between what the actions ask for.

use vstd::prelude::*;
use crate::ast::{
    functions_view, lemma_exprs_view_index, lemma_functions_view_index, lemma_stmts_view_index,
    names_view, stmts_view, Expr, FunctionDecl, LiteralValue, Operator,
    PosedOperator, Stmt, STR,
};
use crate::environment::{Bindings, Env};
use crate::machine::{
    bind_all, find_method, last_named, lemma_push_keeps_wf, lemma_step_keeps_wf,
    undefined_property, undefined_variable, ActionView, ClassView, ClosureView, EventView,
    InstanceView, MachineView, Mode, PendingView, TaskView,
};
use crate::scopes::{global_names, lemma_idle_is_global, lemma_step_keeps_names, proceed};
use crate::text::{decimal, join, number_display, same_text};
use crate::value::{values_view, Applied, Value};

verus! {

/// What the host is asked to do.
#[derive(Debug)]
pub enum Action {
    /// Nothing: step again.
    Continue,
    /// Print the line to the standard output.
    Print(String),
    /// Print the runtime error `message`, found on `line`, to the standard
    /// error.
    Report { message: String, line: usize },
    /// Answer with [`Event::Number`]: the number that the text stands for.
    ParseNumber(String),
    /// Answer with [`Event::Number`]: the number `left op right`.
    Arithmetic(Operator, u64, u64),
    /// Answer with [`Event::Text`]: the shortest decimal form of the number.
    FormatNumber(u64),
    /// Nothing is left to do. `failed` says whether a runtime error ended
    /// the run.
    Done { failed: bool },
}

impl View for Action {
    type V = ActionView;

    open spec fn view(&self) -> ActionView {
        match self {
            Action::Continue => ActionView::Continue,
            Action::Print(s) => ActionView::Print(s@),
            Action::Report { message, line } => ActionView::Report {
                message: message@,
                line: *line,
            },
            Action::ParseNumber(s) => ActionView::ParseNumber(s@),
            Action::Arithmetic(op, a, b) => ActionView::Arithmetic(*op, *a, *b),
            Action::FormatNumber(bits) => ActionView::FormatNumber(*bits),
            Action::Done { failed } => ActionView::Done { failed: *failed },
        }
    }
}

/// What the host answers.
#[derive(Debug)]
pub enum Event {
    /// Nothing was asked.
    Resume,
    /// The number that was asked for, by the bits of its double.
    Number(u64),
    /// The text that was asked for.
    Text(String),
}

impl View for Event {
    type V = EventView;

    open spec fn view(&self) -> EventView {
        match self {
            Event::Resume => EventView::Resume,
            Event::Number(bits) => EventView::Number(*bits),
            Event::Text(s) => EventView::Text(s@),
        }
    }
}

/// What the machine waits for.
enum Pending {
    Nothing,
    Parse(String),
    Arithmetic(Operator, u64, u64),
    Format(u64),
}

impl View for Pending {
    type V = PendingView;

    closed spec fn view(&self) -> PendingView {
        match self {
            Pending::Nothing => PendingView::Nothing,
            Pending::Parse(s) => PendingView::Parse(s@),
            Pending::Arithmetic(op, a, b) => PendingView::Arithmetic(*op, *a, *b),
            Pending::Format(bits) => PendingView::Format(*bits),
        }
    }
}

/// A function with the scope it was declared in.
struct Closure<'a> {
    decl: &'a FunctionDecl,
    scope: Option<usize>,
    initializes: Option<usize>,
}

/// A class: its name, the class it inherits from, its methods and the scope
/// they were declared in.
struct Class<'a> {
    name: &'a STR,
    superclass: Option<usize>,
    methods: &'a Vec<FunctionDecl>,
    scope: Option<usize>,
}

impl<'a> View for Class<'a> {
    type V = ClassView;

    closed spec fn view(&self) -> ClassView {
        ClassView {
            name: self.name@,
            superclass: self.superclass,
            methods: functions_view(self.methods@),
            scope: self.scope,
        }
    }
}

/// An instance: its class and its fields.
struct Instance {
    class: usize,
    fields: Bindings,
}

impl View for Instance {
    type V = InstanceView;

    closed spec fn view(&self) -> InstanceView {
        InstanceView { class: self.class, fields: self.fields@ }
    }
}

impl<'a> View for Closure<'a> {
    type V = ClosureView;

    closed spec fn view(&self) -> ClosureView {
        ClosureView { decl: self.decl@, scope: self.scope, initializes: self.initializes }
    }
}

/// A piece of work.
enum Task<'a> {
    Exec(&'a Stmt),
    Sequence(&'a Vec<Stmt>, usize),
    Block(&'a Vec<Stmt>),
    Leave(Option<usize>),
    Finish(Option<usize>),
    FinishInit(Option<usize>, usize),
    Eval(&'a Expr),
    ExprStmt,
    Print,
    Define(&'a STR),
    Branch(&'a Stmt, Option<&'a Stmt>),
    Loop(&'a Stmt, &'a Stmt),
    Return,
    AssignTo(&'a STR),
    ShortCircuit(Operator, &'a Expr),
    Right(PosedOperator, &'a Expr),
    Apply(PosedOperator, Value),
    Negate(PosedOperator),
    Callee(&'a Vec<Expr>, usize),
    Collect { callee: Value, args: &'a Vec<Expr>, collected: Vec<Value>, line: usize },
    GetProp(&'a STR),
    SetTarget(&'a STR, &'a Expr),
    SetField(usize, &'a STR),
}

impl<'a> View for Task<'a> {
    type V = TaskView;

    closed spec fn view(&self) -> TaskView {
        match self {
            Task::Exec(stmt) => TaskView::Exec(stmt@),
            Task::Sequence(stmts, i) => TaskView::Sequence(stmts_view(stmts@), *i as int),
            Task::Block(stmts) => TaskView::Block(stmts_view(stmts@)),
            Task::Leave(restore) => TaskView::Leave(*restore),
            Task::Finish(restore) => TaskView::Finish(*restore),
            Task::FinishInit(restore, instance) => TaskView::FinishInit(*restore, *instance),
            Task::Eval(expr) => TaskView::Eval(expr@),
            Task::ExprStmt => TaskView::ExprStmt,
            Task::Print => TaskView::Print,
            Task::Define(name) => TaskView::Define(name@),
            Task::Branch(then_branch, else_branch) => TaskView::Branch(
                then_branch@,
                match else_branch {
                    Some(e) => Some(e@),
                    None => None,
                },
            ),
            Task::Loop(stmt, body) => TaskView::Loop(stmt@, body@),
            Task::Return => TaskView::Return,
            Task::AssignTo(name) => TaskView::AssignTo(name@),
            Task::ShortCircuit(op, right) => TaskView::ShortCircuit(*op, right@),
            Task::Right(op, right) => TaskView::Right(*op, right@),
            Task::Apply(op, left) => TaskView::Apply(*op, left@),
            Task::Negate(op) => TaskView::Negate(*op),
            Task::Callee(args, line) => TaskView::Callee(crate::ast::exprs_view(args@), *line),
            Task::Collect { callee, args, collected, line } => TaskView::Collect {
                callee: callee@,
                args: crate::ast::exprs_view(args@),
                collected: values_view(collected@),
                line: *line,
            },
            Task::GetProp(name) => TaskView::GetProp(name@),
            Task::SetTarget(name, val) => TaskView::SetTarget(name@, val@),
            Task::SetField(instance, name) => TaskView::SetField(*instance, name@),
        }
    }
}

/// The interpreter of one program, whose syntax tree lives for `'a`.
pub struct Interpreter<'a> {
    env: Env,
    closures: Vec<Closure<'a>>,
    classes: Vec<Class<'a>>,
    instances: Vec<Instance>,
    tasks: Vec<Task<'a>>,
    result: Value,
    pending: Pending,
    mode: Mode,
    has_runtime_error: bool,
    is_in_repl: bool,
}

impl<'a> View for Interpreter<'a> {
    type V = MachineView;

    closed spec fn view(&self) -> MachineView {
        MachineView {
            env: self.env@,
            closures: self.closures@.map_values(|c: Closure<'a>| c@),
            classes: self.classes@.map_values(|c: Class<'a>| c@),
            instances: self.instances@.map_values(|i: Instance| i@),
            tasks: self.tasks@.map_values(|t: Task<'a>| t@),
            result: self.result@,
            pending: self.pending@,
            mode: self.mode,
            has_runtime_error: self.has_runtime_error,
            is_in_repl: self.is_in_repl,
        }
    }
}

impl<'a> Interpreter<'a> {
    /// An interpreter with nothing to do: one scope, no variables, no
    /// functions.
    pub fn new() -> (r: Self)
        ensures
            r@ == MachineView::initial(),
            r@.wf(),
    {
        let r = Interpreter {
            env: Env::new(),
            closures: Vec::new(),
            classes: Vec::new(),
            instances: Vec::new(),
            tasks: Vec::new(),
            result: Value::Nil,
            pending: Pending::Nothing,
            mode: Mode::Running,
            has_runtime_error: false,
            is_in_repl: false,
        };
        assert(r@.closures =~= Seq::empty());
        assert(r@.classes =~= Seq::empty());
        assert(r@.instances =~= Seq::empty());
        assert(r@.tasks =~= Seq::empty());
        r
    }

    /// Puts `task` on the stack.
    fn push(&mut self, task: Task<'a>)
        ensures
            final(self)@ == old(self)@.push(task@),
    {
        self.tasks.push(task);
        assert(self@.tasks =~= old(self)@.tasks.push(task@));
    }

    /// A runtime error.
    fn fail(&mut self, message: String, line: usize) -> (r: Action)
        ensures
            (final(self)@, r@) == old(self)@.fail(message@, line),
    {
        self.has_runtime_error = true;
        self.mode = Mode::Failing;
        Action::Report { message, line }
    }

    /// What becomes of the result of an operator that stands on `line`.
    fn settle(&mut self, applied: Applied, line: usize) -> (r: Action)
        ensures
            (final(self)@, r@) == old(self)@.settle(applied@, line),
    {
        match applied {
            Applied::Value(v) => {
                self.result = v;
                Action::Continue
            },
            Applied::Arithmetic(op, a, b) => {
                self.pending = Pending::Arithmetic(op, a, b);
                Action::Arithmetic(op, a, b)
            },
            Applied::Error(message) => self.fail(message, line),
        }
    }

    /// Prints the value computed last.
    fn show(&mut self) -> (r: Action)
        ensures
            (final(self)@, r@) == old(self)@.show(),
    {
        match &self.result {
            Value::Number(bits) => {
                let bits = *bits;
                self.pending = Pending::Format(bits);
                Action::FormatNumber(bits)
            },
            Value::Str(s) => Action::Print(s.clone()),
            Value::Bool(b) => Action::Print(
                if *b {
                    "true".to_owned()
                } else {
                    "false".to_owned()
                },
            ),
            Value::Nil => Action::Print("nil".to_owned()),
            Value::Function(id) => {
                if *id < self.closures.len() {
                    let name = self.closures[*id].decl.name.0.as_str();
                    Action::Print(join(join("<fn ".to_owned(), name), ">"))
                } else {
                    Action::Print("<fn>".to_owned())
                }
            },
            Value::Class(id) => Action::Print(self.class_name(*id).to_owned()),
            Value::Instance(id) => {
                if *id < self.instances.len() {
                    let class = self.instances[*id].class;
                    Action::Print(join(self.class_name(class).to_owned(), " instance"))
                } else {
                    Action::Print("instance".to_owned())
                }
            },
        }
    }

    /// The name of the class `id`.
    fn class_name(&self, id: usize) -> (r: &str)
        ensures
            r@ == self@.class_name(id),
    {
        if id < self.classes.len() {
            self.classes[id].name.0.as_str()
        } else {
            "class"
        }
    }

    /// The last of `methods` that is named `name`.
    fn last_named(methods: &'a Vec<FunctionDecl>, name: &str) -> (r: Option<&'a FunctionDecl>)
        ensures
            match last_named(functions_view(methods@), name@) {
                Some(m) => r is Some && r->0@ == m,
                None => r is None,
            },
    {
        let ghost all = functions_view(methods@);
        proof {
            lemma_functions_view_index(methods@);
        }
        let mut k = methods.len();
        assert(all.take(k as int) =~= all);
        while k > 0
            invariant
                k <= methods.len(),
                all == functions_view(methods@),
                all.len() == methods.len(),
                forall|i: int| 0 <= i < methods.len() ==> (#[trigger] all[i]) == methods[i]@,
                last_named(all.take(k as int), name@) == last_named(all, name@),
            decreases k,
        {
            k -= 1;
            assert(all.take(k + 1).drop_last() =~= all.take(k as int));
            assert(all.take(k + 1).last() == all[k as int]);
            if same_text(methods[k].name.0.as_str(), name) {
                return Some(&methods[k]);
            }
        }
        None
    }

    /// The method `name` of the class `class`, with the scope it was
    /// declared in.
    fn find_method(&self, class: usize, name: &str) -> (r: Option<(&'a FunctionDecl, Option<usize>)>)
        ensures
            match find_method(self@.classes, class as int, name@) {
                Some((m, scope)) => r is Some && ({
                    let found = r->0;
                    found.0@ == m && found.1 == scope
                }),
                None => r is None,
            },
    {
        let mut at = class;
        loop
            invariant
                find_method(self@.classes, at as int, name@) == find_method(
                    self@.classes,
                    class as int,
                    name@,
                ),
            decreases at,
        {
            if at >= self.classes.len() {
                return None;
            }
            assert(self@.classes[at as int] == self.classes[at as int]@);
            let methods: &'a Vec<FunctionDecl> = self.classes[at].methods;
            match Self::last_named(methods, name) {
                Some(m) => {
                    return Some((m, self.classes[at].scope));
                },
                None => {},
            }
            match self.classes[at].superclass {
                Some(s) => {
                    if s < at {
                        at = s;
                    } else {
                        return None;
                    }
                },
                None => {
                    return None;
                },
            }
        }
    }

    /// Binds the method `decl`, declared in `scope`, to the instance
    /// `instance`, and returns the new function.
    fn bound(&mut self, decl: &'a FunctionDecl, scope: Option<usize>, instance: usize) -> (r: usize)
        requires
            old(self)@.env.wf(),
        ensures
            final(self)@.env.wf(),
            final(self)@ == old(self)@.bound(decl@, scope, instance),
            r == old(self)@.closures.len(),
    {
        let current = self.env.current();
        self.env.enter(scope);
        let frame = self.env.current();
        self.env.define("this".to_owned(), Value::Instance(instance));
        self.env.pin(frame);
        self.env.leave(current);
        let initializes = if same_text(decl.name.0.as_str(), "init") {
            Some(instance)
        } else {
            None
        };
        let id = self.closures.len();
        self.closures.push(Closure { decl, scope: frame, initializes });
        assert(self@.closures =~= old(self)@.bound(decl@, scope, instance).closures);
        id
    }

    /// Declares the class `name` with the methods `methods`, which inherits
    /// from the class `superclass`.
    fn declare(&mut self, name: &'a STR, superclass: Option<usize>, methods: &'a Vec<FunctionDecl>) -> (r:
        Action)
        requires
            old(self)@.env.wf(),
        ensures
            final(self)@.env.wf(),
            (final(self)@, r@) == old(self)@.declare(name@, superclass, functions_view(methods@)),
    {
        let current = self.env.current();
        let scope = match superclass {
            Some(s) => {
                self.env.enter(current);
                let frame = self.env.current();
                self.env.define("super".to_owned(), Value::Class(s));
                self.env.pin(frame);
                self.env.leave(current);
                frame
            },
            None => {
                self.env.pin(current);
                current
            },
        };
        let id = self.classes.len();
        self.classes.push(Class { name, superclass, methods, scope });
        self.env.define(name.0.clone(), Value::Class(id));
        assert(self@.classes =~= old(self)@.classes.push(
            ClassView { name: name@, superclass, methods: functions_view(methods@), scope },
        ));
        Action::Continue
    }

    /// Enters a block: a new scope, to be left behind the statements.
    fn begin_block(&mut self, stmts: &'a Vec<Stmt>) -> (r: Action)
        requires
            old(self)@.env.wf(),
        ensures
            final(self)@.env.wf(),
            (final(self)@, r@) == old(self)@.begin_block(stmts_view(stmts@)),
    {
        let current = self.env.current();
        self.env.enter(current);
        self.push(Task::Leave(current));
        self.push(Task::Sequence(stmts, 0));
        Action::Continue
    }

    /// Executes a statement.
    fn visit_stmt(&mut self, stmt: &'a Stmt) -> (r: Action)
        requires
            old(self)@.env.wf(),
        ensures
            final(self)@.env.wf(),
            (final(self)@, r@) == old(self)@.visit_stmt(stmt@),
    {
        match stmt {
            Stmt::Block { stmts } => self.begin_block(stmts),
            Stmt::Class { name, superclass, methods } => match superclass {
                Some(s) => match self.env.get(s.0.as_str()) {
                    Some(Value::Class(id)) => {
                        if id < self.classes.len() {
                            self.declare(name, Some(id), methods)
                        } else {
                            self.fail("Superclass must be a class.".to_owned(), s.1)
                        }
                    },
                    Some(_) => self.fail("Superclass must be a class.".to_owned(), s.1),
                    None => self.fail(Self::undefined(s.0.as_str()), s.1),
                },
                None => self.declare(name, None, methods),
            },
            Stmt::Expression { expr } => {
                self.push(Task::ExprStmt);
                self.push(Task::Eval(expr));
                Action::Continue
            },
            Stmt::Function { decl } => {
                let scope = self.env.current();
                let id = self.closures.len();
                self.closures.push(Closure { decl, scope, initializes: None });
                self.env.pin(scope);
                self.env.define(decl.name.0.clone(), Value::Function(id));
                assert(self@.closures =~= old(self)@.closures.push(
                    ClosureView { decl: decl@, scope, initializes: None },
                ));
                Action::Continue
            },
            Stmt::If { cond, then_branch, else_branch } => {
                let otherwise: Option<&'a Stmt> = match else_branch {
                    Some(e) => Some(&**e),
                    None => None,
                };
                self.push(Task::Branch(&**then_branch, otherwise));
                self.push(Task::Eval(cond));
                Action::Continue
            },
            Stmt::Print { expr } => {
                self.push(Task::Print);
                self.push(Task::Eval(expr));
                Action::Continue
            },
            Stmt::Return { value, .. } => match value {
                Some(e) => {
                    self.push(Task::Return);
                    self.push(Task::Eval(e));
                    Action::Continue
                },
                None => {
                    self.result = Value::Nil;
                    self.mode = Mode::Returning;
                    Action::Continue
                },
            },
            Stmt::Variable { name, initializer } => match initializer {
                Some(e) => {
                    self.push(Task::Define(name));
                    self.push(Task::Eval(e));
                    Action::Continue
                },
                None => {
                    self.env.define(name.0.clone(), Value::Nil);
                    Action::Continue
                },
            },
            Stmt::While { cond, body } => {
                self.push(Task::Loop(stmt, &**body));
                self.push(Task::Eval(cond));
                Action::Continue
            },
        }
    }

    /// `Undefined variable: 'name'.`
    fn undefined(name: &str) -> (r: String)
        ensures
            r@ == undefined_variable(name@),
    {
        join(join("Undefined variable: '".to_owned(), name), "'.")
    }

    /// `Undefined property 'name'.`
    fn no_property(name: &str) -> (r: String)
        ensures
            r@ == undefined_property(name@),
    {
        join(join("Undefined property '".to_owned(), name), "'.")
    }

    /// `Expected N arguments but got M.`
    fn arity(expected: usize, got: usize) -> (r: String)
        ensures
            r@ == crate::machine::wrong_arity(expected as nat, got as nat),
    {
        join(
            join(
                join(join("Expected ".to_owned(), decimal(expected).as_str()), " arguments but got "),
                decimal(got).as_str(),
            ),
            ".",
        )
    }

    /// Evaluates an expression.
    fn visit_expr(&mut self, expr: &'a Expr) -> (r: Action)
        requires
            old(self)@.env.wf(),
        ensures
            final(self)@.env.wf(),
            (final(self)@, r@) == old(self)@.visit_expr(expr@),
    {
        match expr {
            Expr::Assign { name, val } => {
                self.push(Task::AssignTo(name));
                self.push(Task::Eval(&**val));
                Action::Continue
            },
            Expr::Binary { left, op, right } => {
                self.push(Task::Right(*op, &**right));
                self.push(Task::Eval(&**left));
                Action::Continue
            },
            Expr::Call { callee, args } => {
                self.push(Task::Callee(args, callee.line()));
                self.push(Task::Eval(&**callee));
                Action::Continue
            },
            Expr::Get { obj, name } => {
                self.push(Task::GetProp(name));
                self.push(Task::Eval(&**obj));
                Action::Continue
            },
            Expr::Grouping { expr } => {
                self.push(Task::Eval(&**expr));
                Action::Continue
            },
            Expr::Literal { val } => match &val.0 {
                LiteralValue::Number(text) => {
                    self.pending = Pending::Parse(text.clone());
                    Action::ParseNumber(text.clone())
                },
                LiteralValue::String(s) => {
                    self.result = Value::Str(s.clone());
                    Action::Continue
                },
                LiteralValue::Bool(b) => {
                    self.result = Value::Bool(*b);
                    Action::Continue
                },
                LiteralValue::Nil => {
                    self.result = Value::Nil;
                    Action::Continue
                },
            },
            Expr::Logical { left, op, right } => {
                self.push(Task::ShortCircuit(op.0, &**right));
                self.push(Task::Eval(&**left));
                Action::Continue
            },
            Expr::SetProp { obj, name, val } => {
                self.push(Task::SetTarget(name, &**val));
                self.push(Task::Eval(&**obj));
                Action::Continue
            },
            Expr::Super { keyword, method } => {
                let superclass = self.env.get(keyword.0.as_str());
                let this = self.env.get("this");
                match (superclass, this) {
                    (Some(Value::Class(class)), Some(Value::Instance(instance))) => {
                        match self.find_method(class, method.0.as_str()) {
                            Some((decl, scope)) => {
                                let id = self.bound(decl, scope, instance);
                                self.result = Value::Function(id);
                                Action::Continue
                            },
                            None => self.fail(Self::no_property(method.0.as_str()), method.1),
                        }
                    },
                    _ => self.fail(Self::undefined(keyword.0.as_str()), keyword.1),
                }
            },
            Expr::This { keyword } => match self.env.get(keyword.0.as_str()) {
                Some(v) => {
                    self.result = v;
                    Action::Continue
                },
                None => self.fail(Self::undefined(keyword.0.as_str()), keyword.1),
            },
            Expr::Unary { op, right } => {
                self.push(Task::Negate(*op));
                self.push(Task::Eval(&**right));
                Action::Continue
            },
            Expr::Var { name } => match self.env.get(name.0.as_str()) {
                Some(v) => {
                    self.result = v;
                    Action::Continue
                },
                None => self.fail(Self::undefined(name.0.as_str()), name.1),
            },
        }
    }

    /// Goes on with a call: evaluates the next argument, or makes the call.
    fn collect(
        &mut self,
        callee: Value,
        args: &'a Vec<Expr>,
        collected: Vec<Value>,
        line: usize,
    ) -> (r: Action)
        requires
            old(self)@.env.wf(),
        ensures
            final(self)@.env.wf(),
            (final(self)@, r@) == old(self)@.collect(
                callee@,
                crate::ast::exprs_view(args@),
                values_view(collected@),
                line,
            ),
    {
        proof {
            lemma_exprs_view_index(args@);
        }
        if collected.len() < args.len() {
            let next = &args[collected.len()];
            self.push(Task::Collect { callee, args, collected, line });
            self.push(Task::Eval(next));
            Action::Continue
        } else {
            self.invoke(callee, collected, line)
        }
    }

    /// Calls the function `id` with the arguments `args`.
    fn call_function(&mut self, id: usize, args: Vec<Value>, line: usize) -> (r: Action)
        requires
            old(self)@.env.wf(),
            id < old(self)@.closures.len(),
        ensures
            final(self)@.env.wf(),
            (final(self)@, r@) == old(self)@.call_function(id, values_view(args@), line),
    {
        let decl: &'a FunctionDecl = self.closures[id].decl;
        let scope = self.closures[id].scope;
        let initializes = self.closures[id].initializes;
        assert(self@.closures[id as int] == (ClosureView { decl: decl@, scope, initializes }));
        assert(names_view(decl.params@).len() == decl.params.len());
        if decl.params.len() != args.len() {
            return self.fail(Self::arity(decl.params.len(), args.len()), line);
        }
        let current = self.env.current();
        self.env.enter(scope);
        let ghost entered = self.env@;
        let mut i: usize = 0;
        while i < args.len()
            invariant
                i <= args.len(),
                decl.params.len() == args.len(),
                self.env@.wf(),
                bind_all(self.env@, names_view(decl.params@), values_view(args@), i as int)
                    == bind_all(entered, names_view(decl.params@), values_view(args@), 0),
                self.closures == old(self).closures,
                self.classes == old(self).classes,
                self.instances == old(self).instances,
                self.tasks == old(self).tasks,
                self.result == old(self).result,
                self.pending == old(self).pending,
                self.mode == old(self).mode,
                self.has_runtime_error == old(self).has_runtime_error,
                self.is_in_repl == old(self).is_in_repl,
            decreases args.len() - i,
        {
            self.env.define(decl.params[i].0.clone(), args[i].duplicate());
            i += 1;
        }
        match initializes {
            Some(instance) => {
                self.push(Task::FinishInit(current, instance));
            },
            None => {
                self.push(Task::Finish(current));
            },
        }
        self.push(Task::Sequence(&decl.body, 0));
        Action::Continue
    }

    /// Calls `callee` with the arguments `args`.
    fn invoke(&mut self, callee: Value, args: Vec<Value>, line: usize) -> (r: Action)
        requires
            old(self)@.env.wf(),
        ensures
            final(self)@.env.wf(),
            (final(self)@, r@) == old(self)@.invoke(callee@, values_view(args@), line),
    {
        match callee {
            Value::Function(id) => {
                if id < self.closures.len() {
                    self.call_function(id, args, line)
                } else {
                    self.fail("Can only call functions and classes.".to_owned(), line)
                }
            },
            Value::Class(class) => {
                if class < self.classes.len() {
                    let found = self.find_method(class, "init");
                    let instance = self.instances.len();
                    self.instances.push(Instance { class, fields: Bindings::new() });
                    assert(self@.instances =~= old(self)@.instances.push(
                        InstanceView { class, fields: crate::environment::no_bindings() },
                    ));
                    assert(values_view(args@).len() == args.len());
                    match found {
                        Some((decl, scope)) => {
                            let id = self.bound(decl, scope, instance);
                            self.call_function(id, args, line)
                        },
                        None => {
                            if args.len() != 0 {
                                self.fail(Self::arity(0, args.len()), line)
                            } else {
                                self.result = Value::Instance(instance);
                                Action::Continue
                            }
                        },
                    }
                } else {
                    self.fail("Can only call functions and classes.".to_owned(), line)
                }
            },
            _ => self.fail("Can only call functions and classes.".to_owned(), line),
        }
    }

    /// Reads the property `name` of the value computed last.
    fn get_property(&mut self, name: &'a STR) -> (r: Action)
        requires
            old(self)@.env.wf(),
        ensures
            final(self)@.env.wf(),
            (final(self)@, r@) == old(self)@.get_property(name@),
    {
        let id = match self.result {
            Value::Instance(id) => id,
            _ => {
                return self.fail("Only instances have properties.".to_owned(), name.1);
            },
        };
        if id >= self.instances.len() {
            return self.fail("Only instances have properties.".to_owned(), name.1);
        }
        assert(self@.instances[id as int] == self.instances[id as int]@);
        match self.instances[id].fields.get(name.0.as_str()) {
            Some(v) => {
                self.result = v;
                Action::Continue
            },
            None => {
                let class = self.instances[id].class;
                match self.find_method(class, name.0.as_str()) {
                    Some((decl, scope)) => {
                        let function = self.bound(decl, scope, id);
                        self.result = Value::Function(function);
                        Action::Continue
                    },
                    None => self.fail(Self::no_property(name.0.as_str()), name.1),
                }
            },
        }
    }

    /// Does `task`, which was taken from the stack.
    fn run(&mut self, task: Task<'a>) -> (r: Action)
        requires
            old(self)@.env.wf(),
        ensures
            final(self)@.env.wf(),
            (final(self)@, r@) == old(self)@.run(task@),
    {
        match task {
            Task::Exec(stmt) => self.visit_stmt(stmt),
            Task::Sequence(stmts, i) => {
                proof {
                    lemma_stmts_view_index(stmts@);
                }
                if i < stmts.len() {
                    self.push(Task::Sequence(stmts, i + 1));
                    self.push(Task::Exec(&stmts[i]));
                }
                Action::Continue
            },
            Task::Block(stmts) => self.begin_block(stmts),
            Task::Leave(restore) => {
                self.env.leave(restore);
                Action::Continue
            },
            Task::Finish(restore) => {
                self.env.leave(restore);
                self.result = Value::Nil;
                Action::Continue
            },
            Task::FinishInit(restore, instance) => {
                self.env.leave(restore);
                self.result = Value::Instance(instance);
                Action::Continue
            },
            Task::GetProp(name) => self.get_property(name),
            Task::SetTarget(name, val) => {
                let id = match self.result {
                    Value::Instance(id) => id,
                    _ => {
                        return self.fail("Only instances have fields.".to_owned(), name.1);
                    },
                };
                if id >= self.instances.len() {
                    return self.fail("Only instances have fields.".to_owned(), name.1);
                }
                self.push(Task::SetField(id, name));
                self.push(Task::Eval(val));
                Action::Continue
            },
            Task::SetField(id, name) => {
                if id < self.instances.len() {
                    let value = self.result.duplicate();
                    assert(self@.instances[id as int] == self.instances[id as int]@);
                    self.instances[id].fields.insert(name.0.clone(), value);
                    assert(self@.instances =~= old(self)@.run(task@).0.instances);
                }
                Action::Continue
            },
            Task::Eval(expr) => self.visit_expr(expr),
            Task::ExprStmt => {
                if self.is_in_repl {
                    self.show()
                } else {
                    Action::Continue
                }
            },
            Task::Print => self.show(),
            Task::Define(name) => {
                let value = self.result.duplicate();
                self.env.define(name.0.clone(), value);
                Action::Continue
            },
            Task::Branch(then_branch, else_branch) => {
                if self.result.is_true() {
                    self.push(Task::Exec(then_branch));
                } else {
                    match else_branch {
                        Some(e) => {
                            self.push(Task::Exec(e));
                        },
                        None => {},
                    }
                }
                Action::Continue
            },
            Task::Loop(stmt, body) => {
                if self.result.is_true() {
                    self.push(Task::Exec(stmt));
                    self.push(Task::Exec(body));
                }
                Action::Continue
            },
            Task::Return => {
                self.mode = Mode::Returning;
                Action::Continue
            },
            Task::AssignTo(name) => {
                let value = self.result.duplicate();
                match self.env.assign(name.0.clone(), value) {
                    Some(_) => Action::Continue,
                    None => self.fail(Self::undefined(name.0.as_str()), name.1),
                }
            },
            Task::ShortCircuit(op, right) => {
                let keeps = match op {
                    Operator::Or => self.result.is_true(),
                    _ => !self.result.is_true(),
                };
                if !keeps {
                    self.push(Task::Eval(right));
                }
                Action::Continue
            },
            Task::Right(op, right) => {
                let left = self.result.duplicate();
                self.push(Task::Apply(op, left));
                self.push(Task::Eval(right));
                Action::Continue
            },
            Task::Apply(op, left) => {
                let applied = Value::binary(op.0, &left, &self.result);
                self.settle(applied, op.1)
            },
            Task::Negate(op) => {
                let applied = Value::unary(op.0, &self.result);
                self.settle(applied, op.1)
            },
            Task::Callee(args, line) => {
                let callee = self.result.duplicate();
                let none: Vec<Value> = Vec::new();
                assert(values_view(none@) =~= Seq::empty());
                self.collect(callee, args, none, line)
            },
            Task::Collect { callee, args, collected, line } => {
                let mut collected = collected;
                let value = self.result.duplicate();
                let ghost before = collected@;
                collected.push(value);
                assert(values_view(collected@) =~= values_view(before).push(value@));
                self.collect(callee, args, collected, line)
            },
        }
    }

    /// Gives up `task`, which was taken from the stack.
    fn unwind(&mut self, task: Task<'a>) -> (r: Action)
        requires
            old(self)@.env.wf(),
        ensures
            final(self)@.env.wf(),
            (final(self)@, r@) == old(self)@.unwind(task@),
    {
        match task {
            Task::Leave(restore) => {
                self.env.leave(restore);
            },
            Task::Finish(restore) => {
                self.env.leave(restore);
                if self.mode == Mode::Returning {
                    self.mode = Mode::Running;
                }
            },
            Task::FinishInit(restore, instance) => {
                self.env.leave(restore);
                if self.mode == Mode::Returning {
                    self.mode = Mode::Running;
                    self.result = Value::Instance(instance);
                }
            },
            _ => {},
        }
        Action::Continue
    }

    /// Takes the answer `event` to what the machine waits for.
    fn answer(&mut self, event: Event) -> (r: Action)
        ensures
            (final(self)@, r@) == old(self)@.answer(event@),
            final(self)@.env == old(self)@.env,
    {
        match &self.pending {
            Pending::Nothing => Action::Continue,
            Pending::Parse(text) => match event {
                Event::Number(bits) => {
                    self.result = Value::Number(bits);
                    self.pending = Pending::Nothing;
                    Action::Continue
                },
                _ => Action::ParseNumber(text.clone()),
            },
            Pending::Arithmetic(op, a, b) => match event {
                Event::Number(bits) => {
                    self.result = Value::Number(bits);
                    self.pending = Pending::Nothing;
                    Action::Continue
                },
                _ => Action::Arithmetic(*op, *a, *b),
            },
            Pending::Format(bits) => match event {
                Event::Text(text) => {
                    self.pending = Pending::Nothing;
                    Action::Print(number_display(text.as_str()))
                },
                _ => Action::FormatNumber(*bits),
            },
        }
    }

    /// One step of the evaluation.
    ///
    /// Call it with [`Event::Resume`] first, then with the answer to the
    /// action it returned last, until it returns [`Action::Done`].
    ///
    /// Whenever nothing is left to do, the scope is the global one again:
    /// every scope that was entered has been left, also behind a runtime
    /// error.
    pub fn step(&mut self, event: Event) -> (r: Action)
        requires
            old(self)@.wf(),
        ensures
            final(self)@.wf(),
            (final(self)@, r@) == old(self)@.step(event@),
            final(self)@.tasks.len() == 0 ==> final(self)@.env.current == Some(0usize),
    {
        proof {
            lemma_step_keeps_wf(old(self)@, event@);
        }
        if !matches!(self.pending, Pending::Nothing) {
            return self.answer(event);
        }
        let action = self.take(event);
        proof {
            self.env.lemma_countable();
            assert(self@.closures.len() == self.closures.len());
            assert(self@.classes.len() == self.classes.len());
            assert(self@.instances.len() == self.instances.len());
        }
        action
    }

    /// Steps until the host has something to do: the step that takes `event`,
    /// then steps that take [`Event::Resume`] as long as the action is
    /// [`Action::Continue`], `limit` steps at most. Returns the last action.
    ///
    /// However many steps are made, the global scope loses none of its names,
    /// and whenever nothing is left to do, the scope chain is the global scope
    /// alone: every scope that was entered has been left, also behind a
    /// runtime error.
    pub fn proceed(&mut self, event: Event, limit: usize) -> (r: Action)
        requires
            old(self)@.wf(),
        ensures
            final(self)@.wf(),
            (final(self)@, r@) == proceed(old(self)@, event@, limit as nat),
            global_names(old(self)@.env).subset_of(global_names(final(self)@.env)),
            final(self)@.tasks.len() == 0 ==> {
                &&& final(self)@.env.current == Some(0usize)
                &&& final(self)@.env.chain() == seq![final(self)@.env.frames[0].values]
            },
    {
        proof {
            lemma_step_keeps_names(self@, event@);
        }
        let mut action = self.step(event);
        let mut left = limit;
        while matches!(action, Action::Continue) && left > 1
            invariant
                self@.wf(),
                global_names(old(self)@.env).subset_of(global_names(self@.env)),
                proceed(old(self)@, event@, limit as nat) == if action@ is Continue && left > 1 {
                    proceed(self@, EventView::Resume, (left - 1) as nat)
                } else {
                    (self@, action@)
                },
            decreases left,
        {
            proof {
                lemma_step_keeps_names(self@, EventView::Resume);
            }
            action = self.step(Event::Resume);
            left = left - 1;
        }
        proof {
            if self@.tasks.len() == 0 {
                lemma_idle_is_global(self@);
            }
        }
        action
    }

    /// Takes the next task, and does it or gives it up.
    fn take(&mut self, event: Event) -> (r: Action)
        requires
            old(self)@.env.wf(),
            old(self)@.pending is Nothing,
        ensures
            final(self)@.env.wf(),
            (final(self)@, r@) == old(self)@.step(event@),
    {
        match self.tasks.pop() {
            None => {
                let failed = self.has_runtime_error;
                self.mode = Mode::Running;
                self.has_runtime_error = failed && !self.is_in_repl;
                self.is_in_repl = false;
                assert(self@.tasks =~= old(self)@.tasks);
                Action::Done { failed }
            },
            Some(task) => {
                assert(self@.tasks =~= old(self)@.tasks.drop_last());
                assert(old(self)@.tasks.last() == task@);
                if self.mode == Mode::Running {
                    self.run(task)
                } else {
                    self.unwind(task)
                }
            },
        }
    }

    /// Gives the interpreter the statements `roots` to execute, in REPL mode
    /// or not. In REPL mode the value of an expression statement is printed.
    pub fn interpret(&mut self, roots: &'a Vec<Stmt>, is_in_repl: bool)
        ensures
            final(self)@ == (MachineView { is_in_repl, ..old(self)@ }).push(
                TaskView::Sequence(stmts_view(roots@), 0),
            ),
            old(self)@.wf() ==> final(self)@.wf(),
    {
        proof {
            if old(self)@.wf() {
                lemma_push_keeps_wf(
                    MachineView { is_in_repl, ..old(self)@ },
                    TaskView::Sequence(stmts_view(roots@), 0),
                );
            }
        }
        self.is_in_repl = is_in_repl;
        self.push(Task::Sequence(roots, 0));
    }

    /// Gives the interpreter the statement `root` to execute.
    pub fn execute(&mut self, root: &'a Stmt)
        ensures
            final(self)@ == old(self)@.push(TaskView::Exec(root@)),
            old(self)@.wf() ==> final(self)@.wf(),
    {
        proof {
            if old(self)@.wf() {
                lemma_push_keeps_wf(old(self)@, TaskView::Exec(root@));
            }
        }
        self.push(Task::Exec(root));
    }

    /// Gives the interpreter the statements `stmts` to execute in a scope of
    /// their own.
    pub fn execute_block(&mut self, stmts: &'a Vec<Stmt>)
        ensures
            final(self)@ == old(self)@.push(TaskView::Block(stmts_view(stmts@))),
            old(self)@.wf() ==> final(self)@.wf(),
    {
        proof {
            if old(self)@.wf() {
                lemma_push_keeps_wf(old(self)@, TaskView::Block(stmts_view(stmts@)));
            }
        }
        self.push(Task::Block(stmts));
    }

    /// Gives the interpreter the expression `expr` to evaluate.
    pub fn evaluate(&mut self, expr: &'a Expr)
        ensures
            final(self)@ == old(self)@.push(TaskView::Eval(expr@)),
            old(self)@.wf() ==> final(self)@.wf(),
    {
        proof {
            if old(self)@.wf() {
                lemma_push_keeps_wf(old(self)@, TaskView::Eval(expr@));
            }
        }
        self.push(Task::Eval(expr));
    }

    /// Stops printing the values of expression statements.
    pub fn disable_repl_mode(&mut self)
        ensures
            final(self)@ == (MachineView { is_in_repl: false, ..old(self)@ }),
    {
        self.is_in_repl = false;
    }

    /// Starts printing the values of expression statements.
    pub fn enable_repl_mode(&mut self)
        ensures
            final(self)@ == (MachineView { is_in_repl: true, ..old(self)@ }),
    {
        self.is_in_repl = true;
    }

    /// The value computed last.
    pub fn result(&self) -> (r: &Value)
        ensures
            r@ == self@.result,
    {
        &self.result
    }

    /// Whether a runtime error was found.
    pub fn has_runtime_error(&self) -> (r: bool)
        ensures
            r == self@.has_runtime_error,
    {
        self.has_runtime_error
    }

    /// The scopes of the program.
    pub fn env(&self) -> (r: &Env)
        ensures
            r@ == self@.env,
    {
        &self.env
    }
}

impl<'a> Default for Interpreter<'a> {
    /// An interpreter with nothing to do.
    fn default() -> (r: Self)
        ensures
            r@ == MachineView::initial(),
            r@.wf(),
    {
        Interpreter::new()
    }
}

} // verus!
