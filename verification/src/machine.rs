//! The evaluator as a machine: its states, and the step from one state to the
//! next.
//!
//! The machine holds the work still to do as a stack of tasks. One step
//! takes the task on top and does it, which may put new tasks on the stack.
//! Where a step needs what the machine cannot do itself (printing, and
//! arithmetic on numbers), it hands an action to the host and takes the
//! answer as the event of the next step.

use vstd::prelude::*;
use crate::ast::{ExprView, FunctionView, LiteralView, Operator, PosedOperator, StmtView};
use crate::environment::{
    lemma_bind, lemma_enter, lemma_leave, lemma_pin, no_bindings, EnvView,
};
use crate::text::{decimal_of, number_text};
use crate::value::{binary, unary, AppliedView, ValueView};

verus! {

/// What the machine is doing.
#[derive(Clone, Copy, Debug, PartialEq, Eq, Structural)]
pub enum Mode {
    /// Doing the tasks, one by one.
    Running,
    /// Leaving a function after `return`: giving up tasks until the call is
    /// reached.
    Returning,
    /// Leaving the program after a runtime error: giving up all tasks.
    Failing,
}

/// What the host is asked to do.
pub enum ActionView {
    /// Nothing: step again.
    Continue,
    /// Print the line to the standard output.
    Print(Seq<char>),
    /// Print the runtime error `message`, found on `line`, to the standard
    /// error.
    Report { message: Seq<char>, line: usize },
    /// Answer with the number that the text stands for.
    ParseNumber(Seq<char>),
    /// Answer with the number `left op right`.
    Arithmetic(Operator, u64, u64),
    /// Answer with the shortest decimal form of the number.
    FormatNumber(u64),
    /// Nothing is left to do. `failed` says whether a runtime error ended
    /// the run.
    Done { failed: bool },
}

/// What the host answers.
pub enum EventView {
    /// Nothing was asked.
    Resume,
    /// The number that was asked for, by its bits.
    Number(u64),
    /// The text that was asked for.
    Text(Seq<char>),
}

/// What the machine waits for.
pub enum PendingView {
    Nothing,
    /// The number that the text stands for.
    Parse(Seq<char>),
    /// The number `left op right`.
    Arithmetic(Operator, u64, u64),
    /// The shortest decimal form of the number, to print it.
    Format(u64),
}

/// A function with the scope it was declared in.
pub struct ClosureView {
    pub decl: FunctionView,
    pub scope: Option<usize>,
    /// For the initializer of an instance, that instance: it is what the
    /// call returns.
    pub initializes: Option<usize>,
}

/// A class: its name, the class it inherits from, its methods and the scope
/// they were declared in.
pub struct ClassView {
    pub name: (Seq<char>, usize),
    pub superclass: Option<usize>,
    pub methods: Seq<FunctionView>,
    pub scope: Option<usize>,
}

/// An instance: its class and its fields.
pub struct InstanceView {
    pub class: usize,
    pub fields: Map<Seq<char>, ValueView>,
}

/// A piece of work. Where a task speaks of "the value", it means the value
/// computed last.
pub enum TaskView {
    /// Execute the statement.
    Exec(StmtView),
    /// Execute the statements from the given index on.
    Sequence(Seq<StmtView>, int),
    /// Execute the statements in a scope of their own.
    Block(Seq<StmtView>),
    /// Leave the innermost scope for the given one.
    Leave(Option<usize>),
    /// The end of a function's body: leave its scope for the given one. A
    /// function that gets here without `return` returns `nil`.
    Finish(Option<usize>),
    /// The end of an initializer's body: leave its scope for the given one.
    /// The call returns the instance.
    FinishInit(Option<usize>, usize),
    /// Evaluate the expression.
    Eval(ExprView),
    /// The end of an expression statement: print the value in REPL mode.
    ExprStmt,
    /// Print the value.
    Print,
    /// Define the variable with the value.
    Define((Seq<char>, usize)),
    /// Execute the first statement if the value is truthy, else the second.
    Branch(StmtView, Option<StmtView>),
    /// If the value is truthy, execute the body and then the loop again.
    Loop(StmtView, StmtView),
    /// Return the value from the function.
    Return,
    /// Assign the value to the variable.
    AssignTo((Seq<char>, usize)),
    /// The value is the left operand of `and` or `or`: keep it, or evaluate
    /// the right operand.
    ShortCircuit(Operator, ExprView),
    /// The value is the left operand: evaluate the right one.
    Right(PosedOperator, ExprView),
    /// The value is the right operand: apply the operator.
    Apply(PosedOperator, ValueView),
    /// The value is the operand: apply the unary operator.
    Negate(PosedOperator),
    /// The value is what is called: evaluate the arguments.
    Callee(Seq<ExprView>, usize),
    /// The value is the next argument: evaluate the rest, then call.
    Collect { callee: ValueView, args: Seq<ExprView>, collected: Seq<ValueView>, line: usize },
    /// The value is an object: read the property.
    GetProp((Seq<char>, usize)),
    /// The value is an object: evaluate the expression, then write the
    /// property.
    SetTarget((Seq<char>, usize), ExprView),
    /// Write the value to the field of the instance.
    SetField(usize, (Seq<char>, usize)),
}

/// The state of the machine.
pub struct MachineView {
    pub env: EnvView,
    /// The functions declared so far, and the methods bound to an instance.
    pub closures: Seq<ClosureView>,
    /// The classes declared so far.
    pub classes: Seq<ClassView>,
    /// The instances made so far.
    pub instances: Seq<InstanceView>,
    /// The work to do; the last task is the next.
    pub tasks: Seq<TaskView>,
    /// The value computed last.
    pub result: ValueView,
    pub pending: PendingView,
    pub mode: Mode,
    pub has_runtime_error: bool,
    pub is_in_repl: bool,
}

/// `Undefined variable: 'name'.`
pub open spec fn undefined_variable(name: Seq<char>) -> Seq<char> {
    "Undefined variable: '"@ + name + "'."@
}

/// `Undefined property 'name'.`
pub open spec fn undefined_property(name: Seq<char>) -> Seq<char> {
    "Undefined property '"@ + name + "'."@
}

/// The last of `methods` that is named `name`.
pub open spec fn last_named(methods: Seq<FunctionView>, name: Seq<char>) -> Option<FunctionView>
    decreases methods.len(),
{
    if methods.len() == 0 {
        None
    } else if methods.last().name.0 == name {
        Some(methods.last())
    } else {
        last_named(methods.drop_last(), name)
    }
}

/// The method `name` of the class `class`, with the scope it was declared in:
/// the class's own, or else that of the nearest class it inherits from.
pub open spec fn find_method(classes: Seq<ClassView>, class: int, name: Seq<char>) -> Option<
    (FunctionView, Option<usize>),
>
    decreases class,
{
    if 0 <= class < classes.len() {
        match last_named(classes[class].methods, name) {
            Some(method) => Some((method, classes[class].scope)),
            None => match classes[class].superclass {
                Some(s) => if s < class {
                    find_method(classes, s as int, name)
                } else {
                    None
                },
                None => None,
            },
        }
    } else {
        None
    }
}

/// `Expected N arguments but got M.`
pub open spec fn wrong_arity(expected: nat, got: nat) -> Seq<char> {
    "Expected "@ + decimal_of(expected) + " arguments but got "@ + decimal_of(got) + "."@
}

/// The environment with each of `params` defined as the value of `values` at
/// the same place, from index `i` on.
pub open spec fn bind_all(
    env: EnvView,
    params: Seq<(Seq<char>, usize)>,
    values: Seq<ValueView>,
    i: int,
) -> EnvView
    decreases params.len() - i,
{
    if 0 <= i < params.len() && i < values.len() {
        bind_all(env.define(params[i].0, values[i]), params, values, i + 1)
    } else {
        env
    }
}

impl TaskView {
    /// The scope that the task goes back to, if it is the end of a scope.
    pub open spec fn restores(self) -> Option<Option<usize>> {
        match self {
            TaskView::Leave(restore) => Some(restore),
            TaskView::Finish(restore) => Some(restore),
            TaskView::FinishInit(restore, _) => Some(restore),
            _ => None,
        }
    }
}

/// Whether the scopes that `tasks` go back to lie around each other, from
/// the current frame out to the global one: each end of a scope on the stack
/// goes back to a frame that was made before the frame it leaves, and the
/// undermost goes back to the global frame. Without an end of a scope on the
/// stack, the current frame is the global one.
pub open spec fn nested(tasks: Seq<TaskView>, current: Option<usize>) -> bool
    decreases tasks.len(),
{
    if tasks.len() == 0 {
        current == Some(0usize)
    } else {
        match tasks.last().restores() {
            Some(restore) => {
                &&& current is Some
                &&& restore is Some
                &&& restore->0 < current->0
                &&& nested(tasks.drop_last(), restore)
            },
            None => nested(tasks.drop_last(), current),
        }
    }
}

/// With nested scopes there is a current frame.
pub proof fn lemma_nested_current(tasks: Seq<TaskView>, current: Option<usize>)
    requires
        nested(tasks, current),
    ensures
        current is Some,
    decreases tasks.len(),
{
    if tasks.len() > 0 {
        match tasks.last().restores() {
            Some(restore) => {},
            None => {
                lemma_nested_current(tasks.drop_last(), current);
            },
        }
    }
}

/// One task more on the stack.
pub proof fn lemma_nested_push(tasks: Seq<TaskView>, task: TaskView, current: Option<usize>)
    ensures
        nested(tasks.push(task), current) == match task.restores() {
            Some(restore) => current is Some && restore is Some && restore->0 < current->0
                && nested(tasks, restore),
            None => nested(tasks, current),
        },
{
    assert(tasks.push(task).drop_last() =~= tasks);
}

/// Binding the parameters changes neither the frames' order nor the current
/// one.
pub proof fn lemma_bind_all(
    env: EnvView,
    params: Seq<(Seq<char>, usize)>,
    values: Seq<ValueView>,
    i: int,
)
    requires
        env.wf(),
    ensures
        bind_all(env, params, values, i).wf(),
        bind_all(env, params, values, i).keep == env.keep,
        bind_all(env, params, values, i).current == env.current,
        bind_all(env, params, values, i).frames.len() == env.frames.len(),
    decreases params.len() - i,
{
    if 0 <= i < params.len() && i < values.len() {
        lemma_bind(env, params[i].0, values[i]);
        lemma_bind_all(env.define(params[i].0, values[i]), params, values, i + 1);
    }
}

impl MachineView {
    /// The scopes are in order: the environment is well-formed, the global
    /// frame is kept, and the scopes that the tasks go back to lie around
    /// each other, out to the global one.
    pub open spec fn wf(self) -> bool {
        self.ordered() && self.fits()
    }

    /// The environment is well-formed, the global frame is kept, and the
    /// scopes that the tasks go back to lie around each other.
    pub open spec fn ordered(self) -> bool {
        &&& self.env.wf()
        &&& self.env.keep >= 1
        &&& nested(self.tasks, self.env.current)
    }

    /// The frames, functions, classes and instances can be counted by the
    /// machine.
    pub open spec fn fits(self) -> bool {
        &&& self.env.frames.len() <= usize::MAX
        &&& self.closures.len() <= usize::MAX
        &&& self.classes.len() <= usize::MAX
        &&& self.instances.len() <= usize::MAX
    }

    /// `self` is in order, unless it holds more than can be counted.
    pub open spec fn sound(self) -> bool {
        self.fits() ==> self.wf()
    }

    /// The machine before the first program: one scope, no variables, no
    /// functions, nothing to do.
    pub open spec fn initial() -> MachineView {
        MachineView {
            env: EnvView::global(),
            closures: Seq::empty(),
            classes: Seq::empty(),
            instances: Seq::empty(),
            tasks: Seq::empty(),
            result: ValueView::Nil,
            pending: PendingView::Nothing,
            mode: Mode::Running,
            has_runtime_error: false,
            is_in_repl: false,
        }
    }

    /// The machine with one task more.
    pub open spec fn push(self, task: TaskView) -> MachineView {
        MachineView { tasks: self.tasks.push(task), ..self }
    }

    /// The machine with `value` as the value computed last.
    pub open spec fn yields(self, value: ValueView) -> MachineView {
        MachineView { result: value, ..self }
    }

    /// A runtime error: it is reported, and the machine starts to give up
    /// its tasks.
    pub open spec fn fail(self, message: Seq<char>, line: usize) -> (MachineView, ActionView) {
        (
            MachineView { has_runtime_error: true, mode: Mode::Failing, ..self },
            ActionView::Report { message, line },
        )
    }

    /// What becomes of the result of an operator that stands on `line`.
    pub open spec fn settle(self, applied: AppliedView, line: usize) -> (MachineView, ActionView) {
        match applied {
            AppliedView::Value(v) => (self.yields(v), ActionView::Continue),
            AppliedView::Arithmetic(op, a, b) => (
                MachineView { pending: PendingView::Arithmetic(op, a, b), ..self },
                ActionView::Arithmetic(op, a, b),
            ),
            AppliedView::Error(message) => self.fail(message, line),
        }
    }

    /// The name of the class `id`.
    pub open spec fn class_name(self, id: usize) -> Seq<char> {
        if id < self.classes.len() {
            self.classes[id as int].name.0
        } else {
            "class"@
        }
    }

    /// The method `decl`, declared in `scope`, bound to the instance
    /// `instance`: a new function, the last of the closures, in whose scope
    /// `this` is the instance.
    pub open spec fn bound(self, decl: FunctionView, scope: Option<usize>, instance: usize) -> MachineView {
        let frame = self.env.frames.len() as usize;
        MachineView {
            env: self.env.enter(scope).define("this"@, ValueView::Instance(instance)).pin(
                Some(frame),
            ).leave(self.env.current),
            closures: self.closures.push(
                ClosureView {
                    decl,
                    scope: Some(frame),
                    initializes: if decl.name.0 == "init"@ {
                        Some(instance)
                    } else {
                        None
                    },
                },
            ),
            ..self
        }
    }

    /// The class `name` with the methods `methods`, which inherits from the
    /// class `superclass`, declared: the methods see `super` where there is
    /// a superclass.
    pub open spec fn declare(
        self,
        name: (Seq<char>, usize),
        superclass: Option<usize>,
        methods: Seq<FunctionView>,
    ) -> (MachineView, ActionView) {
        let frame = self.env.frames.len() as usize;
        let env = match superclass {
            Some(s) => self.env.enter(self.env.current).define("super"@, ValueView::Class(s)).pin(
                Some(frame),
            ).leave(self.env.current),
            None => self.env.pin(self.env.current),
        };
        let scope = match superclass {
            Some(s) => Some(frame),
            None => self.env.current,
        };
        (
            MachineView {
                env: env.define(name.0, ValueView::Class(self.classes.len() as usize)),
                classes: self.classes.push(ClassView { name, superclass, methods, scope }),
                ..self
            },
            ActionView::Continue,
        )
    }

    /// How a value that is no number is printed.
    pub open spec fn text_of(self, value: ValueView) -> Seq<char> {
        match value {
            ValueView::Number(_) => Seq::empty(),
            ValueView::Str(s) => s,
            ValueView::Bool(b) => if b {
                "true"@
            } else {
                "false"@
            },
            ValueView::Nil => "nil"@,
            ValueView::Function(id) => if id < self.closures.len() {
                "<fn "@ + self.closures[id as int].decl.name.0 + ">"@
            } else {
                "<fn>"@
            },
            ValueView::Class(id) => self.class_name(id),
            ValueView::Instance(id) => if id < self.instances.len() {
                self.class_name(self.instances[id as int].class) + " instance"@
            } else {
                "instance"@
            },
        }
    }

    /// Printing the value computed last. For a number, the host is first
    /// asked for its decimal form.
    pub open spec fn show(self) -> (MachineView, ActionView) {
        match self.result {
            ValueView::Number(bits) => (
                MachineView { pending: PendingView::Format(bits), ..self },
                ActionView::FormatNumber(bits),
            ),
            v => (self, ActionView::Print(self.text_of(v))),
        }
    }

    /// Entering a block: a new scope, to be left behind the statements.
    pub open spec fn begin_block(self, stmts: Seq<StmtView>) -> (MachineView, ActionView) {
        (
            MachineView {
                env: self.env.enter(self.env.current),
                tasks: self.tasks.push(TaskView::Leave(self.env.current)).push(
                    TaskView::Sequence(stmts, 0),
                ),
                ..self
            },
            ActionView::Continue,
        )
    }

    /// Executing a statement.
    pub open spec fn visit_stmt(self, stmt: StmtView) -> (MachineView, ActionView) {
        match stmt {
            StmtView::Block { stmts } => self.begin_block(stmts),
            StmtView::Class { name, superclass, methods } => match superclass {
                Some(s) => match self.env.get(s.0) {
                    Some(ValueView::Class(id)) => if id < self.classes.len() {
                        self.declare(name, Some(id), methods)
                    } else {
                        self.fail("Superclass must be a class."@, s.1)
                    },
                    Some(_) => self.fail("Superclass must be a class."@, s.1),
                    None => self.fail(undefined_variable(s.0), s.1),
                },
                None => self.declare(name, None, methods),
            },
            StmtView::Expression { expr } => (
                self.push(TaskView::ExprStmt).push(TaskView::Eval(expr)),
                ActionView::Continue,
            ),
            StmtView::Function { decl } => (
                MachineView {
                    closures: self.closures.push(
                        ClosureView { decl, scope: self.env.current, initializes: None },
                    ),
                    env: self.env.pin(self.env.current).define(
                        decl.name.0,
                        ValueView::Function(self.closures.len() as usize),
                    ),
                    ..self
                },
                ActionView::Continue,
            ),
            StmtView::If { cond, then_branch, else_branch } => (
                self.push(
                    TaskView::Branch(
                        *then_branch,
                        match else_branch {
                            Some(e) => Some(*e),
                            None => None,
                        },
                    ),
                ).push(TaskView::Eval(cond)),
                ActionView::Continue,
            ),
            StmtView::Print { expr } => (
                self.push(TaskView::Print).push(TaskView::Eval(expr)),
                ActionView::Continue,
            ),
            StmtView::Return { value, .. } => match value {
                Some(e) => (
                    self.push(TaskView::Return).push(TaskView::Eval(e)),
                    ActionView::Continue,
                ),
                None => (
                    MachineView { result: ValueView::Nil, mode: Mode::Returning, ..self },
                    ActionView::Continue,
                ),
            },
            StmtView::Variable { name, initializer } => match initializer {
                Some(e) => (
                    self.push(TaskView::Define(name)).push(TaskView::Eval(e)),
                    ActionView::Continue,
                ),
                None => (
                    MachineView { env: self.env.define(name.0, ValueView::Nil), ..self },
                    ActionView::Continue,
                ),
            },
            StmtView::While { cond, body } => (
                self.push(TaskView::Loop(stmt, *body)).push(TaskView::Eval(cond)),
                ActionView::Continue,
            ),
        }
    }

    /// Evaluating an expression.
    pub open spec fn visit_expr(self, expr: ExprView) -> (MachineView, ActionView) {
        match expr {
            ExprView::Assign { name, val } => (
                self.push(TaskView::AssignTo(name)).push(TaskView::Eval(*val)),
                ActionView::Continue,
            ),
            ExprView::Binary { left, op, right } => (
                self.push(TaskView::Right(op, *right)).push(TaskView::Eval(*left)),
                ActionView::Continue,
            ),
            ExprView::Call { callee, args } => (
                self.push(TaskView::Callee(args, callee.line())).push(TaskView::Eval(*callee)),
                ActionView::Continue,
            ),
            ExprView::Get { obj, name } => (
                self.push(TaskView::GetProp(name)).push(TaskView::Eval(*obj)),
                ActionView::Continue,
            ),
            ExprView::Grouping { expr } => (self.push(TaskView::Eval(*expr)), ActionView::Continue),
            ExprView::Literal { val } => match val.0 {
                LiteralView::Number(text) => (
                    MachineView { pending: PendingView::Parse(text), ..self },
                    ActionView::ParseNumber(text),
                ),
                LiteralView::String(s) => (self.yields(ValueView::Str(s)), ActionView::Continue),
                LiteralView::Bool(b) => (self.yields(ValueView::Bool(b)), ActionView::Continue),
                LiteralView::Nil => (self.yields(ValueView::Nil), ActionView::Continue),
            },
            ExprView::Logical { left, op, right } => (
                self.push(TaskView::ShortCircuit(op.0, *right)).push(TaskView::Eval(*left)),
                ActionView::Continue,
            ),
            ExprView::SetProp { obj, name, val } => (
                self.push(TaskView::SetTarget(name, *val)).push(TaskView::Eval(*obj)),
                ActionView::Continue,
            ),
            ExprView::Super { keyword, method } => match (
                self.env.get(keyword.0),
                self.env.get("this"@),
            ) {
                (Some(ValueView::Class(class)), Some(ValueView::Instance(instance))) => match find_method(
                    self.classes,
                    class as int,
                    method.0,
                ) {
                    Some((decl, scope)) => (
                        self.bound(decl, scope, instance).yields(
                            ValueView::Function(self.closures.len() as usize),
                        ),
                        ActionView::Continue,
                    ),
                    None => self.fail(undefined_property(method.0), method.1),
                },
                _ => self.fail(undefined_variable(keyword.0), keyword.1),
            },
            ExprView::This { keyword } => match self.env.get(keyword.0) {
                Some(v) => (self.yields(v), ActionView::Continue),
                None => self.fail(undefined_variable(keyword.0), keyword.1),
            },
            ExprView::Unary { op, right } => (
                self.push(TaskView::Negate(op)).push(TaskView::Eval(*right)),
                ActionView::Continue,
            ),
            ExprView::Var { name } => match self.env.get(name.0) {
                Some(v) => (self.yields(v), ActionView::Continue),
                None => self.fail(undefined_variable(name.0), name.1),
            },
        }
    }

    /// Calling `callee` with the arguments `args`, `collected` of which are
    /// evaluated: the next argument is evaluated, or the call is made.
    pub open spec fn collect(
        self,
        callee: ValueView,
        args: Seq<ExprView>,
        collected: Seq<ValueView>,
        line: usize,
    ) -> (MachineView, ActionView) {
        if collected.len() < args.len() {
            (
                self.push(TaskView::Collect { callee, args, collected, line }).push(
                    TaskView::Eval(args[collected.len() as int]),
                ),
                ActionView::Continue,
            )
        } else {
            self.invoke(callee, collected, line)
        }
    }

    /// The call of the function `id` with the arguments `args`: a new scope
    /// inside the one the function was declared in, with the parameters
    /// defined, and the body to execute there.
    pub open spec fn call_function(self, id: usize, args: Seq<ValueView>, line: usize) -> (
        MachineView,
        ActionView,
    ) {
        let closure = self.closures[id as int];
        if closure.decl.params.len() != args.len() {
            self.fail(wrong_arity(closure.decl.params.len(), args.len()), line)
        } else {
            (
                MachineView {
                    env: bind_all(self.env.enter(closure.scope), closure.decl.params, args, 0),
                    tasks: self.tasks.push(
                        match closure.initializes {
                            Some(instance) => TaskView::FinishInit(self.env.current, instance),
                            None => TaskView::Finish(self.env.current),
                        },
                    ).push(TaskView::Sequence(closure.decl.body, 0)),
                    ..self
                },
                ActionView::Continue,
            )
        }
    }

    /// The call of `callee` with the arguments `args`. A function is called.
    /// A class makes a new instance, which its method `init` gets to see
    /// first, with the arguments; without such a method the class takes no
    /// arguments.
    pub open spec fn invoke(self, callee: ValueView, args: Seq<ValueView>, line: usize) -> (
        MachineView,
        ActionView,
    ) {
        match callee {
            ValueView::Function(id) => if id < self.closures.len() {
                self.call_function(id, args, line)
            } else {
                self.fail("Can only call functions and classes."@, line)
            },
            ValueView::Class(class) => if class < self.classes.len() {
                let instance = self.instances.len() as usize;
                let made = MachineView {
                    instances: self.instances.push(
                        InstanceView { class, fields: no_bindings() },
                    ),
                    ..self
                };
                match find_method(self.classes, class as int, "init"@) {
                    Some((decl, scope)) => made.bound(decl, scope, instance).call_function(
                        self.closures.len() as usize,
                        args,
                        line,
                    ),
                    None => if args.len() != 0 {
                        made.fail(wrong_arity(0, args.len()), line)
                    } else {
                        (made.yields(ValueView::Instance(instance)), ActionView::Continue)
                    },
                }
            } else {
                self.fail("Can only call functions and classes."@, line)
            },
            _ => self.fail("Can only call functions and classes."@, line),
        }
    }

    /// Reading the property `name` of the value computed last: a field of
    /// the instance, or else a method of its class, bound to the instance.
    pub open spec fn get_property(self, name: (Seq<char>, usize)) -> (MachineView, ActionView) {
        match self.result {
            ValueView::Instance(id) => if id < self.instances.len() {
                let instance = self.instances[id as int];
                if instance.fields.dom().contains(name.0) {
                    (self.yields(instance.fields[name.0]), ActionView::Continue)
                } else {
                    match find_method(self.classes, instance.class as int, name.0) {
                        Some((decl, scope)) => (
                            self.bound(decl, scope, id).yields(
                                ValueView::Function(self.closures.len() as usize),
                            ),
                            ActionView::Continue,
                        ),
                        None => self.fail(undefined_property(name.0), name.1),
                    }
                }
            } else {
                self.fail("Only instances have properties."@, name.1)
            },
            _ => self.fail("Only instances have properties."@, name.1),
        }
    }

    /// Doing `task`, which was taken from the stack.
    pub open spec fn run(self, task: TaskView) -> (MachineView, ActionView) {
        match task {
            TaskView::Exec(stmt) => self.visit_stmt(stmt),
            TaskView::Sequence(stmts, i) => if 0 <= i < stmts.len() {
                (
                    self.push(TaskView::Sequence(stmts, i + 1)).push(TaskView::Exec(stmts[i])),
                    ActionView::Continue,
                )
            } else {
                (self, ActionView::Continue)
            },
            TaskView::Block(stmts) => self.begin_block(stmts),
            TaskView::Leave(restore) => (
                MachineView { env: self.env.leave(restore), ..self },
                ActionView::Continue,
            ),
            TaskView::Finish(restore) => (
                MachineView { env: self.env.leave(restore), result: ValueView::Nil, ..self },
                ActionView::Continue,
            ),
            TaskView::FinishInit(restore, instance) => (
                MachineView {
                    env: self.env.leave(restore),
                    result: ValueView::Instance(instance),
                    ..self
                },
                ActionView::Continue,
            ),
            TaskView::Eval(expr) => self.visit_expr(expr),
            TaskView::ExprStmt => if self.is_in_repl {
                self.show()
            } else {
                (self, ActionView::Continue)
            },
            TaskView::Print => self.show(),
            TaskView::Define(name) => (
                MachineView { env: self.env.define(name.0, self.result), ..self },
                ActionView::Continue,
            ),
            TaskView::Branch(then_branch, else_branch) => if self.result.truthy() {
                (self.push(TaskView::Exec(then_branch)), ActionView::Continue)
            } else {
                match else_branch {
                    Some(e) => (self.push(TaskView::Exec(e)), ActionView::Continue),
                    None => (self, ActionView::Continue),
                }
            },
            TaskView::Loop(stmt, body) => if self.result.truthy() {
                (
                    self.push(TaskView::Exec(stmt)).push(TaskView::Exec(body)),
                    ActionView::Continue,
                )
            } else {
                (self, ActionView::Continue)
            },
            TaskView::Return => (
                MachineView { mode: Mode::Returning, ..self },
                ActionView::Continue,
            ),
            TaskView::AssignTo(name) => match self.env.get(name.0) {
                Some(_) => (
                    MachineView { env: self.env.assign(name.0, self.result), ..self },
                    ActionView::Continue,
                ),
                None => self.fail(undefined_variable(name.0), name.1),
            },
            TaskView::ShortCircuit(op, right) => if (op == Operator::Or)
                == self.result.truthy() {
                (self, ActionView::Continue)
            } else {
                (self.push(TaskView::Eval(right)), ActionView::Continue)
            },
            TaskView::Right(op, right) => (
                self.push(TaskView::Apply(op, self.result)).push(TaskView::Eval(right)),
                ActionView::Continue,
            ),
            TaskView::Apply(op, left) => self.settle(binary(op.0, left, self.result), op.1),
            TaskView::Negate(op) => self.settle(unary(op.0, self.result), op.1),
            TaskView::Callee(args, line) => self.collect(self.result, args, Seq::empty(), line),
            TaskView::Collect { callee, args, collected, line } => self.collect(
                callee,
                args,
                collected.push(self.result),
                line,
            ),
            TaskView::GetProp(name) => self.get_property(name),
            TaskView::SetTarget(name, val) => match self.result {
                ValueView::Instance(id) => if id < self.instances.len() {
                    (
                        self.push(TaskView::SetField(id, name)).push(TaskView::Eval(val)),
                        ActionView::Continue,
                    )
                } else {
                    self.fail("Only instances have fields."@, name.1)
                },
                _ => self.fail("Only instances have fields."@, name.1),
            },
            TaskView::SetField(id, name) => if id < self.instances.len() {
                (
                    MachineView {
                        instances: self.instances.update(
                            id as int,
                            InstanceView {
                                fields: self.instances[id as int].fields.insert(
                                    name.0,
                                    self.result,
                                ),
                                ..self.instances[id as int]
                            },
                        ),
                        ..self
                    },
                    ActionView::Continue,
                )
            } else {
                (self, ActionView::Continue)
            },
        }
    }

    /// Giving up `task`, which was taken from the stack: a scope is left, the
    /// end of a function's body ends a `return`, and every other task is
    /// dropped.
    pub open spec fn unwind(self, task: TaskView) -> (MachineView, ActionView) {
        match task {
            TaskView::Leave(restore) => (
                MachineView { env: self.env.leave(restore), ..self },
                ActionView::Continue,
            ),
            TaskView::Finish(restore) => (
                MachineView {
                    env: self.env.leave(restore),
                    mode: if self.mode == Mode::Returning {
                        Mode::Running
                    } else {
                        self.mode
                    },
                    ..self
                },
                ActionView::Continue,
            ),
            TaskView::FinishInit(restore, instance) => (
                MachineView {
                    env: self.env.leave(restore),
                    mode: if self.mode == Mode::Returning {
                        Mode::Running
                    } else {
                        self.mode
                    },
                    result: if self.mode == Mode::Returning {
                        ValueView::Instance(instance)
                    } else {
                        self.result
                    },
                    ..self
                },
                ActionView::Continue,
            ),
            _ => (self, ActionView::Continue),
        }
    }

    /// The end of the run: nothing is left to do.
    pub open spec fn finish(self) -> (MachineView, ActionView) {
        (
            MachineView {
                mode: Mode::Running,
                has_runtime_error: self.has_runtime_error && !self.is_in_repl,
                is_in_repl: false,
                ..self
            },
            ActionView::Done { failed: self.has_runtime_error },
        )
    }

    /// The answer `event` to what the machine waits for. An answer of the
    /// wrong kind has the question asked again.
    pub open spec fn answer(self, event: EventView) -> (MachineView, ActionView) {
        match self.pending {
            PendingView::Nothing => (self, ActionView::Continue),
            PendingView::Parse(text) => match event {
                EventView::Number(bits) => (
                    MachineView {
                        result: ValueView::Number(bits),
                        pending: PendingView::Nothing,
                        ..self
                    },
                    ActionView::Continue,
                ),
                _ => (self, ActionView::ParseNumber(text)),
            },
            PendingView::Arithmetic(op, a, b) => match event {
                EventView::Number(bits) => (
                    MachineView {
                        result: ValueView::Number(bits),
                        pending: PendingView::Nothing,
                        ..self
                    },
                    ActionView::Continue,
                ),
                _ => (self, ActionView::Arithmetic(op, a, b)),
            },
            PendingView::Format(bits) => match event {
                EventView::Text(text) => (
                    MachineView { pending: PendingView::Nothing, ..self },
                    ActionView::Print(number_text(text)),
                ),
                _ => (self, ActionView::FormatNumber(bits)),
            },
        }
    }

    /// One step of the machine.
    ///
    /// Where the machine waits for an answer, the step takes it. Else it
    /// takes the task on top of the stack and does it or, behind a `return`
    /// or a runtime error, gives it up. With no task left it is done.
    pub open spec fn step(self, event: EventView) -> (MachineView, ActionView) {
        if !(self.pending is Nothing) {
            self.answer(event)
        } else if self.tasks.len() == 0 {
            self.finish()
        } else {
            let rest = MachineView { tasks: self.tasks.drop_last(), ..self };
            if self.mode == Mode::Running {
                rest.run(self.tasks.last())
            } else {
                rest.unwind(self.tasks.last())
            }
        }
    }
}

/// With one task more, which ends no scope, the scopes stay in order.
pub proof fn lemma_push_keeps_wf(m: MachineView, task: TaskView)
    requires
        m.wf(),
        task.restores() is None,
    ensures
        m.push(task).wf(),
{
    lemma_nested_push(m.tasks, task, m.env.current);
}

/// With two tasks more, which end no scope, the scopes stay in order.
proof fn lemma_push_two(m: MachineView, first: TaskView, second: TaskView)
    requires
        m.wf(),
        first.restores() is None,
        second.restores() is None,
    ensures
        m.push(first).push(second).wf(),
{
    lemma_push_keeps_wf(m, first);
    lemma_push_keeps_wf(m.push(first), second);
}

/// Entering a scope, with its end on the stack, keeps the scopes in order.
proof fn lemma_scope_keeps_wf(m: MachineView, end: TaskView, env: EnvView)
    requires
        m.wf(),
        end.restores() == Some(m.env.current),
        env.wf(),
        env.keep == m.env.keep,
        env.current == Some(m.env.frames.len() as usize),
        env.frames.len() == m.env.frames.len() + 1,
    ensures
        (MachineView { env, tasks: m.tasks.push(end), ..m }).sound(),
{
    lemma_nested_current(m.tasks, m.env.current);
    lemma_nested_push(m.tasks, end, env.current);
}

/// Leaving a scope, whose end was taken from the stack, keeps the scopes in
/// order: the frame that the end goes back to exists, and is the current one
/// afterwards.
proof fn lemma_leave_keeps_wf(m: MachineView, restore: Option<usize>)
    requires
        m.env.wf(),
        m.env.keep >= 1,
        m.fits(),
        m.env.current is Some,
        restore is Some,
        restore->0 < m.env.current->0,
        nested(m.tasks, restore),
    ensures
        (MachineView { env: m.env.leave(restore), ..m }).wf(),
        m.env.leave(restore).current == restore,
{
    lemma_leave(m.env, restore);
}

/// A frame that is made, filled, held on to and left again changes neither
/// the current frame nor the frames to keep.
pub proof fn lemma_scoped_keeps(env: EnvView, parent: Option<usize>, name: Seq<char>, value: ValueView)
    requires
        env.wf(),
        env.frames.len() <= usize::MAX,
    ensures
        env.enter(parent).define(name, value).pin(Some(env.frames.len() as usize)).leave(
            env.current,
        ).wf(),
        env.enter(parent).define(name, value).pin(Some(env.frames.len() as usize)).leave(
            env.current,
        ).keep == env.keep,
        env.enter(parent).define(name, value).pin(Some(env.frames.len() as usize)).leave(
            env.current,
        ).current == env.current,
        env.enter(parent).define(name, value).pin(Some(env.frames.len() as usize)).leave(
            env.current,
        ).frames.len() == env.frames.len() + 1,
{
    let frame = Some(env.frames.len() as usize);
    lemma_enter(env, parent);
    let a = env.enter(parent);
    lemma_bind(a, name, value);
    let b = a.define(name, value);
    lemma_pin(b, frame);
    let c = b.pin(frame);
    lemma_leave(c, env.current);
    assert(c.frames.last().pinned);
}

/// Binding a method keeps the scopes in order, and the tasks as they are.
pub proof fn lemma_bound_keeps_wf(
    m: MachineView,
    decl: FunctionView,
    scope: Option<usize>,
    instance: usize,
)
    requires
        m.ordered(),
        m.env.frames.len() <= usize::MAX,
    ensures
        m.bound(decl, scope, instance).ordered(),
        m.bound(decl, scope, instance).tasks == m.tasks,
        m.bound(decl, scope, instance).env.current == m.env.current,
        m.bound(decl, scope, instance).env.frames.len() == m.env.frames.len() + 1,
        m.bound(decl, scope, instance).closures.len() == m.closures.len() + 1,
{
    lemma_scoped_keeps(m.env, scope, "this"@, ValueView::Instance(instance));
}

/// Declaring a class keeps the scopes in order.
pub proof fn lemma_declare_keeps_wf(
    m: MachineView,
    name: (Seq<char>, usize),
    superclass: Option<usize>,
    methods: Seq<FunctionView>,
)
    requires
        m.wf(),
    ensures
        m.declare(name, superclass, methods).0.sound(),
{
    let id = ValueView::Class(m.classes.len() as usize);
    match superclass {
        Some(s) => {
            lemma_scoped_keeps(m.env, m.env.current, "super"@, ValueView::Class(s));
            let env = m.env.enter(m.env.current).define("super"@, ValueView::Class(s)).pin(
                Some(m.env.frames.len() as usize),
            ).leave(m.env.current);
            lemma_bind(env, name.0, id);
        },
        None => {
            lemma_pin(m.env, m.env.current);
            lemma_bind(m.env.pin(m.env.current), name.0, id);
        },
    }
}

/// Calling a function keeps the scopes in order.
pub proof fn lemma_call_function_keeps_wf(m: MachineView, id: usize, args: Seq<ValueView>, line: usize)
    requires
        m.env.wf(),
        m.sound(),
        id < m.closures.len(),
    ensures
        m.call_function(id, args, line).0.sound(),
{
    let closure = m.closures[id as int];
    lemma_enter(m.env, closure.scope);
    lemma_bind_all(m.env.enter(closure.scope), closure.decl.params, args, 0);
    if closure.decl.params.len() == args.len() && m.fits() {
        let c = m.env.current;
        let env = bind_all(m.env.enter(closure.scope), closure.decl.params, args, 0);
        let end = match closure.initializes {
            Some(instance) => TaskView::FinishInit(c, instance),
            None => TaskView::Finish(c),
        };
        lemma_scope_keeps_wf(m, end, env);
        let entered = MachineView { env, tasks: m.tasks.push(end), ..m };
        if entered.fits() {
            lemma_push_keeps_wf(entered, TaskView::Sequence(closure.decl.body, 0));
        }
    }
}

/// Entering a block keeps the scopes in order.
pub proof fn lemma_begin_block_keeps_wf(m: MachineView, stmts: Seq<StmtView>)
    requires
        m.wf(),
    ensures
        m.begin_block(stmts).0.sound(),
{
    let c = m.env.current;
    lemma_enter(m.env, c);
    lemma_scope_keeps_wf(m, TaskView::Leave(c), m.env.enter(c));
    let entered = MachineView { env: m.env.enter(c), tasks: m.tasks.push(TaskView::Leave(c)), ..m };
    if entered.fits() {
        lemma_push_keeps_wf(entered, TaskView::Sequence(stmts, 0));
    }
}

/// Executing a statement keeps the scopes in order.
pub proof fn lemma_visit_stmt_keeps_wf(m: MachineView, stmt: StmtView)
    requires
        m.wf(),
    ensures
        m.visit_stmt(stmt).0.sound(),
{
    let c = m.env.current;
    match stmt {
        StmtView::Block { stmts } => {
            lemma_begin_block_keeps_wf(m, stmts);
        },
        StmtView::Class { name, superclass, methods } => {
            match superclass {
                Some(s) => {
                    match m.env.get(s.0) {
                        Some(ValueView::Class(id)) => {
                            if id < m.classes.len() {
                                lemma_declare_keeps_wf(m, name, Some(id), methods);
                            }
                        },
                        _ => {},
                    }
                },
                None => {
                    lemma_declare_keeps_wf(m, name, None, methods);
                },
            }
        },
        StmtView::Expression { expr } => {
            lemma_push_two(m, TaskView::ExprStmt, TaskView::Eval(expr));
        },
        StmtView::Function { decl } => {
            lemma_pin(m.env, c);
            lemma_bind(
                m.env.pin(c),
                decl.name.0,
                ValueView::Function(m.closures.len() as usize),
            );
        },
        StmtView::If { cond, then_branch, else_branch } => {
            let t = TaskView::Branch(
                *then_branch,
                match else_branch {
                    Some(e) => Some(*e),
                    None => None,
                },
            );
            lemma_push_two(m, t, TaskView::Eval(cond));
        },
        StmtView::Print { expr } => {
            lemma_push_two(m, TaskView::Print, TaskView::Eval(expr));
        },
        StmtView::Return { value, .. } => {
            match value {
                Some(e) => {
                    lemma_push_two(m, TaskView::Return, TaskView::Eval(e));
                },
                None => {},
            }
        },
        StmtView::Variable { name, initializer } => {
            match initializer {
                Some(e) => {
                    lemma_push_two(m, TaskView::Define(name), TaskView::Eval(e));
                },
                None => {
                    lemma_bind(m.env, name.0, ValueView::Nil);
                },
            }
        },
        StmtView::While { cond, body } => {
            lemma_push_two(m, TaskView::Loop(stmt, *body), TaskView::Eval(cond));
        },
    }
}

/// Evaluating an expression keeps the scopes in order.
pub proof fn lemma_visit_expr_keeps_wf(m: MachineView, expr: ExprView)
    requires
        m.wf(),
    ensures
        m.visit_expr(expr).0.sound(),
{
    match expr {
        ExprView::Assign { name, val } => {
            lemma_push_two(m, TaskView::AssignTo(name), TaskView::Eval(*val));
        },
        ExprView::Binary { left, op, right } => {
            lemma_push_two(m, TaskView::Right(op, *right), TaskView::Eval(*left));
        },
        ExprView::Call { callee, args } => {
            lemma_push_two(m, TaskView::Callee(args, callee.line()), TaskView::Eval(*callee));
        },
        ExprView::Get { obj, name } => {
            lemma_push_two(m, TaskView::GetProp(name), TaskView::Eval(*obj));
        },
        ExprView::SetProp { obj, name, val } => {
            lemma_push_two(m, TaskView::SetTarget(name, *val), TaskView::Eval(*obj));
        },
        ExprView::Super { keyword, method } => {
            match (m.env.get(keyword.0), m.env.get("this"@)) {
                (Some(ValueView::Class(class)), Some(ValueView::Instance(instance))) => {
                    match find_method(m.classes, class as int, method.0) {
                        Some((decl, scope)) => {
                            lemma_bound_keeps_wf(m, decl, scope, instance);
                        },
                        None => {},
                    }
                },
                _ => {},
            }
        },
        ExprView::Grouping { expr } => {
            lemma_push_keeps_wf(m, TaskView::Eval(*expr));
        },
        ExprView::Logical { left, op, right } => {
            lemma_push_two(m, TaskView::ShortCircuit(op.0, *right), TaskView::Eval(*left));
        },
        ExprView::Unary { op, right } => {
            lemma_push_two(m, TaskView::Negate(op), TaskView::Eval(*right));
        },
        _ => {},
    }
}

/// Making a call keeps the scopes in order.
pub proof fn lemma_invoke_keeps_wf(m: MachineView, callee: ValueView, args: Seq<ValueView>, line: usize)
    requires
        m.wf(),
    ensures
        m.invoke(callee, args, line).0.sound(),
{
    match callee {
        ValueView::Function(id) => {
            if id < m.closures.len() {
                lemma_call_function_keeps_wf(m, id, args, line);
            }
        },
        ValueView::Class(class) => {
            if class < m.classes.len() {
                let instance = m.instances.len() as usize;
                let made = MachineView {
                    instances: m.instances.push(InstanceView { class, fields: no_bindings() }),
                    ..m
                };
                match find_method(m.classes, class as int, "init"@) {
                    Some((decl, scope)) => {
                        lemma_bound_keeps_wf(made, decl, scope, instance);
                        let bound = made.bound(decl, scope, instance);
                        lemma_scoped_keeps(
                            made.env,
                            scope,
                            "this"@,
                            ValueView::Instance(instance),
                        );
                        lemma_call_function_keeps_wf(
                            bound,
                            m.closures.len() as usize,
                            args,
                            line,
                        );
                    },
                    None => {},
                }
            }
        },
        _ => {},
    }
}

/// Going on with a call keeps the scopes in order.
pub proof fn lemma_collect_keeps_wf(
    m: MachineView,
    callee: ValueView,
    args: Seq<ExprView>,
    collected: Seq<ValueView>,
    line: usize,
)
    requires
        m.wf(),
    ensures
        m.collect(callee, args, collected, line).0.sound(),
{
    if collected.len() < args.len() {
        lemma_push_two(
            m,
            TaskView::Collect { callee, args, collected, line },
            TaskView::Eval(args[collected.len() as int]),
        );
    } else {
        lemma_invoke_keeps_wf(m, callee, collected, line);
    }
}

/// Doing a task keeps the scopes in order.
pub proof fn lemma_run_keeps_wf(m: MachineView, task: TaskView)
    requires
        m.push(task).wf(),
    ensures
        m.run(task).0.sound(),
{
    lemma_nested_push(m.tasks, task, m.env.current);
    match task {
        TaskView::Exec(stmt) => {
            lemma_visit_stmt_keeps_wf(m, stmt);
        },
        TaskView::Sequence(stmts, i) => {
            if 0 <= i < stmts.len() {
                lemma_push_two(m, TaskView::Sequence(stmts, i + 1), TaskView::Exec(stmts[i]));
            }
        },
        TaskView::Block(stmts) => {
            lemma_begin_block_keeps_wf(m, stmts);
        },
        TaskView::Leave(restore) => {
            lemma_leave_keeps_wf(m, restore);
        },
        TaskView::Finish(restore) => {
            lemma_leave_keeps_wf(m, restore);
        },
        TaskView::FinishInit(restore, instance) => {
            lemma_leave_keeps_wf(m, restore);
        },
        TaskView::GetProp(name) => {
            match m.result {
                ValueView::Instance(id) => {
                    if id < m.instances.len() {
                        let instance = m.instances[id as int];
                        match find_method(m.classes, instance.class as int, name.0) {
                            Some((decl, scope)) => {
                                lemma_bound_keeps_wf(m, decl, scope, id);
                            },
                            None => {},
                        }
                    }
                },
                _ => {},
            }
        },
        TaskView::SetTarget(name, val) => {
            match m.result {
                ValueView::Instance(id) => {
                    lemma_push_two(m, TaskView::SetField(id, name), TaskView::Eval(val));
                },
                _ => {},
            }
        },
        TaskView::Eval(expr) => {
            lemma_visit_expr_keeps_wf(m, expr);
        },
        TaskView::Define(name) => {
            lemma_bind(m.env, name.0, m.result);
        },
        TaskView::Branch(then_branch, else_branch) => {
            lemma_push_keeps_wf(m, TaskView::Exec(then_branch));
            match else_branch {
                Some(e) => {
                    lemma_push_keeps_wf(m, TaskView::Exec(e));
                },
                None => {},
            }
        },
        TaskView::Loop(stmt, body) => {
            lemma_push_two(m, TaskView::Exec(stmt), TaskView::Exec(body));
        },
        TaskView::AssignTo(name) => {
            lemma_bind(m.env, name.0, m.result);
        },
        TaskView::ShortCircuit(op, right) => {
            lemma_push_keeps_wf(m, TaskView::Eval(right));
        },
        TaskView::Right(op, right) => {
            lemma_push_two(m, TaskView::Apply(op, m.result), TaskView::Eval(right));
        },
        TaskView::Callee(args, line) => {
            lemma_collect_keeps_wf(m, m.result, args, Seq::empty(), line);
        },
        TaskView::Collect { callee, args, collected, line } => {
            lemma_collect_keeps_wf(m, callee, args, collected.push(m.result), line);
        },
        _ => {},
    }
}

/// Giving up a task keeps the scopes in order.
pub proof fn lemma_unwind_keeps_wf(m: MachineView, task: TaskView)
    requires
        m.push(task).wf(),
    ensures
        m.unwind(task).0.wf(),
{
    lemma_nested_push(m.tasks, task, m.env.current);
    match task {
        TaskView::Leave(restore) => {
            lemma_leave_keeps_wf(m, restore);
        },
        TaskView::Finish(restore) => {
            lemma_leave_keeps_wf(m, restore);
        },
        TaskView::FinishInit(restore, instance) => {
            lemma_leave_keeps_wf(m, restore);
        },
        _ => {},
    }
}

/// Every step keeps the scopes in order, as long as what the machine holds
/// can be counted. So whenever the machine has nothing left to do, the scope it is
/// in is the global one, as before the first step: whatever was entered has
/// been left, also behind a runtime error.
pub proof fn lemma_step_keeps_wf(m: MachineView, event: EventView)
    requires
        m.wf(),
    ensures
        m.step(event).0.sound(),
        m.step(event).0.fits() && m.step(event).0.tasks.len() == 0 ==> m.step(event).0.env.current
            == Some(0usize),
        m.step(event).1 is Done ==> m.step(event).0.env == m.env && m.env.current == Some(
            0usize,
        ),
{
    if m.pending is Nothing && m.tasks.len() > 0 {
        let rest = MachineView { tasks: m.tasks.drop_last(), ..m };
        let task = m.tasks.last();
        assert(rest.tasks.push(task) =~= m.tasks);
        assert(rest.push(task) == m);
        if m.mode == Mode::Running {
            lemma_run_keeps_wf(rest, task);
        } else {
            lemma_unwind_keeps_wf(rest, task);
        }
    }
}

/// In a machine whose scopes are in order, the frame that the next task goes
/// back to, if it ends a scope, exists: no scope is left for a frame that
/// was given up.
pub proof fn lemma_restore_exists(m: MachineView)
    requires
        m.wf(),
        m.tasks.len() > 0,
        m.tasks.last().restores() is Some,
    ensures
        m.tasks.last().restores()->0 is Some,
        m.env.valid(m.tasks.last().restores()->0),
        m.env.leave(m.tasks.last().restores()->0).current == m.tasks.last().restores()->0,
{
    lemma_leave(m.env, m.tasks.last().restores()->0);
}

} // verus!
