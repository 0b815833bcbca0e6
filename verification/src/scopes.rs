//! Scopes over a whole run: whatever a program enters it leaves again, and
//! what it binds inside a scope never reaches the global scope.
//!
//! A run is the machine's steps on the answers of its host, one after the
//! other; see [`after`].

use vstd::prelude::*;
use crate::ast::{ExprView, FunctionView, StmtView};
use crate::environment::{
    lemma_bind, lemma_enter, lemma_holder, lemma_leave, lemma_pin, no_bindings, EnvView,
};
use crate::machine::{
    bind_all, find_method, lemma_bind_all, lemma_nested_push, lemma_step_keeps_wf, nested,
    ActionView, EventView, InstanceView, MachineView, Mode, TaskView,
};
use crate::value::ValueView;

verus! {

/// The machine after the steps that take `events`, one by one, from `m` on.
pub open spec fn after(m: MachineView, events: Seq<EventView>) -> MachineView
    decreases events.len(),
{
    if events.len() == 0 {
        m
    } else {
        after(m, events.drop_last()).step(events.last()).0
    }
}

/// The machine and its action after the step that takes `event` and the
/// steps behind it that the host has nothing to do for, `limit` steps at
/// most: the steps go on while the action is `Continue`.
pub open spec fn proceed(m: MachineView, event: EventView, limit: nat) -> (
    MachineView,
    ActionView,
)
    decreases limit,
{
    let (next, action) = m.step(event);
    if action is Continue && limit > 1 {
        proceed(next, EventView::Resume, (limit - 1) as nat)
    } else {
        (next, action)
    }
}

/// Whether every state of the run on `events` from `m` on holds no more than
/// the machine can count.
pub open spec fn countable(m: MachineView, events: Seq<EventView>) -> bool
    decreases events.len(),
{
    after(m, events).fits() && (events.len() > 0 ==> countable(m, events.drop_last()))
}

/// The names that are bound in the global scope.
pub open spec fn global_names(env: EnvView) -> Set<Seq<char>> {
    env.frames[0].values.dom()
}

/// What is bound in the global scope: its names with their values.
pub open spec fn global_bindings(env: EnvView) -> Map<Seq<char>, ValueView> {
    env.frames[0].values
}

/// Whether the global scope is kept from `before` to `later`: no name is
/// lost, and nothing at all changes unless the global scope is the current
/// one in `before`.
pub open spec fn keeps_names(before: EnvView, later: EnvView) -> bool {
    &&& later.frames.len() >= 1
    &&& global_names(before).subset_of(global_names(later))
    &&& before.current != Some(0usize) ==> global_bindings(later) =~= global_bindings(before)
}

/// Whether the global scope holds the same in `before` and `later`.
pub open spec fn same_names(before: EnvView, later: EnvView) -> bool {
    later.frames.len() >= 1 && global_bindings(later) =~= global_bindings(before)
}

/// Whether the global scope holds the same in `before` and `later`, but for
/// the value of `name`, which it held before and which may be `value` now.
pub open spec fn assigned(before: EnvView, later: EnvView, name: Seq<char>, value: ValueView) -> bool {
    &&& later.frames.len() >= 1
    &&& global_names(later) =~= global_names(before)
    &&& {
        ||| global_bindings(later) =~= global_bindings(before)
        ||| global_names(before).contains(name) && global_bindings(later)
            =~= global_bindings(before).insert(name, value)
    }
}

/// Whether one of `tasks` ends a scope.
pub open spec fn inside(tasks: Seq<TaskView>) -> bool {
    exists|i: int| 0 <= i < tasks.len() && (#[trigger] tasks[i]).restores() is Some
}

/// Where the end of a scope is still to come, the current scope is not the
/// global one.
pub proof fn lemma_inside_is_inner(tasks: Seq<TaskView>, current: Option<usize>)
    requires
        nested(tasks, current),
        inside(tasks),
    ensures
        current is Some,
        current->0 > 0,
    decreases tasks.len(),
{
    let i = choose|i: int| 0 <= i < tasks.len() && (#[trigger] tasks[i]).restores() is Some;
    if tasks.last().restores() is None {
        assert(tasks.drop_last()[i] == tasks[i]);
        lemma_inside_is_inner(tasks.drop_last(), current);
    }
}

/// Opening a scope binds no name in the global scope, and the new scope is
/// not the global one.
proof fn lemma_names_enter(env: EnvView, parent: Option<usize>)
    requires
        env.wf(),
        env.keep >= 1,
        env.frames.len() <= usize::MAX,
    ensures
        same_names(env, env.enter(parent)),
        env.enter(parent).current == Some(env.frames.len() as usize),
        env.enter(parent).current != Some(0usize),
        env.enter(parent).wf(),
        env.enter(parent).keep == env.keep,
{
    lemma_enter(env, parent);
}

/// Leaving a scope binds no name in the global scope.
proof fn lemma_names_leave(env: EnvView, restore: Option<usize>)
    requires
        env.wf(),
        env.keep >= 1,
    ensures
        same_names(env, env.leave(restore)),
        env.leave(restore).wf(),
        env.leave(restore).keep == env.keep,
{
    lemma_leave(env, restore);
}

/// Holding on to a frame binds no name in the global scope.
proof fn lemma_names_pin(env: EnvView, handle: Option<usize>)
    requires
        env.wf(),
        env.keep >= 1,
    ensures
        same_names(env, env.pin(handle)),
        env.pin(handle).wf(),
        env.pin(handle).keep == env.keep,
        env.pin(handle).current == env.current,
{
    lemma_pin(env, handle);
}

/// `define` adds its name to the global scope where that is the current
/// one, and leaves the names of the global scope alone elsewhere.
proof fn lemma_names_define(env: EnvView, name: Seq<char>, value: ValueView)
    requires
        env.wf(),
        env.keep >= 1,
    ensures
        keeps_names(env, env.define(name, value)),
        env.define(name, value).wf(),
        env.define(name, value).keep == env.keep,
        env.define(name, value).current == env.current,
{
    lemma_bind(env, name, value);
}

/// `assign` adds no name to the global scope, and changes no value there
/// but that of its name.
proof fn lemma_names_assign(env: EnvView, name: Seq<char>, value: ValueView)
    requires
        env.wf(),
        env.keep >= 1,
    ensures
        assigned(env, env.assign(name, value), name, value),
{
    lemma_bind(env, name, value);
    lemma_holder(env, env.current, name);
}

/// Binding parameters in a scope that is not the global one leaves the
/// names of the global scope alone.
proof fn lemma_names_bind_all(
    env: EnvView,
    params: Seq<(Seq<char>, usize)>,
    values: Seq<ValueView>,
    i: int,
)
    requires
        env.wf(),
        env.keep >= 1,
        env.current != Some(0usize),
    ensures
        same_names(env, bind_all(env, params, values, i)),
    decreases params.len() - i,
{
    if 0 <= i < params.len() && i < values.len() {
        lemma_names_define(env, params[i].0, values[i]);
        lemma_names_bind_all(env.define(params[i].0, values[i]), params, values, i + 1);
    }
}

/// A frame that is made, filled, held on to and left again leaves the names
/// of the global scope alone.
proof fn lemma_names_scoped(env: EnvView, parent: Option<usize>, name: Seq<char>, value: ValueView)
    requires
        env.wf(),
        env.keep >= 1,
        env.frames.len() <= usize::MAX,
    ensures
        same_names(
            env,
            env.enter(parent).define(name, value).pin(Some(env.frames.len() as usize)).leave(
                env.current,
            ),
        ),
{
    let frame = Some(env.frames.len() as usize);
    lemma_names_enter(env, parent);
    let a = env.enter(parent);
    lemma_names_define(a, name, value);
    let b = a.define(name, value);
    lemma_names_pin(b, frame);
    let c = b.pin(frame);
    lemma_names_leave(c, env.current);
}

/// Binding a method leaves the global scope as it is.
proof fn lemma_names_bound(m: MachineView, decl: FunctionView, scope: Option<usize>, instance: usize)
    requires
        m.ordered(),
        m.env.frames.len() <= usize::MAX,
    ensures
        same_names(m.env, m.bound(decl, scope, instance).env),
{
    lemma_names_scoped(m.env, scope, "this"@, ValueView::Instance(instance));
}

/// Declaring a class loses no name of the global scope, and changes nothing
/// there unless the global scope is the current one.
proof fn lemma_names_declare(
    m: MachineView,
    name: (Seq<char>, usize),
    superclass: Option<usize>,
    methods: Seq<FunctionView>,
)
    requires
        m.wf(),
    ensures
        keeps_names(m.env, m.declare(name, superclass, methods).0.env),
{
    let id = ValueView::Class(m.classes.len() as usize);
    match superclass {
        Some(s) => {
            lemma_names_scoped(m.env, m.env.current, "super"@, ValueView::Class(s));
            crate::machine::lemma_scoped_keeps(
                m.env,
                m.env.current,
                "super"@,
                ValueView::Class(s),
            );
            let env = m.env.enter(m.env.current).define("super"@, ValueView::Class(s)).pin(
                Some(m.env.frames.len() as usize),
            ).leave(m.env.current);
            lemma_names_define(env, name.0, id);
        },
        None => {
            lemma_names_pin(m.env, m.env.current);
            lemma_names_define(m.env.pin(m.env.current), name.0, id);
        },
    }
}

/// Calling a function leaves the global scope as it is: the parameters are
/// bound in a scope of their own.
proof fn lemma_names_call_function(m: MachineView, id: usize, args: Seq<ValueView>, line: usize)
    requires
        m.ordered(),
        m.env.frames.len() <= usize::MAX,
        id < m.closures.len(),
    ensures
        same_names(m.env, m.call_function(id, args, line).0.env),
{
    let closure = m.closures[id as int];
    lemma_names_enter(m.env, closure.scope);
    lemma_names_bind_all(m.env.enter(closure.scope), closure.decl.params, args, 0);
}

/// Making a call leaves the global scope as it is.
proof fn lemma_names_invoke(m: MachineView, callee: ValueView, args: Seq<ValueView>, line: usize)
    requires
        m.wf(),
    ensures
        m.invoke(callee, args, line).0.fits() ==> same_names(
            m.env,
            m.invoke(callee, args, line).0.env,
        ),
{
    match callee {
        ValueView::Function(id) => {
            if id < m.closures.len() {
                lemma_names_call_function(m, id, args, line);
            }
        },
        ValueView::Class(class) => {
            if class < m.classes.len() {
                let instance = m.instances.len() as usize;
                let made = MachineView {
                    instances: m.instances.push(InstanceView { class, fields: no_bindings() }),
                    ..m
                };
                match find_method(m.classes, class as int, "init"@) {
                    Some((decl, scope)) => {
                        lemma_names_bound(made, decl, scope, instance);
                        crate::machine::lemma_bound_keeps_wf(made, decl, scope, instance);
                        let bound = made.bound(decl, scope, instance);
                        let closure = bound.closures[m.closures.len() as int];
                        lemma_enter(bound.env, closure.scope);
                        lemma_bind_all(
                            bound.env.enter(closure.scope),
                            closure.decl.params,
                            args,
                            0,
                        );
                        if bound.env.frames.len() <= usize::MAX {
                            lemma_names_call_function(
                                bound,
                                m.closures.len() as usize,
                                args,
                                line,
                            );
                        }
                    },
                    None => {},
                }
            }
        },
        _ => {},
    }
}

/// Going on with a call leaves the global scope as it is.
proof fn lemma_names_collect(
    m: MachineView,
    callee: ValueView,
    args: Seq<ExprView>,
    collected: Seq<ValueView>,
    line: usize,
)
    requires
        m.wf(),
    ensures
        m.collect(callee, args, collected, line).0.fits() ==> same_names(
            m.env,
            m.collect(callee, args, collected, line).0.env,
        ),
{
    if collected.len() >= args.len() {
        lemma_names_invoke(m, callee, collected, line);
    }
}

/// Executing a statement loses no name of the global scope, and changes
/// nothing there unless the global scope is the current one.
proof fn lemma_names_visit_stmt(m: MachineView, stmt: StmtView)
    requires
        m.wf(),
    ensures
        keeps_names(m.env, m.visit_stmt(stmt).0.env),
{
    match stmt {
        StmtView::Block { stmts } => {
            lemma_names_enter(m.env, m.env.current);
        },
        StmtView::Class { name, superclass, methods } => {
            match superclass {
                Some(s) => {
                    match m.env.get(s.0) {
                        Some(ValueView::Class(id)) => {
                            if id < m.classes.len() {
                                lemma_names_declare(m, name, Some(id), methods);
                            }
                        },
                        _ => {},
                    }
                },
                None => {
                    lemma_names_declare(m, name, None, methods);
                },
            }
        },
        StmtView::Function { decl } => {
            lemma_names_pin(m.env, m.env.current);
            lemma_names_define(
                m.env.pin(m.env.current),
                decl.name.0,
                ValueView::Function(m.closures.len() as usize),
            );
        },
        StmtView::Variable { name, initializer } => {
            if initializer is None {
                lemma_names_define(m.env, name.0, ValueView::Nil);
            }
        },
        _ => {},
    }
}

/// Evaluating an expression leaves the global scope as it is.
proof fn lemma_names_visit_expr(m: MachineView, expr: ExprView)
    requires
        m.wf(),
    ensures
        same_names(m.env, m.visit_expr(expr).0.env),
{
    match expr {
        ExprView::Super { keyword, method } => {
            match (m.env.get(keyword.0), m.env.get("this"@)) {
                (Some(ValueView::Class(class)), Some(ValueView::Instance(instance))) => {
                    match find_method(m.classes, class as int, method.0) {
                        Some((decl, scope)) => {
                            lemma_names_bound(m, decl, scope, instance);
                        },
                        None => {},
                    }
                },
                _ => {},
            }
        },
        _ => {},
    }
}

/// Doing a task loses no name of the global scope. Inside a scope it changes
/// nothing there, unless it assigns to a variable.
proof fn lemma_names_run(m: MachineView, task: TaskView)
    requires
        m.push(task).wf(),
    ensures
        m.run(task).0.fits() ==> match task {
            TaskView::AssignTo(name) => assigned(m.env, m.run(task).0.env, name.0, m.result),
            _ => keeps_names(m.env, m.run(task).0.env),
        },
{
    lemma_nested_push(m.tasks, task, m.env.current);
    match task {
        TaskView::Exec(stmt) => {
            lemma_names_visit_stmt(m, stmt);
        },
        TaskView::Block(stmts) => {
            lemma_names_enter(m.env, m.env.current);
        },
        TaskView::Leave(restore) => {
            lemma_names_leave(m.env, restore);
        },
        TaskView::Finish(restore) => {
            lemma_names_leave(m.env, restore);
        },
        TaskView::FinishInit(restore, instance) => {
            lemma_names_leave(m.env, restore);
        },
        TaskView::Eval(expr) => {
            lemma_names_visit_expr(m, expr);
        },
        TaskView::Define(name) => {
            lemma_names_define(m.env, name.0, m.result);
        },
        TaskView::AssignTo(name) => {
            lemma_names_assign(m.env, name.0, m.result);
        },
        TaskView::Callee(args, line) => {
            lemma_names_collect(m, m.result, args, Seq::empty(), line);
        },
        TaskView::Collect { callee, args, collected, line } => {
            lemma_names_collect(m, callee, args, collected.push(m.result), line);
        },
        TaskView::GetProp(name) => {
            match m.result {
                ValueView::Instance(id) => {
                    if id < m.instances.len() {
                        let instance = m.instances[id as int];
                        match find_method(m.classes, instance.class as int, name.0) {
                            Some((decl, scope)) => {
                                lemma_names_bound(m, decl, scope, id);
                            },
                            None => {},
                        }
                    }
                },
                _ => {},
            }
        },
        _ => {},
    }
}

/// Whether the next step of `m` assigns to the variable `name`.
pub open spec fn assigns(m: MachineView, name: Seq<char>) -> bool {
    &&& m.pending is Nothing
    &&& m.mode == Mode::Running
    &&& m.tasks.len() > 0
    &&& m.tasks.last() matches TaskView::AssignTo(n) && n.0 == name
}

/// A step loses no name of the global scope. While the machine is inside a
/// scope, a step changes nothing in the global scope, unless it assigns to a
/// variable that the global scope holds.
pub proof fn lemma_step_keeps_names(m: MachineView, event: EventView)
    requires
        m.wf(),
    ensures
        m.step(event).0.fits() ==> {
            &&& m.step(event).0.env.frames.len() >= 1
            &&& global_names(m.env).subset_of(global_names(m.step(event).0.env))
            &&& m.env.current != Some(0usize) ==> {
                ||| global_bindings(m.step(event).0.env) =~= global_bindings(m.env)
                ||| exists|name: Seq<char>|
                    #[trigger] assigns(m, name) && global_names(m.env).contains(name)
                        && global_bindings(m.step(event).0.env) =~= global_bindings(m.env).insert(
                        name,
                        m.result,
                    )
            }
        },
{
    if m.pending is Nothing && m.tasks.len() > 0 {
        let rest = MachineView { tasks: m.tasks.drop_last(), ..m };
        let task = m.tasks.last();
        assert(rest.tasks.push(task) =~= m.tasks);
        assert(rest.push(task) == m);
        if m.mode == Mode::Running {
            lemma_names_run(rest, task);
            if m.step(event).0.fits() {
                match task {
                    TaskView::AssignTo(name) => {
                        assert(assigns(m, name.0));
                    },
                    _ => {},
                }
            }
        } else {
            match task {
                TaskView::Leave(restore) => {
                    lemma_names_leave(m.env, restore);
                },
                TaskView::Finish(restore) => {
                    lemma_names_leave(m.env, restore);
                },
                TaskView::FinishInit(restore, instance) => {
                    lemma_names_leave(m.env, restore);
                },
                _ => {},
            }
        }
    }
}

/// With nothing left to do, the scope chain is the global scope alone.
pub proof fn lemma_idle_is_global(m: MachineView)
    requires
        m.wf(),
        m.tasks.len() == 0,
    ensures
        m.env.current == Some(0usize),
        m.env.chain() == seq![m.env.frames[0].values],
{
    assert(m.env.frames[0].parent is None);
    assert(m.env.chain() =~= seq![m.env.frames[0].values]);
}

/// Scope discipline over a run. From a machine whose scopes are in order,
/// whatever the host answers:
/// - the scopes stay in order;
/// - whenever nothing is left to do, the scope chain is the global scope
///   alone, as before the run: every scope that was entered has been left,
///   also behind a runtime error;
/// - the global scope has lost none of its names.
pub proof fn lemma_run_leaves_every_scope(m: MachineView, events: Seq<EventView>)
    requires
        m.wf(),
        countable(m, events),
    ensures
        after(m, events).wf(),
        after(m, events).tasks.len() == 0 ==> {
            &&& after(m, events).env.current == Some(0usize)
            &&& after(m, events).env.chain() == seq![after(m, events).env.frames[0].values]
        },
        global_names(m.env).subset_of(global_names(after(m, events).env)),
    decreases events.len(),
{
    if events.len() > 0 {
        let before = after(m, events.drop_last());
        lemma_run_leaves_every_scope(m, events.drop_last());
        lemma_step_keeps_wf(before, events.last());
        lemma_step_keeps_names(before, events.last());
    }
    if after(m, events).tasks.len() == 0 {
        lemma_idle_is_global(after(m, events));
    }
}

/// What is bound inside a scope never reaches the global scope: while the
/// end of a scope is still to come, a step leaves the global scope as it is.
/// Only an assignment to a variable that the global scope holds changes
/// that variable's value.
pub proof fn lemma_inner_step_binds_no_global(m: MachineView, event: EventView)
    requires
        m.wf(),
        inside(m.tasks),
        m.step(event).0.fits(),
    ensures
        global_names(m.step(event).0.env) =~= global_names(m.env),
        !(exists|name: Seq<char>| assigns(m, name)) ==> global_bindings(m.step(event).0.env)
            =~= global_bindings(m.env),
{
    lemma_inside_is_inner(m.tasks, m.env.current);
    lemma_step_keeps_names(m, event);
}

} // verus!
