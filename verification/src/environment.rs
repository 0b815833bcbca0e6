//! The environment: frames of variables, each with the frame around it.
//!
//! The frames are kept in one list and named by their index there. A frame's
//! parent is the frame of the scope around it, so the frames from the current
//! one outwards form the scope chain. A closure keeps the index of the frame
//! it was made in.
//!
//! Each frame keeps its variables in a `dashmap::DashMap`, see [`Bindings`].
//! The four wrappers at the end of this module call it; their contracts are
//! believed, not proved.

use vstd::prelude::*;
use dashmap::DashMap;
use std::hash::RandomState;
use crate::value::{Value, ValueView};

verus! {

/// `dashmap::DashMap`, a hash map. Nothing is known of what is inside one
/// but through [`bindings`].
#[verifier::external_type_specification]
#[verifier::external_body]
#[verifier::reject_recursive_types(K)]
#[verifier::reject_recursive_types(V)]
#[verifier::reject_recursive_types(S)]
pub struct ExDashMap<K, V, S>(DashMap<K, V, S>);

/// What a map of variables holds: each name with its value.
pub uninterp spec fn bindings(map: DashMap<String, Value, RandomState>) -> Map<
    Seq<char>,
    ValueView,
>;

/// No variables.
pub open spec fn no_bindings() -> Map<Seq<char>, ValueView> {
    Map::empty()
}

/// Names with their values: the variables of a scope, or the fields of an
/// instance.
pub struct Bindings {
    map: DashMap<String, Value, RandomState>,
}

impl View for Bindings {
    type V = Map<Seq<char>, ValueView>;

    closed spec fn view(&self) -> Map<Seq<char>, ValueView> {
        bindings(self.map)
    }
}

impl Bindings {
    /// No names.
    pub fn new() -> (r: Bindings)
        ensures
            r@ == no_bindings(),
    {
        Bindings { map: map_new() }
    }

    /// Whether `name` has a value.
    pub fn contains(&self, name: &str) -> (r: bool)
        ensures
            r == self@.dom().contains(name@),
    {
        map_contains(&self.map, name)
    }

    /// The value of `name`, if it has one.
    pub fn get(&self, name: &str) -> (r: Option<Value>)
        ensures
            r is Some == self@.dom().contains(name@),
            r is Some ==> r->0@ == self@[name@],
    {
        map_get(&self.map, name)
    }

    /// Gives `name` the value `value`, and returns the value it had.
    pub fn insert(&mut self, name: String, value: Value) -> (r: Option<Value>)
        ensures
            final(self)@ == old(self)@.insert(name@, value@),
            r is Some == old(self)@.dom().contains(name@),
            r is Some ==> r->0@ == old(self)@[name@],
    {
        map_insert(&mut self.map, name, value)
    }
}

/// One scope: its variables and the scope around it.
pub struct EnvFrame {
    values: Bindings,
    parent: Option<usize>,
    pinned: bool,
}

/// What an [`EnvFrame`] holds.
pub struct FrameView {
    /// The variables of the scope.
    pub values: Map<Seq<char>, ValueView>,
    /// The frame of the scope around this one.
    pub parent: Option<usize>,
    /// Whether a closure holds on to this frame.
    pub pinned: bool,
}

impl View for EnvFrame {
    type V = FrameView;

    closed spec fn view(&self) -> FrameView {
        FrameView { values: self.values@, parent: self.parent, pinned: self.pinned }
    }
}

/// The views of `frames`, in order.
pub open spec fn frames_view(frames: Seq<EnvFrame>) -> Seq<FrameView> {
    frames.map_values(|f: EnvFrame| f@)
}

/// The scopes of a program at one moment.
pub struct Env {
    frames: Vec<EnvFrame>,
    /// The frame of the innermost scope.
    current: Option<usize>,
    /// The first frames, which are never given up.
    keep: usize,
}

/// What an [`Env`] holds.
pub struct EnvView {
    pub frames: Seq<FrameView>,
    /// The frame of the innermost scope.
    pub current: Option<usize>,
    /// The number of frames, from the first, that are never given up.
    pub keep: nat,
}

impl View for Env {
    type V = EnvView;

    closed spec fn view(&self) -> EnvView {
        EnvView {
            frames: frames_view(self.frames@),
            current: self.current,
            keep: self.keep as nat,
        }
    }
}

impl EnvView {
    /// One scope, the global one, without variables.
    pub open spec fn global() -> EnvView {
        EnvView {
            frames: seq![FrameView { values: no_bindings(), parent: None, pinned: false }],
            current: Some(0),
            keep: 1,
        }
    }

    /// Whether `handle` names no frame or a frame that exists.
    pub open spec fn valid(self, handle: Option<usize>) -> bool {
        handle is None || handle->0 < self.frames.len()
    }

    /// `handle` where it is valid, else no frame.
    pub open spec fn checked(self, handle: Option<usize>) -> Option<usize> {
        if self.valid(handle) {
            handle
        } else {
            None
        }
    }

    /// The current frame exists, and every parent was made before its child.
    pub open spec fn wf(self) -> bool {
        &&& self.valid(self.current)
        &&& self.keep <= self.frames.len()
        &&& forall|i: int|
            0 <= i < self.frames.len() ==> (#[trigger] self.frames[i]).parent is Some
                ==> self.frames[i].parent->0 < i
    }

    /// The scope chain from `handle` outwards: the variables of each scope,
    /// innermost first.
    pub open spec fn chain_from(self, handle: Option<usize>) -> Seq<Map<Seq<char>, ValueView>>
        decreases
                (match handle {
                    Some(i) => i + 1,
                    None => 0,
                }),
    {
        match handle {
            None => Seq::empty(),
            Some(i) => if i < self.frames.len() {
                seq![self.frames[i as int].values] + (match self.frames[i as int].parent {
                    Some(p) => if p < i {
                        self.chain_from(Some(p))
                    } else {
                        Seq::empty()
                    },
                    None => Seq::empty(),
                })
            } else {
                Seq::empty()
            },
        }
    }

    /// The scope chain: the variables of each scope, innermost first.
    pub open spec fn chain(self) -> Seq<Map<Seq<char>, ValueView>> {
        self.chain_from(self.current)
    }

    /// The first frame from `handle` outwards that holds `name`.
    pub open spec fn holder(self, handle: Option<usize>, name: Seq<char>) -> Option<usize>
        decreases
                (match handle {
                    Some(i) => i + 1,
                    None => 0,
                }),
    {
        match handle {
            None => None,
            Some(i) => if i < self.frames.len() {
                if self.frames[i as int].values.dom().contains(name) {
                    Some(i)
                } else {
                    match self.frames[i as int].parent {
                        Some(p) => if p < i {
                            self.holder(Some(p), name)
                        } else {
                            None
                        },
                        None => None,
                    }
                }
            } else {
                None
            },
        }
    }

    /// The value of `name`: that of the innermost scope that holds it.
    pub open spec fn get(self, name: Seq<char>) -> Option<ValueView> {
        match self.holder(self.current, name) {
            Some(i) => Some(self.frames[i as int].values[name]),
            None => None,
        }
    }

    /// The environment with `name` bound to `value` in frame `i`.
    pub open spec fn bind(self, i: int, name: Seq<char>, value: ValueView) -> EnvView {
        EnvView {
            frames: self.frames.update(
                i,
                FrameView { values: self.frames[i].values.insert(name, value), ..self.frames[i] },
            ),
            ..self
        }
    }

    /// `name` bound to `value` in the innermost scope.
    pub open spec fn define(self, name: Seq<char>, value: ValueView) -> EnvView {
        match self.current {
            Some(i) => if i < self.frames.len() {
                self.bind(i as int, name, value)
            } else {
                self
            },
            None => self,
        }
    }

    /// `name` bound to `value` in the innermost scope that holds it; nothing
    /// changes where no scope holds it.
    pub open spec fn assign(self, name: Seq<char>, value: ValueView) -> EnvView {
        match self.holder(self.current, name) {
            Some(i) => self.bind(i as int, name, value),
            None => self,
        }
    }

    /// A new, empty scope inside the scope of `parent`, as the innermost.
    pub open spec fn enter(self, parent: Option<usize>) -> EnvView {
        EnvView {
            frames: self.frames.push(
                FrameView { values: no_bindings(), parent: self.checked(parent), pinned: false },
            ),
            current: Some(self.frames.len() as usize),
            ..self
        }
    }

    /// Whether the current frame is given up when it is left for `target`:
    /// it is the newest frame, no closure holds on to it, and it is not
    /// among the frames to keep.
    pub open spec fn gives_up(self, target: Option<usize>) -> bool {
        &&& self.frames.len() > self.keep
        &&& self.current == Some((self.frames.len() - 1) as usize)
        &&& !self.frames.last().pinned
        &&& target != self.current
    }

    /// The scope of `restore` as the innermost again.
    pub open spec fn leave(self, restore: Option<usize>) -> EnvView {
        let target = self.checked(restore);
        if self.gives_up(target) {
            EnvView { frames: self.frames.drop_last(), current: target, ..self }
        } else {
            EnvView { current: target, ..self }
        }
    }

    /// The frame around the current one.
    pub open spec fn outer(self) -> Option<usize> {
        match self.current {
            Some(i) => if i < self.frames.len() {
                self.frames[i as int].parent
            } else {
                None
            },
            None => None,
        }
    }

    /// The frame `handle` held on to.
    pub open spec fn pin(self, handle: Option<usize>) -> EnvView {
        match handle {
            Some(i) => if i < self.frames.len() {
                EnvView {
                    frames: self.frames.update(
                        i as int,
                        FrameView { pinned: true, ..self.frames[i as int] },
                    ),
                    ..self
                }
            } else {
                self
            },
            None => self,
        }
    }
}

/// Opening a scope keeps the environment well-formed and gives up no frame.
pub proof fn lemma_enter(env: EnvView, parent: Option<usize>)
    requires
        env.wf(),
    ensures
        env.enter(parent).wf(),
        env.enter(parent).keep == env.keep,
        env.enter(parent).frames.len() == env.frames.len() + 1,
{
}

/// Leaving a scope keeps the environment well-formed, keeps the frames to
/// keep, and makes the frame that was asked for the current one.
pub proof fn lemma_leave(env: EnvView, restore: Option<usize>)
    requires
        env.wf(),
    ensures
        env.leave(restore).wf(),
        env.leave(restore).keep == env.keep,
        env.leave(restore).current == env.checked(restore),
        env.leave(restore).frames.len() >= env.keep,
{
}

/// Binding a variable changes neither the frames' order nor the current one.
pub proof fn lemma_bind(env: EnvView, name: Seq<char>, value: ValueView)
    requires
        env.wf(),
    ensures
        env.define(name, value).wf(),
        env.define(name, value).keep == env.keep,
        env.define(name, value).current == env.current,
        env.define(name, value).frames.len() == env.frames.len(),
        env.assign(name, value).wf(),
        env.assign(name, value).keep == env.keep,
        env.assign(name, value).current == env.current,
        env.assign(name, value).frames.len() == env.frames.len(),
{
    lemma_holder(env, env.current, name);
}

/// The frame that holds a name exists and holds it.
pub proof fn lemma_holder(env: EnvView, handle: Option<usize>, name: Seq<char>)
    ensures
        env.holder(handle, name) is Some ==> {
            &&& handle is Some
            &&& env.holder(handle, name)->0 <= handle->0
            &&& env.holder(handle, name)->0 < env.frames.len()
            &&& env.frames[env.holder(handle, name)->0 as int].values.dom().contains(name)
        },
    decreases
            (match handle {
                Some(i) => i + 1,
                None => 0,
            }),
{
    match handle {
        None => {},
        Some(i) => {
            if i < env.frames.len() && !env.frames[i as int].values.dom().contains(name) {
                match env.frames[i as int].parent {
                    Some(p) => {
                        if p < i {
                            lemma_holder(env, Some(p), name);
                        }
                    },
                    None => {},
                }
            }
        },
    }
}

/// Holding on to a frame changes neither the frames' order nor the current
/// one.
pub proof fn lemma_pin(env: EnvView, handle: Option<usize>)
    requires
        env.wf(),
    ensures
        env.pin(handle).wf(),
        env.pin(handle).keep == env.keep,
        env.pin(handle).current == env.current,
        env.pin(handle).frames.len() == env.frames.len(),
{
}

/// The first scope of `chain`, from the innermost, that holds `name`, or
/// `-1` where none does.
pub open spec fn owner(chain: Seq<Map<Seq<char>, ValueView>>, name: Seq<char>) -> int
    decreases chain.len(),
{
    if chain.len() == 0 {
        -1
    } else if chain[0].dom().contains(name) {
        0
    } else {
        let rest = owner(chain.drop_first(), name);
        if rest < 0 {
            -1
        } else {
            rest + 1
        }
    }
}

/// The owner of a name is a scope of the chain that holds it, and no scope
/// before it does.
pub proof fn lemma_owner(chain: Seq<Map<Seq<char>, ValueView>>, name: Seq<char>)
    ensures
        -1 <= owner(chain, name) < chain.len(),
        owner(chain, name) >= 0 ==> chain[owner(chain, name)].dom().contains(name),
        forall|k: int|
            0 <= k < chain.len() && (k < owner(chain, name) || owner(chain, name) < 0) ==> !(
            #[trigger] chain[k]).dom().contains(name),
    decreases chain.len(),
{
    if chain.len() > 0 && !chain[0].dom().contains(name) {
        let rest = chain.drop_first();
        lemma_owner(rest, name);
        assert forall|k: int|
            0 <= k < chain.len() && (k < owner(chain, name) || owner(chain, name) < 0) implies !(
        #[trigger] chain[k]).dom().contains(name) by {
            if k > 0 {
                assert(chain[k] == rest[k - 1]);
            }
        }
    }
}

/// The scope chain from a frame only depends on that frame and the frames
/// made before it.
pub proof fn lemma_chain_depends(a: EnvView, b: EnvView, handle: Option<usize>)
    requires
        handle is Some ==> handle->0 < a.frames.len() && handle->0 < b.frames.len(),
        handle is Some ==> forall|k: int|
            0 <= k <= handle->0 ==> (#[trigger] a.frames[k]).values == b.frames[k].values
                && a.frames[k].parent == b.frames[k].parent,
    ensures
        a.chain_from(handle) == b.chain_from(handle),
    decreases
            (match handle {
                Some(i) => i + 1,
                None => 0,
            }),
{
    match handle {
        None => {},
        Some(i) => {
            assert(a.frames[i as int].values == b.frames[i as int].values);
            match a.frames[i as int].parent {
                Some(p) => {
                    if p < i {
                        lemma_chain_depends(a, b, Some(p));
                    }
                },
                None => {},
            }
        },
    }
}

/// Looking a name up goes through the scope chain from the innermost scope
/// outwards and stops at the first scope that holds the name.
pub proof fn lemma_holder_is_owner(env: EnvView, handle: Option<usize>, name: Seq<char>)
    requires
        env.wf(),
        env.valid(handle),
    ensures
        match env.holder(handle, name) {
            Some(i) => {
                &&& owner(env.chain_from(handle), name) >= 0
                &&& i < env.frames.len()
                &&& env.chain_from(handle)[owner(env.chain_from(handle), name)]
                    == env.frames[i as int].values
            },
            None => owner(env.chain_from(handle), name) < 0,
        },
    decreases
            (match handle {
                Some(i) => i + 1,
                None => 0,
            }),
{
    match handle {
        None => {},
        Some(i) => {
            let chain = env.chain_from(handle);
            let rest = env.chain_from(env.frames[i as int].parent);
            assert(chain.drop_first() =~= rest);
            assert(chain[0] == env.frames[i as int].values);
            if !env.frames[i as int].values.dom().contains(name) {
                lemma_holder_is_owner(env, env.frames[i as int].parent, name);
                lemma_owner(rest, name);
                if owner(rest, name) >= 0 {
                    assert(chain[owner(rest, name) + 1] == rest[owner(rest, name)]);
                }
            }
        },
    }
}

/// `get` finds the value of a name in the innermost scope that holds it.
pub proof fn lemma_get_innermost(env: EnvView, name: Seq<char>)
    requires
        env.wf(),
    ensures
        env.get(name) == if owner(env.chain(), name) >= 0 {
            Some(env.chain()[owner(env.chain(), name)][name])
        } else {
            None
        },
{
    lemma_holder_is_owner(env, env.current, name);
}

/// `define` binds the name in the innermost scope and changes no other
/// scope.
pub proof fn lemma_define_innermost(env: EnvView, name: Seq<char>, value: ValueView)
    requires
        env.wf(),
        env.current is Some,
    ensures
        env.chain().len() > 0,
        env.define(name, value).chain() == env.chain().update(
            0,
            env.chain()[0].insert(name, value),
        ),
{
    let i = env.current->0;
    let after = env.define(name, value);
    match env.frames[i as int].parent {
        Some(p) => {
            lemma_chain_depends(env, after, Some(p));
        },
        None => {},
    }
    assert(after.chain() =~= env.chain().update(0, env.chain()[0].insert(name, value)));
}

/// Binding a name in the frame that holds it, from `handle` outwards,
/// changes that one scope of the chain.
proof fn lemma_assign_chain(env: EnvView, handle: Option<usize>, name: Seq<char>, value: ValueView)
    requires
        env.wf(),
        env.valid(handle),
        env.holder(handle, name) is Some,
    ensures
        owner(env.chain_from(handle), name) >= 0,
        env.bind(env.holder(handle, name)->0 as int, name, value).chain_from(handle)
            == env.chain_from(handle).update(
            owner(env.chain_from(handle), name),
            env.chain_from(handle)[owner(env.chain_from(handle), name)].insert(name, value),
        ),
    decreases
            (match handle {
                Some(i) => i + 1,
                None => 0,
            }),
{
    let i = handle->0;
    let target = env.holder(handle, name)->0;
    let after = env.bind(target as int, name, value);
    let chain = env.chain_from(handle);
    let parent = env.frames[i as int].parent;
    let rest = env.chain_from(parent);
    lemma_holder(env, handle, name);
    lemma_holder_is_owner(env, handle, name);
    assert(chain.drop_first() =~= rest);
    if env.frames[i as int].values.dom().contains(name) {
        match parent {
            Some(p) => {
                lemma_chain_depends(env, after, Some(p));
            },
            None => {},
        }
        assert(after.chain_from(handle) =~= chain.update(0, chain[0].insert(name, value)));
    } else {
        lemma_assign_chain(env, parent, name, value);
        lemma_owner(rest, name);
        let k = owner(rest, name);
        assert(chain[k + 1] == rest[k]);
        assert(target < i) by {
            lemma_holder(env, parent, name);
        }
        assert(after.chain_from(handle) =~= seq![env.frames[i as int].values]
            + after.chain_from(parent));
        assert(after.chain_from(handle) =~= chain.update(k + 1, chain[k + 1].insert(name, value)));
    }
}

/// `assign` binds the name in the innermost scope that holds it and changes
/// no other scope. Where no scope holds the name, it changes nothing: it
/// never makes a new binding.
pub proof fn lemma_assign_owner(env: EnvView, name: Seq<char>, value: ValueView)
    requires
        env.wf(),
    ensures
        owner(env.chain(), name) < 0 ==> env.assign(name, value) == env,
        owner(env.chain(), name) >= 0 ==> env.assign(name, value).chain() == env.chain().update(
            owner(env.chain(), name),
            env.chain()[owner(env.chain(), name)].insert(name, value),
        ),
{
    lemma_holder_is_owner(env, env.current, name);
    if env.holder(env.current, name) is Some {
        lemma_assign_chain(env, env.current, name, value);
    }
}

/// Opening a scope puts one empty scope before the others, and leaving it
/// for the scope it was opened in gives back the chain as it was.
pub proof fn lemma_enter_leave(env: EnvView)
    requires
        env.wf(),
        env.frames.len() < usize::MAX,
    ensures
        env.enter(env.current).chain() == seq![no_bindings()] + env.chain(),
        env.enter(env.current).leave(env.current).chain() == env.chain(),
        env.enter(env.current).leave(env.current).current == env.current,
{
    let inside = env.enter(env.current);
    lemma_enter(env, env.current);
    match env.current {
        Some(c) => {
            lemma_chain_depends(env, inside, Some(c));
            lemma_chain_depends(env, inside.leave(env.current), Some(c));
            assert(inside.frames[inside.frames.len() - 1].parent == Some(c));
        },
        None => {},
    }
    assert(inside.chain() =~= seq![no_bindings()] + env.chain());
}

impl Env {
    /// An environment with one scope, the global one, and no variables.
    pub fn new() -> (r: Env)
        ensures
            r@.wf(),
            r@ == EnvView::global(),
    {
        let mut frames: Vec<EnvFrame> = Vec::new();
        frames.push(EnvFrame { values: Bindings::new(), parent: None, pinned: false });
        let r = Env { frames, current: Some(0), keep: 1 };
        assert(r@.frames =~= seq![
            FrameView { values: no_bindings(), parent: None, pinned: false },
        ]);
        r
    }

    /// The frame of the innermost scope.
    pub fn current(&self) -> (r: Option<usize>)
        ensures
            r == self@.current,
    {
        self.current
    }

    /// The frames of an environment can be counted.
    pub proof fn lemma_countable(&self)
        ensures
            self@.frames.len() <= usize::MAX,
    {
        assert(self.frames.len() == self.frames@.len());
    }

    /// The number of frames that are held.
    pub fn frame_count(&self) -> (r: usize)
        ensures
            r == self@.frames.len(),
    {
        self.frames.len()
    }

    /// The frame around the current one.
    pub fn outer(&self) -> (r: Option<usize>)
        requires
            self@.wf(),
        ensures
            r == self@.outer(),
    {
        match self.current {
            Some(i) => if i < self.frames.len() {
                self.frames[i].parent
            } else {
                None
            },
            None => None,
        }
    }

    /// `handle` where it is valid, else no frame.
    fn checked(&self, handle: Option<usize>) -> (r: Option<usize>)
        ensures
            r == self@.checked(handle),
    {
        match handle {
            Some(i) => if i < self.frames.len() {
                handle
            } else {
                None
            },
            None => None,
        }
    }

    /// Opens a new, empty scope inside the scope of `parent` and makes it the
    /// innermost.
    pub fn enter(&mut self, parent: Option<usize>)
        requires
            old(self)@.wf(),
        ensures
            final(self)@.wf(),
            final(self)@ == old(self)@.enter(parent),
    {
        let parent = self.checked(parent);
        let index = self.frames.len();
        self.frames.push(EnvFrame { values: Bindings::new(), parent, pinned: false });
        self.current = Some(index);
        assert(self@.frames =~= old(self)@.enter(parent).frames);
    }

    /// Makes the scope of `restore` the innermost again. The frame that is
    /// left is given up where nothing can reach it any more.
    pub fn leave(&mut self, restore: Option<usize>)
        requires
            old(self)@.wf(),
        ensures
            final(self)@.wf(),
            final(self)@ == old(self)@.leave(restore),
    {
        let target = self.checked(restore);
        let n = self.frames.len();
        let mut gives_up = false;
        if n > self.keep {
            if let Some(i) = self.current {
                if i == n - 1 && !self.frames[i].pinned {
                    gives_up = match target {
                        Some(t) => t != i,
                        None => true,
                    };
                }
            }
        }
        assert(gives_up == old(self)@.gives_up(target));
        if gives_up {
            self.frames.pop();
            assert(self@.frames =~= old(self)@.frames.drop_last());
        }
        self.current = target;
    }

    /// Opens a new, empty scope inside the innermost one.
    pub fn new_enclosed(&mut self)
        requires
            old(self)@.wf(),
        ensures
            final(self)@.wf(),
            final(self)@ == old(self)@.enter(old(self)@.current),
    {
        let current = self.current;
        self.enter(current);
    }

    /// Leaves the innermost scope for the one around it.
    pub fn drop_innermost_scope(&mut self)
        requires
            old(self)@.wf(),
        ensures
            final(self)@.wf(),
            final(self)@ == old(self)@.leave(old(self)@.outer()),
    {
        let outer = self.outer();
        self.leave(outer);
    }

    /// Marks the frame `handle` as held by a closure: it is never given up.
    pub fn pin(&mut self, handle: Option<usize>)
        requires
            old(self)@.wf(),
        ensures
            final(self)@.wf(),
            final(self)@ == old(self)@.pin(handle),
    {
        if let Some(i) = handle {
            if i < self.frames.len() {
                self.frames[i].pinned = true;
                assert(self@.frames =~= old(self)@.pin(handle).frames);
            }
        }
    }

    /// The first frame from the innermost outwards that holds `name`.
    fn holder(&self, name: &str) -> (r: Option<usize>)
        requires
            self@.wf(),
        ensures
            r == self@.holder(self@.current, name@),
            r is Some ==> r->0 < self@.frames.len() && self@.frames[r->0 as int].values.dom().contains(
                name@,
            ),
    {
        let mut handle = self.current;
        loop
            invariant
                self@.wf(),
                self@.valid(handle),
                self@.holder(handle, name@) == self@.holder(self@.current, name@),
            decreases
                    (match handle {
                        Some(i) => i + 1,
                        None => 0,
                    }),
        {
            match handle {
                None => {
                    return None;
                },
                Some(i) => {
                    assert(self@.frames[i as int] == self.frames[i as int]@);
                    if self.frames[i].values.contains(name) {
                        return Some(i);
                    }
                    handle = self.frames[i].parent;
                },
            }
        }
    }

    /// The value of `name` in the innermost scope that holds it, or `None`
    /// where no scope does.
    pub fn get(&self, name: &str) -> (r: Option<Value>)
        requires
            self@.wf(),
        ensures
            crate::value::optional_value_view(r) == self@.get(name@),
    {
        match self.holder(name) {
            Some(i) => {
                assert(self@.frames[i as int] == self.frames[i as int]@);
                self.frames[i].values.get(name)
            },
            None => None,
        }
    }

    /// Binds `name` to `value` in the innermost scope, whether or not it is
    /// bound there already. No other scope changes.
    pub fn define(&mut self, name: String, value: Value)
        requires
            old(self)@.wf(),
        ensures
            final(self)@.wf(),
            final(self)@ == old(self)@.define(name@, value@),
    {
        if let Some(i) = self.current {
            if i < self.frames.len() {
                assert(self@.frames[i as int] == self.frames[i as int]@);
                self.frames[i].values.insert(name, value);
                assert(self@.frames =~= old(self)@.define(name@, value@).frames);
            }
        }
    }

    /// Binds `name` to `value` in the innermost scope that holds it and
    /// returns the value it had. Where no scope holds `name`, nothing changes
    /// and `None` is returned.
    pub fn assign(&mut self, name: String, value: Value) -> (r: Option<Value>)
        requires
            old(self)@.wf(),
        ensures
            final(self)@.wf(),
            final(self)@ == old(self)@.assign(name@, value@),
            crate::value::optional_value_view(r) == old(self)@.get(name@),
    {
        match self.holder(name.as_str()) {
            Some(i) => {
                assert(self@.frames[i as int] == self.frames[i as int]@);
                let prior = self.frames[i].values.insert(name, value);
                assert(self@.frames =~= old(self)@.assign(name@, value@).frames);
                prior
            },
            None => None,
        }
    }
}

impl Default for Env {
    /// An environment with one scope, the global one, and no variables.
    fn default() -> (r: Self)
        ensures
            r@.wf(),
            r@ == EnvView::global(),
    {
        Env::new()
    }
}

/// Calls `DashMap::new`, which makes an empty map.
#[verifier::external_body]
fn map_new() -> (map: DashMap<String, Value, RandomState>)
    ensures
        bindings(map) == no_bindings(),
{
    DashMap::new()
}

/// Calls `DashMap::contains_key`, which says whether the map holds the key.
#[verifier::external_body]
fn map_contains(map: &DashMap<String, Value, RandomState>, name: &str) -> (r: bool)
    ensures
        r == bindings(*map).dom().contains(name@),
{
    map.contains_key(name)
}

/// Calls `DashMap::get` and copies the value it refers to, with
/// [`Value::duplicate`]: the value of the key, or `None` where the map does
/// not hold the key.
#[verifier::external_body]
fn map_get(map: &DashMap<String, Value, RandomState>, name: &str) -> (r: Option<Value>)
    ensures
        r is Some == bindings(*map).dom().contains(name@),
        r is Some ==> r->0@ == bindings(*map)[name@],
{
    map.get(name).map(|entry| entry.value().duplicate())
}

/// Calls `DashMap::insert`, which binds the key to the value and returns the
/// value the key had, or `None` where the map did not hold the key.
#[verifier::external_body]
fn map_insert(map: &mut DashMap<String, Value, RandomState>, name: String, value: Value) -> (r:
    Option<Value>)
    ensures
        bindings(*final(map)) == bindings(*old(map)).insert(name@, value@),
        r is Some == bindings(*old(map)).dom().contains(name@),
        r is Some ==> r->0@ == bindings(*old(map))[name@],
{
    map.insert(name, value)
}

} // verus!
