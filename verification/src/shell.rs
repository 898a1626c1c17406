//! The seam between mechanism and policy.
//!
//! The compositor mechanism needs a handful of answers only a window manager
//! can give: where a new window goes, what is stacked over what, what is
//! showing. [`Shell`] is the list of questions. What the shell has to be
//! *told* goes the other way, as a queue of [`Hook`](crate::state::types::Hook)s
//! on the state.
use crate::input::hit::is_visible;
use crate::state::family::copy_keys;
use crate::state::types::{ClientObjectId, OutputId};
use crate::table::{KeySet, Table};
use vstd::prelude::*;

verus! {

/// Window-management policy, answered by the compositor built on this crate.
///
/// Every query answers from the shell's own model and changes nothing, so
/// what it answers is a function of the shell and the question.
pub trait Shell: Sized {
    /// Which output a toplevel is on.
    spec fn placed_on(&self, key: ClientObjectId) -> Option<OutputId>;

    /// The toplevels showing on an output, bottom to top.
    spec fn stack_on(&self, output: OutputId) -> Seq<ClientObjectId>;

    /// Whether a toplevel is shown anywhere.
    spec fn shown(&self, key: ClientObjectId) -> bool;

    /// Whether a toplevel is drawn exactly as its client committed it.
    spec fn plain(&self, key: ClientObjectId) -> bool;

    /// Which output the toplevel rooted at `key` is on, if it is placed.
    /// `key` is the toplevel's `wl_surface` key.
    fn toplevel_output(&self, key: ClientObjectId) -> (r: Option<OutputId>)
        ensures
            r == self.placed_on(key),
    ;

    /// The toplevels showing on an output, bottom to top. This is the draw
    /// order: the scene builder and the hit tester both walk it.
    fn visible_stack(&self, output: OutputId) -> (r: Vec<ClientObjectId>)
        ensures
            r@ == self.stack_on(output),
    ;

    /// Whether the toplevel rooted at `key` is currently shown anywhere.
    /// `key` is a root surface key; subsurfaces are resolved to their root
    /// before the mechanism asks.
    fn is_visible(&self, key: ClientObjectId) -> (r: bool)
        ensures
            r == self.shown(key),
    ;

    /// Whether the toplevel rooted at `key` is drawn exactly as its client
    /// committed it. Otherwise its whole surface tree is drawn as one quad,
    /// which is what a fade or a transform applies to.
    fn is_plain(&self, key: ClientObjectId) -> (r: bool)
        ensures
            r == self.plain(key),
    ;
}

/// The topmost visible toplevel on an output, if any.
pub open spec fn top_on<S: Shell>(shell: S, output: OutputId) -> Option<ClientObjectId> {
    if shell.stack_on(output).len() == 0 {
        None
    } else {
        Some(shell.stack_on(output).last())
    }
}

/// The topmost visible toplevel on an output, if any.
pub fn top_visible<S: Shell>(shell: &S, output: OutputId) -> (r: Option<ClientObjectId>)
    ensures
        r == top_on(*shell, output),
{
    let stack = shell.visible_stack(output);
    if stack.len() == 0 {
        None
    } else {
        Some(stack[stack.len() - 1])
    }
}

/// The shell that answers nothing: no window is placed, visible, or focused.
///
/// It lets the mechanism be driven bare where no window is ever mapped.
#[derive(Debug)]
pub struct NoShell;

impl Shell for NoShell {
    open spec fn placed_on(&self, key: ClientObjectId) -> Option<OutputId> {
        None
    }

    open spec fn stack_on(&self, output: OutputId) -> Seq<ClientObjectId> {
        Seq::empty()
    }

    open spec fn shown(&self, key: ClientObjectId) -> bool {
        false
    }

    open spec fn plain(&self, key: ClientObjectId) -> bool {
        true
    }

    fn toplevel_output(&self, key: ClientObjectId) -> (r: Option<OutputId>) {
        None
    }

    fn visible_stack(&self, output: OutputId) -> (r: Vec<ClientObjectId>) {
        Vec::new()
    }

    fn is_visible(&self, key: ClientObjectId) -> (r: bool) {
        false
    }

    fn is_plain(&self, key: ClientObjectId) -> (r: bool) {
        true
    }
}

/// A shell's answers, taken down at one moment.
///
/// The mechanism asks its questions of this rather than of a window manager
/// that may be changing as it goes.
pub struct ShellAnswers {
    /// Which output each toplevel that is placed is on
    pub placed: Table<ClientObjectId, OutputId>,
    /// The toplevels showing on each output, bottom to top
    pub stacks: Table<OutputId, Vec<ClientObjectId>>,
    /// The toplevels that are shown anywhere
    pub visible: KeySet<ClientObjectId>,
    /// The toplevels that are not drawn exactly as their client committed them
    pub presented: KeySet<ClientObjectId>,
}

impl ShellAnswers {
    /// Nothing placed, shown or presented
    pub fn new() -> (r: Self)
        ensures
            forall|key: ClientObjectId| #[trigger] r.placed_on(key) is None,
            forall|output: OutputId| #[trigger] r.stack_on(output) == Seq::<ClientObjectId>::empty(),
            forall|key: ClientObjectId| !(#[trigger] r.shown(key)),
            forall|key: ClientObjectId| #[trigger] r.plain(key),
    {
        ShellAnswers { placed: Table::new(), stacks: Table::new(), visible: KeySet::new(), presented: KeySet::new() }
    }
}

impl Shell for ShellAnswers {
    open spec fn placed_on(&self, key: ClientObjectId) -> Option<OutputId> {
        self.placed@.get(key)
    }

    open spec fn stack_on(&self, output: OutputId) -> Seq<ClientObjectId> {
        if self.stacks@.has(output) {
            self.stacks@.at(output)
        } else {
            Seq::empty()
        }
    }

    open spec fn shown(&self, key: ClientObjectId) -> bool {
        self.visible@.contains(key)
    }

    open spec fn plain(&self, key: ClientObjectId) -> bool {
        !self.presented@.contains(key)
    }

    fn toplevel_output(&self, key: ClientObjectId) -> (r: Option<OutputId>) {
        match self.placed.get(key) {
            Some(id) => Some(*id),
            None => None,
        }
    }

    fn visible_stack(&self, output: OutputId) -> (r: Vec<ClientObjectId>) {
        match self.stacks.get(output) {
            Some(keys) => copy_keys(keys),
            None => Vec::new(),
        }
    }

    fn is_visible(&self, key: ClientObjectId) -> (r: bool) {
        self.visible.contains(key)
    }

    fn is_plain(&self, key: ClientObjectId) -> (r: bool) {
        !self.presented.contains(key)
    }
}

} // verus!
