//! Which output things are on, and at what scale.
use crate::shell::{Shell, top_on, top_visible};
use crate::state::compositor_state::{CompositorState, StateView};
use crate::state::types::{ClientObjectId, minus, OutputId, to_i32, XdgPositionerState};
use vstd::prelude::*;

verus! {

impl StateView {
    /// Which output a window is on: where the shell has placed it, or the
    /// output of the layer surface it is.
    pub open spec fn surface_output<S: Shell>(self, shell: S, surface: ClientObjectId) -> Option<OutputId> {
        match shell.placed_on(surface) {
            Some(id) => Some(id),
            None => match self.layer_surface_of(surface) {
                Some(k) => if self.layers.layer_surfaces.has(k) {
                    self.layers.layer_surfaces.at(k).output
                } else {
                    None
                },
                None => None,
            },
        }
    }

    /// The first of the first few outputs that a point is on.
    pub open spec fn output_at_among(self, x: int, y: int, n: nat) -> Option<OutputId>
        decreases n,
    {
        if n == 0 || n > self.out.outputs.len() {
            None
        } else {
            match self.output_at_among(x, y, (n - 1) as nat) {
                Some(id) => Some(id),
                None => if self.out.outputs[n - 1].shows(x, y) {
                    Some(self.out.outputs[n - 1].id)
                } else {
                    None
                },
            }
        }
    }

    /// The first output that a point is on.
    pub open spec fn output_at(self, x: int, y: int) -> Option<OutputId> {
        self.output_at_among(x, y, self.out.outputs.len())
    }

    /// The output a new window should open on: the one under the pointer, or
    /// failing that whichever output comes first.
    pub open spec fn output_for_new_window(self) -> Option<OutputId> {
        match self.output_at(self.input.cursor.0 as int, self.input.cursor.1 as int) {
            Some(id) => Some(id),
            None => if self.out.outputs.len() == 0 {
                None
            } else {
                Some(self.out.outputs[0].id)
            },
        }
    }

    /// The top window of the first of the first few outputs that has one.
    pub open spec fn top_among<S: Shell>(self, shell: S, n: nat) -> Option<ClientObjectId>
        decreases n,
    {
        if n == 0 || n > self.out.outputs.len() {
            None
        } else {
            match self.top_among(shell, (n - 1) as nat) {
                Some(k) => Some(k),
                None => top_on(shell, self.out.outputs[n - 1].id),
            }
        }
    }

    /// The topmost window: of the output under the pointer, or failing that of
    /// the first output that has one.
    pub open spec fn top_visible_toplevel<S: Shell>(self, shell: S) -> Option<ClientObjectId> {
        let here = match self.output_for_new_window() {
            Some(id) => top_on(shell, id),
            None => None,
        };
        match here {
            Some(k) => Some(k),
            None => self.top_among(shell, self.out.outputs.len()),
        }
    }

    /// The highest scale among the outputs of a list, in 120ths, and zero for
    /// none.
    pub open spec fn highest_scale(self, on: Seq<OutputId>) -> u32
        decreases on.len(),
    {
        if on.len() == 0 {
            0
        } else {
            let before = self.highest_scale(on.drop_last());
            match self.output(on.last()) {
                Some(o) => if o.scale.ths() > before {
                    o.scale.ths()
                } else {
                    before
                },
                None => before,
            }
        }
    }

    /// Whether any of a list of outputs is one there is.
    pub open spec fn on_any(self, on: Seq<OutputId>) -> bool {
        exists|i: int| 0 <= i < on.len() && self.output(#[trigger] on[i]) is Some
    }

    /// The scale a surface should draw itself at, in 120ths: the highest among
    /// the outputs it is on, failing those that of the output a window would
    /// open on, and failing that one.
    pub open spec fn preferred_scale(self, surface: ClientObjectId) -> u32 {
        let on = if self.surf.surfaces.has(surface) {
            self.surf.surfaces.at(surface).visible_on
        } else {
            Seq::empty()
        };
        if self.on_any(on) {
            self.highest_scale(on)
        } else {
            match self.output_for_new_window() {
                Some(id) => match self.output(id) {
                    Some(o) => o.scale.ths(),
                    None => 120,
                },
                None => 120,
            }
        }
    }

    /// The room a popup is to be kept within, relative to its parent: the size
    /// its client says the parent will have, or else the output the parent's
    /// window is on. Nothing for no positioner, and no room for no output.
    pub open spec fn popup_room<S: Shell>(
        self,
        shell: S,
        positioner: ClientObjectId,
        parent_surface: ClientObjectId,
    ) -> Option<(XdgPositionerState, Option<(i32, i32, i32, i32)>)> {
        if !self.win.xdg_positioners.has(positioner) {
            None
        } else {
            let pos = self.win.xdg_positioners.at(positioner);
            Some(
                (
                    pos,
                    match pos.parent_size {
                        Some(size) => Some((0i32, 0i32, size.0, size.1)),
                        None => match self.surface_output(shell, self.root(parent_surface)) {
                            None => None,
                            Some(id) => match self.output(id) {
                                None => None,
                                Some(o) => {
                                    let parent = self.global_position(parent_surface);
                                    Some(
                                        (
                                            to_i32(o.geometry.x - parent.0),
                                            to_i32(o.geometry.y - parent.1),
                                            o.width,
                                            o.height,
                                        ),
                                    )
                                },
                            },
                        },
                    },
                ),
            )
        }
    }
}

impl CompositorState {
    /// Which output a window is on: the one the shell has placed it on.
    ///
    /// `None` for a window waiting to be placed, and for anything that is
    /// neither a toplevel nor a layer surface - popups and subsurfaces hang
    /// off one of those and take its output along with its position.
    pub fn surface_output<S: Shell>(&self, shell: &S, surface: ClientObjectId) -> (r: Option<OutputId>)
        ensures
            r == self@.surface_output(*shell, surface),
    {
        match shell.toplevel_output(surface) {
            Some(id) => Some(id),
            None => match self.layer_surface_of(surface) {
                Some(k) => match self.layers.layer_surfaces.get(k) {
                    Some(layer) => layer.output,
                    None => None,
                },
                None => None,
            },
        }
    }

    /// The first output a point is on.
    pub fn output_at(&self, x: i32, y: i32) -> (r: Option<OutputId>)
        ensures
            r == self@.output_at(x as int, y as int),
    {
        let mut found: Option<OutputId> = None;
        let mut i: usize = 0;
        while i < self.out.outputs.len()
            invariant
                i <= self.out.outputs@.len(),
                found == self@.output_at_among(x as int, y as int, i as nat),
            decreases self.out.outputs@.len() - i,
        {
            proof {
                assert(self@.out.outputs[i as int] == self.out.outputs@[i as int]@);
            }
            if found.is_none() && self.out.outputs[i].contains(x, y) {
                found = Some(self.out.outputs[i].id);
            }
            i += 1;
        }
        found
    }

    /// The output a new window should open on: the one under the pointer, or
    /// failing that whichever output comes first.
    pub fn output_for_new_window(&self) -> (r: Option<OutputId>)
        ensures
            r == self@.output_for_new_window(),
    {
        match self.output_at(self.input.cursor.0, self.input.cursor.1) {
            Some(id) => Some(id),
            None => if self.out.outputs.len() == 0 {
                None
            } else {
                proof {
                    assert(self@.out.outputs[0] == self.out.outputs@[0]@);
                }
                Some(self.out.outputs[0].id)
            },
        }
    }

    /// The topmost window the user can currently see and click on: the top of
    /// the stack showing on the output under the pointer, or failing that
    /// of the first output that has a window.
    pub fn top_visible_toplevel<S: Shell>(&self, shell: &S) -> (r: Option<ClientObjectId>)
        ensures
            r == self@.top_visible_toplevel(*shell),
    {
        if let Some(id) = self.output_for_new_window() {
            if let Some(k) = top_visible(shell, id) {
                return Some(k);
            }
        }
        let mut found: Option<ClientObjectId> = None;
        let mut i: usize = 0;
        while i < self.out.outputs.len()
            invariant
                i <= self.out.outputs@.len(),
                found == self@.top_among(*shell, i as nat),
            decreases self.out.outputs@.len() - i,
        {
            proof {
                assert(self@.out.outputs[i as int] == self.out.outputs@[i as int]@);
            }
            if found.is_none() {
                found = top_visible(shell, self.out.outputs[i].id);
            }
            i += 1;
        }
        found
    }

    /// The scale this surface should draw itself at, in 120ths.
    ///
    /// The highest scale among the outputs it is actually on. A surface
    /// straddling a 1x and a 2x display has to be drawn at 2x for one of them,
    /// and a buffer larger than needed scales down without artefacts while one
    /// too small cannot be scaled up at all.
    ///
    /// A surface on no output - which is every surface before its first commit,
    /// and that is exactly when a client asks - falls back to the output a
    /// window would open on.
    pub fn preferred_scale(&self, surface: ClientObjectId) -> (r: u32)
        ensures
            r == self@.preferred_scale(surface),
    {
        let mut best: u32 = 0;
        let mut any = false;
        if let Some(s) = self.surf.surfaces.get(surface) {
            let mut i: usize = 0;
            while i < s.visible_on.len()
                invariant
                    i <= s.visible_on@.len(),
                    best == self@.highest_scale(s.visible_on@.take(i as int)),
                    any == exists|j: int| 0 <= j < i && self@.output(#[trigger] s.visible_on@[j]) is Some,
                decreases s.visible_on@.len() - i,
            {
                proof {
                    assert(s.visible_on@.take(i + 1).drop_last() =~= s.visible_on@.take(i as int));
                }
                let id = s.visible_on.key_at(i);
                if let Some(o) = self.output(id) {
                    any = true;
                    if o.scale.as_120ths() > best {
                        best = o.scale.as_120ths();
                    }
                }
                i += 1;
            }
            proof {
                assert(s.visible_on@.take(i as int) =~= s.visible_on@);
            }
        }
        if any {
            return best;
        }
        match self.output_for_new_window() {
            Some(id) => match self.output(id) {
                Some(o) => o.scale.as_120ths(),
                None => 120,
            },
            None => 120,
        }
    }

    /// What a popup's positioner says, and the room the popup is to be kept
    /// within, in coordinates relative to its parent.
    ///
    /// The constraining region is the output the parent window is on, expressed
    /// relative to the parent surface - which is what turns "keep it on screen"
    /// into arithmetic the positioner can do without knowing where anything is
    /// globally. A client that named a `parent_size` is constrained against
    /// that instead: it is telling us the size its window is about to become.
    pub fn place_popup<S: Shell>(
        &self,
        shell: &S,
        positioner: ClientObjectId,
        parent_surface: ClientObjectId,
    ) -> (r: Option<(XdgPositionerState, Option<(i32, i32, i32, i32)>)>)
        ensures
            r == self@.popup_room(*shell, positioner, parent_surface),
    {
        let pos: XdgPositionerState = match self.win.xdg_positioners.get(positioner) {
            Some(pos) => *pos,
            None => {
                return None;
            },
        };
        let room: Option<(i32, i32, i32, i32)> = match pos.parent_size {
            Some(size) => Some((0, 0, size.0, size.1)),
            None => match self.surface_output(shell, self.root_of(parent_surface)) {
                None => None,
                Some(id) => match self.output(id) {
                    None => None,
                    Some(output) => {
                        let parent = self.global_position_of(parent_surface);
                        let (width, height) = output.logical_size();
                        Some((minus(output.geometry.x, parent.0), minus(output.geometry.y, parent.1), width, height))
                    },
                },
            },
        };
        Some((pos, room))
    }
}

} // verus!
