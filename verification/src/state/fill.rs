//! Maximizing and fullscreen.
use crate::layer::usable_area;
use crate::protocol::messages::Notice;
use crate::shell::Shell;
use crate::state::compositor_state::{CompositorState, StateView, SurfacesView, WindowsView};
use crate::state::types::{
    ClientObjectId, Output, OutputView, plus, same_key, SurfaceView, to_i32, XdgToplevelStateView,
};
use vstd::prelude::*;

verus! {

impl StateView {
    /// Where a window goes to fill an output, and the size it is asked for: all
    /// of the output if it is fullscreen, what the panels leave if it is
    /// maximised.
    pub open spec fn filling(self, output: OutputView, fullscreen: bool) -> ((i32, i32), (i32, i32)) {
        if fullscreen {
            ((output.geometry.x, output.geometry.y), (output.width, output.height))
        } else {
            let usable = self.arrange(output.id).usable;
            (
                (to_i32(output.geometry.x + usable.x), to_i32(output.geometry.y + usable.y)),
                (usable.width, usable.height),
            )
        }
    }

    /// Whether there is anything to do to put a window into a state, and a
    /// surface to do it to.
    pub open spec fn window_state_changes(self, toplevel: ClientObjectId, maximized: bool, fullscreen: bool) -> bool {
        &&& self.win.xdg_toplevels.has(toplevel)
        &&& !(self.win.xdg_toplevels.at(toplevel).maximized == maximized && self.win.xdg_toplevels.at(toplevel).fullscreen
            == fullscreen)
        &&& self.surface_of_toplevel(toplevel) is Some
    }

    /// The output a window would fill.
    pub open spec fn output_to_fill<S: Shell>(self, shell: S, toplevel: ClientObjectId) -> Option<OutputView> {
        match self.surface_of_toplevel(toplevel) {
            Some(surface) => match self.surface_output(shell, surface) {
                Some(id) => self.output(id),
                None => None,
            },
            None => None,
        }
    }

    /// With no grab on a toplevel.
    pub open spec fn ungrabbed(self, toplevel: ClientObjectId) -> Self {
        StateView { win: WindowsView { pointer_grab: match self.win.pointer_grab {
                Some(g) => if g.toplevel == toplevel {
                    None
                } else {
                    Some(g)
                },
                None => None,
            }, ..self.win }, ..self }
    }

    /// With a surface at a position.
    pub open spec fn set_position(self, surface: ClientObjectId, position: (i32, i32)) -> Self {
        StateView {
            surf: SurfacesView {
                surfaces: self.surf.surfaces.edit(surface, |s: SurfaceView| SurfaceView { position, ..s }),
                ..self.surf
            },
            ..self
        }
    }

    /// With a toplevel marked maximized or fullscreen, and where it was
    /// remembered if it was neither.
    pub open spec fn mark_filling(
        self,
        toplevel: ClientObjectId,
        was: (i32, i32, i32, i32),
        maximized: bool,
        fullscreen: bool,
    ) -> Self {
        StateView {
            win: WindowsView {
                xdg_toplevels: self.win.xdg_toplevels.edit(
                    toplevel,
                    |t: XdgToplevelStateView|
                        XdgToplevelStateView {
                            restore: if !t.maximized && !t.fullscreen {
                                Some(was)
                            } else {
                                t.restore
                            },
                            maximized,
                            fullscreen,
                            ..t
                        },
                ),
                ..self.win
            },
            ..self
        }
    }

    /// With a toplevel marked neither maximized nor fullscreen, and nothing
    /// remembered of where it was.
    pub open spec fn mark_restored(self, toplevel: ClientObjectId) -> Self {
        StateView {
            win: WindowsView {
                xdg_toplevels: self.win.xdg_toplevels.edit(
                    toplevel,
                    |t: XdgToplevelStateView|
                        XdgToplevelStateView { maximized: false, fullscreen: false, restore: None, ..t },
                ),
                ..self.win
            },
            ..self
        }
    }

    /// With a toplevel asked for a size.
    pub open spec fn ask_size(self, toplevel: ClientObjectId, size: (i32, i32)) -> Self {
        self.notice(
            toplevel.0,
            Notice::ToplevelConfigure { toplevel: toplevel.1, width: size.0, height: size.1 },
        )
    }

    /// Where a surface is and how big it is.
    pub open spec fn place_of(self, surface: ClientObjectId) -> (i32, i32, i32, i32) {
        let position = if self.surf.surfaces.has(surface) {
            self.surf.surfaces.at(surface).position
        } else {
            (0, 0)
        };
        let size = self.surface_size(surface);
        (position.0, position.1, size.0, size.1)
    }

    /// With a window put into maximized or fullscreen at a place and a size.
    pub open spec fn filled(
        self,
        toplevel: ClientObjectId,
        surface: ClientObjectId,
        place: ((i32, i32), (i32, i32)),
        maximized: bool,
        fullscreen: bool,
    ) -> Self {
        let moved = self.mark_filling(toplevel, self.place_of(surface), maximized, fullscreen).set_position(
            surface,
            place.0,
        );
        let raised = if fullscreen {
            moved.raise_with_children(toplevel)
        } else {
            moved
        };
        raised.ask_size(toplevel, place.1).dirtied()
    }

    /// Where a toplevel was before it filled an output, if that is remembered.
    pub open spec fn restore_of(self, toplevel: ClientObjectId) -> Option<(i32, i32, i32, i32)> {
        if self.win.xdg_toplevels.has(toplevel) {
            self.win.xdg_toplevels.at(toplevel).restore
        } else {
            None
        }
    }

    /// With a window put back to where it was before it filled an output.
    pub open spec fn restored(self, toplevel: ClientObjectId, surface: ClientObjectId) -> Self {
        let free = self.mark_restored(toplevel);
        match self.restore_of(toplevel) {
            Some(r) => free.set_position(surface, (r.0, r.1)).ask_size(toplevel, (r.2, r.3)).dirtied(),
            None => free.ask_size(toplevel, (0, 0)).dirtied(),
        }
    }

    /// With a window put into or out of maximized or fullscreen.
    pub open spec fn set_window_state<S: Shell>(
        self,
        shell: S,
        toplevel: ClientObjectId,
        maximized: bool,
        fullscreen: bool,
    ) -> Self {
        if !self.window_state_changes(toplevel, maximized, fullscreen) {
            self
        } else {
            let free = self.ungrabbed(toplevel);
            let surface = self.surface_of_toplevel(toplevel)->0;
            if maximized || fullscreen {
                match self.output_to_fill(shell, toplevel) {
                    None => free,
                    Some(o) => free.filled(toplevel, surface, self.filling(o, fullscreen), maximized, fullscreen),
                }
            } else {
                free.restored(toplevel, surface)
            }
        }
    }
}

impl CompositorState {
    /// Put a window into or out of maximized or fullscreen, and ask it to
    /// adopt the size that goes with it.
    ///
    /// The compositor owns the position and the client owns the size, so this
    /// moves the window itself and *asks* for the size through a configure.
    ///
    /// Returns false if there is nothing to do or nowhere to do it: a window on
    /// no output has no size to fill.
    pub fn set_window_state<S: Shell>(
        &mut self,
        shell: &S,
        toplevel: ClientObjectId,
        maximized: bool,
        fullscreen: bool,
    ) -> (r: bool)
        ensures
            final(self)@ == old(self)@.set_window_state(*shell, toplevel, maximized, fullscreen),
            r <==> old(self)@.window_state_changes(toplevel, maximized, fullscreen) && (maximized || fullscreen ==> old(
                self,
            )@.output_to_fill(*shell, toplevel) is Some),
    {
        match self.win.xdg_toplevels.get(toplevel) {
            None => {
                return false;
            },
            Some(t) => {
                if t.maximized == maximized && t.fullscreen == fullscreen {
                    return false;
                }
            },
        }
        let surface = match self.surface_of_toplevel(toplevel) {
            Some(surface) => surface,
            None => {
                return false;
            },
        };
        let place: Option<((i32, i32), (i32, i32))> = match self.surface_output(shell, surface) {
            None => None,
            Some(id) => match self.output(id) {
                None => None,
                Some(output) => Some(self.filling(output, fullscreen)),
            },
        };
        self.ungrab(toplevel);
        if maximized || fullscreen {
            match place {
                None => {
                    return false;
                },
                Some(place) => {
                    self.fill_output(toplevel, surface, place, maximized, fullscreen);
                },
            }
        } else {
            self.restore_window(toplevel, surface);
        }
        true
    }

    fn filling(&self, output: &Output, fullscreen: bool) -> (r: ((i32, i32), (i32, i32)))
        ensures
            r == self@.filling(output@, fullscreen),
    {
        if fullscreen {
            ((output.geometry.x, output.geometry.y), output.logical_size())
        } else {
            let usable = usable_area(self, output.id);
            (
                (plus(output.geometry.x, usable.x), plus(output.geometry.y, usable.y)),
                (usable.width, usable.height),
            )
        }
    }

    fn ungrab(&mut self, toplevel: ClientObjectId)
        ensures
            final(self)@ == old(self)@.ungrabbed(toplevel),
    {
        let grabbed: bool = match &self.win.pointer_grab {
            Some(g) => same_key(g.toplevel, toplevel),
            None => false,
        };
        if grabbed {
            self.win.pointer_grab = None;
        }
    }

    /// Put a surface at a position.
    pub fn set_position(&mut self, surface: ClientObjectId, position: (i32, i32))
        ensures
            final(self)@ == old(self)@.set_position(surface, position),
    {
        if let Some(s) = self.surf.surfaces.get_mut(surface) {
            s.position = position;
        }
    }

    fn mark_filling(&mut self, toplevel: ClientObjectId, was: (i32, i32, i32, i32), maximized: bool, fullscreen: bool)
        ensures
            final(self)@ == old(self)@.mark_filling(toplevel, was, maximized, fullscreen),
    {
        if let Some(t) = self.win.xdg_toplevels.get_mut(toplevel) {
            if !t.maximized && !t.fullscreen {
                t.restore = Some(was);
            }
            t.maximized = maximized;
            t.fullscreen = fullscreen;
        }
    }

    fn mark_restored(&mut self, toplevel: ClientObjectId)
        ensures
            final(self)@ == old(self)@.mark_restored(toplevel),
    {
        if let Some(t) = self.win.xdg_toplevels.get_mut(toplevel) {
            t.maximized = false;
            t.fullscreen = false;
            t.restore = None;
        }
    }

    /// Ask a toplevel to take a size.
    pub fn ask_size(&mut self, toplevel: ClientObjectId, size: (i32, i32))
        ensures
            final(self)@ == old(self)@.ask_size(toplevel, size),
    {
        self.notice(
            toplevel.0,
            Notice::ToplevelConfigure { toplevel: toplevel.1, width: size.0, height: size.1 },
        );
    }

    fn place_of(&self, surface: ClientObjectId) -> (r: (i32, i32, i32, i32))
        ensures
            r == self@.place_of(surface),
    {
        let position: (i32, i32) = match self.surf.surfaces.get(surface) {
            Some(s) => s.position,
            None => (0, 0),
        };
        let size = self.surface_size(surface);
        (position.0, position.1, size.0, size.1)
    }

    fn fill_output(
        &mut self,
        toplevel: ClientObjectId,
        surface: ClientObjectId,
        place: ((i32, i32), (i32, i32)),
        maximized: bool,
        fullscreen: bool,
    )
        ensures
            final(self)@ == old(self)@.filled(toplevel, surface, place, maximized, fullscreen),
    {
        let was = self.place_of(surface);
        self.mark_filling(toplevel, was, maximized, fullscreen);
        self.set_position(surface, place.0);
        if fullscreen {
            self.raise_with_children(toplevel);
        }
        self.ask_size(toplevel, place.1);
        self.dirty = true;
    }

    fn restore_window(&mut self, toplevel: ClientObjectId, surface: ClientObjectId)
        ensures
            final(self)@ == old(self)@.restored(toplevel, surface),
    {
        let restore: Option<(i32, i32, i32, i32)> = match self.win.xdg_toplevels.get(toplevel) {
            Some(t) => t.restore,
            None => None,
        };
        self.mark_restored(toplevel);
        match restore {
            Some(r) => {
                self.set_position(surface, (r.0, r.1));
                self.ask_size(toplevel, (r.2, r.3));
            },
            None => {
                self.ask_size(toplevel, (0, 0));
            },
        }
        self.dirty = true;
    }
}

} // verus!
