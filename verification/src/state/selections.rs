//! The two selections: who holds them and who is told.
use crate::protocol::messages::Notice;
use crate::protocol::zwlr_data_control_device::announce_to_control;
use crate::protocol::zwp_primary_selection_device::send_selection_to_client;
use crate::state::compositor_state::{CompositorState, ExchangeView, StateView};
use crate::state::types::{ClientObjectId, same_opt_key};
use vstd::prelude::*;

verus! {

/// Which selection is meant.
#[derive(Debug, Clone, Copy, PartialEq, Eq, Structural)]
pub enum Which {
    Clipboard,
    Primary,
}

impl StateView {
    /// With a selection held by a source, or by none.
    pub open spec fn hold(self, which: Which, source: Option<ClientObjectId>) -> Self {
        match which {
            Which::Clipboard => StateView { data: ExchangeView { selection: source, ..self.data }, ..self },
            Which::Primary => StateView { data: ExchangeView { primary_selection: source, ..self.data }, ..self },
        }
    }

    /// The source a selection is held by.
    pub open spec fn held(self, which: Which) -> Option<ClientObjectId> {
        match which {
            Which::Clipboard => self.data.selection,
            Which::Primary => self.data.primary_selection,
        }
    }

    /// With the focused client told what a selection is.
    pub open spec fn tell_focused(self, which: Which) -> Self {
        match self.input.focused_surface {
            None => self,
            Some(s) => match which {
                Which::Clipboard => self.notice(s.0, Notice::Clipboard),
                Which::Primary => self.primary_to_client(s.0),
            },
        }
    }

    /// With everyone entitled to know told what a selection is: the focused
    /// client, and every data-control device.
    pub open spec fn announce(self, which: Which) -> Self {
        self.tell_focused(which).control_announce(which)
    }

    /// With the source that loses a selection cancelled, and its offers dead.
    pub open spec fn supplant(self, which: Which, source: Option<ClientObjectId>) -> Self {
        match self.held(which) {
            Some(old) => if Some(old) != source {
                self.cancel_source(old).invalidate_offers_from(old)
            } else {
                self
            },
            None => self,
        }
    }

    /// With a source put on a selection, or the selection cleared.
    pub open spec fn select(self, which: Which, source: Option<ClientObjectId>) -> Self {
        self.supplant(which, source).hold(which, source).announce(which)
    }

    /// With a selection cleared and its source not told.
    pub open spec fn clear_selected(self, which: Which) -> Self {
        self.hold(which, None).announce(which)
    }

    /// With a source gone.
    pub open spec fn drop_source(self, source: ClientObjectId) -> Self {
        StateView {
            data: ExchangeView { data_sources: self.data.data_sources.without(source), ..self.data },
            ..self
        }
    }

    /// With a selection cleared if a source holds it.
    pub open spec fn clear_if_held(self, which: Which, source: ClientObjectId) -> Self {
        if self.held(which) == Some(source) {
            self.clear_selected(which)
        } else {
            self
        }
    }

    /// With the drag ended if it carries a source, and the source not told.
    pub open spec fn abandon_drag_of(self, source: ClientObjectId) -> Self {
        match self.data.drag {
            Some(d) => if d.source == Some(source) {
                self.abandon_drag()
            } else {
                self
            },
            None => self,
        }
    }

    /// With a source dropped, and whatever it was in the middle of unwound. It
    /// is told that it is cancelled, once, if it is to be told at all.
    pub open spec fn retire_data_source(self, source: ClientObjectId, notify: bool) -> Self {
        let loose = self.clear_if_held(Which::Clipboard, source).clear_if_held(
            Which::Primary,
            source,
        ).abandon_drag_of(source).invalidate_offers_from(source);
        if notify {
            loose.cancel_source(source).drop_source(source)
        } else {
            loose.drop_source(source)
        }
    }
}

impl CompositorState {
    fn hold(&mut self, which: Which, source: Option<ClientObjectId>)
        ensures
            final(self)@ == old(self)@.hold(which, source),
    {
        match which {
            Which::Clipboard => {
                self.data.selection = source;
            },
            Which::Primary => {
                self.data.primary_selection = source;
            },
        }
    }

    fn held(&self, which: Which) -> (r: Option<ClientObjectId>)
        ensures
            r == self@.held(which),
    {
        match which {
            Which::Clipboard => self.data.selection,
            Which::Primary => self.data.primary_selection,
        }
    }

    fn tell_focused(&mut self, which: Which)
        ensures
            final(self)@ == old(self)@.tell_focused(which),
    {
        if let Some(s) = self.input.focused_surface {
            match which {
                Which::Clipboard => {
                    self.notice(s.0, Notice::Clipboard);
                },
                Which::Primary => {
                    send_selection_to_client(self, s.0);
                },
            }
        }
    }

    /// Tell everyone entitled to know what a selection now is.
    ///
    /// Two audiences with different rules. The focused client is told because
    /// the selection follows focus; a data-control client is told whatever has
    /// focus, because it is outside the focus model altogether.
    pub fn announce(&mut self, which: Which)
        ensures
            final(self)@ == old(self)@.announce(which),
    {
        self.tell_focused(which);
        announce_to_control(self, which);
    }

    fn supplant(&mut self, which: Which, source: Option<ClientObjectId>)
        ensures
            final(self)@ == old(self)@.supplant(which, source),
    {
        if let Some(former) = self.held(which) {
            if !same_opt_key(Some(former), source) {
                self.cancel_source(former);
                self.invalidate_offers_from(former);
            }
        }
    }

    fn select(&mut self, which: Which, source: Option<ClientObjectId>)
        ensures
            final(self)@ == old(self)@.select(which, source),
    {
        self.supplant(which, source);
        self.hold(which, source);
        self.announce(which);
    }

    /// Put a source on the clipboard, or clear it.
    ///
    /// The source that held it is cancelled, and every offer drawing from it
    /// goes dead - a client still holding a paste offer for the old clipboard
    /// gets an empty read rather than the wrong contents.
    pub fn set_selection(&mut self, source: Option<ClientObjectId>)
        ensures
            final(self)@ == old(self)@.select(Which::Clipboard, source),
    {
        self.select(Which::Clipboard, source);
    }

    /// Put a source on the primary selection, or clear it.
    ///
    /// The source that held it is cancelled and every offer drawing from it goes
    /// dead, so a client still holding one gets an empty read rather than text
    /// the user selected some time ago.
    pub fn set_primary_selection(&mut self, source: Option<ClientObjectId>)
        ensures
            final(self)@ == old(self)@.select(Which::Primary, source),
    {
        self.select(Which::Primary, source);
    }

    /// Take a source off a selection without cancelling it.
    ///
    /// Used where the source is going away on its own account - destroyed, or
    /// its client disconnecting - and telling it would be telling nobody.
    pub fn clear_selected(&mut self, which: Which)
        ensures
            final(self)@ == old(self)@.clear_selected(which),
    {
        self.hold(which, None);
        self.announce(which);
    }

    fn clear_if_held(&mut self, which: Which, source: ClientObjectId)
        ensures
            final(self)@ == old(self)@.clear_if_held(which, source),
    {
        if same_opt_key(self.held(which), Some(source)) {
            self.clear_selected(which);
        }
    }

    fn abandon_drag_of(&mut self, source: ClientObjectId)
        ensures
            final(self)@ == old(self)@.abandon_drag_of(source),
    {
        let carried: bool = match &self.data.drag {
            Some(d) => same_opt_key(d.source, Some(source)),
            None => false,
        };
        if carried {
            self.abandon_drag();
        }
    }

    /// Drop a source, unwinding whatever it was in the middle of.
    ///
    /// `notify` sends `cancelled`, which is right when the compositor is taking
    /// the source away and wrong when the client is destroying it itself.
    pub fn retire_data_source(&mut self, source: ClientObjectId, notify: bool)
        ensures
            final(self)@ == old(self)@.retire_data_source(source, notify),
    {
        self.clear_if_held(Which::Clipboard, source);
        self.clear_if_held(Which::Primary, source);
        self.abandon_drag_of(source);
        self.invalidate_offers_from(source);
        if notify {
            self.cancel_source(source);
        }
        let _ = self.data.data_sources.remove(source);
    }
}

} // verus!
