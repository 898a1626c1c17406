//! Configuring panels: where each goes, and telling it the size it has there.
use crate::layer::geometry;
use crate::protocol::messages::{build_message, event, no_args};
use crate::protocol::wire_utils::{Arg, args_view, ArgView};
use crate::state::compositor_state::{CompositorState, LayersView, StateView};
use crate::state::types::{
    ClientObjectId, LayerSurfaceState, LayerSurfaceStateView, OutputId, same_key,
};
use vstd::prelude::*;

verus! {

/// `configure`
pub const LAYER_CONFIGURE: u16 = 0;

/// `closed`
pub const LAYER_CLOSED: u16 = 1;

/// How far a number is from zero.
pub open spec fn magnitude(n: i32) -> u32 {
    if n < 0 {
        (-n) as u32
    } else {
        n as u32
    }
}

fn absolute(n: i32) -> (r: u32)
    ensures
        r == magnitude(n),
{
    if n < 0 {
        (-(n as i64)) as u32
    } else {
        n as u32
    }
}

/// A layer surface of an output, other than one.
pub open spec fn beside(changed: ClientObjectId, output_id: OutputId) -> spec_fn(
    ClientObjectId,
    LayerSurfaceStateView,
) -> bool {
    |k: ClientObjectId, l: LayerSurfaceStateView| k != changed && l.output == Some(output_id)
}

/// Whether a layer surface is on an output.
pub open spec fn layer_on(output: OutputId) -> spec_fn(ClientObjectId, LayerSurfaceStateView) -> bool {
    |k: ClientObjectId, l: LayerSurfaceStateView| l.output == Some(output)
}

/// Whether a layer surface is on an output and has been told its size there.
pub open spec fn settled_on(output: OutputId) -> spec_fn(ClientObjectId, LayerSurfaceStateView) -> bool {
    |k: ClientObjectId, l: LayerSurfaceStateView| l.output == Some(output) && l.configured_size is Some
}

/// A client's layer surfaces.
pub open spec fn layer_of(client_id: u32) -> spec_fn(ClientObjectId, LayerSurfaceStateView) -> bool {
    |k: ClientObjectId, l: LayerSurfaceStateView| l.client_id == client_id
}

/// Tell a layer surface what size to be.
///
/// Sent when it is first committed and whenever its geometry changes - a
/// different anchor, another panel taking room, the output resizing. An
/// unchanged size sends nothing, because a configure a client has to answer is
/// not free. The position is refreshed all the same, because a panel can move
/// without resizing when the one beside it changes.
pub fn configure(state: &mut CompositorState, key: ClientObjectId)
    ensures
        final(state)@ == old(state)@.configure_layer(key),
{
    let g = match geometry(state, key) {
        Some(g) => g,
        None => {
            return;
        },
    };
    let size = (g.width, g.height);
    let (surface, unchanged): (u32, bool) = match state.layers.layer_surfaces.get(key) {
        None => {
            return;
        },
        Some(l) => (
            l.wl_surface_id,
            match l.configured_size {
                Some(s) => s.0 == size.0 && s.1 == size.1,
                None => false,
            },
        ),
    };
    state.set_configured_size(key, size);
    state.set_position((key.0, surface), (g.x, g.y));
    if unchanged {
        return;
    }
    state.send_layer_configure(key, size);
}

/// Re-configure every layer surface sharing an output with this one.
///
/// An exclusive zone is a claim on space that everybody else's placement is
/// measured against, so one panel appearing moves every other.
pub fn reconfigure_output_layers(state: &mut CompositorState, changed: ClientObjectId)
    ensures
        final(state)@ == old(state)@.reconfigure_output_layers(changed),
{
    let output_id: OutputId = match state.layers.layer_surfaces.get(changed) {
        None => {
            return;
        },
        Some(l) => match l.output {
            Some(id) => id,
            None => {
                return;
            },
        },
    };
    let others = state.layers.layer_surfaces.keys_where(
        |k: &ClientObjectId, l: &LayerSurfaceState| -> (r: bool)
            ensures r == beside(changed, output_id)(*k, l@)
            { !same_key(*k, changed) && l.output == Some(output_id) },
        Ghost(beside(changed, output_id)),
    );
    configure_layers(state, &others);
}

fn configure_layers(state: &mut CompositorState, keys: &Vec<ClientObjectId>)
    ensures
        final(state)@ == old(state)@.configure_layers(keys@),
{
    let mut i: usize = 0;
    while i < keys.len()
        invariant
            i <= keys@.len(),
            state@ == old(state)@.configure_layers(keys@.take(i as int)),
        decreases keys@.len() - i,
    {
        proof {
            assert(keys@.take(i + 1).drop_last() =~= keys@.take(i as int));
        }
        configure(state, keys[i]);
        i += 1;
    }
    proof {
        assert(keys@.take(i as int) =~= keys@);
    }
}

/// Configure again the layer surfaces of an output whose room has changed: it
/// was resized, or a panel on it has gone. One that has not been committed yet
/// is still to ask for its size.
pub fn resettle(state: &mut CompositorState, output: Option<OutputId>)
    ensures
        final(state)@ == old(state)@.resettle(output),
{
    if let Some(id) = output {
        let keys = state.layers.layer_surfaces.keys_where(
            |k: &ClientObjectId, l: &LayerSurfaceState| -> (r: bool)
                ensures r == settled_on(id)(*k, l@)
                { l.output == Some(id) && l.configured_size.is_some() },
            Ghost(settled_on(id)),
        );
        configure_layers(state, &keys);
    }
}

/// Configure again the layer surfaces of several outputs.
pub fn resettle_each(state: &mut CompositorState, outputs: &Vec<Option<OutputId>>)
    ensures
        final(state)@ == old(state)@.resettle_each(outputs@),
{
    let mut i: usize = 0;
    while i < outputs.len()
        invariant
            i <= outputs@.len(),
            state@ == old(state)@.resettle_each(outputs@.take(i as int)),
        decreases outputs@.len() - i,
    {
        proof {
            assert(outputs@.take(i + 1).drop_last() =~= outputs@.take(i as int));
        }
        resettle(state, outputs[i]);
        i += 1;
    }
    proof {
        assert(outputs@.take(i as int) =~= outputs@);
    }
}

/// The output of each of a client's layer surfaces.
pub fn panel_outputs(state: &CompositorState, client_id: u32) -> (r: Vec<Option<OutputId>>)
    ensures
        r@ == state@.panel_outputs(client_id),
{
    let keys = state.layers.layer_surfaces.keys_where(
        |k: &ClientObjectId, l: &LayerSurfaceState| -> (r: bool)
            ensures r == layer_of(client_id)(*k, l@)
            { l.client_id == client_id },
        Ghost(layer_of(client_id)),
    );
    let mut r: Vec<Option<OutputId>> = Vec::new();
    let mut i: usize = 0;
    while i < keys.len()
        invariant
            i <= keys@.len(),
            keys@ == state@.layers.layer_surfaces.keys_where(layer_of(client_id)),
            r@ == state@.panel_outputs(client_id).take(i as int),
        decreases keys@.len() - i,
    {
        let output: Option<OutputId> = state.panel_output(keys[i]);
        r.push(output);
        i += 1;
        proof {
            assert(r@ =~= state@.panel_outputs(client_id).take(i as int));
        }
    }
    proof {
        assert(r@ =~= state@.panel_outputs(client_id));
    }
    r
}

/// Tell a layer surface it is going away, and that it should destroy itself.
///
/// The compositor's half of a surface whose output has been unplugged.
pub fn send_closed(state: &mut CompositorState, key: ClientObjectId)
    ensures
        final(state)@ == old(state)@.tell(key.0, event(key.1, LAYER_CLOSED, Seq::empty())),
{
    state.tell(key.0, build_message(key.1, LAYER_CLOSED, no_args()));
}

impl StateView {
    /// With the size a layer surface is configured with noted.
    pub open spec fn set_configured_size(self, key: ClientObjectId, size: (i32, i32)) -> Self {
        StateView {
            layers: LayersView {
                layer_surfaces: self.layers.layer_surfaces.edit(
                    key,
                    |l: LayerSurfaceStateView| LayerSurfaceStateView { configured_size: Some(size), ..l },
                ),
                ..self.layers
            },
            ..self
        }
    }

    /// With a serial noted as sent to a layer surface.
    pub open spec fn record_layer_configure(self, key: ClientObjectId, serial: u32) -> Self {
        StateView {
            layers: LayersView {
                layer_surfaces: self.layers.layer_surfaces.edit(
                    key,
                    |l: LayerSurfaceStateView|
                        LayerSurfaceStateView {
                            pending_configures: l.pending_configures.push(serial),
                            highest_configure: serial,
                            ..l
                        },
                ),
                ..self.layers
            },
            ..self
        }
    }

    /// With a layer surface sent the size it is to have.
    pub open spec fn send_layer_configure(self, key: ClientObjectId, size: (i32, i32)) -> Self {
        let serial = self.next_serial;
        self.serial_taken().record_layer_configure(key, serial).tell(
            key.0,
            event(
                key.1,
                LAYER_CONFIGURE,
                seq![ArgView::Uint(serial), ArgView::Uint(magnitude(size.0)), ArgView::Uint(magnitude(size.1))],
            ),
        )
    }

    /// With a layer surface put where it goes, and told its size if that has
    /// changed.
    pub open spec fn configure_layer(self, key: ClientObjectId) -> Self {
        match self.layer_geometry(key) {
            None => self,
            Some(g) => {
                let size = (g.width, g.height);
                let layer = self.layers.layer_surfaces.at(key);
                let put = self.set_configured_size(key, size).set_position(
                    (key.0, layer.wl_surface_id),
                    (g.x, g.y),
                );
                if layer.configured_size == Some(size) {
                    put
                } else {
                    put.send_layer_configure(key, size)
                }
            },
        }
    }

    /// With several layer surfaces configured in turn.
    pub open spec fn configure_layers(self, keys: Seq<ClientObjectId>) -> Self
        decreases keys.len(),
    {
        if keys.len() == 0 {
            self
        } else {
            self.configure_layers(keys.drop_last()).configure_layer(keys.last())
        }
    }

    /// The other layer surfaces on an output.
    pub open spec fn layers_beside(self, changed: ClientObjectId, output_id: OutputId) -> Seq<ClientObjectId> {
        self.layers.layer_surfaces.keys_where(beside(changed, output_id))
    }

    /// With every other layer surface on a layer surface's output configured
    /// again.
    pub open spec fn reconfigure_output_layers(self, changed: ClientObjectId) -> Self {
        if !self.layers.layer_surfaces.has(changed) {
            self
        } else {
            match self.layers.layer_surfaces.at(changed).output {
                None => self,
                Some(id) => self.configure_layers(self.layers_beside(changed, id)),
            }
        }
    }

    /// With the layer surfaces of an output that have been told their size
    /// configured again.
    pub open spec fn resettle(self, output: Option<OutputId>) -> Self {
        match output {
            None => self,
            Some(id) => self.configure_layers(self.layers.layer_surfaces.keys_where(settled_on(id))),
        }
    }

    /// With the layer surfaces of several outputs configured again.
    pub open spec fn resettle_each(self, outputs: Seq<Option<OutputId>>) -> Self
        decreases outputs.len(),
    {
        if outputs.len() == 0 {
            self
        } else {
            self.resettle_each(outputs.drop_last()).resettle(outputs.last())
        }
    }

    /// The output a layer surface is on.
    pub open spec fn panel_output(self, key: ClientObjectId) -> Option<OutputId> {
        if self.layers.layer_surfaces.has(key) {
            self.layers.layer_surfaces.at(key).output
        } else {
            None
        }
    }

    /// The output of each of a client's layer surfaces.
    pub open spec fn panel_outputs(self, client_id: u32) -> Seq<Option<OutputId>> {
        self.layers.layer_surfaces.keys_where(layer_of(client_id)).map_values(
            |k: ClientObjectId| self.panel_output(k),
        )
    }

    /// With what a layer surface has been asked for made current.
    pub open spec fn commit_layer(self, key: ClientObjectId) -> Self {
        StateView {
            layers: LayersView {
                layer_surfaces: self.layers.layer_surfaces.edit(
                    key,
                    |l: LayerSurfaceStateView| LayerSurfaceStateView { current: l.pending, ..l },
                ),
                ..self.layers
            },
            ..self
        }
    }
}

impl CompositorState {
    fn set_configured_size(&mut self, key: ClientObjectId, size: (i32, i32))
        ensures
            final(self)@ == old(self)@.set_configured_size(key, size),
    {
        if let Some(l) = self.layers.layer_surfaces.get_mut(key) {
            l.configured_size = Some(size);
        }
    }

    fn record_layer_configure(&mut self, key: ClientObjectId, serial: u32)
        ensures
            final(self)@ == old(self)@.record_layer_configure(key, serial),
    {
        if let Some(l) = self.layers.layer_surfaces.get_mut(key) {
            l.pending_configures.push(serial);
            l.highest_configure = serial;
        }
    }

    fn send_layer_configure(&mut self, key: ClientObjectId, size: (i32, i32))
        ensures
            final(self)@ == old(self)@.send_layer_configure(key, size),
    {
        let serial = self.take_serial();
        self.record_layer_configure(key, serial);
        let args: Vec<Arg> = vec![Arg::Uint(serial), Arg::Uint(absolute(size.0)), Arg::Uint(absolute(size.1))];
        proof {
            assert(args_view(args@) =~= seq![
                ArgView::Uint(serial),
                ArgView::Uint(magnitude(size.0)),
                ArgView::Uint(magnitude(size.1)),
            ]);
        }
        self.tell(key.0, build_message(key.1, LAYER_CONFIGURE, args));
    }

    /// The output a layer surface is on.
    pub fn panel_output(&self, key: ClientObjectId) -> (r: Option<OutputId>)
        ensures
            r == self@.panel_output(key),
    {
        match self.layers.layer_surfaces.get(key) {
            Some(l) => l.output,
            None => None,
        }
    }

    /// Make what a layer surface has been asked for current.
    pub fn commit_layer(&mut self, key: ClientObjectId)
        ensures
            final(self)@ == old(self)@.commit_layer(key),
    {
        if let Some(l) = self.layers.layer_surfaces.get_mut(key) {
            l.current = l.pending;
        }
    }
}

} // verus!
