//! What goes when a surface, an output or a whole client goes.
use crate::seqs::lemma_filter_push;
use crate::state::compositor_state::{
    CompositorState, CursorsView, DisplaysView, ExchangeView, InputsView, LayersView, MemoryView,
    StateView, SurfacesView, WindowsView,
};
use crate::state::selections::Which;
use crate::state::types::{
    Buffer, BufferParams, BufferParamsView, BufferView, ClientObjectId, DataControlDeviceBinding,
    DataDeviceBinding, DataOffer, DataOfferView, DataSourceView, DecorationState, DragView,
    FractionalScaleBinding, Hook, KeyboardBinding, LayerSurfaceState, LayerSurfaceStateView,
    MAX_DMABUF_PLANES, Output, OutputId, outputs_view, OutputView, PendingImport, PendingPlane,
    PointerBinding, PrimaryDeviceBinding, Region, RegionView, same_key, same_opt_key, ShmPool,
    Surface, SurfaceView, TouchBinding, ViewportState, XdgPopupState, XdgPositionerState,
    XdgSurfaceState, XdgSurfaceStateView, XdgToplevelState, XdgToplevelStateView,
};
use crate::state::xdg::{drop_key, key_unless};
use crate::table::{Dict, KeySet, lemma_set_without, set_without, Table};
use vstd::prelude::*;

verus! {

/// What belongs to a client.
pub trait Owned: View + Sized {
    /// The client a value belongs to.
    spec fn owner_of(v: Self::V) -> u32;

    /// The client this belongs to.
    fn owner(&self) -> (r: u32)
        ensures
            r == Self::owner_of(self@),
    ;
}

impl Owned for Buffer {
    open spec fn owner_of(v: BufferView) -> u32 {
        v.client_id
    }

    fn owner(&self) -> (r: u32) {
        self.client_id
    }
}

impl Owned for Surface {
    open spec fn owner_of(v: SurfaceView) -> u32 {
        v.client_id
    }

    fn owner(&self) -> (r: u32) {
        self.client_id
    }
}

impl Owned for Region {
    open spec fn owner_of(v: RegionView) -> u32 {
        v.client_id
    }

    fn owner(&self) -> (r: u32) {
        self.client_id
    }
}

impl Owned for ViewportState {
    open spec fn owner_of(v: ViewportState) -> u32 {
        v.client_id
    }

    fn owner(&self) -> (r: u32) {
        self.client_id
    }
}

impl Owned for XdgToplevelState {
    open spec fn owner_of(v: XdgToplevelStateView) -> u32 {
        v.client_id
    }

    fn owner(&self) -> (r: u32) {
        self.client_id
    }
}

impl Owned for XdgPopupState {
    open spec fn owner_of(v: XdgPopupState) -> u32 {
        v.client_id
    }

    fn owner(&self) -> (r: u32) {
        self.client_id
    }
}

impl Owned for XdgSurfaceState {
    open spec fn owner_of(v: XdgSurfaceStateView) -> u32 {
        v.client_id
    }

    fn owner(&self) -> (r: u32) {
        self.client_id
    }
}

impl Owned for XdgPositionerState {
    open spec fn owner_of(v: XdgPositionerState) -> u32 {
        v.client_id
    }

    fn owner(&self) -> (r: u32) {
        self.client_id
    }
}

impl Owned for DecorationState {
    open spec fn owner_of(v: DecorationState) -> u32 {
        v.client_id
    }

    fn owner(&self) -> (r: u32) {
        self.client_id
    }
}

impl Owned for LayerSurfaceState {
    open spec fn owner_of(v: LayerSurfaceStateView) -> u32 {
        v.client_id
    }

    fn owner(&self) -> (r: u32) {
        self.client_id
    }
}

impl Owned for DataOffer {
    open spec fn owner_of(v: DataOfferView) -> u32 {
        v.client_id
    }

    fn owner(&self) -> (r: u32) {
        self.client_id
    }
}

impl Owned for PointerBinding {
    open spec fn owner_of(v: PointerBinding) -> u32 {
        v.client_id
    }

    fn owner(&self) -> (r: u32) {
        self.client_id
    }
}

impl Owned for KeyboardBinding {
    open spec fn owner_of(v: KeyboardBinding) -> u32 {
        v.client_id
    }

    fn owner(&self) -> (r: u32) {
        self.client_id
    }
}

impl Owned for TouchBinding {
    open spec fn owner_of(v: TouchBinding) -> u32 {
        v.client_id
    }

    fn owner(&self) -> (r: u32) {
        self.client_id
    }
}

impl Owned for DataDeviceBinding {
    open spec fn owner_of(v: DataDeviceBinding) -> u32 {
        v.client_id
    }

    fn owner(&self) -> (r: u32) {
        self.client_id
    }
}

impl Owned for PrimaryDeviceBinding {
    open spec fn owner_of(v: PrimaryDeviceBinding) -> u32 {
        v.client_id
    }

    fn owner(&self) -> (r: u32) {
        self.client_id
    }
}

impl Owned for DataControlDeviceBinding {
    open spec fn owner_of(v: DataControlDeviceBinding) -> u32 {
        v.client_id
    }

    fn owner(&self) -> (r: u32) {
        self.client_id
    }
}

/// Whether an entry belongs to any client but one.
pub open spec fn not_owned<V: Owned>(client_id: u32) -> spec_fn(ClientObjectId, V::V) -> bool {
    |k: ClientObjectId, v: V::V| V::owner_of(v) != client_id
}

/// Whether an entry is under a key of any client but one.
pub open spec fn other_key<V>(client_id: u32) -> spec_fn(ClientObjectId, V) -> bool {
    |k: ClientObjectId, v: V| k.0 != client_id
}

/// Whether an entry is under a key of a client.
pub open spec fn own_key<V>(client_id: u32) -> spec_fn(ClientObjectId, V) -> bool {
    |k: ClientObjectId, v: V| k.0 == client_id
}

/// Whether an object is of any client but one.
pub open spec fn of_other(client_id: u32) -> spec_fn(ClientObjectId) -> bool {
    |k: ClientObjectId| k.0 != client_id
}

/// Whether a binding belongs to any client but one.
pub open spec fn not_mine<T: Owned>(client_id: u32) -> spec_fn(T) -> bool {
    |t: T| T::owner_of(t@) != client_id
}

fn retain_others<V: Owned>(table: &mut Table<ClientObjectId, V>, client_id: u32)
    ensures
        final(table)@ == old(table)@.keep(not_owned::<V>(client_id)),
{
    table.retain(
        |k: &ClientObjectId, v: &V| -> (r: bool)
            ensures r == not_owned::<V>(client_id)(*k, v@)
            { v.owner() != client_id },
        Ghost(not_owned::<V>(client_id)),
    );
}

fn retain_keys<V: View>(table: &mut Table<ClientObjectId, V>, client_id: u32)
    ensures
        final(table)@ == old(table)@.keep(other_key::<V::V>(client_id)),
{
    table.retain(
        |k: &ClientObjectId, v: &V| -> (r: bool)
            ensures r == other_key::<V::V>(client_id)(*k, v@)
            { k.0 != client_id },
        Ghost(other_key::<V::V>(client_id)),
    );
}

fn retain_set(set: &mut KeySet<ClientObjectId>, client_id: u32)
    ensures
        final(set)@ == old(set)@.filter(of_other(client_id)),
{
    set.retain(
        |k: &ClientObjectId| -> (r: bool) ensures r == of_other(client_id)(*k) { k.0 != client_id },
        Ghost(of_other(client_id)),
    );
}

fn retain_list(list: &mut Vec<ClientObjectId>, client_id: u32)
    ensures
        final(list)@ == old(list)@.filter(of_other(client_id)),
{
    let ghost all = list@;
    let ghost p = of_other(client_id);
    let mut kept: Vec<ClientObjectId> = Vec::new();
    let mut i: usize = 0;
    proof {
        assert(all.take(0).filter(p) =~= Seq::<ClientObjectId>::empty()) by {
            reveal(Seq::filter);
        }
    }
    while i < list.len()
        invariant
            i <= all.len(),
            list@ == all,
            p == of_other(client_id),
            kept@ == all.take(i as int).filter(p),
        decreases all.len() - i,
    {
        proof {
            assert(all.take(i + 1) =~= all.take(i as int).push(all[i as int]));
            lemma_filter_push(all.take(i as int), all[i as int], p);
        }
        if list[i].0 != client_id {
            kept.push(list[i]);
        }
        i += 1;
    }
    proof {
        assert(all.take(i as int) =~= all);
    }
    *list = kept;
}

fn retain_bindings<T: Owned + Copy>(list: &mut Vec<T>, client_id: u32)
    ensures
        final(list)@ == old(list)@.filter(not_mine::<T>(client_id)),
{
    let ghost all = list@;
    let ghost p = not_mine::<T>(client_id);
    let mut kept: Vec<T> = Vec::new();
    let mut i: usize = 0;
    proof {
        assert(all.take(0).filter(p) =~= Seq::<T>::empty()) by {
            reveal(Seq::filter);
        }
    }
    while i < list.len()
        invariant
            i <= all.len(),
            list@ == all,
            p == not_mine::<T>(client_id),
            kept@ == all.take(i as int).filter(p),
        decreases all.len() - i,
    {
        proof {
            assert(all.take(i + 1) =~= all.take(i as int).push(all[i as int]));
            lemma_filter_push(all.take(i as int), all[i as int], p);
        }
        if list[i].owner() != client_id {
            kept.push(list[i]);
        }
        i += 1;
    }
    proof {
        assert(all.take(i as int) =~= all);
    }
    *list = kept;
}

/// A surface key, unless it is of a client.
pub open spec fn key_of_other(k: Option<ClientObjectId>, client_id: u32) -> Option<ClientObjectId> {
    match k {
        Some(k) => if k.0 == client_id {
            None
        } else {
            Some(k)
        },
        None => None,
    }
}

fn drop_client_key(k: Option<ClientObjectId>, client_id: u32) -> (r: Option<ClientObjectId>)
    ensures
        r == key_of_other(k, client_id),
{
    match k {
        Some(k) => if k.0 == client_id {
            None
        } else {
            Some(k)
        },
        None => None,
    }
}

/// A finger on any surface but one.
pub open spec fn not_on(key: ClientObjectId) -> spec_fn(i32, ClientObjectId) -> bool {
    |id: i32, point: ClientObjectId| point != key
}

/// A finger on a surface of any client but one.
pub open spec fn not_on_client(client_id: u32) -> spec_fn(i32, ClientObjectId) -> bool {
    |id: i32, point: ClientObjectId| point.0 != client_id
}

/// A standing question about any surface but one.
pub open spec fn not_about(key: ClientObjectId) -> spec_fn(ClientObjectId, FractionalScaleBinding) -> bool {
    |k: ClientObjectId, b: FractionalScaleBinding| !(k.0 == key.0 && b.surface_id == key.1)
}

/// A binding of any output but one.
pub open spec fn not_bound_to(output_id: OutputId) -> spec_fn(ClientObjectId, u32) -> bool {
    |k: ClientObjectId, id: u32| id != output_id
}

/// A surface no longer on an output.
pub open spec fn off_output(output_id: OutputId) -> spec_fn(ClientObjectId, SurfaceView) -> SurfaceView {
    |k: ClientObjectId, s: SurfaceView|
        SurfaceView {
            entered_outputs: set_without(s.entered_outputs, output_id),
            visible_on: set_without(s.visible_on, output_id),
            ..s
        }
}

/// Any output but one.
pub open spec fn not_output(output_id: OutputId) -> spec_fn(OutputView) -> bool {
    |o: OutputView| o.id != output_id
}

/// Whether an import was asked for by any client but one.
pub open spec fn asked_by_other(client_id: u32) -> spec_fn(u64, PendingImport) -> bool {
    |token: u64, p: PendingImport| p.client_id != client_id
}

/// The descriptors of some planes.
pub open spec fn plane_fds(planes: Seq<Option<PendingPlane>>) -> Seq<i32>
    decreases planes.len(),
{
    if planes.len() == 0 {
        Seq::empty()
    } else {
        match planes.last() {
            Some(p) => plane_fds(planes.drop_last()).push(p.fd),
            None => plane_fds(planes.drop_last()),
        }
    }
}

/// The descriptors of some buffers being described.
pub open spec fn params_fds(params: Dict<ClientObjectId, BufferParamsView>, keys: Seq<ClientObjectId>) -> Seq<i32>
    decreases keys.len(),
{
    if keys.len() == 0 {
        Seq::empty()
    } else {
        params_fds(params, keys.drop_last()) + plane_fds(params.at(keys.last()).planes)
    }
}

impl StateView {
    /// With a surface gone from everything that is kept about surfaces.
    pub open spec fn forget_surface(self, key: ClientObjectId) -> Self {
        StateView {
            surf: SurfacesView {
                surfaces: self.surf.surfaces.without(key),
                cursor_role_surfaces: set_without(self.surf.cursor_role_surfaces, key),
                dnd_icon_surfaces: set_without(self.surf.dnd_icon_surfaces, key),
                fractional_scales: self.surf.fractional_scales.keep(not_about(key)),
                ..self.surf
            },
            ..self
        }
    }

    /// With no input going to a surface.
    pub open spec fn input_leaves(self, key: ClientObjectId) -> Self {
        StateView {
            input: InputsView {
                pointer_surface: key_unless(self.input.pointer_surface, key),
                focused_surface: key_unless(self.input.focused_surface, key),
                touch_points: self.input.touch_points.keep(not_on(key)),
                ..self.input
            },
            ..self
        }
    }

    /// With a surface no child of a parent.
    pub open spec fn drop_child(self, client_id: u32, parent: Option<u32>, child: u32) -> Self {
        match parent {
            Some(p) => StateView {
                surf: SurfacesView {
                    surfaces: self.surf.surfaces.edit(
                        (client_id, p),
                        |s: SurfaceView| SurfaceView { children: set_without(s.children, child), ..s },
                    ),
                    ..self.surf
                },
                ..self
            },
            None => self,
        }
    }

    /// With a drag having lost a surface: ended if it started there, without
    /// its icon if that was it, off it if it was over it.
    pub open spec fn drag_loses_surface(self, key: ClientObjectId) -> Self {
        match self.data.drag {
            None => self,
            Some(d) => if d.origin == key {
                self.cancel_drag()
            } else {
                let bare = if d.icon == Some(key) {
                    self.set_drag(Some(DragView { icon: None, ..d })).dirtied()
                } else {
                    self
                };
                if d.focus == Some(key) {
                    bare.end_drag_focus()
                } else {
                    bare
                }
            },
        }
    }

    /// With a surface destroyed.
    pub open spec fn destroy_surface(self, client_id: u32, surface_id: u32) -> Self {
        let key = (client_id, surface_id);
        self.forget_surface(key).input_leaves(key).drop_child(
            client_id,
            self.parent_of(client_id, surface_id),
            surface_id,
        ).drag_loses_surface(key)
    }

    /// With an output gone from what is kept about outputs.
    pub open spec fn forget_output(self, output_id: OutputId) -> Self {
        StateView {
            out: DisplaysView {
                outputs: self.out.outputs.filter(not_output(output_id)),
                output_bindings: self.out.output_bindings.keep(not_bound_to(output_id)),
                output_global_names: self.out.output_global_names.without(output_id),
                ..self.out
            },
            ..self
        }
    }

    /// With no surface on an output.
    pub open spec fn surfaces_leave_output(self, output_id: OutputId) -> Self {
        StateView {
            surf: SurfacesView { surfaces: self.surf.surfaces.each(off_output(output_id)), ..self.surf },
            ..self
        }
    }

    /// With an output taken away.
    pub open spec fn remove_output(self, output_id: OutputId) -> Self {
        self.forget_output(output_id).surfaces_leave_output(output_id).hook(Hook::OutputsChanged).dirtied()
    }

    /// With a client's buffers gone.
    pub open spec fn forget_buffers_of(self, client_id: u32) -> Self {
        StateView {
            mem: MemoryView {
                buffers: self.mem.buffers.keep(not_owned::<Buffer>(client_id)),
                buffer_guards: self.mem.buffer_guards.keep(other_key::<u32>(client_id)),
                releasing_buffers: self.mem.releasing_buffers.filter(of_other(client_id)),
                ..self.mem
            },
            ..self
        }
    }

    /// With what a client was describing and importing gone, and the descriptors
    /// it described with given up.
    pub open spec fn forget_imports_of(self, client_id: u32) -> Self {
        let params = self.mem.dmabuf_params;
        StateView {
            mem: MemoryView {
                closed_fds: self.mem.closed_fds + params_fds(
                    params,
                    params.keys_where(own_key::<BufferParamsView>(client_id)),
                ),
                dmabuf_params: params.keep(other_key::<BufferParamsView>(client_id)),
                pending_dmabuf_imports: self.mem.pending_dmabuf_imports.keep(asked_by_other(client_id)),
                ..self.mem
            },
            ..self
        }
    }

    /// The pools that belong to a client.
    pub open spec fn pools_of(self, client_id: u32) -> Seq<ClientObjectId> {
        self.mem.shm_pools.keys_where(|k: ClientObjectId, p: ShmPool| p.client_id == client_id)
    }

    /// With several of a client's pools destroyed.
    pub open spec fn destroy_pools(self, client_id: u32, keys: Seq<ClientObjectId>) -> Self
        decreases keys.len(),
    {
        if keys.len() == 0 {
            self
        } else {
            self.destroy_pools(client_id, keys.drop_last()).destroy_shm_pool(client_id, keys.last().1)
        }
    }

    /// With a client's surfaces and regions gone.
    pub open spec fn forget_surfaces_of(self, client_id: u32) -> Self {
        StateView {
            surf: SurfacesView {
                surfaces: self.surf.surfaces.keep(not_owned::<Surface>(client_id)),
                regions: self.surf.regions.keep(not_owned::<Region>(client_id)),
                viewports: self.surf.viewports.keep(not_owned::<ViewportState>(client_id)),
                surface_viewport: self.surf.surface_viewport.keep(other_key::<u32>(client_id)),
                subsurface_map: self.surf.subsurface_map.keep(other_key::<u32>(client_id)),
                cursor_role_surfaces: self.surf.cursor_role_surfaces.filter(of_other(client_id)),
                ..self.surf
            },
            ..self
        }
    }

    /// With a client's windows gone.
    pub open spec fn forget_windows_of(self, client_id: u32) -> Self {
        StateView {
            win: WindowsView {
                xdg_toplevels: self.win.xdg_toplevels.keep(not_owned::<XdgToplevelState>(client_id)),
                xdg_popups: self.win.xdg_popups.keep(not_owned::<XdgPopupState>(client_id)),
                xdg_surfaces: self.win.xdg_surfaces.keep(not_owned::<XdgSurfaceState>(client_id)),
                xdg_positioners: self.win.xdg_positioners.keep(not_owned::<XdgPositionerState>(client_id)),
                decorations: self.win.decorations.keep(not_owned::<DecorationState>(client_id)),
                toplevel_decoration: self.win.toplevel_decoration.keep(other_key::<u32>(client_id)),
                grabbed_popups: self.win.grabbed_popups.filter(of_other(client_id)),
                pointer_grab: match self.win.pointer_grab {
                    Some(g) => if g.surface.0 == client_id {
                        None
                    } else {
                        Some(g)
                    },
                    None => None,
                },
                resize_anchor: match self.win.resize_anchor {
                    Some(a) => if a.surface.0 == client_id {
                        None
                    } else {
                        Some(a)
                    },
                    None => None,
                },
            },
            ..self
        }
    }

    /// With a client's layer surfaces gone.
    pub open spec fn forget_layers_of(self, client_id: u32) -> Self {
        StateView {
            layers: LayersView {
                layer_surfaces: self.layers.layer_surfaces.keep(not_owned::<LayerSurfaceState>(client_id)),
                surface_layer: self.layers.surface_layer.keep(other_key::<u32>(client_id)),
            },
            ..self
        }
    }

    /// With a client holding no input device and its serials forgotten.
    pub open spec fn forget_inputs_of(self, client_id: u32) -> Self {
        StateView {
            input: InputsView {
                pointers: self.input.pointers.filter(not_mine::<PointerBinding>(client_id)),
                keyboards: self.input.keyboards.filter(not_mine::<KeyboardBinding>(client_id)),
                touches: self.input.touches.filter(not_mine::<TouchBinding>(client_id)),
                touch_points: self.input.touch_points.keep(not_on_client(client_id)),
                pointer_enter_serial: self.input.pointer_enter_serial.without(client_id),
                last_button_serial: self.input.last_button_serial.without(client_id),
                recent_input_serials: self.input.recent_input_serials.without(client_id),
                ..self.input
            },
            ..self
        }
    }

    /// With a client's bindings of outputs gone.
    pub open spec fn forget_outputs_of(self, client_id: u32) -> Self {
        StateView {
            out: DisplaysView {
                output_bindings: self.out.output_bindings.keep(other_key::<u32>(client_id)),
                ..self.out
            },
            ..self
        }
    }

    /// With a client's cursors gone.
    pub open spec fn forget_cursors_of(self, client_id: u32) -> Self {
        StateView {
            cursors: CursorsView {
                cursor_surfaces: self.cursors.cursor_surfaces.without(client_id),
                cursor_shapes: self.cursors.cursor_shapes.without(client_id),
                ..self.cursors
            },
            ..self
        }
    }

    /// With a client's buffers not waiting to be released.
    pub open spec fn forget_pending_of(self, client_id: u32) -> Self {
        StateView {
            mem: MemoryView {
                buffers_pending_release: self.mem.buffers_pending_release.filter(of_other(client_id)),
                ..self.mem
            },
            ..self
        }
    }

    /// With a drag having lost a client: ended if the client started it, over
    /// nothing if it was over the client.
    pub open spec fn drag_loses_client(self, client_id: u32) -> Self {
        match self.data.drag {
            None => self,
            Some(d) => if d.origin_client == client_id {
                self.cancel_drag()
            } else {
                match d.focus {
                    Some(f) => if f.0 == client_id {
                        self.unfocus_drag()
                    } else {
                        self
                    },
                    None => self,
                }
            },
        }
    }

    /// With a selection cleared if a client holds it.
    pub open spec fn selection_loses_client(self, which: Which, client_id: u32) -> Self {
        match self.held(which) {
            Some(s) => if s.0 == client_id {
                self.clear_selected(which)
            } else {
                self
            },
            None => self,
        }
    }

    /// With what a client offers and was offered gone.
    pub open spec fn forget_exchange_of(self, client_id: u32) -> Self {
        StateView {
            data: ExchangeView {
                data_sources: self.data.data_sources.keep(other_key::<DataSourceView>(client_id)),
                data_offers: self.data.data_offers.keep(not_owned::<DataOffer>(client_id)),
                data_devices: self.data.data_devices.filter(not_mine::<DataDeviceBinding>(client_id)),
                primary_devices: self.data.primary_devices.filter(not_mine::<PrimaryDeviceBinding>(client_id)),
                data_control_devices: self.data.data_control_devices.filter(
                    not_mine::<DataControlDeviceBinding>(client_id),
                ),
                ..self.data
            },
            ..self
        }
    }

    /// With a client's standing questions and drag icons gone.
    pub open spec fn forget_questions_of(self, client_id: u32) -> Self {
        StateView {
            surf: SurfacesView {
                fractional_scales: self.surf.fractional_scales.keep(other_key::<FractionalScaleBinding>(client_id)),
                dnd_icon_surfaces: self.surf.dnd_icon_surfaces.filter(of_other(client_id)),
                ..self.surf
            },
            ..self
        }
    }

    /// With no focus on a client.
    pub open spec fn focus_leaves_client(self, client_id: u32) -> Self {
        StateView {
            input: InputsView {
                focused_surface: key_of_other(self.input.focused_surface, client_id),
                pointer_surface: key_of_other(self.input.pointer_surface, client_id),
                ..self.input
            },
            ..self
        }
    }

    /// With the objects of a client gone that nothing else depends on.
    pub open spec fn forget_objects_of(self, client_id: u32) -> Self {
        let bare = self.forget_buffers_of(client_id).forget_imports_of(client_id);
        bare.destroy_pools(client_id, bare.pools_of(client_id)).forget_surfaces_of(client_id).forget_windows_of(
            client_id,
        ).forget_layers_of(client_id).forget_inputs_of(client_id).forget_outputs_of(client_id).forget_cursors_of(
            client_id,
        )
    }

    /// With what a client was exchanging with others unwound.
    pub open spec fn unwind_exchange_of(self, client_id: u32) -> Self {
        self.drag_loses_client(client_id).selection_loses_client(Which::Clipboard, client_id).selection_loses_client(
            Which::Primary,
            client_id,
        ).invalidate_sources_of(client_id).forget_exchange_of(client_id)
    }

    /// With everything that belonged to a client gone.
    pub open spec fn remove_client_resources(self, client_id: u32) -> Self {
        self.forget_objects_of(client_id).hook(Hook::ClientRemoved(client_id)).forget_pending_of(
            client_id,
        ).unwind_exchange_of(client_id).forget_questions_of(client_id).focus_leaves_client(client_id)
    }
}

fn fds_of(p: &BufferParams) -> (r: Vec<i32>)
    ensures
        r@ == plane_fds(p@.planes),
{
    let mut r: Vec<i32> = Vec::new();
    let mut i: usize = 0;
    while i < MAX_DMABUF_PLANES
        invariant
            i <= MAX_DMABUF_PLANES,
            p.planes@.len() == MAX_DMABUF_PLANES,
            r@ == plane_fds(p.planes@.take(i as int)),
        decreases MAX_DMABUF_PLANES - i,
    {
        proof {
            assert(p.planes@.take(i + 1).drop_last() =~= p.planes@.take(i as int));
        }
        if let Some(plane) = p.planes[i] {
            r.push(plane.fd);
        }
        i += 1;
    }
    proof {
        assert(p.planes@.take(i as int) =~= p.planes@);
    }
    r
}

pub fn drop_child_id(children: &mut Vec<u32>, child: u32)
    ensures
        final(children)@ == set_without(old(children)@, child),
{
    let ghost all = children@;
    let ghost p = |x: u32| x != child;
    let mut kept: Vec<u32> = Vec::new();
    let mut i: usize = 0;
    proof {
        assert(all.take(0).filter(p) =~= Seq::<u32>::empty()) by {
            reveal(Seq::filter);
        }
    }
    while i < children.len()
        invariant
            i <= all.len(),
            children@ == all,
            p == (|x: u32| x != child),
            kept@ == all.take(i as int).filter(p),
        decreases all.len() - i,
    {
        proof {
            assert(all.take(i + 1) =~= all.take(i as int).push(all[i as int]));
            lemma_filter_push(all.take(i as int), all[i as int], p);
        }
        if children[i] != child {
            kept.push(children[i]);
        }
        i += 1;
    }
    proof {
        assert(all.take(i as int) =~= all);
        lemma_set_without(all, child, p);
    }
    *children = kept;
}

fn drop_output(outputs: &mut Vec<Output>, output_id: OutputId)
    ensures
        outputs_view(final(outputs)@) == outputs_view(old(outputs)@).filter(not_output(output_id)),
{
    let ghost all = outputs_view(outputs@);
    let ghost p = not_output(output_id);
    let mut rest: Vec<Output> = Vec::new();
    core::mem::swap(outputs, &mut rest);
    let ghost source = rest@;
    let mut kept: Vec<Output> = Vec::new();
    let n: usize = rest.len();
    let mut i: usize = 0;
    proof {
        assert(all.take(0).filter(p) =~= Seq::<OutputView>::empty()) by {
            reveal(Seq::filter);
        }
        assert(outputs_view(kept@) =~= all.take(0).filter(p));
        assert(source.skip(0) =~= source);
    }
    while i < n
        invariant
            i <= n,
            n == source.len(),
            all == outputs_view(source),
            p == not_output(output_id),
            rest@ == source.skip(i as int),
            outputs_view(kept@) == all.take(i as int).filter(p),
        decreases n - i,
    {
        let output = rest.remove(0);
        proof {
            assert(output == source[i as int]);
            assert(all[i as int] == output@);
            assert(source.skip(i as int).remove(0) =~= source.skip(i + 1));
            assert(all.take(i + 1) =~= all.take(i as int).push(output@));
            lemma_filter_push(all.take(i as int), output@, p);
        }
        if output.id != output_id {
            let ghost before = kept@;
            kept.push(output);
            proof {
                assert(outputs_view(kept@) =~= outputs_view(before).push(output@));
            }
        }
        i += 1;
    }
    proof {
        assert(all.take(i as int) =~= all);
    }
    *outputs = kept;
}

impl CompositorState {
    fn forget_surface(&mut self, key: ClientObjectId)
        ensures
            final(self)@ == old(self)@.forget_surface(key),
    {
        let _ = self.surf.surfaces.remove(key);
        let _ = self.surf.cursor_role_surfaces.remove(key);
        let _ = self.surf.dnd_icon_surfaces.remove(key);
        self.surf.fractional_scales.retain(
            |k: &ClientObjectId, b: &FractionalScaleBinding| -> (r: bool)
                ensures r == not_about(key)(*k, b@)
                { !(k.0 == key.0 && b.surface_id == key.1) },
            Ghost(not_about(key)),
        );
    }

    fn input_leaves(&mut self, key: ClientObjectId)
        ensures
            final(self)@ == old(self)@.input_leaves(key),
    {
        self.input.pointer_surface = drop_key(self.input.pointer_surface, key);
        self.input.focused_surface = drop_key(self.input.focused_surface, key);
        self.input.touch_points.retain(
            |id: &i32, point: &ClientObjectId| -> (r: bool)
                ensures r == not_on(key)(*id, point@)
                { !same_key(*point, key) },
            Ghost(not_on(key)),
        );
    }

    /// Take a surface out of a parent's children.
    pub fn drop_child(&mut self, client_id: u32, parent: Option<u32>, child: u32)
        ensures
            final(self)@ == old(self)@.drop_child(client_id, parent, child),
    {
        if let Some(p) = parent {
            if let Some(surface) = self.surf.surfaces.get_mut((client_id, p)) {
                drop_child_id(&mut surface.children, child);
            }
        }
    }

    fn drag_loses_surface(&mut self, key: ClientObjectId)
        ensures
            final(self)@ == old(self)@.drag_loses_surface(key),
    {
        let (origin, icon, focus): (bool, bool, bool) = match &self.data.drag {
            None => {
                return;
            },
            Some(d) => (
                same_key(d.origin, key),
                same_opt_key(d.icon, Some(key)),
                same_opt_key(d.focus, Some(key)),
            ),
        };
        if origin {
            self.cancel_drag();
            return;
        }
        if icon {
            self.drop_drag_icon();
        }
        if focus {
            self.end_drag_focus();
        }
    }

    fn drop_drag_icon(&mut self)
        ensures
            match old(self)@.data.drag {
                Some(d) => final(self)@ == old(self)@.set_drag(Some(DragView { icon: None, ..d })).dirtied(),
                None => final(self)@ == old(self)@.dirtied(),
            },
    {
        if let Some(drag) = &mut self.data.drag {
            drag.icon = None;
        }
        self.dirty = true;
    }

    pub fn destroy_surface(&mut self, client_id: u32, surface_id: u32)
        ensures
            final(self)@ == old(self)@.destroy_surface(client_id, surface_id),
    {
        let key = (client_id, surface_id);
        let parent: Option<u32> = match self.surf.surfaces.get(key) {
            Some(s) => s.parent,
            None => None,
        };
        self.forget_surface(key);
        self.input_leaves(key);
        self.drop_child(client_id, parent, surface_id);
        self.drag_loses_surface(key);
    }

    fn surfaces_leave_output(&mut self, output_id: OutputId)
        ensures
            final(self)@ == old(self)@.surfaces_leave_output(output_id),
    {
        let ghost f = off_output(output_id);
        let ghost before = self@.surf.surfaces;
        self.surf.surfaces.known();
        proof {
            before.lemma_each(f);
        }
        let n: usize = self.surf.surfaces.len();
        let mut i: usize = 0;
        while i < n
            invariant
                i <= n,
                n == before.order.len(),
                before.ok(),
                f == off_output(output_id),
                self@ == (StateView {
                    surf: SurfacesView { surfaces: before.each_first(i as int, f), ..old(self)@.surf },
                    ..old(self)@
                }),
            decreases n - i,
        {
            proof {
                before.lemma_each_step(i as int, f);
            }
            let surface = self.surf.surfaces.value_at_mut(i);
            let _ = surface.entered_outputs.remove(output_id);
            let _ = surface.visible_on.remove(output_id);
            i += 1;
        }
    }

    /// Take an output away.
    ///
    /// Returns the `wl_registry` name it was advertised under, so the caller
    /// can withdraw the global.
    ///
    /// Everything tying a client to the output goes here: the bindings, and the
    /// record of which surfaces had entered it. No `wl_surface.leave` is sent
    /// for it, deliberately. The client is about to destroy its `wl_output` on
    /// hearing `global_remove`, and an event naming an object it has already
    /// let go is at best ignored and at worst a decode error.
    pub fn remove_output(&mut self, output_id: OutputId) -> (r: Option<u32>)
        ensures
            r == old(self)@.out.output_global_names.get(output_id),
            final(self)@ == old(self)@.remove_output(output_id),
    {
        let name = self.forget_output(output_id);
        self.surfaces_leave_output(output_id);
        self.hook(Hook::OutputsChanged);
        self.dirty = true;
        name
    }

    fn forget_output(&mut self, output_id: OutputId) -> (r: Option<u32>)
        ensures
            r == old(self)@.out.output_global_names.get(output_id),
            final(self)@ == old(self)@.forget_output(output_id),
    {
        drop_output(&mut self.out.outputs, output_id);
        self.out.output_bindings.retain(
            |k: &ClientObjectId, id: &u32| -> (r: bool)
                ensures r == not_bound_to(output_id)(*k, id@)
                { *id != output_id },
            Ghost(not_bound_to(output_id)),
        );
        self.out.output_global_names.remove(output_id)
    }

    fn forget_buffers_of(&mut self, client_id: u32)
        ensures
            final(self)@ == old(self)@.forget_buffers_of(client_id),
    {
        retain_others(&mut self.mem.buffers, client_id);
        retain_keys(&mut self.mem.buffer_guards, client_id);
        retain_set(&mut self.mem.releasing_buffers, client_id);
    }

    fn close_params_of(&mut self, keys: &Vec<ClientObjectId>)
        requires
            forall|k: ClientObjectId| keys@.contains(k) ==> old(self)@.mem.dmabuf_params.has(k),
        ensures
            final(self)@ == (StateView {
                mem: MemoryView {
                    closed_fds: old(self)@.mem.closed_fds + params_fds(old(self)@.mem.dmabuf_params, keys@),
                    ..old(self)@.mem
                },
                ..old(self)@
            }),
    {
        let ghost params = self@.mem.dmabuf_params;
        let ghost closed = self@.mem.closed_fds;
        let mut i: usize = 0;
        while i < keys.len()
            invariant
                i <= keys@.len(),
                params == old(self)@.mem.dmabuf_params,
                closed == old(self)@.mem.closed_fds,
                forall|k: ClientObjectId| keys@.contains(k) ==> params.has(k),
                self@ == (StateView {
                    mem: MemoryView {
                        closed_fds: closed + params_fds(params, keys@.take(i as int)),
                        ..old(self)@.mem
                    },
                    ..old(self)@
                }),
            decreases keys@.len() - i,
        {
            proof {
                assert(keys@.contains(keys@[i as int]));
                assert(keys@.take(i + 1).drop_last() =~= keys@.take(i as int));
            }
            if let Some(p) = self.mem.dmabuf_params.get(keys[i]) {
                let mut fds = fds_of(p);
                self.mem.closed_fds.append(&mut fds);
            }
            i += 1;
            proof {
                assert(self@.mem.closed_fds =~= closed + params_fds(params, keys@.take(i as int)));
            }
        }
        proof {
            assert(keys@.take(i as int) =~= keys@);
        }
    }

    fn forget_imports_of(&mut self, client_id: u32)
        ensures
            final(self)@ == old(self)@.forget_imports_of(client_id),
    {
        let keys = self.mem.dmabuf_params.keys_where(
            |k: &ClientObjectId, p: &BufferParams| -> (r: bool)
                ensures r == own_key::<BufferParamsView>(client_id)(*k, p@)
                { k.0 == client_id },
            Ghost(own_key::<BufferParamsView>(client_id)),
        );
        self.close_params_of(&keys);
        retain_keys(&mut self.mem.dmabuf_params, client_id);
        self.mem.pending_dmabuf_imports.retain(
            |token: &u64, p: &PendingImport| -> (r: bool)
                ensures r == asked_by_other(client_id)(*token, p@)
                { p.client_id != client_id },
            Ghost(asked_by_other(client_id)),
        );
    }

    fn destroy_pools_of(&mut self, client_id: u32)
        ensures
            final(self)@ == old(self)@.destroy_pools(client_id, old(self)@.pools_of(client_id)),
    {
        let keys = self.mem.shm_pools.keys_where(
            |k: &ClientObjectId, p: &ShmPool| -> (r: bool)
                ensures r == (p@.client_id == client_id)
                { p.client_id == client_id },
            Ghost(|k: ClientObjectId, p: ShmPool| p.client_id == client_id),
        );
        let mut i: usize = 0;
        while i < keys.len()
            invariant
                i <= keys@.len(),
                self@ == old(self)@.destroy_pools(client_id, keys@.take(i as int)),
            decreases keys@.len() - i,
        {
            proof {
                assert(keys@.take(i + 1).drop_last() =~= keys@.take(i as int));
            }
            self.destroy_shm_pool(client_id, keys[i].1);
            i += 1;
        }
        proof {
            assert(keys@.take(i as int) =~= keys@);
        }
    }

    fn forget_surfaces_of(&mut self, client_id: u32)
        ensures
            final(self)@ == old(self)@.forget_surfaces_of(client_id),
    {
        retain_others(&mut self.surf.surfaces, client_id);
        retain_others(&mut self.surf.regions, client_id);
        retain_others(&mut self.surf.viewports, client_id);
        retain_keys(&mut self.surf.surface_viewport, client_id);
        retain_keys(&mut self.surf.subsurface_map, client_id);
        retain_set(&mut self.surf.cursor_role_surfaces, client_id);
    }

    fn forget_windows_of(&mut self, client_id: u32)
        ensures
            final(self)@ == old(self)@.forget_windows_of(client_id),
    {
        retain_others(&mut self.win.xdg_toplevels, client_id);
        retain_others(&mut self.win.xdg_popups, client_id);
        retain_others(&mut self.win.xdg_surfaces, client_id);
        retain_others(&mut self.win.xdg_positioners, client_id);
        retain_others(&mut self.win.decorations, client_id);
        retain_keys(&mut self.win.toplevel_decoration, client_id);
        retain_list(&mut self.win.grabbed_popups, client_id);
        self.win.pointer_grab = match self.win.pointer_grab {
            Some(g) => if g.surface.0 == client_id {
                None
            } else {
                Some(g)
            },
            None => None,
        };
        self.win.resize_anchor = match self.win.resize_anchor {
            Some(a) => if a.surface.0 == client_id {
                None
            } else {
                Some(a)
            },
            None => None,
        };
    }

    fn forget_layers_of(&mut self, client_id: u32)
        ensures
            final(self)@ == old(self)@.forget_layers_of(client_id),
    {
        retain_others(&mut self.layers.layer_surfaces, client_id);
        retain_keys(&mut self.layers.surface_layer, client_id);
    }

    fn forget_inputs_of(&mut self, client_id: u32)
        ensures
            final(self)@ == old(self)@.forget_inputs_of(client_id),
    {
        retain_bindings(&mut self.input.pointers, client_id);
        retain_bindings(&mut self.input.keyboards, client_id);
        retain_bindings(&mut self.input.touches, client_id);
        self.input.touch_points.retain(
            |id: &i32, point: &ClientObjectId| -> (r: bool)
                ensures r == not_on_client(client_id)(*id, point@)
                { point.0 != client_id },
            Ghost(not_on_client(client_id)),
        );
        let _ = self.input.pointer_enter_serial.remove(client_id);
        let _ = self.input.last_button_serial.remove(client_id);
        let _ = self.input.recent_input_serials.remove(client_id);
    }

    fn forget_outputs_of(&mut self, client_id: u32)
        ensures
            final(self)@ == old(self)@.forget_outputs_of(client_id),
    {
        retain_keys(&mut self.out.output_bindings, client_id);
    }

    fn forget_cursors_of(&mut self, client_id: u32)
        ensures
            final(self)@ == old(self)@.forget_cursors_of(client_id),
    {
        let _ = self.cursors.cursor_surfaces.remove(client_id);
        let _ = self.cursors.cursor_shapes.remove(client_id);
    }

    fn drag_loses_client(&mut self, client_id: u32)
        ensures
            final(self)@ == old(self)@.drag_loses_client(client_id),
    {
        let (origin, focus): (bool, bool) = match &self.data.drag {
            None => {
                return;
            },
            Some(d) => (
                d.origin_client == client_id,
                match d.focus {
                    Some(f) => f.0 == client_id,
                    None => false,
                },
            ),
        };
        if origin {
            self.cancel_drag();
        } else if focus {
            self.unfocus_drag();
        }
    }

    fn selection_loses_client(&mut self, which: Which, client_id: u32)
        ensures
            final(self)@ == old(self)@.selection_loses_client(which, client_id),
    {
        let holder: Option<ClientObjectId> = match which {
            Which::Clipboard => self.data.selection,
            Which::Primary => self.data.primary_selection,
        };
        if let Some(s) = holder {
            if s.0 == client_id {
                self.clear_selected(which);
            }
        }
    }

    fn forget_exchange_of(&mut self, client_id: u32)
        ensures
            final(self)@ == old(self)@.forget_exchange_of(client_id),
    {
        retain_keys(&mut self.data.data_sources, client_id);
        retain_others(&mut self.data.data_offers, client_id);
        retain_bindings(&mut self.data.data_devices, client_id);
        retain_bindings(&mut self.data.primary_devices, client_id);
        retain_bindings(&mut self.data.data_control_devices, client_id);
    }

    fn forget_questions_of(&mut self, client_id: u32)
        ensures
            final(self)@ == old(self)@.forget_questions_of(client_id),
    {
        retain_keys(&mut self.surf.fractional_scales, client_id);
        retain_set(&mut self.surf.dnd_icon_surfaces, client_id);
    }

    fn focus_leaves_client(&mut self, client_id: u32)
        ensures
            final(self)@ == old(self)@.focus_leaves_client(client_id),
    {
        self.input.focused_surface = drop_client_key(self.input.focused_surface, client_id);
        self.input.pointer_surface = drop_client_key(self.input.pointer_surface, client_id);
    }

    fn forget_objects_of(&mut self, client_id: u32)
        ensures
            final(self)@ == old(self)@.forget_objects_of(client_id),
    {
        self.forget_buffers_of(client_id);
        self.forget_imports_of(client_id);
        self.destroy_pools_of(client_id);
        self.forget_surfaces_of(client_id);
        self.forget_windows_of(client_id);
        self.forget_layers_of(client_id);
        self.forget_inputs_of(client_id);
        self.forget_outputs_of(client_id);
        self.forget_cursors_of(client_id);
    }

    fn unwind_exchange_of(&mut self, client_id: u32)
        ensures
            final(self)@ == old(self)@.unwind_exchange_of(client_id),
    {
        self.drag_loses_client(client_id);
        self.selection_loses_client(Which::Clipboard, client_id);
        self.selection_loses_client(Which::Primary, client_id);
        self.invalidate_sources_of(client_id);
        self.forget_exchange_of(client_id);
    }

    fn forget_pending_of(&mut self, client_id: u32)
        ensures
            final(self)@ == old(self)@.forget_pending_of(client_id),
    {
        retain_list(&mut self.mem.buffers_pending_release, client_id);
    }

    /// Remove everything belonging to a disconnecting client.
    pub fn remove_client_resources(&mut self, client_id: u32)
        ensures
            final(self)@ == old(self)@.remove_client_resources(client_id),
    {
        self.forget_objects_of(client_id);
        self.hook(Hook::ClientRemoved(client_id));
        self.forget_pending_of(client_id);
        self.unwind_exchange_of(client_id);
        self.forget_questions_of(client_id);
        self.focus_leaves_client(client_id);
    }
}

} // verus!
