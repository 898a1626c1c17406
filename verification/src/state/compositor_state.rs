//! Global compositor state.
use crate::protocol::messages::{Message, messages_view, MessageView, Notice};
use crate::state::client_state::{Clients, ClientView};
use crate::state::types::{
    Buffer, BufferParams, BufferParamsView, BufferView, ClientObjectId, DataControlDeviceBinding,
    DataDeviceBinding, DataOffer, DataOfferView, DataSource, DataSourceView, DecorationState,
    DefaultCursor, DefaultCursorView, Drag, DragView, FractionalScaleBinding, Hook,
    KeyboardBinding, LayerSurfaceState, LayerSurfaceStateView, ModifierState, Output,
    outputs_view, OutputView, PendingImport, PointerBinding, PointerGrab, PrimaryDeviceBinding,
    Region, RegionView, ResizeAnchor, SeatState, Settings, ShmPool, Surface, SurfaceView,
    TouchBinding, ViewportState, XdgPopupState, XdgPositionerState, XdgSurfaceState,
    XdgSurfaceStateView, XdgToplevelState, XdgToplevelStateView,
};
use crate::table::{Dict, KeySet, Table};
use vstd::prelude::*;

verus! {

/// How many input serials are remembered per client.
pub const RECENT_INPUT_SERIALS: usize = 32;

/// How long the visual bell stays on screen, in milliseconds.
pub const BELL_DURATION: u64 = 120;

/// What a cursor image is, if there is one.
pub open spec fn cursor_view(c: Option<DefaultCursor>) -> Option<DefaultCursorView> {
    match c {
        Some(c) => Some(c@),
        None => None,
    }
}

/// What is known of a drag, if there is one.
pub open spec fn drag_view(d: Option<Drag>) -> Option<DragView> {
    match d {
        Some(d) => Some(d@),
        None => None,
    }
}

/// The number of globals that are always there.
pub const STATIC_GLOBALS: u32 = 16;

/// Everything the compositor knows.
pub struct CompositorState {
    /// The mechanism's knobs, fixed at construction.
    pub settings: Settings,
    /// Everyone connected.
    pub clients: Clients,
    /// The cursor has moved or changed appearance and its frame must be rebuilt.
    pub cursor_dirty: bool,
    /// Whether visual state has changed and a re-render is needed.
    pub dirty: bool,
    /// Whether the shell has asked the whole compositor to shut down.
    pub exit_requested: bool,
    /// The serial the next event that carries one will have.
    pub next_serial: u32,
    /// What the shell is still to be told of, oldest first.
    pub hooks: Vec<Hook>,
    /// Surfaces and what hangs off them.
    pub surf: Surfaces,
    /// The xdg objects, and the grabs on them.
    pub win: Windows,
    /// Panels, bars, wallpapers and lock screens.
    pub layers: Layers,
    /// Buffers and the pools they lie in.
    pub mem: Memory,
    /// The input devices, who holds them and where they point.
    pub input: Inputs,
    /// What clients hand each other: selections and drags.
    pub data: Exchange,
    /// The displays and the globals that appear with time.
    pub out: Displays,
    /// What the pointer looks like.
    pub cursors: Cursors,
}

/// Surfaces and what hangs off them.
pub struct Surfaces {
    pub surfaces: Table<ClientObjectId, Surface>,
    pub regions: Table<ClientObjectId, Region>,
    /// Maps `wl_subsurface` (`client_id`, `object_id`) -> the `wl_surface` object id it controls.
    pub subsurface_map: Table<ClientObjectId, u32>,
    /// `wp_viewport` objects keyed by (`client_id`, `viewport_object_id`).
    pub viewports: Table<ClientObjectId, ViewportState>,
    /// Reverse map: (`client_id`, `surface_id`) -> `viewport_object_id`.
    pub surface_viewport: Table<ClientObjectId, u32>,
    /// Every live `wp_fractional_scale_v1`, keyed by the object itself.
    pub fractional_scales: Table<ClientObjectId, FractionalScaleBinding>,
    /// Surfaces with the cursor role (permanent, prevents other role assignment).
    pub cursor_role_surfaces: KeySet<ClientObjectId>,
    /// Surfaces with the drag-icon role. Permanent, like the cursor role.
    pub dnd_icon_surfaces: KeySet<ClientObjectId>,
}

/// Surfaces and what hangs off them, as contracts read it.
#[verifier::ext_equal]
pub struct SurfacesView {
    pub surfaces: Dict<ClientObjectId, SurfaceView>,
    pub regions: Dict<ClientObjectId, RegionView>,
    pub subsurface_map: Dict<ClientObjectId, u32>,
    pub viewports: Dict<ClientObjectId, ViewportState>,
    pub surface_viewport: Dict<ClientObjectId, u32>,
    pub fractional_scales: Dict<ClientObjectId, FractionalScaleBinding>,
    pub cursor_role_surfaces: Seq<ClientObjectId>,
    pub dnd_icon_surfaces: Seq<ClientObjectId>,
}

impl View for Surfaces {
    type V = SurfacesView;

    open spec fn view(&self) -> SurfacesView {
        SurfacesView {
            surfaces: self.surfaces@,
            regions: self.regions@,
            subsurface_map: self.subsurface_map@,
            viewports: self.viewports@,
            surface_viewport: self.surface_viewport@,
            fractional_scales: self.fractional_scales@,
            cursor_role_surfaces: self.cursor_role_surfaces@,
            dnd_icon_surfaces: self.dnd_icon_surfaces@,
        }
    }
}

/// The xdg objects, and the grabs on them.
pub struct Windows {
    pub xdg_surfaces: Table<ClientObjectId, XdgSurfaceState>,
    pub xdg_toplevels: Table<ClientObjectId, XdgToplevelState>,
    pub xdg_popups: Table<ClientObjectId, XdgPopupState>,
    pub xdg_positioners: Table<ClientObjectId, XdgPositionerState>,
    /// `zxdg_toplevel_decoration_v1` objects keyed by (`client_id`, `decoration_object_id`).
    pub decorations: Table<ClientObjectId, DecorationState>,
    /// Reverse map: (`client_id`, `toplevel_id`) -> `decoration_object_id`, so a
    /// second `get_toplevel_decoration` on the same toplevel can be refused.
    pub toplevel_decoration: Table<ClientObjectId, u32>,
    /// Stack of popup (`client_id`, `xdg_popup_id`) that have called `grab`, newest on top.
    pub grabbed_popups: Vec<ClientObjectId>,
    /// The interactive move or resize in progress, if any.
    pub pointer_grab: Option<PointerGrab>,
    /// The fixed edges of the window a resize grab is (or was just) driving.
    pub resize_anchor: Option<ResizeAnchor>,
}

/// The xdg objects, and the grabs on them, as contracts read it.
#[verifier::ext_equal]
pub struct WindowsView {
    pub xdg_surfaces: Dict<ClientObjectId, XdgSurfaceStateView>,
    pub xdg_toplevels: Dict<ClientObjectId, XdgToplevelStateView>,
    pub xdg_popups: Dict<ClientObjectId, XdgPopupState>,
    pub xdg_positioners: Dict<ClientObjectId, XdgPositionerState>,
    pub decorations: Dict<ClientObjectId, DecorationState>,
    pub toplevel_decoration: Dict<ClientObjectId, u32>,
    pub grabbed_popups: Seq<ClientObjectId>,
    pub pointer_grab: Option<PointerGrab>,
    pub resize_anchor: Option<ResizeAnchor>,
}

impl View for Windows {
    type V = WindowsView;

    open spec fn view(&self) -> WindowsView {
        WindowsView {
            xdg_surfaces: self.xdg_surfaces@,
            xdg_toplevels: self.xdg_toplevels@,
            xdg_popups: self.xdg_popups@,
            xdg_positioners: self.xdg_positioners@,
            decorations: self.decorations@,
            toplevel_decoration: self.toplevel_decoration@,
            grabbed_popups: self.grabbed_popups@,
            pointer_grab: self.pointer_grab,
            resize_anchor: self.resize_anchor,
        }
    }
}

/// Panels, bars, wallpapers and lock screens.
pub struct Layers {
    /// `zwlr_layer_surface_v1` objects, keyed by the layer surface object.
    pub layer_surfaces: Table<ClientObjectId, LayerSurfaceState>,
    /// Reverse map: (`client_id`, `wl_surface_id`) -> the layer surface object
    /// giving it its role.
    pub surface_layer: Table<ClientObjectId, u32>,
}

/// Panels, bars, wallpapers and lock screens, as contracts read it.
#[verifier::ext_equal]
pub struct LayersView {
    pub layer_surfaces: Dict<ClientObjectId, LayerSurfaceStateView>,
    pub surface_layer: Dict<ClientObjectId, u32>,
}

impl View for Layers {
    type V = LayersView;

    open spec fn view(&self) -> LayersView {
        LayersView {
            layer_surfaces: self.layer_surfaces@,
            surface_layer: self.surface_layer@,
        }
    }
}

/// Buffers and the pools they lie in.
pub struct Memory {
    pub shm_pools: Table<ClientObjectId, ShmPool>,
    pub buffers: Table<ClientObjectId, Buffer>,
    /// Buffers to release on the next render (old buffers replaced by commit).
    pub buffers_pending_release: Vec<ClientObjectId>,
    /// Source of content serials.
    pub next_content_serial: u64,
    /// Buffers whose memory is mapped, and so may be read by a frame in flight,
    /// with how many bytes of the pool are mapped.
    pub buffer_guards: Table<ClientObjectId, u32>,
    /// Buffers the compositor has finished with, waiting on their readers
    /// before `wl_buffer.release` can be sent.
    pub releasing_buffers: KeySet<ClientObjectId>,
    /// Live `zwp_linux_buffer_params_v1` objects, keyed like every other.
    pub dmabuf_params: Table<ClientObjectId, BufferParams>,
    /// Imports the backend has been asked about and not yet answered.
    pub pending_dmabuf_imports: Table<u64, PendingImport>,
    /// Descriptors nothing uses any more, for their owner to close.
    pub closed_fds: Vec<i32>,
}

/// Buffers and the pools they lie in, as contracts read it.
#[verifier::ext_equal]
pub struct MemoryView {
    pub shm_pools: Dict<ClientObjectId, ShmPool>,
    pub buffers: Dict<ClientObjectId, BufferView>,
    pub buffers_pending_release: Seq<ClientObjectId>,
    pub next_content_serial: u64,
    pub buffer_guards: Dict<ClientObjectId, u32>,
    pub releasing_buffers: Seq<ClientObjectId>,
    pub dmabuf_params: Dict<ClientObjectId, BufferParamsView>,
    pub pending_dmabuf_imports: Dict<u64, PendingImport>,
    pub closed_fds: Seq<i32>,
}

impl View for Memory {
    type V = MemoryView;

    open spec fn view(&self) -> MemoryView {
        MemoryView {
            shm_pools: self.shm_pools@,
            buffers: self.buffers@,
            buffers_pending_release: self.buffers_pending_release@,
            next_content_serial: self.next_content_serial,
            buffer_guards: self.buffer_guards@,
            releasing_buffers: self.releasing_buffers@,
            dmabuf_params: self.dmabuf_params@,
            pending_dmabuf_imports: self.pending_dmabuf_imports@,
            closed_fds: self.closed_fds@,
        }
    }
}

/// The input devices, who holds them and where they point.
pub struct Inputs {
    pub seat: SeatState,
    pub pointers: Vec<PointerBinding>,
    pub keyboards: Vec<KeyboardBinding>,
    pub touches: Vec<TouchBinding>,
    /// Fingers currently down, and the surface each landed on.
    ///
    /// A touch point belongs to the surface it *started* on for its whole
    /// life, however far it then travels.
    pub touch_points: Table<i32, ClientObjectId>,
    pub focused_surface: Option<ClientObjectId>,
    /// The specific surface (possibly a subsurface) currently under the pointer.
    pub pointer_surface: Option<ClientObjectId>,
    /// The pixel the pointer is on.
    pub cursor: (i32, i32),
    /// Currently pressed evdev keycodes (for `wl_keyboard.enter` keys array).
    pub pressed_keys: KeySet<u32>,
    /// The modifier state last worked out from the keys.
    pub modifiers: ModifierState,
    /// Mouse buttons currently held, as evdev codes.
    pub pressed_buttons: KeySet<u32>,
    /// Serial of each client's most recent `wl_pointer.button` press.
    pub last_button_serial: Table<u32, u32>,
    /// Most recent `wl_pointer.enter` serial per client, for `set_cursor` validation.
    pub pointer_enter_serial: Table<u32, u32>,
    /// The last few serials of input events delivered to each client.
    pub recent_input_serials: Table<u32, Vec<u32>>,
    /// Whether a continuous scroll is in progress on each axis.
    pub scrolling_vertical: bool,
    pub scrolling_horizontal: bool,
}

/// The input devices, who holds them and where they point, as contracts read it.
#[verifier::ext_equal]
pub struct InputsView {
    pub seat: SeatState,
    pub pointers: Seq<PointerBinding>,
    pub keyboards: Seq<KeyboardBinding>,
    pub touches: Seq<TouchBinding>,
    pub touch_points: Dict<i32, ClientObjectId>,
    pub focused_surface: Option<ClientObjectId>,
    pub pointer_surface: Option<ClientObjectId>,
    pub cursor: (i32, i32),
    pub pressed_keys: Seq<u32>,
    pub modifiers: ModifierState,
    pub pressed_buttons: Seq<u32>,
    pub last_button_serial: Dict<u32, u32>,
    pub pointer_enter_serial: Dict<u32, u32>,
    pub recent_input_serials: Dict<u32, Seq<u32>>,
    pub scrolling_vertical: bool,
    pub scrolling_horizontal: bool,
}

impl View for Inputs {
    type V = InputsView;

    open spec fn view(&self) -> InputsView {
        InputsView {
            seat: self.seat,
            pointers: self.pointers@,
            keyboards: self.keyboards@,
            touches: self.touches@,
            touch_points: self.touch_points@,
            focused_surface: self.focused_surface,
            pointer_surface: self.pointer_surface,
            cursor: self.cursor,
            pressed_keys: self.pressed_keys@,
            modifiers: self.modifiers,
            pressed_buttons: self.pressed_buttons@,
            last_button_serial: self.last_button_serial@,
            pointer_enter_serial: self.pointer_enter_serial@,
            recent_input_serials: self.recent_input_serials@,
            scrolling_vertical: self.scrolling_vertical,
            scrolling_horizontal: self.scrolling_horizontal,
        }
    }
}

/// What clients hand each other: selections and drags.
pub struct Exchange {
    /// Content clients are offering, keyed by the source object.
    pub data_sources: Table<ClientObjectId, DataSource>,
    /// Offers the compositor has handed out, keyed by the receiving client and
    /// the id allocated in that client's half of the compositor's id space.
    pub data_offers: Table<ClientObjectId, DataOffer>,
    /// Every live `wl_data_device`.
    pub data_devices: Vec<DataDeviceBinding>,
    /// The source that owns the clipboard, if any.
    pub selection: Option<ClientObjectId>,
    /// Every live `zwp_primary_selection_device_v1`.
    pub primary_devices: Vec<PrimaryDeviceBinding>,
    /// Every live `zwlr_data_control_device_v1`.
    pub data_control_devices: Vec<DataControlDeviceBinding>,
    /// The source that owns the primary selection, if any.
    pub primary_selection: Option<ClientObjectId>,
    /// The drag in progress, if any. One, because there is one pointer.
    pub drag: Option<Drag>,
}

/// What clients hand each other: selections and drags, as contracts read it.
#[verifier::ext_equal]
pub struct ExchangeView {
    pub data_sources: Dict<ClientObjectId, DataSourceView>,
    pub data_offers: Dict<ClientObjectId, DataOfferView>,
    pub data_devices: Seq<DataDeviceBinding>,
    pub selection: Option<ClientObjectId>,
    pub primary_devices: Seq<PrimaryDeviceBinding>,
    pub data_control_devices: Seq<DataControlDeviceBinding>,
    pub primary_selection: Option<ClientObjectId>,
    pub drag: Option<DragView>,
}

impl View for Exchange {
    type V = ExchangeView;

    open spec fn view(&self) -> ExchangeView {
        ExchangeView {
            data_sources: self.data_sources@,
            data_offers: self.data_offers@,
            data_devices: self.data_devices@,
            selection: self.selection,
            primary_devices: self.primary_devices@,
            data_control_devices: self.data_control_devices@,
            primary_selection: self.primary_selection,
            drag: drag_view(self.drag),
        }
    }
}

/// The displays and the globals that appear with time.
pub struct Displays {
    pub outputs: Vec<Output>,
    /// Maps an output -> `wl_registry` global name for dynamic output globals.
    pub output_global_names: Table<u32, u32>,
    /// Maps (`client_id`, `wl_output_object_id`) -> which output the binding refers to.
    pub output_bindings: Table<ClientObjectId, u32>,
    /// Counter for assigning unique `wl_registry` global names to new outputs.
    pub next_global_number: u32,
    /// The `wl_registry` name `zwp_linux_dmabuf_v1` was advertised under, once
    /// there is something to advertise.
    pub dmabuf_global_name: Option<u32>,
    /// Outputs currently showing the visual bell, and when each stops, in
    /// milliseconds.
    pub bell_until: Table<u32, u64>,
}

/// The displays and the globals that appear with time, as contracts read it.
#[verifier::ext_equal]
pub struct DisplaysView {
    pub outputs: Seq<OutputView>,
    pub output_global_names: Dict<u32, u32>,
    pub output_bindings: Dict<ClientObjectId, u32>,
    pub next_global_number: u32,
    pub dmabuf_global_name: Option<u32>,
    pub bell_until: Dict<u32, u64>,
}

impl View for Displays {
    type V = DisplaysView;

    open spec fn view(&self) -> DisplaysView {
        DisplaysView {
            outputs: outputs_view(self.outputs@),
            output_global_names: self.output_global_names@,
            output_bindings: self.output_bindings@,
            next_global_number: self.next_global_number,
            dmabuf_global_name: self.dmabuf_global_name,
            bell_until: self.bell_until@,
        }
    }
}

/// What the pointer looks like.
pub struct Cursors {
    /// Per-client cursor: `client_id` -> `Some((surface_id, hotspot_x, hotspot_y))` or `None` (hidden).
    pub cursor_surfaces: Table<u32, Option<(u32, i32, i32)>>,
    /// Cursor images loaded from the theme, keyed by the shape they are for.
    pub cursor_shape_images: Table<u32, DefaultCursor>,
    /// Which shape each client has asked for.
    pub cursor_shapes: Table<u32, u32>,
    /// The theme's ordinary pointer, if a theme was found.
    pub default_cursor: Option<DefaultCursor>,
}

/// What the pointer looks like, as contracts read it.
#[verifier::ext_equal]
pub struct CursorsView {
    pub cursor_surfaces: Dict<u32, Option<(u32, i32, i32)>>,
    pub cursor_shape_images: Dict<u32, DefaultCursorView>,
    pub cursor_shapes: Dict<u32, u32>,
    pub default_cursor: Option<DefaultCursorView>,
}

impl View for Cursors {
    type V = CursorsView;

    open spec fn view(&self) -> CursorsView {
        CursorsView {
            cursor_surfaces: self.cursor_surfaces@,
            cursor_shape_images: self.cursor_shape_images@,
            cursor_shapes: self.cursor_shapes@,
            default_cursor: cursor_view(self.default_cursor),
        }
    }
}

/// Everything the compositor knows, as contracts read it.
#[verifier::ext_equal]
pub struct StateView {
    pub settings: Settings,
    pub clients: Dict<u32, ClientView>,
    pub cursor_dirty: bool,
    pub dirty: bool,
    pub exit_requested: bool,
    pub next_serial: u32,
    pub hooks: Seq<Hook>,
    pub surf: SurfacesView,
    pub win: WindowsView,
    pub layers: LayersView,
    pub mem: MemoryView,
    pub input: InputsView,
    pub data: ExchangeView,
    pub out: DisplaysView,
    pub cursors: CursorsView,
}

impl View for CompositorState {
    type V = StateView;

    open spec fn view(&self) -> StateView {
        StateView {
            settings: self.settings,
            clients: self.clients@,
            cursor_dirty: self.cursor_dirty,
            dirty: self.dirty,
            exit_requested: self.exit_requested,
            next_serial: self.next_serial,
            hooks: self.hooks@,
            surf: self.surf@,
            win: self.win@,
            layers: self.layers@,
            mem: self.mem@,
            input: self.input@,
            data: self.data@,
            out: self.out@,
            cursors: self.cursors@,
        }
    }
}

impl StateView {
    /// What is known before anyone has connected.
    pub open spec fn fresh() -> Self {
        StateView {
            settings: Settings::usual(),
            clients: Dict::empty(),
            cursor_dirty: true,
            dirty: true,
            exit_requested: false,
            next_serial: 1,
            hooks: Seq::empty(),
            surf: SurfacesView {
                surfaces: Dict::empty(),
                regions: Dict::empty(),
                subsurface_map: Dict::empty(),
                viewports: Dict::empty(),
                surface_viewport: Dict::empty(),
                fractional_scales: Dict::empty(),
                cursor_role_surfaces: Seq::empty(),
                dnd_icon_surfaces: Seq::empty(),
            },
            win: WindowsView {
                xdg_surfaces: Dict::empty(),
                xdg_toplevels: Dict::empty(),
                xdg_popups: Dict::empty(),
                xdg_positioners: Dict::empty(),
                decorations: Dict::empty(),
                toplevel_decoration: Dict::empty(),
                grabbed_popups: Seq::empty(),
                pointer_grab: None,
                resize_anchor: None,
            },
            layers: LayersView {
                layer_surfaces: Dict::empty(),
                surface_layer: Dict::empty(),
            },
            mem: MemoryView {
                shm_pools: Dict::empty(),
                buffers: Dict::empty(),
                buffers_pending_release: Seq::empty(),
                next_content_serial: 0,
                buffer_guards: Dict::empty(),
                releasing_buffers: Seq::empty(),
                dmabuf_params: Dict::empty(),
                pending_dmabuf_imports: Dict::empty(),
                closed_fds: Seq::empty(),
            },
            input: InputsView {
                seat: SeatState { has_pointer: false, has_keyboard: false, has_touch: false },
                pointers: Seq::empty(),
                keyboards: Seq::empty(),
                touches: Seq::empty(),
                touch_points: Dict::empty(),
                focused_surface: None,
                pointer_surface: None,
                cursor: (0, 0),
                pressed_keys: Seq::empty(),
                modifiers: ModifierState { depressed: 0, latched: 0, locked: 0, group: 0 },
                pressed_buttons: Seq::empty(),
                last_button_serial: Dict::empty(),
                pointer_enter_serial: Dict::empty(),
                recent_input_serials: Dict::empty(),
                scrolling_vertical: false,
                scrolling_horizontal: false,
            },
            data: ExchangeView {
                data_sources: Dict::empty(),
                data_offers: Dict::empty(),
                data_devices: Seq::empty(),
                selection: None,
                primary_devices: Seq::empty(),
                data_control_devices: Seq::empty(),
                primary_selection: None,
                drag: None,
            },
            out: DisplaysView {
                outputs: Seq::empty(),
                output_global_names: Dict::empty(),
                output_bindings: Dict::empty(),
                next_global_number: STATIC_GLOBALS,
                dmabuf_global_name: None,
                bell_until: Dict::empty(),
            },
            cursors: CursorsView {
                cursor_surfaces: Dict::empty(),
                cursor_shape_images: Dict::empty(),
                cursor_shapes: Dict::empty(),
                default_cursor: None,
            },
        }
    }

    /// With a message queued for a client, if it is connected.
    pub open spec fn tell(self, client_id: u32, m: MessageView) -> Self {
        StateView { clients: self.clients.edit(client_id, |c: ClientView| c.said(m)), ..self }
    }

    /// With several messages queued for a client, if it is connected.
    pub open spec fn tell_all(self, client_id: u32, ms: Seq<MessageView>) -> Self {
        StateView {
            clients: self.clients.edit(client_id, |c: ClientView| ClientView { outbox: c.outbox + ms, ..c }),
            ..self
        }
    }

    /// With a notice queued for a client, if it is connected.
    pub open spec fn notice(self, client_id: u32, n: Notice) -> Self {
        self.tell(client_id, MessageView::Notice(n))
    }

    /// With a client told of a fatal error and to be disconnected, if it is
    /// connected.
    pub open spec fn fail(self, client_id: u32, object_id: u32, code: u32, text: Seq<char>) -> Self {
        StateView { clients: self.clients.edit(client_id, |c: ClientView| c.failed(object_id, code, text)), ..self }
    }

    /// With an object of a client gone.
    pub open spec fn unregister(self, client_id: u32, id: u32) -> Self {
        StateView { clients: self.clients.edit(client_id, |c: ClientView| c.unregistered(id)), ..self }
    }

    /// After a serial has been handed out. Serials go round.
    pub open spec fn serial_taken(self) -> Self {
        StateView {
            next_serial: if self.next_serial == u32::MAX {
                0
            } else {
                (self.next_serial + 1) as u32
            },
            ..self
        }
    }

    /// With something for the shell to be told of.
    pub open spec fn hook(self, h: Hook) -> Self {
        StateView { hooks: self.hooks.push(h), ..self }
    }

    /// With the screen to be drawn again.
    pub open spec fn dirtied(self) -> Self {
        StateView { dirty: true, ..self }
    }

    /// The version an object was bound at, or 1 if its client is gone.
    pub open spec fn object_version(self, key: ClientObjectId) -> u32 {
        if self.clients.has(key.0) {
            self.clients.at(key.0).version(key.1)
        } else {
            1
        }
    }
}

impl CompositorState {
    /// A state with nothing in it.
    pub fn new() -> (r: Self)
        ensures
            r@ == StateView::fresh(),
    {
        let r = CompositorState {
            settings: Settings::default(),
            clients: Clients::new(),
            cursor_dirty: true,
            dirty: true,
            exit_requested: false,
            next_serial: 1,
            hooks: Vec::new(),
            surf: Surfaces {
                surfaces: Table::new(),
                regions: Table::new(),
                subsurface_map: Table::new(),
                viewports: Table::new(),
                surface_viewport: Table::new(),
                fractional_scales: Table::new(),
                cursor_role_surfaces: KeySet::new(),
                dnd_icon_surfaces: KeySet::new(),
            },
            win: Windows {
                xdg_surfaces: Table::new(),
                xdg_toplevels: Table::new(),
                xdg_popups: Table::new(),
                xdg_positioners: Table::new(),
                decorations: Table::new(),
                toplevel_decoration: Table::new(),
                grabbed_popups: Vec::new(),
                pointer_grab: None,
                resize_anchor: None,
            },
            layers: Layers {
                layer_surfaces: Table::new(),
                surface_layer: Table::new(),
            },
            mem: Memory {
                shm_pools: Table::new(),
                buffers: Table::new(),
                buffers_pending_release: Vec::new(),
                next_content_serial: 0,
                buffer_guards: Table::new(),
                releasing_buffers: KeySet::new(),
                dmabuf_params: Table::new(),
                pending_dmabuf_imports: Table::new(),
                closed_fds: Vec::new(),
            },
            input: Inputs {
                seat: SeatState { has_pointer: false, has_keyboard: false, has_touch: false },
                pointers: Vec::new(),
                keyboards: Vec::new(),
                touches: Vec::new(),
                touch_points: Table::new(),
                focused_surface: None,
                pointer_surface: None,
                cursor: (0, 0),
                pressed_keys: KeySet::new(),
                modifiers: ModifierState { depressed: 0, latched: 0, locked: 0, group: 0 },
                pressed_buttons: KeySet::new(),
                last_button_serial: Table::new(),
                pointer_enter_serial: Table::new(),
                recent_input_serials: Table::new(),
                scrolling_vertical: false,
                scrolling_horizontal: false,
            },
            data: Exchange {
                data_sources: Table::new(),
                data_offers: Table::new(),
                data_devices: Vec::new(),
                selection: None,
                primary_devices: Vec::new(),
                data_control_devices: Vec::new(),
                primary_selection: None,
                drag: None,
            },
            out: Displays {
                outputs: Vec::new(),
                output_global_names: Table::new(),
                output_bindings: Table::new(),
                next_global_number: STATIC_GLOBALS,
                dmabuf_global_name: None,
                bell_until: Table::new(),
            },
            cursors: Cursors {
                cursor_surfaces: Table::new(),
                cursor_shape_images: Table::new(),
                cursor_shapes: Table::new(),
                default_cursor: None,
            },
        };
        proof {
            assert(r@ =~= StateView::fresh()) by {
                assert(r@.surf =~= StateView::fresh().surf);
                assert(r@.win =~= StateView::fresh().win);
                assert(r@.layers =~= StateView::fresh().layers);
                assert(r@.mem =~= StateView::fresh().mem);
                assert(r@.input =~= StateView::fresh().input);
                assert(r@.data =~= StateView::fresh().data);
                assert(r@.out =~= StateView::fresh().out);
                assert(r@.cursors =~= StateView::fresh().cursors);
            }
        }
        r
    }

    /// A state with the mechanism's settings applied.
    pub fn with_settings(settings: Settings) -> (r: Self)
        ensures
            r@ == (StateView { settings, ..StateView::fresh() }),
    {
        let mut r = CompositorState::new();
        r.settings = settings;
        r
    }

    /// Queue a message for a client, if it is connected.
    pub fn tell(&mut self, client_id: u32, msg: Message)
        ensures
            final(self)@ == old(self)@.tell(client_id, msg@),
    {
        if let Some(client) = self.clients.get(client_id) {
            client.send(msg);
        }
    }

    /// Queue several messages for a client, if it is connected.
    pub fn tell_all(&mut self, client_id: u32, msgs: Vec<Message>)
        ensures
            final(self)@ == old(self)@.tell_all(client_id, messages_view(msgs@)),
    {
        if let Some(client) = self.clients.get(client_id) {
            client.send_all(msgs);
        }
    }

    /// Queue a notice for a client, if it is connected.
    pub fn notice(&mut self, client_id: u32, n: Notice)
        ensures
            final(self)@ == old(self)@.notice(client_id, n),
    {
        self.tell(client_id, Message::Notice(n));
    }

    /// Tell a client of a fatal error, if it is connected.
    pub fn fail(&mut self, client_id: u32, object_id: u32, code: u32, text: String)
        ensures
            final(self)@ == old(self)@.fail(client_id, object_id, code, text@),
    {
        if let Some(client) = self.clients.get(client_id) {
            client.send_error(object_id, code, text);
        }
    }

    /// Take an object from a client, if it is connected.
    pub fn unregister(&mut self, client_id: u32, id: u32)
        ensures
            final(self)@ == old(self)@.unregister(client_id, id),
    {
        if let Some(client) = self.clients.get(client_id) {
            client.unregister(id);
        }
    }

    /// Hand out the next serial.
    pub fn take_serial(&mut self) -> (r: u32)
        ensures
            r == old(self)@.next_serial,
            final(self)@ == old(self)@.serial_taken(),
    {
        let r = self.next_serial;
        self.next_serial = if r == u32::MAX {
            0
        } else {
            r + 1
        };
        r
    }

    /// Note something for the shell to be told of.
    pub fn hook(&mut self, h: Hook)
        ensures
            final(self)@ == old(self)@.hook(h),
    {
        self.hooks.push(h);
    }

    /// The interface version an object was bound at, or 1 if its client is gone.
    pub fn object_version(&self, key: ClientObjectId) -> (r: u32)
        ensures
            r == self@.object_version(key),
    {
        match self.clients.version_of(key.0, key.1) {
            Some(v) => v,
            None => 1,
        }
    }
}

} // verus!
