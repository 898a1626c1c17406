//! Dispatch: from a message off the socket to whatever handles it.
//!
//! Some requests cannot be answered from what the compositor knows: a pool has
//! to be mapped, a cursor loaded, a popup placed by its positioner's rules, or
//! the object belongs to an interface that is handled outside this crate. What
//! is left to do then comes back as a [`Followup`].
use super::{
    wl_callback, wl_output, wl_registry, wl_shm_pool, wl_subcompositor, wl_subsurface, wl_surface,
    wp_cursor_shape_device, wp_cursor_shape_manager, wp_fractional_scale, wp_fractional_scale_manager,
    wp_presentation_feedback, xdg_surface, zwlr_data_control_device, zwlr_data_control_manager,
    zwlr_data_control_offer, zwlr_data_control_source, zwlr_layer_shell, zwlr_layer_surface,
    zwp_primary_selection_device, zwp_primary_selection_device_manager, zwp_primary_selection_offer,
    zwp_primary_selection_source, zxdg_decoration_manager, zxdg_toplevel_decoration,
};
use crate::protocol::{ERROR_INVALID_OBJECT, ObjectType};
use crate::protocol::signature::{ArgType, request_at, request_spec};
use crate::protocol::wire_utils::ClientMessage;
use crate::protocol::wl_shm_pool::{ResizeRequest, start_resize};
use crate::protocol::wp_cursor_shape_device::{
    finish_set_shape, has_shape_image, ShapeRequest, start_set_shape,
};
use crate::protocol::xdg_surface::{
    finish_get_popup, finish_get_toplevel, PopupRequest, start_get_popup, start_get_toplevel,
    ToplevelRequest, UNPLACED,
};
use crate::protocol::zwlr_data_control_offer::CONTROL_OFFER_INTERFACE;
use crate::protocol::zwlr_layer_surface::{AdoptRequest, finish_adopt_popup, start_adopt_popup};
use crate::protocol::zwp_primary_selection_offer::PRIMARY_OFFER_INTERFACE;
use crate::seqs::lemma_filter_push;
use crate::shell::Shell;
use crate::state::client_state::ClientView;
use crate::state::compositor_state::{CompositorState, StateView};
use crate::state::types::XdgPositionerState;
use crate::text::{decimal, with_number};
use vstd::prelude::*;
use vstd::string::*;

verus! {

/// Room for a popup, relative to its parent: x, y, width and height.
pub type Room = Option<(i32, i32, i32, i32)>;

/// What is left to do about a request.
pub enum Followup {
    /// Hand the request to whatever handles its interface, with the
    /// descriptors that came with it.
    Forward { object_type: ObjectType, fds: Vec<i32> },
    /// Tell the shell of a window, and finish making it.
    TellShell(ToplevelRequest),
    /// Place a popup within some room, and finish making it.
    PlacePopup { request: PopupRequest, positioner: XdgPositionerState, room: Room },
    /// Place a popup that a layer surface has taken in, and finish taking it
    /// in.
    AdoptPopup { request: AdoptRequest, positioner: XdgPositionerState, room: Room },
    /// Map a pool again at another size.
    Remap(ResizeRequest),
    /// Load the image of a cursor shape.
    LoadShape(ShapeRequest),
}

/// What is left to do about a request, as contracts read it.
#[verifier::ext_equal]
pub enum FollowupView {
    Forward { object_type: ObjectType, fds: Seq<i32> },
    TellShell(ToplevelRequest),
    PlacePopup { request: PopupRequest, positioner: XdgPositionerState, room: Room },
    AdoptPopup { request: AdoptRequest, positioner: XdgPositionerState, room: Room },
    Remap(ResizeRequest),
    LoadShape(ShapeRequest),
}

impl View for Followup {
    type V = FollowupView;

    open spec fn view(&self) -> FollowupView {
        match self {
            Followup::Forward { object_type, fds } => FollowupView::Forward { object_type: *object_type, fds: fds@ },
            Followup::TellShell(q) => FollowupView::TellShell(*q),
            Followup::PlacePopup { request, positioner, room } => FollowupView::PlacePopup {
                request: *request,
                positioner: *positioner,
                room: *room,
            },
            Followup::AdoptPopup { request, positioner, room } => FollowupView::AdoptPopup {
                request: *request,
                positioner: *positioner,
                room: *room,
            },
            Followup::Remap(q) => FollowupView::Remap(*q),
            Followup::LoadShape(q) => FollowupView::LoadShape(*q),
        }
    }
}

/// What a followup says, if there is one.
pub open spec fn followup_view(f: Option<Followup>) -> Option<FollowupView> {
    match f {
        Some(f) => Some(f@),
        None => None,
    }
}

/// Number of file descriptors among some arguments.
pub open spec fn fds_among(args: Seq<ArgType>) -> nat {
    args.filter(|a: ArgType| a == ArgType::Fd).len()
}

/// Number of file descriptors a request carries as ancillary data.
pub open spec fn fd_count(obj_type: ObjectType, op_code: u16) -> nat {
    match request_spec(obj_type, op_code) {
        Some(q) => fds_among(q.args),
        None => 0,
    }
}

/// Number of file descriptors a request carries as ancillary data.
pub fn request_fd_count(obj_type: ObjectType, op_code: u16) -> (r: usize)
    ensures
        r == fd_count(obj_type, op_code),
{
    match request_at(obj_type, op_code) {
        None => 0,
        Some(q) => {
            let ghost p = |a: ArgType| a == ArgType::Fd;
            let mut n: usize = 0;
            let mut i: usize = 0;
            proof {
                assert(q.args@.take(0).filter(p) =~= Seq::<ArgType>::empty()) by {
                    reveal(Seq::filter);
                }
            }
            while i < q.args.len()
                invariant
                    i <= q.args@.len(),
                    n <= i,
                    p == (|a: ArgType| a == ArgType::Fd),
                    n == q.args@.take(i as int).filter(p).len(),
                decreases q.args@.len() - i,
            {
                proof {
                    assert(q.args@.take(i + 1) =~= q.args@.take(i as int).push(q.args@[i as int]));
                    lemma_filter_push(q.args@.take(i as int), q.args@[i as int], p);
                }
                if q.args[i] == ArgType::Fd {
                    n += 1;
                }
                i += 1;
            }
            proof {
                assert(q.args@.take(i as int) =~= q.args@);
            }
            n
        },
    }
}

/// Whether an interface is handled outside this crate.
pub open spec fn handled_elsewhere(t: ObjectType) -> bool {
    match t {
        ObjectType::WlDisplay => true,
        ObjectType::WlFixes => true,
        ObjectType::WlShm => true,
        ObjectType::WlBuffer => true,
        ObjectType::WlCompositor => true,
        ObjectType::WlRegion => true,
        ObjectType::WlSeat => true,
        ObjectType::WlPointer => true,
        ObjectType::WlKeyboard => true,
        ObjectType::WlTouch => true,
        ObjectType::WlDataDeviceManager => true,
        ObjectType::WlDataDevice => true,
        ObjectType::WlDataSource => true,
        ObjectType::WlDataOffer => true,
        ObjectType::XdgWmBase => true,
        ObjectType::XdgSystemBell => true,
        ObjectType::XdgToplevel => true,
        ObjectType::XdgPopup => true,
        ObjectType::XdgPositioner => true,
        ObjectType::WpPresentation => true,
        ObjectType::WpViewporter => true,
        ObjectType::WpViewport => true,
        ObjectType::ZwpLinuxDmabuf => true,
        ObjectType::ZwpLinuxBufferParams => true,
        _ => false,
    }
}

impl StateView {
    /// With the oldest descriptors of a client claimed.
    pub open spec fn claim_fds(self, client_id: u32, n: nat) -> Self {
        StateView {
            clients: self.clients.edit(
                client_id,
                |c: ClientView| ClientView { fd_queue: c.fd_queue.skip(n as int), ..c },
            ),
            ..self
        }
    }

    /// After a request for a window, as far as the shell being told of it. One
    /// with no surface to tell of is finished at once.
    pub open spec fn get_toplevel(self, msg: ClientMessage) -> Self {
        let made = self.start_toplevel(msg);
        match self.toplevel_request(msg) {
            Some(q) => if q.surface is Some {
                made
            } else {
                made.finish_toplevel(q)
            },
            None => made,
        }
    }

    /// What is left to do about a request for a window: tell the shell of it.
    pub open spec fn toplevel_followup(self, msg: ClientMessage) -> Option<FollowupView> {
        match self.toplevel_request(msg) {
            Some(q) => if q.surface is Some {
                Some(FollowupView::TellShell(q))
            } else {
                None
            },
            None => None,
        }
    }

    /// What placing a popup needs, if its positioner is there.
    pub open spec fn placing<S: Shell>(self, shell: S, c: u32, positioner: u32, parent_wl: u32) -> Option<
        (XdgPositionerState, Room),
    > {
        self.popup_room(shell, (c, positioner), (c, parent_wl))
    }

    /// After a request for a popup, as far as it can be answered: one that
    /// cannot be placed yet or at all goes where unplaced popups go.
    pub open spec fn get_popup<S: Shell>(self, shell: S, msg: ClientMessage) -> Self {
        if !self.clients.has(msg.client_id) {
            self
        } else {
            match self.popup_request(msg) {
                None => self.refuse_popup(msg),
                Some(q) => match q.parented {
                    None => self.finish_popup(q, UNPLACED),
                    Some(l) => if self.placing(shell, q.client_id, q.positioner_id, l.1) is None {
                        self.finish_popup(q, UNPLACED)
                    } else {
                        self
                    },
                },
            }
        }
    }

    /// What is left to do about a request for a popup: place one that has a
    /// parent and a positioner.
    pub open spec fn popup_followup<S: Shell>(self, shell: S, msg: ClientMessage) -> Option<FollowupView> {
        if !self.clients.has(msg.client_id) {
            None
        } else {
            match self.popup_request(msg) {
                None => None,
                Some(q) => match q.parented {
                    None => None,
                    Some(l) => match self.placing(shell, q.client_id, q.positioner_id, l.1) {
                        None => None,
                        Some((positioner, room)) => Some(
                            FollowupView::PlacePopup { request: q, positioner, room },
                        ),
                    },
                },
            }
        }
    }

    /// The popup a layer surface is asked to take in, if it can.
    pub open spec fn adopt_request(self, msg: ClientMessage) -> Option<AdoptRequest> {
        match msg.word(0) {
            None => None,
            Some(id) => self.adoptable((msg.client_id, msg.object_id), id),
        }
    }

    /// After a layer surface has been asked to take a popup in.
    pub open spec fn adopt<S: Shell>(self, shell: S, msg: ClientMessage) -> Self {
        match msg.word(0) {
            None => self.reject_malformed(msg, "zwlr_layer_surface_v1"@),
            Some(_) => match self.adopt_request(msg) {
                None => self,
                Some(q) => {
                    let linked = self.adopt_popup(q);
                    if linked.placing(shell, q.client_id, q.positioner_id, q.layer_wl) is None {
                        linked.finish_adopt(q, UNPLACED)
                    } else {
                        linked
                    }
                },
            },
        }
    }

    /// What is left to do about a layer surface taking a popup in.
    pub open spec fn adopt_followup<S: Shell>(self, shell: S, msg: ClientMessage) -> Option<FollowupView> {
        match self.adopt_request(msg) {
            None => None,
            Some(q) => match self.adopt_popup(q).placing(shell, q.client_id, q.positioner_id, q.layer_wl) {
                None => None,
                Some((positioner, room)) => Some(FollowupView::AdoptPopup { request: q, positioner, room }),
            },
        }
    }

    /// After a request to show a shape, as far as it can be answered without
    /// loading anything.
    pub open spec fn set_shape(self, msg: ClientMessage) -> Self {
        match self.shape_asked(msg) {
            Some(q) => if self.cursors.cursor_shape_images.has(q.shape) {
                self.shape_checked(msg).finish_shape(q, None)
            } else {
                self.shape_checked(msg)
            },
            None => self.shape_checked(msg),
        }
    }

    /// What is left to do about a request to show a shape: load one that is
    /// not kept.
    pub open spec fn shape_followup(self, msg: ClientMessage) -> Option<FollowupView> {
        match self.shape_asked(msg) {
            Some(q) => if self.cursors.cursor_shape_images.has(q.shape) {
                None
            } else {
                Some(FollowupView::LoadShape(q))
            },
            None => None,
        }
    }

    /// After a request on an object of a type.
    pub open spec fn dispatched<S: Shell>(self, shell: S, t: ObjectType, msg: ClientMessage, fds: Seq<i32>) -> Self {
        match t {
            ObjectType::WlRegistry => self.registry_request(msg),
            ObjectType::WlCallback => self.reject_unknown(msg, "wl_callback"@),
            ObjectType::WlSurface => self.surface_request(msg),
            ObjectType::WlSubcompositor => self.subcompositor_request(msg),
            ObjectType::WlSubsurface => self.subsurface_request(msg),
            ObjectType::ZwpPrimarySelectionDeviceManager => self.primary_manager_request(msg),
            ObjectType::ZwpPrimarySelectionDevice => self.primary_device_request(msg),
            ObjectType::ZwpPrimarySelectionSource => self.primary_source_request(msg),
            ObjectType::ZwlrDataControlManager => self.control_manager_request(msg),
            ObjectType::ZwlrDataControlDevice => self.control_device_request(msg),
            ObjectType::ZwlrDataControlSource => self.control_source_request(msg),
            ObjectType::WlOutput => self.output_request(msg),
            ObjectType::WpPresentationFeedback => self.reject_unknown(msg, "wp_presentation_feedback"@),
            ObjectType::WpCursorShapeManager => self.shape_manager_request(msg),
            ObjectType::WpFractionalScaleManager => self.fractional_manager_request(msg),
            ObjectType::WpFractionalScale => self.fractional_scale_request(msg),
            ObjectType::ZxdgDecorationManager => self.decoration_manager_request(msg),
            ObjectType::ZxdgToplevelDecoration => self.decoration_request(msg),
            ObjectType::ZwlrLayerShell => self.layer_shell_request(msg),
            ObjectType::ZwpPrimarySelectionOffer => self.offer_request(msg, fds, PRIMARY_OFFER_INTERFACE@),
            ObjectType::ZwlrDataControlOffer => self.offer_request(msg, fds, CONTROL_OFFER_INTERFACE@),
            ObjectType::XdgSurface => if msg.op_code == 1 {
                self.get_toplevel(msg)
            } else if msg.op_code == 2 {
                self.get_popup(shell, msg)
            } else {
                self.xdg_request(msg)
            },
            ObjectType::ZwlrLayerSurface => if msg.op_code == 5 {
                self.adopt(shell, msg)
            } else {
                self.layer_request(msg)
            },
            ObjectType::WlShmPool => if msg.op_code == 2 {
                self.resize_checked(msg)
            } else {
                self.pool_request(msg)
            },
            ObjectType::WpCursorShapeDevice => if msg.op_code == 1 {
                self.set_shape(msg)
            } else {
                self.shape_device_request(msg)
            },
            _ => self,
        }
    }

    /// What is left to do about a request on an object of a type.
    pub open spec fn followup<S: Shell>(self, shell: S, t: ObjectType, msg: ClientMessage, fds: Seq<i32>) -> Option<
        FollowupView,
    > {
        if handled_elsewhere(t) {
            Some(FollowupView::Forward { object_type: t, fds })
        } else if t is XdgSurface && msg.op_code == 1 {
            self.toplevel_followup(msg)
        } else if t is XdgSurface && msg.op_code == 2 {
            self.popup_followup(shell, msg)
        } else if t is ZwlrLayerSurface && msg.op_code == 5 {
            self.adopt_followup(shell, msg)
        } else if t is WlShmPool && msg.op_code == 2 {
            match self.resize_asked(msg) {
                Some(q) => Some(FollowupView::Remap(q)),
                None => None,
            }
        } else if t is WpCursorShapeDevice && msg.op_code == 1 {
            self.shape_followup(msg)
        } else {
            None
        }
    }

    /// The descriptors a request takes, if they have all arrived.
    pub open spec fn fds_for(self, msg: ClientMessage, t: ObjectType) -> Option<Seq<i32>> {
        let queue = self.clients.at(msg.client_id).fd_queue;
        let n = fd_count(t, msg.op_code);
        if queue.len() < n {
            None
        } else {
            Some(queue.take(n as int))
        }
    }

    /// After a message off the socket: an object there is not, and a request
    /// whose descriptors have not come, are fatal to the client.
    pub open spec fn handle_message<S: Shell>(self, shell: S, msg: ClientMessage) -> Self {
        if !self.clients.has(msg.client_id) {
            self
        } else {
            match self.type_of(msg.client_id, msg.object_id) {
                None => self.fail(
                    msg.client_id,
                    msg.object_id,
                    ERROR_INVALID_OBJECT,
                    "invalid object "@ + decimal(msg.object_id as int) + ""@,
                ),
                Some(t) => match self.fds_for(msg, t) {
                    None => self.fail(
                        msg.client_id,
                        msg.object_id,
                        1,
                        "request is missing its file descriptor"@,
                    ),
                    Some(fds) => self.claim_fds(msg.client_id, fds.len()).dispatched(shell, t, msg, fds),
                },
            }
        }
    }

    /// What is left to do about a message off the socket.
    pub open spec fn message_followup<S: Shell>(self, shell: S, msg: ClientMessage) -> Option<FollowupView> {
        if !self.clients.has(msg.client_id) {
            None
        } else {
            match self.type_of(msg.client_id, msg.object_id) {
                None => None,
                Some(t) => match self.fds_for(msg, t) {
                    None => None,
                    Some(fds) => self.claim_fds(msg.client_id, fds.len()).followup(shell, t, msg, fds),
                },
            }
        }
    }
}

fn handle_get_toplevel(state: &mut CompositorState, msg: &ClientMessage) -> (r: Option<Followup>)
    ensures
        final(state)@ == old(state)@.get_toplevel(*msg),
        followup_view(r) == old(state)@.toplevel_followup(*msg),
{
    let q = match start_get_toplevel(state, msg) {
        Some(q) => q,
        None => {
            return None;
        },
    };
    if q.surface.is_none() {
        finish_get_toplevel(state, &q);
        return None;
    }
    Some(Followup::TellShell(q))
}

fn handle_get_popup<S: Shell>(state: &mut CompositorState, shell: &S, msg: &ClientMessage) -> (r: Option<Followup>)
    ensures
        final(state)@ == old(state)@.get_popup(*shell, *msg),
        followup_view(r) == old(state)@.popup_followup(*shell, *msg),
{
    let q = match start_get_popup(state, msg) {
        Some(q) => q,
        None => {
            return None;
        },
    };
    let parent_wl: u32 = match q.parented {
        Some((_, parent_wl)) => parent_wl,
        None => {
            finish_get_popup(state, &q, UNPLACED);
            return None;
        },
    };
    match state.place_popup(shell, (q.client_id, q.positioner_id), (q.client_id, parent_wl)) {
        None => {
            finish_get_popup(state, &q, UNPLACED);
            None
        },
        Some((positioner, room)) => Some(Followup::PlacePopup { request: q, positioner, room }),
    }
}

fn handle_adopt_popup<S: Shell>(state: &mut CompositorState, shell: &S, msg: &ClientMessage) -> (r: Option<Followup>)
    ensures
        final(state)@ == old(state)@.adopt(*shell, *msg),
        followup_view(r) == old(state)@.adopt_followup(*shell, *msg),
{
    let q = match start_adopt_popup(state, msg) {
        Some(q) => q,
        None => {
            return None;
        },
    };
    match state.place_popup(shell, (q.client_id, q.positioner_id), (q.client_id, q.layer_wl)) {
        None => {
            finish_adopt_popup(state, &q, UNPLACED);
            None
        },
        Some((positioner, room)) => Some(Followup::AdoptPopup { request: q, positioner, room }),
    }
}

fn handle_resize(state: &mut CompositorState, msg: &ClientMessage) -> (r: Option<Followup>)
    ensures
        final(state)@ == old(state)@.resize_checked(*msg),
        followup_view(r) == match old(state)@.resize_asked(*msg) {
            Some(q) => Some(FollowupView::Remap(q)),
            None => None,
        },
{
    match start_resize(state, msg) {
        Some(q) => Some(Followup::Remap(q)),
        None => None,
    }
}

fn handle_set_shape(state: &mut CompositorState, msg: &ClientMessage) -> (r: Option<Followup>)
    ensures
        final(state)@ == old(state)@.set_shape(*msg),
        followup_view(r) == old(state)@.shape_followup(*msg),
{
    match start_set_shape(state, msg) {
        None => None,
        Some(q) => {
            if has_shape_image(state, q.shape) {
                finish_set_shape(state, &q, None);
                None
            } else {
                Some(Followup::LoadShape(q))
            }
        },
    }
}

fn dispatch<S: Shell>(state: &mut CompositorState, shell: &S, t: ObjectType, msg: &ClientMessage, fds: Vec<i32>) -> (r:
    Option<Followup>)
    ensures
        final(state)@ == old(state)@.dispatched(*shell, t, *msg, fds@),
        followup_view(r) == old(state)@.followup(*shell, t, *msg, fds@),
{
    match t {
        ObjectType::WlRegistry => wl_registry::handle(state, msg),
        ObjectType::WlCallback => wl_callback::handle(state, msg),
        ObjectType::WlSurface => wl_surface::handle(state, msg),
        ObjectType::WlSubcompositor => wl_subcompositor::handle(state, msg),
        ObjectType::WlSubsurface => wl_subsurface::handle(state, msg),
        ObjectType::ZwpPrimarySelectionDeviceManager => zwp_primary_selection_device_manager::handle(state, msg),
        ObjectType::ZwpPrimarySelectionDevice => zwp_primary_selection_device::handle(state, msg),
        ObjectType::ZwpPrimarySelectionSource => zwp_primary_selection_source::handle(state, msg),
        ObjectType::ZwlrDataControlManager => zwlr_data_control_manager::handle(state, msg),
        ObjectType::ZwlrDataControlDevice => zwlr_data_control_device::handle(state, msg),
        ObjectType::ZwlrDataControlSource => zwlr_data_control_source::handle(state, msg),
        ObjectType::WlOutput => wl_output::handle(state, msg),
        ObjectType::WpPresentationFeedback => wp_presentation_feedback::handle(state, msg),
        ObjectType::WpCursorShapeManager => wp_cursor_shape_manager::handle(state, msg),
        ObjectType::WpFractionalScaleManager => wp_fractional_scale_manager::handle(state, msg),
        ObjectType::WpFractionalScale => wp_fractional_scale::handle(state, msg),
        ObjectType::ZxdgDecorationManager => zxdg_decoration_manager::handle(state, msg),
        ObjectType::ZxdgToplevelDecoration => zxdg_toplevel_decoration::handle(state, msg),
        ObjectType::ZwlrLayerShell => zwlr_layer_shell::handle(state, msg),
        ObjectType::ZwpPrimarySelectionOffer => zwp_primary_selection_offer::handle(state, msg, fds),
        ObjectType::ZwlrDataControlOffer => zwlr_data_control_offer::handle(state, msg, fds),
        ObjectType::XdgSurface => {
            if msg.op_code == 1 {
                return handle_get_toplevel(state, msg);
            }
            if msg.op_code == 2 {
                return handle_get_popup(state, shell, msg);
            }
            let _ = xdg_surface::handle(state, msg);
        },
        ObjectType::ZwlrLayerSurface => {
            if msg.op_code == 5 {
                return handle_adopt_popup(state, shell, msg);
            }
            let _ = zwlr_layer_surface::handle(state, msg);
        },
        ObjectType::WlShmPool => {
            if msg.op_code == 2 {
                return handle_resize(state, msg);
            }
            let _ = wl_shm_pool::handle(state, msg);
        },
        ObjectType::WpCursorShapeDevice => {
            if msg.op_code == 1 {
                return handle_set_shape(state, msg);
            }
            let _ = wp_cursor_shape_device::handle(state, msg);
        },
        ObjectType::WlDisplay
        | ObjectType::WlFixes
        | ObjectType::WlShm
        | ObjectType::WlBuffer
        | ObjectType::WlCompositor
        | ObjectType::WlRegion
        | ObjectType::WlSeat
        | ObjectType::WlPointer
        | ObjectType::WlKeyboard
        | ObjectType::WlTouch
        | ObjectType::WlDataDeviceManager
        | ObjectType::WlDataDevice
        | ObjectType::WlDataSource
        | ObjectType::WlDataOffer
        | ObjectType::XdgWmBase
        | ObjectType::XdgSystemBell
        | ObjectType::XdgToplevel
        | ObjectType::XdgPopup
        | ObjectType::XdgPositioner
        | ObjectType::WpPresentation
        | ObjectType::WpViewporter
        | ObjectType::WpViewport
        | ObjectType::ZwpLinuxDmabuf
        | ObjectType::ZwpLinuxBufferParams => {
            return Some(Followup::Forward { object_type: t, fds });
        },
    }
    None
}

fn claim_fds(state: &mut CompositorState, client_id: u32, n: usize) -> (r: Vec<i32>)
    requires
        old(state)@.clients.has(client_id),
        n <= old(state)@.clients.at(client_id).fd_queue.len(),
    ensures
        final(state)@ == old(state)@.claim_fds(client_id, n as nat),
        r@ == old(state)@.clients.at(client_id).fd_queue.take(n as int),
{
    match state.clients.get(client_id) {
        None => Vec::new(),
        Some(client) => {
            let rest = client.fd_queue.split_off(n);
            let mut taken: Vec<i32> = rest;
            core::mem::swap(&mut client.fd_queue, &mut taken);
            proof {
                assert(client.fd_queue@ =~= old(state)@.clients.at(client_id).fd_queue.skip(n as int));
                assert(taken@ =~= old(state)@.clients.at(client_id).fd_queue.take(n as int));
            }
            taken
        },
    }
}

/// Dispatch an individual message coming from the socket to the appropriate handler
///
/// The descriptors a request carries are claimed from the client's queue before
/// its handler sees it, whatever the handler makes of the rest.
pub fn handle_message<S: Shell>(state: &mut CompositorState, shell: &S, msg: &ClientMessage) -> (r: Option<Followup>)
    ensures
        final(state)@ == old(state)@.handle_message(*shell, *msg),
        followup_view(r) == old(state)@.message_followup(*shell, *msg),
{
    let queued: usize = match state.clients.peek(msg.client_id) {
        Some(client) => client.fd_queue.len(),
        None => {
            return None;
        },
    };
    let t = match state.type_of(msg.client_id, msg.object_id) {
        Some(t) => t,
        None => {
            let text = with_number("invalid object ", msg.object_id as i64, "");
            state.fail(msg.client_id, msg.object_id, ERROR_INVALID_OBJECT, text);
            return None;
        },
    };
    let count = request_fd_count(t, msg.op_code);
    if queued < count {
        state.fail(
            msg.client_id,
            msg.object_id,
            1,
            String::from_str("request is missing its file descriptor"),
        );
        return None;
    }
    let fds = claim_fds(state, msg.client_id, count);
    dispatch(state, shell, t, msg, fds)
}

} // verus!
