//! What a request that an interface does not have is answered.
use crate::laws::refusals::{lemma_failure_is_only_told, only_refused};
use crate::protocol::{ERROR_INVALID_METHOD, ObjectType};
use crate::protocol::dispatch::handled_elsewhere;
use crate::protocol::signature::{request_spec, requests_of};
use crate::protocol::wire_utils::ClientMessage;
use crate::protocol::wp_cursor_shape_device::SHAPE_DEVICE_INTERFACE;
use crate::protocol::wp_cursor_shape_manager::SHAPE_MANAGER_INTERFACE;
use crate::protocol::wp_fractional_scale::FRACTIONAL_SCALE_INTERFACE;
use crate::protocol::wp_fractional_scale_manager::FRACTIONAL_MANAGER_INTERFACE;
use crate::protocol::zwlr_data_control_device::CONTROL_DEVICE_INTERFACE;
use crate::protocol::zwlr_data_control_manager::CONTROL_MANAGER_INTERFACE;
use crate::protocol::zwlr_data_control_offer::CONTROL_OFFER_INTERFACE;
use crate::protocol::zwlr_data_control_source::CONTROL_SOURCE_INTERFACE;
use crate::protocol::zwlr_layer_shell::LAYER_SHELL_INTERFACE;
use crate::protocol::zwp_primary_selection_device::PRIMARY_DEVICE_INTERFACE;
use crate::protocol::zwp_primary_selection_device_manager::PRIMARY_MANAGER_INTERFACE;
use crate::protocol::zwp_primary_selection_offer::PRIMARY_OFFER_INTERFACE;
use crate::protocol::zwp_primary_selection_source::PRIMARY_SOURCE_INTERFACE;
use crate::shell::Shell;
use crate::state::compositor_state::StateView;
use crate::text::decimal;
use vstd::prelude::*;

verus! {

/// What an interface is called on the wire, of those handled here.
pub open spec fn interface_of(t: ObjectType) -> Seq<char> {
    match t {
        ObjectType::WlRegistry => "wl_registry"@,
        ObjectType::WlCallback => "wl_callback"@,
        ObjectType::WlSurface => "wl_surface"@,
        ObjectType::WlSubcompositor => "wl_subcompositor"@,
        ObjectType::WlSubsurface => "wl_subsurface"@,
        ObjectType::WlShmPool => "wl_shm_pool"@,
        ObjectType::WlOutput => "wl_output"@,
        ObjectType::XdgSurface => "xdg_surface"@,
        ObjectType::ZwpPrimarySelectionDeviceManager => PRIMARY_MANAGER_INTERFACE@,
        ObjectType::ZwpPrimarySelectionDevice => PRIMARY_DEVICE_INTERFACE@,
        ObjectType::ZwpPrimarySelectionSource => PRIMARY_SOURCE_INTERFACE@,
        ObjectType::ZwpPrimarySelectionOffer => PRIMARY_OFFER_INTERFACE@,
        ObjectType::ZwlrDataControlManager => CONTROL_MANAGER_INTERFACE@,
        ObjectType::ZwlrDataControlDevice => CONTROL_DEVICE_INTERFACE@,
        ObjectType::ZwlrDataControlSource => CONTROL_SOURCE_INTERFACE@,
        ObjectType::ZwlrDataControlOffer => CONTROL_OFFER_INTERFACE@,
        ObjectType::WpCursorShapeManager => SHAPE_MANAGER_INTERFACE@,
        ObjectType::WpCursorShapeDevice => SHAPE_DEVICE_INTERFACE@,
        ObjectType::WpFractionalScaleManager => FRACTIONAL_MANAGER_INTERFACE@,
        ObjectType::WpFractionalScale => FRACTIONAL_SCALE_INTERFACE@,
        ObjectType::WpPresentationFeedback => "wp_presentation_feedback"@,
        ObjectType::ZxdgDecorationManager => "zxdg_decoration_manager_v1"@,
        ObjectType::ZxdgToplevelDecoration => "zxdg_toplevel_decoration_v1"@,
        ObjectType::ZwlrLayerShell => LAYER_SHELL_INTERFACE@,
        ObjectType::ZwlrLayerSurface => "zwlr_layer_surface_v1"@,
        _ => Seq::empty(),
    }
}

/// How many requests an interface has, of those handled here.
pub open spec fn request_count(t: ObjectType) -> nat {
    match t {
        ObjectType::WlRegistry => 1,
        ObjectType::WlCallback => 0,
        ObjectType::WlSurface => 11,
        ObjectType::WlSubcompositor => 2,
        ObjectType::WlSubsurface => 6,
        ObjectType::WlShmPool => 3,
        ObjectType::WlOutput => 1,
        ObjectType::XdgSurface => 5,
        ObjectType::ZwpPrimarySelectionDeviceManager => 3,
        ObjectType::ZwpPrimarySelectionDevice => 2,
        ObjectType::ZwpPrimarySelectionSource => 2,
        ObjectType::ZwpPrimarySelectionOffer => 2,
        ObjectType::ZwlrDataControlManager => 3,
        ObjectType::ZwlrDataControlDevice => 3,
        ObjectType::ZwlrDataControlSource => 2,
        ObjectType::ZwlrDataControlOffer => 2,
        ObjectType::WpCursorShapeManager => 3,
        ObjectType::WpCursorShapeDevice => 2,
        ObjectType::WpFractionalScaleManager => 2,
        ObjectType::WpFractionalScale => 1,
        ObjectType::WpPresentationFeedback => 0,
        ObjectType::ZxdgDecorationManager => 2,
        ObjectType::ZxdgToplevelDecoration => 3,
        ObjectType::ZwlrLayerShell => 2,
        ObjectType::ZwlrLayerSurface => 9,
        _ => 0,
    }
}

proof fn lemma_wl_registry_unknown<S: Shell>(s: StateView, shell: S, msg: ClientMessage)
    requires
        msg.op_code >= 1,
    ensures
        s.dispatched(shell, ObjectType::WlRegistry, msg, Seq::empty()) == s.reject_unknown(
            msg,
            "wl_registry"@,
        ),
{
}

proof fn lemma_wl_callback_unknown<S: Shell>(s: StateView, shell: S, msg: ClientMessage)
    ensures
        s.dispatched(shell, ObjectType::WlCallback, msg, Seq::empty()) == s.reject_unknown(
            msg,
            "wl_callback"@,
        ),
{
}

proof fn lemma_wl_surface_unknown<S: Shell>(s: StateView, shell: S, msg: ClientMessage)
    requires
        msg.op_code >= 11,
    ensures
        s.dispatched(shell, ObjectType::WlSurface, msg, Seq::empty()) == s.reject_unknown(msg, "wl_surface"@),
{
}

proof fn lemma_wl_subcompositor_unknown<S: Shell>(s: StateView, shell: S, msg: ClientMessage)
    requires
        msg.op_code >= 2,
    ensures
        s.dispatched(shell, ObjectType::WlSubcompositor, msg, Seq::empty()) == s.reject_unknown(
            msg,
            "wl_subcompositor"@,
        ),
{
}

proof fn lemma_wl_subsurface_unknown<S: Shell>(s: StateView, shell: S, msg: ClientMessage)
    requires
        msg.op_code >= 6,
    ensures
        s.dispatched(shell, ObjectType::WlSubsurface, msg, Seq::empty()) == s.reject_unknown(
            msg,
            "wl_subsurface"@,
        ),
{
}

proof fn lemma_wl_shm_pool_unknown<S: Shell>(s: StateView, shell: S, msg: ClientMessage)
    requires
        msg.op_code >= 3,
    ensures
        s.dispatched(shell, ObjectType::WlShmPool, msg, Seq::empty()) == s.reject_unknown(
            msg,
            "wl_shm_pool"@,
        ),
{
}

proof fn lemma_wl_output_unknown<S: Shell>(s: StateView, shell: S, msg: ClientMessage)
    requires
        msg.op_code >= 1,
    ensures
        s.dispatched(shell, ObjectType::WlOutput, msg, Seq::empty()) == s.reject_unknown(msg, "wl_output"@),
{
}

proof fn lemma_xdg_surface_unknown<S: Shell>(s: StateView, shell: S, msg: ClientMessage)
    requires
        msg.op_code >= 5,
    ensures
        s.dispatched(shell, ObjectType::XdgSurface, msg, Seq::empty()) == s.reject_unknown(
            msg,
            "xdg_surface"@,
        ),
{
}

proof fn lemma_zwp_primary_selection_device_manager_unknown<S: Shell>(s: StateView, shell: S, msg: ClientMessage)
    requires
        msg.op_code >= 3,
    ensures
        s.dispatched(shell, ObjectType::ZwpPrimarySelectionDeviceManager, msg, Seq::empty()) == s.reject_unknown(
            msg,
            PRIMARY_MANAGER_INTERFACE@,
        ),
{
}

proof fn lemma_zwp_primary_selection_device_unknown<S: Shell>(s: StateView, shell: S, msg: ClientMessage)
    requires
        msg.op_code >= 2,
    ensures
        s.dispatched(shell, ObjectType::ZwpPrimarySelectionDevice, msg, Seq::empty()) == s.reject_unknown(
            msg,
            PRIMARY_DEVICE_INTERFACE@,
        ),
{
}

proof fn lemma_zwp_primary_selection_source_unknown<S: Shell>(s: StateView, shell: S, msg: ClientMessage)
    requires
        msg.op_code >= 2,
    ensures
        s.dispatched(shell, ObjectType::ZwpPrimarySelectionSource, msg, Seq::empty()) == s.reject_unknown(
            msg,
            PRIMARY_SOURCE_INTERFACE@,
        ),
{
}

proof fn lemma_zwp_primary_selection_offer_unknown<S: Shell>(s: StateView, shell: S, msg: ClientMessage)
    requires
        msg.op_code >= 2,
    ensures
        s.dispatched(shell, ObjectType::ZwpPrimarySelectionOffer, msg, Seq::empty()) == s.reject_unknown(
            msg,
            PRIMARY_OFFER_INTERFACE@,
        ),
{
    let r = s.reject_unknown(msg, PRIMARY_OFFER_INTERFACE@);
    assert(r.mem.closed_fds + Seq::<i32>::empty() =~= r.mem.closed_fds);
}

proof fn lemma_zwlr_data_control_manager_unknown<S: Shell>(s: StateView, shell: S, msg: ClientMessage)
    requires
        msg.op_code >= 3,
    ensures
        s.dispatched(shell, ObjectType::ZwlrDataControlManager, msg, Seq::empty()) == s.reject_unknown(
            msg,
            CONTROL_MANAGER_INTERFACE@,
        ),
{
}

proof fn lemma_zwlr_data_control_device_unknown<S: Shell>(s: StateView, shell: S, msg: ClientMessage)
    requires
        msg.op_code >= 3,
    ensures
        s.dispatched(shell, ObjectType::ZwlrDataControlDevice, msg, Seq::empty()) == s.reject_unknown(
            msg,
            CONTROL_DEVICE_INTERFACE@,
        ),
{
}

proof fn lemma_zwlr_data_control_source_unknown<S: Shell>(s: StateView, shell: S, msg: ClientMessage)
    requires
        msg.op_code >= 2,
    ensures
        s.dispatched(shell, ObjectType::ZwlrDataControlSource, msg, Seq::empty()) == s.reject_unknown(
            msg,
            CONTROL_SOURCE_INTERFACE@,
        ),
{
}

proof fn lemma_zwlr_data_control_offer_unknown<S: Shell>(s: StateView, shell: S, msg: ClientMessage)
    requires
        msg.op_code >= 2,
    ensures
        s.dispatched(shell, ObjectType::ZwlrDataControlOffer, msg, Seq::empty()) == s.reject_unknown(
            msg,
            CONTROL_OFFER_INTERFACE@,
        ),
{
    let r = s.reject_unknown(msg, CONTROL_OFFER_INTERFACE@);
    assert(r.mem.closed_fds + Seq::<i32>::empty() =~= r.mem.closed_fds);
}

proof fn lemma_wp_cursor_shape_manager_unknown<S: Shell>(s: StateView, shell: S, msg: ClientMessage)
    requires
        msg.op_code >= 3,
    ensures
        s.dispatched(shell, ObjectType::WpCursorShapeManager, msg, Seq::empty()) == s.reject_unknown(
            msg,
            SHAPE_MANAGER_INTERFACE@,
        ),
{
}

proof fn lemma_wp_cursor_shape_device_unknown<S: Shell>(s: StateView, shell: S, msg: ClientMessage)
    requires
        msg.op_code >= 2,
    ensures
        s.dispatched(shell, ObjectType::WpCursorShapeDevice, msg, Seq::empty()) == s.reject_unknown(
            msg,
            SHAPE_DEVICE_INTERFACE@,
        ),
{
}

proof fn lemma_wp_fractional_scale_manager_unknown<S: Shell>(s: StateView, shell: S, msg: ClientMessage)
    requires
        msg.op_code >= 2,
    ensures
        s.dispatched(shell, ObjectType::WpFractionalScaleManager, msg, Seq::empty()) == s.reject_unknown(
            msg,
            FRACTIONAL_MANAGER_INTERFACE@,
        ),
{
}

proof fn lemma_wp_fractional_scale_unknown<S: Shell>(s: StateView, shell: S, msg: ClientMessage)
    requires
        msg.op_code >= 1,
    ensures
        s.dispatched(shell, ObjectType::WpFractionalScale, msg, Seq::empty()) == s.reject_unknown(
            msg,
            FRACTIONAL_SCALE_INTERFACE@,
        ),
{
}

proof fn lemma_wp_presentation_feedback_unknown<S: Shell>(s: StateView, shell: S, msg: ClientMessage)
    ensures
        s.dispatched(shell, ObjectType::WpPresentationFeedback, msg, Seq::empty()) == s.reject_unknown(
            msg,
            "wp_presentation_feedback"@,
        ),
{
}

proof fn lemma_zxdg_decoration_manager_unknown<S: Shell>(s: StateView, shell: S, msg: ClientMessage)
    requires
        msg.op_code >= 2,
    ensures
        s.dispatched(shell, ObjectType::ZxdgDecorationManager, msg, Seq::empty()) == s.reject_unknown(
            msg,
            "zxdg_decoration_manager_v1"@,
        ),
{
}

proof fn lemma_zxdg_toplevel_decoration_unknown<S: Shell>(s: StateView, shell: S, msg: ClientMessage)
    requires
        msg.op_code >= 3,
    ensures
        s.dispatched(shell, ObjectType::ZxdgToplevelDecoration, msg, Seq::empty()) == s.reject_unknown(
            msg,
            "zxdg_toplevel_decoration_v1"@,
        ),
{
}

proof fn lemma_zwlr_layer_shell_unknown<S: Shell>(s: StateView, shell: S, msg: ClientMessage)
    requires
        msg.op_code >= 2,
    ensures
        s.dispatched(shell, ObjectType::ZwlrLayerShell, msg, Seq::empty()) == s.reject_unknown(
            msg,
            LAYER_SHELL_INTERFACE@,
        ),
{
}

proof fn lemma_zwlr_layer_surface_unknown<S: Shell>(s: StateView, shell: S, msg: ClientMessage)
    requires
        msg.op_code >= 9,
    ensures
        s.dispatched(shell, ObjectType::ZwlrLayerSurface, msg, Seq::empty()) == s.reject_unknown(
            msg,
            "zwlr_layer_surface_v1"@,
        ),
{
}

proof fn lemma_request_count(t: ObjectType)
    requires
        !handled_elsewhere(t),
    ensures
        requests_of(t).len() == request_count(t),
{
}

proof fn lemma_unknown_is_rejected<S: Shell>(s: StateView, shell: S, t: ObjectType, msg: ClientMessage)
    requires
        !handled_elsewhere(t),
        msg.op_code >= request_count(t),
    ensures
        s.dispatched(shell, t, msg, Seq::empty()) == s.reject_unknown(msg, interface_of(t)),
{
    match t {
        ObjectType::WlRegistry => lemma_wl_registry_unknown(s, shell, msg),
        ObjectType::WlCallback => lemma_wl_callback_unknown(s, shell, msg),
        ObjectType::WlSurface => lemma_wl_surface_unknown(s, shell, msg),
        ObjectType::WlSubcompositor => lemma_wl_subcompositor_unknown(s, shell, msg),
        ObjectType::WlSubsurface => lemma_wl_subsurface_unknown(s, shell, msg),
        ObjectType::WlShmPool => lemma_wl_shm_pool_unknown(s, shell, msg),
        ObjectType::WlOutput => lemma_wl_output_unknown(s, shell, msg),
        ObjectType::XdgSurface => lemma_xdg_surface_unknown(s, shell, msg),
        ObjectType::ZwpPrimarySelectionDeviceManager => lemma_zwp_primary_selection_device_manager_unknown(s, shell, msg),
        ObjectType::ZwpPrimarySelectionDevice => lemma_zwp_primary_selection_device_unknown(s, shell, msg),
        ObjectType::ZwpPrimarySelectionSource => lemma_zwp_primary_selection_source_unknown(s, shell, msg),
        ObjectType::ZwpPrimarySelectionOffer => lemma_zwp_primary_selection_offer_unknown(s, shell, msg),
        ObjectType::ZwlrDataControlManager => lemma_zwlr_data_control_manager_unknown(s, shell, msg),
        ObjectType::ZwlrDataControlDevice => lemma_zwlr_data_control_device_unknown(s, shell, msg),
        ObjectType::ZwlrDataControlSource => lemma_zwlr_data_control_source_unknown(s, shell, msg),
        ObjectType::ZwlrDataControlOffer => lemma_zwlr_data_control_offer_unknown(s, shell, msg),
        ObjectType::WpCursorShapeManager => lemma_wp_cursor_shape_manager_unknown(s, shell, msg),
        ObjectType::WpCursorShapeDevice => lemma_wp_cursor_shape_device_unknown(s, shell, msg),
        ObjectType::WpFractionalScaleManager => lemma_wp_fractional_scale_manager_unknown(s, shell, msg),
        ObjectType::WpFractionalScale => lemma_wp_fractional_scale_unknown(s, shell, msg),
        ObjectType::WpPresentationFeedback => lemma_wp_presentation_feedback_unknown(s, shell, msg),
        ObjectType::ZxdgDecorationManager => lemma_zxdg_decoration_manager_unknown(s, shell, msg),
        ObjectType::ZxdgToplevelDecoration => lemma_zxdg_toplevel_decoration_unknown(s, shell, msg),
        ObjectType::ZwlrLayerShell => lemma_zwlr_layer_shell_unknown(s, shell, msg),
        ObjectType::ZwlrLayerSurface => lemma_zwlr_layer_surface_unknown(s, shell, msg),
        _ => {},
    }
}

pub proof fn lemma_nothing_is_claimed(s: StateView, client_id: u32)
    requires
        s.clients.has(client_id),
    ensures
        s.claim_fds(client_id, 0) == s,
{
    let queue = s.clients.at(client_id).fd_queue;
    assert(queue.skip(0) =~= queue);
    assert(s.claim_fds(client_id, 0).clients =~= s.clients);
}

/// A request that an interface does not have is refused by the interface's name,
/// whatever the interface, and changes nothing else.
pub proof fn lemma_no_such_request<S: Shell>(s: StateView, shell: S, msg: ClientMessage, t: ObjectType)
    requires
        s.type_of(msg.client_id, msg.object_id) == Some(t),
        !handled_elsewhere(t),
        request_spec(t, msg.op_code) is None,
    ensures
        s.handle_message(shell, msg) == s.reject_unknown(msg, interface_of(t)),
        only_refused(s, s.handle_message(shell, msg), msg.client_id),
{
    let queue = s.clients.at(msg.client_id).fd_queue;
    lemma_request_count(t);
    lemma_unknown_is_rejected(s, shell, t, msg);
    lemma_nothing_is_claimed(s, msg.client_id);
    assert(queue.take(0) =~= Seq::<i32>::empty());
    lemma_failure_is_only_told(
        s,
        msg.client_id,
        msg.object_id,
        ERROR_INVALID_METHOD,
        interface_of(t) + " has no request "@ + decimal(msg.op_code as int),
    );
}

} // verus!
