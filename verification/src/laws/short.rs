//! What a request with too few bytes for its arguments is answered.
use crate::laws::refusals::{lemma_failure_is_only_told, only_refused};
use crate::laws::unknown::lemma_nothing_is_claimed;
use crate::protocol::ObjectType;
use crate::protocol::dispatch::{fd_count, fds_among};
use crate::protocol::signature::{ArgType, request_spec};
use crate::protocol::wire_utils::ClientMessage;
use crate::protocol::wl_surface::DamageSpace;
use crate::seqs::lemma_filter_facts;
use crate::shell::Shell;
use crate::state::compositor_state::StateView;
use vstd::prelude::*;

verus! {

/// How many words the arguments of a request take at least, one each, where
/// having them is insisted on: `wl_surface.set_buffer_scale` without a scale and
/// `zxdg_toplevel_decoration_v1.set_mode` without a mode are let pass.
pub open spec fn words_taken(t: ObjectType, op_code: u16) -> int {
    match t {
        ObjectType::WlRegistry => if op_code == 0 {
            4
        } else {
            0
        },
        ObjectType::WlSurface => if op_code == 1 {
            3
        } else if op_code == 2 || op_code == 9 {
            4
        } else if op_code == 3 || op_code == 4 || op_code == 5 || op_code == 7 {
            1
        } else if op_code == 10 {
            2
        } else {
            0
        },
        ObjectType::WlSubcompositor => if op_code == 1 {
            3
        } else {
            0
        },
        ObjectType::WlSubsurface => if op_code == 1 {
            2
        } else if op_code == 2 || op_code == 3 {
            1
        } else {
            0
        },
        ObjectType::WlShmPool => if op_code == 0 {
            6
        } else if op_code == 2 {
            1
        } else {
            0
        },
        ObjectType::XdgSurface => if op_code == 1 || op_code == 4 {
            1
        } else if op_code == 2 {
            3
        } else if op_code == 3 {
            4
        } else {
            0
        },
        ObjectType::ZwpPrimarySelectionDeviceManager => if op_code == 0 {
            1
        } else if op_code == 1 {
            2
        } else {
            0
        },
        ObjectType::ZwpPrimarySelectionDevice => if op_code == 0 {
            2
        } else {
            0
        },
        ObjectType::ZwpPrimarySelectionSource => if op_code == 0 {
            1
        } else {
            0
        },
        ObjectType::ZwlrDataControlManager => if op_code == 0 {
            1
        } else if op_code == 1 {
            2
        } else {
            0
        },
        ObjectType::ZwlrDataControlDevice => if op_code == 0 || op_code == 2 {
            1
        } else {
            0
        },
        ObjectType::ZwlrDataControlSource => if op_code == 0 {
            1
        } else {
            0
        },
        ObjectType::WpCursorShapeManager => if op_code == 1 || op_code == 2 {
            2
        } else {
            0
        },
        ObjectType::WpCursorShapeDevice => if op_code == 1 {
            2
        } else {
            0
        },
        ObjectType::WpFractionalScaleManager => if op_code == 1 {
            2
        } else {
            0
        },
        ObjectType::ZxdgDecorationManager => if op_code == 1 {
            2
        } else {
            0
        },
        ObjectType::ZwlrLayerShell => if op_code == 0 {
            5
        } else {
            0
        },
        ObjectType::ZwlrLayerSurface => if op_code == 0 {
            2
        } else if op_code == 1 || op_code == 2 || op_code == 4 || op_code == 5 || op_code == 6 || op_code == 8 {
            1
        } else if op_code == 3 {
            4
        } else {
            0
        },
        _ => 0,
    }
}

/// Whether the second of two states is the first with a request refused.
pub open spec fn refused(s: StateView, r: StateView, msg: ClientMessage) -> bool {
    exists|code: u32, text: Seq<char>| r == #[trigger] s.fail(msg.client_id, msg.object_id, code, text)
}

proof fn lemma_attach_short(s: StateView, msg: ClientMessage)
    ensures
        msg.args@.len() < 12 ==> refused(s, s.surface_attach(msg), msg),
        msg.args@.len() < 8 ==> refused(s, s.surface_offset(msg), msg),
{
}

proof fn lemma_damage_short(s: StateView, msg: ClientMessage)
    ensures
        msg.args@.len() < 16 ==> refused(s, s.surface_damage(msg, DamageSpace::Surface), msg),
        msg.args@.len() < 16 ==> refused(s, s.surface_damage(msg, DamageSpace::Buffer), msg),
{
}

proof fn lemma_region_short(s: StateView, msg: ClientMessage)
    requires
        s.clients.has(msg.client_id),
    ensures
        msg.args@.len() < 4 ==> refused(s, s.surface_set_opaque_region(msg), msg),
        msg.args@.len() < 4 ==> refused(s, s.surface_set_input_region(msg), msg),
        msg.args@.len() < 4 ==> refused(s, s.surface_frame(msg), msg),
{
}

proof fn lemma_transform_short(s: StateView, msg: ClientMessage)
    ensures
        msg.args@.len() < 4 ==> refused(s, s.surface_set_buffer_transform(msg), msg),
{
}

proof fn lemma_wl_registry_short<S: Shell>(s: StateView, shell: S, msg: ClientMessage)
    requires
        s.clients.has(msg.client_id),
        msg.args@.len() < 4 * words_taken(ObjectType::WlRegistry, msg.op_code),
    ensures
        refused(s, s.dispatched(shell, ObjectType::WlRegistry, msg, Seq::empty()), msg),
{
}

proof fn lemma_wl_surface_short<S: Shell>(s: StateView, shell: S, msg: ClientMessage)
    requires
        s.clients.has(msg.client_id),
        msg.args@.len() < 4 * words_taken(ObjectType::WlSurface, msg.op_code),
    ensures
        refused(s, s.dispatched(shell, ObjectType::WlSurface, msg, Seq::empty()), msg),
{
    lemma_attach_short(s, msg);
    lemma_damage_short(s, msg);
    lemma_region_short(s, msg);
    lemma_transform_short(s, msg);
}

proof fn lemma_wl_subcompositor_short<S: Shell>(s: StateView, shell: S, msg: ClientMessage)
    requires
        s.clients.has(msg.client_id),
        msg.args@.len() < 4 * words_taken(ObjectType::WlSubcompositor, msg.op_code),
    ensures
        refused(s, s.dispatched(shell, ObjectType::WlSubcompositor, msg, Seq::empty()), msg),
{
}

proof fn lemma_wl_subsurface_short<S: Shell>(s: StateView, shell: S, msg: ClientMessage)
    requires
        s.clients.has(msg.client_id),
        msg.args@.len() < 4 * words_taken(ObjectType::WlSubsurface, msg.op_code),
    ensures
        refused(s, s.dispatched(shell, ObjectType::WlSubsurface, msg, Seq::empty()), msg),
{
}

proof fn lemma_wl_shm_pool_short<S: Shell>(s: StateView, shell: S, msg: ClientMessage)
    requires
        s.clients.has(msg.client_id),
        msg.args@.len() < 4 * words_taken(ObjectType::WlShmPool, msg.op_code),
    ensures
        refused(s, s.dispatched(shell, ObjectType::WlShmPool, msg, Seq::empty()), msg),
{
}

proof fn lemma_xdg_surface_short<S: Shell>(s: StateView, shell: S, msg: ClientMessage)
    requires
        s.clients.has(msg.client_id),
        msg.args@.len() < 4 * words_taken(ObjectType::XdgSurface, msg.op_code),
    ensures
        refused(s, s.dispatched(shell, ObjectType::XdgSurface, msg, Seq::empty()), msg),
{
}

proof fn lemma_zwp_primary_selection_device_manager_short<S: Shell>(s: StateView, shell: S, msg: ClientMessage)
    requires
        s.clients.has(msg.client_id),
        msg.args@.len() < 4 * words_taken(ObjectType::ZwpPrimarySelectionDeviceManager, msg.op_code),
    ensures
        refused(s, s.dispatched(shell, ObjectType::ZwpPrimarySelectionDeviceManager, msg, Seq::empty()), msg),
{
}

proof fn lemma_zwp_primary_selection_device_short<S: Shell>(s: StateView, shell: S, msg: ClientMessage)
    requires
        s.clients.has(msg.client_id),
        msg.args@.len() < 4 * words_taken(ObjectType::ZwpPrimarySelectionDevice, msg.op_code),
    ensures
        refused(s, s.dispatched(shell, ObjectType::ZwpPrimarySelectionDevice, msg, Seq::empty()), msg),
{
}

proof fn lemma_zwp_primary_selection_source_short<S: Shell>(s: StateView, shell: S, msg: ClientMessage)
    requires
        s.clients.has(msg.client_id),
        msg.args@.len() < 4 * words_taken(ObjectType::ZwpPrimarySelectionSource, msg.op_code),
    ensures
        refused(s, s.dispatched(shell, ObjectType::ZwpPrimarySelectionSource, msg, Seq::empty()), msg),
{
}

proof fn lemma_zwlr_data_control_manager_short<S: Shell>(s: StateView, shell: S, msg: ClientMessage)
    requires
        s.clients.has(msg.client_id),
        msg.args@.len() < 4 * words_taken(ObjectType::ZwlrDataControlManager, msg.op_code),
    ensures
        refused(s, s.dispatched(shell, ObjectType::ZwlrDataControlManager, msg, Seq::empty()), msg),
{
}

proof fn lemma_zwlr_data_control_device_short<S: Shell>(s: StateView, shell: S, msg: ClientMessage)
    requires
        s.clients.has(msg.client_id),
        msg.args@.len() < 4 * words_taken(ObjectType::ZwlrDataControlDevice, msg.op_code),
    ensures
        refused(s, s.dispatched(shell, ObjectType::ZwlrDataControlDevice, msg, Seq::empty()), msg),
{
}

proof fn lemma_zwlr_data_control_source_short<S: Shell>(s: StateView, shell: S, msg: ClientMessage)
    requires
        s.clients.has(msg.client_id),
        msg.args@.len() < 4 * words_taken(ObjectType::ZwlrDataControlSource, msg.op_code),
    ensures
        refused(s, s.dispatched(shell, ObjectType::ZwlrDataControlSource, msg, Seq::empty()), msg),
{
}

proof fn lemma_wp_cursor_shape_manager_short<S: Shell>(s: StateView, shell: S, msg: ClientMessage)
    requires
        s.clients.has(msg.client_id),
        msg.args@.len() < 4 * words_taken(ObjectType::WpCursorShapeManager, msg.op_code),
    ensures
        refused(s, s.dispatched(shell, ObjectType::WpCursorShapeManager, msg, Seq::empty()), msg),
{
}

proof fn lemma_wp_cursor_shape_device_short<S: Shell>(s: StateView, shell: S, msg: ClientMessage)
    requires
        s.clients.has(msg.client_id),
        msg.args@.len() < 4 * words_taken(ObjectType::WpCursorShapeDevice, msg.op_code),
    ensures
        refused(s, s.dispatched(shell, ObjectType::WpCursorShapeDevice, msg, Seq::empty()), msg),
{
}

proof fn lemma_wp_fractional_scale_manager_short<S: Shell>(s: StateView, shell: S, msg: ClientMessage)
    requires
        s.clients.has(msg.client_id),
        msg.args@.len() < 4 * words_taken(ObjectType::WpFractionalScaleManager, msg.op_code),
    ensures
        refused(s, s.dispatched(shell, ObjectType::WpFractionalScaleManager, msg, Seq::empty()), msg),
{
}

proof fn lemma_zxdg_decoration_manager_short<S: Shell>(s: StateView, shell: S, msg: ClientMessage)
    requires
        s.clients.has(msg.client_id),
        msg.args@.len() < 4 * words_taken(ObjectType::ZxdgDecorationManager, msg.op_code),
    ensures
        refused(s, s.dispatched(shell, ObjectType::ZxdgDecorationManager, msg, Seq::empty()), msg),
{
}

proof fn lemma_zwlr_layer_shell_short<S: Shell>(s: StateView, shell: S, msg: ClientMessage)
    requires
        s.clients.has(msg.client_id),
        msg.args@.len() < 4 * words_taken(ObjectType::ZwlrLayerShell, msg.op_code),
    ensures
        refused(s, s.dispatched(shell, ObjectType::ZwlrLayerShell, msg, Seq::empty()), msg),
{
}

proof fn lemma_zwlr_layer_surface_short<S: Shell>(s: StateView, shell: S, msg: ClientMessage)
    requires
        s.clients.has(msg.client_id),
        msg.args@.len() < 4 * words_taken(ObjectType::ZwlrLayerSurface, msg.op_code),
    ensures
        refused(s, s.dispatched(shell, ObjectType::ZwlrLayerSurface, msg, Seq::empty()), msg),
{
}

proof fn lemma_short_is_refused<S: Shell>(s: StateView, shell: S, t: ObjectType, msg: ClientMessage)
    requires
        s.clients.has(msg.client_id),
        msg.args@.len() < 4 * words_taken(t, msg.op_code),
    ensures
        refused(s, s.dispatched(shell, t, msg, Seq::empty()), msg),
{
    match t {
        ObjectType::WlRegistry => lemma_wl_registry_short(s, shell, msg),
        ObjectType::WlSurface => lemma_wl_surface_short(s, shell, msg),
        ObjectType::WlSubcompositor => lemma_wl_subcompositor_short(s, shell, msg),
        ObjectType::WlSubsurface => lemma_wl_subsurface_short(s, shell, msg),
        ObjectType::WlShmPool => lemma_wl_shm_pool_short(s, shell, msg),
        ObjectType::XdgSurface => lemma_xdg_surface_short(s, shell, msg),
        ObjectType::ZwpPrimarySelectionDeviceManager => lemma_zwp_primary_selection_device_manager_short(s, shell, msg),
        ObjectType::ZwpPrimarySelectionDevice => lemma_zwp_primary_selection_device_short(s, shell, msg),
        ObjectType::ZwpPrimarySelectionSource => lemma_zwp_primary_selection_source_short(s, shell, msg),
        ObjectType::ZwlrDataControlManager => lemma_zwlr_data_control_manager_short(s, shell, msg),
        ObjectType::ZwlrDataControlDevice => lemma_zwlr_data_control_device_short(s, shell, msg),
        ObjectType::ZwlrDataControlSource => lemma_zwlr_data_control_source_short(s, shell, msg),
        ObjectType::WpCursorShapeManager => lemma_wp_cursor_shape_manager_short(s, shell, msg),
        ObjectType::WpCursorShapeDevice => lemma_wp_cursor_shape_device_short(s, shell, msg),
        ObjectType::WpFractionalScaleManager => lemma_wp_fractional_scale_manager_short(s, shell, msg),
        ObjectType::ZxdgDecorationManager => lemma_zxdg_decoration_manager_short(s, shell, msg),
        ObjectType::ZwlrLayerShell => lemma_zwlr_layer_shell_short(s, shell, msg),
        ObjectType::ZwlrLayerSurface => lemma_zwlr_layer_surface_short(s, shell, msg),
        _ => {},
    }
}

proof fn lemma_no_fds(args: Seq<ArgType>)
    requires
        forall|i: int| 0 <= i < args.len() ==> args[i] != ArgType::Fd,
    ensures
        fds_among(args) == 0,
{
    let p = |a: ArgType| a == ArgType::Fd;
    lemma_filter_facts(args, p);
    if args.filter(p).len() > 0 {
        assert(args.filter(p).contains(args.filter(p)[0]));
    }
}

proof fn lemma_takes_no_fds(t: ObjectType, op_code: u16)
    requires
        words_taken(t, op_code) > 0,
    ensures
        fd_count(t, op_code) == 0,
{
    if let Some(q) = request_spec(t, op_code) {
        assert forall|i: int| 0 <= i < q.args.len() implies q.args[i] != ArgType::Fd by {}
        lemma_no_fds(q.args);
    }
}

/// A request with fewer bytes than one word for each of its arguments is
/// refused, and changes nothing else.
pub proof fn lemma_short_request<S: Shell>(s: StateView, shell: S, msg: ClientMessage, t: ObjectType)
    requires
        s.type_of(msg.client_id, msg.object_id) == Some(t),
        msg.args@.len() < 4 * words_taken(t, msg.op_code),
    ensures
        refused(s, s.handle_message(shell, msg), msg),
        only_refused(s, s.handle_message(shell, msg), msg.client_id),
{
    let queue = s.clients.at(msg.client_id).fd_queue;
    lemma_takes_no_fds(t, msg.op_code);
    lemma_short_is_refused(s, shell, t, msg);
    lemma_nothing_is_claimed(s, msg.client_id);
    assert(queue.take(0) =~= Seq::<i32>::empty());
    let (code, text) = choose|code: u32, text: Seq<char>| s.handle_message(shell, msg) == #[trigger] s.fail(
        msg.client_id,
        msg.object_id,
        code,
        text,
    );
    lemma_failure_is_only_told(s, msg.client_id, msg.object_id, code, text);
}

} // verus!
