//! What there is one of: a surface's role, a toplevel's decoration, a surface's
//! scale object.
use crate::laws::refusals::{lemma_failure_is_only_told, only_refused};
use crate::protocol::wire_utils::ClientMessage;
use crate::protocol::wp_cursor_shape_device::ShapeRequest;
use crate::protocol::wp_fractional_scale_manager::asks_about;
use crate::state::compositor_state::StateView;
use crate::state::types::{ClientObjectId, DefaultCursorView};
use vstd::prelude::*;

verus! {

/// A surface that has a role gets no layer surface as well: the client is
/// disconnected and nothing is made.
pub proof fn lemma_second_role_is_refused(s: StateView, msg: ClientMessage)
    requires
        s.clients.has(msg.client_id),
        msg.word(1) is Some,
        s.has_role((msg.client_id, msg.word(1)->0)),
    ensures
        s.get_layer_surface(msg).layers == s.layers,
        s.get_layer_surface(msg).surf == s.surf,
        s.get_layer_surface(msg).clients.at(msg.client_id).cancelled,
{
}

/// A surface that has a role is not made a subsurface as well: the client is
/// disconnected, and no surface, subsurface object or other object of anyone's is
/// touched.
pub proof fn lemma_second_role_makes_no_subsurface(s: StateView, msg: ClientMessage)
    requires
        s.clients.has(msg.client_id),
        msg.word(1) is Some,
        s.has_role((msg.client_id, msg.word(1)->0)),
    ensures
        only_refused(s, s.get_subsurface(msg), msg.client_id),
        s.get_subsurface(msg).clients.at(msg.client_id).cancelled,
        s.get_subsurface(msg).clients.at(msg.client_id).objects == s.clients.at(msg.client_id).objects,
{
    let c = msg.client_id;
    lemma_failure_is_only_told(s, c, msg.object_id, 0, "wl_subcompositor.get_subsurface: malformed args"@);
    lemma_failure_is_only_told(
        s,
        c,
        msg.object_id,
        0,
        "wl_subcompositor.get_subsurface: surface already has cursor role"@,
    );
    lemma_failure_is_only_told(
        s,
        c,
        msg.object_id,
        0,
        "wl_subcompositor.get_subsurface: surface already has drag icon role"@,
    );
    lemma_failure_is_only_told(
        s,
        c,
        msg.object_id,
        0,
        "wl_subcompositor.get_subsurface: surface already has another role"@,
    );
}

/// A toplevel that has a decoration gets no second one.
pub proof fn lemma_second_decoration_is_refused(s: StateView, msg: ClientMessage)
    requires
        s.clients.has(msg.client_id),
        msg.word(0) is Some,
        msg.word(1) is Some,
        s.win.toplevel_decoration.has((msg.client_id, msg.word(1)->0)),
    ensures
        s.get_decoration(msg).win == s.win,
        s.get_decoration(msg).clients.at(msg.client_id).cancelled,
{
}

/// A decoration that goes makes room for another.
pub proof fn lemma_decoration_can_be_made_again(s: StateView, client_id: u32, decoration_id: u32, toplevel_id: u32)
    ensures
        !s.create_decoration(client_id, decoration_id, toplevel_id).destroy_decoration(
            client_id,
            decoration_id,
        ).win.toplevel_decoration.has((client_id, toplevel_id)),
{
}

/// Whether no two scale objects of a client ask about one surface.
pub open spec fn one_scale_each(s: StateView) -> bool {
    forall|a: ClientObjectId, b: ClientObjectId|
        #![trigger s.surf.fractional_scales.has(a), s.surf.fractional_scales.has(b)]
        s.surf.fractional_scales.has(a) && s.surf.fractional_scales.has(b) && a.0 == b.0
            && s.surf.fractional_scales.at(a).surface_id == s.surf.fractional_scales.at(b).surface_id ==> a == b
}

/// A surface has at most one scale object, whatever the client asks for.
pub proof fn lemma_one_scale_each(s: StateView, msg: ClientMessage)
    requires
        one_scale_each(s),
    ensures
        one_scale_each(s.get_fractional_scale(msg)),
{
    let t = s.get_fractional_scale(msg);
    if s.surf != t.surf {
        let c = msg.client_id;
        let (id, surface_id) = (msg.word(0)->0, msg.word(1)->0);
        let p = asks_about(c, surface_id);
        assert forall|a: ClientObjectId, b: ClientObjectId|
            #![trigger t.surf.fractional_scales.has(a), t.surf.fractional_scales.has(b)]
            t.surf.fractional_scales.has(a) && t.surf.fractional_scales.has(b) && a.0 == b.0
                && t.surf.fractional_scales.at(a).surface_id == t.surf.fractional_scales.at(
                b,
            ).surface_id implies a == b by {
            let d = s.surf.fractional_scales;
            if a != (c, id) {
                assert(d.has(a));
                assert(!p(a, d.at(a)));
            }
            if b != (c, id) {
                assert(d.has(b));
                assert(!p(b, d.at(b)));
            }
        }
    }
}

/// Naming a shape and attaching a surface are one choice: a client whose cursor
/// is a shape has no cursor surface.
pub proof fn lemma_shape_replaces_surface(s: StateView, q: ShapeRequest, image: Option<DefaultCursorView>)
    requires
        s.cursors.cursor_shape_images.has(q.shape) || image is Some,
    ensures
        s.finish_shape(q, image).cursors.cursor_shapes.has(q.client_id),
        s.finish_shape(q, image).cursors.cursor_shapes.at(q.client_id) == q.shape,
        !s.finish_shape(q, image).cursors.cursor_surfaces.has(q.client_id),
{
}

} // verus!
