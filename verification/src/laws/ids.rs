//! Object ids: the two halves of the id space never meet, and nothing live is
//! named twice.
use crate::protocol::ObjectType;
use crate::protocol::messages::event;
use crate::protocol::wire_utils::ArgView;
use crate::state::client_state::{ClientView, DISPLAY_DELETE_ID, DISPLAY_ID, SERVER_ID_BASE};
use crate::table::Dict;
use vstd::prelude::*;

verus! {

impl ClientView {
    /// Whether the compositor has never named an object with an id it has still
    /// to give.
    pub open spec fn ids_ok(self) -> bool {
        &&& self.next_server_id >= SERVER_ID_BASE
        &&& forall|id: u32| #[trigger] self.objects.has(id) && id >= SERVER_ID_BASE ==> id < self.next_server_id
    }
}

proof fn lemma_put_has<V>(d: Dict<u32, V>, k: u32, v: V, x: u32)
    ensures
        d.put(k, v).has(x) == (x == k || d.has(x)),
        d.put(k, v).at(k) == v,
        x != k && d.has(x) ==> d.put(k, v).at(x) == d.at(x),
{
}

/// A new client's ids are in order.
pub proof fn lemma_fresh_ids()
    ensures
        ClientView::fresh().ids_ok(),
{
}

/// What a client names keeps the ids in order, whether it is refused or not.
pub proof fn lemma_register_ids(c: ClientView, id: u32, object_type: ObjectType, version: u32)
    requires
        c.ids_ok(),
    ensures
        c.registered(id, object_type).ids_ok(),
        c.registered_at(id, object_type, version).ids_ok(),
{
    assert forall|x: u32| #[trigger] c.objects.put(id, object_type).has(x) implies x == id || c.objects.has(x) by {
        lemma_put_has(c.objects, id, object_type, x);
    }
}

/// What the compositor names keeps the ids in order.
pub proof fn lemma_serve_ids(c: ClientView, object_type: ObjectType, version: u32)
    requires
        c.ids_ok(),
    ensures
        c.served(object_type).ids_ok(),
        c.served_at(object_type, version).ids_ok(),
{
    let id = c.next_server_id;
    assert forall|x: u32| #[trigger] c.objects.put(id, object_type).has(x) implies x == id || c.objects.has(x) by {
        lemma_put_has(c.objects, id, object_type, x);
    }
}

/// What goes keeps the ids in order.
pub proof fn lemma_unregister_ids(c: ClientView, id: u32)
    requires
        c.ids_ok(),
    ensures
        c.unregistered(id).ids_ok(),
{
    assert forall|x: u32| #[trigger] c.objects.without(id).has(x) implies c.objects.has(x) by {
    }
}

/// An id the compositor gives is in its own half of the id space, names nothing
/// else, and is never given again: not even once the object is gone.
pub proof fn lemma_served_id_is_new(c: ClientView, object_type: ObjectType)
    requires
        c.ids_ok(),
        c.can_serve(),
    ensures
        c.next_server_id >= SERVER_ID_BASE,
        !c.objects.has(c.next_server_id),
        c.served(object_type).objects.has(c.next_server_id),
        c.served(object_type).next_server_id > c.next_server_id,
        c.served(object_type).unregistered(c.next_server_id).next_server_id > c.next_server_id,
{
    lemma_put_has(c.objects, c.next_server_id, object_type, c.next_server_id);
}

/// A client that names an object with an id outside its half of the id space,
/// or with one that names something live, names nothing and is disconnected.
pub proof fn lemma_bad_id_is_fatal(c: ClientView, id: u32, object_type: ObjectType)
    requires
        id == 0 || id >= SERVER_ID_BASE || c.objects.has(id),
    ensures
        c.registered(id, object_type).objects == c.objects,
        c.registered(id, object_type).cancelled,
{
}

/// A client that names an object with a free id of its half has it, and every
/// other object stays what it was.
pub proof fn lemma_good_id_is_taken(c: ClientView, id: u32, object_type: ObjectType, other: u32)
    requires
        id != 0,
        id < SERVER_ID_BASE,
        !c.objects.has(id),
        other != id,
    ensures
        c.registered(id, object_type).objects.has(id),
        c.registered(id, object_type).objects.at(id) == object_type,
        c.registered(id, object_type).objects.has(other) == c.objects.has(other),
        c.objects.has(other) ==> c.registered(id, object_type).objects.at(other) == c.objects.at(other),
        c.registered(id, object_type).cancelled == c.cancelled,
{
    lemma_put_has(c.objects, id, object_type, other);
}

/// The client is told an id is free again exactly if the id was its own to give.
pub proof fn lemma_freed_id_is_told(c: ClientView, id: u32)
    ensures
        id < SERVER_ID_BASE ==> c.unregistered(id).outbox == c.outbox.push(
            event(DISPLAY_ID, DISPLAY_DELETE_ID, seq![ArgView::Uint(id)]),
        ),
        id >= SERVER_ID_BASE ==> c.unregistered(id).outbox == c.outbox,
{
}

} // verus!
