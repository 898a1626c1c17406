//! Globals: what is announced can be bound, and nothing else.
use crate::protocol::ObjectType;
use crate::protocol::wire_utils::ClientMessage;
use crate::protocol::wl_registry::{advertised, bind_args, lower, named, object_for, static_global};
use crate::seqs::lemma_filter_facts;
use crate::state::compositor_state::{StateView, STATIC_GLOBALS};
use crate::state::types::{OutputId, OutputView};
use vstd::prelude::*;

verus! {

/// Every static global creates an object.
pub proof fn lemma_static_globals_bind(name: u32)
    requires
        name < STATIC_GLOBALS,
    ensures
        static_global(name) is Some,
        object_for((static_global(name)->0).interface) is Some,
{
}

/// A client that binds a static global under the interface it was announced
/// with, at a version of one or more and with a free id, gets the object, at no
/// higher version than was announced.
pub proof fn lemma_bound_global(s: StateView, msg: ClientMessage, name: u32, version: u32, id: u32)
    requires
        s.clients.has(msg.client_id),
        name < STATIC_GLOBALS,
        bind_args(msg) == Some((name, (static_global(name)->0).interface, version, id)),
        version > 0,
        s.may_register(msg.client_id, id),
    ensures
        ({
            let g = static_global(name)->0;
            let c = s.registry_bind(msg).clients.at(msg.client_id);
            &&& c.objects.has(id)
            &&& Some(c.objects.at(id)) == object_for(g.interface)
            &&& c.version(id) == lower(version, g.version)
            &&& c.version(id) <= g.version
        }),
{
    lemma_static_globals_bind(name);
    let g = static_global(name)->0;
    assert(advertised(name, s.out.dmabuf_global_name, s.out.output_global_names) == Some(g.interface));
    let t = object_for(g.interface)->0;
    let bound = s.register_at(msg.client_id, id, t, lower(version, g.version));
    assert(bound.clients.has(msg.client_id));
    assert(s.registry_bind(msg) == bound.greet(msg.client_id, id, t));
}

/// A client that binds a name under another interface than it was announced
/// with, or one that was never announced, or at version zero, gets nothing and
/// is disconnected.
pub proof fn lemma_misbound_global(s: StateView, msg: ClientMessage, name: u32, interface: Seq<char>, version: u32, id: u32)
    requires
        s.clients.has(msg.client_id),
        bind_args(msg) == Some((name, interface, version, id)),
        version == 0 || advertised(name, s.out.dmabuf_global_name, s.out.output_global_names) != Some(interface),
    ensures
        s.registry_bind(msg).clients.at(msg.client_id).objects == s.clients.at(msg.client_id).objects,
        s.registry_bind(msg).clients.at(msg.client_id).cancelled,
{
}

/// dma-buf imports are announced once: a second answer changes nothing.
pub proof fn lemma_dmabuf_is_announced_once(s: StateView, again: bool)
    ensures
        s.dmabuf_support(true).dmabuf_support(again) == s.dmabuf_support(true),
{
}

/// An output that is announced has the name it was announced with, and that
/// name is not the one announced next, as long as names have not gone round.
pub proof fn lemma_added_output_is_named(s: StateView, o: OutputView)
    requires
        s.out.next_global_number < u32::MAX,
    ensures
        s.add_output(o).out.output_global_names.has(o.id),
        s.add_output(o).out.output_global_names.at(o.id) == s.out.next_global_number,
        s.add_output(o).out.next_global_number > s.out.next_global_number,
        s.add_output(o).out.outputs == s.out.outputs.push(o),
{
}

/// A client that binds an output by the name it was announced with has that output,
/// at no higher version than was announced.
pub proof fn lemma_bound_output(s: StateView, client_id: u32, id: u32, name: u32, version: u32, output: OutputId)
    requires
        s.clients.has(client_id),
        s.may_register(client_id, id),
        s.out.output_global_names.ok(),
        s.out.output_global_names.has(output),
        s.out.output_global_names.at(output) == name,
        forall|k: OutputId| #[trigger]
            s.out.output_global_names.has(k) && s.out.output_global_names.at(k) == name ==> k == output,
    ensures
        ({
            let t = s.bind_output(client_id, id, name, version);
            let c = t.clients.at(client_id);
            &&& t.out.output_bindings.has((client_id, id))
            &&& t.out.output_bindings.at((client_id, id)) == output
            &&& c.objects.has(id)
            &&& c.objects.at(id) == ObjectType::WlOutput
            &&& version <= 4 ==> c.version(id) == version
            &&& version > 4 ==> c.version(id) == 4
        }),
{
    let names = s.out.output_global_names;
    let p = |k: OutputId| named(name)(k, names.map[k]);
    let found = names.keys_where(named(name));
    lemma_filter_facts(names.order, p);
    assert(names.order.contains(output));
    assert(found.contains(output));
    assert(found.contains(found[0]));
    assert(names.has(found[0]));
    assert(found[0] == output);
}

} // verus!
