//! Outputs: a listing is the whole truth.
use crate::laws::panels::lemma_configured_panels_know_their_size;
use crate::protocol::messages::{EventView, MessageView, Notice};
use crate::run::displays::{is_seat, lists, missing, output_index, output_updated};
use crate::scene::compose::current_among;
use crate::scene::images::CacheView;
use crate::scene::paint::PaintingView;
use crate::seqs::lemma_filter_facts;
use crate::shell::Shell;
use crate::state::compositor_state::{DisplaysView, StateView};
use crate::state::panels::{layer_on, settled_on};
use crate::state::teardown::not_output;
use crate::state::types::{ClientObjectId, OutputId, OutputMode, OutputView, SeatState};
use crate::table::lemma_set_without;
use vstd::prelude::*;

verus! {

proof fn lemma_index_lists(outputs: Seq<OutputView>, id: OutputId)
    ensures
        match output_index(outputs, id) {
            Some(i) => 0 <= i < outputs.len() && outputs[i].id == id && lists(outputs, id),
            None => !lists(outputs, id),
        },
    decreases outputs.len(),
{
    if outputs.len() > 0 {
        let before = outputs.drop_last();
        lemma_index_lists(before, id);
        match output_index(before, id) {
            Some(i) => {
                assert(outputs[i].id == id);
            },
            None => {
                if outputs.last().id == id {
                    assert(outputs[outputs.len() - 1].id == id);
                } else if lists(outputs, id) {
                    let i = choose|i: int| 0 <= i < outputs.len() && (#[trigger] outputs[i]).id == id;
                    assert(before[i].id == id);
                }
            },
        }
    }
}

proof fn lemma_resettled_outputs(s: StateView, o: OutputView, i: int)
    requires
        output_index(s.out.outputs, o.id) == Some(i),
    ensures
        s.upsert_output(o).out.outputs == s.out.outputs.update(i, output_updated(s.out.outputs[i], s.rescaled_output(o))),
{
    let new = s.rescaled_output(o);
    let changed = StateView {
        out: DisplaysView { outputs: s.out.outputs.update(i, output_updated(s.out.outputs[i], new)), ..s.out },
        ..s
    };
    lemma_configured_panels_know_their_size(
        changed,
        changed.layers.layer_surfaces.keys_where(settled_on(o.id)),
        (0, 0),
    );
}

/// Taking an output in leaves exactly the outputs there were, and it.
pub proof fn lemma_upserted_output_is_there(s: StateView, o: OutputView, id: OutputId)
    ensures
        lists(s.upsert_output(o).out.outputs, id) <==> lists(s.out.outputs, id) || id == o.id,
{
    let before = s.out.outputs;
    let after = s.upsert_output(o).out.outputs;
    lemma_index_lists(before, o.id);
    match output_index(before, o.id) {
        Some(i) => {
            lemma_resettled_outputs(s, o, i);
            if lists(before, id) {
                let j = choose|j: int| 0 <= j < before.len() && (#[trigger] before[j]).id == id;
                assert(after[j].id == id);
            }
            if lists(after, id) {
                let j = choose|j: int| 0 <= j < after.len() && (#[trigger] after[j]).id == id;
                assert(before[j].id == id);
            }
        },
        None => {
            if lists(before, id) {
                let j = choose|j: int| 0 <= j < before.len() && (#[trigger] before[j]).id == id;
                assert(after[j].id == id);
            }
            assert(after[before.len() as int].id == o.id);
            if lists(after, id) && id != o.id {
                let j = choose|j: int| 0 <= j < after.len() && (#[trigger] after[j]).id == id;
                assert(before[j].id == id);
            }
        },
    }
}

proof fn lemma_upsert_each(s: StateView, outputs: Seq<OutputView>, id: OutputId)
    ensures
        lists(s.upsert_each(outputs).out.outputs, id) <==> lists(s.out.outputs, id) || lists(outputs, id),
    decreases outputs.len(),
{
    if outputs.len() > 0 {
        let before = s.upsert_each(outputs.drop_last());
        lemma_upsert_each(s, outputs.drop_last(), id);
        lemma_upserted_output_is_there(before, outputs.last(), id);
        if lists(outputs.drop_last(), id) {
            let j = choose|j: int| 0 <= j < outputs.len() - 1 && (#[trigger] outputs.drop_last()[j]).id == id;
            assert(outputs[j].id == id);
        }
        if lists(outputs, id) && id != outputs.last().id {
            let j = choose|j: int| 0 <= j < outputs.len() && (#[trigger] outputs[j]).id == id;
            assert(outputs.drop_last()[j].id == id);
        }
        assert(outputs[outputs.len() - 1].id == outputs.last().id);
    }
}

proof fn lemma_close_each_out(s: StateView, keys: Seq<ClientObjectId>)
    ensures
        s.close_each(keys).out == s.out,
    decreases keys.len(),
{
    if keys.len() > 0 {
        lemma_close_each_out(s, keys.drop_last());
    }
}

/// Retiring an output leaves every other one, its name and its bindings gone.
pub proof fn lemma_retired_output_is_gone(s: StateView, gone: OutputId, id: OutputId)
    ensures
        lists(s.retire_output(gone).out.outputs, id) <==> lists(s.out.outputs, id) && id != gone,
        !s.retire_output(gone).out.output_global_names.has(gone),
        forall|k: ClientObjectId|
            #[trigger] s.retire_output(gone).out.output_bindings.has(k) ==> s.retire_output(
                gone,
            ).out.output_bindings.at(k) != gone,
{
    lemma_close_each_out(s, s.layers.layer_surfaces.keys_where(layer_on(gone)));
    let before = s.out.outputs;
    let after = s.retire_output(gone).out.outputs;
    assert(after == before.filter(not_output(gone)));
    lemma_filter_facts(before, not_output(gone));
    if lists(before, id) && id != gone {
        let j = choose|j: int| 0 <= j < before.len() && (#[trigger] before[j]).id == id;
        assert(before.contains(before[j]));
        assert(after.contains(before[j]));
        let i = choose|i: int| 0 <= i < after.len() && after[i] == before[j];
        assert(after[i].id == id);
    }
    if lists(after, id) {
        let j = choose|j: int| 0 <= j < after.len() && (#[trigger] after[j]).id == id;
        assert(after.contains(after[j]));
        assert(before.contains(after[j]));
        let i = choose|i: int| 0 <= i < before.len() && before[i] == after[j];
        assert(before[i].id == id);
    }
}

proof fn lemma_retire_each(s: StateView, ids: Seq<OutputId>, id: OutputId)
    ensures
        lists(s.retire_each(ids).out.outputs, id) <==> lists(s.out.outputs, id) && !ids.contains(id),
    decreases ids.len(),
{
    if ids.len() > 0 {
        let before = s.retire_each(ids.drop_last());
        lemma_retire_each(s, ids.drop_last(), id);
        lemma_retired_output_is_gone(before, ids.last(), id);
        if ids.contains(id) {
            let i = choose|i: int| 0 <= i < ids.len() && ids[i] == id;
            if i < ids.len() - 1 {
                assert(ids.drop_last()[i] == id);
            }
        }
        if ids.drop_last().contains(id) {
            let i = choose|i: int| 0 <= i < ids.len() - 1 && ids.drop_last()[i] == id;
            assert(ids[i] == id);
        }
        assert(ids[ids.len() - 1] == ids.last());
    }
}

proof fn lemma_missing(outputs: Seq<OutputView>, listed: Seq<OutputView>, id: OutputId)
    ensures
        missing(outputs, listed).contains(id) <==> lists(outputs, id) && !lists(listed, id),
    decreases outputs.len(),
{
    if outputs.len() > 0 {
        let before = missing(outputs.drop_last(), listed);
        let last = outputs.last().id;
        let all = missing(outputs, listed);
        lemma_missing(outputs.drop_last(), listed, id);
        if lists(outputs.drop_last(), id) {
            let j = choose|j: int| 0 <= j < outputs.len() - 1 && (#[trigger] outputs.drop_last()[j]).id == id;
            assert(outputs[j].id == id);
        }
        if lists(outputs, id) && id != last {
            let j = choose|j: int| 0 <= j < outputs.len() && (#[trigger] outputs[j]).id == id;
            assert(outputs.drop_last()[j].id == id);
        }
        assert(outputs[outputs.len() - 1].id == last);
        if !lists(listed, last) {
            if before.contains(id) {
                let j = choose|j: int| 0 <= j < before.len() && before[j] == id;
                assert(all[j] == id);
            }
            assert(all[before.len() as int] == last);
            if all.contains(id) && id != last {
                let j = choose|j: int| 0 <= j < all.len() && all[j] == id;
                assert(before[j] == id);
            }
        }
    } else {
        assert(!lists(outputs, id));
    }
}

/// Once the backend has listed its outputs, those are the outputs there are.
pub proof fn lemma_listing_is_the_whole_truth(s: StateView, listed: Seq<OutputView>, id: OutputId)
    ensures
        lists(s.outputs_listed(listed).out.outputs, id) <==> lists(listed, id),
{
    let updated = s.upsert_each(listed);
    lemma_upsert_each(s, listed, id);
    lemma_missing(updated.out.outputs, listed, id);
    lemma_retire_each(updated, missing(updated.out.outputs, listed), id);
}

/// A layer surface that has not agreed a size is neither drawn nor hit.
pub proof fn lemma_unconfigured_layer_is_absent(
    s: StateView,
    p: PaintingView,
    surface: ClientObjectId,
    layer: ClientObjectId,
    origin: (i32, i32),
    at: (i32, i32),
)
    requires
        s.layer_surface_of(surface) == Some(layer),
        !s.layers.layer_surfaces.at(layer).configured,
    ensures
        p.layer(s, surface, origin) == p,
        s.hit_one(surface, at) is None,
{
}

/// An output that is described again is as it is described, under the name it has.
/// Where the settings insist on a scale it has that one.
pub proof fn lemma_output_is_as_described(s: StateView, o: OutputView, i: int)
    requires
        output_index(s.out.outputs, o.id) == Some(i),
        0 <= i < s.out.outputs.len(),
    ensures
        ({
            let (before, after) = (s.out.outputs[i], s.upsert_output(o).out.outputs[i]);
            &&& after.id == before.id
            &&& after.name == before.name
            &&& after.geometry == o.geometry
            &&& after.modes == o.modes
            &&& after.description == o.description
            &&& after.width == o.width
            &&& after.height == o.height
            &&& s.settings.output_scale is None ==> after.scale == o.scale
            &&& s.settings.output_scale is Some ==> Some(after.scale) == s.settings.output_scale
        }),
{
    lemma_resettled_outputs(s, o, i);
}

/// When an output goes no surface is on it any more, or has been told that it is.
pub proof fn lemma_no_surface_is_on_a_gone_output(s: StateView, gone: OutputId, key: ClientObjectId)
    requires
        s.surf.surfaces.has(key),
    ensures
        ({
            let t = s.remove_output(gone);
            &&& !t.surf.surfaces.at(key).visible_on.contains(gone)
            &&& !t.surf.surfaces.at(key).entered_outputs.contains(gone)
            &&& t.dirty
        }),
{
    let on = s.surf.surfaces.at(key);
    lemma_filter_facts(on.visible_on, |x: OutputId| x != gone);
    lemma_filter_facts(on.entered_outputs, |x: OutputId| x != gone);
    lemma_set_without(on.visible_on, gone, |x: OutputId| x != gone);
    lemma_set_without(on.entered_outputs, gone, |x: OutputId| x != gone);
}

/// A panel whose output goes is told that it is closed.
pub proof fn lemma_panel_is_closed_with_its_output(s: StateView, key: ClientObjectId)
    requires
        s.clients.has(key.0),
    ensures
        s.close_each(seq![key]).clients.at(key.0).outbox.last() == MessageView::Event(
            EventView { object_id: key.1, op_code: 1, args: Seq::empty(), fds: Seq::empty() },
        ),
{
    assert(seq![key].last() == key);
    assert(seq![key].drop_last() =~= Seq::<ClientObjectId>::empty());
    assert(s.close_each(seq![key].drop_last()) == s);
}

/// When what devices there are changes, every client is told on every seat it has.
/// When it does not, nobody is told.
pub proof fn lemma_seats_hear_of_devices(s: StateView, seat: SeatState, client_id: u32)
    requires
        s.clients.has(client_id),
    ensures
        ({
            let t = s.seat_capabilities(seat);
            let seats = s.clients.at(client_id).objects.keys_where(is_seat());
            let (before, after) = (s.clients.at(client_id).outbox, t.clients.at(client_id).outbox);
            &&& t.input.seat == seat
            &&& seat == s.input.seat ==> t.clients == s.clients
            &&& seat != s.input.seat ==> {
                &&& after.len() == before.len() + seats.len()
                &&& forall|i: int|
                    0 <= i < seats.len() ==> after[before.len() + i] == MessageView::Notice(
                        Notice::SeatCapabilities { seat: #[trigger] seats[i] },
                    )
            }
        }),
{
}

/// A scene is for its output: in its scale and of its size, over the colour that is
/// set.
pub proof fn lemma_scene_is_for_its_output<S: Shell>(s: StateView, shell: S, cache: CacheView, o: OutputView, serial: u64)
    requires
        s.showing(o.id) == Some(o),
    ensures
        ({
            let scene = s.scene(shell, cache, o.id, serial);
            &&& scene.output_id == o.id
            &&& scene.serial == serial
            &&& scene.scale == o.scale
            &&& scene.size == (o.width, o.height)
            &&& scene.background == s.settings.background_color
        }),
{
}

/// An output is composed for if it is in a mode, and otherwise nothing is drawn on
/// it.
pub proof fn lemma_output_in_no_mode_is_dark<S: Shell>(s: StateView, shell: S, cache: CacheView, id: OutputId, serial: u64)
    ensures
        s.output(id) is None ==> s.scene(shell, cache, id, serial).items.len() == 0,
        s.output(id) is Some ==> {
            let modes = (s.output(id)->0).modes;
            &&& (exists|i: int| 0 <= i < modes.len() && (#[trigger] modes[i]).flags % 2 == 1) ==> s.showing(id)
                == s.output(id)
            &&& (forall|i: int| 0 <= i < modes.len() ==> (#[trigger] modes[i]).flags % 2 != 1) ==> s.scene(
                shell,
                cache,
                id,
                serial,
            ).items.len() == 0
        },
{
    if let Some(o) = s.output(id) {
        lemma_current_mode(o.modes);
    }
}

proof fn lemma_current_mode(modes: Seq<OutputMode>)
    ensures
        current_among(modes) is Some <==> exists|i: int| 0 <= i < modes.len() && (#[trigger] modes[i]).flags % 2 == 1,
    decreases modes.len(),
{
    if modes.len() > 0 {
        let rest = modes.drop_last();
        lemma_current_mode(rest);
        assert(modes[modes.len() - 1] == modes.last());
        if current_among(rest) is Some {
            let i = choose|i: int| 0 <= i < rest.len() && (#[trigger] rest[i]).flags % 2 == 1;
            assert(modes[i] == rest[i]);
        }
        if exists|i: int| 0 <= i < modes.len() && (#[trigger] modes[i]).flags % 2 == 1 {
            let i = choose|i: int| 0 <= i < modes.len() && (#[trigger] modes[i]).flags % 2 == 1;
            if i < rest.len() {
                assert(rest[i] == modes[i]);
            }
        }
    }
}

} // verus!
