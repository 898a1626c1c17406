//! Configures and the serials that name them.
use crate::protocol::wire_utils::ClientMessage;
use crate::state::compositor_state::{RECENT_INPUT_SERIALS, StateView};
use crate::state::serials::newest;
use crate::state::types::ClientObjectId;
use crate::state::xdg::MAX_PENDING_CONFIGURES;
use vstd::prelude::*;

verus! {

proof fn lemma_newest_last<A>(s: Seq<A>, x: A, most: int)
    requires
        most > 0,
    ensures
        newest(s.push(x), most).len() > 0,
        newest(s.push(x), most).last() == x,
        newest(s.push(x), most).contains(x),
        newest(s.push(x), most).len() <= most,
{
    let n = newest(s.push(x), most);
    assert(n[n.len() - 1] == x);
}

/// Every configure that is sent is recorded, so the client can acknowledge it:
/// acknowledging the latest leaves nothing to acknowledge and the surface
/// configured.
pub proof fn lemma_sent_configure_can_be_acked(s: StateView, client_id: u32, xdg: u32)
    requires
        s.win.xdg_surfaces.has((client_id, xdg)),
        s.win.xdg_surfaces.ok(),
        !s.win.xdg_surfaces.at((client_id, xdg)).pending_configures.contains(s.next_serial),
    ensures
        ({
            let sent = s.send_configure(client_id, xdg);
            let x = sent.win.xdg_surfaces.at((client_id, xdg));
            let acked = sent.xdg_acked((client_id, xdg), s.next_serial).win.xdg_surfaces.at((client_id, xdg));
            &&& sent.win.xdg_surfaces.has((client_id, xdg))
            &&& x.highest_configure == s.next_serial
            &&& x.pending_configures.last() == s.next_serial
            &&& x.pending_configures.len() <= MAX_PENDING_CONFIGURES
            &&& acked.configured
            &&& acked.pending_configures.len() == 0
        }),
{
    let key = (client_id, xdg);
    let before = s.win.xdg_surfaces.at(key).pending_configures;
    let sent = s.send_configure(client_id, xdg);
    let now = sent.win.xdg_surfaces.at(key).pending_configures;
    lemma_newest_last(before, s.next_serial, MAX_PENDING_CONFIGURES as int);
    now.index_of_first_ensures(s.next_serial);
    let i = now.index_of_first(s.next_serial)->0;
    if i < now.len() - 1 {
        let skipped = before.push(s.next_serial).len() - now.len();
        assert(now[i] == before.push(s.next_serial)[skipped + i]);
        assert(before.contains(before[skipped + i]));
    }
    assert(i == now.len() - 1);
}

/// Acknowledging one configure acknowledges every earlier one with it, and
/// leaves every later one to be acknowledged.
pub proof fn lemma_ack_takes_earlier(s: StateView, key: ClientObjectId, serial: u32, i: int)
    requires
        s.win.xdg_surfaces.has(key),
        s.win.xdg_surfaces.ok(),
        0 <= i < s.win.xdg_surfaces.at(key).pending_configures.len(),
        s.win.xdg_surfaces.at(key).pending_configures[i] == serial,
        s.win.xdg_surfaces.at(key).pending_configures.no_duplicates(),
    ensures
        s.xdg_acked(key, serial).win.xdg_surfaces.at(key).pending_configures == s.win.xdg_surfaces.at(
            key,
        ).pending_configures.skip(i + 1),
        s.xdg_acked(key, serial).win.xdg_surfaces.at(key).configured,
{
    let p = s.win.xdg_surfaces.at(key).pending_configures;
    p.index_of_first_ensures(serial);
    assert(p.contains(p[i]));
}

/// A serial newer than any sent is refused, and refusing it changes no surface.
pub proof fn lemma_unsent_ack_is_refused(s: StateView, msg: ClientMessage)
    requires
        s.clients.has(msg.client_id),
        msg.word(0) is Some,
        s.win.xdg_surfaces.has((msg.client_id, msg.object_id)),
        msg.word(0)->0 > s.win.xdg_surfaces.at((msg.client_id, msg.object_id)).highest_configure,
    ensures
        s.xdg_ack_configure(msg).win == s.win,
        s.xdg_ack_configure(msg).clients.at(msg.client_id).cancelled,
{
}

/// A serial just sent to a client is one it may quote.
pub proof fn lemma_recorded_serial_is_recent(s: StateView, client_id: u32, serial: u32)
    ensures
        s.record_input_serial(client_id, serial).recent_input_serial(client_id, serial),
        s.record_input_serial(client_id, serial).input.recent_input_serials.at(client_id).len() <= RECENT_INPUT_SERIALS,
{
    let before = if s.input.recent_input_serials.has(client_id) {
        s.input.recent_input_serials.at(client_id)
    } else {
        Seq::empty()
    };
    lemma_newest_last(before, serial, RECENT_INPUT_SERIALS as int);
}

/// A serial given to one client is none that another may quote.
pub proof fn lemma_serials_are_per_client(s: StateView, client_id: u32, serial: u32, other: u32, quoted: u32)
    requires
        other != client_id,
    ensures
        s.record_input_serial(client_id, serial).recent_input_serial(other, quoted) == s.recent_input_serial(
            other,
            quoted,
        ),
{
}

} // verus!
