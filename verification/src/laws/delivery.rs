//! Delivery: who hears of input, and what.
use crate::input::hit::HitResult;
use crate::input::scroll::{end_notices, scroll_notices, ScrollAxis};
use crate::laws::composing::fit;
use crate::protocol::messages::{MessageView, Notice, ScrollSource};
use crate::shell::Shell;
use crate::state::compositor_state::{InputsView, StateView};
use crate::state::types::ClientObjectId;
use vstd::prelude::*;

verus! {

/// What a client has been told between two states.
pub open spec fn heard(s: StateView, t: StateView, client_id: u32) -> Seq<MessageView> {
    if s.clients.has(client_id) {
        t.clients.at(client_id).outbox.skip(s.clients.at(client_id).outbox.len() as int)
    } else {
        Seq::empty()
    }
}

/// Whether nothing happened to the clients between two states but that they were
/// told things.
pub open spec fn only_told(s: StateView, t: StateView) -> bool {
    &&& t.clients.order == s.clients.order
    &&& forall|c: u32| #[trigger] t.clients.has(c) == s.clients.has(c)
    &&& forall|c: u32|
        s.clients.has(c) ==> {
            let (before, after) = (s.clients.at(c), #[trigger] t.clients.at(c));
            &&& after.outbox.len() >= before.outbox.len()
            &&& after.outbox.take(before.outbox.len() as int) == before.outbox
            &&& after.objects == before.objects
            &&& after.object_versions == before.object_versions
            &&& after.fd_queue == before.fd_queue
            &&& after.cancelled == before.cancelled
            &&& after.next_server_id == before.next_server_id
        }
}

/// Whether nobody but one client was told anything between two states.
pub open spec fn told_alone(s: StateView, t: StateView, client_id: u32) -> bool {
    &&& only_told(s, t)
    &&& forall|c: u32| c != client_id ==> (#[trigger] heard(s, t, c)).len() == 0
}

pub proof fn lemma_told_nothing(s: StateView, t: StateView)
    requires
        t.clients == s.clients,
    ensures
        only_told(s, t),
        forall|c: u32| (#[trigger] heard(s, t, c)).len() == 0,
{
    assert forall|c: u32| s.clients.has(c) implies (#[trigger] t.clients.at(c)).outbox.take(
        s.clients.at(c).outbox.len() as int,
    ) == s.clients.at(c).outbox by {
        assert(t.clients.at(c).outbox.take(s.clients.at(c).outbox.len() as int) =~= s.clients.at(c).outbox);
    }
}

/// What is heard over two steps is what is heard over the one and then the other.
pub proof fn lemma_heard_twice(s: StateView, t: StateView, u: StateView)
    requires
        only_told(s, t),
        only_told(t, u),
    ensures
        only_told(s, u),
        forall|c: u32| #[trigger] heard(s, u, c) == heard(s, t, c) + heard(t, u, c),
{
    assert forall|c: u32| #[trigger] u.clients.has(c) == s.clients.has(c) by {
        assert(t.clients.has(c) == s.clients.has(c));
    }
    assert forall|c: u32| s.clients.has(c) implies ({
        let (before, after) = (s.clients.at(c), #[trigger] u.clients.at(c));
        &&& after.outbox.len() >= before.outbox.len()
        &&& after.outbox.take(before.outbox.len() as int) == before.outbox
        &&& after.objects == before.objects
        &&& after.object_versions == before.object_versions
        &&& after.fd_queue == before.fd_queue
        &&& after.cancelled == before.cancelled
        &&& after.next_server_id == before.next_server_id
    }) by {
        assert(t.clients.has(c));
        let (a, b, d) = (s.clients.at(c).outbox, t.clients.at(c).outbox, u.clients.at(c).outbox);
        assert(d.take(a.len() as int) =~= d.take(b.len() as int).take(a.len() as int));
    }
    assert forall|c: u32| #[trigger] heard(s, u, c) == heard(s, t, c) + heard(t, u, c) by {
        assert(t.clients.has(c) == s.clients.has(c));
        if s.clients.has(c) {
            let (a, b, d) = (s.clients.at(c).outbox, t.clients.at(c).outbox, u.clients.at(c).outbox);
            assert(b == d.take(b.len() as int));
            assert(d.skip(a.len() as int) =~= b.skip(a.len() as int) + d.skip(b.len() as int));
        } else {
            assert(heard(s, u, c) =~= heard(s, t, c) + heard(t, u, c));
        }
    }
}

/// What is heard when several things are told to a client.
pub proof fn lemma_heard_all(s: StateView, client_id: u32, ms: Seq<MessageView>)
    ensures
        told_alone(s, s.tell_all(client_id, ms), client_id),
        s.clients.has(client_id) ==> heard(s, s.tell_all(client_id, ms), client_id) == ms,
        !s.clients.has(client_id) ==> heard(s, s.tell_all(client_id, ms), client_id).len() == 0,
{
    let t = s.tell_all(client_id, ms);
    assert forall|c: u32| s.clients.has(c) implies (#[trigger] t.clients.at(c)).outbox.take(
        s.clients.at(c).outbox.len() as int,
    ) == s.clients.at(c).outbox by {
        assert(t.clients.at(c).outbox.take(s.clients.at(c).outbox.len() as int) =~= s.clients.at(c).outbox);
    }
    assert forall|c: u32| c != client_id implies (#[trigger] heard(s, t, c)).len() == 0 by {}
    if s.clients.has(client_id) {
        assert(heard(s, t, client_id) =~= ms);
    }
}

pub proof fn lemma_heard_one(s: StateView, client_id: u32, m: MessageView)
    ensures
        told_alone(s, s.tell(client_id, m), client_id),
        s.clients.has(client_id) ==> heard(s, s.tell(client_id, m), client_id) == seq![m],
        !s.clients.has(client_id) ==> heard(s, s.tell(client_id, m), client_id).len() == 0,
{
    lemma_heard_all(s, client_id, seq![m]);
    let (t, u) = (s.tell(client_id, m), s.tell_all(client_id, seq![m]));
    if s.clients.has(client_id) {
        assert(s.clients.at(client_id).outbox.push(m) =~= s.clients.at(client_id).outbox + seq![m]);
    }
    assert(t.clients =~= u.clients);
}

/// Whether some indices are those of a client's among the first few pointers, in order.
pub open spec fn whose_pointers(s: StateView, client_id: u32, n: nat, who: Seq<int>) -> bool {
    &&& forall|i: int| #[trigger] who.contains(i) <==> 0 <= i < n && s.input.pointers[i].client_id == client_id
    &&& rising(who)
}

/// Whether some indices are those of a client's among the first few touches, in order.
pub open spec fn whose_touches(s: StateView, client_id: u32, n: nat, who: Seq<int>) -> bool {
    &&& forall|i: int| #[trigger] who.contains(i) <==> 0 <= i < n && s.input.touches[i].client_id == client_id
    &&& rising(who)
}

/// Whether some indices are those of a client's among the first few keyboards, in order.
pub open spec fn whose_keyboards(s: StateView, client_id: u32, n: nat, who: Seq<int>) -> bool {
    &&& forall|i: int| #[trigger] who.contains(i) <==> 0 <= i < n && s.input.keyboards[i].client_id == client_id
    &&& rising(who)
}

pub proof fn lemma_told_none(s: StateView, client_id: u32)
    ensures
        s.tell_all(client_id, Seq::empty()).clients == s.clients,
{
    if s.clients.has(client_id) {
        let c = s.clients.at(client_id);
        assert(c.outbox + Seq::<MessageView>::empty() =~= c.outbox);
    }
    assert(s.tell_all(client_id, Seq::empty()).clients =~= s.clients);
}

/// Whether some indices rise.
pub open spec fn rising(who: Seq<int>) -> bool {
    forall|i: int, j: int| #![trigger who[i], who[j]] 0 <= i < j < who.len() ==> who[i] < who[j]
}

proof fn lemma_one_more(who: Seq<int>, x: int)
    requires
        rising(who),
        forall|i: int| #[trigger] who.contains(i) ==> i < x,
    ensures
        forall|i: int| #[trigger] who.push(x).contains(i) <==> who.contains(i) || i == x,
        rising(who.push(x)),
{
    assert forall|i: int, j: int|
        #![trigger who.push(x)[i], who.push(x)[j]]
        0 <= i < j < who.len() + 1 implies who.push(x)[i] < who.push(x)[j] by {
        assert(who.contains(who[i]));
        if j < who.len() {
            assert(who[i] < who[j]);
        }
    }
    assert forall|i: int| #[trigger] who.push(x).contains(i) <==> who.contains(i) || i == x by {
        if who.contains(i) {
            let j = who.index_of(i);
            assert(who.push(x)[j] == i);
        }
        if i == x {
            assert(who.push(x)[who.len() as int] == i);
        }
        if who.push(x).contains(i) && i != x {
            let j = who.push(x).index_of(i);
            assert(who[j] == i);
        }
    }
}

proof fn lemma_told_two_more(
    s: StateView,
    t: StateView,
    u: StateView,
    client_id: u32,
    ms: Seq<MessageView>,
    a: MessageView,
    b: MessageView,
)
    requires
        t.clients == s.tell_all(client_id, ms).clients,
        u.clients == t.tell(client_id, a).tell(client_id, b).clients,
    ensures
        u.clients == s.tell_all(client_id, ms + seq![a, b]).clients,
{
    if s.clients.has(client_id) {
        let before = s.clients.at(client_id).outbox;
        assert((before + ms).push(a).push(b) =~= before + (ms + seq![a, b]));
    }
    assert(u.clients =~= s.tell_all(client_id, ms + seq![a, b]).clients);
}

/// Whether nothing changed between two states but what clients have been told,
/// the serials handed out and the last press of a client.
pub open spec fn same_but_clicked(s: StateView, t: StateView) -> bool {
    t == (StateView {
        clients: t.clients,
        next_serial: t.next_serial,
        input: InputsView { last_button_serial: t.input.last_button_serial, ..s.input },
        ..s
    })
}

/// Whether nothing changed between two states but what clients have been told and
/// the serials handed out.
pub open spec fn same_but_told(s: StateView, t: StateView) -> bool {
    t == (StateView { clients: t.clients, next_serial: t.next_serial, ..s })
}

/// What an object of a client is told of a button.
pub open spec fn button_notice(serial: u32, time: u32, pointer: u32, button: u32, pressed: bool) -> Notice {
    Notice::PointerButton { serial, time, pointer, button, pressed }
}

/// Whether a message tells an object of a client of a button.
pub open spec fn tells_clicked(m: MessageView, pointer: u32, time: u32, button: u32, pressed: bool) -> bool {
    exists|serial: u32| m == MessageView::Notice(#[trigger] button_notice(serial, time, pointer, button, pressed))
}

/// Whether what a client is told is of a button, on each of its objects in turn.
pub open spec fn clicked_told(s: StateView, news: Seq<MessageView>, who: Seq<int>, client_id: u32, time: u32, button: u32, pressed: bool) -> bool {
    &&& news.len() == 2 * who.len()
    &&& forall|j: int|
        0 <= j < who.len() ==> {
            let b = s.input.pointers[#[trigger] who[j]].object_id;
            &&& tells_clicked(news[2 * j], b, time, button, pressed)
            &&& news[2 * j + 1] == MessageView::Notice(Notice::PointerFrame { pointer: b })
        }
}

proof fn lemma_clicked(s: StateView, client_id: u32, time: u32, button: u32, pressed: bool, n: nat) -> (r: (Seq<MessageView>, Seq<int>))
    requires
        n <= s.input.pointers.len(),
    ensures
        ({
            let t = s.pointers_clicked(client_id, time, button, pressed, n);
            &&& t.clients == s.tell_all(client_id, r.0).clients
            &&& same_but_clicked(s, t)
            &&& clicked_told(s, r.0, r.1, client_id, time, button, pressed)
            &&& whose_pointers(s, client_id, n, r.1)
        }),
    decreases n,
{
    if n == 0 {
        lemma_told_none(s, client_id);
        (Seq::empty(), Seq::empty())
    } else {
        let (ms, who) = lemma_clicked(s, client_id, time, button, pressed, (n - 1) as nat);
        let t = s.pointers_clicked(client_id, time, button, pressed, (n - 1) as nat);
        let u = s.pointers_clicked(client_id, time, button, pressed, n);
        let c = client_id;
        let b = s.input.pointers[n - 1].object_id;
        if s.input.pointers[n - 1].client_id == c {
            let main = MessageView::Notice(button_notice(t.next_serial, time, b, button, pressed));
            let frame = MessageView::Notice(Notice::PointerFrame { pointer: b });
            let all = ms + seq![main, frame];
            let whom = who.push(n - 1);
            lemma_told_two_more(s, t, u, c, ms, main, frame);
            assert(tells_clicked(main, b, time, button, pressed));
            assert forall|j: int| 0 <= j < whom.len() implies ({
                let b = s.input.pointers[#[trigger] whom[j]].object_id;
                &&& tells_clicked(all[2 * j], b, time, button, pressed)
                &&& all[2 * j + 1] == MessageView::Notice(Notice::PointerFrame { pointer: b })
            }) by {
                if j < who.len() {
                    assert(whom[j] == who[j]);
                    assert(all[2 * j] == ms[2 * j] && all[2 * j + 1] == ms[2 * j + 1]);
                } else {
                    assert(all[2 * j] == main && all[2 * j + 1] == frame);
                }
            }
            lemma_one_more(who, n - 1);
            (all, whom)
        } else {
            (ms, who)
        }
    }
}

/// What an object of a client is told that the pointer is on a surface.
pub open spec fn enter_notice(serial: u32, pointer: u32, hit: HitResult) -> Notice {
    Notice::PointerEnter { serial, pointer, surface: hit.surface.1, x: hit.surface_x, y: hit.surface_y }
}

/// Whether a message tells an object of a client that the pointer is on a surface.
pub open spec fn tells_entered(m: MessageView, pointer: u32, hit: HitResult) -> bool {
    exists|serial: u32| m == MessageView::Notice(#[trigger] enter_notice(serial, pointer, hit))
}

/// Whether what a client is told is that the pointer is on a surface, on each of its objects in turn.
pub open spec fn entered_told(s: StateView, news: Seq<MessageView>, who: Seq<int>, hit: HitResult) -> bool {
    &&& news.len() == 2 * who.len()
    &&& forall|j: int|
        0 <= j < who.len() ==> {
            let b = s.input.pointers[#[trigger] who[j]].object_id;
            &&& tells_entered(news[2 * j], b, hit)
            &&& news[2 * j + 1] == MessageView::Notice(Notice::PointerFrame { pointer: b })
        }
}

proof fn lemma_entered(s: StateView, hit: HitResult, n: nat) -> (r: (Seq<MessageView>, Seq<int>))
    requires
        n <= s.input.pointers.len(),
    ensures
        ({
            let t = s.pointers_entered(hit, n);
            &&& t.clients == s.tell_all(hit.surface.0, r.0).clients
            &&& same_but_told(s, t)
            &&& entered_told(s, r.0, r.1, hit)
            &&& whose_pointers(s, hit.surface.0, n, r.1)
        }),
    decreases n,
{
    if n == 0 {
        lemma_told_none(s, hit.surface.0);
        (Seq::empty(), Seq::empty())
    } else {
        let (ms, who) = lemma_entered(s, hit, (n - 1) as nat);
        let t = s.pointers_entered(hit, (n - 1) as nat);
        let u = s.pointers_entered(hit, n);
        let c = hit.surface.0;
        let b = s.input.pointers[n - 1].object_id;
        if s.input.pointers[n - 1].client_id == c {
            let main = MessageView::Notice(enter_notice(t.next_serial, b, hit));
            let frame = MessageView::Notice(Notice::PointerFrame { pointer: b });
            let all = ms + seq![main, frame];
            let whom = who.push(n - 1);
            lemma_told_two_more(s, t, u, c, ms, main, frame);
            assert(tells_entered(main, b, hit));
            assert forall|j: int| 0 <= j < whom.len() implies ({
                let b = s.input.pointers[#[trigger] whom[j]].object_id;
                &&& tells_entered(all[2 * j], b, hit)
                &&& all[2 * j + 1] == MessageView::Notice(Notice::PointerFrame { pointer: b })
            }) by {
                if j < who.len() {
                    assert(whom[j] == who[j]);
                    assert(all[2 * j] == ms[2 * j] && all[2 * j + 1] == ms[2 * j + 1]);
                } else {
                    assert(all[2 * j] == main && all[2 * j + 1] == frame);
                }
            }
            lemma_one_more(who, n - 1);
            (all, whom)
        } else {
            (ms, who)
        }
    }
}

/// Whether a message tells an object of a client where the pointer is.
pub open spec fn tells_moved(m: MessageView, pointer: u32, hit: HitResult, time: u32) -> bool {
    m == MessageView::Notice(Notice::PointerMotion { time, pointer, x: hit.surface_x, y: hit.surface_y })
}

/// Whether what a client is told is where the pointer is, on each of its objects in turn.
pub open spec fn moved_told(s: StateView, news: Seq<MessageView>, who: Seq<int>, hit: HitResult, time: u32) -> bool {
    &&& news.len() == 2 * who.len()
    &&& forall|j: int|
        0 <= j < who.len() ==> {
            let b = s.input.pointers[#[trigger] who[j]].object_id;
            &&& tells_moved(news[2 * j], b, hit, time)
            &&& news[2 * j + 1] == MessageView::Notice(Notice::PointerFrame { pointer: b })
        }
}

proof fn lemma_moved(s: StateView, hit: HitResult, time: u32, n: nat) -> (r: (Seq<MessageView>, Seq<int>))
    requires
        n <= s.input.pointers.len(),
    ensures
        ({
            let t = s.pointers_moved(hit, time, n);
            &&& t.clients == s.tell_all(hit.surface.0, r.0).clients
            &&& same_but_told(s, t)
            &&& moved_told(s, r.0, r.1, hit, time)
            &&& whose_pointers(s, hit.surface.0, n, r.1)
        }),
    decreases n,
{
    if n == 0 {
        lemma_told_none(s, hit.surface.0);
        (Seq::empty(), Seq::empty())
    } else {
        let (ms, who) = lemma_moved(s, hit, time, (n - 1) as nat);
        let t = s.pointers_moved(hit, time, (n - 1) as nat);
        let u = s.pointers_moved(hit, time, n);
        let c = hit.surface.0;
        let b = s.input.pointers[n - 1].object_id;
        if s.input.pointers[n - 1].client_id == c {
            let main = MessageView::Notice(Notice::PointerMotion { time, pointer: b, x: hit.surface_x, y: hit.surface_y });
            let frame = MessageView::Notice(Notice::PointerFrame { pointer: b });
            let all = ms + seq![main, frame];
            let whom = who.push(n - 1);
            lemma_told_two_more(s, t, u, c, ms, main, frame);
            assert(tells_moved(main, b, hit, time));
            assert forall|j: int| 0 <= j < whom.len() implies ({
                let b = s.input.pointers[#[trigger] whom[j]].object_id;
                &&& tells_moved(all[2 * j], b, hit, time)
                &&& all[2 * j + 1] == MessageView::Notice(Notice::PointerFrame { pointer: b })
            }) by {
                if j < who.len() {
                    assert(whom[j] == who[j]);
                    assert(all[2 * j] == ms[2 * j] && all[2 * j + 1] == ms[2 * j + 1]);
                } else {
                    assert(all[2 * j] == main && all[2 * j + 1] == frame);
                }
            }
            lemma_one_more(who, n - 1);
            (all, whom)
        } else {
            (ms, who)
        }
    }
}

/// What an object of a client is told that the pointer has left a surface.
pub open spec fn leave_notice(serial: u32, pointer: u32, surface: ClientObjectId) -> Notice {
    Notice::PointerLeave { serial, pointer, surface: surface.1 }
}

/// Whether a message tells an object of a client that the pointer has left a surface.
pub open spec fn tells_left(m: MessageView, pointer: u32, surface: ClientObjectId) -> bool {
    exists|serial: u32| m == MessageView::Notice(#[trigger] leave_notice(serial, pointer, surface))
}

/// Whether what a client is told is that the pointer has left a surface, on each of its objects in turn.
pub open spec fn left_told(s: StateView, news: Seq<MessageView>, who: Seq<int>, surface: ClientObjectId) -> bool {
    &&& news.len() == 2 * who.len()
    &&& forall|j: int|
        0 <= j < who.len() ==> {
            let b = s.input.pointers[#[trigger] who[j]].object_id;
            &&& tells_left(news[2 * j], b, surface)
            &&& news[2 * j + 1] == MessageView::Notice(Notice::PointerFrame { pointer: b })
        }
}

proof fn lemma_left(s: StateView, surface: ClientObjectId, n: nat) -> (r: (Seq<MessageView>, Seq<int>))
    requires
        n <= s.input.pointers.len(),
    ensures
        ({
            let t = s.pointers_left(surface, n);
            &&& t.clients == s.tell_all(surface.0, r.0).clients
            &&& same_but_told(s, t)
            &&& left_told(s, r.0, r.1, surface)
            &&& whose_pointers(s, surface.0, n, r.1)
        }),
    decreases n,
{
    if n == 0 {
        lemma_told_none(s, surface.0);
        (Seq::empty(), Seq::empty())
    } else {
        let (ms, who) = lemma_left(s, surface, (n - 1) as nat);
        let t = s.pointers_left(surface, (n - 1) as nat);
        let u = s.pointers_left(surface, n);
        let c = surface.0;
        let b = s.input.pointers[n - 1].object_id;
        if s.input.pointers[n - 1].client_id == c {
            let main = MessageView::Notice(leave_notice(t.next_serial, b, surface));
            let frame = MessageView::Notice(Notice::PointerFrame { pointer: b });
            let all = ms + seq![main, frame];
            let whom = who.push(n - 1);
            lemma_told_two_more(s, t, u, c, ms, main, frame);
            assert(tells_left(main, b, surface));
            assert forall|j: int| 0 <= j < whom.len() implies ({
                let b = s.input.pointers[#[trigger] whom[j]].object_id;
                &&& tells_left(all[2 * j], b, surface)
                &&& all[2 * j + 1] == MessageView::Notice(Notice::PointerFrame { pointer: b })
            }) by {
                if j < who.len() {
                    assert(whom[j] == who[j]);
                    assert(all[2 * j] == ms[2 * j] && all[2 * j + 1] == ms[2 * j + 1]);
                } else {
                    assert(all[2 * j] == main && all[2 * j + 1] == frame);
                }
            }
            lemma_one_more(who, n - 1);
            (all, whom)
        } else {
            (ms, who)
        }
    }
}

/// What an object of a client is told that a finger has landed.
pub open spec fn down_notice(serial: u32, touch: u32, hit: HitResult, time: u32, id: i32) -> Notice {
    Notice::TouchDown { serial, time, touch, surface: hit.surface.1, id, x: hit.surface_x, y: hit.surface_y }
}

/// Whether a message tells an object of a client that a finger has landed.
pub open spec fn tells_landed(m: MessageView, touch: u32, hit: HitResult, time: u32, id: i32) -> bool {
    exists|serial: u32| m == MessageView::Notice(#[trigger] down_notice(serial, touch, hit, time, id))
}

/// Whether what a client is told is that a finger has landed, on each of its objects in turn.
pub open spec fn landed_told(s: StateView, news: Seq<MessageView>, who: Seq<int>, hit: HitResult, time: u32, id: i32) -> bool {
    &&& news.len() == 2 * who.len()
    &&& forall|j: int|
        0 <= j < who.len() ==> {
            let b = s.input.touches[#[trigger] who[j]].object_id;
            &&& tells_landed(news[2 * j], b, hit, time, id)
            &&& news[2 * j + 1] == MessageView::Notice(Notice::TouchFrame { touch: b })
        }
}

proof fn lemma_landed(s: StateView, hit: HitResult, time: u32, id: i32, n: nat) -> (r: (Seq<MessageView>, Seq<int>))
    requires
        n <= s.input.touches.len(),
    ensures
        ({
            let t = s.touches_down(hit, time, id, n);
            &&& t.clients == s.tell_all(hit.surface.0, r.0).clients
            &&& same_but_told(s, t)
            &&& landed_told(s, r.0, r.1, hit, time, id)
            &&& whose_touches(s, hit.surface.0, n, r.1)
        }),
    decreases n,
{
    if n == 0 {
        lemma_told_none(s, hit.surface.0);
        (Seq::empty(), Seq::empty())
    } else {
        let (ms, who) = lemma_landed(s, hit, time, id, (n - 1) as nat);
        let t = s.touches_down(hit, time, id, (n - 1) as nat);
        let u = s.touches_down(hit, time, id, n);
        let c = hit.surface.0;
        let b = s.input.touches[n - 1].object_id;
        if s.input.touches[n - 1].client_id == c {
            let main = MessageView::Notice(down_notice(t.next_serial, b, hit, time, id));
            let frame = MessageView::Notice(Notice::TouchFrame { touch: b });
            let all = ms + seq![main, frame];
            let whom = who.push(n - 1);
            lemma_told_two_more(s, t, u, c, ms, main, frame);
            assert(tells_landed(main, b, hit, time, id));
            assert forall|j: int| 0 <= j < whom.len() implies ({
                let b = s.input.touches[#[trigger] whom[j]].object_id;
                &&& tells_landed(all[2 * j], b, hit, time, id)
                &&& all[2 * j + 1] == MessageView::Notice(Notice::TouchFrame { touch: b })
            }) by {
                if j < who.len() {
                    assert(whom[j] == who[j]);
                    assert(all[2 * j] == ms[2 * j] && all[2 * j + 1] == ms[2 * j + 1]);
                } else {
                    assert(all[2 * j] == main && all[2 * j + 1] == frame);
                }
            }
            lemma_one_more(who, n - 1);
            (all, whom)
        } else {
            (ms, who)
        }
    }
}

/// Whether a message tells an object of a client where a finger is.
pub open spec fn tells_dragged(m: MessageView, touch: u32, at: (i32, i32), time: u32, id: i32) -> bool {
    m == MessageView::Notice(Notice::TouchMotion { time, touch, id, x: at.0, y: at.1 })
}

/// Whether what a client is told is where a finger is, on each of its objects in turn.
pub open spec fn dragged_told(s: StateView, news: Seq<MessageView>, who: Seq<int>, client_id: u32, at: (i32, i32), time: u32, id: i32) -> bool {
    &&& news.len() == 2 * who.len()
    &&& forall|j: int|
        0 <= j < who.len() ==> {
            let b = s.input.touches[#[trigger] who[j]].object_id;
            &&& tells_dragged(news[2 * j], b, at, time, id)
            &&& news[2 * j + 1] == MessageView::Notice(Notice::TouchFrame { touch: b })
        }
}

proof fn lemma_dragged(s: StateView, client_id: u32, at: (i32, i32), time: u32, id: i32, n: nat) -> (r: (Seq<MessageView>, Seq<int>))
    requires
        n <= s.input.touches.len(),
    ensures
        ({
            let t = s.touches_moved(client_id, at, time, id, n);
            &&& t.clients == s.tell_all(client_id, r.0).clients
            &&& same_but_told(s, t)
            &&& dragged_told(s, r.0, r.1, client_id, at, time, id)
            &&& whose_touches(s, client_id, n, r.1)
        }),
    decreases n,
{
    if n == 0 {
        lemma_told_none(s, client_id);
        (Seq::empty(), Seq::empty())
    } else {
        let (ms, who) = lemma_dragged(s, client_id, at, time, id, (n - 1) as nat);
        let t = s.touches_moved(client_id, at, time, id, (n - 1) as nat);
        let u = s.touches_moved(client_id, at, time, id, n);
        let c = client_id;
        let b = s.input.touches[n - 1].object_id;
        if s.input.touches[n - 1].client_id == c {
            let main = MessageView::Notice(Notice::TouchMotion { time, touch: b, id, x: at.0, y: at.1 });
            let frame = MessageView::Notice(Notice::TouchFrame { touch: b });
            let all = ms + seq![main, frame];
            let whom = who.push(n - 1);
            lemma_told_two_more(s, t, u, c, ms, main, frame);
            assert(tells_dragged(main, b, at, time, id));
            assert forall|j: int| 0 <= j < whom.len() implies ({
                let b = s.input.touches[#[trigger] whom[j]].object_id;
                &&& tells_dragged(all[2 * j], b, at, time, id)
                &&& all[2 * j + 1] == MessageView::Notice(Notice::TouchFrame { touch: b })
            }) by {
                if j < who.len() {
                    assert(whom[j] == who[j]);
                    assert(all[2 * j] == ms[2 * j] && all[2 * j + 1] == ms[2 * j + 1]);
                } else {
                    assert(all[2 * j] == main && all[2 * j + 1] == frame);
                }
            }
            lemma_one_more(who, n - 1);
            (all, whom)
        } else {
            (ms, who)
        }
    }
}

/// What an object of a client is told that a finger is lifted.
pub open spec fn up_notice(serial: u32, touch: u32, time: u32, id: i32) -> Notice {
    Notice::TouchUp { serial, time, touch, id }
}

/// Whether a message tells an object of a client that a finger is lifted.
pub open spec fn tells_lifted(m: MessageView, touch: u32, time: u32, id: i32) -> bool {
    exists|serial: u32| m == MessageView::Notice(#[trigger] up_notice(serial, touch, time, id))
}

/// Whether what a client is told is that a finger is lifted, on each of its objects in turn.
pub open spec fn lifted_told(s: StateView, news: Seq<MessageView>, who: Seq<int>, client_id: u32, time: u32, id: i32) -> bool {
    &&& news.len() == 2 * who.len()
    &&& forall|j: int|
        0 <= j < who.len() ==> {
            let b = s.input.touches[#[trigger] who[j]].object_id;
            &&& tells_lifted(news[2 * j], b, time, id)
            &&& news[2 * j + 1] == MessageView::Notice(Notice::TouchFrame { touch: b })
        }
}

proof fn lemma_lifted(s: StateView, client_id: u32, time: u32, id: i32, n: nat) -> (r: (Seq<MessageView>, Seq<int>))
    requires
        n <= s.input.touches.len(),
    ensures
        ({
            let t = s.touches_up(client_id, time, id, n);
            &&& t.clients == s.tell_all(client_id, r.0).clients
            &&& same_but_told(s, t)
            &&& lifted_told(s, r.0, r.1, client_id, time, id)
            &&& whose_touches(s, client_id, n, r.1)
        }),
    decreases n,
{
    if n == 0 {
        lemma_told_none(s, client_id);
        (Seq::empty(), Seq::empty())
    } else {
        let (ms, who) = lemma_lifted(s, client_id, time, id, (n - 1) as nat);
        let t = s.touches_up(client_id, time, id, (n - 1) as nat);
        let u = s.touches_up(client_id, time, id, n);
        let c = client_id;
        let b = s.input.touches[n - 1].object_id;
        if s.input.touches[n - 1].client_id == c {
            let main = MessageView::Notice(up_notice(t.next_serial, b, time, id));
            let frame = MessageView::Notice(Notice::TouchFrame { touch: b });
            let all = ms + seq![main, frame];
            let whom = who.push(n - 1);
            lemma_told_two_more(s, t, u, c, ms, main, frame);
            assert(tells_lifted(main, b, time, id));
            assert forall|j: int| 0 <= j < whom.len() implies ({
                let b = s.input.touches[#[trigger] whom[j]].object_id;
                &&& tells_lifted(all[2 * j], b, time, id)
                &&& all[2 * j + 1] == MessageView::Notice(Notice::TouchFrame { touch: b })
            }) by {
                if j < who.len() {
                    assert(whom[j] == who[j]);
                    assert(all[2 * j] == ms[2 * j] && all[2 * j + 1] == ms[2 * j + 1]);
                } else {
                    assert(all[2 * j] == main && all[2 * j + 1] == frame);
                }
            }
            lemma_one_more(who, n - 1);
            (all, whom)
        } else {
            (ms, who)
        }
    }
}

/// Whether a message tells a keyboard that the focus is on a surface.
pub open spec fn tells_focus(m: MessageView, keyboard: u32, surface: u32) -> bool {
    match m {
        MessageView::Notice(Notice::KeyboardEnter { serial, keyboard: k, surface: s }) => k == keyboard && s == surface,
        _ => false,
    }
}

/// Whether a message tells a keyboard that the focus has left a surface.
pub open spec fn tells_no_focus(m: MessageView, keyboard: u32, surface: u32) -> bool {
    match m {
        MessageView::Notice(Notice::KeyboardLeave { serial, keyboard: k, surface: s }) => k == keyboard && s == surface,
        _ => false,
    }
}

/// Whether a message tells a keyboard what the modifiers are.
pub open spec fn tells_modifiers(m: MessageView, keyboard: u32) -> bool {
    match m {
        MessageView::Notice(Notice::KeyboardModifiers { serial, keyboard: k }) => k == keyboard,
        _ => false,
    }
}

/// Whether a message tells a keyboard of a key.
pub open spec fn tells_key(m: MessageView, keyboard: u32, time: u32, key: u32, pressed: bool) -> bool {
    match m {
        MessageView::Notice(Notice::KeyboardKey { serial, time: t, keyboard: k, key: y, pressed: p }) => k == keyboard
            && t == time && y == key && p == pressed,
        _ => false,
    }
}

/// Whether what a client is told is that the focus is on a surface and what the
/// modifiers are, on each of its keyboards in turn.
pub open spec fn focus_told(s: StateView, news: Seq<MessageView>, who: Seq<int>, surface: u32) -> bool {
    &&& news.len() == 2 * who.len()
    &&& forall|j: int|
        0 <= j < who.len() ==> {
            let b = s.input.keyboards[#[trigger] who[j]].object_id;
            &&& tells_focus(news[2 * j], b, surface)
            &&& tells_modifiers(news[2 * j + 1], b)
        }
}

/// Whether what a client is told is that the focus has left a surface, on each of
/// its keyboards in turn.
pub open spec fn no_focus_told(s: StateView, news: Seq<MessageView>, who: Seq<int>, surface: u32) -> bool {
    &&& news.len() == who.len()
    &&& forall|j: int|
        0 <= j < who.len() ==> tells_no_focus(
            news[j],
            s.input.keyboards[#[trigger] who[j]].object_id,
            surface,
        )
}

/// Whether what a client is told is of a key, on each of its keyboards in turn,
/// and what the modifiers are before it if they have changed.
pub open spec fn key_told(
    s: StateView,
    news: Seq<MessageView>,
    who: Seq<int>,
    time: u32,
    key: u32,
    pressed: bool,
    modifiers_changed: bool,
) -> bool {
    if modifiers_changed {
        &&& news.len() == 2 * who.len()
        &&& forall|j: int|
            0 <= j < who.len() ==> {
                let b = s.input.keyboards[#[trigger] who[j]].object_id;
                &&& tells_modifiers(news[2 * j], b)
                &&& tells_key(news[2 * j + 1], b, time, key, pressed)
            }
    } else {
        &&& news.len() == who.len()
        &&& forall|j: int|
            0 <= j < who.len() ==> tells_key(
                news[j],
                s.input.keyboards[#[trigger] who[j]].object_id,
                time,
                key,
                pressed,
            )
    }
}

proof fn lemma_told_one_more(
    s: StateView,
    t: StateView,
    u: StateView,
    client_id: u32,
    ms: Seq<MessageView>,
    a: MessageView,
)
    requires
        t.clients == s.tell_all(client_id, ms).clients,
        u.clients == t.tell(client_id, a).clients,
    ensures
        u.clients == s.tell_all(client_id, ms.push(a)).clients,
{
    if s.clients.has(client_id) {
        let before = s.clients.at(client_id).outbox;
        assert((before + ms).push(a) =~= before + ms.push(a));
    }
    assert(u.clients =~= s.tell_all(client_id, ms.push(a)).clients);
}

proof fn lemma_focused(s: StateView, surface: ClientObjectId, n: nat) -> (r: (Seq<MessageView>, Seq<int>))
    requires
        n <= s.input.keyboards.len(),
    ensures
        ({
            let t = s.keyboards_entered(surface, n);
            &&& t.clients == s.tell_all(surface.0, r.0).clients
            &&& same_but_told(s, t)
            &&& focus_told(s, r.0, r.1, surface.1)
            &&& whose_keyboards(s, surface.0, n, r.1)
        }),
    decreases n,
{
    if n == 0 {
        lemma_told_none(s, surface.0);
        (Seq::empty(), Seq::empty())
    } else {
        let (ms, who) = lemma_focused(s, surface, (n - 1) as nat);
        let t = s.keyboards_entered(surface, (n - 1) as nat);
        let u = s.keyboards_entered(surface, n);
        let c = surface.0;
        let b = s.input.keyboards[n - 1].object_id;
        if s.input.keyboards[n - 1].client_id == c {
            let whom = who.push(n - 1);
            lemma_one_more(who, n - 1);
            let first = MessageView::Notice(Notice::KeyboardEnter { serial: t.next_serial, keyboard: b, surface: surface.1 });
            let next = MessageView::Notice(Notice::KeyboardModifiers { serial: t.serial_taken().next_serial, keyboard: b });
            let all = ms + seq![first, next];
            lemma_told_two_more(s, t, u, c, ms, first, next);
            assert forall|j: int| 0 <= j < whom.len() implies ({
                let b = s.input.keyboards[#[trigger] whom[j]].object_id;
                &&& tells_focus(all[2 * j], b, surface.1)
                &&& tells_modifiers(all[2 * j + 1], b)
            }) by {
                if j < who.len() {
                    assert(whom[j] == who[j]);
                    assert(all[2 * j] == ms[2 * j] && all[2 * j + 1] == ms[2 * j + 1]);
                } else {
                    assert(all[2 * j] == first && all[2 * j + 1] == next);
                }
            }
            (all, whom)
        } else {
            (ms, who)
        }
    }
}

proof fn lemma_unfocused(s: StateView, surface: ClientObjectId, n: nat) -> (r: (Seq<MessageView>, Seq<int>))
    requires
        n <= s.input.keyboards.len(),
    ensures
        ({
            let t = s.keyboards_left(surface, n);
            &&& t.clients == s.tell_all(surface.0, r.0).clients
            &&& same_but_told(s, t)
            &&& no_focus_told(s, r.0, r.1, surface.1)
            &&& whose_keyboards(s, surface.0, n, r.1)
        }),
    decreases n,
{
    if n == 0 {
        lemma_told_none(s, surface.0);
        (Seq::empty(), Seq::empty())
    } else {
        let (ms, who) = lemma_unfocused(s, surface, (n - 1) as nat);
        let t = s.keyboards_left(surface, (n - 1) as nat);
        let u = s.keyboards_left(surface, n);
        let c = surface.0;
        let b = s.input.keyboards[n - 1].object_id;
        if s.input.keyboards[n - 1].client_id == c {
            let whom = who.push(n - 1);
            lemma_one_more(who, n - 1);
            let first = MessageView::Notice(Notice::KeyboardLeave { serial: t.next_serial, keyboard: b, surface: surface.1 });
            let all = ms.push(first);
            lemma_told_one_more(s, t, u, c, ms, first);
            assert forall|j: int| 0 <= j < whom.len() implies tells_no_focus(all[j], s.input.keyboards[#[trigger] whom[j]].object_id, surface.1) by {
                if j < who.len() {
                    assert(whom[j] == who[j]);
                }
            }
            (all, whom)
        } else {
            (ms, who)
        }
    }
}

proof fn lemma_keyed(s: StateView, client_id: u32, time: u32, key: u32, pressed: bool, modifiers_changed: bool, n: nat) -> (r: (Seq<MessageView>, Seq<int>))
    requires
        n <= s.input.keyboards.len(),
    ensures
        ({
            let t = s.keyboards_told(client_id, time, key, pressed, modifiers_changed, n);
            &&& t.clients == s.tell_all(client_id, r.0).clients
            &&& same_but_told(s, t)
            &&& key_told(s, r.0, r.1, time, key, pressed, modifiers_changed)
            &&& whose_keyboards(s, client_id, n, r.1)
        }),
    decreases n,
{
    if n == 0 {
        lemma_told_none(s, client_id);
        (Seq::empty(), Seq::empty())
    } else {
        let (ms, who) = lemma_keyed(s, client_id, time, key, pressed, modifiers_changed, (n - 1) as nat);
        let t = s.keyboards_told(client_id, time, key, pressed, modifiers_changed, (n - 1) as nat);
        let u = s.keyboards_told(client_id, time, key, pressed, modifiers_changed, n);
        let c = client_id;
        let b = s.input.keyboards[n - 1].object_id;
        if s.input.keyboards[n - 1].client_id == c {
            let whom = who.push(n - 1);
            lemma_one_more(who, n - 1);
            if modifiers_changed {
                let first = MessageView::Notice(Notice::KeyboardModifiers { serial: t.next_serial, keyboard: b });
                let next = MessageView::Notice(Notice::KeyboardKey { serial: t.serial_taken().next_serial, time, keyboard: b, key, pressed });
                let all = ms + seq![first, next];
                lemma_told_two_more(s, t, u, c, ms, first, next);
                assert forall|j: int| 0 <= j < whom.len() implies ({
                    let b = s.input.keyboards[#[trigger] whom[j]].object_id;
                    &&& tells_modifiers(all[2 * j], b)
                    &&& tells_key(all[2 * j + 1], b, time, key, pressed)
                }) by {
                    if j < who.len() {
                        assert(whom[j] == who[j]);
                        assert(all[2 * j] == ms[2 * j] && all[2 * j + 1] == ms[2 * j + 1]);
                    } else {
                        assert(all[2 * j] == first && all[2 * j + 1] == next);
                    }
                }
                (all, whom)
            } else {
                let first = MessageView::Notice(Notice::KeyboardKey { serial: t.next_serial, time, keyboard: b, key, pressed });
                let all = ms.push(first);
                lemma_told_one_more(s, t, u, c, ms, first);
                assert forall|j: int| 0 <= j < whom.len() implies tells_key(all[j], s.input.keyboards[#[trigger] whom[j]].object_id, time, key, pressed) by {
                    if j < who.len() {
                        assert(whom[j] == who[j]);
                    }
                }
                (all, whom)
            }
        } else {
            (ms, who)
        }
    }
}

/// What is told to one after another.
pub open spec fn in_turn(who: Seq<int>, what: spec_fn(int) -> Seq<MessageView>) -> Seq<MessageView>
    decreases who.len(),
{
    if who.len() == 0 {
        Seq::empty()
    } else {
        in_turn(who.drop_last(), what) + what(who.last())
    }
}

/// What a pointer is told of a scroll: how it was made, of each axis that moved
/// first its detents and then its distance, the vertical axis before the
/// horizontal, and that this is all.
pub open spec fn of_a_scroll(pointer: u32, time: u32, x: ScrollAxis, y: ScrollAxis, source: ScrollSource, turned: bool) -> Seq<
    MessageView,
> {
    let steps = |a: ScrollAxis| if turned { fit(0 - a.v120) } else { a.v120 };
    let of = |vertical: bool, a: ScrollAxis|
        if a.moved {
            seq![
                MessageView::Notice(Notice::PointerAxisSteps { pointer, vertical, v120: steps(a) }),
                MessageView::Notice(Notice::PointerAxis { time, pointer, vertical, distance: a.distance }),
            ]
        } else {
            Seq::empty()
        };
    seq![MessageView::Notice(Notice::PointerAxisSource { pointer, source })] + of(true, y) + of(false, x) + seq![
        MessageView::Notice(Notice::PointerFrame { pointer }),
    ]
}

/// What a pointer is told when the fingers leave the touchpad: which of the axes
/// have stopped, and that this is all.
pub open spec fn of_an_end(pointer: u32, time: u32, vertical: bool, horizontal: bool) -> Seq<MessageView> {
    let stop = |up: bool, was: bool|
        if was {
            seq![MessageView::Notice(Notice::PointerAxisStop { time, pointer, vertical: up })]
        } else {
            Seq::empty()
        };
    seq![MessageView::Notice(Notice::PointerAxisSource { pointer, source: ScrollSource::Finger })] + stop(
        true,
        vertical,
    ) + stop(false, horizontal) + seq![MessageView::Notice(Notice::PointerFrame { pointer })]
}

proof fn lemma_scrolled(s: StateView, client_id: u32, time: u32, x: ScrollAxis, y: ScrollAxis, source: ScrollSource, n: nat) -> (r: (Seq<MessageView>, Seq<int>))
    requires
        n <= s.input.pointers.len(),
    ensures
        ({
            let t = s.pointers_scrolled(client_id, time, x, y, source, n);
            &&& t.clients == s.tell_all(client_id, r.0).clients
            &&& same_but_told(s, t)
            &&& whose_pointers(s, client_id, n, r.1)
            &&& r.0 == in_turn(r.1, |i: int| of_a_scroll(s.input.pointers[i].object_id, time, x, y, source, source is Finger && !s.settings.natural_scrolling))
        }),
    decreases n,
{
    if n == 0 {
        lemma_told_none(s, client_id);
        (Seq::empty(), Seq::empty())
    } else {
        let (ms, who) = lemma_scrolled(s, client_id, time, x, y, source, (n - 1) as nat);
        let t = s.pointers_scrolled(client_id, time, x, y, source, (n - 1) as nat);
        let u = s.pointers_scrolled(client_id, time, x, y, source, n);
        let b = s.input.pointers[n - 1].object_id;
        if s.input.pointers[n - 1].client_id == client_id {
            let more = of_a_scroll(b, time, x, y, source, source is Finger && !s.settings.natural_scrolling);
            let whom = who.push(n - 1);
            lemma_one_more(who, n - 1);
            assert(more =~= scroll_notices(b, time, x, y, source, s.reverses(source)));
            assert(u == t.tell_all(client_id, more));
            if s.clients.has(client_id) {
                let before = s.clients.at(client_id).outbox;
                assert((before + ms) + more =~= before + (ms + more));
            }
            assert(u.clients =~= s.tell_all(client_id, ms + more).clients);
            assert(whom.drop_last() =~= who);
            (ms + more, whom)
        } else {
            (ms, who)
        }
    }
}

proof fn lemma_stopped(s: StateView, client_id: u32, time: u32, vertical: bool, horizontal: bool, n: nat) -> (r: (Seq<MessageView>, Seq<int>))
    requires
        n <= s.input.pointers.len(),
    ensures
        ({
            let t = s.pointers_stopped(client_id, time, vertical, horizontal, n);
            &&& t.clients == s.tell_all(client_id, r.0).clients
            &&& same_but_told(s, t)
            &&& whose_pointers(s, client_id, n, r.1)
            &&& r.0 == in_turn(r.1, |i: int| of_an_end(s.input.pointers[i].object_id, time, vertical, horizontal))
        }),
    decreases n,
{
    if n == 0 {
        lemma_told_none(s, client_id);
        (Seq::empty(), Seq::empty())
    } else {
        let (ms, who) = lemma_stopped(s, client_id, time, vertical, horizontal, (n - 1) as nat);
        let t = s.pointers_stopped(client_id, time, vertical, horizontal, (n - 1) as nat);
        let u = s.pointers_stopped(client_id, time, vertical, horizontal, n);
        let b = s.input.pointers[n - 1].object_id;
        if s.input.pointers[n - 1].client_id == client_id {
            let more = of_an_end(b, time, vertical, horizontal);
            let whom = who.push(n - 1);
            lemma_one_more(who, n - 1);
            assert(more =~= end_notices(b, time, vertical, horizontal));
            assert(u == t.tell_all(client_id, more));
            if s.clients.has(client_id) {
                let before = s.clients.at(client_id).outbox;
                assert((before + ms) + more =~= before + (ms + more));
            }
            assert(u.clients =~= s.tell_all(client_id, ms + more).clients);
            assert(whom.drop_last() =~= who);
            (ms + more, whom)
        } else {
            (ms, who)
        }
    }
}

proof fn lemma_reached(s: StateView, t: StateView, client_id: u32, ms: Seq<MessageView>)
    requires
        t.clients == s.tell_all(client_id, ms).clients,
    ensures
        told_alone(s, t, client_id),
        s.clients.has(client_id) ==> heard(s, t, client_id) == ms,
        !s.clients.has(client_id) ==> heard(s, t, client_id).len() == 0,
{
    let u = s.tell_all(client_id, ms);
    lemma_heard_all(s, client_id, ms);
    lemma_told_nothing(u, t);
    lemma_heard_twice(s, u, t);
    assert forall|c: u32| #[trigger] heard(s, t, c) == heard(s, u, c) by {
        assert(heard(s, t, c) == heard(s, u, c) + heard(u, t, c));
        assert(heard(u, t, c).len() == 0);
        assert(heard(s, u, c) + heard(u, t, c) =~= heard(s, u, c));
    }
}

/// A button is told to every pointer of the client that has the pointer, each
/// time followed by a frame, and to nobody else.
pub proof fn lemma_button_goes_to_the_pointer(s: StateView, time: u32, button: u32, pressed: bool) -> (who: Seq<int>)
    ensures
        ({
            let t = s.deliver_button(time, button, pressed);
            match s.input.pointer_surface {
                Some(f) => {
                    &&& told_alone(s, t, f.0)
                    &&& whose_pointers(s, f.0, s.input.pointers.len(), who)
                    &&& s.clients.has(f.0) ==> clicked_told(s, heard(s, t, f.0), who, f.0, time, button, pressed)
                    &&& same_but_clicked(s, t)
                    &&& !pressed ==> t.input == s.input
                },
                None => t == s,
            }
        }),
{
    match s.input.pointer_surface {
        Some(f) => {
            let (ms, who) = lemma_clicked(s, f.0, time, button, pressed, s.input.pointers.len());
            lemma_reached(s, s.deliver_button(time, button, pressed), f.0, ms);
            lemma_released_is_not_noted(s, f.0, time, button, s.input.pointers.len());
            who
        },
        None => Seq::empty(),
    }
}

proof fn lemma_released_is_not_noted(s: StateView, client_id: u32, time: u32, button: u32, n: nat)
    ensures
        s.pointers_clicked(client_id, time, button, false, n).input == s.input,
    decreases n,
{
    if n > 0 && n <= s.input.pointers.len() {
        lemma_released_is_not_noted(s, client_id, time, button, (n - 1) as nat);
    }
}

proof fn lemma_pressed_is_noted(s: StateView, client_id: u32, time: u32, button: u32, n: nat)
    requires
        n <= s.input.pointers.len(),
    ensures
        ({
            let t = s.pointers_clicked(client_id, time, button, true, n);
            &&& (exists|i: int| 0 <= i < n && (#[trigger] s.input.pointers[i]).client_id == client_id)
                && s.clients.has(client_id) ==> {
                &&& t.clients.has(client_id)
                &&& t.input.last_button_serial.has(client_id)
                &&& exists|j: int, pointer: u32|
                    0 <= j < t.clients.at(client_id).outbox.len() && #[trigger] t.clients.at(client_id).outbox[j]
                        == MessageView::Notice(
                        #[trigger] button_notice(
                            t.input.last_button_serial.at(client_id),
                            time,
                            pointer,
                            button,
                            true,
                        ),
                    )
            }
            &&& t.clients.has(client_id) == s.clients.has(client_id)
        }),
    decreases n,
{
    if n > 0 {
        lemma_pressed_is_noted(s, client_id, time, button, (n - 1) as nat);
        let t = s.pointers_clicked(client_id, time, button, true, (n - 1) as nat);
        let u = s.pointers_clicked(client_id, time, button, true, n);
        if s.input.pointers[n - 1].client_id != client_id {
            if exists|i: int| 0 <= i < n && (#[trigger] s.input.pointers[i]).client_id == client_id {
                let i = choose|i: int| 0 <= i < n && (#[trigger] s.input.pointers[i]).client_id == client_id;
                assert(i < n - 1 && s.input.pointers[i].client_id == client_id);
            }
        } else {
            if s.clients.has(client_id) {
                let pointer = s.input.pointers[n - 1].object_id;
                let j = t.clients.at(client_id).outbox.len() as int;
                let main = MessageView::Notice(button_notice(t.next_serial, time, pointer, button, true));
                let frame = MessageView::Notice(Notice::PointerFrame { pointer });
                assert(u.input.last_button_serial.at(client_id) == t.next_serial);
                assert(u.clients.at(client_id).outbox == t.clients.at(client_id).outbox.push(main).push(frame));
                assert(u.clients.at(client_id).outbox[j] == MessageView::Notice(
                    button_notice(t.next_serial, time, pointer, button, true),
                ));
            }
        }
    }
}

/// The serial of a press is noted as the last press of the client that was told
/// it, which is what a move or a resize has to quote.
pub proof fn lemma_press_can_be_quoted(s: StateView, surface: ClientObjectId, time: u32, button: u32)
    requires
        s.input.pointer_surface == Some(surface),
        s.clients.has(surface.0),
        exists|i: int| 0 <= i < s.input.pointers.len() && (#[trigger] s.input.pointers[i]).client_id == surface.0,
    ensures
        ({
            let t = s.deliver_button(time, button, true);
            &&& t.input.last_button_serial.has(surface.0)
            &&& exists|j: int, pointer: u32|
                0 <= j < t.clients.at(surface.0).outbox.len() && #[trigger] t.clients.at(surface.0).outbox[j]
                    == MessageView::Notice(
                    #[trigger] button_notice(t.input.last_button_serial.at(surface.0), time, pointer, button, true),
                )
        }),
{
    lemma_pressed_is_noted(s, surface.0, time, button, s.input.pointers.len());
}

/// A key is told to every keyboard of the client that has the focus, after the
/// modifiers if they have changed, and to nobody else.
pub proof fn lemma_key_goes_to_the_focus(s: StateView, time: u32, key: u32, pressed: bool, modifiers_changed: bool) -> (who:
    Seq<int>)
    ensures
        ({
            let t = s.deliver_key(time, key, pressed, modifiers_changed);
            match s.input.focused_surface {
                Some(f) => {
                    &&& told_alone(s, t, f.0)
                    &&& whose_keyboards(s, f.0, s.input.keyboards.len(), who)
                    &&& s.clients.has(f.0) ==> key_told(
                        s,
                        heard(s, t, f.0),
                        who,
                        time,
                        key,
                        pressed,
                        modifiers_changed,
                    )
                    &&& same_but_told(s, t)
                },
                None => t == s,
            }
        }),
{
    match s.input.focused_surface {
        Some(f) => {
            let (ms, who) = lemma_keyed(s, f.0, time, key, pressed, modifiers_changed, s.input.keyboards.len());
            lemma_reached(s, s.deliver_key(time, key, pressed, modifiers_changed), f.0, ms);
            who
        },
        None => Seq::empty(),
    }
}

/// A finger that lands is told to every touch object of the client it lands on,
/// and to nobody else, and it is that surface's from then on.
pub proof fn lemma_finger_lands_on_what_was_hit(s: StateView, hit: HitResult, time: u32, id: i32) -> (who: Seq<int>)
    ensures
        ({
            let t = s.finish_touch_down(hit, time, id);
            &&& told_alone(s, t, hit.surface.0)
            &&& whose_touches(s, hit.surface.0, s.input.touches.len(), who)
            &&& s.clients.has(hit.surface.0) ==> landed_told(s, heard(s, t, hit.surface.0), who, hit, time, id)
            &&& t.input.touch_points.has(id)
            &&& t.input.touch_points.at(id) == hit.surface
            &&& forall|other: i32|
                other != id ==> #[trigger] t.input.touch_points.has(other) == s.input.touch_points.has(other)
                    && t.input.touch_points.at(other) == s.input.touch_points.at(other)
        }),
{
    let down = s.set_points(s.input.touch_points.put(id, hit.surface));
    let (ms, who) = lemma_landed(down, hit, time, id, s.input.touches.len());
    lemma_reached(s, s.finish_touch_down(hit, time, id), hit.surface.0, ms);
    who
}

/// A finger that moves is told to every touch object of the client it landed on,
/// with where its surface is, and to nobody else. One that is nowhere is told to
/// nobody.
pub proof fn lemma_finger_moves_on_its_surface(s: StateView, time: u32, id: i32) -> (who: Seq<int>)
    ensures
        ({
            let t = s.touch_motion(time, id);
            if s.input.touch_points.has(id) {
                let f = s.input.touch_points.at(id);
                &&& told_alone(s, t, f.0)
                &&& whose_touches(s, f.0, s.input.touches.len(), who)
                &&& s.clients.has(f.0) ==> dragged_told(
                    s,
                    heard(s, t, f.0),
                    who,
                    f.0,
                    s.global_position(f),
                    time,
                    id,
                )
                &&& t.input == s.input
            } else {
                t.clients == s.clients && t.input == s.input
            }
        }),
{
    if s.input.touch_points.has(id) {
        let f = s.input.touch_points.at(id);
        let (ms, who) = lemma_dragged(s.dirtied(), f.0, s.global_position(f), time, id, s.input.touches.len());
        lemma_reached(s, s.touch_motion(time, id), f.0, ms);
        who
    } else {
        Seq::empty()
    }
}

/// A finger that is lifted is told to every touch object of the client it landed
/// on, and to nobody else, and is on nothing from then on.
pub proof fn lemma_finger_is_lifted_off_its_surface(s: StateView, time: u32, id: i32) -> (who: Seq<int>)
    ensures
        ({
            let t = s.touch_up(time, id);
            if s.input.touch_points.has(id) {
                let f = s.input.touch_points.at(id);
                &&& told_alone(s, t, f.0)
                &&& whose_touches(s, f.0, s.input.touches.len(), who)
                &&& s.clients.has(f.0) ==> lifted_told(s, heard(s, t, f.0), who, f.0, time, id)
                &&& !t.input.touch_points.has(id)
                &&& forall|other: i32|
                    other != id ==> #[trigger] t.input.touch_points.has(other) == s.input.touch_points.has(other)
            } else {
                t.clients == s.clients && t.input == s.input
            }
        }),
{
    if s.input.touch_points.has(id) {
        let f = s.input.touch_points.at(id);
        let up = s.dirtied().set_points(s.input.touch_points.without(id));
        let (ms, who) = lemma_lifted(up, f.0, time, id, s.input.touches.len());
        lemma_reached(s, s.touch_up(time, id), f.0, ms);
        who
    } else {
        Seq::empty()
    }
}

/// A scroll is told to every pointer of the client that has the pointer, and to
/// nobody else: the axes that moved and no other, a touchpad's detents turned
/// round where the content is not to follow the fingers. Of a touchpad it is
/// remembered which axes have moved.
pub proof fn lemma_scroll_goes_to_the_pointer(
    s: StateView,
    time: u32,
    x: ScrollAxis,
    y: ScrollAxis,
    source: ScrollSource,
) -> (who: Seq<int>)
    ensures
        ({
            let t = s.deliver_scroll(time, x, y, source);
            match s.input.pointer_surface {
                Some(f) => {
                    &&& told_alone(s, t, f.0)
                    &&& whose_pointers(s, f.0, s.input.pointers.len(), who)
                    &&& s.clients.has(f.0) ==> heard(s, t, f.0) == in_turn(
                        who,
                        |i: int|
                            of_a_scroll(
                                s.input.pointers[i].object_id,
                                time,
                                x,
                                y,
                                source,
                                source is Finger && !s.settings.natural_scrolling,
                            ),
                    )
                    &&& t.input.scrolling_vertical == (s.input.scrolling_vertical || (source is Finger && y.moved))
                    &&& t.input.scrolling_horizontal == (s.input.scrolling_horizontal || (source is Finger && x.moved))
                },
                None => t == s,
            }
        }),
{
    match s.input.pointer_surface {
        Some(f) => {
            let noted = s.note_scrolling(x.moved, y.moved, source);
            let (ms, who) = lemma_scrolled(noted, f.0, time, x, y, source, s.input.pointers.len());
            lemma_reached(s, s.deliver_scroll(time, x, y, source), f.0, ms);
            lemma_in_turn_same(
                who,
                |i: int|
                    of_a_scroll(
                        noted.input.pointers[i].object_id,
                        time,
                        x,
                        y,
                        source,
                        source is Finger && !noted.settings.natural_scrolling,
                    ),
                |i: int|
                    of_a_scroll(
                        s.input.pointers[i].object_id,
                        time,
                        x,
                        y,
                        source,
                        source is Finger && !s.settings.natural_scrolling,
                    ),
            );
            who
        },
        None => Seq::empty(),
    }
}

proof fn lemma_in_turn_same(who: Seq<int>, f: spec_fn(int) -> Seq<MessageView>, g: spec_fn(int) -> Seq<MessageView>)
    requires
        forall|i: int| #[trigger] f(i) == g(i),
    ensures
        in_turn(who, f) == in_turn(who, g),
    decreases who.len(),
{
    if who.len() > 0 {
        lemma_in_turn_same(who.drop_last(), f, g);
        assert(f(who.last()) == g(who.last()));
    }
}

/// When the fingers leave a touchpad the client that has the pointer is told on
/// every pointer which axes have stopped: those that were moving and no other. If
/// none was, nobody is told. None is moving after that.
pub proof fn lemma_scroll_ends_where_it_moved(s: StateView, time: u32) -> (who: Seq<int>)
    ensures
        ({
            let t = s.deliver_scroll_end(time);
            let (v, h) = (s.input.scrolling_vertical, s.input.scrolling_horizontal);
            &&& !t.input.scrolling_vertical
            &&& !t.input.scrolling_horizontal
            &&& s.input.pointer_surface is None || (!v && !h) ==> t.clients == s.clients
            &&& s.input.pointer_surface is Some && (v || h) ==> {
                let f = s.input.pointer_surface->0;
                &&& told_alone(s, t, f.0)
                &&& whose_pointers(s, f.0, s.input.pointers.len(), who)
                &&& s.clients.has(f.0) ==> heard(s, t, f.0) == in_turn(
                    who,
                    |i: int| of_an_end(s.input.pointers[i].object_id, time, v, h),
                )
            }
        }),
{
    let (v, h) = (s.input.scrolling_vertical, s.input.scrolling_horizontal);
    if s.input.pointer_surface is Some && (v || h) {
        let f = s.input.pointer_surface->0;
        let quiet = s.forget_scrolling();
        let (ms, who) = lemma_stopped(quiet, f.0, time, v, h, s.input.pointers.len());
        lemma_reached(s, s.deliver_scroll_end(time), f.0, ms);
        lemma_in_turn_same(
            who,
            |i: int| of_an_end(quiet.input.pointers[i].object_id, time, v, h),
            |i: int| of_an_end(s.input.pointers[i].object_id, time, v, h),
        );
        who
    } else {
        Seq::empty()
    }
}

/// Rising indices are told apart by which they are.
proof fn lemma_rising_unique(a: Seq<int>, b: Seq<int>)
    requires
        rising(a),
        rising(b),
        forall|i: int| #[trigger] a.contains(i) <==> b.contains(i),
    ensures
        a == b,
    decreases a.len(),
{
    if a.len() == 0 {
        if b.len() > 0 {
            assert(b.contains(b[0]));
            assert(a.contains(b[0]));
        }
        assert(a =~= b);
    } else {
        assert(a.contains(a[a.len() - 1]));
        assert(b.contains(a.last()));
        let m = b.index_of(a.last());
        assert(b.contains(b[b.len() - 1]));
        assert(a.contains(b.last()));
        let n = a.index_of(b.last());
        if m < b.len() - 1 {
            assert(b[m] < b[b.len() - 1]);
            if n < a.len() - 1 {
                assert(a[n] < a[a.len() - 1]);
            }
        }
        assert(a.last() == b.last());
        let (x, y) = (a.drop_last(), b.drop_last());
        assert forall|i: int, j: int| #![trigger x[i], x[j]] 0 <= i < j < x.len() implies x[i] < x[j] by {
            assert(a[i] < a[j]);
        }
        assert forall|i: int, j: int| #![trigger y[i], y[j]] 0 <= i < j < y.len() implies y[i] < y[j] by {
            assert(b[i] < b[j]);
        }
        assert forall|i: int| #[trigger] x.contains(i) <==> y.contains(i) by {
            if x.contains(i) {
                let k = x.index_of(i);
                assert(a[k] == i && a[k] < a[a.len() - 1]);
                assert(a.contains(i));
                let l = b.index_of(i);
                assert(y[l] == i);
            }
            if y.contains(i) {
                let k = y.index_of(i);
                assert(b[k] == i && b[k] < b[b.len() - 1]);
                assert(b.contains(i));
                assert(a.contains(i));
                let l = a.index_of(i);
                assert(x[l] == i);
            }
        }
        lemma_rising_unique(x, y);
        assert(a =~= x.push(a.last()));
        assert(b =~= y.push(b.last()));
    }
}

/// What a client hears of a pointer that moves: first that it has left a surface
/// of its, then that it is on one, then where it is.
pub struct Pointing {
    pub left: Seq<MessageView>,
    pub entered: Seq<MessageView>,
    pub moved: Seq<MessageView>,
}

/// A pointer that moves is on what is hit there. The client whose surface it was
/// on is told on every pointer that it has left, if it has. The client whose
/// surface it is on is told on every pointer that it has come, if it was not there
/// before, and then where it is. Nobody else is told.
pub proof fn lemma_pointer_is_on_what_is_hit(s: StateView, hit: Option<HitResult>, time: u32) -> (r: (
    Pointing,
    Seq<int>,
    Seq<int>,
))
    ensures
        ({
            let t = s.point_at(hit).move_over(hit, time);
            let (news, of_old, of_new) = r;
            let was = s.input.pointer_surface;
            let is = match hit {
                Some(h) => Some(h.surface),
                None => None,
            };
            &&& t.input.pointer_surface == is
            &&& only_told(s, t)
            &&& t == (StateView {
                clients: t.clients,
                next_serial: t.next_serial,
                input: InputsView { pointer_surface: is, ..s.input },
                ..s
            })
            &&& match was {
                Some(f) => {
                    &&& whose_pointers(s, f.0, s.input.pointers.len(), of_old)
                    &&& was != is ==> left_told(s, news.left, of_old, f)
                    &&& was == is ==> news.left.len() == 0
                },
                None => news.left.len() == 0,
            }
            &&& match hit {
                Some(h) => {
                    &&& whose_pointers(s, h.surface.0, s.input.pointers.len(), of_new)
                    &&& was != is ==> entered_told(s, news.entered, of_new, h)
                    &&& was == is ==> news.entered.len() == 0
                    &&& moved_told(s, news.moved, of_new, h, time)
                },
                None => news.entered.len() == 0 && news.moved.len() == 0,
            }
            &&& forall|c: u32|
                s.clients.has(c) ==> #[trigger] heard(s, t, c) == (if was is Some && (was->0).0 == c {
                    news.left
                } else {
                    Seq::empty()
                }) + (if hit is Some && (hit->0).surface.0 == c {
                    news.entered + news.moved
                } else {
                    Seq::empty()
                })
        }),
{
    let none = Seq::<MessageView>::empty();
    let was = s.input.pointer_surface;
    let n = s.input.pointers.len();
    let is = match hit {
        Some(h) => Some(h.surface),
        None => None,
    };
    let t = s.point_at(hit).move_over(hit, time);
    let (old_ms, of_old) = match was {
        Some(f) => lemma_left(s, f, n),
        None => (none, Seq::<int>::empty()),
    };
    let a = if was == is {
        s
    } else {
        s.leave_pointed().set_pointed(is)
    };
    let left = if was == is {
        none
    } else {
        old_ms
    };
    if was != is && was is Some {
        lemma_reached(s, a, (was->0).0, left);
    } else {
        lemma_told_nothing(s, a);
    }
    let (entered, moved, of_new) = match hit {
        Some(h) => {
            let b = if was == is {
                a
            } else {
                a.pointers_entered(h, n)
            };
            let (es, who) = lemma_entered(a, h, n);
            let entered = if was == is {
                none
            } else {
                es
            };
            if was == is {
                lemma_told_nothing(a, b);
            } else {
                lemma_reached(a, b, h.surface.0, entered);
            }
            let (moved, whom) = lemma_moved(b, h, time, n);
            lemma_rising_unique(who, whom);
            lemma_reached(b, t, h.surface.0, moved);
            lemma_heard_twice(s, a, b);
            lemma_heard_twice(s, b, t);
            assert forall|c: u32| s.clients.has(c) implies #[trigger] heard(s, t, c) == (if was is Some && (was->0).0 == c {
                left
            } else {
                none
            }) + (if h.surface.0 == c {
                entered + moved
            } else {
                none
            }) by {
                assert(a.clients.has(c) && b.clients.has(c));
                assert(heard(s, t, c) == heard(s, b, c) + heard(b, t, c));
                assert(heard(s, b, c) == heard(s, a, c) + heard(a, b, c));
                let x = if was is Some && (was->0).0 == c { left } else { none };
                let y = if h.surface.0 == c { entered } else { none };
                let z = if h.surface.0 == c { moved } else { none };
                assert(heard(s, a, c) =~= x);
                assert(heard(a, b, c) =~= y);
                assert(heard(b, t, c) =~= z);
                assert((x + y) + z =~= x + (if h.surface.0 == c { entered + moved } else { none }));
            }
            (entered, moved, whom)
        },
        None => {
            assert forall|c: u32| s.clients.has(c) implies #[trigger] heard(s, t, c) == (if was is Some && (was->0).0 == c {
                left
            } else {
                none
            }) + none by {
                let x = if was is Some && (was->0).0 == c { left } else { none };
                assert(heard(s, t, c) =~= x + none);
            }
            (none, none, Seq::<int>::empty())
        },
    };
    (Pointing { left, entered, moved }, of_old, of_new)
}

/// Without a grab or a drag, and with the focus somewhere, moving the pointer only
/// puts it on what is hit where it now is, and has its picture drawn again.
pub proof fn lemma_motion_points_at_what_is_hit<S: Shell>(s: StateView, shell: S, time: u32, travel: (i32, i32))
    requires
        s.win.pointer_grab is None,
        s.data.drag is None,
        s.input.focused_surface is Some,
    ensures
        ({
            let moved = StateView { cursor_dirty: true, ..s };
            let hit = moved.hit_test(shell, s.input.cursor);
            s.pointer_motion(shell, time, travel) == moved.point_at(hit).move_over(hit, time)
        }),
{
}

/// Taking the focus away tells the client that had it, on every keyboard, that it
/// has gone, and its window that it is no longer active. Nobody else is told.
pub proof fn lemma_lost_focus_is_told(s: StateView, from: ClientObjectId) -> (who: Seq<int>)
    requires
        s.input.focused_surface == Some(from),
    ensures
        ({
            let t = s.clear_focus();
            let news = heard(s, t, from.0);
            &&& t.input.focused_surface is None
            &&& told_alone(s, t, from.0)
            &&& whose_keyboards(s, from.0, s.input.keyboards.len(), who)
            &&& s.clients.has(from.0) ==> {
                &&& news.len() > 0
                &&& no_focus_told(s, news.drop_last(), who, from.1)
                &&& news.last() == MessageView::Notice(
                    Notice::ToplevelActivated { surface: from.1, activated: false },
                )
            }
        }),
{
    let bare = s.set_focused(None);
    let n = s.input.keyboards.len();
    let (ms, who) = lemma_unfocused(bare, from, n);
    let left = bare.keyboards_left(from, n);
    let m = MessageView::Notice(Notice::ToplevelActivated { surface: from.1, activated: false });
    lemma_told_one_more(s, left, s.clear_focus(), from.0, ms, m);
    lemma_reached(s, s.clear_focus(), from.0, ms.push(m));
    assert(ms.push(m).drop_last() =~= ms);
    who
}

/// Focus that comes to a surface is told to its client: on every keyboard that it
/// is there and what the modifiers are, to the window that it is active, and what
/// is on the clipboard. What is on the primary selection follows.
pub proof fn lemma_new_focus_is_told(s: StateView, to: ClientObjectId) -> (r: (StateView, Seq<int>))
    requires
        s.input.focused_surface is None,
    ensures
        ({
            let (t, who) = r;
            let news = heard(s, t, to.0);
            &&& s.switch_focus(to) == t.primary_to_client(to.0)
            &&& t.input.focused_surface == Some(to)
            &&& told_alone(s, t, to.0)
            &&& whose_keyboards(s, to.0, s.input.keyboards.len(), who)
            &&& s.clients.has(to.0) ==> {
                &&& news.len() > 1
                &&& focus_told(s, news.take(news.len() - 2), who, to.1)
                &&& news[news.len() - 2] == MessageView::Notice(
                    Notice::ToplevelActivated { surface: to.1, activated: true },
                )
                &&& news.last() == MessageView::Notice(Notice::Clipboard)
            }
        }),
{
    let on = s.set_focused(Some(to));
    let n = s.input.keyboards.len();
    let (ms, who) = lemma_focused(on, to, n);
    let entered = on.keyboards_entered(to, n);
    let a = MessageView::Notice(Notice::ToplevelActivated { surface: to.1, activated: true });
    let b = MessageView::Notice(Notice::Clipboard);
    let t = entered.tell(to.0, a).tell(to.0, b);
    lemma_told_two_more(s, entered, t, to.0, ms, a, b);
    lemma_reached(s, t, to.0, ms + seq![a, b]);
    assert((ms + seq![a, b]).take(ms.len() as int) =~= ms);
    (t, who)
}

} // verus!
