//! Pasting: what offers say, and where a receiver's pipe goes.
use crate::laws::delivery::{heard, lemma_heard_one, told_alone};
use crate::protocol::messages::{EventView, MessageView, Notice};
use crate::protocol::wire_utils::{ArgView, ClientMessage};
use crate::state::compositor_state::StateView;
use crate::state::offers::{offer_events, offer_intro};
use crate::state::selections::Which;
use crate::state::types::{ClientObjectId, DataInterface, OfferKind};
use vstd::prelude::*;

verus! {

/// What a source is asked when someone wants its content: to write it down a
/// pipe, as a type it has.
pub open spec fn asked_to_send(source: u32, interface: DataInterface, mime_type: Seq<char>, fd: i32) -> MessageView {
    match interface {
        DataInterface::WlData => MessageView::Transfer { source, mime_type, fd },
        _ => MessageView::Event(
            EventView { object_id: source, op_code: 0, args: seq![ArgView::Str(mime_type)], fds: seq![fd] },
        ),
    }
}

/// A receiver's pipe goes to the client whose content the offer is of, to be
/// filled as the type that was asked for, if that client is there and has the
/// content as that type. In every other case it is closed, and nobody is told.
pub proof fn lemma_paste_reaches_the_source(s: StateView, offer: ClientObjectId, mime_type: Seq<char>, fd: i32)
    ensures
        ({
            let t = s.relay_pipe(offer, mime_type, fd);
            let behind = s.data.data_offers.at(offer).source;
            let source = behind->0;
            let there = s.data.data_offers.has(offer) && behind is Some && s.data.data_sources.has(source)
                && s.data.data_sources.at(source).mime_types.contains(mime_type) && s.clients.has(source.0);
            &&& there ==> {
                &&& told_alone(s, t, source.0)
                &&& heard(s, t, source.0) == seq![
                    asked_to_send(source.1, s.data.data_sources.at(source).interface, mime_type, fd),
                ]
                &&& t.mem == s.mem
            }
            &&& !there ==> t.clients == s.clients && t.mem.closed_fds == s.mem.closed_fds.push(fd)
            &&& t.data == s.data
        }),
{
    let behind = s.data.data_offers.at(offer).source;
    if s.data.data_offers.has(offer) && behind is Some && s.data.data_sources.has(behind->0) {
        let source = behind->0;
        lemma_heard_one(
            s,
            source.0,
            asked_to_send(source.1, s.data.data_sources.at(source).interface, mime_type, fd),
        );
    }
}

/// A type that is added to a source is among its types, the rest of which stay in
/// their order, and is there once.
pub proof fn lemma_added_type_is_there_once(s: StateView, source: ClientObjectId, mime_type: Seq<char>)
    requires
        s.data.data_sources.has(source),
        s.data.data_sources.at(source).mime_types.no_duplicates(),
    ensures
        ({
            let (before, after) = (
                s.data.data_sources.at(source).mime_types,
                s.add_mime_type(source, mime_type).data.data_sources.at(source).mime_types,
            );
            &&& after.contains(mime_type)
            &&& after.no_duplicates()
            &&& before.contains(mime_type) ==> after == before
            &&& !before.contains(mime_type) ==> after == before.push(mime_type)
        }),
{
    let before = s.data.data_sources.at(source).mime_types;
    let after = s.add_mime_type(source, mime_type).data.data_sources.at(source).mime_types;
    if !before.contains(mime_type) {
        assert(after[before.len() as int] == mime_type);
    }
}

/// What a client is told of a new offer: that a device has it, and then every type
/// the content can be had as.
pub open spec fn introduced(
    news: Seq<MessageView>,
    interface: DataInterface,
    device: u32,
    offer: u32,
    mime_types: Seq<Seq<char>>,
) -> bool {
    &&& news.len() == 1 + mime_types.len()
    &&& news[0] == match interface {
        DataInterface::WlData => MessageView::Notice(Notice::DeviceOffer { device, offer }),
        _ => MessageView::Event(
            EventView { object_id: device, op_code: 0, args: seq![ArgView::Uint(offer)], fds: Seq::empty() },
        ),
    }
    &&& forall|i: int|
        0 <= i < mime_types.len() ==> news[i + 1] == MessageView::Event(
            EventView {
                object_id: offer,
                op_code: 0,
                args: seq![ArgView::Str(#[trigger] mime_types[i])],
                fds: Seq::empty(),
            },
        )
}

/// What was queued for a client, and what was queued after that.
pub open spec fn queued_since(s: StateView, t: StateView, client_id: u32) -> Seq<MessageView> {
    t.clients.at(client_id).outbox.skip(s.clients.at(client_id).outbox.len() as int)
}

/// A new offer is of its source, under an id that was not used before, and its
/// client is told of it and of what is behind it. No other client is.
pub proof fn lemma_new_offer_is_introduced(
    s: StateView,
    client_id: u32,
    device: u32,
    source: ClientObjectId,
    interface: DataInterface,
    kind: OfferKind,
)
    requires
        s.clients.has(client_id),
        s.clients.at(client_id).next_server_id < u32::MAX,
        s.data.data_sources.has(source),
    ensures
        ({
            let t = s.create_offer(client_id, device, source, interface, kind);
            let id = s.clients.at(client_id).next_server_id;
            let offer = (client_id, id);
            &&& t.data.data_offers.has(offer)
            &&& t.data.data_offers.at(offer).source == Some(source)
            &&& t.data.data_offers.at(offer).kind == kind
            &&& t.data.data_offers.at(offer).accepted is None
            &&& t.clients.at(client_id).objects.has(id)
            &&& t.clients.at(client_id).next_server_id == id + 1
            &&& introduced(
                queued_since(s, t, client_id),
                interface,
                device,
                id,
                s.data.data_sources.at(source).mime_types,
            )
            &&& forall|c: u32| c != client_id ==> #[trigger] t.clients.at(c) == s.clients.at(c)
            &&& t.data.data_sources == s.data.data_sources
            &&& t.data.selection == s.data.selection
            &&& t.data.primary_selection == s.data.primary_selection
        }),
{
    let t = s.create_offer(client_id, device, source, interface, kind);
    let before = s.clients.at(client_id).outbox;
    let news = queued_since(s, t, client_id);
    let id = s.clients.at(client_id).next_server_id;
    let types = s.data.data_sources.at(source).mime_types;
    assert(t.clients.at(client_id).outbox == before.push(
        offer_intro(interface, device, id),
    ) + offer_events(id, types));
    assert(news =~= seq![offer_intro(interface, device, id)] + offer_events(
        id,
        types,
    ));
}

/// A clipboard manager's device is told what is on a selection: nothing, or a new
/// offer of it. The primary selection it is told only if it knows of one.
pub proof fn lemma_manager_hears_of_the_selection(s: StateView, client_id: u32, device: u32, which: Which)
    requires
        s.clients.has(client_id),
        s.clients.at(client_id).next_server_id < u32::MAX,
        which is Primary ==> s.clients.at(client_id).version(device) >= 2,
        which is Clipboard && s.data.selection is Some ==> s.data.data_sources.has(s.data.selection->0),
        which is Primary && s.data.primary_selection is Some ==> s.data.data_sources.has(s.data.primary_selection->0),
    ensures
        ({
            let t = s.control_to_device(client_id, device, which);
            let held = if which is Clipboard { s.data.selection } else { s.data.primary_selection };
            let id = s.clients.at(client_id).next_server_id;
            let news = queued_since(s, t, client_id);
            let about = |object: Option<u32>|
                MessageView::Event(
                    EventView {
                        object_id: device,
                        op_code: if which is Clipboard { 1 } else { 3 },
                        args: seq![ArgView::Object(object)],
                        fds: Seq::empty(),
                    },
                );
            &&& held is None ==> news == seq![about(None)]
            &&& held is Some ==> {
                &&& introduced(
                    news.drop_last(),
                    DataInterface::DataControl,
                    device,
                    id,
                    s.data.data_sources.at(held->0).mime_types,
                )
                &&& news.last() == about(Some(id))
                &&& t.data.data_offers.at((client_id, id)).source == held
            }
        }),
{
    let t = s.control_to_device(client_id, device, which);
    let held = if which is Clipboard { s.data.selection } else { s.data.primary_selection };
    let before = s.clients.at(client_id).outbox;
    if held is Some {
        lemma_new_offer_is_introduced(s, client_id, device, held->0, DataInterface::DataControl, OfferKind::Selection);
        let made = s.create_offer(client_id, device, held->0, DataInterface::DataControl, OfferKind::Selection);
        let a = made.clients.at(client_id).outbox;
        let b = t.clients.at(client_id).outbox;
        assert(b == a.push(b.last()));
        assert(a.len() >= before.len()) by {
            assert(a.len() == before.len() + queued_since(s, made, client_id).len()) by {
                assert(queued_since(s, made, client_id).len() == 1 + s.data.data_sources.at(held->0).mime_types.len());
            }
        }
        assert(queued_since(s, t, client_id).drop_last() =~= queued_since(s, made, client_id));
    } else {
        assert(queued_since(s, t, client_id) =~= seq![t.clients.at(client_id).outbox.last()]);
    }
}

/// A source that a clipboard manager puts on a selection is on that selection, and
/// is spent.
pub proof fn lemma_managed_source_is_selected(s: StateView, msg: ClientMessage, id: u32)
    requires
        msg.op_code == 0 || msg.op_code == 2,
        msg.word(0) == Some(id),
        id != 0,
        s.data.data_sources.has((msg.client_id, id)),
        s.data.data_sources.at((msg.client_id, id)).interface is DataControl,
        s.data.data_sources.at((msg.client_id, id)).role is Unused,
    ensures
        ({
            let t = s.control_device_request(msg);
            let which = if msg.op_code == 0 { Which::Clipboard } else { Which::Primary };
            t == s.spend_source((msg.client_id, id)).select(which, Some((msg.client_id, id)))
        }),
{
}

} // verus!
