//! Sources, and the offers made of them.
use crate::protocol::ObjectType;
use crate::protocol::messages::{
    build_message, event, EventView, Message, messages_view, MessageView, Notice, one_string,
};
use crate::protocol::wire_utils::ArgView;
use crate::state::client_state::ClientView;
use crate::state::compositor_state::{CompositorState, ExchangeView, StateView};
use crate::state::types::{
    ClientObjectId, DataInterface, DataOffer, DataOfferView, DataSourceView, OfferKind,
    same_opt_key, texts,
};
use vstd::prelude::*;

verus! {

/// `offer`, the one event an offer of any of the three interfaces carries.
pub const OFFER: u16 = 0;

/// `data_offer`, by which a device introduces an offer.
pub const DATA_OFFER: u16 = 0;

/// `send`, on a source of the two interfaces other than `wl_data_source`.
pub const SOURCE_SEND: u16 = 0;

/// `cancelled`, on a source of the two interfaces other than `wl_data_source`.
pub const SOURCE_CANCELLED: u16 = 1;

/// The type of the offers of an interface.
pub open spec fn offer_type(interface: DataInterface) -> ObjectType {
    match interface {
        DataInterface::WlData => ObjectType::WlDataOffer,
        DataInterface::PrimarySelection => ObjectType::ZwpPrimarySelectionOffer,
        DataInterface::DataControl => ObjectType::ZwlrDataControlOffer,
    }
}

/// How a device of an interface introduces an offer.
pub open spec fn offer_intro(interface: DataInterface, device: u32, offer: u32) -> MessageView {
    match interface {
        DataInterface::WlData => MessageView::Notice(Notice::DeviceOffer { device, offer }),
        _ => event(device, DATA_OFFER, seq![ArgView::Uint(offer)]),
    }
}

/// The events that name what is behind an offer.
pub open spec fn offer_events(offer: u32, mime_types: Seq<Seq<char>>) -> Seq<MessageView> {
    mime_types.map_values(|m: Seq<char>| event(offer, OFFER, seq![ArgView::Str(m)]))
}

/// The same texts again.
pub fn copy_texts(v: &Vec<String>) -> (r: Vec<String>)
    ensures
        texts(r@) == texts(v@),
{
    let mut r: Vec<String> = Vec::new();
    let mut i: usize = 0;
    while i < v.len()
        invariant
            i <= v@.len(),
            texts(r@) == texts(v@.take(i as int)),
            r@.len() == i,
        decreases v@.len() - i,
    {
        let ghost before = r@;
        r.push(v[i].clone());
        i += 1;
        proof {
            assert forall|j: int| 0 <= j < i implies #[trigger] texts(r@)[j] == texts(v@.take(i as int))[j] by {
                if j < i - 1 {
                    assert(texts(before)[j] == texts(v@.take(i - 1))[j]);
                }
            }
            assert(texts(r@) =~= texts(v@.take(i as int)));
        }
    }
    proof {
        assert(v@.take(i as int) =~= v@);
    }
    r
}

fn offer_messages(offer: u32, mime_types: Vec<String>) -> (r: Vec<Message>)
    ensures
        messages_view(r@) == offer_events(offer, texts(mime_types@)),
{
    let mut r: Vec<Message> = Vec::new();
    let mut i: usize = 0;
    while i < mime_types.len()
        invariant
            i <= mime_types@.len(),
            messages_view(r@) == offer_events(offer, texts(mime_types@.take(i as int))),
            r@.len() == i,
        decreases mime_types@.len() - i,
    {
        let ghost before = r@;
        r.push(build_message(offer, OFFER, one_string(mime_types[i].clone())));
        i += 1;
        proof {
            assert forall|j: int| 0 <= j < i implies #[trigger] messages_view(r@)[j] == offer_events(
                offer,
                texts(mime_types@.take(i as int)),
            )[j] by {
                if j < i - 1 {
                    assert(messages_view(before)[j] == offer_events(offer, texts(mime_types@.take(i - 1)))[j]);
                }
            }
            assert(messages_view(r@) =~= offer_events(offer, texts(mime_types@.take(i as int))));
        }
    }
    proof {
        assert(mime_types@.take(i as int) =~= mime_types@);
    }
    r
}

/// An offer cut loose if it is of a source.
pub open spec fn cut_from(source: ClientObjectId) -> spec_fn(ClientObjectId, DataOfferView) -> DataOfferView {
    |k: ClientObjectId, o: DataOfferView|
        if o.source == Some(source) {
            o.cut()
        } else {
            o
        }
}

/// An offer cut loose if it is of any source of a client.
pub open spec fn cut_from_client(client_id: u32) -> spec_fn(ClientObjectId, DataOfferView) -> DataOfferView {
    |k: ClientObjectId, o: DataOfferView|
        match o.source {
            Some(source) => if source.0 == client_id {
                o.cut()
            } else {
                o
            },
            None => o,
        }
}

impl StateView {
    /// The interface a source speaks, if there is such a source.
    pub open spec fn source_interface(self, source: ClientObjectId) -> Option<DataInterface> {
        if self.data.data_sources.has(source) {
            Some(self.data.data_sources.at(source).interface)
        } else {
            None
        }
    }

    /// What a source can be had as.
    pub open spec fn mime_types_of(self, source: ClientObjectId) -> Seq<Seq<char>> {
        if self.data.data_sources.has(source) {
            self.data.data_sources.at(source).mime_types
        } else {
            Seq::empty()
        }
    }

    /// With a source noted as cancelled.
    pub open spec fn set_cancelled(self, source: ClientObjectId) -> Self {
        StateView {
            data: ExchangeView {
                data_sources: self.data.data_sources.edit(
                    source,
                    |s: DataSourceView| DataSourceView { cancelled: true, ..s },
                ),
                ..self.data
            },
            ..self
        }
    }

    /// With a source told it is cancelled, through the interface it speaks.
    pub open spec fn tell_cancelled(self, source: ClientObjectId) -> Self {
        match self.source_interface(source) {
            Some(DataInterface::WlData) => self.notice(source.0, Notice::SourceCancelled { source: source.1 }),
            Some(_) => self.tell(source.0, event(source.1, SOURCE_CANCELLED, Seq::empty())),
            None => self,
        }
    }

    /// With a source cancelled and told so.
    pub open spec fn cancel_source(self, source: ClientObjectId) -> Self {
        self.set_cancelled(source).tell_cancelled(source)
    }

    /// With a source asked to send its content down a pipe, through the
    /// interface it speaks. With no such source the pipe is closed.
    pub open spec fn send_source_content(self, source: ClientObjectId, mime_type: Seq<char>, fd: i32) -> Self {
        match self.source_interface(source) {
            Some(DataInterface::WlData) => if self.clients.has(source.0) {
                self.tell(source.0, MessageView::Transfer { source: source.1, mime_type, fd })
            } else {
                self.close_fd(fd)
            },
            Some(_) => self.ask_for_content(source, mime_type, fd),
            None => self.close_fd(fd),
        }
    }

    /// With a source asked to send its content down a pipe, by an event of its
    /// own interface. With no such client the pipe is closed.
    pub open spec fn ask_for_content(self, source: ClientObjectId, mime_type: Seq<char>, fd: i32) -> Self {
        if self.clients.has(source.0) {
            self.tell(
                source.0,
                MessageView::Event(
                    EventView {
                        object_id: source.1,
                        op_code: SOURCE_SEND,
                        args: seq![ArgView::Str(mime_type)],
                        fds: seq![fd],
                    },
                ),
            )
        } else {
            self.close_fd(fd)
        }
    }

    /// With every offer of a source cut loose from it.
    pub open spec fn invalidate_offers_from(self, source: ClientObjectId) -> Self {
        StateView {
            data: ExchangeView { data_offers: self.data.data_offers.each(cut_from(source)), ..self.data },
            ..self
        }
    }

    /// With every offer of any source of a client cut loose.
    pub open spec fn invalidate_sources_of(self, client_id: u32) -> Self {
        StateView {
            data: ExchangeView { data_offers: self.data.data_offers.each(cut_from_client(client_id)), ..self.data },
            ..self
        }
    }

    /// With one offer cut loose from its source.
    pub open spec fn invalidate_offer(self, offer: ClientObjectId) -> Self {
        StateView {
            data: ExchangeView {
                data_offers: self.data.data_offers.edit(offer, |o: DataOfferView| o.cut()),
                ..self.data
            },
            ..self
        }
    }

    /// With several offers cut loose from their source.
    pub open spec fn invalidate_each(self, offers: Seq<ClientObjectId>) -> Self
        decreases offers.len(),
    {
        if offers.len() == 0 {
            self
        } else {
            self.invalidate_each(offers.drop_last()).invalidate_offer(offers.last())
        }
    }

    /// Whether a client can be given an offer: it is connected, and the
    /// compositor has an id left to give it.
    pub open spec fn can_offer(self, client_id: u32) -> bool {
        self.clients.has(client_id) && self.clients.at(client_id).can_serve()
    }

    /// The offer a client would be given next.
    pub open spec fn next_offer(self, client_id: u32) -> ClientObjectId {
        (client_id, self.clients.at(client_id).next_server_id)
    }

    /// With an id of the compositor's given to a new offer of a client. The
    /// offer has the version of its device, except where the interface has one
    /// version.
    pub open spec fn name_offer(self, client_id: u32, device_id: u32, interface: DataInterface) -> Self {
        StateView {
            clients: self.clients.edit(
                client_id,
                |c: ClientView|
                    if interface is PrimarySelection {
                        c.served(offer_type(interface))
                    } else {
                        c.served_at(offer_type(interface), c.version(device_id))
                    },
            ),
            ..self
        }
    }

    /// With an offer recorded.
    pub open spec fn put_offer(self, offer: ClientObjectId, source: ClientObjectId, kind: OfferKind) -> Self {
        StateView {
            data: ExchangeView {
                data_offers: self.data.data_offers.put(offer, DataOfferView::fresh(offer.0, source, kind)),
                ..self.data
            },
            ..self
        }
    }

    /// With an offer of a source created on a device, if it can be: the client
    /// is told that the offer exists and then what is behind it.
    pub open spec fn create_offer(
        self,
        client_id: u32,
        device_id: u32,
        source: ClientObjectId,
        interface: DataInterface,
        kind: OfferKind,
    ) -> Self {
        let offer = self.next_offer(client_id);
        if !self.can_offer(client_id) {
            self
        } else {
            self.name_offer(client_id, device_id, interface).put_offer(offer, source, kind).tell(
                client_id,
                offer_intro(interface, device_id, offer.1),
            ).tell_all(client_id, offer_events(offer.1, self.mime_types_of(source)))
        }
    }
}

impl CompositorState {
    /// The interface a source speaks, if there is such a source.
    pub fn source_interface(&self, source: ClientObjectId) -> (r: Option<DataInterface>)
        ensures
            r == self@.source_interface(source),
    {
        match self.data.data_sources.get(source) {
            Some(s) => Some(s.interface),
            None => None,
        }
    }

    fn set_cancelled(&mut self, source: ClientObjectId)
        ensures
            final(self)@ == old(self)@.set_cancelled(source),
    {
        if let Some(s) = self.data.data_sources.get_mut(source) {
            s.cancelled = true;
        }
    }

    fn tell_cancelled(&mut self, source: ClientObjectId)
        ensures
            final(self)@ == old(self)@.tell_cancelled(source),
    {
        match self.source_interface(source) {
            Some(DataInterface::WlData) => {
                self.notice(source.0, Notice::SourceCancelled { source: source.1 });
            },
            Some(DataInterface::PrimarySelection) => {
                crate::protocol::zwp_primary_selection_source::send_cancelled(self, source);
            },
            Some(DataInterface::DataControl) => {
                crate::protocol::zwlr_data_control_source::send_cancelled(self, source);
            },
            None => {},
        }
    }

    /// Tell whichever interface owns a source that it has been cancelled.
    pub fn cancel_source(&mut self, source: ClientObjectId)
        ensures
            final(self)@ == old(self)@.cancel_source(source),
    {
        self.set_cancelled(source);
        self.tell_cancelled(source);
    }

    /// Ask whichever interface owns a data source to hand over its content.
    pub fn send_source_content(&mut self, source: ClientObjectId, mime_type: String, fd: i32)
        ensures
            final(self)@ == old(self)@.send_source_content(source, mime_type@, fd),
    {
        match self.source_interface(source) {
            Some(DataInterface::WlData) => {
                if self.clients.peek(source.0).is_some() {
                    self.tell(source.0, Message::Transfer { source: source.1, mime_type, fd });
                } else {
                    self.mem.closed_fds.push(fd);
                }
            },
            Some(DataInterface::PrimarySelection) => {
                crate::protocol::zwp_primary_selection_source::send_send(self, source, mime_type, fd);
            },
            Some(DataInterface::DataControl) => {
                crate::protocol::zwlr_data_control_source::send_send(self, source, mime_type, fd);
            },
            None => {
                self.mem.closed_fds.push(fd);
            },
        }
    }

    /// Cut every offer drawing from a source loose from it.
    ///
    /// The offers are not destroyed. Their clients still own the ids and will
    /// still send requests on them - so the compositor forgets what an offer
    /// contains and keeps the fact that it exists. A read from one then closes
    /// the pipe, which the client sees as an empty transfer.
    pub fn invalidate_offers_from(&mut self, source: ClientObjectId)
        ensures
            final(self)@ == old(self)@.invalidate_offers_from(source),
    {
        let ghost f = cut_from(source);
        let ghost before = self@.data.data_offers;
        self.data.data_offers.known();
        proof {
            before.lemma_each(f);
        }
        let n: usize = self.data.data_offers.len();
        let mut i: usize = 0;
        while i < n
            invariant
                i <= n,
                n == before.order.len(),
                before.ok(),
                f == cut_from(source),
                self@ == (StateView {
                    data: ExchangeView { data_offers: before.each_first(i as int, f), ..old(self)@.data },
                    ..old(self)@
                }),
            decreases n - i,
        {
            proof {
                before.lemma_each_step(i as int, f);
            }
            let offer = self.data.data_offers.value_at_mut(i);
            if same_opt_key(offer.source, Some(source)) {
                offer.source = None;
                offer.accepted = None;
            }
            i += 1;
        }
    }

    /// Cut every offer drawing from any source of a client loose from it.
    pub fn invalidate_sources_of(&mut self, client_id: u32)
        ensures
            final(self)@ == old(self)@.invalidate_sources_of(client_id),
    {
        let ghost f = cut_from_client(client_id);
        let ghost before = self@.data.data_offers;
        self.data.data_offers.known();
        proof {
            before.lemma_each(f);
        }
        let n: usize = self.data.data_offers.len();
        let mut i: usize = 0;
        while i < n
            invariant
                i <= n,
                n == before.order.len(),
                before.ok(),
                f == cut_from_client(client_id),
                self@ == (StateView {
                    data: ExchangeView { data_offers: before.each_first(i as int, f), ..old(self)@.data },
                    ..old(self)@
                }),
            decreases n - i,
        {
            proof {
                before.lemma_each_step(i as int, f);
            }
            let offer = self.data.data_offers.value_at_mut(i);
            let theirs: bool = match offer.source {
                Some(source) => source.0 == client_id,
                None => false,
            };
            if theirs {
                offer.source = None;
                offer.accepted = None;
            }
            i += 1;
        }
    }

    /// Cut one offer loose from its source, leaving the object in place.
    pub fn invalidate_offer(&mut self, offer: ClientObjectId)
        ensures
            final(self)@ == old(self)@.invalidate_offer(offer),
    {
        if let Some(offer) = self.data.data_offers.get_mut(offer) {
            offer.source = None;
            offer.accepted = None;
        }
    }

    pub fn invalidate_each(&mut self, offers: &Vec<ClientObjectId>)
        ensures
            final(self)@ == old(self)@.invalidate_each(offers@),
    {
        let mut i: usize = 0;
        while i < offers.len()
            invariant
                i <= offers@.len(),
                self@ == old(self)@.invalidate_each(offers@.take(i as int)),
            decreases offers@.len() - i,
        {
            proof {
                assert(offers@.take(i + 1).drop_last() =~= offers@.take(i as int));
            }
            self.invalidate_offer(offers[i]);
            i += 1;
        }
        proof {
            assert(offers@.take(i as int) =~= offers@);
        }
    }

    fn name_offer(&mut self, client_id: u32, device_id: u32, interface: DataInterface) -> (r: Option<u32>)
        ensures
            final(self)@ == old(self)@.name_offer(client_id, device_id, interface),
            r == if old(self)@.can_offer(client_id) {
                Some(old(self)@.next_offer(client_id).1)
            } else {
                None
            },
            r is None ==> final(self)@ == old(self)@,
    {
        match self.clients.get(client_id) {
            None => None,
            Some(client) => match interface {
                DataInterface::PrimarySelection => client.register_server_object(ObjectType::ZwpPrimarySelectionOffer),
                DataInterface::DataControl => {
                    let version = client.version(device_id);
                    client.register_server_object_with_version(ObjectType::ZwlrDataControlOffer, version)
                },
                DataInterface::WlData => {
                    let version = client.version(device_id);
                    client.register_server_object_with_version(ObjectType::WlDataOffer, version)
                },
            },
        }
    }

    fn introduce_offer(&mut self, client_id: u32, interface: DataInterface, device: u32, offer: u32)
        ensures
            final(self)@ == old(self)@.tell(client_id, offer_intro(interface, device, offer)),
    {
        match interface {
            DataInterface::WlData => {
                self.notice(client_id, Notice::DeviceOffer { device, offer });
            },
            DataInterface::PrimarySelection => {
                crate::protocol::zwp_primary_selection_device::send_data_offer(self, client_id, device, offer);
            },
            DataInterface::DataControl => {
                crate::protocol::zwlr_data_control_device::send_data_offer(self, client_id, device, offer);
            },
        }
    }

    /// Create an offer on one device and tell the client what is in it.
    ///
    /// The order is the protocol's: the client has to have been told the object
    /// exists, and what mime types are behind it, before it is told what the
    /// offer is for.
    ///
    /// Returns the offer's key, or `None` if the client is gone or its server id
    /// space is spent.
    pub fn create_offer(
        &mut self,
        client_id: u32,
        device_id: u32,
        source: ClientObjectId,
        interface: DataInterface,
        kind: OfferKind,
    ) -> (r: Option<ClientObjectId>)
        ensures
            final(self)@ == old(self)@.create_offer(client_id, device_id, source, interface, kind),
            r == if old(self)@.can_offer(client_id) {
                Some(old(self)@.next_offer(client_id))
            } else {
                None
            },
    {
        let mime_types: Vec<String> = match self.data.data_sources.get(source) {
            Some(s) => copy_texts(&s.mime_types),
            None => Vec::new(),
        };
        proof {
            assert(texts(mime_types@) =~= self@.mime_types_of(source));
        }
        let offer_id: u32 = match self.name_offer(client_id, device_id, interface) {
            Some(id) => id,
            None => {
                return None;
            },
        };
        let offer = (client_id, offer_id);
        self.data.data_offers.insert(offer, DataOffer::new(client_id, source, kind));
        self.introduce_offer(client_id, interface, device_id, offer_id);
        self.tell_all(client_id, offer_messages(offer_id, mime_types));
        Some(offer)
    }
}

} // verus!
