//! Per-client connection state.
use crate::protocol::ObjectType;
use crate::protocol::messages::{build_message, event, Message, messages_view, MessageView, one_arg};
use crate::protocol::wire_utils::{Arg, args_view, ArgView};
use crate::table::{Dict, Table};
use crate::text::{decimal, with_number};
use vstd::prelude::*;
use vstd::string::*;

verus! {

/// The most file descriptors a client can have queued but unclaimed before we give up
pub const MAX_PENDING_FDS: usize = 256;

/// The first object id the compositor can hand out.
pub const SERVER_ID_BASE: u32 = 0xff00_0000;

/// The id of `wl_display`, which every client has from the start.
pub const DISPLAY_ID: u32 = 1;

/// `wl_display.error`
pub const DISPLAY_ERROR: u16 = 0;

/// `wl_display.delete_id`
pub const DISPLAY_DELETE_ID: u16 = 1;

/// Whether an object id belongs to the compositor's half of the id space or a client
pub fn is_server_id(id: u32) -> (r: bool)
    ensures
        r == (id >= SERVER_ID_BASE),
{
    id >= SERVER_ID_BASE
}

/// Client state
pub struct ClientState {
    /// Client created objects (id, type.)  The actual data is stored in compositor state.
    pub objects: Table<u32, ObjectType>,
    /// Maps object id to bound interface version for version-gated events
    pub object_versions: Table<u32, u32>,
    /// What this client is to be told and has not yet been, oldest first
    pub outbox: Vec<Message>,
    /// Descriptors this client has sent that no request has claimed yet, in arrival order
    pub fd_queue: Vec<i32>,
    /// Whether this client is to be disconnected
    pub cancelled: bool,
    /// Next id to hand out from the compositor's half of the id space.
    pub next_server_id: u32,
}

/// What is known of a client.
#[verifier::ext_equal]
pub struct ClientView {
    pub objects: Dict<u32, ObjectType>,
    pub object_versions: Dict<u32, u32>,
    pub outbox: Seq<MessageView>,
    pub fd_queue: Seq<i32>,
    pub cancelled: bool,
    pub next_server_id: u32,
}

impl View for ClientState {
    type V = ClientView;

    open spec fn view(&self) -> ClientView {
        ClientView {
            objects: self.objects@,
            object_versions: self.object_versions@,
            outbox: messages_view(self.outbox@),
            fd_queue: self.fd_queue@,
            cancelled: self.cancelled,
            next_server_id: self.next_server_id,
        }
    }
}

impl ClientView {
    /// A client that has just connected: it has `wl_display` and nothing else.
    pub open spec fn fresh() -> Self {
        ClientView {
            objects: Dict::empty().put(DISPLAY_ID, ObjectType::WlDisplay),
            object_versions: Dict::empty(),
            outbox: Seq::empty(),
            fd_queue: Seq::empty(),
            cancelled: false,
            next_server_id: SERVER_ID_BASE,
        }
    }

    /// With one more message queued.
    pub open spec fn said(self, m: MessageView) -> Self {
        ClientView { outbox: self.outbox.push(m), ..self }
    }

    /// Told of a fatal error, and to be disconnected.
    pub open spec fn failed(self, object_id: u32, code: u32, text: Seq<char>) -> Self {
        ClientView {
            cancelled: true,
            ..self.said(
                event(
                    DISPLAY_ID,
                    DISPLAY_ERROR,
                    seq![ArgView::Uint(object_id), ArgView::Uint(code), ArgView::Str(text)],
                ),
            )
        }
    }

    /// Whether a client may give an object this id: it is in the client's half
    /// of the id space and names nothing live.
    pub open spec fn may_name(self, id: u32) -> bool {
        id != 0 && id < SERVER_ID_BASE && !self.objects.has(id)
    }

    /// After a client has named an object that it may not, which is fatal.
    pub open spec fn misnamed(self, id: u32) -> Self {
        if id == 0 || id >= SERVER_ID_BASE {
            self.failed(id, 0, "object id "@ + decimal(id as int) + " is outside the client id space"@)
        } else {
            self.failed(id, 0, "object id "@ + decimal(id as int) + " is already in use"@)
        }
    }

    /// After a client has named an object.
    pub open spec fn registered(self, id: u32, object_type: ObjectType) -> Self {
        if self.may_name(id) {
            ClientView { objects: self.objects.put(id, object_type), ..self }
        } else {
            self.misnamed(id)
        }
    }

    /// After a client has named an object with a version.
    pub open spec fn registered_at(self, id: u32, object_type: ObjectType, version: u32) -> Self {
        if self.may_name(id) {
            ClientView {
                objects: self.objects.put(id, object_type),
                object_versions: self.object_versions.put(id, version),
                ..self
            }
        } else {
            self.misnamed(id)
        }
    }

    /// Whether the compositor has an id left to give.
    pub open spec fn can_serve(self) -> bool {
        self.next_server_id < u32::MAX
    }

    /// After the compositor has named an object.
    pub open spec fn served(self, object_type: ObjectType) -> Self {
        if self.can_serve() {
            ClientView {
                objects: self.objects.put(self.next_server_id, object_type),
                next_server_id: (self.next_server_id + 1) as u32,
                ..self
            }
        } else {
            self
        }
    }

    /// After the compositor has named an object with a version.
    pub open spec fn served_at(self, object_type: ObjectType, version: u32) -> Self {
        if self.can_serve() {
            ClientView {
                object_versions: self.object_versions.put(self.next_server_id, version),
                ..self.served(object_type)
            }
        } else {
            self
        }
    }

    /// The version an object was bound at, which is 1 where none was recorded.
    pub open spec fn version(self, id: u32) -> u32 {
        if self.object_versions.has(id) {
            self.object_versions.at(id)
        } else {
            1
        }
    }

    /// After an object is gone. The client is told that the id is free again
    /// if the id was the client's to give.
    pub open spec fn unregistered(self, id: u32) -> Self {
        let gone = ClientView {
            objects: self.objects.without(id),
            object_versions: self.object_versions.without(id),
            ..self
        };
        if id >= SERVER_ID_BASE {
            gone
        } else {
            gone.said(event(DISPLAY_ID, DISPLAY_DELETE_ID, seq![ArgView::Uint(id)]))
        }
    }
}

impl ClientState {
    /// The state of a client that has just connected
    pub fn new() -> (r: Self)
        ensures
            r@ == ClientView::fresh(),
    {
        let mut objects: Table<u32, ObjectType> = Table::new();
        objects.insert(DISPLAY_ID, ObjectType::WlDisplay);
        let r = ClientState {
            objects,
            object_versions: Table::new(),
            outbox: Vec::new(),
            fd_queue: Vec::new(),
            cancelled: false,
            next_server_id: SERVER_ID_BASE,
        };
        proof {
            assert(r@ =~= ClientView::fresh());
        }
        r
    }

    /// Register a newly created client wayland object
    ///
    /// # Errors
    ///
    /// Returns `Err` if the id is not the client's to give, or names an object
    /// that is still live. Either is fatal to the client.
    pub fn register_client_object(&mut self, id: u32, object_type: ObjectType) -> (r: Result<(), ()>)
        ensures
            final(self)@ == old(self)@.registered(id, object_type),
            r is Ok <==> old(self)@.may_name(id),
    {
        if id == 0 || is_server_id(id) {
            let text = with_number("object id ", id as i64, " is outside the client id space");
            self.send_error(id, 0, text);
            return Err(());
        }
        if self.objects.contains(id) {
            let text = with_number("object id ", id as i64, " is already in use");
            self.send_error(id, 0, text);
            return Err(());
        }
        self.objects.insert(id, object_type);
        Ok(())
    }

    /// Registers a new client wayland object with wayland protocol version information
    pub fn register_client_object_with_version(&mut self, id: u32, object_type: ObjectType, version: u32) -> (r: Result<
        (),
        (),
    >)
        ensures
            final(self)@ == old(self)@.registered_at(id, object_type, version),
            r is Ok <==> old(self)@.may_name(id),
    {
        match self.register_client_object(id, object_type) {
            Ok(()) => {
                self.object_versions.insert(id, version);
                Ok(())
            },
            Err(()) => Err(()),
        }
    }

    /// Registers a newly created server wayland object
    pub fn register_server_object(&mut self, object_type: ObjectType) -> (r: Option<u32>)
        ensures
            final(self)@ == old(self)@.served(object_type),
            r == if old(self)@.can_serve() {
                Some(old(self)@.next_server_id)
            } else {
                None
            },
    {
        let id = self.next_server_id;
        if id == u32::MAX {
            return None;
        }
        self.next_server_id = id + 1;
        self.objects.insert(id, object_type);
        Some(id)
    }

    /// Registers a new server wayland object with wayland protocol version information
    pub fn register_server_object_with_version(&mut self, object_type: ObjectType, version: u32) -> (r: Option<u32>)
        ensures
            final(self)@ == old(self)@.served_at(object_type, version),
            r == if old(self)@.can_serve() {
                Some(old(self)@.next_server_id)
            } else {
                None
            },
    {
        match self.register_server_object(object_type) {
            Some(id) => {
                self.object_versions.insert(id, version);
                Some(id)
            },
            None => None,
        }
    }

    /// Gets the version of an object, defaulting to 1 if the object was registered without
    pub fn version(&self, id: u32) -> (r: u32)
        ensures
            r == self@.version(id),
    {
        match self.object_versions.get(id) {
            Some(v) => *v,
            None => 1,
        }
    }

    /// Unregister a wayland client object
    pub fn unregister(&mut self, id: u32)
        ensures
            final(self)@ == old(self)@.unregistered(id),
    {
        let _ = self.objects.remove(id);
        let _ = self.object_versions.remove(id);
        if is_server_id(id) {
            return;
        }
        self.send(build_message(DISPLAY_ID, DISPLAY_DELETE_ID, one_arg(id)));
    }

    /// Queue the descriptors one read of this client's socket delivered
    ///
    /// # Errors
    ///
    /// Returns `Err` if the client has gone past [`MAX_PENDING_FDS`] unclaimed
    /// descriptors, having emptied the queue into the descriptors to close and
    /// dropped the client
    pub fn queue_fds(&mut self, fds: Vec<i32>) -> (r: Result<(), Vec<i32>>)
        ensures
            old(self)@.fd_queue.len() + fds@.len() <= MAX_PENDING_FDS ==> r is Ok && final(self)@ == (ClientView {
                fd_queue: old(self)@.fd_queue + fds@,
                ..old(self)@
            }),
            old(self)@.fd_queue.len() + fds@.len() > MAX_PENDING_FDS ==> final(self)@ == (ClientView {
                fd_queue: Seq::empty(),
                cancelled: true,
                ..old(self)@
            }) && match r {
                Ok(()) => false,
                Err(all) => all@ == old(self)@.fd_queue + fds@,
            },
    {
        let mut fds = fds;
        self.fd_queue.append(&mut fds);
        if self.fd_queue.len() > MAX_PENDING_FDS {
            let mut all: Vec<i32> = Vec::new();
            core::mem::swap(&mut self.fd_queue, &mut all);
            self.cancelled = true;
            proof {
                assert(self@.fd_queue =~= Seq::<i32>::empty());
            }
            return Err(all);
        }
        Ok(())
    }

    /// Queue a message for delivery to this client's wayland socket
    pub fn send(&mut self, msg: Message)
        ensures
            final(self)@ == old(self)@.said(msg@),
    {
        let ghost before = self.outbox@;
        self.outbox.push(msg);
        proof {
            assert(self@.outbox =~= messages_view(before).push(msg@));
        }
    }

    /// Queue several messages for delivery to this client's wayland socket
    pub fn send_all(&mut self, msgs: Vec<Message>)
        ensures
            final(self)@ == (ClientView { outbox: old(self)@.outbox + messages_view(msgs@), ..old(self)@ }),
    {
        let ghost before = self.outbox@;
        let ghost added = msgs@;
        let mut msgs = msgs;
        self.outbox.append(&mut msgs);
        proof {
            assert(self@.outbox =~= messages_view(before) + messages_view(added));
        }
    }

    /// Send a `wl_display.error` to this client and disconnect it
    pub fn send_error(&mut self, object_id: u32, code: u32, msg: String)
        ensures
            final(self)@ == old(self)@.failed(object_id, code, msg@),
    {
        let args: Vec<Arg> = vec![Arg::Uint(object_id), Arg::Uint(code), Arg::Str(msg)];
        proof {
            assert(args_view(args@) =~= seq![ArgView::Uint(object_id), ArgView::Uint(code), ArgView::Str(msg@)]);
        }
        self.send(build_message(DISPLAY_ID, DISPLAY_ERROR, args));
        self.cancelled = true;
    }

    /// Take what is queued for this client, to send it.
    pub fn take_outbox(&mut self) -> (r: Vec<Message>)
        ensures
            messages_view(r@) == old(self)@.outbox,
            final(self)@ == (ClientView { outbox: Seq::empty(), ..old(self)@ }),
    {
        let mut out: Vec<Message> = Vec::new();
        core::mem::swap(&mut self.outbox, &mut out);
        proof {
            assert(self@.outbox =~= Seq::<MessageView>::empty());
        }
        out
    }
}

/// All clients on the compositor keyed by client id
pub struct Clients {
    states: Table<u32, ClientState>,
}

impl View for Clients {
    type V = Dict<u32, ClientView>;

    closed spec fn view(&self) -> Dict<u32, ClientView> {
        self.states@
    }
}

impl Clients {
    /// No clients at all
    pub fn new() -> (r: Self)
        ensures
            r@ == Dict::<u32, ClientView>::empty(),
    {
        Clients { states: Table::new() }
    }

    /// Bring to mind that the order of the clients names each once.
    pub fn known(&self)
        ensures
            self@.ok(),
    {
        self.states.known();
    }

    /// Create/add a new client
    pub fn create(&mut self, client_id: u32)
        ensures
            final(self)@ == old(self)@.put(client_id, ClientView::fresh()),
    {
        self.states.insert(client_id, ClientState::new());
    }

    /// A client, to change
    pub fn get(&mut self, client_id: u32) -> (r: Option<&mut ClientState>)
        ensures
            match r {
                Some(c) => old(self)@.has(client_id) && c@ == old(self)@.at(client_id) && final(self)@ == old(
                    self,
                )@.put(client_id, final(c)@),
                None => !old(self)@.has(client_id) && *final(self) == *old(self),
            },
    {
        self.states.get_mut(client_id)
    }

    /// A client, to read
    pub fn peek(&self, client_id: u32) -> (r: Option<&ClientState>)
        ensures
            match r {
                Some(c) => self@.has(client_id) && c@ == self@.at(client_id),
                None => !self@.has(client_id),
            },
    {
        self.states.get(client_id)
    }

    /// Remove a client
    pub fn remove(&mut self, client_id: u32)
        ensures
            final(self)@ == old(self)@.without(client_id),
    {
        let _ = self.states.remove(client_id);
    }

    /// How many clients there are
    pub fn len(&self) -> (r: usize)
        ensures
            r == self@.order.len(),
    {
        self.states.len()
    }

    /// The id of a client by its place in the order they connected in
    pub fn id_at(&self, i: usize) -> (r: u32)
        requires
            i < self@.order.len(),
        ensures
            r == self@.order[i as int],
            self@.has(r),
    {
        self.states.key_at(i)
    }

    /// The version an object was bound at, without borrowing the collection
    /// mutably
    pub fn version_of(&self, client_id: u32, object_id: u32) -> (r: Option<u32>)
        ensures
            r == if self@.has(client_id) {
                Some(self@.at(client_id).version(object_id))
            } else {
                None
            },
    {
        match self.states.get(client_id) {
            Some(c) => Some(c.version(object_id)),
            None => None,
        }
    }
}

} // verus!
