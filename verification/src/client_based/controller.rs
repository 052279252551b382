//! The controller of the client-based setup. It keeps, for each server of
//! its pool, the capacity not yet taken by running tasks: a task request
//! takes its size from the first server that has room (starting a new
//! server when none has), and the client's report gives it back.

use vstd::prelude::*;
use std::sync::Arc;
use std::sync::atomic::AtomicBool;
use crate::helper::{socket_addr, socket_addr_spec, lemma_socket_addr_injective};
use crate::server::{
    Server, ServerView, views, pool_server, any_interface, first_fit, is_first_fit,
    lemma_first_fit, lemma_no_fit, SERVER_CAPACITY,
};

verus! {

/// The port the controller listens on.
pub const INIT_PORT: i32 = 3333;

/// A client's use of a server.
#[derive(Clone)]
pub struct Connection {
    running: Arc<AtomicBool>,
    server_index: usize,
    server_addr: String,
    task_size: u64,
}

/// What a connection is, apart from its running flag.
pub struct ConnectionView {
    pub server_index: usize,
    pub server_addr: Seq<char>,
    pub task_size: u64,
}

impl View for Connection {
    type V = ConnectionView;

    closed spec fn view(&self) -> ConnectionView {
        ConnectionView {
            server_index: self.server_index,
            server_addr: self.server_addr@,
            task_size: self.task_size,
        }
    }
}

impl Connection {
    /// A connection of a task of `task_size` to the server at `server_addr`.
    pub fn new(running: Arc<AtomicBool>, server_index: usize, server_addr: String, task_size: u64) -> (c: Connection)
        ensures
            c@ == (ConnectionView { server_index, server_addr: server_addr@, task_size }),
            c.running_flag() == running,
    {
        Connection { running, server_index, server_addr, task_size }
    }

    /// The flag that tells whether the connection is still running.
    pub closed spec fn running_flag(&self) -> Arc<AtomicBool> {
        self.running
    }

    /// The flag that tells whether the connection is still running.
    pub fn get_running(&self) -> (running: &Arc<AtomicBool>)
        ensures
            *running == self.running_flag(),
    {
        &self.running
    }
}

impl PartialEq for Connection {
    fn eq(&self, other: &Self) -> (res: bool) {
        self.server_addr == other.server_addr
    }
}

impl vstd::std_specs::cmp::PartialEqSpecImpl for Connection {
    open spec fn obeys_eq_spec() -> bool {
        true
    }

    open spec fn eq_spec(&self, other: &Connection) -> bool {
        self@.server_addr == other@.server_addr
    }
}

/// How a report changes a server's remaining capacity.
pub enum SizeUpdate {
    /// The task is done: its size is given back.
    Release,
    /// The task is placed: its size is taken.
    Take,
}

/// The capacity that `update` leaves on a server of capacity `current` for a
/// task of `size`.
pub open spec fn apply_spec(update: SizeUpdate, current: u64, size: u64) -> int {
    match update {
        SizeUpdate::Release => current + size,
        SizeUpdate::Take => current - size,
    }
}

/// Whether `update` can be applied without leaving the range of `u64`.
pub open spec fn applicable(update: SizeUpdate, current: u64, size: u64) -> bool {
    0 <= apply_spec(update, current, size) <= u64::MAX
}

/// A server has room for a task when its remaining capacity is at least the
/// task's size.
pub open spec fn has_room(size: u64) -> spec_fn(ServerView) -> bool {
    |s: ServerView| s.size >= size
}

/// A server listens on `addr`.
pub open spec fn listens_on(addr: Seq<char>) -> spec_fn(ServerView) -> bool {
    |s: ServerView| s.addr == addr
}

/// The controller's bookkeeping: the last port given out, the number of
/// servers, its own address, the servers and the connections it tracks.
pub struct Controller {
    port: i32,
    num_of_servers: i32,
    addr: String,
    servers: Vec<Server>,
    connections: Vec<Connection>,
}

/// What a controller is.
pub struct ControllerView {
    pub port: int,
    pub num_of_servers: int,
    pub addr: Seq<char>,
    pub servers: Seq<ServerView>,
    pub connections: Seq<ConnectionView>,
}

impl View for Controller {
    type V = ControllerView;

    closed spec fn view(&self) -> ControllerView {
        ControllerView {
            port: self.port as int,
            num_of_servers: self.num_of_servers as int,
            addr: self.addr@,
            servers: views(self.servers@),
            connections: self.connections@.map_values(|c: Connection| c@),
        }
    }
}

/// The pool's shape: the controller listens on 3333, server `k` listens on
/// port `3334 + k` and stays busy ten seconds, the servers are counted, and
/// the last port given out is that of the last server.
pub open spec fn pool_wf(c: ControllerView) -> bool {
    &&& c.addr == socket_addr_spec(any_interface(), INIT_PORT as int)
    &&& c.num_of_servers == c.servers.len()
    &&& c.port == INIT_PORT + c.servers.len()
    &&& c.port <= i32::MAX
    &&& forall|k: int|
        0 <= k < c.servers.len() ==> (#[trigger] c.servers[k]).addr == pool_server(
            INIT_PORT + 1 + k,
        ).addr && c.servers[k].dur_secs == 10
}

/// The controller after it started a server on the next port.
pub open spec fn create_spec(c: ControllerView) -> ControllerView {
    ControllerView {
        port: c.port + 1,
        num_of_servers: c.num_of_servers + 1,
        servers: c.servers.push(pool_server(c.port + 1)),
        ..c
    }
}

/// The index of the server chosen for a task of `size`: the first with room,
/// or the one started for it.
pub open spec fn chosen_index(c: ControllerView, size: u64) -> int {
    match first_fit(c.servers, has_room(size)) {
        Some(i) => i,
        None => c.servers.len() as int,
    }
}

/// The controller once a server for a task of `size` is found or started.
pub open spec fn find_or_create_spec(c: ControllerView, size: u64) -> ControllerView {
    match first_fit(c.servers, has_room(size)) {
        Some(i) => c,
        None => create_spec(c),
    }
}

/// The controller after `update` of `size` on the first server at `addr`.
pub open spec fn update_spec(c: ControllerView, addr: Seq<char>, size: u64, update: SizeUpdate) -> ControllerView {
    let i = first_fit(c.servers, listens_on(addr)).unwrap();
    ControllerView {
        servers: c.servers.update(
            i,
            ServerView { size: apply_spec(update, c.servers[i].size, size) as u64, ..c.servers[i] },
        ),
        ..c
    }
}

/// Whether `update` of `size` can be made at `addr`: a server listens
/// there and its capacity stays in range.
pub open spec fn update_allowed(c: ControllerView, addr: Seq<char>, size: u64, update: SizeUpdate) -> bool {
    match first_fit(c.servers, listens_on(addr)) {
        Some(i) => applicable(update, c.servers[i].size, size),
        None => false,
    }
}

/// Whether a task of `size` can be placed: some server has room, or a new
/// server can be started (a port is left) and the task fits in it.
pub open spec fn assign_allowed(c: ControllerView, size: u64) -> bool {
    first_fit(c.servers, has_room(size)) is None ==> c.port < i32::MAX && size <= SERVER_CAPACITY
}

/// The controller after it placed a task of `size`, and the address of the
/// server the client is sent to.
pub open spec fn assign_spec(c: ControllerView, size: u64) -> (ControllerView, Seq<char>) {
    let c1 = find_or_create_spec(c, size);
    let i = chosen_index(c, size);
    (update_spec(c1, c1.servers[i].addr, size, SizeUpdate::Take), c1.servers[i].addr)
}

/// Under the pool's shape, different servers listen on different addresses.
pub proof fn lemma_addresses_distinct(c: ControllerView, i: int, j: int)
    requires
        pool_wf(c),
        0 <= i < c.servers.len(),
        0 <= j < c.servers.len(),
        i != j,
    ensures
        c.servers[i].addr != c.servers[j].addr,
{
    assert(c.servers[i].addr == pool_server(INIT_PORT + 1 + i).addr);
    assert(c.servers[j].addr == pool_server(INIT_PORT + 1 + j).addr);
    lemma_socket_addr_injective(any_interface(), INIT_PORT + 1 + i, INIT_PORT + 1 + j);
}

/// Under the pool's shape, the server found by address `c.servers[i].addr`
/// is server `i`.
pub proof fn lemma_find_by_addr(c: ControllerView, i: int)
    requires
        pool_wf(c),
        0 <= i < c.servers.len(),
    ensures
        first_fit(c.servers, listens_on(c.servers[i].addr)) == Some(i),
{
    assert forall|j: int| 0 <= j < i implies !listens_on(c.servers[i].addr)(
        #[trigger] c.servers[j],
    ) by {
        lemma_addresses_distinct(c, i, j);
    }
    lemma_first_fit(c.servers, listens_on(c.servers[i].addr), i);
}

impl Controller {
    /// The controller's invariant: the pool has its shape.
    pub open spec fn wf(&self) -> bool {
        pool_wf(self@)
    }

    /// A controller on port 3333 with one server started on port 3334 and
    /// no connection. Accepting clients is done by the program that holds it.
    pub fn new() -> (controller: Controller)
        ensures
            controller.wf(),
            controller@.port == INIT_PORT + 1,
            controller@.num_of_servers == 1,
            controller@.servers == seq![pool_server(INIT_PORT + 1)],
            controller@.connections.len() == 0,
    {
        let init_port = INIT_PORT;
        let num_of_servers: i32 = 1;
        let port = init_port + num_of_servers;
        proof {
            reveal_strlit("0.0.0.0:");
        }
        let controller = Controller {
            port,
            num_of_servers,
            addr: socket_addr("0.0.0.0:", init_port),
            servers: start_servers(init_port, num_of_servers),
            connections: Vec::new(),
        };
        assert(controller@.servers =~= seq![pool_server(INIT_PORT + 1)]);
        assert(controller@.connections =~= Seq::<ConnectionView>::empty());
        controller
    }

    /// The address the controller listens on.
    pub fn get_addr(&self) -> (addr: &String)
        ensures
            addr@ == self@.addr,
    {
        &self.addr
    }

    /// The servers of the pool, in the order they were started.
    pub fn get_servers(&self) -> (servers: &[Server])
        ensures
            views(servers@) == self@.servers,
    {
        self.servers.as_slice()
    }

    /// The index of the first server with room for a task of `size`.
    pub fn find_server(&self, size: u64) -> (res: Option<usize>)
        ensures
            match res {
                Some(i) => first_fit(self@.servers, has_room(size)) == Some(i as int),
                None => first_fit(self@.servers, has_room(size)) is None,
            },
    {
        let length = self.servers.len();
        let mut i: usize = 0;
        while i < length
            invariant
                length == self@.servers.len(),
                self@.servers.len() == self.servers@.len(),
                0 <= i <= length,
                forall|j: int| 0 <= j < i ==> !has_room(size)(#[trigger] self@.servers[j]),
            decreases length - i,
        {
            if *self.servers[i].get_size() >= size {
                proof {
                    lemma_first_fit(self@.servers, has_room(size), i as int);
                }
                return Some(i);
            }
            i = i + 1;
        }
        proof {
            lemma_no_fit(self@.servers, has_room(size));
        }
        None
    }

    /// The index of the first server with room for a task of `size`; when
    /// none has room, a server is started on the next port and its index
    /// returned.
    pub fn find_or_create_server(&mut self, size: u64) -> (index: usize)
        requires
            old(self).wf(),
            first_fit(old(self)@.servers, has_room(size)) is None ==> old(self)@.port < i32::MAX,
        ensures
            final(self).wf(),
            final(self)@ == find_or_create_spec(old(self)@, size),
            index == chosen_index(old(self)@, size),
            index < final(self)@.servers.len(),
            index <= old(self)@.servers.len(),
            forall|j: int| 0 <= j < index ==> (#[trigger] old(self)@.servers[j]).size < size,
            index < old(self)@.servers.len() ==> old(self)@.servers[index as int].size >= size,
    {
        proof {
            lemma_first_server_with_room(old(self)@, size);
        }
        match self.find_server(size) {
            Some(index) => index,
            None => self.create_server(),
        }
    }

    /// Starts a server on the next port, adds it to the pool and returns its
    /// index.
    pub fn create_server(&mut self) -> (index: usize)
        requires
            old(self).wf(),
            old(self)@.port < i32::MAX,
        ensures
            final(self).wf(),
            final(self)@ == create_spec(old(self)@),
            index == old(self)@.servers.len(),
    {
        proof {
            reveal_strlit("0.0.0.0:");
        }
        self.increment_port();
        let server_addr: String = socket_addr("0.0.0.0:", self.port);
        let server = Server::new(server_addr, 10);
        self.increment_num_of_servers();
        let ghost before = self.servers@;
        self.servers.push(server);
        assert(views(self.servers@) =~= views(before).push(server@));
        assert(self@.servers == old(self)@.servers.push(pool_server(old(self)@.port + 1)));
        self.servers.len() - 1
    }

    /// The address of the server at `index`.
    pub fn get_server_addr(&self, index: usize) -> (addr: String)
        requires
            index < self@.servers.len(),
        ensures
            addr@ == self@.servers[index as int].addr,
    {
        self.servers[index].get_addr().clone()
    }

    /// Applies `update` of `size` to the first server that listens on
    /// `addr`.
    pub fn update_server_size(&mut self, addr: String, size: u64, update: SizeUpdate)
        requires
            update_allowed(old(self)@, addr@, size, update),
        ensures
            final(self)@ == update_spec(old(self)@, addr@, size, update),
            pool_wf(old(self)@) ==> pool_wf(final(self)@),
    {
        let mut index: usize = 0;
        while index < self.servers.len()
            invariant
                self@ == old(self)@,
                self@.servers.len() == self.servers@.len(),
                0 <= index <= self@.servers.len(),
                forall|j: int| 0 <= j < index ==> !listens_on(addr@)(#[trigger] self@.servers[j]),
            ensures
                self@ == old(self)@,
                self@.servers.len() == self.servers@.len(),
                0 <= index <= self@.servers.len(),
                forall|j: int| 0 <= j < index ==> !listens_on(addr@)(#[trigger] self@.servers[j]),
                index < self@.servers.len() ==> listens_on(addr@)(self@.servers[index as int]),
            decreases self@.servers.len() - index,
        {
            if *self.servers[index].get_addr() == addr {
                break;
            }
            index += 1;
        }
        if index == self.servers.len() {
            proof {
                lemma_no_fit(self@.servers, listens_on(addr@));
            }
        }
        proof {
            lemma_first_fit(self@.servers, listens_on(addr@), index as int);
        }
        let current_size: u64 = *self.servers[index].get_size();
        let new_size: u64 = match update {
            SizeUpdate::Release => current_size + size,
            SizeUpdate::Take => current_size - size,
        };
        self.servers[index].set_size(new_size);
        assert(views(self.servers@) =~= update_spec(old(self)@, addr@, size, update).servers);
    }

    fn increment_port(&mut self)
        requires
            old(self).port < i32::MAX,
        ensures
            final(self).port == old(self).port + 1,
            final(self).num_of_servers == old(self).num_of_servers,
            final(self).addr == old(self).addr,
            final(self).servers == old(self).servers,
            final(self).connections == old(self).connections,
    {
        self.port += 1;
    }

    fn increment_num_of_servers(&mut self)
        requires
            old(self).num_of_servers < i32::MAX,
        ensures
            final(self).num_of_servers == old(self).num_of_servers + 1,
            final(self).port == old(self).port,
            final(self).addr == old(self).addr,
            final(self).servers == old(self).servers,
            final(self).connections == old(self).connections,
    {
        self.num_of_servers += 1;
    }
}

/// What the first bytes of a new connection say it is.
pub enum MessageKind {
    /// A client asks for a server for a task.
    TaskRequest,
    /// A client reports which server ran its task.
    Report,
}

/// A connection whose first read shows more than the size prefix carries a
/// report; one that shows the prefix alone (or less) asks for a server.
pub fn classify_message(peeked_len: usize) -> (kind: MessageKind)
    ensures
        kind == (if peeked_len > crate::wire::PREFIX_LEN {
            MessageKind::Report
        } else {
            MessageKind::TaskRequest
        }),
{
    if peeked_len > crate::wire::PREFIX_LEN {
        MessageKind::Report
    } else {
        MessageKind::TaskRequest
    }
}

/// What the controller learned from a client.
pub enum ControllerEvent {
    /// A task of `size` needs a server.
    TaskRequest { size: u64 },
    /// The task of `size` is done on the server at `addr`; `addr` is `None`
    /// when the client's text is not an IPv4 socket address.
    Report { size: u64, addr: Option<String> },
}

/// What the controller learned, as values.
pub enum EventView {
    TaskRequest { size: u64 },
    Report { size: u64, addr: Option<Seq<char>> },
}

impl View for ControllerEvent {
    type V = EventView;

    open spec fn view(&self) -> EventView {
        match self {
            ControllerEvent::TaskRequest { size } => EventView::TaskRequest { size: *size },
            ControllerEvent::Report { size, addr } => EventView::Report {
                size: *size,
                addr: match addr {
                    Some(a) => Some(a@),
                    None => None,
                },
            },
        }
    }
}

/// What the controller does in answer.
pub enum ControllerAction {
    /// Send this server address to the client.
    SendAddress(String),
    /// Nothing to send.
    Nothing,
}

/// Whether the controller can handle `event`: a task must be placeable,
/// and a report must name a server whose capacity stays in range.
pub open spec fn event_allowed(c: ControllerView, event: EventView) -> bool {
    match event {
        EventView::TaskRequest { size } => assign_allowed(c, size),
        EventView::Report { size, addr } => match addr {
            Some(a) => update_allowed(c, a, size, SizeUpdate::Release),
            None => true,
        },
    }
}

/// The controller after `event`, and the address it sends back, if any.
pub open spec fn event_spec(c: ControllerView, event: EventView) -> (ControllerView, Option<Seq<char>>) {
    match event {
        EventView::TaskRequest { size } => {
            let (c1, a) = assign_spec(c, size);
            (c1, Some(a))
        },
        EventView::Report { size, addr } => match addr {
            Some(a) => (update_spec(c, a, size, SizeUpdate::Release), None),
            None => (c, None),
        },
    }
}

/// A task followed by the report of its client leaves every server that
/// was already there with the capacity it had; a server started for the
/// task is back to full capacity.
pub proof fn lemma_report_restores(c: ControllerView, size: u64)
    requires
        pool_wf(c),
        assign_allowed(c, size),
    ensures
        ({
            let (c1, a) = event_spec(c, EventView::TaskRequest { size });
            let (c2, r) = event_spec(c1, EventView::Report { size, addr: a });
            &&& event_allowed(c1, EventView::Report { size, addr: a })
            &&& c2.servers == find_or_create_spec(c, size).servers
            &&& pool_wf(c2)
        }),
{
    let c0 = find_or_create_spec(c, size);
    let i = chosen_index(c, size);
    match first_fit(c.servers, has_room(size)) {
        Some(k) => {
            assert(is_first_fit(c.servers, has_room(size), k)) by {
                let w = choose|w: int| is_first_fit(c.servers, has_room(size), w);
                assert(is_first_fit(c.servers, has_room(size), w));
            }
        },
        None => {
            assert(c0.servers[i] == pool_server(c.port + 1));
        },
    }
    assert(pool_wf(c0)) by {
        if first_fit(c.servers, has_room(size)) is None {
            assert forall|k: int| 0 <= k < c0.servers.len() implies (
            #[trigger] c0.servers[k]).addr == pool_server(INIT_PORT + 1 + k).addr
                && c0.servers[k].dur_secs == 10 by {
                if k < c.servers.len() {
                    assert(c0.servers[k] == c.servers[k]);
                }
            }
        }
    }
    assert(0 <= i < c0.servers.len());
    assert(c0.servers[i].size >= size);
    let a = c0.servers[i].addr;
    lemma_find_by_addr(c0, i);
    let c1 = update_spec(c0, a, size, SizeUpdate::Take);
    assert(pool_wf(c1)) by {
        assert forall|k: int| 0 <= k < c1.servers.len() implies (
        #[trigger] c1.servers[k]).addr == pool_server(INIT_PORT + 1 + k).addr
            && c1.servers[k].dur_secs == 10 by {
            assert(c0.servers[k].addr == pool_server(INIT_PORT + 1 + k).addr);
        }
    }
    assert(c1.servers[i].addr == a);
    lemma_find_by_addr(c1, i);
    let c2 = update_spec(c1, a, size, SizeUpdate::Release);
    assert(c2.servers =~= c0.servers);
    assert(pool_wf(c2)) by {
        assert forall|k: int| 0 <= k < c2.servers.len() implies (
        #[trigger] c2.servers[k]).addr == pool_server(INIT_PORT + 1 + k).addr
            && c2.servers[k].dur_secs == 10 by {
            assert(c0.servers[k].addr == pool_server(INIT_PORT + 1 + k).addr);
        }
    }
}

/// A task's size is taken from exactly the server whose address the client
/// is sent, and that server had room for it; every other server keeps its
/// capacity.
pub proof fn lemma_task_takes_from_sent_server(c: ControllerView, size: u64)
    requires
        pool_wf(c),
        assign_allowed(c, size),
    ensures
        ({
            let c0 = find_or_create_spec(c, size);
            let (c1, a) = assign_spec(c, size);
            let i = chosen_index(c, size);
            &&& 0 <= i < c1.servers.len() == c0.servers.len()
            &&& c1.servers[i].addr == a
            &&& c0.servers[i].size >= size
            &&& c1.servers[i].size == c0.servers[i].size - size
            &&& forall|j: int| 0 <= j < c1.servers.len() && j != i ==> c1.servers[j] == c0.servers[j]
        }),
{
    lemma_report_restores(c, size);
    let c0 = find_or_create_spec(c, size);
    let i = chosen_index(c, size);
    match first_fit(c.servers, has_room(size)) {
        Some(k) => {
            let w = choose|w: int| is_first_fit(c.servers, has_room(size), w);
            assert(is_first_fit(c.servers, has_room(size), w));
        },
        None => {},
    }
    assert(pool_wf(c0)) by {
        if first_fit(c.servers, has_room(size)) is None {
            assert forall|k: int| 0 <= k < c0.servers.len() implies (
            #[trigger] c0.servers[k]).addr == pool_server(INIT_PORT + 1 + k).addr
                && c0.servers[k].dur_secs == 10 by {
                if k < c.servers.len() {
                    assert(c0.servers[k] == c.servers[k]);
                }
            }
        }
    }
    lemma_find_by_addr(c0, i);
}

/// The server chosen for a task is the lowest-indexed one with room for it:
/// every server before it has less room than the task's size, and a new
/// server is chosen only when no server has room.
pub proof fn lemma_first_server_with_room(c: ControllerView, size: u64)
    ensures
        0 <= chosen_index(c, size) <= c.servers.len(),
        forall|j: int| 0 <= j < chosen_index(c, size) ==> (#[trigger] c.servers[j]).size < size,
        chosen_index(c, size) < c.servers.len() ==> c.servers[chosen_index(c, size)].size >= size,
        (exists|j: int| 0 <= j < c.servers.len() && (#[trigger] c.servers[j]).size >= size)
            ==> chosen_index(c, size) < c.servers.len(),
{
    match first_fit(c.servers, has_room(size)) {
        Some(k) => {
            let w = choose|w: int| is_first_fit(c.servers, has_room(size), w);
            assert(is_first_fit(c.servers, has_room(size), w));
            assert forall|j: int| 0 <= j < chosen_index(c, size) implies (
            #[trigger] c.servers[j]).size < size by {
                assert(!has_room(size)(c.servers[j]));
            }
        },
        None => {
            assert forall|j: int| 0 <= j < chosen_index(c, size) implies (
            #[trigger] c.servers[j]).size < size by {
                if c.servers[j].size >= size {
                    assert(has_room(size)(c.servers[j]));
                    assert(exists|i: int| is_first_fit(c.servers, has_room(size), i)) by {
                        lemma_first_index_exists(c.servers, size, j);
                    }
                }
            }
            if exists|j: int| 0 <= j < c.servers.len() && (#[trigger] c.servers[j]).size >= size {
                let j = choose|j: int| 0 <= j < c.servers.len() && (#[trigger] c.servers[j]).size >= size;
                lemma_first_index_exists(c.servers, size, j);
            }
        },
    }
}

proof fn lemma_first_index_exists(s: Seq<ServerView>, size: u64, j: int)
    requires
        0 <= j < s.len(),
        s[j].size >= size,
    ensures
        exists|i: int| is_first_fit(s, has_room(size), i),
    decreases j,
{
    if forall|k: int| 0 <= k < j ==> !has_room(size)(#[trigger] s[k]) {
        assert(is_first_fit(s, has_room(size), j));
    } else {
        let k = choose|k: int| 0 <= k < j && has_room(size)(#[trigger] s[k]);
        lemma_first_index_exists(s, size, k);
    }
}

/// What a task request is answered: the address of the lowest-indexed
/// server with room for the task, whose capacity shrinks by the task's size,
/// or, when no server has room, the address of a new server started on the
/// next port with the full capacity of 1000 less the task's size.
pub proof fn lemma_task_answer(c: ControllerView, size: u64)
    requires
        pool_wf(c),
        event_allowed(c, EventView::TaskRequest { size }),
    ensures
        ({
            let (c1, a) = event_spec(c, EventView::TaskRequest { size });
            let k = chosen_index(c, size);
            &&& 0 <= k <= c.servers.len()
            &&& forall|j: int| 0 <= j < k ==> (#[trigger] c.servers[j]).size < size
            &&& a == Some(c1.servers[k].addr)
            &&& k < c.servers.len() ==> c.servers[k].size >= size && c1.servers[k].addr
                == c.servers[k].addr && c1.servers[k].size == c.servers[k].size - size
            &&& k == c.servers.len() ==> c1.servers.len() == c.servers.len() + 1
                && c1.servers[k].addr == socket_addr_spec("0.0.0.0:"@, c.port + 1)
                && c1.servers[k].size == 1000 - size
            &&& forall|j: int| 0 <= j < c.servers.len() && j != k ==> c1.servers[j] == c.servers[j]
        }),
{
    lemma_first_server_with_room(c, size);
    lemma_task_takes_from_sent_server(c, size);
    let c0 = find_or_create_spec(c, size);
    if chosen_index(c, size) == c.servers.len() {
        match first_fit(c.servers, has_room(size)) {
            Some(k) => {
                let w = choose|w: int| is_first_fit(c.servers, has_room(size), w);
                assert(is_first_fit(c.servers, has_room(size), w));
            },
            None => {},
        }
        assert(c0.servers[c.servers.len() as int] == pool_server(c.port + 1));
    } else {
        match first_fit(c.servers, has_room(size)) {
            Some(k) => {},
            None => {},
        }
    }
    assert forall|j: int| 0 <= j < c.servers.len() && j != chosen_index(c, size) implies c0.servers[j]
        == c.servers[j] by {
        match first_fit(c.servers, has_room(size)) {
            Some(k) => {},
            None => {},
        }
    }
}

/// A report gives the task's size back to the one server that listens on the
/// reported address; every other server keeps its capacity, nothing is
/// answered, and a report without an address changes nothing.
pub proof fn lemma_report_answer(c: ControllerView, size: u64, addr: Option<Seq<char>>)
    requires
        pool_wf(c),
        event_allowed(c, EventView::Report { size, addr }),
    ensures
        ({
            let (c1, a) = event_spec(c, EventView::Report { size, addr });
            &&& a is None
            &&& c1.servers.len() == c.servers.len()
            &&& c1.port == c.port
            &&& addr is None ==> c1 == c
            &&& addr is Some ==> exists|k: int|
                0 <= k < c.servers.len() && (#[trigger] c.servers[k]).addr == addr.unwrap()
                    && c1.servers[k].size == c.servers[k].size + size && c1.servers[k].addr
                    == c.servers[k].addr && forall|j: int|
                    0 <= j < c.servers.len() && j != k ==> c1.servers[j] == c.servers[j]
        }),
{
    if addr is Some {
        let a = addr.unwrap();
        let k = first_fit(c.servers, listens_on(a)).unwrap();
        let w = choose|w: int| is_first_fit(c.servers, listens_on(a), w);
        assert(is_first_fit(c.servers, listens_on(a), w));
        let c1 = event_spec(c, EventView::Report { size, addr }).0;
        assert(0 <= k < c.servers.len() && c.servers[k].addr == a && c1.servers[k].size
            == c.servers[k].size + size);
    }
}

/// A task request can be handled exactly when some server has room for it,
/// or a port is left for a new server and the task fits in a fresh server's
/// capacity of 1000.
pub proof fn lemma_task_allowed(c: ControllerView, size: u64)
    ensures
        event_allowed(c, EventView::TaskRequest { size }) == ((exists|j: int|
            0 <= j < c.servers.len() && (#[trigger] c.servers[j]).size >= size) || (c.port
            < i32::MAX && size <= 1000)),
{
    lemma_first_server_with_room(c, size);
    match first_fit(c.servers, has_room(size)) {
        Some(k) => {
            let w = choose|w: int| is_first_fit(c.servers, has_room(size), w);
            assert(is_first_fit(c.servers, has_room(size), w));
            assert(c.servers[w].size >= size);
        },
        None => {
            lemma_no_room(c, size);
        },
    }
}

proof fn lemma_no_room(c: ControllerView, size: u64)
    requires
        first_fit(c.servers, has_room(size)) is None,
    ensures
        forall|j: int| 0 <= j < c.servers.len() ==> (#[trigger] c.servers[j]).size < size,
{
    assert forall|j: int| 0 <= j < c.servers.len() implies (#[trigger] c.servers[j]).size < size by {
        if c.servers[j].size >= size {
            lemma_first_index_exists(c.servers, size, j);
        }
    }
}

impl Controller {
    /// Whether `handle_event` accepts `event` in this state.
    pub fn event_is_allowed(&self, event: &ControllerEvent) -> (ok: bool)
        requires
            self.wf(),
        ensures
            ok == event_allowed(self@, event@),
    {
        match event {
            ControllerEvent::TaskRequest { size } => {
                match self.find_server(*size) {
                    Some(_) => true,
                    None => self.port < i32::MAX && *size <= crate::server::SERVER_CAPACITY,
                }
            },
            ControllerEvent::Report { size, addr } => match addr {
                Some(a) => {
                    let mut index: usize = 0;
                    while index < self.servers.len()
                        invariant
                            event@ == (EventView::Report { size: *size, addr: Some(a@) }),
                            self@.servers.len() == self.servers@.len(),
                            0 <= index <= self@.servers.len(),
                            forall|j: int|
                                0 <= j < index ==> !listens_on(a@)(#[trigger] self@.servers[j]),
                        decreases self@.servers.len() - index,
                    {
                        if *self.servers[index].get_addr() == *a {
                            proof {
                                lemma_first_fit(self@.servers, listens_on(a@), index as int);
                            }
                            let current: u64 = *self.servers[index].get_size();
                            assert(current == self@.servers[index as int].size);
                            return current <= u64::MAX - *size;
                        }
                        index += 1;
                    }
                    proof {
                        lemma_no_fit(self@.servers, listens_on(a@));
                    }
                    false
                },
                None => true,
            },
        }
    }

    /// Handles what a client said: a task gets the address of the server
    /// it is placed on (whose capacity shrinks by the task's size), and a
    /// report gives the task's size back to the server it names.
    pub fn handle_event(&mut self, event: ControllerEvent) -> (action: ControllerAction)
        requires
            old(self).wf(),
            event_allowed(old(self)@, event@),
        ensures
            final(self).wf(),
            final(self)@ == event_spec(old(self)@, event@).0,
            match action {
                ControllerAction::SendAddress(a) => event_spec(old(self)@, event@).1 == Some(a@),
                ControllerAction::Nothing => event_spec(old(self)@, event@).1 is None,
            },
    {
        match event {
            ControllerEvent::TaskRequest { size } => {
                let ghost c = self@;
                let server_index = self.find_or_create_server(size);
                let server_addr_to_connect = self.get_server_addr(server_index);
                proof {
                    let i = chosen_index(c, size);
                    match first_fit(c.servers, has_room(size)) {
                        Some(k) => {
                            let w = choose|w: int| is_first_fit(c.servers, has_room(size), w);
                            assert(is_first_fit(c.servers, has_room(size), w));
                        },
                        None => {},
                    }
                    lemma_find_by_addr(self@, i);
                }
                self.update_server_size(server_addr_to_connect.clone(), size, SizeUpdate::Take);
                ControllerAction::SendAddress(server_addr_to_connect)
            },
            ControllerEvent::Report { size, addr } => match addr {
                Some(a) => {
                    self.update_server_size(a, size, SizeUpdate::Release);
                    ControllerAction::Nothing
                },
                None => ControllerAction::Nothing,
            },
        }
    }
}

/// Starts `num` servers above `port`, on the ports `port + 1` to
/// `port + num`; none when `num` is not positive.
pub fn start_servers(port: i32, num: i32) -> (servers: Vec<Server>)
    requires
        port + num <= i32::MAX,
    ensures
        views(servers@) == crate::server::pool_spec(port as int, if num > 0 { num as nat } else { 0 }),
{
    if num <= 0 {
        let servers: Vec<Server> = Vec::new();
        assert(views(servers@) =~= crate::server::pool_spec(port as int, 0));
        servers
    } else {
        crate::server::start_servers(port, num as usize)
    }
}

} // verus!
