//! The controller of the single-exchange setup: it reads a task size, picks
//! the first server of its pool that the size admits, and starts a new one
//! when none does.

use vstd::prelude::*;
use crate::helper::{socket_addr, socket_addr_spec};
use crate::server::{
    Server, ServerView, views, pool_spec, start_servers, first_fit,
    lemma_first_fit, lemma_no_fit, SERVER_CAPACITY,
};

verus! {

/// The port the controller listens on.
pub const CONTROLLER_PORT: i32 = 3333;

/// The controller's bookkeeping: the last port it gave out, how many servers
/// it runs, its own address and the servers.
pub struct Controller {
    port: i32,
    num_of_servers: usize,
    addr: String,
    servers: Vec<Server>,
}

/// What a controller is.
pub struct ControllerView {
    pub port: int,
    pub num_of_servers: nat,
    pub addr: Seq<char>,
    pub servers: Seq<ServerView>,
}

impl View for Controller {
    type V = ControllerView;

    closed spec fn view(&self) -> ControllerView {
        ControllerView {
            port: self.port as int,
            num_of_servers: self.num_of_servers as nat,
            addr: self.addr@,
            servers: views(self.servers@),
        }
    }
}

/// A server admits a task in this setup when its recorded size is at most
/// the task's size.
pub open spec fn admits(size: u64) -> spec_fn(ServerView) -> bool {
    |s: ServerView| s.size <= size
}

/// The server this setup starts on demand at `port`: its address is the
/// interface `0.0.0.0` with the port written right after it.
pub open spec fn demand_server(port: int) -> ServerView {
    ServerView {
        addr: socket_addr_spec("0.0.0.0"@, port),
        dur_secs: 10,
        size: SERVER_CAPACITY,
    }
}

/// The controller after it started a server on demand.
pub open spec fn with_new_server(c: ControllerView) -> ControllerView {
    ControllerView {
        port: c.port + 1,
        num_of_servers: c.num_of_servers + 1,
        servers: c.servers.push(demand_server(c.port + 1)),
        ..c
    }
}

/// Every server the controller starts on demand records the full capacity
/// of 1000, so it admits no task smaller than 1000; the servers already
/// there are kept as they were.
pub proof fn lemma_started_server_is_full(c: ControllerView)
    ensures
        with_new_server(c).servers.len() == c.servers.len() + 1,
        with_new_server(c).servers.last().size == 1000,
        with_new_server(c).servers.last().dur_secs == 10,
        forall|size: u64| size < 1000 ==> !(#[trigger] admits(size))(with_new_server(c).servers.last()),
        forall|j: int| 0 <= j < c.servers.len() ==> #[trigger] with_new_server(c).servers[j] == c.servers[j],
{
}

/// Every server started at start-up records the full capacity of 1000.
pub proof fn lemma_initial_servers_are_full(port: int, num: nat)
    ensures
        forall|k: int| 0 <= k < num ==> (#[trigger] pool_spec(port, num)[k]).size == 1000,
{
}

impl Controller {
    /// The controller's invariant: it counts exactly the servers it holds.
    pub open spec fn wf(&self) -> bool {
        self@.num_of_servers == self@.servers.len()
    }

    /// A controller on port 3333 with one server started on port 3334.
    /// Accepting clients is done by the program that holds it.
    pub fn new() -> (controller: Controller)
        ensures
            controller.wf(),
            controller@ == (ControllerView {
                port: CONTROLLER_PORT as int,
                num_of_servers: 1,
                addr: socket_addr_spec("0.0.0.0:"@, CONTROLLER_PORT as int),
                servers: pool_spec(CONTROLLER_PORT as int, 1),
            }),
    {
        let port = CONTROLLER_PORT;
        let num_of_servers: usize = 1;
        Controller {
            port,
            num_of_servers,
            addr: socket_addr("0.0.0.0:", port),
            servers: start_servers(port, num_of_servers),
        }
    }

    /// The address the controller listens on.
    pub fn get_addr(&self) -> (addr: &String)
        ensures
            addr@ == self@.addr,
    {
        &self.addr
    }

    /// The servers of the pool, in the order they were started.
    pub fn get_servers(&self) -> (servers: &[Server])
        ensures
            views(servers@) == self@.servers,
    {
        self.servers.as_slice()
    }

    fn find_server_index(&self, size: u64) -> (res: Option<usize>)
        ensures
            match res {
                Some(i) => first_fit(self@.servers, admits(size)) == Some(i as int),
                None => first_fit(self@.servers, admits(size)) is None,
            },
    {
        let mut i: usize = 0;
        while i < self.servers.len()
            invariant
                0 <= i <= self@.servers.len(),
                self@.servers.len() == self.servers@.len(),
                forall|j: int| 0 <= j < i ==> !admits(size)(#[trigger] self@.servers[j]),
            decreases self@.servers.len() - i,
        {
            if *self.servers[i].get_size() <= size {
                proof {
                    lemma_first_fit(self@.servers, admits(size), i as int);
                }
                return Some(i);
            }
            i = i + 1;
        }
        proof {
            lemma_no_fit(self@.servers, admits(size));
        }
        None
    }

    /// The first server whose recorded size is at most `size`, if any.
    pub fn find_server(&self, size: &u64) -> (res: Option<&Server>)
        ensures
            res is Some <==> first_fit(self@.servers, admits(*size)) is Some,
            res is Some ==> res.unwrap()@ == self@.servers[first_fit(
                self@.servers,
                admits(*size),
            ).unwrap()],
    {
        match self.find_server_index(*size) {
            Some(i) => Some(&self.servers[i]),
            None => None,
        }
    }

    /// Whether `find_or_create_server` can serve `size`: some server admits
    /// it, or a port and a count are left for a new server.
    pub fn can_place(&self, size: u64) -> (ok: bool)
        ensures
            ok == (first_fit(self@.servers, admits(size)) is None ==> self@.port < i32::MAX
                && self@.num_of_servers < usize::MAX),
    {
        match self.find_server_index(size) {
            Some(_) => true,
            None => self.port < i32::MAX && self.num_of_servers < usize::MAX,
        }
    }

    fn find_or_create_index(&mut self, size: u64) -> (index: usize)
        requires
            old(self).wf(),
            first_fit(old(self)@.servers, admits(size)) is None ==> old(self)@.port < i32::MAX
                && old(self)@.num_of_servers < usize::MAX,
        ensures
            final(self).wf(),
            match first_fit(old(self)@.servers, admits(size)) {
                Some(i) => final(self)@ == old(self)@ && index == i,
                None => final(self)@ == with_new_server(old(self)@) && index == old(
                    self,
                )@.servers.len(),
            },
    {
        match self.find_server_index(size) {
            Some(i) => i,
            None => self.create_server_index(),
        }
    }

    /// The first server that admits `size`; when none does, a server is
    /// started on the next port and returned.
    pub fn find_or_create_server(&mut self, size: u64) -> (server: &Server)
        requires
            old(self).wf(),
            first_fit(old(self)@.servers, admits(size)) is None ==> old(self)@.port < i32::MAX
                && old(self)@.num_of_servers < usize::MAX,
        ensures
            final(self).wf(),
            match first_fit(old(self)@.servers, admits(size)) {
                Some(i) => final(self)@ == old(self)@ && server@ == old(self)@.servers[i],
                None => final(self)@ == with_new_server(old(self)@) && server@ == demand_server(
                    old(self)@.port + 1,
                ),
            },
    {
        let i = self.find_or_create_index(size);
        assert(self@.servers[i as int] == self.servers@[i as int]@);
        &self.servers[i]
    }

    fn create_server_index(&mut self) -> (index: usize)
        requires
            old(self).wf(),
            old(self)@.port < i32::MAX,
            old(self)@.num_of_servers < usize::MAX,
        ensures
            final(self).wf(),
            final(self)@ == with_new_server(old(self)@),
            index == old(self)@.servers.len(),
    {
        proof {
            reveal_strlit("0.0.0.0");
        }
        self.increment_port();
        let server_addr = socket_addr("0.0.0.0", self.port);
        let server = Server::new(server_addr, 10);
        self.increment_num_of_servers();
        let ghost before = self.servers@;
        self.servers.push(server);
        assert(views(self.servers@) =~= views(before).push(server@));
        self.servers.len() - 1
    }

    /// Starts a server on the next port, adds it to the pool and returns it.
    pub fn create_server(&mut self) -> (server: &Server)
        requires
            old(self).wf(),
            old(self)@.port < i32::MAX,
            old(self)@.num_of_servers < usize::MAX,
        ensures
            final(self).wf(),
            final(self)@ == with_new_server(old(self)@),
            server@ == demand_server(old(self)@.port + 1),
            server@.size == 1000,
            final(self)@.servers.len() == old(self)@.servers.len() + 1,
            final(self)@.servers.last() == server@,
    {
        proof {
            lemma_started_server_is_full(old(self)@);
        }
        let i = self.create_server_index();
        assert(self@.servers[i as int] == self.servers@[i as int]@);
        &self.servers[i]
    }

    fn increment_port(&mut self)
        requires
            old(self).port < i32::MAX,
        ensures
            final(self).port == old(self).port + 1,
            final(self).num_of_servers == old(self).num_of_servers,
            final(self).addr == old(self).addr,
            final(self).servers == old(self).servers,
    {
        self.port += 1;
    }

    fn increment_num_of_servers(&mut self)
        requires
            old(self).num_of_servers < usize::MAX,
        ensures
            final(self).num_of_servers == old(self).num_of_servers + 1,
            final(self).port == old(self).port,
            final(self).addr == old(self).addr,
            final(self).servers == old(self).servers,
    {
        self.num_of_servers += 1;
    }
}

} // verus!
