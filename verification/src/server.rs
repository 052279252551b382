//! An echo server of the pool: its address, how long it stays busy with each
//! connection, and the task capacity the controller has left on it.

use vstd::prelude::*;

verus! {

/// The capacity a server starts with.
pub const SERVER_CAPACITY: u64 = 1000;

/// A server of the pool. Listening and echoing are done by the program that
/// holds it; this value is what the controller knows of the server.
pub struct Server {
    addr: String,
    dur_secs: u64,
    size: u64,
}

/// What a server is: its address, its busy time per connection in seconds,
/// and its remaining capacity.
pub struct ServerView {
    pub addr: Seq<char>,
    pub dur_secs: u64,
    pub size: u64,
}

impl View for Server {
    type V = ServerView;

    closed spec fn view(&self) -> ServerView {
        ServerView { addr: self.addr@, dur_secs: self.dur_secs, size: self.size }
    }
}

impl Server {
    /// A server at `addr` that stays busy `dur_secs` seconds per connection,
    /// with the full capacity.
    pub fn new(addr: String, dur_secs: u64) -> (server: Server)
        ensures
            server@ == (ServerView { addr: addr@, dur_secs, size: SERVER_CAPACITY }),
    {
        Server { addr, dur_secs, size: SERVER_CAPACITY }
    }

    /// The remaining capacity.
    pub fn get_size(&self) -> (size: &u64)
        ensures
            *size == self@.size,
    {
        &self.size
    }

    /// The address the server listens on.
    pub fn get_addr(&self) -> (addr: &String)
        ensures
            addr@ == self@.addr,
    {
        &self.addr
    }

    /// The seconds the server stays busy before echoing a connection.
    pub fn get_dur_secs(&self) -> (secs: u64)
        ensures
            secs == self@.dur_secs,
    {
        self.dur_secs
    }

    /// Sets the remaining capacity; address and busy time are kept.
    pub fn set_size(&mut self, size: u64)
        ensures
            final(self)@ == (ServerView { size, ..old(self)@ }),
    {
        self.size = size;
    }
}

/// The views of a sequence of servers.
pub open spec fn views(servers: Seq<Server>) -> Seq<ServerView> {
    servers.map_values(|s: Server| s@)
}

/// The address prefix servers listen on: every local interface.
pub open spec fn any_interface() -> Seq<char> {
    "0.0.0.0:"@
}

/// The server the controller starts on `port`: it listens on every local
/// interface, stays busy ten seconds per connection and has full capacity.
pub open spec fn pool_server(port: int) -> ServerView {
    ServerView {
        addr: crate::helper::socket_addr_spec(any_interface(), port),
        dur_secs: 10,
        size: SERVER_CAPACITY,
    }
}

/// The servers started above `port`: the `k`-th listens on `port + 1 + k`.
pub open spec fn pool_spec(port: int, num: nat) -> Seq<ServerView> {
    Seq::new(num, |k: int| pool_server(port + 1 + k))
}

/// Index `i` holds the first server whose remaining capacity satisfies `fits`.
pub open spec fn is_first_fit(servers: Seq<ServerView>, fits: spec_fn(ServerView) -> bool, i: int) -> bool {
    &&& 0 <= i < servers.len()
    &&& fits(servers[i])
    &&& forall|j: int| 0 <= j < i ==> !fits(#[trigger] servers[j])
}

/// The index of the first server that satisfies `fits`, if any does.
pub open spec fn first_fit(servers: Seq<ServerView>, fits: spec_fn(ServerView) -> bool) -> Option<int> {
    if exists|i: int| is_first_fit(servers, fits, i) {
        Some(choose|i: int| is_first_fit(servers, fits, i))
    } else {
        None
    }
}

/// `first_fit` is the index found by a scan from the front.
pub proof fn lemma_first_fit(servers: Seq<ServerView>, fits: spec_fn(ServerView) -> bool, i: int)
    requires
        is_first_fit(servers, fits, i),
    ensures
        first_fit(servers, fits) == Some(i),
{
    let c = choose|i: int| is_first_fit(servers, fits, i);
    assert(is_first_fit(servers, fits, c));
    if c < i {
        assert(!fits(servers[c]));
    } else if i < c {
        assert(!fits(servers[i]));
    }
}

/// When no server satisfies `fits`, there is no first one.
pub proof fn lemma_no_fit(servers: Seq<ServerView>, fits: spec_fn(ServerView) -> bool)
    requires
        forall|j: int| 0 <= j < servers.len() ==> !fits(#[trigger] servers[j]),
    ensures
        first_fit(servers, fits) is None,
{
}

/// Starts the servers of the pool above `port`: `num` servers on the ports
/// `port + 1` to `port + num`.
pub fn start_servers(port: i32, num: usize) -> (servers: Vec<Server>)
    requires
        port + num <= i32::MAX,
    ensures
        views(servers@) == pool_spec(port as int, num as nat),
{
    let sec: u64 = 10;
    let mut servers: Vec<Server> = Vec::new();
    let mut port = port;
    let ghost first = port;
    let mut k: usize = 0;
    proof {
        reveal_strlit("0.0.0.0:");
    }
    while k < num
        invariant
            0 <= k <= num,
            sec == 10,
            first + num <= i32::MAX,
            port == first + k,
            views(servers@) == pool_spec(first as int, k as nat),
        decreases num - k,
    {
        port += 1;
        let server_addr = crate::helper::socket_addr("0.0.0.0:", port);
        let server = Server::new(server_addr, sec);
        assert(server@ == pool_server(first + 1 + k));
        let ghost before = servers@;
        servers.push(server);
        assert(views(servers@) =~= views(before).push(server@));
        k = k + 1;
        assert(views(servers@) =~= pool_spec(first as int, k as nat));
    }
    servers
}

/// What a busy server does at one reading of its clock.
pub enum BusyStep {
    /// The busy time is over.
    Finished,
    /// Nothing to announce yet.
    Wait,
    /// A new second has begun: announce `remaining` more seconds; `singular`
    /// when the last second has begun.
    Announce { remaining: u64, singular: bool },
}

/// Nanoseconds in a second.
pub const NANOS_PER_SEC: u128 = 1_000_000_000;

/// The step of a server that is busy for `sec` seconds, when the clock reads
/// `elapsed_nanos` since it started and its last announcement was made at
/// second `earlier_secs`.
pub open spec fn busy_step_spec(sec: u64, earlier_secs: u64, elapsed_nanos: u128) -> BusyStep {
    let elapsed_secs = elapsed_nanos / NANOS_PER_SEC;
    if elapsed_nanos >= sec * NANOS_PER_SEC {
        BusyStep::Finished
    } else if earlier_secs < elapsed_secs {
        BusyStep::Announce {
            remaining: (sec - 1 - earlier_secs) as u64,
            singular: elapsed_secs == sec - 1,
        }
    } else {
        BusyStep::Wait
    }
}

/// One step of the busy wait a server makes before it echoes a connection.
pub fn busy_step(sec: u64, earlier_secs: u64, elapsed_nanos: u128) -> (step: BusyStep)
    ensures
        step == busy_step_spec(sec, earlier_secs, elapsed_nanos),
{
    let dur_nanos: u128 = (sec as u128) * NANOS_PER_SEC;
    if elapsed_nanos >= dur_nanos {
        return BusyStep::Finished;
    }
    let elapsed_secs: u128 = elapsed_nanos / NANOS_PER_SEC;
    if (earlier_secs as u128) < elapsed_secs {
        assert(elapsed_secs < sec) by (nonlinear_arith)
            requires
                elapsed_nanos < sec * NANOS_PER_SEC,
                elapsed_secs == elapsed_nanos / NANOS_PER_SEC,
                NANOS_PER_SEC > 0,
        ;
        let last: u64 = sec - 1;
        BusyStep::Announce {
            remaining: last - earlier_secs,
            singular: elapsed_secs == last as u128,
        }
    } else {
        BusyStep::Wait
    }
}

} // verus!
