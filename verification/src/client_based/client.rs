//! The client of the client-based setup: every two seconds it asks the
//! controller for a server, sends its task to that server, checks the echo,
//! and reports the server back to the controller.

use vstd::prelude::*;
use crate::wire::{framed, frame_message, eq_ignore_ascii_case, eq_ignore_case_spec};
use crate::task::{TaskPlan, plan_task, task_payload_spec, is_ascii_alphanumeric, TASK_ID_LEN};

verus! {

/// Whether the client prints its progress.
pub const DEBUG: bool = false;

/// Whether the client prints the latency of each task.
pub const LOG: bool = true;

/// A client: where the controller is.
pub struct Client<'a> {
    connect_ipv4: &'a str,
    connect_port: &'a str,
}

/// What a client is.
pub struct ClientView {
    pub connect_ipv4: Seq<char>,
    pub connect_port: Seq<char>,
}

impl<'a> View for Client<'a> {
    type V = ClientView;

    closed spec fn view(&self) -> ClientView {
        ClientView { connect_ipv4: self.connect_ipv4@, connect_port: self.connect_port@ }
    }
}

impl<'client> Client<'client> {
    /// A client for the controller at `0.0.0.0:3333`. Sending tasks is done
    /// by the program that holds the client.
    pub fn new<'a>() -> (client: Client<'a>)
        ensures
            client@.connect_ipv4 == "0.0.0.0"@,
            client@.connect_port == "3333"@,
    {
        Client { connect_ipv4: "0.0.0.0", connect_port: "3333" }
    }

    /// The controller's address, `ipv4:port`.
    pub fn controller_address(&self) -> (addr: String)
        ensures
            addr@ == self@.connect_ipv4 + ":"@ + self@.connect_port,
    {
        crate::helper::host_port(self.connect_ipv4, self.connect_port)
    }

    /// Prepares the next task: a random name, the body and its size prefix.
    pub fn plan_task(&self) -> (plan: TaskPlan)
        ensures
            plan.id@.len() == TASK_ID_LEN,
            forall|i: int| 0 <= i < TASK_ID_LEN ==> is_ascii_alphanumeric(#[trigger] plan.id@[i]),
            plan.payload@ == task_payload_spec(),
            plan.size_prefix@ == crate::wire::be_bytes(task_payload_spec().len() as u64),
    {
        plan_task()
    }
}

/// The report a client sends the controller when its task is done: the
/// task's size prefix followed by the address of the server that ran it.
pub fn server_update(task_size: u64, server_address: &[u8]) -> (msg: Vec<u8>)
    ensures
        msg@ == framed(task_size, server_address@),
{
    frame_message(task_size, server_address)
}

/// Whether the echo of a task is the task's body, up to the case of ASCII
/// letters.
pub fn reply_is_ok(reply: &[u8], payload: &[u8]) -> (ok: bool)
    ensures
        ok == eq_ignore_case_spec(reply@, payload@),
{
    eq_ignore_ascii_case(reply, payload)
}

/// A read of the server's echo that fills the whole buffer means more may
/// follow; a shorter one ends the echo.
pub fn more_to_read(read_len: usize, buffer_len: usize) -> (more: bool)
    ensures
        more == (read_len >= buffer_len),
{
    read_len >= buffer_len
}

} // verus!
