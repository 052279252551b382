//! The client of the task-based setup: every two seconds it sends a framed
//! task to the controller and checks the echo that comes back.

use vstd::prelude::*;
use crate::wire::{framed, frame_message, eq_ignore_ascii_case, eq_ignore_case_spec};
use crate::task::{TaskPlan, plan_task, task_payload_spec, is_ascii_alphanumeric, TASK_ID_LEN};

verus! {

/// Whether the client prints its progress.
pub const DEBUG: bool = true;

/// Whether the client prints the latency of each task.
pub const LOG: bool = true;

/// A client: where the controller is.
pub struct Client<'a> {
    connect_ipv4: &'a str,
    connect_port: &'a str,
}

/// What a client is.
pub struct ClientView {
    pub connect_ipv4: Seq<char>,
    pub connect_port: Seq<char>,
}

impl<'a> View for Client<'a> {
    type V = ClientView;

    closed spec fn view(&self) -> ClientView {
        ClientView { connect_ipv4: self.connect_ipv4@, connect_port: self.connect_port@ }
    }
}

/// A task ready to be sent: its name, its body and the framed message.
pub struct FramedTask {
    pub id: String,
    pub payload: Vec<u8>,
    pub buffer: Vec<u8>,
}

impl<'client> Client<'client> {
    /// A client for the controller at `0.0.0.0:3333`. Sending tasks is done
    /// by the program that holds the client.
    pub fn new<'a>() -> (client: Client<'a>)
        ensures
            client@.connect_ipv4 == "0.0.0.0"@,
            client@.connect_port == "3333"@,
    {
        Client { connect_ipv4: "0.0.0.0", connect_port: "3333" }
    }

    /// The controller's address, `ipv4:port`.
    pub fn controller_address(&self) -> (addr: String)
        ensures
            addr@ == self@.connect_ipv4 + ":"@ + self@.connect_port,
    {
        crate::helper::host_port(self.connect_ipv4, self.connect_port)
    }

    /// Prepares the next task: a random name, the body, and the body behind
    /// its size prefix.
    pub fn next_task(&self) -> (task: FramedTask)
        ensures
            task.id@.len() == TASK_ID_LEN,
            forall|i: int| 0 <= i < TASK_ID_LEN ==> is_ascii_alphanumeric(#[trigger] task.id@[i]),
            task.payload@ == task_payload_spec(),
            task.buffer@ == framed(task_payload_spec().len() as u64, task_payload_spec()),
    {
        let plan: TaskPlan = plan_task();
        let buffer = frame_message(plan.payload.len() as u64, plan.payload.as_slice());
        FramedTask { id: plan.id, payload: plan.payload, buffer }
    }
}

/// Whether the echo of a task is the task's body, up to the case of ASCII
/// letters.
pub fn reply_is_ok(reply: &[u8], payload: &[u8]) -> (ok: bool)
    ensures
        ok == eq_ignore_case_spec(reply@, payload@),
{
    eq_ignore_ascii_case(reply, payload)
}

} // verus!
