//! The client of the single-exchange setup: it sends one framed text to the
//! controller and checks that the echo it gets back is the same text.

use vstd::prelude::*;
use vstd::string::StringSliceAdditionalSpecFns;
use crate::wire::{framed, frame_message, eq_ignore_ascii_case, eq_ignore_case_spec};

verus! {

/// The text the client sends.
pub const LOREM: &'static str = "Lorem ipsum dolor sit amet, consectetur adipiscing elit. Maecenas laoreet hendrerit tempor. Donec ut tellus velit. Mauris egestas ac risus in volutpat. Quisque in purus id nisi tincidunt vehicula. Maecenas non nisi vitae risus congue rutrum ut et leo. Aliquam tincidunt, nunc sit amet aliquet gravida, elit elit sagittis risus, molestie porta lorem odio a sapien. Cras nec sollicitudin turpis, quis lacinia sapien. Orci varius natoque penatibus et magnis dis parturient montes, nascetur ridiculus mus. Sed consequat id ipsum non aliquet. Proin eu lacus faucibus, elementum lorem et, mattis justo. Aliquam eu nisl velit.!";

/// A client: where the controller is, the framed message it sends, and the
/// text inside it.
pub struct Client<'a> {
    connect_ipv4: &'a str,
    connect_port: &'a str,
    buffer: Vec<u8>,
    msg: &'a [u8],
}

/// What a client is.
pub struct ClientView {
    pub connect_ipv4: Seq<char>,
    pub connect_port: Seq<char>,
    pub buffer: Seq<u8>,
    pub msg: Seq<u8>,
}

impl<'a> View for Client<'a> {
    type V = ClientView;

    closed spec fn view(&self) -> ClientView {
        ClientView {
            connect_ipv4: self.connect_ipv4@,
            connect_port: self.connect_port@,
            buffer: self.buffer@,
            msg: self.msg@,
        }
    }
}

impl<'client> Client<'client> {
    /// A client for the controller at `0.0.0.0:3333` whose message is the
    /// text `LOREM` behind its size prefix. Sending it is done by the program
    /// that holds the client.
    pub fn new<'a>() -> (client: Client<'a>)
        ensures
            client@.connect_ipv4 == "0.0.0.0"@,
            client@.connect_port == "3333"@,
            client@.msg == LOREM.spec_bytes(),
            client@.buffer == framed(client@.msg.len() as u64, client@.msg),
    {
        let msg: &[u8] = LOREM.as_bytes();
        let buffer = frame_message(msg.len() as u64, msg);
        Client { connect_ipv4: "0.0.0.0", connect_port: "3333", buffer, msg }
    }

    /// The controller's address, `ipv4:port`.
    pub fn connect_address(&self) -> (addr: String)
        ensures
            addr@ == self@.connect_ipv4 + ":"@ + self@.connect_port,
    {
        crate::helper::host_port(self.connect_ipv4, self.connect_port)
    }

    /// The framed message the client sends.
    pub fn buffer(&self) -> (buffer: &Vec<u8>)
        ensures
            buffer@ == self@.buffer,
    {
        &self.buffer
    }

    /// Whether a reply is the client's text, up to the case of ASCII letters.
    pub fn reply_is_ok(&self, reply: &[u8]) -> (ok: bool)
        ensures
            ok == eq_ignore_case_spec(reply@, self@.msg),
    {
        eq_ignore_ascii_case(reply, self.msg)
    }
}

} // verus!
