//! Messages exchanged with the user interface.

use vstd::prelude::*;

verus! {

/// One inbound user message.
#[derive(Debug)]
pub struct MessageFromClient {
    message: String,
}

impl MessageFromClient {
    pub closed spec fn message_view(&self) -> Seq<char> {
        self.message@
    }

    pub fn new(message: String) -> (r: MessageFromClient)
        ensures
            r.message_view() == message@,
    {
        MessageFromClient { message }
    }

    pub fn message(&self) -> (r: &str)
        ensures
            r@ == self.message_view(),
    {
        self.message.as_str()
    }
}

/// One outbound message: a streamed response chunk (empty event name), a
/// status notice, or a tool-info notice.
#[derive(Debug)]
pub struct MessageToClient {
    pub event: String,
    pub message_num: usize,
    pub text: String,
}

impl MessageToClient {
    pub fn new(event: String, text: String, message_num: usize) -> (r: MessageToClient)
        ensures
            r.event == event,
            r.text == text,
            r.message_num == message_num,
    {
        MessageToClient { event, message_num, text }
    }
}

} // verus!
