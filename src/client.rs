//! A client endpoint that receives text and sends values of some type.

use vstd::prelude::*;

verus! {

pub trait Client<T> {
    fn receive(&self) -> String;

    fn send(&self, message: T);
}

/// A client reached over a websocket; the transport itself lives outside the library.
pub struct WebsocketClient {}

} // verus!
