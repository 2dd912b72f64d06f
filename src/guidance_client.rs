//! Where the generation backend is reached.

use vstd::prelude::*;

verus! {

/// The address of a generation backend.
#[derive(Debug)]
pub struct GuidanceClient {
    uri: String,
}

impl GuidanceClient {
    pub closed spec fn uri_view(&self) -> Seq<char> {
        self.uri@
    }

    pub fn new(uri: String) -> (r: GuidanceClient)
        ensures
            r.uri_view() == uri@,
    {
        GuidanceClient { uri }
    }

    pub fn uri(&self) -> (r: &str)
        ensures
            r@ == self.uri_view(),
    {
        self.uri.as_str()
    }

    /// The endpoint of generation requests.
    pub fn chat_url(&self) -> (r: String)
        ensures
            r@ == self.uri_view() + "/chat"@,
    {
        let mut u = self.uri.clone();
        u.append("/chat");
        u
    }

    /// The endpoint of embeddings requests.
    pub fn embeddings_url(&self) -> (r: String)
        ensures
            r@ == self.uri_view() + "/embeddings"@,
    {
        let mut u = self.uri.clone();
        u.append("/embeddings");
        u
    }
}

} // verus!
