//! The outbound message pushed to a connection's delivery handle, and its
//! rendering to a wire frame.

use vstd::prelude::*;
use vstd::string::*;

verus! {

/// A message bound for one connection: an event name and a content text.
#[derive(Debug)]
pub struct SocketMessage {
    pub event_name: String,
    pub content: String,
}

/// The wire frame of a message: the event name, a comma, the content.
pub open spec fn rendered_frame(event_name: Seq<char>, content: Seq<char>) -> Seq<char> {
    event_name + seq![','] + content
}

impl SocketMessage {
    /// Renders the frame sent over the transport.
    pub fn render(&self) -> (r: String)
        ensures
            r@ == rendered_frame(self.event_name@, self.content@),
    {
        proof {
            reveal_strlit(",");
        }
        let mut out: String = self.event_name.as_str().to_owned();
        out.append(",");
        out.append(self.content.as_str());
        proof {
            assert(out@ =~= rendered_frame(self.event_name@, self.content@));
        }
        out
    }
}

} // verus!
