//! Conversation messages: an immutable role/content/timestamp record with its
//! mathematical view, used by the chat session log and the durable encoding.
use vstd::prelude::*;
use vstd::utf8::encode_utf8;

verus! {

/// The closed set of speakers; this layer never introduces a third role.
#[derive(Clone, Copy, PartialEq, Eq, Structural, Debug)]
pub enum Role {
    User,
    Assistant,
}

/// One conversation turn entry.
pub struct Message {
    pub role: Role,
    pub content: String,
    pub timestamp: u64,
}

/// Mathematical model of a message.
pub struct MessageView {
    pub role: Role,
    pub content: Seq<char>,
    pub timestamp: u64,
}

impl View for Message {
    type V = MessageView;

    open spec fn view(&self) -> MessageView {
        MessageView { role: self.role, content: self.content@, timestamp: self.timestamp }
    }
}

/// A message is encodable when its UTF-8 content length fits the 64-bit
/// length field of the durable format.
pub open spec fn msg_wf(m: MessageView) -> bool {
    encode_utf8(m.content).len() <= u64::MAX
}

/// The model of a whole message log.
pub open spec fn history_view(ms: Seq<Message>) -> Seq<MessageView> {
    ms.map_values(|m: Message| m@)
}

/// Every message of the log is encodable.
pub open spec fn history_wf(ms: Seq<MessageView>) -> bool {
    forall|i: int| 0 <= i < ms.len() ==> msg_wf(#[trigger] ms[i])
}

impl Message {
    /// Builds a message, establishing encodability of its content.
    pub fn new(role: Role, content: String, timestamp: u64) -> (m: Message)
        ensures
            m@ == (MessageView { role, content: content@, timestamp }),
            msg_wf(m@),
    {
        let ghost c = content@;
        let bytes: &[u8] = content.as_str().as_bytes();
        let n: usize = bytes.len();
        proof {
            assert(encode_utf8(c).len() <= usize::MAX);
        }
        Message { role, content, timestamp }
    }
}

} // verus!
