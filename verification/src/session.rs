//! The chat session: a per-conversation append-only message log with a
//! durable byte encoding. Saving serializes the full log; loading the saved
//! bytes in a fresh process reconstructs exactly the same messages in the
//! same order (proved below), and a corrupted store degrades to an empty
//! history instead of failing the run.
//!
//! The encoding of one message is: one role byte (0 user, 1 assistant), the
//! timestamp as eight little-endian bytes, the UTF-8 length of the content as
//! eight little-endian bytes, then the content's UTF-8 bytes. A history is
//! the concatenation of its messages' encodings.
use vstd::prelude::*;
use vstd::bytes::{
    lemma_auto_spec_u64_to_from_le_bytes, spec_u64_from_le_bytes, spec_u64_to_le_bytes,
    u64_from_le_bytes, u64_to_le_bytes,
};
use vstd::slice::{slice_subrange, slice_to_vec};
use vstd::string::StrSliceExecFns;
use vstd::utf8::{decode_utf8, encode_utf8, encode_utf8_decode_utf8, encode_utf8_valid_utf8,
    valid_utf8};
use crate::message::{history_view, history_wf, msg_wf, Message, MessageView, Role};

verus! {

/// The byte that stands for a role in the durable format.
pub open spec fn role_byte(r: Role) -> u8 {
    match r {
        Role::User => 0u8,
        Role::Assistant => 1u8,
    }
}

/// The encoding of a single message.
pub open spec fn spec_encode_msg(m: MessageView) -> Seq<u8> {
    seq![role_byte(m.role)] + spec_u64_to_le_bytes(m.timestamp) + spec_u64_to_le_bytes(
        encode_utf8(m.content).len() as u64,
    ) + encode_utf8(m.content)
}

/// The encoding of a whole history: its messages' encodings in order.
pub open spec fn spec_encode_history(ms: Seq<MessageView>) -> Seq<u8>
    decreases ms.len(),
{
    if ms.len() == 0 {
        Seq::empty()
    } else {
        spec_encode_msg(ms[0]) + spec_encode_history(ms.drop_first())
    }
}

/// Parses one message from the front of `bytes`: the message and the number
/// of bytes it occupied, or a definite failure.
pub open spec fn spec_decode_msg(bytes: Seq<u8>) -> Option<(MessageView, int)> {
    if bytes.len() < 17 {
        None
    } else if bytes[0] != 0u8 && bytes[0] != 1u8 {
        None
    } else {
        let role = if bytes[0] == 0u8 {
            Role::User
        } else {
            Role::Assistant
        };
        let ts = spec_u64_from_le_bytes(bytes.subrange(1, 9));
        let clen = spec_u64_from_le_bytes(bytes.subrange(9, 17)) as int;
        if 17 + clen > bytes.len() {
            None
        } else {
            let cbytes = bytes.subrange(17, 17 + clen);
            if valid_utf8(cbytes) {
                Some(
                    (
                        MessageView { role, content: decode_utf8(cbytes), timestamp: ts },
                        17 + clen,
                    ),
                )
            } else {
                None
            }
        }
    }
}

/// Parses a whole history; `None` exactly when the bytes are not the
/// encoding of any message sequence.
pub open spec fn spec_decode_history(bytes: Seq<u8>) -> Option<Seq<MessageView>>
    decreases bytes.len(),
{
    if bytes.len() == 0 {
        Some(Seq::empty())
    } else {
        match spec_decode_msg(bytes) {
            Option::None => None,
            Option::Some((m, used)) => {
                if used < 1 || used > bytes.len() {
                    None
                } else {
                    match spec_decode_history(bytes.skip(used)) {
                        Option::None => None,
                        Option::Some(rest) => Some(seq![m] + rest),
                    }
                }
            },
        }
    }
}

proof fn lemma_decode_encode_msg(m: MessageView, rest: Seq<u8>)
    requires
        msg_wf(m),
    ensures
        spec_encode_msg(m).len() == 17 + encode_utf8(m.content).len(),
        spec_decode_msg(spec_encode_msg(m) + rest) == Some(
            (m, spec_encode_msg(m).len() as int),
        ),
{
    broadcast use encode_utf8_valid_utf8, encode_utf8_decode_utf8;

    lemma_auto_spec_u64_to_from_le_bytes();
    let cb = encode_utf8(m.content);
    let tsb = spec_u64_to_le_bytes(m.timestamp);
    let lb = spec_u64_to_le_bytes(cb.len() as u64);
    let e = spec_encode_msg(m);
    let b = e + rest;
    assert(e.len() == 17 + cb.len());
    assert(b[0] == role_byte(m.role));
    assert(b.subrange(1, 9) =~= tsb);
    assert(b.subrange(9, 17) =~= lb);
    assert(spec_u64_from_le_bytes(b.subrange(1, 9)) == m.timestamp);
    assert(spec_u64_from_le_bytes(b.subrange(9, 17)) == cb.len() as u64);
    let clen = spec_u64_from_le_bytes(b.subrange(9, 17)) as int;
    assert(clen == cb.len());
    assert(b.subrange(17, 17 + clen) =~= cb);
    assert(decode_utf8(cb) == m.content);
    let parsed = spec_decode_msg(b);
    assert(parsed is Some);
    let (pm, used) = parsed->0;
    assert(pm.role == m.role);
    assert(pm.timestamp == m.timestamp);
    assert(pm.content == m.content);
    assert(used == e.len() as int);
}

/// Round-trip law: decoding the encoding of any encodable history yields
/// exactly the same messages in the same order.
pub proof fn lemma_history_round_trip(ms: Seq<MessageView>)
    requires
        history_wf(ms),
    ensures
        spec_decode_history(spec_encode_history(ms)) == Some(ms),
    decreases ms.len(),
{
    if ms.len() == 0 {
        assert(spec_encode_history(ms).len() == 0);
        assert(spec_decode_history(spec_encode_history(ms)) == Some(Seq::<MessageView>::empty()));
        assert(ms =~= Seq::<MessageView>::empty());
    } else {
        let m = ms[0];
        let tail = ms.drop_first();
        let e = spec_encode_history(ms);
        let em = spec_encode_msg(m);
        let etail = spec_encode_history(tail);
        assert(msg_wf(m));
        lemma_decode_encode_msg(m, etail);
        assert(e == em + etail);
        assert(e.len() >= 17);
        assert(spec_decode_msg(e) == Some((m, em.len() as int)));
        assert(e.skip(em.len() as int) =~= etail);
        assert(history_wf(tail)) by {
            assert(forall|i: int|
                0 <= i < tail.len() ==> #[trigger] tail[i] == ms[i + 1] && msg_wf(ms[i + 1]));
        }
        lemma_history_round_trip(tail);
        assert(spec_decode_history(e) == Some(seq![m] + tail));
        assert(seq![m] + tail =~= ms);
    }
}

proof fn lemma_encode_history_push(ms: Seq<MessageView>, m: MessageView)
    ensures
        spec_encode_history(ms.push(m)) == spec_encode_history(ms) + spec_encode_msg(m),
    decreases ms.len(),
{
    if ms.len() == 0 {
        let p = ms.push(m);
        assert(p[0] == m);
        assert(p.drop_first() =~= Seq::<MessageView>::empty());
        assert(spec_encode_history(p.drop_first()) == Seq::<u8>::empty());
        assert(spec_encode_history(p) == spec_encode_msg(m) + Seq::<u8>::empty());
        assert(spec_encode_history(ms) == Seq::<u8>::empty());
        assert(spec_encode_msg(m) + Seq::<u8>::empty() =~= Seq::<u8>::empty() + spec_encode_msg(m));
    } else {
        assert(ms.push(m).drop_first() =~= ms.drop_first().push(m));
        lemma_encode_history_push(ms.drop_first(), m);
        assert(spec_encode_msg(ms[0]) + (spec_encode_history(ms.drop_first()) + spec_encode_msg(m))
            =~= (spec_encode_msg(ms[0]) + spec_encode_history(ms.drop_first())) + spec_encode_msg(
            m,
        ));
    }
}

/// Relies on `String::from_utf8`: it returns the string of exactly the given
/// bytes when they are valid UTF-8, and fails exactly otherwise.
#[verifier::external_body]
fn string_from_utf8(bytes: Vec<u8>) -> (r: Option<String>)
    ensures
        r is Some <==> valid_utf8(bytes@),
        r is Some ==> encode_utf8(r->0@) == bytes@,
{
    match String::from_utf8(bytes) {
        Ok(s) => Some(s),
        Err(_) => None,
    }
}

/// Serializes a message log into the durable byte format.
#[verifier::loop_isolation(false)]
pub fn encode_history(msgs: &Vec<Message>) -> (out: Vec<u8>)
    ensures
        out@ == spec_encode_history(history_view(msgs@)),
{
    let n = msgs.len();
    let mut out: Vec<u8> = Vec::new();
    let mut i: usize = 0;
    proof {
        assert(history_view(msgs@.take(0)) =~= Seq::<MessageView>::empty());
    }
    while i < n
        invariant
            i <= n,
            out@ == spec_encode_history(history_view(msgs@.take(i as int))),
        decreases n - i,
    {
        let ghost pre = out@;
        let m = &msgs[i];
        let rb: u8 = match m.role {
            Role::User => 0u8,
            Role::Assistant => 1u8,
        };
        out.push(rb);
        let mut tsb = u64_to_le_bytes(m.timestamp);
        out.append(&mut tsb);
        let cb: Vec<u8> = m.content.as_str().as_bytes_vec();
        let clen: usize = cb.len();
        let mut lb = u64_to_le_bytes(clen as u64);
        out.append(&mut lb);
        let mut cbm = cb;
        out.append(&mut cbm);
        proof {
            let mv = msgs@[i as int]@;
            assert(encode_utf8(mv.content).len() == clen);
            assert((encode_utf8(mv.content).len() as u64) == (clen as u64));
            assert(out@ =~= pre + spec_encode_msg(mv));
            lemma_encode_history_push(history_view(msgs@.take(i as int)), mv);
            assert(history_view(msgs@.take(i as int)).push(mv) =~= history_view(
                msgs@.take(i as int + 1),
            ));
        }
        i = i + 1;
    }
    proof {
        assert(msgs@.take(n as int) =~= msgs@);
    }
    out
}

/// Deserializes a durable byte image back into a message log; fails exactly
/// on bytes that no history encodes to.
#[verifier::loop_isolation(false)]
pub fn decode_history(bytes: &Vec<u8>) -> (r: Option<Vec<Message>>)
    ensures
        match r {
            Some(ms) => spec_decode_history(bytes@) == Some(history_view(ms@)) && history_wf(
                history_view(ms@),
            ),
            None => spec_decode_history(bytes@) is None,
        },
{
    broadcast use encode_utf8_decode_utf8;

    let n = bytes.len();
    let s: &[u8] = bytes.as_slice();
    let mut pos: usize = 0;
    let mut acc: Vec<Message> = Vec::new();
    proof {
        assert(bytes@.skip(0) =~= bytes@);
        assert(history_view(acc@) =~= Seq::<MessageView>::empty());
    }
    while pos < n
        invariant
            pos <= n,
            history_wf(history_view(acc@)),
            spec_decode_history(bytes@) == (match spec_decode_history(bytes@.skip(pos as int)) {
                Option::None => None::<Seq<MessageView>>,
                Option::Some(rest) => Some(history_view(acc@) + rest),
            }),
        decreases n - pos,
    {
        let ghost tail = bytes@.skip(pos as int);
        if n - pos < 17 {
            proof {
                assert(spec_decode_msg(tail) is None);
            }
            return None;
        }
        let rb: u8 = s[pos];
        proof {
            assert(tail[0] == bytes@[pos as int]);
        }
        if rb != 0 && rb != 1 {
            return None;
        }
        let role = if rb == 0 {
            Role::User
        } else {
            Role::Assistant
        };
        let ts_slice = slice_subrange(s, pos + 1, pos + 9);
        let ts = u64_from_le_bytes(ts_slice);
        proof {
            assert(tail.subrange(1, 9) =~= bytes@.subrange(pos as int + 1, pos as int + 9));
        }
        let len_slice = slice_subrange(s, pos + 9, pos + 17);
        let clen64 = u64_from_le_bytes(len_slice);
        proof {
            assert(tail.subrange(9, 17) =~= bytes@.subrange(pos as int + 9, pos as int + 17));
        }
        let remaining: usize = n - pos - 17;
        if clen64 > (remaining as u64) {
            proof {
                assert(17 + (clen64 as int) > tail.len());
                assert(spec_decode_msg(tail) is None);
            }
            return None;
        }
        let clen: usize = clen64 as usize;
        let cslice = slice_subrange(s, pos + 17, pos + 17 + clen);
        proof {
            assert(tail.subrange(17, 17 + clen as int) =~= bytes@.subrange(
                pos as int + 17,
                pos as int + 17 + clen as int,
            ));
        }
        let cvec: Vec<u8> = slice_to_vec(cslice);
        let content = match string_from_utf8(cvec) {
            Some(c) => c,
            None => {
                proof {
                    assert(!valid_utf8(tail.subrange(17, 17 + clen as int)));
                    assert(spec_decode_msg(tail) is None);
                }
                return None;
            },
        };
        let ghost mv = MessageView { role, content: content@, timestamp: ts };
        let used: usize = 17 + clen;
        proof {
            assert(decode_utf8(tail.subrange(17, 17 + clen as int)) == content@);
            assert(msg_wf(mv));
            assert(spec_decode_msg(tail) == Some((mv, used as int)));
            assert(tail.skip(used as int) =~= bytes@.skip(pos as int + used as int));
        }
        let ghost pre_acc = acc@;
        acc.push(Message { role, content, timestamp: ts });
        pos = pos + used;
        proof {
            assert(history_view(acc@) =~= history_view(pre_acc).push(mv));
            assert(history_wf(history_view(acc@)));
            let next = bytes@.skip(pos as int);
            match spec_decode_history(next) {
                Option::None => {
                    assert(spec_decode_history(tail) is None);
                },
                Option::Some(rest) => {
                    assert(spec_decode_history(tail) == Some(seq![mv] + rest));
                    assert(history_view(pre_acc) + (seq![mv] + rest) =~= history_view(acc@) + rest);
                },
            }
        }
    }
    proof {
        assert(bytes@.skip(pos as int) =~= Seq::<u8>::empty());
        assert(spec_decode_history(bytes@.skip(pos as int)) == Some(Seq::<MessageView>::empty()));
        assert(history_view(acc@) + Seq::<MessageView>::empty() =~= history_view(acc@));
    }
    Some(acc)
}

/// Model of a chat session: its identity and its ordered message log.
pub struct SessionView {
    pub key: Seq<char>,
    pub messages: Seq<MessageView>,
}

/// A per-conversation ordered message log with a load/persist lifecycle.
/// The log is append-only during a session: messages are never reordered or
/// deduplicated.
pub struct ChatSession {
    key: String,
    messages: Vec<Message>,
}

impl View for ChatSession {
    type V = SessionView;

    closed spec fn view(&self) -> SessionView {
        SessionView { key: self.key@, messages: history_view(self.messages@) }
    }
}

impl ChatSession {
    /// Every held message is encodable, so the session can always be saved.
    pub open spec fn wf(&self) -> bool {
        history_wf(self@.messages)
    }

    /// A fresh session for `key` with an empty history.
    pub fn new(key: String) -> (s: ChatSession)
        ensures
            s@.key == key@,
            s@.messages.len() == 0,
            s.wf(),
    {
        let s = ChatSession { key, messages: Vec::new() };
        proof {
            assert(history_view(s.messages@) =~= Seq::<MessageView>::empty());
        }
        s
    }

    /// The session key selecting the persisted conversation.
    pub fn key(&self) -> (r: &String)
        ensures
            r@ == self@.key,
    {
        &self.key
    }

    /// Installs the persisted history handed in by the caller: absent
    /// storage initializes an empty history (not an error); a corrupted
    /// store degrades to an empty history and reports the failure instead
    /// of crashing the run.
    pub fn load_history(&mut self, stored: Option<Vec<u8>>) -> (loaded_ok: bool)
        ensures
            final(self)@.key == old(self)@.key,
            final(self).wf(),
            match stored {
                Some(bytes) => match spec_decode_history(bytes@) {
                    Some(ms) => loaded_ok && final(self)@.messages == ms,
                    None => !loaded_ok && final(self)@.messages.len() == 0,
                },
                None => loaded_ok && final(self)@.messages.len() == 0,
            },
    {
        match stored {
            Some(bytes) => {
                match decode_history(&bytes) {
                    Some(ms) => {
                        self.messages = ms;
                        true
                    },
                    None => {
                        self.messages = Vec::new();
                        proof {
                            assert(history_view(self.messages@) =~= Seq::<MessageView>::empty());
                        }
                        false
                    },
                }
            },
            None => {
                self.messages = Vec::new();
                proof {
                    assert(history_view(self.messages@) =~= Seq::<MessageView>::empty());
                }
                true
            },
        }
    }

    /// Appends one message to the log; nothing is reordered, nothing is
    /// dropped.
    pub fn add_message(&mut self, role: Role, content: String, timestamp: u64)
        requires
            old(self).wf(),
        ensures
            final(self)@.key == old(self)@.key,
            final(self)@.messages == old(self)@.messages.push(
                MessageView { role, content: content@, timestamp },
            ),
            final(self).wf(),
    {
        let ghost pre = self.messages@;
        let m = Message::new(role, content, timestamp);
        self.messages.push(m);
        proof {
            assert(history_view(self.messages@) =~= history_view(pre).push(m@));
        }
    }

    /// Read-only view of the conversation for display.
    pub fn history(&self) -> (r: &Vec<Message>)
        ensures
            history_view(r@) == self@.messages,
    {
        &self.messages
    }

    /// Serializes the full current message sequence for the caller to
    /// persist atomically; the round-trip law guarantees a later load
    /// reconstructs this exact log.
    pub fn save_history(&self) -> (bytes: Vec<u8>)
        ensures
            bytes@ == spec_encode_history(self@.messages),
    {
        encode_history(&self.messages)
    }
}

} // verus!
