//! Turning a worker's chat log into the message list sent upstream to the
//! model: log entries written by the orchestrator become `user` messages,
//! entries written by the worker become `assistant` messages, and the
//! current request is appended as the final `user` message.

use vstd::prelude::*;
use vstd::string::StrSliceExecFns;
use vstd::string::StringExecFns;

use crate::text::has_prefix;
use crate::text::spec_find;
use crate::text::find_str;
use crate::text::str_strip_prefix;

verus! {

/// One message of an upstream model request.
pub struct ChatMessage {
    /// `user` or `assistant`.
    pub role: String,
    pub content: String,
}

/// How one chat-log entry reads as a model message: an entry the
/// orchestrator wrote (prefix `Sorcerer: `) is a `user` message, any other
/// entry of the form `name: text` is an `assistant` message, and an entry
/// without a `: ` separator is dropped.
pub open spec fn spec_entry_message(e: Seq<char>) -> Option<(Seq<char>, Seq<char>)> {
    if has_prefix(e, "Sorcerer: "@) {
        Some(("user"@, e.skip("Sorcerer: "@.len() as int)))
    } else {
        match spec_find(e, ": "@) {
            Some(i) => Some(("assistant"@, e.skip(i + ": "@.len() as int))),
            None => None,
        }
    }
}

/// The `(role, content)` views of the messages a chat log contributes.
pub open spec fn spec_messages(h: Seq<String>) -> Seq<(Seq<char>, Seq<char>)>
    decreases h.len(),
{
    if h.len() == 0 {
        Seq::empty()
    } else {
        spec_messages(h.drop_last()) + match spec_entry_message(h.last()@) {
            Some(m) => seq![m],
            None => Seq::empty(),
        }
    }
}

/// Builds the message list for one model call: the history's messages in
/// order, then the current request as a `user` message.
pub fn build_messages(history: &Vec<String>, current: &str) -> (r: Vec<ChatMessage>)
    ensures
        r@.len() == spec_messages(history@).len() + 1,
        forall|i: int|
            0 <= i < spec_messages(history@).len() ==> (#[trigger] r@[i].role@, r@[i].content@)
                == spec_messages(history@)[i],
        r@.last().role@ == "user"@,
        r@.last().content@ == current@,
{
    let n = history.len();
    let mut out: Vec<ChatMessage> = Vec::new();
    let mut i: usize = 0;
    while i < n
        invariant
            0 <= i <= n,
            n == history@.len(),
            out@.len() == spec_messages(history@.take(i as int)).len(),
            forall|k: int|
                0 <= k < out@.len() ==> (#[trigger] out@[k].role@, out@[k].content@)
                    == spec_messages(history@.take(i as int))[k],
        decreases n - i,
    {
        proof {
            assert(history@.take(i + 1).drop_last() =~= history@.take(i as int));
            assert(history@.take(i + 1).last() == history@[i as int]);
        }
        let entry = &history[i];
        match str_strip_prefix(entry.as_str(), "Sorcerer: ") {
            Some(content) => {
                out.push(ChatMessage { role: String::from_str("user"), content });
            },
            None => {
                match find_str(entry.as_str(), ": ") {
                    Some(pos) => {
                        proof {
                            crate::text::lemma_spec_find_props(entry@, ": "@);
                            reveal_strlit(": ");
                        }
                        let len = entry.as_str().unicode_len();
                        let content = entry.as_str().substring_char(pos + 2, len);
                        assert(content@ =~= entry@.skip(pos + 2));
                        out.push(
                            ChatMessage { role: String::from_str("assistant"), content: content.to_owned() },
                        );
                    },
                    None => {},
                }
            },
        }
        i = i + 1;
    }
    assert(history@.take(n as int) =~= history@);
    out.push(ChatMessage { role: String::from_str("user"), content: current.to_owned() });
    out
}

} // verus!
