//! Conversations: ordered sequences of messages.

use vstd::prelude::*;

verus! {

/// A single email in a conversation; a conversation is the ordered sequence
/// of messages, oldest first, and is read-only once handed in.
#[derive(Debug, Clone)]
pub struct Message {
    pub content: String,
    pub sender: String,
}

impl Message {
    /// Builds a message from its parts.
    pub fn new(sender: &str, content: &str) -> (r: Message)
        ensures
            r.sender@ == sender@,
            r.content@ == content@,
    {
        Message { content: content.to_owned(), sender: sender.to_owned() }
    }
}

/// How one message is rendered into a prompt: its sender, a separator, its
/// text, and a line break.
pub open spec fn message_text(m: Message) -> Seq<char> {
    m.sender@ + ": "@ + m.content@ + "\n"@
}

/// How a whole conversation is rendered into a prompt: its messages in
/// order.
pub open spec fn conversation_text(ms: Seq<Message>) -> Seq<char>
    decreases ms.len(),
{
    if ms.len() == 0 {
        Seq::empty()
    } else {
        conversation_text(ms.drop_last()) + message_text(ms.last())
    }
}

/// Renders a conversation for embedding into a prompt.
pub fn render_conversation(ms: &Vec<Message>) -> (r: Vec<char>)
    ensures
        r@ == conversation_text(ms@),
{
    let n = ms.len();
    let mut r: Vec<char> = Vec::new();
    let mut i: usize = 0;
    proof {
        assert(ms@.subrange(0, 0) =~= Seq::<Message>::empty());
    }
    while i < n
        invariant
            n == ms@.len(),
            i <= n,
            r@ == conversation_text(ms@.subrange(0, i as int)),
        decreases n - i,
    {
        crate::text::append_str(&mut r, ms[i].sender.as_str());
        crate::text::append_str(&mut r, ": ");
        crate::text::append_str(&mut r, ms[i].content.as_str());
        crate::text::append_str(&mut r, "\n");
        i = i + 1;
        proof {
            assert(ms@.subrange(0, i as int).drop_last() =~= ms@.subrange(0, i - 1));
            assert(ms@.subrange(0, i as int).last() == ms@[i - 1]);
        }
    }
    proof {
        assert(ms@.subrange(0, n as int) =~= ms@);
    }
    r
}

} // verus!
