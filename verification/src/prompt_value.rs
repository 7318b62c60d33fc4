use vstd::prelude::*;
use crate::messages::{human_view, views_of, Message, MessageView};

verus! {

/// A computed prompt: either plain text or an ordered chat message
/// sequence. Either form can be rendered as the other, so one chain
/// implementation serves both completion-style and chat-style backends.
#[derive(Debug, Clone, PartialEq)]
pub enum PromptValue {
    Text(String),
    Messages(Vec<Message>),
}

/// The plain-text rendering of a message sequence: the raw contents
/// joined with a single newline, without role labels.
pub open spec fn joined(ms: Seq<MessageView>) -> Seq<char>
    decreases ms.len(),
{
    if ms.len() == 0 {
        Seq::<char>::empty()
    } else if ms.len() == 1 {
        ms[0].content
    } else {
        ms[0].content + seq!['\n'] + joined(ms.drop_first())
    }
}

/// The chat rendering of a prompt value: a text prompt becomes a single
/// human message; a message sequence is kept unchanged.
pub open spec fn spec_chat(pv: PromptValue) -> Seq<MessageView> {
    match pv {
        PromptValue::Text(s) => seq![human_view(s@)],
        PromptValue::Messages(ms) => views_of(ms@),
    }
}

/// The plain-text rendering of a prompt value: a text prompt is kept
/// unchanged; a message sequence is newline-joined.
pub open spec fn spec_text(pv: PromptValue) -> Seq<char> {
    match pv {
        PromptValue::Text(s) => s@,
        PromptValue::Messages(ms) => joined(views_of(ms@)),
    }
}

/// Joining after appending one message adds a newline separator exactly
/// when something was already there.
proof fn lemma_joined_push(s: Seq<MessageView>, x: MessageView)
    ensures
        joined(s.push(x)) == if s.len() == 0 {
            x.content
        } else {
            joined(s) + seq!['\n'] + x.content
        },
    decreases s.len(),
{
    if s.len() == 0 {
        assert(s.push(x).len() == 1);
        assert(s.push(x)[0] == x);
    } else if s.len() == 1 {
        assert(s.push(x).drop_first() =~= seq![x]);
        assert(joined(seq![x]) == x.content);
        assert(joined(s) == s[0].content);
    } else {
        lemma_joined_push(s.drop_first(), x);
        assert(s.push(x).drop_first() =~= s.drop_first().push(x));
        assert(s.push(x)[0] == s[0]);
        assert(s.drop_first().len() > 0);
        assert(joined(s) + seq!['\n'] + x.content =~= s[0].content + seq!['\n'] + (joined(
            s.drop_first(),
        ) + seq!['\n'] + x.content));
    }
}

impl PromptValue {
    /// Wraps a message sequence.
    pub fn from_messages(messages: Vec<Message>) -> (r: Self)
        ensures
            r == PromptValue::Messages(messages),
    {
        PromptValue::Messages(messages)
    }

    /// Wraps a plain string.
    pub fn from_string(text: String) -> (r: Self)
        ensures
            r == PromptValue::Text(text),
    {
        PromptValue::Text(text)
    }

    /// The chat form of this prompt.
    pub fn to_chat_messages(self) -> (r: Vec<Message>)
        ensures
            views_of(r@) == spec_chat(self),
    {
        match self {
            PromptValue::Messages(ms) => ms,
            PromptValue::Text(s) => {
                let m = Message::new_human_message(s.as_str());
                let mut v: Vec<Message> = Vec::new();
                v.push(m);
                proof {
                    assert(views_of(v@) =~= seq![human_view(s@)]);
                }
                v
            },
        }
    }

    /// The plain-text form of this prompt.
    pub fn to_text(&self) -> (r: String)
        ensures
            r@ == spec_text(*self),
    {
        match self {
            PromptValue::Text(s) => s.clone(),
            PromptValue::Messages(ms) => {
                let mut out = String::new();
                let mut i: usize = 0;
                proof {
                    reveal_strlit("\n");
                }
                while i < ms.len()
                    invariant
                        i <= ms.len(),
                        out@ == joined(views_of(ms@).take(i as int)),
                        "\n"@ == seq!['\n'],
                    decreases ms.len() - i,
                {
                    if i > 0 {
                        out.append("\n");
                    }
                    out.append(ms[i].content.as_str());
                    proof {
                        let vs = views_of(ms@);
                        lemma_joined_push(vs.take(i as int), ms@[i as int]@);
                        assert(vs.take(i + 1) =~= vs.take(i as int).push(ms@[i as int]@));
                        if i > 0 {
                            assert(vs.take(i as int).len() > 0);
                        }
                    }
                    i = i + 1;
                }
                proof {
                    assert(views_of(ms@).take(ms@.len() as int) =~= views_of(ms@));
                }
                out
            },
        }
    }
}

} // verus!
