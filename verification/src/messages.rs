use vstd::prelude::*;

verus! {

/// The role a chat message carries. Wire formats tag the three roles
/// with the lowercase strings `"system"`, `"ai"` and `"human"`; the
/// adapter layer around this library owns that encoding.
#[derive(Debug, Clone, Copy, PartialEq, Eq, Structural)]
pub enum MessageType {
    SystemMessage,
    AIMessage,
    HumanMessage,
}

impl Default for MessageType {
    fn default() -> (r: Self)
        ensures
            r == MessageType::SystemMessage,
    {
        MessageType::SystemMessage
    }
}

/// One conversational unit: a content string together with the role it
/// was uttered in. Immutable once constructed.
#[derive(Debug, PartialEq)]
pub struct Message {
    pub content: String,
    pub message_type: MessageType,
}

/// The mathematical value of a `Message`: its characters and its role.
pub struct MessageView {
    pub content: Seq<char>,
    pub message_type: MessageType,
}

impl View for Message {
    type V = MessageView;

    open spec fn view(&self) -> MessageView {
        MessageView { content: self.content@, message_type: self.message_type }
    }
}

/// The view of a human message with the given content.
pub open spec fn human_view(content: Seq<char>) -> MessageView {
    MessageView { content: content, message_type: MessageType::HumanMessage }
}

/// The view of a system message with the given content.
pub open spec fn system_view(content: Seq<char>) -> MessageView {
    MessageView { content: content, message_type: MessageType::SystemMessage }
}

/// The view of an AI message with the given content.
pub open spec fn ai_view(content: Seq<char>) -> MessageView {
    MessageView { content: content, message_type: MessageType::AIMessage }
}

/// The views of a sequence of messages, in order.
pub open spec fn views_of(ms: Seq<Message>) -> Seq<MessageView> {
    ms.map_values(|m: Message| m@)
}

impl Clone for Message {
    fn clone(&self) -> (r: Self)
        ensures
            r == *self,
    {
        Message { content: self.content.clone(), message_type: self.message_type }
    }
}

impl Message {
    pub fn new_human_message(content: &str) -> (r: Self)
        ensures
            r@ == human_view(content@),
    {
        Message { content: content.to_owned(), message_type: MessageType::HumanMessage }
    }

    pub fn new_system_message(content: &str) -> (r: Self)
        ensures
            r@ == system_view(content@),
    {
        Message { content: content.to_owned(), message_type: MessageType::SystemMessage }
    }

    pub fn new_ai_message(content: &str) -> (r: Self)
        ensures
            r@ == ai_view(content@),
    {
        Message { content: content.to_owned(), message_type: MessageType::AIMessage }
    }
}

impl Default for Message {
    fn default() -> (r: Self)
        ensures
            r@ == system_view(Seq::<char>::empty()),
    {
        Message { content: String::new(), message_type: MessageType::SystemMessage }
    }
}

} // verus!
