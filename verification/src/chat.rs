use vstd::prelude::*;
use crate::errors::ChainError;
use crate::messages::{ai_view, human_view, system_view, views_of, Message, MessageType, MessageView};
use crate::prompt_args::{clone_messages, lookup, ArgValue, ArgView, PromptArgs};
use crate::prompt_value::PromptValue;
use crate::template::{failure_of, lemma_render_ready, PromptTemplate, Rendered};

verus! {

/// The single message view a role template produces from a rendering.
pub open spec fn role_message(role: MessageType, content: Seq<char>) -> MessageView {
    MessageView { content: content, message_type: role }
}

/// A template whose rendering is wrapped as one human message.
#[derive(Debug, Clone)]
pub struct HumanMessagePromptTemplate {
    pub prompt: PromptTemplate,
}

/// A template whose rendering is wrapped as one system message.
#[derive(Debug, Clone)]
pub struct SystemMessagePromptTemplate {
    pub prompt: PromptTemplate,
}

/// A template whose rendering is wrapped as one AI message.
#[derive(Debug, Clone)]
pub struct AIMessagePromptTemplate {
    pub prompt: PromptTemplate,
}

impl HumanMessagePromptTemplate {
    pub fn new(prompt: PromptTemplate) -> (r: Self)
        ensures
            r.prompt == prompt,
    {
        Self { prompt }
    }

    /// Renders the wrapped template and wraps the text as exactly one
    /// human message.
    pub fn format_messages(&self, args: &PromptArgs) -> (r: Result<Vec<Message>, ChainError>)
        ensures
            match r {
                Ok(ms) => (self.prompt.spec_format(args@) matches Rendered::Done(c)
                    && views_of(ms@) == seq![human_view(c)]),
                Err(e) => failure_of(self.prompt.spec_format(args@), e),
            },
    {
        let text = match self.prompt.format(args) {
            Ok(text) => text,
            Err(e) => {
                return Err(e);
            },
        };
        let mut v: Vec<Message> = Vec::new();
        v.push(Message::new_human_message(text.as_str()));
        proof {
            assert(views_of(v@) =~= seq![human_view(text@)]);
        }
        Ok(v)
    }

    /// The wrapped template's declared variable names.
    pub fn input_variables(&self) -> (r: Vec<String>)
        ensures
            r.deep_view() == self.prompt.spec_variables(),
    {
        clone_strings(self.prompt.variables())
    }

    /// Renders to a one-message chat prompt value.
    pub fn format_prompt(&self, args: &PromptArgs) -> (r: Result<PromptValue, ChainError>)
        ensures
            match r {
                Ok(pv) => (pv matches PromptValue::Messages(ms) && self.prompt.spec_format(args@)
                    matches Rendered::Done(c) && views_of(ms@) == seq![human_view(c)]),
                Err(e) => failure_of(self.prompt.spec_format(args@), e),
            },
    {
        let messages = self.format_messages(args)?;
        Ok(PromptValue::from_messages(messages))
    }

    /// The names this template requires; the accessor the prompt
    /// abstraction shares with the chat formatter.
    pub fn get_input_variables(&self) -> (r: Vec<String>)
        ensures
            r.deep_view() == self.prompt.spec_variables(),
    {
        self.input_variables()
    }
}

impl SystemMessagePromptTemplate {
    pub fn new(prompt: PromptTemplate) -> (r: Self)
        ensures
            r.prompt == prompt,
    {
        Self { prompt }
    }

    /// Renders the wrapped template and wraps the text as exactly one
    /// system message.
    pub fn format_messages(&self, args: &PromptArgs) -> (r: Result<Vec<Message>, ChainError>)
        ensures
            match r {
                Ok(ms) => (self.prompt.spec_format(args@) matches Rendered::Done(c)
                    && views_of(ms@) == seq![system_view(c)]),
                Err(e) => failure_of(self.prompt.spec_format(args@), e),
            },
    {
        let text = match self.prompt.format(args) {
            Ok(text) => text,
            Err(e) => {
                return Err(e);
            },
        };
        let mut v: Vec<Message> = Vec::new();
        v.push(Message::new_system_message(text.as_str()));
        proof {
            assert(views_of(v@) =~= seq![system_view(text@)]);
        }
        Ok(v)
    }

    /// The wrapped template's declared variable names.
    pub fn input_variables(&self) -> (r: Vec<String>)
        ensures
            r.deep_view() == self.prompt.spec_variables(),
    {
        clone_strings(self.prompt.variables())
    }

    /// Renders to a one-message chat prompt value.
    pub fn format_prompt(&self, args: &PromptArgs) -> (r: Result<PromptValue, ChainError>)
        ensures
            match r {
                Ok(pv) => (pv matches PromptValue::Messages(ms) && self.prompt.spec_format(args@)
                    matches Rendered::Done(c) && views_of(ms@) == seq![system_view(c)]),
                Err(e) => failure_of(self.prompt.spec_format(args@), e),
            },
    {
        let messages = self.format_messages(args)?;
        Ok(PromptValue::from_messages(messages))
    }

    /// The names this template requires; the accessor the prompt
    /// abstraction shares with the chat formatter.
    pub fn get_input_variables(&self) -> (r: Vec<String>)
        ensures
            r.deep_view() == self.prompt.spec_variables(),
    {
        self.input_variables()
    }
}

impl AIMessagePromptTemplate {
    pub fn new(prompt: PromptTemplate) -> (r: Self)
        ensures
            r.prompt == prompt,
    {
        Self { prompt }
    }

    /// Renders the wrapped template and wraps the text as exactly one
    /// AI message.
    pub fn format_messages(&self, args: &PromptArgs) -> (r: Result<Vec<Message>, ChainError>)
        ensures
            match r {
                Ok(ms) => (self.prompt.spec_format(args@) matches Rendered::Done(c)
                    && views_of(ms@) == seq![ai_view(c)]),
                Err(e) => failure_of(self.prompt.spec_format(args@), e),
            },
    {
        let text = match self.prompt.format(args) {
            Ok(text) => text,
            Err(e) => {
                return Err(e);
            },
        };
        let mut v: Vec<Message> = Vec::new();
        v.push(Message::new_ai_message(text.as_str()));
        proof {
            assert(views_of(v@) =~= seq![ai_view(text@)]);
        }
        Ok(v)
    }

    /// The wrapped template's declared variable names.
    pub fn input_variables(&self) -> (r: Vec<String>)
        ensures
            r.deep_view() == self.prompt.spec_variables(),
    {
        clone_strings(self.prompt.variables())
    }

    /// Renders to a one-message chat prompt value.
    pub fn format_prompt(&self, args: &PromptArgs) -> (r: Result<PromptValue, ChainError>)
        ensures
            match r {
                Ok(pv) => (pv matches PromptValue::Messages(ms) && self.prompt.spec_format(args@)
                    matches Rendered::Done(c) && views_of(ms@) == seq![ai_view(c)]),
                Err(e) => failure_of(self.prompt.spec_format(args@), e),
            },
    {
        let messages = self.format_messages(args)?;
        Ok(PromptValue::from_messages(messages))
    }

    /// The names this template requires; the accessor the prompt
    /// abstraction shares with the chat formatter.
    pub fn get_input_variables(&self) -> (r: Vec<String>)
        ensures
            r.deep_view() == self.prompt.spec_variables(),
    {
        self.input_variables()
    }
}

/// One of the three role templates: the closed set of message-producing
/// templates a chat formatter can hold.
#[derive(Debug, Clone)]
pub enum MessageTemplate {
    Human(HumanMessagePromptTemplate),
    System(SystemMessagePromptTemplate),
    AI(AIMessagePromptTemplate),
}

impl MessageTemplate {
    /// The role of the message this template produces.
    pub open spec fn spec_role(&self) -> MessageType {
        match self {
            MessageTemplate::Human(_) => MessageType::HumanMessage,
            MessageTemplate::System(_) => MessageType::SystemMessage,
            MessageTemplate::AI(_) => MessageType::AIMessage,
        }
    }

    /// The wrapped text template.
    pub open spec fn spec_prompt(&self) -> PromptTemplate {
        match self {
            MessageTemplate::Human(t) => t.prompt,
            MessageTemplate::System(t) => t.prompt,
            MessageTemplate::AI(t) => t.prompt,
        }
    }

    pub open spec fn wf(&self) -> bool {
        self.spec_prompt().wf()
    }

    /// The one-message rendering of this template.
    pub open spec fn spec_format(&self, args: Seq<(Seq<char>, ArgView)>) -> Rendered<
        Seq<MessageView>,
    > {
        match self.spec_prompt().spec_format(args) {
            Rendered::Done(c) => Rendered::Done(seq![role_message(self.spec_role(), c)]),
            Rendered::Missing(n) => Rendered::Missing(n),
            Rendered::BadValue(n) => Rendered::BadValue(n),
            Rendered::Malformed => Rendered::Malformed,
        }
    }

    fn prompt_ref(&self) -> (r: &PromptTemplate)
        ensures
            *r == self.spec_prompt(),
    {
        match self {
            MessageTemplate::Human(t) => &t.prompt,
            MessageTemplate::System(t) => &t.prompt,
            MessageTemplate::AI(t) => &t.prompt,
        }
    }

    /// Renders the wrapped template and wraps the text as exactly one
    /// message of this template's role.
    pub fn format_messages(&self, args: &PromptArgs) -> (r: Result<Vec<Message>, ChainError>)
        ensures
            match r {
                Ok(ms) => self.spec_format(args@) == Rendered::<Seq<MessageView>>::Done(
                    views_of(ms@),
                ),
                Err(e) => failure_of(self.spec_format(args@), e),
            },
    {
        let text = match self.prompt_ref().format(args) {
            Ok(text) => text,
            Err(e) => {
                return Err(e);
            },
        };
        let m = match self {
            MessageTemplate::Human(_) => Message::new_human_message(text.as_str()),
            MessageTemplate::System(_) => Message::new_system_message(text.as_str()),
            MessageTemplate::AI(_) => Message::new_ai_message(text.as_str()),
        };
        let mut v: Vec<Message> = Vec::new();
        v.push(m);
        proof {
            assert(views_of(v@) =~= seq![role_message(self.spec_role(), text@)]);
        }
        Ok(v)
    }

    /// The wrapped template's declared variable names.
    pub fn input_variables(&self) -> (r: Vec<String>)
        ensures
            r.deep_view() == self.spec_prompt().spec_variables(),
    {
        clone_strings(self.prompt_ref().variables())
    }
}

/// Copies a list of names element by element.
pub fn clone_strings(v: &Vec<String>) -> (r: Vec<String>)
    ensures
        r@ == v@,
        r.deep_view() == v.deep_view(),
{
    let mut r: Vec<String> = Vec::new();
    let mut i: usize = 0;
    while i < v.len()
        invariant
            i <= v.len(),
            r@ == v@.take(i as int),
        decreases v.len() - i,
    {
        r.push(v[i].clone());
        proof {
            assert(v@.take(i + 1) =~= v@.take(i as int).push(v@[i as int]));
        }
        i = i + 1;
    }
    proof {
        assert(v@.take(v@.len() as int) =~= v@);
        assert(r.deep_view() =~= v.deep_view());
    }
    r
}

/// One entry of a chat formatter: a literal message copied through, a
/// role template rendered in place, or a named placeholder expanded to
/// the message list bound to that name.
#[derive(Debug)]
pub enum MessageOrTemplate {
    Message(Message),
    Template(MessageTemplate),
    MessagesPlaceholder(String),
}

/// The names an item list requires from the arguments, in item order,
/// without deduplication.
pub open spec fn vars_of_items(items: Seq<MessageOrTemplate>) -> Seq<Seq<char>>
    decreases items.len(),
{
    if items.len() == 0 {
        Seq::<Seq<char>>::empty()
    } else {
        (match items[0] {
            MessageOrTemplate::Message(_) => Seq::<Seq<char>>::empty(),
            MessageOrTemplate::Template(t) => t.spec_prompt().spec_variables(),
            MessageOrTemplate::MessagesPlaceholder(p) => seq![p@],
        }) + vars_of_items(items.drop_first())
    }
}

/// Prefixes a rendered head onto the rendering of the remaining items.
pub open spec fn prepend_rendered(head: Seq<MessageView>, rest: Rendered<Seq<MessageView>>) -> Rendered<
    Seq<MessageView>,
> {
    match rest {
        Rendered::Done(ms) => Rendered::Done(head + ms),
        r => r,
    }
}

/// The flattened message sequence an item list renders to: literals
/// copied, templates rendered to one message each, placeholders
/// expanded to the bound message list. An absent placeholder name is a
/// missing input; one bound to text is a badly shaped input.
pub open spec fn format_items(
    items: Seq<MessageOrTemplate>,
    args: Seq<(Seq<char>, ArgView)>,
) -> Rendered<Seq<MessageView>>
    decreases items.len(),
{
    if items.len() == 0 {
        Rendered::Done(Seq::<MessageView>::empty())
    } else {
        match items[0] {
            MessageOrTemplate::Message(m) => prepend_rendered(
                seq![m@],
                format_items(items.drop_first(), args),
            ),
            MessageOrTemplate::Template(t) => match t.spec_format(args) {
                Rendered::Done(ms) => prepend_rendered(ms, format_items(items.drop_first(), args)),
                r => r,
            },
            MessageOrTemplate::MessagesPlaceholder(p) => match lookup(args, p@) {
                Some(ArgView::Messages(ms)) => prepend_rendered(
                    ms,
                    format_items(items.drop_first(), args),
                ),
                Some(ArgView::Text(_)) => Rendered::BadValue(p@),
                None => Rendered::Missing(p@),
            },
        }
    }
}

/// An ordered list of chat formatter entries, composed once and then
/// rendered against many argument mappings.
#[derive(Debug)]
pub struct MessageFormatterStruct {
    items: Vec<MessageOrTemplate>,
}

impl MessageFormatterStruct {
    /// The composed entries, in order.
    pub closed spec fn spec_items(&self) -> Seq<MessageOrTemplate> {
        self.items@
    }

    /// Every held template is well formed.
    pub open spec fn wf(&self) -> bool {
        forall|i: int|
            0 <= i < self.spec_items().len() ==> ((#[trigger] self.spec_items()[i])
                matches MessageOrTemplate::Template(t) ==> t.wf())
    }

    /// The rendering of the composed entries.
    pub open spec fn spec_format(&self, args: Seq<(Seq<char>, ArgView)>) -> Rendered<
        Seq<MessageView>,
    > {
        format_items(self.spec_items(), args)
    }

    /// The names this formatter requires.
    pub open spec fn spec_variables(&self) -> Seq<Seq<char>> {
        vars_of_items(self.spec_items())
    }

    pub fn new() -> (r: Self)
        ensures
            r.spec_items() == Seq::<MessageOrTemplate>::empty(),
            r.wf(),
    {
        MessageFormatterStruct { items: Vec::new() }
    }

    /// Appends a literal message entry.
    pub fn add_message(&mut self, message: Message)
        ensures
            final(self).spec_items() == old(self).spec_items().push(
                MessageOrTemplate::Message(message),
            ),
    {
        self.items.push(MessageOrTemplate::Message(message));
    }

    /// Appends a role template entry.
    pub fn add_template(&mut self, template: MessageTemplate)
        ensures
            final(self).spec_items() == old(self).spec_items().push(
                MessageOrTemplate::Template(template),
            ),
    {
        self.items.push(MessageOrTemplate::Template(template));
    }

    /// Appends a placeholder entry under the given name.
    pub fn add_messages_placeholder(&mut self, placeholder: &str)
        ensures
            final(self).spec_items().len() == old(self).spec_items().len() + 1,
            final(self).spec_items().drop_last() == old(self).spec_items(),
            (final(self).spec_items().last() matches MessageOrTemplate::MessagesPlaceholder(p)
                && p@ == placeholder@),
    {
        self.items.push(MessageOrTemplate::MessagesPlaceholder(placeholder.to_owned()));
        proof {
            assert(self.items@.drop_last() =~= old(self).items@);
        }
    }

    /// Renders the entries in order into one flattened message list.
    pub fn format(&self, args: &PromptArgs) -> (r: Result<Vec<Message>, ChainError>)
        ensures
            match r {
                Ok(ms) => self.spec_format(args@) == Rendered::<Seq<MessageView>>::Done(
                    views_of(ms@),
                ),
                Err(e) => failure_of(self.spec_format(args@), e),
            },
    {
        let ghost whole = format_items(self.items@, args@);
        let mut result: Vec<Message> = Vec::new();
        let mut i: usize = 0;
        proof {
            assert(self.items@.skip(0) =~= self.items@);
        }
        while i < self.items.len()
            invariant
                i <= self.items.len(),
                whole == format_items(self.items@, args@),
                (match format_items(self.items@.skip(i as int), args@) {
                    Rendered::Done(rest) => whole == Rendered::<Seq<MessageView>>::Done(
                        views_of(result@) + rest,
                    ),
                    r => whole == r,
                }),
            decreases self.items.len() - i,
        {
            let item = &self.items[i];
            proof {
                assert(self.items@.skip(i as int)[0] == self.items@[i as int]);
                assert(self.items@.skip(i as int).drop_first() =~= self.items@.skip(i + 1));
            }
            let ghost r0 = views_of(result@);
            match item {
                MessageOrTemplate::Message(msg) => {
                    result.push(msg.clone());
                    proof {
                        assert(views_of(result@) =~= r0.push(msg@));
                        match format_items(self.items@.skip(i + 1), args@) {
                            Rendered::Done(rest) => {
                                assert(r0 + (seq![msg@] + rest) =~= r0.push(msg@) + rest);
                            },
                            _ => {},
                        }
                    }
                },
                MessageOrTemplate::Template(tmpl) => {
                    match tmpl.format_messages(args) {
                        Ok(ms) => {
                            let ghost mv = views_of(ms@);
                            let mut ms = ms;
                            result.append(&mut ms);
                            proof {
                                assert(views_of(result@) =~= r0 + mv);
                                match format_items(self.items@.skip(i + 1), args@) {
                                    Rendered::Done(rest) => {
                                        assert(r0 + (mv + rest) =~= (r0 + mv) + rest);
                                    },
                                    _ => {},
                                }
                            }
                        },
                        Err(e) => {
                            return Err(e);
                        },
                    }
                },
                MessageOrTemplate::MessagesPlaceholder(ph) => {
                    match args.get(ph.as_str()) {
                        None => {
                            return Err(ChainError::MissingInput(ph.clone()));
                        },
                        Some(v) => match v {
                            ArgValue::Messages(ms) => {
                                let ghost mv = views_of(ms@);
                                let mut cloned = clone_messages(ms);
                                result.append(&mut cloned);
                                proof {
                                    assert(views_of(result@) =~= r0 + mv);
                                    match format_items(self.items@.skip(i + 1), args@) {
                                        Rendered::Done(rest) => {
                                            assert(r0 + (mv + rest) =~= (r0 + mv) + rest);
                                        },
                                        _ => {},
                                    }
                                }
                            },
                            ArgValue::Text(_) => {
                                return Err(ChainError::InvalidInput(ph.clone()));
                            },
                        },
                    }
                },
            }
            i = i + 1;
        }
        proof {
            assert(views_of(result@) + Seq::<MessageView>::empty() =~= views_of(result@));
        }
        Ok(result)
    }

    /// Renders the entries; the name the chat formatter shares with the
    /// role templates.
    pub fn format_messages(&self, args: &PromptArgs) -> (r: Result<Vec<Message>, ChainError>)
        ensures
            match r {
                Ok(ms) => self.spec_format(args@) == Rendered::<Seq<MessageView>>::Done(
                    views_of(ms@),
                ),
                Err(e) => failure_of(self.spec_format(args@), e),
            },
    {
        self.format(args)
    }

    /// Renders the entries and wraps them as a chat prompt value.
    pub fn format_prompt(&self, args: &PromptArgs) -> (r: Result<PromptValue, ChainError>)
        ensures
            match r {
                Ok(pv) => (pv matches PromptValue::Messages(ms) && self.spec_format(args@)
                    == Rendered::<Seq<MessageView>>::Done(views_of(ms@))),
                Err(e) => failure_of(self.spec_format(args@), e),
            },
    {
        let messages = self.format(args)?;
        Ok(PromptValue::from_messages(messages))
    }

    /// The names the composed entries require, in item order, with
    /// duplicates kept.
    pub fn input_variables(&self) -> (r: Vec<String>)
        ensures
            r.deep_view() == self.spec_variables(),
    {
        let mut result: Vec<String> = Vec::new();
        let mut i: usize = 0;
        proof {
            assert(self.items@.skip(0) =~= self.items@);
        }
        while i < self.items.len()
            invariant
                i <= self.items.len(),
                vars_of_items(self.items@) == result.deep_view() + vars_of_items(
                    self.items@.skip(i as int),
                ),
            decreases self.items.len() - i,
        {
            let item = &self.items[i];
            proof {
                assert(self.items@.skip(i as int)[0] == self.items@[i as int]);
                assert(self.items@.skip(i as int).drop_first() =~= self.items@.skip(i + 1));
            }
            let ghost r0 = result.deep_view();
            match item {
                MessageOrTemplate::Message(_) => {
                    proof {
                        assert(r0 + (Seq::<Seq<char>>::empty() + vars_of_items(
                            self.items@.skip(i + 1),
                        )) =~= r0 + vars_of_items(self.items@.skip(i + 1)));
                    }
                },
                MessageOrTemplate::Template(tmpl) => {
                    let mut vs = tmpl.input_variables();
                    let ghost vv = vs.deep_view();
                    result.append(&mut vs);
                    proof {
                        assert(result.deep_view() =~= r0 + vv);
                        assert(r0 + (vv + vars_of_items(self.items@.skip(i + 1))) =~= (r0 + vv)
                            + vars_of_items(self.items@.skip(i + 1)));
                    }
                },
                MessageOrTemplate::MessagesPlaceholder(ph) => {
                    result.push(ph.clone());
                    proof {
                        assert(result.deep_view() =~= r0.push(ph@));
                        assert(r0 + (seq![ph@] + vars_of_items(self.items@.skip(i + 1))) =~= r0.push(
                            ph@,
                        ) + vars_of_items(self.items@.skip(i + 1)));
                    }
                },
            }
            i = i + 1;
        }
        proof {
            assert(result.deep_view() + Seq::<Seq<char>>::empty() =~= result.deep_view());
        }
        result
    }

    /// The names this formatter requires; the accessor the prompt
    /// abstraction shares with the role templates.
    pub fn get_input_variables(&self) -> (r: Vec<String>)
        ensures
            r.deep_view() == self.spec_variables(),
    {
        self.input_variables()
    }

    /// When every required name is bound at all, rendering cannot stop
    /// on a missing name, and well-formed entries cannot render as
    /// malformed.
    pub proof fn lemma_format_ready(&self, args: Seq<(Seq<char>, ArgView)>)
        requires
            self.wf(),
            forall|v: Seq<char>|
                self.spec_variables().contains(v) ==> (#[trigger] lookup(args, v)) is Some,
        ensures
            !(self.spec_format(args) is Missing),
            !(self.spec_format(args) is Malformed),
    {
        lemma_format_items_ready(self.spec_items(), args);
    }
}

/// The readiness law behind `lemma_format_ready`, by induction over
/// the entry list.
proof fn lemma_format_items_ready(items: Seq<MessageOrTemplate>, args: Seq<(Seq<char>, ArgView)>)
    requires
        forall|i: int|
            0 <= i < items.len() ==> ((#[trigger] items[i]) matches MessageOrTemplate::Template(t)
                ==> t.wf()),
        forall|v: Seq<char>|
            vars_of_items(items).contains(v) ==> (#[trigger] lookup(args, v)) is Some,
    ensures
        !(format_items(items, args) is Missing),
        !(format_items(items, args) is Malformed),
    decreases items.len(),
{
    if items.len() == 0 {
    } else {
        let head_vars = match items[0] {
            MessageOrTemplate::Message(_) => Seq::<Seq<char>>::empty(),
            MessageOrTemplate::Template(t) => t.spec_prompt().spec_variables(),
            MessageOrTemplate::MessagesPlaceholder(p) => seq![p@],
        };
        let tail_vars = vars_of_items(items.drop_first());
        assert(vars_of_items(items) == head_vars + tail_vars);
        assert forall|v: Seq<char>| head_vars.contains(v) implies vars_of_items(items).contains(
            v,
        ) by {
            let idx = choose|idx: int| 0 <= idx < head_vars.len() && head_vars[idx] == v;
            assert((head_vars + tail_vars)[idx] == v);
        }
        assert forall|v: Seq<char>| tail_vars.contains(v) implies vars_of_items(items).contains(
            v,
        ) by {
            let idx = choose|idx: int| 0 <= idx < tail_vars.len() && tail_vars[idx] == v;
            assert((head_vars + tail_vars)[idx + head_vars.len()] == v);
        }
        assert forall|i: int| 0 <= i < items.drop_first().len() implies ((
        #[trigger] items.drop_first()[i]) matches MessageOrTemplate::Template(t) ==> t.wf()) by {
            assert(items.drop_first()[i] == items[i + 1]);
        }
        lemma_format_items_ready(items.drop_first(), args);
        match items[0] {
            MessageOrTemplate::Message(_) => {},
            MessageOrTemplate::Template(t) => {
                lemma_render_ready(t.spec_prompt().spec_template(), 0, args);
            },
            MessageOrTemplate::MessagesPlaceholder(p) => {
                assert(head_vars[0] == p@);
                assert(head_vars.contains(p@));
            },
        }
    }
}

} // verus!
