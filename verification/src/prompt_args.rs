use vstd::prelude::*;
use crate::messages::{views_of, Message, MessageView};

verus! {

/// A value bound to a prompt variable: either plain text, substituted
/// into `{name}` placeholders, or a message list, consumed only by chat
/// placeholder entries.
#[derive(Debug, PartialEq)]
pub enum ArgValue {
    Text(String),
    Messages(Vec<Message>),
}

/// The mathematical value of an `ArgValue`.
pub enum ArgView {
    Text(Seq<char>),
    Messages(Seq<MessageView>),
}

impl View for ArgValue {
    type V = ArgView;

    open spec fn view(&self) -> ArgView {
        match self {
            ArgValue::Text(t) => ArgView::Text(t@),
            ArgValue::Messages(ms) => ArgView::Messages(views_of(ms@)),
        }
    }
}

/// Copies a message list element by element.
pub fn clone_messages(ms: &Vec<Message>) -> (r: Vec<Message>)
    ensures
        r@ == ms@,
{
    let mut r: Vec<Message> = Vec::new();
    let mut i: usize = 0;
    while i < ms.len()
        invariant
            i <= ms.len(),
            r@ == ms@.take(i as int),
        decreases ms.len() - i,
    {
        r.push(ms[i].clone());
        proof {
            assert(ms@.take(i + 1) =~= ms@.take(i as int).push(ms@[i as int]));
        }
        i = i + 1;
    }
    proof {
        assert(ms@.take(ms@.len() as int) =~= ms@);
    }
    r
}

impl Clone for ArgValue {
    fn clone(&self) -> (r: Self)
        ensures
            r@ == self@,
    {
        match self {
            ArgValue::Text(t) => ArgValue::Text(t.clone()),
            ArgValue::Messages(ms) => ArgValue::Messages(clone_messages(ms)),
        }
    }
}

/// The binding a name resolves to among a sequence of entries: the
/// first entry with that name shadows any later one.
pub open spec fn lookup(entries: Seq<(Seq<char>, ArgView)>, name: Seq<char>) -> Option<ArgView>
    decreases entries.len(),
{
    if entries.len() == 0 {
        None
    } else if entries[0].0 == name {
        Some(entries[0].1)
    } else {
        lookup(entries.drop_first(), name)
    }
}

/// A name-to-value mapping handed to the formatters. Built by callers;
/// read-only during formatting. A later `insert` of an existing name
/// shadows the earlier binding.
#[derive(Debug)]
pub struct PromptArgs {
    entries: Vec<(String, ArgValue)>,
}

impl View for PromptArgs {
    type V = Seq<(Seq<char>, ArgView)>;

    closed spec fn view(&self) -> Seq<(Seq<char>, ArgView)> {
        self.entries@.map_values(|p: (String, ArgValue)| (p.0@, p.1@))
    }
}

impl PromptArgs {
    pub fn new() -> (r: Self)
        ensures
            r@ == Seq::<(Seq<char>, ArgView)>::empty(),
    {
        let r = PromptArgs { entries: Vec::new() };
        proof {
            assert(r@ =~= Seq::<(Seq<char>, ArgView)>::empty());
        }
        r
    }

    /// Binds `name` to the given value, shadowing any earlier binding.
    pub fn insert(&mut self, name: &str, value: ArgValue)
        ensures
            final(self)@ == seq![(name@, value@)] + old(self)@,
            lookup(final(self)@, name@) == Some(value@),
            forall|k: Seq<char>| k != name@ ==> lookup(final(self)@, k) == lookup(old(self)@, k),
    {
        let ghost v = value@;
        self.entries.insert(0, (name.to_owned(), value));
        proof {
            assert(self@ =~= seq![(name@, v)] + old(self)@);
            assert(self@.drop_first() =~= old(self)@);
            assert forall|k: Seq<char>| k != name@ implies lookup(self@, k) == lookup(
                old(self)@,
                k,
            ) by {
                assert(self@[0].0 == name@);
            }
        }
    }

    /// Binds `name` to plain text.
    pub fn insert_text(&mut self, name: &str, value: &str)
        ensures
            final(self)@ == seq![(name@, ArgView::Text(value@))] + old(self)@,
            lookup(final(self)@, name@) == Some(ArgView::Text(value@)),
            forall|k: Seq<char>| k != name@ ==> lookup(final(self)@, k) == lookup(old(self)@, k),
    {
        self.insert(name, ArgValue::Text(value.to_owned()));
    }

    /// Binds `name` to a message list, for a chat placeholder.
    pub fn insert_messages(&mut self, name: &str, value: Vec<Message>)
        ensures
            final(self)@ == seq![(name@, ArgView::Messages(views_of(value@)))] + old(self)@,
            lookup(final(self)@, name@) == Some(ArgView::Messages(views_of(value@))),
            forall|k: Seq<char>| k != name@ ==> lookup(final(self)@, k) == lookup(old(self)@, k),
    {
        self.insert(name, ArgValue::Messages(value));
    }

    /// The value bound to `name`, if any.
    pub fn get(&self, name: &str) -> (r: Option<&ArgValue>)
        ensures
            match r {
                Some(v) => lookup(self@, name@) == Some(v@),
                None => lookup(self@, name@) is None,
            },
    {
        let key = String::from_str(name);
        let mut i: usize = 0;
        proof {
            assert(self@.skip(0) =~= self@);
        }
        while i < self.entries.len()
            invariant
                i <= self.entries.len(),
                key@ == name@,
                self@.len() == self.entries.len(),
                lookup(self@, name@) == lookup(self@.skip(i as int), name@),
            decreases self.entries.len() - i,
        {
            let entry = &self.entries[i];
            proof {
                assert(self@[i as int] == (entry.0@, entry.1@));
                assert(self@.skip(i as int)[0] == self@[i as int]);
                assert(self@.skip(i as int).drop_first() =~= self@.skip(i + 1));
            }
            if entry.0 == key {
                return Some(&entry.1);
            }
            i = i + 1;
        }
        None
    }

    /// Whether `name` is bound at all.
    pub fn contains(&self, name: &str) -> (r: bool)
        ensures
            r == (lookup(self@, name@) is Some),
    {
        self.get(name).is_some()
    }

    /// Copies the whole mapping.
    pub fn duplicate(&self) -> (r: Self)
        ensures
            r@ == self@,
    {
        let mut entries: Vec<(String, ArgValue)> = Vec::new();
        let mut i: usize = 0;
        while i < self.entries.len()
            invariant
                i <= self.entries.len(),
                entries@.map_values(|p: (String, ArgValue)| (p.0@, p.1@)) == self@.take(i as int),
        decreases self.entries.len() - i,
        {
            let entry = &self.entries[i];
            let ghost e0 = entries@.map_values(|p: (String, ArgValue)| (p.0@, p.1@));
            entries.push((entry.0.clone(), entry.1.clone()));
            proof {
                assert(self@[i as int] == (entry.0@, entry.1@));
                assert(entries@.map_values(|p: (String, ArgValue)| (p.0@, p.1@)) =~= e0.push(
                    self@[i as int],
                ));
                assert(self@.take(i + 1) =~= self@.take(i as int).push(self@[i as int]));
            }
            i = i + 1;
        }
        let r = PromptArgs { entries };
        proof {
            assert(self@.take(self@.len() as int) =~= self@);
        }
        r
    }
}

} // verus!
