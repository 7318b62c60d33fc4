use vstd::prelude::*;
use crate::errors::ChainError;
use crate::prompt_args::{lookup, ArgValue, ArgView, PromptArgs};

verus! {

/// The outcome of rendering against an argument mapping: the rendered
/// value, or the name of a variable that was absent, or the name of a
/// variable bound to the wrong shape, or a template text whose braces
/// do not pair up.
pub enum Rendered<T> {
    Done(T),
    Missing(Seq<char>),
    BadValue(Seq<char>),
    Malformed,
}

/// The position of the first `'}'` at or after `from`.
pub open spec fn find_close(s: Seq<char>, from: int) -> Option<int>
    decreases s.len() - from,
{
    if from < 0 || from >= s.len() {
        None
    } else if s[from] == '}' {
        Some(from)
    } else {
        find_close(s, from + 1)
    }
}

/// A found closing brace lies within the text, at or after `from`.
pub proof fn lemma_find_close_bounds(s: Seq<char>, from: int)
    ensures
        find_close(s, from) matches Some(j) ==> from <= j < s.len() && s[j] == '}',
    decreases s.len() - from,
{
    if 0 <= from < s.len() && s[from] != '}' {
        lemma_find_close_bounds(s, from + 1);
    }
}

/// The names referenced by the `{name}` placeholders of the template
/// text from position `i` on, in order, or `None` when some `'{'` has
/// no closing `'}'`. A `'}'` outside a placeholder is a literal.
pub open spec fn vars_of(s: Seq<char>, i: int) -> Option<Seq<Seq<char>>>
    decreases s.len() - i,
    via vars_of_decreases
{
    if i < 0 || i >= s.len() {
        Some(Seq::<Seq<char>>::empty())
    } else if s[i] == '{' {
        match find_close(s, i + 1) {
            None => None,
            Some(j) => match vars_of(s, j + 1) {
                None => None,
                Some(rest) => Some(seq![s.subrange(i + 1, j)] + rest),
            },
        }
    } else {
        vars_of(s, i + 1)
    }
}

#[via_fn]
proof fn vars_of_decreases(s: Seq<char>, i: int) {
    lemma_find_close_bounds(s, i + 1);
}

/// The text obtained from position `i` on by copying every literal
/// character and substituting each `{name}` placeholder with the text
/// bound to `name` in `args`.
pub open spec fn render(s: Seq<char>, i: int, args: Seq<(Seq<char>, ArgView)>) -> Rendered<
    Seq<char>,
>
    decreases s.len() - i,
    via render_decreases
{
    if i < 0 || i >= s.len() {
        Rendered::Done(Seq::<char>::empty())
    } else if s[i] == '{' {
        match find_close(s, i + 1) {
            None => Rendered::Malformed,
            Some(j) => match lookup(args, s.subrange(i + 1, j)) {
                None => Rendered::Missing(s.subrange(i + 1, j)),
                Some(ArgView::Text(t)) => match render(s, j + 1, args) {
                    Rendered::Done(rest) => Rendered::Done(t + rest),
                    r => r,
                },
                Some(ArgView::Messages(_)) => Rendered::BadValue(s.subrange(i + 1, j)),
            },
        }
    } else {
        match render(s, i + 1, args) {
            Rendered::Done(rest) => Rendered::Done(seq![s[i]] + rest),
            r => r,
        }
    }
}

#[via_fn]
proof fn render_decreases(s: Seq<char>, i: int, args: Seq<(Seq<char>, ArgView)>) {
    lemma_find_close_bounds(s, i + 1);
}

/// How a failed rendering surfaces as an error: an absent name as
/// `MissingInput`, a name bound to the wrong shape as `InvalidInput`,
/// unpaired braces as `ConfigurationError`.
pub open spec fn failure_of<T>(f: Rendered<T>, e: ChainError) -> bool {
    match e {
        ChainError::MissingInput(n) => f == Rendered::<T>::Missing(n@),
        ChainError::InvalidInput(n) => f == Rendered::<T>::BadValue(n@),
        ChainError::ConfigurationError(_) => f is Malformed,
        _ => false,
    }
}

/// A rendering that succeeded had every referenced name bound.
pub proof fn lemma_render_done_bound(s: Seq<char>, i: int, args: Seq<(Seq<char>, ArgView)>)
    requires
        vars_of(s, i) is Some,
        render(s, i, args) is Done,
    ensures
        forall|v: Seq<char>|
            vars_of(s, i).unwrap().contains(v) ==> (#[trigger] lookup(args, v)) is Some,
    decreases s.len() - i,
{
    if i < 0 || i >= s.len() {
    } else if s[i] == '{' {
        lemma_find_close_bounds(s, i + 1);
        match find_close(s, i + 1) {
            Some(j) => {
                let name = s.subrange(i + 1, j);
                let rest = vars_of(s, j + 1).unwrap();
                lemma_render_done_bound(s, j + 1, args);
                assert forall|v: Seq<char>| vars_of(s, i).unwrap().contains(v) implies (
                #[trigger] lookup(args, v)) is Some by {
                    let all = seq![name] + rest;
                    let idx = choose|idx: int| 0 <= idx < all.len() && all[idx] == v;
                    if idx == 0 {
                        assert(v == name);
                    } else {
                        assert(rest[idx - 1] == v);
                        assert(rest.contains(v));
                    }
                }
            },
            None => {},
        }
    } else {
        lemma_render_done_bound(s, i + 1, args);
    }
}

/// When every referenced name is bound at all, rendering cannot stop
/// on a missing name, and a well-formed text cannot render as
/// malformed.
pub proof fn lemma_render_ready(s: Seq<char>, i: int, args: Seq<(Seq<char>, ArgView)>)
    requires
        vars_of(s, i) is Some,
        forall|v: Seq<char>|
            vars_of(s, i).unwrap().contains(v) ==> (#[trigger] lookup(args, v)) is Some,
    ensures
        !(render(s, i, args) is Missing),
        !(render(s, i, args) is Malformed),
    decreases s.len() - i,
{
    if i < 0 || i >= s.len() {
    } else if s[i] == '{' {
        lemma_find_close_bounds(s, i + 1);
        match find_close(s, i + 1) {
            Some(j) => {
                let name = s.subrange(i + 1, j);
                let rest = vars_of(s, j + 1).unwrap();
                assert(vars_of(s, i).unwrap() == seq![name] + rest);
                assert((seq![name] + rest)[0] == name);
                assert(vars_of(s, i).unwrap().contains(name));
                assert forall|v: Seq<char>| rest.contains(v) implies vars_of(
                    s,
                    i,
                ).unwrap().contains(v) by {
                    let idx = choose|idx: int| 0 <= idx < rest.len() && rest[idx] == v;
                    assert((seq![name] + rest)[idx + 1] == v);
                }
                lemma_render_ready(s, j + 1, args);
            },
            None => {},
        }
    } else {
        lemma_render_ready(s, i + 1, args);
    }
}

/// When every placeholder name is bound to text, rendering succeeds.
pub proof fn lemma_render_total(s: Seq<char>, i: int, args: Seq<(Seq<char>, ArgView)>)
    requires
        vars_of(s, i) is Some,
        forall|v: Seq<char>|
            vars_of(s, i).unwrap().contains(v) ==> ((#[trigger] lookup(args, v)) matches Some(a)
                && a is Text),
    ensures
        render(s, i, args) is Done,
    decreases s.len() - i,
{
    if i < 0 || i >= s.len() {
    } else if s[i] == '{' {
        lemma_find_close_bounds(s, i + 1);
        match find_close(s, i + 1) {
            Some(j) => {
                let name = s.subrange(i + 1, j);
                let rest = vars_of(s, j + 1).unwrap();
                assert(vars_of(s, i).unwrap() == seq![name] + rest);
                assert((seq![name] + rest)[0] == name);
                assert(vars_of(s, i).unwrap().contains(name));
                assert forall|v: Seq<char>| rest.contains(v) implies vars_of(
                    s,
                    i,
                ).unwrap().contains(v) by {
                    let idx = choose|idx: int| 0 <= idx < rest.len() && rest[idx] == v;
                    assert((seq![name] + rest)[idx + 1] == v);
                }
                lemma_render_total(s, j + 1, args);
            },
            None => {},
        }
    } else {
        lemma_render_total(s, i + 1, args);
    }
}

/// An immutable text template with `{name}` placeholders, together
/// with the list of names it references. Construction checks that the
/// declared names are exactly the referenced ones, in order.
#[derive(Debug)]
pub struct PromptTemplate {
    template: String,
    variables: Vec<String>,
}

impl Clone for PromptTemplate {
    fn clone(&self) -> (r: Self)
        ensures
            r.spec_template() == self.spec_template(),
            r.spec_variables() == self.spec_variables(),
            r.wf() == self.wf(),
    {
        let mut variables: Vec<String> = Vec::new();
        let mut i: usize = 0;
        while i < self.variables.len()
            invariant
                i <= self.variables.len(),
                variables@ == self.variables@.take(i as int),
            decreases self.variables.len() - i,
        {
            variables.push(self.variables[i].clone());
            proof {
                assert(self.variables@.take(i + 1) =~= self.variables@.take(i as int).push(
                    self.variables@[i as int],
                ));
            }
            i = i + 1;
        }
        proof {
            assert(self.variables@.take(self.variables@.len() as int) =~= self.variables@);
            assert(variables.deep_view() =~= self.variables.deep_view());
        }
        PromptTemplate { template: self.template.clone(), variables }
    }
}

/// Scans the text, returning the referenced placeholder names in
/// order, or a configuration error when a `'{'` is never closed.
fn scan_variables(text: &str) -> (r: Result<Vec<String>, ChainError>)
    ensures
        match r {
            Ok(names) => vars_of(text@, 0) == Some(names.deep_view()),
            Err(e) => vars_of(text@, 0) is None && e is ConfigurationError,
        },
{
    let n = text.unicode_len();
    let mut collected: Vec<String> = Vec::new();
    let mut i: usize = 0;
    while i < n
        invariant
            i <= n,
            n == text@.len(),
            vars_of(text@, 0) == (match vars_of(text@, i as int) {
                Some(rest) => Some(collected.deep_view() + rest),
                None => None::<Seq<Seq<char>>>,
            }),
        decreases n - i,
    {
        let c = text.get_char(i);
        if c == '{' {
            match find_close_in(text, i + 1) {
                None => {
                    return Err(ChainError::ConfigurationError(text.to_owned()));
                },
                Some(j) => {
                    proof {
                        lemma_find_close_bounds(text@, i + 1);
                    }
                    let name = text.substring_char(i + 1, j);
                    let ghost d0 = collected.deep_view();
                    collected.push(name.to_owned());
                    proof {
                        let s = text@;
                        assert(collected.deep_view() =~= d0.push(name@));
                        match vars_of(s, j + 1) {
                            Some(rest) => {
                                assert(vars_of(s, i as int) == Some(
                                    seq![s.subrange(i + 1, j as int)] + rest,
                                ));
                                assert(d0.push(name@) + rest =~= d0 + (seq![name@] + rest));
                            },
                            None => {},
                        }
                    }
                    i = j + 1;
                },
            }
        } else {
            i = i + 1;
        }
    }
    proof {
        assert(collected.deep_view() + Seq::<Seq<char>>::empty() =~= collected.deep_view());
    }
    Ok(collected)
}

/// The position of the first `'}'` at or after `from`, by scan.
fn find_close_in(text: &str, from: usize) -> (r: Option<usize>)
    requires
        from <= text@.len(),
    ensures
        match r {
            Some(j) => find_close(text@, from as int) == Some(j as int),
            None => find_close(text@, from as int) is None,
        },
{
    let n = text.unicode_len();
    let mut i: usize = from;
    while i < n
        invariant
            from <= i <= n,
            n == text@.len(),
            find_close(text@, from as int) == find_close(text@, i as int),
        decreases n - i,
    {
        if text.get_char(i) == '}' {
            return Some(i);
        }
        i = i + 1;
    }
    None
}

impl PromptTemplate {
    /// The template text.
    pub closed spec fn spec_template(&self) -> Seq<char> {
        self.template@
    }

    /// The declared variable names.
    pub closed spec fn spec_variables(&self) -> Seq<Seq<char>> {
        self.variables.deep_view()
    }

    /// A well-formed template references exactly its declared names.
    pub open spec fn wf(&self) -> bool {
        vars_of(self.spec_template(), 0) == Some(self.spec_variables())
    }

    /// The rendering of this template against an argument mapping.
    pub open spec fn spec_format(&self, args: Seq<(Seq<char>, ArgView)>) -> Rendered<Seq<char>> {
        render(self.spec_template(), 0, args)
    }

    /// Builds a template from its text and its declared variable
    /// names. Fails when a placeholder is never closed or when the
    /// declared names are not exactly the referenced ones, in order.
    pub fn new(template: &str, variables: Vec<String>) -> (r: Result<Self, ChainError>)
        ensures
            match r {
                Ok(t) => t.wf() && t.spec_template() == template@ && t.spec_variables()
                    == variables.deep_view() && vars_of(template@, 0) == Some(
                    variables.deep_view(),
                ),
                Err(e) => e is ConfigurationError && vars_of(template@, 0) != Some(
                    variables.deep_view(),
                ),
            },
    {
        let referenced = match scan_variables(template) {
            Ok(names) => names,
            Err(e) => {
                return Err(e);
            },
        };
        if referenced.len() != variables.len() {
            proof {
                assert(referenced.deep_view().len() != variables.deep_view().len());
            }
            return Err(ChainError::ConfigurationError(template.to_owned()));
        }
        let mut k: usize = 0;
        while k < referenced.len()
            invariant
                k <= referenced.len(),
                referenced.len() == variables.len(),
                vars_of(template@, 0) == Some(referenced.deep_view()),
                forall|j: int|
                    0 <= j < k ==> referenced.deep_view()[j] == variables.deep_view()[j],
            decreases referenced.len() - k,
        {
            if !(referenced[k] == variables[k]) {
                proof {
                    assert(referenced.deep_view()[k as int] != variables.deep_view()[k as int]);
                }
                return Err(ChainError::ConfigurationError(template.to_owned()));
            }
            k = k + 1;
        }
        proof {
            assert(referenced.deep_view() =~= variables.deep_view());
        }
        Ok(PromptTemplate { template: template.to_owned(), variables })
    }

    /// The declared variable names, for pipeline validation.
    pub fn variables(&self) -> (r: &Vec<String>)
        ensures
            r.deep_view() == self.spec_variables(),
    {
        &self.variables
    }

    /// Renders the template, substituting each placeholder with the
    /// text bound to its name.
    pub fn format(&self, args: &PromptArgs) -> (r: Result<String, ChainError>)
        ensures
            match r {
                Ok(out) => self.spec_format(args@) == Rendered::Done(out@),
                Err(ChainError::MissingInput(n)) => self.spec_format(args@)
                    == Rendered::<Seq<char>>::Missing(n@),
                Err(ChainError::InvalidInput(n)) => self.spec_format(args@)
                    == Rendered::<Seq<char>>::BadValue(n@),
                Err(ChainError::ConfigurationError(_)) => self.spec_format(args@) is Malformed,
                Err(_) => false,
            },
    {
        let text = self.template.as_str();
        let n = text.unicode_len();
        let mut out = String::new();
        let mut i: usize = 0;
        while i < n
            invariant
                i <= n,
                n == text@.len(),
                text@ == self.spec_template(),
                (match render(text@, i as int, args@) {
                    Rendered::Done(rest) => render(text@, 0, args@) == Rendered::Done(out@ + rest),
                    r => render(text@, 0, args@) == r,
                }),
            decreases n - i,
        {
            let c = text.get_char(i);
            if c == '{' {
                match find_close_in(text, i + 1) {
                    None => {
                        return Err(ChainError::ConfigurationError(self.template.clone()));
                    },
                    Some(j) => {
                        proof {
                            lemma_find_close_bounds(text@, i + 1);
                        }
                        let name = text.substring_char(i + 1, j);
                        match args.get(name) {
                            None => {
                                return Err(ChainError::MissingInput(name.to_owned()));
                            },
                            Some(v) => match v {
                                ArgValue::Text(t) => {
                                    let ghost out0 = out@;
                                    out.append(t.as_str());
                                    proof {
                                        match render(text@, j + 1, args@) {
                                            Rendered::Done(rest) => {
                                                assert(out0 + (t@ + rest) =~= (out0 + t@) + rest);
                                            },
                                            _ => {},
                                        }
                                    }
                                    i = j + 1;
                                },
                                ArgValue::Messages(_) => {
                                    return Err(ChainError::InvalidInput(name.to_owned()));
                                },
                            },
                        }
                    },
                }
            } else {
                let piece = text.substring_char(i, i + 1);
                let ghost out0 = out@;
                out.append(piece);
                proof {
                    assert(text@.subrange(i as int, i + 1) =~= seq![text@[i as int]]);
                    match render(text@, i + 1, args@) {
                        Rendered::Done(rest) => {
                            assert(out0 + (seq![text@[i as int]] + rest) =~= (out0 + seq![
                                text@[i as int],
                            ]) + rest);
                        },
                        _ => {},
                    }
                }
                i = i + 1;
            }
        }
        proof {
            assert(out@ + Seq::<char>::empty() =~= out@);
        }
        Ok(out)
    }

    /// When the template is well formed and every declared name is
    /// bound to text, rendering succeeds.
    pub proof fn lemma_format_total(&self, args: Seq<(Seq<char>, ArgView)>)
        requires
            self.wf(),
            forall|v: Seq<char>|
                self.spec_variables().contains(v) ==> ((#[trigger] lookup(args, v)) matches Some(a)
                    && a is Text),
        ensures
            self.spec_format(args) is Done,
    {
        lemma_render_total(self.spec_template(), 0, args);
    }

    /// Formatting against a mapping that lacks one of the declared
    /// names cannot succeed, so it fails without partial output.
    pub proof fn lemma_missing_variable_fails(&self, args: Seq<(Seq<char>, ArgView)>)
        requires
            self.wf(),
            exists|v: Seq<char>|
                self.spec_variables().contains(v) && (#[trigger] lookup(args, v)) is None,
        ensures
            !(self.spec_format(args) is Done),
    {
        if self.spec_format(args) is Done {
            lemma_render_done_bound(self.spec_template(), 0, args);
        }
    }
}

} // verus!
