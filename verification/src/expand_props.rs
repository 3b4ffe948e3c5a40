//! Properties named in a template: `@name` and `@(a.b.0)`, and groups
//! whose tokens were expanded.
use vstd::prelude::*;
use crate::syn_generic::tokens::{
    Span, Delimiter, Ident, Literal, Group, Punct, Spacing, TokenTree, span_open_or_entire,
    is_punct, deep_tt, deep_seq, clone_tokens, lemma_deep_seq_index, lemma_deep_seq_ext, DeepToken,
    lemma_deep_seq_add, lemma_deep_seq_push,
};
use crate::syn_generic::{ErrorCollector, ParseError, ParseErrorKind, error_kinds, errs};

verus! {

/// A property: a name or an index.
pub enum Prop {
    Ident(Ident),
    Literal(Literal),
}

impl Prop {
    /// Where the property stands.
    pub fn span(&self) -> (r: Span)
        ensures
            r == match *self {
                Prop::Ident(i) => i.span,
                Prop::Literal(l) => l.span,
            },
    {
        match self {
            Prop::Ident(this) => this.span,
            Prop::Literal(this) => this.span,
        }
    }
}

/// The token a property was read from.
pub open spec fn prop_token(p: Prop) -> TokenTree {
    match p {
        Prop::Ident(i) => TokenTree::Ident(i),
        Prop::Literal(l) => TokenTree::Literal(l),
    }
}

/// The token can be a property.
pub open spec fn is_prop(t: TokenTree) -> bool {
    t is Ident || t is Literal
}

/// A property and the properties reached from it with `.`.
pub struct PropPath(pub Prop, pub Vec<Prop>);

/// Tokens kept as they were, or expanded.
pub enum MaybeIntact<I, E> {
    Intact(I),
    Expanded(E),
}

/// A group whose tokens were expanded: its brackets and places, and the new
/// tokens.
pub struct ExpandedGroup {
    pub delimiter: Delimiter,
    pub span_open: Span,
    pub span_close: Span,
    pub stream: Vec<TokenTree>,
}

impl ExpandedGroup {
    /// The brackets and places of `original` around `expanded`.
    pub fn from_original_and_expanded(original: &Group, expanded: Vec<TokenTree>) -> (r: Self)
        ensures
            r.delimiter == original.delimiter,
            r.span_open == original.span_open,
            r.span_close == original.span_close,
            r.stream == expanded,
    {
        ExpandedGroup {
            delimiter: original.delimiter,
            span_open: original.span_open,
            span_close: original.span_close,
            stream: expanded,
        }
    }

    /// The group.
    pub fn into_group(self) -> (r: Group)
        ensures
            r.delimiter == self.delimiter,
            r.span_open == self.span_open,
            r.span_close == self.span_close,
            r.stream == self.stream,
    {
        Group {
            delimiter: self.delimiter,
            stream: self.stream,
            span_open: self.span_open,
            span_close: self.span_close,
        }
    }
}

/// Tokens gathered for output.
pub struct TokensCollector(pub Vec<TokenTree>);

impl TokensCollector {
    /// The same collector, borrowed again: what is added through it is
    /// added here.
    pub fn as_mut(&mut self) -> (r: &mut TokensCollector)
        ensures
            *r == *old(self),
            *final(self) == *final(r),
    {
        self
    }

    /// Adds a token at the end.
    pub fn push(&mut self, tt: TokenTree)
        ensures
            final(self).0@ == old(self).0@.push(tt),
    {
        self.0.push(tt);
    }

    /// Adds tokens at the end.
    pub fn extend(&mut self, other: Vec<TokenTree>)
        ensures
            final(self).0@ == old(self).0@ + other@,
    {
        let mut other = other;
        self.0.append(&mut other);
    }

    /// Adds copies of `ts` at the end.
    pub fn extend_from_slice(&mut self, ts: &Vec<TokenTree>)
        ensures
            final(self).0@.len() == old(self).0@.len() + ts@.len(),
            final(self).0@.subrange(0, old(self).0@.len() as int) == old(self).0@,
            crate::syn_generic::tokens::deep_seq(
                final(self).0@.subrange(old(self).0@.len() as int, final(self).0@.len() as int),
            ) == crate::syn_generic::tokens::deep_seq(ts@),
    {
        let mut copies = crate::syn_generic::tokens::clone_tokens(ts);
        let ghost c = copies@;
        let ghost before = self.0@;
        self.0.append(&mut copies);
        assert(self.0@.subrange(0, before.len() as int) =~= before);
        assert(self.0@.subrange(before.len() as int, self.0@.len() as int) =~= c);
    }
}

/// How the path after the first property of `@(..)` reads from `i`: the
/// number of `.`-separated properties after the first, and the error that
/// ends it, if any (`close` is where the group ends).
pub open spec fn prop_path_rest(toks: Seq<TokenTree>, i: int, close: Span) -> (int, Option<(&'static str, Span)>)
    decreases toks.len() - i,
{
    if i < 0 || i >= toks.len() {
        (0, None)
    } else if is_punct(toks[i], '.') {
        if i + 1 >= toks.len() {
            (0, Some(("expect ident or literal", close)))
        } else if is_prop(toks[i + 1]) {
            let r = prop_path_rest(toks, i + 2, close);
            (r.0 + 1, r.1)
        } else {
            (0, Some(("expect ident or literal", span_open_or_entire(toks[i + 1]))))
        }
    } else {
        (0, Some(("expect `.`", span_open_or_entire(toks[i]))))
    }
}

/// The message `msg` at `span`.
pub open spec fn message_at(msg: &'static str, span: Span) -> Seq<ParseErrorKind> {
    seq![ParseErrorKind::Custom { msg, span: Some(span) }]
}

/// The errors that reading the path of `@(..)` from its tokens reports:
/// a missing first property, or what ends the path early.
pub open spec fn path_errors(toks: Seq<TokenTree>, close: Span) -> Seq<ParseErrorKind> {
    if toks.len() == 0 {
        message_at("expect ident or literal", close)
    } else if !is_prop(toks[0]) {
        message_at("expect ident or literal", span_open_or_entire(toks[0]))
    } else {
        match prop_path_rest(toks, 1, close).1 {
            None => Seq::empty(),
            Some((msg, sp)) => message_at(msg, sp),
        }
    }
}

proof fn lemma_prop_path_rest(toks: Seq<TokenTree>, i: int, close: Span)
    requires
        0 <= i <= toks.len(),
    ensures
        0 <= prop_path_rest(toks, i, close).0,
        i + 2 * prop_path_rest(toks, i, close).0 <= toks.len(),
    decreases toks.len() - i,
{
    if i < toks.len() && is_punct(toks[i], '.') && i + 1 < toks.len() && is_prop(toks[i + 1]) {
        lemma_prop_path_rest(toks, i + 2, close);
    }
}

/// Reads the path of `@(..)` from the tokens of the group: a name or index,
/// then `.` and a name or index, again and again. An error is reported to
/// `errors`; without a first property there is no path.
pub fn parse_prop_path(stream: Vec<TokenTree>, close: Span, errors: &mut ErrorCollector) -> (r: Option<PropPath>)
    ensures
        ({
            let toks = stream@;
            &&& errs(*final(errors)) == errs(*old(errors)) + path_errors(toks, close)
            &&& if toks.len() == 0 || !is_prop(toks[0]) {
                r is None
            } else {
                let rest = prop_path_rest(toks, 1, close);
                &&& r matches Some(p) && prop_token(p.0) == toks[0] && p.1@.len() == rest.0 && forall|
                    k: int,
                | 0 <= k < rest.0 ==> prop_token(#[trigger] p.1@[k]) == toks[2 * k + 2]
                &&& rest.1 is None ==> *final(errors) == *old(errors)
            }
        }),
{
    let total = stream.len();
    let mut input = crate::syn_generic::ParsingTokenStream::new(stream);
    let ghost toks = input.s@;
    let first = match input.next() {
        Some(TokenTree::Ident(i)) => Prop::Ident(i),
        Some(TokenTree::Literal(l)) => Prop::Literal(l),
        Some(t) => {
            errors.push_custom("expect ident or literal", Some(t.span_open_or_entire()));
            return None;
        },
        None => {
            errors.push_custom("expect ident or literal", Some(close));
            return None;
        },
    };
    let mut paths: Vec<Prop> = Vec::new();
    let mut k: usize = 0;
    proof {
        lemma_prop_path_rest(toks, 1, close);
    }
    loop
        invariant_except_break
            input.s@ == toks.subrange(1 + 2 * k, toks.len() as int),
            *errors == *old(errors),
        invariant
            toks.len() >= 1,
            total == toks.len(),
            1 + 2 * k <= toks.len(),
            paths@.len() == k,
            forall|j: int| 0 <= j < k ==> prop_token(#[trigger] paths@[j]) == toks[2 * j + 2],
            prop_path_rest(toks, 1, close).0 == k + prop_path_rest(toks, 1 + 2 * k, close).0,
            prop_path_rest(toks, 1, close).1 == prop_path_rest(toks, 1 + 2 * k, close).1,
        ensures
            paths@.len() == prop_path_rest(toks, 1, close).0,
            match prop_path_rest(toks, 1, close).1 {
                None => *errors == *old(errors),
                Some((msg, sp)) => errs(*errors) == errs(*old(errors)) + message_at(msg, sp),
            },
        decreases toks.len() - 2 * k,
    {
        proof {
            lemma_prop_path_rest(toks, 1 + 2 * k as int, close);
        }
        let t = match input.next() {
            Some(t) => t,
            None => {
                break;
            },
        };
        if !t.is_punct('.') {
            errors.push_custom("expect `.`", Some(t.span_open_or_entire()));
            break;
        }
        let p = match input.next() {
            Some(TokenTree::Ident(i)) => Prop::Ident(i),
            Some(TokenTree::Literal(l)) => Prop::Literal(l),
            Some(t2) => {
                errors.push_custom("expect ident or literal", Some(t2.span_open_or_entire()));
                break;
            },
            None => {
                errors.push_custom("expect ident or literal", Some(close));
                break;
            },
        };
        paths.push(p);
        k = k + 1;
    }
    Some(PropPath(first, paths))
}


/// The deep views of the properties of a path, first one first.
pub open spec fn prop_path_view(p: PropPath) -> Seq<DeepToken> {
    seq![deep_tt(prop_token(p.0))] + p.1@.map_values(|q: Prop| deep_tt(prop_token(q)))
}

/// What a template expands with: the values of its properties and the
/// items its repeated parts go over. Its spec functions say what each hook
/// writes and how it leaves the context.
pub trait Context: Sized {
    /// The tokens that a property path (given by the deep views of its
    /// properties) writes.
    spec fn prop_out(&self, path: Seq<DeepToken>) -> Seq<DeepToken>;

    /// The context after writing a property path.
    spec fn after_prop(&self, path: Seq<DeepToken>) -> Self;

    /// The number of items `@[..]*` goes over.
    spec fn star_count(&self) -> nat;

    /// The context after entering `@[..]*`.
    spec fn after_enter_star(&self) -> Self;

    /// The context after going on to the next item.
    spec fn after_next(&self) -> Self;

    /// The context after leaving `@[..]*`.
    spec fn after_leave_star(&self) -> Self;

    /// Whether the tokens of `@[..]?` are expanded.
    spec fn question_open(&self) -> bool;

    /// The context after entering `@[..]?`.
    spec fn after_enter_question(&self) -> Self;

    /// The context after leaving `@[..]?`.
    spec fn after_leave_question(&self) -> Self;

    /// The errors that writing a property path reports.
    spec fn prop_errors(&self, path: Seq<DeepToken>) -> Seq<ParseErrorKind>;

    /// The errors that entering `@[..]*` at `span` reports.
    spec fn star_errors(&self, span: Span) -> Seq<ParseErrorKind>;

    /// The errors that entering `@[..]?` at `span` reports.
    spec fn question_errors(&self, span: Span) -> Seq<ParseErrorKind>;

    /// Writes the tokens of a property to `out`.
    fn expand_prop(&mut self, prop: PropPath, out: &mut TokensCollector, errors: &mut ErrorCollector)
        ensures
            deep_seq(final(out).0@) == deep_seq(old(out).0@) + old(self).prop_out(prop_path_view(prop)),
            *final(self) == old(self).after_prop(prop_path_view(prop)),
            errs(*final(errors)) == errs(*old(errors)) + old(self).prop_errors(prop_path_view(prop)),
    ;

    /// Enters `@[..]*`: the number of items its tokens are expanded for.
    fn enter_bracket_star(&mut self, star_span: Span, errors: &mut ErrorCollector) -> (r: usize)
        ensures
            r as nat == old(self).star_count(),
            *final(self) == old(self).after_enter_star(),
            errs(*final(errors)) == errs(*old(errors)) + old(self).star_errors(star_span),
    ;

    /// Goes on to the next item of `@[..]*`.
    fn next(&mut self)
        ensures
            *final(self) == old(self).after_next(),
    ;

    /// Leaves `@[..]*`.
    fn leave_bracket_star(&mut self)
        ensures
            *final(self) == old(self).after_leave_star(),
    ;

    /// Enters `@[..]?`: whether its tokens are expanded.
    fn enter_bracket_question(&mut self, question_span: Span, errors: &mut ErrorCollector) -> (r: bool)
        ensures
            r == old(self).question_open(),
            *final(self) == old(self).after_enter_question(),
            errs(*final(errors)) == errs(*old(errors)) + old(self).question_errors(question_span),
    ;

    /// Leaves `@[..]?`.
    fn leave_bracket_question(&mut self)
        ensures
            *final(self) == old(self).after_leave_question(),
    ;
}

/// A context after an error: nothing to expand.
pub struct ErroredContext;

impl Context for ErroredContext {
    open spec fn prop_out(&self, path: Seq<DeepToken>) -> Seq<DeepToken> {
        Seq::empty()
    }

    open spec fn after_prop(&self, path: Seq<DeepToken>) -> Self {
        *self
    }

    open spec fn star_count(&self) -> nat {
        0
    }

    open spec fn after_enter_star(&self) -> Self {
        *self
    }

    open spec fn after_next(&self) -> Self {
        *self
    }

    open spec fn after_leave_star(&self) -> Self {
        *self
    }

    open spec fn question_open(&self) -> bool {
        false
    }

    open spec fn after_enter_question(&self) -> Self {
        *self
    }

    open spec fn after_leave_question(&self) -> Self {
        *self
    }

    open spec fn prop_errors(&self, path: Seq<DeepToken>) -> Seq<ParseErrorKind> {
        Seq::empty()
    }

    open spec fn star_errors(&self, span: Span) -> Seq<ParseErrorKind> {
        Seq::empty()
    }

    open spec fn question_errors(&self, span: Span) -> Seq<ParseErrorKind> {
        Seq::empty()
    }

    fn expand_prop(&mut self, prop: PropPath, out: &mut TokensCollector, errors: &mut ErrorCollector) {
        assert(deep_seq(out.0@) + Seq::<DeepToken>::empty() =~= deep_seq(out.0@));
        assert(errs(*errors) + Seq::<ParseErrorKind>::empty() =~= errs(*errors));
    }

    fn enter_bracket_star(&mut self, star_span: Span, errors: &mut ErrorCollector) -> (r: usize) {
        assert(errs(*errors) + Seq::<ParseErrorKind>::empty() =~= errs(*errors));
        0
    }

    fn next(&mut self) {
    }

    fn leave_bracket_star(&mut self) {
    }

    fn enter_bracket_question(&mut self, question_span: Span, errors: &mut ErrorCollector) -> (r: bool) {
        assert(errs(*errors) + Seq::<ParseErrorKind>::empty() =~= errs(*errors));
        false
    }

    fn leave_bracket_question(&mut self) {
    }
}

/// The deep views of the properties of `@(..)` read from its tokens: the
/// first, then each one after a `.`, as far as the path reads.
pub open spec fn prop_path_tokens(toks: Seq<TokenTree>, close: Span) -> Seq<DeepToken> {
    seq![deep_tt(toks[0])] + Seq::new(
        prop_path_rest(toks, 1, close).0 as nat,
        |k: int| deep_tt(toks[2 * k + 2]),
    )
}

/// What a template writes and the context it leaves, with `c` to start:
/// `@name` and `@(a.b)` write what the context gives for the path; `@[..]*`
/// writes its tokens expanded once for each item; `@[..]?` writes them
/// expanded when the context says so; groups are expanded inside; a
/// misshapen `@` is written as it stands; everything else is written as
/// it is.
pub open spec fn spec_expand<C: Context>(ts: Seq<TokenTree>, c: C) -> (Seq<DeepToken>, C)
    decreases ts, 0nat,
{
    if ts.len() == 0 {
        (Seq::empty(), c)
    } else if is_punct(ts[0], '@') {
        if ts.len() < 2 {
            (seq![deep_tt(ts[0])], c)
        } else {
            let rest2 = ts.subrange(2, ts.len() as int);
            match ts[1] {
                TokenTree::Ident(_) => {
                    let path = seq![deep_tt(ts[1])];
                    let r = spec_expand(rest2, c.after_prop(path));
                    (c.prop_out(path) + r.0, r.1)
                },
                TokenTree::Group(g) => {
                    proof {
                        assert(decreases_to!(g.stream => g.stream@)) by {
                            broadcast use vstd::std_specs::vec::axiom_vec_decreases_to_view;
                        }
                    }
                    if g.delimiter == Delimiter::Parenthesis {
                        let toks = g.stream@;
                        if toks.len() == 0 || !is_prop(toks[0]) {
                            spec_expand(rest2, c)
                        } else {
                            let path = prop_path_tokens(toks, g.span_close);
                            let r = spec_expand(rest2, c.after_prop(path));
                            (c.prop_out(path) + r.0, r.1)
                        }
                    } else if g.delimiter == Delimiter::Bracket {
                        let rest3 = ts.subrange(3, ts.len() as int);
                        if ts.len() >= 3 && (ts[2] matches TokenTree::Punct(q) && q.spacing == Spacing::Alone
                            && q.ch == '*') {
                            let l = star_loop(g.stream@, c.after_enter_star(), c.star_count());
                            let r = spec_expand(rest3, l.1.after_leave_star());
                            (l.0 + r.0, r.1)
                        } else if ts.len() >= 3 && (ts[2] matches TokenTree::Punct(q) && q.spacing
                            == Spacing::Alone && q.ch == '?') {
                            let ce = c.after_enter_question();
                            if c.question_open() {
                                let e = spec_expand(g.stream@, ce);
                                let r = spec_expand(rest3, e.1.after_leave_question());
                                (e.0 + r.0, r.1)
                            } else {
                                spec_expand(rest3, ce)
                            }
                        } else if ts.len() >= 3 {
                            let r = spec_expand(rest3, c);
                            (seq![deep_tt(ts[0]), deep_tt(ts[1]), deep_tt(ts[2])] + r.0, r.1)
                        } else {
                            (seq![deep_tt(ts[0]), deep_tt(ts[1])], c)
                        }
                    } else {
                        let r = spec_expand(rest2, c);
                        (seq![deep_tt(ts[0]), deep_tt(ts[1])] + r.0, r.1)
                    }
                },
                _ => {
                    let r = spec_expand(rest2, c);
                    (seq![deep_tt(ts[0]), deep_tt(ts[1])] + r.0, r.1)
                },
            }
        }
    } else {
        let rest = ts.subrange(1, ts.len() as int);
        match ts[0] {
            TokenTree::Group(g) => {
                proof {
                    assert(decreases_to!(g.stream => g.stream@)) by {
                        broadcast use vstd::std_specs::vec::axiom_vec_decreases_to_view;
                    }
                }
                let e = spec_expand(g.stream@, c);
                let r = spec_expand(rest, e.1);
                (seq![DeepToken::Group(g.delimiter, e.0, g.span_open, g.span_close)] + r.0, r.1)
            },
            _ => {
                let r = spec_expand(rest, c);
                (seq![deep_tt(ts[0])] + r.0, r.1)
            },
        }
    }
}

/// `n` rounds of expanding `inner`, going on to the next item after each.
pub open spec fn star_loop<C: Context>(inner: Seq<TokenTree>, c: C, n: nat) -> (Seq<DeepToken>, C)
    decreases inner, n,
{
    if n == 0 {
        (Seq::empty(), c)
    } else {
        let e = spec_expand(inner, c);
        let r = star_loop(inner, e.1.after_next(), (n - 1) as nat);
        (e.0 + r.0, r.1)
    }
}

/// The errors that expanding a template reports, with `c` to start: those
/// the context reports for each property and each `@[..]*` and `@[..]?`;
/// a path of `@(..)` that does not read; `@[..]` followed by neither `*`
/// nor `?`; and `@` followed by a group that is not `(..)` or `[..]`.
/// `@` followed by anything else is written as it stands, with no error.
pub open spec fn spec_expand_errors<C: Context>(ts: Seq<TokenTree>, c: C) -> Seq<ParseErrorKind>
    decreases ts, 0nat,
{
    if ts.len() == 0 {
        Seq::empty()
    } else if is_punct(ts[0], '@') {
        if ts.len() < 2 {
            Seq::empty()
        } else {
            let rest2 = ts.subrange(2, ts.len() as int);
            match ts[1] {
                TokenTree::Ident(_) => {
                    let path = seq![deep_tt(ts[1])];
                    c.prop_errors(path) + spec_expand_errors(rest2, c.after_prop(path))
                },
                TokenTree::Group(g) => {
                    proof {
                        assert(decreases_to!(g.stream => g.stream@)) by {
                            broadcast use vstd::std_specs::vec::axiom_vec_decreases_to_view;
                        }
                    }
                    if g.delimiter == Delimiter::Parenthesis {
                        let toks = g.stream@;
                        if toks.len() == 0 || !is_prop(toks[0]) {
                            path_errors(toks, g.span_close) + spec_expand_errors(rest2, c)
                        } else {
                            let path = prop_path_tokens(toks, g.span_close);
                            path_errors(toks, g.span_close) + c.prop_errors(path) + spec_expand_errors(
                                rest2,
                                c.after_prop(path),
                            )
                        }
                    } else if g.delimiter == Delimiter::Bracket {
                        let rest3 = ts.subrange(3, ts.len() as int);
                        if ts.len() >= 3 && (ts[2] matches TokenTree::Punct(q) && q.spacing == Spacing::Alone
                            && q.ch == '*') {
                            let ce = c.after_enter_star();
                            let l = star_loop(g.stream@, ce, c.star_count());
                            c.star_errors(span_open_or_entire(ts[2])) + star_loop_errors(
                                g.stream@,
                                ce,
                                c.star_count(),
                            ) + spec_expand_errors(rest3, l.1.after_leave_star())
                        } else if ts.len() >= 3 && (ts[2] matches TokenTree::Punct(q) && q.spacing
                            == Spacing::Alone && q.ch == '?') {
                            let ce = c.after_enter_question();
                            c.question_errors(span_open_or_entire(ts[2])) + if c.question_open() {
                                let e = spec_expand(g.stream@, ce);
                                spec_expand_errors(g.stream@, ce) + spec_expand_errors(
                                    rest3,
                                    e.1.after_leave_question(),
                                )
                            } else {
                                spec_expand_errors(rest3, ce)
                            }
                        } else if ts.len() >= 3 {
                            message_at("expect `?` or `*` after `@[...]`", span_open_or_entire(ts[2]))
                                + spec_expand_errors(rest3, c)
                        } else {
                            message_at("expect `?` or `*` after `@[...]`", g.span_close)
                        }
                    } else {
                        message_at("unexpected group after `@`", g.span_open) + spec_expand_errors(rest2, c)
                    }
                },
                _ => spec_expand_errors(rest2, c),
            }
        }
    } else {
        let rest = ts.subrange(1, ts.len() as int);
        match ts[0] {
            TokenTree::Group(g) => {
                proof {
                    assert(decreases_to!(g.stream => g.stream@)) by {
                        broadcast use vstd::std_specs::vec::axiom_vec_decreases_to_view;
                    }
                }
                let e = spec_expand(g.stream@, c);
                spec_expand_errors(g.stream@, c) + spec_expand_errors(rest, e.1)
            },
            _ => spec_expand_errors(rest, c),
        }
    }
}

/// The errors of `n` rounds of expanding `inner`, going on to the next item
/// after each.
pub open spec fn star_loop_errors<C: Context>(inner: Seq<TokenTree>, c: C, n: nat) -> Seq<ParseErrorKind>
    decreases inner, n,
{
    if n == 0 {
        Seq::empty()
    } else {
        let e = spec_expand(inner, c);
        spec_expand_errors(inner, c) + star_loop_errors(inner, e.1.after_next(), (n - 1) as nat)
    }
}

/// Tokens with the same deep view are the same punctuation, property and
/// place.
pub proof fn lemma_deep_tt_shape(a: TokenTree, b: TokenTree)
    requires
        deep_tt(a) == deep_tt(b),
    ensures
        forall|ch: char| is_punct(a, ch) == is_punct(b, ch),
        is_prop(a) == is_prop(b),
        span_open_or_entire(a) == span_open_or_entire(b),
{
}

/// The path read from `@(..)` depends only on the deep views of its tokens.
pub proof fn lemma_prop_path_rest_deep(a: Seq<TokenTree>, b: Seq<TokenTree>, i: int, close: Span)
    requires
        deep_seq(a) == deep_seq(b),
        0 <= i,
    ensures
        prop_path_rest(a, i, close) == prop_path_rest(b, i, close),
    decreases a.len() - i,
{
    lemma_deep_seq_index(a);
    lemma_deep_seq_index(b);
    if i < a.len() {
        assert(deep_seq(a)[i] == deep_tt(a[i]) && deep_seq(b)[i] == deep_tt(b[i]));
        lemma_deep_tt_shape(a[i], b[i]);
        if i + 1 < a.len() {
            assert(deep_seq(a)[i + 1] == deep_tt(a[i + 1]) && deep_seq(b)[i + 1] == deep_tt(b[i + 1]));
            lemma_deep_tt_shape(a[i + 1], b[i + 1]);
        }
        if i + 2 <= a.len() {
            lemma_prop_path_rest_deep(a, b, i + 2, close);
        }
    }
}

/// No `@` stands anywhere in the tokens, inside groups too.
pub open spec fn is_plain(ts: Seq<TokenTree>) -> bool
    decreases ts,
{
    if ts.len() == 0 {
        true
    } else {
        let rest = ts.subrange(1, ts.len() as int);
        match ts[0] {
            TokenTree::Punct(p) => p.ch != '@' && is_plain(rest),
            TokenTree::Group(g) => {
                proof {
                    assert(decreases_to!(g.stream => g.stream@)) by {
                        broadcast use vstd::std_specs::vec::axiom_vec_decreases_to_view;
                    }
                }
                is_plain(g.stream@) && is_plain(rest)
            },
            _ => is_plain(rest),
        }
    }
}

/// The template expands something: `@name`, `@(..)`, `@[..]*` or `@[..]?`
/// comes in it, read from the left, inside groups too.
pub open spec fn template_expands(ts: Seq<TokenTree>) -> bool
    decreases ts,
{
    if ts.len() == 0 {
        false
    } else {
        let rest = ts.subrange(1, ts.len() as int);
        match ts[0] {
            TokenTree::Group(g) => {
                proof {
                    assert(decreases_to!(g.stream => g.stream@)) by {
                        broadcast use vstd::std_specs::vec::axiom_vec_decreases_to_view;
                    }
                }
                template_expands(g.stream@) || template_expands(rest)
            },
            TokenTree::Punct(p) => {
                if p.ch != '@' {
                    template_expands(rest)
                } else if ts.len() < 2 {
                    false
                } else {
                    let rest2 = ts.subrange(2, ts.len() as int);
                    match ts[1] {
                        TokenTree::Ident(_) => true,
                        TokenTree::Group(g) => {
                            if g.delimiter == Delimiter::Parenthesis {
                                true
                            } else if g.delimiter == Delimiter::Bracket {
                                if ts.len() >= 3 && (ts[2] matches TokenTree::Punct(q) && q.spacing
                                    == Spacing::Alone && (q.ch == '*' || q.ch == '?')) {
                                    true
                                } else if ts.len() >= 3 {
                                    template_expands(ts.subrange(3, ts.len() as int))
                                } else {
                                    false
                                }
                            } else {
                                template_expands(rest2)
                            }
                        },
                        _ => template_expands(rest2),
                    }
                }
            },
            _ => template_expands(rest),
        }
    }
}

/// A plain template expands nothing.
pub proof fn lemma_plain_expands_nothing(ts: Seq<TokenTree>)
    requires
        is_plain(ts),
    ensures
        !template_expands(ts),
    decreases ts,
{
    if ts.len() > 0 {
        let rest = ts.subrange(1, ts.len() as int);
        match ts[0] {
            TokenTree::Group(g) => {
                assert(decreases_to!(g.stream => g.stream@)) by {
                    broadcast use vstd::std_specs::vec::axiom_vec_decreases_to_view;
                }
                lemma_plain_expands_nothing(g.stream@);
                lemma_plain_expands_nothing(rest);
            },
            _ => {
                lemma_plain_expands_nothing(rest);
            },
        }
    }
}

/// Expands the tokens of a group: the group as it was when nothing in it
/// expands, else the group with the expanded tokens; and whether anything
/// expanded.
pub fn expand_group<C: Context>(group: &Group, ctx: &mut C, errors: &mut ErrorCollector) -> (r: (Group, bool))
    ensures
        r.1 == template_expands(group.stream@),
        r.0.delimiter == group.delimiter,
        r.0.span_open == group.span_open,
        r.0.span_close == group.span_close,
        !r.1 ==> deep_seq(r.0.stream@) == deep_seq(group.stream@) && *final(ctx) == *old(ctx),
        is_plain(group.stream@) ==> *final(errors) == *old(errors),
        deep_seq(r.0.stream@) == spec_expand(group.stream@, *old(ctx)).0,
        *final(ctx) == spec_expand(group.stream@, *old(ctx)).1,
        errs(*final(errors)) == errs(*old(errors)) + spec_expand_errors(group.stream@, *old(ctx)),
    decreases group.stream, 3nat,
{
    let mut out = TokensCollector(Vec::new());
    proof {
        assert(deep_seq(out.0@) =~= Seq::<DeepToken>::empty());
    }
    let expanded = expand_ts_iter_to(&mut out, &group.stream, ctx, errors);
    proof {
        assert(Seq::<DeepToken>::empty() + spec_expand(group.stream@, *old(ctx)).0 =~= spec_expand(
            group.stream@,
            *old(ctx),
        ).0);
        assert(Seq::<TokenTree>::empty() + group.stream@ =~= group.stream@);
    }
    match expanded {
        MaybeIntact::Intact(()) => {
            let stream = clone_tokens(&group.stream);
            (
                Group {
                    delimiter: group.delimiter,
                    stream,
                    span_open: group.span_open,
                    span_close: group.span_close,
                },
                false,
            )
        },
        MaybeIntact::Expanded(()) => {
            let e = ExpandedGroup::from_original_and_expanded(group, out.0);
            (e.into_group(), true)
        },
    }
}

/// The deep view of a path read from `@(..)` is what the spec reads from
/// the group's tokens.
proof fn lemma_path_view(p: PropPath, stream: Seq<TokenTree>, orig: Seq<TokenTree>, close: Span)
    requires
        deep_seq(stream) == deep_seq(orig),
        stream.len() > 0,
        prop_token(p.0) == stream[0],
        p.1@.len() == prop_path_rest(stream, 1, close).0,
        forall|k: int| 0 <= k < prop_path_rest(stream, 1, close).0 ==> prop_token(#[trigger] p.1@[k]) == stream[2 * k + 2],
    ensures
        prop_path_view(p) == prop_path_tokens(orig, close),
{
    lemma_prop_path_rest_deep(stream, orig, 1, close);
    lemma_prop_path_rest(stream, 1, close);
    lemma_deep_seq_index(stream);
    lemma_deep_seq_index(orig);
    let n = prop_path_rest(stream, 1, close).0;
    assert(deep_seq(stream)[0] == deep_tt(stream[0]));
    assert forall|k: int| 0 <= k < n implies deep_tt(prop_token(#[trigger] p.1@[k])) == deep_tt(orig[2 * k + 2]) by {
        assert(deep_seq(stream)[2 * k + 2] == deep_tt(stream[2 * k + 2]));
        assert(deep_seq(orig)[2 * k + 2] == deep_tt(orig[2 * k + 2]));
    }
    assert(prop_path_view(p) =~= prop_path_tokens(orig, close));
}

/// The tokens from `i` on.
pub open spec fn from_index(ts: Seq<TokenTree>, i: int) -> Seq<TokenTree> {
    ts.subrange(i, ts.len() as int)
}

/// Expands the template step at `i`: one token, or `@` with what follows
/// it; says where the next step starts and whether this one expanded.
#[verifier::rlimit(100)]
#[verifier::spinoff_prover]
fn expand_step<C: Context>(out: &mut TokensCollector, ts: &Vec<TokenTree>, i: usize, ctx: &mut C, errors: &mut ErrorCollector) -> (r: (usize, bool))
    requires
        i < ts@.len(),
    ensures
        i < r.0 <= ts@.len(),
        template_expands(from_index(ts@, i as int)) == (r.1 || template_expands(from_index(ts@, r.0 as int))),
        !template_expands(from_index(ts@, i as int)) ==> {
            &&& final(out).0@.len() == old(out).0@.len() + (r.0 - i)
            &&& forall|j: int| 0 <= j < r.0 - i ==> deep_tt(#[trigger] final(out).0@[old(out).0@.len() + j]) == deep_tt(ts@[i + j])
            &&& *final(ctx) == *old(ctx)
            &&& final(out).0@.subrange(0, old(out).0@.len() as int) == old(out).0@
        },
        is_plain(from_index(ts@, i as int)) ==> {
            &&& is_plain(from_index(ts@, r.0 as int))
            &&& *final(errors) == *old(errors)
        },
        deep_seq(final(out).0@) + spec_expand(from_index(ts@, r.0 as int), *final(ctx)).0 == deep_seq(old(out).0@)
            + spec_expand(from_index(ts@, i as int), *old(ctx)).0,
        spec_expand(from_index(ts@, r.0 as int), *final(ctx)).1 == spec_expand(from_index(ts@, i as int), *old(ctx)).1,
        errs(*final(errors)) + spec_expand_errors(from_index(ts@, r.0 as int), *final(ctx)) == errs(*old(errors))
            + spec_expand_errors(from_index(ts@, i as int), *old(ctx)),
    decreases *ts, 1nat,
{
    let len = ts.len();
    let mut i = i;
    let mut any_is_expanded = false;
    let ghost suffix = ts@.subrange(i as int, ts@.len() as int);
    let ghost d0 = deep_seq(out.0@);
    let ghost c0 = *ctx;
    let ghost e0 = errs(*errors);
    let ghost i0 = i as int;
    proof {
        assert(suffix[0] == ts@[i as int]);
        assert(suffix.subrange(1, suffix.len() as int) =~= ts@.subrange(i + 1, ts@.len() as int));
        if i + 2 <= ts@.len() {
            assert(suffix[1] == ts@[i + 1]);
            assert(suffix.subrange(2, suffix.len() as int) =~= ts@.subrange(i + 2, ts@.len() as int));
        }
        if i + 3 <= ts@.len() {
            assert(suffix[2] == ts@[i + 2]);
            assert(suffix.subrange(3, suffix.len() as int) =~= ts@.subrange(i + 3, ts@.len() as int));
        }
        broadcast use vstd::std_specs::vec::axiom_vec_decreases_to_view;
        broadcast use vstd::std_specs::vec::axiom_vec_index_decreases;
        assert(decreases_to!(*ts => ts[i as int]));
        if i + 1 < ts@.len() {
            assert(decreases_to!(*ts => ts[i + 1]));
        }
    }
    let is_at = match &ts[i] {
        TokenTree::Punct(p) => p.ch == '@',
        _ => false,
    };
    if !is_at {
        match &ts[i] {
            TokenTree::Group(group) => {
                let (g, expanded) = expand_group(group, ctx, errors);
                if expanded {
                    any_is_expanded = true;
                }
                proof {
                    if is_plain(suffix) {
                        lemma_plain_expands_nothing(group.stream@);
                    }
                    lemma_deep_seq_push(out.0@, TokenTree::Group(g));
                }
                out.push(TokenTree::Group(g));
            },
            t => {
                let t2 = t.deep_clone();
                proof {
                    lemma_deep_seq_push(out.0@, t2);
                }
                out.push(t2);
            },
        }
        i = i + 1;
        proof {
            let r = spec_expand(ts@.subrange(i as int, ts@.len() as int), *ctx);
            assert(deep_seq(out.0@) + r.0 =~= d0 + spec_expand(suffix, c0).0);
            assert(errs(*errors) + spec_expand_errors(ts@.subrange(i as int, ts@.len() as int), *ctx) =~= e0 + spec_expand_errors(suffix, c0));
        }
    } else {
        let at = match &ts[i] {
            TokenTree::Punct(p) => *p,
            _ => Punct { ch: '@', spacing: Spacing::Alone, span: Span::call_site() },
        };
        proof {
            assert(TokenTree::Punct(at) == ts@[i as int]);
            assert(is_punct(suffix[0], '@'));
        }
        i = i + 1;
        if i >= ts.len() {
            proof {
                lemma_deep_seq_push(out.0@, TokenTree::Punct(at));
            }
            out.push(TokenTree::Punct(at));
            proof {
                assert(ts@.subrange(i as int, ts@.len() as int) =~= Seq::<TokenTree>::empty());
                assert(deep_seq(out.0@) + Seq::<DeepToken>::empty() =~= d0 + spec_expand(suffix, c0).0);
                assert(errs(*errors) + spec_expand_errors(ts@.subrange(i as int, ts@.len() as int), *ctx) =~= e0 + spec_expand_errors(suffix, c0));
            }
        } else {
            match &ts[i] {
                TokenTree::Ident(at_ident) => {
                    i = i + 1;
                    any_is_expanded = true;
                    let copy = at_ident.copied();
                    let path = PropPath(Prop::Ident(copy), Vec::new());
                    proof {
                        assert(prop_path_view(path) =~= seq![deep_tt(suffix[1])]);
                    }
                    ctx.expand_prop(path, out, errors);
                    proof {
                        let r = spec_expand(ts@.subrange(i as int, ts@.len() as int), *ctx);
                        assert(deep_seq(out.0@) + r.0 =~= d0 + spec_expand(suffix, c0).0);
                        assert(errs(*errors) + spec_expand_errors(ts@.subrange(i as int, ts@.len() as int), *ctx) =~= e0 + spec_expand_errors(suffix, c0));
                    }
                },
                TokenTree::Group(_) => {
                    let (i2, e2) = expand_at_group(out, ts, i - 1, at, ctx, errors);
                    i = i2;
                    any_is_expanded = e2;
                },
                t => {
                    let t2 = t.deep_clone();
                    i = i + 1;
                    proof {
                        lemma_deep_seq_push(out.0@, TokenTree::Punct(at));
                    }
                    out.push(TokenTree::Punct(at));
                    proof {
                        lemma_deep_seq_push(out.0@, t2);
                    }
                    out.push(t2);
                    proof {
                        let r = spec_expand(ts@.subrange(i as int, ts@.len() as int), *ctx);
                        assert(deep_seq(out.0@) + r.0 =~= d0 + spec_expand(suffix, c0).0);
                        assert(errs(*errors) + spec_expand_errors(ts@.subrange(i as int, ts@.len() as int), *ctx) =~= e0 + spec_expand_errors(suffix, c0));
                    }
                },
            }
        }
    }
    (i, any_is_expanded)
}

/// Expands `@` at `i` followed by a group: `@(..)` as a property path,
/// `@[..]*` and `@[..]?` through `expand_bracket`; any other group, and
/// `@[..]` followed by neither `*` nor `?`, is reported and written as it
/// stands.
#[verifier::rlimit(100)]
#[verifier::spinoff_prover]
fn expand_at_group<C: Context>(out: &mut TokensCollector, ts: &Vec<TokenTree>, i: usize, at: Punct, ctx: &mut C, errors: &mut ErrorCollector) -> (r: (usize, bool))
    requires
        i + 1 < ts@.len(),
        TokenTree::Punct(at) == ts@[i as int],
        at.ch == '@',
        ts@[i + 1] is Group,
    ensures
        i < r.0 <= ts@.len(),
        template_expands(from_index(ts@, i as int)) == (r.1 || template_expands(from_index(ts@, r.0 as int))),
        !template_expands(from_index(ts@, i as int)) ==> {
            &&& final(out).0@.len() == old(out).0@.len() + (r.0 - i)
            &&& forall|j: int| 0 <= j < r.0 - i ==> deep_tt(#[trigger] final(out).0@[old(out).0@.len() + j]) == deep_tt(ts@[i + j])
            &&& *final(ctx) == *old(ctx)
            &&& final(out).0@.subrange(0, old(out).0@.len() as int) == old(out).0@
        },
        is_plain(from_index(ts@, i as int)) ==> {
            &&& is_plain(from_index(ts@, r.0 as int))
            &&& *final(errors) == *old(errors)
        },
        deep_seq(final(out).0@) + spec_expand(from_index(ts@, r.0 as int), *final(ctx)).0 == deep_seq(old(out).0@)
            + spec_expand(from_index(ts@, i as int), *old(ctx)).0,
        spec_expand(from_index(ts@, r.0 as int), *final(ctx)).1 == spec_expand(from_index(ts@, i as int), *old(ctx)).1,
        errs(*final(errors)) + spec_expand_errors(from_index(ts@, r.0 as int), *final(ctx)) == errs(*old(errors))
            + spec_expand_errors(from_index(ts@, i as int), *old(ctx)),
    decreases *ts, 0nat,
{
    let len = ts.len();
    let mut i = i;
    let mut any_is_expanded = false;
    let ghost suffix = ts@.subrange(i as int, ts@.len() as int);
    let ghost d0 = deep_seq(out.0@);
    let ghost c0 = *ctx;
    let ghost e0 = errs(*errors);
    let ghost i0 = i as int;
    proof {
        assert(suffix[0] == ts@[i as int]);
        assert(suffix.subrange(1, suffix.len() as int) =~= ts@.subrange(i + 1, ts@.len() as int));
        if i + 2 <= ts@.len() {
            assert(suffix[1] == ts@[i + 1]);
            assert(suffix.subrange(2, suffix.len() as int) =~= ts@.subrange(i + 2, ts@.len() as int));
        }
        if i + 3 <= ts@.len() {
            assert(suffix[2] == ts@[i + 2]);
            assert(suffix.subrange(3, suffix.len() as int) =~= ts@.subrange(i + 3, ts@.len() as int));
        }
        broadcast use vstd::std_specs::vec::axiom_vec_decreases_to_view;
        broadcast use vstd::std_specs::vec::axiom_vec_index_decreases;
        assert(decreases_to!(*ts => ts[i as int]));
        if i + 1 < ts@.len() {
            assert(decreases_to!(*ts => ts[i + 1]));
        }
    }
    proof {
        assert(is_punct(suffix[0], '@'));
    }
    i = i + 1;
    match &ts[i] {
        TokenTree::Group(at_group) => {
            i = i + 1;
            if at_group.delimiter == Delimiter::Parenthesis {
                any_is_expanded = true;
                let stream = clone_tokens(&at_group.stream);
                let ghost sv = stream@;
                proof {
                    lemma_deep_seq_index(sv);
                    lemma_deep_seq_index(at_group.stream@);
                    if sv.len() > 0 {
                        assert(deep_seq(sv)[0] == deep_tt(sv[0]));
                        assert(deep_seq(at_group.stream@)[0] == deep_tt(at_group.stream@[0]));
                        lemma_deep_tt_shape(sv[0], at_group.stream@[0]);
                    }
                    lemma_prop_path_rest_deep(sv, at_group.stream@, 1, at_group.span_close);
                    assert(path_errors(sv, at_group.span_close) == path_errors(
                        at_group.stream@,
                        at_group.span_close,
                    ));
                }
                match parse_prop_path(stream, at_group.span_close, errors) {
                    Some(path) => {
                        proof {
                            lemma_path_view(path, sv, at_group.stream@, at_group.span_close);
                        }
                        ctx.expand_prop(path, out, errors);
                    },
                    None => {
                        assert(deep_seq(out.0@) + Seq::<DeepToken>::empty() =~= deep_seq(out.0@));
                    },
                }
                proof {
                    let r = spec_expand(ts@.subrange(i as int, ts@.len() as int), *ctx);
                    assert(deep_seq(out.0@) + r.0 =~= d0 + spec_expand(suffix, c0).0);
                    assert(errs(*errors) + spec_expand_errors(ts@.subrange(i as int, ts@.len() as int), *ctx) =~= e0 + spec_expand_errors(suffix, c0));
                }
            } else if at_group.delimiter == Delimiter::Bracket {
                let follow: u8 = if i < ts.len() {
                    match &ts[i] {
                        TokenTree::Punct(p) => {
                            if p.spacing == Spacing::Alone && p.ch == '*' {
                                1
                            } else if p.spacing == Spacing::Alone && p.ch == '?' {
                                2
                            } else {
                                3
                            }
                        },
                        _ => 3,
                    }
                } else {
                    0
                };
                if follow == 1 || follow == 2 {
                    let span = ts[i].span_open_or_entire();
                    i = i + 1;
                    any_is_expanded = true;
                    proof {
                        assert(decreases_to!(*ts => at_group.stream));
                    }
                    expand_bracket(out, &at_group.stream, follow == 1, span, ctx, errors);
                    proof {
                        let r = spec_expand(ts@.subrange(i as int, ts@.len() as int), *ctx);
                        assert(deep_seq(out.0@) + r.0 =~= d0 + spec_expand(suffix, c0).0);
                        assert(errs(*errors) + spec_expand_errors(ts@.subrange(i as int, ts@.len() as int), *ctx) =~= e0 + spec_expand_errors(suffix, c0));
                    }
                } else {
                    let err_span = if follow == 0 {
                        at_group.span_close
                    } else {
                        ts[i].span_open_or_entire()
                    };
                    proof {
                        lemma_deep_seq_push(out.0@, TokenTree::Punct(at));
                    }
                    out.push(TokenTree::Punct(at));
                    let cg = clone_group(at_group);
                    proof {
                        lemma_deep_seq_push(out.0@, TokenTree::Group(cg));
                    }
                    out.push(TokenTree::Group(cg));
                    if follow == 3 {
                        let t3 = ts[i].deep_clone();
                        proof {
                            lemma_deep_seq_push(out.0@, t3);
                        }
                        out.push(t3);
                        i = i + 1;
                    }
                    errors.push_custom("expect `?` or `*` after `@[...]`", Some(err_span));
                    proof {
                        if follow == 0 {
                            assert(ts@.subrange(i as int, ts@.len() as int) =~= Seq::<TokenTree>::empty());
                        }
                        let r = spec_expand(ts@.subrange(i as int, ts@.len() as int), *ctx);
                        assert(deep_seq(out.0@) + r.0 =~= d0 + spec_expand(suffix, c0).0);
                        assert(errs(*errors) + spec_expand_errors(ts@.subrange(i as int, ts@.len() as int), *ctx) =~= e0 + spec_expand_errors(suffix, c0));
                    }
                }
            } else {
                errors.push_custom("unexpected group after `@`", Some(at_group.span_open));
                proof {
                    lemma_deep_seq_push(out.0@, TokenTree::Punct(at));
                }
                out.push(TokenTree::Punct(at));
                let cg = clone_group(at_group);
                proof {
                    lemma_deep_seq_push(out.0@, TokenTree::Group(cg));
                }
                out.push(TokenTree::Group(cg));
                proof {
                    let r = spec_expand(ts@.subrange(i as int, ts@.len() as int), *ctx);
                    assert(deep_seq(out.0@) + r.0 =~= d0 + spec_expand(suffix, c0).0);
                    assert(errs(*errors) + spec_expand_errors(ts@.subrange(i as int, ts@.len() as int), *ctx) =~= e0 + spec_expand_errors(suffix, c0));
                }
            }
        },
        _ => {},
    }
    (i, any_is_expanded)
}

/// Expands a template into `out`: `@name` and `@(a.b)` go to the context,
/// `@[..]*` is expanded for each item, `@[..]?` when the context says so,
/// groups are expanded inside, and everything else is written as it is.
/// Misshapen templates are reported to `errors` and written as they are.
/// Says whether anything expanded.
#[verifier::rlimit(100)]
#[verifier::spinoff_prover]
pub fn expand_ts_iter_to<C: Context>(out: &mut TokensCollector, ts: &Vec<TokenTree>, ctx: &mut C, errors: &mut ErrorCollector) -> (r: MaybeIntact<(), ()>)
    ensures
        (r is Expanded) == template_expands(ts@),
        !template_expands(ts@) ==> {
            &&& deep_seq(final(out).0@) == deep_seq(old(out).0@ + ts@)
            &&& *final(ctx) == *old(ctx)
        },
        is_plain(ts@) ==> *final(errors) == *old(errors),
        errs(*final(errors)) == errs(*old(errors)) + spec_expand_errors(ts@, *old(ctx)),
        deep_seq(final(out).0@) == deep_seq(old(out).0@) + spec_expand(ts@, *old(ctx)).0,
        *final(ctx) == spec_expand(ts@, *old(ctx)).1,
    decreases *ts, 2nat,
{
    let mut any_is_expanded = false;
    let mut i: usize = 0;
    let ghost out0 = out.0@;
    proof {
        assert(ts@.subrange(0, ts@.len() as int) =~= ts@);
        assert(out0 + ts@.subrange(0, 0) =~= out0);
    }
    while i < ts.len()
        invariant
            i <= ts@.len(),
            template_expands(ts@) == (any_is_expanded || template_expands(
                ts@.subrange(i as int, ts@.len() as int),
            )),
            !template_expands(ts@) ==> {
                &&& out.0@.len() == out0.len() + i
                &&& out.0@.subrange(0, out0.len() as int) == out0
                &&& forall|j: int| 0 <= j < i ==> deep_tt(#[trigger] out.0@[out0.len() + j]) == deep_tt(ts@[j])
                &&& *ctx == *old(ctx)
            },
            is_plain(ts@) ==> {
                &&& is_plain(ts@.subrange(i as int, ts@.len() as int))
                &&& *errors == *old(errors)
            },
            out0 == old(out).0@,
            deep_seq(out.0@) + spec_expand(ts@.subrange(i as int, ts@.len() as int), *ctx).0 == deep_seq(out0)
                + spec_expand(ts@, *old(ctx)).0,
            spec_expand(ts@.subrange(i as int, ts@.len() as int), *ctx).1 == spec_expand(ts@, *old(ctx)).1,
            errs(*errors) + spec_expand_errors(ts@.subrange(i as int, ts@.len() as int), *ctx) == errs(*old(errors))
                + spec_expand_errors(ts@, *old(ctx)),
        decreases ts@.len() - i,
    {
        let ghost oi = i;
        let ghost before = out.0@;
        let (i2, expanded) = expand_step(out, ts, i, ctx, errors);
        if expanded {
            any_is_expanded = true;
        }
        i = i2;
        proof {
            if !template_expands(ts@) {
                assert forall|j: int| 0 <= j < i implies deep_tt(#[trigger] out.0@[out0.len() + j]) == deep_tt(ts@[j]) by {
                    if j < oi {
                        assert(out.0@[out0.len() + j] == out.0@.subrange(0, before.len() as int)[out0.len() + j]);
                    } else {
                        assert(deep_tt(out.0@[before.len() + (j - oi)]) == deep_tt(ts@[oi + (j - oi)]));
                    }
                }
                assert(out.0@.subrange(0, out0.len() as int) =~= before.subrange(0, out0.len() as int));
            }
        }
    }
    proof {
        assert(ts@.subrange(ts@.len() as int, ts@.len() as int) =~= Seq::<TokenTree>::empty());
        assert(deep_seq(out.0@) + Seq::<DeepToken>::empty() =~= deep_seq(out.0@));
        if !template_expands(ts@) {
            assert forall|k: int| 0 <= k < out.0@.len() implies deep_tt(#[trigger] out.0@[k]) == deep_tt(
                (out0 + ts@)[k],
            ) by {
                if k < out0.len() {
                    assert(out.0@[k] == out.0@.subrange(0, out0.len() as int)[k]);
                } else {
                    let j = k - out0.len();
                    assert(deep_tt(out.0@[out0.len() + j]) == deep_tt(ts@[j]));
                }
            }
            lemma_deep_seq_ext(out.0@, out0 + ts@);
        }
    }
    if any_is_expanded {
        MaybeIntact::Expanded(())
    } else {
        MaybeIntact::Intact(())
    }
}

/// What `@[..]*` (`star`) or `@[..]?` at `span` writes, the context it
/// leaves and the errors it reports, with `c` to start and `inner` the
/// tokens in brackets.
pub open spec fn bracket_expand<C: Context>(inner: Seq<TokenTree>, star: bool, span: Span, c: C) -> (
    Seq<DeepToken>,
    C,
    Seq<ParseErrorKind>,
) {
    if star {
        let ce = c.after_enter_star();
        let l = star_loop(inner, ce, c.star_count());
        (l.0, l.1.after_leave_star(), c.star_errors(span) + star_loop_errors(inner, ce, c.star_count()))
    } else {
        let ce = c.after_enter_question();
        if c.question_open() {
            let e = spec_expand(inner, ce);
            (e.0, e.1.after_leave_question(), c.question_errors(span) + spec_expand_errors(inner, ce))
        } else {
            (Seq::empty(), ce, c.question_errors(span))
        }
    }
}

/// Expands `@[..]*` (`star`) or `@[..]?` at `span` with the tokens `inner`
/// in brackets: for each item, or once when the context says so.
fn expand_bracket<C: Context>(out: &mut TokensCollector, inner: &Vec<TokenTree>, star: bool, span: Span, ctx: &mut C, errors: &mut ErrorCollector)
    ensures
        deep_seq(final(out).0@) == deep_seq(old(out).0@) + bracket_expand(inner@, star, span, *old(ctx)).0,
        *final(ctx) == bracket_expand(inner@, star, span, *old(ctx)).1,
        errs(*final(errors)) == errs(*old(errors)) + bracket_expand(inner@, star, span, *old(ctx)).2,
    decreases *inner, 3nat,
{
    let ghost d0 = deep_seq(out.0@);
    let ghost e0 = errs(*errors);
    let ghost c0 = *ctx;
    if star {
        let n = ctx.enter_bracket_star(span, errors);
        let ghost cstar = *ctx;
        let ghost dstar = deep_seq(out.0@);
        let ghost estar = errs(*errors);
        let ghost iv = inner@;
        let mut k: usize = 0;
        while k < n
            invariant
                k <= n,
                iv == inner@,
                deep_seq(out.0@) + star_loop(iv, *ctx, (n - k) as nat).0 == dstar + star_loop(iv, cstar, n as nat).0,
                star_loop(iv, *ctx, (n - k) as nat).1 == star_loop(iv, cstar, n as nat).1,
                errs(*errors) + star_loop_errors(iv, *ctx, (n - k) as nat) == estar + star_loop_errors(
                    iv,
                    cstar,
                    n as nat,
                ),
            decreases n - k,
        {
            let ghost dk = deep_seq(out.0@);
            let ghost ck = *ctx;
            let ghost ek = errs(*errors);
            let _ = expand_ts_iter_to(out, inner, ctx, errors);
            ctx.next();
            k = k + 1;
            proof {
                let m = (n - k) as nat;
                assert(((n - (k - 1)) as nat) - 1 == m);
                let r = star_loop(iv, *ctx, m);
                assert(deep_seq(out.0@) + r.0 =~= dk + star_loop(iv, ck, (m + 1) as nat).0);
                assert(errs(*errors) + star_loop_errors(iv, *ctx, m) =~= ek + star_loop_errors(iv, ck, (m + 1) as nat));
            }
        }
        proof {
            assert(deep_seq(out.0@) + Seq::<DeepToken>::empty() =~= deep_seq(out.0@));
            assert(errs(*errors) + Seq::<ParseErrorKind>::empty() =~= errs(*errors));
        }
        ctx.leave_bracket_star();
        proof {
            assert(errs(*errors) =~= e0 + bracket_expand(iv, star, span, c0).2);
        }
    } else {
        if ctx.enter_bracket_question(span, errors) {
            let _ = expand_ts_iter_to(out, inner, ctx, errors);
            ctx.leave_bracket_question();
            proof {
                assert(errs(*errors) =~= e0 + bracket_expand(inner@, star, span, c0).2);
            }
        } else {
            proof {
                assert(deep_seq(out.0@) =~= d0 + Seq::<DeepToken>::empty());
            }
        }
    }
}

/// A copy of a group with everything inside it.
pub(crate) fn clone_group(g: &Group) -> (r: Group)
    ensures
        deep_tt(TokenTree::Group(r)) == deep_tt(TokenTree::Group(*g)),
{
    Group {
        delimiter: g.delimiter,
        stream: clone_tokens(&g.stream),
        span_open: g.span_open,
        span_close: g.span_close,
    }
}

/// Expands a template: the tokens as they were when nothing expands, else
/// the expanded tokens.
pub fn expand_ts<C: Context>(original_ts: Vec<TokenTree>, ctx: &mut C, errors: &mut ErrorCollector) -> (r: MaybeIntact<Vec<TokenTree>, Vec<TokenTree>>)
    ensures
        (r is Expanded) == template_expands(original_ts@),
        r matches MaybeIntact::Intact(v) ==> v == original_ts && *final(ctx) == *old(ctx),
        r matches MaybeIntact::Expanded(v) ==> deep_seq(v@) == spec_expand(original_ts@, *old(ctx)).0,
        *final(ctx) == spec_expand(original_ts@, *old(ctx)).1,
        is_plain(original_ts@) ==> *final(errors) == *old(errors),
        errs(*final(errors)) == errs(*old(errors)) + spec_expand_errors(original_ts@, *old(ctx)),
{
    let mut out = TokensCollector(Vec::new());
    proof {
        assert(deep_seq(out.0@) =~= Seq::<DeepToken>::empty());
        assert(Seq::<DeepToken>::empty() + spec_expand(original_ts@, *ctx).0 =~= spec_expand(original_ts@, *ctx).0);
    }
    match expand_ts_iter_to(&mut out, &original_ts, ctx, errors) {
        MaybeIntact::Intact(()) => MaybeIntact::Intact(original_ts),
        MaybeIntact::Expanded(()) => MaybeIntact::Expanded(out.0),
    }
}
} // verus!
