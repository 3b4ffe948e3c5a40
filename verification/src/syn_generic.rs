//! Reading Rust item headers from a token stream: attributes, visibility,
//! generics, where clauses, struct and enum bodies and fields.
use vstd::prelude::*;
use std::collections::VecDeque;
use crate::syn_generic::tokens::{
    Span, Delimiter, Spacing, Ident, Punct, Group, TokenTree, TokenView, tt_view, tts_view,
    span_open_or_entire, span_close_or_entire, is_punct, is_ident_named, is_group_in, kw_pub,
    lemma_tts_view_push, lemma_tts_view_add, deep_tt, deep_seq, lemma_deep_seq_ext,
    kw_crate, kw_self, kw_super, kw_in, kw_where, kw_const, bytes_pub, bytes_crate, bytes_self,
    bytes_super, bytes_in, bytes_where, bytes_const, bytes_to_vec,
};

pub mod tokens;
pub mod ident_eq;
pub mod parse_meta;
pub mod parse_meta_utils;

verus! {

/// What went wrong at one place.
#[allow(inconsistent_fields)]
pub enum ParseErrorKind {
    UnexpectedToken { span: Span },
    UnexpectedEof { after: Option<Span> },
    Custom { msg: &'static str, span: Option<Span> },
}

/// One or more errors, the first one first.
pub struct ParseError(pub ParseErrorKind, pub Vec<ParseErrorKind>);

/// The error is a message at a place.
pub open spec fn is_custom(e: ParseError, msg: Seq<char>, span: Option<Span>) -> bool {
    e.1@.len() == 0 && (e.0 matches ParseErrorKind::Custom { msg: m, span: s } && m@ == msg && s
        == span)
}

/// The error is an end of input after a place.
pub open spec fn is_eof_after(e: ParseError, after: Option<Span>) -> bool {
    e.1@.len() == 0 && (e.0 matches ParseErrorKind::UnexpectedEof { after: a } && a == after)
}

/// The error is an unexpected token at a place.
pub open spec fn is_unexpected_at(e: ParseError, span: Span) -> bool {
    e.1@.len() == 0 && (e.0 matches ParseErrorKind::UnexpectedToken { span: s } && s == span)
}

/// All the errors of `e`, in order.
pub open spec fn error_kinds(e: ParseError) -> Seq<ParseErrorKind> {
    seq![e.0] + e.1@
}

impl ParseError {
    /// A message at a place.
    pub fn custom(msg: &'static str, span: Option<Span>) -> (r: ParseError)
        ensures
            is_custom(r, msg@, span),
            error_kinds(r) == seq![ParseErrorKind::Custom { msg, span }],
    {
        let r = ParseError(ParseErrorKind::Custom { msg, span }, Vec::new());
        assert(error_kinds(r) =~= seq![ParseErrorKind::Custom { msg, span }]);
        r
    }

    /// An end of input after a place.
    pub fn unexpected_eof_after(after: Option<Span>) -> (r: ParseError)
        ensures
            is_eof_after(r, after),
    {
        ParseError(ParseErrorKind::UnexpectedEof { after }, Vec::new())
    }

    /// Appends the errors of `e` after those of `self`.
    pub fn push(&mut self, e: ParseError)
        ensures
            final(self).0 == old(self).0,
            error_kinds(*final(self)) == error_kinds(*old(self)) + error_kinds(e),
    {
        let ParseError(first, mut rest) = e;
        self.1.push(first);
        self.1.append(&mut rest);
        proof {
            assert(error_kinds(*self) =~= error_kinds(*old(self)) + error_kinds(e));
        }
    }

    /// Appends the errors that `other` collected, if any.
    pub fn join(self, other: ErrorCollector) -> (r: ParseError)
        ensures
            r.0 == self.0,
            error_kinds(r) == error_kinds(self) + match other.0 {
                Some(e) => error_kinds(e),
                None => Seq::empty(),
            },
    {
        let mut this = self;
        match other.0 {
            Some(e) => this.push(e),
            None => {
                assert(error_kinds(this) =~= error_kinds(self) + Seq::empty());
            },
        }
        this
    }
}

/// An unexpected token, or the end of input after a place.
pub enum ErrorUnexpectedTokenOrEof {
    Token(TokenTree),
    Eof { after: Option<Span> },
}

impl ErrorUnexpectedTokenOrEof {
    /// The error as a parse error: at where the token starts.
    pub fn into_parse_error(self) -> (r: ParseError)
        ensures
            match self {
                ErrorUnexpectedTokenOrEof::Token(t) => is_unexpected_at(r, span_open_or_entire(t)),
                ErrorUnexpectedTokenOrEof::Eof { after } => is_eof_after(r, after),
            },
    {
        match self {
            ErrorUnexpectedTokenOrEof::Token(t) => ParseError(
                ParseErrorKind::UnexpectedToken { span: t.span_open_or_entire() },
                Vec::new(),
            ),
            ErrorUnexpectedTokenOrEof::Eof { after } => ParseError(
                ParseErrorKind::UnexpectedEof { after },
                Vec::new(),
            ),
        }
    }
}

/// Errors gathered while parsing goes on.
pub struct ErrorCollector(pub Option<ParseError>);

/// The errors gathered, the first one first.
pub open spec fn errs(c: ErrorCollector) -> Seq<ParseErrorKind> {
    match c.0 {
        Some(e) => error_kinds(e),
        None => Seq::empty(),
    }
}

impl ErrorCollector {
    /// No error yet.
    pub fn new() -> (r: ErrorCollector)
        ensures
            r.0 is None,
    {
        ErrorCollector(None)
    }

    /// Adds the errors of `e` after those gathered.
    pub fn push(&mut self, e: ParseError)
        ensures
            final(self).0 is Some,
            error_kinds(final(self).0.unwrap()) == match old(self).0 {
                Some(prev) => error_kinds(prev) + error_kinds(e),
                None => error_kinds(e),
            },
            errs(*final(self)) == errs(*old(self)) + error_kinds(e),
    {
        assert(Seq::<ParseErrorKind>::empty() + error_kinds(e) =~= error_kinds(e));
        let old_errors = self.0.take();
        match old_errors {
            Some(mut errors) => {
                errors.push(e);
                self.0 = Some(errors);
            },
            None => {
                self.0 = Some(e);
            },
        }
    }

    /// Adds a message at a place.
    pub fn push_custom(&mut self, msg: &'static str, span: Option<Span>)
        ensures
            final(self).0 is Some,
            error_kinds(final(self).0.unwrap()) == match old(self).0 {
                Some(prev) => error_kinds(prev) + seq![
                    ParseErrorKind::Custom { msg, span },
                ],
                None => seq![ParseErrorKind::Custom { msg, span }],
            },
            errs(*final(self)) == errs(*old(self)).push(ParseErrorKind::Custom { msg, span }),
    {
        let e = ParseError(ParseErrorKind::Custom { msg, span }, Vec::new());
        assert(error_kinds(e) =~= seq![ParseErrorKind::Custom { msg, span }]);
        self.push(e);
    }

    /// Adds the errors gathered in `other` after those gathered here.
    pub fn append(&mut self, other: ErrorCollector)
        ensures
            errs(*final(self)) == errs(*old(self)) + errs(other),
    {
        match other.0 {
            Some(e) => self.push(e),
            None => {
                assert(errs(*self) + Seq::<ParseErrorKind>::empty() =~= errs(*self));
            },
        }
    }

    /// `Ok` when nothing was gathered, else the gathered errors.
    pub fn ok(self) -> (r: Result<(), ParseError>)
        ensures
            match self.0 {
                Some(e) => r == Err::<(), ParseError>(e),
                None => r is Ok,
            },
    {
        match self.0 {
            Some(err) => Err(err),
            None => Ok(()),
        }
    }
}

/// The part of a stream that is left, and where the last token taken ended.
pub struct ParsingTokenStream {
    pub s: VecDeque<TokenTree>,
    pub prev_span: Option<Span>,
}

/// Where the last of the first `n` tokens of `toks` ends, or `prev` when
/// `n` is zero.
pub open spec fn prev_after_taking(toks: Seq<TokenTree>, prev: Option<Span>, n: int) -> Option<
    Span,
> {
    if n > 0 {
        Some(span_close_or_entire(toks[n - 1]))
    } else {
        prev
    }
}

impl ParsingTokenStream {
    /// A stream of `tokens`, nothing taken yet.
    pub fn new(tokens: Vec<TokenTree>) -> (r: ParsingTokenStream)
        ensures
            r.s@ == tokens@,
            r.prev_span is None,
    {
        let mut tokens = tokens;
        let ghost all = tokens@;
        let mut s: VecDeque<TokenTree> = VecDeque::new();
        while tokens.len() > 0
            invariant
                tokens@ + s@ == all,
            decreases tokens@.len(),
        {
            let t = tokens.pop().unwrap();
            s.push_front(t);
            proof {
                assert(tokens@ + s@ =~= all);
            }
        }
        assert(s@ =~= all);
        ParsingTokenStream { s, prev_span: None }
    }

    /// The next token, left in the stream.
    pub fn first(&self) -> (r: Option<&TokenTree>)
        ensures
            self.s@.len() == 0 ==> r is None,
            self.s@.len() > 0 ==> r == Some(&self.s@[0]),
    {
        if self.s.len() == 0 {
            None
        } else {
            Some(&self.s[0])
        }
    }

    /// Takes the next token.
    pub fn next(&mut self) -> (r: Option<TokenTree>)
        ensures
            old(self).s@.len() == 0 ==> r is None && final(self).s@ == old(self).s@ && final(self).prev_span == old(self).prev_span,
            old(self).s@.len() > 0 ==> {
                &&& r == Some(old(self).s@[0])
                &&& final(self).s@ == old(self).s@.drop_first()
                &&& final(self).prev_span == Some(span_close_or_entire(old(self).s@[0]))
            },
    {
        let tt = self.s.pop_front();
        match &tt {
            Some(t) => {
                self.prev_span = Some(t.span_close_or_entire());
            },
            None => {},
        }
        proof {
            if old(self).s@.len() > 0 {
                assert(self.s@ =~= old(self).s@.drop_first());
            }
        }
        tt
    }

    /// Takes the next token, or fails at the end of the input.
    pub fn next_or_error(&mut self) -> (r: Result<TokenTree, ParseError>)
        ensures
            old(self).s@.len() == 0 ==> (r matches Err(e) && is_eof_after(e, old(self).prev_span))
                && final(self).s@ == old(self).s@ && final(self).prev_span == old(self).prev_span,
            old(self).s@.len() > 0 ==> {
                &&& r == Ok::<TokenTree, ParseError>(old(self).s@[0])
                &&& final(self).s@ == old(self).s@.drop_first()
                &&& final(self).prev_span == Some(span_close_or_entire(old(self).s@[0]))
            },
    {
        let tt = self.next();
        match tt {
            Some(tt) => Ok(tt),
            None => Err(ParseError::unexpected_eof_after(self.prev_span)),
        }
    }

    /// Takes the next token, which must be an identifier.
    pub fn parse_ident(&mut self) -> (r: Result<Ident, ErrorUnexpectedTokenOrEof>)
        ensures
            old(self).s@.len() == 0 ==> (r matches Err(ErrorUnexpectedTokenOrEof::Eof { after })
                && after == old(self).prev_span) && final(self).s@ == old(self).s@ && final(self).prev_span == old(self).prev_span,
            old(self).s@.len() > 0 ==> {
                &&& final(self).s@ == old(self).s@.drop_first()
                &&& final(self).prev_span == Some(span_close_or_entire(old(self).s@[0]))
                &&& match old(self).s@[0] {
                    TokenTree::Ident(i) => r == Ok::<Ident, ErrorUnexpectedTokenOrEof>(i),
                    t => r == Err::<Ident, ErrorUnexpectedTokenOrEof>(
                        ErrorUnexpectedTokenOrEof::Token(t),
                    ),
                }
            },
    {
        match self.next() {
            Some(TokenTree::Ident(ident)) => Ok(ident),
            Some(t) => Err(ErrorUnexpectedTokenOrEof::Token(t)),
            None => Err(ErrorUnexpectedTokenOrEof::Eof { after: self.prev_span }),
        }
    }

    /// `Ok` when nothing is left.
    pub fn expect_eof(&self) -> (r: Result<(), ParseError>)
        ensures
            self.s@.len() == 0 ==> r is Ok,
            self.s@.len() > 0 ==> (r matches Err(e) && is_custom(e, "expect eof"@, self.prev_span)
                && error_kinds(e) == seq![ParseErrorKind::Custom { msg: "expect eof", span: self.prev_span }]),
    {
        if self.s.len() == 0 {
            Ok(())
        } else {
            Err(ParseError::custom("expect eof", self.prev_span))
        }
    }

    /// How many tokens are left.
    pub fn len(&self) -> (r: usize)
        ensures
            r == self.s@.len(),
    {
        self.s.len()
    }

    /// Nothing is left.
    pub fn is_empty(&self) -> (r: bool)
        ensures
            r == (self.s@.len() == 0),
    {
        self.s.len() == 0
    }

    /// Takes the first `n` tokens.
    pub fn take_first(&mut self, n: usize) -> (r: Vec<TokenTree>)
        requires
            n <= old(self).s@.len(),
        ensures
            r@ == old(self).s@.subrange(0, n as int),
            final(self).s@ == old(self).s@.subrange(n as int, old(self).s@.len() as int),
            final(self).prev_span == prev_after_taking(old(self).s@, old(self).prev_span, n as int),
    {
        let mut out: Vec<TokenTree> = Vec::new();
        let mut i: usize = 0;
        while i < n
            invariant
                i <= n,
                n <= old(self).s@.len(),
                out@ == old(self).s@.subrange(0, i as int),
                self.s@ == old(self).s@.subrange(i as int, old(self).s@.len() as int),
                self.prev_span == prev_after_taking(old(self).s@, old(self).prev_span, i as int),
            decreases n - i,
        {
            let t = self.next().unwrap();
            out.push(t);
            i = i + 1;
            proof {
                assert(out@ =~= old(self).s@.subrange(0, i as int));
                assert(self.s@ =~= old(self).s@.subrange(i as int, old(self).s@.len() as int));
            }
        }
        out
    }

    /// Takes everything that is left.
    pub fn take_all(&mut self) -> (r: Vec<TokenTree>)
        ensures
            r@ == old(self).s@,
            final(self).s@.len() == 0,
            final(self).prev_span == prev_after_taking(
                old(self).s@,
                old(self).prev_span,
                old(self).s@.len() as int,
            ),
    {
        let n = self.s.len();
        let r = self.take_first(n);
        assert(old(self).s@.subrange(0, n as int) =~= old(self).s@);
        r
    }
}


/// Where the stream stands: what is left and where the last token taken
/// ended.
pub struct StreamState {
    pub toks: Seq<TokenTree>,
    pub prev: Option<Span>,
}

impl ParsingTokenStream {
    pub open spec fn state(&self) -> StreamState {
        StreamState { toks: self.s@, prev: self.prev_span }
    }
}

/// The state after taking the first `n` tokens.
pub open spec fn take_n(st: StreamState, n: int) -> StreamState {
    StreamState {
        toks: st.toks.subrange(n, st.toks.len() as int),
        prev: prev_after_taking(st.toks, st.prev, n),
    }
}

/// Where the next token starts, or else where the last one taken ended.
pub open spec fn span_open_or_prev(st: StreamState) -> Option<Span> {
    if st.toks.len() > 0 {
        Some(span_open_or_entire(st.toks[0]))
    } else {
        st.prev
    }
}

/// Taking `a` tokens and then `b` more is taking `a + b`.
pub proof fn lemma_take_n_twice(st: StreamState, a: int, b: int)
    requires
        0 <= a,
        0 <= b,
        a + b <= st.toks.len(),
    ensures
        take_n(take_n(st, a), b) == take_n(st, a + b),
{
    let st1 = take_n(st, a);
    assert(st1.toks.subrange(b, st1.toks.len() as int) =~= st.toks.subrange(
        a + b,
        st.toks.len() as int,
    ));
    if b > 0 {
        assert(st1.toks[b - 1] == st.toks[a + b - 1]);
    }
}

/// Tokens taken off a stream, and where the stream stood before.
pub struct ConsumedTokens {
    pub tokens: Vec<TokenTree>,
    pub prev_span: Option<Span>,
}

/// The consumed tokens are the first `n` of `st`.
pub open spec fn consumed_from(c: ConsumedTokens, st: StreamState, n: int) -> bool {
    c.tokens@ == st.toks.subrange(0, n) && c.prev_span == st.prev
}

/// Where the scan of generic arguments stops: at a `>` that closes no `<`
/// it opened, at a `,` outside any `<`..`>`, and at a `=` there too when
/// `stop_at_eq`; else at the end.
pub open spec fn generics_scan(toks: Seq<TokenTree>, i: int, nested: nat, stop_at_eq: bool) -> int
    decreases toks.len() - i,
{
    if i < 0 || i >= toks.len() {
        toks.len() as int
    } else {
        match toks[i] {
            TokenTree::Punct(p) => {
                if p.ch == '<' {
                    generics_scan(toks, i + 1, nested + 1, stop_at_eq)
                } else if p.ch == '>' {
                    if nested == 0 {
                        i
                    } else {
                        generics_scan(toks, i + 1, (nested - 1) as nat, stop_at_eq)
                    }
                } else if nested == 0 && (p.ch == ',' || (stop_at_eq && p.ch == '=')) {
                    i
                } else {
                    generics_scan(toks, i + 1, nested, stop_at_eq)
                }
            },
            _ => generics_scan(toks, i + 1, nested, stop_at_eq),
        }
    }
}

/// What stops the scan of a where clause too early.
#[derive(Debug, Clone, Copy, PartialEq, Eq, Structural)]
pub enum WhereScanError {
    /// A `>` that closes no `<`.
    UnexpectedGt,
    /// A `;` inside `<`..`>`.
    UnexpectedSemiInNested,
}

/// The message of a where-clause error.
pub open spec fn where_error_msg(e: WhereScanError) -> Seq<char> {
    match e {
        WhereScanError::UnexpectedGt => "unexpected `>`"@,
        WhereScanError::UnexpectedSemiInNested => "unexpected `;` in nested type path"@,
    }
}

/// Where the scan of where-clause predicates stops, and the error found
/// there, if any: at a `{..}` outside any `<`..`>`, at a `>` that closes no
/// `<` (an error), at a `;` (an error inside `<`..`>`); else at the end.
pub open spec fn where_scan(toks: Seq<TokenTree>, i: int, nested: nat) -> (int, Option<(WhereScanError, Span)>)
    decreases toks.len() - i,
{
    if i < 0 || i >= toks.len() {
        (toks.len() as int, None)
    } else {
        match toks[i] {
            TokenTree::Group(g) => {
                if nested == 0 && g.delimiter == Delimiter::Brace {
                    (i, None)
                } else {
                    where_scan(toks, i + 1, nested)
                }
            },
            TokenTree::Punct(p) => {
                if p.ch == '<' {
                    where_scan(toks, i + 1, nested + 1)
                } else if p.ch == '>' {
                    if nested == 0 {
                        (i, Some((WhereScanError::UnexpectedGt, p.span)))
                    } else {
                        where_scan(toks, i + 1, (nested - 1) as nat)
                    }
                } else if p.ch == ';' {
                    if nested > 0 {
                        (i, Some((WhereScanError::UnexpectedSemiInNested, p.span)))
                    } else {
                        (i, None)
                    }
                } else {
                    where_scan(toks, i + 1, nested)
                }
            },
            _ => where_scan(toks, i + 1, nested),
        }
    }
}

/// The index of the first `,`, or the length.
pub open spec fn comma_scan(toks: Seq<TokenTree>, i: int) -> int
    decreases toks.len() - i,
{
    if i < 0 || i >= toks.len() {
        toks.len() as int
    } else if is_punct(toks[i], ',') {
        i
    } else {
        comma_scan(toks, i + 1)
    }
}

proof fn lemma_generics_scan_bounds(toks: Seq<TokenTree>, i: int, nested: nat, e: bool)
    requires
        0 <= i <= toks.len(),
    ensures
        i <= generics_scan(toks, i, nested, e) <= toks.len(),
    decreases toks.len() - i,
{
    if i < toks.len() {
        lemma_generics_scan_bounds(toks, i + 1, nested + 1, e);
        lemma_generics_scan_bounds(toks, i + 1, nested, e);
        if nested > 0 {
            lemma_generics_scan_bounds(toks, i + 1, (nested - 1) as nat, e);
        }
    }
}

proof fn lemma_where_scan_bounds(toks: Seq<TokenTree>, i: int, nested: nat)
    requires
        0 <= i <= toks.len(),
    ensures
        i <= where_scan(toks, i, nested).0 <= toks.len(),
    decreases toks.len() - i,
{
    if i < toks.len() {
        lemma_where_scan_bounds(toks, i + 1, nested + 1);
        lemma_where_scan_bounds(toks, i + 1, nested);
        if nested > 0 {
            lemma_where_scan_bounds(toks, i + 1, (nested - 1) as nat);
        }
    }
}

pub proof fn lemma_comma_scan_bounds(toks: Seq<TokenTree>, i: int)
    requires
        0 <= i <= toks.len(),
    ensures
        i <= comma_scan(toks, i) <= toks.len(),
    decreases toks.len() - i,
{
    if i < toks.len() {
        lemma_comma_scan_bounds(toks, i + 1);
    }
}

impl ParsingTokenStream {
    /// Where the scan of generic arguments stops.
    fn generics_stop(&self, stop_at_eq: bool) -> (r: usize)
        ensures
            r == generics_scan(self.s@, 0, 0, stop_at_eq),
            r <= self.s@.len(),
    {
        let mut i: usize = 0;
        let mut nested: usize = 0;
        proof {
            lemma_generics_scan_bounds(self.s@, 0, 0, stop_at_eq);
        }
        while i < self.s.len()
            invariant
                i <= self.s@.len(),
                nested <= i,
                generics_scan(self.s@, i as int, nested as nat, stop_at_eq) == generics_scan(
                    self.s@,
                    0,
                    0,
                    stop_at_eq,
                ),
            decreases self.s@.len() - i,
        {
            match &self.s[i] {
                TokenTree::Punct(p) => {
                    if p.ch == '<' {
                        nested = nested + 1;
                    } else if p.ch == '>' {
                        if nested == 0 {
                            return i;
                        } else {
                            nested = nested - 1;
                        }
                    } else if nested == 0 && (p.ch == ',' || (stop_at_eq && p.ch == '=')) {
                        return i;
                    }
                },
                _ => {},
            }
            i = i + 1;
        }
        i
    }

    /// Takes the tokens of a generic argument or bound: up to a `>` that
    /// closes no `<` taken here, or up to a `,` (and a `=` when
    /// `stop_at_eq`) outside any `<`..`>`.
    pub fn parse_in_generics_before_punct(&mut self, stop_at_eq: bool) -> (r: ConsumedTokens)
        ensures
            ({
                let n = generics_scan(old(self).s@, 0, 0, stop_at_eq);
                &&& consumed_from(r, old(self).state(), n)
                &&& final(self).state() == take_n(old(self).state(), n)
            }),
    {
        let prev_span = self.prev_span;
        let n = self.generics_stop(stop_at_eq);
        let tokens = self.take_first(n);
        ConsumedTokens { tokens, prev_span }
    }

    /// Where the scan of where-clause predicates stops.
    fn where_stop(&self) -> (r: (usize, Option<(WhereScanError, Span)>))
        ensures
            r.0 == where_scan(self.s@, 0, 0).0,
            r.1 == where_scan(self.s@, 0, 0).1,
            r.0 <= self.s@.len(),
    {
        let mut i: usize = 0;
        let mut nested: usize = 0;
        proof {
            lemma_where_scan_bounds(self.s@, 0, 0);
        }
        while i < self.s.len()
            invariant
                i <= self.s@.len(),
                nested <= i,
                where_scan(self.s@, i as int, nested as nat) == where_scan(self.s@, 0, 0),
            decreases self.s@.len() - i,
        {
            match &self.s[i] {
                TokenTree::Group(g) => {
                    if nested == 0 && g.delimiter == Delimiter::Brace {
                        return (i, None);
                    }
                },
                TokenTree::Punct(p) => {
                    if p.ch == '<' {
                        nested = nested + 1;
                    } else if p.ch == '>' {
                        if nested == 0 {
                            return (i, Some((WhereScanError::UnexpectedGt, p.span)));
                        } else {
                            nested = nested - 1;
                        }
                    } else if p.ch == ';' {
                        if nested > 0 {
                            return (i, Some((WhereScanError::UnexpectedSemiInNested, p.span)));
                        } else {
                            return (i, None);
                        }
                    }
                },
                _ => {},
            }
            i = i + 1;
        }
        (i, None)
    }

    /// Where the first `,` stands.
    fn comma_stop(&self) -> (r: usize)
        ensures
            r == comma_scan(self.s@, 0),
            r <= self.s@.len(),
    {
        let mut i: usize = 0;
        proof {
            lemma_comma_scan_bounds(self.s@, 0);
        }
        while i < self.s.len()
            invariant
                i <= self.s@.len(),
                comma_scan(self.s@, i as int) == comma_scan(self.s@, 0),
            decreases self.s@.len() - i,
        {
            if self.s[i].is_punct(',') {
                return i;
            }
            i = i + 1;
        }
        i
    }

    /// Takes the tokens before the first `,`, or all of them.
    pub fn consume_before_comma(&mut self) -> (r: ConsumedTokens)
        ensures
            ({
                let n = comma_scan(old(self).s@, 0);
                &&& consumed_from(r, old(self).state(), n)
                &&& final(self).state() == take_n(old(self).state(), n)
            }),
    {
        let prev_span = self.prev_span;
        let n = self.comma_stop();
        let tokens = self.take_first(n);
        ConsumedTokens { tokens, prev_span }
    }
}

/// `#`
pub struct PunctPound(pub Punct);

/// `,`
pub struct PunctComma(pub Punct);

/// `=`
pub struct PunctEq(pub Punct);

/// `:`
pub struct PunctColon(pub Punct);

/// `;`
pub struct PunctSemi(pub Punct);

/// `<`
pub struct PunctLt(pub Punct);

/// `>`
pub struct PunctGt(pub Punct);

impl PunctSemi {
    /// Where the `;` stands.
    pub fn span(&self) -> (r: Span)
        ensures
            r == self.0.span,
    {
        self.0.span
    }
}

impl PunctEq {
    /// Where the `=` stands.
    pub fn span(&self) -> (r: Span)
        ensures
            r == self.0.span,
    {
        self.0.span
    }
}

/// `pub`
pub struct IdentPub(pub Ident);

/// `crate`
pub struct IdentCrate(pub Ident);

/// `self`
pub struct IdentSelf(pub Ident);

/// `super`
pub struct IdentSuper(pub Ident);

/// `in`
pub struct IdentIn(pub Ident);

/// `where`
pub struct IdentWhere(pub Ident);

impl IdentWhere {
    /// `where` at a place.
    pub fn from_span(span: Span) -> (r: IdentWhere)
        ensures
            r.0.name@ == kw_where(),
            r.0.span == span,
    {
        let b = bytes_where();
        IdentWhere(Ident { name: bytes_to_vec(b), span })
    }

    /// The identifier.
    pub fn into_ident(self) -> (r: Ident)
        ensures
            r == self.0,
    {
        self.0
    }
}

/// `(..)`
pub struct GroupParen(pub Group);

/// `{..}`
pub struct GroupBrace(pub Group);

/// `[..]`
pub struct GroupBracket(pub Group);

impl GroupParen {
    /// `(stream)` at the place of the macro call.
    pub fn new(stream: Vec<TokenTree>) -> (r: GroupParen)
        ensures
            r.0.delimiter == Delimiter::Parenthesis,
            r.0.stream == stream,
            r.0.span_open == Span(0),
            r.0.span_close == Span(0),
    {
        GroupParen(
            Group {
                delimiter: Delimiter::Parenthesis,
                stream,
                span_open: Span::call_site(),
                span_close: Span::call_site(),
            },
        )
    }

    /// The same group with both brackets at `span`.
    pub fn with_delimiter_span(self, span: Span) -> (r: GroupParen)
        ensures
            r.0.delimiter == self.0.delimiter,
            r.0.stream == self.0.stream,
            r.0.span_open == span,
            r.0.span_close == span,
    {
        let mut g = self.0;
        g.span_open = span;
        g.span_close = span;
        GroupParen(g)
    }

    /// The group when it is in `(..)`, else the group back.
    pub fn try_from_group(g: Group) -> (r: Result<GroupParen, Group>)
        ensures
            g.delimiter == Delimiter::Parenthesis ==> r == Ok::<GroupParen, Group>(GroupParen(g)),
            g.delimiter != Delimiter::Parenthesis ==> r == Err::<GroupParen, Group>(g),
    {
        if g.delimiter == Delimiter::Parenthesis {
            Ok(GroupParen(g))
        } else {
            Err(g)
        }
    }
}

impl GroupBrace {
    /// The group.
    pub fn into_group(self) -> (r: Group)
        ensures
            r == self.0,
    {
        self.0
    }
}

impl GroupBracket {
    /// The token when it is a group in `[..]`.
    pub fn parse_from_token_tree(tt: TokenTree) -> (r: Result<GroupBracket, ParseError>)
        ensures
            match tt {
                TokenTree::Group(g) => if g.delimiter == Delimiter::Bracket {
                    r == Ok::<GroupBracket, ParseError>(GroupBracket(g))
                } else {
                    r matches Err(e) && is_custom(e, "expect `[`"@, Some(g.span_open)) && error_kinds(e)
                        == seq![ParseErrorKind::Custom { msg: "expect `[`", span: Some(g.span_open) }]
                },
                t => r matches Err(e) && is_custom(e, "expect `[`"@, Some(span_open_or_entire(t)))
                    && error_kinds(e) == seq![
                    ParseErrorKind::Custom { msg: "expect `[`", span: Some(span_open_or_entire(t)) },
                ],
            },
    {
        let span = tt.span_open_or_entire();
        match tt {
            TokenTree::Group(group) => {
                if group.delimiter == Delimiter::Bracket {
                    Ok(GroupBracket(group))
                } else {
                    Err(ParseError::custom("expect `[`", Some(span)))
                }
            },
            _ => Err(ParseError::custom("expect `[`", Some(span))),
        }
    }
}

/// `where` and what follows it.
pub struct WhereClause<P> {
    pub where_token: IdentWhere,
    pub predicates: P,
}

/// What reading an optional where clause finds.
pub enum WhereOutcome {
    /// No `where` comes next.
    Absent,
    /// `where` and then the predicates: the first `n` tokens of the state
    /// after `where`.
    Present(StreamState, int),
    /// `where` and predicates that end in an error at a place.
    Failed(WhereScanError, Span),
}

/// The next token is `where`.
pub open spec fn starts_with_where(st: StreamState) -> bool {
    st.toks.len() > 0 && is_ident_named(st.toks[0], kw_where())
}

/// What reading an optional where clause from `st` finds.
pub open spec fn where_outcome(st: StreamState) -> WhereOutcome {
    if starts_with_where(st) {
        let st1 = take_n(st, 1);
        let sc = where_scan(st1.toks, 0, 0);
        match sc.1 {
            Some((e, sp)) => WhereOutcome::Failed(e, sp),
            None => WhereOutcome::Present(st1, sc.0),
        }
    } else {
        WhereOutcome::Absent
    }
}

/// Where the stream stands after reading an optional where clause.
pub open spec fn after_where(st: StreamState) -> StreamState {
    if starts_with_where(st) {
        let st1 = take_n(st, 1);
        take_n(st1, where_scan(st1.toks, 0, 0).0)
    } else {
        st
    }
}

/// `wc` is what reading an optional where clause from `st` gives, when it
/// gives no error.
pub open spec fn where_clause_matches(wc: Option<WhereClause<ConsumedTokens>>, st: StreamState) -> bool {
    match where_outcome(st) {
        WhereOutcome::Absent => wc is None,
        WhereOutcome::Present(st1, n) => wc matches Some(w) && TokenTree::Ident(w.where_token.0)
            == st.toks[0] && consumed_from(w.predicates, st1, n),
        WhereOutcome::Failed(_, _) => false,
    }
}

/// `r` is an error with the message of a where-clause error at a place.
pub open spec fn is_where_error<T>(r: Result<T, ParseError>, e: WhereScanError, sp: Span) -> bool {
    r matches Err(er) && is_custom(er, where_error_msg(e), Some(sp))
}

/// The body of a struct.
pub enum StructData {
    Paren { paren: GroupParen, semi: PunctSemi },
    Brace(GroupBrace),
    Semi(PunctSemi),
}

impl StructData {
    /// The body's tokens as written: `(..);`, `{..}` or `;`.
    pub fn into_token_stream(self) -> (r: Vec<TokenTree>)
        ensures
            match self {
                StructData::Paren { paren, semi } => r@ == seq![
                    TokenTree::Group(paren.0),
                    TokenTree::Punct(semi.0),
                ],
                StructData::Brace(g) => r@ == seq![TokenTree::Group(g.0)],
                StructData::Semi(s) => r@ == seq![TokenTree::Punct(s.0)],
            },
    {
        let mut r: Vec<TokenTree> = Vec::new();
        match self {
            StructData::Paren { paren, semi } => {
                r.push(TokenTree::Group(paren.0));
                r.push(TokenTree::Punct(semi.0));
            },
            StructData::Brace(g) => {
                r.push(TokenTree::Group(g.0));
            },
            StructData::Semi(s) => {
                r.push(TokenTree::Punct(s.0));
            },
        }
        r
    }
}

impl ParsingTokenStream {
    /// Reads an optional where clause: `where` and the tokens up to a `{..}`
    /// or `;` outside any `<`..`>`, or up to the end.
    pub fn parse_where_clause_impl(&mut self) -> (r: Result<(Option<IdentWhere>, ConsumedTokens), ParseError>)
        ensures
            final(self).state() == after_where(old(self).state()),
            match where_outcome(old(self).state()) {
                WhereOutcome::Absent => r matches Ok((None, c)) && consumed_from(
                    c,
                    old(self).state(),
                    0,
                ),
                WhereOutcome::Present(st1, n) => r matches Ok((Some(w), c)) && TokenTree::Ident(w.0)
                    == old(self).s@[0] && consumed_from(c, st1, n),
                WhereOutcome::Failed(e, sp) => is_where_error(r, e, sp),
            },
    {
        let is_where = match self.first() {
            Some(t) => t.is_ident_named(bytes_where()),
            None => false,
        };
        if !is_where {
            assert(self.s@.subrange(0, 0) =~= Seq::<TokenTree>::empty());
            return Ok((None, ConsumedTokens { tokens: Vec::new(), prev_span: self.prev_span }));
        }
        let w = match self.next() {
            Some(TokenTree::Ident(id)) => IdentWhere(id),
            _ => {
                proof {
                    assert(false);
                }
                return Err(ParseError::custom("expect `where`", self.prev_span));
            },
        };
        let prev_span = self.prev_span;
        let (n, err) = self.where_stop();
        let predicates = self.take_first(n);
        match err {
            Some((WhereScanError::UnexpectedGt, sp)) => Err(
                ParseError::custom("unexpected `>`", Some(sp)),
            ),
            Some((WhereScanError::UnexpectedSemiInNested, sp)) => Err(
                ParseError::custom("unexpected `;` in nested type path", Some(sp)),
            ),
            None => Ok((Some(w), ConsumedTokens { tokens: predicates, prev_span })),
        }
    }

    /// Reads an optional where clause.
    pub fn parse_where_clause(&mut self) -> (r: Result<Option<WhereClause<ConsumedTokens>>, ParseError>)
        ensures
            final(self).state() == after_where(old(self).state()),
            match where_outcome(old(self).state()) {
                WhereOutcome::Failed(e, sp) => is_where_error(r, e, sp),
                _ => r matches Ok(wc) && where_clause_matches(wc, old(self).state()),
            },
    {
        let (w, predicates) = self.parse_where_clause_impl()?;
        Ok(
            match w {
                Some(where_token) => Some(WhereClause { where_token, predicates }),
                None => None,
            },
        )
    }

    /// Reads what follows the generics of a struct: an optional where
    /// clause and `{..}`, or `;`; or `(..)`, an optional where clause and
    /// `;`.
    pub fn parse_struct_after_generics(&mut self) -> (r: Result<(Option<WhereClause<ConsumedTokens>>, StructData), ParseError>)
        ensures
            ({
                let st0 = old(self).state();
                let st1 = after_where(st0);
                match where_outcome(st0) {
                    WhereOutcome::Failed(e, sp) => is_where_error(r, e, sp) && final(self).state()
                        == st1,
                    _ => if st1.toks.len() > 0 && is_group_in(st1.toks[0], Delimiter::Parenthesis)
                        && where_outcome(st0) is Absent {
                        let st2 = take_n(st1, 1);
                        let st3 = after_where(st2);
                        match where_outcome(st2) {
                            WhereOutcome::Failed(e, sp) => is_where_error(r, e, sp)
                                && final(self).state() == st3,
                            _ => if st3.toks.len() > 0 && is_punct(st3.toks[0], ';') {
                                &&& r matches Ok((wc, StructData::Paren { paren, semi }))
                                    && where_clause_matches(wc, st2) && TokenTree::Group(paren.0)
                                    == st1.toks[0] && TokenTree::Punct(semi.0) == st3.toks[0]
                                &&& final(self).state() == take_n(st3, 1)
                            } else {
                                &&& r matches Err(e) && is_custom(
                                    e,
                                    "expect `;`"@,
                                    span_open_or_prev(st3),
                                )
                                &&& final(self).state() == st3
                            },
                        }
                    } else if st1.toks.len() > 0 && is_group_in(st1.toks[0], Delimiter::Brace) {
                        &&& r matches Ok((wc, StructData::Brace(g))) && where_clause_matches(wc, st0)
                            && TokenTree::Group(g.0) == st1.toks[0]
                        &&& final(self).state() == take_n(st1, 1)
                    } else if st1.toks.len() > 0 && is_punct(st1.toks[0], ';') {
                        &&& r matches Ok((wc, StructData::Semi(p))) && where_clause_matches(wc, st0)
                            && TokenTree::Punct(p.0) == st1.toks[0]
                        &&& final(self).state() == take_n(st1, 1)
                    } else {
                        &&& r matches Err(e) && is_custom(
                            e,
                            "unexpected token"@,
                            span_open_or_prev(st1),
                        )
                        &&& final(self).state() == st1
                    },
                }
            }),
    {
        let wc = self.parse_where_clause()?;
        let has_where = wc.is_some();
        let kind: u8 = match self.first() {
            Some(TokenTree::Group(g)) => {
                if g.delimiter == Delimiter::Parenthesis && !has_where {
                    0
                } else if g.delimiter == Delimiter::Brace {
                    1
                } else {
                    3
                }
            },
            Some(TokenTree::Punct(p)) => {
                if p.ch == ';' {
                    2
                } else {
                    3
                }
            },
            _ => 3,
        };
        if kind == 3 {
            let span = match self.first() {
                Some(t) => Some(t.span_open_or_entire()),
                None => self.prev_span,
            };
            return Err(ParseError::custom("unexpected token", span));
        }
        let tt = self.next();
        if kind == 0 {
            let paren = match tt {
                Some(TokenTree::Group(g)) => GroupParen(g),
                _ => {
                    proof {
                        assert(false);
                    }
                    return Err(ParseError::custom("unexpected token", self.prev_span));
                },
            };
            let wc2 = self.parse_where_clause()?;
            let is_semi = match self.first() {
                Some(t) => t.is_punct(';'),
                None => false,
            };
            if !is_semi {
                let span = match self.first() {
                    Some(t) => Some(t.span_open_or_entire()),
                    None => self.prev_span,
                };
                return Err(ParseError::custom("expect `;`", span));
            }
            let semi = match self.next() {
                Some(TokenTree::Punct(p)) => PunctSemi(p),
                _ => {
                    proof {
                        assert(false);
                    }
                    return Err(ParseError::custom("expect `;`", self.prev_span));
                },
            };
            Ok((wc2, StructData::Paren { paren, semi }))
        } else if kind == 1 {
            match tt {
                Some(TokenTree::Group(g)) => Ok((wc, StructData::Brace(GroupBrace(g)))),
                _ => {
                    proof {
                        assert(false);
                    }
                    Err(ParseError::custom("unexpected token", self.prev_span))
                },
            }
        } else {
            match tt {
                Some(TokenTree::Punct(p)) => Ok((wc, StructData::Semi(PunctSemi(p)))),
                _ => {
                    proof {
                        assert(false);
                    }
                    Err(ParseError::custom("unexpected token", self.prev_span))
                },
            }
        }
    }

    /// Reads what follows the generics of an enum: an optional where
    /// clause and `{..}`.
    pub fn parse_enum_after_generics(&mut self) -> (r: Result<(Option<WhereClause<ConsumedTokens>>, GroupBrace), ParseError>)
        ensures
            ({
                let st0 = old(self).state();
                let st1 = after_where(st0);
                match where_outcome(st0) {
                    WhereOutcome::Failed(e, sp) => is_where_error(r, e, sp) && final(self).state()
                        == st1,
                    _ => if st1.toks.len() > 0 && is_group_in(st1.toks[0], Delimiter::Brace) {
                        &&& r matches Ok((wc, g)) && where_clause_matches(wc, st0) && TokenTree::Group(
                            g.0,
                        ) == st1.toks[0]
                        &&& final(self).state() == take_n(st1, 1)
                    } else {
                        &&& r matches Err(e) && is_custom(
                            e,
                            "expect `{...}`"@,
                            span_open_or_prev(st1),
                        )
                        &&& final(self).state() == st1
                    },
                }
            }),
    {
        let wc = self.parse_where_clause()?;
        let is_brace = match self.first() {
            Some(t) => t.is_group_in(Delimiter::Brace),
            None => false,
        };
        if !is_brace {
            let span = match self.first() {
                Some(t) => Some(t.span_open_or_entire()),
                None => self.prev_span,
            };
            return Err(ParseError::custom("expect `{...}`", span));
        }
        match self.next() {
            Some(TokenTree::Group(g)) => Ok((wc, GroupBrace(g))),
            _ => {
                proof {
                    assert(false);
                }
                Err(ParseError::custom("expect `{...}`", self.prev_span))
            },
        }
    }
}

/// The word in `pub(..)`.
#[derive(Debug, Clone, Copy, PartialEq, Eq, Structural)]
pub enum VisKind {
    Crate,
    SelfValue,
    Super,
    In,
}

/// The word that a group after `pub` limits the visibility to: `(crate)`,
/// `(self)`, `(super)`, or `(in` and a path`)`.
pub open spec fn vis_paren_kind(g: Group) -> Option<VisKind> {
    if g.delimiter != Delimiter::Parenthesis || g.stream@.len() == 0 {
        None
    } else {
        match g.stream@[0] {
            TokenTree::Ident(i) => {
                let alone = g.stream@.len() == 1;
                if i.name@ == kw_crate() {
                    if alone {
                        Some(VisKind::Crate)
                    } else {
                        None
                    }
                } else if i.name@ == kw_self() {
                    if alone {
                        Some(VisKind::SelfValue)
                    } else {
                        None
                    }
                } else if i.name@ == kw_super() {
                    if alone {
                        Some(VisKind::Super)
                    } else {
                        None
                    }
                } else if i.name@ == kw_in() {
                    Some(VisKind::In)
                } else {
                    None
                }
            },
            _ => None,
        }
    }
}

/// The word in `pub(..)`, with the identifier it was read from. After `in`
/// the path stands in the group.
pub enum SomeVisibilityParenKind {
    Crate(IdentCrate),
    Self_(IdentSelf),
    Super(IdentSuper),
    In(IdentIn),
}

/// The kind, and the identifier it holds.
pub open spec fn paren_kind_parts(k: SomeVisibilityParenKind) -> (VisKind, Ident) {
    match k {
        SomeVisibilityParenKind::Crate(i) => (VisKind::Crate, i.0),
        SomeVisibilityParenKind::Self_(i) => (VisKind::SelfValue, i.0),
        SomeVisibilityParenKind::Super(i) => (VisKind::Super, i.0),
        SomeVisibilityParenKind::In(i) => (VisKind::In, i.0),
    }
}

/// `k` is the kind of `g`, with a copy of the first identifier of `g`.
pub open spec fn paren_kind_of(k: SomeVisibilityParenKind, g: Group) -> bool {
    &&& vis_paren_kind(g) == Some(paren_kind_parts(k).0)
    &&& g.stream@[0] matches TokenTree::Ident(i) && i.name@ == paren_kind_parts(k).1.name@
        && i.span == paren_kind_parts(k).1.span
}

impl SomeVisibilityParenKind {
    /// The kind of a group after `pub`, if it is one.
    pub fn try_parse(g: &Group) -> (r: Option<SomeVisibilityParenKind>)
        ensures
            vis_paren_kind(*g) is None ==> r is None,
            vis_paren_kind(*g) is Some ==> (r matches Some(k) && paren_kind_of(k, *g)),
    {
        if g.delimiter != Delimiter::Parenthesis || g.stream.len() == 0 {
            return None;
        }
        let alone = g.stream.len() == 1;
        match &g.stream[0] {
            TokenTree::Ident(ident) => {
                if ident.matches(bytes_crate()) {
                    if alone {
                        Some(SomeVisibilityParenKind::Crate(IdentCrate(ident.copied())))
                    } else {
                        None
                    }
                } else if ident.matches(bytes_self()) {
                    if alone {
                        Some(SomeVisibilityParenKind::Self_(IdentSelf(ident.copied())))
                    } else {
                        None
                    }
                } else if ident.matches(bytes_super()) {
                    if alone {
                        Some(SomeVisibilityParenKind::Super(IdentSuper(ident.copied())))
                    } else {
                        None
                    }
                } else if ident.matches(bytes_in()) {
                    Some(SomeVisibilityParenKind::In(IdentIn(ident.copied())))
                } else {
                    None
                }
            },
            _ => None,
        }
    }
}

/// `(..)` after `pub`, and what it says.
pub struct SomeVisibilityParen {
    pub group: GroupParen,
    pub kind: SomeVisibilityParenKind,
}

/// `pub`, with `(..)` after it or not.
pub struct SomeVisibility {
    pub pub_token: IdentPub,
    pub paren: Option<SomeVisibilityParen>,
}

/// The next token is `pub`.
pub open spec fn starts_with_pub(st: StreamState) -> bool {
    st.toks.len() > 0 && is_ident_named(st.toks[0], kw_pub())
}

/// A visibility follows `pub`: a group that `vis_paren_kind` reads.
pub open spec fn vis_paren_follows(st: StreamState) -> bool {
    st.toks.len() > 1 && (st.toks[1] matches TokenTree::Group(g) && vis_paren_kind(g) is Some)
}

/// Where the stream stands after an optional visibility.
pub open spec fn after_vis(st: StreamState) -> StreamState {
    if starts_with_pub(st) {
        if vis_paren_follows(st) {
            take_n(st, 2)
        } else {
            take_n(st, 1)
        }
    } else {
        st
    }
}

/// `v` is the visibility read from `st`.
pub open spec fn vis_matches(v: Option<SomeVisibility>, st: StreamState) -> bool {
    if starts_with_pub(st) {
        v matches Some(sv) && TokenTree::Ident(sv.pub_token.0) == st.toks[0] && if vis_paren_follows(
            st,
        ) {
            sv.paren matches Some(p) && TokenTree::Group(p.group.0) == st.toks[1] && paren_kind_of(
                p.kind,
                p.group.0,
            )
        } else {
            sv.paren is None
        }
    } else {
        v is None
    }
}

impl ParsingTokenStream {
    /// Reads an optional visibility: `pub`, then `(crate)`, `(self)`,
    /// `(super)` or `(in ..)` if one follows.
    pub fn parse_vis(&mut self) -> (r: Option<SomeVisibility>)
        ensures
            vis_matches(r, old(self).state()),
            final(self).state() == after_vis(old(self).state()),
    {
        let is_pub = match self.first() {
            Some(t) => t.is_ident_named(bytes_pub()),
            None => false,
        };
        if !is_pub {
            return None;
        }
        let pub_token = match self.next() {
            Some(TokenTree::Ident(i)) => IdentPub(i),
            _ => {
                proof {
                    assert(false);
                }
                return None;
            },
        };
        let kind = match self.first() {
            Some(TokenTree::Group(g)) => SomeVisibilityParenKind::try_parse(g),
            _ => None,
        };
        proof {
            if old(self).s@.len() >= 2 {
                lemma_take_n_twice(old(self).state(), 1, 1);
            }
        }
        let paren = match kind {
            Some(kind) => match self.next() {
                Some(TokenTree::Group(g)) => Some(SomeVisibilityParen { group: GroupParen(g), kind }),
                _ => {
                    proof {
                        assert(false);
                    }
                    None
                },
            },
            None => None,
        };
        Some(SomeVisibility { pub_token, paren })
    }
}

/// `#` and the token after it: an outer attribute.
pub struct OuterAttr {
    pub pound: PunctPound,
    pub meta: TokenTree,
}

/// Where a run of outer attributes starting at `i` ends: after the last
/// `#` and the token after it; `None` when a `#` ends the input.
pub open spec fn attrs_end(toks: Seq<TokenTree>, i: int) -> Option<int>
    decreases toks.len() - i,
{
    if 0 <= i < toks.len() && is_punct(toks[i], '#') {
        if i + 1 < toks.len() {
            attrs_end(toks, i + 2)
        } else {
            None
        }
    } else {
        Some(i)
    }
}

/// The attributes are the pairs of tokens `toks[i..i + 2 * attrs.len()]`.
pub open spec fn attrs_from(attrs: Seq<OuterAttr>, toks: Seq<TokenTree>, i: int) -> bool {
    &&& i + 2 * attrs.len() <= toks.len()
    &&& forall|k: int|
        0 <= k < attrs.len() ==> TokenTree::Punct((#[trigger] attrs[k]).pound.0) == toks[i + 2 * k]
            && attrs[k].meta == toks[i + 2 * k + 1]
}

/// The number of whole attributes from `i`, those read before any error.
pub open spec fn attrs_count(toks: Seq<TokenTree>, i: int) -> int
    decreases toks.len() - i,
{
    if 0 <= i < toks.len() && is_punct(toks[i], '#') && i + 1 < toks.len() {
        1 + attrs_count(toks, i + 2)
    } else {
        0
    }
}

proof fn lemma_attrs_end(toks: Seq<TokenTree>, i: int)
    requires
        0 <= i <= toks.len(),
    ensures
        0 <= attrs_count(toks, i),
        i + 2 * attrs_count(toks, i) <= toks.len(),
        attrs_end(toks, i) matches Some(e) ==> e == i + 2 * attrs_count(toks, i),
        attrs_end(toks, i) is None ==> i + 2 * attrs_count(toks, i) == toks.len() - 1 && is_punct(
            toks[toks.len() - 1],
            '#',
        ),
    decreases toks.len() - i,
{
    if i < toks.len() && is_punct(toks[i], '#') && i + 1 < toks.len() {
        lemma_attrs_end(toks, i + 2);
    }
}

impl ParsingTokenStream {
    /// Reads outer attributes, `#` and the token after it, while a `#`
    /// comes next; they are added to `out` as they are read.
    pub fn parse_outer_attrs(&mut self, out: &mut Vec<OuterAttr>) -> (r: Result<(), ParseError>)
        ensures
            ({
                let st = old(self).state();
                let n = attrs_count(st.toks, 0);
                &&& final(out)@.subrange(0, old(out)@.len() as int) == old(out)@
                &&& final(out)@.len() == old(out)@.len() + n
                &&& attrs_from(final(out)@.subrange(old(out)@.len() as int, final(out)@.len() as int), st.toks, 0)
                &&& match attrs_end(st.toks, 0) {
                    Some(e) => r is Ok && final(self).state() == take_n(st, e),
                    None => (r matches Err(er) && is_eof_after(er, Some(span_close_or_entire(st.toks[st.toks.len() - 1]))))
                        && final(self).state() == take_n(st, st.toks.len() as int),
                }
            }),
    {
        let ghost st = self.state();
        let ghost out0 = out@;
        let total = self.s.len();
        proof {
            lemma_attrs_end(st.toks, 0);
            assert(st.toks.subrange(0, st.toks.len() as int) =~= st.toks);
            assert(out@.subrange(0, out0.len() as int) =~= out0);
            assert(out@.subrange(out0.len() as int, out@.len() as int) =~= Seq::<OuterAttr>::empty());
        }
        let mut k: usize = 0;
        loop
            invariant
                st == old(self).state(),
                out0 == old(out)@,
                total == st.toks.len(),
                out@.len() == out0.len() + k,
                out@.subrange(0, out0.len() as int) == out0,
                attrs_from(out@.subrange(out0.len() as int, out@.len() as int), st.toks, 0),
                2 * k <= st.toks.len(),
                self.state() == take_n(st, 2 * k),
                attrs_end(st.toks, 2 * k as int) == attrs_end(st.toks, 0),
                attrs_count(st.toks, 0) == k + attrs_count(st.toks, 2 * k as int),
            decreases st.toks.len() - 2 * k,
        {
            proof {
                lemma_attrs_end(st.toks, 2 * k as int);
            }
            let is_pound = match self.first() {
                Some(t) => t.is_punct('#'),
                None => false,
            };
            if !is_pound {
                return Ok(());
            }
            let pound = match self.next() {
                Some(TokenTree::Punct(p)) => PunctPound(p),
                _ => {
                    proof {
                        assert(false);
                    }
                    return Ok(());
                },
            };
            proof {
                lemma_take_n_twice(st, 2 * k as int, 1);
            }
            let meta = match self.next_or_error() {
                Ok(t) => t,
                Err(e) => {
                    return Err(e);
                },
            };
            proof {
                lemma_take_n_twice(st, 2 * k as int + 1, 1);
            }
            let ghost before = out@;
            out.push(OuterAttr { pound, meta });
            k = k + 1;
            proof {
                let sub = out@.subrange(out0.len() as int, out@.len() as int);
                let sub_before = before.subrange(out0.len() as int, before.len() as int);
                assert(out@.subrange(0, out0.len() as int) =~= before.subrange(0, out0.len() as int));
                assert forall|j: int| 0 <= j < sub.len() implies TokenTree::Punct((#[trigger] sub[j]).pound.0)
                    == st.toks[2 * j] && sub[j].meta == st.toks[2 * j + 1] by {
                    if j < sub.len() - 1 {
                        assert(sub[j] == sub_before[j]);
                    }
                }
            }
        }
    }
}

/// The start of an item: its outer attributes, visibility and first word.
pub struct ParseItemStart {
    pub vis: Option<SomeVisibility>,
    pub first_ident: Ident,
}

/// Reads the start of an item: outer attributes, an optional visibility and
/// an identifier. The attributes read are handed back whatever the outcome.
pub fn parse_item_start(input: &mut ParsingTokenStream) -> (r: (Vec<OuterAttr>, Result<ParseItemStart, ParseError>))
    ensures
        ({
            let st = old(input).state();
            let n = attrs_count(st.toks, 0);
            &&& r.0@.len() == n
            &&& attrs_from(r.0@, st.toks, 0)
            &&& match attrs_end(st.toks, 0) {
                None => (r.1 matches Err(er) && is_eof_after(er, Some(span_close_or_entire(st.toks[st.toks.len() - 1]))))
                    && final(input).state() == take_n(st, st.toks.len() as int),
                Some(e) => {
                    let st1 = take_n(st, e);
                    let st2 = after_vis(st1);
                    if st2.toks.len() == 0 {
                        (r.1 matches Err(er) && is_eof_after(er, st2.prev)) && final(input).state() == st2
                    } else {
                        &&& final(input).state() == take_n(st2, 1)
                        &&& match st2.toks[0] {
                            TokenTree::Ident(i) => r.1 matches Ok(s) && vis_matches(s.vis, st1) && s.first_ident == i,
                            t => r.1 matches Err(er) && is_unexpected_at(er, span_open_or_entire(t)),
                        }
                    }
                },
            }
        }),
{
    let mut attrs: Vec<OuterAttr> = Vec::new();
    let res = input.parse_outer_attrs(&mut attrs);
    proof {
        assert(attrs@.subrange(0, attrs@.len() as int) =~= attrs@);
    }
    match res {
        Err(e) => {
            return (attrs, Err(e));
        },
        Ok(()) => {},
    }
    let vis = input.parse_vis();
    let first_ident = match input.parse_ident() {
        Ok(i) => i,
        Err(e) => {
            return (attrs, Err(e.into_parse_error()));
        },
    };
    (attrs, Ok(ParseItemStart { vis, first_ident }))
}

/// What follows the path of an attribute argument.
pub enum MetaAfterPath<AfterEq> {
    Empty,
    Group(Group),
    Eq { eq: PunctEq, before_comma_or_eof: AfterEq },
}

/// An attribute argument: a path and what follows it.
pub struct MetaSimple<AfterEq> {
    pub path: Ident,
    pub after_path: MetaAfterPath<AfterEq>,
}

/// `m` is what follows an attribute path in `st`, and `st2` where the
/// stream stands after it.
pub open spec fn meta_after_path_matches(m: MetaAfterPath<ConsumedTokens>, st: StreamState, st2: StreamState) -> bool {
    if st.toks.len() > 0 && st.toks[0] is Group {
        m matches MetaAfterPath::Group(g) && TokenTree::Group(g) == st.toks[0] && st2 == take_n(st, 1)
    } else if st.toks.len() > 0 && is_punct(st.toks[0], '=') {
        let st1 = take_n(st, 1);
        let n = comma_scan(st1.toks, 0);
        m matches MetaAfterPath::Eq { eq, before_comma_or_eof } && TokenTree::Punct(eq.0) == st.toks[0]
            && consumed_from(before_comma_or_eof, st1, n) && st2 == take_n(st1, n)
    } else {
        m is Empty && st2 == st
    }
}

/// Reads what follows an attribute path: a group, `=` and the tokens up to
/// a `,`, or nothing.
pub fn parse_meta_after_path(input: &mut ParsingTokenStream) -> (r: MetaAfterPath<ConsumedTokens>)
    ensures
        meta_after_path_matches(r, old(input).state(), final(input).state()),
{
    let kind: u8 = match input.first() {
        Some(TokenTree::Group(_)) => 0,
        Some(TokenTree::Punct(p)) => {
            if p.ch == '=' {
                1
            } else {
                2
            }
        },
        _ => 2,
    };
    if kind == 0 {
        match input.next() {
            Some(TokenTree::Group(g)) => MetaAfterPath::Group(g),
            _ => {
                proof {
                    assert(false);
                }
                MetaAfterPath::Empty
            },
        }
    } else if kind == 1 {
        match input.next() {
            Some(TokenTree::Punct(p)) => {
                let before_comma_or_eof = input.consume_before_comma();
                MetaAfterPath::Eq { eq: PunctEq(p), before_comma_or_eof }
            },
            _ => {
                proof {
                    assert(false);
                }
                MetaAfterPath::Empty
            },
        }
    } else {
        MetaAfterPath::Empty
    }
}

/// Reads an attribute argument: an identifier and what follows it.
pub fn parse_meta_simple(input: &mut ParsingTokenStream) -> (r: Result<MetaSimple<ConsumedTokens>, ParseError>)
    ensures
        ({
            let st = old(input).state();
            if st.toks.len() == 0 {
                (r matches Err(e) && is_eof_after(e, st.prev)) && final(input).state() == st
            } else {
                match st.toks[0] {
                    TokenTree::Ident(i) => r matches Ok(m) && m.path == i && meta_after_path_matches(
                        m.after_path,
                        take_n(st, 1),
                        final(input).state(),
                    ),
                    t => (r matches Err(e) && is_unexpected_at(e, span_open_or_entire(t)))
                        && final(input).state() == take_n(st, 1),
                }
            }
        }),
{
    let path = match input.parse_ident() {
        Ok(i) => i,
        Err(e) => {
            return Err(e.into_parse_error());
        },
    };
    let after_path = parse_meta_after_path(input);
    Ok(MetaSimple { path, after_path })
}

/// The tokens with `punct` added at the end, unless they are empty or
/// already end with it.
pub fn with_trailing_punct_if_not_empty(ts: Vec<TokenTree>, punct: char) -> (r: Vec<TokenTree>)
    ensures
        ts@.len() == 0 || is_punct(ts@.last(), punct) ==> r@ == ts@,
        ts@.len() > 0 && !is_punct(ts@.last(), punct) ==> r@ == ts@.push(
            TokenTree::Punct(Punct { ch: punct, spacing: Spacing::Alone, span: Span(0) }),
        ),
{
    let mut ts = ts;
    let add = if ts.len() > 0 {
        !ts[ts.len() - 1].is_punct(punct)
    } else {
        false
    };
    if add {
        ts.push(TokenTree::Punct(Punct { ch: punct, spacing: Spacing::Alone, span: Span::call_site() }));
    }
    ts
}

/// What goes wrong in generic parameters.
pub enum GenericsError {
    /// A token that cannot stand there, at where it starts.
    Unexpected(Span),
    /// The end of the input, after a place.
    Eof(Option<Span>),
}

/// The `,` after a parameter: the next token when it is one, else a new one
/// at the place of the macro call.
pub open spec fn comma_or_new(st: StreamState) -> (TokenView, StreamState) {
    if st.toks.len() > 0 && is_punct(st.toks[0], ',') {
        (tt_view(st.toks[0]), take_n(st, 1))
    } else {
        (TokenView::Punct(Punct { ch: ',', spacing: Spacing::Alone, span: Span(0) }), st)
    }
}

/// What follows the name of a generic parameter: its bounds (kept for the
/// impl side), its default (dropped) and its `,` (kept on both sides).
pub open spec fn param_rest(st: StreamState, imp: Seq<TokenView>, ty: Seq<TokenView>) -> (StreamState, Seq<TokenView>, Seq<TokenView>) {
    let b = if st.toks.len() > 0 && is_punct(st.toks[0], ':') {
        generics_scan(st.toks, 0, 0, true)
    } else {
        0
    };
    let st_b = take_n(st, b);
    let imp_b = imp + tts_view(st.toks.subrange(0, b));
    let d = generics_scan(st_b.toks, 0, 0, false);
    let st_d = take_n(st_b, d);
    let c = comma_or_new(st_d);
    (c.1, imp_b.push(c.0), ty.push(c.0))
}

pub proof fn lemma_param_rest_len(st: StreamState, imp: Seq<TokenView>, ty: Seq<TokenView>)
    ensures
        param_rest(st, imp, ty).0.toks.len() <= st.toks.len(),
{
    lemma_generics_scan_bounds(st.toks, 0, 0, true);
    let b = if st.toks.len() > 0 && is_punct(st.toks[0], ':') {
        generics_scan(st.toks, 0, 0, true)
    } else {
        0
    };
    let st_b = take_n(st, b);
    lemma_generics_scan_bounds(st_b.toks, 0, 0, false);
}

/// The generic parameters after `<`, up to and with the closing `>`: the
/// tokens of the impl side and of the type side gathered so far, and the
/// outcome with where the stream stands.
pub open spec fn generics_params(st: StreamState, imp: Seq<TokenView>, ty: Seq<TokenView>) -> (Result<(Seq<TokenView>, Seq<TokenView>), GenericsError>, StreamState)
    decreases st.toks.len(),
{
    if st.toks.len() == 0 {
        (Err(GenericsError::Eof(st.prev)), st)
    } else {
        let t = st.toks[0];
        let st1 = take_n(st, 1);
        match t {
            TokenTree::Punct(p) => {
                if p.ch == '>' {
                    (Ok((imp, ty)), st1)
                } else if p.spacing == Spacing::Joint && p.ch == '\'' {
                    if st1.toks.len() == 0 {
                        (Err(GenericsError::Eof(st1.prev)), st1)
                    } else {
                        let n = st1.toks[0];
                        let st2 = take_n(st1, 1);
                        match n {
                            TokenTree::Ident(_) => {
                                let lt = seq![tt_view(t), tt_view(n)];
                                let rest = param_rest(st2, imp + lt, ty + lt);
                                proof {
                                    lemma_param_rest_len(st2, imp + lt, ty + lt);
                                }
                                generics_params(rest.0, rest.1, rest.2)
                            },
                            _ => (Err(GenericsError::Unexpected(span_open_or_entire(n))), st2),
                        }
                    }
                } else {
                    (Err(GenericsError::Unexpected(p.span)), st1)
                }
            },
            TokenTree::Ident(i) => {
                if i.name@ == kw_const() {
                    if st1.toks.len() == 0 {
                        (Err(GenericsError::Eof(st1.prev)), st1)
                    } else {
                        let n = st1.toks[0];
                        let st2 = take_n(st1, 1);
                        match n {
                            TokenTree::Ident(_) => {
                                let rest = param_rest(
                                    st2,
                                    imp + seq![tt_view(t), tt_view(n)],
                                    ty.push(tt_view(n)),
                                );
                                proof {
                                    lemma_param_rest_len(
                                        st2,
                                        imp + seq![tt_view(t), tt_view(n)],
                                        ty.push(tt_view(n)),
                                    );
                                }
                                generics_params(rest.0, rest.1, rest.2)
                            },
                            _ => (Err(GenericsError::Unexpected(span_open_or_entire(n))), st2),
                        }
                    }
                } else {
                    let rest = param_rest(st1, imp.push(tt_view(t)), ty.push(tt_view(t)));
                    proof {
                        lemma_param_rest_len(st1, imp.push(tt_view(t)), ty.push(tt_view(t)));
                    }
                    generics_params(rest.0, rest.1, rest.2)
                }
            },
            _ => (Err(GenericsError::Unexpected(span_open_or_entire(t))), st1),
        }
    }
}

/// `r` is the error `e`.
pub open spec fn is_generics_error<T>(r: Result<T, ParseError>, e: GenericsError) -> bool {
    match e {
        GenericsError::Unexpected(sp) => r matches Err(er) && is_unexpected_at(er, sp),
        GenericsError::Eof(a) => r matches Err(er) && is_eof_after(er, a),
    }
}

/// The parameters of generics without `<` and `>`, each followed by `,`:
/// with their bounds for an impl header, and without them for a type.
pub struct ParseGenericsOutput {
    pub impl_generics: Vec<TokenTree>,
    pub ty_generics: Vec<TokenTree>,
}

impl ParsingTokenStream {
    /// Takes the tokens after the name of a generic parameter: its bounds,
    /// which go to `imp`, its default, which is dropped, and its `,`, which
    /// goes to both sides.
    fn parse_param_rest(&mut self, imp: &mut Vec<TokenTree>, ty: &mut Vec<TokenTree>)
        ensures
            ({
                let rest = param_rest(old(self).state(), tts_view(old(imp)@), tts_view(old(ty)@));
                &&& final(self).state() == rest.0
                &&& tts_view(final(imp)@) == rest.1
                &&& tts_view(final(ty)@) == rest.2
            }),
            final(self).s@.len() <= old(self).s@.len(),
    {
        proof {
            lemma_param_rest_len(self.state(), tts_view(imp@), tts_view(ty@));
        }
        let is_colon = match self.first() {
            Some(t) => t.is_punct(':'),
            None => false,
        };
        let ghost st = self.state();
        if is_colon {
            let bounds = self.parse_in_generics_before_punct(true);
            let mut b = bounds.tokens;
            proof {
                lemma_tts_view_add(imp@, b@);
            }
            imp.append(&mut b);
        } else {
            proof {
                assert(st.toks.subrange(0, 0) =~= Seq::<TokenTree>::empty());
                assert(imp@ + Seq::<TokenTree>::empty() =~= imp@);
                assert(tts_view(Seq::<TokenTree>::empty()) =~= Seq::<TokenView>::empty());
                assert(tts_view(imp@) + tts_view(Seq::<TokenTree>::empty()) =~= tts_view(imp@));
                assert(st.toks.subrange(0, st.toks.len() as int) =~= st.toks);
            }
        }
        let _default = self.parse_in_generics_before_punct(false);
        let is_comma = match self.first() {
            Some(t) => t.is_punct(','),
            None => false,
        };
        let comma = if is_comma {
            match self.next() {
                Some(TokenTree::Punct(p)) => p,
                _ => {
                    proof {
                        assert(false);
                    }
                    Punct { ch: ',', spacing: Spacing::Alone, span: Span::call_site() }
                },
            }
        } else {
            Punct { ch: ',', spacing: Spacing::Alone, span: Span::call_site() }
        };
        proof {
            lemma_tts_view_push(imp@, TokenTree::Punct(comma));
            lemma_tts_view_push(ty@, TokenTree::Punct(comma));
        }
        imp.push(TokenTree::Punct(comma));
        ty.push(TokenTree::Punct(comma));
    }

    /// Reads optional generics: `<`, parameters (lifetimes, types and
    /// constants, each with optional bounds and default) and `>`.
    pub fn parse_generics(&mut self) -> (r: Result<ParseGenericsOutput, ParseError>)
        ensures
            ({
                let st = old(self).state();
                if st.toks.len() > 0 && is_punct(st.toks[0], '<') {
                    let res = generics_params(take_n(st, 1), Seq::empty(), Seq::empty());
                    &&& final(self).state() == res.1
                    &&& match res.0 {
                        Ok((imp, ty)) => r matches Ok(o) && tts_view(o.impl_generics@) == imp
                            && tts_view(o.ty_generics@) == ty,
                        Err(e) => is_generics_error(r, e),
                    }
                } else {
                    &&& r matches Ok(o) && o.impl_generics@.len() == 0 && o.ty_generics@.len() == 0
                    &&& final(self).state() == st
                }
            }),
    {
        let is_lt = match self.first() {
            Some(t) => t.is_punct('<'),
            None => false,
        };
        if !is_lt {
            return Ok(ParseGenericsOutput { impl_generics: Vec::new(), ty_generics: Vec::new() });
        }
        let _lt = self.next();
        let mut imp: Vec<TokenTree> = Vec::new();
        let mut ty: Vec<TokenTree> = Vec::new();
        let ghost target = generics_params(self.state(), Seq::empty(), Seq::empty());
        proof {
            assert(tts_view(imp@) =~= Seq::<TokenView>::empty());
            assert(tts_view(ty@) =~= Seq::<TokenView>::empty());
        }
        loop
            invariant
                generics_params(self.state(), tts_view(imp@), tts_view(ty@)) == target,
                target == generics_params(take_n(old(self).state(), 1), Seq::empty(), Seq::empty()),
                old(self).s@.len() > 0 && is_punct(old(self).s@[0], '<'),
            decreases self.s@.len(),
        {
            let t = match self.next() {
                Some(t) => t,
                None => {
                    return Err(ParseError::unexpected_eof_after(self.prev_span));
                },
            };
            match t {
                TokenTree::Punct(p) => {
                    if p.ch == '>' {
                        return Ok(ParseGenericsOutput { impl_generics: imp, ty_generics: ty });
                    } else if p.spacing == Spacing::Joint && p.ch == '\'' {
                        let name = match self.parse_ident() {
                            Ok(n) => n,
                            Err(e) => {
                                return Err(e.into_parse_error());
                            },
                        };
                        let name2 = name.copied();
                        let ghost imp0 = imp@;
                        let ghost ty0 = ty@;
                        let ghost nm = name;
                        proof {
                            lemma_tts_view_push(imp@, TokenTree::Punct(p));
                            lemma_tts_view_push(imp@.push(TokenTree::Punct(p)), TokenTree::Ident(name2));
                            lemma_tts_view_push(ty@, TokenTree::Punct(p));
                            lemma_tts_view_push(ty@.push(TokenTree::Punct(p)), TokenTree::Ident(name));
                        }
                        imp.push(TokenTree::Punct(p));
                        imp.push(TokenTree::Ident(name2));
                        ty.push(TokenTree::Punct(p));
                        ty.push(TokenTree::Ident(name));
                        proof {
                            let lt = seq![tt_view(TokenTree::Punct(p)), tt_view(TokenTree::Ident(nm))];
                            assert(tts_view(imp@) =~= tts_view(imp0) + lt);
                            assert(tts_view(ty@) =~= tts_view(ty0) + lt);
                        }
                    } else {
                        return Err(
                            ParseError(ParseErrorKind::UnexpectedToken { span: p.span }, Vec::new()),
                        );
                    }
                },
                TokenTree::Ident(id) => {
                    if id.matches(bytes_const()) {
                        let name = match self.parse_ident() {
                            Ok(n) => n,
                            Err(e) => {
                                return Err(e.into_parse_error());
                            },
                        };
                        let name2 = name.copied();
                        let ghost imp0 = imp@;
                        let ghost nm = name;
                        let ghost idg = id;
                        proof {
                            lemma_tts_view_push(imp@, TokenTree::Ident(id));
                            lemma_tts_view_push(imp@.push(TokenTree::Ident(id)), TokenTree::Ident(name2));
                            lemma_tts_view_push(ty@, TokenTree::Ident(name));
                        }
                        imp.push(TokenTree::Ident(id));
                        imp.push(TokenTree::Ident(name2));
                        ty.push(TokenTree::Ident(name));
                        proof {
                            let cn = seq![tt_view(TokenTree::Ident(idg)), tt_view(TokenTree::Ident(nm))];
                            assert(tts_view(imp@) =~= tts_view(imp0) + cn);
                        }
                    } else {
                        let id2 = id.copied();
                        proof {
                            lemma_tts_view_push(imp@, TokenTree::Ident(id2));
                            lemma_tts_view_push(ty@, TokenTree::Ident(id));
                        }
                        imp.push(TokenTree::Ident(id2));
                        ty.push(TokenTree::Ident(id));
                    }
                },
                other => {
                    return Err(
                        ParseError(
                            ParseErrorKind::UnexpectedToken { span: other.span_open_or_entire() },
                            Vec::new(),
                        ),
                    );
                },
            }
            self.parse_param_rest(&mut imp, &mut ty);
        }
    }
}

/// An error as plain values.
pub enum ErrSpec {
    Custom(Seq<char>, Option<Span>),
    Eof(Option<Span>),
    Unexpected(Span),
}

/// The error is the one described.
pub open spec fn err_is(e: ParseError, s: ErrSpec) -> bool {
    match s {
        ErrSpec::Custom(msg, span) => is_custom(e, msg, span),
        ErrSpec::Eof(after) => is_eof_after(e, after),
        ErrSpec::Unexpected(span) => is_unexpected_at(e, span),
    }
}

/// What reading one field, or one variant, from a state gives.
pub enum FieldStep {
    /// It ended in an error before it was whole; where the stream stands.
    Failed(ErrSpec, StreamState),
    /// It was read: the states before it, after its attributes, after its
    /// visibility, after its name, the length of what follows the name,
    /// the state after that, whether a `,` ends it, an error found after
    /// it, and where the stream stands.
    Read {
        st: StreamState,
        st_a: StreamState,
        st_v: StreamState,
        st_c: StreamState,
        ty_n: int,
        st_t: StreamState,
        comma: bool,
        err: Option<ErrSpec>,
        end: StreamState,
    },
}

/// What follows the type of a field or the body of a variant: a `,`, the
/// end, or an error at the next token.
pub open spec fn step_end(
    st: StreamState,
    st_a: StreamState,
    st_v: StreamState,
    st_c: StreamState,
    ty_n: int,
    st_t: StreamState,
) -> FieldStep {
    if st_t.toks.len() > 0 && is_punct(st_t.toks[0], ',') {
        FieldStep::Read { st, st_a, st_v, st_c, ty_n, st_t, comma: true, err: None, end: take_n(st_t, 1) }
    } else if st_t.toks.len() > 0 {
        FieldStep::Read {
            st,
            st_a,
            st_v,
            st_c,
            ty_n,
            st_t,
            comma: false,
            err: Some(ErrSpec::Custom("expect eof or `,`"@, Some(span_open_or_entire(st_t.toks[0])))),
            end: st_t,
        }
    } else {
        FieldStep::Read { st, st_a, st_v, st_c, ty_n, st_t, comma: false, err: None, end: st_t }
    }
}

/// Reading one field: outer attributes, an optional visibility, for a named
/// field its name and `:`, then its type up to a `,` outside `<`..`>`.
pub open spec fn field_step(st: StreamState, named: bool) -> FieldStep {
    match attrs_end(st.toks, 0) {
        None => FieldStep::Failed(
            ErrSpec::Eof(Some(span_close_or_entire(st.toks[st.toks.len() - 1]))),
            take_n(st, st.toks.len() as int),
        ),
        Some(e) => {
            let st_a = take_n(st, e);
            let st_v = after_vis(st_a);
            if named {
                if st_v.toks.len() == 0 {
                    FieldStep::Failed(ErrSpec::Eof(st_v.prev), st_v)
                } else {
                    match st_v.toks[0] {
                        TokenTree::Ident(name) => {
                            let st_n = take_n(st_v, 1);
                            if st_n.toks.len() > 0 && (st_n.toks[0] matches TokenTree::Punct(p)
                                && p.spacing == Spacing::Alone && p.ch == ':') {
                                let st_c = take_n(st_n, 1);
                                let n = generics_scan(st_c.toks, 0, 0, false);
                                step_end(st, st_a, st_v, st_c, n, take_n(st_c, n))
                            } else if st_n.toks.len() > 0 {
                                FieldStep::Failed(
                                    ErrSpec::Custom(
                                        "expect `:`"@,
                                        Some(span_open_or_entire(st_n.toks[0])),
                                    ),
                                    take_n(st_n, 1),
                                )
                            } else {
                                FieldStep::Failed(ErrSpec::Custom("expect `:`"@, Some(name.span)), st_n)
                            }
                        },
                        t => FieldStep::Failed(
                            ErrSpec::Unexpected(span_open_or_entire(t)),
                            take_n(st_v, 1),
                        ),
                    }
                }
            } else {
                let n = generics_scan(st_v.toks, 0, 0, false);
                step_end(st, st_a, st_v, st_v, n, take_n(st_v, n))
            }
        },
    }
}

/// A step that reads a whole field with no error after it takes at least
/// one token.
pub proof fn lemma_field_step_progress(st: StreamState, named: bool)
    requires
        st.toks.len() > 0,
    ensures
        match field_step(st, named) {
            FieldStep::Read { err, end, .. } => end.toks.len() <= st.toks.len() && (err is None
                ==> end.toks.len() < st.toks.len()),
            FieldStep::Failed(_, end) => end.toks.len() <= st.toks.len(),
        },
{
    lemma_attrs_end(st.toks, 0);
    match attrs_end(st.toks, 0) {
        None => {},
        Some(e) => {
            let st_a = take_n(st, e);
            let st_v = after_vis(st_a);
            if named {
                if st_v.toks.len() > 1 {
                    let st_c = take_n(take_n(st_v, 1), 1);
                    lemma_generics_scan_bounds(st_c.toks, 0, 0, false);
                }
            } else {
                lemma_generics_scan_bounds(st_v.toks, 0, 0, false);
                let n = generics_scan(st_v.toks, 0, 0, false);
                if n == 0 && st_v.toks.len() > 0 {
                    assert(st_v.toks.subrange(0, st_v.toks.len() as int) =~= st_v.toks);
                }
            }
        },
    }
}

/// Reading fields while input is left: the steps that read a field, the
/// error that ended the reading, if any, and where the stream stands.
pub open spec fn fields_spec(st: StreamState, named: bool) -> (Seq<FieldStep>, Option<ErrSpec>, StreamState)
    decreases st.toks.len(),
{
    if st.toks.len() == 0 {
        (Seq::empty(), None, st)
    } else {
        match field_step(st, named) {
            FieldStep::Failed(e, st2) => (Seq::empty(), Some(e), st2),
            FieldStep::Read { err, end, .. } => {
                if err is Some {
                    (seq![field_step(st, named)], err, end)
                } else {
                    proof {
                        lemma_field_step_progress(st, named);
                    }
                    let rest = fields_spec(end, named);
                    (seq![field_step(st, named)] + rest.0, rest.1, rest.2)
                }
            },
        }
    }
}

/// Where reading fields stops at a field that cannot be read whole: the
/// state that field starts from; `None` when no such field comes.
pub open spec fn fields_failed_at(st: StreamState, named: bool) -> Option<StreamState>
    decreases st.toks.len(),
{
    if st.toks.len() == 0 {
        None
    } else {
        match field_step(st, named) {
            FieldStep::Failed(_, _) => Some(st),
            FieldStep::Read { err, end, .. } => if err is Some {
                None
            } else {
                proof {
                    lemma_field_step_progress(st, named);
                }
                fields_failed_at(end, named)
            },
        }
    }
}

/// `attrs` are the whole outer attributes at the start of the state where
/// the reading stopped at a field or variant that cannot be read whole, and
/// none when it did not.
pub open spec fn failed_attrs_ok(attrs: Seq<OuterAttr>, at: Option<StreamState>) -> bool {
    match at {
        Some(st) => attrs.len() == attrs_count(st.toks, 0) && attrs_from(attrs, st.toks, 0),
        None => attrs.len() == 0,
    }
}

/// A field of a struct: its attributes, visibility, name and `:` when it
/// has a name, type and the `,` after it.
pub struct ParsedField {
    pub attrs: Vec<OuterAttr>,
    pub vis: Option<SomeVisibility>,
    pub name_colon: Option<(Ident, PunctColon)>,
    pub ty: Vec<TokenTree>,
    pub comma: Option<PunctComma>,
}

/// `f` is the field that `step` read.
pub open spec fn field_matches(f: ParsedField, step: FieldStep, named: bool) -> bool {
    match step {
        FieldStep::Read { st, st_a, st_v, st_c, ty_n, st_t, comma, .. } => {
            &&& f.attrs@.len() == attrs_count(st.toks, 0)
            &&& attrs_from(f.attrs@, st.toks, 0)
            &&& vis_matches(f.vis, st_a)
            &&& if named {
                f.name_colon matches Some((nm, c)) && TokenTree::Ident(nm) == st_v.toks[0]
                    && TokenTree::Punct(c.0) == st_v.toks[1]
            } else {
                f.name_colon is None
            }
            &&& f.ty@ == st_c.toks.subrange(0, ty_n)
            &&& if comma {
                f.comma matches Some(c) && TokenTree::Punct(c.0) == st_t.toks[0]
            } else {
                f.comma is None
            }
        },
        FieldStep::Failed(_, _) => false,
    }
}

/// The fields are those that the steps read, in order.
pub open spec fn fields_match(fs: Seq<ParsedField>, steps: Seq<FieldStep>, named: bool) -> bool {
    &&& fs.len() == steps.len()
    &&& forall|k: int| 0 <= k < fs.len() ==> field_matches(#[trigger] fs[k], steps[k], named)
}

/// `r` is the outcome described.
pub open spec fn outcome_is(r: Result<(), ParseError>, e: Option<ErrSpec>) -> bool {
    match e {
        None => r is Ok,
        Some(es) => r matches Err(er) && err_is(er, es),
    }
}

impl ParsingTokenStream {
    /// Reads one field.
    fn parse_field(&mut self, named: bool) -> (r: (Option<ParsedField>, Option<ParseError>, Vec<OuterAttr>))
        ensures
            match field_step(old(self).state(), named) {
                FieldStep::Failed(e, st2) => r.0 is None && (r.1 matches Some(er) && err_is(er, e))
                    && final(self).state() == st2 && failed_attrs_ok(r.2@, Some(old(self).state())),
                FieldStep::Read { err, end, .. } => (r.0 matches Some(f) && field_matches(
                    f,
                    field_step(old(self).state(), named),
                    named,
                )) && match err {
                    None => r.1 is None,
                    Some(es) => r.1 matches Some(er) && err_is(er, es),
                } && final(self).state() == end && r.2@.len() == 0,
            },
    {
        let ghost st = self.state();
        let mut attrs: Vec<OuterAttr> = Vec::new();
        match self.parse_outer_attrs(&mut attrs) {
            Err(e) => {
                proof {
                    assert(attrs@.subrange(0, attrs@.len() as int) =~= attrs@);
                }
                return (None, Some(e), attrs);
            },
            Ok(()) => {},
        }
        proof {
            assert(attrs@.subrange(0, attrs@.len() as int) =~= attrs@);
        }
        let vis = self.parse_vis();
        let name_colon = if named {
            let name = match self.parse_ident() {
                Ok(i) => i,
                Err(e) => {
                    return (None, Some(e.into_parse_error()), attrs);
                },
            };
            let name_span = name.span;
            let colon = match self.next() {
                Some(TokenTree::Punct(p)) => {
                    if p.spacing == Spacing::Alone && p.ch == ':' {
                        PunctColon(p)
                    } else {
                        return (None, Some(ParseError::custom("expect `:`", Some(p.span))), attrs);
                    }
                },
                Some(t) => {
                    return (
                        None,
                        Some(ParseError::custom("expect `:`", Some(t.span_open_or_entire()))),
                        attrs,
                    );
                },
                None => {
                    return (None, Some(ParseError::custom("expect `:`", Some(name_span))), attrs);
                },
            };
            Some((name, colon))
        } else {
            None
        };
        let ty = self.parse_in_generics_before_punct(false);
        let kind: u8 = match self.first() {
            Some(t) => {
                if t.is_punct(',') {
                    0
                } else {
                    1
                }
            },
            None => 2,
        };
        let mut err = None;
        let comma = if kind == 0 {
            match self.next() {
                Some(TokenTree::Punct(p)) => Some(PunctComma(p)),
                _ => {
                    proof {
                        assert(false);
                    }
                    None
                },
            }
        } else if kind == 1 {
            let span = match self.first() {
                Some(t) => t.span_open_or_entire(),
                None => Span::call_site(),
            };
            err = Some(ParseError::custom("expect eof or `,`", Some(span)));
            None
        } else {
            None
        };
        (Some(ParsedField { attrs, vis, name_colon, ty: ty.tokens, comma }), err, Vec::new())
    }

    /// Reads fields until the input ends or an error comes; the fields
    /// read are handed back whatever the outcome.
    fn parse_into_field(self, named: bool) -> (r: (Vec<ParsedField>, Result<(), ParseError>, Vec<OuterAttr>))
        ensures
            ({
                let res = fields_spec(self.state(), named);
                fields_match(r.0@, res.0, named) && outcome_is(r.1, res.1)
            }),
            failed_attrs_ok(r.2@, fields_failed_at(self.state(), named)),
    {
        let mut input = self;
        let mut out: Vec<ParsedField> = Vec::new();
        let ghost target = fields_spec(input.state(), named);
        let ghost done: Seq<FieldStep> = Seq::empty();
        while !input.is_empty()
            invariant
                target == fields_spec(self.state(), named),
                fields_failed_at(self.state(), named) == fields_failed_at(input.state(), named),
                fields_match(out@, done, named),
                ({
                    let rest = fields_spec(input.state(), named);
                    &&& target.0 == done + rest.0
                    &&& target.1 == rest.1
                }),
            decreases input.s@.len(),
        {
            let ghost st = input.state();
            proof {
                lemma_field_step_progress(st, named);
            }
            let (f, err, failed_attrs) = input.parse_field(named);
            match f {
                None => {
                    proof {
                        assert(done + Seq::<FieldStep>::empty() =~= done);
                    }
                    return (out, Err(err.unwrap()), failed_attrs);
                },
                Some(f) => {
                    let ghost step = field_step(st, named);
                    let ghost out0 = out@;
                    out.push(f);
                    proof {
                        assert forall|k: int| 0 <= k < out@.len() implies field_matches(
                            #[trigger] out@[k],
                            (done.push(step))[k],
                            named,
                        ) by {
                            if k < out0.len() {
                                assert(out@[k] == out0[k]);
                            }
                        }
                        done = done.push(step);
                    }
                    match err {
                        Some(e) => {
                            proof {
                                assert(target.0 =~= done);
                            }
                            return (out, Err(e), Vec::new());
                        },
                        None => {
                            proof {
                                assert(target.0 =~= done + fields_spec(input.state(), named).0);
                            }
                        },
                    }
                },
            }
        }
        proof {
            assert(target.0 =~= done);
        }
        (out, Ok(()), Vec::new())
    }

    /// Reads the fields of a tuple struct: attributes, visibility and type,
    /// each followed by `,` but the last. The fields read are handed back
    /// whatever the outcome, and the outer attributes read of a field that
    /// could not be read whole.
    pub fn parse_into_unnamed_fields(self) -> (r: (Vec<ParsedField>, Result<(), ParseError>, Vec<OuterAttr>))
        ensures
            ({
                let res = fields_spec(self.state(), false);
                fields_match(r.0@, res.0, false) && outcome_is(r.1, res.1)
            }),
            failed_attrs_ok(r.2@, fields_failed_at(self.state(), false)),
    {
        self.parse_into_field(false)
    }

    /// Reads the fields of a struct with named fields: attributes,
    /// visibility, name, `:` and type, each followed by `,` but the last.
    /// The fields read are handed back whatever the outcome, and the outer
    /// attributes read of a field that could not be read whole.
    pub fn parse_into_named_fields(self) -> (r: (Vec<ParsedField>, Result<(), ParseError>, Vec<OuterAttr>))
        ensures
            ({
                let res = fields_spec(self.state(), true);
                fields_match(r.0@, res.0, true) && outcome_is(r.1, res.1)
            }),
            failed_attrs_ok(r.2@, fields_failed_at(self.state(), true)),
    {
        self.parse_into_field(true)
    }
}

/// The body of an enum variant.
pub enum EnumVariantBody {
    Unit,
    Paren(GroupParen),
    Brace(GroupBrace),
}

/// An enum variant: its visibility, name, body and discriminant.
pub struct EnumVariant {
    pub vis: Option<SomeVisibility>,
    pub name: Ident,
    pub body: EnumVariantBody,
    pub discriminant: Option<crate::syn_generic::parse_meta_utils::EqValue<Vec<TokenTree>>>,
}

/// An enum variant with its attributes and the `,` after it.
pub struct ParsedVariant {
    pub attrs: Vec<OuterAttr>,
    pub variant: EnumVariant,
    pub comma: Option<PunctComma>,
}

/// Where the stream stands after a variant body: a `(..)` or `{..}` group
/// if one comes next.
pub open spec fn after_body(st: StreamState) -> StreamState {
    if st.toks.len() > 0 && (is_group_in(st.toks[0], Delimiter::Parenthesis) || is_group_in(
        st.toks[0],
        Delimiter::Brace,
    )) {
        take_n(st, 1)
    } else {
        st
    }
}

/// Where the stream stands after an optional `= discriminant`: `=` and the
/// tokens up to a `,`.
pub open spec fn after_discriminant(st: StreamState) -> StreamState {
    if st.toks.len() > 0 && is_punct(st.toks[0], '=') {
        let st1 = take_n(st, 1);
        take_n(st1, comma_scan(st1.toks, 0))
    } else {
        st
    }
}

/// Reading one enum variant: outer attributes, an optional visibility, its
/// name, an optional body and an optional discriminant.
pub open spec fn variant_step(st: StreamState) -> FieldStep {
    match attrs_end(st.toks, 0) {
        None => FieldStep::Failed(
            ErrSpec::Eof(Some(span_close_or_entire(st.toks[st.toks.len() - 1]))),
            take_n(st, st.toks.len() as int),
        ),
        Some(e) => {
            let st_a = take_n(st, e);
            let st_v = after_vis(st_a);
            if st_v.toks.len() == 0 {
                FieldStep::Failed(ErrSpec::Eof(st_v.prev), st_v)
            } else {
                match st_v.toks[0] {
                    TokenTree::Ident(_) => {
                        let st_n = take_n(st_v, 1);
                        step_end(st, st_a, st_v, st_n, 0, after_discriminant(after_body(st_n)))
                    },
                    t => FieldStep::Failed(
                        ErrSpec::Unexpected(span_open_or_entire(t)),
                        take_n(st_v, 1),
                    ),
                }
            }
        },
    }
}

pub proof fn lemma_variant_step_progress(st: StreamState)
    requires
        st.toks.len() > 0,
    ensures
        match variant_step(st) {
            FieldStep::Read { err, end, .. } => end.toks.len() < st.toks.len(),
            FieldStep::Failed(_, end) => end.toks.len() <= st.toks.len(),
        },
{
    lemma_attrs_end(st.toks, 0);
    match attrs_end(st.toks, 0) {
        None => {},
        Some(e) => {
            let st_a = take_n(st, e);
            let st_v = after_vis(st_a);
            if st_v.toks.len() > 0 {
                let st_n = take_n(st_v, 1);
                let st_b = after_body(st_n);
                if st_b.toks.len() > 0 && is_punct(st_b.toks[0], '=') {
                    let st1 = take_n(st_b, 1);
                    lemma_comma_scan_bounds(st1.toks, 0);
                }
            }
        },
    }
}

/// Reading variants while input is left.
pub open spec fn variants_spec(st: StreamState) -> (Seq<FieldStep>, Option<ErrSpec>, StreamState)
    decreases st.toks.len(),
{
    if st.toks.len() == 0 {
        (Seq::empty(), None, st)
    } else {
        match variant_step(st) {
            FieldStep::Failed(e, st2) => (Seq::empty(), Some(e), st2),
            FieldStep::Read { err, end, .. } => {
                if err is Some {
                    (seq![variant_step(st)], err, end)
                } else {
                    proof {
                        lemma_variant_step_progress(st);
                    }
                    let rest = variants_spec(end);
                    (seq![variant_step(st)] + rest.0, rest.1, rest.2)
                }
            },
        }
    }
}

/// Where reading variants stops at a variant that cannot be read whole:
/// the state that variant starts from; `None` when no such variant comes.
pub open spec fn variants_failed_at(st: StreamState) -> Option<StreamState>
    decreases st.toks.len(),
{
    if st.toks.len() == 0 {
        None
    } else {
        match variant_step(st) {
            FieldStep::Failed(_, _) => Some(st),
            FieldStep::Read { err, end, .. } => if err is Some {
                None
            } else {
                proof {
                    lemma_variant_step_progress(st);
                }
                variants_failed_at(end)
            },
        }
    }
}

/// `v` is the variant that `step` read.
pub open spec fn variant_matches(v: ParsedVariant, step: FieldStep) -> bool {
    match step {
        FieldStep::Read { st, st_a, st_v, st_c, st_t, comma, .. } => {
            let st_b = after_body(st_c);
            &&& v.attrs@.len() == attrs_count(st.toks, 0)
            &&& attrs_from(v.attrs@, st.toks, 0)
            &&& vis_matches(v.variant.vis, st_a)
            &&& TokenTree::Ident(v.variant.name) == st_v.toks[0]
            &&& if st_b == st_c {
                v.variant.body is Unit
            } else {
                match v.variant.body {
                    EnumVariantBody::Paren(g) => TokenTree::Group(g.0) == st_c.toks[0] && g.0.delimiter
                        == Delimiter::Parenthesis,
                    EnumVariantBody::Brace(g) => TokenTree::Group(g.0) == st_c.toks[0] && g.0.delimiter
                        == Delimiter::Brace,
                    EnumVariantBody::Unit => false,
                }
            }
            &&& if st_b.toks.len() > 0 && is_punct(st_b.toks[0], '=') {
                let st1 = take_n(st_b, 1);
                v.variant.discriminant matches Some(d) && TokenTree::Punct(d.eq.0) == st_b.toks[0]
                    && d.value@ == st1.toks.subrange(0, comma_scan(st1.toks, 0))
            } else {
                v.variant.discriminant is None
            }
            &&& if comma {
                v.comma matches Some(c) && TokenTree::Punct(c.0) == st_t.toks[0]
            } else {
                v.comma is None
            }
        },
        FieldStep::Failed(_, _) => false,
    }
}

impl ParsingTokenStream {
    /// Reads one enum variant.
    fn parse_variant(&mut self) -> (r: (Option<ParsedVariant>, Option<ParseError>, Vec<OuterAttr>))
        ensures
            match variant_step(old(self).state()) {
                FieldStep::Failed(e, st2) => r.0 is None && (r.1 matches Some(er) && err_is(er, e))
                    && final(self).state() == st2 && failed_attrs_ok(r.2@, Some(old(self).state())),
                FieldStep::Read { err, end, .. } => (r.0 matches Some(v) && variant_matches(
                    v,
                    variant_step(old(self).state()),
                )) && match err {
                    None => r.1 is None,
                    Some(es) => r.1 matches Some(er) && err_is(er, es),
                } && final(self).state() == end && r.2@.len() == 0,
            },
    {
        let mut attrs: Vec<OuterAttr> = Vec::new();
        match self.parse_outer_attrs(&mut attrs) {
            Err(e) => {
                proof {
                    assert(attrs@.subrange(0, attrs@.len() as int) =~= attrs@);
                }
                return (None, Some(e), attrs);
            },
            Ok(()) => {},
        }
        proof {
            assert(attrs@.subrange(0, attrs@.len() as int) =~= attrs@);
        }
        let vis = self.parse_vis();
        let name = match self.parse_ident() {
            Ok(i) => i,
            Err(e) => {
                return (None, Some(e.into_parse_error()), attrs);
            },
        };
        let body_kind: u8 = match self.first() {
            Some(TokenTree::Group(g)) => {
                if g.delimiter == Delimiter::Parenthesis {
                    1
                } else if g.delimiter == Delimiter::Brace {
                    2
                } else {
                    0
                }
            },
            _ => 0,
        };
        let body = if body_kind == 0 {
            EnumVariantBody::Unit
        } else {
            match self.next() {
                Some(TokenTree::Group(g)) => {
                    if body_kind == 1 {
                        EnumVariantBody::Paren(GroupParen(g))
                    } else {
                        EnumVariantBody::Brace(GroupBrace(g))
                    }
                },
                _ => {
                    proof {
                        assert(false);
                    }
                    EnumVariantBody::Unit
                },
            }
        };
        let is_eq = match self.first() {
            Some(t) => t.is_punct('='),
            None => false,
        };
        let discriminant = if is_eq {
            match self.next() {
                Some(TokenTree::Punct(p)) => {
                    let value = self.consume_before_comma();
                    Some(
                        crate::syn_generic::parse_meta_utils::EqValue {
                            eq: PunctEq(p),
                            value: value.tokens,
                        },
                    )
                },
                _ => {
                    proof {
                        assert(false);
                    }
                    None
                },
            }
        } else {
            None
        };
        let kind: u8 = match self.first() {
            Some(t) => {
                if t.is_punct(',') {
                    0
                } else {
                    1
                }
            },
            None => 2,
        };
        let mut err = None;
        let comma = if kind == 0 {
            match self.next() {
                Some(TokenTree::Punct(p)) => Some(PunctComma(p)),
                _ => {
                    proof {
                        assert(false);
                    }
                    None
                },
            }
        } else if kind == 1 {
            let span = match self.first() {
                Some(t) => t.span_open_or_entire(),
                None => Span::call_site(),
            };
            err = Some(ParseError::custom("expect eof or `,`", Some(span)));
            None
        } else {
            None
        };
        (
            Some(
                ParsedVariant {
                    attrs,
                    variant: EnumVariant { vis, name, body, discriminant },
                    comma,
                },
            ),
            err,
            Vec::new(),
        )
    }

    /// Reads the variants of an enum until the input ends or an error
    /// comes; the variants read are handed back whatever the outcome, and
    /// the outer attributes read of a variant that could not be read
    /// whole.
    pub fn parse_into_variants(self) -> (r: (Vec<ParsedVariant>, Result<(), ParseError>, Vec<OuterAttr>))
        ensures
            ({
                let res = variants_spec(self.state());
                &&& r.0@.len() == res.0.len()
                &&& forall|k: int| 0 <= k < r.0@.len() ==> variant_matches(#[trigger] r.0@[k], res.0[k])
                &&& outcome_is(r.1, res.1)
            }),
            failed_attrs_ok(r.2@, variants_failed_at(self.state())),
    {
        let mut input = self;
        let mut out: Vec<ParsedVariant> = Vec::new();
        let ghost target = variants_spec(input.state());
        let ghost done: Seq<FieldStep> = Seq::empty();
        while !input.is_empty()
            invariant
                target == variants_spec(self.state()),
                variants_failed_at(self.state()) == variants_failed_at(input.state()),
                out@.len() == done.len(),
                forall|k: int| 0 <= k < out@.len() ==> variant_matches(#[trigger] out@[k], done[k]),
                ({
                    let rest = variants_spec(input.state());
                    &&& target.0 == done + rest.0
                    &&& target.1 == rest.1
                }),
            decreases input.s@.len(),
        {
            let ghost st = input.state();
            proof {
                lemma_variant_step_progress(st);
            }
            let (v, err, failed_attrs) = input.parse_variant();
            match v {
                None => {
                    proof {
                        assert(done + Seq::<FieldStep>::empty() =~= done);
                    }
                    return (out, Err(err.unwrap()), failed_attrs);
                },
                Some(v) => {
                    let ghost step = variant_step(st);
                    let ghost out0 = out@;
                    out.push(v);
                    proof {
                        assert forall|k: int| 0 <= k < out@.len() implies variant_matches(
                            #[trigger] out@[k],
                            (done.push(step))[k],
                        ) by {
                            if k < out0.len() {
                                assert(out@[k] == out0[k]);
                            }
                        }
                        done = done.push(step);
                    }
                    match err {
                        Some(e) => {
                            proof {
                                assert(target.0 =~= done);
                            }
                            return (out, Err(e), Vec::new());
                        },
                        None => {
                            proof {
                                assert(target.0 =~= done + variants_spec(input.state()).0);
                            }
                        },
                    }
                },
            }
        }
        proof {
            assert(target.0 =~= done);
        }
        (out, Ok(()), Vec::new())
    }
}

/// Tokens of a stream: borrowed from elsewhere, or owned.
pub enum TokenStreamCow<'a> {
    Borrowed(&'a [TokenTree]),
    Owned(Vec<TokenTree>),
}

/// The tokens.
pub open spec fn cow_tokens(c: TokenStreamCow) -> Seq<TokenTree> {
    match c {
        TokenStreamCow::Borrowed(s) => s@,
        TokenStreamCow::Owned(v) => v@,
    }
}

impl<'a> TokenStreamCow<'a> {
    /// The tokens, borrowed.
    pub fn as_slice(&self) -> (r: &[TokenTree])
        ensures
            r@ == cow_tokens(*self),
    {
        match self {
            TokenStreamCow::Borrowed(ts) => *ts,
            TokenStreamCow::Owned(ts) => ts.as_slice(),
        }
    }

    /// How many tokens there are.
    pub fn len(&self) -> (r: usize)
        ensures
            r == cow_tokens(*self).len(),
    {
        self.as_slice().len()
    }

    /// The tokens, owned: borrowed ones are copied with everything inside
    /// them.
    pub fn into_vec_iter(self) -> (r: Vec<TokenTree>)
        ensures
            match self {
                TokenStreamCow::Owned(v) => r == v,
                TokenStreamCow::Borrowed(b) => deep_seq(r@) == deep_seq(b@),
            },
    {
        match self {
            TokenStreamCow::Owned(ts) => ts,
            TokenStreamCow::Borrowed(b) => {
                let mut out: Vec<TokenTree> = Vec::new();
                let mut i: usize = 0;
                while i < b.len()
                    invariant
                        i <= b@.len(),
                        out@.len() == i,
                        forall|j: int| 0 <= j < i ==> deep_tt(#[trigger] out@[j]) == deep_tt(b@[j]),
                    decreases b@.len() - i,
                {
                    out.push(b[i].deep_clone());
                    i = i + 1;
                }
                proof {
                    lemma_deep_seq_ext(out@, b@);
                }
                out
            },
        }
    }
}

impl ConsumedTokens {
    /// The tokens.
    pub fn into_vec(self) -> (r: Vec<TokenTree>)
        ensures
            r == self.tokens,
    {
        self.tokens
    }

    /// The tokens, to be walked through.
    pub fn into_vec_iter(self) -> (r: Vec<TokenTree>)
        ensures
            r == self.tokens,
    {
        self.tokens
    }

    /// How many tokens were taken.
    pub fn len(&self) -> (r: usize)
        ensures
            r == self.tokens@.len(),
    {
        self.tokens.len()
    }

    /// Hands the tokens to `output` and returns what it returns.
    pub fn use_tokens<T, F: FnOnce(TokenStreamCow<'static>) -> T>(self, output: F) -> (r: T)
        requires
            output.requires((TokenStreamCow::Owned(self.tokens),)),
        ensures
            output.ensures((TokenStreamCow::Owned(self.tokens),), r),
    {
        output(TokenStreamCow::Owned(self.tokens))
    }

    /// A stream over the tokens taken, from where the stream stood before
    /// them.
    pub fn parse(self) -> (r: ParsingConsumedTokens)
        ensures
            r.0.s@ == self.tokens@,
            r.0.prev_span == self.prev_span,
    {
        let mut s = ParsingTokenStream::new(self.tokens);
        s.prev_span = self.prev_span;
        ParsingConsumedTokens(s)
    }
}

/// A stream over tokens that were taken off another.
pub struct ParsingConsumedTokens(pub ParsingTokenStream);

impl ParsingConsumedTokens {
    /// Takes the next token.
    pub fn next(&mut self) -> (r: Option<TokenTree>)
        ensures
            old(self).0.s@.len() == 0 ==> r is None && final(self).0.state() == old(self).0.state(),
            old(self).0.s@.len() > 0 ==> r == Some(old(self).0.s@[0]) && final(self).0.state()
                == take_n(old(self).0.state(), 1),
    {
        proof {
            if old(self).0.s@.len() > 0 {
                assert(take_n(old(self).0.state(), 1).toks =~= old(self).0.s@.drop_first());
            }
        }
        self.0.next()
    }

    /// The next token, left in the stream.
    pub fn first(&self) -> (r: Option<&TokenTree>)
        ensures
            self.0.s@.len() == 0 ==> r is None,
            self.0.s@.len() > 0 ==> r == Some(&self.0.s@[0]),
    {
        self.0.first()
    }

    /// Where the last token taken ended.
    pub fn prev_span(&self) -> (r: Option<Span>)
        ensures
            r == self.0.prev_span,
    {
        self.0.prev_span
    }

    /// `Ok` when nothing is left.
    pub fn expect_eof(&self) -> (r: Result<(), ParseError>)
        ensures
            self.0.s@.len() == 0 ==> r is Ok,
            self.0.s@.len() > 0 ==> (r matches Err(e) && is_custom(
                e,
                "expect eof"@,
                self.0.prev_span,
            ) && error_kinds(e) == seq![ParseErrorKind::Custom { msg: "expect eof", span: self.0.prev_span }]),
    {
        self.0.expect_eof()
    }
}

/// The stream after some tokens were taken off it, with those tokens.
pub struct ParsingAfterConsumedTokens {
    pub consumed: ConsumedTokens,
    pub rest: ParsingTokenStream,
}

impl ParsingAfterConsumedTokens {
    /// Takes the next token of the rest.
    pub fn next(&mut self) -> (r: Option<TokenTree>)
        ensures
            final(self).consumed == old(self).consumed,
            old(self).rest.s@.len() == 0 ==> r is None && final(self).rest.state() == old(self).rest.state(),
            old(self).rest.s@.len() > 0 ==> r == Some(old(self).rest.s@[0]) && final(self).rest.state()
                == take_n(old(self).rest.state(), 1),
    {
        proof {
            if old(self).rest.s@.len() > 0 {
                assert(take_n(old(self).rest.state(), 1).toks =~= old(self).rest.s@.drop_first());
            }
        }
        self.rest.next()
    }

    /// The next token of the rest.
    pub fn first(&self) -> (r: Option<&TokenTree>)
        ensures
            self.rest.s@.len() == 0 ==> r is None,
            self.rest.s@.len() > 0 ==> r == Some(&self.rest.s@[0]),
    {
        self.rest.first()
    }

    /// Where the next token of the rest starts, or else where the last one
    /// taken ended.
    pub fn span_open_or_prev(&self) -> (r: Option<Span>)
        ensures
            r == span_open_or_prev(self.rest.state()),
    {
        match self.rest.first() {
            Some(t) => Some(t.span_open_or_entire()),
            None => self.rest.prev_span,
        }
    }

    /// `Ok` when nothing of the rest is left.
    pub fn expect_eof(&self) -> (r: Result<(), ParseError>)
        ensures
            self.rest.s@.len() == 0 ==> r is Ok,
            self.rest.s@.len() > 0 ==> (r matches Err(e) && is_custom(
                e,
                "expect eof"@,
                self.rest.prev_span,
            )),
    {
        self.rest.expect_eof()
    }
}

/// A value that can be read from tokens.
pub trait Parseable {
}

impl Parseable for Vec<TokenTree> {
}

/// An error, and what was read before it, if anything.
pub struct ErrorWithPayload<E, P> {
    pub error: E,
    pub payload: P,
}

/// Nothing was read before the error.
pub struct NoPayload;

/// A value was read before the error.
pub struct HasPayload<T>(pub T);

/// What was read before an error, if anything.
pub trait TryUnwrapPayload<P>: Sized {
    fn try_into_payload(self) -> Option<P>;
}

impl TryUnwrapPayload<Vec<TokenTree>> for NoPayload {
    fn try_into_payload(self) -> (r: Option<Vec<TokenTree>>)
        ensures
            r is None,
    {
        None
    }
}

impl<P> TryUnwrapPayload<P> for Option<P> {
    fn try_into_payload(self) -> (r: Option<P>)
        ensures
            r == self,
    {
        self
    }
}

impl<P> TryUnwrapPayload<P> for HasPayload<P> {
    fn try_into_payload(self) -> (r: Option<P>)
        ensures
            r == Some(self.0),
    {
        Some(self.0)
    }
}

/// The value read, where there is one: an error that comes with a value
/// is reported to `errors` and the value is kept.
pub fn parse_and_report<T>(res: Result<T, ErrorWithPayload<ParseError, Option<T>>>, errors: &mut ErrorCollector) -> (r: Result<T, ParseError>)
    ensures
        match res {
            Ok(v) => r == Ok::<T, ParseError>(v) && *final(errors) == *old(errors),
            Err(ew) => match ew.payload {
                Some(p) => r == Ok::<T, ParseError>(p) && final(errors).0 is Some && error_kinds(
                    final(errors).0.unwrap(),
                ) == match old(errors).0 {
                    Some(prev) => error_kinds(prev) + error_kinds(ew.error),
                    None => error_kinds(ew.error),
                },
                None => r == Err::<T, ParseError>(ew.error) && *final(errors) == *old(errors),
            },
        },
{
    match res {
        Ok(v) => Ok(v),
        Err(ew) => {
            let ErrorWithPayload { error, payload } = ew;
            match payload.try_into_payload() {
                Some(p) => {
                    errors.push(error);
                    Ok(p)
                },
                None => Err(error),
            }
        },
    }
}

/// Reads all of a stream with `parse`'s outcome, then expects the end: an
/// error there comes with the value read.
pub fn expect_eof_after<T>(input: &ParsingTokenStream, res: Result<T, ParseError>) -> (r: Result<T, ErrorWithPayload<ParseError, Option<T>>>)
    ensures
        match res {
            Err(e) => r matches Err(ew) && ew.error == e && ew.payload is None,
            Ok(v) => if input.s@.len() == 0 {
                r == Ok::<T, ErrorWithPayload<ParseError, Option<T>>>(v)
            } else {
                r matches Err(ew) && ew.payload == Some(v) && is_custom(
                    ew.error,
                    "expect eof"@,
                    input.prev_span,
                )
            },
        },
{
    match res {
        Err(error) => Err(ErrorWithPayload { error, payload: None }),
        Ok(payload) => match input.expect_eof() {
            Ok(()) => Ok(payload),
            Err(error) => Err(ErrorWithPayload { error, payload: Some(payload) }),
        },
    }
}
} // verus!
