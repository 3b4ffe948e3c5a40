//! Rust tokens as plain values: what the item parser reads of a token stream.
//!
//! A span is a number that the caller hands out and maps back to a place in
//! the source; the number `0` stands for the place of the macro call.
use vstd::prelude::*;

verus! {

/// A place in the source, as a number handed out by the caller.
#[derive(Debug, Clone, Copy, PartialEq, Eq, Structural)]
pub struct Span(pub u64);

impl Span {
    /// The place of the macro call.
    pub fn call_site() -> (r: Span)
        ensures
            r == Span(0),
    {
        Span(0)
    }
}

/// The brackets around a group.
#[derive(Debug, Clone, Copy, PartialEq, Eq, Structural)]
pub enum Delimiter {
    Parenthesis,
    Brace,
    Bracket,
    Invisible,
}

/// Whether a punctuation character is joined to the one after it.
#[derive(Debug, Clone, Copy, PartialEq, Eq, Structural)]
pub enum Spacing {
    Joint,
    Alone,
}

/// An identifier with the text it displays as (a raw one starts with `r#`).
#[derive(Debug)]
pub struct Ident {
    pub name: Vec<u8>,
    pub span: Span,
}

/// One punctuation character.
#[derive(Debug, Clone, Copy, PartialEq, Eq, Structural)]
pub struct Punct {
    pub ch: char,
    pub spacing: Spacing,
    pub span: Span,
}

/// A literal with its source text.
#[derive(Debug)]
pub struct Literal {
    pub text: Vec<u8>,
    pub span: Span,
}

/// Tokens between a pair of brackets.
#[derive(Debug)]
pub struct Group {
    pub delimiter: Delimiter,
    pub stream: Vec<TokenTree>,
    pub span_open: Span,
    pub span_close: Span,
}

/// One token, or a group of them.
#[derive(Debug)]
pub enum TokenTree {
    Group(Group),
    Ident(Ident),
    Punct(Punct),
    Literal(Literal),
}

/// A token as far as two copies of it agree: identifiers and literals by
/// their text and place, groups as they are.
pub enum TokenView {
    Group(Group),
    Ident(Seq<u8>, Span),
    Punct(Punct),
    Literal(Seq<u8>, Span),
}

/// The view of one token.
pub open spec fn tt_view(t: TokenTree) -> TokenView {
    match t {
        TokenTree::Group(g) => TokenView::Group(g),
        TokenTree::Ident(i) => TokenView::Ident(i.name@, i.span),
        TokenTree::Punct(p) => TokenView::Punct(p),
        TokenTree::Literal(l) => TokenView::Literal(l.text@, l.span),
    }
}

/// The views of a sequence of tokens.
pub open spec fn tts_view(s: Seq<TokenTree>) -> Seq<TokenView> {
    s.map_values(|t: TokenTree| tt_view(t))
}

/// Where a token starts: the opening bracket of a group.
pub open spec fn span_open_or_entire(t: TokenTree) -> Span {
    match t {
        TokenTree::Group(g) => g.span_open,
        TokenTree::Ident(i) => i.span,
        TokenTree::Punct(p) => p.span,
        TokenTree::Literal(l) => l.span,
    }
}

/// Where a token ends: the closing bracket of a group.
pub open spec fn span_close_or_entire(t: TokenTree) -> Span {
    match t {
        TokenTree::Group(g) => g.span_close,
        TokenTree::Ident(i) => i.span,
        TokenTree::Punct(p) => p.span,
        TokenTree::Literal(l) => l.span,
    }
}

/// The token is the punctuation character `c`.
pub open spec fn is_punct(t: TokenTree, c: char) -> bool {
    t matches TokenTree::Punct(p) && p.ch == c
}

/// The token is an identifier that displays as `name`.
pub open spec fn is_ident_named(t: TokenTree, name: Seq<u8>) -> bool {
    t matches TokenTree::Ident(i) && i.name@ == name
}

/// The token is a group in `d`.
pub open spec fn is_group_in(t: TokenTree, d: Delimiter) -> bool {
    t matches TokenTree::Group(g) && g.delimiter == d
}

impl Ident {
    /// A copy of the identifier.
    pub fn copied(&self) -> (r: Ident)
        ensures
            r.name@ == self.name@,
            r.span == self.span,
    {
        Ident { name: self.name.clone(), span: self.span }
    }

    /// The place of the identifier.
    pub fn span(&self) -> (r: Span)
        ensures
            r == self.span,
    {
        self.span
    }

    /// The identifier displays as `bytes`.
    pub fn matches(&self, bytes: &[u8]) -> (r: bool)
        ensures
            r == (self.name@ == bytes@),
    {
        bytes_eq(self.name.as_slice(), bytes)
    }
}

impl TokenTree {
    /// Where the token starts.
    pub fn span_open_or_entire(&self) -> (r: Span)
        ensures
            r == span_open_or_entire(*self),
    {
        match self {
            TokenTree::Group(g) => g.span_open,
            TokenTree::Ident(i) => i.span,
            TokenTree::Punct(p) => p.span,
            TokenTree::Literal(l) => l.span,
        }
    }

    /// Where the token ends.
    pub fn span_close_or_entire(&self) -> (r: Span)
        ensures
            r == span_close_or_entire(*self),
    {
        match self {
            TokenTree::Group(g) => g.span_close,
            TokenTree::Ident(i) => i.span,
            TokenTree::Punct(p) => p.span,
            TokenTree::Literal(l) => l.span,
        }
    }

    /// The token is the punctuation character `c`.
    pub fn is_punct(&self, c: char) -> (r: bool)
        ensures
            r == is_punct(*self, c),
    {
        match self {
            TokenTree::Punct(p) => p.ch == c,
            _ => false,
        }
    }

    /// The token is an identifier that displays as `name`.
    pub fn is_ident_named(&self, name: &[u8]) -> (r: bool)
        ensures
            r == is_ident_named(*self, name@),
    {
        match self {
            TokenTree::Ident(i) => i.matches(name),
            _ => false,
        }
    }

    /// The token is a group in `d`.
    pub fn is_group_in(&self, d: Delimiter) -> (r: bool)
        ensures
            r == is_group_in(*self, d),
    {
        match self {
            TokenTree::Group(g) => g.delimiter == d,
            _ => false,
        }
    }
}

/// The two byte strings are equal.
pub fn bytes_eq(a: &[u8], b: &[u8]) -> (r: bool)
    ensures
        r == (a@ == b@),
{
    if a.len() != b.len() {
        return false;
    }
    let mut i: usize = 0;
    while i < a.len()
        invariant
            a@.len() == b@.len(),
            i <= a@.len(),
            forall|j: int| 0 <= j < i ==> a@[j] == b@[j],
        decreases a@.len() - i,
    {
        if a[i] != b[i] {
            return false;
        }
        i = i + 1;
    }
    assert(a@ =~= b@);
    true
}


/// `pub`
pub open spec fn kw_pub() -> Seq<u8> {
    seq![112u8, 117u8, 98u8]
}

/// `crate`
pub open spec fn kw_crate() -> Seq<u8> {
    seq![99u8, 114u8, 97u8, 116u8, 101u8]
}

/// `self`
pub open spec fn kw_self() -> Seq<u8> {
    seq![115u8, 101u8, 108u8, 102u8]
}

/// `super`
pub open spec fn kw_super() -> Seq<u8> {
    seq![115u8, 117u8, 112u8, 101u8, 114u8]
}

/// `in`
pub open spec fn kw_in() -> Seq<u8> {
    seq![105u8, 110u8]
}

/// `where`
pub open spec fn kw_where() -> Seq<u8> {
    seq![119u8, 104u8, 101u8, 114u8, 101u8]
}

/// `const`
pub open spec fn kw_const() -> Seq<u8> {
    seq![99u8, 111u8, 110u8, 115u8, 116u8]
}

/// The keyword `pub` as bytes.
pub fn bytes_pub() -> (r: &'static [u8])
    ensures
        r@ == kw_pub(),
{
    let r: &'static [u8] = &[112u8, 117u8, 98u8];
    assert(r@ =~= kw_pub());
    r
}

/// The keyword `crate` as bytes.
pub fn bytes_crate() -> (r: &'static [u8])
    ensures
        r@ == kw_crate(),
{
    let r: &'static [u8] = &[99u8, 114u8, 97u8, 116u8, 101u8];
    assert(r@ =~= kw_crate());
    r
}

/// The keyword `self` as bytes.
pub fn bytes_self() -> (r: &'static [u8])
    ensures
        r@ == kw_self(),
{
    let r: &'static [u8] = &[115u8, 101u8, 108u8, 102u8];
    assert(r@ =~= kw_self());
    r
}

/// The keyword `super` as bytes.
pub fn bytes_super() -> (r: &'static [u8])
    ensures
        r@ == kw_super(),
{
    let r: &'static [u8] = &[115u8, 117u8, 112u8, 101u8, 114u8];
    assert(r@ =~= kw_super());
    r
}

/// The keyword `in` as bytes.
pub fn bytes_in() -> (r: &'static [u8])
    ensures
        r@ == kw_in(),
{
    let r: &'static [u8] = &[105u8, 110u8];
    assert(r@ =~= kw_in());
    r
}

/// The keyword `where` as bytes.
pub fn bytes_where() -> (r: &'static [u8])
    ensures
        r@ == kw_where(),
{
    let r: &'static [u8] = &[119u8, 104u8, 101u8, 114u8, 101u8];
    assert(r@ =~= kw_where());
    r
}

/// The keyword `const` as bytes.
pub fn bytes_const() -> (r: &'static [u8])
    ensures
        r@ == kw_const(),
{
    let r: &'static [u8] = &[99u8, 111u8, 110u8, 115u8, 116u8];
    assert(r@ =~= kw_const());
    r
}

/// A copy of the bytes.
pub fn bytes_to_vec(b: &[u8]) -> (r: Vec<u8>)
    ensures
        r@ == b@,
{
    let mut out: Vec<u8> = Vec::new();
    let mut i: usize = 0;
    while i < b.len()
        invariant
            i <= b@.len(),
            out@ == b@.subrange(0, i as int),
        decreases b@.len() - i,
    {
        out.push(b[i]);
        i = i + 1;
        assert(out@ =~= b@.subrange(0, i as int));
    }
    assert(b@.subrange(0, b@.len() as int) =~= b@);
    out
}

/// The views of `s` with `t` pushed are those of `s` with the view of `t`
/// pushed.
pub proof fn lemma_tts_view_push(s: Seq<TokenTree>, t: TokenTree)
    ensures
        tts_view(s.push(t)) == tts_view(s).push(tt_view(t)),
{
    assert(tts_view(s.push(t)) =~= tts_view(s).push(tt_view(t)));
}

/// The views of a concatenation are the concatenation of the views.
pub proof fn lemma_tts_view_add(a: Seq<TokenTree>, b: Seq<TokenTree>)
    ensures
        tts_view(a + b) == tts_view(a) + tts_view(b),
{
    assert(tts_view(a + b) =~= tts_view(a) + tts_view(b));
}

/// A token with everything inside it, as plain values.
pub enum DeepToken {
    Group(Delimiter, Seq<DeepToken>, Span, Span),
    Ident(Seq<u8>, Span),
    Punct(Punct),
    Literal(Seq<u8>, Span),
}

/// A token with everything inside it.
pub open spec fn deep_tt(t: TokenTree) -> DeepToken
    decreases t,
{
    match t {
        TokenTree::Group(g) => {
            proof {
                assert(decreases_to!(g.stream => g.stream@)) by {
                    broadcast use vstd::std_specs::vec::axiom_vec_decreases_to_view;
                }
            }
            DeepToken::Group(g.delimiter, deep_seq(g.stream@), g.span_open, g.span_close)
        },
        TokenTree::Ident(i) => DeepToken::Ident(i.name@, i.span),
        TokenTree::Punct(p) => DeepToken::Punct(p),
        TokenTree::Literal(l) => DeepToken::Literal(l.text@, l.span),
    }
}

/// Tokens with everything inside them.
pub open spec fn deep_seq(s: Seq<TokenTree>) -> Seq<DeepToken>
    decreases s,
{
    if s.len() == 0 {
        Seq::empty()
    } else {
        seq![deep_tt(s[0])] + deep_seq(s.subrange(1, s.len() as int))
    }
}

/// The deep view of tokens is the deep view of each token.
pub proof fn lemma_deep_seq_index(s: Seq<TokenTree>)
    ensures
        deep_seq(s).len() == s.len(),
        forall|i: int| 0 <= i < s.len() ==> #[trigger] deep_seq(s)[i] == deep_tt(s[i]),
    decreases s.len(),
{
    if s.len() > 0 {
        let t = s.subrange(1, s.len() as int);
        lemma_deep_seq_index(t);
        assert forall|i: int| 0 <= i < s.len() implies #[trigger] deep_seq(s)[i] == deep_tt(s[i]) by {
            if i > 0 {
                assert(deep_seq(s)[i] == deep_seq(t)[i - 1]);
                assert(t[i - 1] == s[i]);
            }
        }
    }
}

/// Two token sequences whose tokens have equal deep views have equal deep
/// views.
pub proof fn lemma_deep_seq_ext(a: Seq<TokenTree>, b: Seq<TokenTree>)
    requires
        a.len() == b.len(),
        forall|i: int| 0 <= i < a.len() ==> deep_tt(#[trigger] a[i]) == deep_tt(b[i]),
    ensures
        deep_seq(a) == deep_seq(b),
{
    lemma_deep_seq_index(a);
    lemma_deep_seq_index(b);
    assert(deep_seq(a) =~= deep_seq(b));
}

/// The deep view of two sequences one after the other is their deep views
/// one after the other.
pub proof fn lemma_deep_seq_add(a: Seq<TokenTree>, b: Seq<TokenTree>)
    ensures
        deep_seq(a + b) == deep_seq(a) + deep_seq(b),
{
    lemma_deep_seq_index(a);
    lemma_deep_seq_index(b);
    lemma_deep_seq_index(a + b);
    assert(deep_seq(a + b) =~= deep_seq(a) + deep_seq(b));
}

/// The deep view of a sequence with one more token at the end.
pub proof fn lemma_deep_seq_push(s: Seq<TokenTree>, t: TokenTree)
    ensures
        deep_seq(s.push(t)) == deep_seq(s).push(deep_tt(t)),
{
    lemma_deep_seq_index(s);
    lemma_deep_seq_index(s.push(t));
    assert(deep_seq(s.push(t)) =~= deep_seq(s).push(deep_tt(t)));
}

impl TokenTree {
    /// A copy of the token with everything inside it.
    pub fn deep_clone(&self) -> (r: TokenTree)
        ensures
            deep_tt(r) == deep_tt(*self),
        decreases *self,
    {
        match self {
            TokenTree::Group(g) => {
                let stream = clone_tokens(&g.stream);
                TokenTree::Group(
                    Group {
                        delimiter: g.delimiter,
                        stream,
                        span_open: g.span_open,
                        span_close: g.span_close,
                    },
                )
            },
            TokenTree::Ident(i) => TokenTree::Ident(i.copied()),
            TokenTree::Punct(p) => TokenTree::Punct(*p),
            TokenTree::Literal(l) => TokenTree::Literal(
                Literal { text: l.text.clone(), span: l.span },
            ),
        }
    }
}

/// A copy of the tokens with everything inside them.
pub fn clone_tokens(v: &Vec<TokenTree>) -> (r: Vec<TokenTree>)
    ensures
        deep_seq(r@) == deep_seq(v@),
        r@.len() == v@.len(),
    decreases *v,
{
    let mut out: Vec<TokenTree> = Vec::new();
    let mut i: usize = 0;
    while i < v.len()
        invariant
            i <= v@.len(),
            out@.len() == i,
            forall|j: int| 0 <= j < i ==> deep_tt(#[trigger] out@[j]) == deep_tt(v@[j]),
        decreases v@.len() - i,
    {
        proof {
            broadcast use vstd::std_specs::vec::axiom_vec_index_decreases;
            assert(decreases_to!(*v => v[i as int]));
        }
        let t = v[i].deep_clone();
        out.push(t);
        i = i + 1;
    }
    proof {
        lemma_deep_seq_ext(out@, v@);
    }
    out
}
} // verus!
