//! Small helpers for building tokens.
use vstd::prelude::*;
use crate::syn_generic::tokens::{Ident, Literal, Span, TokenTree, Group, Delimiter};

verus! {

/// The text of a string literal holding `name`: `name` between double
/// quotes. An identifier holds no quote or backslash, so nothing is
/// escaped.
pub open spec fn string_literal_text(name: Seq<u8>) -> Seq<u8> {
    seq![34u8] + name + seq![34u8]
}

/// A string literal holding the text of `ident`, at its place.
pub fn ident_to_literal_string(ident: &Ident) -> (r: Literal)
    ensures
        r.text@ == string_literal_text(ident.name@),
        r.span == ident.span,
{
    let mut text: Vec<u8> = Vec::new();
    text.push(34u8);
    let mut i: usize = 0;
    while i < ident.name.len()
        invariant
            i <= ident.name@.len(),
            text@ == seq![34u8] + ident.name@.subrange(0, i as int),
        decreases ident.name@.len() - i,
    {
        text.push(ident.name[i]);
        i = i + 1;
        assert(text@ =~= seq![34u8] + ident.name@.subrange(0, i as int));
    }
    text.push(34u8);
    assert(text@ =~= string_literal_text(ident.name@));
    Literal { text, span: ident.span }
}

/// The decimal digits of `n`, with no leading zero.
pub open spec fn decimal_text(n: nat) -> Seq<u8>
    decreases n,
{
    if n < 10 {
        seq![(48 + n) as u8]
    } else {
        decimal_text(n / 10).push((48 + n % 10) as u8)
    }
}

/// Appends the decimal digits of `n` to `out`.
pub fn push_decimal(n: usize, out: &mut Vec<u8>)
    ensures
        final(out)@ == old(out)@ + decimal_text(n as nat),
    decreases n,
{
    if n >= 10 {
        push_decimal(n / 10, out);
    }
    let d: usize = n % 10;
    out.push((48 + d) as u8);
    assert(out@ =~= old(out)@ + decimal_text(n as nat));
}

/// An integer literal with no suffix holding `n`, at `span`.
pub fn usize_unsuffixed(n: usize, span: Span) -> (r: Literal)
    ensures
        r.text@ == decimal_text(n as nat),
        r.span == span,
{
    let mut text: Vec<u8> = Vec::new();
    push_decimal(n, &mut text);
    assert(text@ =~= decimal_text(n as nat));
    Literal { text, span }
}

/// `t` is the literal `k` with no suffix at the place of the macro call.
pub open spec fn is_position_literal(t: TokenTree, k: int) -> bool {
    t matches TokenTree::Literal(l) && l.text@ == decimal_text(k as nat) && l.span == Span(0)
}

/// `t` is the literal `k` with no suffix at `span`.
pub open spec fn is_position_literal_at(t: TokenTree, k: int, span: Span) -> bool {
    t matches TokenTree::Literal(l) && l.text@ == decimal_text(k as nat) && l.span == span
}

/// The tokens that `unnamed_fields!` gives for its input: the tokens of the
/// first group, then, in braces at the place of the macro call, the tokens
/// of the second group followed by the positions `0`, `1`, .. of the
/// tokens after the two groups, one literal each at the place of the macro
/// call.
pub open spec fn unnamed_fields_out(input: Seq<TokenTree>, r: Seq<TokenTree>) -> bool {
    let bang = input[0]->Group_0.stream@;
    let prepend = input[1]->Group_0.stream@;
    let n = input.len() - 2;
    &&& r.len() == bang.len() + 1
    &&& r.subrange(0, bang.len() as int) == bang
    &&& r.last() matches TokenTree::Group(b)
    &&& r.last()->Group_0.delimiter == Delimiter::Brace
    &&& r.last()->Group_0.span_open == Span(0)
    &&& r.last()->Group_0.span_close == Span(0)
    &&& r.last()->Group_0.stream@.len() == prepend.len() + n
    &&& r.last()->Group_0.stream@.subrange(0, prepend.len() as int) == prepend
    &&& forall|i: int|
        0 <= i < n ==> is_position_literal(#[trigger] r.last()->Group_0.stream@[prepend.len() + i], i)
}

/// `unnamed_fields!([macro!] [prepend] field..)`: calls the macro with the
/// prepended tokens and the position of each field. The first two tokens
/// must be groups.
pub fn unnamed_fields(input: Vec<TokenTree>) -> (r: Vec<TokenTree>)
    requires
        input@.len() >= 2,
        input@[0] is Group,
        input@[1] is Group,
    ensures
        unnamed_fields_out(input@, r@),
{
    let ghost inp = input@;
    let mut input = input;
    let n = input.len() - 2;
    let first = input.remove(0);
    let second = input.remove(0);
    let macro_bang = match first {
        TokenTree::Group(g) => g.stream,
        _ => {
            proof {
                assert(false);
            }
            Vec::new()
        },
    };
    let macro_prepend = match second {
        TokenTree::Group(g) => g.stream,
        _ => {
            proof {
                assert(false);
            }
            Vec::new()
        },
    };
    let ghost prepend = macro_prepend@;
    let mut inner = macro_prepend;
    let mut i: usize = 0;
    while i < n
        invariant
            i <= n,
            inner@.len() == prepend.len() + i,
            inner@.subrange(0, prepend.len() as int) == prepend,
            forall|j: int|
                0 <= j < i ==> is_position_literal(#[trigger] inner@[prepend.len() + j], j),
        decreases n - i,
    {
        let lit = usize_unsuffixed(i, Span::call_site());
        let ghost before = inner@;
        inner.push(TokenTree::Literal(lit));
        proof {
            assert(inner@.subrange(0, prepend.len() as int) =~= before.subrange(0, prepend.len() as int));
            assert forall|j: int| 0 <= j < i + 1 implies is_position_literal(#[trigger] inner@[prepend.len() + j], j) by {
                if j < i {
                    assert(inner@[prepend.len() + j] == before[prepend.len() + j]);
                }
            }
        }
        i = i + 1;
    }
    let mut out = macro_bang;
    let ghost bang = out@;
    out.push(
        TokenTree::Group(
            Group {
                delimiter: Delimiter::Brace,
                stream: inner,
                span_open: Span::call_site(),
                span_close: Span::call_site(),
            },
        ),
    );
    assert(out@.subrange(0, bang.len() as int) =~= bang);
    out
}

} // verus!
