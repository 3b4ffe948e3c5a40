//! Pieces of the generated impl: the where clause that joins the item's own
//! predicates with the bounds given by `where = (..)`, and groups re-bracketed.
use vstd::prelude::*;
use crate::syn_generic::tokens::{Span, TokenTree, Group, Delimiter, Punct, Spacing, Ident, is_punct};
use crate::syn_generic::tokens::{DeepToken, deep_seq, deep_tt, lemma_deep_seq_add, lemma_deep_seq_push};
use crate::syn_generic::WhereClause;
use crate::syn_generic::parse_meta_utils::MetaPathSpanWith;
use crate::item_attrs::{ItemAttrWhere, make_ident};
use crate::struct_json::{plain_struct, struct_default_json};
use crate::enum_json::plain_enum;
use vstd::string::StringSliceAdditionalSpecFns;
use crate::syn_generic::{
    ParsingTokenStream, ParseError, ErrorCollector, ParseGenericsOutput, errs, is_custom,
    is_eof_after, is_unexpected_at,
};
use crate::syn_generic::tokens::{span_open_or_entire, tts_view};
use crate::syn_generic::{
    StreamState, take_n, generics_params, after_where, where_outcome, WhereOutcome,
};
use crate::syn_generic::tokens::is_group_in;
use crate::item_attrs::IdentTree;
use crate::json_item::{
    MakeContextOfStruct, MakeContextOfEnum, Options, StructAttrs, EnumAttrs, struct_made, enum_made, struct_attrs_of, enum_attrs_of,
    with_struct_arg_errors, with_enum_arg_errors,
};
use crate::json_item::{
    fields_body_errs, fields_of, transparent_errs, enum_body_errs, enum_tag_flags, tag_mode_flags, extra_mode_errors,
};
use crate::struct_json::struct_default_errors;
use crate::enum_json::enum_json_errors;
use crate::syn_generic::{StructData, GroupBrace, GenericsError, ParseErrorKind, error_kinds, ErrSpec, err_is};

verus! {

/// The tokens with `punct` added at the end at `span` (the place of the
/// macro call when there is none), unless they are empty or already end
/// with it.
pub fn with_trailing_punct_if_not_empty(ts: Vec<TokenTree>, punct: char, span: Option<Span>) -> (r: Vec<TokenTree>)
    ensures
        r@ == trailing_punct(ts@, punct, span),
{
    let mut ts = ts;
    let add = if ts.len() > 0 {
        !ts[ts.len() - 1].is_punct(punct)
    } else {
        false
    };
    if add {
        let sp = match span {
            Some(s) => s,
            None => Span::call_site(),
        };
        ts.push(TokenTree::Punct(Punct { ch: punct, spacing: Spacing::Alone, span: sp }));
    }
    ts
}

/// `ts` with `punct` added at the end at `span` (the place of the macro
/// call when there is none), unless it is empty or already ends with it.
pub open spec fn trailing_punct(ts: Seq<TokenTree>, punct: char, span: Option<Span>) -> Seq<TokenTree> {
    if ts.len() > 0 && !is_punct(ts.last(), punct) {
        ts.push(
            TokenTree::Punct(
                Punct {
                    ch: punct,
                    spacing: Spacing::Alone,
                    span: match span {
                        Some(s) => s,
                        None => Span(0),
                    },
                },
            ),
        )
    } else {
        ts
    }
}

/// A where clause of the generated impl: the place of `where` and the
/// predicates.
pub struct JointWhere {
    pub where_span: Span,
    pub predicates: Vec<TokenTree>,
}

impl JointWhere {
    /// The predicates end with `,`, added at `span` (else at `where`) when
    /// they do not and are not empty.
    pub fn with_trailing_comma(self, span: Option<Span>) -> (r: Self)
        ensures
            r.where_span == self.where_span,
            r.predicates@ == trailing_punct(
                self.predicates@,
                ',',
                Some(
                    match span {
                        Some(s) => s,
                        None => self.where_span,
                    },
                ),
            ),
    {
        let JointWhere { where_span, predicates } = self;
        let sp = match span {
            Some(s) => s,
            None => where_span,
        };
        let predicates = with_trailing_punct_if_not_empty(predicates, ',', Some(sp));
        JointWhere { where_span, predicates }
    }

    /// The predicates, a `,` at the place of `where = (..)` when needed, and
    /// the bounds given there.
    pub fn concat(self, w: ItemAttrWhere) -> (r: Self)
        ensures
            r.where_span == self.where_span,
            r.predicates@ == trailing_punct(self.predicates@, ',', Some(w.where_span)) + w.bound@,
    {
        let ItemAttrWhere { where_span, bound } = w;
        let this = self.with_trailing_comma(Some(where_span));
        let JointWhere { where_span: ws, predicates } = this;
        let mut predicates = predicates;
        let mut bound = bound;
        predicates.append(&mut bound);
        JointWhere { where_span: ws, predicates }
    }
}

/// The where clause of the generated impl: the item's own where clause, the
/// bounds of `where = (..)`, or both joined by a `,` at the place of the
/// attribute's `where` when the item's predicates need one; at the place
/// of the item's `where` when it has one.
pub open spec fn joint_where(where_clause: Option<WhereClause<Vec<TokenTree>>>, append: Option<ItemAttrWhere>, r: Option<JointWhere>) -> bool {
    match (where_clause, append) {
        (None, None) => r is None,
        (Some(wc), None) => r matches Some(j) && j.where_span == wc.where_token.0.span && j.predicates
            == wc.predicates,
        (None, Some(a)) => r matches Some(j) && j.where_span == a.where_span && j.predicates == a.bound,
        (Some(wc), Some(a)) => r matches Some(j) && j.where_span == wc.where_token.0.span
            && j.predicates@ == trailing_punct(wc.predicates@, ',', Some(a.where_span)) + a.bound@,
    }
}

/// Joins the item's where clause with the bounds of `where = (..)`.
pub fn join_where(where_clause: Option<WhereClause<Vec<TokenTree>>>, append: Option<ItemAttrWhere>) -> (r: Option<JointWhere>)
    ensures
        joint_where(where_clause, append, r),
{
    match (where_clause, append) {
        (None, None) => None,
        (Some(wc), None) => Some(JointWhere { where_span: wc.where_token.0.span, predicates: wc.predicates }),
        (None, Some(a)) => Some(JointWhere { where_span: a.where_span, predicates: a.bound }),
        (Some(wc), Some(a)) => {
            let ItemAttrWhere { where_span, bound } = a;
            let mut predicates = with_trailing_punct_if_not_empty(wc.predicates, ',', Some(where_span));
            let mut bound = bound;
            predicates.append(&mut bound);
            Some(JointWhere { where_span: wc.where_token.0.span, predicates })
        },
    }
}

/// The group in `delimiter`: itself when it already is, else its tokens in
/// the new brackets at the places of the old ones.
pub fn make_delimiter(g: Group, delimiter: Delimiter) -> (r: Group)
    ensures
        r.delimiter == delimiter,
        r.stream == g.stream,
        r.span_open == g.span_open,
        r.span_close == g.span_close,
{
    if g.delimiter == delimiter {
        return g;
    }
    Group { delimiter, stream: g.stream, span_open: g.span_open, span_close: g.span_close }
}

/// The group in `[..]`.
pub fn make_bracket(g: Group) -> (r: Group)
    ensures
        r.delimiter == Delimiter::Bracket,
        r.stream == g.stream,
        r.span_open == g.span_open,
        r.span_close == g.span_close,
{
    make_delimiter(g, Delimiter::Bracket)
}

/// The generated tokens of a struct or of an enum.
pub enum ToJsonItemData {
    Struct(Vec<TokenTree>),
    Enum(Vec<TokenTree>),
}

impl ToJsonItemData {
    /// The tokens.
    pub fn into_tokens(self) -> (r: Vec<TokenTree>)
        ensures
            r == match self {
                ToJsonItemData::Struct(ts) => ts,
                ToJsonItemData::Enum(ts) => ts,
            },
    {
        match self {
            ToJsonItemData::Struct(ts) => ts,
            ToJsonItemData::Enum(ts) => ts,
        }
    }
}

/// Which of the two traits the derive is for.
#[derive(Clone, Copy, PartialEq, Eq, Structural)]
pub enum DeriveWhich {
    Both,
    IntoJson,
    ToJson,
}

/// A punctuation character standing alone.
pub open spec fn d_punct(ch: char, span: Span) -> DeepToken {
    DeepToken::Punct(Punct { ch, spacing: Spacing::Alone, span })
}

/// `name ! [stream] ,`: one part of the generated macro call.
pub open spec fn d_bang_part(name: Seq<u8>, span: Span, stream: Seq<DeepToken>, open: Span, close: Span, comma: Span) -> Seq<DeepToken> {
    seq![
        DeepToken::Ident(name, span),
        d_punct('!', span),
        DeepToken::Group(Delimiter::Bracket, stream, open, close),
        d_punct(',', comma),
    ]
}

/// The part for an item argument that hands over a group, at the place of
/// the argument; nothing when it is absent.
pub open spec fn d_group_part(name: Seq<u8>, arg: Option<MetaPathSpanWith<Group>>) -> Seq<DeepToken> {
    match arg {
        None => Seq::empty(),
        Some(MetaPathSpanWith(span, g)) => d_bang_part(
            name,
            span,
            deep_seq(g.stream@),
            g.span_open,
            g.span_close,
            span,
        ),
    }
}

/// The part for a where clause: its name at the place of `where`, and the
/// predicates in brackets at the place of the macro call.
pub open spec fn d_where_part(name: Seq<u8>, w: Option<(Span, Seq<TokenTree>)>) -> Seq<DeepToken> {
    match w {
        None => Seq::empty(),
        Some((span, predicates)) => d_bang_part(
            name,
            span,
            deep_seq(predicates),
            Span(0),
            Span(0),
            Span(0),
        ),
    }
}

/// The bounds of `where = (..)` as a where clause.
pub open spec fn attr_where(w: Option<ItemAttrWhere>) -> Option<(Span, Seq<TokenTree>)> {
    match w {
        None => None,
        Some(a) => Some((a.where_span, a.bound@)),
    }
}

/// The bounds that a derive of one trait alone adds to the main where clause:
/// those given for that trait.
pub open spec fn appended_where(which: DeriveWhich, where_to: Option<ItemAttrWhere>, where_into: Option<ItemAttrWhere>) -> Option<ItemAttrWhere> {
    match which {
        DeriveWhich::Both => None,
        DeriveWhich::IntoJson => where_into,
        DeriveWhich::ToJson => where_to,
    }
}

/// The where clauses given for each trait that stay separate: both when both
/// traits are derived, none otherwise.
pub open spec fn separate_wheres(which: DeriveWhich, where_to: Option<ItemAttrWhere>, where_into: Option<ItemAttrWhere>) -> (Option<ItemAttrWhere>, Option<ItemAttrWhere>) {
    match which {
        DeriveWhich::Both => (where_to, where_into),
        _ => (None, None),
    }
}

/// The main where clause after the bounds for the derived trait were joined
/// to it, before any trailing `,`.
pub open spec fn main_where(w: Option<JointWhere>, append: Option<ItemAttrWhere>) -> Option<(Span, Seq<TokenTree>)> {
    match (w, append) {
        (None, None) => None,
        (Some(j), None) => Some((j.where_span, j.predicates@)),
        (None, Some(a)) => Some((a.where_span, a.bound@)),
        (Some(j), Some(a)) => Some(
            (j.where_span, trailing_punct(j.predicates@, ',', Some(a.where_span)) + a.bound@),
        ),
    }
}

/// The main where clause as generated: it ends with `,` (at the place of
/// `where`) when a separate where clause follows it.
pub open spec fn final_where(w: Option<(Span, Seq<TokenTree>)>, comma: bool) -> Option<(Span, Seq<TokenTree>)> {
    match w {
        None => None,
        Some((span, p)) => Some((span, if comma { trailing_punct(p, ',', Some(span)) } else { p })),
    }
}

/// The name of the macro that the generated call goes to.
pub open spec fn impl_macro_name(which: DeriveWhich) -> Seq<u8> {
    match which {
        DeriveWhich::Both => "impl_json".spec_bytes(),
        DeriveWhich::IntoJson => "impl_into_json".spec_bytes(),
        DeriveWhich::ToJson => "impl_to_json".spec_bytes(),
    }
}

/// An item to derive for, read and checked: what the generated macro call
/// is made of.
pub struct ToJsonItem {
    pub name: Ident,
    pub impl_generics: Vec<TokenTree>,
    pub ty_generics: Vec<TokenTree>,
    pub where_clause: Option<JointWhere>,
    pub where_to: Option<ItemAttrWhere>,
    pub where_into: Option<ItemAttrWhere>,
    pub derive_from: Option<MetaPathSpanWith<Group>>,
    pub is_chainable_and_always_empty: Option<MetaPathSpanWith<Group>>,
    pub json_kind: Option<MetaPathSpanWith<Group>>,
    pub data: ToJsonItemData,
}

/// The tokens inside the parentheses of the generated macro call.
pub open spec fn item_call_args(item: ToJsonItem, which: DeriveWhich) -> Seq<DeepToken> {
    let (to, into) = separate_wheres(which, item.where_to, item.where_into);
    let w = final_where(
        main_where(item.where_clause, appended_where(which, item.where_to, item.where_into)),
        to is Some || into is Some,
    );
    let data = match item.data {
        ToJsonItemData::Struct(ts) => ts,
        ToJsonItemData::Enum(ts) => ts,
    };
    seq![
        DeepToken::Ident("impl_generics".spec_bytes(), Span(0)),
        d_punct('!', Span(0)),
        DeepToken::Group(Delimiter::Bracket, deep_seq(item.impl_generics@), Span(0), Span(0)),
        d_punct(',', Span(0)),
    ]
        + d_group_part("derive_from".spec_bytes(), item.derive_from)
        + d_where_part("where_clause".spec_bytes(), w)
        + d_where_part("where_clause_to".spec_bytes(), attr_where(to))
        + d_where_part("where_clause_into".spec_bytes(), attr_where(into))
        + d_group_part("JsonKind".spec_bytes(), item.json_kind)
        + d_group_part("IS_CHAINABLE_AND_ALWAYS_EMPTY".spec_bytes(), item.is_chainable_and_always_empty)
        + seq![
        d_punct('|', Span(0)),
        DeepToken::Ident("self".spec_bytes(), Span(0)),
        d_punct(':', Span(0)),
        DeepToken::Ident(item.name.name@, item.name.span),
        d_punct('<', Span(0)),
    ] + deep_seq(item.ty_generics@) + seq![d_punct('>', Span(0)), d_punct('|', Span(0))] + deep_seq(data@)
}

/// The generated macro call: `crate_path::macro_name!( args );`.
pub open spec fn item_call(crate_path: Seq<TokenTree>, item: ToJsonItem, which: DeriveWhich) -> Seq<DeepToken> {
    deep_seq(crate_path) + seq![
        DeepToken::Punct(Punct { ch: ':', spacing: Spacing::Joint, span: Span(0) }),
        d_punct(':', Span(0)),
        DeepToken::Ident(impl_macro_name(which), Span(0)),
        d_punct('!', Span(0)),
        DeepToken::Group(Delimiter::Parenthesis, item_call_args(item, which), Span(0), Span(0)),
        d_punct(';', Span(0)),
    ]
}

/// A punctuation character standing alone at `span`.
pub(crate) fn punct_tt(ch: char, span: Span) -> (r: TokenTree)
    ensures
        deep_tt(r) == d_punct(ch, span),
{
    TokenTree::Punct(Punct { ch, spacing: Spacing::Alone, span })
}

/// An identifier at `span`.
pub(crate) fn ident_tt(name: &str, span: Span) -> (r: TokenTree)
    ensures
        deep_tt(r) == DeepToken::Ident(name.spec_bytes(), span),
{
    TokenTree::Ident(make_ident(name, span))
}

/// Adds one token at the end.
pub(crate) fn push_tt(out: &mut Vec<TokenTree>, t: TokenTree)
    ensures
        deep_seq(final(out)@) == deep_seq(old(out)@).push(deep_tt(t)),
{
    proof {
        lemma_deep_seq_push(out@, t);
    }
    out.push(t);
}

/// Adds tokens at the end.
fn append_tts(out: &mut Vec<TokenTree>, ts: Vec<TokenTree>)
    ensures
        deep_seq(final(out)@) == deep_seq(old(out)@) + deep_seq(ts@),
{
    proof {
        lemma_deep_seq_add(out@, ts@);
    }
    let mut ts = ts;
    out.append(&mut ts);
}

/// Adds `name ! [stream] ,`.
fn push_bang_part(out: &mut Vec<TokenTree>, name: &str, span: Span, g: Group, comma: Span)
    requires
        g.delimiter == Delimiter::Bracket,
    ensures
        deep_seq(final(out)@) == deep_seq(old(out)@) + d_bang_part(
            name.spec_bytes(),
            span,
            deep_seq(g.stream@),
            g.span_open,
            g.span_close,
            comma,
        ),
{
    let ghost o0 = deep_seq(out@);
    let ghost gs = deep_seq(g.stream@);
    let ghost (so, sc) = (g.span_open, g.span_close);
    push_tt(out, ident_tt(name, span));
    push_tt(out, punct_tt('!', span));
    push_tt(out, TokenTree::Group(g));
    push_tt(out, punct_tt(',', comma));
    assert(deep_seq(out@) =~= o0 + d_bang_part(name.spec_bytes(), span, gs, so, sc, comma));
}

/// Adds the part for an item argument that hands over a group.
fn push_group_part(out: &mut Vec<TokenTree>, name: &str, arg: Option<MetaPathSpanWith<Group>>)
    ensures
        deep_seq(final(out)@) == deep_seq(old(out)@) + d_group_part(name.spec_bytes(), arg),
{
    match arg {
        None => {
            assert(deep_seq(out@) + Seq::<DeepToken>::empty() =~= deep_seq(out@));
        },
        Some(MetaPathSpanWith(span, g)) => {
            let g = make_bracket(g);
            push_bang_part(out, name, span, g, span);
        },
    }
}

/// A where clause as its place and predicates.
pub open spec fn where_view(w: Option<(Span, Vec<TokenTree>)>) -> Option<(Span, Seq<TokenTree>)> {
    match w {
        None => None,
        Some((s, p)) => Some((s, p@)),
    }
}

/// Adds the part for a where clause.
fn push_where_part(out: &mut Vec<TokenTree>, name: &str, w: Option<(Span, Vec<TokenTree>)>)
    ensures
        deep_seq(final(out)@) == deep_seq(old(out)@) + d_where_part(name.spec_bytes(), where_view(w)),
{
    match w {
        None => {
            assert(deep_seq(out@) + Seq::<DeepToken>::empty() =~= deep_seq(out@));
        },
        Some((span, predicates)) => {
            let g = Group { delimiter: Delimiter::Bracket, stream: predicates, span_open: Span(0), span_close: Span(0) };
            push_bang_part(out, name, span, g, Span(0));
        },
    }
}

/// The three where clauses of the generated call: the main one, and those
/// for each trait that stay apart.
fn merge_wheres(
    where_clause: Option<JointWhere>,
    where_to: Option<ItemAttrWhere>,
    where_into: Option<ItemAttrWhere>,
    which: DeriveWhich,
) -> (r: (Option<(Span, Vec<TokenTree>)>, Option<(Span, Vec<TokenTree>)>, Option<(Span, Vec<TokenTree>)>))
    ensures
        ({
            let (to, into) = separate_wheres(which, where_to, where_into);
            &&& where_view(r.0) == final_where(
                main_where(where_clause, appended_where(which, where_to, where_into)),
                to is Some || into is Some,
            )
            &&& where_view(r.1) == attr_where(to)
            &&& where_view(r.2) == attr_where(into)
        }),
{
    let (where_append, where_to, where_into) = match which {
        DeriveWhich::Both => (None, where_to, where_into),
        DeriveWhich::IntoJson => (where_into, None, None),
        DeriveWhich::ToJson => (where_to, None, None),
    };
    let where_clause = match (where_clause, where_append) {
        (None, Some(a)) => Some(JointWhere { where_span: a.where_span, predicates: a.bound }),
        (Some(w), Some(a)) => Some(w.concat(a)),
        (v, None) => v,
    };
    let comma = where_to.is_some() || where_into.is_some();
    let where_clause = match where_clause {
        None => None,
        Some(w) => {
            let w = if comma {
                w.with_trailing_comma(None)
            } else {
                w
            };
            Some((w.where_span, w.predicates))
        },
    };
    let where_clause_to = match where_to {
        None => None,
        Some(a) => Some((a.where_span, a.bound)),
    };
    let where_clause_into = match where_into {
        None => None,
        Some(a) => Some((a.where_span, a.bound)),
    };
    (where_clause, where_clause_to, where_clause_into)
}

impl ToJsonItem {
    /// The macro call that implements the derived traits for the item. When
    /// only one trait is derived, the where clause given for it joins the
    /// main one and the other is dropped; when both are, they stay apart and
    /// the main where clause ends with `,`.
    #[verifier::rlimit(60)]
    pub fn into_tokens(self, crate_path: Vec<TokenTree>, derive_which: DeriveWhich) -> (r: Vec<TokenTree>)
        ensures
            deep_seq(r@) == item_call(crate_path@, self, derive_which),
    {
        let ghost this = self;
        let ToJsonItem {
            name,
            impl_generics,
            ty_generics,
            where_clause,
            where_to,
            where_into,
            derive_from,
            is_chainable_and_always_empty,
            json_kind,
            data,
        } = self;
        let (w, wt, wi) = merge_wheres(where_clause, where_to, where_into, derive_which);
        let ghost dn = data;
        let ghost nm = name;
        let ghost ig = impl_generics@;
        let ghost tg = ty_generics@;
        let mut args: Vec<TokenTree> = Vec::new();
        push_tt(&mut args, ident_tt("impl_generics", Span(0)));
        push_tt(&mut args, punct_tt('!', Span(0)));
        push_tt(
            &mut args,
            TokenTree::Group(Group { delimiter: Delimiter::Bracket, stream: impl_generics, span_open: Span(0), span_close: Span(0) }),
        );
        push_tt(&mut args, punct_tt(',', Span(0)));
        let ghost a0 = deep_seq(args@);
        assert(a0 =~= seq![
            DeepToken::Ident("impl_generics".spec_bytes(), Span(0)),
            d_punct('!', Span(0)),
            DeepToken::Group(Delimiter::Bracket, deep_seq(ig), Span(0), Span(0)),
            d_punct(',', Span(0)),
        ]);
        push_group_part(&mut args, "derive_from", derive_from);
        push_where_part(&mut args, "where_clause", w);
        push_where_part(&mut args, "where_clause_to", wt);
        push_where_part(&mut args, "where_clause_into", wi);
        push_group_part(&mut args, "JsonKind", json_kind);
        push_group_part(&mut args, "IS_CHAINABLE_AND_ALWAYS_EMPTY", is_chainable_and_always_empty);
        let ghost a1 = deep_seq(args@);
        push_tt(&mut args, punct_tt('|', Span(0)));
        push_tt(&mut args, ident_tt("self", Span(0)));
        push_tt(&mut args, punct_tt(':', Span(0)));
        push_tt(&mut args, TokenTree::Ident(name));
        push_tt(&mut args, punct_tt('<', Span(0)));
        assert(deep_seq(args@) =~= a1 + seq![
            d_punct('|', Span(0)),
            DeepToken::Ident("self".spec_bytes(), Span(0)),
            d_punct(':', Span(0)),
            DeepToken::Ident(nm.name@, nm.span),
            d_punct('<', Span(0)),
        ]);
        let ghost a2 = deep_seq(args@);
        append_tts(&mut args, ty_generics);
        push_tt(&mut args, punct_tt('>', Span(0)));
        push_tt(&mut args, punct_tt('|', Span(0)));
        assert(deep_seq(args@) =~= a2 + deep_seq(tg) + seq![d_punct('>', Span(0)), d_punct('|', Span(0))]);
        append_tts(&mut args, data.into_tokens());
        proof {
            assert(deep_seq(args@) =~= item_call_args(this, derive_which));
        }
        let macro_name = match derive_which {
            DeriveWhich::Both => "impl_json",
            DeriveWhich::IntoJson => "impl_into_json",
            DeriveWhich::ToJson => "impl_to_json",
        };
        let ghost args_v = deep_seq(args@);
        let ghost c0 = deep_seq(crate_path@);
        let mut out = crate_path;
        push_tt(&mut out, TokenTree::Punct(Punct { ch: ':', spacing: Spacing::Joint, span: Span(0) }));
        push_tt(&mut out, punct_tt(':', Span(0)));
        push_tt(&mut out, ident_tt(macro_name, Span(0)));
        push_tt(&mut out, punct_tt('!', Span(0)));
        push_tt(
            &mut out,
            TokenTree::Group(Group { delimiter: Delimiter::Parenthesis, stream: args, span_open: Span(0), span_close: Span(0) }),
        );
        push_tt(&mut out, punct_tt(';', Span(0)));
        proof {
            assert(deep_seq(out@) =~= item_call(crate_path@, this, derive_which));
        }
        out
    }
}

/// What the derive reads before the item itself: the keyword `struct` or
/// `enum`, the bounds of `where = (..)`, where `any_value` was given, and
/// the item arguments.
pub struct ToJson {
    pub first_ident: Ident,
    pub append_where_clause: Option<ItemAttrWhere>,
    pub any_value: Option<Span>,
    pub item_attrs: crate::json_item::ItemAttrsParser,
}

/// A struct or an enum as read, ready for the code generator; an enum keeps
/// the place of `any_value`.
pub enum ParsedItemData {
    Struct(MakeContextOfStruct),
    Enum(MakeContextOfEnum, Option<Span>),
}

/// An item read by `ToJson::try_parse`: its name, generics, joint where
/// clause and body.
pub struct ParsedToJsonItem {
    pub name: Ident,
    pub impl_generics: Vec<TokenTree>,
    pub ty_generics: Vec<TokenTree>,
    pub where_clause: Option<JointWhere>,
    pub data: ParsedItemData,
    /// The JSON form of a struct built from its fields, where its
    /// arguments give no template.
    pub json: Option<Vec<TokenTree>>,
}

/// The keyword is `struct`.
pub open spec fn is_struct_kw(i: Ident) -> bool {
    i.name@ == "struct".spec_bytes()
}

/// The keyword is `enum` (and not `struct`).
pub open spec fn is_enum_kw(i: Ident) -> bool {
    !is_struct_kw(i) && i.name@ == "enum".spec_bytes()
}

/// The generics read from `st`, the tokens after the name: those of
/// `parse_generics` when they start with `<` and read without error; none
/// otherwise.
pub open spec fn generics_read(st: StreamState, imp: Seq<TokenTree>, ty: Seq<TokenTree>) -> bool {
    if st.toks.len() > 0 && is_punct(st.toks[0], '<') {
        match generics_params(take_n(st, 1), Seq::empty(), Seq::empty()).0 {
            Ok((i, t)) => tts_view(imp) == i && tts_view(ty) == t,
            Err(_) => imp.len() == 0 && ty.len() == 0,
        }
    } else {
        imp.len() == 0 && ty.len() == 0
    }
}

/// The state after the generics that follow the name, read from `st`.
pub open spec fn after_generics(st: StreamState) -> StreamState {
    if st.toks.len() > 0 && is_punct(st.toks[0], '<') {
        generics_params(take_n(st, 1), Seq::empty(), Seq::empty()).1
    } else {
        st
    }
}

/// A struct whose body is `(..)` and then its where clause: `(..)` comes
/// right after the generics, with no where clause before it.
pub open spec fn struct_is_paren(st: StreamState) -> bool {
    let st1 = after_where(st);
    st1.toks.len() > 0 && is_group_in(st1.toks[0], Delimiter::Parenthesis) && where_outcome(st) is Absent
}

/// Where the where clause of a struct stands: after its `(..)` for a tuple
/// struct, else right after the generics.
pub open spec fn struct_where_state(st: StreamState) -> StreamState {
    if struct_is_paren(st) {
        take_n(after_where(st), 1)
    } else {
        st
    }
}

/// The body of a struct reads from `st`, as `parse_struct_after_generics`
/// reads it: a where clause without error, then `{..}` or `;`; or `(..)`, a
/// where clause without error and `;`.
pub open spec fn struct_body_reads(st: StreamState) -> bool {
    !(where_outcome(st) is Failed) && if struct_is_paren(st) {
        let st2 = take_n(after_where(st), 1);
        let st3 = after_where(st2);
        !(where_outcome(st2) is Failed) && st3.toks.len() > 0 && is_punct(st3.toks[0], ';')
    } else {
        let st1 = after_where(st);
        st1.toks.len() > 0 && (is_group_in(st1.toks[0], Delimiter::Brace) || is_punct(st1.toks[0], ';'))
    }
}

/// The body of an enum reads from `st`, as `parse_enum_after_generics`
/// reads it: a where clause without error, then `{..}`.
pub open spec fn enum_body_reads(st: StreamState) -> bool {
    let st1 = after_where(st);
    !(where_outcome(st) is Failed) && st1.toks.len() > 0 && is_group_in(st1.toks[0], Delimiter::Brace)
}

/// `r` is the where clause read at `st` joined with the bounds of
/// `where = (..)`, as `join_where` joins them.
pub open spec fn where_joined(st: StreamState, append: Option<ItemAttrWhere>, r: Option<JointWhere>) -> bool {
    match where_outcome(st) {
        WhereOutcome::Absent => match append {
            None => r is None,
            Some(a) => r matches Some(j) && j.where_span == a.where_span && j.predicates == a.bound,
        },
        WhereOutcome::Present(st1, n) => {
            let preds = st1.toks.subrange(0, n);
            let ws = st.toks[0]->Ident_0.span;
            match append {
                None => r matches Some(j) && j.where_span == ws && j.predicates@ == preds,
                Some(a) => r matches Some(j) && j.where_span == ws && j.predicates@ == trailing_punct(
                    preds,
                    ',',
                    Some(a.where_span),
                ) + a.bound@,
            }
        },
        WhereOutcome::Failed(_, _) => false,
    }
}

/// The errors that reading generics at `st` reports.
pub open spec fn generics_errors(st: StreamState) -> Seq<ParseErrorKind> {
    if st.toks.len() > 0 && is_punct(st.toks[0], '<') {
        match generics_params(take_n(st, 1), Seq::empty(), Seq::empty()).0 {
            Err(GenericsError::Unexpected(sp)) => seq![ParseErrorKind::UnexpectedToken { span: sp }],
            Err(GenericsError::Eof(a)) => seq![ParseErrorKind::UnexpectedEof { after: a }],
            Ok(_) => Seq::empty(),
        }
    } else {
        Seq::empty()
    }
}

/// `sd` is the body of a struct read at `st`, as
/// `parse_struct_after_generics` reads it: `(..)` and its `;`, `{..}`, or
/// `;`.
pub open spec fn struct_data_at(st: StreamState, sd: StructData) -> bool {
    let st1 = after_where(st);
    if struct_is_paren(st) {
        let st3 = after_where(take_n(st1, 1));
        sd matches StructData::Paren { paren, semi } && TokenTree::Group(paren.0) == st1.toks[0]
            && TokenTree::Punct(semi.0) == st3.toks[0]
    } else if st1.toks.len() > 0 && is_group_in(st1.toks[0], Delimiter::Brace) {
        sd matches StructData::Brace(g) && TokenTree::Group(g.0) == st1.toks[0]
    } else {
        sd matches StructData::Semi(p) && TokenTree::Punct(p.0) == st1.toks[0]
    }
}

/// Where the stream stands after the body of an item that reads from
/// `st`, the state after its generics: after `(..)`, its where clause and
/// `;` for a tuple struct, else after the `{..}` or `;` that follows the
/// where clause.
pub open spec fn body_end(is_struct: bool, st: StreamState) -> StreamState {
    if is_struct && struct_is_paren(st) {
        take_n(after_where(take_n(after_where(st), 1)), 1)
    } else {
        take_n(after_where(st), 1)
    }
}

/// The error that stops reading the body of an item from `st`, the state
/// after its generics, when it does not read: that of the where clause, or
/// the token where `(..)`, `{..}` or `;` should stand.
#[verifier::opaque]
pub open spec fn body_stop(is_struct: bool, st: StreamState) -> ErrSpec {
    let st1 = after_where(st);
    match where_outcome(st) {
        WhereOutcome::Failed(e, sp) => ErrSpec::Custom(crate::syn_generic::where_error_msg(e), Some(sp)),
        _ => if is_struct {
            if struct_is_paren(st) {
                let st2 = take_n(st1, 1);
                match where_outcome(st2) {
                    WhereOutcome::Failed(e, sp) => ErrSpec::Custom(crate::syn_generic::where_error_msg(e), Some(sp)),
                    _ => ErrSpec::Custom("expect `;`"@, crate::syn_generic::span_open_or_prev(after_where(st2))),
                }
            } else {
                ErrSpec::Custom("unexpected token"@, crate::syn_generic::span_open_or_prev(st1))
            }
        } else {
            ErrSpec::Custom("expect `{...}`"@, crate::syn_generic::span_open_or_prev(st1))
        },
    }
}

/// Reads the body of a struct after its generics: the where clause and
/// `{..}` or `;`, or `(..)`, the where clause and `;`.
fn read_struct_body(input: &mut ParsingTokenStream) -> (r: Result<(Option<WhereClause<crate::syn_generic::ConsumedTokens>>, StructData), ParseError>)
    ensures
        r matches Ok((wc, sd)) ==> crate::syn_generic::where_clause_matches(wc, struct_where_state(old(input).state()))
            && struct_data_at(old(input).state(), sd) && final(input).state() == body_end(true, old(input).state()),
        (r is Ok) == struct_body_reads(old(input).state()),
        r matches Err(e) ==> err_is(e, body_stop(true, old(input).state())),
{
    let r = input.parse_struct_after_generics();
    proof {
        reveal(body_stop);
    }
    r
}

/// Reads the body of an enum after its generics: the where clause and
/// `{..}`.
fn read_enum_body(input: &mut ParsingTokenStream) -> (r: Result<(Option<WhereClause<crate::syn_generic::ConsumedTokens>>, GroupBrace), ParseError>)
    ensures
        r matches Ok((wc, g)) ==> crate::syn_generic::where_clause_matches(wc, old(input).state())
            && TokenTree::Group(g.0) == after_where(old(input).state()).toks[0]
            && final(input).state() == body_end(false, old(input).state()),
        (r is Ok) == enum_body_reads(old(input).state()),
        r matches Err(e) ==> err_is(e, body_stop(false, old(input).state())),
{
    let r = input.parse_enum_after_generics();
    proof {
        reveal(body_stop);
    }
    r
}

/// The error that stops reading the item from `st`, the state after its
/// keyword, when it does not read: a keyword other than `struct` or
/// `enum`, a missing name, or the error of its body.
#[verifier::opaque]
pub open spec fn item_stop(this: ToJson, st: StreamState) -> ErrSpec {
    if !is_struct_kw(this.first_ident) && !is_enum_kw(this.first_ident) {
        ErrSpec::Custom("expect `struct` or `enum`"@, Some(this.first_ident.span))
    } else if st.toks.len() == 0 {
        ErrSpec::Eof(st.prev)
    } else if !(st.toks[0] is Ident) {
        ErrSpec::Unexpected(span_open_or_entire(st.toks[0]))
    } else {
        body_stop(is_struct_kw(this.first_ident), after_generics(take_n(st, 1)))
    }
}

/// The error for tokens left after an item when the stream stands at `st`.
pub open spec fn eof_errors_at(st: StreamState) -> Seq<ParseErrorKind> {
    if st.toks.len() > 0 {
        seq![ParseErrorKind::Custom { msg: "expect eof", span: st.prev }]
    } else {
        Seq::empty()
    }
}

/// The error for tokens left in `input` after an item.
pub open spec fn eof_errors(input: ParsingTokenStream) -> Seq<ParseErrorKind> {
    if input.s@.len() > 0 {
        seq![ParseErrorKind::Custom { msg: "expect eof", span: input.prev_span }]
    } else {
        Seq::empty()
    }
}

/// The errors that reading an item reports before its body, after
/// `before`: those of `before_body_errors`, then those of the item
/// arguments that the struct or enum does not take.
pub open spec fn args_errors(this: ToJson, st_name: StreamState, before: Seq<ParseErrorKind>) -> Seq<ParseErrorKind> {
    if is_struct_kw(this.first_ident) {
        with_struct_arg_errors(before + before_body_errors(this, st_name), this.item_attrs)
    } else {
        with_enum_arg_errors(before + before_body_errors(this, st_name), this.item_attrs)
    }
}

/// The errors that reading an item reports before its body: those of its
/// generics, and `any_value` given to a struct.
pub open spec fn before_body_errors(this: ToJson, st_name: StreamState) -> Seq<ParseErrorKind> {
    generics_errors(st_name) + if is_struct_kw(this.first_ident) && this.any_value is Some {
        seq![
            ParseErrorKind::Custom {
                msg: "struct doesn't support any_value",
                span: Some(this.any_value.unwrap()),
            },
        ]
    } else {
        Seq::empty()
    }
}

/// The errors of building a struct's JSON form: none where a template is
/// given, as nothing is built then.
pub open spec fn struct_json_errs(c: MakeContextOfStruct) -> Seq<ParseErrorKind> {
    if plain_struct(c) {
        struct_default_errors(c)
    } else {
        Seq::empty()
    }
}

/// The errors of building the JSON forms of an enum's variants: none where
/// a template is given, as nothing is built then.
pub open spec fn enum_json_errs(e: MakeContextOfEnum) -> Seq<ParseErrorKind> {
    if plain_enum(e) {
        enum_json_errors(e, e.variants@.len() as int)
    } else {
        Seq::empty()
    }
}

/// `es` are the errors of reading the body of the item (after its generics
/// at `st`) made into `data`, and of building its JSON form: for a struct,
/// those of its fields, a misplaced `transparent`, then the form's; for an
/// enum, more than one tag mode given, those of its variants, then the
/// forms'.
pub open spec fn item_body_errs(t: ToJson, st: StreamState, data: ParsedItemData, es: Seq<ParseErrorKind>) -> bool {
    match data {
        ParsedItemData::Struct(ctx) => exists|sd: StructData, fb: Seq<ParseErrorKind>|
            #![trigger struct_data_at(st, sd), fields_body_errs(fields_of(sd), fb)]
            struct_data_at(st, sd) && fields_body_errs(fields_of(sd), fb) && es == fb + transparent_errs(
                struct_attrs_of(t.item_attrs).transparent,
                ctx.fields@,
            ) + struct_json_errs(ctx),
        ParsedItemData::Enum(ctx, _) => exists|g: GroupBrace, vb: Seq<ParseErrorKind>|
            #![trigger enum_body_errs(StreamState { toks: g.0.stream@, prev: None }, ctx.variants@, vb)]
            TokenTree::Group(g.0) == after_where(st).toks[0] && enum_body_errs(
                StreamState { toks: g.0.stream@, prev: None },
                ctx.variants@,
                vb,
            ) && es == extra_mode_errors(tag_mode_flags(enum_tag_flags(enum_attrs_of(t.item_attrs))), 0) + vb
                + enum_json_errs(ctx),
    }
}

/// Reads the body of a struct with its arguments, and builds its JSON form:
/// the struct, its form, the errors of both, and the names of the fields'
/// arguments.
fn struct_body(attrs: StructAttrs, name: Ident, struct_data: StructData, crate_path: Vec<TokenTree>) -> (r: (
    MakeContextOfStruct,
    Option<Vec<TokenTree>>,
    ErrorCollector,
    Vec<IdentTree>,
))
    ensures
        struct_made(attrs, name, struct_data, Options { crate_path }, r.0),
        r.1 is Some <==> plain_struct(r.0),
        r.1 matches Some(ts) ==> deep_seq(ts@) == struct_default_json(r.0),
        exists|fb: Seq<ParseErrorKind>|
            errs(r.2) == fb + transparent_errs(attrs.transparent, r.0.fields@) + struct_json_errs(r.0)
                && #[trigger] fields_body_errs(fields_of(struct_data), fb),
{
    let mut body_errors = ErrorCollector::new();
    let mut field_ident_trees: Vec<IdentTree> = Vec::new();
    let ghost tr = attrs.transparent;
    let ctx = attrs.parse(name, struct_data, &mut body_errors, &mut field_ident_trees, Options { crate_path });
    let ghost e1 = errs(body_errors);
    let js = ctx.json_tokens(&mut body_errors);
    proof {
        let fb = choose|fb: Seq<ParseErrorKind>|
            e1 == Seq::<ParseErrorKind>::empty() + fb + transparent_errs(tr, ctx.fields@) && #[trigger] fields_body_errs(
                fields_of(struct_data),
                fb,
            );
        assert(errs(body_errors) =~= fb + transparent_errs(tr, ctx.fields@) + struct_json_errs(ctx));
    }
    (ctx, js, body_errors, field_ident_trees)
}

/// Reads the body of an enum with its arguments, and builds its JSON form:
/// the enum, its form, the errors of both, and the names of the variants'
/// arguments.
fn enum_body(attrs: EnumAttrs, name: Ident, enum_brace: GroupBrace, crate_path: Vec<TokenTree>) -> (r: (
    MakeContextOfEnum,
    Option<Vec<TokenTree>>,
    ErrorCollector,
    Vec<IdentTree>,
))
    ensures
        enum_made(attrs, name, enum_brace, Options { crate_path }, r.0),
        r.1 is Some <==> plain_enum(r.0),
        r.1 matches Some(ts) ==> ts@.len() == 0,
        exists|vb: Seq<ParseErrorKind>|
            errs(r.2) == extra_mode_errors(tag_mode_flags(enum_tag_flags(attrs)), 0) + vb + enum_json_errs(r.0)
                && #[trigger] enum_body_errs(StreamState { toks: enum_brace.0.stream@, prev: None }, r.0.variants@, vb),
{
    let mut body_errors = ErrorCollector::new();
    let mut variant_ident_trees: Vec<IdentTree> = Vec::new();
    let ghost fl = enum_tag_flags(attrs);
    let ctx = attrs.parse(name, enum_brace, &mut body_errors, &mut variant_ident_trees, Options { crate_path });
    let ghost e1 = errs(body_errors);
    let js = ctx.json_tokens(&mut body_errors);
    proof {
        let vb = choose|vb: Seq<ParseErrorKind>|
            e1 == Seq::<ParseErrorKind>::empty() + extra_mode_errors(tag_mode_flags(fl), 0) + vb && #[trigger] enum_body_errs(
                StreamState { toks: enum_brace.0.stream@, prev: None },
                ctx.variants@,
                vb,
            );
        assert(errs(body_errors) =~= extra_mode_errors(tag_mode_flags(fl), 0) + vb + enum_json_errs(ctx));
    }
    (ctx, js, body_errors, variant_ident_trees)
}

impl ToJson {
    /// Reads the item after its keyword: its name, its generics (an error
    /// there is reported and they are taken as empty), and its body, with
    /// the item arguments applied. The names of the fields or variants are
    /// added under `field` or `variant` to `ident_trees`.
    pub fn try_parse(
        self,
        input: &mut ParsingTokenStream,
        errors: &mut ErrorCollector,
        crate_path: Vec<TokenTree>,
        ident_trees: &mut Vec<IdentTree>,
    ) -> (r: Result<ParsedToJsonItem, ParseError>)
        ensures
            !is_struct_kw(self.first_ident) && !is_enum_kw(self.first_ident) ==> {
                &&& r matches Err(e) && is_custom(e, "expect `struct` or `enum`"@, Some(self.first_ident.span))
                &&& final(input).state() == old(input).state()
                &&& errs(*final(errors)) == errs(*old(errors))
                &&& final(ident_trees)@ == old(ident_trees)@
            },
            is_struct_kw(self.first_ident) || is_enum_kw(self.first_ident) ==> {
                &&& old(input).s@.len() == 0 ==> (r matches Err(e) && is_eof_after(e, old(input).prev_span))
                &&& old(input).s@.len() > 0 && !(old(input).s@[0] is Ident) ==> (r matches Err(e)
                    && is_unexpected_at(e, span_open_or_entire(old(input).s@[0])))
            },
            r matches Ok(item) ==> {
                &&& old(input).s@.len() > 0
                &&& old(input).s@[0] == TokenTree::Ident(item.name)
                &&& (item.data is Struct) == is_struct_kw(self.first_ident)
                &&& (item.data is Enum) == is_enum_kw(self.first_ident)
                &&& final(ident_trees)@.len() == old(ident_trees)@.len() + 1
                &&& final(ident_trees)@.drop_last() == old(ident_trees)@
                &&& final(ident_trees)@.last().ident.name@ == if is_struct_kw(self.first_ident) {
                    "field".spec_bytes()
                } else {
                    "variant".spec_bytes()
                }
                &&& final(ident_trees)@.last().ident.span == Span(0)
                &&& generics_read(take_n(old(input).state(), 1), item.impl_generics@, item.ty_generics@)
                &&& where_joined(
                    if is_struct_kw(self.first_ident) {
                        struct_where_state(after_generics(take_n(old(input).state(), 1)))
                    } else {
                        after_generics(take_n(old(input).state(), 1))
                    },
                    self.append_where_clause,
                    item.where_clause,
                )
                &&& match item.data {
                    ParsedItemData::Struct(ctx) => ctx.name.name@ == item.name.name@ && ctx.name.span
                        == item.name.span && ctx.options.crate_path == crate_path && exists|sd: StructData|
                        struct_data_at(after_generics(take_n(old(input).state(), 1)), sd) && struct_made(
                            struct_attrs_of(self.item_attrs),
                            ctx.name,
                            sd,
                            Options { crate_path },
                            ctx,
                        ),
                    ParsedItemData::Enum(ctx, av) => ctx.name.name@ == item.name.name@ && ctx.name.span
                        == item.name.span && ctx.options.crate_path == crate_path && av == self.any_value
                        && exists|g: GroupBrace|
                        TokenTree::Group(g.0) == after_where(after_generics(take_n(old(input).state(), 1))).toks[0]
                            && enum_made(enum_attrs_of(self.item_attrs), ctx.name, g, Options { crate_path }, ctx),
                }
                &&& match item.data {
                    ParsedItemData::Struct(ctx) => (item.json is Some <==> plain_struct(ctx)) && (item.json matches Some(
                        ts,
                    ) ==> deep_seq(ts@) == struct_default_json(ctx)),
                    ParsedItemData::Enum(ctx, _) => (item.json is Some <==> plain_enum(ctx)) && (item.json matches Some(
                        ts,
                    ) ==> ts@.len() == 0),
                }
                &&& final(input).state() == body_end(
                    is_struct_kw(self.first_ident),
                    after_generics(take_n(old(input).state(), 1)),
                )
                &&& exists|body: Seq<ParseErrorKind>|
                    errs(*final(errors)) == args_errors(self, take_n(old(input).state(), 1), errs(*old(errors)))
                        + body + eof_errors(*final(input)) && #[trigger] item_body_errs(
                        self,
                        after_generics(take_n(old(input).state(), 1)),
                        item.data,
                        body,
                    )
            },
            (is_struct_kw(self.first_ident) || is_enum_kw(self.first_ident)) && r is Err ==> errs(*final(errors))
                == errs(*old(errors)) + if old(input).s@.len() > 0 && old(input).s@[0] is Ident {
                before_body_errors(self, take_n(old(input).state(), 1))
            } else {
                Seq::empty()
            },
            r is Err ==> final(ident_trees)@ == old(ident_trees)@,
            r matches Err(e) ==> error_kinds(e).len() == 1 && err_is(e, item_stop(self, old(input).state())),
            (is_struct_kw(self.first_ident) || is_enum_kw(self.first_ident)) && old(input).s@.len() > 0
                && old(input).s@[0] is Ident ==> (r is Ok) == if is_struct_kw(self.first_ident) {
                struct_body_reads(after_generics(take_n(old(input).state(), 1)))
            } else {
                enum_body_reads(after_generics(take_n(old(input).state(), 1)))
            },
    {
        let is_struct = self.first_ident.matches("struct".as_bytes());
        if !is_struct && !self.first_ident.matches("enum".as_bytes()) {
            let r = ParseError::custom("expect `struct` or `enum`", Some(self.first_ident.span));
            assert(err_is(r, item_stop(self, old(input).state()))) by {
                reveal(item_stop);
            }
            return Err(r);
        }
        let ghost st0 = input.state();
        let item_name = match input.parse_ident() {
            Ok(i) => i,
            Err(e) => {
                let r = e.into_parse_error();
                assert(err_is(r, item_stop(self, st0))) by {
                    reveal(item_stop);
                }
                return Err(r);
            },
        };
        assert(input.state() == take_n(st0, 1));
        let ghost this = self;
        let r = self.parse_after_name(item_name, input, errors, crate_path, ident_trees);
        assert(r matches Err(e) ==> err_is(e, item_stop(this, st0))) by {
            reveal(item_stop);
        }
        r
    }

    /// Reads the item after its name: its generics, where clause and body.
    #[verifier::rlimit(100)]
    #[verifier::spinoff_prover]
    fn parse_after_name(
        self,
        item_name: Ident,
        input: &mut ParsingTokenStream,
        errors: &mut ErrorCollector,
        crate_path: Vec<TokenTree>,
        ident_trees: &mut Vec<IdentTree>,
    ) -> (r: Result<ParsedToJsonItem, ParseError>)
        requires
            is_struct_kw(self.first_ident) || is_enum_kw(self.first_ident),
        ensures
            r matches Ok(item) ==> {
                &&& item.name == item_name
                &&& (item.data is Struct) == is_struct_kw(self.first_ident)
                &&& (item.data is Enum) == is_enum_kw(self.first_ident)
                &&& final(ident_trees)@.len() == old(ident_trees)@.len() + 1
                &&& final(ident_trees)@.drop_last() == old(ident_trees)@
                &&& final(ident_trees)@.last().ident.name@ == if is_struct_kw(self.first_ident) {
                    "field".spec_bytes()
                } else {
                    "variant".spec_bytes()
                }
                &&& final(ident_trees)@.last().ident.span == Span(0)
                &&& generics_read(old(input).state(), item.impl_generics@, item.ty_generics@)
                &&& where_joined(
                    if is_struct_kw(self.first_ident) {
                        struct_where_state(after_generics(old(input).state()))
                    } else {
                        after_generics(old(input).state())
                    },
                    self.append_where_clause,
                    item.where_clause,
                )
                &&& match item.data {
                    ParsedItemData::Struct(ctx) => ctx.name.name@ == item.name.name@ && ctx.name.span
                        == item.name.span && ctx.options.crate_path == crate_path && exists|sd: StructData|
                        struct_data_at(after_generics(old(input).state()), sd) && struct_made(
                            struct_attrs_of(self.item_attrs),
                            ctx.name,
                            sd,
                            Options { crate_path },
                            ctx,
                        ),
                    ParsedItemData::Enum(ctx, av) => ctx.name.name@ == item.name.name@ && ctx.name.span
                        == item.name.span && ctx.options.crate_path == crate_path && av == self.any_value
                        && exists|g: GroupBrace|
                        TokenTree::Group(g.0) == after_where(after_generics(old(input).state())).toks[0]
                            && enum_made(enum_attrs_of(self.item_attrs), ctx.name, g, Options { crate_path }, ctx),
                }
                &&& match item.data {
                    ParsedItemData::Struct(ctx) => (item.json is Some <==> plain_struct(ctx)) && (item.json matches Some(
                        ts,
                    ) ==> deep_seq(ts@) == struct_default_json(ctx)),
                    ParsedItemData::Enum(ctx, _) => (item.json is Some <==> plain_enum(ctx)) && (item.json matches Some(
                        ts,
                    ) ==> ts@.len() == 0),
                }
                &&& final(input).state() == body_end(
                    is_struct_kw(self.first_ident),
                    after_generics(old(input).state()),
                )
                &&& exists|body: Seq<ParseErrorKind>|
                    errs(*final(errors)) == args_errors(self, old(input).state(), errs(*old(errors)))
                        + body + eof_errors(*final(input)) && #[trigger] item_body_errs(
                        self,
                        after_generics(old(input).state()),
                        item.data,
                        body,
                    )
            },
            r is Err ==> errs(*final(errors)) == errs(*old(errors)) + before_body_errors(self, old(input).state()),
            r is Err ==> final(ident_trees)@ == old(ident_trees)@,
            r matches Err(e) ==> error_kinds(e).len() == 1 && err_is(
                e,
                body_stop(is_struct_kw(self.first_ident), after_generics(old(input).state())),
            ),
            (r is Ok) == if is_struct_kw(self.first_ident) {
                struct_body_reads(after_generics(old(input).state()))
            } else {
                enum_body_reads(after_generics(old(input).state()))
            },
    {
        let ghost this = self;
        let ToJson { first_ident, append_where_clause, any_value, item_attrs } = self;
        let is_struct = first_ident.matches("struct".as_bytes());
        let ghost sn = input.state();
        let ParseGenericsOutput { impl_generics, ty_generics } = match input.parse_generics() {
            Ok(v) => v,
            Err(e) => {
                errors.push(e);
                ParseGenericsOutput { impl_generics: Vec::new(), ty_generics: Vec::new() }
            },
        };
        let ghost sg = input.state();
        assert(sg == after_generics(sn));
        assert(errs(*errors) == errs(*old(errors)) + generics_errors(sn));
        let ghost wst = if is_struct { struct_where_state(sg) } else { sg };
        let ghost mut body_w: Seq<ParseErrorKind> = Seq::empty();
        let where_clause;
        let data;
        let json: Option<Vec<TokenTree>>;
        if is_struct {
            match any_value {
                Some(span) => errors.push_custom("struct doesn't support any_value", Some(span)),
                None => {},
            }
            let (wc, struct_data) = match read_struct_body(input) {
                Ok(v) => v,
                Err(e) => return Err(e),
            };
            where_clause = wc;
            assert(crate::syn_generic::where_clause_matches(where_clause, wst));
            assert(input.state() == body_end(true, sg));
            let ghost sdv = struct_data;
            assert(struct_data_at(sg, sdv));
            let ghost e_pre = errs(*errors);
            let ghost iav = item_attrs;
            let attrs = item_attrs.for_struct(errors);
            assert(attrs == struct_attrs_of(iav));
            let ghost e_args = errs(*errors);
            let ghost cp = crate_path;
            let (ctx, js, body_errors, field_ident_trees) = struct_body(attrs, item_name.copied(), struct_data, crate_path);
            let ghost body = errs(body_errors);
            errors.append(body_errors);
            assert(struct_made(struct_attrs_of(iav), ctx.name, sdv, Options { crate_path: cp }, ctx));
            assert(exists|sd: StructData|
                struct_data_at(sg, sd) && struct_made(struct_attrs_of(iav), ctx.name, sd, Options { crate_path: cp }, ctx));
            assert(errs(*errors) == with_struct_arg_errors(e_pre, iav) + body);
            proof {
                body_w = body;
                let fb = choose|fb: Seq<ParseErrorKind>|
                    body == fb + transparent_errs(attrs.transparent, ctx.fields@) + struct_json_errs(ctx)
                        && #[trigger] fields_body_errs(fields_of(sdv), fb);
                assert(item_body_errs(this, sg, ParsedItemData::Struct(ctx), body));
            }
            let ghost it0 = ident_trees@;
            ident_trees.push(IdentTree { ident: make_ident("field", Span::call_site()), mod_name: "", children: field_ident_trees });
            assert(ident_trees@.drop_last() =~= it0);
            data = ParsedItemData::Struct(ctx);
            json = js;
        } else {
            let (wc, enum_brace) = match read_enum_body(input) {
                Ok(v) => v,
                Err(e) => return Err(e),
            };
            where_clause = wc;
            assert(crate::syn_generic::where_clause_matches(where_clause, wst));
            assert(input.state() == body_end(false, sg));
            let ghost gv = enum_brace;
            let ghost e_pre = errs(*errors);
            let ghost iav = item_attrs;
            let attrs = item_attrs.for_enum(errors);
            assert(attrs == enum_attrs_of(iav));
            let ghost e_args = errs(*errors);
            let ghost cp = crate_path;
            let (ctx, js, body_errors, variant_ident_trees) = enum_body(attrs, item_name.copied(), enum_brace, crate_path);
            let ghost body = errs(body_errors);
            errors.append(body_errors);
            assert(enum_made(enum_attrs_of(iav), ctx.name, gv, Options { crate_path: cp }, ctx));
            assert(exists|g: GroupBrace|
                TokenTree::Group(g.0) == after_where(sg).toks[0] && enum_made(
                    enum_attrs_of(iav),
                    ctx.name,
                    g,
                    Options { crate_path: cp },
                    ctx,
                ));
            assert(errs(*errors) == with_enum_arg_errors(e_pre, iav) + body);
            proof {
                body_w = body;
                let vb = choose|vb: Seq<ParseErrorKind>|
                    body == extra_mode_errors(tag_mode_flags(enum_tag_flags(attrs)), 0) + vb + enum_json_errs(ctx)
                        && #[trigger] enum_body_errs(StreamState { toks: gv.0.stream@, prev: None }, ctx.variants@, vb);
                assert(item_body_errs(this, sg, ParsedItemData::Enum(ctx, any_value), body));
            }
            let ghost it0 = ident_trees@;
            ident_trees.push(IdentTree { ident: make_ident("variant", Span::call_site()), mod_name: "", children: variant_ident_trees });
            assert(ident_trees@.drop_last() =~= it0);
            data = ParsedItemData::Enum(ctx, any_value);
            json = js;
        }
        let where_clause = match where_clause {
            Some(WhereClause { where_token, predicates }) => Some(
                WhereClause { where_token, predicates: predicates.into_vec() },
            ),
            None => None,
        };
        assert(input.state() == body_end(is_struct, sg));
        let ghost e_body = errs(*errors);
        if input.s.len() > 0 {
            errors.push_custom("expect eof", input.prev_span);
        } else {
            assert(errs(*errors) + Seq::<ParseErrorKind>::empty() =~= errs(*errors));
        }
        assert(errs(*errors) == e_body + eof_errors(*input));
        assert(is_struct == is_struct_kw(this.first_ident));
        assert(errs(*errors) == args_errors(this, sn, errs(*old(errors))) + body_w + eof_errors(*input));
        let ghost wc_v = where_clause;
        let ghost ap = append_where_clause;
        let where_clause = join_where(where_clause, append_where_clause);
        proof {
            match where_outcome(wst) {
                WhereOutcome::Present(st1, n) => {
                    assert(wc_v is Some);
                    assert(wc_v.unwrap().predicates@ == st1.toks.subrange(0, n));
                    assert(TokenTree::Ident(wc_v.unwrap().where_token.0) == wst.toks[0]);
                },
                _ => {},
            }
            assert(where_joined(wst, ap, where_clause));
        }
        Ok(ParsedToJsonItem { name: item_name, impl_generics, ty_generics, where_clause, data, json })
    }
}

} // verus!
