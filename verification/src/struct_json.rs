//! The JSON form of a struct built from its fields when its arguments give
//! no template: `null` for a unit struct, an object of the named fields, an
//! array of the unnamed ones, or the only field itself for a transparent
//! struct; behind its tag and name when it has a tag.
use vstd::prelude::*;
use crate::syn_generic::tokens::{Span, TokenTree, Group, Delimiter, Punct, Spacing, Literal};
use crate::syn_generic::tokens::{DeepToken, deep_seq, deep_tt, lemma_deep_seq_add};
use crate::syn_generic::{ErrorCollector, ParseErrorKind, errs};
use crate::json_item::{
    MakeContextOfStruct, StructField, FieldName, StructToDefault, StructFieldToKvsDefault,
    StructFieldToItemsDefault, ContextOfStructTag, Rename, rename_key, field_name_token,
};
use crate::syn_generic::GroupParen;
use crate::syn_generic::parse_meta_utils::MetaPathSpanWith;
use crate::to_json::{d_punct, punct_tt, ident_tt, push_tt};
use crate::arg_props::{deep_at, clone_at, struct_name_deep};
use crate::json_item::CalcName;
use crate::expand_props::TokensCollector;
use crate::utils::{ident_to_literal_string, string_literal_text};
use vstd::string::StringSliceAdditionalSpecFns;

verus! {

/// A punctuation character joined to the next one.
pub open spec fn d_joint(ch: char, span: Span) -> DeepToken {
    DeepToken::Punct(Punct { ch, spacing: Spacing::Joint, span })
}

/// The place of a field's name.
pub open spec fn name_span_of(n: FieldName) -> Span {
    match n {
        FieldName::Named(i) => i.span,
        FieldName::Index(l) => l.span,
    }
}

/// A field's name at `span`.
pub open spec fn name_at(n: FieldName, span: Span) -> DeepToken {
    match n {
        FieldName::Named(i) => DeepToken::Ident(i.name@, span),
        FieldName::Index(l) => DeepToken::Literal(l.text@, span),
    }
}

/// `& self .` at the place of the struct's name.
pub open spec fn self_dot(s: Span) -> Seq<DeepToken> {
    seq![d_punct('&', s), DeepToken::Ident("self".spec_bytes(), s), d_punct('.', s)]
}

/// What a field turns into when nothing is given: `(&self.name) as
/// &'cjson_lt_to_json Type`, its value borrowed for the conversion, at
/// `span`; the struct's name is at `s`.
pub open spec fn default_to(s: Span, f: StructField, span: Span) -> Seq<DeepToken> {
    seq![
        DeepToken::Group(Delimiter::Parenthesis, self_dot(s).push(name_at(f.name, span)), span, span),
        DeepToken::Ident("as".spec_bytes(), span),
        d_punct('&', span),
        d_joint('\'', span),
        DeepToken::Ident("cjson_lt_to_json".spec_bytes(), span),
    ] + deep_seq(f.type_@)
}

/// The error for `@name` of an unnamed field that is not renamed.
pub open spec fn unnamed_name_error(span: Span) -> ParseErrorKind {
    ParseErrorKind::Custom { msg: "unnamed field doesn't have `@name` unless renamed", span: Some(span) }
}

/// The error for an entry of a flattened unnamed field.
pub open spec fn flatten_unnamed_error(span: Span) -> ParseErrorKind {
    ParseErrorKind::Custom {
        msg: "@to_kvs must be explicitly specified on flattened unnamed field to avoid ambiguity",
        span: Some(span),
    }
}

/// The error for an item of a flattened named field.
pub open spec fn flatten_named_error(span: Span) -> ParseErrorKind {
    ParseErrorKind::Custom {
        msg: "@to_items must be explicitly specified on flattened named field to avoid ambiguity",
        span: Some(span),
    }
}

/// `@name` of a field that is not renamed: its name as a string literal; an
/// unnamed field has none, and gets an empty string.
pub open spec fn plain_name(f: StructField) -> DeepToken {
    match f.name {
        FieldName::Named(i) => DeepToken::Literal(string_literal_text(i.name@), i.span),
        FieldName::Index(l) => DeepToken::Literal(string_literal_text(Seq::empty()), l.span),
    }
}

/// The rename of a field: its own, else the one its struct gives all its
/// fields.
pub open spec fn field_rename(rf: Option<MetaPathSpanWith<GroupParen>>, f: StructField) -> Option<MetaPathSpanWith<Rename>> {
    match f.rename {
        Some(m) => Some(m),
        None => match rf {
            Some(m) => Some(MetaPathSpanWith(m.0, Rename::Paren(m.1))),
            None => None,
        },
    }
}

/// The key of a field's entry, at the place of its name: what its rename
/// gives, else its name as a string literal.
pub open spec fn field_key(cp: Seq<TokenTree>, rf: Option<MetaPathSpanWith<GroupParen>>, f: StructField) -> Seq<DeepToken> {
    match field_rename(rf, f) {
        Some(m) => rename_key(m.1, cp, m.0, field_name_token(f.name)).map_values(
            |t: DeepToken| deep_at(t, name_span_of(f.name)),
        ),
        None => seq![plain_name(f)],
    }
}

/// The entry of a field in its struct's object: `{key = value}`, or, when
/// flattened, the field's value itself, whose entries it spreads.
pub open spec fn field_kvs(s: Span, cp: Seq<TokenTree>, rf: Option<MetaPathSpanWith<GroupParen>>, f: StructField) -> Seq<DeepToken> {
    let ns = name_span_of(f.name);
    match f.to_kvs_default {
        StructFieldToKvsDefault::BracedNameEqTo => seq![
            DeepToken::Group(
                Delimiter::Brace,
                field_key(cp, rf, f) + seq![d_punct('=', ns)] + default_to(s, f, ns),
                ns,
                ns,
            ),
        ],
        StructFieldToKvsDefault::Flatten { span } => match f.name {
            FieldName::Named(_) => default_to(s, f, span),
            FieldName::Index(_) => seq![DeepToken::Group(Delimiter::Brace, Seq::empty(), span, span)],
        },
    }
}

/// The errors of a field's entry: an unnamed field that is not renamed (by
/// its own `rename`, or by a rename of all fields, `all_renamed`) has no
/// key, and a flattened unnamed field no entries.
pub open spec fn field_kvs_errors(all_renamed: bool, f: StructField) -> Seq<ParseErrorKind> {
    let ns = name_span_of(f.name);
    match (f.to_kvs_default, f.name) {
        (StructFieldToKvsDefault::BracedNameEqTo, FieldName::Index(_)) => if f.rename is None && !all_renamed {
            seq![unnamed_name_error(ns)]
        } else {
            Seq::empty()
        },
        (StructFieldToKvsDefault::Flatten { .. }, FieldName::Index(_)) => seq![flatten_unnamed_error(ns)],
        _ => Seq::empty(),
    }
}

/// The item of a field in its struct's array: `[value]`, or, when
/// flattened, the field's value itself, whose items it spreads.
pub open spec fn field_items(s: Span, f: StructField) -> Seq<DeepToken> {
    let ns = name_span_of(f.name);
    match f.to_items_default {
        StructFieldToItemsDefault::BracketedTo => seq![
            DeepToken::Group(Delimiter::Bracket, default_to(s, f, ns), ns, ns),
        ],
        StructFieldToItemsDefault::Flatten { span } => match f.name {
            FieldName::Named(_) => seq![DeepToken::Group(Delimiter::Bracket, Seq::empty(), span, span)],
            FieldName::Index(_) => default_to(s, f, span),
        },
    }
}

/// The errors of a field's item.
pub open spec fn field_items_errors(f: StructField) -> Seq<ParseErrorKind> {
    match (f.to_items_default, f.name) {
        (StructFieldToItemsDefault::Flatten { .. }, FieldName::Named(_)) => seq![
            flatten_named_error(name_span_of(f.name)),
        ],
        _ => Seq::empty(),
    }
}

/// The fields not skipped, in order.
pub open spec fn kept_fields(fs: Seq<StructField>) -> Seq<StructField>
    decreases fs.len(),
{
    if fs.len() == 0 {
        Seq::empty()
    } else {
        kept_fields(fs.drop_last()) + if fs.last().skip is None {
            seq![fs.last()]
        } else {
            Seq::empty()
        }
    }
}

/// `..` at `s`.
pub open spec fn dot2(s: Span) -> Seq<DeepToken> {
    seq![d_joint('.', s), d_punct('.', s)]
}

/// Inside the object: `..entry;` for each field not skipped, in order.
pub open spec fn object_inner(s: Span, cp: Seq<TokenTree>, rf: Option<MetaPathSpanWith<GroupParen>>, fs: Seq<StructField>) -> Seq<DeepToken>
    decreases fs.len(),
{
    if fs.len() == 0 {
        Seq::empty()
    } else {
        object_inner(s, cp, rf, fs.drop_last()) + if fs.last().skip is None {
            dot2(s) + field_kvs(s, cp, rf, fs.last()) + seq![d_punct(';', s)]
        } else {
            Seq::empty()
        }
    }
}

/// The errors of the entries, in order.
pub open spec fn object_errors(all_renamed: bool, fs: Seq<StructField>) -> Seq<ParseErrorKind>
    decreases fs.len(),
{
    if fs.len() == 0 {
        Seq::empty()
    } else {
        object_errors(all_renamed, fs.drop_last()) + if fs.last().skip is None {
            field_kvs_errors(all_renamed, fs.last())
        } else {
            Seq::empty()
        }
    }
}

/// Inside the array: `..item,` for each field not skipped, in order.
pub open spec fn array_inner(s: Span, fs: Seq<StructField>) -> Seq<DeepToken>
    decreases fs.len(),
{
    if fs.len() == 0 {
        Seq::empty()
    } else {
        array_inner(s, fs.drop_last()) + if fs.last().skip is None {
            dot2(s) + field_items(s, fs.last()) + seq![d_punct(',', s)]
        } else {
            Seq::empty()
        }
    }
}

/// The errors of the items, in order.
pub open spec fn array_errors(fs: Seq<StructField>) -> Seq<ParseErrorKind>
    decreases fs.len(),
{
    if fs.len() == 0 {
        Seq::empty()
    } else {
        array_errors(fs.drop_last()) + if fs.last().skip is None {
            field_items_errors(fs.last())
        } else {
            Seq::empty()
        }
    }
}

/// The error of a transparent struct whose fields are all skipped.
pub open spec fn only_field_missing_error(span: Span) -> ParseErrorKind {
    ParseErrorKind::Custom {
        msg: "`@field` requires exactly one field without `#[cjson(skip)]`",
        span: Some(span),
    }
}

/// The error of a transparent struct with more than one field not skipped.
pub open spec fn only_field_ambiguous_error(span: Span) -> ParseErrorKind {
    ParseErrorKind::Custom {
        msg: "`@field` is ambiguous when there are more than one fields without `#[cjson(skip)]`",
        span: Some(span),
    }
}

/// The first field not skipped, and whether another one follows it.
pub open spec fn only_field(fs: Seq<StructField>) -> (Option<int>, bool)
    decreases fs.len(),
{
    if fs.len() == 0 {
        (None, false)
    } else {
        let (idx, many) = only_field(fs.drop_last());
        if fs.last().skip is None {
            match idx {
                None => (Some(fs.len() - 1), many),
                Some(i) => (Some(i), true),
            }
        } else {
            (idx, many)
        }
    }
}

/// A transparent struct turns into its only field not skipped, at `sp`
/// (the place of `transparent`, else of its name `s`): the first such
/// field where there are more, the first field where all are skipped, and
/// `null` where it has no field.
pub open spec fn transparent_json(s: Span, fs: Seq<StructField>, sp: Span) -> Seq<DeepToken> {
    match only_field(fs).0 {
        Some(i) => default_to(s, fs[i], name_span_of(fs[i].name)),
        None => if fs.len() == 0 {
            seq![DeepToken::Ident("null".spec_bytes(), sp)]
        } else {
            default_to(s, fs[0], name_span_of(fs[0].name))
        },
    }
}

/// The error of a transparent struct without exactly one field not
/// skipped, at the place of its name `s`.
pub open spec fn transparent_errors(fs: Seq<StructField>, s: Span) -> Seq<ParseErrorKind> {
    match only_field(fs) {
        (Some(_), true) => seq![only_field_ambiguous_error(s)],
        (Some(_), false) => Seq::empty(),
        (None, _) => seq![only_field_missing_error(s)],
    }
}

/// A field whose arguments give no template.
pub open spec fn plain_field(f: StructField) -> bool {
    &&& f.to is None
    &&& f.to_kvs_custom is None
    &&& f.to_items_custom is None
}

/// The entries after the tag of a tagged struct: those of its fields (of
/// named and unnamed ones alike), none for a unit struct, the only field
/// itself for a transparent one.
pub open spec fn tagged_kvs_json(c: MakeContextOfStruct) -> Seq<DeepToken> {
    let s = c.name.span;
    match c.to_default {
        StructToDefault::Unit => seq![DeepToken::Group(Delimiter::Brace, Seq::empty(), s, s)],
        StructToDefault::Object | StructToDefault::Array => seq![
            DeepToken::Group(Delimiter::Brace, object_inner(s, c.options.crate_path@, c.rename_fields, c.fields@), s, s),
        ],
        StructToDefault::Transparent { span } => transparent_json(
            s,
            c.fields@,
            match span { Some(t) => t, None => s },
        ),
    }
}

/// The errors of the entries after the tag.
pub open spec fn tagged_kvs_errors(c: MakeContextOfStruct) -> Seq<ParseErrorKind> {
    tagged_kvs_errors_at(c, c.name.span)
}

/// The errors of the entries after the tag, asked for at `sp`.
pub open spec fn tagged_kvs_errors_at(c: MakeContextOfStruct, sp: Span) -> Seq<ParseErrorKind> {
    match c.to_default {
        StructToDefault::Unit => Seq::empty(),
        StructToDefault::Object | StructToDefault::Array => object_errors(c.rename_fields is Some, c.fields@),
        StructToDefault::Transparent { .. } => transparent_errors(c.fields@, sp),
    }
}

/// The JSON form of a struct with `tag = ..`: `{ tag = "Name"; ..entries }`,
/// its tag's tokens, then its name as a JSON value at the place of its
/// name, then its entries.
pub open spec fn tagged_json(c: MakeContextOfStruct, tag: Seq<DeepToken>) -> Seq<DeepToken> {
    let s = c.name.span;
    seq![
        DeepToken::Group(
            Delimiter::Brace,
            tag + seq![d_punct('=', s)] + struct_name_deep(c).map_values(|t: DeepToken| deep_at(t, s)) + seq![
                d_punct(';', s),
            ] + dot2(s) + tagged_kvs_json(c),
            s,
            s,
        ),
    ]
}

/// A struct whose arguments give no template: its JSON form comes from its
/// fields alone.
pub open spec fn plain_struct(c: MakeContextOfStruct) -> bool {
    &&& c.to_custom is None
    &&& (c.tag is Tagged ==> c.to_tagged_kvs is None)
    &&& forall|i: int| 0 <= i < c.fields@.len() ==> plain_field(#[trigger] c.fields@[i])
}

/// The JSON form of a struct from its fields, at the place of its name.
pub open spec fn struct_default_json(c: MakeContextOfStruct) -> Seq<DeepToken> {
    let s = c.name.span;
    match c.tag {
        ContextOfStructTag::Tagged { ts, .. } => tagged_json(c, deep_seq(ts@)),
        ContextOfStructTag::Untagged { .. } => untagged_json(c),
    }
}

/// The JSON form of a struct without a tag, from its fields.
pub open spec fn untagged_json(c: MakeContextOfStruct) -> Seq<DeepToken> {
    let s = c.name.span;
    match c.to_default {
        StructToDefault::Unit => seq![DeepToken::Ident("null".spec_bytes(), s)],
        StructToDefault::Object => seq![
            DeepToken::Group(Delimiter::Brace, object_inner(s, c.options.crate_path@, c.rename_fields, c.fields@), s, s),
        ],
        StructToDefault::Array => seq![DeepToken::Group(Delimiter::Bracket, array_inner(s, c.fields@), s, s)],
        StructToDefault::Transparent { span } => transparent_json(
            s,
            c.fields@,
            match span { Some(t) => t, None => s },
        ),
    }
}

/// The errors of building the JSON form of a struct from its fields.
pub open spec fn struct_default_errors(c: MakeContextOfStruct) -> Seq<ParseErrorKind> {
    match c.tag {
        ContextOfStructTag::Tagged { .. } => tagged_kvs_errors(c),
        ContextOfStructTag::Untagged { .. } => untagged_errors(c),
    }
}

/// The errors of the JSON form of a struct without a tag.
pub open spec fn untagged_errors(c: MakeContextOfStruct) -> Seq<ParseErrorKind> {
    untagged_errors_at(c, c.name.span)
}

/// The errors of the JSON form of a struct without a tag, asked for at
/// `sp`: a transparent struct's at `sp`, its fields' at their names.
pub open spec fn untagged_errors_at(c: MakeContextOfStruct, sp: Span) -> Seq<ParseErrorKind> {
    match c.to_default {
        StructToDefault::Unit => Seq::empty(),
        StructToDefault::Object => object_errors(c.rename_fields is Some, c.fields@),
        StructToDefault::Array => array_errors(c.fields@),
        StructToDefault::Transparent { .. } => transparent_errors(c.fields@, sp),
    }
}

pub(crate) fn push_msg(errors: &mut ErrorCollector, msg: &'static str, span: Span)
    ensures
        errs(*final(errors)) == errs(*old(errors)).push(ParseErrorKind::Custom { msg, span: Some(span) }),
{
    errors.push_custom(msg, Some(span));
    proof {
        match old(errors).0 {
            Some(_) => {},
            None => {
                assert(Seq::<ParseErrorKind>::empty().push(ParseErrorKind::Custom { msg, span: Some(span) })
                    =~= seq![ParseErrorKind::Custom { msg, span: Some(span) }]);
            },
        }
    }
}

fn joint_tt(ch: char, span: Span) -> (r: TokenTree)
    ensures
        deep_tt(r) == d_joint(ch, span),
{
    TokenTree::Punct(Punct { ch, spacing: Spacing::Joint, span })
}

fn group_tt(delimiter: Delimiter, stream: Vec<TokenTree>, span: Span) -> (r: TokenTree)
    ensures
        deep_tt(r) == DeepToken::Group(delimiter, deep_seq(stream@), span, span),
{
    TokenTree::Group(Group { delimiter, stream, span_open: span, span_close: span })
}

fn extend_tt(out: &mut Vec<TokenTree>, ts: Vec<TokenTree>)
    ensures
        deep_seq(final(out)@) == deep_seq(old(out)@) + deep_seq(ts@),
{
    let mut ts = ts;
    let ghost a = out@;
    let ghost b = ts@;
    out.append(&mut ts);
    proof {
        lemma_deep_seq_add(a, b);
    }
}

fn name_tt(n: &FieldName, span: Span) -> (r: TokenTree)
    ensures
        deep_tt(r) == name_at(*n, span),
{
    match n {
        FieldName::Named(i) => {
            let mut c = i.copied();
            c.span = span;
            TokenTree::Ident(c)
        },
        FieldName::Index(l) => TokenTree::Literal(Literal { text: l.text.clone(), span }),
    }
}

pub(crate) fn name_span(n: &FieldName) -> (r: Span)
    ensures
        r == name_span_of(*n),
{
    match n {
        FieldName::Named(i) => i.span,
        FieldName::Index(l) => l.span,
    }
}

/// Adds what a field turns into when nothing is given, at `span`.
fn push_default_to(out: &mut Vec<TokenTree>, s: Span, f: &StructField, span: Span)
    ensures
        deep_seq(final(out)@) == deep_seq(old(out)@) + default_to(s, *f, span),
{
    let ghost start = deep_seq(out@);
    let mut inner: Vec<TokenTree> = Vec::new();
    push_tt(&mut inner, punct_tt('&', s));
    push_tt(&mut inner, ident_tt("self", s));
    push_tt(&mut inner, punct_tt('.', s));
    push_tt(&mut inner, name_tt(&f.name, span));
    assert(deep_seq(inner@) =~= self_dot(s).push(name_at(f.name, span)));
    push_tt(out, group_tt(Delimiter::Parenthesis, inner, span));
    push_tt(out, ident_tt("as", span));
    push_tt(out, punct_tt('&', span));
    push_tt(out, joint_tt('\'', span));
    push_tt(out, ident_tt("cjson_lt_to_json", span));
    let ty = crate::syn_generic::tokens::clone_tokens(&f.type_);
    extend_tt(out, ty);
    assert(deep_seq(out@) =~= start + default_to(s, *f, span));
}

/// Adds the tokens, each moved to `span`.
fn push_respanned(out: &mut Vec<TokenTree>, ts: Vec<TokenTree>, span: Span)
    ensures
        deep_seq(final(out)@) == deep_seq(old(out)@) + deep_seq(ts@).map_values(|t: DeepToken| deep_at(t, span)),
{
    let ghost start = deep_seq(out@);
    let ghost d = deep_seq(ts@);
    proof {
        crate::syn_generic::tokens::lemma_deep_seq_index(ts@);
    }
    let mut i: usize = 0;
    while i < ts.len()
        invariant
            i <= ts@.len(),
            d == deep_seq(ts@),
            d.len() == ts@.len(),
            forall|j: int| 0 <= j < ts@.len() ==> #[trigger] d[j] == deep_tt(ts@[j]),
            deep_seq(out@) == start + d.subrange(0, i as int).map_values(|t: DeepToken| deep_at(t, span)),
        decreases ts@.len() - i,
    {
        push_tt(out, clone_at(&ts[i], span));
        assert(d.subrange(0, i + 1).map_values(|t: DeepToken| deep_at(t, span)) =~= d.subrange(0, i as int).map_values(
            |t: DeepToken| deep_at(t, span),
        ).push(deep_at(d[i as int], span)));
        i = i + 1;
    }
    assert(d.subrange(0, i as int) =~= d);
}

/// Adds the key of a field's entry, and the error of an unnamed field that
/// is not renamed.
fn push_field_key(
    out: &mut Vec<TokenTree>,
    errors: &mut ErrorCollector,
    cp: &Vec<TokenTree>,
    rf: &Option<MetaPathSpanWith<GroupParen>>,
    f: &StructField,
)
    ensures
        deep_seq(final(out)@) == deep_seq(old(out)@) + field_key(cp@, *rf, *f),
        errs(*final(errors)) == errs(*old(errors)) + if field_rename(*rf, *f) is None && f.name is Index {
            seq![unnamed_name_error(name_span_of(f.name))]
        } else {
            Seq::empty()
        },
{
    let ghost start = deep_seq(out@);
    let ghost e0 = errs(*errors);
    let ns = name_span(&f.name);
    let name = crate::json_item::field_name_tt(&f.name);
    match &f.rename {
        Some(m) => {
            let key = m.1.to_tokens_as_json_object_key(cp, m.0, &name);
            assert(rename_key(m.1, cp@, m.0, name) == rename_key(m.1, cp@, m.0, field_name_token(f.name)));
            push_respanned(out, key, ns);
            assert(errs(*errors) =~= e0 + Seq::<ParseErrorKind>::empty());
        },
        None => match rf {
            Some(m) => {
                let g = GroupParen(
                    Group {
                        delimiter: m.1.0.delimiter,
                        stream: crate::syn_generic::tokens::clone_tokens(&m.1.0.stream),
                        span_open: m.1.0.span_open,
                        span_close: m.1.0.span_close,
                    },
                );
                let r = Rename::Paren(g);
                let key = r.to_tokens_as_json_object_key(cp, m.0, &name);
                assert(deep_tt(TokenTree::Group(g.0)) == deep_tt(TokenTree::Group(m.1.0)));
                assert(rename_key(r, cp@, m.0, name) == rename_key(Rename::Paren(m.1), cp@, m.0, field_name_token(f.name)));
                push_respanned(out, key, ns);
                assert(errs(*errors) =~= e0 + Seq::<ParseErrorKind>::empty());
            },
            None => {
                match &f.name {
                    FieldName::Named(i) => {
                        let lit = ident_to_literal_string(i);
                        push_tt(out, TokenTree::Literal(lit));
                        assert(errs(*errors) =~= e0 + Seq::<ParseErrorKind>::empty());
                    },
                    FieldName::Index(l) => {
                        let mut text: Vec<u8> = Vec::new();
                        text.push(34u8);
                        text.push(34u8);
                        assert(text@ =~= string_literal_text(Seq::empty()));
                        push_tt(out, TokenTree::Literal(Literal { text, span: l.span }));
                        push_msg(errors, "unnamed field doesn't have `@name` unless renamed", ns);
                        assert(errs(*errors) =~= e0 + seq![unnamed_name_error(ns)]);
                    },
                }
                assert(deep_seq(out@) =~= start + field_key(cp@, *rf, *f));
            },
        },
    }
}

/// Adds a field's entry, and its errors.
fn push_field_kvs(
    out: &mut Vec<TokenTree>,
    errors: &mut ErrorCollector,
    s: Span,
    cp: &Vec<TokenTree>,
    rf: &Option<MetaPathSpanWith<GroupParen>>,
    f: &StructField,
)
    ensures
        deep_seq(final(out)@) == deep_seq(old(out)@) + field_kvs(s, cp@, *rf, *f),
        errs(*final(errors)) == errs(*old(errors)) + field_kvs_errors(rf is Some, *f),
{
    let ghost start = deep_seq(out@);
    let ghost e0 = errs(*errors);
    let ns = name_span(&f.name);
    match f.to_kvs_default {
        StructFieldToKvsDefault::BracedNameEqTo => {
            let mut inner: Vec<TokenTree> = Vec::new();
            push_field_key(&mut inner, errors, cp, rf, f);
            assert(errs(*errors) =~= e0 + field_kvs_errors(rf is Some, *f));
            push_tt(&mut inner, punct_tt('=', ns));
            assert(deep_seq(inner@) =~= field_key(cp@, *rf, *f) + seq![d_punct('=', ns)]);
            push_default_to(&mut inner, s, f, ns);
            push_tt(out, group_tt(Delimiter::Brace, inner, ns));
            assert(deep_seq(out@) =~= start + field_kvs(s, cp@, *rf, *f));
        },
        StructFieldToKvsDefault::Flatten { span } => {
            match &f.name {
                FieldName::Named(_) => {
                    push_default_to(out, s, f, span);
                    assert(errs(*errors) =~= e0 + field_kvs_errors(rf is Some, *f));
                },
                FieldName::Index(_) => {
                    push_tt(out, group_tt(Delimiter::Brace, Vec::new(), span));
                    push_msg(
                        errors,
                        "@to_kvs must be explicitly specified on flattened unnamed field to avoid ambiguity",
                        ns,
                    );
                    assert(deep_seq(out@) =~= start + field_kvs(s, cp@, *rf, *f));
                    assert(errs(*errors) =~= e0 + field_kvs_errors(rf is Some, *f));
                },
            }
        },
    }
}

/// Adds a field's item, and its errors.
fn push_field_items(out: &mut Vec<TokenTree>, errors: &mut ErrorCollector, s: Span, f: &StructField)
    ensures
        deep_seq(final(out)@) == deep_seq(old(out)@) + field_items(s, *f),
        errs(*final(errors)) == errs(*old(errors)) + field_items_errors(*f),
{
    let ghost start = deep_seq(out@);
    let ghost e0 = errs(*errors);
    let ns = name_span(&f.name);
    match f.to_items_default {
        StructFieldToItemsDefault::BracketedTo => {
            let mut inner: Vec<TokenTree> = Vec::new();
            push_default_to(&mut inner, s, f, ns);
            assert(deep_seq(inner@) =~= default_to(s, *f, ns));
            push_tt(out, group_tt(Delimiter::Bracket, inner, ns));
            assert(deep_seq(out@) =~= start + field_items(s, *f));
            assert(errs(*errors) =~= e0 + field_items_errors(*f));
        },
        StructFieldToItemsDefault::Flatten { span } => {
            match &f.name {
                FieldName::Named(_) => {
                    push_tt(out, group_tt(Delimiter::Bracket, Vec::new(), span));
                    push_msg(
                        errors,
                        "@to_items must be explicitly specified on flattened named field to avoid ambiguity",
                        ns,
                    );
                    assert(deep_seq(out@) =~= start + field_items(s, *f));
                    assert(errs(*errors) =~= e0 + field_items_errors(*f));
                },
                FieldName::Index(_) => {
                    push_default_to(out, s, f, span);
                    assert(errs(*errors) =~= e0 + field_items_errors(*f));
                },
            }
        },
    }
}

/// The object of the fields not skipped, and the errors of their entries.
fn object_of(
    s: Span,
    cp: &Vec<TokenTree>,
    rf: &Option<MetaPathSpanWith<GroupParen>>,
    fields: &Vec<StructField>,
    errors: &mut ErrorCollector,
) -> (r: Vec<TokenTree>)
    ensures
        deep_seq(r@) == object_inner(s, cp@, *rf, fields@),
        errs(*final(errors)) == errs(*old(errors)) + object_errors(rf is Some, fields@),
{
    let mut out: Vec<TokenTree> = Vec::new();
    let mut i: usize = 0;
    assert(errs(*errors) =~= errs(*old(errors)) + object_errors(rf is Some, fields@.subrange(0, 0)));
    while i < fields.len()
        invariant
            i <= fields@.len(),
            deep_seq(out@) == object_inner(s, cp@, *rf, fields@.subrange(0, i as int)),
            errs(*errors) == errs(*old(errors)) + object_errors(rf is Some, fields@.subrange(0, i as int)),
        decreases fields@.len() - i,
    {
        let ghost pre = fields@.subrange(0, i as int);
        let ghost o0 = deep_seq(out@);
        let ghost e0 = errs(*errors);
        let f = &fields[i];
        assert(fields@.subrange(0, i + 1).drop_last() =~= pre);
        if f.skip.is_none() {
            push_tt(&mut out, joint_tt('.', s));
            push_tt(&mut out, punct_tt('.', s));
            push_field_kvs(&mut out, errors, s, cp, rf, f);
            push_tt(&mut out, punct_tt(';', s));
            assert(deep_seq(out@) =~= o0 + (dot2(s) + field_kvs(s, cp@, *rf, *f) + seq![d_punct(';', s)]));
        } else {
            assert(deep_seq(out@) =~= o0 + Seq::<DeepToken>::empty());
            assert(errs(*errors) =~= e0 + Seq::<ParseErrorKind>::empty());
        }
        i = i + 1;
        assert(errs(*errors) =~= errs(*old(errors)) + object_errors(rf is Some, fields@.subrange(0, i as int)));
    }
    assert(fields@.subrange(0, i as int) =~= fields@);
    out
}

/// The array of the fields not skipped, and the errors of their items.
fn array_of(s: Span, fields: &Vec<StructField>, errors: &mut ErrorCollector) -> (r: Vec<TokenTree>)
    ensures
        deep_seq(r@) == array_inner(s, fields@),
        errs(*final(errors)) == errs(*old(errors)) + array_errors(fields@),
{
    let mut out: Vec<TokenTree> = Vec::new();
    let mut i: usize = 0;
    assert(errs(*errors) =~= errs(*old(errors)) + array_errors(fields@.subrange(0, 0)));
    while i < fields.len()
        invariant
            i <= fields@.len(),
            deep_seq(out@) == array_inner(s, fields@.subrange(0, i as int)),
            errs(*errors) == errs(*old(errors)) + array_errors(fields@.subrange(0, i as int)),
        decreases fields@.len() - i,
    {
        let ghost pre = fields@.subrange(0, i as int);
        let ghost o0 = deep_seq(out@);
        let ghost e0 = errs(*errors);
        let f = &fields[i];
        assert(fields@.subrange(0, i + 1).drop_last() =~= pre);
        if f.skip.is_none() {
            push_tt(&mut out, joint_tt('.', s));
            push_tt(&mut out, punct_tt('.', s));
            push_field_items(&mut out, errors, s, f);
            push_tt(&mut out, punct_tt(',', s));
            assert(deep_seq(out@) =~= o0 + (dot2(s) + field_items(s, *f) + seq![d_punct(',', s)]));
        } else {
            assert(deep_seq(out@) =~= o0 + Seq::<DeepToken>::empty());
            assert(errs(*errors) =~= e0 + Seq::<ParseErrorKind>::empty());
        }
        i = i + 1;
        assert(errs(*errors) =~= errs(*old(errors)) + array_errors(fields@.subrange(0, i as int)));
    }
    assert(fields@.subrange(0, i as int) =~= fields@);
    out
}

/// The first field not skipped, and whether another one follows it.
pub(crate) fn find_only_field(fields: &Vec<StructField>) -> (r: (Option<usize>, bool))
    ensures
        only_field(fields@) == (match r.0 { Some(i) => Some(i as int), None => None::<int> }, r.1),
        r.0 matches Some(i) ==> i < fields@.len(),
{
    let mut idx: Option<usize> = None;
    let mut many = false;
    let mut i: usize = 0;
    while i < fields.len()
        invariant
            i <= fields@.len(),
            only_field(fields@.subrange(0, i as int)) == (match idx { Some(k) => Some(k as int), None => None::<int> }, many),
            idx matches Some(k) ==> k < i,
        decreases fields@.len() - i,
    {
        assert(fields@.subrange(0, i + 1).drop_last() =~= fields@.subrange(0, i as int));
        if fields[i].skip.is_none() {
            match idx {
                None => {
                    idx = Some(i);
                },
                Some(_) => {
                    many = true;
                },
            }
        }
        i = i + 1;
    }
    assert(fields@.subrange(0, i as int) =~= fields@);
    (idx, many)
}

/// A transparent struct's only field, and the error when it has not
/// exactly one field not skipped.
fn transparent_of(s: Span, fields: &Vec<StructField>, sp: Span, err_span: Span, errors: &mut ErrorCollector) -> (r: Vec<TokenTree>)
    ensures
        deep_seq(r@) == transparent_json(s, fields@, sp),
        errs(*final(errors)) == errs(*old(errors)) + transparent_errors(fields@, err_span),
{
    let (idx, many) = find_only_field(fields);
    let mut out: Vec<TokenTree> = Vec::new();
    let ghost e0 = errs(*errors);
    match idx {
        Some(i) => {
            let f = &fields[i];
            push_default_to(&mut out, s, f, name_span(&f.name));
            if many {
                push_msg(
                    errors,
                    "`@field` is ambiguous when there are more than one fields without `#[cjson(skip)]`",
                    err_span,
                );
                assert(errs(*errors) =~= e0 + transparent_errors(fields@, err_span));
            } else {
                assert(errs(*errors) =~= e0 + transparent_errors(fields@, err_span));
            }
        },
        None => {
            if fields.len() == 0 {
                push_tt(&mut out, ident_tt("null", sp));
            } else {
                let f = &fields[0];
                push_default_to(&mut out, s, f, name_span(&f.name));
            }
            push_msg(errors, "`@field` requires exactly one field without `#[cjson(skip)]`", err_span);
            assert(errs(*errors) =~= e0 + transparent_errors(fields@, err_span));
        },
    }
    assert(deep_seq(out@) =~= transparent_json(s, fields@, sp));
    out
}

fn is_plain_field(f: &StructField) -> (r: bool)
    ensures
        r == plain_field(*f),
{
    f.to.is_none() && f.to_kvs_custom.is_none() && f.to_items_custom.is_none()
}

impl MakeContextOfStruct {
    /// Whether the struct's arguments give no template, no tag and no new
    /// names for its fields.
    pub fn is_plain(&self) -> (r: bool)
        ensures
            r == plain_struct(*self),
    {
        if self.to_custom.is_some() {
            return false;
        }
        match self.tag {
            ContextOfStructTag::Tagged { .. } => {
                if self.to_tagged_kvs.is_some() {
                    return false;
                }
            },
            ContextOfStructTag::Untagged { .. } => {},
        }
        let mut i: usize = 0;
        while i < self.fields.len()
            invariant
                i <= self.fields@.len(),
                forall|j: int| 0 <= j < i ==> plain_field(#[trigger] self.fields@[j]),
            decreases self.fields@.len() - i,
        {
            if !is_plain_field(&self.fields[i]) {
                return false;
            }
            i = i + 1;
        }
        true
    }

    /// The JSON form of the struct, built from its fields where its
    /// arguments give no template: without a tag, `null` for a unit
    /// struct, `{ ..{"name" = value}; .. }` for named fields, `[ ..[value],
    /// .. ]` for unnamed ones, the only field for a transparent one; with
    /// `tag = ..`, `{ tag = "Name"; ..entries }`. Fields take the keys their
    /// renames give. The errors of fields that cannot take part are
    /// reported. Where the arguments give a template, nothing is built here
    /// and `None` comes back.
    pub fn into_to_json(self, errors: &mut ErrorCollector) -> (r: Option<Vec<TokenTree>>)
        ensures
            r is Some <==> plain_struct(self),
            r matches Some(ts) ==> deep_seq(ts@) == struct_default_json(self),
            plain_struct(self) ==> errs(*final(errors)) == errs(*old(errors)) + struct_default_errors(self),
            !plain_struct(self) ==> *final(errors) == *old(errors),
    {
        self.json_tokens(errors)
    }

    /// The JSON form of the struct as `into_to_json` builds it, leaving the
    /// struct in place.
    pub fn json_tokens(&self, errors: &mut ErrorCollector) -> (r: Option<Vec<TokenTree>>)
        ensures
            r is Some <==> plain_struct(*self),
            r matches Some(ts) ==> deep_seq(ts@) == struct_default_json(*self),
            plain_struct(*self) ==> errs(*final(errors)) == errs(*old(errors)) + struct_default_errors(*self),
            !plain_struct(*self) ==> *final(errors) == *old(errors),
    {
        if !self.is_plain() {
            return None;
        }
        match &self.tag {
            ContextOfStructTag::Tagged { ts, .. } => Some(self.tagged_tokens(ts, self.name.span, errors)),
            ContextOfStructTag::Untagged { .. } => Some(self.untagged_tokens(self.name.span, errors)),
        }
    }

    /// The JSON form of a struct with tag `tag`, from its fields.
    fn tagged_tokens(&self, tag: &Vec<TokenTree>, err_span: Span, errors: &mut ErrorCollector) -> (r: Vec<TokenTree>)
        ensures
            deep_seq(r@) == tagged_json(*self, deep_seq(tag@)),
            errs(*final(errors)) == errs(*old(errors)) + tagged_kvs_errors_at(*self, err_span),
    {
        let s = self.name.span;
        let mut inner = crate::syn_generic::tokens::clone_tokens(tag);
        push_tt(&mut inner, punct_tt('=', s));
        let name = CalcName { options: &self.options, rename: self.rename.as_ref(), name: &self.name }.calc();
        proof {
            if self.rename is None {
                crate::arg_props::lemma_one_token(name@);
                assert(deep_seq(name@) =~= struct_name_deep(*self));
            }
        }
        push_respanned(&mut inner, name, s);
        push_tt(&mut inner, punct_tt(';', s));
        push_tt(&mut inner, joint_tt('.', s));
        push_tt(&mut inner, punct_tt('.', s));
        let ghost before_kvs = deep_seq(inner@);
        assert(before_kvs =~= deep_seq(tag@) + seq![d_punct('=', s)] + struct_name_deep(*self).map_values(
            |t: DeepToken| deep_at(t, s),
        ) + seq![d_punct(';', s)] + dot2(s));
        match self.to_default {
            StructToDefault::Unit => {
                push_tt(&mut inner, group_tt(Delimiter::Brace, Vec::new(), s));
                assert(errs(*errors) =~= errs(*old(errors)) + tagged_kvs_errors_at(*self, err_span));
            },
            StructToDefault::Object | StructToDefault::Array => {
                let kvs = object_of(s, &self.options.crate_path, &self.rename_fields, &self.fields, errors);
                push_tt(&mut inner, group_tt(Delimiter::Brace, kvs, s));
            },
            StructToDefault::Transparent { span } => {
                let sp = match span {
                    Some(t) => t,
                    None => s,
                };
                let ts = transparent_of(s, &self.fields, sp, err_span, errors);
                extend_tt(&mut inner, ts);
            },
        }
        assert(deep_seq(inner@) =~= before_kvs + tagged_kvs_json(*self));
        let mut out: Vec<TokenTree> = Vec::new();
        push_tt(&mut out, group_tt(Delimiter::Brace, inner, s));
        assert(deep_seq(out@) =~= tagged_json(*self, deep_seq(tag@)));
        out
    }

    /// The JSON form of a struct without a tag, from its fields.
    fn untagged_tokens(&self, err_span: Span, errors: &mut ErrorCollector) -> (r: Vec<TokenTree>)
        ensures
            deep_seq(r@) == untagged_json(*self),
            errs(*final(errors)) == errs(*old(errors)) + untagged_errors_at(*self, err_span),
    {
        let s = self.name.span;
        let ts = match self.to_default {
            StructToDefault::Unit => {
                let mut out: Vec<TokenTree> = Vec::new();
                push_tt(&mut out, ident_tt("null", s));
                assert(deep_seq(out@) =~= untagged_json(*self));
                assert(errs(*errors) =~= errs(*old(errors)) + untagged_errors_at(*self, err_span));
                out
            },
            StructToDefault::Object => {
                let inner = object_of(s, &self.options.crate_path, &self.rename_fields, &self.fields, errors);
                let mut out: Vec<TokenTree> = Vec::new();
                push_tt(&mut out, group_tt(Delimiter::Brace, inner, s));
                assert(deep_seq(out@) =~= untagged_json(*self));
                out
            },
            StructToDefault::Array => {
                let inner = array_of(s, &self.fields, errors);
                let mut out: Vec<TokenTree> = Vec::new();
                push_tt(&mut out, group_tt(Delimiter::Bracket, inner, s));
                assert(deep_seq(out@) =~= untagged_json(*self));
                out
            },
            StructToDefault::Transparent { span } => {
                let sp = match span {
                    Some(t) => t,
                    None => s,
                };
                transparent_of(s, &self.fields, sp, err_span, errors)
            },
        };
        ts
    }
}

/// The fields of the struct give no template.
pub open spec fn plain_fields(c: MakeContextOfStruct) -> bool {
    forall|i: int| 0 <= i < c.fields@.len() ==> plain_field(#[trigger] c.fields@[i])
}

/// The tokens that stand for the struct's tag: those of `tag = ..`, else
/// the `""` at its name that stands in for it.
pub open spec fn tag_tokens(c: MakeContextOfStruct) -> Seq<DeepToken> {
    match c.tag {
        ContextOfStructTag::Tagged { ts, .. } => deep_seq(ts@),
        ContextOfStructTag::Untagged { dummy } => match dummy {
            Some(v) => deep_seq(v@),
            None => seq![DeepToken::Literal(string_literal_text(Seq::empty()), c.name.span)],
        },
    }
}

/// The error of a struct's tag asked for where the struct has none.
pub open spec fn struct_tag_error(sp: Span) -> ParseErrorKind {
    ParseErrorKind::Custom { msg: "@tag not defined on struct", span: Some(sp) }
}

/// `@to`, `@(to.untagged_default)` or `@(to.tagged_default)` of the struct
/// needs no template: none of these is given where it is used, and the
/// fields give none.
pub open spec fn to_prop_plain(c: MakeContextOfStruct, prop: crate::props::StructProp) -> bool {
    &&& plain_fields(c)
    &&& match prop {
        crate::props::StructProp::To(_) => c.to_custom is None && (c.tag is Tagged ==> c.to_tagged_kvs is None),
        crate::props::StructProp::ToUntaggedDefault(_) => true,
        crate::props::StructProp::ToTaggedDefault(_) => c.to_tagged_kvs is None,
        _ => false,
    }
}

/// What `@to` and the two defaults write: the struct's form with its tag
/// where it has one, else without; the form without a tag; the form with
/// its tag (or what stands in for it).
pub open spec fn to_prop_json(c: MakeContextOfStruct, prop: crate::props::StructProp) -> Seq<DeepToken> {
    match prop {
        crate::props::StructProp::To(_) => match c.tag {
            ContextOfStructTag::Tagged { ts, .. } => tagged_json(c, deep_seq(ts@)),
            ContextOfStructTag::Untagged { .. } => untagged_json(c),
        },
        crate::props::StructProp::ToUntaggedDefault(_) => untagged_json(c),
        crate::props::StructProp::ToTaggedDefault(_) => tagged_json(c, tag_tokens(c)),
        _ => Seq::empty(),
    }
}

/// The errors of `@to` and the two defaults at the property's place: a
/// missing tag first, then those of the fields.
pub open spec fn to_prop_errors(c: MakeContextOfStruct, prop: crate::props::StructProp) -> Seq<ParseErrorKind> {
    match prop {
        crate::props::StructProp::To(sp) => match c.tag {
            ContextOfStructTag::Tagged { .. } => tagged_kvs_errors_at(c, sp),
            ContextOfStructTag::Untagged { .. } => untagged_errors_at(c, sp),
        },
        crate::props::StructProp::ToUntaggedDefault(sp) => untagged_errors_at(c, sp),
        crate::props::StructProp::ToTaggedDefault(sp) => (if c.tag is Untagged {
            seq![struct_tag_error(sp)]
        } else {
            Seq::empty()
        }) + tagged_kvs_errors_at(c, sp),
        _ => Seq::empty(),
    }
}

impl MakeContextOfStruct {
    /// Whether the fields give no template.
    fn fields_plain(&self) -> (r: bool)
        ensures
            r == plain_fields(*self),
    {
        let mut i: usize = 0;
        while i < self.fields.len()
            invariant
                i <= self.fields@.len(),
                forall|j: int| 0 <= j < i ==> plain_field(#[trigger] self.fields@[j]),
            decreases self.fields@.len() - i,
        {
            if !is_plain_field(&self.fields[i]) {
                return false;
            }
            i = i + 1;
        }
        true
    }

    /// The tokens that stand for the struct's tag.
    fn tag_token_vec(&self) -> (r: Vec<TokenTree>)
        ensures
            deep_seq(r@) == tag_tokens(*self),
    {
        match &self.tag {
            ContextOfStructTag::Tagged { ts, .. } => crate::syn_generic::tokens::clone_tokens(ts),
            ContextOfStructTag::Untagged { dummy } => match dummy {
                Some(v) => crate::syn_generic::tokens::clone_tokens(v),
                None => {
                    let mut text: Vec<u8> = Vec::new();
                    text.push(34u8);
                    text.push(34u8);
                    assert(text@ =~= string_literal_text(Seq::empty()));
                    let mut r: Vec<TokenTree> = Vec::new();
                    push_tt(&mut r, TokenTree::Literal(Literal { text, span: self.name.span }));
                    assert(deep_seq(r@) =~= tag_tokens(*self));
                    r
                },
            },
        }
    }

    /// Writes what `@to`, `@(to.untagged_default)` or
    /// `@(to.tagged_default)` of the struct expands to where no template is
    /// needed for it (see `to_prop_plain`): the struct's JSON form from its
    /// fields, with the errors at the property's place. Otherwise nothing
    /// is written and `false` comes back.
    pub fn expand_struct_to_prop(&self, prop: &crate::props::StructProp, out: &mut TokensCollector, errors: &mut ErrorCollector) -> (r: bool)
        ensures
            r == to_prop_plain(*self, *prop),
            r ==> deep_seq(final(out).0@) == deep_seq(old(out).0@) + to_prop_json(*self, *prop),
            r ==> errs(*final(errors)) == errs(*old(errors)) + to_prop_errors(*self, *prop),
            !r ==> *final(out) == *old(out) && *final(errors) == *old(errors),
    {
        if !self.fields_plain() {
            return false;
        }
        let ts = match prop {
            crate::props::StructProp::To(sp) => {
                if self.to_custom.is_some() {
                    return false;
                }
                match &self.tag {
                    ContextOfStructTag::Tagged { ts, .. } => {
                        if self.to_tagged_kvs.is_some() {
                            return false;
                        }
                        self.tagged_tokens(ts, *sp, errors)
                    },
                    ContextOfStructTag::Untagged { .. } => self.untagged_tokens(*sp, errors),
                }
            },
            crate::props::StructProp::ToUntaggedDefault(sp) => self.untagged_tokens(*sp, errors),
            crate::props::StructProp::ToTaggedDefault(sp) => {
                if self.to_tagged_kvs.is_some() {
                    return false;
                }
                let tag = self.tag_token_vec();
                match &self.tag {
                    ContextOfStructTag::Tagged { .. } => {},
                    ContextOfStructTag::Untagged { .. } => {
                        push_msg(errors, "@tag not defined on struct", *sp);
                    },
                }
                let r = self.tagged_tokens(&tag, *sp, errors);
                assert(errs(*errors) =~= errs(*old(errors)) + to_prop_errors(*self, *prop));
                r
            },
            _ => {
                return false;
            },
        };
        extend_tt(&mut out.0, ts);
        true
    }
}

} // verus!
