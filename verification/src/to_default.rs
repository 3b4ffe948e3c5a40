//! The default JSON value of a struct, put together from what its fields
//! expand to: `null` for a unit struct, an object of the fields' entries,
//! an array of their items, or the value of the only field.
use vstd::prelude::*;
use crate::syn_generic::tokens::{
    Span, TokenTree, Punct, Spacing, Group, Delimiter, DeepToken, deep_seq, lemma_deep_seq_add,
    lemma_deep_seq_push, lemma_deep_seq_index,
};
use crate::syn_generic::{ErrorCollector, ParseError, ParseErrorKind, error_kinds, errs};
use crate::json_item::{CustomTokensExpandError, OnlyFieldError, OnlyFieldResult};
use crate::item_attrs::make_ident;
use crate::expand_errors::{
    IntoParseErrorWithSpan, StructToDefaultExpandError, StructToTaggedKvsDefaultExpandError,
    StructTagExpandError, ContentNotDefinedError, CustomTokensExpandErrorOr,
    ToAdjacentlyTaggedDefaultExpandError, StructFieldExpandToKvsDefaultError,
    StructFieldExpandToItemsDefaultError, opt_kinds, opt_reportable,
};
use crate::json_item::StructFieldExpandNameError;
use vstd::string::StringSliceAdditionalSpecFns;

verus! {

/// What one field that is not skipped expanded to: the place of its name,
/// its tokens, and its failure, if any.
pub struct FieldExpanded<E> {
    pub name_span: Span,
    pub tokens: Vec<TokenTree>,
    pub error: Option<E>,
}

/// The fields' expansions as the default value of a struct takes them.
pub enum ToDefaultParts<E> {
    /// `transparent` (at `span`, if given): the only field's value, or
    /// the error when the struct has no fields.
    Transparent {
        span: Option<Span>,
        only_field: OnlyFieldResult<(Vec<TokenTree>, Option<CustomTokensExpandError<&'static str>>)>,
    },
    Unit,
    /// The entries of each field.
    Object(Vec<FieldExpanded<E>>),
    /// The items of each field.
    Array(Vec<FieldExpanded<E>>),
}

/// `..` at a place, then the tokens, then `sep` at the place.
pub open spec fn spread_part(span: Span, tokens: Seq<TokenTree>, sep: char) -> Seq<DeepToken> {
    seq![
        DeepToken::Punct(Punct { ch: '.', spacing: Spacing::Joint, span }),
        DeepToken::Punct(Punct { ch: '.', spacing: Spacing::Alone, span }),
    ] + deep_seq(tokens) + seq![DeepToken::Punct(Punct { ch: sep, spacing: Spacing::Alone, span })]
}

/// Each field spread in turn, each followed by `sep`.
pub open spec fn spread_fields<E>(span: Span, fs: Seq<FieldExpanded<E>>, sep: char) -> Seq<DeepToken>
    decreases fs.len(),
{
    if fs.len() == 0 {
        Seq::empty()
    } else {
        spread_fields(span, fs.drop_last(), sep) + spread_part(span, fs.last().tokens@, sep)
    }
}

/// The failures of the fields, each at the place of the field's name, in
/// order.
pub open spec fn fields_errors<E: IntoParseErrorWithSpan>(fs: Seq<FieldExpanded<E>>) -> Seq<ParseErrorKind>
    decreases fs.len(),
{
    if fs.len() == 0 {
        Seq::empty()
    } else {
        fields_errors(fs.drop_last()) + opt_kinds(fs.last().error, fs.last().name_span)
    }
}

/// Every failure of a field can be reported.
pub open spec fn fields_reportable<E: IntoParseErrorWithSpan>(fs: Seq<FieldExpanded<E>>) -> bool {
    forall|i: int| 0 <= i < fs.len() ==> opt_reportable(#[trigger] fs[i].error)
}

/// The default value as tokens: `null`, `{ ..entries; .. }` or
/// `[ ..items, .. ]` at the place of the struct's name, or the only field's
/// value.
pub open spec fn to_default_tokens<E>(name_span: Span, parts: ToDefaultParts<E>) -> Seq<DeepToken> {
    match parts {
        ToDefaultParts::Transparent { span, only_field } => {
            let s = match span {
                Some(s) => s,
                None => name_span,
            };
            match only_field {
                OnlyFieldResult::Existing((ts, _), _) => deep_seq(ts@),
                OnlyFieldResult::EmptyFields(_) => seq![DeepToken::Ident("null".spec_bytes(), s)],
            }
        },
        ToDefaultParts::Unit => seq![DeepToken::Ident("null".spec_bytes(), name_span)],
        ToDefaultParts::Object(fs) => seq![
            DeepToken::Group(Delimiter::Brace, spread_fields(name_span, fs@, ';'), name_span, name_span),
        ],
        ToDefaultParts::Array(fs) => seq![
            DeepToken::Group(Delimiter::Bracket, spread_fields(name_span, fs@, ','), name_span, name_span),
        ],
    }
}

/// The failure of the default value, as the errors it is reported as at
/// `span`; nothing when it did not fail.
pub open spec fn to_default_errors<E: IntoParseErrorWithSpan>(parts: ToDefaultParts<E>, span: Span) -> Seq<ParseErrorKind> {
    match parts {
        ToDefaultParts::Transparent { span: _, only_field } => match only_field {
            OnlyFieldResult::Existing((_, e), of) => opt_kinds(of, span) + opt_kinds(e, span),
            OnlyFieldResult::EmptyFields(of) => seq![ParseErrorKind::Custom { msg: of.0, span: Some(span) }],
        },
        ToDefaultParts::Unit => Seq::empty(),
        ToDefaultParts::Object(fs) => fields_errors(fs@),
        ToDefaultParts::Array(fs) => fields_errors(fs@),
    }
}

/// Nothing failed: naming the only field and its value, or every field.
pub open spec fn to_default_ok<E: IntoParseErrorWithSpan>(parts: ToDefaultParts<E>) -> bool {
    match parts {
        ToDefaultParts::Transparent { span: _, only_field } => match only_field {
            OnlyFieldResult::Existing((_, e), of) => of is None && e is None,
            OnlyFieldResult::EmptyFields(_) => false,
        },
        ToDefaultParts::Unit => true,
        ToDefaultParts::Object(fs) => fields_errors(fs@).len() == 0,
        ToDefaultParts::Array(fs) => fields_errors(fs@).len() == 0,
    }
}

/// The parts can be reported.
pub open spec fn parts_reportable<E: IntoParseErrorWithSpan>(parts: ToDefaultParts<E>) -> bool {
    match parts {
        ToDefaultParts::Object(fs) => fields_reportable(fs@),
        ToDefaultParts::Array(fs) => fields_reportable(fs@),
        _ => true,
    }
}

/// Spreads each field with `..` and ends it with `sep`, all at `span`;
/// the failures of the fields are reported at their names.
fn spread(span: Span, fs: Vec<FieldExpanded<impl IntoParseErrorWithSpan>>, sep: char, errors: &mut ErrorCollector) -> (r: Vec<TokenTree>)
    requires
        fields_reportable(fs@),
    ensures
        deep_seq(r@) == spread_fields(span, fs@, sep),
        errs(*final(errors)) == errs(*old(errors)) + fields_errors(fs@),
{
    let ghost all = fs@;
    let ghost e0 = errs(*errors);
    let mut out: Vec<TokenTree> = Vec::new();
    assert(all.len() <= usize::MAX) by {
        assert(fs@.len() == fs.len());
    }
    let mut rest = fs;
    let mut k: usize = 0;
    proof {
        assert(all.subrange(0, 0) =~= Seq::<FieldExpanded<_>>::empty());
        assert(deep_seq(out@) =~= Seq::<DeepToken>::empty());
        assert(e0 + Seq::<ParseErrorKind>::empty() =~= e0);
    }
    while rest.len() > 0
        invariant
            k + rest@.len() == all.len(),
            all.len() <= usize::MAX,
            rest@ == all.subrange(k as int, all.len() as int),
            deep_seq(out@) == spread_fields(span, all.subrange(0, k as int), sep),
            errs(*errors) == e0 + fields_errors(all.subrange(0, k as int)),
            fields_reportable(all),
        decreases rest@.len(),
    {
        let f = rest.remove(0);
        proof {
            assert(f == all[k as int]);
            assert(opt_reportable(all[k as int].error));
        }
        let ghost prefix = all.subrange(0, k as int + 1);
        proof {
            assert(prefix.drop_last() =~= all.subrange(0, k as int));
            assert(prefix.last() == f);
        }
        let FieldExpanded { name_span, tokens, error } = f;
        let ghost o0 = deep_seq(out@);
        let ghost tv = tokens@;
        let t1 = TokenTree::Punct(Punct { ch: '.', spacing: Spacing::Joint, span });
        proof { lemma_deep_seq_push(out@, t1); }
        out.push(t1);
        let t2 = TokenTree::Punct(Punct { ch: '.', spacing: Spacing::Alone, span });
        proof { lemma_deep_seq_push(out@, t2); }
        out.push(t2);
        proof { lemma_deep_seq_add(out@, tokens@); }
        let mut tokens = tokens;
        out.append(&mut tokens);
        let t3 = TokenTree::Punct(Punct { ch: sep, spacing: Spacing::Alone, span });
        proof { lemma_deep_seq_push(out@, t3); }
        out.push(t3);
        proof {
            assert(deep_seq(out@) =~= o0 + spread_part(span, tv, sep));
        }
        let ghost eb = errs(*errors);
        match error {
            Some(e) => errors.push(e.into_parse_error_with_span(name_span)),
            None => {
                assert(eb + Seq::<ParseErrorKind>::empty() =~= eb);
            },
        }
        proof {
            assert(errs(*errors) =~= e0 + fields_errors(prefix));
        }
        k = k + 1;
        proof {
            assert(rest@ =~= all.subrange(k as int, all.len() as int));
        }
    }
    proof {
        assert(all.subrange(0, k as int) =~= all);
    }
    out
}

/// The errors collected, if any, as the failure of an object or array.
fn object_or_array_result(errors: ErrorCollector) -> (r: Result<(), StructToDefaultExpandError>)
    ensures
        errs(errors).len() == 0 ==> r is Ok,
        errs(errors).len() > 0 ==> (r matches Err(StructToDefaultExpandError::ObjectOrArray(e)) && error_kinds(e)
            == errs(errors)),
{
    match errors.ok() {
        Ok(()) => Ok(()),
        Err(e) => Err(StructToDefaultExpandError::ObjectOrArray(e)),
    }
}

/// One group at `span` around the tokens.
fn group_at(d: Delimiter, stream: Vec<TokenTree>, span: Span) -> (r: Vec<TokenTree>)
    ensures
        deep_seq(r@) == seq![DeepToken::Group(d, deep_seq(stream@), span, span)],
{
    let ghost sv = stream@;
    let mut r: Vec<TokenTree> = Vec::new();
    r.push(TokenTree::Group(Group { delimiter: d, stream, span_open: span, span_close: span }));
    proof {
        lemma_deep_seq_index(r@);
        assert(deep_seq(r@) =~= seq![DeepToken::Group(d, deep_seq(sv), span, span)]);
    }
    r
}

/// `null` at a place.
fn null_at(span: Span) -> (r: Vec<TokenTree>)
    ensures
        deep_seq(r@) == seq![DeepToken::Ident("null".spec_bytes(), span)],
{
    let mut r: Vec<TokenTree> = Vec::new();
    r.push(TokenTree::Ident(make_ident("null", span)));
    proof {
        lemma_deep_seq_index(r@);
        assert(deep_seq(r@) =~= seq![DeepToken::Ident("null".spec_bytes(), span)]);
    }
    r
}

/// The default value of a struct named at `name_span` from the expansions
/// of its fields, and its failure: for `transparent`, naming the only field
/// or its value failed; for an object or array, some field failed; a unit
/// struct never fails.
pub fn calc_expand_to_default<E: IntoParseErrorWithSpan>(name_span: Span, parts: ToDefaultParts<E>) -> (r: (Vec<TokenTree>, Result<(), StructToDefaultExpandError>))
    requires
        parts_reportable(parts),
    ensures
        deep_seq(r.0@) == to_default_tokens(name_span, parts),
        (r.1 is Ok) == to_default_ok(parts),
        r.1 matches Err(e) ==> e.reportable() && forall|sp: Span| #[trigger] e.kinds_at(sp) == to_default_errors(parts, sp),
{
    match parts {
        ToDefaultParts::Transparent { span, only_field } => {
            let s = match span {
                Some(s) => s,
                None => name_span,
            };
            match only_field {
                OnlyFieldResult::Existing((ts, expand_to), only_field) => {
                    let res = if only_field.is_none() && expand_to.is_none() {
                        Ok(())
                    } else {
                        Err(StructToDefaultExpandError::Transparent { only_field, expand_to })
                    };
                    (ts, res)
                },
                OnlyFieldResult::EmptyFields(only_field) => (
                    null_at(s),
                    Err(StructToDefaultExpandError::Transparent { only_field: Some(only_field), expand_to: None }),
                ),
            }
        },
        ToDefaultParts::Unit => (null_at(name_span), Ok(())),
        ToDefaultParts::Object(fs) => {
            let mut errors = ErrorCollector::new();
            let inner = spread(name_span, fs, ';', &mut errors);
            assert(Seq::<ParseErrorKind>::empty() + fields_errors(fs@) =~= fields_errors(fs@));
            (group_at(Delimiter::Brace, inner, name_span), object_or_array_result(errors))
        },
        ToDefaultParts::Array(fs) => {
            let mut errors = ErrorCollector::new();
            let inner = spread(name_span, fs, ',', &mut errors);
            assert(Seq::<ParseErrorKind>::empty() + fields_errors(fs@) =~= fields_errors(fs@));
            (group_at(Delimiter::Bracket, inner, name_span), object_or_array_result(errors))
        },
    }
}

/// The entries of a struct after its tag: those of its only field's value
/// for `transparent`, else `{}` for a unit struct and `{ ..entries; .. }`
/// of its fields otherwise, at the place of its name.
pub open spec fn to_tagged_kvs_tokens<E>(name_span: Span, parts: ToDefaultParts<E>) -> Seq<DeepToken> {
    match parts {
        ToDefaultParts::Transparent { .. } => to_default_tokens(name_span, parts),
        ToDefaultParts::Unit => seq![DeepToken::Group(Delimiter::Brace, Seq::empty(), name_span, name_span)],
        ToDefaultParts::Object(fs) => seq![
            DeepToken::Group(Delimiter::Brace, spread_fields(name_span, fs@, ';'), name_span, name_span),
        ],
        ToDefaultParts::Array(fs) => seq![
            DeepToken::Group(Delimiter::Brace, spread_fields(name_span, fs@, ';'), name_span, name_span),
        ],
    }
}

/// The entries of a struct after its tag from the expansions of its
/// fields' entries (for a struct of either shape), and its failure, as for
/// its default value.
pub fn calc_to_tagged_kvs_default<E: IntoParseErrorWithSpan>(name_span: Span, parts: ToDefaultParts<E>) -> (r: (Vec<TokenTree>, Result<(), StructToTaggedKvsDefaultExpandError>))
    requires
        parts_reportable(parts),
    ensures
        deep_seq(r.0@) == to_tagged_kvs_tokens(name_span, parts),
        (r.1 is Ok) == to_default_ok(parts),
        r.1 matches Err(e) ==> e.reportable() && forall|sp: Span| #[trigger] e.kinds_at(sp) == to_default_errors(parts, sp),
{
    let (ts, res) = match parts {
        ToDefaultParts::Transparent { span, only_field } => {
            let (ts, res) = calc_expand_to_default(name_span, ToDefaultParts::<E>::Transparent { span, only_field });
            return (
                ts,
                match res {
                    Ok(()) => Ok(()),
                    Err(e) => Err(StructToTaggedKvsDefaultExpandError(e)),
                },
            );
        },
        ToDefaultParts::Unit => {
            let ghost e = Seq::<TokenTree>::empty();
            assert(deep_seq(e) =~= Seq::<DeepToken>::empty());
            (group_at(Delimiter::Brace, Vec::new(), name_span), Ok(()))
        },
        ToDefaultParts::Object(fs) => {
            let mut errors = ErrorCollector::new();
            let inner = spread(name_span, fs, ';', &mut errors);
            assert(Seq::<ParseErrorKind>::empty() + fields_errors(fs@) =~= fields_errors(fs@));
            (group_at(Delimiter::Brace, inner, name_span), object_or_array_result(errors))
        },
        ToDefaultParts::Array(fs) => {
            let mut errors = ErrorCollector::new();
            let inner = spread(name_span, fs, ';', &mut errors);
            assert(Seq::<ParseErrorKind>::empty() + fields_errors(fs@) =~= fields_errors(fs@));
            (group_at(Delimiter::Brace, inner, name_span), object_or_array_result(errors))
        },
    };
    (
        ts,
        match res {
            Ok(()) => Ok(()),
            Err(e) => Err(StructToTaggedKvsDefaultExpandError(e)),
        },
    )
}

/// What the parts of the adjacently tagged form of a variant expanded to:
/// its tag, its name, and, when its value is written, its content key and
/// its untagged value.
pub struct AdjacentlyTaggedParts {
    pub tag: (Vec<TokenTree>, Option<StructTagExpandError>),
    pub name: Vec<TokenTree>,
    pub content_and_value: Option<(
        (Vec<TokenTree>, Option<ContentNotDefinedError>),
        (Vec<TokenTree>, Option<CustomTokensExpandErrorOr<StructToDefaultExpandError>>),
    )>,
}

/// `{ tag = name }`, or `{ tag = name; content = value }` when the value
/// is written, at the place of the variant's name.
pub open spec fn adjacently_tagged_tokens(name_span: Span, p: AdjacentlyTaggedParts) -> Seq<DeepToken> {
    let eq = DeepToken::Punct(Punct { ch: '=', spacing: Spacing::Alone, span: name_span });
    let semi = DeepToken::Punct(Punct { ch: ';', spacing: Spacing::Alone, span: name_span });
    let head = deep_seq(p.tag.0@) + seq![eq] + deep_seq(p.name@);
    let inner = match p.content_and_value {
        None => head,
        Some((c, v)) => head + seq![semi] + deep_seq(c.0@) + seq![eq] + deep_seq(v.0@),
    };
    seq![DeepToken::Group(Delimiter::Brace, inner, name_span, name_span)]
}

/// The failures of the parts, if any.
pub open spec fn adjacently_tagged_error(p: AdjacentlyTaggedParts) -> Option<ToAdjacentlyTaggedDefaultExpandError> {
    let (c, v) = match p.content_and_value {
        None => (None, None),
        Some((c, v)) => (c.1, v.1),
    };
    if p.tag.1 is None && c is None && v is None {
        None
    } else {
        Some(ToAdjacentlyTaggedDefaultExpandError { expand_tag: p.tag.1, expand_content: c, expand_to_untagged: v })
    }
}

/// The adjacently tagged form of a variant named at `name_span` from the
/// expansions of its parts, and its failure, made of those of the parts.
pub fn calc_to_adjacently_tagged_default(name_span: Span, p: AdjacentlyTaggedParts) -> (r: (Vec<TokenTree>, Result<(), ToAdjacentlyTaggedDefaultExpandError>))
    ensures
        deep_seq(r.0@) == adjacently_tagged_tokens(name_span, p),
        match adjacently_tagged_error(p) {
            None => r.1 is Ok,
            Some(e) => r.1 == Err::<(), ToAdjacentlyTaggedDefaultExpandError>(e),
        },
{
    let ghost pv = p;
    let AdjacentlyTaggedParts { tag, name, content_and_value } = p;
    let (tag_ts, expand_tag) = tag;
    let mut inner = tag_ts;
    let eq = TokenTree::Punct(Punct { ch: '=', spacing: Spacing::Alone, span: name_span });
    proof { lemma_deep_seq_push(inner@, eq); }
    inner.push(eq);
    proof { lemma_deep_seq_add(inner@, name@); }
    let mut name = name;
    inner.append(&mut name);
    proof {
        assert(deep_seq(inner@) =~= deep_seq(pv.tag.0@) + seq![
            DeepToken::Punct(Punct { ch: '=', spacing: Spacing::Alone, span: name_span }),
        ] + deep_seq(pv.name@));
    }
    let ghost head = deep_seq(inner@);
    let (expand_content, expand_to_untagged) = match content_and_value {
        None => (None, None),
        Some((c, v)) => {
            let (c_ts, c_err) = c;
            let (v_ts, v_err) = v;
            let ghost cv = c_ts@;
            let ghost vv = v_ts@;
            let semi = TokenTree::Punct(Punct { ch: ';', spacing: Spacing::Alone, span: name_span });
            proof { lemma_deep_seq_push(inner@, semi); }
            inner.push(semi);
            proof { lemma_deep_seq_add(inner@, c_ts@); }
            let mut c_ts = c_ts;
            inner.append(&mut c_ts);
            let eq2 = TokenTree::Punct(Punct { ch: '=', spacing: Spacing::Alone, span: name_span });
            proof { lemma_deep_seq_push(inner@, eq2); }
            inner.push(eq2);
            proof { lemma_deep_seq_add(inner@, v_ts@); }
            let mut v_ts = v_ts;
            inner.append(&mut v_ts);
            proof {
                assert(deep_seq(inner@) =~= head + seq![
                    DeepToken::Punct(Punct { ch: ';', spacing: Spacing::Alone, span: name_span }),
                ] + deep_seq(cv) + seq![
                    DeepToken::Punct(Punct { ch: '=', spacing: Spacing::Alone, span: name_span }),
                ] + deep_seq(vv));
            }
            (c_err, v_err)
        },
    };
    let res = if expand_tag.is_none() && expand_content.is_none() && expand_to_untagged.is_none() {
        Ok(())
    } else {
        Err(ToAdjacentlyTaggedDefaultExpandError { expand_tag, expand_content, expand_to_untagged })
    };
    (group_at(Delimiter::Brace, inner, name_span), res)
}

/// What a field's default entries are made of: its name and value for
/// `{ name = value }`, at the place of its name; or, for `flatten` at
/// `span`, whether the field is named and the entries of its own value.
pub enum FieldKvsParts {
    BracedNameEqTo {
        name_span: Span,
        name: (Vec<TokenTree>, Option<StructFieldExpandNameError>),
        to: (Vec<TokenTree>, Option<CustomTokensExpandError<&'static str>>),
    },
    Flatten { span: Span, named: bool, default_to: Vec<TokenTree> },
}

/// The default entries of a field as tokens.
pub open spec fn field_kvs_tokens(p: FieldKvsParts) -> Seq<DeepToken> {
    match p {
        FieldKvsParts::BracedNameEqTo { name_span, name, to } => seq![
            DeepToken::Group(
                Delimiter::Brace,
                deep_seq(name.0@) + seq![DeepToken::Punct(Punct { ch: '=', spacing: Spacing::Alone, span: name_span })]
                    + deep_seq(to.0@),
                name_span,
                name_span,
            ),
        ],
        FieldKvsParts::Flatten { span, named, default_to } => if named {
            deep_seq(default_to@)
        } else {
            seq![DeepToken::Group(Delimiter::Brace, Seq::empty(), span, span)]
        },
    }
}

/// The failure of a field's default entries: naming it, its value, or
/// both; or `flatten` on an unnamed field.
pub open spec fn field_kvs_error(p: FieldKvsParts) -> Option<StructFieldExpandToKvsDefaultError> {
    match p {
        FieldKvsParts::BracedNameEqTo { name_span: _, name, to } => if name.1 is None && to.1 is None {
            None
        } else {
            Some(StructFieldExpandToKvsDefaultError::NameEqTo { expand_name: name.1, expand_to: to.1 })
        },
        FieldKvsParts::Flatten { span: _, named, default_to: _ } => if named {
            None
        } else {
            Some(StructFieldExpandToKvsDefaultError::FlattenOnUnnamedField)
        },
    }
}

/// The default entries of a field from what its parts expanded to.
pub fn calc_expand_to_kvs_default(p: FieldKvsParts) -> (r: (Vec<TokenTree>, Result<(), StructFieldExpandToKvsDefaultError>))
    ensures
        deep_seq(r.0@) == field_kvs_tokens(p),
        match field_kvs_error(p) {
            None => r.1 is Ok,
            Some(e) => r.1 == Err::<(), StructFieldExpandToKvsDefaultError>(e),
        },
{
    match p {
        FieldKvsParts::BracedNameEqTo { name_span, name, to } => {
            let (name_ts, expand_name) = name;
            let (to_ts, expand_to) = to;
            let ghost nv = name_ts@;
            let ghost tv = to_ts@;
            let mut inner = name_ts;
            let eq = TokenTree::Punct(Punct { ch: '=', spacing: Spacing::Alone, span: name_span });
            proof { lemma_deep_seq_push(inner@, eq); }
            inner.push(eq);
            proof { lemma_deep_seq_add(inner@, to_ts@); }
            let mut to_ts = to_ts;
            inner.append(&mut to_ts);
            proof {
                assert(deep_seq(inner@) =~= deep_seq(nv) + seq![
                    DeepToken::Punct(Punct { ch: '=', spacing: Spacing::Alone, span: name_span }),
                ] + deep_seq(tv));
            }
            let res = if expand_name.is_none() && expand_to.is_none() {
                Ok(())
            } else {
                Err(StructFieldExpandToKvsDefaultError::NameEqTo { expand_name, expand_to })
            };
            (group_at(Delimiter::Brace, inner, name_span), res)
        },
        FieldKvsParts::Flatten { span, named, default_to } => {
            if named {
                (default_to, Ok(()))
            } else {
                assert(deep_seq(Seq::<TokenTree>::empty()) =~= Seq::<DeepToken>::empty());
                (group_at(Delimiter::Brace, Vec::new(), span), Err(StructFieldExpandToKvsDefaultError::FlattenOnUnnamedField))
            }
        },
    }
}

/// What a field's default items are made of: its value for `[value]`, at
/// the place of its name; or, for `flatten` at `span`, whether the field is
/// named and the items of its own value.
pub enum FieldItemsParts {
    BracketedTo { name_span: Span, to: (Vec<TokenTree>, Option<CustomTokensExpandError<&'static str>>) },
    Flatten { span: Span, named: bool, default_to: Vec<TokenTree> },
}

/// The default items of a field as tokens.
pub open spec fn field_items_tokens(p: FieldItemsParts) -> Seq<DeepToken> {
    match p {
        FieldItemsParts::BracketedTo { name_span, to } => seq![
            DeepToken::Group(Delimiter::Bracket, deep_seq(to.0@), name_span, name_span),
        ],
        FieldItemsParts::Flatten { span, named, default_to } => if named {
            seq![DeepToken::Group(Delimiter::Bracket, Seq::empty(), span, span)]
        } else {
            deep_seq(default_to@)
        },
    }
}

/// The failure of a field's default items: its value; or `flatten` on a
/// named field.
pub open spec fn field_items_error(p: FieldItemsParts) -> Option<StructFieldExpandToItemsDefaultError> {
    match p {
        FieldItemsParts::BracketedTo { name_span: _, to } => match to.1 {
            Some(e) => Some(StructFieldExpandToItemsDefaultError::To(e)),
            None => None,
        },
        FieldItemsParts::Flatten { span: _, named, default_to: _ } => if named {
            Some(StructFieldExpandToItemsDefaultError::FlattenOnNamedField)
        } else {
            None
        },
    }
}

/// The default items of a field from what its parts expanded to.
pub fn calc_expand_to_items_default(p: FieldItemsParts) -> (r: (Vec<TokenTree>, Result<(), StructFieldExpandToItemsDefaultError>))
    ensures
        deep_seq(r.0@) == field_items_tokens(p),
        match field_items_error(p) {
            None => r.1 is Ok,
            Some(e) => r.1 == Err::<(), StructFieldExpandToItemsDefaultError>(e),
        },
{
    match p {
        FieldItemsParts::BracketedTo { name_span, to } => {
            let (to_ts, expand_to) = to;
            let res = match expand_to {
                Some(e) => Err(StructFieldExpandToItemsDefaultError::To(e)),
                None => Ok(()),
            };
            (group_at(Delimiter::Bracket, to_ts, name_span), res)
        },
        FieldItemsParts::Flatten { span, named, default_to } => {
            if named {
                assert(deep_seq(Seq::<TokenTree>::empty()) =~= Seq::<DeepToken>::empty());
                (group_at(Delimiter::Bracket, Vec::new(), span), Err(StructFieldExpandToItemsDefaultError::FlattenOnNamedField))
            } else {
                (default_to, Ok(()))
            }
        },
    }
}

} // verus!
