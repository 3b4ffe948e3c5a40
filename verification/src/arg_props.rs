//! The properties of a struct or an enum variant that its own arguments
//! answer: `@name` and `@tag`, for a variant also `@content`,
//! `@discriminant`, `@discriminant_or_name` and `@(item.name)`; and the
//! externally tagged form of a variant around its untagged form.
use vstd::prelude::*;
use vstd::string::StringSliceAdditionalSpecFns;
use crate::syn_generic::tokens::{
    Span, Spacing, Ident, Literal, Punct, TokenTree, Group, Delimiter, DeepToken, deep_tt, deep_seq,
    lemma_deep_seq_index, lemma_deep_seq_push, clone_tokens,
};
use crate::syn_generic::{ErrorCollector, ParseErrorKind, errs};
use crate::syn_generic::parse_meta_utils::{EqValue, MetaPathSpanWith};
use crate::json_item::{
    MakeContextOfEnum, MakeContextOfStruct, ContextOfStructTag, CalcName, CacheForDummyTag, inherited, discriminant_json_value, kw_const_word, rename_key,
    Rename, is_empty_string_at,
};
use crate::props::{StructProp, struct_prop, struct_prop_is, struct_prop_errors, prop_is, prop_span, VariantProp, VariantTo, variant_prop, variant_prop_of, variant_prop_errors};
use crate::expand_props::{Prop, TokensCollector};
use crate::expand_errors::{
    custom_at, IntoParseErrorWithSpan, StructTagExpandError, ContentNotDefinedError,
};
use crate::json_item::EnumVariantDiscriminantNotDefinedError;
use crate::utils::{decimal_text, string_literal_text};

verus! {

/// `t` moved to `span`; a group keeps the tokens inside it where they are.
pub open spec fn deep_at(t: DeepToken, span: Span) -> DeepToken {
    match t {
        DeepToken::Group(d, s, _, _) => DeepToken::Group(d, s, span, span),
        DeepToken::Ident(n, _) => DeepToken::Ident(n, span),
        DeepToken::Punct(p) => DeepToken::Punct(Punct { ch: p.ch, spacing: p.spacing, span }),
        DeepToken::Literal(x, _) => DeepToken::Literal(x, span),
    }
}

/// A copy of `t` moved to `span`.
pub fn clone_at(t: &TokenTree, span: Span) -> (r: TokenTree)
    ensures
        deep_tt(r) == deep_at(deep_tt(*t), span),
{
    match t {
        TokenTree::Group(g) => TokenTree::Group(
            Group { delimiter: g.delimiter, stream: clone_tokens(&g.stream), span_open: span, span_close: span },
        ),
        TokenTree::Ident(i) => {
            let c = i.copied();
            TokenTree::Ident(Ident { name: c.name, span })
        },
        TokenTree::Punct(p) => TokenTree::Punct(Punct { ch: p.ch, spacing: p.spacing, span }),
        TokenTree::Literal(l) => TokenTree::Literal(Literal { text: l.text.clone(), span }),
    }
}

/// The name of variant `i` as a JSON value, deeply: the key that its
/// `rename` gives, else the key that the enum's `rename_variants` gives,
/// else a string literal of its name at its place.
pub open spec fn variant_name_deep(e: MakeContextOfEnum, i: int) -> Seq<DeepToken> {
    let v = e.variants@[i];
    match v.rename {
        Some(m) => rename_key(m.1, e.options.crate_path@, m.0, TokenTree::Ident(v.name)),
        None => match e.rename_variants {
            Some(m) => rename_key(Rename::Paren(m.1), e.options.crate_path@, m.0, TokenTree::Ident(v.name)),
            None => seq![DeepToken::Literal(string_literal_text(v.name.name@), v.name.span)],
        },
    }
}

/// A discriminant as a JSON value, deeply: a single literal as it is, else
/// `const { .. }` around its tokens at the place of its `=`.
pub open spec fn discriminant_deep(d: EqValue<Vec<TokenTree>>) -> Seq<DeepToken> {
    let ts = d.value@;
    if ts.len() == 1 && ts[0] is Literal {
        deep_seq(ts)
    } else {
        seq![
            DeepToken::Ident(kw_const_word(), d.eq.0.span),
            DeepToken::Group(Delimiter::Brace, deep_seq(ts), d.eq.0.span, d.eq.0.span),
        ]
    }
}

/// The token that stands for an argument that is not given: the one in
/// `cache`, else `""` at `span`.
pub open spec fn dummy_deep(cache: CacheForDummyTag, span: Span) -> DeepToken {
    match cache.0 {
        Some(t) => deep_tt(t),
        None => DeepToken::Literal(seq![34u8, 34u8], span),
    }
}

/// What `@tag` or `@content` writes for the argument `given`.
pub open spec fn arg_prop_deep(
    given: Option<MetaPathSpanWith<EqValue<Vec<TokenTree>>>>,
    cache: CacheForDummyTag,
    default_span: Span,
) -> Seq<DeepToken> {
    match given {
        Some(m) => deep_seq(m.1.value@),
        None => seq![dummy_deep(cache, default_span)],
    }
}

/// What the property `prop` of variant `i` writes, deeply; `tag_cache` and
/// `content_cache` hold the tokens that stand for a missing `tag` and
/// `content`.
pub open spec fn variant_arg_prop_deep(
    e: MakeContextOfEnum,
    i: int,
    prop: VariantProp,
    tag_cache: CacheForDummyTag,
    content_cache: CacheForDummyTag,
) -> Seq<DeepToken> {
    let v = e.variants@[i];
    match prop {
        VariantProp::Tag(_) => arg_prop_deep(inherited(v.tag, e.tag), tag_cache, e.name.span),
        VariantProp::Content(_) => arg_prop_deep(inherited(v.content, e.content), content_cache, e.name.span),
        VariantProp::Name(s) => variant_name_deep(e, i).map_values(|t: DeepToken| deep_at(t, s)),
        VariantProp::Discriminant(_) => match v.discriminant {
            Some(d) => discriminant_deep(d),
            None => seq![DeepToken::Literal(decimal_text(i as nat), v.name.span)],
        },
        VariantProp::DiscriminantOrName(_) => match v.discriminant {
            Some(d) => discriminant_deep(d),
            None => variant_name_deep(e, i),
        },
        VariantProp::To(..) => Seq::empty(),
    }
}

/// The errors that the property `prop` of variant `i` reports: a missing
/// `tag`, `content` or discriminant, at the property.
pub open spec fn variant_arg_prop_errors(e: MakeContextOfEnum, i: int, prop: VariantProp) -> Seq<ParseErrorKind> {
    let v = e.variants@[i];
    match prop {
        VariantProp::Tag(s) => if inherited(v.tag, e.tag) is None {
            custom_at("@tag not defined on enum variant", s)
        } else {
            Seq::empty()
        },
        VariantProp::Content(s) => if inherited(v.content, e.content) is None {
            custom_at("@content not defined on enum variant", s)
        } else {
            Seq::empty()
        },
        VariantProp::Discriminant(s) => if v.discriminant is None {
            custom_at("@discriminant not defined on this enum variant", s)
        } else {
            Seq::empty()
        },
        _ => Seq::empty(),
    }
}

/// How the cache for a missing argument stands after a property that reads
/// the argument `given` (`used`) or another property.
pub open spec fn cache_after(
    before: CacheForDummyTag,
    after: CacheForDummyTag,
    given: Option<MetaPathSpanWith<EqValue<Vec<TokenTree>>>>,
    used: bool,
    default_span: Span,
) -> bool {
    if used && given is None {
        &&& after.0 matches Some(t) && deep_tt(t) == dummy_deep(before, default_span)
        &&& before.0 is Some ==> after == before
    } else {
        after == before
    }
}

proof fn lemma_discriminant_deep(d: EqValue<Vec<TokenTree>>, r: Seq<TokenTree>)
    requires
        discriminant_json_value(d, r),
    ensures
        deep_seq(r) == discriminant_deep(d),
{
    let ts = d.value@;
    if !(ts.len() == 1 && ts[0] is Literal) {
        lemma_deep_seq_index(r);
        assert(deep_seq(r) =~= discriminant_deep(d));
    }
}

pub(crate) proof fn lemma_one_token(r: Seq<TokenTree>)
    requires
        r.len() == 1,
    ensures
        deep_seq(r) == seq![deep_tt(r[0])],
{
    lemma_deep_seq_index(r);
    assert(deep_seq(r) =~= seq![deep_tt(r[0])]);
}

impl MakeContextOfEnum {
    /// The name of variant `index_variant` as a JSON value, as
    /// `variant_name_deep` says.
    pub fn variant_name_tokens(&self, index_variant: usize) -> (r: Vec<TokenTree>)
        requires
            index_variant < self.variants@.len(),
        ensures
            deep_seq(r@) == variant_name_deep(*self, index_variant as int),
    {
        let r = self.name_as_json_value(index_variant);
        proof {
            let v = self.variants@[index_variant as int];
            if v.rename is None && self.rename_variants is None {
                lemma_one_token(r@);
            }
        }
        r
    }

    /// Writes what the property `prop` of variant `index_variant` expands
    /// to, when the variant's own arguments answer it: the tokens of `tag`
    /// or `content` (the variant's, else the enum's), else the token in the
    /// cache, made `""` at the enum's name when the cache is empty, and the
    /// error; the name at the property's place; the discriminant, else the
    /// variant's position at its name and the error; the discriminant, else
    /// the name.
    pub fn expand_variant_arg_prop(
        &self,
        index_variant: usize,
        prop: VariantProp,
        tag_cache: &mut CacheForDummyTag,
        content_cache: &mut CacheForDummyTag,
        out: &mut TokensCollector,
        errors: &mut ErrorCollector,
    )
        requires
            index_variant < self.variants@.len(),
            !(prop is To),
        ensures
            deep_seq(final(out).0@) == deep_seq(old(out).0@) + variant_arg_prop_deep(
                *self,
                index_variant as int,
                prop,
                *old(tag_cache),
                *old(content_cache),
            ),
            errs(*final(errors)) == errs(*old(errors)) + variant_arg_prop_errors(*self, index_variant as int, prop),
            cache_after(
                *old(tag_cache),
                *final(tag_cache),
                inherited(self.variants@[index_variant as int].tag, self.tag),
                prop is Tag,
                self.name.span,
            ),
            cache_after(
                *old(content_cache),
                *final(content_cache),
                inherited(self.variants@[index_variant as int].content, self.content),
                prop is Content,
                self.name.span,
            ),
    {
        let ghost before = out.0@;
        let ghost e = *self;
        let ghost i = index_variant as int;
        match prop {
            VariantProp::Tag(s) => {
                let (ts, res) = self.prop_tag(index_variant).try_into_tokens(tag_cache);
                proof {
                    if inherited(e.variants@[i].tag, e.tag) is None {
                        lemma_one_token(ts@);
                    }
                }
                push_all(ts, out);
                match res {
                    Ok(()) => {},
                    Err(()) => errors.push(
                        StructTagExpandError("@tag not defined on enum variant").into_parse_error_with_span(s),
                    ),
                }
            },
            VariantProp::Content(s) => {
                let (ts, res) = self.prop_content(index_variant).try_into_tokens(content_cache);
                proof {
                    if inherited(e.variants@[i].content, e.content) is None {
                        lemma_one_token(ts@);
                    }
                }
                push_all(ts, out);
                match res {
                    Ok(()) => {},
                    Err(()) => errors.push(ContentNotDefinedError.into_parse_error_with_span(s)),
                }
            },
            VariantProp::Name(s) => {
                let ts = self.variant_name_tokens(index_variant);
                push_all_at(ts, s, out);
            },
            VariantProp::Discriminant(s) => {
                let (ts, res) = self.discriminant(index_variant);
                proof {
                    match e.variants@[i].discriminant {
                        Some(d) => lemma_discriminant_deep(d, ts@),
                        None => lemma_one_token(ts@),
                    }
                }
                push_all(ts, out);
                match res {
                    Ok(()) => {},
                    Err(err) => errors.push(err.into_parse_error_with_span(s)),
                }
            },
            VariantProp::DiscriminantOrName(_) => {
                let ts = self.to_discriminant_or_name(index_variant);
                proof {
                    match e.variants@[i].discriminant {
                        Some(d) => lemma_discriminant_deep(d, ts@),
                        None => {
                            let v = e.variants@[i];
                            if v.rename is None && e.rename_variants is None {
                                lemma_one_token(ts@);
                            }
                        },
                    }
                }
                push_all(ts, out);
            },
            VariantProp::To(..) => {},
        }
    }


    /// Expands the property path `prop` at variant `index_variant`: reads it
    /// as `variant_prop` does, reporting what the variant does not define;
    /// writes what a property that the variant's own arguments answer
    /// expands to, as `expand_variant_arg_prop` does; and hands back an
    /// `@to` property, which takes the variant's templates, with its place.
    pub fn expand_prop_at_variant(
        &self,
        index_variant: usize,
        prop: crate::expand_props::PropPath,
        tag_cache: &mut CacheForDummyTag,
        content_cache: &mut CacheForDummyTag,
        out: &mut TokensCollector,
        errors: &mut ErrorCollector,
    ) -> (r: Option<(Span, VariantTo)>)
        requires
            index_variant < self.variants@.len(),
        ensures
            ({
                let read = variant_prop_of(prop.0, prop.1@);
                let read_errors = variant_prop_errors(prop.0, prop.1@);
                match read {
                    Some(VariantProp::To(s, after)) => {
                        &&& r == Some((s, after))
                        &&& final(out).0@ == old(out).0@
                        &&& errs(*final(errors)) == errs(*old(errors)) + read_errors
                        &&& *final(tag_cache) == *old(tag_cache)
                        &&& *final(content_cache) == *old(content_cache)
                    },
                    Some(p) => {
                        &&& r is None
                        &&& deep_seq(final(out).0@) == deep_seq(old(out).0@) + variant_arg_prop_deep(
                            *self,
                            index_variant as int,
                            p,
                            *old(tag_cache),
                            *old(content_cache),
                        )
                        &&& errs(*final(errors)) == errs(*old(errors)) + read_errors
                            + variant_arg_prop_errors(*self, index_variant as int, p)
                        &&& cache_after(
                            *old(tag_cache),
                            *final(tag_cache),
                            inherited(self.variants@[index_variant as int].tag, self.tag),
                            p is Tag,
                            self.name.span,
                        )
                        &&& cache_after(
                            *old(content_cache),
                            *final(content_cache),
                            inherited(self.variants@[index_variant as int].content, self.content),
                            p is Content,
                            self.name.span,
                        )
                    },
                    None => {
                        &&& r is None
                        &&& final(out).0@ == old(out).0@
                        &&& errs(*final(errors)) == errs(*old(errors)) + read_errors
                        &&& *final(tag_cache) == *old(tag_cache)
                        &&& *final(content_cache) == *old(content_cache)
                    },
                }
            }),
    {
        match variant_prop(prop, errors) {
            Some(VariantProp::To(s, after)) => Some((s, after)),
            Some(p) => {
                self.expand_variant_arg_prop(index_variant, p, tag_cache, content_cache, out, errors);
                None
            },
            None => None,
        }
    }
}

/// The name of a struct as a JSON value, deeply: the key that its `rename`
/// gives, else a string literal of its name at its place.
pub open spec fn struct_name_deep(c: MakeContextOfStruct) -> Seq<DeepToken> {
    match c.rename {
        Some(m) => rename_key(m.1, c.options.crate_path@, m.0, TokenTree::Ident(c.name)),
        None => seq![DeepToken::Literal(string_literal_text(c.name.name@), c.name.span)],
    }
}

/// What `@name` or `@tag` of a struct writes, deeply.
pub open spec fn struct_arg_prop_deep(c: MakeContextOfStruct, prop: StructProp) -> Seq<DeepToken> {
    match prop {
        StructProp::Name(s) => struct_name_deep(c).map_values(|t: DeepToken| deep_at(t, s)),
        StructProp::Tag(_) => match c.tag {
            ContextOfStructTag::Untagged { dummy } => match dummy {
                Some(v) => deep_seq(v@),
                None => seq![DeepToken::Literal(seq![34u8, 34u8], c.name.span)],
            },
            ContextOfStructTag::Tagged { ts, .. } => deep_seq(ts@),
        },
        _ => Seq::empty(),
    }
}

/// The errors that `@name` or `@tag` of a struct reports: a missing `tag`,
/// at the property.
pub open spec fn struct_arg_prop_errors(c: MakeContextOfStruct, prop: StructProp) -> Seq<ParseErrorKind> {
    match prop {
        StructProp::Tag(s) => if c.tag is Untagged {
            custom_at("@tag not defined on struct", s)
        } else {
            Seq::empty()
        },
        _ => Seq::empty(),
    }
}

/// How the tag of a struct stands after `@tag` (`used`) or another
/// property: a given tag is marked used; a missing one keeps the token that
/// stands for it, made `""` at the struct's name the first time.
pub open spec fn struct_tag_after(before: MakeContextOfStruct, after: MakeContextOfStruct, used: bool) -> bool {
    &&& after.name == before.name
    &&& after.rename == before.rename
    &&& after.rename_fields == before.rename_fields
    &&& after.options == before.options
    &&& after.fields == before.fields
    &&& after.fields_ident_to_index == before.fields_ident_to_index
    &&& after.to_default == before.to_default
    &&& after.to_custom == before.to_custom
    &&& after.to_tagged_kvs == before.to_tagged_kvs
    &&& if !used {
        after.tag == before.tag
    } else {
        match before.tag {
            ContextOfStructTag::Tagged { span_tag, ts, .. } => after.tag == (ContextOfStructTag::Tagged {
                span_tag,
                ts,
                accessed: true,
            }),
            ContextOfStructTag::Untagged { dummy } => match dummy {
                Some(v) => after.tag == before.tag,
                None => after.tag matches ContextOfStructTag::Untagged { dummy: Some(v) } && deep_seq(v@)
                    == seq![DeepToken::Literal(seq![34u8, 34u8], before.name.span)],
            },
        }
    }
}

impl MakeContextOfStruct {
    /// Writes what `@name` or `@tag` of the struct expands to: its name at
    /// the property's place; the tokens of its `tag = ..`, marked used, or,
    /// when it has none, the token that stands for the tag (`""` at its
    /// name, made the first time) and the error.
    pub fn expand_struct_arg_prop(&mut self, prop: StructProp, out: &mut TokensCollector, errors: &mut ErrorCollector)
        requires
            prop is Name || prop is Tag,
        ensures
            deep_seq(final(out).0@) == deep_seq(old(out).0@) + struct_arg_prop_deep(*old(self), prop),
            errs(*final(errors)) == errs(*old(errors)) + struct_arg_prop_errors(*old(self), prop),
            struct_tag_after(*old(self), *final(self), prop is Tag),
    {
        let ghost before = out.0@;
        let ghost c = *self;
        match prop {
            StructProp::Name(s) => {
                let ts = CalcName { options: &self.options, rename: self.rename.as_ref(), name: &self.name }.calc();
                proof {
                    if c.rename is None {
                        lemma_one_token(ts@);
                    }
                }
                push_all_at(ts, s, out);
            },
            StructProp::Tag(s) => {
                let name_span = self.name.span;
                match &mut self.tag {
                    ContextOfStructTag::Tagged { ts, accessed, .. } => {
                        *accessed = true;
                        push_all(clone_tokens(ts), out);
                    },
                    ContextOfStructTag::Untagged { dummy } => {
                        if dummy.is_none() {
                            let mut text: Vec<u8> = Vec::new();
                            text.push(34u8);
                            text.push(34u8);
                            let mut v: Vec<TokenTree> = Vec::new();
                            v.push(TokenTree::Literal(Literal { text, span: name_span }));
                            proof {
                                assert(text@ =~= seq![34u8, 34u8]);
                                lemma_one_token(v@);
                            }
                            *dummy = Some(v);
                        }
                        match dummy {
                            Some(v) => push_all(clone_tokens(v), out),
                            None => {},
                        }
                        errors.push(StructTagExpandError("@tag not defined on struct").into_parse_error_with_span(s));
                    },
                }
            },
            _ => {},
        }
    }
}

impl MakeContextOfStruct {
    /// Expands the property path `prop` at the struct: reads it as
    /// `struct_prop` does, reporting what the struct does not define;
    /// writes `@name` and `@tag` as `expand_struct_arg_prop` does; and hands
    /// back `@self` and the `@to` properties, which take the struct's
    /// fields and templates (`expand_struct_to_prop` writes the `@to` ones
    /// where no template is needed).
    pub fn expand_struct_prop(&mut self, prop: crate::expand_props::PropPath, out: &mut TokensCollector, errors: &mut ErrorCollector) -> (r: Option<StructProp>)
        ensures
            ({
                let first = prop.0;
                let rest = prop.1@;
                let name_or_tag = prop_is(first, "name") || prop_is(first, "tag");
                let p = if prop_is(first, "name") {
                    StructProp::Name(prop_span(first))
                } else {
                    StructProp::Tag(prop_span(first))
                };
                if name_or_tag {
                    &&& r is None
                    &&& deep_seq(final(out).0@) == deep_seq(old(out).0@) + struct_arg_prop_deep(*old(self), p)
                    &&& errs(*final(errors)) == errs(*old(errors)) + struct_prop_errors(first, rest)
                        + struct_arg_prop_errors(*old(self), p)
                    &&& struct_tag_after(*old(self), *final(self), p is Tag)
                } else {
                    &&& struct_prop_is(r, first, rest)
                    &&& final(out).0@ == old(out).0@
                    &&& errs(*final(errors)) == errs(*old(errors)) + struct_prop_errors(first, rest)
                    &&& *final(self) == *old(self)
                }
            }),
    {
        proof {
            reveal_strlit("name");
            reveal_strlit("self");
            reveal_strlit("tag");
            vstd::string::is_ascii_spec_bytes("name");
            vstd::string::is_ascii_spec_bytes("self");
            vstd::string::is_ascii_spec_bytes("tag");
            assert(vstd::string::is_ascii("name"));
            assert(vstd::string::is_ascii("self"));
            assert(vstd::string::is_ascii("tag"));
            assert("name".spec_bytes() != "self".spec_bytes() && "name".spec_bytes() != "tag".spec_bytes()
                && "self".spec_bytes() != "tag".spec_bytes()) by {
                assert("name".spec_bytes().len() == 4 && "self".spec_bytes().len() == 4);
                assert("tag".spec_bytes().len() == 3);
                assert("name".spec_bytes()[0] != "self".spec_bytes()[0]);
            }
        }
        match struct_prop(prop, errors) {
            Some(StructProp::Name(s)) => {
                self.expand_struct_arg_prop(StructProp::Name(s), out, errors);
                None
            },
            Some(StructProp::Tag(s)) => {
                self.expand_struct_arg_prop(StructProp::Tag(s), out, errors);
                None
            },
            other => other,
        }
    }
}

/// The name of an enum as a JSON value, deeply: the key that its `rename`
/// gives, else a string literal of its name at its place.
pub open spec fn enum_name_deep(e: MakeContextOfEnum) -> Seq<DeepToken> {
    match e.rename {
        Some(m) => rename_key(m.1, e.options.crate_path@, m.0, TokenTree::Ident(e.name)),
        None => seq![DeepToken::Literal(string_literal_text(e.name.name@), e.name.span)],
    }
}

/// What `@item` followed by `rest` writes at a variant of `e`: for
/// `@(item.name)` the enum's name at the place of `name`.
pub open spec fn item_rest_deep(e: MakeContextOfEnum, rest: Seq<Prop>) -> Seq<DeepToken> {
    if rest.len() > 0 && prop_is(rest[0], "name") {
        enum_name_deep(e).map_values(|t: DeepToken| deep_at(t, prop_span(rest[0])))
    } else {
        Seq::empty()
    }
}

/// The errors of `@item` (at `span`) followed by `rest`: `@item` alone
/// makes no tokens, and `name` is its one property.
pub open spec fn item_rest_errors(span: Span, rest: Seq<Prop>) -> Seq<ParseErrorKind> {
    if rest.len() == 0 {
        custom_at("@item cannot expand to tokens", span)
    } else if prop_is(rest[0], "name") {
        Seq::empty()
    } else {
        custom_at("property not defined on @item", prop_span(rest[0]))
    }
}

impl MakeContextOfEnum {
    /// Expands `@item` at `first_ident_span` followed by the properties
    /// `rest` at a variant of the enum: `@(item.name)` writes the enum's
    /// name at the place of `name`; `@item` alone and any other property
    /// of it are reported.
    pub fn expand_item_rest_prop(&self, first_ident_span: Span, rest: Vec<Prop>, out: &mut TokensCollector, errors: &mut ErrorCollector)
        ensures
            deep_seq(final(out).0@) == deep_seq(old(out).0@) + item_rest_deep(*self, rest@),
            errs(*final(errors)) == errs(*old(errors)) + item_rest_errors(first_ident_span, rest@),
    {
        if rest.len() == 0 {
            errors.push_custom("@item cannot expand to tokens", Some(first_ident_span));
            assert(deep_seq(out.0@) + Seq::<DeepToken>::empty() =~= deep_seq(out.0@));
            return;
        }
        let first = &rest[0];
        let s = first.span();
        if crate::props::is_named(first, "name") {
            let ts = CalcName { options: &self.options, rename: self.rename.as_ref(), name: &self.name }.calc();
            proof {
                if self.rename is None {
                    lemma_one_token(ts@);
                }
            }
            push_all_at(ts, s, out);
            assert(errs(*errors) + Seq::<ParseErrorKind>::empty() =~= errs(*errors));
        } else {
            errors.push_custom("property not defined on @item", Some(s));
            assert(deep_seq(out.0@) + Seq::<DeepToken>::empty() =~= deep_seq(out.0@));
        }
    }
}

/// `{ name = value }` for variant `i` of `e`, deeply, with the braces and
/// `=` at the variant's name.
pub open spec fn externally_tagged_deep(e: MakeContextOfEnum, i: int, value: Seq<DeepToken>) -> DeepToken {
    let span = e.variants@[i].name.span;
    DeepToken::Group(
        Delimiter::Brace,
        variant_name_deep(e, i) + seq![DeepToken::Punct(Punct { ch: '=', spacing: Spacing::Alone, span })]
            + value,
        span,
        span,
    )
}

impl MakeContextOfEnum {
    /// The externally tagged form of variant `index_variant`, `{ name =
    /// value }`, from the expansion of its untagged form, whose failure it
    /// keeps.
    pub fn to_externally_tagged_default<E>(&self, index_variant: usize, untagged: (Vec<TokenTree>, Result<(), E>)) -> (r: (TokenTree, Result<(), E>))
        requires
            index_variant < self.variants@.len(),
        ensures
            deep_tt(r.0) == externally_tagged_deep(*self, index_variant as int, deep_seq(untagged.0@)),
            r.1 == untagged.1,
    {
        let span = self.variants[index_variant].name.span;
        let (value, res) = untagged;
        let ghost value_view = value@;
        let mut inner = self.variant_name_tokens(index_variant);
        let eq = TokenTree::Punct(Punct { ch: '=', spacing: Spacing::Alone, span });
        proof { lemma_deep_seq_push(inner@, eq); }
        inner.push(eq);
        proof { crate::syn_generic::tokens::lemma_deep_seq_add(inner@, value@); }
        let mut value = value;
        inner.append(&mut value);
        assert(deep_seq(inner@) =~= variant_name_deep(*self, index_variant as int) + seq![
            DeepToken::Punct(Punct { ch: '=', spacing: Spacing::Alone, span }),
        ] + deep_seq(value_view));
        let r = TokenTree::Group(Group { delimiter: Delimiter::Brace, stream: inner, span_open: span, span_close: span });
        assert(deep_tt(r) == DeepToken::Group(Delimiter::Brace, deep_seq(inner@), span, span));
        (r, res)
    }
}

/// Adds copies of `ts`, each moved to `span`, at the end of `out`.
fn push_all_at(ts: Vec<TokenTree>, span: Span, out: &mut TokensCollector)
    ensures
        deep_seq(final(out).0@) == deep_seq(old(out).0@) + deep_seq(ts@).map_values(|t: DeepToken| deep_at(t, span)),
{
    let ghost before = out.0@;
    let ghost names = deep_seq(ts@);
    proof { lemma_deep_seq_index(ts@); }
    let mut k: usize = 0;
    while k < ts.len()
        invariant
            k <= ts@.len(),
            names == deep_seq(ts@),
            names.len() == ts@.len(),
            forall|j: int| 0 <= j < ts@.len() ==> #[trigger] names[j] == deep_tt(ts@[j]),
            deep_seq(out.0@) == deep_seq(before) + names.subrange(0, k as int).map_values(
                |t: DeepToken| deep_at(t, span),
            ),
        decreases ts@.len() - k,
    {
        let t = clone_at(&ts[k], span);
        proof { lemma_deep_seq_push(out.0@, t); }
        out.push(t);
        k = k + 1;
        proof {
            assert(names.subrange(0, k as int).map_values(|t: DeepToken| deep_at(t, span))
                =~= names.subrange(0, k - 1).map_values(|t: DeepToken| deep_at(t, span)).push(
                deep_at(names[k - 1], span),
            ));
        }
    }
    assert(names.subrange(0, k as int) =~= names);
}

/// Adds `ts` at the end of `out`.
fn push_all(ts: Vec<TokenTree>, out: &mut TokensCollector)
    ensures
        deep_seq(final(out).0@) == deep_seq(old(out).0@) + deep_seq(ts@),
{
    proof { crate::syn_generic::tokens::lemma_deep_seq_add(out.0@, ts@); }
    out.extend(ts);
}

} // verus!
