//! The arguments that the `cjson` attribute takes on a struct, an enum, a
//! field or a variant, and how an item's fields and variants are read with
//! them into the plain description that the code generator works from.
use vstd::prelude::*;
use crate::syn_generic::tokens::{
    Span, Ident, Literal, TokenTree, Group, Delimiter, Punct, Spacing, is_punct, is_ident_named,
    span_open_or_entire, DeepToken, deep_tt, deep_seq,
};
use crate::syn_generic::{
    ErrorCollector, ParseError, ParseErrorKind, MetaAfterPath, ConsumedTokens, GroupParen, MetaSimple,
    GroupBracket, PunctPound, GroupBrace, OuterAttr, ParsedField, ParsingTokenStream, FieldStep,
    fields_spec, field_matches, StreamState, StructData, attrs_count, attrs_from, ParsedVariant, EnumVariant, EnumVariantBody,
    variants_spec, variant_matches, after_body, take_n, comma_scan,
    error_kinds, errs,
};
use crate::syn_generic::parse_meta::{MetaToParse, ParseMeta};
use crate::syn_generic::{fields_failed_at, failed_attrs_ok};
use crate::syn_generic::parse_meta_utils::{EqValue, FlagPresent, MetaPathSpanWith};
use crate::utils::decimal_text;
use crate::expand_props::{Prop, PropPath, Context, TokensCollector, expand_ts_iter_to, is_plain, lemma_plain_expands_nothing};
use vstd::string::StringSliceAdditionalSpecFns;
use crate::item_attrs::{
    make_ident, IdentTree, top_level_tree, top_level_args, push_top_level_attr_meta_with_one, kw_cjson,
};

verus! {

/// How an enum variant is tagged in its JSON form.
#[derive(Clone, Copy, PartialEq, Eq, Structural)]
pub enum TagMode {
    /// The value alone.
    Untagged,
    /// The discriminant or the name alone.
    TagOnly,
    /// `{ name: value }`
    ExternallyTagged,
    /// The tag inside the value's own object.
    InternallyTagged,
    /// `{ tag: name, content: value }`
    AdjacentlyTagged,
}

/// A tag mode given by an attribute, with the place of the attribute.
#[derive(Clone, Copy, PartialEq, Eq, Structural)]
pub struct SpecifiedTagMode {
    pub span: Span,
    pub mode: TagMode,
}

impl SpecifiedTagMode {
    /// `mode` given at `span`.
    pub fn new(span: Span, mode: TagMode) -> (r: Self)
        ensures
            r.span == span,
            r.mode == mode,
    {
        SpecifiedTagMode { span, mode }
    }
}

/// The shape of an enum variant's fields.
#[derive(Clone, Copy, PartialEq, Eq, Structural)]
pub enum VariantType {
    Unit,
    Array,
    Object,
}

/// What a struct, or a variant, turns into when nothing else is given.
#[derive(Clone, Copy, PartialEq, Eq, Structural)]
pub enum StructToDefault {
    /// Its only field's value; the place of `transparent` when given.
    Transparent { span: Option<Span> },
    Unit,
    Object,
    Array,
}

/// What a field turns into inside an object when nothing else is given.
#[derive(Clone, Copy, PartialEq, Eq, Structural)]
pub enum StructFieldToKvsDefault {
    /// `name: value`
    BracedNameEqTo,
    /// The entries of its own value, for `flatten` at `span`.
    Flatten { span: Span },
}

/// What a field turns into inside an array when nothing else is given.
#[derive(Clone, Copy, PartialEq, Eq, Structural)]
pub enum StructFieldToItemsDefault {
    /// `[value]`
    BracketedTo,
    /// The items of its own value, for `flatten` at `span`.
    Flatten { span: Span },
}

/// A value that is taken out while it is being expanded, so that a request
/// for it that comes meanwhile finds it gone.
pub enum MaybeCalculating<T> {
    NotCalculating(T),
    Calculating,
}

impl<T> MaybeCalculating<T> {
    /// Takes the value out and leaves the mark that it is being expanded.
    pub fn take_for_calculating(&mut self) -> (r: Option<T>)
        ensures
            *final(self) is Calculating,
            r == match *old(self) {
                MaybeCalculating::NotCalculating(v) => Some(v),
                MaybeCalculating::Calculating => None::<T>,
            },
    {
        let mut taken = MaybeCalculating::Calculating;
        std::mem::swap(&mut taken, self);
        match taken {
            MaybeCalculating::NotCalculating(v) => Some(v),
            MaybeCalculating::Calculating => None,
        }
    }
}

/// Tokens given by an attribute argument, with the place of its name.
pub struct CustomTokens {
    pub span: Span,
    pub tokens: MaybeCalculating<Vec<TokenTree>>,
}

/// Tokens given by an attribute argument that are not being expanded.
pub struct CustomTokensNotCalculating {
    pub span: Span,
    pub tokens: Vec<TokenTree>,
}

impl CustomTokens {
    /// The tokens inside the group of an argument, at the argument's name.
    pub fn from_meta(m: MetaPathSpanWith<GroupParen>) -> (r: Self)
        ensures
            r.span == m.0,
            r.tokens == MaybeCalculating::NotCalculating(m.1.0.stream),
    {
        CustomTokens { span: m.0, tokens: MaybeCalculating::NotCalculating(m.1.0.stream) }
    }

    /// Tokens that are not being expanded.
    pub fn from_not_calculating(v: CustomTokensNotCalculating) -> (r: Self)
        ensures
            r.span == v.span,
            r.tokens == MaybeCalculating::NotCalculating(v.tokens),
    {
        CustomTokens { span: v.span, tokens: MaybeCalculating::NotCalculating(v.tokens) }
    }

    /// Takes the tokens out for expanding them; what stays is marked as
    /// being expanded.
    pub fn take_for_calculating(&mut self) -> (r: Self)
        ensures
            r == *old(self),
            final(self).span == old(self).span,
            final(self).tokens is Calculating,
    {
        let span = self.span;
        let tokens = match self.tokens.take_for_calculating() {
            Some(v) => MaybeCalculating::NotCalculating(v),
            None => MaybeCalculating::Calculating,
        };
        CustomTokens { span, tokens }
    }

    /// Expands the tokens with `ctx`. Tokens that are being expanded already
    /// give the error for a property that refers to itself, with `msg`, and
    /// stand-in tokens at the argument's place; otherwise the errors of the
    /// expansion, if any, come back together.
    pub fn expand<C: Context, M>(self, ctx: &mut C, dummy: CircularDummy, msg: M) -> (r: (Vec<TokenTree>, Result<(), CustomTokensExpandError<M>>))
        ensures
            self.tokens is Calculating ==> {
                &&& deep_seq(r.0@) == dummy_tokens(dummy, self.span)
                &&& r.1 == Err::<(), CustomTokensExpandError<M>>(CustomTokensExpandError::CircularRef { msg })
                &&& *final(ctx) == *old(ctx)
            },
            self.tokens matches MaybeCalculating::NotCalculating(ts) ==> {
                &&& !(r.1 matches Err(CustomTokensExpandError::CircularRef { .. }))
                &&& is_plain(ts@) ==> r.1 is Ok && deep_seq(r.0@) == deep_seq(ts@) && *final(ctx) == *old(ctx)
            },
    {
        let CustomTokens { span, tokens } = self;
        let tokens = match tokens {
            MaybeCalculating::NotCalculating(ts) => ts,
            MaybeCalculating::Calculating => {
                return (make_dummy(dummy, span), Err(CustomTokensExpandError::CircularRef { msg }));
            },
        };
        let mut errors = ErrorCollector::new();
        let mut out = TokensCollector(Vec::new());
        proof {
            if is_plain(tokens@) {
                lemma_plain_expands_nothing(tokens@);
            }
        }
        let _ = expand_ts_iter_to(&mut out, &tokens, ctx, &mut errors);
        proof {
            if is_plain(tokens@) {
                assert(Seq::<TokenTree>::empty() + tokens@ =~= tokens@);
            }
        }
        let res = match errors.ok() {
            Ok(()) => Ok(()),
            Err(e) => Err(CustomTokensExpandError::Other(e)),
        };
        (out.0, res)
    }
}

/// What an expansion that fails gives: the error for a property that
/// refers to itself, with its message, or the errors of the template.
pub enum CustomTokensExpandError<M> {
    CircularRef { msg: M },
    Other(ParseError),
}

/// The tokens that stand in for a property that refers to itself.
#[derive(Clone, Copy, PartialEq, Eq, Structural)]
pub enum CircularDummy {
    /// `null`
    Null,
    /// `{}`
    Braces,
    /// `[]`
    Brackets,
}

/// The stand-in tokens at a place.
pub open spec fn dummy_tokens(d: CircularDummy, span: Span) -> Seq<DeepToken> {
    match d {
        CircularDummy::Null => seq![DeepToken::Ident("null".spec_bytes(), span)],
        CircularDummy::Braces => seq![DeepToken::Group(Delimiter::Brace, Seq::empty(), span, span)],
        CircularDummy::Brackets => seq![DeepToken::Group(Delimiter::Bracket, Seq::empty(), span, span)],
    }
}

/// Makes the stand-in tokens at a place.
pub fn make_dummy(d: CircularDummy, span: Span) -> (r: Vec<TokenTree>)
    ensures
        deep_seq(r@) == dummy_tokens(d, span),
{
    let t = match d {
        CircularDummy::Null => TokenTree::Ident(make_ident("null", span)),
        CircularDummy::Braces => TokenTree::Group(
            Group { delimiter: Delimiter::Brace, stream: Vec::new(), span_open: span, span_close: span },
        ),
        CircularDummy::Brackets => TokenTree::Group(
            Group { delimiter: Delimiter::Bracket, stream: Vec::new(), span_open: span, span_close: span },
        ),
    };
    let ghost tv = t;
    let mut r: Vec<TokenTree> = Vec::new();
    r.push(t);
    proof {
        assert(r@ =~= seq![tv]);
        crate::syn_generic::tokens::lemma_deep_seq_index(r@);
        match tv {
            TokenTree::Group(g) => assert(deep_seq(g.stream@) =~= Seq::<DeepToken>::empty()),
            _ => {},
        }
        assert(deep_seq(r@) =~= dummy_tokens(d, span));
    }
    r
}

impl CustomTokensNotCalculating {
    /// The tokens inside the group of an argument, at the argument's name.
    pub fn from_meta(m: MetaPathSpanWith<GroupParen>) -> (r: Self)
        ensures
            r.span == m.0,
            r.tokens == m.1.0.stream,
    {
        CustomTokensNotCalculating { span: m.0, tokens: m.1.0.stream }
    }
}

/// `null`
pub open spec fn kw_null() -> Seq<u8> {
    seq![110u8, 117u8, 108u8, 108u8]
}

/// The value that stands in for a refused argument.
#[derive(Clone, Copy, PartialEq, Eq, Structural)]
pub enum Placeholder {
    /// `(null)`
    Null,
    /// `({})`
    Object,
    /// `([])`
    Array,
}

/// `t` is an empty group in `d` at `span`.
pub open spec fn is_empty_group_at(t: TokenTree, d: Delimiter, span: Span) -> bool {
    t matches TokenTree::Group(h) && h.delimiter == d && h.stream@.len() == 0 && h.span_open
        == span && h.span_close == span
}

/// `g` is the placeholder `p` with all its tokens at `span`.
pub open spec fn is_placeholder(g: GroupParen, p: Placeholder, span: Span) -> bool {
    &&& g.0.delimiter == Delimiter::Parenthesis
    &&& g.0.span_open == span
    &&& g.0.span_close == span
    &&& g.0.stream@.len() == 1
    &&& match p {
        Placeholder::Null => g.0.stream@[0] matches TokenTree::Ident(i) && i.name@ == kw_null()
            && i.span == span,
        Placeholder::Object => is_empty_group_at(g.0.stream@[0], Delimiter::Brace, span),
        Placeholder::Array => is_empty_group_at(g.0.stream@[0], Delimiter::Bracket, span),
    }
}

/// The placeholder `p` at `span`.
pub fn placeholder(p: Placeholder, span: Span) -> (r: GroupParen)
    ensures
        is_placeholder(r, p, span),
{
    let t = match p {
        Placeholder::Null => TokenTree::Ident(
            Ident { name: crate::syn_generic::tokens::bytes_to_vec(&[110u8, 117u8, 108u8, 108u8]), span },
        ),
        Placeholder::Object => TokenTree::Group(
            Group { delimiter: Delimiter::Brace, stream: Vec::new(), span_open: span, span_close: span },
        ),
        Placeholder::Array => TokenTree::Group(
            Group { delimiter: Delimiter::Bracket, stream: Vec::new(), span_open: span, span_close: span },
        ),
    };
    let mut stream: Vec<TokenTree> = Vec::new();
    stream.push(t);
    proof {
        assert(seq![110u8, 117u8, 108u8, 108u8] =~= kw_null());
    }
    GroupParen(Group { delimiter: Delimiter::Parenthesis, stream, span_open: span, span_close: span })
}

/// `g` is what an argument that takes `(..)` and falls back to `p` holds:
/// the group when one in `(..)` follows the name, else `p` at the name.
pub open spec fn paren_or_placeholder(path: Ident, after: MetaAfterPath<ConsumedTokens>, g: GroupParen, p: Placeholder) -> bool {
    if GroupParen::refused(path, after) is None {
        GroupParen::reads_as(path, after, g)
    } else {
        is_placeholder(g, p, path.span)
    }
}

/// The errors reported by an argument that takes `(..)` and falls back to
/// a placeholder: why the group was refused, if it was.
pub open spec fn paren_fallback_errors(path: Ident, after: MetaAfterPath<ConsumedTokens>) -> Seq<ParseErrorKind> {
    match GroupParen::refused(path, after) {
        Some(e) => e,
        None => Seq::empty(),
    }
}

/// Reads `(..)`; when something else follows the name, reports why and
/// gives `p` at the name.
fn read_paren_or(input: MetaToParse, errors: &mut ErrorCollector, ident_trees: &mut Vec<IdentTree>, p: Placeholder) -> (r: GroupParen)
    ensures
        paren_or_placeholder(*input.path, input.after_path, r, p),
        errs(*final(errors)) == errs(*old(errors)) + paren_fallback_errors(*input.path, input.after_path),
        final(ident_trees)@ == old(ident_trees)@,
{
    let span = input.path_span();
    let ghost path = *input.path;
    let ghost after = input.after_path;
    let ghost n0 = ident_trees@.len();
    let r = match GroupParen::parse_meta(input, errors, ident_trees) {
        Ok(g) => {
            assert(errs(*errors) =~= errs(*old(errors)) + paren_fallback_errors(path, after));
            g
        },
        Err(e) => {
            errors.push(e);
            placeholder(p, span)
        },
    };
    assert(ident_trees@ =~= ident_trees@.subrange(0, n0 as int));
    r
}

/// `to(..)` on an item or variant: the tokens of its JSON form; `(null)` stands in when it is misshapen.
pub struct ItemTo(pub GroupParen);

impl ParseMeta for ItemTo {
    open spec fn reads_as(path: Ident, after: MetaAfterPath<ConsumedTokens>, v: Self) -> bool {
        paren_or_placeholder(path, after, v.0, Placeholder::Null)
    }

    open spec fn refused(path: Ident, after: MetaAfterPath<ConsumedTokens>) -> Option<Seq<ParseErrorKind>> {
        None
    }

    open spec fn reported(path: Ident, after: MetaAfterPath<ConsumedTokens>) -> Seq<ParseErrorKind> {
        paren_fallback_errors(path, after)
    }

    open spec fn names_given(path: Ident, after: MetaAfterPath<ConsumedTokens>, names: Seq<IdentTree>) -> bool {
        names.len() == 0
    }

    fn parse_meta(input: MetaToParse, errors: &mut ErrorCollector, ident_trees: &mut Vec<IdentTree>) -> (r: Result<Self, ParseError>) {
        let g = read_paren_or(input, errors, ident_trees, Placeholder::Null);
        assert(ident_trees@.subrange(0, ident_trees@.len() as int) =~= ident_trees@);
        Ok(ItemTo(g))
    }
}

impl ItemTo {
    /// The placeholder for a misshapen argument at `span`.
    pub fn dummy(span: Span) -> (r: Self)
        ensures
            is_placeholder(r.0, Placeholder::Null, span),
    {
        ItemTo(placeholder(Placeholder::Null, span))
    }

    /// The group.
    pub fn into_paren(self) -> (r: GroupParen)
        ensures
            r == self.0,
    {
        self.0
    }
}

/// `to_untagged(..)` on an enum or variant: the tokens of its value without a tag; `(null)` stands in when it is misshapen.
pub struct EnumToUntagged(pub GroupParen);

impl ParseMeta for EnumToUntagged {
    open spec fn reads_as(path: Ident, after: MetaAfterPath<ConsumedTokens>, v: Self) -> bool {
        paren_or_placeholder(path, after, v.0, Placeholder::Null)
    }

    open spec fn refused(path: Ident, after: MetaAfterPath<ConsumedTokens>) -> Option<Seq<ParseErrorKind>> {
        None
    }

    open spec fn reported(path: Ident, after: MetaAfterPath<ConsumedTokens>) -> Seq<ParseErrorKind> {
        paren_fallback_errors(path, after)
    }

    open spec fn names_given(path: Ident, after: MetaAfterPath<ConsumedTokens>, names: Seq<IdentTree>) -> bool {
        names.len() == 0
    }

    fn parse_meta(input: MetaToParse, errors: &mut ErrorCollector, ident_trees: &mut Vec<IdentTree>) -> (r: Result<Self, ParseError>) {
        let g = read_paren_or(input, errors, ident_trees, Placeholder::Null);
        assert(ident_trees@.subrange(0, ident_trees@.len() as int) =~= ident_trees@);
        Ok(EnumToUntagged(g))
    }
}

impl EnumToUntagged {
    /// The placeholder for a misshapen argument at `span`.
    pub fn dummy(span: Span) -> (r: Self)
        ensures
            is_placeholder(r.0, Placeholder::Null, span),
    {
        EnumToUntagged(placeholder(Placeholder::Null, span))
    }

    /// The group.
    pub fn into_paren(self) -> (r: GroupParen)
        ensures
            r == self.0,
    {
        self.0
    }
}

/// `to_tagged_kvs(..)`: the entries that an internally tagged value adds to its object; `({})` stands in when it is misshapen.
pub struct StructToTaggedKvs(pub GroupParen);

impl ParseMeta for StructToTaggedKvs {
    open spec fn reads_as(path: Ident, after: MetaAfterPath<ConsumedTokens>, v: Self) -> bool {
        paren_or_placeholder(path, after, v.0, Placeholder::Object)
    }

    open spec fn refused(path: Ident, after: MetaAfterPath<ConsumedTokens>) -> Option<Seq<ParseErrorKind>> {
        None
    }

    open spec fn reported(path: Ident, after: MetaAfterPath<ConsumedTokens>) -> Seq<ParseErrorKind> {
        paren_fallback_errors(path, after)
    }

    open spec fn names_given(path: Ident, after: MetaAfterPath<ConsumedTokens>, names: Seq<IdentTree>) -> bool {
        names.len() == 0
    }

    fn parse_meta(input: MetaToParse, errors: &mut ErrorCollector, ident_trees: &mut Vec<IdentTree>) -> (r: Result<Self, ParseError>) {
        let g = read_paren_or(input, errors, ident_trees, Placeholder::Object);
        assert(ident_trees@.subrange(0, ident_trees@.len() as int) =~= ident_trees@);
        Ok(StructToTaggedKvs(g))
    }
}

impl StructToTaggedKvs {
    /// The placeholder for a misshapen argument at `span`.
    pub fn dummy(span: Span) -> (r: Self)
        ensures
            is_placeholder(r.0, Placeholder::Object, span),
    {
        StructToTaggedKvs(placeholder(Placeholder::Object, span))
    }

    /// The group.
    pub fn into_paren(self) -> (r: GroupParen)
        ensures
            r == self.0,
    {
        self.0
    }
}

/// `to(..)` on a field: the tokens of its JSON value; `(null)` stands in when it is misshapen.
pub struct StructFieldTo(pub GroupParen);

impl ParseMeta for StructFieldTo {
    open spec fn reads_as(path: Ident, after: MetaAfterPath<ConsumedTokens>, v: Self) -> bool {
        paren_or_placeholder(path, after, v.0, Placeholder::Null)
    }

    open spec fn refused(path: Ident, after: MetaAfterPath<ConsumedTokens>) -> Option<Seq<ParseErrorKind>> {
        None
    }

    open spec fn reported(path: Ident, after: MetaAfterPath<ConsumedTokens>) -> Seq<ParseErrorKind> {
        paren_fallback_errors(path, after)
    }

    open spec fn names_given(path: Ident, after: MetaAfterPath<ConsumedTokens>, names: Seq<IdentTree>) -> bool {
        names.len() == 0
    }

    fn parse_meta(input: MetaToParse, errors: &mut ErrorCollector, ident_trees: &mut Vec<IdentTree>) -> (r: Result<Self, ParseError>) {
        let g = read_paren_or(input, errors, ident_trees, Placeholder::Null);
        assert(ident_trees@.subrange(0, ident_trees@.len() as int) =~= ident_trees@);
        Ok(StructFieldTo(g))
    }
}

impl StructFieldTo {
    /// The placeholder for a misshapen argument at `span`.
    pub fn dummy(span: Span) -> (r: Self)
        ensures
            is_placeholder(r.0, Placeholder::Null, span),
    {
        StructFieldTo(placeholder(Placeholder::Null, span))
    }

    /// The group.
    pub fn into_paren(self) -> (r: GroupParen)
        ensures
            r == self.0,
    {
        self.0
    }
}

/// `to_kvs(..)` on a field: the entries it adds to an object; `({})` stands in when it is misshapen.
pub struct StructFieldToKvs(pub GroupParen);

impl ParseMeta for StructFieldToKvs {
    open spec fn reads_as(path: Ident, after: MetaAfterPath<ConsumedTokens>, v: Self) -> bool {
        paren_or_placeholder(path, after, v.0, Placeholder::Object)
    }

    open spec fn refused(path: Ident, after: MetaAfterPath<ConsumedTokens>) -> Option<Seq<ParseErrorKind>> {
        None
    }

    open spec fn reported(path: Ident, after: MetaAfterPath<ConsumedTokens>) -> Seq<ParseErrorKind> {
        paren_fallback_errors(path, after)
    }

    open spec fn names_given(path: Ident, after: MetaAfterPath<ConsumedTokens>, names: Seq<IdentTree>) -> bool {
        names.len() == 0
    }

    fn parse_meta(input: MetaToParse, errors: &mut ErrorCollector, ident_trees: &mut Vec<IdentTree>) -> (r: Result<Self, ParseError>) {
        let g = read_paren_or(input, errors, ident_trees, Placeholder::Object);
        assert(ident_trees@.subrange(0, ident_trees@.len() as int) =~= ident_trees@);
        Ok(StructFieldToKvs(g))
    }
}

impl StructFieldToKvs {
    /// The placeholder for a misshapen argument at `span`.
    pub fn dummy(span: Span) -> (r: Self)
        ensures
            is_placeholder(r.0, Placeholder::Object, span),
    {
        StructFieldToKvs(placeholder(Placeholder::Object, span))
    }

    /// The group.
    pub fn into_paren(self) -> (r: GroupParen)
        ensures
            r == self.0,
    {
        self.0
    }
}

/// `to_items(..)` on a field: the items it adds to an array; `([])` stands in when it is misshapen.
pub struct StructFieldToItems(pub GroupParen);

impl ParseMeta for StructFieldToItems {
    open spec fn reads_as(path: Ident, after: MetaAfterPath<ConsumedTokens>, v: Self) -> bool {
        paren_or_placeholder(path, after, v.0, Placeholder::Array)
    }

    open spec fn refused(path: Ident, after: MetaAfterPath<ConsumedTokens>) -> Option<Seq<ParseErrorKind>> {
        None
    }

    open spec fn reported(path: Ident, after: MetaAfterPath<ConsumedTokens>) -> Seq<ParseErrorKind> {
        paren_fallback_errors(path, after)
    }

    open spec fn names_given(path: Ident, after: MetaAfterPath<ConsumedTokens>, names: Seq<IdentTree>) -> bool {
        names.len() == 0
    }

    fn parse_meta(input: MetaToParse, errors: &mut ErrorCollector, ident_trees: &mut Vec<IdentTree>) -> (r: Result<Self, ParseError>) {
        let g = read_paren_or(input, errors, ident_trees, Placeholder::Array);
        assert(ident_trees@.subrange(0, ident_trees@.len() as int) =~= ident_trees@);
        Ok(StructFieldToItems(g))
    }
}

impl StructFieldToItems {
    /// The placeholder for a misshapen argument at `span`.
    pub fn dummy(span: Span) -> (r: Self)
        ensures
            is_placeholder(r.0, Placeholder::Array, span),
    {
        StructFieldToItems(placeholder(Placeholder::Array, span))
    }

    /// The group.
    pub fn into_paren(self) -> (r: GroupParen)
        ensures
            r == self.0,
    {
        self.0
    }
}

/// How a name is renamed: by a function given in `(..)`, or to the value
/// after `=`.
pub enum Rename {
    Paren(GroupParen),
    Eq(EqValue<Vec<TokenTree>>),
}

/// The identifiers joined by `-` after the one at `k - 1`: each `-` and
/// identifier pair from `k` on, up to the first that is not one.
pub open spec fn dash_chain(toks: Seq<TokenTree>, k: int) -> Seq<Ident>
    decreases toks.len() - k,
{
    if 0 <= k && k + 1 < toks.len() && is_punct(toks[k], '-') && toks[k + 1] is Ident {
        seq![toks[k + 1]->Ident_0] + dash_chain(toks, k + 2)
    } else {
        Seq::empty()
    }
}

/// The two identifiers display alike at the same place.
pub open spec fn same_ident(a: Ident, b: Ident) -> bool {
    a.name@ == b.name@ && a.span == b.span
}

/// `trees` is a chain of names: the first of `ids`, with the chain of the
/// rest as its only child.
pub open spec fn is_chain(trees: Seq<IdentTree>, ids: Seq<Ident>) -> bool
    decreases ids.len(),
{
    if ids.len() == 0 {
        trees.len() == 0
    } else {
        &&& trees.len() == 1
        &&& same_ident(trees[0].ident, ids[0])
        &&& trees[0].mod_name@ == ""@
        &&& is_chain(trees[0].children@, ids.drop_first())
    }
}

/// The names a rename function given as `name-name-..` adds: the first
/// identifier, with the chain of those joined to it by `-`.
pub open spec fn rename_fn_names(toks: Seq<TokenTree>, names: Seq<IdentTree>) -> bool {
    if toks.len() > 0 && toks[0] is Ident {
        &&& names.len() == 1
        &&& same_ident(names[0].ident, toks[0]->Ident_0)
        &&& names[0].mod_name@ == ""@
        &&& is_chain(names[0].children@, dash_chain(toks, 1))
    } else {
        names.len() == 0
    }
}

/// The identifiers joined by `-` after the one at `k - 1`, copied.
fn read_dash_chain(toks: &Vec<TokenTree>, k: usize) -> (r: Vec<Ident>)
    requires
        k <= toks@.len(),
    ensures
        r@.len() == dash_chain(toks@, k as int).len(),
        forall|j: int| 0 <= j < r@.len() ==> same_ident(#[trigger] r@[j], dash_chain(toks@, k as int)[j]),
{
    let mut out: Vec<Ident> = Vec::new();
    let mut j: usize = k;
    loop
        invariant
            k <= j <= toks@.len(),
            out@.len() + dash_chain(toks@, j as int).len() == dash_chain(toks@, k as int).len(),
            forall|m: int| 0 <= m < out@.len() ==> same_ident(#[trigger] out@[m], dash_chain(toks@, k as int)[m]),
            forall|m: int| 0 <= m < dash_chain(toks@, j as int).len() ==> #[trigger] dash_chain(toks@, j as int)[m]
                == dash_chain(toks@, k as int)[out@.len() + m],
        decreases toks@.len() - j,
    {
        if !(j < toks.len() && toks.len() - j > 1 && toks[j].is_punct('-')) {
            return out;
        }
        match &toks[j + 1] {
            TokenTree::Ident(i) => {
                let c = i.copied();
                let ghost before = dash_chain(toks@, j as int);
                assert(before == seq![toks@[j + 1]->Ident_0] + dash_chain(toks@, j + 2));
                assert(before[0] == dash_chain(toks@, k as int)[out@.len() as int]);
                out.push(c);
                proof {
                    assert forall|m: int| 0 <= m < dash_chain(toks@, j + 2).len() implies #[trigger] dash_chain(toks@, j + 2)[m]
                        == dash_chain(toks@, k as int)[out@.len() + m] by {
                        assert(dash_chain(toks@, j + 2)[m] == before[m + 1]);
                    }
                }
                j = j + 2;
            },
            _ => {
                return out;
            },
        }
    }
}

/// The chain of names for `ids`, built from the last one up.
fn build_chain(ids: Vec<Ident>) -> (r: Vec<IdentTree>)
    ensures
        is_chain(r@, ids@),
{
    let mut ids = ids;
    let ghost all = ids@;
    let mut tree: Vec<IdentTree> = Vec::new();
    while ids.len() > 0
        invariant
            all.len() >= ids@.len(),
            ids@ == all.subrange(0, ids@.len() as int),
            is_chain(tree@, all.subrange(ids@.len() as int, all.len() as int)),
        decreases ids@.len(),
    {
        let id = ids.pop().unwrap();
        let mut node: Vec<IdentTree> = Vec::new();
        node.push(IdentTree { ident: id, mod_name: "", children: tree });
        proof {
            let rest = all.subrange(ids@.len() as int, all.len() as int);
            assert(rest.drop_first() =~= all.subrange((ids@.len() + 1) as int, all.len() as int));
        }
        tree = node;
    }
    assert(all.subrange(0, all.len() as int) =~= all);
    tree
}

/// The names a rename function given by `toks` adds, as a tree.
fn rename_fn_tree(toks: &Vec<TokenTree>) -> (r: Option<IdentTree>)
    ensures
        rename_fn_names(
            toks@,
            match r {
                Some(t) => seq![t],
                None => Seq::empty(),
            },
        ),
{
    if toks.len() == 0 {
        return None;
    }
    match &toks[0] {
        TokenTree::Ident(first) => {
            let ident = first.copied();
            let chain = read_dash_chain(toks, 1);
            let ghost ids = chain@;
            let children = build_chain(chain);
            proof {
                lemma_chain_same(children@, ids, dash_chain(toks@, 1));
            }
            Some(IdentTree { ident, mod_name: "", children })
        },
        _ => None,
    }
}

/// A chain for identifiers that display alike at the same places is a
/// chain for either.
proof fn lemma_chain_same(trees: Seq<IdentTree>, a: Seq<Ident>, b: Seq<Ident>)
    requires
        is_chain(trees, a),
        a.len() == b.len(),
        forall|j: int| 0 <= j < a.len() ==> same_ident(#[trigger] a[j], b[j]),
    ensures
        is_chain(trees, b),
    decreases a.len(),
{
    if a.len() > 0 {
        assert(same_ident(a[0], b[0]));
        assert forall|j: int| 0 <= j < a.drop_first().len() implies same_ident(
            #[trigger] a.drop_first()[j],
            b.drop_first()[j],
        ) by {
            assert(same_ident(a[j + 1], b[j + 1]));
        }
        lemma_chain_same(trees[0].children@, a.drop_first(), b.drop_first());
    }
}

impl ParseMeta for Rename {
    /// A group in `(..)`, or `=` and the tokens after it.
    open spec fn reads_as(path: Ident, after: MetaAfterPath<ConsumedTokens>, v: Self) -> bool {
        match after {
            MetaAfterPath::Group(g) => g.delimiter == Delimiter::Parenthesis && v == Rename::Paren(
                GroupParen(g),
            ),
            MetaAfterPath::Eq { eq, before_comma_or_eof } => v matches Rename::Eq(ev) && ev.eq == eq
                && ev.value@ == before_comma_or_eof.tokens@,
            MetaAfterPath::Empty => false,
        }
    }

    /// Anything else is an error where it starts.
    open spec fn refused(path: Ident, after: MetaAfterPath<ConsumedTokens>) -> Option<Seq<ParseErrorKind>> {
        match after {
            MetaAfterPath::Empty => Some(
                seq![
                    ParseErrorKind::Custom {
                        msg: "expect `($rename_fn)` or `= \"name\"`",
                        span: Some(path.span),
                    },
                ],
            ),
            MetaAfterPath::Group(g) => if g.delimiter == Delimiter::Parenthesis {
                None
            } else {
                Some(
                    seq![
                        ParseErrorKind::Custom {
                            msg: "expect `($rename_fn)` or `= \"name\"`",
                            span: Some(g.span_open),
                        },
                    ],
                )
            },
            MetaAfterPath::Eq { .. } => None,
        }
    }

    open spec fn reported(path: Ident, after: MetaAfterPath<ConsumedTokens>) -> Seq<ParseErrorKind> {
        Seq::empty()
    }

    /// A rename function adds its name and the names joined to it by `-`.
    open spec fn names_given(path: Ident, after: MetaAfterPath<ConsumedTokens>, names: Seq<IdentTree>) -> bool {
        match after {
            MetaAfterPath::Group(g) => if g.delimiter == Delimiter::Parenthesis {
                rename_fn_names(g.stream@, names)
            } else {
                names.len() == 0
            },
            _ => names.len() == 0,
        }
    }

    fn parse_meta(input: MetaToParse, errors: &mut ErrorCollector, ident_trees: &mut Vec<IdentTree>) -> (r: Result<Self, ParseError>) {
        let path_span = input.path_span();
        let ghost n0 = ident_trees@.len();
        assert(errs(*errors) =~= errs(*old(errors)) + Seq::<ParseErrorKind>::empty());
        assert(ident_trees@.subrange(0, n0 as int) =~= ident_trees@);
        let err_span = match input.after_path {
            MetaAfterPath::Empty => path_span,
            MetaAfterPath::Group(group) => match GroupParen::try_from_group(group) {
                Ok(g) => {
                    match rename_fn_tree(&g.0.stream) {
                        Some(t) => {
                            ident_trees.push(t);
                            assert(ident_trees@.subrange(0, n0 as int) =~= old(ident_trees)@);
                            assert(ident_trees@.subrange(n0 as int, ident_trees@.len() as int) =~= seq![t]);
                        },
                        None => {},
                    }
                    return Ok(Rename::Paren(g));
                },
                Err(g) => g.span_open,
            },
            MetaAfterPath::Eq { eq, before_comma_or_eof } => {
                return Ok(Rename::Eq(EqValue { eq, value: before_comma_or_eof.tokens }));
            },
        };
        Err(ParseError::custom("expect `($rename_fn)` or `= \"name\"`", Some(err_span)))
    }
}

/// The names of the arguments that `cjson` takes on items, fields and
/// variants.
#[derive(Clone, Copy, PartialEq, Eq, Structural)]
pub enum ArgName {
    To,
    ToUntagged,
    ToTaggedKvs,
    Transparent,
    Rename,
    Tag,
    Content,
    Untagged,
    TagOnly,
    ExternallyTagged,
    InternallyTagged,
    AdjacentlyTagged,
    RenameVariants,
    RenameFields,
    Skip,
    Flatten,
    ToKvs,
    ToItems,
}

/// The text of an argument name.
pub open spec fn arg_name(a: ArgName) -> Seq<u8> {
    match a {
        ArgName::To => seq![116u8, 111u8],
        ArgName::ToUntagged => seq![116u8, 111u8, 95u8, 117u8, 110u8, 116u8, 97u8, 103u8, 103u8, 101u8, 100u8],
        ArgName::ToTaggedKvs => seq![116u8, 111u8, 95u8, 116u8, 97u8, 103u8, 103u8, 101u8, 100u8, 95u8, 107u8, 118u8, 115u8],
        ArgName::Transparent => seq![116u8, 114u8, 97u8, 110u8, 115u8, 112u8, 97u8, 114u8, 101u8, 110u8, 116u8],
        ArgName::Rename => seq![114u8, 101u8, 110u8, 97u8, 109u8, 101u8],
        ArgName::Tag => seq![116u8, 97u8, 103u8],
        ArgName::Content => seq![99u8, 111u8, 110u8, 116u8, 101u8, 110u8, 116u8],
        ArgName::Untagged => seq![117u8, 110u8, 116u8, 97u8, 103u8, 103u8, 101u8, 100u8],
        ArgName::TagOnly => seq![116u8, 97u8, 103u8, 95u8, 111u8, 110u8, 108u8, 121u8],
        ArgName::ExternallyTagged => seq![101u8, 120u8, 116u8, 101u8, 114u8, 110u8, 97u8, 108u8, 108u8, 121u8, 95u8, 116u8, 97u8, 103u8, 103u8, 101u8, 100u8],
        ArgName::InternallyTagged => seq![105u8, 110u8, 116u8, 101u8, 114u8, 110u8, 97u8, 108u8, 108u8, 121u8, 95u8, 116u8, 97u8, 103u8, 103u8, 101u8, 100u8],
        ArgName::AdjacentlyTagged => seq![97u8, 100u8, 106u8, 97u8, 99u8, 101u8, 110u8, 116u8, 108u8, 121u8, 95u8, 116u8, 97u8, 103u8, 103u8, 101u8, 100u8],
        ArgName::RenameVariants => seq![114u8, 101u8, 110u8, 97u8, 109u8, 101u8, 95u8, 118u8, 97u8, 114u8, 105u8, 97u8, 110u8, 116u8, 115u8],
        ArgName::RenameFields => seq![114u8, 101u8, 110u8, 97u8, 109u8, 101u8, 95u8, 102u8, 105u8, 101u8, 108u8, 100u8, 115u8],
        ArgName::Skip => seq![115u8, 107u8, 105u8, 112u8],
        ArgName::Flatten => seq![102u8, 108u8, 97u8, 116u8, 116u8, 101u8, 110u8],
        ArgName::ToKvs => seq![116u8, 111u8, 95u8, 107u8, 118u8, 115u8],
        ArgName::ToItems => seq![116u8, 111u8, 95u8, 105u8, 116u8, 101u8, 109u8, 115u8],
    }
}

/// The text of an argument name, as bytes.
pub fn arg_name_bytes(a: ArgName) -> (r: &'static [u8])
    ensures
        r@ == arg_name(a),
{
    match a {
        ArgName::To => {
            let r: &'static [u8] = &[116u8, 111u8];
            assert(r@ =~= arg_name(a));
            r
        },
        ArgName::ToUntagged => {
            let r: &'static [u8] = &[116u8, 111u8, 95u8, 117u8, 110u8, 116u8, 97u8, 103u8, 103u8, 101u8, 100u8];
            assert(r@ =~= arg_name(a));
            r
        },
        ArgName::ToTaggedKvs => {
            let r: &'static [u8] = &[116u8, 111u8, 95u8, 116u8, 97u8, 103u8, 103u8, 101u8, 100u8, 95u8, 107u8, 118u8, 115u8];
            assert(r@ =~= arg_name(a));
            r
        },
        ArgName::Transparent => {
            let r: &'static [u8] = &[116u8, 114u8, 97u8, 110u8, 115u8, 112u8, 97u8, 114u8, 101u8, 110u8, 116u8];
            assert(r@ =~= arg_name(a));
            r
        },
        ArgName::Rename => {
            let r: &'static [u8] = &[114u8, 101u8, 110u8, 97u8, 109u8, 101u8];
            assert(r@ =~= arg_name(a));
            r
        },
        ArgName::Tag => {
            let r: &'static [u8] = &[116u8, 97u8, 103u8];
            assert(r@ =~= arg_name(a));
            r
        },
        ArgName::Content => {
            let r: &'static [u8] = &[99u8, 111u8, 110u8, 116u8, 101u8, 110u8, 116u8];
            assert(r@ =~= arg_name(a));
            r
        },
        ArgName::Untagged => {
            let r: &'static [u8] = &[117u8, 110u8, 116u8, 97u8, 103u8, 103u8, 101u8, 100u8];
            assert(r@ =~= arg_name(a));
            r
        },
        ArgName::TagOnly => {
            let r: &'static [u8] = &[116u8, 97u8, 103u8, 95u8, 111u8, 110u8, 108u8, 121u8];
            assert(r@ =~= arg_name(a));
            r
        },
        ArgName::ExternallyTagged => {
            let r: &'static [u8] = &[101u8, 120u8, 116u8, 101u8, 114u8, 110u8, 97u8, 108u8, 108u8, 121u8, 95u8, 116u8, 97u8, 103u8, 103u8, 101u8, 100u8];
            assert(r@ =~= arg_name(a));
            r
        },
        ArgName::InternallyTagged => {
            let r: &'static [u8] = &[105u8, 110u8, 116u8, 101u8, 114u8, 110u8, 97u8, 108u8, 108u8, 121u8, 95u8, 116u8, 97u8, 103u8, 103u8, 101u8, 100u8];
            assert(r@ =~= arg_name(a));
            r
        },
        ArgName::AdjacentlyTagged => {
            let r: &'static [u8] = &[97u8, 100u8, 106u8, 97u8, 99u8, 101u8, 110u8, 116u8, 108u8, 121u8, 95u8, 116u8, 97u8, 103u8, 103u8, 101u8, 100u8];
            assert(r@ =~= arg_name(a));
            r
        },
        ArgName::RenameVariants => {
            let r: &'static [u8] = &[114u8, 101u8, 110u8, 97u8, 109u8, 101u8, 95u8, 118u8, 97u8, 114u8, 105u8, 97u8, 110u8, 116u8, 115u8];
            assert(r@ =~= arg_name(a));
            r
        },
        ArgName::RenameFields => {
            let r: &'static [u8] = &[114u8, 101u8, 110u8, 97u8, 109u8, 101u8, 95u8, 102u8, 105u8, 101u8, 108u8, 100u8, 115u8];
            assert(r@ =~= arg_name(a));
            r
        },
        ArgName::Skip => {
            let r: &'static [u8] = &[115u8, 107u8, 105u8, 112u8];
            assert(r@ =~= arg_name(a));
            r
        },
        ArgName::Flatten => {
            let r: &'static [u8] = &[102u8, 108u8, 97u8, 116u8, 116u8, 101u8, 110u8];
            assert(r@ =~= arg_name(a));
            r
        },
        ArgName::ToKvs => {
            let r: &'static [u8] = &[116u8, 111u8, 95u8, 107u8, 118u8, 115u8];
            assert(r@ =~= arg_name(a));
            r
        },
        ArgName::ToItems => {
            let r: &'static [u8] = &[116u8, 111u8, 95u8, 105u8, 116u8, 101u8, 109u8, 115u8];
            assert(r@ =~= arg_name(a));
            r
        },
    }
}

/// The errors of reading an argument into a slot: `duplicated attribute`
/// when the slot was already filled, then what reading the value reports,
/// then why it was refused.
pub open spec fn slot_errors<T: ParseMeta>(was_set: bool, path: Ident, after: MetaAfterPath<ConsumedTokens>) -> Seq<ParseErrorKind> {
    (if was_set {
        seq![ParseErrorKind::Custom { msg: "duplicated attribute", span: Some(path.span) }]
    } else {
        Seq::empty()
    }) + T::reported(path, after) + match T::refused(path, after) {
        Some(e) => e,
        None => Seq::empty(),
    }
}

/// Reading an argument into a slot: a filled slot keeps its first value;
/// an empty one takes the value read, and stays empty when the value is
/// refused. The errors are those of `slot_errors` and the names those the
/// value gives.
pub open spec fn slot_read<T: ParseMeta>(
    before: Option<T>,
    after_slot: Option<T>,
    e0: ErrorCollector,
    e1: ErrorCollector,
    path: Ident,
    after: MetaAfterPath<ConsumedTokens>,
    children: Seq<IdentTree>,
) -> bool {
    &&& if before is Some {
        after_slot == before
    } else if T::refused(path, after) is None {
        after_slot matches Some(v) && T::reads_as(path, after, v)
    } else {
        after_slot is None
    }
    &&& errs(e1) == errs(e0) + slot_errors::<T>(before is Some, path, after)
    &&& T::names_given(path, after, children)
}

/// Reads the argument named `path` into `slot`.
fn fill_slot<T: ParseMeta>(slot: &mut Option<T>, path: &Ident, after: MetaAfterPath<ConsumedTokens>, errors: &mut ErrorCollector) -> (children: Vec<IdentTree>)
    ensures
        slot_read(*old(slot), *final(slot), *old(errors), *final(errors), *path, after, children@),
        errs(*final(errors)).len() >= errs(*old(errors)).len(),
        errs(*final(errors)).subrange(0, errs(*old(errors)).len() as int) == errs(*old(errors)),
{
    let was_set = slot.is_some();
    if was_set {
        errors.push_custom("duplicated attribute", Some(path.span));
    }
    let mut children: Vec<IdentTree> = Vec::new();
    let res = T::parse_meta(MetaToParse::from_ident(path, after), errors, &mut children);
    assert(children@.subrange(0, children@.len() as int) =~= children@);
    match res {
        Ok(v) => {
            if !was_set {
                *slot = Some(v);
            }
            assert(errs(*errors) =~= errs(*old(errors)) + slot_errors::<T>(was_set, *path, after));
        },
        Err(e) => {
            errors.push(e);
            assert(errs(*errors) =~= errs(*old(errors)) + slot_errors::<T>(was_set, *path, after));
        },
    }
    assert(errs(*errors).subrange(0, errs(*old(errors)).len() as int) =~= errs(*old(errors)));
    children
}

/// A set of attribute arguments being read one by one.
pub trait PushMetaSimple: Sized {
    /// The argument names the set takes.
    spec fn takes(name: Seq<u8>) -> bool;

    /// Reading the argument named `path`, followed by `after`, takes the
    /// set from `a` to `b` and the errors from `e0` to `e1`, and gives the
    /// names `children`.
    spec fn read_one(
        a: Self,
        b: Self,
        e0: ErrorCollector,
        e1: ErrorCollector,
        path: Ident,
        after: MetaAfterPath<ConsumedTokens>,
        children: Seq<IdentTree>,
    ) -> bool;

    /// Reads one argument. One the set takes gives its name with the names
    /// its value adds, as `read_one` says; another is reported as `unknown
    /// attribute` and gives nothing.
    fn push_meta_simple(&mut self, meta: MetaSimple<ConsumedTokens>, errors: &mut ErrorCollector) -> (r: Option<IdentTree>)
        ensures
            (r is Some) == Self::takes(meta.path.name@),
            r matches Some(t) ==> t.ident == meta.path,
            r matches Some(t) ==> Self::read_one(
                *old(self),
                *final(self),
                *old(errors),
                *final(errors),
                meta.path,
                meta.after_path,
                t.children@,
            ),
            !Self::takes(meta.path.name@) ==> *final(self) == *old(self) && errs(*final(errors))
                == errs(*old(errors)).push(
                ParseErrorKind::Custom { msg: "unknown attribute", span: Some(meta.path.span) },
            ),
            errs(*final(errors)).len() >= errs(*old(errors)).len(),
            errs(*final(errors)).subrange(0, errs(*old(errors)).len() as int) == errs(*old(errors)),
    ;
}

/// The arguments that `cjson` takes on a struct or an enum, as read so far.
pub struct ItemAttrsParser {
    pub to: Option<MetaPathSpanWith<ItemTo>>,
    pub to_untagged: Option<MetaPathSpanWith<EnumToUntagged>>,
    pub to_tagged_kvs: Option<MetaPathSpanWith<StructToTaggedKvs>>,
    pub transparent: Option<FlagPresent>,
    pub rename: Option<MetaPathSpanWith<Rename>>,
    pub tag: Option<MetaPathSpanWith<EqValue<Vec<TokenTree>>>>,
    pub content: Option<MetaPathSpanWith<EqValue<Vec<TokenTree>>>>,
    pub untagged: Option<FlagPresent>,
    pub tag_only: Option<FlagPresent>,
    pub externally_tagged: Option<FlagPresent>,
    pub internally_tagged: Option<FlagPresent>,
    pub adjacently_tagged: Option<FlagPresent>,
    pub rename_variants: Option<MetaPathSpanWith<GroupParen>>,
    pub rename_fields: Option<MetaPathSpanWith<GroupParen>>,
}

impl ItemAttrsParser {
    /// Nothing read.
    pub open spec fn new_spec() -> Self {
        ItemAttrsParser {
            to: None,
            to_untagged: None,
            to_tagged_kvs: None,
            transparent: None,
            rename: None,
            tag: None,
            content: None,
            untagged: None,
            tag_only: None,
            externally_tagged: None,
            internally_tagged: None,
            adjacently_tagged: None,
            rename_variants: None,
            rename_fields: None,
        }
    }

    /// Nothing read yet.
    pub fn new() -> (r: Self)
        ensures
            r == Self::new_spec(),
            r.to is None,
            r.to_untagged is None,
            r.to_tagged_kvs is None,
            r.transparent is None,
            r.rename is None,
            r.tag is None,
            r.content is None,
            r.untagged is None,
            r.tag_only is None,
            r.externally_tagged is None,
            r.internally_tagged is None,
            r.adjacently_tagged is None,
            r.rename_variants is None,
            r.rename_fields is None,
    {
        ItemAttrsParser { to: None, to_untagged: None, to_tagged_kvs: None, transparent: None, rename: None, tag: None, content: None, untagged: None, tag_only: None, externally_tagged: None, internally_tagged: None, adjacently_tagged: None, rename_variants: None, rename_fields: None }
    }
}

/// Reading the argument named `path` into `a` gives `b`: the slot of that
/// name is read as `slot_read` says and the others stay.
pub open spec fn item_args_read(
    a: ItemAttrsParser,
    b: ItemAttrsParser,
    e0: ErrorCollector,
    e1: ErrorCollector,
    path: Ident,
    after: MetaAfterPath<ConsumedTokens>,
    children: Seq<IdentTree>,
) -> bool {
    let n = path.name@;
    if n == arg_name(ArgName::To) {
        &&& b == (ItemAttrsParser { to: b.to, ..a })
        &&& slot_read(a.to, b.to, e0, e1, path, after, children)
    } else if n == arg_name(ArgName::ToUntagged) {
        &&& b == (ItemAttrsParser { to_untagged: b.to_untagged, ..a })
        &&& slot_read(a.to_untagged, b.to_untagged, e0, e1, path, after, children)
    } else if n == arg_name(ArgName::ToTaggedKvs) {
        &&& b == (ItemAttrsParser { to_tagged_kvs: b.to_tagged_kvs, ..a })
        &&& slot_read(a.to_tagged_kvs, b.to_tagged_kvs, e0, e1, path, after, children)
    } else if n == arg_name(ArgName::Transparent) {
        &&& b == (ItemAttrsParser { transparent: b.transparent, ..a })
        &&& slot_read(a.transparent, b.transparent, e0, e1, path, after, children)
    } else if n == arg_name(ArgName::Rename) {
        &&& b == (ItemAttrsParser { rename: b.rename, ..a })
        &&& slot_read(a.rename, b.rename, e0, e1, path, after, children)
    } else if n == arg_name(ArgName::Tag) {
        &&& b == (ItemAttrsParser { tag: b.tag, ..a })
        &&& slot_read(a.tag, b.tag, e0, e1, path, after, children)
    } else if n == arg_name(ArgName::Content) {
        &&& b == (ItemAttrsParser { content: b.content, ..a })
        &&& slot_read(a.content, b.content, e0, e1, path, after, children)
    } else if n == arg_name(ArgName::Untagged) {
        &&& b == (ItemAttrsParser { untagged: b.untagged, ..a })
        &&& slot_read(a.untagged, b.untagged, e0, e1, path, after, children)
    } else if n == arg_name(ArgName::TagOnly) {
        &&& b == (ItemAttrsParser { tag_only: b.tag_only, ..a })
        &&& slot_read(a.tag_only, b.tag_only, e0, e1, path, after, children)
    } else if n == arg_name(ArgName::ExternallyTagged) {
        &&& b == (ItemAttrsParser { externally_tagged: b.externally_tagged, ..a })
        &&& slot_read(a.externally_tagged, b.externally_tagged, e0, e1, path, after, children)
    } else if n == arg_name(ArgName::InternallyTagged) {
        &&& b == (ItemAttrsParser { internally_tagged: b.internally_tagged, ..a })
        &&& slot_read(a.internally_tagged, b.internally_tagged, e0, e1, path, after, children)
    } else if n == arg_name(ArgName::AdjacentlyTagged) {
        &&& b == (ItemAttrsParser { adjacently_tagged: b.adjacently_tagged, ..a })
        &&& slot_read(a.adjacently_tagged, b.adjacently_tagged, e0, e1, path, after, children)
    } else if n == arg_name(ArgName::RenameVariants) {
        &&& b == (ItemAttrsParser { rename_variants: b.rename_variants, ..a })
        &&& slot_read(a.rename_variants, b.rename_variants, e0, e1, path, after, children)
    } else if n == arg_name(ArgName::RenameFields) {
        &&& b == (ItemAttrsParser { rename_fields: b.rename_fields, ..a })
        &&& slot_read(a.rename_fields, b.rename_fields, e0, e1, path, after, children)
    } else {
        false
    }
}

impl PushMetaSimple for ItemAttrsParser {
    open spec fn takes(name: Seq<u8>) -> bool {
        ||| name == arg_name(ArgName::To)
        ||| name == arg_name(ArgName::ToUntagged)
        ||| name == arg_name(ArgName::ToTaggedKvs)
        ||| name == arg_name(ArgName::Transparent)
        ||| name == arg_name(ArgName::Rename)
        ||| name == arg_name(ArgName::Tag)
        ||| name == arg_name(ArgName::Content)
        ||| name == arg_name(ArgName::Untagged)
        ||| name == arg_name(ArgName::TagOnly)
        ||| name == arg_name(ArgName::ExternallyTagged)
        ||| name == arg_name(ArgName::InternallyTagged)
        ||| name == arg_name(ArgName::AdjacentlyTagged)
        ||| name == arg_name(ArgName::RenameVariants)
        ||| name == arg_name(ArgName::RenameFields)
    }

    open spec fn read_one(
        a: Self,
        b: Self,
        e0: ErrorCollector,
        e1: ErrorCollector,
        path: Ident,
        after: MetaAfterPath<ConsumedTokens>,
        children: Seq<IdentTree>,
    ) -> bool {
        item_args_read(a, b, e0, e1, path, after, children)
    }

    fn push_meta_simple(&mut self, meta: MetaSimple<ConsumedTokens>, errors: &mut ErrorCollector) -> (r: Option<IdentTree>)
        ensures
            r matches Some(t) ==> t.mod_name@ == ""@,
    {
        let MetaSimple { path, after_path } = meta;
        let children = if path.matches(arg_name_bytes(ArgName::To)) {
            fill_slot(&mut self.to, &path, after_path, errors)
        } else if path.matches(arg_name_bytes(ArgName::ToUntagged)) {
            fill_slot(&mut self.to_untagged, &path, after_path, errors)
        } else if path.matches(arg_name_bytes(ArgName::ToTaggedKvs)) {
            fill_slot(&mut self.to_tagged_kvs, &path, after_path, errors)
        } else if path.matches(arg_name_bytes(ArgName::Transparent)) {
            fill_slot(&mut self.transparent, &path, after_path, errors)
        } else if path.matches(arg_name_bytes(ArgName::Rename)) {
            fill_slot(&mut self.rename, &path, after_path, errors)
        } else if path.matches(arg_name_bytes(ArgName::Tag)) {
            fill_slot(&mut self.tag, &path, after_path, errors)
        } else if path.matches(arg_name_bytes(ArgName::Content)) {
            fill_slot(&mut self.content, &path, after_path, errors)
        } else if path.matches(arg_name_bytes(ArgName::Untagged)) {
            fill_slot(&mut self.untagged, &path, after_path, errors)
        } else if path.matches(arg_name_bytes(ArgName::TagOnly)) {
            fill_slot(&mut self.tag_only, &path, after_path, errors)
        } else if path.matches(arg_name_bytes(ArgName::ExternallyTagged)) {
            fill_slot(&mut self.externally_tagged, &path, after_path, errors)
        } else if path.matches(arg_name_bytes(ArgName::InternallyTagged)) {
            fill_slot(&mut self.internally_tagged, &path, after_path, errors)
        } else if path.matches(arg_name_bytes(ArgName::AdjacentlyTagged)) {
            fill_slot(&mut self.adjacently_tagged, &path, after_path, errors)
        } else if path.matches(arg_name_bytes(ArgName::RenameVariants)) {
            fill_slot(&mut self.rename_variants, &path, after_path, errors)
        } else if path.matches(arg_name_bytes(ArgName::RenameFields)) {
            fill_slot(&mut self.rename_fields, &path, after_path, errors)
        } else {
            errors.push_custom("unknown attribute", Some(path.span));
            return None;
        };
        Some(IdentTree { ident: path, mod_name: "", children })
    }
}

/// The arguments that `cjson` takes on a field, as read so far.
pub struct StructFieldAttrsParser {
    pub skip: Option<FlagPresent>,
    pub flatten: Option<FlagPresent>,
    pub rename: Option<MetaPathSpanWith<Rename>>,
    pub to: Option<MetaPathSpanWith<StructFieldTo>>,
    pub to_kvs: Option<MetaPathSpanWith<StructFieldToKvs>>,
    pub to_items: Option<MetaPathSpanWith<StructFieldToItems>>,
}

impl StructFieldAttrsParser {
    /// Nothing read.
    pub open spec fn new_spec() -> Self {
        StructFieldAttrsParser {
            skip: None,
            flatten: None,
            rename: None,
            to: None,
            to_kvs: None,
            to_items: None,
        }
    }

    /// Nothing read yet.
    pub fn new() -> (r: Self)
        ensures
            r == Self::new_spec(),
            r.skip is None,
            r.flatten is None,
            r.rename is None,
            r.to is None,
            r.to_kvs is None,
            r.to_items is None,
    {
        StructFieldAttrsParser { skip: None, flatten: None, rename: None, to: None, to_kvs: None, to_items: None }
    }
}

/// Reading the argument named `path` into `a` gives `b`: the slot of that
/// name is read as `slot_read` says and the others stay.
pub open spec fn field_args_read(
    a: StructFieldAttrsParser,
    b: StructFieldAttrsParser,
    e0: ErrorCollector,
    e1: ErrorCollector,
    path: Ident,
    after: MetaAfterPath<ConsumedTokens>,
    children: Seq<IdentTree>,
) -> bool {
    let n = path.name@;
    if n == arg_name(ArgName::Skip) {
        &&& b == (StructFieldAttrsParser { skip: b.skip, ..a })
        &&& slot_read(a.skip, b.skip, e0, e1, path, after, children)
    } else if n == arg_name(ArgName::Flatten) {
        &&& b == (StructFieldAttrsParser { flatten: b.flatten, ..a })
        &&& slot_read(a.flatten, b.flatten, e0, e1, path, after, children)
    } else if n == arg_name(ArgName::Rename) {
        &&& b == (StructFieldAttrsParser { rename: b.rename, ..a })
        &&& slot_read(a.rename, b.rename, e0, e1, path, after, children)
    } else if n == arg_name(ArgName::To) {
        &&& b == (StructFieldAttrsParser { to: b.to, ..a })
        &&& slot_read(a.to, b.to, e0, e1, path, after, children)
    } else if n == arg_name(ArgName::ToKvs) {
        &&& b == (StructFieldAttrsParser { to_kvs: b.to_kvs, ..a })
        &&& slot_read(a.to_kvs, b.to_kvs, e0, e1, path, after, children)
    } else if n == arg_name(ArgName::ToItems) {
        &&& b == (StructFieldAttrsParser { to_items: b.to_items, ..a })
        &&& slot_read(a.to_items, b.to_items, e0, e1, path, after, children)
    } else {
        false
    }
}

impl PushMetaSimple for StructFieldAttrsParser {
    open spec fn takes(name: Seq<u8>) -> bool {
        ||| name == arg_name(ArgName::Skip)
        ||| name == arg_name(ArgName::Flatten)
        ||| name == arg_name(ArgName::Rename)
        ||| name == arg_name(ArgName::To)
        ||| name == arg_name(ArgName::ToKvs)
        ||| name == arg_name(ArgName::ToItems)
    }

    open spec fn read_one(
        a: Self,
        b: Self,
        e0: ErrorCollector,
        e1: ErrorCollector,
        path: Ident,
        after: MetaAfterPath<ConsumedTokens>,
        children: Seq<IdentTree>,
    ) -> bool {
        field_args_read(a, b, e0, e1, path, after, children)
    }

    fn push_meta_simple(&mut self, meta: MetaSimple<ConsumedTokens>, errors: &mut ErrorCollector) -> (r: Option<IdentTree>)
        ensures
            r matches Some(t) ==> t.mod_name@ == ""@,
    {
        let MetaSimple { path, after_path } = meta;
        let children = if path.matches(arg_name_bytes(ArgName::Skip)) {
            fill_slot(&mut self.skip, &path, after_path, errors)
        } else if path.matches(arg_name_bytes(ArgName::Flatten)) {
            fill_slot(&mut self.flatten, &path, after_path, errors)
        } else if path.matches(arg_name_bytes(ArgName::Rename)) {
            fill_slot(&mut self.rename, &path, after_path, errors)
        } else if path.matches(arg_name_bytes(ArgName::To)) {
            fill_slot(&mut self.to, &path, after_path, errors)
        } else if path.matches(arg_name_bytes(ArgName::ToKvs)) {
            fill_slot(&mut self.to_kvs, &path, after_path, errors)
        } else if path.matches(arg_name_bytes(ArgName::ToItems)) {
            fill_slot(&mut self.to_items, &path, after_path, errors)
        } else {
            errors.push_custom("unknown attribute", Some(path.span));
            return None;
        };
        Some(IdentTree { ident: path, mod_name: "", children })
    }
}

/// The arguments that `cjson` takes on an enum variant, as read so far.
pub struct EnumVariantAttrsParser {
    pub to: Option<MetaPathSpanWith<ItemTo>>,
    pub to_untagged: Option<MetaPathSpanWith<EnumToUntagged>>,
    pub to_tagged_kvs: Option<MetaPathSpanWith<StructToTaggedKvs>>,
    pub transparent: Option<FlagPresent>,
    pub rename: Option<MetaPathSpanWith<Rename>>,
    pub tag: Option<MetaPathSpanWith<EqValue<Vec<TokenTree>>>>,
    pub content: Option<MetaPathSpanWith<EqValue<Vec<TokenTree>>>>,
    pub untagged: Option<FlagPresent>,
    pub tag_only: Option<FlagPresent>,
    pub externally_tagged: Option<FlagPresent>,
    pub internally_tagged: Option<FlagPresent>,
    pub adjacently_tagged: Option<FlagPresent>,
    pub rename_fields: Option<MetaPathSpanWith<GroupParen>>,
}

impl EnumVariantAttrsParser {
    /// Nothing read.
    pub open spec fn new_spec() -> Self {
        EnumVariantAttrsParser {
            to: None,
            to_untagged: None,
            to_tagged_kvs: None,
            transparent: None,
            rename: None,
            tag: None,
            content: None,
            untagged: None,
            tag_only: None,
            externally_tagged: None,
            internally_tagged: None,
            adjacently_tagged: None,
            rename_fields: None,
        }
    }

    /// Nothing read yet.
    pub fn new() -> (r: Self)
        ensures
            r == Self::new_spec(),
            r.to is None,
            r.to_untagged is None,
            r.to_tagged_kvs is None,
            r.transparent is None,
            r.rename is None,
            r.tag is None,
            r.content is None,
            r.untagged is None,
            r.tag_only is None,
            r.externally_tagged is None,
            r.internally_tagged is None,
            r.adjacently_tagged is None,
            r.rename_fields is None,
    {
        EnumVariantAttrsParser { to: None, to_untagged: None, to_tagged_kvs: None, transparent: None, rename: None, tag: None, content: None, untagged: None, tag_only: None, externally_tagged: None, internally_tagged: None, adjacently_tagged: None, rename_fields: None }
    }
}

/// Reading the argument named `path` into `a` gives `b`: the slot of that
/// name is read as `slot_read` says and the others stay.
pub open spec fn variant_args_read(
    a: EnumVariantAttrsParser,
    b: EnumVariantAttrsParser,
    e0: ErrorCollector,
    e1: ErrorCollector,
    path: Ident,
    after: MetaAfterPath<ConsumedTokens>,
    children: Seq<IdentTree>,
) -> bool {
    let n = path.name@;
    if n == arg_name(ArgName::To) {
        &&& b == (EnumVariantAttrsParser { to: b.to, ..a })
        &&& slot_read(a.to, b.to, e0, e1, path, after, children)
    } else if n == arg_name(ArgName::ToUntagged) {
        &&& b == (EnumVariantAttrsParser { to_untagged: b.to_untagged, ..a })
        &&& slot_read(a.to_untagged, b.to_untagged, e0, e1, path, after, children)
    } else if n == arg_name(ArgName::ToTaggedKvs) {
        &&& b == (EnumVariantAttrsParser { to_tagged_kvs: b.to_tagged_kvs, ..a })
        &&& slot_read(a.to_tagged_kvs, b.to_tagged_kvs, e0, e1, path, after, children)
    } else if n == arg_name(ArgName::Transparent) {
        &&& b == (EnumVariantAttrsParser { transparent: b.transparent, ..a })
        &&& slot_read(a.transparent, b.transparent, e0, e1, path, after, children)
    } else if n == arg_name(ArgName::Rename) {
        &&& b == (EnumVariantAttrsParser { rename: b.rename, ..a })
        &&& slot_read(a.rename, b.rename, e0, e1, path, after, children)
    } else if n == arg_name(ArgName::Tag) {
        &&& b == (EnumVariantAttrsParser { tag: b.tag, ..a })
        &&& slot_read(a.tag, b.tag, e0, e1, path, after, children)
    } else if n == arg_name(ArgName::Content) {
        &&& b == (EnumVariantAttrsParser { content: b.content, ..a })
        &&& slot_read(a.content, b.content, e0, e1, path, after, children)
    } else if n == arg_name(ArgName::Untagged) {
        &&& b == (EnumVariantAttrsParser { untagged: b.untagged, ..a })
        &&& slot_read(a.untagged, b.untagged, e0, e1, path, after, children)
    } else if n == arg_name(ArgName::TagOnly) {
        &&& b == (EnumVariantAttrsParser { tag_only: b.tag_only, ..a })
        &&& slot_read(a.tag_only, b.tag_only, e0, e1, path, after, children)
    } else if n == arg_name(ArgName::ExternallyTagged) {
        &&& b == (EnumVariantAttrsParser { externally_tagged: b.externally_tagged, ..a })
        &&& slot_read(a.externally_tagged, b.externally_tagged, e0, e1, path, after, children)
    } else if n == arg_name(ArgName::InternallyTagged) {
        &&& b == (EnumVariantAttrsParser { internally_tagged: b.internally_tagged, ..a })
        &&& slot_read(a.internally_tagged, b.internally_tagged, e0, e1, path, after, children)
    } else if n == arg_name(ArgName::AdjacentlyTagged) {
        &&& b == (EnumVariantAttrsParser { adjacently_tagged: b.adjacently_tagged, ..a })
        &&& slot_read(a.adjacently_tagged, b.adjacently_tagged, e0, e1, path, after, children)
    } else if n == arg_name(ArgName::RenameFields) {
        &&& b == (EnumVariantAttrsParser { rename_fields: b.rename_fields, ..a })
        &&& slot_read(a.rename_fields, b.rename_fields, e0, e1, path, after, children)
    } else {
        false
    }
}

impl PushMetaSimple for EnumVariantAttrsParser {
    open spec fn takes(name: Seq<u8>) -> bool {
        ||| name == arg_name(ArgName::To)
        ||| name == arg_name(ArgName::ToUntagged)
        ||| name == arg_name(ArgName::ToTaggedKvs)
        ||| name == arg_name(ArgName::Transparent)
        ||| name == arg_name(ArgName::Rename)
        ||| name == arg_name(ArgName::Tag)
        ||| name == arg_name(ArgName::Content)
        ||| name == arg_name(ArgName::Untagged)
        ||| name == arg_name(ArgName::TagOnly)
        ||| name == arg_name(ArgName::ExternallyTagged)
        ||| name == arg_name(ArgName::InternallyTagged)
        ||| name == arg_name(ArgName::AdjacentlyTagged)
        ||| name == arg_name(ArgName::RenameFields)
    }

    open spec fn read_one(
        a: Self,
        b: Self,
        e0: ErrorCollector,
        e1: ErrorCollector,
        path: Ident,
        after: MetaAfterPath<ConsumedTokens>,
        children: Seq<IdentTree>,
    ) -> bool {
        variant_args_read(a, b, e0, e1, path, after, children)
    }

    fn push_meta_simple(&mut self, meta: MetaSimple<ConsumedTokens>, errors: &mut ErrorCollector) -> (r: Option<IdentTree>)
        ensures
            r matches Some(t) ==> t.mod_name@ == ""@,
    {
        let MetaSimple { path, after_path } = meta;
        let children = if path.matches(arg_name_bytes(ArgName::To)) {
            fill_slot(&mut self.to, &path, after_path, errors)
        } else if path.matches(arg_name_bytes(ArgName::ToUntagged)) {
            fill_slot(&mut self.to_untagged, &path, after_path, errors)
        } else if path.matches(arg_name_bytes(ArgName::ToTaggedKvs)) {
            fill_slot(&mut self.to_tagged_kvs, &path, after_path, errors)
        } else if path.matches(arg_name_bytes(ArgName::Transparent)) {
            fill_slot(&mut self.transparent, &path, after_path, errors)
        } else if path.matches(arg_name_bytes(ArgName::Rename)) {
            fill_slot(&mut self.rename, &path, after_path, errors)
        } else if path.matches(arg_name_bytes(ArgName::Tag)) {
            fill_slot(&mut self.tag, &path, after_path, errors)
        } else if path.matches(arg_name_bytes(ArgName::Content)) {
            fill_slot(&mut self.content, &path, after_path, errors)
        } else if path.matches(arg_name_bytes(ArgName::Untagged)) {
            fill_slot(&mut self.untagged, &path, after_path, errors)
        } else if path.matches(arg_name_bytes(ArgName::TagOnly)) {
            fill_slot(&mut self.tag_only, &path, after_path, errors)
        } else if path.matches(arg_name_bytes(ArgName::ExternallyTagged)) {
            fill_slot(&mut self.externally_tagged, &path, after_path, errors)
        } else if path.matches(arg_name_bytes(ArgName::InternallyTagged)) {
            fill_slot(&mut self.internally_tagged, &path, after_path, errors)
        } else if path.matches(arg_name_bytes(ArgName::AdjacentlyTagged)) {
            fill_slot(&mut self.adjacently_tagged, &path, after_path, errors)
        } else if path.matches(arg_name_bytes(ArgName::RenameFields)) {
            fill_slot(&mut self.rename_fields, &path, after_path, errors)
        } else {
            errors.push_custom("unknown attribute", Some(path.span));
            return None;
        };
        Some(IdentTree { ident: path, mod_name: "", children })
    }
}

/// Reading an outer attribute whose token after `#` is `meta` takes the
/// set from `p0` to `p1` and reports `es`: a token that is not `[..]` is
/// reported; the tokens in brackets are read as `top_level_errs` says.
pub open spec fn outer_attr_errs<P: PushMetaSimple>(meta: TokenTree, p0: P, p1: P, es: Seq<ParseErrorKind>) -> bool {
    match meta {
        TokenTree::Group(g) => if g.delimiter == Delimiter::Bracket {
            crate::item_attrs::top_level_errs::<P>(g.stream@, p0, p1, es)
        } else {
            p1 == p0 && es == seq![ParseErrorKind::Custom { msg: "expect `[`", span: Some(g.span_open) }]
        },
        t => p1 == p0 && es == seq![ParseErrorKind::Custom { msg: "expect `[`", span: Some(span_open_or_entire(t)) }],
    }
}

/// Reading outer attributes, given by the tokens after their `#`, one after
/// the other takes the set from `p0` to `p1` and reports `es`, each
/// attribute's errors after those of the one before.
pub open spec fn attrs_errs<P: PushMetaSimple>(p0: P, metas: Seq<TokenTree>, p1: P, es: Seq<ParseErrorKind>) -> bool
    decreases metas.len(),
{
    if metas.len() == 0 {
        p1 == p0 && es.len() == 0
    } else {
        exists|p: P, e1: Seq<ParseErrorKind>|
            #[trigger] outer_attr_errs::<P>(metas[0], p0, p, e1) && es.len() >= e1.len() && es.subrange(0, e1.len() as int)
                == e1 && attrs_errs::<P>(p, metas.drop_first(), p1, es.subrange(e1.len() as int, es.len() as int))
    }
}

/// Reads an outer attribute `#[cjson(..)]` of a field or a variant through
/// `attrs`: the token after `#` must be a group in `[..]`, else the error is
/// reported and nothing is given.
pub fn push_outer_attr<P: PushMetaSimple>(attrs: &mut P, errors: &mut ErrorCollector, pound: PunctPound, bracketed_meta: TokenTree) -> (r: Option<IdentTree>)
    ensures
        exists|es: Seq<ParseErrorKind>|
            errs(*final(errors)) == errs(*old(errors)) + es && #[trigger] outer_attr_errs::<P>(
                bracketed_meta,
                *old(attrs),
                *final(attrs),
                es,
            ),
        match bracketed_meta {
            TokenTree::Group(g) => if g.delimiter == Delimiter::Bracket {
                if g.stream@.len() == 0 || !is_ident_named(g.stream@[0], kw_cjson()) {
                    r is None && *final(attrs) == *old(attrs)
                } else {
                    r matches Some(t) && top_level_tree::<P>(g.stream@, t) && top_level_args::<P>(
                        g.stream@,
                        *old(attrs),
                        *final(attrs),
                    )
                }
            } else {
                r is None && *final(attrs) == *old(attrs) && errs(*final(errors)) == errs(*old(errors)).push(
                    ParseErrorKind::Custom { msg: "expect `[`", span: Some(g.span_open) },
                )
            },
            t => r is None && *final(attrs) == *old(attrs) && errs(*final(errors)) == errs(
                *old(errors),
            ).push(ParseErrorKind::Custom { msg: "expect `[`", span: Some(span_open_or_entire(t)) }),
        },
{
    let ghost e0 = errs(*errors);
    let ghost a0 = *attrs;
    match GroupBracket::parse_from_token_tree(bracketed_meta) {
        Ok(b) => {
            let ghost bs = b.0.stream@;
            let r = push_top_level_attr_meta_with_one(b.0.stream, attrs, errors);
            proof {
                let es = choose|es: Seq<ParseErrorKind>|
                    errs(*errors) == e0 + es && #[trigger] crate::item_attrs::top_level_errs::<P>(bs, a0, *attrs, es);
                assert(outer_attr_errs::<P>(bracketed_meta, a0, *attrs, es));
            }
            r
        },
        Err(e) => {
            errors.push(e);
            proof {
                assert(outer_attr_errs::<P>(bracketed_meta, *attrs, *attrs, error_kinds(e)));
            }
            None
        },
    }
}

/// The tag-mode flags of an item or a variant.
pub struct TagModeAttrs {
    pub untagged: Option<FlagPresent>,
    pub tag_only: Option<FlagPresent>,
    pub externally_tagged: Option<FlagPresent>,
    pub internally_tagged: Option<FlagPresent>,
    pub adjacently_tagged: Option<FlagPresent>,
}

/// The flags in the order they are looked at, each with the mode it
/// gives.
pub open spec fn tag_mode_flags(t: TagModeAttrs) -> Seq<(Option<FlagPresent>, TagMode)> {
    seq![
        (t.untagged, TagMode::Untagged),
        (t.tag_only, TagMode::TagOnly),
        (t.externally_tagged, TagMode::ExternallyTagged),
        (t.internally_tagged, TagMode::InternallyTagged),
        (t.adjacently_tagged, TagMode::AdjacentlyTagged),
    ]
}

/// The first flag given from `i` on, with its mode.
pub open spec fn first_given(flags: Seq<(Option<FlagPresent>, TagMode)>, i: int) -> Option<SpecifiedTagMode>
    decreases flags.len() - i,
{
    if i < 0 || i >= flags.len() {
        None
    } else {
        match flags[i].0 {
            Some(f) => Some(SpecifiedTagMode { span: f.0, mode: flags[i].1 }),
            None => first_given(flags, i + 1),
        }
    }
}

/// One `tag mode can only be specified once` for each flag given from `i`
/// on, in order.
pub open spec fn repeated_mode_errors(flags: Seq<(Option<FlagPresent>, TagMode)>, i: int) -> Seq<ParseErrorKind>
    decreases flags.len() - i,
{
    if i < 0 || i >= flags.len() {
        Seq::empty()
    } else {
        let here = match flags[i].0 {
            Some(f) => seq![
                ParseErrorKind::Custom { msg: "tag mode can only be specified once", span: Some(f.0) },
            ],
            None => Seq::empty(),
        };
        here + repeated_mode_errors(flags, i + 1)
    }
}

/// The errors for the flags given after the first one given from `i` on.
pub open spec fn extra_mode_errors(flags: Seq<(Option<FlagPresent>, TagMode)>, i: int) -> Seq<ParseErrorKind>
    decreases flags.len() - i,
{
    if i < 0 || i >= flags.len() {
        Seq::empty()
    } else {
        match flags[i].0 {
            Some(_) => repeated_mode_errors(flags, i + 1),
            None => extra_mode_errors(flags, i + 1),
        }
    }
}

/// Reports every flag from `i` on.
fn report_repeated_modes(flags: &Vec<(Option<FlagPresent>, TagMode)>, i: usize, errors: &mut ErrorCollector)
    requires
        i <= flags@.len(),
    ensures
        errs(*final(errors)) == errs(*old(errors)) + repeated_mode_errors(flags@, i as int),
    decreases flags@.len() - i,
{
    if i == flags.len() {
        assert(errs(*errors) =~= errs(*old(errors)) + repeated_mode_errors(flags@, i as int));
        return;
    }
    match &flags[i].0 {
        Some(f) => {
            errors.push_custom("tag mode can only be specified once", Some(f.0));
        },
        None => {},
    }
    report_repeated_modes(flags, i + 1, errors);
    assert(errs(*errors) =~= errs(*old(errors)) + repeated_mode_errors(flags@, i as int));
}

/// The first flag given from `i` on; the ones after it are reported.
fn first_mode_from(flags: &Vec<(Option<FlagPresent>, TagMode)>, i: usize, errors: &mut ErrorCollector) -> (r: Option<SpecifiedTagMode>)
    requires
        i <= flags@.len(),
    ensures
        r == first_given(flags@, i as int),
        errs(*final(errors)) == errs(*old(errors)) + extra_mode_errors(flags@, i as int),
    decreases flags@.len() - i,
{
    if i == flags.len() {
        assert(errs(*errors) =~= errs(*old(errors)) + extra_mode_errors(flags@, i as int));
        return None;
    }
    match &flags[i].0 {
        Some(f) => {
            let m = SpecifiedTagMode::new(f.0, flags[i].1);
            report_repeated_modes(flags, i + 1, errors);
            Some(m)
        },
        None => first_mode_from(flags, i + 1, errors),
    }
}

impl TagModeAttrs {
    /// The mode of the first flag given, in the order untagged, tag only,
    /// externally, internally, adjacently tagged; each flag given after it
    /// is reported as `tag mode can only be specified once`.
    pub fn into_tag_mode(self, errors: &mut ErrorCollector) -> (r: Option<SpecifiedTagMode>)
        ensures
            r == first_given(tag_mode_flags(self), 0),
            errs(*final(errors)) == errs(*old(errors)) + extra_mode_errors(tag_mode_flags(self), 0),
    {
        let ghost flags_spec = tag_mode_flags(self);
        let mut flags: Vec<(Option<FlagPresent>, TagMode)> = Vec::new();
        flags.push((self.untagged, TagMode::Untagged));
        flags.push((self.tag_only, TagMode::TagOnly));
        flags.push((self.externally_tagged, TagMode::ExternallyTagged));
        flags.push((self.internally_tagged, TagMode::InternallyTagged));
        flags.push((self.adjacently_tagged, TagMode::AdjacentlyTagged));
        assert(flags@ =~= flags_spec);
        first_mode_from(&flags, 0, errors)
    }
}

/// The arguments of a struct.
pub struct StructAttrs {
    pub to: Option<MetaPathSpanWith<ItemTo>>,
    pub to_tagged_kvs: Option<MetaPathSpanWith<StructToTaggedKvs>>,
    pub transparent: Option<FlagPresent>,
    pub rename: Option<MetaPathSpanWith<Rename>>,
    pub tag: Option<MetaPathSpanWith<EqValue<Vec<TokenTree>>>>,
    pub rename_fields: Option<MetaPathSpanWith<GroupParen>>,
}

/// `r` is the struct named `name` with body `sd` and arguments `a`, as the
/// code generator takes it: its name, renames and options; its fields as
/// `fields_read` says; what it turns into when nothing else is given; its
/// `to` and `to_tagged_kvs` templates; and its tag, not yet used.
pub open spec fn struct_made(a: StructAttrs, name: Ident, sd: StructData, options: Options, r: MakeContextOfStruct) -> bool {
    &&& r.name == name
    &&& r.rename == a.rename
    &&& r.rename_fields == a.rename_fields
    &&& r.options == options
    &&& fields_read(fields_of(sd), name.span, r.fields@, r.fields_ident_to_index)
    &&& r.to_default == default_to(fields_of(sd), a.transparent, r.fields@)
    &&& custom_is(r.to_custom, paren_arg(item_to_arg(a.to)))
    &&& custom_is(r.to_tagged_kvs, paren_arg(tagged_kvs_arg(a.to_tagged_kvs)))
    &&& match a.tag {
        Some(m) => r.tag matches ContextOfStructTag::Tagged { span_tag, ts, accessed } && span_tag == m.0
            && ts == m.1.value && !accessed,
        None => r.tag == (ContextOfStructTag::Untagged { dummy: None }),
    }
}

/// The arguments of a struct among the item arguments `p`.
pub open spec fn struct_attrs_of(p: ItemAttrsParser) -> StructAttrs {
    StructAttrs {
        to: p.to,
        to_tagged_kvs: p.to_tagged_kvs,
        transparent: p.transparent,
        rename: p.rename,
        tag: p.tag,
        rename_fields: p.rename_fields,
    }
}

/// The arguments of an enum among the item arguments `p`.
pub open spec fn enum_attrs_of(p: ItemAttrsParser) -> EnumAttrs {
    EnumAttrs {
        to: p.to,
        to_untagged: p.to_untagged,
        to_tagged_kvs: p.to_tagged_kvs,
        rename: p.rename,
        tag: p.tag,
        content: p.content,
        untagged: p.untagged,
        tag_only: p.tag_only,
        externally_tagged: p.externally_tagged,
        internally_tagged: p.internally_tagged,
        adjacently_tagged: p.adjacently_tagged,
        rename_variants: p.rename_variants,
        rename_fields: p.rename_fields,
    }
}

/// `r` is the enum named `name` with variants in `body` and arguments `a`,
/// as the code generator takes it: its name, renames, tag and content; the
/// first tag mode given; its templates; its variants, one for each that
/// `variants_spec` reads; and its options.
pub open spec fn enum_made(a: EnumAttrs, name: Ident, body: GroupBrace, options: Options, r: MakeContextOfEnum) -> bool {
    &&& r.name == name
    &&& r.rename == a.rename
    &&& r.rename_variants == a.rename_variants
    &&& r.rename_fields == a.rename_fields
    &&& r.specified_tag_mode == first_given(tag_mode_flags(enum_tag_flags(a)), 0)
    &&& r.tag == a.tag
    &&& r.content == a.content
    &&& custom_nc_is(r.to, paren_arg(item_to_arg(a.to)))
    &&& custom_nc_is(r.to_untagged, paren_arg(to_untagged_arg(a.to_untagged)))
    &&& custom_nc_is(r.to_tagged_kvs, paren_arg(tagged_kvs_arg(a.to_tagged_kvs)))
    &&& ({
        let steps = variants_spec(StreamState { toks: body.0.stream@, prev: None }).0;
        &&& r.variants@.len() == steps.len()
        &&& forall|k: int| 0 <= k < r.variants@.len() ==> variant_from_step(#[trigger] r.variants@[k], steps[k])
    })
    &&& r.options == options
}

/// The arguments of an enum.
pub struct EnumAttrs {
    pub to: Option<MetaPathSpanWith<ItemTo>>,
    pub to_untagged: Option<MetaPathSpanWith<EnumToUntagged>>,
    pub to_tagged_kvs: Option<MetaPathSpanWith<StructToTaggedKvs>>,
    pub rename: Option<MetaPathSpanWith<Rename>>,
    pub tag: Option<MetaPathSpanWith<EqValue<Vec<TokenTree>>>>,
    pub content: Option<MetaPathSpanWith<EqValue<Vec<TokenTree>>>>,
    pub untagged: Option<FlagPresent>,
    pub tag_only: Option<FlagPresent>,
    pub externally_tagged: Option<FlagPresent>,
    pub internally_tagged: Option<FlagPresent>,
    pub adjacently_tagged: Option<FlagPresent>,
    pub rename_variants: Option<MetaPathSpanWith<GroupParen>>,
    pub rename_fields: Option<MetaPathSpanWith<GroupParen>>,
}

/// `not working with struct` at the place of an argument, if it was given.
pub open spec fn struct_refuses(span: Option<Span>) -> Seq<ParseErrorKind> {
    match span {
        Some(sp) => seq![ParseErrorKind::Custom { msg: "not working with struct", span: Some(sp) }],
        None => Seq::empty(),
    }
}

/// The place of an argument, if it was given.
pub open spec fn given_at<V>(m: Option<MetaPathSpanWith<V>>) -> Option<Span> {
    match m {
        Some(v) => Some(v.0),
        None => None,
    }
}

/// The place of a flag, if it was given.
pub open spec fn flag_at(f: Option<FlagPresent>) -> Option<Span> {
    match f {
        Some(v) => Some(v.0),
        None => None,
    }
}

/// `before` followed by the errors of the arguments that a struct does not
/// take, in order: `to_untagged`, then `content`, `untagged`, `tag_only`,
/// `externally_tagged`, `internally_tagged`, `adjacently_tagged`,
/// `rename_variants`.
pub open spec fn with_struct_arg_errors(before: Seq<ParseErrorKind>, p: ItemAttrsParser) -> Seq<ParseErrorKind> {
    before + (match p.to_untagged {
        Some(m) => seq![
            ParseErrorKind::Custom {
                msg: "not working with struct\nuse #[cjson(to_untagged(...))] instead",
                span: Some(m.0),
            },
        ],
        None => Seq::empty(),
    }) + struct_refuses(given_at(p.content)) + struct_refuses(flag_at(p.untagged)) + struct_refuses(
        flag_at(p.tag_only),
    ) + struct_refuses(flag_at(p.externally_tagged)) + struct_refuses(flag_at(p.internally_tagged))
        + struct_refuses(flag_at(p.adjacently_tagged)) + struct_refuses(given_at(p.rename_variants))
}

/// Reports `not working with struct` at `span`, if there is one.
fn refuse_for_struct(span: Option<Span>, errors: &mut ErrorCollector)
    ensures
        errs(*final(errors)) == errs(*old(errors)) + struct_refuses(span),
{
    match span {
        Some(sp) => {
            errors.push_custom("not working with struct", Some(sp));
        },
        None => {
            assert(errs(*errors) =~= errs(*old(errors)) + struct_refuses(span));
        },
    }
}

/// `before` with the error for `transparent` given to an enum.
pub open spec fn with_enum_arg_errors(before: Seq<ParseErrorKind>, p: ItemAttrsParser) -> Seq<ParseErrorKind> {
    before + match p.transparent {
        Some(f) => seq![
            ParseErrorKind::Custom {
                msg: "not working with enum\nspecify it on enum variants instead",
                span: Some(f.0),
            },
        ],
        None => Seq::empty(),
    }
}

impl ItemAttrsParser {
    /// The arguments for a struct; those a struct does not take are
    /// reported.
    pub fn for_struct(self, errors: &mut ErrorCollector) -> (r: StructAttrs)
        ensures
            r.to == self.to,
            r.to_tagged_kvs == self.to_tagged_kvs,
            r.transparent == self.transparent,
            r.rename == self.rename,
            r.tag == self.tag,
            r.rename_fields == self.rename_fields,
            errs(*final(errors)) == with_struct_arg_errors(errs(*old(errors)), self),
    {
        let ghost e0 = errs(*errors);
        let ItemAttrsParser {
            to,
            to_untagged,
            to_tagged_kvs,
            transparent,
            rename,
            tag,
            content,
            untagged,
            tag_only,
            externally_tagged,
            internally_tagged,
            adjacently_tagged,
            rename_variants,
            rename_fields,
        } = self;
        match to_untagged {
            Some(m) => {
                errors.push_custom(
                    "not working with struct\nuse #[cjson(to_untagged(...))] instead",
                    Some(m.0),
                );
            },
            None => {
                assert(errs(*errors) =~= e0 + Seq::<ParseErrorKind>::empty());
            },
        }
        refuse_for_struct(match content { Some(m) => Some(m.0), None => None }, errors);
        refuse_for_struct(match untagged { Some(m) => Some(m.0), None => None }, errors);
        refuse_for_struct(match tag_only { Some(m) => Some(m.0), None => None }, errors);
        refuse_for_struct(match externally_tagged { Some(m) => Some(m.0), None => None }, errors);
        refuse_for_struct(match internally_tagged { Some(m) => Some(m.0), None => None }, errors);
        refuse_for_struct(match adjacently_tagged { Some(m) => Some(m.0), None => None }, errors);
        refuse_for_struct(match rename_variants { Some(m) => Some(m.0), None => None }, errors);
        StructAttrs { to, to_tagged_kvs, transparent, rename, tag, rename_fields }
    }

    /// The arguments for an enum; `transparent` is reported, as it belongs
    /// on the variants.
    pub fn for_enum(self, errors: &mut ErrorCollector) -> (r: EnumAttrs)
        ensures
            r.to == self.to,
            r.to_untagged == self.to_untagged,
            r.to_tagged_kvs == self.to_tagged_kvs,
            r.rename == self.rename,
            r.tag == self.tag,
            r.content == self.content,
            r.untagged == self.untagged,
            r.tag_only == self.tag_only,
            r.externally_tagged == self.externally_tagged,
            r.internally_tagged == self.internally_tagged,
            r.adjacently_tagged == self.adjacently_tagged,
            r.rename_variants == self.rename_variants,
            r.rename_fields == self.rename_fields,
            errs(*final(errors)) == with_enum_arg_errors(errs(*old(errors)), self),
    {
        let ItemAttrsParser {
            to,
            to_untagged,
            to_tagged_kvs,
            transparent,
            rename,
            tag,
            content,
            untagged,
            tag_only,
            externally_tagged,
            internally_tagged,
            adjacently_tagged,
            rename_variants,
            rename_fields,
        } = self;
        match transparent {
            Some(f) => {
                errors.push_custom(
                    "not working with enum\nspecify it on enum variants instead",
                    Some(f.0),
                );
            },
            None => {
                assert(errs(*errors) =~= errs(*old(errors)) + Seq::<ParseErrorKind>::empty());
            },
        }
        EnumAttrs {
            to,
            to_untagged,
            to_tagged_kvs,
            rename,
            tag,
            content,
            untagged,
            tag_only,
            externally_tagged,
            internally_tagged,
            adjacently_tagged,
            rename_variants,
            rename_fields,
        }
    }
}

/// A field's name: its identifier, or its position as an integer literal.
pub enum FieldName {
    Named(Ident),
    Index(Literal),
}

/// A field with what its arguments give.
pub struct StructField {
    pub skip: Option<FlagPresent>,
    pub name: FieldName,
    pub type_: Vec<TokenTree>,
    pub rename: Option<MetaPathSpanWith<Rename>>,
    pub to: Option<CustomTokens>,
    pub to_kvs_default: StructFieldToKvsDefault,
    pub to_kvs_custom: Option<CustomTokens>,
    pub to_items_default: StructFieldToItemsDefault,
    pub to_items_custom: Option<CustomTokens>,
}

/// `c` holds the place and the tokens in `m`, or nothing when `m` is
/// nothing.
pub open spec fn custom_is(c: Option<CustomTokens>, m: Option<(Span, Seq<TokenTree>)>) -> bool {
    match (c, m) {
        (Some(ct), Some((sp, ts))) => ct.span == sp && (ct.tokens matches MaybeCalculating::NotCalculating(v) && v@ == ts),
        (None, None) => true,
        _ => false,
    }
}

/// The place and tokens of an argument that takes `(..)`, if given.
pub open spec fn paren_arg(m: Option<MetaPathSpanWith<GroupParen>>) -> Option<(Span, Seq<TokenTree>)> {
    match m {
        Some(v) => Some((v.0, v.1.0.stream@)),
        None => None,
    }
}

/// The argument with its group unwrapped.
pub open spec fn field_to_arg(m: Option<MetaPathSpanWith<StructFieldTo>>) -> Option<MetaPathSpanWith<GroupParen>> {
    match m {
        Some(v) => Some(MetaPathSpanWith(v.0, v.1.0)),
        None => None,
    }
}

/// The argument with its group unwrapped.
pub open spec fn field_to_kvs_arg(m: Option<MetaPathSpanWith<StructFieldToKvs>>) -> Option<MetaPathSpanWith<GroupParen>> {
    match m {
        Some(v) => Some(MetaPathSpanWith(v.0, v.1.0)),
        None => None,
    }
}

/// The argument with its group unwrapped.
pub open spec fn field_to_items_arg(m: Option<MetaPathSpanWith<StructFieldToItems>>) -> Option<MetaPathSpanWith<GroupParen>> {
    match m {
        Some(v) => Some(MetaPathSpanWith(v.0, v.1.0)),
        None => None,
    }
}

/// The tokens of an argument, if given.
fn custom_of(m: Option<MetaPathSpanWith<GroupParen>>) -> (r: Option<CustomTokens>)
    ensures
        custom_is(r, paren_arg(m)),
{
    match m {
        Some(v) => Some(CustomTokens::from_meta(v)),
        None => None,
    }
}

/// `f` has the arguments read into `p`: its `skip` and `rename`, the tokens
/// of `to`, `to_kvs` and `to_items`, and `flatten` making it spread its
/// entries or items into those around it.
pub open spec fn field_made(p: StructFieldAttrsParser, f: StructField) -> bool {
    &&& f.skip == p.skip
    &&& f.rename == p.rename
    &&& custom_is(f.to, paren_arg(field_to_arg(p.to)))
    &&& custom_is(f.to_kvs_custom, paren_arg(field_to_kvs_arg(p.to_kvs)))
    &&& custom_is(f.to_items_custom, paren_arg(field_to_items_arg(p.to_items)))
    &&& match p.flatten {
        Some(fl) => f.to_kvs_default == (StructFieldToKvsDefault::Flatten { span: fl.0 })
            && f.to_items_default == (StructFieldToItemsDefault::Flatten { span: fl.0 }),
        None => f.to_kvs_default == StructFieldToKvsDefault::BracedNameEqTo && f.to_items_default
            == StructFieldToItemsDefault::BracketedTo,
    }
}

impl StructFieldAttrsParser {
    /// The field named `name` of type `ty` with these arguments: `flatten`
    /// makes it spread its entries or items into those around it.
    pub fn make_struct_field(self, name: FieldName, ty: Vec<TokenTree>) -> (r: StructField)
        ensures
            r.name == name,
            r.type_ == ty,
            field_made(self, r),
    {
        let StructFieldAttrsParser { skip, flatten, rename, to, to_kvs, to_items } = self;
        let (to_kvs_default, to_items_default) = match flatten {
            Some(f) => (
                StructFieldToKvsDefault::Flatten { span: f.0 },
                StructFieldToItemsDefault::Flatten { span: f.0 },
            ),
            None => (StructFieldToKvsDefault::BracedNameEqTo, StructFieldToItemsDefault::BracketedTo),
        };
        let to = custom_of(match to { Some(v) => Some(MetaPathSpanWith(v.0, v.1.0)), None => None });
        let to_kvs_custom = custom_of(
            match to_kvs { Some(v) => Some(MetaPathSpanWith(v.0, v.1.0)), None => None },
        );
        let to_items_custom = custom_of(
            match to_items { Some(v) => Some(MetaPathSpanWith(v.0, v.1.0)), None => None },
        );
        StructField {
            skip,
            name,
            type_: ty,
            rename,
            to,
            to_kvs_default,
            to_kvs_custom,
            to_items_default,
            to_items_custom,
        }
    }
}

/// The fields of a struct or a variant, as written.
pub enum Fields {
    Unit,
    Paren(GroupParen),
    Brace(GroupBrace),
}

/// The fields read, the names of named fields in order (a name stands for
/// the last field that has it), and what the struct turns into when
/// nothing else is given.
pub struct ParsedFields {
    pub fields: Vec<StructField>,
    pub fields_ident_to_index: Option<Vec<Vec<u8>>>,
    pub to_untagged_unspecified: StructToDefault,
}

/// The number of fields not skipped.
pub open spec fn non_skip_count(fs: Seq<StructField>) -> nat
    decreases fs.len(),
{
    if fs.len() == 0 {
        0
    } else {
        non_skip_count(fs.drop_last()) + if fs.last().skip is None {
            1nat
        } else {
            0nat
        }
    }
}

/// The number of fields not skipped.
fn count_non_skip(fs: &Vec<StructField>) -> (n: usize)
    ensures
        n == non_skip_count(fs@),
{
    let mut n: usize = 0;
    let mut i: usize = 0;
    while i < fs.len()
        invariant
            i <= fs@.len(),
            n <= i,
            n == non_skip_count(fs@.subrange(0, i as int)),
        decreases fs@.len() - i,
    {
        assert(fs@.subrange(0, i + 1).drop_last() =~= fs@.subrange(0, i as int));
        if fs[i].skip.is_none() {
            n = n + 1;
        }
        i = i + 1;
    }
    assert(fs@.subrange(0, fs@.len() as int) =~= fs@);
    n
}

/// The place an unnamed field's name is given: where its type starts, else
/// its `,`, else `default_span`.
pub open spec fn index_name_span(ty: Seq<TokenTree>, comma: Option<Span>, default_span: Span) -> Span {
    if ty.len() > 0 {
        span_open_or_entire(ty[0])
    } else {
        match comma {
            Some(sp) => sp,
            None => default_span,
        }
    }
}

/// `f` is the `k`-th field read from `pf`: its type, its identifier or its
/// position as a decimal literal, and the arguments its attributes give.
pub open spec fn field_from_parsed(f: StructField, pf: ParsedField, k: int, named: bool, default_span: Span) -> bool {
    &&& f.type_ == pf.ty
    &&& exists|p: StructFieldAttrsParser|
        #[trigger] field_made(p, f) && attrs_read::<StructFieldAttrsParser>(
            StructFieldAttrsParser::new_spec(),
            attr_metas(pf.attrs@),
            p,
        )
    &&& if named {
        pf.name_colon matches Some((i, _)) && f.name == FieldName::Named(i)
    } else {
        f.name matches FieldName::Index(l) && l.text@ == decimal_text(k as nat) && l.span
            == index_name_span(
            pf.ty@,
            match pf.comma {
                Some(c) => Some(c.0.span),
                None => None,
            },
            default_span,
        )
    }
}

/// Reading an outer attribute whose token after `#` is `meta` takes the
/// set from `p0` to `p1`: through the arguments of `#[cjson(..)]`; any other
/// attribute leaves it as it is.
pub open spec fn outer_attr_read<P: PushMetaSimple>(p0: P, meta: TokenTree, p1: P) -> bool {
    if meta is Group && meta->Group_0.delimiter == Delimiter::Bracket && meta->Group_0.stream@.len() > 0
        && is_ident_named(meta->Group_0.stream@[0], kw_cjson()) {
        top_level_args::<P>(meta->Group_0.stream@, p0, p1)
    } else {
        p1 == p0
    }
}

/// Reading outer attributes, given by the tokens after their `#`, one after
/// the other takes the set from `p0` to `p1`.
pub open spec fn attrs_read<P: PushMetaSimple>(p0: P, metas: Seq<TokenTree>, p1: P) -> bool
    decreases metas.len(),
{
    if metas.len() == 0 {
        p1 == p0
    } else {
        exists|p: P| #[trigger] outer_attr_read::<P>(p0, metas[0], p) && attrs_read::<P>(p, metas.drop_first(), p1)
    }
}

/// The tokens after the `#` of each attribute.
pub open spec fn attr_metas(attrs: Seq<OuterAttr>) -> Seq<TokenTree> {
    attrs.map_values(|a: OuterAttr| a.meta)
}

/// The token after `#` is `[cjson ..]`.
pub open spec fn is_cjson_meta(meta: TokenTree) -> bool {
    meta is Group && meta->Group_0.delimiter == Delimiter::Bracket && meta->Group_0.stream@.len() > 0
        && is_ident_named(meta->Group_0.stream@[0], kw_cjson())
}

/// `trees` are the names that outer attributes, given by the tokens after
/// their `#`, add in order: one for each `#[cjson(..)]`, naming its
/// arguments.
pub open spec fn attr_trees<P: PushMetaSimple>(metas: Seq<TokenTree>, trees: Seq<IdentTree>) -> bool
    decreases metas.len(),
{
    if metas.len() == 0 {
        trees.len() == 0
    } else if is_cjson_meta(metas.last()) {
        &&& trees.len() > 0
        &&& top_level_tree::<P>(metas.last()->Group_0.stream@, trees.last())
        &&& attr_trees::<P>(metas.drop_last(), trees.drop_last())
    } else {
        attr_trees::<P>(metas.drop_last(), trees)
    }
}

/// The names of several lists, one list after the other.
pub open spec fn concat_trees(parts: Seq<Seq<IdentTree>>) -> Seq<IdentTree>
    decreases parts.len(),
{
    if parts.len() == 0 {
        Seq::empty()
    } else {
        concat_trees(parts.drop_last()) + parts.last()
    }
}

/// `trees` are the names that the attributes of several items add, the
/// items' lists of attributes (each given by the tokens after the `#`s)
/// one after the other.
pub open spec fn lists_trees<P: PushMetaSimple>(lists: Seq<Seq<TokenTree>>, trees: Seq<IdentTree>) -> bool {
    exists|parts: Seq<Seq<IdentTree>>|
        #![trigger concat_trees(parts)]
        parts.len() == lists.len() && trees == concat_trees(parts) && forall|i: int|
            0 <= i < lists.len() ==> #[trigger] attr_trees::<P>(lists[i], parts[i])
}

proof fn lemma_lists_trees_push<P: PushMetaSimple>(lists: Seq<Seq<TokenTree>>, a: Seq<IdentTree>, b: Seq<IdentTree>)
    requires
        lists.len() > 0,
        lists_trees::<P>(lists.drop_last(), a),
        attr_trees::<P>(lists.last(), b),
    ensures
        lists_trees::<P>(lists, a + b),
{
    let parts = choose|parts: Seq<Seq<IdentTree>>|
        #![trigger concat_trees(parts)]
        parts.len() == lists.drop_last().len() && a == concat_trees(parts) && forall|i: int|
            0 <= i < lists.drop_last().len() ==> #[trigger] attr_trees::<P>(lists.drop_last()[i], parts[i]);
    let p2 = parts.push(b);
    assert(p2.drop_last() =~= parts);
    assert(concat_trees(p2) == a + b);
    assert forall|i: int| 0 <= i < lists.len() implies #[trigger] attr_trees::<P>(lists[i], p2[i]) by {
        if i < lists.len() - 1 {
            assert(lists.drop_last()[i] == lists[i]);
            assert(attr_trees::<P>(lists.drop_last()[i], parts[i]));
        }
    }
}

/// The attributes of each field read, given by the tokens after their `#`s.
pub open spec fn parsed_metas(pfs: Seq<ParsedField>) -> Seq<Seq<TokenTree>> {
    pfs.map_values(|pf: ParsedField| attr_metas(pf.attrs@))
}

pub(crate) proof fn lemma_attrs_errs_cons<P: PushMetaSimple>(
    p_cur: P,
    metas: Seq<TokenTree>,
    p_new: P,
    es1: Seq<ParseErrorKind>,
    pe: P,
    rest: Seq<ParseErrorKind>,
)
    requires
        metas.len() > 0,
        outer_attr_errs::<P>(metas[0], p_cur, p_new, es1),
        attrs_errs::<P>(p_new, metas.drop_first(), pe, rest),
    ensures
        attrs_errs::<P>(p_cur, metas, pe, es1 + rest),
{
    let full = es1 + rest;
    assert(full.subrange(0, es1.len() as int) =~= es1);
    assert(full.subrange(es1.len() as int, full.len() as int) =~= rest);
}

/// Reads outer attributes into `p` one after the other; the names they
/// give are added to `ident_trees`.
fn read_attrs_into<P: PushMetaSimple>(p: &mut P, attrs: Vec<OuterAttr>, errors: &mut ErrorCollector, ident_trees: &mut Vec<IdentTree>)
    ensures
        attrs_read::<P>(*old(p), attr_metas(attrs@), *final(p)),
        exists|added: Seq<IdentTree>|
            final(ident_trees)@ == old(ident_trees)@ + added && #[trigger] attr_trees::<P>(attr_metas(attrs@), added),
        exists|es: Seq<ParseErrorKind>|
            errs(*final(errors)) == errs(*old(errors)) + es && #[trigger] attrs_errs::<P>(
                *old(p),
                attr_metas(attrs@),
                *final(p),
                es,
            ),
{
    let ghost all = attr_metas(attrs@);
    let mut attrs = attrs;
    let ghost it0 = ident_trees@;
    let ghost p0 = *p;
    let ghost mut acc: Seq<IdentTree> = Seq::empty();
    let ghost mut acc_e: Seq<ParseErrorKind> = Seq::empty();
    proof {
        assert(errs(*errors) =~= errs(*old(errors)) + acc_e);
        assert forall|pe: P, rest: Seq<ParseErrorKind>| #[trigger] attrs_errs::<P>(*p, attr_metas(attrs@), pe, rest)
            implies attrs_errs::<P>(p0, all, pe, acc_e + rest) by {
            assert(acc_e + rest =~= rest);
        }
        assert forall|pe: P| #[trigger] attrs_read::<P>(*p, attr_metas(attrs@), pe) implies attrs_read::<P>(
            p0,
            all,
            pe,
        ) by {}
        assert(all.subrange(0, 0) =~= Seq::<TokenTree>::empty());
        assert(ident_trees@ =~= it0 + acc);
        assert(attr_metas(attrs@) =~= all.subrange(0, all.len() as int));
    }
    while attrs.len() > 0
        invariant
            p0 == *old(p),
            all.len() >= attrs@.len(),
            attr_metas(attrs@) == all.subrange(all.len() - attrs@.len(), all.len() as int),
            ident_trees@ == it0 + acc,
            attr_trees::<P>(all.subrange(0, all.len() - attrs@.len()), acc),
            forall|pe: P| #[trigger] attrs_read::<P>(*p, attr_metas(attrs@), pe) ==> attrs_read::<P>(p0, all, pe),
            errs(*errors) == errs(*old(errors)) + acc_e,
            forall|pe: P, rest: Seq<ParseErrorKind>| #[trigger] attrs_errs::<P>(*p, attr_metas(attrs@), pe, rest)
                ==> attrs_errs::<P>(p0, all, pe, acc_e + rest),
        decreases attrs@.len(),
    {
        let ghost before = attrs@;
        let ghost p_cur = *p;
        let ghost e_cur = errs(*errors);
        let ghost c0 = all.len() - attrs@.len();
        let a = attrs.remove(0);
        let ghost meta = a.meta;
        proof {
            assert(attr_metas(before)[0] == meta);
            assert(all[c0] == attr_metas(before)[0]);
            assert(all.subrange(0, c0 + 1).drop_last() =~= all.subrange(0, c0));
            assert(all.subrange(0, c0 + 1).last() == meta);
            assert(attrs@ =~= before.subrange(1, before.len() as int));
            assert forall|k: int| 0 <= k < attrs@.len() implies attr_metas(attrs@)[k] == all[c0 + 1 + k] by {
                assert(attr_metas(attrs@)[k] == attrs@[k].meta);
                assert(attrs@[k] == before[k + 1]);
                assert(attr_metas(before)[k + 1] == before[k + 1].meta);
            }
            assert(attr_metas(attrs@) =~= all.subrange(all.len() - attrs@.len(), all.len() as int));
        }
        match push_outer_attr(p, errors, a.pound, a.meta) {
            Some(t) => {
                ident_trees.push(t);
                proof {
                    let acc2 = acc.push(t);
                    assert(acc2.drop_last() =~= acc);
                    assert(attr_trees::<P>(all.subrange(0, c0 + 1), acc2));
                    acc = acc2;
                }
                assert(ident_trees@ =~= it0 + acc);
            },
            None => {
                assert(attr_trees::<P>(all.subrange(0, c0 + 1), acc));
            },
        }
        proof {
            let p_new = *p;
            assert(outer_attr_read::<P>(p_cur, meta, p_new));
            assert(attr_metas(before) =~= seq![meta] + attr_metas(attrs@));
            assert(attr_metas(before).drop_first() =~= attr_metas(attrs@));
            let es1 = choose|es1: Seq<ParseErrorKind>|
                errs(*errors) == e_cur + es1 && #[trigger] outer_attr_errs::<P>(meta, p_cur, p_new, es1);
            assert forall|pe: P, rest: Seq<ParseErrorKind>| #[trigger] attrs_errs::<P>(p_new, attr_metas(attrs@), pe, rest)
                implies attrs_errs::<P>(p0, all, pe, (acc_e + es1) + rest) by {
                lemma_attrs_errs_cons::<P>(p_cur, attr_metas(before), p_new, es1, pe, rest);
                assert(acc_e + (es1 + rest) =~= (acc_e + es1) + rest);
            }
            assert(errs(*errors) =~= errs(*old(errors)) + (acc_e + es1));
            acc_e = acc_e + es1;
            assert forall|pe: P| #[trigger] attrs_read::<P>(p_new, attr_metas(attrs@), pe) implies attrs_read::<P>(
                p0,
                all,
                pe,
            ) by {
                assert(attr_metas(before)[0] == meta);
                assert(attrs_read::<P>(p_cur, attr_metas(before), pe));
            }
        }
    }
    assert(attrs_read::<P>(*p, attr_metas(attrs@), *p));
    assert(all.subrange(0, all.len() - attrs@.len()) =~= all);
    assert(attr_trees::<P>(all, acc));
    assert(attrs_errs::<P>(*p, attr_metas(attrs@), *p, Seq::empty()));
    assert(acc_e + Seq::<ParseErrorKind>::empty() =~= acc_e);
    assert(attrs_errs::<P>(p0, all, *p, acc_e));
}

/// `es` are the errors of a field's outer attributes, given by the tokens
/// after their `#`s, read from no arguments.
pub open spec fn field_attrs_errs(metas: Seq<TokenTree>, es: Seq<ParseErrorKind>) -> bool {
    exists|p: StructFieldAttrsParser|
        #[trigger] attrs_errs::<StructFieldAttrsParser>(StructFieldAttrsParser::new_spec(), metas, p, es)
}

/// Several lists of errors, one after the other.
pub open spec fn concat_errs(parts: Seq<Seq<ParseErrorKind>>) -> Seq<ParseErrorKind>
    decreases parts.len(),
{
    if parts.len() == 0 {
        Seq::empty()
    } else {
        concat_errs(parts.drop_last()) + parts.last()
    }
}

/// `es` are the errors of the attributes of several fields, one field
/// after the other.
pub open spec fn lists_errs(lists: Seq<Seq<TokenTree>>, es: Seq<ParseErrorKind>) -> bool {
    exists|parts: Seq<Seq<ParseErrorKind>>|
        #![trigger concat_errs(parts)]
        parts.len() == lists.len() && es == concat_errs(parts) && forall|i: int|
            0 <= i < lists.len() ==> #[trigger] field_attrs_errs(lists[i], parts[i])
}

proof fn lemma_lists_errs_push(lists: Seq<Seq<TokenTree>>, a: Seq<ParseErrorKind>, b: Seq<ParseErrorKind>)
    requires
        lists.len() > 0,
        lists_errs(lists.drop_last(), a),
        field_attrs_errs(lists.last(), b),
    ensures
        lists_errs(lists, a + b),
{
    let parts = choose|parts: Seq<Seq<ParseErrorKind>>|
        #![trigger concat_errs(parts)]
        parts.len() == lists.drop_last().len() && a == concat_errs(parts) && forall|i: int|
            0 <= i < lists.drop_last().len() ==> #[trigger] field_attrs_errs(lists.drop_last()[i], parts[i]);
    let p2 = parts.push(b);
    assert(p2.drop_last() =~= parts);
    assert(concat_errs(p2) == a + b);
    assert forall|i: int| 0 <= i < lists.len() implies #[trigger] field_attrs_errs(lists[i], p2[i]) by {
        if i < lists.len() - 1 {
            assert(lists.drop_last()[i] == lists[i]);
            assert(field_attrs_errs(lists.drop_last()[i], parts[i]));
        }
    }
}

/// Reads the arguments of the outer attributes of a field; the names they
/// give are added to `ident_trees`.
fn read_field_attrs(attrs: Vec<OuterAttr>, errors: &mut ErrorCollector, ident_trees: &mut Vec<IdentTree>) -> (r: StructFieldAttrsParser)
    ensures
        attrs_read::<StructFieldAttrsParser>(StructFieldAttrsParser::new_spec(), attr_metas(attrs@), r),
        exists|added: Seq<IdentTree>|
            final(ident_trees)@ == old(ident_trees)@ + added && #[trigger] attr_trees::<StructFieldAttrsParser>(
                attr_metas(attrs@),
                added,
            ),
        exists|es: Seq<ParseErrorKind>|
            errs(*final(errors)) == errs(*old(errors)) + es && #[trigger] attrs_errs::<StructFieldAttrsParser>(
                StructFieldAttrsParser::new_spec(),
                attr_metas(attrs@),
                r,
                es,
            ),
{
    let mut p = StructFieldAttrsParser::new();
    read_attrs_into(&mut p, attrs, errors, ident_trees);
    p
}

/// The fields made from what was read: their arguments, names and types.
fn build_fields(pfs: Vec<ParsedField>, named: bool, default_span: Span, errors: &mut ErrorCollector, ident_trees: &mut Vec<IdentTree>) -> (r: Vec<StructField>)
    requires
        named ==> forall|k: int| 0 <= k < pfs@.len() ==> (#[trigger] pfs@[k]).name_colon is Some,
    ensures
        r@.len() == pfs@.len(),
        forall|k: int| 0 <= k < r@.len() ==> field_from_parsed(#[trigger] r@[k], pfs@[k], k, named, default_span),
        exists|added: Seq<IdentTree>|
            final(ident_trees)@ == old(ident_trees)@ + added && #[trigger] lists_trees::<StructFieldAttrsParser>(
                parsed_metas(pfs@),
                added,
            ),
        exists|es: Seq<ParseErrorKind>|
            errs(*final(errors)) == errs(*old(errors)) + es && #[trigger] lists_errs(parsed_metas(pfs@), es),
{
    let ghost all = pfs@;
    let ghost it0 = ident_trees@;
    let ghost mut acc: Seq<IdentTree> = Seq::empty();
    let ghost mut acc_e: Seq<ParseErrorKind> = Seq::empty();
    proof {
        assert(parsed_metas(all.subrange(0, 0)) =~= Seq::<Seq<TokenTree>>::empty());
        assert(ident_trees@ =~= it0 + acc);
        assert(concat_trees(Seq::<Seq<IdentTree>>::empty()) == acc);
        assert(concat_errs(Seq::<Seq<ParseErrorKind>>::empty()) == acc_e);
        assert(errs(*errors) =~= errs(*old(errors)) + acc_e);
    }
    let mut rest = pfs;
    let mut out: Vec<StructField> = Vec::new();
    let mut k: usize = 0;
    let total = rest.len();
    while rest.len() > 0
        invariant
            total == all.len(),
            k == out@.len(),
            k + rest@.len() == all.len(),
            rest@ == all.subrange(k as int, all.len() as int),
            named ==> forall|j: int| 0 <= j < all.len() ==> (#[trigger] all[j]).name_colon is Some,
            forall|j: int| 0 <= j < out@.len() ==> field_from_parsed(#[trigger] out@[j], all[j], j, named, default_span),
            ident_trees@ == it0 + acc,
            lists_trees::<StructFieldAttrsParser>(parsed_metas(all.subrange(0, k as int)), acc),
            errs(*errors) == errs(*old(errors)) + acc_e,
            lists_errs(parsed_metas(all.subrange(0, k as int)), acc_e),
        decreases rest@.len(),
    {
        let pf = rest.remove(0);
        assert(pf == all[k as int]);
        let ParsedField { attrs, vis: _, name_colon, ty, comma } = pf;
        let ghost it1 = ident_trees@;
        let ghost e1 = errs(*errors);
        let ghost am = attr_metas(attrs@);
        let p = read_field_attrs(attrs, errors, ident_trees);
        proof {
            let be = choose|be: Seq<ParseErrorKind>|
                errs(*errors) == e1 + be && #[trigger] attrs_errs::<StructFieldAttrsParser>(
                    StructFieldAttrsParser::new_spec(),
                    am,
                    p,
                    be,
                );
            let lists = parsed_metas(all.subrange(0, k + 1));
            assert(lists.drop_last() =~= parsed_metas(all.subrange(0, k as int)));
            assert(lists.last() == am);
            assert(field_attrs_errs(lists.last(), be));
            lemma_lists_errs_push(lists, acc_e, be);
            assert(errs(*errors) =~= errs(*old(errors)) + (acc_e + be));
            acc_e = acc_e + be;
        }
        proof {
            let b = choose|b: Seq<IdentTree>| ident_trees@ == it1 + b && #[trigger] attr_trees::<StructFieldAttrsParser>(am, b);
            let lists = parsed_metas(all.subrange(0, k + 1));
            assert(lists.drop_last() =~= parsed_metas(all.subrange(0, k as int)));
            assert(lists.last() == am);
            assert(lists.len() == k + 1);
            assert(attr_trees::<StructFieldAttrsParser>(lists.last(), b));
            assert(lists_trees::<StructFieldAttrsParser>(lists.drop_last(), acc));
            lemma_lists_trees_push::<StructFieldAttrsParser>(lists, acc, b);
            assert(ident_trees@ =~= it0 + (acc + b));
            acc = acc + b;
        }
        let name = if named {
            match name_colon {
                Some((i, _)) => FieldName::Named(i),
                None => {
                    proof {
                        assert(false);
                    }
                    FieldName::Named(Ident { name: Vec::new(), span: default_span })
                },
            }
        } else {
            let span = if ty.len() > 0 {
                ty[0].span_open_or_entire()
            } else {
                match &comma {
                    Some(c) => c.0.span,
                    None => default_span,
                }
            };
            FieldName::Index(crate::utils::usize_unsuffixed(k, span))
        };
        let ghost pg = p;
        let f = p.make_struct_field(name, ty);
        assert(field_made(pg, f));
        out.push(f);
        k = k + 1;
        assert(rest@ =~= all.subrange(k as int, all.len() as int));
    }
    assert(all.subrange(0, k as int) =~= all);
    assert(lists_errs(parsed_metas(pfs@), acc_e));
    out
}

/// The tokens after the `#` of each whole outer attribute at the start of
/// `st`.
pub open spec fn step_metas(st: StreamState) -> Seq<TokenTree> {
    Seq::new(attrs_count(st.toks, 0) as nat, |k: int| st.toks[2 * k + 1])
}

/// Attributes read from the start of `st` are those of `step_metas`.
proof fn lemma_attr_metas(attrs: Seq<OuterAttr>, st: StreamState)
    requires
        attrs.len() == attrs_count(st.toks, 0),
        attrs_from(attrs, st.toks, 0),
    ensures
        attr_metas(attrs) == step_metas(st),
{
    assert forall|k: int| 0 <= k < attrs.len() implies attr_metas(attrs)[k] == step_metas(st)[k] by {
        assert(attrs[k].meta == st.toks[0 + 2 * k + 1]);
    }
    assert(attr_metas(attrs) =~= step_metas(st));
}

/// `f` is the `k`-th field that `step` read: its type, the arguments its
/// attributes give, and its identifier or its position as a decimal
/// literal.
pub open spec fn field_from_step(f: StructField, step: FieldStep, k: int, named: bool, default_span: Span) -> bool {
    match step {
        FieldStep::Read { st, st_v, st_c, ty_n, st_t, comma, .. } => {
            &&& f.type_@ == st_c.toks.subrange(0, ty_n)
            &&& exists|p: StructFieldAttrsParser|
                #[trigger] field_made(p, f) && attrs_read::<StructFieldAttrsParser>(
                    StructFieldAttrsParser::new_spec(),
                    step_metas(st),
                    p,
                )
            &&& if named {
                f.name matches FieldName::Named(i) && TokenTree::Ident(i) == st_v.toks[0]
            } else {
                f.name matches FieldName::Index(l) && l.text@ == decimal_text(k as nat) && l.span
                    == index_name_span(
                    st_c.toks.subrange(0, ty_n),
                    if comma {
                        Some(span_open_or_entire(st_t.toks[0]))
                    } else {
                        None
                    },
                    default_span,
                )
            }
        },
        FieldStep::Failed(_, _) => false,
    }
}

/// The steps that reading the fields takes, and whether they are named.
pub open spec fn fields_steps(f: Fields) -> (Seq<FieldStep>, bool) {
    match f {
        Fields::Unit => (Seq::empty(), false),
        Fields::Paren(g) => (fields_spec(StreamState { toks: g.0.stream@, prev: None }, false).0, false),
        Fields::Brace(g) => (fields_spec(StreamState { toks: g.0.stream@, prev: None }, true).0, true),
    }
}

/// What a struct with these fields turns into when nothing else is given:
/// its only field's value when `transparent` is given, or when it is a
/// tuple struct of one field that is not skipped; else an array for a
/// tuple struct, an object for named fields and nothing for a unit struct.
pub open spec fn default_to(f: Fields, transparent: Option<FlagPresent>, fs: Seq<StructField>) -> StructToDefault {
    match transparent {
        Some(t) => StructToDefault::Transparent { span: Some(t.0) },
        None => match f {
            Fields::Unit => StructToDefault::Unit,
            Fields::Brace(_) => StructToDefault::Object,
            Fields::Paren(_) => if fs.len() == 1 && non_skip_count(fs) == 1 {
                StructToDefault::Transparent { span: None }
            } else {
                StructToDefault::Array
            },
        },
    }
}

/// The fields read match the steps.
proof fn lemma_fields_from_steps(fs: Seq<StructField>, pfs: Seq<ParsedField>, steps: Seq<FieldStep>, named: bool, default_span: Span)
    requires
        fs.len() == pfs.len(),
        crate::syn_generic::fields_match(pfs, steps, named),
        forall|k: int| 0 <= k < fs.len() ==> field_from_parsed(#[trigger] fs[k], pfs[k], k, named, default_span),
    ensures
        forall|k: int| 0 <= k < fs.len() ==> field_from_step(#[trigger] fs[k], steps[k], k, named, default_span),
{
    assert forall|k: int| 0 <= k < fs.len() implies field_from_step(#[trigger] fs[k], steps[k], k, named, default_span) by {
        assert(field_matches(pfs[k], steps[k], named));
        assert(field_from_parsed(fs[k], pfs[k], k, named, default_span));
        match steps[k] {
            FieldStep::Read { st, .. } => {
                lemma_attr_metas(pfs[k].attrs@, st);
            },
            FieldStep::Failed(_, _) => {},
        }
    }
}

/// The text of a field's name.
pub open spec fn name_text(n: FieldName) -> Seq<u8> {
    match n {
        FieldName::Named(i) => i.name@,
        FieldName::Index(l) => l.text@,
    }
}

/// The error for `transparent` on anything but exactly one field that is
/// not skipped.
pub open spec fn transparent_error(t: FlagPresent) -> ParseErrorKind {
    ParseErrorKind::Custom {
        msg: "`transparent` only works with struct with exactly one non-skipped field",
        span: Some(t.0),
    }
}

/// The fields named in order.
fn field_names(fs: &Vec<StructField>) -> (r: Vec<Vec<u8>>)
    ensures
        r@.len() == fs@.len(),
        forall|k: int| 0 <= k < r@.len() ==> r@[k]@ == name_text((#[trigger] fs@[k]).name),
{
    let mut r: Vec<Vec<u8>> = Vec::new();
    let mut i: usize = 0;
    while i < fs.len()
        invariant
            i <= fs@.len(),
            r@.len() == i,
            forall|k: int| 0 <= k < r@.len() ==> r@[k]@ == name_text((#[trigger] fs@[k]).name),
        decreases fs@.len() - i,
    {
        let n = match &fs[i].name {
            FieldName::Named(id) => id.name.clone(),
            FieldName::Index(l) => l.text.clone(),
        };
        r.push(n);
        i = i + 1;
    }
    r
}

/// `fs` are the fields read from `f`, named as `Fields::parse` names them,
/// and `names` the names of named fields in order.
/// The attributes of each field that the steps read.
pub open spec fn step_lists(steps: Seq<FieldStep>) -> Seq<Seq<TokenTree>> {
    steps.map_values(
        |step: FieldStep|
            match step {
                FieldStep::Read { st, .. } => step_metas(st),
                FieldStep::Failed(_, _) => Seq::empty(),
            },
    )
}

/// The attributes read before a field that could not be read whole.
pub open spec fn failed_metas(f: Fields) -> Seq<TokenTree> {
    let at = match f {
        Fields::Unit => None,
        Fields::Paren(g) => fields_failed_at(StreamState { toks: g.0.stream@, prev: None }, false),
        Fields::Brace(g) => fields_failed_at(StreamState { toks: g.0.stream@, prev: None }, true),
    };
    match at {
        Some(st) => step_metas(st),
        None => Seq::empty(),
    }
}

proof fn lemma_parsed_metas_steps(pfs: Seq<ParsedField>, steps: Seq<FieldStep>, named: bool)
    requires
        crate::syn_generic::fields_match(pfs, steps, named),
    ensures
        parsed_metas(pfs) == step_lists(steps),
{
    assert forall|k: int| 0 <= k < pfs.len() implies parsed_metas(pfs)[k] == step_lists(steps)[k] by {
        assert(field_matches(pfs[k], steps[k], named));
        match steps[k] {
            FieldStep::Read { st, .. } => {
                lemma_attr_metas(pfs[k].attrs@, st);
            },
            FieldStep::Failed(_, _) => {},
        }
    }
    assert(parsed_metas(pfs) =~= step_lists(steps));
}

proof fn lemma_failed_metas(attrs: Seq<OuterAttr>, at: Option<StreamState>)
    requires
        failed_attrs_ok(attrs, at),
    ensures
        attr_metas(attrs) == match at {
            Some(st) => step_metas(st),
            None => Seq::empty(),
        },
{
    match at {
        Some(st) => lemma_attr_metas(attrs, st),
        None => {
            assert(attr_metas(attrs) =~= Seq::<TokenTree>::empty());
        },
    }
}

/// `k` is the error that `s` describes.
pub open spec fn kind_is(k: ParseErrorKind, s: crate::syn_generic::ErrSpec) -> bool {
    match s {
        crate::syn_generic::ErrSpec::Custom(msg, span) => k matches ParseErrorKind::Custom { msg: m, span: sp }
            && m@ == msg && sp == span,
        crate::syn_generic::ErrSpec::Eof(after) => k == ParseErrorKind::UnexpectedEof { after },
        crate::syn_generic::ErrSpec::Unexpected(span) => k == ParseErrorKind::UnexpectedToken { span },
    }
}

/// `c` is the error that stopped a reading, if one did.
pub open spec fn stop_errs(e: Option<crate::syn_generic::ErrSpec>, c: Seq<ParseErrorKind>) -> bool {
    match e {
        None => c.len() == 0,
        Some(s) => c.len() == 1 && kind_is(c[0], s),
    }
}

/// The error that stops reading the fields, if any.
pub open spec fn fields_outcome(f: Fields) -> Option<crate::syn_generic::ErrSpec> {
    match f {
        Fields::Unit => None,
        Fields::Paren(g) => fields_spec(StreamState { toks: g.0.stream@, prev: None }, false).1,
        Fields::Brace(g) => fields_spec(StreamState { toks: g.0.stream@, prev: None }, true).1,
    }
}

/// The error of `transparent` given where not exactly one field is kept.
pub open spec fn transparent_errs(transparent: Option<FlagPresent>, fs: Seq<StructField>) -> Seq<ParseErrorKind> {
    match transparent {
        Some(t) => if non_skip_count(fs) != 1 {
            seq![transparent_error(t)]
        } else {
            Seq::empty()
        },
        None => Seq::empty(),
    }
}

/// `es` are the errors of reading the fields: those of the attributes of
/// each field read, then those of the attributes of a field that could not
/// be read whole, then the error that stopped the reading.
pub open spec fn fields_body_errs(f: Fields, es: Seq<ParseErrorKind>) -> bool {
    exists|a: Seq<ParseErrorKind>, b: Seq<ParseErrorKind>, c: Seq<ParseErrorKind>|
        #![trigger lists_errs(step_lists(fields_steps(f).0), a), field_attrs_errs(failed_metas(f), b), stop_errs(fields_outcome(f), c)]
        es == a + b + c && lists_errs(step_lists(fields_steps(f).0), a) && field_attrs_errs(failed_metas(f), b)
            && stop_errs(fields_outcome(f), c)
}

pub open spec fn fields_read(f: Fields, default_span: Span, fs: Seq<StructField>, names: Option<Vec<Vec<u8>>>) -> bool {
    let (steps, named) = fields_steps(f);
    &&& fs.len() == steps.len()
    &&& forall|k: int| 0 <= k < fs.len() ==> field_from_step(#[trigger] fs[k], steps[k], k, named, default_span)
    &&& match f {
        Fields::Brace(_) => names matches Some(ns) && ns@.len() == fs.len() && forall|k: int|
            0 <= k < ns@.len() ==> ((#[trigger] fs[k]).name is Named && ns@[k]@ == name_text(fs[k].name)),
        _ => names is None,
    }
}

impl Fields {
    /// Reads the fields with their arguments. An unnamed field is named
    /// by its position, at where its type starts (else its `,`, else
    /// `default_span`). The names the arguments give go to `ident_trees`;
    /// an error that stops the reading is reported after those of the
    /// arguments, and `transparent` on anything but exactly one field that
    /// is not skipped is reported last.
    pub fn parse(self, default_span: Span, transparent: Option<FlagPresent>, errors: &mut ErrorCollector, ident_trees: &mut Vec<IdentTree>) -> (r: ParsedFields)
        ensures
            fields_read(self, default_span, r.fields@, r.fields_ident_to_index),
            r.to_untagged_unspecified == default_to(self, transparent, r.fields@),
            (transparent is Some && non_skip_count(r.fields@) != 1) ==> errs(*final(errors)).len() > 0
                && errs(*final(errors)).last() == transparent_error(transparent.unwrap()),
            exists|body: Seq<ParseErrorKind>|
                errs(*final(errors)) == errs(*old(errors)) + body + transparent_errs(transparent, r.fields@)
                    && #[trigger] fields_body_errs(self, body),
            final(ident_trees)@.len() >= old(ident_trees)@.len(),
            final(ident_trees)@.subrange(0, old(ident_trees)@.len() as int) == old(ident_trees)@,
            exists|a: Seq<IdentTree>, b: Seq<IdentTree>|
                #![trigger lists_trees::<StructFieldAttrsParser>(step_lists(fields_steps(self).0), a), attr_trees::<StructFieldAttrsParser>(failed_metas(self), b)]
                final(ident_trees)@ == old(ident_trees)@ + a + b && lists_trees::<StructFieldAttrsParser>(
                    step_lists(fields_steps(self).0),
                    a,
                ) && attr_trees::<StructFieldAttrsParser>(failed_metas(self), b),
    {
        let ghost this = self;
        let ghost it_start = ident_trees@;
        let ghost e_start = errs(*errors);
        let ghost mut body_e: Seq<ParseErrorKind> = Seq::empty();
        let to_default_opt: Option<StructToDefault> = match &transparent {
            Some(t) => Some(StructToDefault::Transparent { span: Some(t.0) }),
            None => None,
        };
        let (fields, names, to_default) = match self {
            Fields::Paren(paren) => {
                let input = ParsingTokenStream::new(paren.0.stream);
                proof {
                    assert(input.state() == StreamState { toks: paren.0.stream@, prev: None });
                }
                let ghost st_in = input.state();
                let (pfs, res, failed_attrs) = input.parse_into_unnamed_fields();
                let ghost pfs_v = pfs@;
                let ghost fa = failed_attrs@;
                let fs = build_fields(pfs, false, default_span, errors, ident_trees);
                let ghost it_mid = ident_trees@;
                let ghost e_mid = errs(*errors);
                proof {
                    lemma_fields_from_steps(fs@, pfs_v, fields_steps(this).0, false, default_span);
                    lemma_parsed_metas_steps(pfs_v, fields_steps(this).0, false);
                    lemma_failed_metas(fa, fields_failed_at(st_in, false));
                }
                let fap = read_field_attrs(failed_attrs, errors, ident_trees);
                proof {
                    let a = choose|a: Seq<IdentTree>| it_mid == it_start + a && #[trigger] lists_trees::<StructFieldAttrsParser>(parsed_metas(pfs_v), a);
                    let b = choose|b: Seq<IdentTree>| ident_trees@ == it_mid + b && #[trigger] attr_trees::<StructFieldAttrsParser>(attr_metas(fa), b);
                    assert(lists_trees::<StructFieldAttrsParser>(step_lists(fields_steps(this).0), a));
                    assert(attr_trees::<StructFieldAttrsParser>(failed_metas(this), b));
                    assert(ident_trees@ == it_start + a + b);
                }
                let ghost e_mid2 = errs(*errors);
                let ghost mut c: Seq<ParseErrorKind> = Seq::empty();
                match res {
                    Err(e) => {
                        errors.push(e);
                        proof { c = error_kinds(e); }
                    },
                    Ok(()) => {},
                }
                proof {
                    let a = choose|a: Seq<ParseErrorKind>| e_mid == e_start + a && #[trigger] lists_errs(parsed_metas(pfs_v), a);
                    let b = choose|b: Seq<ParseErrorKind>|
                        e_mid2 == e_mid + b && #[trigger] attrs_errs::<StructFieldAttrsParser>(
                            StructFieldAttrsParser::new_spec(),
                            attr_metas(fa),
                            fap,
                            b,
                        );
                    assert(field_attrs_errs(failed_metas(this), b));
                    assert(lists_errs(step_lists(fields_steps(this).0), a));
                    assert(stop_errs(fields_outcome(this), c));
                    assert(fields_body_errs(this, a + b + c));
                    assert(errs(*errors) =~= e_start + (a + b + c));
                    body_e = a + b + c;
                }
                let to_default = match to_default_opt {
                    Some(d) => d,
                    None => if fs.len() == 1 && count_non_skip(&fs) == 1 {
                        StructToDefault::Transparent { span: None }
                    } else {
                        StructToDefault::Array
                    },
                };
                (fs, None, to_default)
            },
            Fields::Brace(brace) => {
                let input = ParsingTokenStream::new(brace.0.stream);
                proof {
                    assert(input.state() == StreamState { toks: brace.0.stream@, prev: None });
                }
                let ghost st_in = input.state();
                let (pfs, res, failed_attrs) = input.parse_into_named_fields();
                let ghost pfs_v = pfs@;
                let ghost fa = failed_attrs@;
                proof {
                    let steps = fields_steps(this).0;
                    assert forall|k: int| 0 <= k < pfs_v.len() implies (#[trigger] pfs_v[k]).name_colon is Some by {
                        assert(field_matches(pfs_v[k], steps[k], true));
                    }
                }
                let fs = build_fields(pfs, true, default_span, errors, ident_trees);
                let ghost it_mid = ident_trees@;
                let ghost e_mid = errs(*errors);
                proof {
                    lemma_fields_from_steps(fs@, pfs_v, fields_steps(this).0, true, default_span);
                    lemma_parsed_metas_steps(pfs_v, fields_steps(this).0, true);
                    lemma_failed_metas(fa, fields_failed_at(st_in, true));
                }
                let fap = read_field_attrs(failed_attrs, errors, ident_trees);
                proof {
                    let a = choose|a: Seq<IdentTree>| it_mid == it_start + a && #[trigger] lists_trees::<StructFieldAttrsParser>(parsed_metas(pfs_v), a);
                    let b = choose|b: Seq<IdentTree>| ident_trees@ == it_mid + b && #[trigger] attr_trees::<StructFieldAttrsParser>(attr_metas(fa), b);
                    assert(lists_trees::<StructFieldAttrsParser>(step_lists(fields_steps(this).0), a));
                    assert(attr_trees::<StructFieldAttrsParser>(failed_metas(this), b));
                    assert(ident_trees@ == it_start + a + b);
                }
                let ghost e_mid2 = errs(*errors);
                let ghost mut c: Seq<ParseErrorKind> = Seq::empty();
                match res {
                    Err(e) => {
                        errors.push(e);
                        proof { c = error_kinds(e); }
                    },
                    Ok(()) => {},
                }
                proof {
                    let a = choose|a: Seq<ParseErrorKind>| e_mid == e_start + a && #[trigger] lists_errs(parsed_metas(pfs_v), a);
                    let b = choose|b: Seq<ParseErrorKind>|
                        e_mid2 == e_mid + b && #[trigger] attrs_errs::<StructFieldAttrsParser>(
                            StructFieldAttrsParser::new_spec(),
                            attr_metas(fa),
                            fap,
                            b,
                        );
                    assert(field_attrs_errs(failed_metas(this), b));
                    assert(lists_errs(step_lists(fields_steps(this).0), a));
                    assert(stop_errs(fields_outcome(this), c));
                    assert(fields_body_errs(this, a + b + c));
                    assert(errs(*errors) =~= e_start + (a + b + c));
                    body_e = a + b + c;
                }
                let names = field_names(&fs);
                proof {
                    assert forall|k: int| 0 <= k < names@.len() implies ((#[trigger] fs@[k]).name is Named
                        && names@[k]@ == name_text(fs@[k].name)) by {
                        assert(field_from_step(fs@[k], fields_steps(this).0[k], k, true, default_span));
                    }
                }
                let to_default = match to_default_opt {
                    Some(d) => d,
                    None => StructToDefault::Object,
                };
                (fs, Some(names), to_default)
            },
            Fields::Unit => {
                proof {
                    let z = Seq::<ParseErrorKind>::empty();
                    assert(concat_errs(Seq::<Seq<ParseErrorKind>>::empty()) == z);
                    assert(step_lists(fields_steps(this).0) =~= Seq::<Seq<TokenTree>>::empty());
                    assert(lists_errs(step_lists(fields_steps(this).0), z));
                    assert(attrs_errs::<StructFieldAttrsParser>(
                        StructFieldAttrsParser::new_spec(),
                        failed_metas(this),
                        StructFieldAttrsParser::new_spec(),
                        z,
                    ));
                    assert(field_attrs_errs(failed_metas(this), z));
                    assert(stop_errs(fields_outcome(this), z));
                    assert(fields_body_errs(this, z + z + z));
                    body_e = z + z + z;
                    assert(errs(*errors) =~= e_start + body_e);
                }
                proof {
                    let e = Seq::<IdentTree>::empty();
                    assert(concat_trees(Seq::<Seq<IdentTree>>::empty()) == e);
                    assert(step_lists(fields_steps(this).0) =~= Seq::<Seq<TokenTree>>::empty());
                    assert(lists_trees::<StructFieldAttrsParser>(step_lists(fields_steps(this).0), e));
                    assert(attr_trees::<StructFieldAttrsParser>(failed_metas(this), e));
                    assert(ident_trees@ =~= it_start + e + e);
                }
                let to_default = match to_default_opt {
                    Some(d) => d,
                    None => StructToDefault::Unit,
                };
                (Vec::new(), None, to_default)
            },
        };
        assert(errs(*errors) == e_start + body_e && fields_body_errs(this, body_e));
        match transparent {
            Some(t) => {
                if count_non_skip(&fields) != 1 {
                    errors.push_custom(
                        "`transparent` only works with struct with exactly one non-skipped field",
                        Some(t.0),
                    );
                }
            },
            None => {},
        }
        assert(errs(*errors) =~= e_start + body_e + transparent_errs(transparent, fields@));
        ParsedFields { fields, fields_ident_to_index: names, to_untagged_unspecified: to_default }
    }
}

/// The tag of a struct: none (with a place for the tokens that stand in
/// for it), or the tokens given by `tag = ..` at the place of `tag`.
pub enum ContextOfStructTag {
    Untagged { dummy: Option<Vec<TokenTree>> },
    Tagged { span_tag: Span, ts: Vec<TokenTree>, accessed: bool },
}

impl ContextOfStructTag {
    /// The tag given by `tag = ..`, if any, not yet used.
    pub fn from_tag(v: Option<MetaPathSpanWith<EqValue<Vec<TokenTree>>>>) -> (r: Self)
        ensures
            match v {
                Some(m) => r matches ContextOfStructTag::Tagged { span_tag, ts, accessed }
                    && span_tag == m.0 && ts == m.1.value && !accessed,
                None => r == (ContextOfStructTag::Untagged { dummy: None }),
            },
    {
        match v {
            Some(m) => ContextOfStructTag::Tagged { span_tag: m.0, ts: m.1.value, accessed: false },
            None => ContextOfStructTag::Untagged { dummy: None },
        }
    }
}

/// The options that hold for the whole item: the path of the crate.
pub struct Options {
    pub crate_path: Vec<TokenTree>,
}

/// A struct as the code generator takes it: its name, arguments, fields
/// and what it turns into.
pub struct MakeContextOfStruct {
    pub name: Ident,
    pub rename: Option<MetaPathSpanWith<Rename>>,
    pub rename_fields: Option<MetaPathSpanWith<GroupParen>>,
    pub options: Options,
    pub fields: Vec<StructField>,
    pub fields_ident_to_index: Option<Vec<Vec<u8>>>,
    pub to_default: StructToDefault,
    pub to_custom: Option<CustomTokens>,
    pub to_tagged_kvs: Option<CustomTokens>,
    pub tag: ContextOfStructTag,
}

/// The fields as written in the body of a struct.
pub open spec fn fields_of(sd: StructData) -> Fields {
    match sd {
        StructData::Paren { paren, .. } => Fields::Paren(paren),
        StructData::Brace(g) => Fields::Brace(g),
        StructData::Semi(_) => Fields::Unit,
    }
}

/// The argument with its group unwrapped.
pub open spec fn item_to_arg(m: Option<MetaPathSpanWith<ItemTo>>) -> Option<MetaPathSpanWith<GroupParen>> {
    match m {
        Some(v) => Some(MetaPathSpanWith(v.0, v.1.0)),
        None => None,
    }
}

/// The argument with its group unwrapped.
pub open spec fn tagged_kvs_arg(m: Option<MetaPathSpanWith<StructToTaggedKvs>>) -> Option<MetaPathSpanWith<GroupParen>> {
    match m {
        Some(v) => Some(MetaPathSpanWith(v.0, v.1.0)),
        None => None,
    }
}

/// The argument with its group unwrapped.
pub open spec fn to_untagged_arg(m: Option<MetaPathSpanWith<EnumToUntagged>>) -> Option<MetaPathSpanWith<GroupParen>> {
    match m {
        Some(v) => Some(MetaPathSpanWith(v.0, v.1.0)),
        None => None,
    }
}

/// The fields as written in the body of a struct.
fn fields_from_data(sd: StructData) -> (r: Fields)
    ensures
        r == fields_of(sd),
{
    match sd {
        StructData::Paren { paren, semi: _ } => Fields::Paren(paren),
        StructData::Brace(g) => Fields::Brace(g),
        StructData::Semi(_) => Fields::Unit,
    }
}

impl StructAttrs {
    /// The struct `name` with body `struct_data` and these arguments: its
    /// fields read as `Fields::parse` reads them at the place of the name,
    /// with the names their arguments give added to `field_ident_trees`.
    pub fn parse(self, name: Ident, struct_data: StructData, errors: &mut ErrorCollector, field_ident_trees: &mut Vec<IdentTree>, options: Options) -> (r: MakeContextOfStruct)
        ensures
            struct_made(self, name, struct_data, options, r),
            (self.transparent is Some && non_skip_count(r.fields@) != 1) ==> errs(*final(errors)).len()
                > 0 && errs(*final(errors)).last() == transparent_error(self.transparent.unwrap()),
            final(field_ident_trees)@.len() >= old(field_ident_trees)@.len(),
            final(field_ident_trees)@.subrange(0, old(field_ident_trees)@.len() as int) == old(
                field_ident_trees,
            )@,
            exists|body: Seq<ParseErrorKind>|
                errs(*final(errors)) == errs(*old(errors)) + body + transparent_errs(self.transparent, r.fields@)
                    && #[trigger] fields_body_errs(fields_of(struct_data), body),
            exists|a: Seq<IdentTree>, b: Seq<IdentTree>|
                #![trigger lists_trees::<StructFieldAttrsParser>(step_lists(fields_steps(fields_of(struct_data)).0), a), attr_trees::<StructFieldAttrsParser>(failed_metas(fields_of(struct_data)), b)]
                final(field_ident_trees)@ == old(field_ident_trees)@ + a + b && lists_trees::<StructFieldAttrsParser>(
                    step_lists(fields_steps(fields_of(struct_data)).0),
                    a,
                ) && attr_trees::<StructFieldAttrsParser>(failed_metas(fields_of(struct_data)), b),
    {
        let StructAttrs { to, to_tagged_kvs, transparent, rename, tag, rename_fields } = self;
        let span = name.span;
        let fields = fields_from_data(struct_data);
        let parsed = fields.parse(span, transparent, errors, field_ident_trees);
        let to_custom = custom_of(match to { Some(v) => Some(MetaPathSpanWith(v.0, v.1.0)), None => None });
        let to_tagged = custom_of(
            match to_tagged_kvs { Some(v) => Some(MetaPathSpanWith(v.0, v.1.0)), None => None },
        );
        MakeContextOfStruct {
            name,
            rename,
            rename_fields,
            options,
            fields: parsed.fields,
            fields_ident_to_index: parsed.fields_ident_to_index,
            to_default: parsed.to_untagged_unspecified,
            to_custom,
            to_tagged_kvs: to_tagged,
            tag: ContextOfStructTag::from_tag(tag),
        }
    }
}

/// A variant as the code generator takes it: its name, discriminant,
/// shape, arguments and fields.
pub struct MakeEnumVariant {
    pub name: Ident,
    pub discriminant: Option<EqValue<Vec<TokenTree>>>,
    pub variant_type: VariantType,
    pub rename: Option<MetaPathSpanWith<Rename>>,
    pub rename_fields: Option<MetaPathSpanWith<Rename>>,
    pub specified_tag_mode: Option<SpecifiedTagMode>,
    pub tag: Option<MetaPathSpanWith<EqValue<Vec<TokenTree>>>>,
    pub content: Option<MetaPathSpanWith<EqValue<Vec<TokenTree>>>>,
    pub fields: Vec<StructField>,
    pub fields_ident_to_index: Option<Vec<Vec<u8>>>,
    pub to: Option<CustomTokens>,
    pub to_untagged_unspecified: StructToDefault,
    pub to_untagged: Option<CustomTokens>,
    pub to_tagged_kvs: Option<CustomTokens>,
}

/// An enum as the code generator takes it.
pub struct MakeContextOfEnum {
    pub name: Ident,
    pub rename: Option<MetaPathSpanWith<Rename>>,
    pub rename_variants: Option<MetaPathSpanWith<GroupParen>>,
    pub rename_fields: Option<MetaPathSpanWith<GroupParen>>,
    pub specified_tag_mode: Option<SpecifiedTagMode>,
    pub tag: Option<MetaPathSpanWith<EqValue<Vec<TokenTree>>>>,
    pub content: Option<MetaPathSpanWith<EqValue<Vec<TokenTree>>>>,
    pub to: Option<CustomTokensNotCalculating>,
    pub to_untagged: Option<CustomTokensNotCalculating>,
    pub to_tagged_kvs: Option<CustomTokensNotCalculating>,
    pub variants: Vec<MakeEnumVariant>,
    pub options: Options,
}

/// The argument a variant gives, else the one the enum gives.
pub open spec fn inherited<T>(own: Option<T>, from_enum: Option<T>) -> Option<T> {
    match own {
        Some(a) => Some(a),
        None => from_enum,
    }
}

/// `r` reads the argument `given` as `@tag` reads it: its tokens at its
/// place, or untagged at `default_span` when it is not given.
pub open spec fn prop_from(
    r: ContextPropTagMut,
    given: Option<MetaPathSpanWith<EqValue<Vec<TokenTree>>>>,
    default_span: Span,
) -> bool {
    match given {
        Some(m) => r matches ContextPropTagMut::Tagged { span_tag, ts } && span_tag == m.0 && deep_seq(
            ts@,
        ) == deep_seq(m.1.value@),
        None => r == ContextPropTagMut::Untagged { default_span },
    }
}

fn prop_from_args(
    own: &Option<MetaPathSpanWith<EqValue<Vec<TokenTree>>>>,
    from_enum: &Option<MetaPathSpanWith<EqValue<Vec<TokenTree>>>>,
    default_span: Span,
) -> (r: ContextPropTagMut)
    ensures
        prop_from(r, inherited(*own, *from_enum), default_span),
{
    let given = match own {
        Some(a) => Some(a),
        None => from_enum.as_ref(),
    };
    match given {
        Some(m) => ContextPropTagMut::Tagged {
            span_tag: m.0,
            ts: crate::syn_generic::tokens::clone_tokens(&m.1.value),
        },
        None => ContextPropTagMut::Untagged { default_span },
    }
}

/// Where the JSON form of a variant comes from.
#[derive(Clone, Copy, PartialEq, Eq, Structural)]
pub enum VariantToPlan {
    /// The variant's own `to(..)`.
    VariantTo,
    /// The enum's `to(..)`, expanded for the variant.
    EnumTo,
    /// No `to(..)` is given: the tag mode decides.
    ByTagMode(SpecifiedTagMode),
}

/// The tag-mode flags read into a variant's arguments.
pub open spec fn variant_tag_flags(p: EnumVariantAttrsParser) -> TagModeAttrs {
    TagModeAttrs {
        untagged: p.untagged,
        tag_only: p.tag_only,
        externally_tagged: p.externally_tagged,
        internally_tagged: p.internally_tagged,
        adjacently_tagged: p.adjacently_tagged,
    }
}

/// `v` has the arguments read into `p`, with fields `f` as written: its
/// `rename`, `tag` and `content`; `rename_fields` as a rename function; the
/// first tag mode given; the tokens of `to`, `to_untagged` and
/// `to_tagged_kvs`; and what it turns into when nothing else is given,
/// with `transparent`.
pub open spec fn variant_made(p: EnumVariantAttrsParser, v: MakeEnumVariant, f: Fields) -> bool {
    &&& v.rename == p.rename
    &&& v.rename_fields == match p.rename_fields {
        Some(m) => Some(MetaPathSpanWith(m.0, Rename::Paren(m.1))),
        None => None,
    }
    &&& v.specified_tag_mode == first_given(tag_mode_flags(variant_tag_flags(p)), 0)
    &&& v.tag == p.tag
    &&& v.content == p.content
    &&& custom_is(v.to, paren_arg(item_to_arg(p.to)))
    &&& custom_is(v.to_untagged, paren_arg(to_untagged_arg(p.to_untagged)))
    &&& custom_is(v.to_tagged_kvs, paren_arg(tagged_kvs_arg(p.to_tagged_kvs)))
    &&& v.to_untagged_unspecified == default_to(f, p.transparent, v.fields@)
}

/// The fields of the variant that `step` read, as written.
pub open spec fn variant_fields(step: FieldStep) -> Fields {
    match step {
        FieldStep::Read { st_c, .. } => if after_body(st_c) == st_c {
            Fields::Unit
        } else {
            match st_c.toks[0] {
                TokenTree::Group(g) => if g.delimiter == Delimiter::Parenthesis {
                    Fields::Paren(GroupParen(g))
                } else {
                    Fields::Brace(GroupBrace(g))
                },
                _ => Fields::Unit,
            }
        },
        FieldStep::Failed(_, _) => Fields::Unit,
    }
}

/// The shape of a variant with these fields.
pub open spec fn variant_type_of(f: Fields) -> VariantType {
    match f {
        Fields::Unit => VariantType::Unit,
        Fields::Paren(_) => VariantType::Array,
        Fields::Brace(_) => VariantType::Object,
    }
}

/// `v` is the variant that `step` read: its name, the arguments its
/// attributes give, its shape, discriminant and fields, read at the place
/// of its name.
pub open spec fn variant_from_step(v: MakeEnumVariant, step: FieldStep) -> bool {
    match step {
        FieldStep::Read { st, st_v, st_c, .. } => {
            let st_b = after_body(st_c);
            &&& TokenTree::Ident(v.name) == st_v.toks[0]
            &&& exists|p: EnumVariantAttrsParser|
                #[trigger] variant_made(p, v, variant_fields(step)) && attrs_read::<EnumVariantAttrsParser>(
                    EnumVariantAttrsParser::new_spec(),
                    step_metas(st),
                    p,
                )
            &&& v.variant_type == variant_type_of(variant_fields(step))
            &&& fields_read(variant_fields(step), v.name.span, v.fields@, v.fields_ident_to_index)
            &&& if st_b.toks.len() > 0 && is_punct(st_b.toks[0], '=') {
                let st1 = take_n(st_b, 1);
                v.discriminant matches Some(d) && TokenTree::Punct(d.eq.0) == st_b.toks[0] && d.value@
                    == st1.toks.subrange(0, comma_scan(st1.toks, 0))
            } else {
                v.discriminant is None
            }
        },
        FieldStep::Failed(_, _) => false,
    }
}

/// The fields of a variant body.
pub open spec fn body_fields(b: EnumVariantBody) -> Fields {
    match b {
        EnumVariantBody::Unit => Fields::Unit,
        EnumVariantBody::Paren(g) => Fields::Paren(g),
        EnumVariantBody::Brace(g) => Fields::Brace(g),
    }
}

/// Reads the arguments of the outer attributes of a variant; the names
/// they give are added to `ident_trees`.
fn read_variant_attrs(attrs: Vec<OuterAttr>, errors: &mut ErrorCollector, ident_trees: &mut Vec<IdentTree>) -> (r: EnumVariantAttrsParser)
    ensures
        attrs_read::<EnumVariantAttrsParser>(EnumVariantAttrsParser::new_spec(), attr_metas(attrs@), r),
        exists|added: Seq<IdentTree>|
            final(ident_trees)@ == old(ident_trees)@ + added && #[trigger] attr_trees::<EnumVariantAttrsParser>(
                attr_metas(attrs@),
                added,
            ),
        exists|es: Seq<ParseErrorKind>|
            errs(*final(errors)) == errs(*old(errors)) + es && #[trigger] attrs_errs::<EnumVariantAttrsParser>(
                EnumVariantAttrsParser::new_spec(),
                attr_metas(attrs@),
                r,
                es,
            ),
{
    let mut p = EnumVariantAttrsParser::new();
    read_attrs_into(&mut p, attrs, errors, ident_trees);
    p
}

/// `field`
pub open spec fn kw_field() -> Seq<u8> {
    seq![102u8, 105u8, 101u8, 108u8, 100u8]
}

/// The variant made from what was read: its arguments and fields. The
/// names its arguments give are added to `variant_ident_trees`, then the
/// name `field` at the place of the macro call with the names that the
/// arguments of its fields give.
/// `trees` are the names one variant adds: those of its attributes, given
/// by the tokens after their `#`s, then `field` holding the names of its
/// fields' attributes.
pub open spec fn variant_trees(metas: Seq<TokenTree>, fields: Fields, trees: Seq<IdentTree>) -> bool {
    &&& trees.len() > 0
    &&& attr_trees::<EnumVariantAttrsParser>(metas, trees.drop_last())
    &&& trees.last().ident.name@ == kw_field()
    &&& trees.last().mod_name@ == ""@
    &&& exists|a: Seq<IdentTree>, b: Seq<IdentTree>|
        #![trigger lists_trees::<StructFieldAttrsParser>(step_lists(fields_steps(fields).0), a), attr_trees::<StructFieldAttrsParser>(failed_metas(fields), b)]
        trees.last().children@ == a + b && lists_trees::<StructFieldAttrsParser>(step_lists(fields_steps(fields).0), a)
            && attr_trees::<StructFieldAttrsParser>(failed_metas(fields), b)
}

/// The names that the variant read in `step` adds.
pub open spec fn step_variant_trees(step: FieldStep, trees: Seq<IdentTree>) -> bool {
    match step {
        FieldStep::Read { st, .. } => variant_trees(step_metas(st), variant_fields(step), trees),
        FieldStep::Failed(_, _) => trees.len() == 0,
    }
}

/// `trees` are the names that the variants read in `steps` add, one after
/// the other.
pub open spec fn variants_trees(steps: Seq<FieldStep>, trees: Seq<IdentTree>) -> bool {
    exists|parts: Seq<Seq<IdentTree>>|
        #![trigger concat_trees(parts)]
        parts.len() == steps.len() && trees == concat_trees(parts) && forall|i: int|
            0 <= i < steps.len() ==> #[trigger] step_variant_trees(steps[i], parts[i])
}

proof fn lemma_variants_trees_push(steps: Seq<FieldStep>, a: Seq<IdentTree>, b: Seq<IdentTree>)
    requires
        steps.len() > 0,
        variants_trees(steps.drop_last(), a),
        step_variant_trees(steps.last(), b),
    ensures
        variants_trees(steps, a + b),
{
    let parts = choose|parts: Seq<Seq<IdentTree>>|
        #![trigger concat_trees(parts)]
        parts.len() == steps.drop_last().len() && a == concat_trees(parts) && forall|i: int|
            0 <= i < steps.drop_last().len() ==> #[trigger] step_variant_trees(steps.drop_last()[i], parts[i]);
    let p2 = parts.push(b);
    assert(p2.drop_last() =~= parts);
    assert(concat_trees(p2) == a + b);
    assert forall|i: int| 0 <= i < steps.len() implies #[trigger] step_variant_trees(steps[i], p2[i]) by {
        if i < steps.len() - 1 {
            assert(steps.drop_last()[i] == steps[i]);
            assert(step_variant_trees(steps.drop_last()[i], parts[i]));
        }
    }
}

/// The attributes read before a variant that could not be read whole.
pub open spec fn variant_failed_metas(st: StreamState) -> Seq<TokenTree> {
    match crate::syn_generic::variants_failed_at(st) {
        Some(s) => step_metas(s),
        None => Seq::empty(),
    }
}

/// `es` are the errors of reading a variant: those of its attributes
/// (given by the tokens after their `#`s), then those of its fields (the
/// fields read being `fs`), then more than one tag mode given.
pub open spec fn variant_errs(metas: Seq<TokenTree>, fields: Fields, fs: Seq<StructField>, es: Seq<ParseErrorKind>) -> bool {
    exists|p: EnumVariantAttrsParser, a: Seq<ParseErrorKind>, body: Seq<ParseErrorKind>|
        #![trigger attrs_errs::<EnumVariantAttrsParser>(EnumVariantAttrsParser::new_spec(), metas, p, a), fields_body_errs(fields, body)]
        es == a + body + transparent_errs(p.transparent, fs) + extra_mode_errors(tag_mode_flags(variant_tag_flags(p)), 0)
            && attrs_errs::<EnumVariantAttrsParser>(EnumVariantAttrsParser::new_spec(), metas, p, a)
            && fields_body_errs(fields, body)
}

fn make_variant(pv: ParsedVariant, errors: &mut ErrorCollector, variant_ident_trees: &mut Vec<IdentTree>) -> (r: MakeEnumVariant)
    ensures
        r.name == pv.variant.name,
        r.discriminant == pv.variant.discriminant,
        r.variant_type == variant_type_of(body_fields(pv.variant.body)),
        fields_read(body_fields(pv.variant.body), r.name.span, r.fields@, r.fields_ident_to_index),
        exists|p: EnumVariantAttrsParser|
            #[trigger] variant_made(p, r, body_fields(pv.variant.body)) && attrs_read::<EnumVariantAttrsParser>(
                EnumVariantAttrsParser::new_spec(),
                attr_metas(pv.attrs@),
                p,
            ),
        exists|added: Seq<IdentTree>|
            final(variant_ident_trees)@ == old(variant_ident_trees)@ + added && #[trigger] variant_trees(
                attr_metas(pv.attrs@),
                body_fields(pv.variant.body),
                added,
            ),
        exists|es: Seq<ParseErrorKind>|
            errs(*final(errors)) == errs(*old(errors)) + es && #[trigger] variant_errs(
                attr_metas(pv.attrs@),
                body_fields(pv.variant.body),
                r.fields@,
                es,
            ),
{
    let ParsedVariant { attrs, variant, comma: _ } = pv;
    let ghost it0 = variant_ident_trees@;
    let ghost e0 = errs(*errors);
    let ghost am = attr_metas(attrs@);
    let p = read_variant_attrs(attrs, errors, variant_ident_trees);
    let ghost e1 = errs(*errors);
    let ghost it_attrs = variant_ident_trees@;
    let ghost pg = p;
    let EnumVariantAttrsParser {
        to,
        to_untagged,
        to_tagged_kvs,
        transparent,
        rename,
        tag,
        content,
        untagged,
        tag_only,
        externally_tagged,
        internally_tagged,
        adjacently_tagged,
        rename_fields,
    } = p;
    let EnumVariant { vis: _, name, body, discriminant } = variant;
    let (variant_type, fields) = match body {
        EnumVariantBody::Unit => (VariantType::Unit, Fields::Unit),
        EnumVariantBody::Paren(g) => (VariantType::Array, Fields::Paren(g)),
        EnumVariantBody::Brace(g) => (VariantType::Object, Fields::Brace(g)),
    };
    let mut field_ident_trees: Vec<IdentTree> = Vec::new();
    let ghost fv = fields;
    assert(fv == body_fields(pv.variant.body));
    let parsed = fields.parse(name.span, transparent, errors, &mut field_ident_trees);
    let ghost e2 = errs(*errors);
    let ghost ft = field_ident_trees@;
    let ghost it1 = variant_ident_trees@;
    variant_ident_trees.push(
        IdentTree {
            ident: Ident {
                name: crate::syn_generic::tokens::bytes_to_vec(&[102u8, 105u8, 101u8, 108u8, 100u8]),
                span: Span::call_site(),
            },
            mod_name: "",
            children: field_ident_trees,
        },
    );
    proof {
        let va = choose|va: Seq<IdentTree>| it_attrs == it0 + va && #[trigger] attr_trees::<EnumVariantAttrsParser>(am, va);
        let added = variant_ident_trees@.subrange(it0.len() as int, variant_ident_trees@.len() as int);
        assert(added.drop_last() =~= va);
        assert(added.last().children@ == ft);
        let (fa, fb) = choose|fa: Seq<IdentTree>, fb: Seq<IdentTree>|
            #![trigger lists_trees::<StructFieldAttrsParser>(step_lists(fields_steps(fv).0), fa), attr_trees::<StructFieldAttrsParser>(failed_metas(fv), fb)]
            ft == Seq::<IdentTree>::empty() + fa + fb && lists_trees::<StructFieldAttrsParser>(step_lists(fields_steps(fv).0), fa)
                && attr_trees::<StructFieldAttrsParser>(failed_metas(fv), fb);
        assert(added.last().children@ == fa + fb);
        assert(variant_trees(am, fv, added));
        assert(variant_ident_trees@ =~= it0 + added);
    }
    let tm = TagModeAttrs { untagged, tag_only, externally_tagged, internally_tagged, adjacently_tagged };
    assert(tm == variant_tag_flags(pg));
    let specified_tag_mode = tm.into_tag_mode(errors);
    proof {
        let a = choose|a: Seq<ParseErrorKind>|
            e1 == e0 + a && #[trigger] attrs_errs::<EnumVariantAttrsParser>(EnumVariantAttrsParser::new_spec(), am, pg, a);
        let body = choose|body: Seq<ParseErrorKind>|
            e2 == e1 + body + transparent_errs(pg.transparent, parsed.fields@) && #[trigger] fields_body_errs(fv, body);
        let es = a + body + transparent_errs(pg.transparent, parsed.fields@) + extra_mode_errors(
            tag_mode_flags(variant_tag_flags(pg)),
            0,
        );
        assert(variant_errs(am, fv, parsed.fields@, es));
        assert(errs(*errors) =~= e0 + es);
    }
    let r = MakeEnumVariant {
        name,
        discriminant,
        variant_type,
        rename,
        rename_fields: match rename_fields {
            Some(m) => Some(MetaPathSpanWith(m.0, Rename::Paren(m.1))),
            None => None,
        },
        specified_tag_mode,
        tag,
        content,
        fields: parsed.fields,
        fields_ident_to_index: parsed.fields_ident_to_index,
        to: custom_of(match to { Some(v) => Some(MetaPathSpanWith(v.0, v.1.0)), None => None }),
        to_untagged_unspecified: parsed.to_untagged_unspecified,
        to_untagged: custom_of(
            match to_untagged { Some(v) => Some(MetaPathSpanWith(v.0, v.1.0)), None => None },
        ),
        to_tagged_kvs: custom_of(
            match to_tagged_kvs { Some(v) => Some(MetaPathSpanWith(v.0, v.1.0)), None => None },
        ),
    };
    assert(variant_made(pg, r, body_fields(pv.variant.body)));
    r
}

/// `es` are the errors of the variant read in `step`, made into `v`.
pub open spec fn step_variant_errs(step: FieldStep, v: MakeEnumVariant, es: Seq<ParseErrorKind>) -> bool {
    match step {
        FieldStep::Read { st, .. } => variant_errs(step_metas(st), variant_fields(step), v.fields@, es),
        FieldStep::Failed(_, _) => false,
    }
}

/// `es` are the errors of the variants read in `steps`, made into `vs`,
/// one variant after the other.
pub open spec fn variants_errs(steps: Seq<FieldStep>, vs: Seq<MakeEnumVariant>, es: Seq<ParseErrorKind>) -> bool {
    exists|parts: Seq<Seq<ParseErrorKind>>|
        #![trigger concat_errs(parts)]
        parts.len() == steps.len() && es == concat_errs(parts) && forall|i: int|
            0 <= i < steps.len() ==> #[trigger] step_variant_errs(steps[i], vs[i], parts[i])
}

/// `es` are the errors of a variant's outer attributes, read from no
/// arguments.
pub open spec fn variant_attrs_errs(metas: Seq<TokenTree>, es: Seq<ParseErrorKind>) -> bool {
    exists|p: EnumVariantAttrsParser|
        #[trigger] attrs_errs::<EnumVariantAttrsParser>(EnumVariantAttrsParser::new_spec(), metas, p, es)
}

/// `es` are the errors of reading the variants of an enum from `st`: those
/// of each variant read, then those of the attributes of a variant that
/// could not be read whole, then the error that stopped the reading.
pub open spec fn enum_body_errs(st: StreamState, vs: Seq<MakeEnumVariant>, es: Seq<ParseErrorKind>) -> bool {
    exists|a: Seq<ParseErrorKind>, b: Seq<ParseErrorKind>, c: Seq<ParseErrorKind>|
        #![trigger variants_errs(variants_spec(st).0, vs, a), variant_attrs_errs(variant_failed_metas(st), b), stop_errs(variants_spec(st).1, c)]
        es == a + b + c && variants_errs(variants_spec(st).0, vs, a) && variant_attrs_errs(variant_failed_metas(st), b)
            && stop_errs(variants_spec(st).1, c)
}

proof fn lemma_variants_errs_push(steps: Seq<FieldStep>, vs: Seq<MakeEnumVariant>, a: Seq<ParseErrorKind>, b: Seq<ParseErrorKind>)
    requires
        steps.len() > 0,
        vs.len() == steps.len(),
        variants_errs(steps.drop_last(), vs.drop_last(), a),
        step_variant_errs(steps.last(), vs.last(), b),
    ensures
        variants_errs(steps, vs, a + b),
{
    let parts = choose|parts: Seq<Seq<ParseErrorKind>>|
        #![trigger concat_errs(parts)]
        parts.len() == steps.drop_last().len() && a == concat_errs(parts) && forall|i: int|
            0 <= i < steps.drop_last().len() ==> #[trigger] step_variant_errs(steps.drop_last()[i], vs.drop_last()[i], parts[i]);
    let p2 = parts.push(b);
    assert(p2.drop_last() =~= parts);
    assert(concat_errs(p2) == a + b);
    assert forall|i: int| 0 <= i < steps.len() implies #[trigger] step_variant_errs(steps[i], vs[i], p2[i]) by {
        if i < steps.len() - 1 {
            assert(steps.drop_last()[i] == steps[i]);
            assert(vs.drop_last()[i] == vs[i]);
            assert(step_variant_errs(steps.drop_last()[i], vs.drop_last()[i], parts[i]));
        }
    }
}

/// Reads the variants of an enum in `{..}` with their arguments. The
/// names the arguments give go to `variant_ident_trees`; an error that
/// stops the reading is reported after those of the variants read.
pub fn parse_enum_variants(enum_brace: GroupBrace, errors: &mut ErrorCollector, variant_ident_trees: &mut Vec<IdentTree>) -> (r: Vec<MakeEnumVariant>)
    ensures
        ({
            let steps = variants_spec(StreamState { toks: enum_brace.0.stream@, prev: None }).0;
            &&& r@.len() == steps.len()
            &&& forall|k: int| 0 <= k < r@.len() ==> variant_from_step(#[trigger] r@[k], steps[k])
        }),
        final(variant_ident_trees)@.len() >= old(variant_ident_trees)@.len(),
        final(variant_ident_trees)@.subrange(0, old(variant_ident_trees)@.len() as int) == old(
            variant_ident_trees,
        )@,
        exists|a: Seq<IdentTree>, b: Seq<IdentTree>|
            #![trigger variants_trees(variants_spec(StreamState { toks: enum_brace.0.stream@, prev: None }).0, a), attr_trees::<EnumVariantAttrsParser>(variant_failed_metas(StreamState { toks: enum_brace.0.stream@, prev: None }), b)]
            final(variant_ident_trees)@ == old(variant_ident_trees)@ + a + b && variants_trees(
                variants_spec(StreamState { toks: enum_brace.0.stream@, prev: None }).0,
                a,
            ) && attr_trees::<EnumVariantAttrsParser>(
                variant_failed_metas(StreamState { toks: enum_brace.0.stream@, prev: None }),
                b,
            ),
        exists|es: Seq<ParseErrorKind>|
            errs(*final(errors)) == errs(*old(errors)) + es && #[trigger] enum_body_errs(
                StreamState { toks: enum_brace.0.stream@, prev: None },
                r@,
                es,
            ),
{
    let ghost e_start = errs(*errors);
    let ghost mut acc_e: Seq<ParseErrorKind> = Seq::empty();
    let input = ParsingTokenStream::new(enum_brace.0.stream);
    let ghost st0 = input.state();
    let ghost steps = variants_spec(input.state()).0;
    let (pvs, res, failed_attrs) = input.parse_into_variants();
    let ghost all = pvs@;
    let ghost fa = failed_attrs@;
    let ghost it0 = variant_ident_trees@;
    let ghost mut acc: Seq<IdentTree> = Seq::empty();
    proof {
        assert(concat_trees(Seq::<Seq<IdentTree>>::empty()) == acc);
        assert(variants_trees(steps.subrange(0, 0), acc));
        assert(variant_ident_trees@ =~= it0 + acc);
        assert(concat_errs(Seq::<Seq<ParseErrorKind>>::empty()) == acc_e);
        assert(variants_errs(steps.subrange(0, 0), Seq::<MakeEnumVariant>::empty(), acc_e));
        assert(errs(*errors) =~= e_start + acc_e);
    }
    let mut rest = pvs;
    let mut out: Vec<MakeEnumVariant> = Vec::new();
    let total = rest.len();
    while rest.len() > 0
        invariant
            total == all.len(),
            all.len() == steps.len(),
            forall|j: int| 0 <= j < all.len() ==> variant_matches(#[trigger] all[j], steps[j]),
            out@.len() + rest@.len() == all.len(),
            rest@ == all.subrange(out@.len() as int, all.len() as int),
            forall|j: int| 0 <= j < out@.len() ==> variant_from_step(#[trigger] out@[j], steps[j]),
            variant_ident_trees@ == it0 + acc,
            variants_trees(steps.subrange(0, out@.len() as int), acc),
            errs(*errors) == e_start + acc_e,
            variants_errs(steps.subrange(0, out@.len() as int), out@, acc_e),
        decreases rest@.len(),
    {
        let k = out.len();
        let ghost ek = errs(*errors);
        let pv = rest.remove(0);
        assert(pv == all[k as int]);
        assert(variant_matches(pv, steps[k as int]));
        let ghost it1 = variant_ident_trees@;
        let ghost pvg = pv;
        assert(body_fields(pvg.variant.body) == variant_fields(steps[k as int]));
        proof {
            match steps[k as int] {
                FieldStep::Read { st, .. } => {
                    lemma_attr_metas(pvg.attrs@, st);
                },
                FieldStep::Failed(_, _) => {},
            }
        }
        let v = make_variant(pv, errors, variant_ident_trees);
        proof {
            let b = choose|b: Seq<IdentTree>|
                variant_ident_trees@ == it1 + b && #[trigger] variant_trees(
                    attr_metas(pvg.attrs@),
                    body_fields(pvg.variant.body),
                    b,
                );
            match steps[k as int] {
                FieldStep::Read { st, .. } => {
                    assert(step_variant_trees(steps[k as int], b));
                },
                FieldStep::Failed(_, _) => {
                    assert(false);
                },
            }
            let pre = steps.subrange(0, k + 1);
            assert(pre.drop_last() =~= steps.subrange(0, k as int));
            assert(pre.last() == steps[k as int]);
            lemma_variants_trees_push(pre, acc, b);
            assert(variant_ident_trees@ =~= it0 + (acc + b));
            acc = acc + b;
        }
        let ghost out0 = out@;
        out.push(v);
        proof {
            let be = choose|be: Seq<ParseErrorKind>|
                errs(*errors) == ek + be && #[trigger] variant_errs(
                    attr_metas(pvg.attrs@),
                    body_fields(pvg.variant.body),
                    v.fields@,
                    be,
                );
            let pre = steps.subrange(0, k + 1);
            assert(pre.drop_last() =~= steps.subrange(0, k as int));
            assert(pre.last() == steps[k as int]);
            assert(out@.drop_last() =~= out0);
            assert(out@.last() == v);
            match steps[k as int] {
                FieldStep::Read { st, .. } => {
                    assert(step_variant_errs(steps[k as int], v, be));
                },
                FieldStep::Failed(_, _) => {
                    assert(false);
                },
            }
            lemma_variants_errs_push(pre, out@, acc_e, be);
            assert(errs(*errors) =~= e_start + (acc_e + be));
            acc_e = acc_e + be;
        }
        assert(rest@ =~= all.subrange(out@.len() as int, all.len() as int));
    }
    let ghost it2 = variant_ident_trees@;
    proof {
        lemma_failed_metas(fa, crate::syn_generic::variants_failed_at(st0));
        assert(steps.subrange(0, out@.len() as int) =~= steps);
    }
    let ghost ef = errs(*errors);
    let fvp = read_variant_attrs(failed_attrs, errors, variant_ident_trees);
    let ghost ef2 = errs(*errors);
    assert(variant_ident_trees@.subrange(0, it0.len() as int) =~= it2.subrange(0, it0.len() as int));
    proof {
        let b = choose|b: Seq<IdentTree>|
            variant_ident_trees@ == it2 + b && #[trigger] attr_trees::<EnumVariantAttrsParser>(attr_metas(fa), b);
        assert(attr_trees::<EnumVariantAttrsParser>(variant_failed_metas(st0), b));
        assert(variants_trees(steps, acc));
        assert(variant_ident_trees@ == it0 + acc + b);
    }
    let ghost mut c: Seq<ParseErrorKind> = Seq::empty();
    match res {
        Err(e) => {
            errors.push(e);
            proof { c = error_kinds(e); }
        },
        Ok(()) => {},
    }
    proof {
        let b = choose|b: Seq<ParseErrorKind>|
            ef2 == ef + b && #[trigger] attrs_errs::<EnumVariantAttrsParser>(
                EnumVariantAttrsParser::new_spec(),
                attr_metas(fa),
                fvp,
                b,
            );
        assert(variant_attrs_errs(variant_failed_metas(st0), b));
        assert(variants_errs(steps, out@, acc_e));
        assert(stop_errs(variants_spec(st0).1, c));
        assert(enum_body_errs(st0, out@, acc_e + b + c));
        assert(errs(*errors) =~= e_start + (acc_e + b + c));
    }
    out
}

/// The tokens inside the group of an argument, at the argument's name.
fn custom_nc_of(m: Option<MetaPathSpanWith<GroupParen>>) -> (r: Option<CustomTokensNotCalculating>)
    ensures
        custom_nc_is(r, paren_arg(m)),
{
    match m {
        Some(v) => Some(CustomTokensNotCalculating::from_meta(v)),
        None => None,
    }
}

/// `c` holds the place and the tokens in `m`, or nothing when `m` is
/// nothing.
pub open spec fn custom_nc_is(c: Option<CustomTokensNotCalculating>, m: Option<(Span, Seq<TokenTree>)>) -> bool {
    match (c, m) {
        (Some(ct), Some((sp, ts))) => ct.span == sp && ct.tokens@ == ts,
        (None, None) => true,
        _ => false,
    }
}

/// The tag-mode flags of an enum's arguments.
pub open spec fn enum_tag_flags(a: EnumAttrs) -> TagModeAttrs {
    TagModeAttrs {
        untagged: a.untagged,
        tag_only: a.tag_only,
        externally_tagged: a.externally_tagged,
        internally_tagged: a.internally_tagged,
        adjacently_tagged: a.adjacently_tagged,
    }
}

impl EnumAttrs {
    /// The enum `name` with variants in `enum_brace` and these arguments:
    /// its tag mode is that of the first tag-mode flag given, and its
    /// variants are read as `parse_enum_variants` reads them.
    pub fn parse(self, name: Ident, enum_brace: GroupBrace, errors: &mut ErrorCollector, variant_ident_trees: &mut Vec<IdentTree>, options: Options) -> (r: MakeContextOfEnum)
        ensures
            enum_made(self, name, enum_brace, options, r),
            exists|es: Seq<ParseErrorKind>|
                errs(*final(errors)) == errs(*old(errors)) + extra_mode_errors(tag_mode_flags(enum_tag_flags(self)), 0)
                    + es && #[trigger] enum_body_errs(
                    StreamState { toks: enum_brace.0.stream@, prev: None },
                    r.variants@,
                    es,
                ),
            final(variant_ident_trees)@.len() >= old(variant_ident_trees)@.len(),
            final(variant_ident_trees)@.subrange(0, old(variant_ident_trees)@.len() as int) == old(
                variant_ident_trees,
            )@,
            exists|a: Seq<IdentTree>, b: Seq<IdentTree>|
                #![trigger variants_trees(variants_spec(StreamState { toks: enum_brace.0.stream@, prev: None }).0, a), attr_trees::<EnumVariantAttrsParser>(variant_failed_metas(StreamState { toks: enum_brace.0.stream@, prev: None }), b)]
                final(variant_ident_trees)@ == old(variant_ident_trees)@ + a + b && variants_trees(
                    variants_spec(StreamState { toks: enum_brace.0.stream@, prev: None }).0,
                    a,
                ) && attr_trees::<EnumVariantAttrsParser>(
                    variant_failed_metas(StreamState { toks: enum_brace.0.stream@, prev: None }),
                    b,
                ),
    {
        let ghost flags = enum_tag_flags(self);
        let EnumAttrs {
            to,
            to_untagged,
            to_tagged_kvs,
            rename,
            tag,
            content,
            untagged,
            tag_only,
            externally_tagged,
            internally_tagged,
            adjacently_tagged,
            rename_variants,
            rename_fields,
        } = self;
        let tm = TagModeAttrs { untagged, tag_only, externally_tagged, internally_tagged, adjacently_tagged };
        assert(tm == flags);
        let specified_tag_mode = tm.into_tag_mode(errors);
        let to = custom_nc_of(match to { Some(v) => Some(MetaPathSpanWith(v.0, v.1.0)), None => None });
        let to_untagged = custom_nc_of(
            match to_untagged { Some(v) => Some(MetaPathSpanWith(v.0, v.1.0)), None => None },
        );
        let to_tagged_kvs = custom_nc_of(
            match to_tagged_kvs { Some(v) => Some(MetaPathSpanWith(v.0, v.1.0)), None => None },
        );
        let ghost em = errs(*errors);
        let variants = parse_enum_variants(enum_brace, errors, variant_ident_trees);
        proof {
            let es = choose|es: Seq<ParseErrorKind>|
                errs(*errors) == em + es && #[trigger] enum_body_errs(
                    StreamState { toks: enum_brace.0.stream@, prev: None },
                    variants@,
                    es,
                );
            assert(errs(*errors) =~= errs(*old(errors)) + extra_mode_errors(tag_mode_flags(flags), 0) + es);
        }
        MakeContextOfEnum {
            name,
            rename,
            rename_variants,
            rename_fields,
            specified_tag_mode,
            tag,
            content,
            to,
            to_untagged,
            to_tagged_kvs,
            variants,
            options,
        }
    }
}

/// A field that may be skipped.
pub trait Field {
    spec fn is_skipped(&self) -> bool;

    fn not_skipped(&self) -> (r: bool)
        ensures
            r == !self.is_skipped(),
    ;

    fn skipped(&self) -> (r: bool)
        ensures
            r == self.is_skipped(),
    ;
}

impl Field for StructField {
    /// `skip` was given.
    open spec fn is_skipped(&self) -> bool {
        self.skip is Some
    }

    fn not_skipped(&self) -> (r: bool) {
        self.skip.is_none()
    }

    fn skipped(&self) -> (r: bool) {
        self.skip.is_some()
    }
}

/// The identifier `field` that starts a property of a field.
pub struct IdentField(pub Ident);

impl IdentField {
    /// The identifier.
    pub fn ident(&self) -> (r: &Ident)
        ensures
            *r == self.0,
    {
        &self.0
    }
}

/// A property path that starts with `field`: the identifier and the rest of
/// the path; any other path is handed back.
pub fn field_or(prop: PropPath) -> (r: Result<(IdentField, Vec<Prop>), PropPath>)
    ensures
        match prop.0 {
            Prop::Ident(i) => if i.name@ == kw_field() {
                r matches Ok((f, rest)) && f.0 == i && rest == prop.1
            } else {
                r == Err::<(IdentField, Vec<Prop>), PropPath>(prop)
            },
            Prop::Literal(_) => r == Err::<(IdentField, Vec<Prop>), PropPath>(prop),
        },
{
    let PropPath(first, rest) = prop;
    match first {
        Prop::Ident(ident) => {
            if ident.matches(&[102u8, 105u8, 101u8, 108u8, 100u8]) {
                assert(seq![102u8, 105u8, 101u8, 108u8, 100u8] =~= kw_field());
                Ok((IdentField(ident), rest))
            } else {
                assert(seq![102u8, 105u8, 101u8, 108u8, 100u8] =~= kw_field());
                Err(PropPath(Prop::Ident(ident), rest))
            }
        },
        Prop::Literal(l) => Err(PropPath(Prop::Literal(l), rest)),
    }
}

/// The token that stands for the tag of an untagged item, once made.
pub struct CacheForDummyTag(pub Option<TokenTree>);

/// The tag of an item, as `@tag` reads it: none, with the place to put the
/// token that stands in for it, or the tokens given by `tag = ..`.
pub enum ContextPropTagMut {
    Untagged { default_span: Span },
    Tagged { span_tag: Span, ts: Vec<TokenTree> },
}

/// `t` is the empty string literal `""` at `span`.
pub open spec fn is_empty_string_at(t: TokenTree, span: Span) -> bool {
    t matches TokenTree::Literal(l) && l.text@ == seq![34u8, 34u8] && l.span == span
}

impl ContextPropTagMut {
    /// The tokens of the tag, and whether it is defined. An untagged item
    /// gives the token in `cache`, made first as `""` at its place when the
    /// cache is empty.
    pub fn try_into_tokens(self, cache: &mut CacheForDummyTag) -> (r: (Vec<TokenTree>, Result<(), ()>))
        ensures
            match self {
                ContextPropTagMut::Untagged { default_span } => {
                    &&& r.1 is Err
                    &&& old(cache).0 is None ==> (final(cache).0 matches Some(t) && is_empty_string_at(
                        t,
                        default_span,
                    ))
                    &&& old(cache).0 is Some ==> *final(cache) == *old(cache)
                    &&& final(cache).0 matches Some(t) && r.0@.len() == 1
                        && crate::syn_generic::tokens::deep_tt(r.0@[0])
                        == crate::syn_generic::tokens::deep_tt(t)
                },
                ContextPropTagMut::Tagged { ts, .. } => r.1 is Ok && r.0 == ts && *final(cache) == *old(
                    cache,
                ),
            },
    {
        match self {
            ContextPropTagMut::Untagged { default_span } => {
                if cache.0.is_none() {
                    let mut text: Vec<u8> = Vec::new();
                    text.push(34u8);
                    text.push(34u8);
                    cache.0 = Some(TokenTree::Literal(Literal { text, span: default_span }));
                    assert(text@ =~= seq![34u8, 34u8]);
                }
                let mut out: Vec<TokenTree> = Vec::new();
                match &cache.0 {
                    Some(t) => {
                        out.push(t.deep_clone());
                    },
                    None => {},
                }
                (out, Err(()))
            },
            ContextPropTagMut::Tagged { span_tag: _, ts } => (ts, Ok(())),
        }
    }
}

/// Why `@field` does not name one field: the message.
#[derive(Clone, Copy)]
pub struct OnlyFieldError(pub &'static str);

/// The field that `@field` names, with the error when it is not the only
/// one left; or the error when there are no fields at all.
pub enum OnlyFieldResult<T> {
    Existing(T, Option<OnlyFieldError>),
    EmptyFields(OnlyFieldError),
}

impl<T> OnlyFieldResult<T> {
    /// The field, if any; the error, if any, is reported at `span`.
    pub fn report(self, errors: &mut ErrorCollector, span: Span) -> (r: Option<T>)
        ensures
            match self {
                OnlyFieldResult::Existing(v, e) => r == Some(v) && match e {
                    Some(err) => errs(*final(errors)) == errs(*old(errors)).push(
                        ParseErrorKind::Custom { msg: err.0, span: Some(span) },
                    ),
                    None => *final(errors) == *old(errors),
                },
                OnlyFieldResult::EmptyFields(err) => r is None && errs(*final(errors)) == errs(
                    *old(errors),
                ).push(ParseErrorKind::Custom { msg: err.0, span: Some(span) }),
            },
    {
        let (v, error) = match self {
            OnlyFieldResult::Existing(v, error) => (Some(v), error),
            OnlyFieldResult::EmptyFields(error) => (None, Some(error)),
        };
        match error {
            Some(e) => errors.push_custom(e.0, Some(span)),
            None => {},
        }
        v
    }
}

/// The first field from `i` on that is not skipped.
pub open spec fn first_non_skip(fs: Seq<StructField>, i: int) -> Option<int>
    decreases fs.len() - i,
{
    if i < 0 || i >= fs.len() {
        None
    } else if fs[i].skip is None {
        Some(i)
    } else {
        first_non_skip(fs, i + 1)
    }
}

/// Which field `@field` names: the only one not skipped; the first one not
/// skipped, with an error, when there are more; the first field, with an
/// error, when all are skipped; nothing, with an error, when there are no
/// fields.
pub open spec fn only_field(fs: Seq<StructField>) -> OnlyFieldResult<usize> {
    match first_non_skip(fs, 0) {
        Some(i) => OnlyFieldResult::Existing(
            i as usize,
            if non_skip_count(fs) > 1 {
                Some(
                    OnlyFieldError(
                        "`@field` is ambiguous when there are more than one fields without `#[cjson(skip)]`",
                    ),
                )
            } else {
                None
            },
        ),
        None => if fs.len() == 0 {
            OnlyFieldResult::EmptyFields(
                OnlyFieldError("`@field` requires exactly one field without `#[cjson(skip)]`"),
            )
        } else {
            OnlyFieldResult::Existing(
                0,
                Some(OnlyFieldError("`@field` requires exactly one field without `#[cjson(skip)]`")),
            )
        },
    }
}

proof fn lemma_first_non_skip(fs: Seq<StructField>, i: int)
    requires
        0 <= i <= fs.len(),
        forall|j: int| 0 <= j < i ==> (#[trigger] fs[j]).skip is Some,
    ensures
        first_non_skip(fs, 0) == first_non_skip(fs, i),
    decreases i,
{
    if i > 0 {
        lemma_first_non_skip(fs, i - 1);
    }
}

/// Which field `@field` names, as `only_field` says.
pub fn calc_only_field_index(fields: &Vec<StructField>) -> (r: OnlyFieldResult<usize>)
    ensures
        r == only_field(fields@),
{
    let mut idx: Option<usize> = None;
    let mut i: usize = 0;
    while i < fields.len()
        invariant
            i <= fields@.len(),
            match idx {
                None => forall|j: int| 0 <= j < i ==> (#[trigger] fields@[j]).skip is Some,
                Some(k) => k < i && first_non_skip(fields@, 0) == Some(k as int),
            },
        decreases fields@.len() - i,
    {
        if idx.is_none() && fields[i].skip.is_none() {
            proof {
                lemma_first_non_skip(fields@, i as int);
            }
            idx = Some(i);
        }
        i = i + 1;
    }
    let count = count_non_skip(fields);
    match idx {
        Some(k) => OnlyFieldResult::Existing(
            k,
            if count > 1 {
                Some(
                    OnlyFieldError(
                        "`@field` is ambiguous when there are more than one fields without `#[cjson(skip)]`",
                    ),
                )
            } else {
                None
            },
        ),
        None => {
            proof {
                lemma_first_non_skip(fields@, fields@.len() as int);
            }
            if fields.len() == 0 {
                OnlyFieldResult::EmptyFields(
                    OnlyFieldError("`@field` requires exactly one field without `#[cjson(skip)]`"),
                )
            } else {
                OnlyFieldResult::Existing(
                    0,
                    Some(OnlyFieldError("`@field` requires exactly one field without `#[cjson(skip)]`")),
                )
            }
        },
    }
}

/// The variant has no discriminant.
pub struct EnumVariantDiscriminantNotDefinedError;

/// `const`
pub open spec fn kw_const_word() -> Seq<u8> {
    seq![99u8, 111u8, 110u8, 115u8, 116u8]
}

/// A discriminant as a JSON value: a single literal as it is, else
/// `const { .. }` around its tokens, at the place of its `=`.
pub open spec fn discriminant_json_value(d: EqValue<Vec<TokenTree>>, r: Seq<TokenTree>) -> bool {
    let ts = d.value@;
    if ts.len() == 1 && ts[0] is Literal {
        crate::syn_generic::tokens::deep_seq(r) == crate::syn_generic::tokens::deep_seq(ts)
    } else {
        &&& r.len() == 2
        &&& r[0] matches TokenTree::Ident(i)
        &&& r[0]->Ident_0.name@ == kw_const_word()
        &&& r[0]->Ident_0.span == d.eq.0.span
        &&& r[1] matches TokenTree::Group(g)
        &&& r[1]->Group_0.delimiter == Delimiter::Brace
        &&& r[1]->Group_0.span_open == d.eq.0.span
        &&& r[1]->Group_0.span_close == d.eq.0.span
        &&& crate::syn_generic::tokens::deep_seq(r[1]->Group_0.stream@)
            == crate::syn_generic::tokens::deep_seq(ts)
    }
}

/// The discriminant of a variant as a JSON value.
pub fn discriminant_as_json_value(d: &EqValue<Vec<TokenTree>>) -> (r: Vec<TokenTree>)
    ensures
        discriminant_json_value(*d, r@),
{
    let is_literal = d.value.len() == 1 && match &d.value[0] {
        TokenTree::Literal(_) => true,
        _ => false,
    };
    if is_literal {
        crate::syn_generic::tokens::clone_tokens(&d.value)
    } else {
        let span = d.eq.0.span;
        let inner = crate::syn_generic::tokens::clone_tokens(&d.value);
        let mut r: Vec<TokenTree> = Vec::new();
        r.push(
            TokenTree::Ident(
                Ident { name: crate::syn_generic::tokens::bytes_to_vec(&[99u8, 111u8, 110u8, 115u8, 116u8]), span },
            ),
        );
        r.push(
            TokenTree::Group(Group { delimiter: Delimiter::Brace, stream: inner, span_open: span, span_close: span }),
        );
        assert(seq![99u8, 111u8, 110u8, 115u8, 116u8] =~= kw_const_word());
        r
    }
}

impl MakeContextOfEnum {
    /// The tag mode given on the variant, else on the enum.
    pub fn access_specified_tag_mode(&self, index_variant: usize) -> (r: Option<SpecifiedTagMode>)
        requires
            index_variant < self.variants@.len(),
        ensures
            r == match self.variants@[index_variant as int].specified_tag_mode {
                Some(m) => Some(m),
                None => self.specified_tag_mode,
            },
    {
        match self.variants[index_variant].specified_tag_mode {
            Some(m) => Some(m),
            None => self.specified_tag_mode,
        }
    }

    /// The tag mode of the variant: the one given (on the variant, else on
    /// the enum); else adjacently tagged at `content` when it is given (on
    /// the variant, else on the enum), internally tagged at `tag` when that
    /// is; else, at the variant's name, tag only for a unit variant and
    /// externally tagged for others.
    pub fn access_inferred_tag_mode(&self, index_variant: usize) -> (r: SpecifiedTagMode)
        requires
            index_variant < self.variants@.len(),
        ensures
            ({
                let v = self.variants@[index_variant as int];
                let content = match v.content {
                    Some(c) => Some(c.0),
                    None => given_at(self.content),
                };
                let tag = match v.tag {
                    Some(t) => Some(t.0),
                    None => given_at(self.tag),
                };
                r == match v.specified_tag_mode {
                    Some(m) => m,
                    None => match self.specified_tag_mode {
                        Some(m) => m,
                        None => if content is Some {
                            SpecifiedTagMode { span: content.unwrap(), mode: TagMode::AdjacentlyTagged }
                        } else if tag is Some {
                            SpecifiedTagMode { span: tag.unwrap(), mode: TagMode::InternallyTagged }
                        } else if v.variant_type == VariantType::Unit {
                            SpecifiedTagMode { span: v.name.span, mode: TagMode::TagOnly }
                        } else {
                            SpecifiedTagMode { span: v.name.span, mode: TagMode::ExternallyTagged }
                        },
                    },
                }
            }),
    {
        match self.access_specified_tag_mode(index_variant) {
            Some(m) => m,
            None => {
                let v = &self.variants[index_variant];
                let content = match &v.content {
                    Some(c) => Some(c.0),
                    None => match &self.content {
                        Some(c) => Some(c.0),
                        None => None,
                    },
                };
                let tag = match &v.tag {
                    Some(t) => Some(t.0),
                    None => match &self.tag {
                        Some(t) => Some(t.0),
                        None => None,
                    },
                };
                match content {
                    Some(span) => SpecifiedTagMode { span, mode: TagMode::AdjacentlyTagged },
                    None => match tag {
                        Some(span) => SpecifiedTagMode { span, mode: TagMode::InternallyTagged },
                        None => if v.variant_type == VariantType::Unit {
                            SpecifiedTagMode { span: v.name.span, mode: TagMode::TagOnly }
                        } else {
                            SpecifiedTagMode { span: v.name.span, mode: TagMode::ExternallyTagged }
                        },
                    },
                }
            },
        }
    }

    /// Where the JSON form of the variant comes from: its own `to(..)`
    /// first, then the enum's; without either, the tag mode that
    /// `access_inferred_tag_mode` gives.
    pub fn to_plan(&self, index_variant: usize) -> (r: VariantToPlan)
        requires
            index_variant < self.variants@.len(),
        ensures
            self.variants@[index_variant as int].to is Some ==> r == VariantToPlan::VariantTo,
            self.variants@[index_variant as int].to is None && self.to is Some ==> r
                == VariantToPlan::EnumTo,
            self.variants@[index_variant as int].to is None && self.to is None ==> r
                == VariantToPlan::ByTagMode(self.inferred_tag_mode_spec(index_variant as int)),
    {
        if self.variants[index_variant].to.is_some() {
            VariantToPlan::VariantTo
        } else if self.to.is_some() {
            VariantToPlan::EnumTo
        } else {
            VariantToPlan::ByTagMode(self.access_inferred_tag_mode(index_variant))
        }
    }

    /// The tag mode that `access_inferred_tag_mode` gives for the variant.
    pub open spec fn inferred_tag_mode_spec(self, index_variant: int) -> SpecifiedTagMode {
        let v = self.variants@[index_variant];
        let content = match v.content {
            Some(c) => Some(c.0),
            None => given_at(self.content),
        };
        let tag = match v.tag {
            Some(t) => Some(t.0),
            None => given_at(self.tag),
        };
        match v.specified_tag_mode {
            Some(m) => m,
            None => match self.specified_tag_mode {
                Some(m) => m,
                None => if content is Some {
                    SpecifiedTagMode { span: content.unwrap(), mode: TagMode::AdjacentlyTagged }
                } else if tag is Some {
                    SpecifiedTagMode { span: tag.unwrap(), mode: TagMode::InternallyTagged }
                } else if v.variant_type == VariantType::Unit {
                    SpecifiedTagMode { span: v.name.span, mode: TagMode::TagOnly }
                } else {
                    SpecifiedTagMode { span: v.name.span, mode: TagMode::ExternallyTagged }
                },
            },
        }
    }

    /// The name of the variant as a JSON value: the key that its own
    /// `rename` gives; else the key that the enum's `rename_variants`
    /// function gives; else a string literal of its name at its place.
    pub fn name_as_json_value(&self, index_variant: usize) -> (r: Vec<TokenTree>)
        requires
            index_variant < self.variants@.len(),
        ensures
            self.name_as_json_value_spec(index_variant as int, r@),
    {
        let v = &self.variants[index_variant];
        match &v.rename {
            Some(_) => CalcName { options: &self.options, rename: v.rename.as_ref(), name: &v.name }.calc(),
            None => match &self.rename_variants {
                Some(m) => {
                    let g = crate::expand_props::clone_group(&m.1.0);
                    let rename = MetaPathSpanWith(m.0, Rename::Paren(GroupParen(g)));
                    let r = CalcName { options: &self.options, rename: Some(&rename), name: &v.name }.calc();
                    assert(rename_key(rename.1, self.options.crate_path@, m.0, TokenTree::Ident(v.name))
                        == rename_key(Rename::Paren(m.1), self.options.crate_path@, m.0, TokenTree::Ident(v.name)));
                    r
                },
                None => CalcName { options: &self.options, rename: None, name: &v.name }.calc(),
            },
        }
    }

    /// The variant as a JSON value when it is written as its tag alone: its
    /// discriminant when it has one, else its name.
    pub fn to_discriminant_or_name(&self, index_variant: usize) -> (r: Vec<TokenTree>)
        requires
            index_variant < self.variants@.len(),
        ensures
            ({
                let v = self.variants@[index_variant as int];
                match v.discriminant {
                    Some(d) => discriminant_json_value(d, r@),
                    None => self.name_as_json_value_spec(index_variant as int, r@),
                }
            }),
    {
        match &self.variants[index_variant].discriminant {
            Some(d) => discriminant_as_json_value(d),
            None => self.name_as_json_value(index_variant),
        }
    }

    /// `r` is what `name_as_json_value` gives for the variant.
    pub open spec fn name_as_json_value_spec(self, index_variant: int, r: Seq<TokenTree>) -> bool {
        let v = self.variants@[index_variant];
        match v.rename {
            Some(m) => deep_seq(r) == rename_key(m.1, self.options.crate_path@, m.0, TokenTree::Ident(v.name)),
            None => match self.rename_variants {
                Some(m) => deep_seq(r) == rename_key(
                    Rename::Paren(m.1),
                    self.options.crate_path@,
                    m.0,
                    TokenTree::Ident(v.name),
                ),
                None => r.len() == 1 && is_literal_at(
                    r[0],
                    crate::utils::string_literal_text(v.name.name@),
                    v.name.span,
                ),
            },
        }
    }

    /// `@tag` of the variant: the tokens of its `tag = ..`, else of the
    /// enum's, with the place of that argument; without either, untagged
    /// at the enum's name.
    pub fn prop_tag(&self, index_variant: usize) -> (r: ContextPropTagMut)
        requires
            index_variant < self.variants@.len(),
        ensures
            prop_from(r, inherited(self.variants@[index_variant as int].tag, self.tag), self.name.span),
    {
        prop_from_args(&self.variants[index_variant].tag, &self.tag, self.name.span)
    }

    /// `@content` of the variant, read as `@tag` is from `content = ..`.
    pub fn prop_content(&self, index_variant: usize) -> (r: ContextPropTagMut)
        requires
            index_variant < self.variants@.len(),
        ensures
            prop_from(r, inherited(self.variants@[index_variant as int].content, self.content), self.name.span),
    {
        prop_from_args(&self.variants[index_variant].content, &self.content, self.name.span)
    }

    /// Whether `@(..)?` expands for the variant: when a `to_untagged(..)` is
    /// given to it or to the enum.
    pub fn should_expand_bracket_question(&self, index_variant: usize) -> (r: bool)
        requires
            index_variant < self.variants@.len(),
        ensures
            r == (self.variants@[index_variant as int].to_untagged is Some || self.to_untagged is Some),
    {
        self.variants[index_variant].to_untagged.is_some() || self.to_untagged.is_some()
    }

    /// The discriminant of the variant as a JSON value; when it has none,
    /// its position as a literal at its name, with the error.
    pub fn discriminant(&self, index_variant: usize) -> (r: (Vec<TokenTree>, Result<(), EnumVariantDiscriminantNotDefinedError>))
        requires
            index_variant < self.variants@.len(),
        ensures
            ({
                let v = self.variants@[index_variant as int];
                match v.discriminant {
                    Some(d) => r.1 is Ok && discriminant_json_value(d, r.0@),
                    None => r.1 is Err && r.0@.len() == 1 && crate::utils::is_position_literal_at(
                        r.0@[0],
                        index_variant as int,
                        v.name.span,
                    ),
                }
            }),
    {
        let v = &self.variants[index_variant];
        match &v.discriminant {
            Some(d) => (discriminant_as_json_value(d), Ok(())),
            None => {
                let mut r: Vec<TokenTree> = Vec::new();
                r.push(TokenTree::Literal(crate::utils::usize_unsuffixed(index_variant, v.name.span)));
                (r, Err(EnumVariantDiscriminantNotDefinedError))
            },
        }
    }
}

/// `::` at the place of the macro call, deeply.
pub open spec fn deep_colon2() -> Seq<DeepToken> {
    seq![
        DeepToken::Punct(Punct { ch: ':', spacing: Spacing::Joint, span: Span(0) }),
        DeepToken::Punct(Punct { ch: ':', spacing: Spacing::Alone, span: Span(0) }),
    ]
}

/// `__private`
pub open spec fn kw_private() -> Seq<u8> {
    seq![95u8, 95u8, 112u8, 114u8, 105u8, 118u8, 97u8, 116u8, 101u8]
}

/// `proc_macro`
pub open spec fn kw_proc_macro() -> Seq<u8> {
    seq![112u8, 114u8, 111u8, 99u8, 95u8, 109u8, 97u8, 99u8, 114u8, 111u8]
}

/// `rename`
pub open spec fn kw_rename() -> Seq<u8> {
    seq![114u8, 101u8, 110u8, 97u8, 109u8, 101u8]
}

/// The key of a JSON object that a rename gives, deeply: for a rename
/// function `(f)` the call `const { crate::__private::proc_macro::rename!((f)
/// name) }`, with `const` at the function's `(`, `rename!` at the argument
/// and the rest at the place of the macro call; for `= ..` the tokens after
/// `=`.
pub open spec fn rename_key(r: Rename, crate_path: Seq<TokenTree>, rename_span: Span, name: TokenTree) -> Seq<DeepToken> {
    match r {
        Rename::Paren(g) => seq![
            DeepToken::Ident(kw_const_word(), g.0.span_open),
            DeepToken::Group(
                Delimiter::Brace,
                deep_seq(crate_path) + deep_colon2() + seq![DeepToken::Ident(kw_private(), Span(0))]
                    + deep_colon2() + seq![DeepToken::Ident(kw_proc_macro(), Span(0))] + deep_colon2()
                    + seq![
                    DeepToken::Ident(kw_rename(), rename_span),
                    DeepToken::Punct(Punct { ch: '!', spacing: Spacing::Alone, span: rename_span }),
                    DeepToken::Group(
                        Delimiter::Parenthesis,
                        seq![deep_tt(TokenTree::Group(g.0)), deep_tt(name)],
                        Span(0),
                        Span(0),
                    ),
                ],
                Span(0),
                Span(0),
            ),
        ],
        Rename::Eq(ev) => deep_seq(ev.value@),
    }
}

/// A punctuation character at `span`.
fn punct_at(ch: char, spacing: Spacing, span: Span) -> (r: TokenTree)
    ensures
        deep_tt(r) == DeepToken::Punct(Punct { ch, spacing, span }),
{
    TokenTree::Punct(Punct { ch, spacing, span })
}

/// An identifier displaying as `name` at `span`.
fn ident_at(name: &[u8], span: Span) -> (r: TokenTree)
    ensures
        deep_tt(r) == DeepToken::Ident(name@, span),
{
    TokenTree::Ident(Ident { name: crate::syn_generic::tokens::bytes_to_vec(name), span })
}

impl Rename {
    /// The key of a JSON object that this rename gives for `name`, as
    /// `rename_key` says.
    pub fn to_tokens_as_json_object_key(&self, crate_path: &Vec<TokenTree>, rename_span: Span, name: &TokenTree) -> (r: Vec<TokenTree>)
        ensures
            deep_seq(r@) == rename_key(*self, crate_path@, rename_span, *name),
    {
        match self {
            Rename::Paren(g) => {
                let mut inner = crate::syn_generic::tokens::clone_tokens(crate_path);
                let ghost copy = inner@;
                inner.push(punct_at(':', Spacing::Joint, Span::call_site()));
                inner.push(punct_at(':', Spacing::Alone, Span::call_site()));
                inner.push(ident_at(&[95u8, 95u8, 112u8, 114u8, 105u8, 118u8, 97u8, 116u8, 101u8], Span::call_site()));
                inner.push(punct_at(':', Spacing::Joint, Span::call_site()));
                inner.push(punct_at(':', Spacing::Alone, Span::call_site()));
                inner.push(
                    ident_at(&[112u8, 114u8, 111u8, 99u8, 95u8, 109u8, 97u8, 99u8, 114u8, 111u8], Span::call_site()),
                );
                inner.push(punct_at(':', Spacing::Joint, Span::call_site()));
                inner.push(punct_at(':', Spacing::Alone, Span::call_site()));
                inner.push(ident_at(&[114u8, 101u8, 110u8, 97u8, 109u8, 101u8], rename_span));
                inner.push(punct_at('!', Spacing::Alone, rename_span));
                let mut args: Vec<TokenTree> = Vec::new();
                args.push(
                    TokenTree::Group(
                        Group {
                            delimiter: g.0.delimiter,
                            stream: crate::syn_generic::tokens::clone_tokens(&g.0.stream),
                            span_open: g.0.span_open,
                            span_close: g.0.span_close,
                        },
                    ),
                );
                args.push(name.deep_clone());
                proof {
                    crate::syn_generic::tokens::lemma_deep_seq_index(args@);
                    assert(deep_seq(args@) =~= seq![deep_tt(TokenTree::Group(g.0)), deep_tt(*name)]);
                }
                inner.push(
                    TokenTree::Group(
                        Group {
                            delimiter: Delimiter::Parenthesis,
                            stream: args,
                            span_open: Span::call_site(),
                            span_close: Span::call_site(),
                        },
                    ),
                );
                proof {
                    crate::syn_generic::tokens::lemma_deep_seq_index(inner@);
                    crate::syn_generic::tokens::lemma_deep_seq_index(copy);
                    crate::syn_generic::tokens::lemma_deep_seq_index(crate_path@);
                    assert(seq![95u8, 95u8, 112u8, 114u8, 105u8, 118u8, 97u8, 116u8, 101u8] =~= kw_private());
                    assert(seq![112u8, 114u8, 111u8, 99u8, 95u8, 109u8, 97u8, 99u8, 114u8, 111u8] =~= kw_proc_macro());
                    assert(seq![114u8, 101u8, 110u8, 97u8, 109u8, 101u8] =~= kw_rename());
                    let want = deep_seq(crate_path@) + deep_colon2() + seq![DeepToken::Ident(kw_private(), Span(0))]
                        + deep_colon2() + seq![DeepToken::Ident(kw_proc_macro(), Span(0))] + deep_colon2()
                        + seq![
                        DeepToken::Ident(kw_rename(), rename_span),
                        DeepToken::Punct(Punct { ch: '!', spacing: Spacing::Alone, span: rename_span }),
                        DeepToken::Group(
                            Delimiter::Parenthesis,
                            seq![deep_tt(TokenTree::Group(g.0)), deep_tt(*name)],
                            Span(0),
                            Span(0),
                        ),
                    ];
                    assert(deep_seq(inner@) =~= want);
                }
                let mut r: Vec<TokenTree> = Vec::new();
                r.push(ident_at(&[99u8, 111u8, 110u8, 115u8, 116u8], g.0.span_open));
                r.push(
                    TokenTree::Group(
                        Group {
                            delimiter: Delimiter::Brace,
                            stream: inner,
                            span_open: Span::call_site(),
                            span_close: Span::call_site(),
                        },
                    ),
                );
                proof {
                    assert(seq![99u8, 111u8, 110u8, 115u8, 116u8] =~= kw_const_word());
                    crate::syn_generic::tokens::lemma_deep_seq_index(r@);
                    assert(deep_seq(r@) =~= rename_key(*self, crate_path@, rename_span, *name));
                }
                r
            },
            Rename::Eq(ev) => crate::syn_generic::tokens::clone_tokens(&ev.value),
        }
    }
}

/// `t` is a literal with source text `text` at `span`.
pub open spec fn is_literal_at(t: TokenTree, text: Seq<u8>, span: Span) -> bool {
    t matches TokenTree::Literal(l) && l.text@ == text && l.span == span
}

/// The token that a field's name stands as.
pub open spec fn field_name_token(n: FieldName) -> TokenTree {
    match n {
        FieldName::Named(i) => TokenTree::Ident(i),
        FieldName::Index(l) => TokenTree::Literal(l),
    }
}

/// The token of a field's name, copied.
pub(crate) fn field_name_tt(n: &FieldName) -> (r: TokenTree)
    ensures
        deep_tt(r) == deep_tt(field_name_token(*n)),
{
    match n {
        FieldName::Named(i) => TokenTree::Ident(i.copied()),
        FieldName::Index(l) => TokenTree::Literal(Literal { text: l.text.clone(), span: l.span }),
    }
}

/// How a struct, an enum or a variant is named in its JSON form.
pub struct CalcName<'a> {
    pub options: &'a Options,
    pub rename: Option<&'a MetaPathSpanWith<Rename>>,
    pub name: &'a Ident,
}

impl<'a> CalcName<'a> {
    /// The name as a JSON value: the key its rename gives, else a string
    /// literal of the name at its place.
    pub fn calc(self) -> (r: Vec<TokenTree>)
        ensures
            match self.rename {
                Some(m) => deep_seq(r@) == rename_key(
                    m.1,
                    self.options.crate_path@,
                    m.0,
                    TokenTree::Ident(*self.name),
                ),
                None => r@.len() == 1 && is_literal_at(
                    r@[0],
                    crate::utils::string_literal_text(self.name.name@),
                    self.name.span,
                ),
            },
    {
        match self.rename {
            Some(m) => {
                let t = TokenTree::Ident(self.name.copied());
                let r = m.1.to_tokens_as_json_object_key(&self.options.crate_path, m.0, &t);
                assert(deep_tt(t) == deep_tt(TokenTree::Ident(*self.name)));
                r
            },
            None => {
                let mut r: Vec<TokenTree> = Vec::new();
                r.push(TokenTree::Literal(crate::utils::ident_to_literal_string(self.name)));
                r
            },
        }
    }
}

/// An unnamed field has no `@name` unless it is renamed.
pub struct StructFieldExpandNameError;

/// How a field is named in its JSON form.
pub struct CalcFieldName<'a> {
    pub options: &'a Options,
    pub rename: Option<&'a MetaPathSpanWith<Rename>>,
    pub name: &'a FieldName,
}

impl<'a> CalcFieldName<'a> {
    /// The name as a JSON value: the key its rename gives; else a string
    /// literal of a named field's name; else, for an unnamed field, the
    /// error and `""` at its place.
    pub fn calc(self) -> (r: (Vec<TokenTree>, Result<(), StructFieldExpandNameError>))
        ensures
            match self.rename {
                Some(m) => r.1 is Ok && deep_seq(r.0@) == rename_key(
                    m.1,
                    self.options.crate_path@,
                    m.0,
                    field_name_token(*self.name),
                ),
                None => match *self.name {
                    FieldName::Named(i) => r.1 is Ok && r.0@.len() == 1 && is_literal_at(
                        r.0@[0],
                        crate::utils::string_literal_text(i.name@),
                        i.span,
                    ),
                    FieldName::Index(ix) => r.1 is Err && r.0@.len() == 1 && is_literal_at(
                        r.0@[0],
                        seq![34u8, 34u8],
                        ix.span,
                    ),
                },
            },
    {
        match self.rename {
            Some(m) => {
                let t = field_name_tt(self.name);
                (m.1.to_tokens_as_json_object_key(&self.options.crate_path, m.0, &t), Ok(()))
            },
            None => match self.name {
                FieldName::Named(i) => {
                    let mut r: Vec<TokenTree> = Vec::new();
                    r.push(TokenTree::Literal(crate::utils::ident_to_literal_string(i)));
                    (r, Ok(()))
                },
                FieldName::Index(ix) => {
                    let mut text: Vec<u8> = Vec::new();
                    text.push(34u8);
                    text.push(34u8);
                    assert(text@ =~= seq![34u8, 34u8]);
                    let mut r: Vec<TokenTree> = Vec::new();
                    r.push(TokenTree::Literal(Literal { text, span: ix.span }));
                    (r, Err(StructFieldExpandNameError))
                },
            },
        }
    }
}

} // verus!
