//! Why expanding a property failed, and how each failure is reported: the
//! messages at the place of the property, in the order the parts of the
//! expansion failed.
use vstd::prelude::*;
use crate::syn_generic::tokens::Span;
use crate::syn_generic::{ErrorCollector, ParseError, ParseErrorKind, error_kinds, errs};
use crate::syn_generic::tokens::{TokenTree, deep_seq};
use crate::expand_props::{Context, is_plain};
use crate::json_item::{
    CustomTokens, MaybeCalculating, dummy_tokens,
    CustomTokensExpandError, OnlyFieldError, EnumVariantDiscriminantNotDefinedError,
    StructFieldExpandNameError, CircularDummy,
};

verus! {

/// A message at a place, as the one error it reports.
pub open spec fn custom_at(msg: &'static str, span: Span) -> Seq<ParseErrorKind> {
    seq![ParseErrorKind::Custom { msg, span: Some(span) }]
}

/// The errors of an optional part.
pub open spec fn opt_kinds<E: IntoParseErrorWithSpan>(e: Option<E>, span: Span) -> Seq<ParseErrorKind> {
    match e {
        Some(v) => v.kinds_at(span),
        None => Seq::empty(),
    }
}

/// An optional part can be reported when it is there.
pub open spec fn opt_reportable<E: IntoParseErrorWithSpan>(e: Option<E>) -> bool {
    match e {
        Some(v) => v.reportable(),
        None => true,
    }
}

/// A failure that is reported as one or more errors at the place of the
/// property whose expansion failed.
pub trait IntoParseErrorWithSpan: Sized {
    /// The errors it is reported as, at `span`.
    spec fn kinds_at(self, span: Span) -> Seq<ParseErrorKind>;

    /// It says what failed: a failure made of optional parts has one.
    spec fn reportable(self) -> bool;

    fn into_parse_error_with_span(self, span: Span) -> (r: ParseError)
        requires
            self.reportable(),
        ensures
            error_kinds(r) == self.kinds_at(span),
    ;
}

/// The errors of the optional parts that are there, one after the other.
fn push_opt<E: IntoParseErrorWithSpan>(errors: &mut ErrorCollector, e: Option<E>, span: Span)
    requires
        opt_reportable(e),
    ensures
        errs(*final(errors)) == errs(*old(errors)) + opt_kinds(e, span),
{
    match e {
        Some(v) => errors.push(v.into_parse_error_with_span(span)),
        None => {
            assert(errs(*errors) + Seq::<ParseErrorKind>::empty() =~= errs(*errors));
        },
    }
}

/// The errors collected, when there is at least one.
fn collected(errors: ErrorCollector) -> (r: ParseError)
    requires
        errs(errors).len() > 0,
    ensures
        error_kinds(r) == errs(errors),
{
    match errors.0 {
        Some(e) => e,
        None => {
            assert(false);
            ParseError(ParseErrorKind::UnexpectedEof { after: None }, Vec::new())
        },
    }
}

impl IntoParseErrorWithSpan for CustomTokensExpandError<&'static str> {
    open spec fn kinds_at(self, span: Span) -> Seq<ParseErrorKind> {
        match self {
            CustomTokensExpandError::CircularRef { msg } => custom_at(msg, span),
            CustomTokensExpandError::Other(e) => error_kinds(e),
        }
    }

    open spec fn reportable(self) -> bool {
        true
    }

    /// A property that refers to itself is reported with its message at
    /// `span`; the errors of the template as they are.
    fn into_parse_error_with_span(self, span: Span) -> (r: ParseError) {
        match self {
            CustomTokensExpandError::CircularRef { msg } => ParseError::custom(msg, Some(span)),
            CustomTokensExpandError::Other(e) => e,
        }
    }
}

impl IntoParseErrorWithSpan for OnlyFieldError {
    open spec fn kinds_at(self, span: Span) -> Seq<ParseErrorKind> {
        custom_at(self.0, span)
    }

    open spec fn reportable(self) -> bool {
        true
    }

    fn into_parse_error_with_span(self, span: Span) -> (r: ParseError) {
        ParseError::custom(self.0, Some(span))
    }
}

impl IntoParseErrorWithSpan for EnumVariantDiscriminantNotDefinedError {
    open spec fn kinds_at(self, span: Span) -> Seq<ParseErrorKind> {
        custom_at("@discriminant not defined on this enum variant", span)
    }

    open spec fn reportable(self) -> bool {
        true
    }

    fn into_parse_error_with_span(self, span: Span) -> (r: ParseError) {
        ParseError::custom("@discriminant not defined on this enum variant", Some(span))
    }
}

impl IntoParseErrorWithSpan for StructFieldExpandNameError {
    open spec fn kinds_at(self, span: Span) -> Seq<ParseErrorKind> {
        custom_at("unnamed field doesn't have `@name` unless renamed", span)
    }

    open spec fn reportable(self) -> bool {
        true
    }

    fn into_parse_error_with_span(self, span: Span) -> (r: ParseError) {
        ParseError::custom("unnamed field doesn't have `@name` unless renamed", Some(span))
    }
}

/// A named field has no `@index_to_str`.
#[derive(Clone, Copy)]
pub struct StructFieldExpandIndexToStrError;

impl IntoParseErrorWithSpan for StructFieldExpandIndexToStrError {
    open spec fn kinds_at(self, span: Span) -> Seq<ParseErrorKind> {
        custom_at("named field doesn't have `@index_to_str` property", span)
    }

    open spec fn reportable(self) -> bool {
        true
    }

    fn into_parse_error_with_span(self, span: Span) -> (r: ParseError) {
        ParseError::custom("named field doesn't have `@index_to_str` property", Some(span))
    }
}

/// `@tag` is not defined where it was asked for; the message says where.
#[derive(Clone, Copy)]
pub struct StructTagExpandError(pub &'static str);

impl IntoParseErrorWithSpan for StructTagExpandError {
    open spec fn kinds_at(self, span: Span) -> Seq<ParseErrorKind> {
        custom_at(self.0, span)
    }

    open spec fn reportable(self) -> bool {
        true
    }

    fn into_parse_error_with_span(self, span: Span) -> (r: ParseError) {
        ParseError::custom(self.0, Some(span))
    }
}

/// `@content` is not defined on the enum variant.
#[derive(Clone, Copy)]
pub struct ContentNotDefinedError;

impl IntoParseErrorWithSpan for ContentNotDefinedError {
    open spec fn kinds_at(self, span: Span) -> Seq<ParseErrorKind> {
        custom_at("@content not defined on enum variant", span)
    }

    open spec fn reportable(self) -> bool {
        true
    }

    fn into_parse_error_with_span(self, span: Span) -> (r: ParseError) {
        ParseError::custom("@content not defined on enum variant", Some(span))
    }
}

/// A property given by tokens failed, or its default did.
pub enum CustomTokensExpandErrorOr<E> {
    Custom(CustomTokensExpandError<&'static str>),
    Other(E),
}

impl<E: IntoParseErrorWithSpan> IntoParseErrorWithSpan for CustomTokensExpandErrorOr<E> {
    open spec fn kinds_at(self, span: Span) -> Seq<ParseErrorKind> {
        match self {
            CustomTokensExpandErrorOr::Custom(e) => e.kinds_at(span),
            CustomTokensExpandErrorOr::Other(e) => e.kinds_at(span),
        }
    }

    open spec fn reportable(self) -> bool {
        match self {
            CustomTokensExpandErrorOr::Custom(_) => true,
            CustomTokensExpandErrorOr::Other(e) => e.reportable(),
        }
    }

    fn into_parse_error_with_span(self, span: Span) -> (r: ParseError) {
        match self {
            CustomTokensExpandErrorOr::Custom(e) => e.into_parse_error_with_span(span),
            CustomTokensExpandErrorOr::Other(e) => e.into_parse_error_with_span(span),
        }
    }
}

/// Why `{ name: value }` for a field failed: its name, its value, or both;
/// or a flattened unnamed field without `to_kvs`.
pub enum StructFieldExpandToKvsDefaultError {
    NameEqTo {
        expand_name: Option<StructFieldExpandNameError>,
        expand_to: Option<CustomTokensExpandError<&'static str>>,
    },
    FlattenOnUnnamedField,
}

impl IntoParseErrorWithSpan for StructFieldExpandToKvsDefaultError {
    open spec fn kinds_at(self, span: Span) -> Seq<ParseErrorKind> {
        match self {
            StructFieldExpandToKvsDefaultError::NameEqTo { expand_name, expand_to } => opt_kinds(
                expand_name,
                span,
            ) + opt_kinds(expand_to, span),
            StructFieldExpandToKvsDefaultError::FlattenOnUnnamedField => custom_at(
                "@to_kvs must be explicitly specified on flattened unnamed field to avoid ambiguity",
                span,
            ),
        }
    }

    open spec fn reportable(self) -> bool {
        match self {
            StructFieldExpandToKvsDefaultError::NameEqTo { expand_name, expand_to } => expand_name is Some
                || expand_to is Some,
            StructFieldExpandToKvsDefaultError::FlattenOnUnnamedField => true,
        }
    }

    fn into_parse_error_with_span(self, span: Span) -> (r: ParseError) {
        match self {
            StructFieldExpandToKvsDefaultError::NameEqTo { expand_name, expand_to } => {
                let mut es = ErrorCollector::new();
                push_opt(&mut es, expand_name, span);
                push_opt(&mut es, expand_to, span);
                assert(Seq::<ParseErrorKind>::empty() + opt_kinds(expand_name, span) + opt_kinds(expand_to, span)
                    =~= opt_kinds(expand_name, span) + opt_kinds(expand_to, span));
                collected(es)
            },
            StructFieldExpandToKvsDefaultError::FlattenOnUnnamedField => ParseError::custom(
                "@to_kvs must be explicitly specified on flattened unnamed field to avoid ambiguity",
                Some(span),
            ),
        }
    }
}

/// Why `[value]` for a field failed: its value; or a flattened named field
/// without `to_items`.
pub enum StructFieldExpandToItemsDefaultError {
    To(CustomTokensExpandError<&'static str>),
    FlattenOnNamedField,
}

impl IntoParseErrorWithSpan for StructFieldExpandToItemsDefaultError {
    open spec fn kinds_at(self, span: Span) -> Seq<ParseErrorKind> {
        match self {
            StructFieldExpandToItemsDefaultError::To(e) => e.kinds_at(span),
            StructFieldExpandToItemsDefaultError::FlattenOnNamedField => custom_at(
                "@to_items must be explicitly specified on flattened named field to avoid ambiguity",
                span,
            ),
        }
    }

    open spec fn reportable(self) -> bool {
        true
    }

    fn into_parse_error_with_span(self, span: Span) -> (r: ParseError) {
        match self {
            StructFieldExpandToItemsDefaultError::To(e) => e.into_parse_error_with_span(span),
            StructFieldExpandToItemsDefaultError::FlattenOnNamedField => ParseError::custom(
                "@to_items must be explicitly specified on flattened named field to avoid ambiguity",
                Some(span),
            ),
        }
    }
}

/// Why the default value of a struct failed: for `transparent`, naming the
/// only field or its value, or both; for an object or array, the errors of
/// its fields.
pub enum StructToDefaultExpandError {
    Transparent { only_field: Option<OnlyFieldError>, expand_to: Option<CustomTokensExpandError<&'static str>> },
    ObjectOrArray(ParseError),
}

impl IntoParseErrorWithSpan for StructToDefaultExpandError {
    open spec fn kinds_at(self, span: Span) -> Seq<ParseErrorKind> {
        match self {
            StructToDefaultExpandError::Transparent { only_field, expand_to } => opt_kinds(only_field, span)
                + opt_kinds(expand_to, span),
            StructToDefaultExpandError::ObjectOrArray(e) => error_kinds(e),
        }
    }

    open spec fn reportable(self) -> bool {
        match self {
            StructToDefaultExpandError::Transparent { only_field, expand_to } => only_field is Some
                || expand_to is Some,
            StructToDefaultExpandError::ObjectOrArray(_) => true,
        }
    }

    fn into_parse_error_with_span(self, span: Span) -> (r: ParseError) {
        match self {
            StructToDefaultExpandError::Transparent { only_field, expand_to } => {
                let mut es = ErrorCollector::new();
                push_opt(&mut es, only_field, span);
                push_opt(&mut es, expand_to, span);
                assert(Seq::<ParseErrorKind>::empty() + opt_kinds(only_field, span) + opt_kinds(expand_to, span)
                    =~= opt_kinds(only_field, span) + opt_kinds(expand_to, span));
                collected(es)
            },
            StructToDefaultExpandError::ObjectOrArray(e) => e,
        }
    }
}

/// Why the entries of a struct after its tag failed: those of its default
/// value.
pub struct StructToTaggedKvsDefaultExpandError(pub StructToDefaultExpandError);

impl IntoParseErrorWithSpan for StructToTaggedKvsDefaultExpandError {
    open spec fn kinds_at(self, span: Span) -> Seq<ParseErrorKind> {
        self.0.kinds_at(span)
    }

    open spec fn reportable(self) -> bool {
        self.0.reportable()
    }

    fn into_parse_error_with_span(self, span: Span) -> (r: ParseError) {
        self.0.into_parse_error_with_span(span)
    }
}

/// Why the tagged form of a struct failed: its tag, what follows the tag,
/// or both.
pub struct StructToTaggedDefaultExpandError {
    pub expand_tag: Option<StructTagExpandError>,
    pub after_tag: Option<CustomTokensExpandErrorOr<StructToTaggedKvsDefaultExpandError>>,
}

impl IntoParseErrorWithSpan for StructToTaggedDefaultExpandError {
    open spec fn kinds_at(self, span: Span) -> Seq<ParseErrorKind> {
        opt_kinds(self.expand_tag, span) + opt_kinds(self.after_tag, span)
    }

    open spec fn reportable(self) -> bool {
        (self.expand_tag is Some || self.after_tag is Some) && opt_reportable(self.after_tag)
    }

    fn into_parse_error_with_span(self, span: Span) -> (r: ParseError) {
        let StructToTaggedDefaultExpandError { expand_tag, after_tag } = self;
        let mut es = ErrorCollector::new();
        push_opt(&mut es, expand_tag, span);
        push_opt(&mut es, after_tag, span);
        assert(Seq::<ParseErrorKind>::empty() + opt_kinds(expand_tag, span) + opt_kinds(after_tag, span)
            =~= opt_kinds(expand_tag, span) + opt_kinds(after_tag, span));
        collected(es)
    }
}

/// Why `@to` of a struct without `to` failed: its untagged default, or its
/// tagged form.
pub enum StructToUnspecifiedExpandError {
    Untagged(StructToDefaultExpandError),
    Tagged(CustomTokensExpandErrorOr<StructToTaggedKvsDefaultExpandError>),
}

impl IntoParseErrorWithSpan for StructToUnspecifiedExpandError {
    open spec fn kinds_at(self, span: Span) -> Seq<ParseErrorKind> {
        match self {
            StructToUnspecifiedExpandError::Untagged(e) => e.kinds_at(span),
            StructToUnspecifiedExpandError::Tagged(e) => e.kinds_at(span),
        }
    }

    open spec fn reportable(self) -> bool {
        match self {
            StructToUnspecifiedExpandError::Untagged(e) => e.reportable(),
            StructToUnspecifiedExpandError::Tagged(e) => e.reportable(),
        }
    }

    fn into_parse_error_with_span(self, span: Span) -> (r: ParseError) {
        match self {
            StructToUnspecifiedExpandError::Untagged(e) => e.into_parse_error_with_span(span),
            StructToUnspecifiedExpandError::Tagged(e) => e.into_parse_error_with_span(span),
        }
    }
}

/// Why the adjacently tagged form of a variant failed: its tag, its
/// content key, its untagged value, or several of them.
pub struct ToAdjacentlyTaggedDefaultExpandError {
    pub expand_tag: Option<StructTagExpandError>,
    pub expand_content: Option<ContentNotDefinedError>,
    pub expand_to_untagged: Option<CustomTokensExpandErrorOr<StructToDefaultExpandError>>,
}

impl IntoParseErrorWithSpan for ToAdjacentlyTaggedDefaultExpandError {
    open spec fn kinds_at(self, span: Span) -> Seq<ParseErrorKind> {
        opt_kinds(self.expand_tag, span) + opt_kinds(self.expand_content, span) + opt_kinds(
            self.expand_to_untagged,
            span,
        )
    }

    open spec fn reportable(self) -> bool {
        (self.expand_tag is Some || self.expand_content is Some || self.expand_to_untagged is Some)
            && opt_reportable(self.expand_to_untagged)
    }

    fn into_parse_error_with_span(self, span: Span) -> (r: ParseError) {
        let ToAdjacentlyTaggedDefaultExpandError { expand_tag, expand_content, expand_to_untagged } = self;
        let mut es = ErrorCollector::new();
        push_opt(&mut es, expand_tag, span);
        push_opt(&mut es, expand_content, span);
        push_opt(&mut es, expand_to_untagged, span);
        assert(Seq::<ParseErrorKind>::empty() + opt_kinds(expand_tag, span) + opt_kinds(expand_content, span)
            + opt_kinds(expand_to_untagged, span) =~= opt_kinds(expand_tag, span) + opt_kinds(
            expand_content,
            span,
        ) + opt_kinds(expand_to_untagged, span));
        collected(es)
    }
}

/// Why `@to` of a variant without `to` failed, by its tag mode.
pub enum EnumVariantToUnspecifiedExpandError {
    UntaggedOrExternallyTagged(CustomTokensExpandErrorOr<StructToDefaultExpandError>),
    InternallyTagged(StructToTaggedDefaultExpandError),
    AdjacentlyTagged(ToAdjacentlyTaggedDefaultExpandError),
}

impl IntoParseErrorWithSpan for EnumVariantToUnspecifiedExpandError {
    open spec fn kinds_at(self, span: Span) -> Seq<ParseErrorKind> {
        match self {
            EnumVariantToUnspecifiedExpandError::UntaggedOrExternallyTagged(e) => e.kinds_at(span),
            EnumVariantToUnspecifiedExpandError::InternallyTagged(e) => e.kinds_at(span),
            EnumVariantToUnspecifiedExpandError::AdjacentlyTagged(e) => e.kinds_at(span),
        }
    }

    open spec fn reportable(self) -> bool {
        match self {
            EnumVariantToUnspecifiedExpandError::UntaggedOrExternallyTagged(e) => e.reportable(),
            EnumVariantToUnspecifiedExpandError::InternallyTagged(e) => e.reportable(),
            EnumVariantToUnspecifiedExpandError::AdjacentlyTagged(e) => e.reportable(),
        }
    }

    fn into_parse_error_with_span(self, span: Span) -> (r: ParseError) {
        match self {
            EnumVariantToUnspecifiedExpandError::UntaggedOrExternallyTagged(e) => e.into_parse_error_with_span(span),
            EnumVariantToUnspecifiedExpandError::InternallyTagged(e) => e.into_parse_error_with_span(span),
            EnumVariantToUnspecifiedExpandError::AdjacentlyTagged(e) => e.into_parse_error_with_span(span),
        }
    }
}

/// The message and stand-in tokens for a property that refers to itself,
/// by what the property is.
pub trait HasConstCircularRefMsg {
    spec fn spec_circular_ref_msg() -> &'static str;

    spec fn spec_default_for_circular_ref() -> CircularDummy;

    fn circular_ref_msg() -> (r: &'static str)
        ensures
            r == Self::spec_circular_ref_msg(),
    ;

    fn default_for_circular_ref() -> (r: CircularDummy)
        ensures
            r == Self::spec_default_for_circular_ref(),
    ;
}

impl HasConstCircularRefMsg for StructFieldExpandToKvsDefaultError {
    open spec fn spec_circular_ref_msg() -> &'static str {
        "@to_kvs circularly references itself"
    }

    open spec fn spec_default_for_circular_ref() -> CircularDummy {
        CircularDummy::Braces
    }

    fn circular_ref_msg() -> (r: &'static str)
        ensures
            r == "@to_kvs circularly references itself",
    {
        "@to_kvs circularly references itself"
    }

    fn default_for_circular_ref() -> (r: CircularDummy)
        ensures
            r == CircularDummy::Braces,
    {
        CircularDummy::Braces
    }
}

impl HasConstCircularRefMsg for StructFieldExpandToItemsDefaultError {
    open spec fn spec_circular_ref_msg() -> &'static str {
        "@to_items circularly references itself"
    }

    open spec fn spec_default_for_circular_ref() -> CircularDummy {
        CircularDummy::Brackets
    }

    fn circular_ref_msg() -> (r: &'static str)
        ensures
            r == "@to_items circularly references itself",
    {
        "@to_items circularly references itself"
    }

    fn default_for_circular_ref() -> (r: CircularDummy)
        ensures
            r == CircularDummy::Brackets,
    {
        CircularDummy::Brackets
    }
}

impl HasConstCircularRefMsg for StructToDefaultExpandError {
    open spec fn spec_circular_ref_msg() -> &'static str {
        "@to on struct circularly references itself"
    }

    open spec fn spec_default_for_circular_ref() -> CircularDummy {
        CircularDummy::Null
    }

    fn circular_ref_msg() -> (r: &'static str)
        ensures
            r == "@to on struct circularly references itself",
    {
        "@to on struct circularly references itself"
    }

    fn default_for_circular_ref() -> (r: CircularDummy)
        ensures
            r == CircularDummy::Null,
    {
        CircularDummy::Null
    }
}

impl HasConstCircularRefMsg for StructToUnspecifiedExpandError {
    open spec fn spec_circular_ref_msg() -> &'static str {
        "@to on struct circularly references itself"
    }

    open spec fn spec_default_for_circular_ref() -> CircularDummy {
        CircularDummy::Null
    }

    fn circular_ref_msg() -> (r: &'static str)
        ensures
            r == "@to on struct circularly references itself",
    {
        "@to on struct circularly references itself"
    }

    fn default_for_circular_ref() -> (r: CircularDummy)
        ensures
            r == CircularDummy::Null,
    {
        CircularDummy::Null
    }
}

impl HasConstCircularRefMsg for StructToTaggedKvsDefaultExpandError {
    open spec fn spec_circular_ref_msg() -> &'static str {
        "@to_tagged_kvs on struct circularly references itself"
    }

    open spec fn spec_default_for_circular_ref() -> CircularDummy {
        CircularDummy::Braces
    }

    fn circular_ref_msg() -> (r: &'static str)
        ensures
            r == "@to_tagged_kvs on struct circularly references itself",
    {
        "@to_tagged_kvs on struct circularly references itself"
    }

    fn default_for_circular_ref() -> (r: CircularDummy)
        ensures
            r == CircularDummy::Braces,
    {
        CircularDummy::Braces
    }
}

impl<M> CustomTokensExpandError<M> {
    /// The same failure with the message of a circular reference replaced.
    pub fn map_circular_ref<R>(self, msg: R) -> (r: CustomTokensExpandError<R>)
        ensures
            match self {
                CustomTokensExpandError::CircularRef { .. } => r == CustomTokensExpandError::CircularRef { msg },
                CustomTokensExpandError::Other(e) => r == CustomTokensExpandError::<R>::Other(e),
            },
    {
        match self {
            CustomTokensExpandError::CircularRef { msg: _ } => CustomTokensExpandError::CircularRef { msg },
            CustomTokensExpandError::Other(e) => CustomTokensExpandError::Other(e),
        }
    }
}

impl CustomTokens {
    /// Expands the tokens with `ctx`; a reference to itself is reported with
    /// the message and stand-in tokens of `E`.
    pub fn expand_map_err<C: Context, E: HasConstCircularRefMsg>(self, ctx: &mut C) -> (r: (Vec<TokenTree>, Result<(), CustomTokensExpandErrorOr<E>>))
        ensures
            self.tokens is Calculating ==> {
                &&& deep_seq(r.0@) == dummy_tokens(E::spec_default_for_circular_ref(), self.span)
                &&& r.1 == Err::<(), CustomTokensExpandErrorOr<E>>(
                    CustomTokensExpandErrorOr::Custom(
                        CustomTokensExpandError::CircularRef { msg: E::spec_circular_ref_msg() },
                    ),
                )
                &&& *final(ctx) == *old(ctx)
            },
            self.tokens matches MaybeCalculating::NotCalculating(ts) ==> {
                &&& (r.1 is Ok || r.1 matches Err(CustomTokensExpandErrorOr::Custom(CustomTokensExpandError::Other(_))))
                &&& is_plain(ts@) ==> r.1 is Ok && deep_seq(r.0@) == deep_seq(ts@) && *final(ctx) == *old(ctx)
            },
    {
        let (ts, res) = self.expand(ctx, E::default_for_circular_ref(), E::circular_ref_msg());
        let res = match res {
            Ok(()) => Ok(()),
            Err(e) => Err(CustomTokensExpandErrorOr::Custom(e)),
        };
        (ts, res)
    }
}

} // verus!
