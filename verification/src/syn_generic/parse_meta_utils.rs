//! Attribute arguments of common shapes: a flag, `= value`, `(..)`.
use vstd::prelude::*;
use crate::syn_generic::tokens::{Span, Ident, TokenTree, Delimiter};
use crate::syn_generic::{
    ErrorCollector, ParseError, PunctEq, GroupParen, MetaAfterPath, ConsumedTokens, error_kinds,
    ParseErrorKind, errs,
};
use crate::syn_generic::parse_meta::{MetaToParse, ParseMeta};
use crate::item_attrs::IdentTree;

verus! {

/// A flag given with nothing after it, at the place of its name.
pub struct FlagPresent(pub Span);

/// `=` and what follows it.
pub struct EqValue<V> {
    pub eq: PunctEq,
    pub value: V,
}

/// An argument, with the place of its name.
pub struct MetaPathSpanWith<V>(pub Span, pub V);

/// What `errors` holds after `e` was added to it.
pub open spec fn pushed(before: ErrorCollector, after: ErrorCollector, e: ParseErrorKind) -> bool {
    errs(after) == errs(before).push(e)
}

impl ParseMeta for FlagPresent {
    /// The flag at the place of its name.
    open spec fn reads_as(path: Ident, after: MetaAfterPath<ConsumedTokens>, v: Self) -> bool {
        v == FlagPresent(path.span)
    }

    open spec fn refused(path: Ident, after: MetaAfterPath<ConsumedTokens>) -> Option<Seq<ParseErrorKind>> {
        None
    }

    /// Anything after the name is reported as `expect eof` where it starts.
    open spec fn reported(path: Ident, after: MetaAfterPath<ConsumedTokens>) -> Seq<ParseErrorKind> {
        match after {
            MetaAfterPath::Empty => Seq::empty(),
            MetaAfterPath::Group(g) => seq![
                ParseErrorKind::Custom { msg: "expect eof", span: Some(g.span_open) },
            ],
            MetaAfterPath::Eq { eq, .. } => seq![
                ParseErrorKind::Custom { msg: "expect eof", span: Some(eq.0.span) },
            ],
        }
    }

    open spec fn names_given(path: Ident, after: MetaAfterPath<ConsumedTokens>, names: Seq<IdentTree>) -> bool {
        names.len() == 0
    }

    fn parse_meta(input: MetaToParse, errors: &mut ErrorCollector, ident_trees: &mut Vec<IdentTree>) -> (r: Result<Self, ParseError>) {
        let span = input.path_span();
        match input.after_path {
            MetaAfterPath::Empty => {
                assert(errs(*errors) =~= errs(*old(errors)) + Seq::<ParseErrorKind>::empty());
            },
            MetaAfterPath::Group(group) => {
                errors.push_custom("expect eof", Some(group.span_open));
            },
            MetaAfterPath::Eq { eq, before_comma_or_eof: _ } => {
                errors.push_custom("expect eof", Some(eq.span()));
            },
        }
        assert(ident_trees@.subrange(0, ident_trees@.len() as int) =~= ident_trees@);
        Ok(FlagPresent(span))
    }
}

impl ParseMeta for EqValue<Vec<TokenTree>> {
    /// `=` and the tokens after it.
    open spec fn reads_as(path: Ident, after: MetaAfterPath<ConsumedTokens>, v: Self) -> bool {
        after matches MetaAfterPath::Eq { eq, before_comma_or_eof } && v.eq == eq && v.value@
            == before_comma_or_eof.tokens@
    }

    /// Anything but `=` is an error where it starts.
    open spec fn refused(path: Ident, after: MetaAfterPath<ConsumedTokens>) -> Option<Seq<ParseErrorKind>> {
        match after {
            MetaAfterPath::Empty => Some(
                seq![ParseErrorKind::Custom { msg: "expect ``= ...`", span: Some(path.span) }],
            ),
            MetaAfterPath::Group(g) => Some(
                seq![ParseErrorKind::Custom { msg: "expect ``= ...`", span: Some(g.span_open) }],
            ),
            MetaAfterPath::Eq { .. } => None,
        }
    }

    open spec fn reported(path: Ident, after: MetaAfterPath<ConsumedTokens>) -> Seq<ParseErrorKind> {
        Seq::empty()
    }

    open spec fn names_given(path: Ident, after: MetaAfterPath<ConsumedTokens>, names: Seq<IdentTree>) -> bool {
        names.len() == 0
    }

    fn parse_meta(input: MetaToParse, errors: &mut ErrorCollector, ident_trees: &mut Vec<IdentTree>) -> (r: Result<Self, ParseError>) {
        let path_span = input.path_span();
        assert(errs(*errors) =~= errs(*old(errors)) + Seq::<ParseErrorKind>::empty());
        assert(ident_trees@.subrange(0, ident_trees@.len() as int) =~= ident_trees@);
        match input.after_path {
            MetaAfterPath::Empty => Err(ParseError::custom("expect ``= ...`", Some(path_span))),
            MetaAfterPath::Group(group) => Err(
                ParseError::custom("expect ``= ...`", Some(group.span_open)),
            ),
            MetaAfterPath::Eq { eq, before_comma_or_eof } => Ok(
                EqValue { eq, value: before_comma_or_eof.tokens },
            ),
        }
    }
}

impl ParseMeta for GroupParen {
    /// A group in `(..)`.
    open spec fn reads_as(path: Ident, after: MetaAfterPath<ConsumedTokens>, v: Self) -> bool {
        after matches MetaAfterPath::Group(g) && g.delimiter == Delimiter::Parenthesis && v
            == GroupParen(g)
    }

    /// Anything else is an error where it starts.
    open spec fn refused(path: Ident, after: MetaAfterPath<ConsumedTokens>) -> Option<Seq<ParseErrorKind>> {
        match after {
            MetaAfterPath::Empty => Some(
                seq![ParseErrorKind::Custom { msg: "expect `(...)`", span: Some(path.span) }],
            ),
            MetaAfterPath::Group(g) => if g.delimiter == Delimiter::Parenthesis {
                None
            } else {
                Some(seq![ParseErrorKind::Custom { msg: "expect `(...)`", span: Some(g.span_open) }])
            },
            MetaAfterPath::Eq { eq, .. } => Some(
                seq![ParseErrorKind::Custom { msg: "expect `(...)`", span: Some(eq.0.span) }],
            ),
        }
    }

    open spec fn reported(path: Ident, after: MetaAfterPath<ConsumedTokens>) -> Seq<ParseErrorKind> {
        Seq::empty()
    }

    open spec fn names_given(path: Ident, after: MetaAfterPath<ConsumedTokens>, names: Seq<IdentTree>) -> bool {
        names.len() == 0
    }

    fn parse_meta(input: MetaToParse, errors: &mut ErrorCollector, ident_trees: &mut Vec<IdentTree>) -> (r: Result<Self, ParseError>) {
        let path_span = input.path_span();
        assert(errs(*errors) =~= errs(*old(errors)) + Seq::<ParseErrorKind>::empty());
        assert(ident_trees@.subrange(0, ident_trees@.len() as int) =~= ident_trees@);
        match input.after_path {
            MetaAfterPath::Empty => Err(ParseError::custom("expect `(...)`", Some(path_span))),
            MetaAfterPath::Group(group) => match GroupParen::try_from_group(group) {
                Ok(v) => Ok(v),
                Err(g) => Err(ParseError::custom("expect `(...)`", Some(g.span_open))),
            },
            MetaAfterPath::Eq { eq, before_comma_or_eof: _ } => Err(
                ParseError::custom("expect `(...)`", Some(eq.span())),
            ),
        }
    }
}

impl<V: ParseMeta> ParseMeta for MetaPathSpanWith<V> {
    /// What `V` reads, with the place of the name.
    open spec fn reads_as(path: Ident, after: MetaAfterPath<ConsumedTokens>, v: Self) -> bool {
        v.0 == path.span && V::reads_as(path, after, v.1)
    }

    open spec fn refused(path: Ident, after: MetaAfterPath<ConsumedTokens>) -> Option<Seq<ParseErrorKind>> {
        V::refused(path, after)
    }

    open spec fn reported(path: Ident, after: MetaAfterPath<ConsumedTokens>) -> Seq<ParseErrorKind> {
        V::reported(path, after)
    }

    open spec fn names_given(path: Ident, after: MetaAfterPath<ConsumedTokens>, names: Seq<IdentTree>) -> bool {
        V::names_given(path, after, names)
    }

    fn parse_meta(input: MetaToParse, errors: &mut ErrorCollector, ident_trees: &mut Vec<IdentTree>) -> (r: Result<Self, ParseError>) {
        let span = input.path_span();
        match V::parse_meta(input, errors, ident_trees) {
            Ok(v) => Ok(MetaPathSpanWith(span, v)),
            Err(e) => Err(e),
        }
    }
}

} // verus!
