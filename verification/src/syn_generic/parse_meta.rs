//! An attribute argument to be read: its name and what follows it.
use vstd::prelude::*;
use crate::syn_generic::tokens::{Span, Ident};
use crate::syn_generic::{
    ErrorCollector, ParseError, ParseErrorKind, MetaAfterPath, ConsumedTokens, errs, error_kinds,
};
use crate::item_attrs::IdentTree;

verus! {

/// An attribute argument: the identifier it is named by and what follows.
pub struct MetaToParse<'a> {
    pub path: &'a Ident,
    pub after_path: MetaAfterPath<ConsumedTokens>,
}

impl<'a> MetaToParse<'a> {
    /// The place of the name.
    pub fn path_span(&self) -> (r: Span)
        ensures
            r == self.path.span,
    {
        self.path.span
    }

    /// The argument named by `path` and followed by `after_path`.
    pub fn from_ident(path: &'a Ident, after_path: MetaAfterPath<ConsumedTokens>) -> (r: Self)
        ensures
            *r.path == *path,
            r.after_path == after_path,
    {
        MetaToParse { path, after_path }
    }
}

/// A value read from an attribute argument: what it reads as, the errors
/// that refuse it, the errors reported along the way, and the names it
/// gives.
pub trait ParseMeta: Sized {
    /// `v` is what the argument named `path`, followed by `after`, reads as.
    spec fn reads_as(path: Ident, after: MetaAfterPath<ConsumedTokens>, v: Self) -> bool;

    /// The errors of the argument when it is refused, `None` when it is
    /// read.
    spec fn refused(path: Ident, after: MetaAfterPath<ConsumedTokens>) -> Option<Seq<ParseErrorKind>>;

    /// The errors reported to the collector, whatever the outcome.
    spec fn reported(path: Ident, after: MetaAfterPath<ConsumedTokens>) -> Seq<ParseErrorKind>;

    /// `names` are the names that the argument adds.
    spec fn names_given(path: Ident, after: MetaAfterPath<ConsumedTokens>, names: Seq<IdentTree>) -> bool;

    /// Reads the argument.
    fn parse_meta(input: MetaToParse, errors: &mut ErrorCollector, ident_trees: &mut Vec<IdentTree>) -> (r: Result<Self, ParseError>)
        ensures
            match r {
                Ok(v) => Self::refused(*input.path, input.after_path) is None
                    && Self::reads_as(*input.path, input.after_path, v),
                Err(e) => Self::refused(*input.path, input.after_path) == Some(error_kinds(e)),
            },
            errs(*final(errors)) == errs(*old(errors)) + Self::reported(*input.path, input.after_path),
            final(ident_trees)@.len() >= old(ident_trees)@.len(),
            final(ident_trees)@.subrange(0, old(ident_trees)@.len() as int) == old(ident_trees)@,
            Self::names_given(
                *input.path,
                input.after_path,
                final(ident_trees)@.subrange(old(ident_trees)@.len() as int, final(ident_trees)@.len() as int),
            ),
    ;
}

} // verus!
