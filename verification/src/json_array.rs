//! The inputs of `impl_json_array!`: JSON values written as `const {..}`,
//! known when compiling, or `runtime(..)`, computed when running.
use vstd::prelude::*;
use crate::syn_generic::tokens::{Span, Ident, TokenTree, Delimiter, is_ident_named};

verus! {

/// The input is not a JSON value expression.
#[derive(Debug, PartialEq, Eq, Structural)]
pub struct ParseError;

/// A value with the place it was written at.
pub struct Spanned<T>(pub Span, pub T);

/// How a JSON value expression starts.
#[derive(Debug, Clone, Copy, PartialEq, Eq, Structural)]
pub enum JsonValueExprPrefix {
    Const,
    Runtime,
}

/// `const`
pub open spec fn kw_const_prefix() -> Seq<u8> {
    seq![99u8, 111u8, 110u8, 115u8, 116u8]
}

/// `runtime`
pub open spec fn kw_runtime() -> Seq<u8> {
    seq![114u8, 117u8, 110u8, 116u8, 105u8, 109u8, 101u8]
}

impl JsonValueExprPrefix {
    /// `const` or `runtime`, at the place of the identifier.
    pub fn parse_ident(ident: &Ident) -> (r: Option<Spanned<Self>>)
        ensures
            ident.name@ == kw_const_prefix() ==> (r matches Some(s) && s.0 == ident.span && s.1
                == JsonValueExprPrefix::Const),
            ident.name@ == kw_runtime() ==> (r matches Some(s) && s.0 == ident.span && s.1
                == JsonValueExprPrefix::Runtime),
            ident.name@ != kw_const_prefix() && ident.name@ != kw_runtime() ==> r is None,
    {
        let span = ident.span;
        if ident.matches(&[99u8, 111u8, 110u8, 115u8, 116u8]) {
            assert(seq![99u8, 111u8, 110u8, 115u8, 116u8] =~= kw_const_prefix());
            Some(Spanned(span, JsonValueExprPrefix::Const))
        } else if ident.matches(&[114u8, 117u8, 110u8, 116u8, 105u8, 109u8, 101u8]) {
            assert(seq![114u8, 117u8, 110u8, 116u8, 105u8, 109u8, 101u8] =~= kw_runtime());
            Some(Spanned(span, JsonValueExprPrefix::Runtime))
        } else {
            assert(seq![99u8, 111u8, 110u8, 115u8, 116u8] =~= kw_const_prefix());
            assert(seq![114u8, 117u8, 110u8, 116u8, 105u8, 109u8, 101u8] =~= kw_runtime());
            None
        }
    }
}

/// A JSON value: `const` and a block, or `runtime` and an expression in
/// parentheses, with the place of the first word.
pub enum JsonValueExpr {
    Const { prefix_span: Span, block: TokenTree },
    Runtime { prefix_span: Span, paren_expr: TokenTree },
}

/// What reading a JSON value expression from `ts` gives: exactly two
/// tokens, the first `const` or `runtime`.
pub open spec fn json_value_expr_read(ts: Seq<TokenTree>, r: Result<JsonValueExpr, ParseError>) -> bool {
    if ts.len() == 2 && is_ident_named(ts[0], kw_const_prefix()) {
        r matches Ok(JsonValueExpr::Const { prefix_span, block }) && prefix_span == ts[0]->Ident_0.span
            && block == ts[1]
    } else if ts.len() == 2 && is_ident_named(ts[0], kw_runtime()) {
        r matches Ok(JsonValueExpr::Runtime { prefix_span, paren_expr }) && prefix_span
            == ts[0]->Ident_0.span && paren_expr == ts[1]
    } else {
        r == Err::<JsonValueExpr, ParseError>(ParseError)
    }
}

impl JsonValueExpr {
    /// Reads `const {..}` or `runtime(..)`; anything else is an error.
    pub fn parse(ts: Vec<TokenTree>) -> (r: Result<Self, ParseError>)
        ensures
            json_value_expr_read(ts@, r),
    {
        let ghost t0 = ts@;
        if ts.len() != 2 {
            return Err(ParseError);
        }
        let mut ts = ts;
        let second = ts.pop().unwrap();
        let first = ts.pop().unwrap();
        match first {
            TokenTree::Ident(ident) => match JsonValueExprPrefix::parse_ident(&ident) {
                Some(Spanned(prefix_span, JsonValueExprPrefix::Const)) => Ok(
                    JsonValueExpr::Const { prefix_span, block: second },
                ),
                Some(Spanned(prefix_span, JsonValueExprPrefix::Runtime)) => Ok(
                    JsonValueExpr::Runtime { prefix_span, paren_expr: second },
                ),
                None => Err(ParseError),
            },
            _ => Err(ParseError),
        }
    }

    /// The value is computed when running.
    pub fn is_runtime(&self) -> (r: bool)
        ensures
            r == (self is Runtime),
    {
        match self {
            JsonValueExpr::Runtime { .. } => true,
            JsonValueExpr::Const { .. } => false,
        }
    }
}

/// Reads `(const {..})` or `(runtime(..))`: a group in parentheses holding
/// a JSON value expression.
pub fn parse_paren_json_value_expr(tt: TokenTree) -> (r: Result<JsonValueExpr, ParseError>)
    ensures
        match tt {
            TokenTree::Group(g) => if g.delimiter == Delimiter::Parenthesis {
                json_value_expr_read(g.stream@, r)
            } else {
                r == Err::<JsonValueExpr, ParseError>(ParseError)
            },
            _ => r == Err::<JsonValueExpr, ParseError>(ParseError),
        },
{
    match tt {
        TokenTree::Group(group) => {
            if group.delimiter == Delimiter::Parenthesis {
                JsonValueExpr::parse(group.stream)
            } else {
                Err(ParseError)
            }
        },
        _ => Err(ParseError),
    }
}

} // verus!
