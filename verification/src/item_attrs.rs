//! The configuration arguments of the item attribute: `crate(..)` and
//! `where = (..)`.
use vstd::prelude::*;
use crate::syn_generic::tokens::{
    Span, Ident, TokenTree, span_open_or_entire, span_close_or_entire, kw_crate, kw_where,
    bytes_crate, bytes_where,
};
use crate::syn_generic::{
    ErrorCollector, ParseError, ParseErrorKind, MetaAfterPath, MetaSimple, ConsumedTokens,
    error_kinds, ParsingTokenStream, parse_meta_after_path, meta_after_path_matches, take_n,
    is_custom, is_eof_after, StreamState, comma_scan, parse_meta_simple, lemma_take_n_twice, errs,
};
use vstd::string::StringSliceAdditionalSpecFns;
use crate::json_item::PushMetaSimple;
use crate::syn_generic::tokens::{bytes_to_vec, is_ident_named};
use crate::syn_generic::tokens::{
    DeepToken, Punct, Spacing, Group, Delimiter, deep_seq, lemma_deep_seq_add, lemma_deep_seq_push,
    lemma_deep_seq_index,
};

verus! {

/// Names read from attributes, with the module names they stand for.
pub struct IdentTree {
    pub ident: Ident,
    pub mod_name: &'static str,
    pub children: Vec<IdentTree>,
}

/// Bounds to add to the where clause, and where `where` was written.
pub struct ItemAttrWhere {
    pub where_span: Span,
    pub bound: Vec<TokenTree>,
}

/// The configuration read so far, and the arguments for the item itself.
pub struct ItemAttrsParser {
    pub crate_path: Option<Vec<TokenTree>>,
    pub where_: Option<ItemAttrWhere>,
    pub item_attrs: crate::json_item::ItemAttrsParser,
}

/// What an attribute argument turned out to be.
pub enum AttrMeta {
    /// A configuration argument, read here.
    Config(IdentTree),
    /// An argument for the item itself, handed back unread.
    Item(MetaSimple<ConsumedTokens>),
}

/// `crate_`
pub open spec fn kw_crate_() -> Seq<u8> {
    kw_crate().push(95u8)
}

/// `where_`
pub open spec fn kw_where_() -> Seq<u8> {
    kw_where().push(95u8)
}

/// The configuration an argument name stands for: `crate`, `crate_`,
/// `where` or `where_`; whether it is `crate`, and the module name its
/// names go to.
pub open spec fn config_of(name: Seq<u8>) -> Option<(bool, Seq<char>)> {
    if name == kw_crate() {
        Some((true, "crate_"@))
    } else if name == kw_crate_() {
        Some((true, ""@))
    } else if name == kw_where() {
        Some((false, "r#where"@))
    } else if name == kw_where_() {
        Some((false, ""@))
    } else {
        None
    }
}

/// `errors` after is `errors` before with one message at a place added.
pub open spec fn pushed_one(before: ErrorCollector, after: ErrorCollector, msg: Seq<char>, span: Option<Span>) -> bool {
    after.0 is Some && exists|m: &'static str|
        m@ == msg && error_kinds(after.0.unwrap()) == match before.0 {
            Some(prev) => error_kinds(prev) + seq![ParseErrorKind::Custom { msg: m, span }],
            None => seq![ParseErrorKind::Custom { msg: m, span }],
        }
}

/// The message and place of the error of `crate(..)`, if any.
pub open spec fn crate_error(p: ItemAttrsParser, path: Ident, after: MetaAfterPath<ConsumedTokens>) -> Option<(Seq<char>, Span)> {
    if p.crate_path is Some {
        Some(("duplicated attribute `crate`"@, path.span))
    } else {
        match after {
            MetaAfterPath::Empty => Some(("expect `crate(::path::to::crate_cjson)`"@, path.span)),
            MetaAfterPath::Group(_) => None,
            MetaAfterPath::Eq { eq, .. } => Some(("expect `crate(::path::to::crate_cjson)`"@, eq.0.span)),
        }
    }
}

/// The message and place of the error of `where = (..)`, if any; a second
/// error that may come after a good value is not counted here.
pub open spec fn where_error(p: ItemAttrsParser, path: Ident, after: MetaAfterPath<ConsumedTokens>) -> Option<(Seq<char>, Span)> {
    if p.where_ is Some {
        Some(("duplicated attribute `where`"@, path.span))
    } else {
        match after {
            MetaAfterPath::Empty => Some(("expect `where = (Bounds:)`"@, path.span)),
            MetaAfterPath::Group(g) => Some(("expect `where = (Bounds:)`"@, g.span_open)),
            MetaAfterPath::Eq { eq, before_comma_or_eof } => {
                let toks = before_comma_or_eof.tokens@;
                if toks.len() == 0 {
                    Some(("expect `where = (Bounds:)`"@, eq.0.span))
                } else if toks[0] is Group {
                    None
                } else {
                    Some(("expect `where = (Bounds:)`"@, span_open_or_entire(toks[0])))
                }
            },
        }
    }
}

/// Reading the configuration argument named `path` into `a` gives `b`:
/// the value when it is well formed and the slot empty, else the first
/// error; the arguments of the item stay.
pub open spec fn config_state_read(
    a: ItemAttrsParser,
    b: ItemAttrsParser,
    e0: ErrorCollector,
    e1: ErrorCollector,
    path: Ident,
    after: MetaAfterPath<ConsumedTokens>,
) -> bool {
    match config_of(path.name@) {
        None => false,
        Some((is_crate, mod_name)) => {
            &&& b.item_attrs == a.item_attrs
            &&& if is_crate {
                &&& b.where_ == a.where_
                &&& match crate_error(a, path, after) {
                    Some((msg, sp)) => b.crate_path == a.crate_path
                        && pushed_one(e0, e1, msg, Some(sp)),
                    None => (after matches MetaAfterPath::Group(g)
                        && b.crate_path == Some(g.stream))
                        && e1 == e0,
                }
            } else {
                &&& b.crate_path == a.crate_path
                &&& match where_error(a, path, after) {
                    Some((msg, sp)) => b.where_ == a.where_
                        && pushed_one(e0, e1, msg, Some(sp)),
                    None => after matches MetaAfterPath::Eq { before_comma_or_eof, .. }
                        && (before_comma_or_eof.tokens@[0] matches TokenTree::Group(g)
                        && b.where_ matches Some(w) && w.where_span == path.span
                        && w.bound == g.stream)
                        && if before_comma_or_eof.tokens@.len() == 1 {
                            e1 == e0
                        } else {
                            pushed_one(
                                e0,
                                e1,
                                "expect eof"@,
                                Some(span_close_or_entire(before_comma_or_eof.tokens@[0])),
                            )
                        },
                }
            }
        },
    }
}

/// Reading the configuration argument named `path` into `a` gives `b`
/// and the name `t`: the name with its module name and no children, and
/// `config_state_read`.
pub open spec fn config_read(
    a: ItemAttrsParser,
    b: ItemAttrsParser,
    e0: ErrorCollector,
    e1: ErrorCollector,
    path: Ident,
    after: MetaAfterPath<ConsumedTokens>,
    t: IdentTree,
) -> bool {
    match config_of(path.name@) {
        None => false,
        Some((_, mod_name)) => {
            &&& t.ident == path
            &&& t.mod_name@ == mod_name
            &&& t.children@.len() == 0
            &&& config_state_read(a, b, e0, e1, path, after)
        },
    }
}

impl ItemAttrsParser {
    /// Nothing read yet, as a value.
    pub open spec fn new_spec() -> Self {
        ItemAttrsParser {
            crate_path: None,
            where_: None,
            item_attrs: crate::json_item::ItemAttrsParser::new_spec(),
        }
    }

    /// Nothing read yet.
    pub fn new() -> (r: Self)
        ensures
            r == Self::new_spec(),
            r.crate_path is None,
            r.where_ is None,
            r.item_attrs == crate::json_item::ItemAttrsParser::new_spec(),
    {
        ItemAttrsParser {
            crate_path: None,
            where_: None,
            item_attrs: crate::json_item::ItemAttrsParser::new(),
        }
    }

    /// Reads `crate(..)` or `where = (..)` (and `crate_`, `where_`), and
    /// hands any other argument back. A duplicated or misshapen
    /// configuration is reported to `errors` and the first one stays.
    pub fn extend_one_attr_meta(&mut self, meta: MetaSimple<ConsumedTokens>, errors: &mut ErrorCollector) -> (r: AttrMeta)
        ensures
            final(self).item_attrs == old(self).item_attrs,
            match config_of(meta.path.name@) {
                None => r == AttrMeta::Item(meta) && final(self).crate_path == old(self).crate_path
                    && final(self).where_ == old(self).where_ && *final(errors) == *old(errors),
                Some(_) => r matches AttrMeta::Config(t) && config_read(
                    *old(self),
                    *final(self),
                    *old(errors),
                    *final(errors),
                    meta.path,
                    meta.after_path,
                    t,
                ),
            },
    {
        let name = meta.path.name.as_slice();
        let crate_b = bytes_crate();
        let where_b = bytes_where();
        let is_crate = crate::syn_generic::tokens::bytes_eq(name, crate_b);
        let is_crate_ = name.len() == 6 && crate::syn_generic::tokens::bytes_eq(
            slice_prefix(name, 5),
            crate_b,
        ) && name[5] == 95u8;
        let is_where = crate::syn_generic::tokens::bytes_eq(name, where_b);
        let is_where_ = name.len() == 6 && crate::syn_generic::tokens::bytes_eq(
            slice_prefix(name, 5),
            where_b,
        ) && name[5] == 95u8;
        proof {
            if name@.len() == 6 {
                assert(name@ =~= name@.subrange(0, 5).push(name@[5]));
            }
            if name@ == kw_crate_() {
                assert(name@.subrange(0, 5) =~= kw_crate());
            }
            if name@ == kw_where_() {
                assert(name@.subrange(0, 5) =~= kw_where());
            }
        }
        if !(is_crate || is_crate_ || is_where || is_where_) {
            return AttrMeta::Item(meta);
        }
        let mod_name: &'static str = if is_crate {
            "crate_"
        } else if is_crate_ {
            ""
        } else if is_where {
            "r#where"
        } else {
            ""
        };
        let MetaSimple { path, after_path } = meta;
        if is_crate || is_crate_ {
            if self.crate_path.is_some() {
                errors.push_custom("duplicated attribute `crate`", Some(path.span));
            } else {
                match after_path {
                    MetaAfterPath::Empty => {
                        errors.push_custom("expect `crate(::path::to::crate_cjson)`", Some(path.span));
                    },
                    MetaAfterPath::Group(group) => {
                        self.crate_path = Some(group.stream);
                    },
                    MetaAfterPath::Eq { eq, before_comma_or_eof: _ } => {
                        errors.push_custom("expect `crate(::path::to::crate_cjson)`", Some(eq.span()));
                    },
                }
            }
        } else {
            if self.where_.is_some() {
                errors.push_custom("duplicated attribute `where`", Some(path.span));
            } else {
                match after_path {
                    MetaAfterPath::Empty => {
                        errors.push_custom("expect `where = (Bounds:)`", Some(path.span));
                    },
                    MetaAfterPath::Group(group) => {
                        errors.push_custom("expect `where = (Bounds:)`", Some(group.span_open));
                    },
                    MetaAfterPath::Eq { eq, before_comma_or_eof } => {
                        let mut value = before_comma_or_eof.parse();
                        match value.next() {
                            Some(TokenTree::Group(g)) => {
                                match value.expect_eof() {
                                    Err(e) => errors.push(e),
                                    Ok(()) => {},
                                }
                                self.where_ = Some(ItemAttrWhere { where_span: path.span, bound: g.stream });
                            },
                            Some(t) => {
                                errors.push_custom("expect `where = (Bounds:)`", Some(t.span_open_or_entire()));
                            },
                            None => {
                                errors.push_custom("expect `where = (Bounds:)`", Some(eq.span()));
                            },
                        }
                    },
                }
            }
        }
        AttrMeta::Config(IdentTree { ident: path, mod_name, children: Vec::new() })
    }
}

/// The first `n` bytes.
fn slice_prefix(s: &[u8], n: usize) -> (r: &[u8])
    requires
        n <= s@.len(),
    ensures
        r@ == s@.subrange(0, n as int),
{
    let (a, _) = s.split_at(n);
    a
}


/// An identifier that displays as `name`, at `span`.
pub fn make_ident(name: &str, span: Span) -> (r: Ident)
    ensures
        r.name@ == name.spec_bytes(),
        r.span == span,
{
    Ident { name: bytes_to_vec(name.as_bytes()), span }
}

impl IdentTree {
    /// The name the tree stands for (its module name when it has one, at
    /// the place of its identifier) and its children.
    pub fn into_name_and_children(self) -> (r: (Ident, Vec<IdentTree>))
        ensures
            self.mod_name.spec_bytes().len() == 0 ==> r.0 == self.ident,
            self.mod_name.spec_bytes().len() != 0 ==> r.0.name@ == self.mod_name.spec_bytes() && r.0.span
                == self.ident.span,
            r.1 == self.children,
    {
        let name = if self.mod_name.as_bytes().len() == 0 {
            self.ident
        } else {
            make_ident(self.mod_name, self.ident.span)
        };
        (name, self.children)
    }
}

/// The name a tree stands for: its module name when it has one, at the
/// place of its identifier.
pub open spec fn tree_name(t: IdentTree) -> DeepToken {
    if t.mod_name.spec_bytes().len() == 0 {
        DeepToken::Ident(t.ident.name@, t.ident.span)
    } else {
        DeepToken::Ident(t.mod_name.spec_bytes(), t.ident.span)
    }
}

/// The path a tree of names stands for in a `use` item: `name::{ child, .. }`.
pub open spec fn tree_tokens(t: IdentTree) -> Seq<DeepToken>
    decreases t, 1nat,
{
    proof {
        assert(decreases_to!(t.children => t.children@)) by {
            broadcast use vstd::std_specs::vec::axiom_vec_decreases_to_view;
        }
    }
    seq![
        tree_name(t),
        DeepToken::Punct(Punct { ch: ':', spacing: Spacing::Joint, span: Span(0) }),
        DeepToken::Punct(Punct { ch: ':', spacing: Spacing::Alone, span: Span(0) }),
        DeepToken::Group(Delimiter::Brace, children_tokens(t.children@), Span(0), Span(0)),
    ]
}

/// The paths of the children, each followed by `,`.
pub open spec fn children_tokens(cs: Seq<IdentTree>) -> Seq<DeepToken>
    decreases cs, 0nat,
{
    if cs.len() == 0 {
        Seq::empty()
    } else {
        tree_tokens(cs[0]) + seq![DeepToken::Punct(Punct { ch: ',', spacing: Spacing::Alone, span: Span(0) })]
            + children_tokens(cs.subrange(1, cs.len() as int))
    }
}

/// Adding one more child adds its path and `,` at the end.
pub proof fn lemma_children_tokens_push(cs: Seq<IdentTree>, c: IdentTree)
    ensures
        children_tokens(cs.push(c)) == children_tokens(cs) + tree_tokens(c) + seq![
            DeepToken::Punct(Punct { ch: ',', spacing: Spacing::Alone, span: Span(0) }),
        ],
    decreases cs.len(),
{
    let comma = seq![DeepToken::Punct(Punct { ch: ',', spacing: Spacing::Alone, span: Span(0) })];
    if cs.len() == 0 {
        assert(cs.push(c).subrange(1, 1) =~= Seq::<IdentTree>::empty());
        assert(cs.push(c)[0] == c);
        assert(children_tokens(Seq::<IdentTree>::empty()) =~= Seq::<DeepToken>::empty());
        assert(children_tokens(cs.push(c)) =~= tree_tokens(c) + comma);
        assert(children_tokens(cs) =~= Seq::<DeepToken>::empty());
    } else {
        let rest = cs.subrange(1, cs.len() as int);
        lemma_children_tokens_push(rest, c);
        assert(cs.push(c).subrange(1, cs.len() as int + 1) =~= rest.push(c));
        assert(children_tokens(cs.push(c)) =~= tree_tokens(cs[0]) + comma + children_tokens(rest.push(c)));
        assert(children_tokens(cs) + tree_tokens(c) + comma =~= tree_tokens(cs[0]) + comma + (children_tokens(rest) + tree_tokens(c) + comma));
    }
}

impl IdentTree {
    /// The path the tree stands for in a `use` item: its name, `::` and its
    /// children in braces, each followed by `,`.
    pub fn into_tokens(self) -> (r: Vec<TokenTree>)
        ensures
            deep_seq(r@) == tree_tokens(self),
        decreases self,
    {
        let ghost this = self;
        let (ident, children) = self.into_name_and_children();
        let ghost cs0 = children@;
        proof {
            assert(decreases_to!(this.children => this.children@)) by {
                broadcast use vstd::std_specs::vec::axiom_vec_decreases_to_view;
            }
        }
        let mut inner: Vec<TokenTree> = Vec::new();
        assert(cs0.len() <= usize::MAX) by {
            assert(children@.len() == children.len());
        }
        let mut rest = children;
        let mut k: usize = 0;
        proof {
            assert(cs0.subrange(0, 0) =~= Seq::<IdentTree>::empty());
            assert(deep_seq(inner@) =~= Seq::<DeepToken>::empty());
        }
        while rest.len() > 0
            invariant
                k <= cs0.len(),
                rest@ == cs0.subrange(k as int, cs0.len() as int),
                k + rest@.len() == cs0.len(),
                cs0.len() <= usize::MAX,
                deep_seq(inner@) == children_tokens(cs0.subrange(0, k as int)),
                cs0 == this.children@,
                this == self,
            decreases rest@.len(),
        {
            let child = rest.remove(0);
            proof {
                assert(child == cs0[k as int]);
                assert(decreases_to!(this => child)) by {
                    broadcast use vstd::std_specs::vec::axiom_vec_decreases_to_view;
                    assert(decreases_to!(this => this.children));
                    assert(decreases_to!(this.children => this.children@));
                    assert(decreases_to!(this.children@ => this.children@[k as int]));
                }
            }
            let ts = child.into_tokens();
            proof {
                lemma_children_tokens_push(cs0.subrange(0, k as int), child);
                assert(cs0.subrange(0, k as int).push(child) =~= cs0.subrange(0, k as int + 1));
                lemma_deep_seq_add(inner@, ts@);
            }
            let mut ts = ts;
            inner.append(&mut ts);
            let ghost before = inner@;
            inner.push(TokenTree::Punct(Punct { ch: ',', spacing: Spacing::Alone, span: Span(0) }));
            proof {
                lemma_deep_seq_push(before, inner@.last());
                assert(before.push(inner@.last()) =~= inner@);
            }
            k = k + 1;
            proof {
                assert(rest@ =~= cs0.subrange(k as int, cs0.len() as int));
            }
        }
        proof {
            assert(cs0.subrange(0, k as int) =~= cs0);
        }
        let ghost ig = deep_seq(inner@);
        let mut out: Vec<TokenTree> = Vec::new();
        out.push(TokenTree::Ident(ident));
        out.push(TokenTree::Punct(Punct { ch: ':', spacing: Spacing::Joint, span: Span(0) }));
        out.push(TokenTree::Punct(Punct { ch: ':', spacing: Spacing::Alone, span: Span(0) }));
        out.push(TokenTree::Group(Group { delimiter: Delimiter::Brace, stream: inner, span_open: Span(0), span_close: Span(0) }));
        proof {
            lemma_deep_seq_index(out@);
            assert(deep_seq(out@) =~= tree_tokens(this));
        }
        out
    }
}

/// `cjson`
pub open spec fn kw_cjson() -> Seq<u8> {
    seq![99u8, 106u8, 115u8, 111u8, 110u8]
}

/// `t` is what reading the attribute `cjson(..)` with `P` gives: the name
/// `cjson` with the names of the arguments between its brackets that `P`
/// takes.
pub open spec fn top_level_tree<P: PushMetaSimple>(toks: Seq<TokenTree>, t: IdentTree) -> bool {
    &&& toks.len() > 0
    &&& TokenTree::Ident(t.ident) == toks[0]
    &&& t.mod_name@ == ""@
    &&& if toks.len() > 1 && toks[1] is Group {
        tree_names(t.children@) == taken_names::<P>(
            StreamState { toks: toks[1]->Group_0.stream@, prev: None },
        )
    } else {
        t.children@.len() == 0
    }
}

/// Reading the attribute `cjson(..)` takes the set from `p0` to `p1`:
/// through the arguments between its brackets, when a group follows the
/// name.
pub open spec fn top_level_args<P: PushMetaSimple>(toks: Seq<TokenTree>, p0: P, p1: P) -> bool {
    if toks.len() > 1 && toks[1] is Group {
        args_read::<P>(p0, StreamState { toks: toks[1]->Group_0.stream@, prev: None }, p1)
    } else {
        p1 == p0
    }
}

/// The outcome of reading the attribute `cjson(..)` with `P`: an error for
/// an empty attribute or one not named `cjson`, else `top_level_tree`.
pub open spec fn top_level_read<P: PushMetaSimple>(toks: Seq<TokenTree>, r: Result<IdentTree, ParseError>) -> bool {
    if toks.len() == 0 {
        r matches Err(e) && is_eof_after(e, None)
    } else if !is_ident_named(toks[0], kw_cjson()) {
        r matches Err(e) && is_custom(e, "expect `cjson`"@, Some(span_open_or_entire(toks[0])))
            && error_kinds(e) == not_cjson_errors(toks)
    } else {
        r matches Ok(t) && top_level_tree::<P>(toks, t)
    }
}

/// The error for an attribute whose tokens in brackets do not start with
/// `cjson`.
pub open spec fn not_cjson_errors(toks: Seq<TokenTree>) -> Seq<ParseErrorKind> {
    if toks.len() == 0 {
        seq![ParseErrorKind::UnexpectedEof { after: None }]
    } else {
        seq![ParseErrorKind::Custom { msg: "expect `cjson`", span: Some(span_open_or_entire(toks[0])) }]
    }
}

/// Reading the attribute `cjson(..)`, given by the tokens in its brackets,
/// takes the set from `p0` to `p1` and reports `es`: an attribute not named
/// `cjson` is refused; `cjson = ..` is reported; the arguments between the
/// brackets are read as `args_errs` says; tokens after them are reported
/// as not the end.
pub open spec fn top_level_errs<P: PushMetaSimple>(toks: Seq<TokenTree>, p0: P, p1: P, es: Seq<ParseErrorKind>) -> bool {
    if toks.len() == 0 || !is_ident_named(toks[0], kw_cjson()) {
        p1 == p0 && es == not_cjson_errors(toks)
    } else {
        let st2 = after_meta_path(take_n(StreamState { toks, prev: None }, 1));
        if toks.len() > 1 && toks[1] is Group {
            exists|es1: Seq<ParseErrorKind>|
                #[trigger] args_errs::<P>(p0, StreamState { toks: toks[1]->Group_0.stream@, prev: None }, p1, es1)
                    && es == es1 + eof_errs(st2)
        } else if toks.len() > 1 && crate::syn_generic::tokens::is_punct(toks[1], '=') {
            p1 == p0 && es == seq![ParseErrorKind::Custom { msg: "expect `()`", span: Some(toks[1]->Punct_0.span) }]
                + eof_errs(st2)
        } else {
            p1 == p0 && es == eof_errs(st2)
        }
    }
}

/// Reads the attribute `cjson(..)`: its name, and the arguments between its
/// brackets through `parser`. `cjson = ..` and anything after the brackets
/// are reported to `errors`.
pub fn try_push_top_level_attr_meta<P: PushMetaSimple>(attr_meta: Vec<TokenTree>, parser: &mut P, errors: &mut ErrorCollector) -> (r: Result<IdentTree, ParseError>)
    ensures
        top_level_read::<P>(attr_meta@, r),
        r is Err ==> *final(errors) == *old(errors) && *final(parser) == *old(parser),
        r is Ok ==> top_level_args::<P>(attr_meta@, *old(parser), *final(parser)),
        r is Ok ==> exists|es: Seq<ParseErrorKind>|
            errs(*final(errors)) == errs(*old(errors)) + es && #[trigger] top_level_errs::<P>(
                attr_meta@,
                *old(parser),
                *final(parser),
                es,
            ),
{
    let ghost toks = attr_meta@;
    let mut input = ParsingTokenStream::new(attr_meta);
    let cjson = match input.next_or_error() {
        Ok(t) => t,
        Err(e) => {
            return Err(e);
        },
    };
    let name = match cjson {
        TokenTree::Ident(ident) => {
            if ident.matches(&[99u8, 106u8, 115u8, 111u8, 110u8]) {
                ident
            } else {
                return Err(ParseError::custom("expect `cjson`", Some(ident.span)));
            }
        },
        t => {
            return Err(ParseError::custom("expect `cjson`", Some(t.span_open_or_entire())));
        },
    };
    proof {
        assert(seq![99u8, 106u8, 115u8, 111u8, 110u8] =~= kw_cjson());
    }
    let ghost st1 = input.state();
    assert(st1 == take_n(StreamState { toks, prev: None }, 1));
    let ghost e_start = errs(*errors);
    let ghost p_start = *parser;
    let after = parse_meta_after_path(&mut input);
    let ghost mid: Seq<ParseErrorKind>;
    let children = match after {
        MetaAfterPath::Empty => {
            proof { mid = Seq::empty(); }
            Vec::new()
        },
        MetaAfterPath::Group(group) => {
            let ghost gs = group.stream@;
            let c = extend_attr_meta(group.stream, parser, errors);
            proof {
                mid = errs(*errors).subrange(e_start.len() as int, errs(*errors).len() as int);
                let es1 = choose|es1: Seq<ParseErrorKind>|
                    errs(*errors) == e_start + es1 && #[trigger] args_errs::<P>(
                        p_start,
                        StreamState { toks: gs, prev: None },
                        *parser,
                        es1,
                    );
                assert(mid =~= es1);
            }
            c
        },
        MetaAfterPath::Eq { eq, before_comma_or_eof: _ } => {
            errors.push_custom("expect `()`", Some(eq.span()));
            proof { mid = seq![ParseErrorKind::Custom { msg: "expect `()`", span: Some(eq.0.span) }]; }
            Vec::new()
        },
    };
    assert(errs(*errors) =~= e_start + mid);
    let ghost st2 = input.state();
    match input.expect_eof() {
        Err(e) => errors.push(e),
        Ok(()) => {},
    }
    proof {
        assert(errs(*errors) =~= e_start + (mid + eof_errs(st2)));
        assert(top_level_errs::<P>(toks, p_start, *parser, mid + eof_errs(st2)));
    }
    Ok(IdentTree { ident: name, mod_name: "", children })
}

/// Reads the attribute `cjson(..)` as `try_push_top_level_attr_meta` does;
/// its error, if any, is reported to `errors` and nothing is given.
pub fn push_top_level_attr_meta_with_one<P: PushMetaSimple>(attr_meta: Vec<TokenTree>, parser: &mut P, errors: &mut ErrorCollector) -> (r: Option<IdentTree>)
    ensures
        ({
            let toks = attr_meta@;
            if toks.len() == 0 || !is_ident_named(toks[0], kw_cjson()) {
                r is None && *final(parser) == *old(parser) && errs(*final(errors)) == errs(*old(errors))
                    + not_cjson_errors(toks)
            } else {
                r matches Some(t) && top_level_tree::<P>(toks, t) && top_level_args::<P>(
                    toks,
                    *old(parser),
                    *final(parser),
                )
            }
        }),
        exists|es: Seq<ParseErrorKind>|
            errs(*final(errors)) == errs(*old(errors)) + es && #[trigger] top_level_errs::<P>(
                attr_meta@,
                *old(parser),
                *final(parser),
                es,
            ),
{
    let ghost toks = attr_meta@;
    match try_push_top_level_attr_meta(attr_meta, parser, errors) {
        Ok(t) => Some(t),
        Err(e) => {
            proof {
                if toks.len() == 0 {
                    assert(error_kinds(e) =~= not_cjson_errors(toks));
                }
            }
            errors.push(e);
            assert(top_level_errs::<P>(toks, *parser, *parser, error_kinds(e)));
            None
        },
    }
}

/// Where the stream stands after what follows an argument's name: a group,
/// `=` and the tokens up to a `,`, or nothing.
pub open spec fn after_meta_path(st: StreamState) -> StreamState {
    if st.toks.len() > 0 && st.toks[0] is Group {
        take_n(st, 1)
    } else if st.toks.len() > 0 && crate::syn_generic::tokens::is_punct(st.toks[0], '=') {
        let st1 = take_n(st, 1);
        take_n(st1, comma_scan(st1.toks, 0))
    } else {
        st
    }
}

pub proof fn lemma_after_meta_path_len(st: StreamState)
    ensures
        after_meta_path(st).toks.len() <= st.toks.len(),
{
    if st.toks.len() > 0 && crate::syn_generic::tokens::is_punct(st.toks[0], '=') {
        let st1 = take_n(st, 1);
        crate::syn_generic::lemma_comma_scan_bounds(st1.toks, 0);
    }
}

/// The names of the comma-separated arguments read from `st` that `P`
/// takes.
pub open spec fn taken_names<P: PushMetaSimple>(st: StreamState) -> Seq<TokenTree>
    decreases st.toks.len(),
{
    if st.toks.len() == 0 || !(st.toks[0] is Ident) {
        Seq::empty()
    } else {
        let here = if P::takes(st.toks[0]->Ident_0.name@) {
            seq![st.toks[0]]
        } else {
            Seq::empty()
        };
        let st2 = after_meta_path(take_n(st, 1));
        if st2.toks.len() > 0 && crate::syn_generic::tokens::is_punct(st2.toks[0], ',') {
            proof {
                lemma_after_meta_path_len(take_n(st, 1));
            }
            here + taken_names::<P>(take_n(st2, 1))
        } else {
            here
        }
    }
}

/// Reading the comma-separated arguments from `st` takes the set from `p0`
/// to `p1`: each argument that the set takes is read as `read_one` says;
/// the others leave it as it is.
pub open spec fn args_read<P: PushMetaSimple>(p0: P, st: StreamState, p1: P) -> bool
    decreases st.toks.len(),
{
    if st.toks.len() == 0 || !(st.toks[0] is Ident) {
        p1 == p0
    } else {
        let path = st.toks[0]->Ident_0;
        let st2 = after_meta_path(take_n(st, 1));
        let more = st2.toks.len() > 0 && crate::syn_generic::tokens::is_punct(st2.toks[0], ',');
        proof {
            lemma_after_meta_path_len(take_n(st, 1));
        }
        if P::takes(path.name@) {
            exists|p: P, m: MetaAfterPath<ConsumedTokens>, e0: ErrorCollector, e1: ErrorCollector, ch: Seq<IdentTree>|
                #![trigger P::read_one(p0, p, e0, e1, path, m, ch)]
                meta_after_path_matches(m, take_n(st, 1), st2) && P::read_one(p0, p, e0, e1, path, m, ch)
                    && if more {
                    args_read::<P>(p, take_n(st2, 1), p1)
                } else {
                    p1 == p
                }
        } else if more {
            args_read::<P>(p0, take_n(st2, 1), p1)
        } else {
            p1 == p0
        }
    }
}

/// The error of tokens left where the input should end.
pub open spec fn eof_errs(st: StreamState) -> Seq<ParseErrorKind> {
    if st.toks.len() > 0 {
        seq![ParseErrorKind::Custom { msg: "expect eof", span: st.prev }]
    } else {
        Seq::empty()
    }
}

/// Reading the comma-separated arguments from `st` takes the set from `p0`
/// to `p1` and reports `es`: an argument that does not start with a name
/// ends the reading with an unexpected token; one the set takes reports
/// what `read_one` says; another is an `unknown attribute`; tokens left
/// after an argument not followed by `,` are reported as not the end.
pub open spec fn args_errs<P: PushMetaSimple>(p0: P, st: StreamState, p1: P, es: Seq<ParseErrorKind>) -> bool
    decreases st.toks.len(),
{
    if st.toks.len() == 0 {
        p1 == p0 && es.len() == 0
    } else if !(st.toks[0] is Ident) {
        p1 == p0 && es == seq![ParseErrorKind::UnexpectedToken { span: span_open_or_entire(st.toks[0]) }]
    } else {
        let path = st.toks[0]->Ident_0;
        let st2 = after_meta_path(take_n(st, 1));
        let more = st2.toks.len() > 0 && crate::syn_generic::tokens::is_punct(st2.toks[0], ',');
        proof {
            lemma_after_meta_path_len(take_n(st, 1));
        }
        if P::takes(path.name@) {
            exists|p: P, m: MetaAfterPath<ConsumedTokens>, e0: ErrorCollector, e1: ErrorCollector, ch: Seq<IdentTree>|
                #![trigger P::read_one(p0, p, e0, e1, path, m, ch)]
                {
                    let d = errs(e1).subrange(errs(e0).len() as int, errs(e1).len() as int);
                    &&& meta_after_path_matches(m, take_n(st, 1), st2)
                    &&& P::read_one(p0, p, e0, e1, path, m, ch)
                    &&& errs(e1).len() >= errs(e0).len()
                    &&& errs(e1).subrange(0, errs(e0).len() as int) == errs(e0)
                    &&& es.len() >= d.len()
                    &&& es.subrange(0, d.len() as int) == d
                    &&& if more {
                        args_errs::<P>(p, take_n(st2, 1), p1, es.subrange(d.len() as int, es.len() as int))
                    } else {
                        p1 == p && es.subrange(d.len() as int, es.len() as int) == eof_errs(st2)
                    }
                }
        } else {
            &&& es.len() >= 1
            &&& es[0] == ParseErrorKind::Custom { msg: "unknown attribute", span: Some(path.span) }
            &&& if more {
                args_errs::<P>(p0, take_n(st2, 1), p1, es.drop_first())
            } else {
                p1 == p0 && es.drop_first() == eof_errs(st2)
            }
        }
    }
}

proof fn lemma_args_errs_one<P: PushMetaSimple>(
    p_cur: P,
    st: StreamState,
    p_new: P,
    e0: ErrorCollector,
    e1: ErrorCollector,
    m: MetaAfterPath<ConsumedTokens>,
    ch: Seq<IdentTree>,
    p_end: P,
    rest: Seq<ParseErrorKind>,
)
    requires
        st.toks.len() > 0,
        st.toks[0] is Ident,
        meta_after_path_matches(m, take_n(st, 1), after_meta_path(take_n(st, 1))),
        errs(e1).len() >= errs(e0).len(),
        errs(e1).subrange(0, errs(e0).len() as int) == errs(e0),
        P::takes(st.toks[0]->Ident_0.name@) ==> P::read_one(p_cur, p_new, e0, e1, st.toks[0]->Ident_0, m, ch),
        !P::takes(st.toks[0]->Ident_0.name@) ==> p_new == p_cur && errs(e1) == errs(e0).push(
            ParseErrorKind::Custom { msg: "unknown attribute", span: Some(st.toks[0]->Ident_0.span) },
        ),
        ({
            let st2 = after_meta_path(take_n(st, 1));
            if st2.toks.len() > 0 && crate::syn_generic::tokens::is_punct(st2.toks[0], ',') {
                args_errs::<P>(p_new, take_n(st2, 1), p_end, rest)
            } else {
                p_end == p_new && rest == eof_errs(st2)
            }
        }),
    ensures
        args_errs::<P>(p_cur, st, p_end, errs(e1).subrange(errs(e0).len() as int, errs(e1).len() as int) + rest),
{
    let d = errs(e1).subrange(errs(e0).len() as int, errs(e1).len() as int);
    let full = d + rest;
    assert(full.subrange(0, d.len() as int) =~= d);
    assert(full.subrange(d.len() as int, full.len() as int) =~= rest);
    let path = st.toks[0]->Ident_0;
    if P::takes(path.name@) {
        assert(P::read_one(p_cur, p_new, e0, e1, path, m, ch));
    } else {
        assert(d =~= seq![ParseErrorKind::Custom { msg: "unknown attribute", span: Some(path.span) }]);
        assert(full.drop_first() =~= rest);
    }
}

/// The names of the given trees as tokens.
pub open spec fn tree_names(ts: Seq<IdentTree>) -> Seq<TokenTree> {
    Seq::new(ts.len(), |k: int| TokenTree::Ident(ts[k].ident))
}

/// Reads comma-separated arguments, each through `parser`, and gives the
/// names of those it takes, in order. An argument that does not start with
/// an identifier, and anything left after the last one, are reported to
/// `errors`.
pub fn extend_attr_meta<P: PushMetaSimple>(attr_meta: Vec<TokenTree>, parser: &mut P, errors: &mut ErrorCollector) -> (r: Vec<IdentTree>)
    ensures
        tree_names(r@) == taken_names::<P>(StreamState { toks: attr_meta@, prev: None }),
        args_read::<P>(*old(parser), StreamState { toks: attr_meta@, prev: None }, *final(parser)),
        exists|es: Seq<ParseErrorKind>|
            errs(*final(errors)) == errs(*old(errors)) + es && #[trigger] args_errs::<P>(
                *old(parser),
                StreamState { toks: attr_meta@, prev: None },
                *final(parser),
                es,
            ),
{
    let mut input = ParsingTokenStream::new(attr_meta);
    let ghost st0 = input.state();
    let ghost p0 = *parser;
    let ghost mut acc: Seq<ParseErrorKind> = Seq::empty();
    let ghost mut pending: Seq<ParseErrorKind> = Seq::empty();
    let mut out: Vec<IdentTree> = Vec::new();
    let mut failed = false;
    proof {
        assert(errs(*errors) =~= errs(*old(errors)) + acc);
        assert forall|pe: P, rest: Seq<ParseErrorKind>| #[trigger] args_errs::<P>(*parser, input.state(), pe, rest)
            implies args_errs::<P>(p0, st0, pe, acc + rest) by {
            assert(acc + rest =~= rest);
        }
    }
    loop
        invariant_except_break
            taken_names::<P>(st0) == tree_names(out@) + taken_names::<P>(input.state()),
            forall|pe: P| #[trigger] args_read::<P>(*parser, input.state(), pe) ==> args_read::<P>(p0, st0, pe),
            forall|pe: P, rest: Seq<ParseErrorKind>| #[trigger] args_errs::<P>(*parser, input.state(), pe, rest)
                ==> args_errs::<P>(p0, st0, pe, acc + rest),
            !failed,
        invariant
            st0 == (StreamState { toks: attr_meta@, prev: None }),
            p0 == *old(parser),
            errs(*errors) == errs(*old(errors)) + acc,
        ensures
            tree_names(out@) == taken_names::<P>(st0),
            args_read::<P>(p0, st0, *parser),
            args_errs::<P>(p0, st0, *parser, acc + pending),
            failed ==> pending.len() == 0,
            !failed ==> pending == eof_errs(input.state()),
        decreases input.s@.len(),
    {
        let ghost st = input.state();
        let ghost p_cur = *parser;
        if input.is_empty() {
            assert(taken_names::<P>(st0) =~= tree_names(out@));
            assert(args_read::<P>(p_cur, st, p_cur));
            proof {
                assert(args_errs::<P>(p_cur, st, p_cur, Seq::empty()));
                assert(acc + Seq::<ParseErrorKind>::empty() =~= acc);
                pending = eof_errs(st);
                assert(pending =~= Seq::<ParseErrorKind>::empty());
            }
            break;
        }
        let ghost e_before = errs(*errors);
        let m = match parse_meta_simple(&mut input) {
            Ok(m) => m,
            Err(e) => {
                errors.push(e);
                failed = true;
                assert(taken_names::<P>(st0) =~= tree_names(out@));
                assert(args_read::<P>(p_cur, st, p_cur));
                proof {
                    let d = seq![ParseErrorKind::UnexpectedToken { span: span_open_or_entire(st.toks[0]) }];
                    assert(error_kinds(e) =~= d);
                    assert(args_errs::<P>(p_cur, st, p_cur, d));
                    assert(errs(*errors) =~= errs(*old(errors)) + (acc + d));
                    acc = acc + d;
                    pending = Seq::empty();
                    assert(acc + pending =~= acc);
                }
                break;
            },
        };
        proof {
            lemma_after_meta_path_len(take_n(st, 1));
            lemma_meta_after_path_state(m.after_path, take_n(st, 1), input.state());
        }
        let ghost name = TokenTree::Ident(m.path);
        let ghost path = m.path;
        let ghost mg = m.after_path;
        let ghost done = tree_names(out@);
        let ghost e0 = *errors;
        let ghost mpath = m.path;
        let outcome = parser.push_meta_simple(m, errors);
        let ghost e1 = *errors;
        let ghost p_new = *parser;
        let ghost d = errs(e1).subrange(errs(e0).len() as int, errs(e1).len() as int);
        proof {
            assert(errs(e1) =~= errs(e0) + d);
        }
        let ghost ch: Seq<IdentTree> = if outcome is Some {
            outcome->Some_0.children@
        } else {
            Seq::empty()
        };
        let ghost here: Seq<TokenTree> = if outcome is Some {
            seq![name]
        } else {
            Seq::empty()
        };
        proof {
            if P::takes(path.name@) {
                assert(P::read_one(p_cur, p_new, e0, e1, path, mg, ch));
            }
        }
        match outcome {
            Some(t) => {
                out.push(t);
            },
            None => {},
        }
        proof {
            assert(tree_names(out@) =~= done + here);
        }
        let is_comma = match input.first() {
            Some(t) => t.is_punct(','),
            None => false,
        };
        if !is_comma {
            proof {
                assert(taken_names::<P>(st0) =~= tree_names(out@));
                assert(args_read::<P>(p_cur, st, p_new));
                let st2 = input.state();
                lemma_args_errs_one::<P>(p_cur, st, p_new, e0, e1, mg, ch, p_new, eof_errs(st2));
                assert(args_errs::<P>(p0, st0, p_new, acc + (d + eof_errs(st2))));
                assert(acc + (d + eof_errs(st2)) =~= (acc + d) + eof_errs(st2));
                acc = acc + d;
                pending = eof_errs(st2);
            }
            break;
        }
        let ghost st2 = input.state();
        let _comma = input.next();
        proof {
            assert forall|pe: P, rest: Seq<ParseErrorKind>| #[trigger] args_errs::<P>(p_new, input.state(), pe, rest)
                implies args_errs::<P>(p0, st0, pe, (acc + d) + rest) by {
                assert(input.state() == take_n(st2, 1));
                lemma_args_errs_one::<P>(p_cur, st, p_new, e0, e1, mg, ch, pe, rest);
                assert(acc + (d + rest) =~= (acc + d) + rest);
            }
            acc = acc + d;
            assert(taken_names::<P>(st0) =~= tree_names(out@) + taken_names::<P>(input.state()));
            assert forall|pe: P| #[trigger] args_read::<P>(p_new, input.state(), pe) implies args_read::<P>(
                p0,
                st0,
                pe,
            ) by {
                assert(input.state() == take_n(st2, 1));
                assert(args_read::<P>(p_cur, st, pe));
            }
        }
    }
    if !failed {
        match input.expect_eof() {
            Err(e) => errors.push(e),
            Ok(()) => {},
        }
    }
    assert(errs(*errors) =~= errs(*old(errors)) + (acc + pending));
    out
}

/// What follows an argument's name ends where `after_meta_path` says.
proof fn lemma_meta_after_path_state(m: MetaAfterPath<ConsumedTokens>, st1: StreamState, st2: StreamState)
    requires
        meta_after_path_matches(m, st1, st2),
    ensures
        st2 == after_meta_path(st1),
{
}

impl ItemAttrsParser {
    /// Reads the attribute `cjson(..)` on the item: its configuration and
    /// the arguments for the item.
    pub fn push_top_level_attr_meta(&mut self, v: Vec<TokenTree>, errors: &mut ErrorCollector) -> (r: Option<IdentTree>)
        ensures
            ({
                let toks = v@;
                if toks.len() == 0 || !is_ident_named(toks[0], kw_cjson()) {
                    r is None && *final(self) == *old(self) && errs(*final(errors)) == errs(*old(errors))
                        + not_cjson_errors(toks)
                } else {
                    r matches Some(t) && top_level_tree::<ItemAttrsParser>(toks, t)
                        && top_level_args::<ItemAttrsParser>(toks, *old(self), *final(self))
                }
            }),
            exists|es: Seq<ParseErrorKind>|
                errs(*final(errors)) == errs(*old(errors)) + es && #[trigger] top_level_errs::<ItemAttrsParser>(
                    v@,
                    *old(self),
                    *final(self),
                    es,
                ),
    {
        push_top_level_attr_meta_with_one(v, self, errors)
    }
}

impl PushMetaSimple for ItemAttrsParser {
    /// The configuration arguments and those of the item.
    open spec fn takes(name: Seq<u8>) -> bool {
        config_of(name) is Some || crate::json_item::ItemAttrsParser::takes(name)
    }

    /// A configuration argument is read as `config_state_read` says; one of
    /// the item into the item's arguments, the configuration staying.
    open spec fn read_one(
        a: Self,
        b: Self,
        e0: ErrorCollector,
        e1: ErrorCollector,
        path: Ident,
        after: MetaAfterPath<ConsumedTokens>,
        children: Seq<IdentTree>,
    ) -> bool {
        if config_of(path.name@) is Some {
            config_state_read(a, b, e0, e1, path, after) && children.len() == 0
        } else {
            &&& b.crate_path == a.crate_path
            &&& b.where_ == a.where_
            &&& crate::json_item::item_args_read(a.item_attrs, b.item_attrs, e0, e1, path, after, children)
        }
    }

    fn push_meta_simple(&mut self, meta: MetaSimple<ConsumedTokens>, errors: &mut ErrorCollector) -> (r: Option<IdentTree>)
        ensures
            config_of(meta.path.name@) is Some ==> (r matches Some(t) && config_read(
                *old(self),
                *final(self),
                *old(errors),
                *final(errors),
                meta.path,
                meta.after_path,
                t,
            )),
            config_of(meta.path.name@) is None ==> {
                &&& final(self).crate_path == old(self).crate_path
                &&& final(self).where_ == old(self).where_
                &&& (r matches Some(t) ==> t.mod_name@ == ""@ && crate::json_item::item_args_read(
                    old(self).item_attrs,
                    final(self).item_attrs,
                    *old(errors),
                    *final(errors),
                    meta.path,
                    meta.after_path,
                    t.children@,
                ))
            },
    {
        match self.extend_one_attr_meta(meta, errors) {
            AttrMeta::Config(t) => Some(t),
            AttrMeta::Item(m) => self.item_attrs.push_meta_simple(m, errors),
        }
    }
}

impl ItemAttrWhere {
    /// Reads `where = (bounds)`: the bounds and the place of `where`.
    /// Anything after the group is reported to `errors`.
    pub fn parse_meta_impl(meta: crate::syn_generic::parse_meta::MetaToParse, errors: &mut ErrorCollector) -> (r: Result<ItemAttrWhere, ParseError>)
        ensures
            match meta.after_path {
                MetaAfterPath::Empty => (r matches Err(e) && is_custom(
                    e,
                    "expect `where = (Bounds:)`"@,
                    Some(meta.path.span),
                )) && *final(errors) == *old(errors),
                MetaAfterPath::Group(g) => (r matches Err(e) && is_custom(
                    e,
                    "expect `where = (Bounds:)`"@,
                    Some(g.span_open),
                )) && *final(errors) == *old(errors),
                MetaAfterPath::Eq { eq, before_comma_or_eof } => {
                    let toks = before_comma_or_eof.tokens@;
                    if toks.len() == 0 {
                        (r matches Err(e) && is_custom(e, "expect `where = (Bounds:)`"@, Some(eq.0.span)))
                            && *final(errors) == *old(errors)
                    } else {
                        match toks[0] {
                            TokenTree::Group(g) => (r matches Ok(w) && w.where_span == meta.path.span
                                && w.bound == g.stream) && if toks.len() == 1 {
                                *final(errors) == *old(errors)
                            } else {
                                pushed_one(
                                    *old(errors),
                                    *final(errors),
                                    "expect eof"@,
                                    Some(span_close_or_entire(toks[0])),
                                )
                            },
                            t => (r matches Err(e) && is_custom(
                                e,
                                "expect `where = (Bounds:)`"@,
                                Some(span_open_or_entire(t)),
                            )) && *final(errors) == *old(errors),
                        }
                    }
                },
            },
    {
        let path_span = meta.path_span();
        match meta.after_path {
            MetaAfterPath::Empty => Err(ParseError::custom("expect `where = (Bounds:)`", Some(path_span))),
            MetaAfterPath::Group(group) => Err(
                ParseError::custom("expect `where = (Bounds:)`", Some(group.span_open)),
            ),
            MetaAfterPath::Eq { eq, before_comma_or_eof } => {
                let mut value = before_comma_or_eof.parse();
                match value.next() {
                    Some(TokenTree::Group(g)) => {
                        match value.expect_eof() {
                            Err(e) => errors.push(e),
                            Ok(()) => {},
                        }
                        Ok(ItemAttrWhere { where_span: path_span, bound: g.stream })
                    },
                    Some(t) => Err(
                        ParseError::custom("expect `where = (Bounds:)`", Some(t.span_open_or_entire())),
                    ),
                    None => Err(ParseError::custom("expect `where = (Bounds:)`", Some(eq.span()))),
                }
            },
        }
    }
}

/// What `ParseErrorKind::message` gives: the message and the place.
pub open spec fn kind_message(k: ParseErrorKind) -> (Seq<char>, Option<Span>) {
    match k {
        ParseErrorKind::UnexpectedToken { span } => ("unexpected token"@, Some(span)),
        ParseErrorKind::UnexpectedEof { after } => ("unexpected eof"@, after),
        ParseErrorKind::Custom { msg, span } => (msg@, span),
    }
}

impl ParseErrorKind {
    /// The message of the error and its place.
    pub fn message(&self) -> (r: (&'static str, Option<Span>))
        ensures
            (r.0@, r.1) == kind_message(*self),
    {
        match self {
            ParseErrorKind::UnexpectedToken { span } => ("unexpected token", Some(*span)),
            ParseErrorKind::UnexpectedEof { after } => ("unexpected eof", *after),
            ParseErrorKind::Custom { msg, span } => (*msg, *span),
        }
    }
}
} // verus!
