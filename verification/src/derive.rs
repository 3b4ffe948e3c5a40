//! The derive's reading of its input: the `#[cjson(..)]` attributes, the
//! start of the item, and the item itself; what it generates from them is
//! made by the code generator and the compiler side.
use vstd::prelude::*;
use crate::syn_generic::tokens::{
    Span, Ident, TokenTree, Punct, Spacing, DeepToken, deep_seq, lemma_deep_seq_index,
    span_open_or_entire, span_close_or_entire,
};
use crate::syn_generic::ParseErrorKind;
use crate::syn_generic::{
    ErrorCollector, ParseError, ParsingTokenStream, GroupBracket, OuterAttr, StreamState, take_n,
    attrs_end, after_vis, parse_item_start, error_kinds, errs,
};
use crate::item_attrs::{IdentTree, ItemAttrsParser, make_ident, tree_tokens, top_level_tree, top_level_args, kw_cjson, not_cjson_errors};
use crate::syn_generic::tokens::{Delimiter, is_ident_named};
use crate::to_json::{
    ToJson, ParsedToJsonItem, is_struct_kw, is_enum_kw, struct_body_reads, enum_body_reads, after_generics,
    args_errors, before_body_errors,
};
use crate::to_json::{ToJsonItem, ToJsonItemData, DeriveWhich, item_call, item_body_errs, body_end, eof_errors_at, item_stop};
use crate::json_item::kind_is;
use crate::json_item::{with_struct_arg_errors, with_enum_arg_errors, attrs_errs, outer_attr_errs, attr_metas};
use crate::syn_generic::{attrs_count, attrs_from};
use vstd::string::StringSliceAdditionalSpecFns;

verus! {

/// The identifier that the item starts with after its attributes and
/// visibility, when the start of the item reads without error.
pub open spec fn item_start_ident(toks: Seq<TokenTree>) -> Option<Ident> {
    match attrs_end(toks, 0) {
        None => None,
        Some(e) => {
            let st2 = after_vis(take_n(StreamState { toks, prev: None }, e));
            if st2.toks.len() > 0 && st2.toks[0] is Ident {
                Some(st2.toks[0]->Ident_0)
            } else {
                None
            }
        },
    }
}

/// The error when the start of the item does not read: the end of the
/// tokens after the attributes or the visibility, or a token that is not an
/// identifier where the item's first word should be.
pub open spec fn item_start_error(toks: Seq<TokenTree>) -> ParseErrorKind {
    match attrs_end(toks, 0) {
        None => ParseErrorKind::UnexpectedEof { after: Some(span_close_or_entire(toks[toks.len() - 1])) },
        Some(e) => {
            let st2 = after_vis(take_n(StreamState { toks, prev: None }, e));
            if st2.toks.len() == 0 {
                ParseErrorKind::UnexpectedEof { after: st2.prev }
            } else {
                ParseErrorKind::UnexpectedToken { span: span_open_or_entire(st2.toks[0]) }
            }
        },
    }
}

/// The tokens after the first word of the item.
pub open spec fn after_item_start(toks: Seq<TokenTree>) -> StreamState {
    take_n(after_vis(take_n(StreamState { toks, prev: None }, attrs_end(toks, 0).unwrap())), 1)
}

/// The item reads after its first word: the word is `struct` or `enum`, a
/// name follows, and the body after the generics reads.
pub open spec fn item_reads(toks: Seq<TokenTree>) -> bool {
    let first = item_start_ident(toks).unwrap();
    let st = after_item_start(toks);
    &&& is_struct_kw(first) || is_enum_kw(first)
    &&& st.toks.len() > 0 && st.toks[0] is Ident
    &&& if is_struct_kw(first) {
        struct_body_reads(after_generics(take_n(st, 1)))
    } else {
        enum_body_reads(after_generics(take_n(st, 1)))
    }
}

/// What the derive read agrees with its attributes: they are read from the
/// initial arguments to `p` with name trees `trees`; the crate path is the
/// one `crate(..)` gave, else `::cjson`; and the `use` path is the tree
/// named after the item's first word that holds `trees` and, when the item
/// read, the tree of its fields' or variants' names.
pub open spec fn derive_read_from(
    d: DeriveRead,
    first: Ident,
    p: ItemAttrsParser,
    trees: Seq<IdentTree>,
    root: IdentTree,
) -> bool {
    &&& match p.crate_path {
        Some(c) => d.crate_path == c,
        None => deep_seq(d.crate_path@) == default_crate_path(),
    }
    &&& deep_seq(d.use_item_attrs@) == tree_tokens(root)
    &&& root.ident.name@ == root_mod_name(first)
    &&& root.ident.span == first.span
    &&& root.mod_name.spec_bytes().len() == 0
    &&& root.children@.len() == trees.len() + if d.item is Some { 1int } else { 0int }
    &&& root.children@.subrange(0, trees.len() as int) == trees
}

/// The name of the module of item arguments for an item that starts with
/// `first`.
pub open spec fn root_mod_name(first: Ident) -> Seq<u8> {
    if first.name@ == "struct".spec_bytes() {
        "r#struct".spec_bytes()
    } else if first.name@ == "enum".spec_bytes() {
        "r#enum".spec_bytes()
    } else {
        "common".spec_bytes()
    }
}

/// The path of the crate when `crate(..)` is not given: `::cjson`.
pub open spec fn default_crate_path() -> Seq<DeepToken> {
    seq![
        DeepToken::Punct(Punct { ch: ':', spacing: Spacing::Joint, span: Span(0) }),
        DeepToken::Punct(Punct { ch: ':', spacing: Spacing::Alone, span: Span(0) }),
        DeepToken::Ident("cjson".spec_bytes(), Span(0)),
    ]
}

/// What the derive read: the path of the crate, the place of the item's
/// first word, the names of the arguments as a `use` path, the item when it
/// read without error, and the errors so far.
pub struct DeriveRead {
    pub crate_path: Vec<TokenTree>,
    pub default_span: Span,
    pub use_item_attrs: Vec<TokenTree>,
    pub item: Option<ParsedToJsonItem>,
    pub errors: ErrorCollector,
}

/// `::cjson`
fn make_default_crate_path() -> (r: Vec<TokenTree>)
    ensures
        deep_seq(r@) == default_crate_path(),
{
    let mut r: Vec<TokenTree> = Vec::new();
    r.push(TokenTree::Punct(Punct { ch: ':', spacing: Spacing::Joint, span: Span(0) }));
    r.push(TokenTree::Punct(Punct { ch: ':', spacing: Spacing::Alone, span: Span(0) }));
    r.push(TokenTree::Ident(make_ident("cjson", Span(0))));
    proof {
        lemma_deep_seq_index(r@);
        assert(deep_seq(r@) =~= default_crate_path());
    }
    r
}

/// What reading one attribute does: one in `[..]` that starts with `cjson`
/// gives its arguments as `push_top_level_attr_meta` reads them, and a tree
/// of names; any other leaves the arguments as they were.
pub open spec fn attr_read(meta: TokenTree, p0: ItemAttrsParser, p1: ItemAttrsParser, o: Option<IdentTree>) -> bool {
    if meta is Group && meta->Group_0.delimiter == Delimiter::Bracket {
        let toks = meta->Group_0.stream@;
        if toks.len() == 0 || !is_ident_named(toks[0], kw_cjson()) {
            p1 == p0 && o is None
        } else {
            o matches Some(t) && top_level_tree::<ItemAttrsParser>(toks, t) && top_level_args::<
                ItemAttrsParser,
            >(toks, p0, p1)
        }
    } else {
        p1 == p0 && o is None
    }
}

/// Reading the attributes in order takes the arguments from `p0` to `p1`
/// and gives the trees of names of those that were read, in order.
pub open spec fn attrs_read(attrs: Seq<OuterAttr>, p0: ItemAttrsParser, p1: ItemAttrsParser, trees: Seq<IdentTree>) -> bool
    decreases attrs.len(),
{
    if attrs.len() == 0 {
        p1 == p0 && trees.len() == 0
    } else {
        exists|pm: ItemAttrsParser, o: Option<IdentTree>|
            #[trigger] attr_read(attrs.last().meta, pm, p1, o) && match o {
                Some(t) => trees.len() > 0 && trees.last() == t && attrs_read(
                    attrs.drop_last(),
                    p0,
                    pm,
                    trees.drop_last(),
                ),
                None => attrs_read(attrs.drop_last(), p0, pm, trees),
            }
    }
}

/// The errors that reading one attribute reports: for one that is not in
/// `[..]` that it expects `[`; for one in brackets that does not start with
/// `cjson`, the error for that; for `cjson(..)`, those of its arguments.
pub open spec fn attr_errors_ok(meta: TokenTree, e: Seq<ParseErrorKind>) -> bool {
    if meta is Group && meta->Group_0.delimiter == Delimiter::Bracket {
        let toks = meta->Group_0.stream@;
        toks.len() == 0 || !is_ident_named(toks[0], kw_cjson()) ==> e == not_cjson_errors(toks)
    } else {
        e == seq![ParseErrorKind::Custom { msg: "expect `[`", span: Some(span_open_or_entire(meta)) }]
    }
}

/// The errors of each attribute, one after the other.
pub open spec fn flatten_errs(es: Seq<Seq<ParseErrorKind>>) -> Seq<ParseErrorKind>
    decreases es.len(),
{
    if es.len() == 0 {
        Seq::empty()
    } else {
        flatten_errs(es.drop_last()) + es.last()
    }
}

/// `a` is what reading the attributes in order reports: the errors of each,
/// one after the other.
pub open spec fn attrs_errors(attrs: Seq<OuterAttr>, a: Seq<ParseErrorKind>) -> bool {
    exists|es: Seq<Seq<ParseErrorKind>>|
        es.len() == attrs.len() && (forall|k: int| 0 <= k < es.len() ==> attr_errors_ok(attrs[k].meta, #[trigger] es[k]))
            && a == #[trigger] flatten_errs(es)
}

/// Reads the attributes in order: each must be `[..]`; those that read as
/// `cjson(..)` give their arguments to `item_attrs` and a tree of names.
fn read_attrs(attrs: Vec<OuterAttr>, item_attrs: &mut ItemAttrsParser, errors: &mut ErrorCollector) -> (r: Vec<IdentTree>)
    ensures
        attrs_read(attrs@, *old(item_attrs), *final(item_attrs), r@),
        exists|a: Seq<ParseErrorKind>| #[trigger] attrs_errors(attrs@, a) && errs(*final(errors)) == errs(*old(errors)) + a,
        exists|a: Seq<ParseErrorKind>|
            errs(*final(errors)) == errs(*old(errors)) + a && #[trigger] attrs_errs::<ItemAttrsParser>(
                *old(item_attrs),
                attr_metas(attrs@),
                *final(item_attrs),
                a,
            ),
        attrs@.len() == 0 ==> r@.len() == 0 && *final(item_attrs) == *old(item_attrs) && *final(errors) == *old(errors),
{
    let mut trees: Vec<IdentTree> = Vec::new();
    let ghost all = attrs@;
    assert(all.len() <= usize::MAX) by {
        assert(attrs@.len() == attrs.len());
    }
    let ghost p0 = *item_attrs;
    let mut rest = attrs;
    let ghost n0 = rest@.len();
    let mut k: usize = 0;
    let ghost mut es: Seq<Seq<ParseErrorKind>> = Seq::empty();
    let ghost metas = attr_metas(all);
    proof {
        assert(all.subrange(0, 0) =~= Seq::<OuterAttr>::empty());
        assert(errs(*errors) + flatten_errs(es) =~= errs(*errors));
        assert(metas.subrange(0, metas.len() as int) =~= metas);
        assert forall|pe: ItemAttrsParser, rest: Seq<ParseErrorKind>| #[trigger] attrs_errs::<ItemAttrsParser>(
            *item_attrs,
            metas.subrange(0, metas.len() as int),
            pe,
            rest,
        ) implies attrs_errs::<ItemAttrsParser>(p0, metas, pe, flatten_errs(es) + rest) by {
            assert(flatten_errs(es) + rest =~= rest);
        }
    }
    while rest.len() > 0
        invariant
            n0 == 0 ==> rest@.len() == 0 && trees@.len() == 0 && *item_attrs == *old(item_attrs) && *errors
                == *old(errors),
            n0 == all.len(),
            p0 == *old(item_attrs),
            k + rest@.len() == all.len(),
            all.len() <= usize::MAX,
            rest@ == all.subrange(k as int, all.len() as int),
            attrs_read(all.subrange(0, k as int), p0, *item_attrs, trees@),
            es.len() == k,
            forall|j: int| 0 <= j < es.len() ==> attr_errors_ok(all[j].meta, #[trigger] es[j]),
            errs(*errors) == errs(*old(errors)) + flatten_errs(es),
            metas == attr_metas(all),
            forall|pe: ItemAttrsParser, rest: Seq<ParseErrorKind>| #[trigger] attrs_errs::<ItemAttrsParser>(
                *item_attrs,
                metas.subrange(k as int, metas.len() as int),
                pe,
                rest,
            ) ==> attrs_errs::<ItemAttrsParser>(p0, metas, pe, flatten_errs(es) + rest),
        decreases rest@.len(),
    {
        let attr = rest.remove(0);
        let ghost pm = *item_attrs;
        let ghost tm = trees@;
        let ghost pre = all.subrange(0, k as int + 1);
        proof {
            assert(attr == all[k as int]);
            assert(pre.drop_last() =~= all.subrange(0, k as int));
            assert(pre.last() == attr);
        }
        let OuterAttr { pound: _, meta } = attr;
        let ghost mv = meta;
        let mut attr_errs = ErrorCollector::new();
        match GroupBracket::parse_from_token_tree(meta) {
            Ok(group) => {
                let GroupBracket(g) = group;
                let ghost gs = g.stream@;
                match item_attrs.push_top_level_attr_meta(g.stream, &mut attr_errs) {
                    Some(t) => {
                        trees.push(t);
                        proof {
                            assert(attr_read(mv, pm, *item_attrs, Some(t)));
                            assert(trees@.drop_last() =~= tm);
                        }
                    },
                    None => {
                        proof {
                            assert(attr_read(mv, pm, *item_attrs, None));
                        }
                    },
                }
            },
            Err(e) => {
                attr_errs.push(e);
                proof {
                    assert(attr_read(mv, pm, *item_attrs, None));
                }
            },
        }
        let ghost ek = errs(attr_errs);
        proof {
            assert(errs(ErrorCollector(None)) =~= Seq::<ParseErrorKind>::empty());
            assert(ek == Seq::<ParseErrorKind>::empty() + ek);
            assert(attr_errors_ok(mv, ek));
            assert(outer_attr_errs::<ItemAttrsParser>(mv, pm, *item_attrs, ek));
            let pn = *item_attrs;
            let ms = metas.subrange(k as int, metas.len() as int);
            assert(ms[0] == mv);
            assert(ms.drop_first() =~= metas.subrange(k + 1, metas.len() as int));
            assert forall|pe: ItemAttrsParser, rest2: Seq<ParseErrorKind>| #[trigger] attrs_errs::<ItemAttrsParser>(
                pn,
                metas.subrange(k + 1, metas.len() as int),
                pe,
                rest2,
            ) implies attrs_errs::<ItemAttrsParser>(p0, metas, pe, (flatten_errs(es) + ek) + rest2) by {
                crate::json_item::lemma_attrs_errs_cons::<ItemAttrsParser>(pm, ms, pn, ek, pe, rest2);
                assert(flatten_errs(es) + (ek + rest2) =~= (flatten_errs(es) + ek) + rest2);
            }
        }
        let ghost e_before = errs(*errors);
        errors.append(attr_errs);
        proof {
            let es2 = es.push(ek);
            assert(es2.drop_last() =~= es);
            assert(flatten_errs(es2) == flatten_errs(es) + ek);
            assert(errs(*errors) =~= errs(*old(errors)) + flatten_errs(es2));
            es = es2;
        }
        k = k + 1;
        proof {
            assert(rest@ =~= all.subrange(k as int, all.len() as int));
            assert(pre == all.subrange(0, k as int));
        }
    }
    proof {
        assert(all.subrange(0, k as int) =~= all);
        assert(attrs_errors(all, flatten_errs(es)));
        assert(metas.subrange(k as int, metas.len() as int) =~= Seq::<TokenTree>::empty());
        assert(attrs_errs::<ItemAttrsParser>(*item_attrs, metas.subrange(k as int, metas.len() as int), *item_attrs, Seq::empty()));
        assert(flatten_errs(es) + Seq::<ParseErrorKind>::empty() =~= flatten_errs(es));
        assert(attrs_errs::<ItemAttrsParser>(p0, metas, *item_attrs, flatten_errs(es)));
    }
    trees
}

/// The item read from `st`, the start after its keyword, with the
/// arguments `p`, as `derive_to_json_read` hands it to `ToJson::try_parse`.
pub open spec fn to_json_of(first: Ident, p: ItemAttrsParser) -> ToJson {
    ToJson { first_ident: first, append_where_clause: p.where_, any_value: None, item_attrs: p.item_attrs }
}

/// `e` is the errors `a` and then what reading the item at `st` reports,
/// as `ToJson::try_parse` says: when the item reads (as `item`), the errors
/// of its generics and of the arguments that it does not take, those of its
/// body, and tokens left after it; when it does not, those of its generics
/// (when its name read) and then the error that stopped it, as
/// `item_stop` describes it.
pub open spec fn item_errors_read(
    this: ToJson,
    st: StreamState,
    a: Seq<ParseErrorKind>,
    e: Seq<ParseErrorKind>,
    item: Option<ParsedToJsonItem>,
) -> bool {
    match item {
        Some(it) => {
            let sg = after_generics(take_n(st, 1));
            exists|body: Seq<ParseErrorKind>|
                #[trigger] item_body_errs(this, sg, it.data, body) && e == args_errors(this, take_n(st, 1), a) + body
                    + eof_errors_at(body_end(is_struct_kw(this.first_ident), sg))
        },
        None => {
            let before = a + if (is_struct_kw(this.first_ident) || is_enum_kw(this.first_ident)) && st.toks.len() > 0
                && st.toks[0] is Ident {
                before_body_errors(this, take_n(st, 1))
            } else {
                Seq::empty()
            };
            &&& e.len() == before.len() + 1
            &&& e.subrange(0, before.len() as int) == before
            &&& kind_is(e[before.len() as int], item_stop(this, st))
        },
    }
}

/// The errors the derive read: those of the attributes `attrs` (their
/// arguments read into `p`), then those of the item.
pub open spec fn derive_errors(d: DeriveRead, first: Ident, p: ItemAttrsParser, attrs: Seq<OuterAttr>, st: StreamState) -> bool {
    exists|a: Seq<ParseErrorKind>|
        #[trigger] attrs_errs::<ItemAttrsParser>(ItemAttrsParser::new_spec(), attr_metas(attrs), p, a)
            && item_errors_read(to_json_of(first, p), st, a, errs(d.errors), d.item)
}

/// Reads the input of the derive: the attributes of the item (each
/// `#[cjson(..)]` gives arguments; an attribute that is not in `[..]` is
/// reported), the start of the item, and the item. When the start of the
/// item does not read, the error comes back with those of the attributes
/// after it. The arguments' names go under the module named after the
/// item's first word, at its place.
#[verifier::rlimit(100)]
#[verifier::spinoff_prover]
pub fn derive_to_json_read(input: Vec<TokenTree>) -> (r: Result<DeriveRead, ParseError>)
    ensures
        (r is Err) == (item_start_ident(input@) is None),
        r matches Err(j) ==> j.0 == item_start_error(input@),
        r matches Ok(d) ==> ({
            let first = item_start_ident(input@).unwrap();
            &&& d.default_span == first.span
            &&& d.use_item_attrs@.len() > 0
            &&& deep_seq(d.use_item_attrs@)[0] == DeepToken::Ident(root_mod_name(first), first.span)
            &&& attrs_end(input@, 0) == Some(0int) ==> deep_seq(d.crate_path@) == default_crate_path()
            &&& (d.item is Some) == item_reads(input@)
            &&& exists|attrs: Seq<OuterAttr>, p: ItemAttrsParser, trees: Seq<IdentTree>, root: IdentTree|
                #![trigger attrs_read(attrs, ItemAttrsParser::new_spec(), p, trees), tree_tokens(root)]
                attrs.len() == attrs_count(input@, 0) && attrs_from(attrs, input@, 0) && attrs_read(
                    attrs,
                    ItemAttrsParser::new_spec(),
                    p,
                    trees,
                ) && derive_read_from(d, first, p, trees, root) && derive_errors(d, first, p, attrs, after_item_start(input@))
        }),
{
    let mut errors = ErrorCollector::new();
    let mut stream = ParsingTokenStream::new(input);
    let mut item_attrs = ItemAttrsParser::new();
    let ghost toks = input@;
    let (attrs, start) = parse_item_start(&mut stream);
    let ghost n_attrs = attrs@.len();
    let ghost av = attrs@;
    let ghost p_init = item_attrs;
    let config_ident_trees = read_attrs(attrs, &mut item_attrs, &mut errors);
    let ghost a = errs(errors);
    proof {
        let a0 = choose|a0: Seq<ParseErrorKind>| attrs_errors(av, a0) && errs(errors) == errs(ErrorCollector(None)) + a0;
        assert(errs(ErrorCollector(None)) + a0 =~= a0);
        assert(attrs_errors(av, a));
        let a1 = choose|a1: Seq<ParseErrorKind>|
            errs(errors) == errs(ErrorCollector(None)) + a1 && #[trigger] attrs_errs::<ItemAttrsParser>(
                p_init,
                attr_metas(av),
                item_attrs,
                a1,
            );
        assert(errs(ErrorCollector(None)) + a1 =~= a1);
        assert(attrs_errs::<ItemAttrsParser>(ItemAttrsParser::new_spec(), attr_metas(av), item_attrs, a));
    }
    let ghost pv = item_attrs;
    let ghost tv = config_ident_trees@;
    let start = match start {
        Ok(v) => v,
        Err(e) => {
            proof {
                assert(StreamState { toks, prev: None } == StreamState { toks: input@, prev: None });
            }
            return Err(e.join(errors));
        },
    };
    let first_ident = start.first_ident;
    let ItemAttrsParser { crate_path, where_, item_attrs } = item_attrs;
    let crate_path = match crate_path {
        Some(v) => v,
        None => make_default_crate_path(),
    };
    let default_span = first_ident.span;
    let root = if first_ident.matches("struct".as_bytes()) {
        "r#struct"
    } else if first_ident.matches("enum".as_bytes()) {
        "r#enum"
    } else {
        "common"
    };
    let root_ident = make_ident(root, default_span);
    let mut children = config_ident_trees;
    let ghost st_after = stream.state();
    assert(st_after == after_item_start(input@));
    let ghost tj = to_json_of(first_ident, pv);
    let tj_exec = ToJson {
        first_ident,
        append_where_clause: where_,
        any_value: None,
        item_attrs,
    };
    assert(tj_exec == tj);
    let item = tj_exec.try_parse(&mut stream, &mut errors, crate::syn_generic::tokens::clone_tokens(&crate_path), &mut children);
    let ghost sn = take_n(st_after, 1);
    let ghost e_tp = errs(errors);
    let ghost mut pushed: Seq<ParseErrorKind> = Seq::empty();
    let item = match item {
        Ok(item) => Some(item),
        Err(e) => {
            proof {
                pushed = error_kinds(e);
                assert(pushed[0] == e.0);
                assert(kind_is(pushed[0], item_stop(tj, st_after)));
            }
            errors.push(e);
            None
        },
    };
    proof {
        if item is Some {
            {
                let it = item->Some_0;
                let sg = after_generics(sn);
                let body = choose|body: Seq<ParseErrorKind>|
                    e_tp == args_errors(tj, sn, a) + body + crate::to_json::eof_errors(stream) && #[trigger] item_body_errs(
                        tj,
                        sg,
                        it.data,
                        body,
                    );
                assert(stream.state() == body_end(is_struct_kw(tj.first_ident), sg));
                assert(crate::to_json::eof_errors(stream) == eof_errors_at(body_end(is_struct_kw(tj.first_ident), sg)));
                assert(item_errors_read(tj, st_after, a, errs(errors), item));
            }
        } else {
            {
                assert(pushed.len() == 1);
                assert(errs(errors) == e_tp + pushed);
                assert(errs(errors).subrange(0, e_tp.len() as int) =~= e_tp);
                assert(errs(errors)[e_tp.len() as int] == pushed[0]);
                assert(item_errors_read(tj, st_after, a, errs(errors), item));
            }
        }
    }
    let tree = IdentTree { ident: root_ident, mod_name: "", children };
    proof {
        assert(tree.mod_name.spec_bytes().len() == 0) by {
            reveal_strlit("");
        }
    }
    let ghost root = tree;
    let use_item_attrs = tree.into_tokens();
    let d = DeriveRead { crate_path, default_span, use_item_attrs, item, errors };
    proof {
        if d.item is Some {
            assert(root.children@.subrange(0, tv.len() as int) =~= root.children@.drop_last());
        } else {
            assert(root.children@.subrange(0, tv.len() as int) =~= root.children@);
        }
        assert(derive_read_from(d, item_start_ident(input@).unwrap(), pv, tv, root));
        assert(attrs_read(av, ItemAttrsParser::new_spec(), pv, tv));
        assert(derive_errors(d, item_start_ident(input@).unwrap(), pv, av, after_item_start(input@)));
        assert(tree_tokens(root) == tree_tokens(root));
    }
    Ok(d)
}

/// The item that the derive generates an impl of: the item read, its JSON
/// form `json`, and no further bounds or conversions.
pub open spec fn generated_item(item: ParsedToJsonItem, json: Vec<TokenTree>) -> ToJsonItem {
    let data = match item.data {
        crate::to_json::ParsedItemData::Struct(_) => ToJsonItemData::Struct(json),
        crate::to_json::ParsedItemData::Enum(..) => ToJsonItemData::Enum(json),
    };
    ToJsonItem {
        name: item.name,
        impl_generics: item.impl_generics,
        ty_generics: item.ty_generics,
        where_clause: item.where_clause,
        where_to: None,
        where_into: None,
        derive_from: None,
        is_chainable_and_always_empty: None,
        json_kind: None,
        data,
    }
}

/// The tokens of the `ToJson` impl for what was read, where the item's
/// JSON form was built (its arguments give no template); nothing
/// otherwise.
pub fn generated_impl(read: DeriveRead) -> (r: Option<Vec<TokenTree>>)
    ensures
        match read.item {
            Some(item) => match item.json {
                Some(json) => r matches Some(ts) && deep_seq(ts@) == item_call(
                    read.crate_path@,
                    generated_item(item, json),
                    DeriveWhich::ToJson,
                ),
                None => r is None,
            },
            None => r is None,
        },
{
    let DeriveRead { crate_path, default_span: _, use_item_attrs: _, item, errors: _ } = read;
    match item {
        Some(item) => {
            let ParsedToJsonItem { name, impl_generics, ty_generics, where_clause, data, json } = item;
            match json {
                Some(json) => {
                    let data = match data {
                        crate::to_json::ParsedItemData::Struct(_) => ToJsonItemData::Struct(json),
                        crate::to_json::ParsedItemData::Enum(..) => ToJsonItemData::Enum(json),
                    };
                    let it = ToJsonItem {
                        name,
                        impl_generics,
                        ty_generics,
                        where_clause,
                        where_to: None,
                        where_into: None,
                        derive_from: None,
                        is_chainable_and_always_empty: None,
                        json_kind: None,
                        data,
                    };
                    Some(it.into_tokens(crate_path, DeriveWhich::ToJson))
                },
                None => None,
            }
        },
        None => None,
    }
}

} // verus!
