use cjson::item_attrs::IdentTree;
use cjson::json_item::{
    MaybeCalculating,
    parse_enum_variants, push_outer_attr, EnumVariantAttrsParser, FieldName, Fields, ItemAttrsParser, ItemTo,
    Options, PushMetaSimple, Rename, StructFieldAttrsParser, StructFieldToItemsDefault, StructFieldToKvsDefault,
    StructToDefault, StructToTaggedKvs, TagMode, TagModeAttrs, VariantType, ContextOfStructTag,
};
use cjson::syn_generic::parse_meta::{MetaToParse, ParseMeta};
use cjson::syn_generic::parse_meta_utils::FlagPresent;
use cjson::syn_generic::tokens::{Delimiter, Group, Ident, Literal, Punct, Spacing, Span, TokenTree};
use cjson::syn_generic::{
    ConsumedTokens, ErrorCollector, GroupBrace, GroupParen, MetaAfterPath, MetaSimple, ParseErrorKind, PunctEq,
    PunctPound, PunctSemi, StructData,
};
use cjson::utils::usize_unsuffixed;

fn ident(name: &str, span: u64) -> Ident {
    Ident { name: name.as_bytes().to_vec(), span: Span(span) }
}

fn tt_ident(name: &str, span: u64) -> TokenTree {
    TokenTree::Ident(ident(name, span))
}

fn punct(c: char, span: u64) -> Punct {
    Punct { ch: c, spacing: Spacing::Alone, span: Span(span) }
}

fn tt_punct(c: char, span: u64) -> TokenTree {
    TokenTree::Punct(punct(c, span))
}

fn tt_lit(text: &str, span: u64) -> TokenTree {
    TokenTree::Literal(Literal { text: text.as_bytes().to_vec(), span: Span(span) })
}

fn group(d: Delimiter, stream: Vec<TokenTree>, open: u64, close: u64) -> Group {
    Group { delimiter: d, stream, span_open: Span(open), span_close: Span(close) }
}

fn tt_group(d: Delimiter, stream: Vec<TokenTree>, open: u64, close: u64) -> TokenTree {
    TokenTree::Group(group(d, stream, open, close))
}

fn messages(errors: ErrorCollector) -> Vec<(&'static str, Option<Span>)> {
    match errors.ok() {
        Ok(()) => Vec::new(),
        Err(e) => {
            let mut all = vec![e.0];
            all.extend(e.1);
            all.into_iter()
                .map(|k| match k {
                    ParseErrorKind::Custom { msg, span } => (msg, span),
                    ParseErrorKind::UnexpectedToken { span } => ("unexpected token", Some(span)),
                    ParseErrorKind::UnexpectedEof { after } => ("unexpected eof", after),
                })
                .collect()
        }
    }
}

fn meta(name: &str, span: u64, after: MetaAfterPath<ConsumedTokens>) -> MetaSimple<ConsumedTokens> {
    MetaSimple { path: ident(name, span), after_path: after }
}

fn paren_after(stream: Vec<TokenTree>, open: u64, close: u64) -> MetaAfterPath<ConsumedTokens> {
    MetaAfterPath::Group(group(Delimiter::Parenthesis, stream, open, close))
}

fn eq_after(eq_span: u64, tokens: Vec<TokenTree>) -> MetaAfterPath<ConsumedTokens> {
    MetaAfterPath::Eq {
        eq: PunctEq(punct('=', eq_span)),
        before_comma_or_eof: ConsumedTokens { tokens, prev_span: Some(Span(eq_span)) },
    }
}

/// `#[cjson(args)]` as the pound and the bracket group.
fn cjson_attr(args: Vec<TokenTree>, at: u64) -> (PunctPound, TokenTree) {
    (
        PunctPound(punct('#', at)),
        tt_group(
            Delimiter::Bracket,
            vec![tt_ident("cjson", at + 1), tt_group(Delimiter::Parenthesis, args, at + 2, at + 3)],
            at,
            at + 4,
        ),
    )
}

#[test]
fn decimal_literals() {
    assert_eq!(usize_unsuffixed(0, Span(1)).text, b"0".to_vec());
    assert_eq!(usize_unsuffixed(7, Span(1)).text, b"7".to_vec());
    assert_eq!(usize_unsuffixed(10, Span(1)).text, b"10".to_vec());
    assert_eq!(usize_unsuffixed(1234, Span(2)).text, b"1234".to_vec());
    assert_eq!(usize_unsuffixed(1234, Span(2)).span, Span(2));
}

#[test]
fn item_arguments_are_read_into_their_slots() {
    let mut p = ItemAttrsParser::new();
    let mut errors = ErrorCollector::new();
    let t = p.push_meta_simple(meta("transparent", 1, MetaAfterPath::Empty), &mut errors).unwrap();
    assert_eq!(t.ident.name, b"transparent".to_vec());
    assert_eq!(t.mod_name, "");
    assert_eq!(p.transparent.as_ref().unwrap().0, Span(1));

    let t = p.push_meta_simple(meta("tag", 2, eq_after(3, vec![tt_lit("\"kind\"", 4)])), &mut errors).unwrap();
    assert!(t.children.is_empty());
    let tag = p.tag.as_ref().unwrap();
    assert_eq!(tag.0, Span(2));
    assert_eq!(tag.1.value.len(), 1);

    let t = p.push_meta_simple(meta("to", 5, paren_after(vec![tt_ident("x", 7)], 6, 8)), &mut errors).unwrap();
    assert!(t.children.is_empty());
    assert_eq!(((p.to.as_ref().unwrap().1).0).0.span_open, Span(6));
    assert!(messages(errors).is_empty());
}

#[test]
fn duplicated_and_unknown_arguments() {
    let mut p = ItemAttrsParser::new();
    let mut errors = ErrorCollector::new();
    p.push_meta_simple(meta("untagged", 1, MetaAfterPath::Empty), &mut errors).unwrap();
    p.push_meta_simple(meta("untagged", 2, MetaAfterPath::Empty), &mut errors).unwrap();
    assert_eq!(p.untagged.as_ref().unwrap().0, Span(1));
    assert!(p.push_meta_simple(meta("skip", 3, MetaAfterPath::Empty), &mut errors).is_none());
    assert_eq!(
        messages(errors),
        vec![("duplicated attribute", Some(Span(2))), ("unknown attribute", Some(Span(3)))]
    );
}

#[test]
fn misshapen_to_gets_a_placeholder() {
    let path = ident("to", 4);
    let mut errors = ErrorCollector::new();
    let mut trees = Vec::new();
    let v = ItemTo::parse_meta(MetaToParse::from_ident(&path, MetaAfterPath::Empty), &mut errors, &mut trees).ok().unwrap();
    assert_eq!(v.0 .0.delimiter, Delimiter::Parenthesis);
    assert_eq!(v.0 .0.span_open, Span(4));
    assert!(matches!(&v.0 .0.stream[0], TokenTree::Ident(i) if i.name == b"null".to_vec() && i.span == Span(4)));
    assert_eq!(messages(errors), vec![("expect `(...)`", Some(Span(4)))]);

    let mut errors = ErrorCollector::new();
    let v = StructToTaggedKvs::parse_meta(MetaToParse::from_ident(&path, eq_after(5, Vec::new())), &mut errors, &mut trees)
        .ok()
        .unwrap();
    assert!(matches!(&v.0 .0.stream[0], TokenTree::Group(g) if g.delimiter == Delimiter::Brace && g.stream.is_empty()));
    assert_eq!(messages(errors), vec![("expect `(...)`", Some(Span(5)))]);
    assert!(trees.is_empty());
}

#[test]
fn rename_function_names_its_chain() {
    let path = ident("rename", 1);
    let mut errors = ErrorCollector::new();
    let mut trees: Vec<IdentTree> = Vec::new();
    let stream = vec![tt_ident("snake", 3), tt_punct('-', 4), tt_ident("case", 5), tt_punct('-', 6), tt_ident("upper", 7)];
    let r = Rename::parse_meta(MetaToParse::from_ident(&path, paren_after(stream, 2, 8)), &mut errors, &mut trees)
        .ok()
        .unwrap();
    assert!(matches!(r, Rename::Paren(_)));
    assert_eq!(trees.len(), 1);
    assert_eq!(trees[0].ident.name, b"snake".to_vec());
    assert_eq!(trees[0].children.len(), 1);
    assert_eq!(trees[0].children[0].ident.name, b"case".to_vec());
    assert_eq!(trees[0].children[0].children[0].ident.name, b"upper".to_vec());
    assert!(trees[0].children[0].children[0].children.is_empty());

    let r = Rename::parse_meta(MetaToParse::from_ident(&path, eq_after(9, vec![tt_lit("\"n\"", 10)])), &mut errors, &mut trees)
        .ok()
        .unwrap();
    assert!(matches!(r, Rename::Eq(_)));
    assert_eq!(trees.len(), 1);

    let e = Rename::parse_meta(MetaToParse::from_ident(&path, MetaAfterPath::Empty), &mut errors, &mut trees)
        .err()
        .unwrap();
    assert!(matches!(e.0, ParseErrorKind::Custom { msg: "expect `($rename_fn)` or `= \"name\"`", span: Some(Span(1)) }));
    assert!(messages(errors).is_empty());
}

#[test]
fn first_tag_mode_wins() {
    let t = TagModeAttrs {
        untagged: None,
        tag_only: Some(FlagPresent(Span(2))),
        externally_tagged: None,
        internally_tagged: Some(FlagPresent(Span(4))),
        adjacently_tagged: Some(FlagPresent(Span(5))),
    };
    let mut errors = ErrorCollector::new();
    let m = t.into_tag_mode(&mut errors).unwrap();
    assert!(m.mode == TagMode::TagOnly);
    assert_eq!(m.span, Span(2));
    assert_eq!(
        messages(errors),
        vec![
            ("tag mode can only be specified once", Some(Span(4))),
            ("tag mode can only be specified once", Some(Span(5))),
        ]
    );

    let none = TagModeAttrs {
        untagged: None,
        tag_only: None,
        externally_tagged: None,
        internally_tagged: None,
        adjacently_tagged: None,
    };
    let mut errors = ErrorCollector::new();
    assert!(none.into_tag_mode(&mut errors).is_none());
    assert!(messages(errors).is_empty());
}

#[test]
fn struct_refuses_enum_arguments() {
    let mut p = ItemAttrsParser::new();
    let mut errors = ErrorCollector::new();
    p.push_meta_simple(meta("to_untagged", 1, paren_after(Vec::new(), 2, 3)), &mut errors);
    p.push_meta_simple(meta("untagged", 4, MetaAfterPath::Empty), &mut errors);
    p.push_meta_simple(meta("rename_variants", 5, paren_after(Vec::new(), 6, 7)), &mut errors);
    p.push_meta_simple(meta("transparent", 8, MetaAfterPath::Empty), &mut errors);
    let mut errors = ErrorCollector::new();
    let s = p.for_struct(&mut errors);
    assert_eq!(s.transparent.as_ref().unwrap().0, Span(8));
    assert_eq!(
        messages(errors),
        vec![
            ("not working with struct\nuse #[cjson(to_untagged(...))] instead", Some(Span(1))),
            ("not working with struct", Some(Span(4))),
            ("not working with struct", Some(Span(5))),
        ]
    );
}

#[test]
fn enum_refuses_transparent() {
    let mut p = ItemAttrsParser::new();
    let mut errors = ErrorCollector::new();
    p.push_meta_simple(meta("transparent", 3, MetaAfterPath::Empty), &mut errors);
    p.push_meta_simple(meta("untagged", 4, MetaAfterPath::Empty), &mut errors);
    let mut errors = ErrorCollector::new();
    let e = p.for_enum(&mut errors);
    assert!(e.untagged.is_some());
    assert_eq!(messages(errors), vec![("not working with enum\nspecify it on enum variants instead", Some(Span(3)))]);
}

#[test]
fn field_arguments_and_flatten() {
    let mut p = StructFieldAttrsParser::new();
    let mut errors = ErrorCollector::new();
    p.push_meta_simple(meta("flatten", 3, MetaAfterPath::Empty), &mut errors);
    p.push_meta_simple(meta("to_kvs", 4, paren_after(vec![tt_ident("k", 6)], 5, 7)), &mut errors);
    assert!(p.push_meta_simple(meta("tag", 8, MetaAfterPath::Empty), &mut errors).is_none());
    let f = p.make_struct_field(FieldName::Named(ident("a", 1)), vec![tt_ident("u8", 2)]);
    assert!(f.to_kvs_default == StructFieldToKvsDefault::Flatten { span: Span(3) });
    assert!(f.to_items_default == StructFieldToItemsDefault::Flatten { span: Span(3) });
    let kvs = f.to_kvs_custom.unwrap();
    assert_eq!(kvs.span, Span(4));
    assert!(matches!(&kvs.tokens, MaybeCalculating::NotCalculating(v) if v.len() == 1));
    assert!(f.to.is_none());
    assert_eq!(messages(errors), vec![("unknown attribute", Some(Span(8)))]);
}

#[test]
fn unnamed_fields_are_named_by_position() {
    // (#[cjson(skip)] u8, String,)
    let (pound, attr) = cjson_attr(vec![tt_ident("skip", 13)], 10);
    let stream = vec![
        TokenTree::Punct(pound.0),
        attr,
        tt_ident("u8", 20),
        tt_punct(',', 21),
        tt_ident("String", 22),
        tt_punct(',', 23),
    ];
    let fields = Fields::Paren(GroupParen(group(Delimiter::Parenthesis, stream, 1, 30)));
    let mut errors = ErrorCollector::new();
    let mut trees = Vec::new();
    let parsed = fields.parse(Span(99), None, &mut errors, &mut trees);
    assert_eq!(parsed.fields.len(), 2);
    match &parsed.fields[0].name {
        FieldName::Index(l) => {
            assert_eq!(l.text, b"0".to_vec());
            assert_eq!(l.span, Span(20));
        }
        _ => panic!(),
    }
    match &parsed.fields[1].name {
        FieldName::Index(l) => assert_eq!(l.text, b"1".to_vec()),
        _ => panic!(),
    }
    assert!(parsed.fields[0].skip.is_some());
    assert!(parsed.fields_ident_to_index.is_none());
    // one field is left, but there are two: an array
    assert!(parsed.to_untagged_unspecified == StructToDefault::Array);
    assert_eq!(trees.len(), 1);
    assert_eq!(trees[0].ident.name, b"cjson".to_vec());
    assert_eq!(trees[0].children[0].ident.name, b"skip".to_vec());
    assert!(messages(errors).is_empty());
}

#[test]
fn single_tuple_field_is_transparent() {
    let fields = Fields::Paren(GroupParen(group(Delimiter::Parenthesis, vec![tt_ident("u8", 2)], 1, 3)));
    let mut errors = ErrorCollector::new();
    let parsed = fields.parse(Span(9), None, &mut errors, &mut Vec::new());
    assert!(parsed.to_untagged_unspecified == StructToDefault::Transparent { span: None });

    let empty = Fields::Paren(GroupParen(group(Delimiter::Parenthesis, Vec::new(), 1, 2)));
    let mut errors = ErrorCollector::new();
    let parsed = empty.parse(Span(9), Some(FlagPresent(Span(5))), &mut errors, &mut Vec::new());
    assert!(parsed.to_untagged_unspecified == StructToDefault::Transparent { span: Some(Span(5)) });
    assert_eq!(
        messages(errors),
        vec![("`transparent` only works with struct with exactly one non-skipped field", Some(Span(5)))]
    );
}

#[test]
fn named_fields_keep_their_names() {
    // { a: u8, pub b: Vec<u8> }
    let stream = vec![
        tt_ident("a", 2),
        tt_punct(':', 3),
        tt_ident("u8", 4),
        tt_punct(',', 5),
        tt_ident("pub", 6),
        tt_ident("b", 7),
        tt_punct(':', 8),
        tt_ident("Vec", 9),
        tt_punct('<', 10),
        tt_ident("u8", 11),
        tt_punct('>', 12),
    ];
    let fields = Fields::Brace(GroupBrace(group(Delimiter::Brace, stream, 1, 13)));
    let mut errors = ErrorCollector::new();
    let parsed = fields.parse(Span(0), None, &mut errors, &mut Vec::new());
    assert_eq!(parsed.fields.len(), 2);
    assert!(matches!(&parsed.fields[1].name, FieldName::Named(i) if i.name == b"b".to_vec()));
    assert_eq!(parsed.fields[1].type_.len(), 4);
    assert_eq!(parsed.fields_ident_to_index.unwrap(), vec![b"a".to_vec(), b"b".to_vec()]);
    assert!(parsed.to_untagged_unspecified == StructToDefault::Object);
    assert!(messages(errors).is_empty());
}

#[test]
fn struct_description() {
    let mut p = ItemAttrsParser::new();
    let mut errors = ErrorCollector::new();
    p.push_meta_simple(meta("tag", 2, eq_after(3, vec![tt_lit("\"t\"", 4)])), &mut errors);
    p.push_meta_simple(meta("to", 5, paren_after(vec![tt_ident("x", 7)], 6, 8)), &mut errors);
    let attrs = p.for_struct(&mut errors);
    let data = StructData::Semi(PunctSemi(punct(';', 9)));
    let ctx = attrs.parse(ident("Unit", 1), data, &mut errors, &mut Vec::new(), Options { crate_path: Vec::new() });
    assert_eq!(ctx.name.name, b"Unit".to_vec());
    assert!(ctx.fields.is_empty());
    assert!(ctx.to_default == StructToDefault::Unit);
    let to = ctx.to_custom.unwrap();
    assert_eq!(to.span, Span(5));
    assert!(matches!(&to.tokens, MaybeCalculating::NotCalculating(v) if v.len() == 1));
    assert!(matches!(ctx.tag, ContextOfStructTag::Tagged { span_tag: Span(2), accessed: false, .. }));
    assert!(messages(errors).is_empty());
}

#[test]
fn outer_attribute_must_be_bracketed() {
    let mut p = EnumVariantAttrsParser::new();
    let mut errors = ErrorCollector::new();
    let r = push_outer_attr(&mut p, &mut errors, PunctPound(punct('#', 1)), tt_ident("x", 2));
    assert!(r.is_none());
    assert_eq!(messages(errors), vec![("expect `[`", Some(Span(2)))]);

    let mut errors = ErrorCollector::new();
    let (pound, attr) = cjson_attr(vec![tt_ident("untagged", 13)], 10);
    let t = push_outer_attr(&mut p, &mut errors, pound, attr).unwrap();
    assert_eq!(t.children[0].ident.name, b"untagged".to_vec());
    assert_eq!(p.untagged.as_ref().unwrap().0, Span(13));
    assert!(messages(errors).is_empty());
}

#[test]
fn enum_variants_are_read() {
    // A, #[cjson(rename = "b")] B(u8), C { x: u8 } = 3
    let (pound, attr) = cjson_attr(vec![tt_ident("rename", 13), tt_punct('=', 14), tt_lit("\"b\"", 15)], 10);
    let stream = vec![
        tt_ident("A", 1),
        tt_punct(',', 2),
        TokenTree::Punct(pound.0),
        attr,
        tt_ident("B", 20),
        tt_group(Delimiter::Parenthesis, vec![tt_ident("u8", 22)], 21, 23),
        tt_punct(',', 24),
        tt_ident("C", 30),
        tt_group(Delimiter::Brace, vec![tt_ident("x", 32), tt_punct(':', 33), tt_ident("u8", 34)], 31, 35),
        tt_punct('=', 36),
        tt_lit("3", 37),
    ];
    let mut errors = ErrorCollector::new();
    let mut trees = Vec::new();
    let vs = parse_enum_variants(GroupBrace(group(Delimiter::Brace, stream, 0, 40)), &mut errors, &mut trees);
    assert_eq!(vs.len(), 3);
    assert!(vs[0].variant_type == VariantType::Unit);
    assert!(vs[0].to_untagged_unspecified == StructToDefault::Unit);
    assert!(vs[1].variant_type == VariantType::Array);
    assert!(matches!(&vs[1].rename, Some(r) if r.0 == Span(13)));
    assert!(vs[1].to_untagged_unspecified == StructToDefault::Transparent { span: None });
    assert!(vs[2].variant_type == VariantType::Object);
    assert_eq!(vs[2].fields.len(), 1);
    assert_eq!(vs[2].discriminant.as_ref().unwrap().value.len(), 1);
    // A: `field`; B: `cjson(rename)` and `field`; C: `field`
    assert_eq!(trees.len(), 4);
    assert_eq!(trees[0].ident.name, b"field".to_vec());
    assert_eq!(trees[0].ident.span, Span(0));
    assert_eq!(trees[1].ident.name, b"cjson".to_vec());
    assert_eq!(trees[1].children[0].ident.name, b"rename".to_vec());
    assert!(messages(errors).is_empty());
}

use cjson::expand_props::{Prop, PropPath};
use cjson::json_array::{parse_paren_json_value_expr, JsonValueExpr, JsonValueExprPrefix, ParseError as ValueExprError};
use cjson::json_item::{field_or, Field};
use cjson::utils::unnamed_fields;

#[test]
fn unnamed_fields_numbers_the_fields() {
    // unnamed_fields!([m!] [a,] x y z)
    let input = vec![
        tt_group(Delimiter::Bracket, vec![tt_ident("m", 2), tt_punct('!', 3)], 1, 4),
        tt_group(Delimiter::Bracket, vec![tt_ident("a", 6), tt_punct(',', 7)], 5, 8),
        tt_ident("x", 9),
        tt_ident("y", 10),
        tt_ident("z", 11),
    ];
    let out = unnamed_fields(input);
    assert_eq!(out.len(), 3);
    assert!(matches!(&out[0], TokenTree::Ident(i) if i.name == b"m".to_vec()));
    match &out[2] {
        TokenTree::Group(g) => {
            assert_eq!(g.delimiter, Delimiter::Brace);
            assert_eq!(g.span_open, Span(0));
            assert_eq!(g.stream.len(), 5);
            let texts: Vec<Vec<u8>> = g.stream[2..]
                .iter()
                .map(|t| match t {
                    TokenTree::Literal(l) => l.text.clone(),
                    _ => panic!(),
                })
                .collect();
            assert_eq!(texts, vec![b"0".to_vec(), b"1".to_vec(), b"2".to_vec()]);
        }
        _ => panic!(),
    }
}

#[test]
fn json_value_expressions() {
    let c = JsonValueExpr::parse(vec![tt_ident("const", 1), tt_group(Delimiter::Brace, Vec::new(), 2, 3)]).ok().unwrap();
    assert!(!c.is_runtime());
    assert!(matches!(c, JsonValueExpr::Const { prefix_span: Span(1), .. }));
    let r = JsonValueExpr::parse(vec![tt_ident("runtime", 4), tt_group(Delimiter::Parenthesis, Vec::new(), 5, 6)])
        .ok()
        .unwrap();
    assert!(r.is_runtime());
    assert_eq!(JsonValueExpr::parse(vec![tt_ident("static", 1), tt_ident("x", 2)]).err(), Some(ValueExprError));
    assert_eq!(JsonValueExpr::parse(vec![tt_ident("const", 1)]).err(), Some(ValueExprError));
    assert!(JsonValueExprPrefix::parse_ident(&ident("runtime", 3)).is_some());
    let p = parse_paren_json_value_expr(tt_group(Delimiter::Parenthesis, vec![tt_ident("const", 1), tt_ident("x", 2)], 0, 3));
    assert!(p.is_ok());
    let q = parse_paren_json_value_expr(tt_group(Delimiter::Bracket, vec![tt_ident("const", 1), tt_ident("x", 2)], 0, 3));
    assert_eq!(q.err(), Some(ValueExprError));
}

#[test]
fn field_properties() {
    let p = PropPath(Prop::Ident(ident("field", 1)), vec![Prop::Ident(ident("name", 2))]);
    let (f, rest) = field_or(p).ok().unwrap();
    assert_eq!(f.ident().span, Span(1));
    assert_eq!(rest.len(), 1);
    let p = PropPath(Prop::Ident(ident("name", 1)), Vec::new());
    let back = field_or(p).err().unwrap();
    assert!(matches!(back.0, Prop::Ident(i) if i.name == b"name".to_vec()));

    let mut fp = StructFieldAttrsParser::new();
    let mut errors = ErrorCollector::new();
    fp.push_meta_simple(meta("skip", 1, MetaAfterPath::Empty), &mut errors);
    let f = fp.make_struct_field(FieldName::Named(ident("a", 2)), Vec::new());
    assert!(f.skipped());
    assert!(!f.not_skipped());
}

#[test]
fn attributes_of_a_field_that_cannot_be_read_are_still_read() {
    // { #[cjson(bogus)] b u8 }
    let (pound, attr) = cjson_attr(vec![tt_ident("bogus", 13)], 10);
    let stream = vec![TokenTree::Punct(pound.0), attr, tt_ident("b", 20), tt_ident("u8", 21)];
    let fields = Fields::Brace(GroupBrace(group(Delimiter::Brace, stream, 1, 30)));
    let mut errors = ErrorCollector::new();
    let mut trees = Vec::new();
    let parsed = fields.parse(Span(0), None, &mut errors, &mut trees);
    assert!(parsed.fields.is_empty());
    assert_eq!(trees.len(), 1);
    assert!(trees[0].children.is_empty());
    assert_eq!(messages(errors), vec![("unknown attribute", Some(Span(13))), ("expect `:`", Some(Span(21)))]);
}

use cjson::item_attrs::ItemAttrWhere;
use cjson::syn_generic::{IdentWhere, WhereClause};
use cjson::to_json::{join_where, make_bracket, make_delimiter, JointWhere, ToJsonItemData};

#[test]
fn where_clauses_are_joined() {
    assert!(join_where(None, None).is_none());
    let own = || WhereClause { where_token: IdentWhere(ident("where", 1)), predicates: vec![tt_ident("T", 2), tt_punct(':', 3), tt_ident("A", 4)] };
    let extra = || ItemAttrWhere { where_span: Span(10), bound: vec![tt_ident("U", 11), tt_punct(':', 12), tt_ident("B", 13)] };
    let j = join_where(Some(own()), None).unwrap();
    assert_eq!(j.where_span, Span(1));
    assert_eq!(j.predicates.len(), 3);
    let j = join_where(None, Some(extra())).unwrap();
    assert_eq!(j.where_span, Span(10));
    let j = join_where(Some(own()), Some(extra())).unwrap();
    assert_eq!(j.where_span, Span(1));
    assert_eq!(j.predicates.len(), 7);
    assert!(matches!(&j.predicates[3], TokenTree::Punct(p) if p.ch == ',' && p.span == Span(10)));
    // a trailing comma is not doubled
    let mut w = own();
    w.predicates.push(tt_punct(',', 5));
    let j = join_where(Some(w), Some(extra())).unwrap();
    assert_eq!(j.predicates.len(), 7);
}

#[test]
fn joint_where_trailing_comma_and_concat() {
    let j = JointWhere { where_span: Span(1), predicates: vec![tt_ident("T", 2)] };
    let j = j.with_trailing_comma(None);
    assert!(matches!(&j.predicates[1], TokenTree::Punct(p) if p.ch == ',' && p.span == Span(1)));
    let empty = JointWhere { where_span: Span(1), predicates: Vec::new() }.with_trailing_comma(Some(Span(3)));
    assert!(empty.predicates.is_empty());
    let c = JointWhere { where_span: Span(1), predicates: vec![tt_ident("T", 2)] }
        .concat(ItemAttrWhere { where_span: Span(7), bound: vec![tt_ident("U", 8)] });
    assert_eq!(c.predicates.len(), 3);
    assert!(matches!(&c.predicates[1], TokenTree::Punct(p) if p.span == Span(7)));
}

#[test]
fn groups_are_rebracketed() {
    let g = group(Delimiter::Parenthesis, vec![tt_ident("x", 2)], 1, 3);
    let b = make_bracket(g);
    assert_eq!(b.delimiter, Delimiter::Bracket);
    assert_eq!(b.span_open, Span(1));
    assert_eq!(b.span_close, Span(3));
    let same = make_delimiter(b, Delimiter::Bracket);
    assert_eq!(same.stream.len(), 1);
    let ts = ToJsonItemData::Enum(vec![tt_ident("e", 1)]).into_tokens();
    assert_eq!(ts.len(), 1);
}

#[test]
fn struct_body_tokens() {
    let d = StructData::Paren {
        paren: GroupParen(group(Delimiter::Parenthesis, vec![tt_ident("u8", 2)], 1, 3)),
        semi: PunctSemi(punct(';', 4)),
    };
    let ts = d.into_token_stream();
    assert_eq!(ts.len(), 2);
    assert!(matches!(&ts[1], TokenTree::Punct(p) if p.ch == ';'));
    assert_eq!(StructData::Semi(PunctSemi(punct(';', 1))).into_token_stream().len(), 1);
}

use cjson::expand_props::TokensCollector;
use cjson::json_item::{CacheForDummyTag, ContextPropTagMut};

#[test]
fn tag_tokens() {
    let mut cache = CacheForDummyTag(None);
    let (ts, res) = ContextPropTagMut::Untagged { default_span: Span(4) }.try_into_tokens(&mut cache);
    assert!(res.is_err());
    assert!(matches!(&ts[0], TokenTree::Literal(l) if l.text == b"\"\"".to_vec() && l.span == Span(4)));
    // the token made first is kept
    let (ts, _) = ContextPropTagMut::Untagged { default_span: Span(9) }.try_into_tokens(&mut cache);
    assert!(matches!(&ts[0], TokenTree::Literal(l) if l.span == Span(4)));
    let (ts, res) = ContextPropTagMut::Tagged { span_tag: Span(1), ts: vec![tt_lit("\"k\"", 2)] }.try_into_tokens(&mut cache);
    assert!(res.is_ok());
    assert_eq!(ts.len(), 1);
}

#[test]
fn collector_copies_slices() {
    let mut c = TokensCollector(vec![tt_ident("a", 1)]);
    let more = vec![tt_group(Delimiter::Parenthesis, vec![tt_ident("b", 3)], 2, 4)];
    c.extend_from_slice(&more);
    assert_eq!(c.0.len(), 2);
    assert!(matches!(&c.0[1], TokenTree::Group(g) if g.stream.len() == 1));
    assert_eq!(more.len(), 1);
}

use cjson::json_item::{calc_only_field_index, OnlyFieldResult};

fn field(skip: bool, n: &str) -> cjson::json_item::StructField {
    let mut p = StructFieldAttrsParser::new();
    let mut errors = ErrorCollector::new();
    if skip {
        p.push_meta_simple(meta("skip", 1, MetaAfterPath::Empty), &mut errors);
    }
    p.make_struct_field(FieldName::Named(ident(n, 2)), Vec::new())
}

#[test]
fn only_field_is_chosen() {
    match calc_only_field_index(&vec![field(true, "a"), field(false, "b")]) {
        OnlyFieldResult::Existing(i, e) => {
            assert_eq!(i, 1);
            assert!(e.is_none());
        }
        _ => panic!(),
    }
    match calc_only_field_index(&vec![field(false, "a"), field(false, "b")]) {
        OnlyFieldResult::Existing(i, e) => {
            assert_eq!(i, 0);
            assert_eq!(
                e.unwrap().0,
                "`@field` is ambiguous when there are more than one fields without `#[cjson(skip)]`"
            );
        }
        _ => panic!(),
    }
    match calc_only_field_index(&vec![field(true, "a")]) {
        OnlyFieldResult::Existing(i, e) => {
            assert_eq!(i, 0);
            assert_eq!(e.unwrap().0, "`@field` requires exactly one field without `#[cjson(skip)]`");
        }
        _ => panic!(),
    }
    let r = calc_only_field_index(&Vec::new());
    assert!(matches!(r, OnlyFieldResult::EmptyFields(_)));
    let mut errors = ErrorCollector::new();
    assert!(r.report(&mut errors, Span(7)).is_none());
    assert_eq!(messages(errors), vec![("`@field` requires exactly one field without `#[cjson(skip)]`", Some(Span(7)))]);
}

#[test]
fn variant_tag_modes_and_discriminants() {
    // enum E { A, #[cjson(untagged)] B(u8) = 1, C { x: u8 } = 2 + 1 } with `tag = "t"` on the enum
    let (pound, attr) = cjson_attr(vec![tt_ident("untagged", 13)], 10);
    let stream = vec![
        tt_ident("A", 1),
        tt_punct(',', 2),
        TokenTree::Punct(pound.0),
        attr,
        tt_ident("B", 20),
        tt_group(Delimiter::Parenthesis, vec![tt_ident("u8", 22)], 21, 23),
        tt_punct('=', 24),
        tt_lit("1", 25),
        tt_punct(',', 26),
        tt_ident("C", 30),
        tt_group(Delimiter::Brace, vec![tt_ident("x", 32), tt_punct(':', 33), tt_ident("u8", 34)], 31, 35),
        tt_punct('=', 36),
        tt_lit("2", 37),
        tt_punct('+', 38),
        tt_lit("1", 39),
    ];
    let mut p = ItemAttrsParser::new();
    let mut errors = ErrorCollector::new();
    p.push_meta_simple(meta("tag", 5, eq_after(6, vec![tt_lit("\"t\"", 7)])), &mut errors);
    let ctx = p.for_enum(&mut errors).parse(
        ident("E", 0),
        GroupBrace(group(Delimiter::Brace, stream, 40, 41)),
        &mut errors,
        &mut Vec::new(),
        Options { crate_path: Vec::new() },
    );
    assert_eq!(ctx.variants.len(), 3);
    // A: no mode given, `tag` on the enum: internally tagged at `tag`
    let a = ctx.access_inferred_tag_mode(0);
    assert!(a.mode == TagMode::InternallyTagged);
    assert_eq!(a.span, Span(5));
    // B: untagged on the variant
    assert!(ctx.access_inferred_tag_mode(1).mode == TagMode::Untagged);
    assert!(ctx.access_specified_tag_mode(0).is_none());
    // discriminants
    let (ts, res) = ctx.discriminant(0);
    assert!(res.is_err());
    assert!(matches!(&ts[0], TokenTree::Literal(l) if l.text == b"0".to_vec() && l.span == Span(1)));
    let (ts, res) = ctx.discriminant(1);
    assert!(res.is_ok());
    assert!(matches!(&ts[..], [TokenTree::Literal(l)] if l.text == b"1".to_vec()));
    let (ts, _) = ctx.discriminant(2);
    assert_eq!(ts.len(), 2);
    assert!(matches!(&ts[0], TokenTree::Ident(i) if i.name == b"const".to_vec() && i.span == Span(36)));
    assert!(matches!(&ts[1], TokenTree::Group(g) if g.delimiter == Delimiter::Brace && g.stream.len() == 3));
    assert!(messages(errors).is_empty());
}

#[test]
fn unit_and_other_variants_default_modes() {
    let stream = vec![tt_ident("A", 1), tt_punct(',', 2), tt_ident("B", 3), tt_group(Delimiter::Parenthesis, vec![tt_ident("u8", 5)], 4, 6)];
    let p = ItemAttrsParser::new();
    let mut errors = ErrorCollector::new();
    let ctx = p.for_enum(&mut errors).parse(
        ident("E", 0),
        GroupBrace(group(Delimiter::Brace, stream, 40, 41)),
        &mut errors,
        &mut Vec::new(),
        Options { crate_path: Vec::new() },
    );
    assert!(ctx.access_inferred_tag_mode(0).mode == TagMode::TagOnly);
    let b = ctx.access_inferred_tag_mode(1);
    assert!(b.mode == TagMode::ExternallyTagged);
    assert_eq!(b.span, Span(3));
}

use cjson::json_item::{CalcFieldName, CalcName};
use cjson::syn_generic::parse_meta_utils::{EqValue, MetaPathSpanWith};

fn render(ts: &[TokenTree]) -> String {
    let mut out = String::new();
    for t in ts {
        match t {
            TokenTree::Ident(i) => out.push_str(std::str::from_utf8(&i.name).unwrap()),
            TokenTree::Literal(l) => out.push_str(std::str::from_utf8(&l.text).unwrap()),
            TokenTree::Punct(p) => out.push(p.ch),
            TokenTree::Group(g) => {
                let (o, c) = match g.delimiter {
                    Delimiter::Parenthesis => ("(", ")"),
                    Delimiter::Brace => ("{", "}"),
                    Delimiter::Bracket => ("[", "]"),
                    Delimiter::Invisible => ("", ""),
                };
                out.push_str(o);
                out.push_str(&render(&g.stream));
                out.push_str(c);
            }
        }
        out.push(' ');
    }
    out
}

#[test]
fn renamed_keys() {
    let crate_path = vec![tt_punct(':', 0), tt_punct(':', 0), tt_ident("cjson", 0)];
    let r = Rename::Paren(GroupParen(group(Delimiter::Parenthesis, vec![tt_ident("snake_case", 3)], 2, 4)));
    let ts = r.to_tokens_as_json_object_key(&crate_path, Span(1), &tt_ident("MyField", 9));
    assert_eq!(
        render(&ts),
        "const {: : cjson : : __private : : proc_macro : : rename ! ((snake_case ) MyField ) } "
    );
    assert!(matches!(&ts[0], TokenTree::Ident(i) if i.span == Span(2)));
    let eq = Rename::Eq(EqValue { eq: PunctEq(punct('=', 5)), value: vec![tt_lit("\"k\"", 6)] });
    let ts = eq.to_tokens_as_json_object_key(&crate_path, Span(1), &tt_ident("x", 9));
    assert_eq!(render(&ts), "\"k\" ");
}

#[test]
fn names_as_json_values() {
    let options = Options { crate_path: Vec::new() };
    let name = ident("Point", 3);
    let ts = CalcName { options: &options, rename: None, name: &name }.calc();
    assert_eq!(render(&ts), "\"Point\" ");
    let renamed = MetaPathSpanWith(Span(1), Rename::Eq(EqValue { eq: PunctEq(punct('=', 5)), value: vec![tt_lit("\"p\"", 6)] }));
    let ts = CalcName { options: &options, rename: Some(&renamed), name: &name }.calc();
    assert_eq!(render(&ts), "\"p\" ");

    let index = FieldName::Index(Literal { text: b"0".to_vec(), span: Span(8) });
    let (ts, res) = CalcFieldName { options: &options, rename: None, name: &index }.calc();
    assert!(res.is_err());
    assert!(matches!(&ts[0], TokenTree::Literal(l) if l.text == b"\"\"".to_vec() && l.span == Span(8)));
    let named = FieldName::Named(ident("x", 4));
    let (ts, res) = CalcFieldName { options: &options, rename: None, name: &named }.calc();
    assert!(res.is_ok());
    assert_eq!(render(&ts), "\"x\" ");
    let (ts, res) = CalcFieldName { options: &options, rename: Some(&renamed), name: &index }.calc();
    assert!(res.is_ok());
    assert_eq!(render(&ts), "\"p\" ");
}
