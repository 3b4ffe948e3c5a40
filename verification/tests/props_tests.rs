use cjson::expand_props::{expand_ts_iter_to, MaybeIntact, TokensCollector};
use cjson::syn_generic::tokens::{Punct, Spacing};
use cjson::expand_props::{Prop, PropPath};
use cjson::json_item::{
    CircularDummy, CustomTokens, CustomTokensExpandError, FieldName, MaybeCalculating, StructField,
    StructFieldToItemsDefault, StructFieldToKvsDefault,
};
use cjson::syn_generic::parse_meta_utils::FlagPresent;
use cjson::props::{
    field_prop, field_props_maybe_empty, match_ident_default, struct_prop, variant_non_field_prop,
    variant_prop, BracketStarCursor, FieldProp, StructProp, VariantNonFieldProp, VariantProp, VariantTo,
};
use cjson::syn_generic::tokens::{Delimiter, Ident, Literal, Span, TokenTree};
use cjson::syn_generic::{ErrorCollector, ParseErrorKind};
use cjson::expand_props::ErroredContext;
use cjson::expand_errors::{
    ContentNotDefinedError, CustomTokensExpandErrorOr, EnumVariantToUnspecifiedExpandError, IntoParseErrorWithSpan,
    StructFieldExpandToItemsDefaultError, StructFieldExpandToKvsDefaultError, StructTagExpandError,
    StructToDefaultExpandError, StructToTaggedDefaultExpandError, StructToUnspecifiedExpandError,
    ToAdjacentlyTaggedDefaultExpandError,
};
use cjson::json_item::{OnlyFieldError, OnlyFieldResult, StructFieldExpandNameError};
use cjson::json_item::VariantType;
use cjson::variant_pat::{pat_body, PatField};
use cjson::to_default::{
    calc_expand_to_items_default, calc_expand_to_kvs_default, FieldItemsParts, FieldKvsParts,
    calc_expand_to_default, calc_to_adjacently_tagged_default, calc_to_tagged_kvs_default, AdjacentlyTaggedParts,
    FieldExpanded, ToDefaultParts,
};

fn p(name: &str, span: u64) -> Prop {
    Prop::Ident(Ident { name: name.as_bytes().to_vec(), span: Span(span) })
}

fn lit(text: &str, span: u64) -> Prop {
    Prop::Literal(Literal { text: text.as_bytes().to_vec(), span: Span(span) })
}

fn path(first: Prop, rest: Vec<Prop>) -> PropPath {
    PropPath(first, rest)
}

fn messages(errors: ErrorCollector) -> Vec<(&'static str, Option<Span>)> {
    match errors.ok() {
        Ok(()) => Vec::new(),
        Err(e) => {
            let mut all = vec![e.0];
            all.extend(e.1);
            all.into_iter()
                .map(|k| match k {
                    ParseErrorKind::Custom { msg, span } => (msg, span),
                    ParseErrorKind::UnexpectedToken { span } => ("unexpected token", Some(span)),
                    ParseErrorKind::UnexpectedEof { after } => ("unexpected eof", after),
                })
                .collect()
        }
    }
}

#[test]
fn struct_prop_reads_name_tag_and_self() {
    let mut errors = ErrorCollector::new();
    assert!(matches!(struct_prop(path(p("name", 1), vec![]), &mut errors), Some(StructProp::Name(Span(1)))));
    assert!(matches!(struct_prop(path(p("tag", 2), vec![]), &mut errors), Some(StructProp::Tag(Span(2)))));
    match struct_prop(path(p("self", 3), vec![p("a", 4), p("b", 5)]), &mut errors) {
        Some(StructProp::SelfValue(Span(3), rest)) => assert_eq!(rest.len(), 2),
        _ => panic!("expected @self"),
    }
    assert!(messages(errors).is_empty());
}

#[test]
fn struct_prop_reports_extra_and_unknown() {
    let mut errors = ErrorCollector::new();
    assert!(matches!(
        struct_prop(path(p("name", 1), vec![p("x", 2), p("y", 3)]), &mut errors),
        Some(StructProp::Name(Span(1)))
    ));
    assert!(struct_prop(path(p("content", 4), vec![]), &mut errors).is_none());
    assert!(struct_prop(path(lit("0", 5), vec![]), &mut errors).is_none());
    assert_eq!(
        messages(errors),
        vec![
            ("property not defined on struct @name", Some(Span(2))),
            ("property not defined on struct", Some(Span(4))),
            ("property not defined on struct", Some(Span(5))),
        ]
    );
}

#[test]
fn struct_prop_reads_to_forms() {
    let mut errors = ErrorCollector::new();
    assert!(matches!(struct_prop(path(p("to", 1), vec![]), &mut errors), Some(StructProp::To(Span(1)))));
    assert!(matches!(
        struct_prop(path(p("to", 1), vec![p("untagged_default", 2)]), &mut errors),
        Some(StructProp::ToUntaggedDefault(Span(2)))
    ));
    assert!(matches!(
        struct_prop(path(p("to", 1), vec![p("tagged_default", 3), p("z", 4)]), &mut errors),
        Some(StructProp::ToTaggedDefault(Span(3)))
    ));
    assert!(matches!(
        struct_prop(path(p("to", 1), vec![p("other", 5)]), &mut errors),
        Some(StructProp::To(Span(1)))
    ));
    assert_eq!(
        messages(errors),
        vec![
            ("property not defined on struct @(to.tagged_default)", Some(Span(4))),
            ("property not defined on struct @to", Some(Span(5))),
        ]
    );
}

#[test]
fn variant_prop_reads_each_property() {
    let mut errors = ErrorCollector::new();
    assert_eq!(variant_prop(path(p("tag", 1), vec![]), &mut errors), Some(VariantProp::Tag(Span(1))));
    assert_eq!(variant_prop(path(p("content", 2), vec![]), &mut errors), Some(VariantProp::Content(Span(2))));
    assert_eq!(variant_prop(path(p("name", 3), vec![]), &mut errors), Some(VariantProp::Name(Span(3))));
    assert_eq!(
        variant_prop(path(p("discriminant", 4), vec![]), &mut errors),
        Some(VariantProp::Discriminant(Span(4)))
    );
    assert_eq!(
        variant_prop(path(p("discriminant_or_name", 5), vec![]), &mut errors),
        Some(VariantProp::DiscriminantOrName(Span(5)))
    );
    assert_eq!(variant_prop(path(p("to", 6), vec![]), &mut errors), Some(VariantProp::To(Span(6), VariantTo::Plain)));
    assert!(messages(errors).is_empty());
}

#[test]
fn variant_prop_reads_to_forms_and_reports() {
    let mut errors = ErrorCollector::new();
    let forms = [
        ("untagged", VariantTo::Untagged(Span(2))),
        ("untagged_default", VariantTo::UntaggedDefault(Span(2))),
        ("tagged_default", VariantTo::TaggedDefault(Span(2))),
        ("tagged_kvs", VariantTo::TaggedKvs(Span(2))),
        ("tagged_kvs_default", VariantTo::TaggedKvsDefault(Span(2))),
        ("externally_tagged_default", VariantTo::ExternallyTaggedDefault(Span(2))),
        ("adjacently_tagged_default", VariantTo::AdjacentlyTaggedDefault(Span(2))),
    ];
    for (name, expected) in forms {
        assert_eq!(
            variant_prop(path(p("to", 1), vec![p(name, 2)]), &mut errors),
            Some(VariantProp::To(Span(1), expected))
        );
    }
    assert!(messages(errors).is_empty());
    let mut errors = ErrorCollector::new();
    assert_eq!(
        variant_prop(path(p("to", 1), vec![p("untagged", 2), p("x", 3)]), &mut errors),
        Some(VariantProp::To(Span(1), VariantTo::Untagged(Span(2))))
    );
    assert_eq!(
        variant_prop(path(p("to", 1), vec![lit("0", 4)]), &mut errors),
        Some(VariantProp::To(Span(1), VariantTo::Plain))
    );
    assert_eq!(variant_prop(path(p("tag", 5), vec![p("y", 6)]), &mut errors), Some(VariantProp::Tag(Span(5))));
    assert_eq!(variant_prop(path(p("field", 7), vec![]), &mut errors), None);
    assert_eq!(
        messages(errors),
        vec![
            ("property not defined on enum variant @(to.untagged)", Some(Span(3))),
            ("property not defined on struct @to", Some(Span(4))),
            ("property not defined on enum variant @tag", Some(Span(6))),
            ("property not defined on enum variant", Some(Span(7))),
        ]
    );
}

#[test]
fn variant_non_field_prop_tells_item_and_self() {
    match variant_non_field_prop(path(p("item", 1), vec![p("a", 2)])) {
        VariantNonFieldProp::Item(Span(1), rest) => assert_eq!(rest.len(), 1),
        _ => panic!("expected @item"),
    }
    match variant_non_field_prop(path(p("self", 3), vec![])) {
        VariantNonFieldProp::SelfValue(Span(3), rest) => assert!(rest.is_empty()),
        _ => panic!("expected @self"),
    }
    assert!(matches!(variant_non_field_prop(path(p("tag", 4), vec![])), VariantNonFieldProp::AtVariant(_)));
}

#[test]
fn field_prop_reads_each_property() {
    let mut errors = ErrorCollector::new();
    assert_eq!(field_prop(p("name", 1), vec![], &mut errors), Some(FieldProp::Name(Span(1))));
    assert_eq!(field_prop(p("index_to_str", 2), vec![], &mut errors), Some(FieldProp::IndexToStr(Span(2))));
    assert_eq!(
        field_prop(p("name_or_index_to_str", 3), vec![], &mut errors),
        Some(FieldProp::NameOrIndexToStr(Span(3)))
    );
    assert_eq!(field_prop(p("expr", 4), vec![], &mut errors), Some(FieldProp::Expr));
    assert_eq!(field_prop(p("type", 5), vec![], &mut errors), Some(FieldProp::Type));
    assert_eq!(field_prop(p("to", 6), vec![], &mut errors), Some(FieldProp::To(Span(6))));
    assert_eq!(field_prop(p("to", 6), vec![p("default", 7)], &mut errors), Some(FieldProp::ToDefault(Span(7))));
    assert_eq!(field_prop(p("to_kvs", 8), vec![], &mut errors), Some(FieldProp::ToKvs(Span(8))));
    assert_eq!(
        field_prop(p("to_kvs", 8), vec![p("default", 9)], &mut errors),
        Some(FieldProp::ToKvsDefault(Span(9)))
    );
    assert_eq!(field_prop(p("to_items", 10), vec![], &mut errors), Some(FieldProp::ToItems(Span(10))));
    assert_eq!(
        field_prop(p("to_items", 10), vec![p("default", 11)], &mut errors),
        Some(FieldProp::ToItemsDefault(Span(11)))
    );
    assert!(messages(errors).is_empty());
}

#[test]
fn field_prop_reports_what_it_does_not_define() {
    let mut errors = ErrorCollector::new();
    assert_eq!(field_prop(p("name", 1), vec![p("x", 2)], &mut errors), Some(FieldProp::Name(Span(1))));
    assert_eq!(field_prop(p("to", 3), vec![p("other", 4)], &mut errors), Some(FieldProp::To(Span(3))));
    assert_eq!(
        field_prop(p("to_kvs", 5), vec![p("default", 6), p("more", 7)], &mut errors),
        Some(FieldProp::ToKvsDefault(Span(6)))
    );
    assert_eq!(field_prop(p("tag", 8), vec![], &mut errors), None);
    assert_eq!(
        messages(errors),
        vec![
            ("property not defined", Some(Span(2))),
            ("property not defined", Some(Span(4))),
            ("property not defined", Some(Span(7))),
            ("property not defined on field of struct", Some(Span(8))),
        ]
    );
}

#[test]
fn match_ident_default_reads_default_only() {
    let mut errors = ErrorCollector::new();
    assert_eq!(match_ident_default(&vec![], &mut errors), None);
    assert_eq!(match_ident_default(&vec![p("default", 3)], &mut errors), Some(Span(3)));
    assert_eq!(match_ident_default(&vec![lit("1", 4)], &mut errors), None);
    assert_eq!(messages(errors), vec![("property not defined", Some(Span(4)))]);
}

#[test]
fn field_props_maybe_empty_needs_a_property() {
    let mut errors = ErrorCollector::new();
    assert_eq!(field_props_maybe_empty(Span(9), vec![], &mut errors), None);
    assert_eq!(field_props_maybe_empty(Span(9), vec![p("expr", 10)], &mut errors), Some(FieldProp::Expr));
    assert_eq!(messages(errors), vec![("this property cannot expand to tokens", Some(Span(9)))]);
}

fn field(skipped: bool) -> StructField {
    StructField {
        skip: if skipped { Some(FlagPresent(Span(1))) } else { None },
        name: FieldName::Index(Literal { text: b"0".to_vec(), span: Span(1) }),
        type_: Vec::new(),
        rename: None,
        to: None,
        to_kvs_default: StructFieldToKvsDefault::BracedNameEqTo,
        to_kvs_custom: None,
        to_items_default: StructFieldToItemsDefault::BracketedTo,
        to_items_custom: None,
    }
}

#[test]
fn bracket_star_cursor_walks_unskipped_fields() {
    let fields = vec![field(true), field(false), field(true), field(true), field(false), field(true)];
    let mut c = BracketStarCursor::new(&fields);
    let mut seen = Vec::new();
    while c.has_current(&fields) {
        seen.push(c.index);
        c.next(&fields);
    }
    assert_eq!(seen, vec![1, 4]);
    assert_eq!(c.index, 6);
    c.next(&fields);
    assert_eq!(c.index, 6);
    let none: Vec<StructField> = vec![field(true)];
    assert!(!BracketStarCursor::new(&none).has_current(&none));
}

#[test]
fn custom_tokens_expand_and_circular_reference() {
    let tokens = vec![TokenTree::Ident(Ident { name: b"value".to_vec(), span: Span(3) })];
    let mut c = CustomTokens { span: Span(2), tokens: MaybeCalculating::NotCalculating(tokens) };
    let taken = c.take_for_calculating();
    assert!(matches!(c.tokens, MaybeCalculating::Calculating));
    let mut ctx = ErroredContext;
    let (ts, res) = taken.expand(&mut ctx, CircularDummy::Null, "self reference");
    assert!(res.is_ok());
    assert_eq!(ts.len(), 1);
    assert!(matches!(&ts[0], TokenTree::Ident(i) if i.name == b"value".to_vec()));
    let (ts, res) = c.expand(&mut ctx, CircularDummy::Brackets, "self reference");
    assert!(matches!(res, Err(CustomTokensExpandError::CircularRef { msg: "self reference" })));
    assert!(matches!(&ts[0], TokenTree::Group(g) if g.delimiter == Delimiter::Bracket && g.stream.is_empty() && g.span_open == Span(2)));
}

fn kinds(e: cjson::syn_generic::ParseError) -> Vec<(&'static str, Option<Span>)> {
    let mut all = vec![e.0];
    all.extend(e.1);
    all.into_iter()
        .map(|k| match k {
            ParseErrorKind::Custom { msg, span } => (msg, span),
            ParseErrorKind::UnexpectedToken { span } => ("unexpected token", Some(span)),
            ParseErrorKind::UnexpectedEof { after } => ("unexpected eof", after),
        })
        .collect()
}

#[test]
fn field_kvs_default_errors_come_in_order() {
    let e = StructFieldExpandToKvsDefaultError::NameEqTo {
        expand_name: Some(StructFieldExpandNameError),
        expand_to: Some(CustomTokensExpandError::CircularRef { msg: "@to circularly references itself" }),
    };
    assert_eq!(
        kinds(e.into_parse_error_with_span(Span(7))),
        vec![
            ("unnamed field doesn't have `@name` unless renamed", Some(Span(7))),
            ("@to circularly references itself", Some(Span(7))),
        ]
    );
    assert_eq!(
        kinds(StructFieldExpandToKvsDefaultError::FlattenOnUnnamedField.into_parse_error_with_span(Span(8))),
        vec![("@to_kvs must be explicitly specified on flattened unnamed field to avoid ambiguity", Some(Span(8)))]
    );
    assert_eq!(
        kinds(StructFieldExpandToItemsDefaultError::FlattenOnNamedField.into_parse_error_with_span(Span(9))),
        vec![("@to_items must be explicitly specified on flattened named field to avoid ambiguity", Some(Span(9)))]
    );
}

#[test]
fn struct_default_errors_keep_their_parts() {
    let e = StructToDefaultExpandError::Transparent {
        only_field: Some(OnlyFieldError("`@field` requires exactly one field without `#[cjson(skip)]`")),
        expand_to: None,
    };
    assert_eq!(
        kinds(e.into_parse_error_with_span(Span(3))),
        vec![("`@field` requires exactly one field without `#[cjson(skip)]`", Some(Span(3)))]
    );
    let inner = cjson::syn_generic::ParseError(ParseErrorKind::UnexpectedToken { span: Span(1) }, Vec::new());
    let e = StructToUnspecifiedExpandError::Untagged(StructToDefaultExpandError::ObjectOrArray(inner));
    assert_eq!(kinds(e.into_parse_error_with_span(Span(3))), vec![("unexpected token", Some(Span(1)))]);
}

#[test]
fn tagged_forms_report_tag_then_rest() {
    let e = StructToTaggedDefaultExpandError {
        expand_tag: Some(StructTagExpandError("@tag not defined on struct")),
        after_tag: Some(CustomTokensExpandErrorOr::Custom(CustomTokensExpandError::CircularRef {
            msg: "@to_tagged_kvs on struct circularly references itself",
        })),
    };
    assert_eq!(
        kinds(e.into_parse_error_with_span(Span(4))),
        vec![
            ("@tag not defined on struct", Some(Span(4))),
            ("@to_tagged_kvs on struct circularly references itself", Some(Span(4))),
        ]
    );
    let e = EnumVariantToUnspecifiedExpandError::AdjacentlyTagged(ToAdjacentlyTaggedDefaultExpandError {
        expand_tag: None,
        expand_content: Some(ContentNotDefinedError),
        expand_to_untagged: None,
    });
    assert_eq!(kinds(e.into_parse_error_with_span(Span(5))), vec![("@content not defined on enum variant", Some(Span(5)))]);
}

#[test]
fn expand_map_err_uses_the_message_of_the_property() {
    let mut c = CustomTokens { span: Span(6), tokens: MaybeCalculating::NotCalculating(Vec::new()) };
    let _taken = c.take_for_calculating();
    let mut ctx = ErroredContext;
    let (ts, res) = c.expand_map_err::<ErroredContext, StructFieldExpandToKvsDefaultError>(&mut ctx);
    assert!(matches!(&ts[0], TokenTree::Group(g) if g.delimiter == Delimiter::Brace && g.span_close == Span(6)));
    match res {
        Err(e) => assert_eq!(kinds(e.into_parse_error_with_span(Span(6))), vec![("@to_kvs circularly references itself", Some(Span(6)))]),
        Ok(()) => panic!("expected a circular reference"),
    }
    let e: CustomTokensExpandError<()> = CustomTokensExpandError::CircularRef { msg: () };
    assert!(matches!(e.map_circular_ref("m"), CustomTokensExpandError::CircularRef { msg: "m" }));
}

fn tt_ident(name: &str, span: u64) -> TokenTree {
    TokenTree::Ident(Ident { name: name.as_bytes().to_vec(), span: Span(span) })
}

fn render(ts: &[TokenTree]) -> String {
    ts.iter()
        .map(|t| match t {
            TokenTree::Ident(i) => String::from_utf8(i.name.clone()).unwrap(),
            TokenTree::Literal(l) => String::from_utf8(l.text.clone()).unwrap(),
            TokenTree::Punct(p) => p.ch.to_string(),
            TokenTree::Group(g) => {
                let (o, c) = match g.delimiter {
                    Delimiter::Parenthesis => ("(", ")"),
                    Delimiter::Brace => ("{", "}"),
                    Delimiter::Bracket => ("[", "]"),
                    Delimiter::Invisible => ("", ""),
                };
                format!("{} {} {}", o, render(&g.stream), c)
            }
        })
        .collect::<Vec<_>>()
        .join(" ")
}

#[test]
fn to_default_of_unit_object_and_array() {
    let (ts, res) = calc_expand_to_default::<StructFieldExpandToKvsDefaultError>(Span(2), ToDefaultParts::Unit);
    assert_eq!(render(&ts), "null");
    assert!(res.is_ok());
    let fields = vec![
        FieldExpanded { name_span: Span(5), tokens: vec![tt_ident("a", 5)], error: None },
        FieldExpanded {
            name_span: Span(9),
            tokens: vec![tt_ident("b", 9)],
            error: Some(StructFieldExpandToKvsDefaultError::FlattenOnUnnamedField),
        },
    ];
    let (ts, res) = calc_expand_to_default(Span(2), ToDefaultParts::Object(fields));
    assert_eq!(render(&ts), "{ . . a ; . . b ; }");
    match &ts[0] {
        TokenTree::Group(g) => assert!(g.span_open == Span(2) && g.span_close == Span(2)),
        _ => panic!("expected braces"),
    }
    match res {
        Err(e) => assert_eq!(
            kinds(e.into_parse_error_with_span(Span(100))),
            vec![("@to_kvs must be explicitly specified on flattened unnamed field to avoid ambiguity", Some(Span(9)))]
        ),
        Ok(()) => panic!("expected the field's error"),
    }
    let items = vec![FieldExpanded::<StructFieldExpandToItemsDefaultError> { name_span: Span(5), tokens: vec![tt_ident("x", 5)], error: None }];
    let (ts, res) = calc_expand_to_default(Span(2), ToDefaultParts::Array(items));
    assert_eq!(render(&ts), "[ . . x , ]");
    assert!(res.is_ok());
}

#[test]
fn to_default_of_transparent() {
    let (ts, res) = calc_expand_to_default::<StructFieldExpandToKvsDefaultError>(
        Span(2),
        ToDefaultParts::Transparent { span: None, only_field: OnlyFieldResult::Existing((vec![tt_ident("v", 4)], None), None) },
    );
    assert_eq!(render(&ts), "v");
    assert!(res.is_ok());
    let (ts, res) = calc_expand_to_default::<StructFieldExpandToKvsDefaultError>(
        Span(2),
        ToDefaultParts::Transparent {
            span: Some(Span(3)),
            only_field: OnlyFieldResult::EmptyFields(OnlyFieldError("`@field` requires exactly one field without `#[cjson(skip)]`")),
        },
    );
    assert!(matches!(&ts[0], TokenTree::Ident(i) if i.name == b"null".to_vec() && i.span == Span(3)));
    match res {
        Err(e) => assert_eq!(
            kinds(e.into_parse_error_with_span(Span(3))),
            vec![("`@field` requires exactly one field without `#[cjson(skip)]`", Some(Span(3)))]
        ),
        Ok(()) => panic!("expected the error"),
    }
}

#[test]
fn tagged_kvs_default_is_always_an_object() {
    let (ts, res) = calc_to_tagged_kvs_default::<StructFieldExpandToKvsDefaultError>(Span(2), ToDefaultParts::Unit);
    assert_eq!(render(&ts), "{  }");
    assert!(res.is_ok());
    let items = vec![FieldExpanded::<StructFieldExpandToKvsDefaultError> { name_span: Span(5), tokens: vec![tt_ident("x", 5)], error: None }];
    let (ts, res) = calc_to_tagged_kvs_default(Span(2), ToDefaultParts::Array(items));
    assert_eq!(render(&ts), "{ . . x ; }");
    assert!(res.is_ok());
}

#[test]
fn adjacently_tagged_default_with_and_without_value() {
    let parts = AdjacentlyTaggedParts {
        tag: (vec![tt_ident("t", 1)], None),
        name: vec![tt_ident("n", 2)],
        content_and_value: None,
    };
    let (ts, res) = calc_to_adjacently_tagged_default(Span(3), parts);
    assert_eq!(render(&ts), "{ t = n }");
    assert!(res.is_ok());
    let parts = AdjacentlyTaggedParts {
        tag: (vec![tt_ident("t", 1)], Some(StructTagExpandError("@tag not defined on enum"))),
        name: vec![tt_ident("n", 2)],
        content_and_value: Some(((vec![tt_ident("c", 4)], Some(ContentNotDefinedError)), (vec![tt_ident("v", 5)], None))),
    };
    let (ts, res) = calc_to_adjacently_tagged_default(Span(3), parts);
    assert_eq!(render(&ts), "{ t = n ; c = v }");
    match res {
        Err(e) => assert_eq!(
            kinds(e.into_parse_error_with_span(Span(3))),
            vec![("@tag not defined on enum", Some(Span(3))), ("@content not defined on enum variant", Some(Span(3)))]
        ),
        Ok(()) => panic!("expected the errors"),
    }
}

fn pat_field(accessed: bool, name: FieldName, pattern: Option<Vec<TokenTree>>) -> PatField {
    PatField { accessed_expr: accessed, name, pattern }
}

#[test]
fn pat_body_binds_read_fields_only() {
    assert!(pat_body(VariantType::Unit, Vec::new()).is_none());
    let named = |n: &str, s: u64| FieldName::Named(Ident { name: n.as_bytes().to_vec(), span: Span(s) });
    let t = pat_body(
        VariantType::Object,
        vec![pat_field(true, named("a", 1), None), pat_field(false, named("b", 2), None), pat_field(true, named("c", 3), None)],
    )
    .unwrap();
    assert_eq!(render(&[t]), "{ a , c , . . }");
    let t = pat_body(VariantType::Object, vec![pat_field(true, named("a", 1), None)]).unwrap();
    assert_eq!(render(&[t]), "{ a , }");
    let index = |n: &str| FieldName::Index(Literal { text: n.as_bytes().to_vec(), span: Span(1) });
    let t = pat_body(
        VariantType::Array,
        vec![pat_field(false, index("0"), None), pat_field(true, index("1"), Some(vec![tt_ident("v1", 4)]))],
    )
    .unwrap();
    assert_eq!(render(&[t]), "( _ , v1 , )");
}

#[test]
fn field_kvs_and_items_defaults() {
    let (ts, res) = calc_expand_to_kvs_default(FieldKvsParts::BracedNameEqTo {
        name_span: Span(4),
        name: (vec![tt_ident("\"a\"", 4)], None),
        to: (vec![tt_ident("v", 4)], None),
    });
    assert_eq!(render(&ts), "{ \"a\" = v }");
    assert!(res.is_ok());
    let (ts, res) = calc_expand_to_kvs_default(FieldKvsParts::Flatten { span: Span(6), named: false, default_to: Vec::new() });
    assert_eq!(render(&ts), "{  }");
    assert!(matches!(res, Err(StructFieldExpandToKvsDefaultError::FlattenOnUnnamedField)));
    let (ts, res) = calc_expand_to_kvs_default(FieldKvsParts::Flatten { span: Span(6), named: true, default_to: vec![tt_ident("x", 1)] });
    assert_eq!(render(&ts), "x");
    assert!(res.is_ok());
    let (ts, res) = calc_expand_to_items_default(FieldItemsParts::BracketedTo {
        name_span: Span(4),
        to: (vec![tt_ident("v", 4)], Some(CustomTokensExpandError::CircularRef { msg: "@to circularly references itself" })),
    });
    assert_eq!(render(&ts), "[ v ]");
    assert!(matches!(res, Err(StructFieldExpandToItemsDefaultError::To(_))));
    let (ts, res) = calc_expand_to_items_default(FieldItemsParts::Flatten { span: Span(6), named: true, default_to: Vec::new() });
    assert_eq!(render(&ts), "[  ]");
    assert!(matches!(res, Err(StructFieldExpandToItemsDefaultError::FlattenOnNamedField)));
}

#[test]
fn expand_with_errored_context_drops_properties() {
    let at = |s: u64| TokenTree::Punct(Punct { ch: '@', spacing: Spacing::Alone, span: Span(s) });
    let ts = vec![
        tt_ident("x", 1),
        at(2),
        tt_ident("b", 3),
        at(4),
        TokenTree::Literal(Literal { text: b"1".to_vec(), span: Span(5) }),
    ];
    let mut out = TokensCollector(Vec::new());
    let mut errors = ErrorCollector::new();
    let r = expand_ts_iter_to(&mut out, &ts, &mut ErroredContext, &mut errors);
    assert!(matches!(r, MaybeIntact::Expanded(())));
    assert_eq!(render(&out.0), "x @ 1");
    assert!(errors.ok().is_ok());
}

#[test]
fn tokens_collector_as_mut_adds_to_the_same_tokens() {
    let mut out = TokensCollector(Vec::new());
    out.as_mut().push(TokenTree::Punct(Punct { ch: '@', spacing: Spacing::Alone, span: Span(1) }));
    out.as_mut().extend(vec![TokenTree::Literal(Literal { text: b"1".to_vec(), span: Span(2) })]);
    assert_eq!(out.0.len(), 2);
}
