use cjson::item_attrs::{IdentTree, ItemAttrWhere};
use cjson::expand_props::{Prop, PropPath, TokensCollector};
use cjson::props::{StructProp, VariantProp, VariantTo};
use cjson::json_item::{
    CacheForDummyTag, ContextOfStructTag, ContextPropTagMut, ItemAttrsParser, StructToDefault, TagMode, VariantToPlan,
};
use cjson::syn_generic::parse_meta_utils::MetaPathSpanWith;
use cjson::syn_generic::tokens::{Delimiter, Group, Ident, Literal, Punct, Spacing, Span, TokenTree};
use cjson::syn_generic::{ErrorCollector, ParseError, ParseErrorKind, ParsingTokenStream};
use cjson::derive::derive_to_json_read;
use cjson::to_json::{DeriveWhich, JointWhere, ParsedItemData, ToJson, ToJsonItem, ToJsonItemData};

/// Tokens of a small piece of Rust: identifiers, literals (numbers and
/// strings), punctuation and groups. Each token's place is one more than
/// the index of its first character.
fn lex(src: &str) -> Vec<TokenTree> {
    let chars: Vec<char> = src.chars().collect();
    let mut pos = 0;
    let out = lex_until(&chars, &mut pos, None);
    assert_eq!(pos, chars.len());
    out
}

fn is_ident_char(c: char) -> bool {
    c.is_ascii_alphanumeric() || c == '_'
}

fn lex_until(chars: &[char], pos: &mut usize, close: Option<char>) -> Vec<TokenTree> {
    let mut out = Vec::new();
    while *pos < chars.len() {
        let c = chars[*pos];
        let span = Span(*pos as u64 + 1);
        if c.is_whitespace() {
            *pos += 1;
        } else if Some(c) == close {
            return out;
        } else if c == '(' || c == '[' || c == '{' {
            let (d, end) = match c {
                '(' => (Delimiter::Parenthesis, ')'),
                '[' => (Delimiter::Bracket, ']'),
                _ => (Delimiter::Brace, '}'),
            };
            *pos += 1;
            let stream = lex_until(chars, pos, Some(end));
            let span_close = Span(*pos as u64 + 1);
            *pos += 1;
            out.push(TokenTree::Group(Group { delimiter: d, stream, span_open: span, span_close }));
        } else if c == '"' {
            let start = *pos;
            *pos += 1;
            while chars[*pos] != '"' {
                *pos += 1;
            }
            *pos += 1;
            let text: String = chars[start..*pos].iter().collect();
            out.push(TokenTree::Literal(Literal { text: text.into_bytes(), span }));
        } else if c.is_ascii_digit() {
            let start = *pos;
            while *pos < chars.len() && is_ident_char(chars[*pos]) {
                *pos += 1;
            }
            let text: String = chars[start..*pos].iter().collect();
            out.push(TokenTree::Literal(Literal { text: text.into_bytes(), span }));
        } else if is_ident_char(c) {
            let start = *pos;
            while *pos < chars.len() && is_ident_char(chars[*pos]) {
                *pos += 1;
            }
            let text: String = chars[start..*pos].iter().collect();
            out.push(TokenTree::Ident(Ident { name: text.into_bytes(), span }));
        } else {
            *pos += 1;
            let joint = *pos < chars.len() && {
                let n = chars[*pos];
                (c == '\'' && is_ident_char(n))
                    || (!n.is_whitespace() && !is_ident_char(n) && !"()[]{}\"".contains(n))
            };
            let spacing = if joint { Spacing::Joint } else { Spacing::Alone };
            out.push(TokenTree::Punct(Punct { ch: c, spacing, span }));
        }
    }
    out
}

fn render_one(t: &TokenTree) -> String {
    match t {
        TokenTree::Ident(i) => String::from_utf8(i.name.clone()).unwrap(),
        TokenTree::Literal(l) => String::from_utf8(l.text.clone()).unwrap(),
        TokenTree::Punct(p) => p.ch.to_string(),
        TokenTree::Group(g) => {
            let (o, c) = match g.delimiter {
                Delimiter::Parenthesis => ("(", ")"),
                Delimiter::Brace => ("{", "}"),
                Delimiter::Bracket => ("[", "]"),
                Delimiter::Invisible => ("", ""),
            };
            let inner = render(&g.stream);
            if inner.is_empty() {
                format!("{}{}", o, c)
            } else {
                format!("{} {} {}", o, inner, c)
            }
        }
    }
}

fn render(ts: &[TokenTree]) -> String {
    ts.iter().map(render_one).collect::<Vec<_>>().join(" ")
}


fn stream(src: &str) -> ParsingTokenStream {
    ParsingTokenStream::new(lex(src))
}

fn ident(name: &str, span: u64) -> Ident {
    Ident { name: name.as_bytes().to_vec(), span: Span(span) }
}

fn messages(errors: ErrorCollector) -> Vec<(&'static str, Option<Span>)> {
    match errors.ok() {
        Ok(()) => Vec::new(),
        Err(e) => {
            let mut all = vec![e.0];
            all.extend(e.1);
            all.into_iter()
                .map(|k| match k {
                    ParseErrorKind::Custom { msg, span } => (msg, span),
                    ParseErrorKind::UnexpectedToken { span } => ("unexpected token", Some(span)),
                    ParseErrorKind::UnexpectedEof { after } => ("unexpected eof", after),
                })
                .collect()
        }
    }
}

fn custom(e: &ParseError) -> (&'static str, Option<Span>) {
    assert!(e.1.is_empty());
    match e.0 {
        ParseErrorKind::Custom { msg, span } => (msg, span),
        _ => panic!("expected a message"),
    }
}

fn to_json(kw: &str, any_value: Option<Span>, append: Option<ItemAttrWhere>) -> ToJson {
    ToJson { first_ident: ident(kw, 100), append_where_clause: append, any_value, item_attrs: ItemAttrsParser::new() }
}

fn tree_name(t: &IdentTree) -> String {
    String::from_utf8(t.ident.name.clone()).unwrap()
}

#[test]
fn try_parse_reads_a_struct_with_generics() {
    let mut input = stream("Foo<T: Clone> { a: T }");
    let mut errors = ErrorCollector::new();
    let mut trees = Vec::new();
    let item = match to_json("struct", None, None).try_parse(&mut input, &mut errors, lex("cjson"), &mut trees) {
        Ok(v) => v,
        Err(_) => panic!("expected the item"),
    };
    assert_eq!(String::from_utf8(item.name.name.clone()).unwrap(), "Foo");
    assert_eq!(item.name.span, Span(1));
    assert_eq!(render(&item.impl_generics), "T : Clone ,");
    assert_eq!(render(&item.ty_generics), "T ,");
    assert!(item.where_clause.is_none());
    match &item.data {
        ParsedItemData::Struct(ctx) => {
            assert_eq!(ctx.fields.len(), 1);
            assert!(matches!(ctx.to_default, StructToDefault::Object));
        }
        ParsedItemData::Enum(..) => panic!("expected a struct"),
    }
    assert_eq!(trees.len(), 1);
    assert_eq!(tree_name(&trees[0]), "field");
    assert_eq!(trees[0].ident.span, Span(0));
    assert!(messages(errors).is_empty());
}

#[test]
fn try_parse_rejects_other_items() {
    let mut input = stream("Foo { a: u8 }");
    let mut errors = ErrorCollector::new();
    let mut trees = Vec::new();
    match to_json("union", None, None).try_parse(&mut input, &mut errors, Vec::new(), &mut trees) {
        Ok(_) => panic!("expected an error"),
        Err(e) => assert_eq!(custom(&e), ("expect `struct` or `enum`", Some(Span(100)))),
    }
    assert_eq!(input.s.len(), 2);
    assert!(trees.is_empty());
}

#[test]
fn try_parse_needs_a_name() {
    let mut input = stream("");
    let mut errors = ErrorCollector::new();
    let mut trees = Vec::new();
    match to_json("enum", None, None).try_parse(&mut input, &mut errors, Vec::new(), &mut trees) {
        Ok(_) => panic!("expected an error"),
        Err(e) => assert!(matches!(e.0, ParseErrorKind::UnexpectedEof { after: None })),
    }
    let mut input = stream("{ A }");
    match to_json("enum", None, None).try_parse(&mut input, &mut errors, Vec::new(), &mut trees) {
        Ok(_) => panic!("expected an error"),
        Err(e) => assert!(matches!(e.0, ParseErrorKind::UnexpectedToken { span: Span(1) })),
    }
}

#[test]
fn try_parse_reports_any_value_on_struct() {
    let mut input = stream("Unit;");
    let mut errors = ErrorCollector::new();
    let mut trees = Vec::new();
    let item = match to_json("struct", Some(Span(42)), None).try_parse(&mut input, &mut errors, Vec::new(), &mut trees) {
        Ok(v) => v,
        Err(_) => panic!("expected the item"),
    };
    assert!(matches!(&item.data, ParsedItemData::Struct(ctx) if matches!(ctx.to_default, StructToDefault::Unit)));
    assert_eq!(messages(errors), vec![("struct doesn't support any_value", Some(Span(42)))]);
}

#[test]
fn try_parse_reads_an_enum_and_keeps_any_value() {
    let mut input = stream("E { A, B(u8) }");
    let mut errors = ErrorCollector::new();
    let mut trees = Vec::new();
    let item = match to_json("enum", Some(Span(7)), None).try_parse(&mut input, &mut errors, Vec::new(), &mut trees) {
        Ok(v) => v,
        Err(_) => panic!("expected the item"),
    };
    match &item.data {
        ParsedItemData::Enum(ctx, any_value) => {
            assert_eq!(ctx.variants.len(), 2);
            assert_eq!(*any_value, Some(Span(7)));
        }
        ParsedItemData::Struct(_) => panic!("expected an enum"),
    }
    assert_eq!(tree_name(&trees[0]), "variant");
    assert!(messages(errors).is_empty());
}

#[test]
fn try_parse_hands_back_trailing_tokens_and_joins_where() {
    let mut input = stream("Foo<T> where T: Clone { a: T } extra");
    let mut errors = ErrorCollector::new();
    let mut trees = Vec::new();
    let append = ItemAttrWhere { where_span: Span(77), bound: lex("T: Copy") };
    let item = match to_json("struct", None, Some(append)).try_parse(&mut input, &mut errors, Vec::new(), &mut trees) {
        Ok(v) => v,
        Err(_) => panic!("expected the item"),
    };
    let w = item.where_clause.unwrap();
    assert_eq!(w.where_span, Span(8));
    assert_eq!(render(&w.predicates), "T : Clone , T : Copy");
    assert_eq!(messages(errors), vec![("expect eof", Some(Span(30)))]);
}

#[test]
fn try_parse_reports_generics_error_and_goes_on() {
    let mut input = stream("Foo<# { a: u8 }");
    let mut errors = ErrorCollector::new();
    let mut trees = Vec::new();
    let item = match to_json("struct", None, None).try_parse(&mut input, &mut errors, Vec::new(), &mut trees) {
        Ok(v) => v,
        Err(_) => panic!("expected the item"),
    };
    assert!(item.impl_generics.is_empty());
    assert!(item.ty_generics.is_empty());
    assert_eq!(messages(errors), vec![("unexpected token", Some(Span(5)))]);
}

fn item(where_clause: Option<JointWhere>, where_to: Option<ItemAttrWhere>, where_into: Option<ItemAttrWhere>) -> ToJsonItem {
    ToJsonItem {
        name: ident("Foo", 5),
        impl_generics: lex("T,"),
        ty_generics: lex("T,"),
        where_clause,
        where_to,
        where_into,
        derive_from: None,
        is_chainable_and_always_empty: None,
        json_kind: None,
        data: ToJsonItemData::Struct(lex("{}")),
    }
}

#[test]
fn into_tokens_keeps_where_clauses_apart_for_both() {
    let w = JointWhere { where_span: Span(3), predicates: lex("T: A") };
    let to = ItemAttrWhere { where_span: Span(4), bound: lex("T: B") };
    let into = ItemAttrWhere { where_span: Span(6), bound: lex("T: C") };
    let ts = item(Some(w), Some(to), Some(into)).into_tokens(lex("cjson"), DeriveWhich::Both);
    assert_eq!(
        render(&ts),
        "cjson : : impl_json ! ( impl_generics ! [ T , ] , where_clause ! [ T : A , ] , where_clause_to ! [ T : B ] , where_clause_into ! [ T : C ] , | self : Foo < T , > | {} ) ;"
    );
    match &ts[1] {
        TokenTree::Punct(p) => assert!(p.spacing == Spacing::Joint),
        _ => panic!("expected `:`"),
    }
}

#[test]
fn into_tokens_joins_the_where_of_the_derived_trait() {
    let w = JointWhere { where_span: Span(3), predicates: lex("T: A") };
    let to = ItemAttrWhere { where_span: Span(4), bound: lex("T: B") };
    let into = ItemAttrWhere { where_span: Span(6), bound: lex("T: C") };
    let ts = item(Some(w), Some(to), Some(into)).into_tokens(Vec::new(), DeriveWhich::IntoJson);
    assert_eq!(
        render(&ts),
        ": : impl_into_json ! ( impl_generics ! [ T , ] , where_clause ! [ T : A , T : C ] , | self : Foo < T , > | {} ) ;"
    );
    let to = ItemAttrWhere { where_span: Span(4), bound: lex("T: B") };
    let ts = item(None, Some(to), None).into_tokens(Vec::new(), DeriveWhich::ToJson);
    assert_eq!(
        render(&ts),
        ": : impl_to_json ! ( impl_generics ! [ T , ] , where_clause ! [ T : B ] , | self : Foo < T , > | {} ) ;"
    );
    // the `where_clause` name stands at the attribute's `where`
    match &ts[4] {
        TokenTree::Group(g) => match &g.stream[4] {
            TokenTree::Ident(i) => assert_eq!(i.span, Span(4)),
            _ => panic!("expected `where_clause`"),
        },
        _ => panic!("expected the call's parentheses"),
    }
}

#[test]
fn into_tokens_brackets_the_group_arguments() {
    let mut it = item(None, None, None);
    it.derive_from = Some(MetaPathSpanWith(Span(9), Group { delimiter: Delimiter::Parenthesis, stream: lex("Bar"), span_open: Span(10), span_close: Span(11) }));
    it.json_kind = Some(MetaPathSpanWith(Span(12), Group { delimiter: Delimiter::Bracket, stream: lex("Object"), span_open: Span(13), span_close: Span(14) }));
    let ts = it.into_tokens(Vec::new(), DeriveWhich::Both);
    assert_eq!(
        render(&ts),
        ": : impl_json ! ( impl_generics ! [ T , ] , derive_from ! [ Bar ] , JsonKind ! [ Object ] , | self : Foo < T , > | {} ) ;"
    );
}

#[test]
fn ident_tree_into_tokens_nests_children() {
    let leaf = IdentTree { ident: ident("rename", 4), mod_name: "", children: Vec::new() };
    let cfg = IdentTree { ident: ident("crate", 3), mod_name: "crate_", children: Vec::new() };
    let tree = IdentTree { ident: ident("cjson", 2), mod_name: "", children: vec![cfg, leaf] };
    let root = IdentTree { ident: ident("r#struct", 1), mod_name: "", children: vec![tree] };
    let ts = root.into_tokens();
    assert_eq!(render(&ts), "r#struct : : { cjson : : { crate_ : : {} , rename : : {} , } , }");
    match &ts[0] {
        TokenTree::Ident(i) => assert_eq!(i.span, Span(1)),
        _ => panic!("expected the root name"),
    }
}

#[test]
fn derive_read_uses_default_crate_path_and_names_the_root() {
    let read = match derive_to_json_read(lex("pub struct Foo { a: u8 }")) {
        Ok(v) => v,
        Err(_) => panic!("expected the input to read"),
    };
    assert_eq!(render(&read.crate_path), ": : cjson");
    assert_eq!(read.default_span, Span(5));
    assert_eq!(render(&read.use_item_attrs), "r#struct : : { field : : {} , }");
    assert!(read.item.is_some());
    assert!(messages(read.errors).is_empty());
}

#[test]
fn derive_read_takes_crate_and_where_from_attributes() {
    let read = match derive_to_json_read(lex("#[cjson(crate(my::cjson), where = (T: Copy))] enum E<T> { A(T) }")) {
        Ok(v) => v,
        Err(_) => panic!("expected the input to read"),
    };
    assert_eq!(render(&read.crate_path), "my : : cjson");
    let item = read.item.unwrap();
    assert_eq!(render(&item.where_clause.unwrap().predicates), "T : Copy");
    assert!(render(&read.use_item_attrs).starts_with("r#enum : : { cjson : : { crate_ : : {} , r#where : : {} , } ,"));
    assert!(messages(read.errors).is_empty());
}

#[test]
fn derive_read_reports_a_missing_item_with_attribute_errors() {
    match derive_to_json_read(lex("#(x)")) {
        Ok(_) => panic!("expected an error"),
        Err(e) => {
            assert!(matches!(e.0, ParseErrorKind::UnexpectedEof { .. }));
            assert_eq!(e.1.len(), 1);
            assert!(matches!(e.1[0], ParseErrorKind::Custom { msg: "expect `[`", span: Some(Span(2)) }));
        }
    }
}

#[test]
fn derive_read_reports_item_errors() {
    let read = match derive_to_json_read(lex("union U { a: u8 }")) {
        Ok(v) => v,
        Err(_) => panic!("expected the start to read"),
    };
    assert!(read.item.is_none());
    assert_eq!(render(&read.use_item_attrs), "common : : {}");
    assert_eq!(messages(read.errors), vec![("expect `struct` or `enum`", Some(Span(1)))]);
}

#[test]
fn variants_take_their_form_from_to_then_the_tag_mode() {
    let src = "E { A, B(u8), #[cjson(content = \"c\")] C(u8), #[cjson(tag = \"t\")] D { x: u8 }, #[cjson(untagged)] F, #[cjson(to(null))] G, H = 7, I = -1 }";
    let mut input = stream(src);
    let mut errors = ErrorCollector::new();
    let mut trees = Vec::new();
    let item = match to_json("enum", None, None).try_parse(&mut input, &mut errors, Vec::new(), &mut trees) {
        Ok(v) => v,
        Err(_) => panic!("expected the item"),
    };
    assert!(messages(errors).is_empty());
    let ctx = match &item.data {
        ParsedItemData::Enum(ctx, _) => ctx,
        ParsedItemData::Struct(_) => panic!("expected an enum"),
    };
    let mode = |i: usize| match ctx.to_plan(i) {
        VariantToPlan::ByTagMode(m) => Some(m.mode),
        _ => None,
    };
    assert!(mode(0) == Some(TagMode::TagOnly));
    assert!(mode(1) == Some(TagMode::ExternallyTagged));
    assert!(mode(2) == Some(TagMode::AdjacentlyTagged));
    assert!(mode(3) == Some(TagMode::InternallyTagged));
    assert!(mode(4) == Some(TagMode::Untagged));
    assert!(ctx.to_plan(5) == VariantToPlan::VariantTo);
    assert_eq!(ctx.access_inferred_tag_mode(0).span, Span(5));
    assert!(ctx.access_specified_tag_mode(0).is_none());
    assert_eq!(render(&ctx.name_as_json_value(0)), "\"A\"");
    assert_eq!(render(&ctx.to_discriminant_or_name(0)), "\"A\"");
    assert_eq!(ctx.to_discriminant_or_name(0).len(), 1);
    assert_eq!(render(&ctx.to_discriminant_or_name(6)), "7");
    assert_eq!(render(&ctx.to_discriminant_or_name(7)), "const { - 1 }");
    match ctx.prop_tag(3) {
        ContextPropTagMut::Tagged { ts, .. } => assert_eq!(render(&ts), "\"t\""),
        ContextPropTagMut::Untagged { .. } => panic!("expected the tag"),
    }
    match ctx.prop_content(2) {
        ContextPropTagMut::Tagged { ts, .. } => assert_eq!(render(&ts), "\"c\""),
        ContextPropTagMut::Untagged { .. } => panic!("expected the content"),
    }
    match ctx.prop_tag(0) {
        ContextPropTagMut::Untagged { default_span } => assert_eq!(default_span, Span(1)),
        ContextPropTagMut::Tagged { .. } => panic!("expected no tag"),
    }
    let mut cache = CacheForDummyTag(None);
    let (ts, res) = ctx.prop_tag(0).try_into_tokens(&mut cache);
    assert_eq!(render(&ts), "\"\"");
    assert!(res.is_err());
    assert!(!ctx.should_expand_bracket_question(0));
}

#[test]
fn variant_properties_read_the_variant_arguments() {
    let src = "E { A, #[cjson(tag = \"t\")] D { x: u8 }, H = 7 }";
    let mut input = stream(src);
    let mut errors = ErrorCollector::new();
    let mut trees = Vec::new();
    let item = match to_json("enum", None, None).try_parse(&mut input, &mut errors, Vec::new(), &mut trees) {
        Ok(v) => v,
        Err(_) => panic!("expected the item"),
    };
    assert!(messages(errors).is_empty());
    let ctx = match &item.data {
        ParsedItemData::Enum(ctx, _) => ctx,
        ParsedItemData::Struct(_) => panic!("expected an enum"),
    };
    let mut tag_cache = CacheForDummyTag(None);
    let mut content_cache = CacheForDummyTag(None);
    let mut out = TokensCollector(Vec::new());
    let mut errors = ErrorCollector::new();
    ctx.expand_variant_arg_prop(1, VariantProp::Tag(Span(90)), &mut tag_cache, &mut content_cache, &mut out, &mut errors);
    assert_eq!(render(&out.0), "\"t\"");
    ctx.expand_variant_arg_prop(0, VariantProp::Tag(Span(91)), &mut tag_cache, &mut content_cache, &mut out, &mut errors);
    assert!(tag_cache.0.is_some());
    assert!(content_cache.0.is_none());
    ctx.expand_variant_arg_prop(0, VariantProp::Name(Span(92)), &mut tag_cache, &mut content_cache, &mut out, &mut errors);
    match out.0.last() {
        Some(TokenTree::Literal(l)) => assert_eq!(l.span, Span(92)),
        _ => panic!("expected the name"),
    }
    ctx.expand_variant_arg_prop(0, VariantProp::Discriminant(Span(93)), &mut tag_cache, &mut content_cache, &mut out, &mut errors);
    ctx.expand_variant_arg_prop(2, VariantProp::DiscriminantOrName(Span(94)), &mut tag_cache, &mut content_cache, &mut out, &mut errors);
    ctx.expand_variant_arg_prop(1, VariantProp::DiscriminantOrName(Span(95)), &mut tag_cache, &mut content_cache, &mut out, &mut errors);
    assert_eq!(render(&out.0), "\"t\" \"\" \"A\" 0 7 \"D\"");
    assert_eq!(
        messages(errors),
        vec![
            ("@tag not defined on enum variant", Some(Span(91))),
            ("@discriminant not defined on this enum variant", Some(Span(93))),
        ]
    );
    let mut out = TokensCollector(Vec::new());
    let mut errors = ErrorCollector::new();
    let name = PropPath(Prop::Ident(ident("name", 96)), vec![Prop::Ident(ident("x", 97))]);
    let r = ctx.expand_prop_at_variant(0, name, &mut tag_cache, &mut content_cache, &mut out, &mut errors);
    assert!(r.is_none());
    assert_eq!(render(&out.0), "\"A\"");
    let to = PropPath(Prop::Ident(ident("to", 98)), vec![Prop::Ident(ident("untagged", 99))]);
    let r = ctx.expand_prop_at_variant(0, to, &mut tag_cache, &mut content_cache, &mut out, &mut errors);
    assert!(r == Some((Span(98), VariantTo::Untagged(Span(99)))));
    let other = PropPath(Prop::Ident(ident("value", 100)), Vec::new());
    let r = ctx.expand_prop_at_variant(0, other, &mut tag_cache, &mut content_cache, &mut out, &mut errors);
    assert!(r.is_none());
    assert_eq!(render(&out.0), "\"A\"");
    assert_eq!(
        messages(errors),
        vec![
            ("property not defined on enum variant @name", Some(Span(97))),
            ("property not defined on enum variant", Some(Span(100))),
        ]
    );
    let mut out = TokensCollector(Vec::new());
    let mut errors = ErrorCollector::new();
    ctx.expand_item_rest_prop(Span(70), Vec::new(), &mut out, &mut errors);
    ctx.expand_item_rest_prop(Span(71), vec![Prop::Ident(ident("name", 72))], &mut out, &mut errors);
    ctx.expand_item_rest_prop(Span(73), vec![Prop::Ident(ident("x", 74))], &mut out, &mut errors);
    assert_eq!(render(&out.0), "\"E\"");
    match out.0.last() {
        Some(TokenTree::Literal(l)) => assert_eq!(l.span, Span(72)),
        _ => panic!("expected the name of the enum"),
    }
    assert_eq!(
        messages(errors),
        vec![
            ("@item cannot expand to tokens", Some(Span(70))),
            ("property not defined on @item", Some(Span(74))),
        ]
    );
    let (tt, res) = ctx.to_externally_tagged_default(0, (lex("[1]"), Ok::<(), ()>(())));
    assert_eq!(render_one(&tt), "{ \"A\" = [ 1 ] }");
    assert!(res.is_ok());
    match &tt {
        TokenTree::Group(g) => assert_eq!((g.span_open, g.span_close), (Span(5), Span(5))),
        _ => panic!("expected braces"),
    }
    let (_, res) = ctx.to_externally_tagged_default(2, (Vec::new(), Err::<(), &str>("failed")));
    assert_eq!(res, Err("failed"));
}

#[test]
fn struct_name_and_tag_properties() {
    let mut input = stream("S { x: u8 }");
    let mut errors = ErrorCollector::new();
    let mut trees = Vec::new();
    let mut item = match to_json("struct", None, None).try_parse(&mut input, &mut errors, Vec::new(), &mut trees) {
        Ok(v) => v,
        Err(_) => panic!("expected the item"),
    };
    assert!(messages(errors).is_empty());
    let ctx = match &mut item.data {
        ParsedItemData::Struct(ctx) => ctx,
        ParsedItemData::Enum(..) => panic!("expected a struct"),
    };
    let mut out = TokensCollector(Vec::new());
    let mut errors = ErrorCollector::new();
    let name = PropPath(Prop::Ident(ident("name", 50)), Vec::new());
    assert!(ctx.expand_struct_prop(name, &mut out, &mut errors).is_none());
    match out.0.last() {
        Some(TokenTree::Literal(l)) => assert_eq!(l.span, Span(50)),
        _ => panic!("expected the name"),
    }
    let tag = PropPath(Prop::Ident(ident("tag", 51)), Vec::new());
    assert!(ctx.expand_struct_prop(tag, &mut out, &mut errors).is_none());
    let to = PropPath(Prop::Ident(ident("to", 52)), Vec::new());
    assert!(matches!(ctx.expand_struct_prop(to, &mut out, &mut errors), Some(StructProp::To(Span(52)))));
    assert_eq!(render(&out.0), "\"S\" \"\"");
    assert_eq!(messages(errors), vec![("@tag not defined on struct", Some(Span(51)))]);
    ctx.tag = ContextOfStructTag::Tagged { span_tag: Span(60), ts: lex("\"k\""), accessed: false };
    let mut out = TokensCollector(Vec::new());
    let mut errors = ErrorCollector::new();
    ctx.expand_struct_arg_prop(StructProp::Tag(Span(61)), &mut out, &mut errors);
    assert_eq!(render(&out.0), "\"k\"");
    assert!(messages(errors).is_empty());
    assert!(matches!(ctx.tag, ContextOfStructTag::Tagged { accessed: true, .. }));
}

fn struct_json(src: &str) -> (Option<String>, Vec<(&'static str, Option<Span>)>) {
    let read = match derive_to_json_read(lex(src)) {
        Ok(v) => v,
        Err(_) => panic!("expected the input to read"),
    };
    let json = match read.item {
        Some(item) => item.json.map(|ts| render(&ts)),
        None => panic!("expected the item"),
    };
    (json, messages(read.errors))
}

#[test]
fn struct_with_named_fields_turns_into_an_object() {
    let (json, errors) = struct_json("struct P { x: u8, y: Vec<u8> }");
    assert_eq!(
        json.unwrap(),
        "{ . . { \"x\" = ( & self . x ) as & ' cjson_lt_to_json u8 } ; . . { \"y\" = ( & self . y ) as & ' cjson_lt_to_json Vec < u8 > } ; }"
    );
    assert!(errors.is_empty());
}

#[test]
fn unit_struct_turns_into_null() {
    let (json, errors) = struct_json("struct U;");
    assert_eq!(json.unwrap(), "null");
    assert!(errors.is_empty());
}

#[test]
fn tuple_struct_turns_into_an_array() {
    let (json, errors) = struct_json("struct T(u8, bool);");
    assert_eq!(
        json.unwrap(),
        "[ . . [ ( & self . 0 ) as & ' cjson_lt_to_json u8 ] , . . [ ( & self . 1 ) as & ' cjson_lt_to_json bool ] , ]"
    );
    assert!(errors.is_empty());
}

#[test]
fn newtype_struct_turns_into_its_field() {
    let (json, errors) = struct_json("struct N(u8);");
    assert_eq!(json.unwrap(), "( & self . 0 ) as & ' cjson_lt_to_json u8");
    assert!(errors.is_empty());
}

#[test]
fn skipped_fields_are_left_out_of_the_object() {
    let (json, errors) = struct_json("struct S { #[cjson(skip)] a: u8, b: bool }");
    assert_eq!(json.unwrap(), "{ . . { \"b\" = ( & self . b ) as & ' cjson_lt_to_json bool } ; }");
    assert!(errors.is_empty());
}

#[test]
fn flattened_field_spreads_its_entries() {
    let (json, errors) = struct_json("struct F { #[cjson(flatten)] a: Inner }");
    assert_eq!(json.unwrap(), "{ . . ( & self . a ) as & ' cjson_lt_to_json Inner ; }");
    assert!(errors.is_empty());
}

#[test]
fn transparent_struct_without_a_kept_field_is_reported() {
    let read = match derive_to_json_read(lex("#[cjson(transparent)] struct Z { #[cjson(skip)] a: u8 }")) {
        Ok(v) => v,
        Err(_) => panic!("expected the input to read"),
    };
    let item = read.item.unwrap();
    assert_eq!(render(&item.json.unwrap()), "( & self . a ) as & ' cjson_lt_to_json u8");
    assert_eq!(
        messages(read.errors),
        vec![
            ("`transparent` only works with struct with exactly one non-skipped field", Some(Span(9))),
            ("`@field` requires exactly one field without `#[cjson(skip)]`", Some(Span(30))),
        ]
    );
}

#[test]
fn struct_with_a_template_is_not_built_from_its_fields() {
    let (json, _) = struct_json("#[cjson(to(null))] struct C { a: u8 }");
    assert!(json.is_none());
}

#[test]
fn generated_impl_wraps_the_json_of_a_struct() {
    let read = match derive_to_json_read(lex("struct U;")) {
        Ok(v) => v,
        Err(_) => panic!("expected the input to read"),
    };
    let ts = cjson::derive::generated_impl(read).unwrap();
    let text = render(&ts);
    assert!(text.contains("impl_to_json"));
    assert!(text.contains("null"));
}

#[test]
fn generated_impl_is_absent_for_an_enum_with_a_template() {
    let read = match derive_to_json_read(lex("#[cjson(to(null))] enum E { A }")) {
        Ok(v) => v,
        Err(_) => panic!("expected the input to read"),
    };
    assert!(cjson::derive::generated_impl(read).is_none());
}

#[test]
fn renamed_field_takes_its_key_at_the_place_of_its_name() {
    let read = match derive_to_json_read(lex("struct R { #[cjson(rename = \"X\")] x: u8 }")) {
        Ok(v) => v,
        Err(_) => panic!("expected the input to read"),
    };
    let item = read.item.unwrap();
    let json = item.json.unwrap();
    assert_eq!(render(&json), "{ . . { \"X\" = ( & self . x ) as & ' cjson_lt_to_json u8 } ; }");
    let span_of_x = match &json[0] {
        TokenTree::Group(g) => match &g.stream[2] {
            TokenTree::Group(entry) => match &entry.stream[0] {
                TokenTree::Literal(l) => l.span,
                _ => panic!("expected the key"),
            },
            _ => panic!("expected the entry"),
        },
        _ => panic!("expected the object"),
    };
    let name_span = match &json[0] {
        TokenTree::Group(g) => match &g.stream[2] {
            TokenTree::Group(entry) => entry.span_open,
            _ => panic!("expected the entry"),
        },
        _ => panic!("expected the object"),
    };
    assert_eq!(span_of_x, name_span);
    assert!(messages(read.errors).is_empty());
}

#[test]
fn tagged_struct_writes_its_tag_and_name_before_its_entries() {
    let (json, errors) = struct_json("#[cjson(tag = \"type\")] struct T { a: u8 }");
    assert_eq!(
        json.unwrap(),
        "{ \"type\" = \"T\" ; . . { . . { \"a\" = ( & self . a ) as & ' cjson_lt_to_json u8 } ; } }"
    );
    assert!(errors.is_empty());
}

#[test]
fn tagged_unit_struct_has_no_entries_after_its_tag() {
    let (json, errors) = struct_json("#[cjson(tag = \"type\")] struct U;");
    assert_eq!(json.unwrap(), "{ \"type\" = \"U\" ; . . {} }");
    assert!(errors.is_empty());
}

#[test]
fn tagged_tuple_struct_reports_its_unnamed_fields() {
    let (json, errors) = struct_json("#[cjson(tag = \"type\")] struct P(u8, u8);");
    assert!(json.is_some());
    assert_eq!(
        errors,
        vec![
            ("unnamed field doesn't have `@name` unless renamed", Some(Span(33))),
            ("unnamed field doesn't have `@name` unless renamed", Some(Span(37))),
        ]
    );
}

#[test]
fn field_attributes_name_their_trees_in_order() {
    let read = match derive_to_json_read(lex("struct S { #[cjson(skip)] a: u8, #[doc] #[cjson(rename = \"B\")] b: u8 }")) {
        Ok(v) => v,
        Err(_) => panic!("expected the input to read"),
    };
    let text = render(&read.use_item_attrs);
    let skip = text.find("skip").expect("the tree of `skip`");
    let rename = text.find("rename").expect("the tree of `rename`");
    assert!(text.starts_with("r#struct : : { field : : {"));
    assert!(skip < rename);
    assert_eq!(
        text,
        "r#struct : : { field : : { cjson : : { skip : : {} , } , cjson : : { rename : : {} , } , } , }"
    );
    assert_eq!(messages(read.errors), vec![("expect `cjson`", Some(Span(36)))]);
}

#[test]
fn plain_enum_builds_no_tokens_and_reports_nothing() {
    let (json, errors) = struct_json("enum E { A, B(u8) }");
    assert_eq!(json.unwrap(), "");
    assert!(errors.is_empty());
}

#[test]
fn internally_tagged_variant_without_tag_reports_tag_and_unnamed_fields() {
    let (json, errors) = struct_json("#[cjson(internally_tagged)] enum E { A(u8, u8) }");
    assert_eq!(json.unwrap(), "");
    assert_eq!(
        errors,
        vec![
            ("@tag not defined on enum variant", Some(Span(38))),
            ("unnamed field doesn't have `@name` unless renamed", Some(Span(40))),
            ("unnamed field doesn't have `@name` unless renamed", Some(Span(44))),
        ]
    );
}

#[test]
fn enum_with_a_template_is_not_built() {
    let (json, _) = struct_json("#[cjson(to(null))] enum E { A }");
    assert!(json.is_none());
}

#[test]
fn generated_impl_of_a_plain_enum() {
    let read = match derive_to_json_read(lex("enum E { A }")) {
        Ok(v) => v,
        Err(_) => panic!("expected the input to read"),
    };
    let ts = cjson::derive::generated_impl(read).unwrap();
    assert!(render(&ts).contains("impl_to_json"));
}

fn struct_ctx(src: &str) -> cjson::json_item::MakeContextOfStruct {
    let read = match derive_to_json_read(lex(src)) {
        Ok(v) => v,
        Err(_) => panic!("expected the input to read"),
    };
    match read.item.unwrap().data {
        ParsedItemData::Struct(ctx) => ctx,
        ParsedItemData::Enum(..) => panic!("expected a struct"),
    }
}

#[test]
fn to_untagged_default_writes_the_struct_form() {
    let ctx = struct_ctx("struct N(u8);");
    let mut out = TokensCollector(Vec::new());
    let mut errors = ErrorCollector::new();
    assert!(ctx.expand_struct_to_prop(&StructProp::ToUntaggedDefault(Span(99)), &mut out, &mut errors));
    assert_eq!(render(&out.0), "( & self . 0 ) as & ' cjson_lt_to_json u8");
    assert!(messages(errors).is_empty());
}

#[test]
fn to_tagged_default_of_an_untagged_struct_reports_the_tag() {
    let ctx = struct_ctx("struct N(u8);");
    let mut out = TokensCollector(Vec::new());
    let mut errors = ErrorCollector::new();
    assert!(ctx.expand_struct_to_prop(&StructProp::ToTaggedDefault(Span(99)), &mut out, &mut errors));
    assert_eq!(render(&out.0), "{ \"\" = \"N\" ; . . ( & self . 0 ) as & ' cjson_lt_to_json u8 }");
    assert_eq!(messages(errors), vec![("@tag not defined on struct", Some(Span(99)))]);
}

#[test]
fn to_of_a_struct_with_a_template_is_not_written() {
    let ctx = struct_ctx("#[cjson(to(null))] struct C { a: u8 }");
    let mut out = TokensCollector(Vec::new());
    let mut errors = ErrorCollector::new();
    assert!(!ctx.expand_struct_to_prop(&StructProp::To(Span(99)), &mut out, &mut errors));
    assert!(out.0.is_empty());
    assert!(messages(errors).is_empty());
}

#[test]
fn to_of_a_transparent_struct_reports_at_the_property() {
    let ctx = struct_ctx("#[cjson(transparent)] struct Z { a: u8, b: u8 }");
    let mut out = TokensCollector(Vec::new());
    let mut errors = ErrorCollector::new();
    assert!(ctx.expand_struct_to_prop(&StructProp::To(Span(99)), &mut out, &mut errors));
    assert_eq!(render(&out.0), "( & self . a ) as & ' cjson_lt_to_json u8");
    assert_eq!(
        messages(errors),
        vec![("`@field` is ambiguous when there are more than one fields without `#[cjson(skip)]`", Some(Span(99)))]
    );
}

#[test]
fn derive_read_reports_a_misshapen_enum_body() {
    let read = match derive_to_json_read(lex("enum E { A B }")) {
        Ok(v) => v,
        Err(_) => panic!("expected the start to read"),
    };
    assert!(read.item.is_some());
    assert_eq!(messages(read.errors), vec![("expect eof or `,`", Some(Span(12)))]);
}

#[test]
fn derive_read_reports_an_unknown_field_argument() {
    let read = match derive_to_json_read(lex("struct S { #[cjson(bogus)] a: u8 }")) {
        Ok(v) => v,
        Err(_) => panic!("expected the start to read"),
    };
    assert!(read.item.is_some());
    assert_eq!(messages(read.errors), vec![("unknown attribute", Some(Span(20)))]);
}

#[test]
fn derive_read_reports_a_missing_enum_body() {
    let read = match derive_to_json_read(lex("enum E ;")) {
        Ok(v) => v,
        Err(_) => panic!("expected the start to read"),
    };
    assert!(read.item.is_none());
    assert_eq!(messages(read.errors), vec![("expect `{...}`", Some(Span(8)))]);
}
