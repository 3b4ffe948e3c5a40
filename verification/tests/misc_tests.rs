use cjson::array_string::{ArrayString, CapacityError};
use cjson::expand_props::{parse_prop_path, ExpandedGroup, Prop, TokensCollector};
use cjson::syn_generic::ident_eq::{max, IdentToBuf};
use cjson::syn_generic::parse_meta::{MetaToParse, ParseMeta};
use cjson::syn_generic::parse_meta_utils::{EqValue, FlagPresent, MetaPathSpanWith};
use cjson::syn_generic::tokens::{Delimiter, Group, Ident, Literal, Punct, Spacing, Span, TokenTree};
use cjson::syn_generic::{ConsumedTokens, ErrorCollector, GroupParen, MetaAfterPath, ParseErrorKind, PunctEq};
use cjson::utils::ident_to_literal_string;

fn ident(name: &str, span: u64) -> Ident {
    Ident { name: name.as_bytes().to_vec(), span: Span(span) }
}

fn tt_ident(name: &str, span: u64) -> TokenTree {
    TokenTree::Ident(ident(name, span))
}

fn tt_punct(c: char, span: u64) -> TokenTree {
    TokenTree::Punct(Punct { ch: c, spacing: Spacing::Alone, span: Span(span) })
}

fn tt_lit(text: &str, span: u64) -> TokenTree {
    TokenTree::Literal(Literal { text: text.as_bytes().to_vec(), span: Span(span) })
}

fn messages(errors: ErrorCollector) -> Vec<(&'static str, Option<Span>)> {
    match errors.ok() {
        Ok(()) => Vec::new(),
        Err(e) => {
            let mut all = vec![e.0];
            all.extend(e.1);
            all.into_iter()
                .map(|k| match k {
                    ParseErrorKind::Custom { msg, span } => (msg, span),
                    _ => panic!("expected messages only"),
                })
                .collect()
        }
    }
}

#[test]
fn array_string_write_and_take() {
    let mut s: ArrayString<u8, 8> = ArrayString::new();
    assert!(s.is_empty());
    assert_eq!(s.write_str("abc"), Ok(()));
    assert_eq!(s.write_str("é"), Ok(()));
    assert_eq!(s.len(), 5);
    assert_eq!(s.as_str(), "abcé");
    assert_eq!(s.write_str("1234"), Err(CapacityError));
    assert_eq!(s.as_str(), "abcé");
    assert_eq!(s.write_str("123"), Ok(()));
    assert_eq!(s.as_bytes(), "abcé123".as_bytes());
    assert_eq!(s.take_non_empty_str(), Some("abcé123".as_bytes().to_vec()));
    assert!(s.is_empty());
    assert_eq!(s.take_non_empty_str(), None);
}

#[test]
fn array_string_from_str_and_clear() {
    let mut s: ArrayString<u8, 4> = ArrayString::from_str("ab");
    assert_eq!(s.as_str(), "ab");
    s.clear();
    assert_eq!(s.len(), 0);
    assert_eq!(s.as_str(), "");
}

#[test]
fn ident_literal_string() {
    let l = ident_to_literal_string(&ident("field_a", 4));
    assert_eq!(l.text, b"\"field_a\"".to_vec());
    assert_eq!(l.span, Span(4));
    let raw = ident_to_literal_string(&ident("r#type", 9));
    assert_eq!(raw.text, b"\"r#type\"".to_vec());
}

#[test]
fn ident_buf_and_max() {
    assert_eq!(max([3usize, 9, 2]), 9);
    assert_eq!(max([0usize]), 0);
    assert_eq!(max([5usize, 5]), 5);
    let b: IdentToBuf<8> = IdentToBuf::from_ident(&ident("crate", 1));
    assert_eq!(b.as_slice(), b"crate");
    assert!(ident("where", 1).matches(b"where"));
    assert!(!ident("where", 1).matches(b"wher"));
}

#[test]
fn prop_path_reads_names_and_indexes() {
    let mut errors = ErrorCollector::new();
    let toks = vec![tt_ident("a", 1), tt_punct('.', 2), tt_ident("b", 3), tt_punct('.', 4), tt_lit("0", 5)];
    let p = parse_prop_path(toks, Span(9), &mut errors).unwrap();
    assert!(matches!(p.0, Prop::Ident(_)));
    assert_eq!(p.0.span(), Span(1));
    assert_eq!(p.1.len(), 2);
    assert!(matches!(p.1[1], Prop::Literal(_)));
    assert_eq!(p.1[1].span(), Span(5));
    assert!(messages(errors).is_empty());
}

#[test]
fn prop_path_errors() {
    let mut errors = ErrorCollector::new();
    assert!(parse_prop_path(Vec::new(), Span(9), &mut errors).is_none());
    assert_eq!(messages(errors), vec![("expect ident or literal", Some(Span(9)))]);

    let mut errors = ErrorCollector::new();
    assert!(parse_prop_path(vec![tt_punct('.', 2)], Span(9), &mut errors).is_none());
    assert_eq!(messages(errors), vec![("expect ident or literal", Some(Span(2)))]);

    let mut errors = ErrorCollector::new();
    let p = parse_prop_path(vec![tt_ident("a", 1), tt_ident("b", 3)], Span(9), &mut errors).unwrap();
    assert!(p.1.is_empty());
    assert_eq!(messages(errors), vec![("expect `.`", Some(Span(3)))]);

    let mut errors = ErrorCollector::new();
    let p = parse_prop_path(vec![tt_ident("a", 1), tt_punct('.', 2)], Span(9), &mut errors).unwrap();
    assert!(p.1.is_empty());
    assert_eq!(messages(errors), vec![("expect ident or literal", Some(Span(9)))]);

    let mut errors = ErrorCollector::new();
    let toks = vec![tt_ident("a", 1), tt_punct('.', 2), tt_ident("b", 3), tt_punct('.', 4), tt_punct(',', 5)];
    let p = parse_prop_path(toks, Span(9), &mut errors).unwrap();
    assert_eq!(p.1.len(), 1);
    assert_eq!(messages(errors), vec![("expect ident or literal", Some(Span(5)))]);
}

#[test]
fn expanded_group_keeps_brackets_and_places() {
    let g = Group { delimiter: Delimiter::Bracket, stream: vec![tt_ident("x", 2)], span_open: Span(1), span_close: Span(3) };
    let e = ExpandedGroup::from_original_and_expanded(&g, vec![tt_ident("y", 0), tt_ident("z", 0)]);
    let back = e.into_group();
    assert_eq!(back.delimiter, Delimiter::Bracket);
    assert_eq!(back.span_open, Span(1));
    assert_eq!(back.span_close, Span(3));
    assert_eq!(back.stream.len(), 2);
}

#[test]
fn tokens_collector_appends() {
    let mut c = TokensCollector(Vec::new());
    c.push(tt_ident("a", 1));
    c.extend(vec![tt_punct(',', 2), tt_ident("b", 3)]);
    assert_eq!(c.0.len(), 3);
}

#[test]
fn flag_present_reports_trailing_tokens() {
    let path = ident("transparent", 4);
    let mut errors = ErrorCollector::new();
    let f = FlagPresent::parse_meta(MetaToParse::from_ident(&path, MetaAfterPath::Empty), &mut errors, &mut Vec::new()).ok().unwrap();
    assert_eq!(f.0, Span(4));
    assert!(messages(errors).is_empty());

    let mut errors = ErrorCollector::new();
    let g = Group { delimiter: Delimiter::Parenthesis, stream: Vec::new(), span_open: Span(7), span_close: Span(8) };
    let f = FlagPresent::parse_meta(MetaToParse::from_ident(&path, MetaAfterPath::Group(g)), &mut errors, &mut Vec::new()).ok().unwrap();
    assert_eq!(f.0, Span(4));
    assert_eq!(messages(errors), vec![("expect eof", Some(Span(7)))]);
}

#[test]
fn eq_value_needs_eq() {
    let path = ident("tag", 2);
    let mut errors = ErrorCollector::new();
    let eq = PunctEq(Punct { ch: '=', spacing: Spacing::Alone, span: Span(5) });
    let after = MetaAfterPath::Eq {
        eq,
        before_comma_or_eof: ConsumedTokens { tokens: vec![tt_lit("\"t\"", 7)], prev_span: Some(Span(5)) },
    };
    let v = EqValue::<Vec<TokenTree>>::parse_meta(MetaToParse::from_ident(&path, after), &mut errors, &mut Vec::new()).ok().unwrap();
    assert_eq!(v.eq.span(), Span(5));
    assert_eq!(v.value.len(), 1);

    let e = EqValue::<Vec<TokenTree>>::parse_meta(MetaToParse::from_ident(&path, MetaAfterPath::Empty), &mut errors, &mut Vec::new())
        .err()
        .unwrap();
    match e.0 {
        ParseErrorKind::Custom { msg, span } => {
            assert_eq!(msg, "expect ``= ...`");
            assert_eq!(span, Some(Span(2)));
        }
        _ => panic!(),
    }
}

#[test]
fn group_paren_meta() {
    let path = ident("to", 1);
    let mut errors = ErrorCollector::new();
    let g = Group { delimiter: Delimiter::Parenthesis, stream: Vec::new(), span_open: Span(3), span_close: Span(4) };
    let p = GroupParen::parse_meta(MetaToParse::from_ident(&path, MetaAfterPath::Group(g)), &mut errors, &mut Vec::new()).ok().unwrap();
    assert_eq!(p.0.span_open, Span(3));
    let g = Group { delimiter: Delimiter::Bracket, stream: Vec::new(), span_open: Span(3), span_close: Span(4) };
    let e = GroupParen::parse_meta(MetaToParse::from_ident(&path, MetaAfterPath::Group(g)), &mut errors, &mut Vec::new()).err().unwrap();
    match e.0 {
        ParseErrorKind::Custom { msg, span } => {
            assert_eq!(msg, "expect `(...)`");
            assert_eq!(span, Some(Span(3)));
        }
        _ => panic!(),
    }
    let w = MetaPathSpanWith::<FlagPresent>::parse_meta(MetaToParse::from_ident(&path, MetaAfterPath::Empty), &mut errors, &mut Vec::new())
        .ok()
        .unwrap();
    assert_eq!(w.0, Span(1));
    assert_eq!((w.1).0, Span(1));
}


use cjson::item_attrs::{AttrMeta, ItemAttrsParser};
use cjson::json_item::Rename;
use cjson::syn_generic::{parse_meta_simple, ParsingTokenStream, MetaSimple};

fn meta(tokens: Vec<TokenTree>) -> MetaSimple<ConsumedTokens> {
    let mut s = ParsingTokenStream::new(tokens);
    parse_meta_simple(&mut s).ok().unwrap()
}

fn paren(stream: Vec<TokenTree>, open: u64) -> TokenTree {
    TokenTree::Group(Group { delimiter: Delimiter::Parenthesis, stream, span_open: Span(open), span_close: Span(open + 10) })
}

#[test]
fn crate_config_is_read_once() {
    let mut p = ItemAttrsParser::new();
    let mut errors = ErrorCollector::new();
    let m = meta(vec![tt_ident("crate", 1), paren(vec![tt_punct(':', 3), tt_ident("x", 4)], 2)]);
    match p.extend_one_attr_meta(m, &mut errors) {
        AttrMeta::Config(t) => {
            assert_eq!(t.ident.name, b"crate".to_vec());
            assert_eq!(t.mod_name, "crate_");
            assert!(t.children.is_empty());
        }
        AttrMeta::Item(_) => panic!("expected a configuration"),
    }
    assert_eq!(p.crate_path.as_ref().unwrap().len(), 2);
    let m = meta(vec![tt_ident("crate_", 20), paren(Vec::new(), 21)]);
    match p.extend_one_attr_meta(m, &mut errors) {
        AttrMeta::Config(t) => assert_eq!(t.mod_name, ""),
        AttrMeta::Item(_) => panic!(),
    }
    assert_eq!(p.crate_path.as_ref().unwrap().len(), 2);
    assert_eq!(messages(errors), vec![("duplicated attribute `crate`", Some(Span(20)))]);
}

#[test]
fn crate_config_needs_a_group() {
    let mut p = ItemAttrsParser::new();
    let mut errors = ErrorCollector::new();
    let _ = p.extend_one_attr_meta(meta(vec![tt_ident("crate", 1)]), &mut errors);
    assert!(p.crate_path.is_none());
    assert_eq!(messages(errors), vec![("expect `crate(::path::to::crate_cjson)`", Some(Span(1)))]);
}

#[test]
fn where_config_reads_the_bounds() {
    let mut p = ItemAttrsParser::new();
    let mut errors = ErrorCollector::new();
    let m = meta(vec![tt_ident("where", 1), tt_punct('=', 2), paren(vec![tt_ident("T", 4), tt_punct(':', 5), tt_ident("Copy", 6)], 3)]);
    match p.extend_one_attr_meta(m, &mut errors) {
        AttrMeta::Config(t) => assert_eq!(t.mod_name, "r#where"),
        AttrMeta::Item(_) => panic!(),
    }
    let w = p.where_.as_ref().unwrap();
    assert_eq!(w.where_span, Span(1));
    assert_eq!(w.bound.len(), 3);
    assert!(messages(errors).is_empty());
}

#[test]
fn where_config_errors() {
    let mut p = ItemAttrsParser::new();
    let mut errors = ErrorCollector::new();
    let m = meta(vec![tt_ident("where_", 1), tt_punct('=', 2), tt_ident("T", 3)]);
    let _ = p.extend_one_attr_meta(m, &mut errors);
    assert!(p.where_.is_none());
    assert_eq!(messages(errors), vec![("expect `where = (Bounds:)`", Some(Span(3)))]);

    let mut errors = ErrorCollector::new();
    let m = meta(vec![tt_ident("where", 1), tt_punct('=', 2), paren(Vec::new(), 3), tt_ident("x", 20)]);
    let _ = p.extend_one_attr_meta(m, &mut errors);
    assert!(p.where_.is_some());
    assert_eq!(messages(errors), vec![("expect eof", Some(Span(13)))]);
}

#[test]
fn other_arguments_are_handed_back() {
    let mut p = ItemAttrsParser::new();
    let mut errors = ErrorCollector::new();
    match p.extend_one_attr_meta(meta(vec![tt_ident("rename", 1)]), &mut errors) {
        AttrMeta::Item(m) => assert_eq!(m.path.name, b"rename".to_vec()),
        AttrMeta::Config(_) => panic!(),
    }
    match p.extend_one_attr_meta(meta(vec![tt_ident("crates", 1)]), &mut errors) {
        AttrMeta::Item(_) => {}
        AttrMeta::Config(_) => panic!(),
    }
    assert!(messages(errors).is_empty());
}

use cjson::compile_time::{ConstAsJsonValueStr, HasConstState, Init, JsonValueArrayStr};
use cjson::state::State;

#[test]
fn init_is_the_initial_state() {
    assert_eq!(Init::state(), State::init());
}

#[test]
fn json_value_array_str_text() {
    let a = JsonValueArrayStr::new_without_validation(*b"{\"a\":1}");
    assert_eq!(a.as_bytes(), b"{\"a\":1}");
    let c = ConstAsJsonValueStr(a);
    assert_eq!(c.const_as_json_value_str().inner(), "{\"a\":1}");
}

use cjson::item_attrs::{extend_attr_meta, make_ident, try_push_top_level_attr_meta, IdentTree};

fn paren_of(stream: Vec<TokenTree>, open: u64, close: u64) -> TokenTree {
    TokenTree::Group(Group { delimiter: Delimiter::Parenthesis, stream, span_open: Span(open), span_close: Span(close) })
}

#[test]
fn top_level_attribute() {
    let mut p = ItemAttrsParser::new();
    let mut errors = ErrorCollector::new();
    let toks = vec![tt_ident("cjson", 1), paren_of(vec![tt_ident("transparent", 3)], 2, 4)];
    let t = try_push_top_level_attr_meta(toks, &mut p, &mut errors).ok().unwrap();
    assert_eq!(t.ident.name, b"cjson".to_vec());
    assert_eq!(t.children.len(), 1);
    assert_eq!(t.children[0].ident.name, b"transparent".to_vec());
    assert_eq!(p.item_attrs.transparent.as_ref().unwrap().0, Span(3));
    assert!(messages(errors).is_empty());

    let mut errors = ErrorCollector::new();
    let toks = vec![tt_ident("cjson", 1), tt_punct('=', 2), tt_ident("x", 3)];
    let t = try_push_top_level_attr_meta(toks, &mut p, &mut errors).ok().unwrap();
    assert!(t.children.is_empty());
    assert_eq!(messages(errors), vec![("expect `()`", Some(Span(2)))]);

    let mut errors = ErrorCollector::new();
    let toks = vec![tt_ident("cjson", 1), paren_of(Vec::new(), 2, 3), tt_ident("y", 4)];
    let _ = try_push_top_level_attr_meta(toks, &mut p, &mut errors).ok().unwrap();
    assert_eq!(messages(errors), vec![("expect eof", Some(Span(3)))]);

    let mut errors = ErrorCollector::new();
    let e = try_push_top_level_attr_meta(vec![tt_ident("serde", 5)], &mut p, &mut errors).err().unwrap();
    match e.0 {
        ParseErrorKind::Custom { msg, span } => {
            assert_eq!(msg, "expect `cjson`");
            assert_eq!(span, Some(Span(5)));
        }
        _ => panic!(),
    }
    let e = try_push_top_level_attr_meta(Vec::new(), &mut p, &mut errors).err().unwrap();
    assert!(matches!(e.0, ParseErrorKind::UnexpectedEof { after: None }));
}

#[test]
fn top_level_attribute_reports_its_error() {
    let mut p = ItemAttrsParser::new();
    let mut errors = ErrorCollector::new();
    assert!(p.push_top_level_attr_meta(vec![tt_ident("serde", 5)], &mut errors).is_none());
    assert_eq!(messages(errors), vec![("expect `cjson`", Some(Span(5)))]);
    let mut errors = ErrorCollector::new();
    let toks = vec![tt_ident("cjson", 1), paren_of(vec![tt_ident("crate", 3), paren_of(vec![tt_ident("c", 5)], 4, 6)], 2, 7)];
    let t = p.push_top_level_attr_meta(toks, &mut errors).unwrap();
    assert_eq!(t.children.len(), 1);
    assert_eq!(t.children[0].mod_name, "crate_");
    assert_eq!(p.crate_path.as_ref().unwrap().len(), 1);
}

#[test]
fn attribute_arguments_in_order() {
    let mut p = ItemAttrsParser::new();
    let mut errors = ErrorCollector::new();
    let toks = vec![
        tt_ident("rename", 1),
        tt_punct('=', 2),
        tt_lit("\"x\"", 3),
        tt_punct(',', 4),
        tt_ident("crate", 5),
        paren_of(vec![tt_ident("c", 7)], 6, 8),
        tt_punct(',', 9),
        tt_ident("untagged", 10),
    ];
    let out = extend_attr_meta(toks, &mut p, &mut errors);
    assert_eq!(out.len(), 3);
    assert_eq!(out[0].ident.name, b"rename".to_vec());
    assert_eq!(out[0].mod_name, "");
    assert_eq!(out[1].ident.name, b"crate".to_vec());
    assert_eq!(out[1].mod_name, "crate_");
    assert_eq!(out[2].ident.name, b"untagged".to_vec());
    assert!(p.crate_path.is_some());
    assert!(matches!(p.item_attrs.rename.as_ref().unwrap().1, Rename::Eq(_)));
    assert_eq!(p.item_attrs.untagged.as_ref().unwrap().0, Span(10));
    assert!(messages(errors).is_empty());
}

#[test]
fn attribute_arguments_errors() {
    let mut p = ItemAttrsParser::new();
    let mut errors = ErrorCollector::new();
    let out = extend_attr_meta(vec![tt_ident("a", 1), tt_ident("b", 2)], &mut p, &mut errors);
    assert_eq!(out.len(), 0);
    assert_eq!(messages(errors), vec![("unknown attribute", Some(Span(1))), ("expect eof", Some(Span(1)))]);

    let mut errors = ErrorCollector::new();
    let out = extend_attr_meta(vec![tt_ident("tag", 1), tt_punct(',', 2), tt_lit("1", 3), tt_ident("b", 4)], &mut p, &mut errors);
    assert_eq!(out.len(), 1);
    let e = errors.ok().err().unwrap();
    assert_eq!(e.1.len(), 1);
    match e.0 {
        ParseErrorKind::Custom { msg, span } => {
            assert_eq!(msg, "expect ``= ...`");
            assert_eq!(span, Some(Span(1)));
        }
        _ => panic!(),
    }
    match e.1[0] {
        ParseErrorKind::UnexpectedToken { span } => assert_eq!(span, Span(3)),
        _ => panic!(),
    }
}

#[test]
fn ident_tree_names() {
    let t = IdentTree { ident: ident("where", 3), mod_name: "r#where", children: Vec::new() };
    let (name, children) = t.into_name_and_children();
    assert_eq!(name.name, b"r#where".to_vec());
    assert_eq!(name.span, Span(3));
    assert!(children.is_empty());
    let t = IdentTree { ident: ident("rename", 4), mod_name: "", children: Vec::new() };
    assert_eq!(t.into_name_and_children().0.name, b"rename".to_vec());
    assert_eq!(make_ident("r#type", Span(2)).name, b"r#type".to_vec());
}
