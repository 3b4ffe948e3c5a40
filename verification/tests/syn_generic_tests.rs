use cjson::syn_generic::tokens::{Delimiter, Group, Ident, Literal, Punct, Spacing, Span, TokenTree};
use cjson::syn_generic::{
    expect_eof_after, parse_and_report, parse_item_start, parse_meta_after_path, parse_meta_simple,
    with_trailing_punct_if_not_empty, ConsumedTokens, EnumVariantBody, ErrorCollector,
    ErrorUnexpectedTokenOrEof, ErrorWithPayload, GroupBracket, GroupParen, MetaAfterPath,
    ParseError, ParseErrorKind, ParsingAfterConsumedTokens, ParsingTokenStream,
    SomeVisibilityParenKind, StructData, TokenStreamCow,
};

/// Tokens of a small piece of Rust: identifiers, literals (numbers and
/// strings), punctuation and groups. Each token's place is one more than
/// the index of its first character.
fn lex(src: &str) -> Vec<TokenTree> {
    let chars: Vec<char> = src.chars().collect();
    let mut pos = 0;
    let out = lex_until(&chars, &mut pos, None);
    assert_eq!(pos, chars.len());
    out
}

fn is_ident_char(c: char) -> bool {
    c.is_ascii_alphanumeric() || c == '_'
}

fn lex_until(chars: &[char], pos: &mut usize, close: Option<char>) -> Vec<TokenTree> {
    let mut out = Vec::new();
    while *pos < chars.len() {
        let c = chars[*pos];
        let span = Span(*pos as u64 + 1);
        if c.is_whitespace() {
            *pos += 1;
        } else if Some(c) == close {
            return out;
        } else if c == '(' || c == '[' || c == '{' {
            let (d, end) = match c {
                '(' => (Delimiter::Parenthesis, ')'),
                '[' => (Delimiter::Bracket, ']'),
                _ => (Delimiter::Brace, '}'),
            };
            *pos += 1;
            let stream = lex_until(chars, pos, Some(end));
            let span_close = Span(*pos as u64 + 1);
            *pos += 1;
            out.push(TokenTree::Group(Group { delimiter: d, stream, span_open: span, span_close }));
        } else if c == '"' {
            let start = *pos;
            *pos += 1;
            while chars[*pos] != '"' {
                *pos += 1;
            }
            *pos += 1;
            let text: String = chars[start..*pos].iter().collect();
            out.push(TokenTree::Literal(Literal { text: text.into_bytes(), span }));
        } else if c.is_ascii_digit() {
            let start = *pos;
            while *pos < chars.len() && is_ident_char(chars[*pos]) {
                *pos += 1;
            }
            let text: String = chars[start..*pos].iter().collect();
            out.push(TokenTree::Literal(Literal { text: text.into_bytes(), span }));
        } else if is_ident_char(c) {
            let start = *pos;
            while *pos < chars.len() && is_ident_char(chars[*pos]) {
                *pos += 1;
            }
            let text: String = chars[start..*pos].iter().collect();
            out.push(TokenTree::Ident(Ident { name: text.into_bytes(), span }));
        } else {
            *pos += 1;
            let joint = *pos < chars.len() && {
                let n = chars[*pos];
                (c == '\'' && is_ident_char(n))
                    || (!n.is_whitespace() && !is_ident_char(n) && !"()[]{}\"".contains(n))
            };
            let spacing = if joint { Spacing::Joint } else { Spacing::Alone };
            out.push(TokenTree::Punct(Punct { ch: c, spacing, span }));
        }
    }
    out
}

fn render_one(t: &TokenTree) -> String {
    match t {
        TokenTree::Ident(i) => String::from_utf8(i.name.clone()).unwrap(),
        TokenTree::Literal(l) => String::from_utf8(l.text.clone()).unwrap(),
        TokenTree::Punct(p) => p.ch.to_string(),
        TokenTree::Group(g) => {
            let (o, c) = match g.delimiter {
                Delimiter::Parenthesis => ("(", ")"),
                Delimiter::Brace => ("{", "}"),
                Delimiter::Bracket => ("[", "]"),
                Delimiter::Invisible => ("", ""),
            };
            let inner = render(&g.stream);
            if inner.is_empty() {
                format!("{}{}", o, c)
            } else {
                format!("{} {} {}", o, inner, c)
            }
        }
    }
}

fn render(ts: &[TokenTree]) -> String {
    ts.iter().map(render_one).collect::<Vec<_>>().join(" ")
}

fn rest(s: &ParsingTokenStream) -> String {
    let v: Vec<TokenTree> = Vec::new();
    let mut out = v.iter().map(render_one).collect::<Vec<_>>();
    for t in s.s.iter() {
        out.push(render_one(t));
    }
    out.join(" ")
}

fn stream(src: &str) -> ParsingTokenStream {
    ParsingTokenStream::new(lex(src))
}

fn custom(e: &ParseError) -> (&'static str, Option<Span>) {
    assert!(e.1.is_empty());
    match e.0 {
        ParseErrorKind::Custom { msg, span } => (msg, span),
        _ => panic!("expected a message"),
    }
}

fn unexpected(e: &ParseError) -> Span {
    match e.0 {
        ParseErrorKind::UnexpectedToken { span } => span,
        _ => panic!("expected an unexpected token"),
    }
}

fn eof_after(e: &ParseError) -> Option<Span> {
    match e.0 {
        ParseErrorKind::UnexpectedEof { after } => after,
        _ => panic!("expected the end of input"),
    }
}

#[test]
fn lexer_sanity() {
    assert_eq!(render(&lex("a<'b, T: X<Y = u8>>(c)")), "a < ' b , T : X < Y = u8 > > ( c )");
}

#[test]
fn stream_next_and_prev_span() {
    let mut s = stream("a b");
    assert!(matches!(s.first(), Some(TokenTree::Ident(_))));
    assert_eq!(s.len(), 2);
    let t = s.next().unwrap();
    assert_eq!(render_one(&t), "a");
    assert_eq!(s.prev_span, Some(Span(1)));
    let _ = s.next();
    assert_eq!(s.prev_span, Some(Span(3)));
    assert!(s.next().is_none());
    assert!(s.is_empty());
    let e = s.next_or_error().err().unwrap();
    assert_eq!(eof_after(&e), Some(Span(3)));
    assert!(s.expect_eof().is_ok());
}

#[test]
fn parse_ident_and_expect_eof() {
    let mut s = stream("x ,");
    assert_eq!(s.parse_ident().ok().unwrap().name, b"x".to_vec());
    assert_eq!(custom(&s.expect_eof().err().unwrap()), ("expect eof", Some(Span(1))));
    match s.parse_ident() {
        Err(ErrorUnexpectedTokenOrEof::Token(t)) => assert_eq!(render_one(&t), ","),
        _ => panic!("expected the comma back"),
    }
    match s.parse_ident() {
        Err(ErrorUnexpectedTokenOrEof::Eof { after }) => assert_eq!(after, Some(Span(3))),
        _ => panic!("expected the end"),
    }
}

#[test]
fn parse_generics_lifetimes_types_and_consts() {
    let mut s = stream("<'a, T: Clone + Iterator<Item = u8> = Vec<u8>, const N: usize = 3> where T: Copy");
    let out = s.parse_generics().ok().unwrap();
    assert_eq!(
        render(&out.impl_generics),
        "' a , T : Clone + Iterator < Item = u8 > , const N : usize ,"
    );
    assert_eq!(render(&out.ty_generics), "' a , T , N ,");
    assert_eq!(rest(&s), "where T : Copy");
}

#[test]
fn parse_generics_without_angle_brackets_reads_nothing() {
    let mut s = stream("(u8);");
    let out = s.parse_generics().ok().unwrap();
    assert!(out.impl_generics.is_empty());
    assert!(out.ty_generics.is_empty());
    assert_eq!(rest(&s), "( u8 ) ;");
    let mut s = stream("<>");
    let out = s.parse_generics().ok().unwrap();
    assert!(out.impl_generics.is_empty());
    assert!(s.is_empty());
}

#[test]
fn parse_generics_keeps_given_comma_and_adds_missing_one() {
    let mut s = stream("<T,>");
    let out = s.parse_generics().ok().unwrap();
    assert_eq!(render(&out.ty_generics), "T ,");
    match &out.ty_generics[1] {
        TokenTree::Punct(p) => assert_eq!(p.span, Span(3)),
        _ => panic!(),
    }
    let mut s = stream("<T>");
    let out = s.parse_generics().ok().unwrap();
    match &out.impl_generics[1] {
        TokenTree::Punct(p) => {
            assert_eq!(p.ch, ',');
            assert_eq!(p.span, Span(0));
            assert_eq!(p.spacing, Spacing::Alone);
        }
        _ => panic!(),
    }
}

#[test]
fn parse_generics_errors() {
    let mut s = stream("<T");
    let e = s.parse_generics().err().unwrap();
    assert_eq!(eof_after(&e), Some(Span(2)));
    let mut s = stream("<1>");
    let e = s.parse_generics().err().unwrap();
    assert_eq!(unexpected(&e), Span(2));
    let mut s = stream("<const 1>");
    let e = s.parse_generics().err().unwrap();
    assert_eq!(unexpected(&e), Span(8));
    let mut s = stream("<, T>");
    let e = s.parse_generics().err().unwrap();
    assert_eq!(unexpected(&e), Span(2));
}

#[test]
fn law_generics_sides_end_with_a_comma() {
    for src in ["<T>", "<'a, 'b: 'a>", "<const N: usize, T = u8>", "<A: X<B, C>, D>"] {
        let mut s = stream(src);
        let out = s.parse_generics().ok().unwrap();
        for side in [&out.impl_generics, &out.ty_generics] {
            assert!(matches!(side.last(), Some(TokenTree::Punct(p)) if p.ch == ','), "{}", src);
        }
    }
}

#[test]
fn parse_in_generics_before_punct_nesting() {
    let mut s = stream("Vec<A, B> = C, D");
    let c = s.parse_in_generics_before_punct(true);
    assert_eq!(render(&c.tokens), "Vec < A , B >");
    assert_eq!(c.prev_span, None);
    assert_eq!(rest(&s), "= C , D");
    assert_eq!(s.prev_span, Some(Span(9)));
    let mut s = stream("X = Y, Z");
    let c = s.parse_in_generics_before_punct(false);
    assert_eq!(render(&c.tokens), "X = Y");
    let mut s = stream("A > B");
    let c = s.parse_in_generics_before_punct(false);
    assert_eq!(render(&c.tokens), "A");
    assert_eq!(rest(&s), "> B");
}

#[test]
fn consume_before_comma_takes_all_without_comma() {
    let mut s = stream("a b c");
    let c = s.consume_before_comma();
    assert_eq!(c.len(), 3);
    assert!(s.is_empty());
    assert_eq!(s.prev_span, Some(Span(5)));
}

#[test]
fn where_clause_up_to_brace() {
    let mut s = stream("where T: Foo<Bar>, U: Baz { x }");
    let wc = s.parse_where_clause().ok().unwrap().unwrap();
    assert_eq!(wc.where_token.0.name, b"where".to_vec());
    assert_eq!(render(&wc.predicates.tokens), "T : Foo < Bar > , U : Baz");
    assert_eq!(wc.predicates.prev_span, Some(Span(1)));
    assert_eq!(rest(&s), "{ x }");
}

#[test]
fn where_clause_absent() {
    let mut s = stream("{ }");
    assert!(s.parse_where_clause().ok().unwrap().is_none());
    assert_eq!(rest(&s), "{}");
}

#[test]
fn where_clause_errors() {
    let mut s = stream("where T: > {}");
    let e = s.parse_where_clause().err().unwrap();
    assert_eq!(custom(&e), ("unexpected `>`", Some(Span(10))));
    assert_eq!(rest(&s), "> {}");
    let mut s = stream("where T: X<A; B>;");
    let e = s.parse_where_clause().err().unwrap();
    assert_eq!(custom(&e), ("unexpected `;` in nested type path", Some(Span(13))));
}

#[test]
fn where_clause_impl_stops_at_semicolon() {
    let mut s = stream("where T: Copy; rest");
    let (w, preds) = s.parse_where_clause_impl().ok().unwrap();
    assert!(w.is_some());
    assert_eq!(render(&preds.into_vec()), "T : Copy");
    assert_eq!(rest(&s), "; rest");
}

#[test]
fn struct_after_generics_shapes() {
    let mut s = stream("(pub u8, T) where T: Copy; after");
    let (wc, data) = s.parse_struct_after_generics().ok().unwrap();
    assert_eq!(render(&wc.unwrap().predicates.tokens), "T : Copy");
    match data {
        StructData::Paren { paren, semi } => {
            assert_eq!(render(&paren.0.stream), "pub u8 , T");
            assert_eq!(semi.span(), Span(26));
        }
        _ => panic!("expected a tuple struct"),
    }
    assert_eq!(rest(&s), "after");

    let mut s = stream("where T: Copy { a: T }");
    let (wc, data) = s.parse_struct_after_generics().ok().unwrap();
    assert!(wc.is_some());
    assert!(matches!(data, StructData::Brace(_)));
    assert!(s.is_empty());

    let mut s = stream(";");
    let (wc, data) = s.parse_struct_after_generics().ok().unwrap();
    assert!(wc.is_none());
    assert!(matches!(data, StructData::Semi(_)));
}

#[test]
fn struct_after_generics_errors() {
    let mut s = stream("where T: Copy (u8);");
    let (wc, data) = s.parse_struct_after_generics().ok().unwrap();
    assert_eq!(render(&wc.unwrap().predicates.tokens), "T : Copy ( u8 )");
    assert!(matches!(data, StructData::Semi(_)));
    let mut s = stream("where T: Copy");
    let e = s.parse_struct_after_generics().err().unwrap();
    assert_eq!(custom(&e), ("unexpected token", Some(Span(10))));
    let mut s = stream("[u8]");
    let e = s.parse_struct_after_generics().err().unwrap();
    assert_eq!(custom(&e), ("unexpected token", Some(Span(1))));
    let mut s = stream("(u8)");
    let e = s.parse_struct_after_generics().err().unwrap();
    assert_eq!(custom(&e), ("expect `;`", Some(Span(4))));
    let mut s = stream("");
    let e = s.parse_struct_after_generics().err().unwrap();
    assert_eq!(custom(&e), ("unexpected token", None));
}

#[test]
fn enum_after_generics() {
    let mut s = stream("where T: X { A, B }");
    let (wc, brace) = s.parse_enum_after_generics().ok().unwrap();
    assert!(wc.is_some());
    assert_eq!(render(&brace.into_group().stream), "A , B");
    let mut s = stream(";");
    let e = s.parse_enum_after_generics().err().unwrap();
    assert_eq!(custom(&e), ("expect `{...}`", Some(Span(1))));
}

#[test]
fn visibility() {
    let mut s = stream("pub(crate) x");
    let v = s.parse_vis().unwrap();
    assert_eq!(v.pub_token.0.name, b"pub".to_vec());
    let p = v.paren.unwrap();
    assert!(matches!(p.kind, SomeVisibilityParenKind::Crate(_)));
    assert_eq!(rest(&s), "x");

    let mut s = stream("pub(in a::b) x");
    let v = s.parse_vis().unwrap();
    assert!(matches!(v.paren.unwrap().kind, SomeVisibilityParenKind::In(_)));

    let mut s = stream("pub(self) x");
    assert!(matches!(s.parse_vis().unwrap().paren.unwrap().kind, SomeVisibilityParenKind::Self_(_)));
    let mut s = stream("pub(super) x");
    assert!(matches!(s.parse_vis().unwrap().paren.unwrap().kind, SomeVisibilityParenKind::Super(_)));

    let mut s = stream("pub (u8, u16)");
    let v = s.parse_vis().unwrap();
    assert!(v.paren.is_none());
    assert_eq!(rest(&s), "( u8 , u16 )");

    let mut s = stream("pub(crate, x)");
    assert!(s.parse_vis().unwrap().paren.is_none());

    let mut s = stream("x");
    assert!(s.parse_vis().is_none());
    assert_eq!(rest(&s), "x");
}

#[test]
fn item_start() {
    let mut s = stream("#[derive(X)] #[doc = \"a\"] pub struct S;");
    let (attrs, res) = parse_item_start(&mut s);
    assert_eq!(attrs.len(), 2);
    assert_eq!(attrs[0].pound.0.span, Span(1));
    assert_eq!(render_one(&attrs[1].meta), "[ doc = \"a\" ]");
    let start = res.ok().unwrap();
    assert!(start.vis.is_some());
    assert_eq!(start.first_ident.name, b"struct".to_vec());
    assert_eq!(rest(&s), "S ;");
}

#[test]
fn item_start_errors() {
    let mut s = stream("#");
    let (attrs, res) = parse_item_start(&mut s);
    assert!(attrs.is_empty());
    assert_eq!(eof_after(&res.err().unwrap()), Some(Span(1)));
    let mut s = stream("#[a] pub 1");
    let (attrs, res) = parse_item_start(&mut s);
    assert_eq!(attrs.len(), 1);
    assert_eq!(unexpected(&res.err().unwrap()), Span(10));
}

#[test]
fn named_fields() {
    let s = stream("#[json(rename = \"y\")] pub x: Vec<u8, A>, y: u8");
    let (fields, res, _) = s.parse_into_named_fields();
    assert!(res.is_ok());
    assert_eq!(fields.len(), 2);
    assert_eq!(fields[0].attrs.len(), 1);
    assert!(fields[0].vis.is_some());
    let (name, _colon) = fields[0].name_colon.as_ref().unwrap();
    assert_eq!(name.name, b"x".to_vec());
    assert_eq!(render(&fields[0].ty), "Vec < u8 , A >");
    assert!(fields[0].comma.is_some());
    assert_eq!(render(&fields[1].ty), "u8");
    assert!(fields[1].comma.is_none());
}

#[test]
fn named_fields_errors() {
    let s = stream("a: u8, b u8");
    let (fields, res, _) = s.parse_into_named_fields();
    assert_eq!(fields.len(), 1);
    assert_eq!(custom(&res.err().unwrap()), ("expect `:`", Some(Span(10))));
    let s = stream("a");
    let (fields, res, _) = s.parse_into_named_fields();
    assert!(fields.is_empty());
    assert_eq!(custom(&res.err().unwrap()), ("expect `:`", Some(Span(1))));
    let s = stream("a:: u8");
    let (_, res, _) = s.parse_into_named_fields();
    assert_eq!(custom(&res.err().unwrap()), ("expect `:`", Some(Span(2))));
}

#[test]
fn failed_field_keeps_its_attributes() {
    let s = stream("a: u8, #[x] #[y] b u8");
    let (fields, res, failed) = s.parse_into_named_fields();
    assert_eq!(fields.len(), 1);
    assert!(res.is_err());
    assert_eq!(failed.len(), 2);
    let s = stream("a: u8");
    let (_, _, failed) = s.parse_into_named_fields();
    assert!(failed.is_empty());
    let s = stream("A, #[x] 1");
    let (vs, _, failed) = s.parse_into_variants();
    assert_eq!(vs.len(), 1);
    assert_eq!(failed.len(), 1);
}

#[test]
fn unnamed_fields() {
    let s = stream("pub u8, #[a] T,");
    let (fields, res, _) = s.parse_into_unnamed_fields();
    assert!(res.is_ok());
    assert_eq!(fields.len(), 2);
    assert!(fields[0].name_colon.is_none());
    assert_eq!(render(&fields[0].ty), "u8");
    assert_eq!(fields[1].attrs.len(), 1);
    assert!(fields[1].comma.is_some());
}

#[test]
fn unnamed_fields_error_after_the_field_keeps_it() {
    let s = stream("u8 > x");
    let (fields, res, _) = s.parse_into_unnamed_fields();
    assert_eq!(fields.len(), 1);
    assert_eq!(render(&fields[0].ty), "u8");
    assert_eq!(custom(&res.err().unwrap()), ("expect eof or `,`", Some(Span(4))));
}

#[test]
fn enum_variants() {
    let s = stream("A, B(u8) = 1 + 2, #[x] pub C { f: u8 },");
    let (vs, res, _) = s.parse_into_variants();
    assert!(res.is_ok());
    assert_eq!(vs.len(), 3);
    assert!(matches!(vs[0].variant.body, EnumVariantBody::Unit));
    assert!(vs[0].variant.discriminant.is_none());
    match &vs[1].variant.body {
        EnumVariantBody::Paren(g) => assert_eq!(render(&g.0.stream), "u8"),
        _ => panic!(),
    }
    assert_eq!(render(&vs[1].variant.discriminant.as_ref().unwrap().value), "1 + 2");
    assert_eq!(vs[2].attrs.len(), 1);
    assert!(vs[2].variant.vis.is_some());
    assert!(matches!(vs[2].variant.body, EnumVariantBody::Brace(_)));
    assert!(vs[2].comma.is_some());
}

#[test]
fn enum_variants_errors() {
    let s = stream("A, 1");
    let (vs, res, _) = s.parse_into_variants();
    assert_eq!(vs.len(), 1);
    assert_eq!(unexpected(&res.err().unwrap()), Span(4));
    let s = stream("A B");
    let (vs, res, _) = s.parse_into_variants();
    assert_eq!(vs.len(), 1);
    assert_eq!(custom(&res.err().unwrap()), ("expect eof or `,`", Some(Span(3))));
}

#[test]
fn meta_simple_shapes() {
    let mut s = stream("rename = \"a b\" + x, next");
    let m = parse_meta_simple(&mut s).ok().unwrap();
    assert_eq!(m.path.name, b"rename".to_vec());
    match m.after_path {
        MetaAfterPath::Eq { eq, before_comma_or_eof } => {
            assert_eq!(eq.span(), Span(8));
            assert_eq!(render(&before_comma_or_eof.tokens), "\"a b\" + x");
        }
        _ => panic!(),
    }
    assert_eq!(rest(&s), ", next");

    let mut s = stream("to(items)");
    let m = parse_meta_simple(&mut s).ok().unwrap();
    assert!(matches!(m.after_path, MetaAfterPath::Group(_)));

    let mut s = stream("flag, x");
    assert!(matches!(parse_meta_after_path(&mut s), MetaAfterPath::Empty));
    let mut s = stream("flag");
    let _ = s.next();
    assert!(matches!(parse_meta_after_path(&mut s), MetaAfterPath::Empty));

    let mut s = stream("1 = x");
    assert_eq!(unexpected(&parse_meta_simple(&mut s).err().unwrap()), Span(1));
}

#[test]
fn trailing_punct() {
    let ts = with_trailing_punct_if_not_empty(lex("a, b"), ',');
    assert_eq!(render(&ts), "a , b ,");
    let ts = with_trailing_punct_if_not_empty(lex("a,"), ',');
    assert_eq!(render(&ts), "a ,");
    let ts = with_trailing_punct_if_not_empty(Vec::new(), ',');
    assert!(ts.is_empty());
    let twice = with_trailing_punct_if_not_empty(with_trailing_punct_if_not_empty(lex("x"), ';'), ';');
    assert_eq!(render(&twice), "x ;");
}

#[test]
fn consumed_tokens_parse_and_use() {
    let mut s = stream("a b, c");
    let c = s.consume_before_comma();
    let mut p = c.parse();
    assert_eq!(p.prev_span(), None);
    assert_eq!(render_one(p.first().unwrap()), "a");
    let _ = p.next();
    assert_eq!(p.prev_span(), Some(Span(1)));
    assert!(p.expect_eof().is_err());
    let _ = p.next();
    assert!(p.expect_eof().is_ok());

    let c2 = ConsumedTokens { tokens: lex("x y"), prev_span: None };
    let n = c2.use_tokens(|cow: TokenStreamCow<'static>| cow.len());
    assert_eq!(n, 2);
    let c3 = ConsumedTokens { tokens: lex("z"), prev_span: None };
    assert_eq!(render(&c3.into_vec_iter()), "z");
}

#[test]
fn token_stream_cow() {
    let v = lex("a b");
    let b = TokenStreamCow::Borrowed(&v);
    assert_eq!(b.len(), 2);
    assert_eq!(render(b.as_slice()), "a b");
    assert_eq!(render(&b.into_vec_iter()), "a b");
    let o = TokenStreamCow::Owned(lex("c"));
    assert_eq!(render(&o.into_vec_iter()), "c");
}

#[test]
fn parsing_after_consumed_tokens() {
    let mut s = stream("a, b");
    let consumed = s.consume_before_comma();
    let mut after = ParsingAfterConsumedTokens { consumed, rest: s };
    assert_eq!(after.span_open_or_prev(), Some(Span(2)));
    assert_eq!(render_one(after.first().unwrap()), ",");
    let _ = after.next();
    let _ = after.next();
    assert!(after.expect_eof().is_ok());
    assert_eq!(after.span_open_or_prev(), Some(Span(4)));
    assert_eq!(render(&after.consumed.tokens), "a");
}

#[test]
fn errors_collect_in_order() {
    let mut c = ErrorCollector::new();
    assert!(ErrorCollector::new().ok().is_ok());
    c.push_custom("first", Some(Span(1)));
    c.push(ParseError::custom("second", None));
    let e = c.ok().err().unwrap();
    assert_eq!(custom(&ParseError(e.0, Vec::new())), ("first", Some(Span(1))));
    assert_eq!(e.1.len(), 1);
    let mut a = ParseError::custom("a", None);
    let mut b = ParseError::custom("b", None);
    b.push(ParseError::custom("c", None));
    a.push(b);
    assert_eq!(a.1.len(), 2);
    let mut other = ErrorCollector::new();
    other.push_custom("d", None);
    let joined = a.join(other);
    assert_eq!(joined.1.len(), 3);
}

#[test]
fn group_wrappers() {
    let g = GroupParen::new(lex("a")).with_delimiter_span(Span(7));
    assert_eq!(g.0.span_open, Span(7));
    assert_eq!(g.0.span_close, Span(7));
    assert_eq!(g.0.delimiter, Delimiter::Parenthesis);
    let brace = Group { delimiter: Delimiter::Brace, stream: Vec::new(), span_open: Span(1), span_close: Span(2) };
    assert!(GroupParen::try_from_group(brace).is_err());
    let bracket = lex("[x]").pop().unwrap();
    assert!(GroupBracket::parse_from_token_tree(bracket).is_ok());
    let e = GroupBracket::parse_from_token_tree(lex("(x)").pop().unwrap()).err().unwrap();
    assert_eq!(custom(&e), ("expect `[`", Some(Span(1))));
    let e = GroupBracket::parse_from_token_tree(lex("x").pop().unwrap()).err().unwrap();
    assert_eq!(custom(&e), ("expect `[`", Some(Span(1))));
}

#[test]
fn payloads_are_reported_and_kept() {
    let mut errors = ErrorCollector::new();
    let r: Result<Vec<TokenTree>, ErrorWithPayload<ParseError, Option<Vec<TokenTree>>>> =
        Err(ErrorWithPayload { error: ParseError::custom("late", None), payload: Some(lex("a")) });
    let v = parse_and_report(r, &mut errors).ok().unwrap();
    assert_eq!(render(&v), "a");
    assert!(errors.ok().is_err());

    let mut errors = ErrorCollector::new();
    let r: Result<Vec<TokenTree>, ErrorWithPayload<ParseError, Option<Vec<TokenTree>>>> =
        Err(ErrorWithPayload { error: ParseError::custom("early", None), payload: None });
    assert!(parse_and_report(r, &mut errors).is_err());
    assert!(errors.ok().is_ok());

    let s = stream("x");
    match expect_eof_after(&s, Ok(1u8)) {
        Err(ew) => assert_eq!(ew.payload, Some(1u8)),
        Ok(_) => panic!(),
    }
    let empty = stream("");
    assert_eq!(expect_eof_after(&empty, Ok(2u8)).ok(), Some(2u8));
}

use cjson::expand_props::{
    expand_group, expand_ts, expand_ts_iter_to, ErroredContext, MaybeIntact, Prop, PropPath,
    TokensCollector,
};

fn expand(src: &str) -> (bool, String, ErrorCollector) {
    let mut out = TokensCollector(Vec::new());
    let mut errors = ErrorCollector::new();
    let ts = lex(src);
    let r = expand_ts_iter_to(&mut out, &ts, &mut ErroredContext, &mut errors);
    (matches!(r, MaybeIntact::Expanded(())), render(&out.0), errors)
}

#[test]
fn plain_template_is_written_as_it_is() {
    let (expanded, out, errors) = expand("a (b [c, d]) { e } 1 \"s\"");
    assert!(!expanded);
    assert_eq!(out, "a ( b [ c , d ] ) { e } 1 \"s\"");
    assert!(errors.ok().is_ok());
}

#[test]
fn properties_expand() {
    let (expanded, out, errors) = expand("x = @name + @(a.b.0);");
    assert!(expanded);
    assert_eq!(out, "x = + ;");
    assert!(errors.ok().is_ok());
}

#[test]
fn repeated_part_expands_for_each_item() {
    let (expanded, out, errors) = expand("[ @[ @f , ]* ]");
    assert!(expanded);
    assert_eq!(out, "[]");
    assert!(errors.ok().is_ok());
}

#[test]
fn optional_part_expands_when_asked() {
    let (expanded, out, _) = expand("a @[ b @c ]? d");
    assert!(expanded);
    assert_eq!(out, "a d");
}

#[test]
fn misshapen_templates_are_reported_and_kept() {
    let (expanded, out, errors) = expand("@[x] y");
    assert!(!expanded);
    assert_eq!(out, "@ [ x ] y");
    let e = errors.ok().err().unwrap();
    assert_eq!(custom(&e), ("expect `?` or `*` after `@[...]`", Some(Span(6))));

    let (expanded, out, errors) = expand("@[x]");
    assert!(!expanded);
    assert_eq!(out, "@ [ x ]");
    assert_eq!(custom(&errors.ok().err().unwrap()), ("expect `?` or `*` after `@[...]`", Some(Span(4))));

    let (expanded, out, errors) = expand("@{x}");
    assert!(!expanded);
    assert_eq!(out, "@ { x }");
    assert_eq!(custom(&errors.ok().err().unwrap()), ("unexpected group after `@`", Some(Span(2))));

    let (expanded, out, errors) = expand("@ , @");
    assert!(!expanded);
    assert_eq!(out, "@ , @");
    assert!(errors.ok().is_ok());
}

#[test]
fn bad_property_paths_are_reported() {
    let (expanded, out, errors) = expand("@(a b)");
    assert!(expanded);
    assert_eq!(out, "");
    assert_eq!(custom(&errors.ok().err().unwrap()), ("expect `.`", Some(Span(5))));
    let (expanded, out, errors) = expand("@()");
    assert!(expanded);
    assert_eq!(out, "");
    assert_eq!(custom(&errors.ok().err().unwrap()), ("expect ident or literal", Some(Span(3))));
}

#[test]
fn groups_expand_inside() {
    let g = match lex("(a @b)").pop().unwrap() {
        TokenTree::Group(g) => g,
        _ => panic!(),
    };
    let mut errors = ErrorCollector::new();
    let (out, expanded) = expand_group(&g, &mut ErroredContext, &mut errors);
    assert!(expanded);
    assert_eq!(out.span_open, Span(1));
    assert_eq!(render(&out.stream), "a");
}

#[test]
fn expand_ts_keeps_plain_tokens() {
    let mut errors = ErrorCollector::new();
    match expand_ts(lex("a b"), &mut ErroredContext, &mut errors) {
        MaybeIntact::Intact(v) => assert_eq!(render(&v), "a b"),
        MaybeIntact::Expanded(_) => panic!(),
    }
    match expand_ts(lex("a @b"), &mut ErroredContext, &mut errors) {
        MaybeIntact::Expanded(v) => assert_eq!(render(&v), "a"),
        MaybeIntact::Intact(_) => panic!(),
    }
    let _ = PropPath(Prop::Ident(Ident { name: b"x".to_vec(), span: Span(0) }), Vec::new());
}
