use cjson::state::deserializer::{Deserializer, ParseInString, ParseJsonValueNoNestingOutput};
use cjson::state::{Intermediate, IntermediateState, Stack, State, StateInner, ValueKind};

fn scan(s: &str, from: StateInner) -> Result<StateInner, &'static str> {
    Deserializer::new(s.as_bytes()).parse_till_eof_with_state(from)
}

fn scan_init(s: &str) -> Result<StateInner, &'static str> {
    scan(s, StateInner::Init)
}

fn inter(inner: u64, len: usize, state: IntermediateState) -> StateInner {
    StateInner::Intermediate(Intermediate { stack: Stack { inner, len }, state })
}

#[test]
fn scalars_are_whole_values() {
    for s in ["null", "true", "false", "0", "-0", "12", "-3.25", "1e5", "2.5e-3", "7e+2"] {
        assert_eq!(scan_init(s), Ok(StateInner::Eof(ValueKind::Unknown)), "{}", s);
    }
}

#[test]
fn bad_scalars_are_refused() {
    for s in ["nul", "tru", "fals", "01x", "-", "1.", ".5", "1e", "+1", "1E5", "x"] {
        assert!(scan_init(s).is_err(), "{}", s);
    }
}

#[test]
fn empty_text_is_refused_from_init() {
    assert!(scan_init("").is_err());
}

#[test]
fn text_after_a_value_is_refused() {
    assert!(scan_init("1 ").is_err());
    assert!(scan_init("null1").is_err());
    assert!(scan_init("[1]]").is_err());
}

#[test]
fn strings_and_escapes() {
    assert_eq!(scan_init("\"\""), Ok(StateInner::Eof(ValueKind::String)));
    assert_eq!(scan_init("\"a\\n\\u00e9\\\"\""), Ok(StateInner::Eof(ValueKind::String)));
    assert!(scan_init("\"\\x\"").is_err());
    assert!(scan_init("\"\\u12g4\"").is_err());
    assert!(scan_init("\"a\u{1}\"").is_err());
}

#[test]
fn text_ending_inside_a_string() {
    assert_eq!(scan_init("\"abc"), Ok(inter(0, 0, IntermediateState::InString)));
    assert_eq!(scan_init("[\"ab"), Ok(inter(1, 1, IntermediateState::InString)));
}

#[test]
fn arrays_and_objects() {
    assert_eq!(scan_init("[]"), Ok(StateInner::Eof(ValueKind::ArrayWithEmptyContent)));
    assert_eq!(scan_init("[1,[2],{}]"), Ok(StateInner::Eof(ValueKind::ArrayWithNonEmptyContent)));
    assert_eq!(scan_init("{}"), Ok(StateInner::Eof(ValueKind::ObjectWithEmptyContent)));
    assert_eq!(
        scan_init("{\"a\":1,\"b\":[true]}"),
        Ok(StateInner::Eof(ValueKind::ObjectWithNonEmptyContent))
    );
}

#[test]
fn unbalanced_and_misplaced_punctuation_is_refused() {
    for s in ["]", "}", "[}", "{]", "[1,]", "[,1]", "{\"a\"}", "{\"a\":}", "{1:2}", "[1 2]", ",", ":"] {
        assert!(scan_init(s).is_err(), "{}", s);
    }
}

#[test]
fn partial_text_ends_inside_containers() {
    assert_eq!(scan_init("[1,"), Ok(inter(1, 1, IntermediateState::AfterArrayComma)));
    assert_eq!(scan_init("[1"), Ok(inter(1, 1, IntermediateState::AfterArrayItem)));
    assert_eq!(scan_init("{\"a\""), Ok(inter(0, 1, IntermediateState::AfterObjectFieldName)));
    assert_eq!(scan_init("{\"a\":1"), Ok(inter(0, 1, IntermediateState::AfterObjectFieldValue)));
    assert_eq!(scan_init("[{"), Ok(inter(0b10, 2, IntermediateState::AfterObjectStart)));
}

#[test]
fn text_right_after_an_opening_bracket_or_a_colon_needs_a_value() {
    assert!(scan_init("[").is_err());
    assert!(scan_init("{\"a\":").is_err());
}

#[test]
fn scanning_from_an_intermediate_state() {
    let in_array = State::init().left_bracket().json_value().0;
    assert_eq!(scan(",2]", in_array), Ok(StateInner::Eof(ValueKind::ArrayWithNonEmptyContent)));
    let in_array = State::init().left_bracket().json_value().0;
    assert_eq!(scan("", in_array), Ok(in_array));
    let in_string = State::init().double_quote().0;
    assert_eq!(scan("abc\"", in_string), Ok(StateInner::Eof(ValueKind::String)));
    let after_start = State::init().left_bracket().0;
    assert_eq!(scan("]", after_start), Ok(StateInner::Eof(ValueKind::ArrayWithEmptyContent)));
}

#[test]
fn law_scanning_one_punctuation_byte_agrees_with_the_state_operation() {
    let item = State::init().left_bracket().json_value();
    assert_eq!(scan(",", item.copied().0), Ok(item.copied().comma().0));
    assert_eq!(scan("]", item.copied().0), Ok(item.copied().right_bracket().0));
    let colon = State::init().left_brace().double_quote().double_quote().colon();
    assert_eq!(scan("{", colon.copied().0), Ok(colon.copied().left_brace().0));
    assert_eq!(scan("\"", colon.copied().0), Ok(colon.copied().double_quote().0));
    let start = State::init().left_brace();
    assert_eq!(scan("}", start.copied().0), Ok(start.copied().right_brace().0));
}

#[test]
fn law_scanning_agrees_with_the_state_operations_byte_by_byte() {
    let start = State::init().left_bracket();
    let ops = start.copied().left_brace().right_brace().right_bracket();
    assert_eq!(scan("{}]", start.copied().0), Ok(ops.0));
    let item = State::init().left_bracket().json_value();
    let ops = item.copied().comma().double_quote().double_quote().comma().left_brace();
    assert_eq!(scan(",\"\",{", item.copied().0), Ok(ops.0));
    assert_eq!(scan("\"\"", StateInner::Init), Ok(State::init().double_quote().double_quote().0));
    let in_string = State::init().double_quote();
    assert_eq!(scan("\"", StateInner::Init), Ok(in_string.0));
    let ops = item.copied().comma().double_quote().json_string_fragment().double_quote().right_bracket();
    assert_eq!(scan(",\"a,b]\"]", item.copied().0), Ok(ops.0));
    let field = State::init().left_brace().double_quote();
    assert_eq!(scan("k{}\"", field.copied().0), Ok(field.copied().json_string_fragment().double_quote().0));
    let ops = State::init()
        .left_bracket()
        .left_brace()
        .double_quote()
        .json_string_fragment()
        .double_quote()
        .colon()
        .left_bracket()
        .right_bracket()
        .right_brace()
        .right_bracket();
    assert_eq!(scan("[{\"k\":[]}]", StateInner::Init), Ok(ops.0));
    assert!(scan("[", StateInner::Init).is_err());
    let ops = State::init().left_bracket().json_value().comma().json_value().comma().json_value().right_bracket();
    assert_eq!(scan("[null,true,false]", StateInner::Init), Ok(ops.0));
    assert_eq!(scan("true", StateInner::Init), Ok(State::init().json_value().0));
    let ops = State::init().left_bracket().json_value().comma().json_value().comma().json_value().right_bracket();
    assert_eq!(scan("[1,-2.5e+3,0]", StateInner::Init), Ok(ops.0));
    assert_eq!(scan("-0.5", StateInner::Init), Ok(State::init().json_value().0));
    let ops = State::init().double_quote().json_string_fragment().json_string_fragment().double_quote();
    assert_eq!(scan("\"\\n\\u00e9\"", StateInner::Init), Ok(ops.0));
}

#[test]
fn scanning_from_the_end_of_a_value() {
    assert!(scan("1", StateInner::Eof(ValueKind::Unknown)).is_err());
    assert_eq!(scan("", StateInner::Eof(ValueKind::Unknown)), Ok(StateInner::Eof(ValueKind::Unknown)));
}

#[test]
fn deserializer_byte_steps() {
    let mut d = Deserializer::new(b"true,");
    assert_eq!(d.peek(), Some(b't'));
    assert!(d.next_n(b"true"));
    assert!(!d.next_n(b"xx"));
    assert_eq!(d.next_byte(), Some(b','));
    assert_eq!(d.next_byte(), None);
    assert!(d.expect_eof_after_value().is_ok());
}

#[test]
fn deserializer_value_no_nesting() {
    let mut d = Deserializer::new(b"[1]");
    assert_eq!(d.parse_json_value_no_nesting(), Ok(ParseJsonValueNoNestingOutput::ArrayStart));
    let mut d = Deserializer::new(b"{");
    assert_eq!(d.parse_json_value_no_nesting(), Ok(ParseJsonValueNoNestingOutput::ObjectStart));
    let mut d = Deserializer::new(b"\"ab");
    assert_eq!(d.parse_json_value_no_nesting(), Ok(ParseJsonValueNoNestingOutput::EofInString));
    let mut d = Deserializer::new(b"-12.5e3,");
    assert_eq!(d.parse_json_value_no_nesting(), Ok(ParseJsonValueNoNestingOutput::JsonValue));
    assert_eq!(d.peek(), Some(b','));
}

#[test]
fn deserializer_in_string() {
    let mut d = Deserializer::new(b"ab\\\"c\"x");
    assert_eq!(d.parse_in_string(), Ok(ParseInString::StringEnded));
    assert_eq!(d.peek(), Some(b'x'));
    let mut d = Deserializer::new(b"abc");
    assert_eq!(d.parse_in_string(), Ok(ParseInString::EofInString));
}

#[test]
fn deserializer_numbers() {
    let mut d = Deserializer::new(b"123x");
    assert!(d.parse_positive_number().is_ok());
    assert_eq!(d.peek(), Some(b'x'));
    let mut d = Deserializer::new(b"007");
    assert!(d.parse_positive_number().is_ok());
    assert_eq!(d.peek(), Some(b'0'));
    let mut d = Deserializer::new(b"x");
    assert_eq!(d.parse_one_or_more_digits(), None);
}

#[test]
fn error_messages() {
    let cases: [(&str, &str); 17] = [
        ("1 ", "expect EOF after json value"),
        ("-x", "unexpected when parsing positive number"),
        ("1.x", "expect digits after dot"),
        ("1ex", "expect digits in exp"),
        ("\"\\u12", "unexpected EOF in string unicode escape"),
        ("\"\\u12x4\"", "unexpected char in string unicode escape"),
        ("\"\\x\"", "unexpected byte in string escape"),
        ("\"\\", "unexpected EOF in string escape"),
        ("\"\u{1f}\"", "unexpected ASCII control character in string"),
        ("", "unexpected EOF"),
        ("nul", "unexpect ident starting with n"),
        ("fals", "unexpect ident starting with t"),
        ("x", "expect json value"),
        ("[1 2]", "unexpect chars after array item"),
        ("{1}", "unexpect chars after object start"),
        ("{\"a\" 1}", "unexpect chars after object start"),
        ("{\"a\":1 2}", "unexpect chars after object field"),
    ];
    for (text, msg) in cases {
        assert_eq!(scan_init(text), Err(msg), "{}", text);
    }
    assert_eq!(scan_init("{\"a\":1,2}"), Err("unexpected chars after comma in object"));
    let kvs = State::init().left_brace().json_kvs_after_object_start_before_kv().0;
    assert_eq!(scan("1", kvs), Err("unexpected chars after object after or comma"));
    let items = State::init().left_bracket().json_items_between_brackets().0;
    assert_eq!(scan("1", items), Err("expect `]` after array start or item"));
}

#[test]
fn tokens_out_of_place_are_refused() {
    for s in ["[1,]", "{\"a\"1}", "[", "{\"a\":", "[1:2]", "{1:2}", "]"] {
        assert!(scan_init(s).is_err(), "{}", s);
    }
}
