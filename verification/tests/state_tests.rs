use cjson::state::{
    check, assert_json_value, AfterEndArrayOrObject, Intermediate, IntermediateState, Stack, State,
    StateInner, ValueKind,
};

fn inter(inner: u64, len: usize, state: IntermediateState) -> State {
    State(StateInner::Intermediate(Intermediate { stack: Stack { inner, len }, state }))
}

#[test]
fn init_state_packs_to_zero() {
    let s = State::init();
    assert!(s.is_init());
    assert!(!s.is_eof());
    assert_eq!(s.as_u128(), 0);
}

#[test]
fn eof_state_packs_to_all_ones() {
    let s = State::init().json_value();
    assert!(s.is_eof());
    assert_eq!(s.as_u128(), u128::MAX);
    assert_eq!(s, State(StateInner::Eof(ValueKind::Unknown)));
}

#[test]
fn left_bracket_from_init_packs_stack_len_and_place() {
    let s = State::init().left_bracket();
    assert_eq!(s, inter(1, 1, IntermediateState::AfterArrayStart));
    let expected: u128 = (1u128 << 64) | (1u128 << 56) | (1u128 << 48) | 0x80;
    assert_eq!(s.as_u128(), expected);
}

#[test]
fn left_brace_from_init_packs_object_bit_as_zero() {
    let s = State::init().left_brace();
    assert_eq!(s, inter(0, 1, IntermediateState::AfterObjectStart));
    let expected: u128 = (1u128 << 56) | (6u128 << 48) | 0x80;
    assert_eq!(s.as_u128(), expected);
}

#[test]
fn empty_array_ends_as_empty_array() {
    let s = State::init().left_bracket().right_bracket();
    assert_eq!(s, State(StateInner::Eof(ValueKind::ArrayWithEmptyContent)));
}

#[test]
fn array_with_items_ends_as_non_empty_array() {
    let s = State::init().left_bracket().json_value().comma().json_value().right_bracket();
    assert_eq!(s, State(StateInner::Eof(ValueKind::ArrayWithNonEmptyContent)));
}

#[test]
fn object_with_field_ends_as_non_empty_object() {
    let s = State::init()
        .left_brace()
        .double_quote()
        .json_string_fragment()
        .double_quote()
        .colon()
        .json_value()
        .right_brace();
    assert_eq!(s, State(StateInner::Eof(ValueKind::ObjectWithNonEmptyContent)));
}

#[test]
fn empty_object_ends_as_empty_object() {
    let s = State::init().left_brace().right_brace();
    assert_eq!(s, State(StateInner::Eof(ValueKind::ObjectWithEmptyContent)));
}

#[test]
fn string_ends_as_string() {
    let s = State::init().double_quote();
    assert_eq!(s, inter(0, 0, IntermediateState::InString));
    let s = s.json_string_fragment().double_quote();
    assert_eq!(s, State(StateInner::Eof(ValueKind::String)));
}

#[test]
fn nested_containers_push_bits() {
    let s = State::init().left_bracket().left_brace();
    assert_eq!(s, inter(0b10, 2, IntermediateState::AfterObjectStart));
    let s = s.double_quote().double_quote().colon().left_bracket();
    assert_eq!(s, inter(0b101, 3, IntermediateState::AfterArrayStart));
    let s = s.right_bracket();
    assert_eq!(s, inter(0b10, 2, IntermediateState::AfterObjectFieldValue));
    let s = s.right_brace();
    assert_eq!(s, inter(0b1, 1, IntermediateState::AfterArrayItem));
    let s = s.right_bracket();
    assert_eq!(s, State(StateInner::Eof(ValueKind::ArrayWithNonEmptyContent)));
}

#[test]
fn items_and_kvs_states() {
    let a = State::init().left_bracket();
    assert_eq!(
        a.copied().json_items_between_brackets(),
        inter(1, 1, IntermediateState::AfterArrayStartOrItem)
    );
    assert_eq!(
        a.copied().json_items_after_array_start_before_item(),
        inter(1, 1, IntermediateState::AfterArrayStartOrComma)
    );
    let closed = a.json_items_between_brackets().right_bracket();
    assert_eq!(closed, State(StateInner::Eof(ValueKind::ArrayWithUnknownContent)));
    let o = State::init().left_brace().json_kvs_after_object_start_before_kv();
    assert_eq!(o, inter(0, 1, IntermediateState::AfterObjectStartOrComma));
    let item = State::init().left_bracket().json_value();
    assert_eq!(item.copied().json_items_after_item(), item);
    let kv = State::init().left_brace().double_quote().double_quote().colon().json_value();
    assert_eq!(kv.copied().json_kvs_after_field_value(), kv);
}

#[test]
fn init_after_helpers() {
    assert_eq!(State::init_after_array_start(), State::init().left_bracket());
    assert_eq!(State::init_after_array_item(), State::init().left_bracket().json_value());
    assert_eq!(State::init_after_object_start(), State::init().left_brace());
    assert_eq!(
        State::init_after_object_field_value(),
        State::init().left_brace().double_quote().double_quote().colon().json_value()
    );
    assert_eq!(State::init_in_string(), State::init().double_quote());
}

#[test]
fn law_empty_group_is_one_value_on_concrete_states() {
    let in_array = State::init().left_bracket();
    assert_eq!(
        in_array.copied().left_bracket().right_bracket(),
        in_array.copied().json_value()
    );
    assert_eq!(
        in_array.copied().left_brace().right_brace(),
        in_array.copied().json_value()
    );
    assert_eq!(
        in_array.copied().double_quote().double_quote(),
        in_array.copied().json_value()
    );
    let after_colon = State::init().left_brace().double_quote().double_quote().colon();
    assert_eq!(
        after_colon.copied().left_bracket().right_bracket(),
        after_colon.copied().json_value()
    );
}

#[test]
fn law_packed_number_tells_states_apart() {
    let states = vec![
        State::init(),
        State::init().left_bracket(),
        State::init().left_brace(),
        State::init().double_quote(),
        State::init().left_bracket().json_value(),
        State::init().left_bracket().left_bracket(),
        State::init().left_brace().double_quote(),
    ];
    for i in 0..states.len() {
        for j in 0..states.len() {
            assert_eq!(states[i].as_u128() == states[j].as_u128(), i == j);
        }
    }
}

#[test]
fn intermediate_state_codes_round_trip() {
    for v in 0u8..=13 {
        let s = IntermediateState::try_from_u8(v).unwrap();
        assert_eq!(s.into_u8(), v);
    }
    assert_eq!(IntermediateState::try_from_u8(14), None);
    assert_eq!(IntermediateState::try_from_u8(255), None);
    assert_eq!(IntermediateState::AfterObjectComma.into_u8(), 13);
    assert_eq!(IntermediateState::InString.into_u8(), 0);
}

#[test]
fn stack_push_pop() {
    let s = Stack::init();
    assert_eq!(s.as_u64_u8(), (0, 0));
    assert_eq!(s.is_in_array_or_object(), None);
    let s = s.start_array().start_object().start_array();
    assert_eq!(s.as_u64_u8(), (0b101, 3));
    assert_eq!(s.is_in_array_or_object(), Some(true));
    assert!(s.outermost_is_array());
    let mut t = s;
    assert_eq!(t.pop(), Some(true));
    assert_eq!(t.pop(), Some(false));
    assert_eq!(t.is_in_top_level_array(), true);
    assert_eq!(t.pop(), Some(true));
    assert_eq!(t.pop(), None);
    assert_eq!(t.as_u64_u8(), (0, 0));
}

#[test]
fn stack_top_level_object() {
    let s = Stack::init().start_object();
    assert!(s.is_in_top_level_object());
    assert!(!s.is_in_top_level_array());
    assert!(!s.outermost_is_array());
}

#[test]
fn stack_end_array_and_object() {
    match Stack::init().start_array().end_array() {
        AfterEndArrayOrObject::Eof => {}
        _ => panic!("expected the end of the value"),
    }
    match Stack::init().start_object().start_array().end_array() {
        AfterEndArrayOrObject::Intermediate(i) => {
            assert_eq!(i.stack, Stack { inner: 0, len: 1 });
            assert_eq!(i.state, IntermediateState::AfterObjectFieldValue);
        }
        _ => panic!("expected to stay inside the object"),
    }
}

#[test]
fn stack_try_from_u64_u8() {
    assert_eq!(Stack::try_from_u64_u8(0b11, 2), Some(Stack { inner: 3, len: 2 }));
    assert_eq!(Stack::try_from_u64_u8(0b100, 2), None);
    assert_eq!(Stack::try_from_u64_u8(0, 65), None);
    assert_eq!(Stack::try_from_u64_u8(0, 0), Some(Stack { inner: 0, len: 0 }));
}

#[test]
fn remove_group_bytes() {
    let arr_eof = State::init().left_bracket().right_bracket();
    assert_eq!(State::remove_surrounding_group(State::init(), arr_eof.copied()), (b'[', b']', true));
    let obj_eof = State::init().left_brace().double_quote().double_quote().colon().json_value().right_brace();
    assert_eq!(State::remove_surrounding_group(State::init(), obj_eof), (b'{', b'}', false));
    let str_eof = State::init().double_quote().double_quote();
    assert_eq!(State::remove_surrounding_group(State::init(), str_eof), (b'"', b'"', false));
    assert_eq!(State::remove_group_open(State::init(), State::init().left_bracket()), b'[');
    assert_eq!(State::remove_group_open(State::init(), State::init().left_brace()), b'{');
    assert_eq!(State::remove_group_open(State::init(), State::init().double_quote()), b'"');
    let prev = State::init().left_bracket().json_value();
    let eof = prev.copied().right_bracket();
    assert_eq!(State::remove_group_close(prev, eof), b']');
}

#[test]
fn check_accepts_matching_text() {
    check(State::init(), State::init().left_bracket().json_value().right_bracket(), "[1]");
    check(State::init().left_bracket(), State::init().left_bracket().json_value(), "true");
    assert_json_value("{\"a\":[1,2.5e3,null]}");
}

#[test]
fn value_kind_and_state_assert_same_hold_on_equal_values() {
    ValueKind::String.assert_same(&ValueKind::String);
    let a = State::init().left_bracket();
    a.assert_same(&State::init().left_bracket());
    a.assert_is_top_level_after_array_start();
    State::init().assert_init();
    State::init().json_value().assert_eof();
}
