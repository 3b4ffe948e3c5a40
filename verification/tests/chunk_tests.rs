use cjson::chunk::{ChunkLen, StatedChunkBuf, StatedChunkStr, StatedChunkString, StrAsArray, StrAsArrayVec};
use cjson::state::{State, StateInner, ValueKind};
use cjson::texts::Value;

#[test]
fn chunk_len_counts_bytes() {
    let n = ChunkLen::new()
        .left_bracket()
        .json_value(4)
        .comma()
        .double_quote()
        .json_string_fragment(3)
        .double_quote()
        .right_bracket();
    assert_eq!(n.len(), 12);
    let m = ChunkLen::new().left_brace().colon().right_brace().json_value_generic_const(5);
    assert_eq!(m.len(), 8);
    assert_eq!(ChunkLen::new().len(), 0);
}

#[test]
fn str_as_array_vec_builds_text() {
    let v: StrAsArrayVec<16> = StrAsArrayVec::new()
        .left_bracket()
        .json_value(Value::new_without_validation("true"))
        .comma()
        .double_quote()
        .json_string_fragments("é".as_bytes())
        .double_quote()
        .right_bracket();
    assert_eq!(v.as_str(), "[true,\"é\"]");
    assert_eq!(v.len(), 11);
    let buf = v.into_buf();
    assert_eq!(buf.len(), 16);
    assert_eq!(&buf[..11], "[true,\"é\"]".as_bytes());
    assert!(buf[11..].iter().all(|b| *b == 0));
}

#[test]
fn str_as_array_when_full() {
    let v: StrAsArrayVec<2> = StrAsArrayVec::new().left_brace().right_brace();
    let a: StrAsArray<2> = v.assert_len_is_cap();
    assert_eq!(a.as_str(), "{}");
    let b: StrAsArray<1> = StrAsArray::from_array_vec_assert_len_is_cap(StrAsArrayVec::new().colon());
    assert_eq!(b.as_str(), ":");
}

#[test]
fn stated_chunk_buf_tracks_states_and_text() {
    let c: StatedChunkBuf<32> = StatedChunkBuf::new(State::init())
        .left_brace()
        .double_quote()
        .json_string_fragments(b"key")
        .double_quote()
        .colon()
        .json_value(Value::new_without_validation("[1,2]"))
        .right_brace();
    assert_eq!(*c.prev_state(), State::init());
    assert_eq!(*c.next_state(), State(StateInner::Eof(ValueKind::ObjectWithNonEmptyContent)));
    assert_eq!(c.inner().as_str(), "{\"key\":[1,2]}");
    let s = c.as_str();
    assert_eq!(s.inner(), "{\"key\":[1,2]}");
    let (prev, next, text) = c.into_triple();
    assert_eq!(prev, State::init());
    assert!(next.is_eof());
    assert_eq!(text.as_str(), "{\"key\":[1,2]}");
}

#[test]
fn law_chunk_len_agrees_with_the_built_chunk() {
    let built: StatedChunkBuf<64> = StatedChunkBuf::new(State::init())
        .left_bracket()
        .json_value(Value::new_without_validation("null"))
        .comma()
        .double_quote()
        .json_string_fragments(b"ab")
        .double_quote()
        .right_bracket();
    let counted = ChunkLen::new()
        .left_bracket()
        .json_value(4)
        .comma()
        .double_quote()
        .json_string_fragment(2)
        .double_quote()
        .right_bracket();
    assert_eq!(built.inner().len(), counted.len());
}

#[test]
fn stated_chunk_string_when_full() {
    let c: StatedChunkBuf<3> = StatedChunkBuf::new(State::init())
        .left_bracket()
        .json_value(Value::new_without_validation("0"))
        .right_bracket();
    let s: StatedChunkString<3> = c.assert_len_is_cap();
    assert_eq!(s.inner().as_str(), "[0]");
    let r = StatedChunkStr::from_ref_array(&s);
    assert_eq!(r.inner(), "[0]");
    assert!(r.next_state().is_eof());
}

#[test]
fn stated_chunk_str_remove_surrounding_group() {
    let arr = State::init().left_bracket().json_value().right_bracket();
    let s = StatedChunkStr::new(State::init(), arr, "[1]");
    let inner = s.remove_surrounding_group();
    assert_eq!(inner.inner(), "1");
    assert_eq!(*inner.prev_state(), State::init_after_array_start());
    assert_eq!(*inner.next_state(), State::init_after_array_item());
}

#[test]
fn stated_chunk_str_remove_surrounding_group_of_string() {
    let eof = State::init().double_quote().json_string_fragment().double_quote();
    let s = StatedChunkStr::new(State::init(), eof, "\"ab\"");
    let inner = s.remove_surrounding_group();
    assert_eq!(inner.inner(), "ab");
    assert_eq!(*inner.prev_state(), State::init_in_string());
    assert_eq!(*inner.next_state(), State::init_in_string());
}

#[test]
fn stated_chunk_str_remove_group_open_and_close() {
    let next = State::init().left_brace();
    let s = StatedChunkStr::new(State::init(), next, "{");
    let open_removed = s.remove_group_open();
    assert_eq!(open_removed.inner(), "");
    assert_eq!(*open_removed.prev_state(), State::init_after_object_start());
    let prev = State::init().left_bracket().json_value();
    let eof = State::init().left_bracket().json_value().comma().json_value().right_bracket();
    let tail = StatedChunkStr::new(prev, eof, ",2]");
    let close_removed = tail.remove_group_close();
    assert_eq!(close_removed.inner(), ",2");
    assert_eq!(*close_removed.next_state(), State::init_after_array_item());
}

#[test]
fn stated_chunk_str_states() {
    let s = StatedChunkStr::new(State::init(), State::init().json_value(), "1");
    let c = s.copied();
    assert_eq!(c.into_next_state(), State::init().json_value());
    assert_eq!(s.into_prev_state(), State::init());
}

#[test]
fn chunk_len_counts_what_str_as_array_vec_builds() {
    let n = ChunkLen::new().left_bracket().json_value(4).comma().json_value(1).right_bracket().len();
    assert_eq!(n, 8);
    let v = StrAsArrayVec::<8>::new()
        .left_bracket()
        .json_value(cjson::texts::Value::new_without_validation("true"))
        .comma()
        .json_value(cjson::texts::Value::new_without_validation("1"))
        .right_bracket();
    assert_eq!(v.len(), n);
    assert_eq!(v.as_str(), "[true,1]");
}

#[test]
fn empty_array_and_object_texts() {
    assert_eq!(cjson::compile_time::EmptyArray.as_json_value_str().inner(), "[]");
    assert_eq!(cjson::compile_time::EmptyObject.as_json_value_str().inner(), "{}");
}

#[test]
fn chunk_len_counts_an_object_with_a_string_key() {
    let n = ChunkLen::new()
        .left_brace()
        .double_quote()
        .json_string_fragment(2)
        .double_quote()
        .colon()
        .left_bracket()
        .json_value(1)
        .comma()
        .json_value(2)
        .right_bracket()
        .right_brace()
        .len();
    let v = StrAsArrayVec::<13>::new()
        .left_brace()
        .double_quote()
        .json_string_fragments(b"ab")
        .double_quote()
        .colon()
        .left_bracket()
        .json_value(cjson::texts::Value::new_without_validation("1"))
        .comma()
        .json_value(cjson::texts::Value::new_without_validation("22"))
        .right_bracket()
        .right_brace();
    assert_eq!(v.as_str(), "{\"ab\":[1,22]}");
    assert_eq!(v.len(), n);
    assert_eq!(n, 13);
}
