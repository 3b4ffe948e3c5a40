//! Chunks whose text and states are fixed by their type, and the JSON values
//! built from them.
use vstd::prelude::*;
use vstd::string::StringSliceAdditionalSpecFns;
use core::marker::PhantomData;
use crate::chunk::{StatedChunkStr, surrounding_group, is_group_open, is_group_close, state_before_close,
    state_after_open, ungrouped_states};
use crate::state::{State, StateView, spec_after_array_start, spec_after_array_item,
    spec_after_object_start, spec_after_object_field_value, spec_in_string,
    spec_json_value, spec_double_quote, spec_left_bracket, spec_left_brace,
    spec_json_items_after_item, spec_json_items_after_array_start_before_item,
    spec_json_kvs_after_field_value, spec_json_kvs_after_object_start_before_kv,
    spec_json_string_fragment};
use crate::texts;
use crate::texts::is_json_value;
use crate::utf8::str_from_utf8;
use vstd::utf8::valid_utf8;

verus! {

/// A type that stands for a chunk of JSON text known before the program runs.
pub trait HasConstCompileTimeChunk {
    /// The state the chunk starts in.
    spec fn spec_prev() -> StateView;

    /// The state the chunk ends in.
    spec fn spec_next() -> StateView;

    /// The text of the chunk.
    spec fn spec_text() -> Seq<u8>;

    /// The chunk itself.
    fn chunk() -> (r: StatedChunkStr<'static>)
        ensures
            r.wf(),
            r.spec_prev() == Self::spec_prev(),
            r.spec_next() == Self::spec_next(),
            r.spec_text() == Self::spec_text(),
    ;
}

/// A type that stands for a state known before the program runs.
pub trait HasConstState {
    spec fn spec_state() -> StateView;

    /// The state itself.
    fn state() -> (r: State)
        ensures
            r.wf(),
            r@ == Self::spec_state(),
    ;
}

/// A type that stands for a whole JSON value known before the program runs.
pub trait HasConstJsonValue {
    spec fn spec_json_value() -> Seq<u8>;

    /// The value itself.
    fn json_value() -> (r: texts::Value<'static>)
        ensures
            r.wf(),
            r@ == Self::spec_json_value(),
    ;
}

/// A value type known to be an array: its text starts with `[` and ends
/// with `]`.
pub trait HasConstJsonArray: HasConstJsonValue {
    proof fn lemma_is_array()
        ensures
            Self::spec_json_value().len() >= 2,
            Self::spec_json_value()[0] == 91,
            Self::spec_json_value().last() == 93,
    ;
}

/// The compile-time chunk of `T`.
pub struct CompileTimeChunk<T: HasConstCompileTimeChunk>(PhantomData<T>);

impl<T: HasConstCompileTimeChunk> CompileTimeChunk<T> {
    /// The chunk of `T`.
    pub fn new() -> (r: Self) {
        CompileTimeChunk(PhantomData)
    }
}

/// A chunk known when the program runs, with its states known before.
pub trait RuntimeChunk {
    /// The state it starts in.
    spec fn spec_prev_state() -> StateView;

    /// The state it ends in.
    spec fn spec_next_state() -> StateView;

    /// The parts of the chunk meet: each ends in the state the next starts in.
    spec fn spec_consistent() -> bool;

    fn prev_state() -> (r: State)
        requires
            Self::spec_consistent(),
        ensures
            r.wf(),
            r@ == Self::spec_prev_state(),
    ;

    fn next_state() -> (r: State)
        requires
            Self::spec_consistent(),
        ensures
            r.wf(),
            r@ == Self::spec_next_state(),
    ;
}

impl<T: HasConstCompileTimeChunk> RuntimeChunk for CompileTimeChunk<T> {
    open spec fn spec_prev_state() -> StateView {
        T::spec_prev()
    }

    open spec fn spec_next_state() -> StateView {
        T::spec_next()
    }

    open spec fn spec_consistent() -> bool {
        true
    }

    fn prev_state() -> (r: State) {
        T::chunk().into_prev_state()
    }

    fn next_state() -> (r: State) {
        T::chunk().into_next_state()
    }
}

/// Two chunks, one after the other.
pub struct ChunkConcat<A: RuntimeChunk, B: RuntimeChunk>(pub A, pub B);

impl<A: RuntimeChunk, B: RuntimeChunk> RuntimeChunk for ChunkConcat<A, B> {
    open spec fn spec_prev_state() -> StateView {
        A::spec_prev_state()
    }

    open spec fn spec_next_state() -> StateView {
        B::spec_next_state()
    }

    /// The first chunk ends in the state the second starts in.
    open spec fn spec_consistent() -> bool {
        A::spec_consistent() && B::spec_consistent() && A::spec_next_state()
            == B::spec_prev_state()
    }

    fn prev_state() -> (r: State) {
        A::prev_state()
    }

    fn next_state() -> (r: State) {
        B::next_state()
    }
}

/// A chunk that starts with compile-time text, so that the byte opening its
/// top-level group can be taken off.
pub trait RuntimeChunkStartingWithCompileTime: RuntimeChunk {
    /// The state the chunk starts in once its opening byte is taken off;
    /// none when it does not start with such a byte in the initial state.
    spec fn spec_prev_state_remove_group_open() -> Option<StateView>;
}

/// A chunk that ends with compile-time text, so that the byte closing its
/// top-level group can be taken off.
pub trait RuntimeChunkEndingWithCompileTime: RuntimeChunk {
    /// The state the chunk ends in once its closing byte is taken off;
    /// none when it does not end a value with such a byte.
    spec fn spec_next_state_remove_group_close() -> Option<StateView>;
}

/// A chunk that is a whole array, object or string with compile-time text
/// at both ends.
pub trait RuntimeChunkSurroundedWithCompileTime: RuntimeChunk {
    /// The states around what stands between the opening and closing bytes;
    /// none when the chunk is not a whole array, object or string.
    spec fn spec_ungrouped_states() -> Option<(StateView, StateView)>;
}

impl<T: HasConstCompileTimeChunk> RuntimeChunkStartingWithCompileTime for CompileTimeChunk<T> {
    /// The state right after the byte that opens the value.
    open spec fn spec_prev_state_remove_group_open() -> Option<StateView> {
        if T::spec_prev() is Init && T::spec_text().len() >= 1 && is_group_open(T::spec_text()[0]) {
            Some(state_after_open(T::spec_text()[0]))
        } else {
            None
        }
    }
}

impl<T: HasConstCompileTimeChunk> RuntimeChunkEndingWithCompileTime for CompileTimeChunk<T> {
    /// The state right before the byte that closes the value.
    open spec fn spec_next_state_remove_group_close() -> Option<StateView> {
        if T::spec_next() is Eof && T::spec_text().len() >= 1 && is_group_close(T::spec_text().last()) {
            state_before_close(T::spec_prev(), T::spec_text().drop_last(), T::spec_text().last())
        } else {
            None
        }
    }
}

impl<T: HasConstCompileTimeChunk> RuntimeChunkSurroundedWithCompileTime for CompileTimeChunk<T> {
    /// The states inside the bytes around the value, for a chunk from the
    /// initial state to the end of a whole array, object or string.
    open spec fn spec_ungrouped_states() -> Option<(StateView, StateView)> {
        if T::spec_prev() is Init && T::spec_next() is Eof && surrounding_group(T::spec_text()) is Some {
            Some(ungrouped_states(T::spec_text()[0], T::spec_text().len() == 2))
        } else {
            None
        }
    }
}

impl<A: RuntimeChunkStartingWithCompileTime, B: RuntimeChunk> RuntimeChunkStartingWithCompileTime for ChunkConcat<A, B> {
    /// The first chunk holds the opening byte.
    open spec fn spec_prev_state_remove_group_open() -> Option<StateView> {
        A::spec_prev_state_remove_group_open()
    }
}

impl<A: RuntimeChunk, B: RuntimeChunkEndingWithCompileTime> RuntimeChunkEndingWithCompileTime for ChunkConcat<A, B> {
    /// The second chunk holds the closing byte.
    open spec fn spec_next_state_remove_group_close() -> Option<StateView> {
        B::spec_next_state_remove_group_close()
    }
}

impl<A: RuntimeChunkStartingWithCompileTime, B: RuntimeChunkEndingWithCompileTime> RuntimeChunkSurroundedWithCompileTime for ChunkConcat<A, B> {
    /// From after the opening byte of the first chunk to before the closing
    /// byte of the second.
    open spec fn spec_ungrouped_states() -> Option<(StateView, StateView)> {
        match (A::spec_prev_state_remove_group_open(), B::spec_next_state_remove_group_close()) {
            (Some(a), Some(b)) => if A::spec_next_state() == B::spec_prev_state() {
                Some((a, b))
            } else {
                None
            },
            _ => None,
        }
    }
}

/// Text chunks whose first byte (the group opening) is still to be taken off.
pub trait TextChunksReadyToRemoveGroupOpen {
}

/// Text chunks whose last byte (the group closing) is still to be taken off.
pub trait TextChunksReadyToRemoveGroupClose {
}

/// Text chunks whose first and last bytes are still to be taken off.
pub trait TextChunksReadyToUngroup {
}

/// The chunk of `T` without the bytes around its whole value.
pub struct ConstRemoveSurroundingGroup<T: HasConstCompileTimeChunk>(PhantomData<T>);

/// The chunk of `T` without the byte that opens its value.
pub struct ConstRemoveGroupOpen<T: HasConstCompileTimeChunk>(PhantomData<T>);

/// The chunk of `T` without the byte that closes its value.
pub struct ConstRemoveGroupClose<T: HasConstCompileTimeChunk>(PhantomData<T>);

impl<T: HasConstCompileTimeChunk> ConstRemoveSurroundingGroup<T> {
    /// The chunk between the surrounding bytes.
    pub fn chunk() -> (r: StatedChunkStr<'static>)
        requires
            T::spec_prev() is Init,
            T::spec_next() is Eof,
            surrounding_group(T::spec_text()) is Some,
        ensures
            r.wf(),
            r.spec_text() == T::spec_text().subrange(1, T::spec_text().len() - 1),
    {
        T::chunk().remove_surrounding_group()
    }
}

impl<T: HasConstCompileTimeChunk> ConstRemoveGroupOpen<T> {
    /// The chunk after its opening byte.
    pub fn chunk() -> (r: StatedChunkStr<'static>)
        requires
            T::spec_prev() is Init,
            T::spec_text().len() >= 1,
            is_group_open(T::spec_text()[0]),
        ensures
            r.wf(),
            r.spec_text() == T::spec_text().subrange(1, T::spec_text().len() as int),
            r.spec_next() == T::spec_next(),
    {
        T::chunk().remove_group_open()
    }
}

impl<T: HasConstCompileTimeChunk> ConstRemoveGroupClose<T> {
    /// The chunk before its closing byte.
    pub fn chunk() -> (r: StatedChunkStr<'static>)
        requires
            T::spec_next() is Eof,
            T::spec_text().len() >= 1,
            is_group_close(T::spec_text().last()),
            state_before_close(T::spec_prev(), T::spec_text().drop_last(), T::spec_text().last())
                is Some,
        ensures
            r.wf(),
            r.spec_text() == T::spec_text().drop_last(),
            r.spec_prev() == T::spec_prev(),
    {
        T::chunk().remove_group_close()
    }
}

/// A chunk that is a whole JSON value: it starts in the initial state and
/// ends past a value.
pub struct Value<C: RuntimeChunk>(C);

impl<C: RuntimeChunk> Value<C> {
    /// Wraps a chunk that starts in the initial state and ends a value.
    pub fn new(chunk: C) -> (r: Self)
        requires
            C::spec_prev_state() is Init,
            C::spec_next_state() is Eof,
        ensures
            r.spec_inner() == chunk,
    {
        Value(chunk)
    }

    pub closed spec fn spec_inner(&self) -> C {
        self.0
    }

    /// The chunk.
    pub fn inner(&self) -> (r: &C)
        ensures
            *r == self.spec_inner(),
    {
        &self.0
    }
}

impl<T: HasConstCompileTimeChunk> Value<CompileTimeChunk<T>> {
    /// The text of the value, when it is a whole JSON value.
    pub fn as_json_value_str(self) -> (r: texts::Value<'static>)
        requires
            is_json_value(T::spec_text()),
        ensures
            r@ == T::spec_text(),
            r.wf(),
    {
        texts::Value::new_without_validation(T::chunk().into_inner())
    }
}

/// The text chunks of a whole value.
pub struct ValueSer<'a, C: RuntimeChunk>(pub &'a Value<C>);

/// A chunk that is a whole JSON string.
pub struct JsonString<C: RuntimeChunk>(Value<C>);

impl<C: RuntimeChunkSurroundedWithCompileTime> JsonString<C> {
    /// Wraps a whole value whose content stands inside a string.
    pub fn new(chunk: Value<C>) -> (r: Self)
        requires
            C::spec_ungrouped_states() == Some((spec_in_string(), spec_in_string())),
        ensures
            r.spec_value() == chunk,
    {
        JsonString(chunk)
    }

    /// The whole value.
    pub closed spec fn spec_value(&self) -> Value<C> {
        self.0
    }
}

impl<T: HasConstCompileTimeChunk> JsonString<CompileTimeChunk<T>> {
    /// The text of the string, when it is a whole JSON value.
    pub fn as_json_value_str(self) -> (r: texts::Value<'static>)
        requires
            is_json_value(T::spec_text()),
        ensures
            r@ == T::spec_text(),
            r.wf(),
    {
        self.0.as_json_value_str()
    }
}

/// The text chunks of a whole string.
pub struct JsonStringSer<S: TextChunksReadyToUngroup>(pub S);

/// `[]`.
#[derive(Debug, Clone, Copy)]
pub struct EmptyArray;

/// `{}`.
#[derive(Debug, Clone, Copy)]
pub struct EmptyObject;

impl EmptyArray {
    /// The text `[]`.
    pub fn as_json_value_str(self) -> (r: texts::Value<'static>)
        ensures
            r@ == seq![91u8, 93u8],
            r.wf(),
    {
        let text: &'static str = "[]";
        proof {
            reveal_strlit("[]");
            vstd::string::is_ascii_spec_bytes(text);
            assert(vstd::string::is_ascii(text));
            assert(text.spec_bytes() =~= seq![91u8, 93u8]);
            crate::laws::lemma_empty_group_is_json_value(seq![91u8, 93u8]);
        }
        texts::Value::new_without_validation(text)
    }
}

impl EmptyObject {
    /// The text `{}`.
    pub fn as_json_value_str(self) -> (r: texts::Value<'static>)
        ensures
            r@ == seq![123u8, 125u8],
            r.wf(),
    {
        let text: &'static str = "{}";
        proof {
            reveal_strlit("{}");
            vstd::string::is_ascii_spec_bytes(text);
            assert(vstd::string::is_ascii(text));
            assert(text.spec_bytes() =~= seq![123u8, 125u8]);
            crate::laws::lemma_empty_group_is_json_value(seq![123u8, 125u8]);
        }
        texts::Value::new_without_validation(text)
    }
}

/// A chunk that is a whole array with at least one item.
pub struct NonEmptyArray<C: RuntimeChunk>(Value<C>);

impl<C: RuntimeChunkSurroundedWithCompileTime> NonEmptyArray<C> {
    /// Wraps a whole value whose content is one or more array items.
    pub fn new(chunk: Value<C>) -> (r: Self)
        requires
            C::spec_ungrouped_states() == Some((spec_after_array_start(), spec_after_array_item())),
        ensures
            r.spec_value() == chunk,
    {
        NonEmptyArray(chunk)
    }

    /// The whole value.
    pub closed spec fn spec_value(&self) -> Value<C> {
        self.0
    }
}

impl<T: HasConstCompileTimeChunk> NonEmptyArray<CompileTimeChunk<T>> {
    /// The text of the array, when it is a whole JSON value.
    pub fn as_json_value_str(self) -> (r: texts::Value<'static>)
        requires
            is_json_value(T::spec_text()),
        ensures
            r@ == T::spec_text(),
            r.wf(),
    {
        self.0.as_json_value_str()
    }
}

/// The text chunks of a non-empty array.
pub struct NonEmptyArraySer<ARR: TextChunksReadyToUngroup>(pub ARR);

/// A chunk that is a whole object with at least one field.
pub struct NonEmptyObject<C: RuntimeChunk>(Value<C>);

impl<C: RuntimeChunkSurroundedWithCompileTime> NonEmptyObject<C> {
    /// Wraps a whole value whose content is one or more object fields.
    pub fn new(chunk: Value<C>) -> (r: Self)
        requires
            C::spec_ungrouped_states() == Some((spec_after_object_start(), spec_after_object_field_value())),
        ensures
            r.spec_value() == chunk,
    {
        NonEmptyObject(chunk)
    }

    /// The whole value.
    pub closed spec fn spec_value(&self) -> Value<C> {
        self.0
    }
}

impl<T: HasConstCompileTimeChunk> NonEmptyObject<CompileTimeChunk<T>> {
    /// The text of the object, when it is a whole JSON value.
    pub fn as_json_value_str(self) -> (r: texts::Value<'static>)
        requires
            is_json_value(T::spec_text()),
        ensures
            r@ == T::spec_text(),
            r.wf(),
    {
        self.0.as_json_value_str()
    }
}

/// The text chunks of a non-empty object.
pub struct NonEmptyObjectSer<OBJ: TextChunksReadyToUngroup>(pub OBJ);

/// The whole value that the compile-time chunk of `T` is.
pub struct CompileTimeChunkIsJsonValue<T: HasConstCompileTimeChunk>(PhantomData<T>);

/// The value of type `T` that is known before the program runs.
pub struct ConstJsonValue<T: HasConstJsonValue>(PhantomData<T>);

impl<T: HasConstJsonValue> ConstJsonValue<T> {
    /// The value of `T`.
    pub fn new() -> (r: Self) {
        ConstJsonValue(PhantomData)
    }

    /// The text of the value.
    pub fn as_json_value_str(self) -> (r: texts::Value<'static>)
        ensures
            r.wf(),
            r@ == T::spec_json_value(),
    {
        T::json_value()
    }
}

/// The items of the array value of `T`: its text without `[` and `]`.
pub struct ConstNonEmptyItems<T: HasConstJsonArray>(PhantomData<T>);

/// No state is known yet: the initial state.
pub struct Init;

impl HasConstState for Init {
    open spec fn spec_state() -> StateView {
        StateView::Init
    }

    fn state() -> (r: State) {
        State::init()
    }
}

/// The state the compile-time chunk of `T` ends in.
pub struct NextStateOf<T: HasConstCompileTimeChunk>(PhantomData<T>);

impl<T: HasConstCompileTimeChunk> HasConstState for NextStateOf<T> {
    open spec fn spec_state() -> StateView {
        T::spec_next()
    }

    fn state() -> (r: State) {
        T::chunk().into_next_state()
    }
}


/// The text of a whole JSON value, known before the program runs, as
/// `LEN` bytes.
pub struct JsonValueArrayStr<const LEN: usize>([u8; LEN]);

impl<const LEN: usize> JsonValueArrayStr<LEN> {
    pub closed spec fn spec_bytes(&self) -> Seq<u8> {
        self.0@
    }

    /// The bytes are UTF-8 and a whole JSON value.
    pub closed spec fn wf(&self) -> bool {
        valid_utf8(self.0@) && is_json_value(self.0@)
    }

    /// The bytes.
    pub fn as_bytes(&self) -> (r: &[u8])
        ensures
            r@ == self.spec_bytes(),
    {
        &self.0
    }

    /// Wraps bytes that the caller knows to be UTF-8 and a whole JSON
    /// value.
    pub fn new_without_validation(bytes: [u8; LEN]) -> (r: Self)
        requires
            valid_utf8(bytes@),
            is_json_value(bytes@),
        ensures
            r.wf(),
            r.spec_bytes() == bytes@,
    {
        JsonValueArrayStr(bytes)
    }
}

/// A value whose JSON text is known before the program runs.
pub struct ConstAsJsonValueStr<T>(pub T);

impl<const LEN: usize> ConstAsJsonValueStr<JsonValueArrayStr<LEN>> {
    /// The text of the value.
    pub fn const_as_json_value_str(&self) -> (r: texts::Value<'_>)
        requires
            self.0.wf(),
        ensures
            r.wf(),
            r@ == self.0.spec_bytes(),
    {
        let s = str_from_utf8(self.0.as_bytes()).unwrap();
        texts::Value::new_without_validation(s)
    }
}
} // verus!
