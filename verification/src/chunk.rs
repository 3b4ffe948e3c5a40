//! Chunks of JSON text together with the state they start and end in: the
//! length counter, the fixed-capacity buffers that grow a chunk token by
//! token, and borrowed chunks.
use vstd::prelude::*;
use vstd::utf8::*;
use vstd::string::StringSliceAdditionalSpecFns;
use crate::state::{
    State, StateView, spec_json_value, spec_double_quote, spec_json_string_fragment, spec_comma,
    spec_colon, spec_left_bracket, spec_right_bracket, spec_left_brace, spec_right_brace,
    spec_after_array_start, spec_after_array_item, spec_after_object_start,
    spec_after_object_field_value, spec_in_string,
};
use crate::texts;
use crate::state::deserializer::{spec_parse_till_eof, ScanError};
use crate::laws::{needs_value, law_ungrouped_states_agree_with_scan, law_group_close_state_agrees_with_scan};
use crate::utf8::{
    is_ascii_bytes, lemma_valid_utf8_concat, lemma_ascii_valid_utf8, lemma_str_valid_utf8,
    str_from_utf8,
};

verus! {


/// Counts the bytes of a chunk token by token, without keeping them.
pub struct ChunkLen(usize);

impl View for ChunkLen {
    type V = nat;

    closed spec fn view(&self) -> nat {
        self.0 as nat
    }
}

impl ChunkLen {
    /// No bytes yet.
    pub fn new() -> (r: Self)
        ensures
            r@ == 0,
    {
        ChunkLen(0)
    }

    /// The number of bytes counted.
    pub fn len(self) -> (r: usize)
        ensures
            r == self@,
    {
        self.0
    }

    fn one_more(self) -> (r: Self)
        requires
            self@ < usize::MAX,
        ensures
            r@ == self@ + 1,
    {
        ChunkLen(self.0 + 1)
    }

    /// Counts a `[`.
    pub fn left_bracket(self) -> (r: Self)
        requires
            self@ < usize::MAX,
        ensures
            r@ == self@ + 1,
            r@ == counted_len(self@, seq![ChunkOp::LeftBracket]),
    {
        proof {
            broadcast use group_chunk_steps;
        }
        self.one_more()
    }

    /// Counts a `]`.
    pub fn right_bracket(self) -> (r: Self)
        requires
            self@ < usize::MAX,
        ensures
            r@ == self@ + 1,
            r@ == counted_len(self@, seq![ChunkOp::RightBracket]),
    {
        proof {
            broadcast use group_chunk_steps;
        }
        self.one_more()
    }

    /// Counts a `{`.
    pub fn left_brace(self) -> (r: Self)
        requires
            self@ < usize::MAX,
        ensures
            r@ == self@ + 1,
            r@ == counted_len(self@, seq![ChunkOp::LeftBrace]),
    {
        proof {
            broadcast use group_chunk_steps;
        }
        self.one_more()
    }

    /// Counts a `}`.
    pub fn right_brace(self) -> (r: Self)
        requires
            self@ < usize::MAX,
        ensures
            r@ == self@ + 1,
            r@ == counted_len(self@, seq![ChunkOp::RightBrace]),
    {
        proof {
            broadcast use group_chunk_steps;
        }
        self.one_more()
    }

    /// Counts a `,`.
    pub fn comma(self) -> (r: Self)
        requires
            self@ < usize::MAX,
        ensures
            r@ == self@ + 1,
            r@ == counted_len(self@, seq![ChunkOp::Comma]),
    {
        proof {
            broadcast use group_chunk_steps;
        }
        self.one_more()
    }

    /// Counts a `:`.
    pub fn colon(self) -> (r: Self)
        requires
            self@ < usize::MAX,
        ensures
            r@ == self@ + 1,
            r@ == counted_len(self@, seq![ChunkOp::Colon]),
    {
        proof {
            broadcast use group_chunk_steps;
        }
        self.one_more()
    }

    /// Counts a `"`.
    pub fn double_quote(self) -> (r: Self)
        requires
            self@ < usize::MAX,
        ensures
            r@ == self@ + 1,
            r@ == counted_len(self@, seq![ChunkOp::DoubleQuote]),
    {
        proof {
            broadcast use group_chunk_steps;
        }
        self.one_more()
    }

    /// Counts a JSON value of `len` bytes; a value is never empty.
    pub fn json_value(self, len: usize) -> (r: Self)
        requires
            len > 0,
            self@ + len <= usize::MAX,
        ensures
            r@ == self@ + len,
            forall|v: Seq<u8>| v.len() == len ==> r@ == #[trigger] counted_len(self@, seq![ChunkOp::JsonValue(v)]),
    {
        proof {
            broadcast use group_chunk_steps;
        }
        ChunkLen(self.0 + len)
    }

    /// Counts a value whose length is only known as the capacity `cap`,
    /// which must not be 0.
    pub fn json_value_generic_const(self, cap: usize) -> (r: Self)
        requires
            cap > 0,
            self@ + cap <= usize::MAX,
        ensures
            r@ == self@ + cap,
    {
        self.json_value(cap)
    }

    /// Counts `len` bytes inside a string.
    pub fn json_string_fragment(self, len: usize) -> (r: Self)
        requires
            self@ + len <= usize::MAX,
        ensures
            r@ == self@ + len,
            forall|f: Seq<u8>| f.len() == len ==> r@ == #[trigger] counted_len(self@, seq![ChunkOp::JsonStringFragment(f)]),
    {
        proof {
            broadcast use group_chunk_steps;
        }
        ChunkLen(self.0 + len)
    }
}

/// One step of building a chunk: a punctuation byte, or a JSON value or a
/// piece of a string given by its bytes.
pub enum ChunkOp {
    LeftBracket,
    RightBracket,
    LeftBrace,
    RightBrace,
    Comma,
    Colon,
    DoubleQuote,
    JsonValue(Seq<u8>),
    JsonStringFragment(Seq<u8>),
}

/// The bytes one step appends, as `StrAsArrayVec`'s methods append them.
pub open spec fn op_bytes(op: ChunkOp) -> Seq<u8> {
    match op {
        ChunkOp::LeftBracket => seq![91u8],
        ChunkOp::RightBracket => seq![93u8],
        ChunkOp::LeftBrace => seq![123u8],
        ChunkOp::RightBrace => seq![125u8],
        ChunkOp::Comma => seq![44u8],
        ChunkOp::Colon => seq![58u8],
        ChunkOp::DoubleQuote => seq![34u8],
        ChunkOp::JsonValue(v) => v,
        ChunkOp::JsonStringFragment(f) => f,
    }
}

/// How much one step adds to the count, as `ChunkLen`'s methods count it:
/// one for a punctuation byte, the given length for a value or a piece.
pub open spec fn op_count(op: ChunkOp) -> nat {
    match op {
        ChunkOp::JsonValue(v) => v.len(),
        ChunkOp::JsonStringFragment(f) => f.len(),
        _ => 1,
    }
}

/// The text after the steps, from `b`.
pub open spec fn built_bytes(b: Seq<u8>, ops: Seq<ChunkOp>) -> Seq<u8>
    decreases ops.len(),
{
    if ops.len() == 0 {
        b
    } else {
        built_bytes(b, ops.drop_last()) + op_bytes(ops.last())
    }
}

/// The count after the steps, from `n`.
pub open spec fn counted_len(n: nat, ops: Seq<ChunkOp>) -> nat
    decreases ops.len(),
{
    if ops.len() == 0 {
        n
    } else {
        counted_len(n, ops.drop_last()) + op_count(ops.last())
    }
}

/// One step adds its count.
pub broadcast proof fn lemma_count_one_step(n: nat, op: ChunkOp)
    ensures
        #[trigger] counted_len(n, seq![op]) == n + op_count(op),
{
    let s = seq![op];
    assert(s.drop_last() =~= Seq::<ChunkOp>::empty());
    assert(s.last() == op);
    assert(counted_len(n, s.drop_last()) == n);
}

/// One step appends its bytes.
pub broadcast proof fn lemma_build_one_step(b: Seq<u8>, op: ChunkOp)
    ensures
        #[trigger] built_bytes(b, seq![op]) == b + op_bytes(op),
{
    let s = seq![op];
    assert(s.drop_last() =~= Seq::<ChunkOp>::empty());
    assert(s.last() == op);
    assert(built_bytes(b, s.drop_last()) == b);
}

broadcast group group_chunk_steps {
    lemma_count_one_step,
    lemma_build_one_step,
}


/// Text of at most `CAP` bytes that grows at its end.
pub struct StrAsArrayVec<const CAP: usize> {
    buf: Vec<u8>,
}

impl<const CAP: usize> View for StrAsArrayVec<CAP> {
    type V = Seq<u8>;

    closed spec fn view(&self) -> Seq<u8> {
        self.buf@
    }
}

impl<const CAP: usize> StrAsArrayVec<CAP> {
    /// At most `CAP` bytes, and valid UTF-8.
    pub closed spec fn wf(self) -> bool {
        self.buf@.len() <= CAP && valid_utf8(self.buf@)
    }

    /// No bytes yet.
    pub fn new() -> (r: Self)
        ensures
            r@ == Seq::<u8>::empty(),
            r.wf(),
    {
        StrAsArrayVec { buf: Vec::new() }
    }

    fn with_byte(self, b: u8) -> (r: Self)
        requires
            self.wf(),
            self@.len() < CAP,
            b < 0x80,
        ensures
            r.wf(),
            r@ == self@.push(b),
    {
        let mut this = self;
        proof {
            lemma_ascii_valid_utf8(seq![b]);
            lemma_valid_utf8_concat(this.buf@, seq![b]);
            assert(this.buf@ + seq![b] == this.buf@.push(b));
        }
        this.buf.push(b);
        this
    }

    /// Appends `[`.
    pub fn left_bracket(self) -> (r: Self)
        requires
            self.wf(),
            self@.len() < CAP,
        ensures
            r.wf(),
            r@ == self@.push(91u8),
            r@ == built_bytes(self@, seq![ChunkOp::LeftBracket]),
    {
        proof {
            broadcast use group_chunk_steps;
        }
        self.with_byte(91u8)
    }

    /// Appends `]`.
    pub fn right_bracket(self) -> (r: Self)
        requires
            self.wf(),
            self@.len() < CAP,
        ensures
            r.wf(),
            r@ == self@.push(93u8),
            r@ == built_bytes(self@, seq![ChunkOp::RightBracket]),
    {
        proof {
            broadcast use group_chunk_steps;
        }
        self.with_byte(93u8)
    }

    /// Appends `{`.
    pub fn left_brace(self) -> (r: Self)
        requires
            self.wf(),
            self@.len() < CAP,
        ensures
            r.wf(),
            r@ == self@.push(123u8),
            r@ == built_bytes(self@, seq![ChunkOp::LeftBrace]),
    {
        proof {
            broadcast use group_chunk_steps;
        }
        self.with_byte(123u8)
    }

    /// Appends `}`.
    pub fn right_brace(self) -> (r: Self)
        requires
            self.wf(),
            self@.len() < CAP,
        ensures
            r.wf(),
            r@ == self@.push(125u8),
            r@ == built_bytes(self@, seq![ChunkOp::RightBrace]),
    {
        proof {
            broadcast use group_chunk_steps;
        }
        self.with_byte(125u8)
    }

    /// Appends `,`.
    pub fn comma(self) -> (r: Self)
        requires
            self.wf(),
            self@.len() < CAP,
        ensures
            r.wf(),
            r@ == self@.push(44u8),
            r@ == built_bytes(self@, seq![ChunkOp::Comma]),
    {
        proof {
            broadcast use group_chunk_steps;
        }
        self.with_byte(44u8)
    }

    /// Appends `:`.
    pub fn colon(self) -> (r: Self)
        requires
            self.wf(),
            self@.len() < CAP,
        ensures
            r.wf(),
            r@ == self@.push(58u8),
            r@ == built_bytes(self@, seq![ChunkOp::Colon]),
    {
        proof {
            broadcast use group_chunk_steps;
        }
        self.with_byte(58u8)
    }

    /// Appends `"`.
    pub fn double_quote(self) -> (r: Self)
        requires
            self.wf(),
            self@.len() < CAP,
        ensures
            r.wf(),
            r@ == self@.push(34u8),
            r@ == built_bytes(self@, seq![ChunkOp::DoubleQuote]),
    {
        proof {
            broadcast use group_chunk_steps;
        }
        self.with_byte(34u8)
    }

    fn with_bytes(self, bytes: &[u8]) -> (r: Self)
        requires
            self.wf(),
            self@.len() + bytes@.len() <= CAP,
            valid_utf8(bytes@),
        ensures
            r.wf(),
            r@ == self@ + bytes@,
    {
        let mut this = self;
        let ghost start = this.buf@;
        let mut i: usize = 0;
        while i < bytes.len()
            invariant
                i <= bytes@.len(),
                this.buf@ == start + bytes@.subrange(0, i as int),
            decreases bytes@.len() - i,
        {
            this.buf.push(bytes[i]);
            i = i + 1;
            proof {
                assert(bytes@.subrange(0, i as int) == bytes@.subrange(0, i - 1).push(
                    bytes@[i - 1],
                ));
            }
        }
        proof {
            assert(bytes@.subrange(0, bytes@.len() as int) == bytes@);
            lemma_valid_utf8_concat(start, bytes@);
        }
        this
    }

    fn with_str(self, s: &str) -> (r: Self)
        requires
            self.wf(),
            self@.len() + s.spec_bytes().len() <= CAP,
        ensures
            r.wf(),
            r@ == self@ + s.spec_bytes(),
    {
        proof {
            lemma_str_valid_utf8(s);
        }
        self.with_bytes(s.as_bytes())
    }

    /// Appends a whole JSON value.
    pub fn json_value(self, value: texts::Value<'_>) -> (r: Self)
        requires
            self.wf(),
            self@.len() + value@.len() <= CAP,
        ensures
            r.wf(),
            r@ == self@ + value@,
            r@ == built_bytes(self@, seq![ChunkOp::JsonValue(value@)]),
    {
        proof {
            broadcast use group_chunk_steps;
        }
        self.with_str(value.inner())
    }

    /// Appends text that stands inside a string; it must be valid UTF-8.
    pub fn json_string_fragments(self, chunk: &[u8]) -> (r: Self)
        requires
            self.wf(),
            self@.len() + chunk@.len() <= CAP,
            valid_utf8(chunk@),
        ensures
            r.wf(),
            r@ == self@ + chunk@,
            r@ == built_bytes(self@, seq![ChunkOp::JsonStringFragment(chunk@)]),
    {
        proof {
            broadcast use group_chunk_steps;
        }
        self.with_bytes(chunk)
    }

    /// The text, which must fill the whole capacity.
    pub fn assert_len_is_cap(self) -> (r: StrAsArray<CAP>)
        requires
            self.wf(),
            self@.len() == CAP,
        ensures
            r@ == self@,
            r.wf(),
    {
        StrAsArray::from_array_vec_assert_len_is_cap(self)
    }

    /// The text as a `&str`.
    pub fn as_str(&self) -> (r: &str)
        requires
            self.wf(),
        ensures
            r.spec_bytes() == self@,
    {
        str_from_utf8(self.buf.as_slice()).unwrap()
    }

    /// The number of bytes.
    pub fn len(&self) -> (r: usize)
        ensures
            r == self@.len(),
    {
        self.buf.len()
    }

    /// The whole buffer of `CAP` bytes: the text, then zeros.
    pub fn into_buf(self) -> (r: Vec<u8>)
        requires
            self.wf(),
        ensures
            r@.len() == CAP,
            r@.subrange(0, self@.len() as int) == self@,
            forall|i: int| self@.len() <= i < CAP ==> r@[i] == 0,
    {
        let ghost text = self.buf@;
        let mut buf = self.buf;
        while buf.len() < CAP
            invariant
                text.len() <= buf@.len() <= CAP,
                buf@.subrange(0, text.len() as int) == text,
                forall|i: int| text.len() <= i < buf@.len() ==> buf@[i] == 0,
            decreases CAP - buf@.len(),
        {
            buf.push(0u8);
            proof {
                assert(buf@.subrange(0, text.len() as int) =~= text);
            }
        }
        buf
    }
}

/// Text of exactly `LEN` bytes.
pub struct StrAsArray<const LEN: usize>(Vec<u8>);

impl<const LEN: usize> View for StrAsArray<LEN> {
    type V = Seq<u8>;

    closed spec fn view(&self) -> Seq<u8> {
        self.0@
    }
}

impl<const LEN: usize> StrAsArray<LEN> {
    /// Exactly `LEN` bytes of valid UTF-8.
    pub closed spec fn wf(self) -> bool {
        self.0@.len() == LEN && valid_utf8(self.0@)
    }

    /// The text as a `&str`.
    pub fn as_str(&self) -> (r: &str)
        requires
            self.wf(),
        ensures
            r.spec_bytes() == self@,
    {
        str_from_utf8(self.0.as_slice()).unwrap()
    }

    /// Takes the text of a buffer that is full.
    pub fn from_array_vec_assert_len_is_cap(v: StrAsArrayVec<LEN>) -> (r: Self)
        requires
            v.wf(),
            v@.len() == LEN,
        ensures
            r@ == v@,
            r.wf(),
    {
        StrAsArray(v.buf)
    }
}


/// A chunk that grows token by token together with the state it ends in.
pub struct StatedChunkBuf<const CAP: usize> {
    prev_state: State,
    cur_state: State,
    buf: StrAsArrayVec<CAP>,
}

impl<const CAP: usize> StatedChunkBuf<CAP> {
    /// The state the chunk starts in.
    pub closed spec fn spec_prev(&self) -> StateView {
        self.prev_state@
    }

    /// The state the chunk ends in so far.
    pub closed spec fn spec_next(&self) -> StateView {
        self.cur_state@
    }

    /// The text so far.
    pub closed spec fn spec_text(&self) -> Seq<u8> {
        self.buf@
    }

    pub closed spec fn wf(&self) -> bool {
        self.prev_state.wf() && self.cur_state.wf() && self.buf.wf()
    }

    /// An empty chunk that starts (and so far ends) in `prev_state`.
    pub fn new(prev_state: State) -> (r: Self)
        requires
            prev_state.wf(),
        ensures
            r.wf(),
            r.spec_prev() == prev_state@,
            r.spec_next() == prev_state@,
            r.spec_text() == Seq::<u8>::empty(),
    {
        StatedChunkBuf {
            prev_state: prev_state.copied(),
            cur_state: prev_state,
            buf: StrAsArrayVec::new(),
        }
    }

    /// Appends `[`.
    pub fn left_bracket(self) -> (r: Self)
        requires
            self.wf(),
            spec_left_bracket(self.spec_next()) is Some,
            self.spec_text().len() < CAP,
        ensures
            r.wf(),
            r.spec_prev() == self.spec_prev(),
            r.spec_next() == spec_left_bracket(self.spec_next()).unwrap(),
            r.spec_text() == self.spec_text().push(91u8),
    {
        StatedChunkBuf {
            prev_state: self.prev_state,
            cur_state: self.cur_state.left_bracket(),
            buf: self.buf.left_bracket(),
        }
    }

    /// Appends `]`.
    pub fn right_bracket(self) -> (r: Self)
        requires
            self.wf(),
            spec_right_bracket(self.spec_next()) is Some,
            self.spec_text().len() < CAP,
        ensures
            r.wf(),
            r.spec_prev() == self.spec_prev(),
            r.spec_next() == spec_right_bracket(self.spec_next()).unwrap(),
            r.spec_text() == self.spec_text().push(93u8),
    {
        StatedChunkBuf {
            prev_state: self.prev_state,
            cur_state: self.cur_state.right_bracket(),
            buf: self.buf.right_bracket(),
        }
    }

    /// Appends `{`.
    pub fn left_brace(self) -> (r: Self)
        requires
            self.wf(),
            spec_left_brace(self.spec_next()) is Some,
            self.spec_text().len() < CAP,
        ensures
            r.wf(),
            r.spec_prev() == self.spec_prev(),
            r.spec_next() == spec_left_brace(self.spec_next()).unwrap(),
            r.spec_text() == self.spec_text().push(123u8),
    {
        StatedChunkBuf {
            prev_state: self.prev_state,
            cur_state: self.cur_state.left_brace(),
            buf: self.buf.left_brace(),
        }
    }

    /// Appends `}`.
    pub fn right_brace(self) -> (r: Self)
        requires
            self.wf(),
            spec_right_brace(self.spec_next()) is Some,
            self.spec_text().len() < CAP,
        ensures
            r.wf(),
            r.spec_prev() == self.spec_prev(),
            r.spec_next() == spec_right_brace(self.spec_next()).unwrap(),
            r.spec_text() == self.spec_text().push(125u8),
    {
        StatedChunkBuf {
            prev_state: self.prev_state,
            cur_state: self.cur_state.right_brace(),
            buf: self.buf.right_brace(),
        }
    }

    /// Appends `,`.
    pub fn comma(self) -> (r: Self)
        requires
            self.wf(),
            spec_comma(self.spec_next()) is Some,
            self.spec_text().len() < CAP,
        ensures
            r.wf(),
            r.spec_prev() == self.spec_prev(),
            r.spec_next() == spec_comma(self.spec_next()).unwrap(),
            r.spec_text() == self.spec_text().push(44u8),
    {
        StatedChunkBuf {
            prev_state: self.prev_state,
            cur_state: self.cur_state.comma(),
            buf: self.buf.comma(),
        }
    }

    /// Appends `:`.
    pub fn colon(self) -> (r: Self)
        requires
            self.wf(),
            spec_colon(self.spec_next()) is Some,
            self.spec_text().len() < CAP,
        ensures
            r.wf(),
            r.spec_prev() == self.spec_prev(),
            r.spec_next() == spec_colon(self.spec_next()).unwrap(),
            r.spec_text() == self.spec_text().push(58u8),
    {
        StatedChunkBuf {
            prev_state: self.prev_state,
            cur_state: self.cur_state.colon(),
            buf: self.buf.colon(),
        }
    }

    /// Appends a whole JSON value.
    pub fn json_value(self, value: texts::Value<'_>) -> (r: Self)
        requires
            self.wf(),
            spec_json_value(self.spec_next()) is Some,
            self.spec_text().len() + value@.len() <= CAP,
        ensures
            r.wf(),
            r.spec_prev() == self.spec_prev(),
            r.spec_next() == spec_json_value(self.spec_next()).unwrap(),
            r.spec_text() == self.spec_text() + value@,
    {
        StatedChunkBuf {
            prev_state: self.prev_state,
            cur_state: self.cur_state.json_value(),
            buf: self.buf.json_value(value),
        }
    }

    /// Appends `"`.
    pub fn double_quote(self) -> (r: Self)
        requires
            self.wf(),
            spec_double_quote(self.spec_next()) is Some,
            self.spec_text().len() < CAP,
        ensures
            r.wf(),
            r.spec_prev() == self.spec_prev(),
            r.spec_next() == spec_double_quote(self.spec_next()).unwrap(),
            r.spec_text() == self.spec_text().push(34u8),
    {
        StatedChunkBuf {
            prev_state: self.prev_state,
            cur_state: self.cur_state.double_quote(),
            buf: self.buf.double_quote(),
        }
    }

    /// Appends text inside a string; it must be valid UTF-8.
    pub fn json_string_fragments(self, chunk: &[u8]) -> (r: Self)
        requires
            self.wf(),
            spec_json_string_fragment(self.spec_next()) is Some,
            self.spec_text().len() + chunk@.len() <= CAP,
            valid_utf8(chunk@),
        ensures
            r.wf(),
            r.spec_prev() == self.spec_prev(),
            r.spec_next() == spec_json_string_fragment(self.spec_next()).unwrap(),
            r.spec_text() == self.spec_text() + chunk@,
    {
        StatedChunkBuf {
            prev_state: self.prev_state,
            cur_state: self.cur_state.json_string_fragment(),
            buf: self.buf.json_string_fragments(chunk),
        }
    }

    /// The chunk, which must fill the whole capacity.
    pub fn assert_len_is_cap(self) -> (r: StatedChunkString<CAP>)
        requires
            self.wf(),
            self.spec_text().len() == CAP,
        ensures
            r.wf(),
            r.spec_prev() == self.spec_prev(),
            r.spec_next() == self.spec_next(),
            r.spec_text() == self.spec_text(),
    {
        StatedChunkString::from_array_vec_assert_len_is_cap(self)
    }

    /// The chunk borrowed.
    pub fn as_str(&self) -> (r: StatedChunkStr<'_>)
        requires
            self.wf(),
        ensures
            r.wf(),
            r.spec_prev() == self.spec_prev(),
            r.spec_next() == self.spec_next(),
            r.spec_text() == self.spec_text(),
    {
        StatedChunkStr::from_ref_array_vec(self)
    }

    /// The state the chunk starts in.
    pub fn prev_state(&self) -> (r: &State)
        ensures
            r@ == self.spec_prev(),
            self.wf() ==> r.wf(),
    {
        &self.prev_state
    }

    /// The state the chunk ends in so far.
    pub fn next_state(&self) -> (r: &State)
        ensures
            r@ == self.spec_next(),
            self.wf() ==> r.wf(),
    {
        &self.cur_state
    }

    /// The text so far.
    pub fn inner(&self) -> (r: &StrAsArrayVec<CAP>)
        ensures
            r@ == self.spec_text(),
            self.wf() ==> r.wf(),
    {
        &self.buf
    }

    /// The text so far.
    pub fn into_inner(self) -> (r: StrAsArrayVec<CAP>)
        ensures
            r@ == self.spec_text(),
            self.wf() ==> r.wf(),
    {
        self.buf
    }

    /// The start state, the end state and the text.
    pub fn into_triple(self) -> (r: (State, State, StrAsArrayVec<CAP>))
        ensures
            r.0@ == self.spec_prev(),
            r.1@ == self.spec_next(),
            r.2@ == self.spec_text(),
            self.wf() ==> r.0.wf() && r.1.wf() && r.2.wf(),
    {
        (self.prev_state, self.cur_state, self.buf)
    }
}

/// A finished chunk of exactly `LEN` bytes with its start and end states.
pub struct StatedChunkString<const LEN: usize> {
    prev_state: State,
    next_state: State,
    chunk: StrAsArray<LEN>,
}

impl<const LEN: usize> StatedChunkString<LEN> {
    pub closed spec fn spec_prev(&self) -> StateView {
        self.prev_state@
    }

    pub closed spec fn spec_next(&self) -> StateView {
        self.next_state@
    }

    pub closed spec fn spec_text(&self) -> Seq<u8> {
        self.chunk@
    }

    pub closed spec fn wf(&self) -> bool {
        self.prev_state.wf() && self.next_state.wf() && self.chunk.wf()
    }

    /// The chunk borrowed.
    pub fn as_str(&self) -> (r: StatedChunkStr<'_>)
        requires
            self.wf(),
        ensures
            r.wf(),
            r.spec_prev() == self.spec_prev(),
            r.spec_next() == self.spec_next(),
            r.spec_text() == self.spec_text(),
    {
        StatedChunkStr::from_ref_array(self)
    }

    /// Takes a buffer that is full.
    pub fn from_array_vec_assert_len_is_cap(v: StatedChunkBuf<LEN>) -> (r: Self)
        requires
            v.wf(),
            v.spec_text().len() == LEN,
        ensures
            r.wf(),
            r.spec_prev() == v.spec_prev(),
            r.spec_next() == v.spec_next(),
            r.spec_text() == v.spec_text(),
    {
        let (prev_state, next_state, inner) = v.into_triple();
        StatedChunkString { prev_state, next_state, chunk: inner.assert_len_is_cap() }
    }

    /// The state the chunk starts in.
    pub fn prev_state(&self) -> (r: &State)
        ensures
            r@ == self.spec_prev(),
            self.wf() ==> r.wf(),
    {
        &self.prev_state
    }

    /// The state the chunk ends in.
    pub fn next_state(&self) -> (r: &State)
        ensures
            r@ == self.spec_next(),
            self.wf() ==> r.wf(),
    {
        &self.next_state
    }

    /// The text.
    pub fn inner(&self) -> (r: &StrAsArray<LEN>)
        ensures
            r@ == self.spec_text(),
            self.wf() ==> r.wf(),
    {
        &self.chunk
    }

    /// The text.
    pub fn into_inner(self) -> (r: StrAsArray<LEN>)
        ensures
            r@ == self.spec_text(),
            self.wf() ==> r.wf(),
    {
        self.chunk
    }
}

/// Where a `&str` can be split after an ASCII byte at its front.
proof fn lemma_boundary_after_ascii_first(b: Seq<u8>)
    requires
        valid_utf8(b),
        b.len() >= 1,
        b[0] < 0x80,
    ensures
        is_char_boundary(b, 1),
{
    reveal_with_fuel(is_char_boundary, 2);
    assert(length_of_first_scalar(b) == 1);
}

/// Where a `&str` can be split before an ASCII byte at its end.
proof fn lemma_boundary_before_ascii_last(b: Seq<u8>)
    requires
        valid_utf8(b),
        b.len() >= 1,
        b[b.len() - 1] < 0x80,
    ensures
        is_char_boundary(b, b.len() - 1),
{
    is_char_boundary_iff_not_is_continuation_byte(b, b.len() - 1);
}

/// The text without its first byte, which must be ASCII.
fn without_first(s: &str) -> (r: &str)
    requires
        s.spec_bytes().len() >= 1,
        s.spec_bytes()[0] < 0x80,
    ensures
        r.spec_bytes() == s.spec_bytes().subrange(1, s.spec_bytes().len() as int),
{
    proof {
        lemma_str_valid_utf8(s);
        lemma_boundary_after_ascii_first(s.spec_bytes());
    }
    s.split_at(1).1
}

/// The text without its last byte, which must be ASCII.
fn without_last(s: &str) -> (r: &str)
    requires
        s.spec_bytes().len() >= 1,
        s.spec_bytes()[s.spec_bytes().len() - 1] < 0x80,
    ensures
        r.spec_bytes() == s.spec_bytes().subrange(0, s.spec_bytes().len() - 1),
{
    proof {
        lemma_str_valid_utf8(s);
        lemma_boundary_before_ascii_last(s.spec_bytes());
    }
    let n = s.as_bytes().len();
    s.split_at(n - 1).0
}

/// The group a whole value opens with at `b[0]` and closes with at its end:
/// `(open, close)`.
pub open spec fn surrounding_group(b: Seq<u8>) -> Option<(u8, u8)> {
    if b.len() >= 2 && b[0] == 91 && b[b.len() - 1] == 93 {
        Some((91u8, 93u8))
    } else if b.len() >= 2 && b[0] == 123 && b[b.len() - 1] == 125 {
        Some((123u8, 125u8))
    } else if b.len() >= 2 && b[0] == 34 && b[b.len() - 1] == 34 {
        Some((34u8, 34u8))
    } else {
        None
    }
}

/// The states around what stands between the surrounding bytes `open`
/// and its close, `empty` saying whether nothing does.
pub open spec fn ungrouped_states(open: u8, empty: bool) -> (StateView, StateView) {
    if open == 91 {
        (spec_after_array_start(), if empty {
            spec_after_array_start()
        } else {
            spec_after_array_item()
        })
    } else if open == 123 {
        (spec_after_object_start(), if empty {
            spec_after_object_start()
        } else {
            spec_after_object_field_value()
        })
    } else {
        (spec_in_string(), spec_in_string())
    }
}

/// The state right after the group opening byte `open` of a top-level value.
pub open spec fn state_after_open(open: u8) -> StateView {
    if open == 91 {
        spec_after_array_start()
    } else if open == 123 {
        spec_after_object_start()
    } else {
        spec_in_string()
    }
}

pub open spec fn is_group_open(b: u8) -> bool {
    b == 91 || b == 123 || b == 34
}

pub open spec fn is_group_close(b: u8) -> bool {
    b == 93 || b == 125 || b == 34
}

/// The state a chunk from `prev` ends in once its closing byte `close` is
/// taken off, `head` being what stays; `None` where no such state is known.
pub open spec fn state_before_close(prev: StateView, head: Seq<u8>, close: u8) -> Option<StateView> {
    if close == 34 {
        Some(spec_in_string())
    } else {
        let array = close == 93;
        if head.len() == 0 {
            Some(prev)
        } else if prev is Init {
            let open: u8 = if array {
                91u8
            } else {
                123u8
            };
            if head[0] != open {
                None
            } else if head.len() == 1 {
                Some(state_after_open(open))
            } else if array {
                Some(spec_after_array_item())
            } else {
                Some(spec_after_object_field_value())
            }
        } else if array {
            Some(spec_after_array_item())
        } else {
            Some(spec_after_object_field_value())
        }
    }
}

/// A borrowed chunk with its start and end states.
pub struct StatedChunkStr<'a> {
    prev_state: State,
    next_state: State,
    chunk: &'a str,
}

impl<'a> StatedChunkStr<'a> {
    pub closed spec fn spec_prev(&self) -> StateView {
        self.prev_state@
    }

    pub closed spec fn spec_next(&self) -> StateView {
        self.next_state@
    }

    pub closed spec fn spec_text(&self) -> Seq<u8> {
        self.chunk.spec_bytes()
    }

    pub closed spec fn wf(&self) -> bool {
        self.prev_state.wf() && self.next_state.wf()
    }

    /// A chunk of `chunk` between the given states.
    pub fn new(prev_state: State, next_state: State, chunk: &'a str) -> (r: Self)
        ensures
            r.spec_prev() == prev_state@,
            r.spec_next() == next_state@,
            r.spec_text() == chunk.spec_bytes(),
            prev_state.wf() && next_state.wf() ==> r.wf(),
    {
        StatedChunkStr { prev_state, next_state, chunk }
    }

    /// A copy.
    pub fn copied(&self) -> (r: Self)
        ensures
            r.spec_prev() == self.spec_prev(),
            r.spec_next() == self.spec_next(),
            r.spec_text() == self.spec_text(),
            self.wf() ==> r.wf(),
    {
        StatedChunkStr {
            prev_state: self.prev_state.copied(),
            next_state: self.next_state.copied(),
            chunk: self.chunk,
        }
    }

    /// Borrows a finished chunk.
    pub fn from_ref_array<const LEN: usize>(s: &'a StatedChunkString<LEN>) -> (r: Self)
        requires
            s.wf(),
        ensures
            r.wf(),
            r.spec_prev() == s.spec_prev(),
            r.spec_next() == s.spec_next(),
            r.spec_text() == s.spec_text(),
    {
        StatedChunkStr {
            prev_state: s.prev_state().copied(),
            next_state: s.next_state().copied(),
            chunk: s.inner().as_str(),
        }
    }

    /// Borrows a growing chunk.
    pub fn from_ref_array_vec<const CAP: usize>(s: &'a StatedChunkBuf<CAP>) -> (r: Self)
        requires
            s.wf(),
        ensures
            r.wf(),
            r.spec_prev() == s.spec_prev(),
            r.spec_next() == s.spec_next(),
            r.spec_text() == s.spec_text(),
    {
        StatedChunkStr {
            prev_state: s.prev_state().copied(),
            next_state: s.next_state().copied(),
            chunk: s.inner().as_str(),
        }
    }

    /// The state the chunk ends in.
    pub fn into_next_state(self) -> (r: State)
        ensures
            r@ == self.spec_next(),
            self.wf() ==> r.wf(),
    {
        self.next_state
    }

    /// The state the chunk ends in.
    pub fn next_state(&self) -> (r: &State)
        ensures
            r@ == self.spec_next(),
            self.wf() ==> r.wf(),
    {
        &self.next_state
    }

    /// The state the chunk starts in.
    pub fn into_prev_state(self) -> (r: State)
        ensures
            r@ == self.spec_prev(),
            self.wf() ==> r.wf(),
    {
        self.prev_state
    }

    /// The state the chunk starts in.
    pub fn prev_state(&self) -> (r: &State)
        ensures
            r@ == self.spec_prev(),
            self.wf() ==> r.wf(),
    {
        &self.prev_state
    }

    /// The text.
    pub fn into_inner(self) -> (r: &'a str)
        ensures
            r.spec_bytes() == self.spec_text(),
    {
        self.chunk
    }

    /// The text.
    pub fn inner(&self) -> (r: &'a str)
        ensures
            r.spec_bytes() == self.spec_text(),
    {
        self.chunk
    }

    /// What stands between the group opening and closing bytes of a chunk
    /// that is a whole array, object or string, with the states around it.
    pub fn remove_surrounding_group(self) -> (r: Self)
        requires
            self.wf(),
            self.spec_prev() is Init,
            self.spec_next() is Eof,
            surrounding_group(self.spec_text()) is Some,
        ensures
            r.wf(),
            r.spec_text() == self.spec_text().subrange(1, self.spec_text().len() - 1),
            (r.spec_prev(), r.spec_next()) == ungrouped_states(
                self.spec_text()[0],
                self.spec_text().len() == 2,
            ),
            spec_parse_till_eof(self.spec_text(), StateView::Init) matches Some(Ok(StateView::Eof(_))) && !(
            self.spec_text()[0] == 91 && self.spec_text().len() == 2) ==> spec_parse_till_eof(r.spec_text(), r.spec_prev())
                == Some(Ok::<StateView, ScanError>(r.spec_next())),
    {
        self.prev_state().assert_same(&self.prev_state);
        let b = self.chunk.as_bytes();
        let first = b[0];
        let inner = without_last(without_first(self.chunk));
        let empty = inner.len() == 0;
        let (prev_state, next_state) = if first == 91 {
            (
                State::init_after_array_start(),
                if empty {
                    State::init_after_array_start()
                } else {
                    State::init_after_array_item()
                },
            )
        } else if first == 123 {
            (
                State::init_after_object_start(),
                if empty {
                    State::init_after_object_start()
                } else {
                    State::init_after_object_field_value()
                },
            )
        } else {
            (State::init_in_string(), State::init_in_string())
        };
        proof {
            let t = self.spec_text();
            assert(inner.spec_bytes() == t.subrange(1, t.len() - 1));
            assert((prev_state@, next_state@) == ungrouped_states(t[0], t.len() == 2));
            if let Some(Ok(StateView::Eof(k))) = spec_parse_till_eof(t, StateView::Init) {
                if !(t[0] == 91 && t.len() == 2) {
                    law_ungrouped_states_agree_with_scan(t, k);
                }
            }
        }
        StatedChunkStr { prev_state, next_state, chunk: inner }
    }

    /// The chunk without the byte that opens its top-level array, object or
    /// string; it must start in the initial state.
    pub fn remove_group_open(self) -> (r: Self)
        requires
            self.wf(),
            self.spec_prev() is Init,
            self.spec_text().len() >= 1,
            is_group_open(self.spec_text()[0]),
        ensures
            r.wf(),
            r.spec_text() == self.spec_text().subrange(1, self.spec_text().len() as int),
            r.spec_prev() == state_after_open(self.spec_text()[0]),
            r.spec_next() == self.spec_next(),
    {
        let b = self.chunk.as_bytes();
        let first = b[0];
        let rest = without_first(self.chunk);
        let prev_state = if first == 91 {
            State::init_after_array_start()
        } else if first == 123 {
            State::init_after_object_start()
        } else {
            State::init_in_string()
        };
        StatedChunkStr { prev_state, next_state: self.next_state, chunk: rest }
    }

    /// The chunk without the byte that closes its top-level array, object or
    /// string; it must end a whole value.
    pub fn remove_group_close(self) -> (r: Self)
        requires
            self.wf(),
            self.spec_next() is Eof,
            self.spec_text().len() >= 1,
            is_group_close(self.spec_text().last()),
            state_before_close(
                self.spec_prev(),
                self.spec_text().drop_last(),
                self.spec_text().last(),
            ) is Some,
        ensures
            r.wf(),
            r.spec_text() == self.spec_text().drop_last(),
            r.spec_prev() == self.spec_prev(),
            Some(r.spec_next()) == state_before_close(
                self.spec_prev(),
                self.spec_text().drop_last(),
                self.spec_text().last(),
            ),
            spec_parse_till_eof(self.spec_text(), self.spec_prev()) matches Some(Ok(StateView::Eof(_)))
                && !needs_value(r.spec_next()) && (self.spec_text().last() == 34 ==> (self.spec_prev() is Init
                && self.spec_text()[0] == 34) || self.spec_prev() == spec_in_string()) ==> spec_parse_till_eof(
                r.spec_text(),
                r.spec_prev(),
            ) == Some(Ok::<StateView, ScanError>(r.spec_next())),
    {
        let b = self.chunk.as_bytes();
        let n = b.len();
        let last = b[n - 1];
        let head = without_last(self.chunk);
        let hb = head.as_bytes();
        proof {
            assert(self.spec_text().drop_last() == self.spec_text().subrange(0, n - 1));
        }
        let next_state = if last == 34 {
            State::init_in_string()
        } else if hb.len() == 0 {
            self.prev_state.copied()
        } else if self.prev_state.is_init() {
            if hb.len() == 1 {
                if last == 93 {
                    State::init_after_array_start()
                } else {
                    State::init_after_object_start()
                }
            } else if last == 93 {
                State::init_after_array_item()
            } else {
                State::init_after_object_field_value()
            }
        } else if last == 93 {
            State::init_after_array_item()
        } else {
            State::init_after_object_field_value()
        };
        proof {
            let t = self.spec_text();
            let sb = state_before_close(self.spec_prev(), t.drop_last(), t.last()).unwrap();
            if let Some(Ok(StateView::Eof(k))) = spec_parse_till_eof(t, self.spec_prev()) {
                if !needs_value(sb) && (t.last() == 34 ==> (self.spec_prev() is Init && t[0] == 34)
                    || self.spec_prev() == spec_in_string()) {
                    law_group_close_state_agrees_with_scan(self.spec_prev(), t, k);
                }
            }
        }
        StatedChunkStr { prev_state: self.prev_state, next_state, chunk: head }
    }
}

} // verus!
