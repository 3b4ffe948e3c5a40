//! The state of a chunk of JSON text: nothing seen yet, somewhere inside a
//! value (with the stack of open arrays and objects), or past a whole value.
use vstd::prelude::*;
use vstd::arithmetic::power2::*;
use vstd::bits::lemma_u64_shr_is_div;
use vstd::string::StringSliceAdditionalSpecFns;

pub mod deserializer;

verus! {

/// What is known of a whole JSON value once its text has ended.
#[derive(Debug, Clone, Copy, PartialEq, Eq, Structural)]
pub enum ValueKind {
    /// The content is not known to be empty or non-empty.
    ArrayWithUnknownContent,
    ArrayWithEmptyContent,
    ArrayWithNonEmptyContent,
    ObjectWithUnknownContent,
    ObjectWithEmptyContent,
    ObjectWithNonEmptyContent,
    String,
    Unknown,
}

impl ValueKind {
    /// Holds only of two equal kinds.
    pub fn assert_same(&self, other_state: &Self)
        requires
            *self == *other_state,
    {
    }
}

/// Where the text stands inside the innermost open array, object or string.
#[derive(Debug, Clone, Copy, PartialEq, Eq, Structural)]
pub enum IntermediateState {
    InString,
    AfterArrayStart,
    AfterArrayStartOrComma,
    AfterArrayStartOrItem,
    AfterArrayItem,
    AfterArrayComma,
    AfterObjectStart,
    AfterObjectStartOrComma,
    AfterObjectStartOrFieldValue,
    InObjectFieldName,
    AfterObjectFieldName,
    AfterObjectFieldColon,
    AfterObjectFieldValue,
    AfterObjectComma,
}

/// The number that stands for an intermediate state in the packed form.
pub open spec fn inter_state_code(s: IntermediateState) -> u8 {
    match s {
        IntermediateState::InString => 0,
        IntermediateState::AfterArrayStart => 1,
        IntermediateState::AfterArrayStartOrComma => 2,
        IntermediateState::AfterArrayStartOrItem => 3,
        IntermediateState::AfterArrayItem => 4,
        IntermediateState::AfterArrayComma => 5,
        IntermediateState::AfterObjectStart => 6,
        IntermediateState::AfterObjectStartOrComma => 7,
        IntermediateState::AfterObjectStartOrFieldValue => 8,
        IntermediateState::InObjectFieldName => 9,
        IntermediateState::AfterObjectFieldName => 10,
        IntermediateState::AfterObjectFieldColon => 11,
        IntermediateState::AfterObjectFieldValue => 12,
        IntermediateState::AfterObjectComma => 13,
    }
}

/// States in which a JSON value (other than an object field name) may come next.
pub open spec fn expects_value(s: IntermediateState) -> bool {
    match s {
        IntermediateState::AfterArrayStart
        | IntermediateState::AfterArrayComma
        | IntermediateState::AfterArrayStartOrComma
        | IntermediateState::AfterObjectFieldColon => true,
        _ => false,
    }
}

/// States that only occur directly inside an array.
pub open spec fn is_array_state(s: IntermediateState) -> bool {
    match s {
        IntermediateState::AfterArrayStart
        | IntermediateState::AfterArrayStartOrComma
        | IntermediateState::AfterArrayStartOrItem
        | IntermediateState::AfterArrayItem
        | IntermediateState::AfterArrayComma => true,
        _ => false,
    }
}

/// States that only occur directly inside an object.
pub open spec fn is_object_state(s: IntermediateState) -> bool {
    !is_array_state(s) && s != IntermediateState::InString
}

impl IntermediateState {
    /// Holds only of two equal states.
    pub fn assert_same(&self, other_state: &Self)
        requires
            *self == *other_state,
    {
    }

    /// A copy of the state.
    pub fn copied(&self) -> (r: Self)
        ensures
            r == *self,
    {
        match self {
            IntermediateState::InString => IntermediateState::InString,
            IntermediateState::AfterArrayStart => IntermediateState::AfterArrayStart,
            IntermediateState::AfterArrayStartOrComma => IntermediateState::AfterArrayStartOrComma,
            IntermediateState::AfterArrayStartOrItem => IntermediateState::AfterArrayStartOrItem,
            IntermediateState::AfterArrayItem => IntermediateState::AfterArrayItem,
            IntermediateState::AfterArrayComma => IntermediateState::AfterArrayComma,
            IntermediateState::AfterObjectStart => IntermediateState::AfterObjectStart,
            IntermediateState::AfterObjectStartOrComma => IntermediateState::AfterObjectStartOrComma,
            IntermediateState::AfterObjectStartOrFieldValue => {
                IntermediateState::AfterObjectStartOrFieldValue
            },
            IntermediateState::InObjectFieldName => IntermediateState::InObjectFieldName,
            IntermediateState::AfterObjectFieldName => IntermediateState::AfterObjectFieldName,
            IntermediateState::AfterObjectFieldColon => IntermediateState::AfterObjectFieldColon,
            IntermediateState::AfterObjectFieldValue => IntermediateState::AfterObjectFieldValue,
            IntermediateState::AfterObjectComma => IntermediateState::AfterObjectComma,
        }
    }

    /// The packed number of the state.
    pub fn into_u8(self) -> (r: u8)
        ensures
            r == inter_state_code(self),
    {
        match self {
            IntermediateState::InString => 0,
            IntermediateState::AfterArrayStart => 1,
            IntermediateState::AfterArrayStartOrComma => 2,
            IntermediateState::AfterArrayStartOrItem => 3,
            IntermediateState::AfterArrayItem => 4,
            IntermediateState::AfterArrayComma => 5,
            IntermediateState::AfterObjectStart => 6,
            IntermediateState::AfterObjectStartOrComma => 7,
            IntermediateState::AfterObjectStartOrFieldValue => 8,
            IntermediateState::InObjectFieldName => 9,
            IntermediateState::AfterObjectFieldName => 10,
            IntermediateState::AfterObjectFieldColon => 11,
            IntermediateState::AfterObjectFieldValue => 12,
            IntermediateState::AfterObjectComma => 13,
        }
    }

    /// The state packed as `v`, if any.
    pub fn try_from_u8(v: u8) -> (r: Option<Self>)
        ensures
            r matches Some(s) ==> inter_state_code(s) == v,
            r is None <==> v > 13,
    {
        match v {
            0 => Some(IntermediateState::InString),
            1 => Some(IntermediateState::AfterArrayStart),
            2 => Some(IntermediateState::AfterArrayStartOrComma),
            3 => Some(IntermediateState::AfterArrayStartOrItem),
            4 => Some(IntermediateState::AfterArrayItem),
            5 => Some(IntermediateState::AfterArrayComma),
            6 => Some(IntermediateState::AfterObjectStart),
            7 => Some(IntermediateState::AfterObjectStartOrComma),
            8 => Some(IntermediateState::AfterObjectStartOrFieldValue),
            9 => Some(IntermediateState::InObjectFieldName),
            10 => Some(IntermediateState::AfterObjectFieldName),
            11 => Some(IntermediateState::AfterObjectFieldColon),
            12 => Some(IntermediateState::AfterObjectFieldValue),
            13 => Some(IntermediateState::AfterObjectComma),
            _ => None,
        }
    }

    /// Holds only of a state that expects a JSON value other than an object
    /// field name.
    pub fn assert_expecting_value(&self)
        requires
            expects_value(*self),
    {
    }
}

/// The open arrays (`true`) and objects (`false`) of a packed stack, outermost
/// first: bit 0 of `inner` is the innermost one.
pub open spec fn bits_seq(inner: nat, len: nat) -> Seq<bool>
    decreases len,
{
    if len == 0 {
        Seq::empty()
    } else {
        bits_seq(inner / 2, (len - 1) as nat).push(inner % 2 == 1)
    }
}

/// The most arrays and objects that can be open at once.
pub const MAX_DEPTH: usize = 64;

/// The open arrays and objects, packed one bit each.
#[derive(Debug, Clone, Copy, PartialEq, Eq, Structural)]
pub struct Stack {
    pub inner: u64,
    pub len: usize,
}

impl View for Stack {
    type V = Seq<bool>;

    open spec fn view(&self) -> Seq<bool> {
        bits_seq(self.inner as nat, self.len as nat)
    }
}

/// What follows the end of an array or object.
pub enum AfterEndArrayOrObject {
    Intermediate(Intermediate),
    Eof,
}

/// The state after a value ends inside the containers `rest` (innermost last).
pub open spec fn after_value_in(rest: Seq<bool>) -> Option<IntermediateState> {
    if rest.len() == 0 {
        None
    } else if rest.last() {
        Some(IntermediateState::AfterArrayItem)
    } else {
        Some(IntermediateState::AfterObjectFieldValue)
    }
}

pub proof fn lemma_bits_seq_len(inner: nat, len: nat)
    ensures
        bits_seq(inner, len).len() == len,
    decreases len,
{
    if len > 0 {
        lemma_bits_seq_len(inner / 2, (len - 1) as nat);
    }
}

/// Two packed stacks in range with the same bits are the same stack.
pub proof fn lemma_bits_seq_injective(a: nat, b: nat, len: nat)
    requires
        a < pow2(len),
        b < pow2(len),
        bits_seq(a, len) == bits_seq(b, len),
    ensures
        a == b,
    decreases len,
{
    if len == 0 {
        lemma2_to64();
    } else {
        lemma_pow2_unfold(len);
        let sa = bits_seq(a / 2, (len - 1) as nat);
        let sb = bits_seq(b / 2, (len - 1) as nat);
        lemma_bits_seq_len(a / 2, (len - 1) as nat);
        lemma_bits_seq_len(b / 2, (len - 1) as nat);
        assert(bits_seq(a, len).drop_last() == sa);
        assert(bits_seq(b, len).drop_last() == sb);
        assert(bits_seq(a, len).last() == (a % 2 == 1));
        assert(bits_seq(b, len).last() == (b % 2 == 1));
        lemma_bits_seq_injective(a / 2, b / 2, (len - 1) as nat);
    }
}

impl Stack {
    /// The packed bits are in range and at most `MAX_DEPTH` are open.
    pub open spec fn wf(self) -> bool {
        &&& self.len <= MAX_DEPTH
        &&& self.inner < pow2(self.len as nat)
    }

    pub open spec fn spec_init() -> Stack {
        Stack { inner: 0, len: 0 }
    }

    /// No array or object is open.
    pub fn init() -> (r: Stack)
        ensures
            r == Self::spec_init(),
            r.wf(),
            r@ == Seq::<bool>::empty(),
    {
        proof {
            Self::lemma_init();
        }
        Stack { inner: 0, len: 0 }
    }

    pub proof fn lemma_view_len(self)
        ensures
            self@.len() == self.len,
    {
        lemma_bits_seq_len(self.inner as nat, self.len as nat);
    }

    pub proof fn lemma_init()
        ensures
            Self::spec_init().wf(),
            Self::spec_init()@ == Seq::<bool>::empty(),
    {
        lemma2_to64();
    }

    /// The packed form: the bits and the depth.
    pub fn as_u64_u8(&self) -> (r: (u64, u8))
        requires
            self.wf(),
        ensures
            r == (self.inner, self.len as u8),
    {
        (self.inner, self.len as u8)
    }

    /// The stack packed as `inner` and `len`, when `len` is at most 64 and
    /// no bit beyond the first `len` is set.
    pub fn try_from_u64_u8(inner: u64, len: u8) -> (r: Option<Self>)
        requires
            len != 64,
        ensures
            r is Some <==> (len <= 64 && inner < pow2(len as nat)),
            r matches Some(s) ==> s.inner == inner && s.len == len && s.wf(),
    {
        if (len as u32) > 64 {
            return None;
        }
        proof {
            lemma_u64_shr_is_div(inner, len as u64);
            vstd::arithmetic::power2::lemma_pow2_pos(len as nat);
        }
        if (inner >> (len as u64)) != 0 {
            proof {
                if inner < pow2(len as nat) {
                    vstd::arithmetic::div_mod::lemma_basic_div(inner as int, pow2(len as nat) as int);
                }
            }
            return None;
        }
        proof {
            if inner >= pow2(len as nat) {
                vstd::arithmetic::div_mod::lemma_div_non_zero(inner as int, pow2(len as nat) as int);
            }
        }
        Some(Stack { inner, len: len as usize })
    }

    /// The innermost open container: `Some(true)` for an array, `Some(false)`
    /// for an object, `None` when none is open.
    pub fn is_in_array_or_object(&self) -> (r: Option<bool>)
        requires
            self.wf(),
        ensures
            r == (if self@.len() == 0 { None } else { Some(self@.last()) }),
    {
        proof {
            self.lemma_view_len();
        }
        if self.len == 0 {
            None
        } else {
            Some(self.inner % 2 != 0)
        }
    }

    /// Exactly one container is open and it is an array.
    pub fn is_in_top_level_array(&self) -> (r: bool)
        requires
            self.wf(),
        ensures
            r == (self@.len() == 1 && self@[0]),
    {
        proof {
            self.lemma_view_len();
        }
        self.len == 1 && (self.inner % 2 == 1)
    }

    /// Exactly one container is open and it is an object.
    pub fn is_in_top_level_object(&self) -> (r: bool)
        requires
            self.wf(),
        ensures
            r == (self@.len() == 1 && !self@[0]),
    {
        proof {
            self.lemma_view_len();
        }
        self.len == 1 && (self.inner % 2 == 0)
    }

    /// Removes the innermost container and says whether it was an array.
    pub fn pop(&mut self) -> (r: Option<bool>)
        requires
            old(self).wf(),
        ensures
            final(self).wf(),
            old(self)@.len() == 0 ==> r is None && *final(self) == *old(self),
            old(self)@.len() > 0 ==> r == Some(old(self)@.last()) && final(self)@ == old(
                self,
            )@.drop_last(),
    {
        proof {
            self.lemma_view_len();
        }
        if self.len == 0 {
            None
        } else {
            proof {
                lemma_pow2_unfold(self.len as nat);
            }
            self.len = self.len - 1;
            let last = self.inner % 2;
            self.inner = self.inner / 2;
            Some(last != 0)
        }
    }

    /// Opens an array inside the innermost container.
    pub fn start_array(self) -> (r: Stack)
        requires
            self.wf(),
            self.len < MAX_DEPTH,
        ensures
            r.wf(),
            r@ == self@.push(true),
            r.len == self.len + 1,
    {
        proof {
            self.lemma_grow();
        }
        Stack { inner: self.inner * 2 + 1, len: self.len + 1 }
    }

    /// Opens an object inside the innermost container.
    pub fn start_object(self) -> (r: Stack)
        requires
            self.wf(),
            self.len < MAX_DEPTH,
        ensures
            r.wf(),
            r@ == self@.push(false),
            r.len == self.len + 1,
    {
        proof {
            self.lemma_grow();
        }
        Stack { inner: self.inner * 2, len: self.len + 1 }
    }

    proof fn lemma_grow(self)
        requires
            self.wf(),
            self.len < MAX_DEPTH,
        ensures
            self.inner * 2 + 1 < pow2((self.len + 1) as nat),
            pow2((self.len + 1) as nat) <= u64::MAX + 1,
            bits_seq((self.inner * 2 + 1) as nat, (self.len + 1) as nat) == self@.push(true),
            bits_seq((self.inner * 2) as nat, (self.len + 1) as nat) == self@.push(false),
    {
        lemma_pow2_unfold((self.len + 1) as nat);
        lemma2_to64();
        lemma2_to64_rest();
        if self.len < 63 {
            lemma_pow2_strictly_increases(self.len as nat, 63);
        }
        assert((self.inner * 2 + 1) / 2 == self.inner);
        assert((self.inner * 2) / 2 == self.inner);
    }

    /// Closes the innermost container, which must be an array.
    pub fn end_array(self) -> (r: AfterEndArrayOrObject)
        requires
            self.wf(),
            self@.len() > 0,
            self@.last(),
        ensures
            r.ends_as(self@.drop_last()),
    {
        let mut this = self;
        let _popped = this.pop();
        this.current_state_after_array_or_object()
    }

    /// Closes the innermost container, which must be an object.
    pub fn end_object(self) -> (r: AfterEndArrayOrObject)
        requires
            self.wf(),
            self@.len() > 0,
            !self@.last(),
        ensures
            r.ends_as(self@.drop_last()),
    {
        let mut this = self;
        let _popped = this.pop();
        this.current_state_after_array_or_object()
    }

    /// The state right after a value ends inside this stack.
    pub fn current_state_after_array_or_object(self) -> (r: AfterEndArrayOrObject)
        requires
            self.wf(),
        ensures
            r.ends_as(self@),
    {
        match self.is_in_array_or_object() {
            Some(true) => AfterEndArrayOrObject::Intermediate(
                Intermediate { stack: self, state: IntermediateState::AfterArrayItem },
            ),
            Some(false) => AfterEndArrayOrObject::Intermediate(
                Intermediate { stack: self, state: IntermediateState::AfterObjectFieldValue },
            ),
            None => AfterEndArrayOrObject::Eof,
        }
    }

    /// Holds only of two equal stacks.
    pub fn assert_same(&self, other: &Stack)
        requires
            *self == *other,
    {
    }

    /// A copy of the stack.
    pub fn copied(&self) -> (r: Self)
        ensures
            r == *self,
    {
        Stack { inner: self.inner, len: self.len }
    }

    /// Whether the outermost open container is an array (the stack must not
    /// be empty).
    pub fn outermost_is_array(&self) -> (r: bool)
        requires
            self.wf(),
            self@.len() > 0,
        ensures
            r == self@[0],
    {
        proof {
            self.lemma_view_len();
            lemma_bits_seq_first(self.inner as nat, self.len as nat);
            vstd::bits::lemma_u64_shr_is_div(self.inner, (self.len - 1) as u64);
        }
        ((self.inner >> ((self.len - 1) as u64)) % 2) == 1
    }
}

/// The outermost container of a packed stack is bit `len - 1`.
pub proof fn lemma_bits_seq_first(inner: nat, len: nat)
    requires
        len > 0,
    ensures
        bits_seq(inner, len)[0] == ((inner / pow2((len - 1) as nat)) % 2 == 1),
    decreases len,
{
    lemma_bits_seq_len(inner, len);
    if len == 1 {
        lemma2_to64();
        assert(bits_seq(inner / 2, 0) == Seq::<bool>::empty());
    } else {
        lemma_bits_seq_first(inner / 2, (len - 1) as nat);
        lemma_bits_seq_len(inner / 2, (len - 1) as nat);
        assert(bits_seq(inner, len)[0] == bits_seq(inner / 2, (len - 1) as nat)[0]);
        lemma_pow2_unfold((len - 1) as nat);
        lemma_pow2_pos((len - 2) as nat);
        vstd::arithmetic::div_mod::lemma_div_denominator(
            inner as int,
            2,
            pow2((len - 2) as nat) as int,
        );
    }
}

impl AfterEndArrayOrObject {
    /// Describes what follows the end of a container when `rest` stays open.
    pub open spec fn ends_as(self, rest: Seq<bool>) -> bool {
        match self {
            AfterEndArrayOrObject::Intermediate(i) => {
                &&& i.stack.wf()
                &&& i.stack@ == rest
                &&& after_value_in(rest) == Some(i.state)
            },
            AfterEndArrayOrObject::Eof => rest.len() == 0,
        }
    }
}

/// An abstract state: the open containers (outermost first) and the place in
/// the innermost one.
pub enum StateView {
    Init,
    Inter { stack: Seq<bool>, state: IntermediateState },
    Eof(ValueKind),
}

/// Inside open containers the place agrees with the innermost container, and
/// with none open the text can only be inside a top-level string.
pub open spec fn inter_wf(stack: Seq<bool>, state: IntermediateState) -> bool {
    &&& stack.len() <= MAX_DEPTH
    &&& if stack.len() == 0 {
        state == IntermediateState::InString
    } else if stack.last() {
        is_array_state(state) || state == IntermediateState::InString
    } else {
        is_object_state(state) || state == IntermediateState::InString
    }
}

pub open spec fn view_wf(v: StateView) -> bool {
    match v {
        StateView::Inter { stack, state } => inter_wf(stack, state),
        _ => true,
    }
}

pub open spec fn inter(stack: Seq<bool>, state: IntermediateState) -> StateView {
    StateView::Inter { stack, state }
}

/// Ends the innermost container (`array` says which kind it must be) with
/// the given kind for a top-level value.
pub open spec fn end_group(stack: Seq<bool>, array: bool, kind: ValueKind) -> Option<StateView> {
    if stack.len() == 0 || stack.last() != array {
        None
    } else {
        let rest = stack.drop_last();
        match after_value_in(rest) {
            None => Some(StateView::Eof(kind)),
            Some(st) => Some(inter(rest, st)),
        }
    }
}

/// A whole JSON value (not an object field name).
pub open spec fn spec_json_value(v: StateView) -> Option<StateView> {
    match v {
        StateView::Init => Some(StateView::Eof(ValueKind::Unknown)),
        StateView::Inter { stack, state } => match state {
            IntermediateState::AfterArrayStart
            | IntermediateState::AfterArrayComma
            | IntermediateState::AfterArrayStartOrComma => Some(
                inter(stack, IntermediateState::AfterArrayItem),
            ),
            IntermediateState::AfterObjectFieldColon => Some(
                inter(stack, IntermediateState::AfterObjectFieldValue),
            ),
            _ => None,
        },
        StateView::Eof(_) => None,
    }
}

/// A single `"`.
pub open spec fn spec_double_quote(v: StateView) -> Option<StateView> {
    match v {
        StateView::Init => Some(inter(Seq::empty(), IntermediateState::InString)),
        StateView::Inter { stack, state } => match state {
            IntermediateState::InString => match after_value_in(stack) {
                Some(st) => Some(inter(stack, st)),
                None => Some(StateView::Eof(ValueKind::String)),
            },
            IntermediateState::AfterArrayStart
            | IntermediateState::AfterArrayComma
            | IntermediateState::AfterArrayStartOrComma => Some(
                inter(stack, IntermediateState::InString),
            ),
            IntermediateState::AfterObjectStart
            | IntermediateState::AfterObjectComma
            | IntermediateState::AfterObjectStartOrComma => Some(
                inter(stack, IntermediateState::InObjectFieldName),
            ),
            IntermediateState::InObjectFieldName => Some(
                inter(stack, IntermediateState::AfterObjectFieldName),
            ),
            IntermediateState::AfterObjectFieldColon => Some(
                inter(stack, IntermediateState::InString),
            ),
            _ => None,
        },
        StateView::Eof(_) => None,
    }
}

/// Text inside a string or an object field name.
pub open spec fn spec_json_string_fragment(v: StateView) -> Option<StateView> {
    match v {
        StateView::Inter { stack, state } => match state {
            IntermediateState::InString | IntermediateState::InObjectFieldName => Some(v),
            _ => None,
        },
        _ => None,
    }
}

/// A `,`.
pub open spec fn spec_comma(v: StateView) -> Option<StateView> {
    match v {
        StateView::Inter { stack, state } => match state {
            IntermediateState::AfterArrayItem => Some(inter(stack, IntermediateState::AfterArrayComma)),
            IntermediateState::AfterObjectFieldValue => Some(
                inter(stack, IntermediateState::AfterObjectComma),
            ),
            _ => None,
        },
        _ => None,
    }
}

/// A `:`.
pub open spec fn spec_colon(v: StateView) -> Option<StateView> {
    match v {
        StateView::Inter { stack, state } => match state {
            IntermediateState::AfterObjectFieldName => Some(
                inter(stack, IntermediateState::AfterObjectFieldColon),
            ),
            _ => None,
        },
        _ => None,
    }
}

/// Opens a container (`array` for `[`, otherwise `{`).
pub open spec fn spec_open(v: StateView, array: bool) -> Option<StateView> {
    let st = if array {
        IntermediateState::AfterArrayStart
    } else {
        IntermediateState::AfterObjectStart
    };
    match v {
        StateView::Init => Some(inter(seq![array], st)),
        StateView::Inter { stack, state } => if expects_value(state) && stack.len() < MAX_DEPTH {
            Some(inter(stack.push(array), st))
        } else {
            None
        },
        StateView::Eof(_) => None,
    }
}

/// A `[`.
pub open spec fn spec_left_bracket(v: StateView) -> Option<StateView> {
    spec_open(v, true)
}

/// A `{`.
pub open spec fn spec_left_brace(v: StateView) -> Option<StateView> {
    spec_open(v, false)
}

/// A `]`.
pub open spec fn spec_right_bracket(v: StateView) -> Option<StateView> {
    match v {
        StateView::Inter { stack, state } => match state {
            IntermediateState::AfterArrayStart => end_group(
                stack,
                true,
                ValueKind::ArrayWithEmptyContent,
            ),
            IntermediateState::AfterArrayItem => end_group(
                stack,
                true,
                ValueKind::ArrayWithNonEmptyContent,
            ),
            IntermediateState::AfterArrayStartOrItem => end_group(
                stack,
                true,
                ValueKind::ArrayWithUnknownContent,
            ),
            _ => None,
        },
        _ => None,
    }
}

/// A `}`.
pub open spec fn spec_right_brace(v: StateView) -> Option<StateView> {
    match v {
        StateView::Inter { stack, state } => match state {
            IntermediateState::AfterObjectStart => end_group(
                stack,
                false,
                ValueKind::ObjectWithEmptyContent,
            ),
            IntermediateState::AfterObjectFieldValue => end_group(
                stack,
                false,
                ValueKind::ObjectWithNonEmptyContent,
            ),
            IntermediateState::AfterObjectStartOrFieldValue => end_group(
                stack,
                false,
                ValueKind::ObjectWithUnknownContent,
            ),
            _ => None,
        },
        _ => None,
    }
}

/// Array items that come after an item: the state does not change.
pub open spec fn spec_json_items_after_item(v: StateView) -> Option<StateView> {
    match v {
        StateView::Inter { stack, state } => if state == IntermediateState::AfterArrayItem {
            Some(v)
        } else {
            None
        },
        _ => None,
    }
}

/// Array items, each followed by a comma, right after `[` or a comma.
pub open spec fn spec_json_items_after_array_start_before_item(v: StateView) -> Option<StateView> {
    match v {
        StateView::Inter { stack, state } => match state {
            IntermediateState::AfterArrayStart | IntermediateState::AfterArrayStartOrComma => Some(
                inter(stack, IntermediateState::AfterArrayStartOrComma),
            ),
            _ => None,
        },
        _ => None,
    }
}

/// Object fields, each followed by a comma, right after `{`.
pub open spec fn spec_json_kvs_after_object_start_before_kv(v: StateView) -> Option<StateView> {
    match v {
        StateView::Inter { stack, state } => match state {
            IntermediateState::AfterObjectStart => Some(
                inter(stack, IntermediateState::AfterObjectStartOrComma),
            ),
            _ => None,
        },
        _ => None,
    }
}

/// Object fields that come after a field value: the state does not change.
pub open spec fn spec_json_kvs_after_field_value(v: StateView) -> Option<StateView> {
    match v {
        StateView::Inter { stack, state } => if state == IntermediateState::AfterObjectFieldValue {
            Some(v)
        } else {
            None
        },
        _ => None,
    }
}

/// Comma separated array items right after `[`.
pub open spec fn spec_json_items_between_brackets(v: StateView) -> Option<StateView> {
    match v {
        StateView::Inter { stack, state } => match state {
            IntermediateState::AfterArrayStart => Some(
                inter(stack, IntermediateState::AfterArrayStartOrItem),
            ),
            _ => None,
        },
        _ => None,
    }
}

/// The place inside containers, with the containers themselves.
#[derive(Debug, Clone, Copy, PartialEq, Eq, Structural)]
pub struct Intermediate {
    pub stack: Stack,
    pub state: IntermediateState,
}

impl Intermediate {
    pub open spec fn wf(self) -> bool {
        self.stack.wf() && inter_wf(self.stack@, self.state)
    }

    /// A copy.
    pub fn copied(&self) -> (r: Self)
        ensures
            r == *self,
    {
        Intermediate { stack: self.stack.copied(), state: self.state.copied() }
    }
}

/// The state of a chunk in its packed form.
#[derive(Debug, Clone, Copy, PartialEq, Eq, Structural)]
pub enum StateInner {
    Init,
    Intermediate(Intermediate),
    Eof(ValueKind),
}

impl View for StateInner {
    type V = StateView;

    open spec fn view(&self) -> StateView {
        match *self {
            StateInner::Init => StateView::Init,
            StateInner::Intermediate(i) => StateView::Inter { stack: i.stack@, state: i.state },
            StateInner::Eof(k) => StateView::Eof(k),
        }
    }
}

/// `0` stands for the initial state, all bits set for an ended value.
pub open spec fn spec_pack(s: StateInner) -> u128 {
    match s {
        StateInner::Init => 0,
        StateInner::Intermediate(i) => (i.stack.inner * 0x1_0000_0000_0000_0000 + (i.stack.len as u8)
            * 0x100_0000_0000_0000 + inter_state_code(i.state) * 0x1_0000_0000_0000
            + 0x80) as u128,
        StateInner::Eof(_) => u128::MAX,
    }
}

impl StateInner {
    pub open spec fn wf(self) -> bool {
        match self {
            StateInner::Intermediate(i) => i.wf(),
            _ => true,
        }
    }

    /// The packed number of the state.
    pub fn as_u128(&self) -> (r: u128)
        requires
            self.wf(),
        ensures
            r == spec_pack(*self),
    {
        match self {
            StateInner::Init => 0,
            StateInner::Intermediate(i) => {
                let (stack_1, stack_2) = i.stack.as_u64_u8();
                let state = i.state.copied().into_u8();
                (stack_1 as u128) * 0x1_0000_0000_0000_0000 + (stack_2 as u128) * 0x100_0000_0000_0000
                    + (state as u128) * 0x1_0000_0000_0000 + 0x80
            },
            StateInner::Eof(..) => u128::MAX,
        }
    }

    /// Holds only of two equal states.
    pub fn assert_same(&self, other: &Self)
        requires
            *self == *other,
    {
    }
}

/// Where a chunk of JSON text starts or ends.
#[derive(Debug, PartialEq, Eq, Structural)]
pub struct State(pub StateInner);

impl View for State {
    type V = StateView;

    open spec fn view(&self) -> StateView {
        self.0@
    }
}

/// The kind of the value that an intermediate state is inside of, when the
/// state says enough of it.
pub open spec fn spec_estimated_top_level_value_kind(stack: Seq<bool>, state: IntermediateState) -> Option<ValueKind> {
    if stack.len() == 0 {
        if state == IntermediateState::InString {
            Some(ValueKind::String)
        } else {
            None
        }
    } else if stack.len() == 1 {
        if stack[0] {
            match state {
                IntermediateState::InString
                | IntermediateState::AfterArrayItem
                | IntermediateState::AfterArrayComma => Some(ValueKind::ArrayWithNonEmptyContent),
                IntermediateState::AfterArrayStart => Some(ValueKind::ArrayWithEmptyContent),
                IntermediateState::AfterArrayStartOrComma
                | IntermediateState::AfterArrayStartOrItem => Some(ValueKind::ArrayWithUnknownContent),
                _ => None,
            }
        } else {
            match state {
                IntermediateState::InString
                | IntermediateState::InObjectFieldName
                | IntermediateState::AfterObjectFieldName
                | IntermediateState::AfterObjectFieldColon
                | IntermediateState::AfterObjectFieldValue
                | IntermediateState::AfterObjectComma => Some(ValueKind::ObjectWithNonEmptyContent),
                IntermediateState::AfterObjectStart => Some(ValueKind::ObjectWithEmptyContent),
                IntermediateState::AfterObjectStartOrComma
                | IntermediateState::AfterObjectStartOrFieldValue => Some(
                    ValueKind::ObjectWithUnknownContent,
                ),
                _ => None,
            }
        }
    } else if stack[0] {
        Some(ValueKind::ArrayWithNonEmptyContent)
    } else {
        Some(ValueKind::ObjectWithNonEmptyContent)
    }
}

impl Intermediate {
    /// The kind of the top-level value this state is inside of.
    pub fn estimated_top_level_value_kind(&self) -> (r: ValueKind)
        requires
            self.stack.wf(),
            spec_estimated_top_level_value_kind(self.stack@, self.state) is Some,
        ensures
            Some(r) == spec_estimated_top_level_value_kind(self.stack@, self.state),
    {
        proof {
            self.stack.lemma_view_len();
        }
        match self.stack.len {
            0 => ValueKind::String,
            1 => {
                if self.stack.inner % 2 == 1 {
                    assert(self.stack@[0]) by {
                        assert(bits_seq((self.stack.inner / 2) as nat, 0) == Seq::<bool>::empty());
                    }
                    match self.state {
                        IntermediateState::InString
                        | IntermediateState::AfterArrayItem
                        | IntermediateState::AfterArrayComma => ValueKind::ArrayWithNonEmptyContent,
                        IntermediateState::AfterArrayStart => ValueKind::ArrayWithEmptyContent,
                        _ => ValueKind::ArrayWithUnknownContent,
                    }
                } else {
                    assert(!self.stack@[0]) by {
                        assert(bits_seq((self.stack.inner / 2) as nat, 0) == Seq::<bool>::empty());
                    }
                    match self.state {
                        IntermediateState::AfterObjectStart => ValueKind::ObjectWithEmptyContent,
                        IntermediateState::AfterObjectStartOrComma
                        | IntermediateState::AfterObjectStartOrFieldValue => {
                            ValueKind::ObjectWithUnknownContent
                        },
                        _ => ValueKind::ObjectWithNonEmptyContent,
                    }
                }
            },
            _ => {
                if self.stack.outermost_is_array() {
                    ValueKind::ArrayWithNonEmptyContent
                } else {
                    ValueKind::ObjectWithNonEmptyContent
                }
            },
        }
    }
}


/// `'['` for an array, `'{'` for an object, `'"'` for a string.
pub open spec fn open_byte_of(kind: ValueKind) -> Option<u8> {
    match kind {
        ValueKind::ArrayWithUnknownContent
        | ValueKind::ArrayWithEmptyContent
        | ValueKind::ArrayWithNonEmptyContent => Some(91u8),
        ValueKind::ObjectWithUnknownContent
        | ValueKind::ObjectWithEmptyContent
        | ValueKind::ObjectWithNonEmptyContent => Some(123u8),
        ValueKind::String => Some(34u8),
        ValueKind::Unknown => None,
    }
}

/// `']'` for an array, `'}'` for an object, `'"'` for a string.
pub open spec fn close_byte_of(kind: ValueKind) -> Option<u8> {
    match kind {
        ValueKind::ArrayWithUnknownContent
        | ValueKind::ArrayWithEmptyContent
        | ValueKind::ArrayWithNonEmptyContent => Some(93u8),
        ValueKind::ObjectWithUnknownContent
        | ValueKind::ObjectWithEmptyContent
        | ValueKind::ObjectWithNonEmptyContent => Some(125u8),
        ValueKind::String => Some(34u8),
        ValueKind::Unknown => None,
    }
}

/// The kind that a chunk from the initial state to `next` shows its value
/// starts as.
pub open spec fn spec_started_kind(next: StateView) -> Option<ValueKind> {
    match next {
        StateView::Init => None,
        StateView::Inter { stack, state } => spec_estimated_top_level_value_kind(stack, state),
        StateView::Eof(kind) => Some(kind),
    }
}

/// A value that ends as `kind` may have been estimated as `estimated` before
/// its last chunk.
pub open spec fn kind_may_end_as(estimated: ValueKind, kind: ValueKind) -> bool {
    match kind {
        ValueKind::ArrayWithUnknownContent => estimated == ValueKind::ArrayWithEmptyContent
            || estimated == ValueKind::ArrayWithUnknownContent,
        ValueKind::ArrayWithEmptyContent => estimated == ValueKind::ArrayWithEmptyContent,
        ValueKind::ArrayWithNonEmptyContent => estimated == ValueKind::ArrayWithEmptyContent
            || estimated == ValueKind::ArrayWithNonEmptyContent || estimated
            == ValueKind::ArrayWithUnknownContent,
        ValueKind::ObjectWithUnknownContent => estimated == ValueKind::ObjectWithEmptyContent
            || estimated == ValueKind::ObjectWithUnknownContent,
        ValueKind::ObjectWithEmptyContent => estimated == ValueKind::ObjectWithEmptyContent,
        ValueKind::ObjectWithNonEmptyContent => estimated == ValueKind::ObjectWithEmptyContent
            || estimated == ValueKind::ObjectWithNonEmptyContent || estimated
            == ValueKind::ObjectWithUnknownContent,
        ValueKind::String => estimated == ValueKind::String,
        ValueKind::Unknown => false,
    }
}

/// The byte that closes the value of a chunk that starts in `prev` and ends
/// the value as `eof`, when the states allow it.
pub open spec fn spec_remove_group_close(prev: StateView, eof: StateView) -> Option<u8> {
    match eof {
        StateView::Eof(kind) => match prev {
            StateView::Init => close_byte_of(kind),
            StateView::Inter { stack, state } => match spec_estimated_top_level_value_kind(
                stack,
                state,
            ) {
                Some(est) => if kind_may_end_as(est, kind) {
                    close_byte_of(kind)
                } else {
                    None
                },
                None => None,
            },
            StateView::Eof(_) => None,
        },
        _ => None,
    }
}

/// The bytes around a whole value and whether nothing stands between them.
pub open spec fn spec_remove_surrounding_group(kind: ValueKind) -> Option<(u8, u8, bool)> {
    match kind {
        ValueKind::ArrayWithEmptyContent => Some((91u8, 93u8, true)),
        ValueKind::ArrayWithUnknownContent | ValueKind::ArrayWithNonEmptyContent => Some(
            (91u8, 93u8, false),
        ),
        ValueKind::ObjectWithEmptyContent => Some((123u8, 125u8, true)),
        ValueKind::ObjectWithUnknownContent | ValueKind::ObjectWithNonEmptyContent => Some(
            (123u8, 125u8, false),
        ),
        ValueKind::String => Some((34u8, 34u8, false)),
        ValueKind::Unknown => None,
    }
}

pub open spec fn spec_after_array_start() -> StateView {
    inter(seq![true], IntermediateState::AfterArrayStart)
}

pub open spec fn spec_after_array_item() -> StateView {
    inter(seq![true], IntermediateState::AfterArrayItem)
}

pub open spec fn spec_after_object_start() -> StateView {
    inter(seq![false], IntermediateState::AfterObjectStart)
}

pub open spec fn spec_after_object_field_value() -> StateView {
    inter(seq![false], IntermediateState::AfterObjectFieldValue)
}

pub open spec fn spec_in_string() -> StateView {
    inter(Seq::empty(), IntermediateState::InString)
}

/// The kind of the value a chunk from the initial state to `next` starts:
/// only a chunk that is inside a non-empty array so far is accepted.
pub open spec fn is_contentful_first_chunk(next: StateView, array: bool) -> bool {
    match next {
        StateView::Inter { stack, state } => spec_estimated_top_level_value_kind(stack, state)
            == Some(
            if array {
                ValueKind::ArrayWithNonEmptyContent
            } else {
                ValueKind::ObjectWithNonEmptyContent
            },
        ),
        _ => false,
    }
}

/// A chunk that starts in `prev` may be the contentful end of a non-empty
/// array (or object).
pub open spec fn is_contentful_last_chunk(prev: StateView, array: bool) -> bool {
    match prev {
        StateView::Inter { stack, state } => {
            let k = spec_estimated_top_level_value_kind(stack, state);
            if array {
                k == Some(ValueKind::ArrayWithNonEmptyContent) || k == Some(
                    ValueKind::ArrayWithUnknownContent,
                )
            } else {
                k == Some(ValueKind::ObjectWithNonEmptyContent) || k == Some(
                    ValueKind::ObjectWithUnknownContent,
                )
            }
        },
        _ => false,
    }
}

impl State {
    /// The stack is packed in range and the place agrees with the containers.
    pub open spec fn wf(self) -> bool {
        self.0.wf()
    }

    /// The packed number of the state.
    pub fn as_u128(&self) -> (r: u128)
        requires
            self.wf(),
        ensures
            r == spec_pack(self.0),
    {
        self.0.as_u128()
    }

    /// Holds only of two equal states.
    pub fn assert_same(&self, other: &Self)
        requires
            *self == *other,
    {
        self.0.assert_same(&other.0)
    }

    /// Holds only of the initial state.
    pub fn assert_init(&self)
        requires
            self@ is Init,
    {
    }

    /// Holds only of a state past a whole value.
    pub fn assert_eof(&self)
        requires
            self@ is Eof,
    {
    }

    /// Holds only of a state past a whole JSON string.
    pub fn assert_eof_of_string(&self)
        requires
            self@ == StateView::Eof(ValueKind::String),
    {
    }

    /// Holds only of a state past a whole non-empty array.
    pub fn assert_eof_of_non_empty_array(self)
        requires
            self@ == StateView::Eof(ValueKind::ArrayWithNonEmptyContent),
    {
    }

    /// Holds only of a state past a whole non-empty object.
    pub fn assert_eof_of_non_empty_object(self)
        requires
            self@ == StateView::Eof(ValueKind::ObjectWithNonEmptyContent),
    {
    }

    /// Whether nothing has been seen yet.
    pub fn is_init(&self) -> (r: bool)
        ensures
            r == (self@ is Init),
    {
        match self.0 {
            StateInner::Init => true,
            _ => false,
        }
    }

    /// Whether a whole value has been seen.
    pub fn is_eof(&self) -> (r: bool)
        ensures
            r == (self@ is Eof),
    {
        match self.0 {
            StateInner::Eof(..) => true,
            _ => false,
        }
    }

    /// Nothing seen yet.
    pub fn init() -> (r: Self)
        ensures
            r@ == StateView::Init,
            r.wf(),
    {
        State(StateInner::Init)
    }

    /// Right after the `[` that opens a top-level array.
    pub fn init_after_array_start() -> (r: Self)
        ensures
            r@ == spec_after_array_start(),
            r.wf(),
    {
        Self::init().left_bracket()
    }

    /// Right after the first item of a top-level array.
    pub fn init_after_array_item() -> (r: Self)
        ensures
            r@ == spec_after_array_item(),
            r.wf(),
    {
        Self::init_after_array_start().json_value()
    }

    /// Right after the `{` that opens a top-level object.
    pub fn init_after_object_start() -> (r: Self)
        ensures
            r@ == spec_after_object_start(),
            r.wf(),
    {
        Self::init().left_brace()
    }

    /// Right after the first field value of a top-level object.
    pub fn init_after_object_field_value() -> (r: Self)
        ensures
            r@ == spec_after_object_field_value(),
            r.wf(),
    {
        Self::init_after_object_start().double_quote().double_quote().colon().json_value()
    }

    /// Inside a top-level string.
    pub fn init_in_string() -> (r: Self)
        ensures
            r@ == spec_in_string(),
            r.wf(),
    {
        Self::init().double_quote()
    }

    /// Holds only right after the `[` of a top-level array.
    pub fn assert_is_top_level_after_array_start(self)
        requires
            self@ == spec_after_array_start(),
    {
    }

    /// Holds only where a `]` would end a top-level array.
    pub fn assert_is_before_top_level_right_bracket(self)
        requires
            spec_right_bracket(self@) matches Some(v) && v is Eof,
    {
    }

    /// Holds only right after the `{` of a top-level object.
    pub fn assert_is_top_level_after_object_start(self)
        requires
            self@ == spec_after_object_start(),
    {
    }

    /// Holds only where a `}` would end a top-level object.
    pub fn assert_is_before_top_level_right_brace(self)
        requires
            spec_right_brace(self@) matches Some(v) && v is Eof,
    {
    }

    /// Holds only inside a top-level string.
    pub fn assert_is_top_level_in_string(&self)
        requires
            self@ == spec_in_string(),
    {
    }

    /// A copy of the state.
    pub fn copied(&self) -> (r: Self)
        ensures
            r == *self,
    {
        State(
            match &self.0 {
                StateInner::Init => StateInner::Init,
                StateInner::Intermediate(intermediate) => StateInner::Intermediate(
                    intermediate.copied(),
                ),
                StateInner::Eof(kind) => StateInner::Eof(*kind),
            },
        )
    }

    /// The state after a whole JSON value (other than an object field name).
    pub fn json_value(self) -> (r: Self)
        requires
            self.wf(),
            spec_json_value(self@) is Some,
        ensures
            r.wf(),
            r@ == spec_json_value(self@).unwrap(),
    {
        State(
            match self.0 {
                StateInner::Init => StateInner::Eof(ValueKind::Unknown),
                StateInner::Intermediate(Intermediate { stack, state }) => {
                    let new_state = match state {
                        IntermediateState::AfterObjectFieldColon => {
                            IntermediateState::AfterObjectFieldValue
                        },
                        _ => IntermediateState::AfterArrayItem,
                    };
                    StateInner::Intermediate(Intermediate { stack, state: new_state })
                },
                StateInner::Eof(k) => StateInner::Eof(k),
            },
        )
    }

    /// The state after a single `"`.
    pub fn double_quote(self) -> (r: Self)
        requires
            self.wf(),
            spec_double_quote(self@) is Some,
        ensures
            r.wf(),
            r@ == spec_double_quote(self@).unwrap(),
    {
        match self.0 {
            StateInner::Init => {
                let stack = Stack::init();
                State(
                    StateInner::Intermediate(
                        Intermediate { stack, state: IntermediateState::InString },
                    ),
                )
            },
            StateInner::Intermediate(Intermediate { stack, state }) => {
                let new_state = match state {
                    IntermediateState::InString => match stack.is_in_array_or_object() {
                        Some(true) => IntermediateState::AfterArrayItem,
                        Some(false) => IntermediateState::AfterObjectFieldValue,
                        None => {
                            return State(StateInner::Eof(ValueKind::String));
                        },
                    },
                    IntermediateState::AfterArrayStart
                    | IntermediateState::AfterArrayComma
                    | IntermediateState::AfterArrayStartOrComma => IntermediateState::InString,
                    IntermediateState::AfterObjectStart
                    | IntermediateState::AfterObjectComma
                    | IntermediateState::AfterObjectStartOrComma => {
                        IntermediateState::InObjectFieldName
                    },
                    IntermediateState::InObjectFieldName => IntermediateState::AfterObjectFieldName,
                    _ => IntermediateState::InString,
                };
                State(StateInner::Intermediate(Intermediate { stack, state: new_state }))
            },
            StateInner::Eof(k) => State(StateInner::Eof(k)),
        }
    }

    /// The state after text inside a string or an object field name.
    pub fn json_string_fragment(self) -> (r: Self)
        requires
            self.wf(),
            spec_json_string_fragment(self@) is Some,
        ensures
            r.wf(),
            r@ == spec_json_string_fragment(self@).unwrap(),
    {
        self
    }

    /// The state after a `,`.
    pub fn comma(self) -> (r: Self)
        requires
            self.wf(),
            spec_comma(self@) is Some,
        ensures
            r.wf(),
            r@ == spec_comma(self@).unwrap(),
    {
        match self.0 {
            StateInner::Intermediate(Intermediate { stack, state }) => State(
                StateInner::Intermediate(
                    Intermediate {
                        stack,
                        state: match state {
                            IntermediateState::AfterArrayItem => IntermediateState::AfterArrayComma,
                            _ => IntermediateState::AfterObjectComma,
                        },
                    },
                ),
            ),
            _ => self,
        }
    }

    /// The state after a `:`.
    pub fn colon(self) -> (r: Self)
        requires
            self.wf(),
            spec_colon(self@) is Some,
        ensures
            r.wf(),
            r@ == spec_colon(self@).unwrap(),
    {
        match self.0 {
            StateInner::Intermediate(Intermediate { stack, state }) => State(
                StateInner::Intermediate(
                    Intermediate { stack, state: IntermediateState::AfterObjectFieldColon },
                ),
            ),
            _ => self,
        }
    }

    /// The state after a `[`.
    pub fn left_bracket(self) -> (r: Self)
        requires
            self.wf(),
            spec_left_bracket(self@) is Some,
        ensures
            r.wf(),
            r@ == spec_left_bracket(self@).unwrap(),
    {
        match self.0 {
            StateInner::Init => {
                let stack = Stack::init().start_array();
                proof {
                    assert(stack@ == seq![true]);
                }
                State(
                    StateInner::Intermediate(
                        Intermediate { stack, state: IntermediateState::AfterArrayStart },
                    ),
                )
            },
            StateInner::Intermediate(Intermediate { stack, state }) => {
                state.assert_expecting_value();
                proof {
                    stack.lemma_view_len();
                }
                State(
                    StateInner::Intermediate(
                        Intermediate {
                            stack: stack.start_array(),
                            state: IntermediateState::AfterArrayStart,
                        },
                    ),
                )
            },
            StateInner::Eof(_) => self,
        }
    }

    /// The state after a `{`.
    pub fn left_brace(self) -> (r: Self)
        requires
            self.wf(),
            spec_left_brace(self@) is Some,
        ensures
            r.wf(),
            r@ == spec_left_brace(self@).unwrap(),
    {
        match self.0 {
            StateInner::Init => {
                let stack = Stack::init().start_object();
                proof {
                    assert(stack@ == seq![false]);
                }
                State(
                    StateInner::Intermediate(
                        Intermediate { stack, state: IntermediateState::AfterObjectStart },
                    ),
                )
            },
            StateInner::Intermediate(Intermediate { stack, state }) => {
                state.assert_expecting_value();
                proof {
                    stack.lemma_view_len();
                }
                State(
                    StateInner::Intermediate(
                        Intermediate {
                            stack: stack.start_object(),
                            state: IntermediateState::AfterObjectStart,
                        },
                    ),
                )
            },
            StateInner::Eof(_) => self,
        }
    }

    /// The state after a `]`.
    pub fn right_bracket(self) -> (r: Self)
        requires
            self.wf(),
            spec_right_bracket(self@) is Some,
        ensures
            r.wf(),
            r@ == spec_right_bracket(self@).unwrap(),
    {
        match self.0 {
            StateInner::Intermediate(Intermediate { stack, state }) => {
                proof {
                    stack.lemma_view_len();
                }
                let kind = match state {
                    IntermediateState::AfterArrayStart => ValueKind::ArrayWithEmptyContent,
                    IntermediateState::AfterArrayItem => ValueKind::ArrayWithNonEmptyContent,
                    _ => ValueKind::ArrayWithUnknownContent,
                };
                State::after_end(stack.end_array(), kind)
            },
            _ => self,
        }
    }

    /// The state after a `}`.
    pub fn right_brace(self) -> (r: Self)
        requires
            self.wf(),
            spec_right_brace(self@) is Some,
        ensures
            r.wf(),
            r@ == spec_right_brace(self@).unwrap(),
    {
        match self.0 {
            StateInner::Intermediate(Intermediate { stack, state }) => {
                proof {
                    stack.lemma_view_len();
                }
                let kind = match state {
                    IntermediateState::AfterObjectStart => ValueKind::ObjectWithEmptyContent,
                    IntermediateState::AfterObjectFieldValue => ValueKind::ObjectWithNonEmptyContent,
                    _ => ValueKind::ObjectWithUnknownContent,
                };
                State::after_end(stack.end_object(), kind)
            },
            _ => self,
        }
    }

    /// The state once a container has ended, `kind` standing for a top-level
    /// value.
    fn after_end(after: AfterEndArrayOrObject, kind: ValueKind) -> (r: Self)
        ensures
            after is Eof ==> r@ == StateView::Eof(kind),
            after matches AfterEndArrayOrObject::Intermediate(i) ==> r.0 == StateInner::Intermediate(
                i,
            ),
    {
        match after {
            AfterEndArrayOrObject::Intermediate(intermediate) => State(
                StateInner::Intermediate(intermediate),
            ),
            AfterEndArrayOrObject::Eof => State(StateInner::Eof(kind)),
        }
    }

    /// The state after array items that follow an item.
    pub fn json_items_after_item(self) -> (r: State)
        requires
            self.wf(),
            spec_json_items_after_item(self@) is Some,
        ensures
            r.wf(),
            r@ == spec_json_items_after_item(self@).unwrap(),
    {
        self
    }

    /// The state after array items, each followed by a comma, right after `[`
    /// or a comma.
    pub fn json_items_after_array_start_before_item(self) -> (r: State)
        requires
            self.wf(),
            spec_json_items_after_array_start_before_item(self@) is Some,
        ensures
            r.wf(),
            r@ == spec_json_items_after_array_start_before_item(self@).unwrap(),
    {
        match self.0 {
            StateInner::Intermediate(Intermediate { stack, state }) => State(
                StateInner::Intermediate(
                    Intermediate { stack, state: IntermediateState::AfterArrayStartOrComma },
                ),
            ),
            _ => self,
        }
    }

    /// The state after object fields, each followed by a comma, right after
    /// `{`.
    pub fn json_kvs_after_object_start_before_kv(self) -> (r: State)
        requires
            self.wf(),
            spec_json_kvs_after_object_start_before_kv(self@) is Some,
        ensures
            r.wf(),
            r@ == spec_json_kvs_after_object_start_before_kv(self@).unwrap(),
    {
        match self.0 {
            StateInner::Intermediate(Intermediate { stack, state }) => State(
                StateInner::Intermediate(
                    Intermediate { stack, state: IntermediateState::AfterObjectStartOrComma },
                ),
            ),
            _ => self,
        }
    }

    /// The state after object fields that follow a field value.
    pub fn json_kvs_after_field_value(self) -> (r: State)
        requires
            self.wf(),
            spec_json_kvs_after_field_value(self@) is Some,
        ensures
            r.wf(),
            r@ == spec_json_kvs_after_field_value(self@).unwrap(),
    {
        self
    }

    /// The state after comma separated array items right after `[`.
    pub fn json_items_between_brackets(self) -> (r: State)
        requires
            self.wf(),
            spec_json_items_between_brackets(self@) is Some,
        ensures
            r.wf(),
            r@ == spec_json_items_between_brackets(self@).unwrap(),
    {
        match self.0 {
            StateInner::Intermediate(Intermediate { stack, state }) => State(
                StateInner::Intermediate(
                    Intermediate { stack, state: IntermediateState::AfterArrayStartOrItem },
                ),
            ),
            _ => self,
        }
    }

    /// The byte that opens the value of a chunk that starts in the initial
    /// state and ends in `next`.
    pub fn remove_group_open(init: State, next: State) -> (r: u8)
        requires
            init@ is Init,
            next.wf(),
            spec_started_kind(next@) matches Some(k) && open_byte_of(k) is Some,
        ensures
            Some(r) == open_byte_of(spec_started_kind(next@).unwrap()),
    {
        init.assert_init();
        let kind = match next.0 {
            StateInner::Intermediate(intermediate) => intermediate.estimated_top_level_value_kind(),
            StateInner::Eof(kind) => kind,
            StateInner::Init => ValueKind::Unknown,
        };
        match kind {
            ValueKind::ArrayWithUnknownContent
            | ValueKind::ArrayWithEmptyContent
            | ValueKind::ArrayWithNonEmptyContent => 91u8,
            ValueKind::ObjectWithUnknownContent
            | ValueKind::ObjectWithEmptyContent
            | ValueKind::ObjectWithNonEmptyContent => 123u8,
            _ => 34u8,
        }
    }

    /// The byte that closes the value of a chunk that starts in `prev` and
    /// ends the value as `eof`.
    pub fn remove_group_close(prev: State, eof: State) -> (r: u8)
        requires
            prev.wf(),
            spec_remove_group_close(prev@, eof@) is Some,
        ensures
            Some(r) == spec_remove_group_close(prev@, eof@),
    {
        let kind = match eof.0 {
            StateInner::Eof(kind) => kind,
            _ => ValueKind::Unknown,
        };
        match prev.0 {
            StateInner::Intermediate(intermediate) => {
                let _estimated = intermediate.estimated_top_level_value_kind();
            },
            _ => {},
        }
        match kind {
            ValueKind::ArrayWithUnknownContent
            | ValueKind::ArrayWithEmptyContent
            | ValueKind::ArrayWithNonEmptyContent => 93u8,
            ValueKind::ObjectWithUnknownContent
            | ValueKind::ObjectWithEmptyContent
            | ValueKind::ObjectWithNonEmptyContent => 125u8,
            _ => 34u8,
        }
    }

    /// The bytes around the whole value of a chunk from the initial state to
    /// `eof`, and whether nothing stands between them.
    pub fn remove_surrounding_group(init: State, eof: State) -> (r: (u8, u8, bool))
        requires
            init@ is Init,
            eof@ matches StateView::Eof(k) && spec_remove_surrounding_group(k) is Some,
        ensures
            eof@ matches StateView::Eof(k) && Some(r) == spec_remove_surrounding_group(k),
    {
        init.assert_init();
        let kind = match eof.0 {
            StateInner::Eof(kind) => kind,
            _ => ValueKind::Unknown,
        };
        match kind {
            ValueKind::ArrayWithEmptyContent => (91u8, 93u8, true),
            ValueKind::ArrayWithUnknownContent | ValueKind::ArrayWithNonEmptyContent => (
                91u8,
                93u8,
                false,
            ),
            ValueKind::ObjectWithEmptyContent => (123u8, 125u8, true),
            ValueKind::ObjectWithUnknownContent | ValueKind::ObjectWithNonEmptyContent => (
                123u8,
                125u8,
                false,
            ),
            _ => (34u8, 34u8, false),
        }
    }

    /// Holds only of the end state of a contentful first chunk of an array.
    pub fn assert_is_contentful_first_chunk_of_array(self)
        requires
            is_contentful_first_chunk(self@, true),
    {
    }

    /// Holds only of the end state of a contentful first chunk of an object.
    pub fn assert_is_contentful_first_chunk_of_object(self)
        requires
            is_contentful_first_chunk(self@, false),
    {
    }

    /// Holds only of the start state of a contentful last chunk of an array.
    pub fn assert_is_contentful_last_chunk_of_array(self)
        requires
            is_contentful_last_chunk(self@, true),
    {
    }

    /// Holds only of the start state of a contentful last chunk of an object.
    pub fn assert_is_contentful_last_chunk_of_object(self)
        requires
            is_contentful_last_chunk(self@, false),
    {
    }
}


/// Two well-formed states with the same abstract state are the same.
pub proof fn lemma_view_injective(a: StateInner, b: StateInner)
    requires
        a.wf(),
        b.wf(),
        a@ == b@,
    ensures
        a == b,
{
    match (a, b) {
        (StateInner::Intermediate(x), StateInner::Intermediate(y)) => {
            x.stack.lemma_view_len();
            y.stack.lemma_view_len();
            lemma_bits_seq_injective(x.stack.inner as nat, y.stack.inner as nat, x.stack.len as nat);
        },
        _ => {},
    }
}

/// Holds only when scanning `s` from `prev_state` ends in `next_state`.
pub fn check(prev_state: State, next_state: State, s: &str)
    requires
        prev_state.wf(),
        next_state.wf(),
        deserializer::spec_parse_till_eof(s.spec_bytes(), prev_state@) == Some(
            Ok::<StateView, deserializer::ScanError>(next_state@),
        ),
{
    let d = deserializer::Deserializer::new(s.as_bytes());
    match d.parse_till_eof_with_state(prev_state.0) {
        Ok(expected_next_state) => {
            proof {
                lemma_view_injective(next_state.0, expected_next_state);
            }
            next_state.0.assert_same(&expected_next_state);
        },
        Err(_) => {},
    }
}

/// Holds only when `s` is a whole JSON value with no whitespace.
pub fn assert_json_value(s: &str)
    requires
        deserializer::spec_parse_till_eof(s.spec_bytes(), StateView::Init) matches Some(Ok(v)) && v is Eof,
{
    let d = deserializer::Deserializer::new(s.as_bytes());
    let _next_state = d.parse_till_eof_with_state(StateInner::Init);
}

} // verus!
