//! Scans JSON text (with no whitespace) from a state and finds the state the
//! text ends in.
use vstd::prelude::*;
use super::{
    after_value_in, inter_wf, is_array_state, is_object_state, inter, IntermediateState, StateView, ValueKind, MAX_DEPTH, Intermediate, Stack,
    StateInner, State, AfterEndArrayOrObject,
};

verus! {

/// What stops a scan, each with its message.
#[derive(Debug, Clone, Copy, PartialEq, Eq, Structural)]
pub enum ScanError {
    ExpectEofAfterValue,
    UnexpectedInPositiveNumber,
    ExpectDigitsAfterDot,
    ExpectDigitsInExp,
    EofInUnicodeEscape,
    CharInUnicodeEscape,
    ByteInEscape,
    EofInEscape,
    ControlCharInString,
    UnexpectedEof,
    IdentStartingWithN,
    IdentStartingWithT,
    ExpectJsonValue,
    CharsAfterArrayItem,
    ExpectRightBracket,
    CharsAfterObjectStart,
    CharsAfterObjectField,
    CharsAfterCommaInObject,
    CharsAfterObjectAfterOrComma,
    CharsAfterObjectStartOrFieldValue,
}

/// The message of an error.
pub open spec fn scan_error_msg(e: ScanError) -> Seq<char> {
    match e {
        ScanError::ExpectEofAfterValue => "expect EOF after json value"@,
        ScanError::UnexpectedInPositiveNumber => "unexpected when parsing positive number"@,
        ScanError::ExpectDigitsAfterDot => "expect digits after dot"@,
        ScanError::ExpectDigitsInExp => "expect digits in exp"@,
        ScanError::EofInUnicodeEscape => "unexpected EOF in string unicode escape"@,
        ScanError::CharInUnicodeEscape => "unexpected char in string unicode escape"@,
        ScanError::ByteInEscape => "unexpected byte in string escape"@,
        ScanError::EofInEscape => "unexpected EOF in string escape"@,
        ScanError::ControlCharInString => "unexpected ASCII control character in string"@,
        ScanError::UnexpectedEof => "unexpected EOF"@,
        ScanError::IdentStartingWithN => "unexpect ident starting with n"@,
        ScanError::IdentStartingWithT => "unexpect ident starting with t"@,
        ScanError::ExpectJsonValue => "expect json value"@,
        ScanError::CharsAfterArrayItem => "unexpect chars after array item"@,
        ScanError::ExpectRightBracket => "expect `]` after array start or item"@,
        ScanError::CharsAfterObjectStart => "unexpect chars after object start"@,
        ScanError::CharsAfterObjectField => "unexpect chars after object field"@,
        ScanError::CharsAfterCommaInObject => "unexpected chars after comma in object"@,
        ScanError::CharsAfterObjectAfterOrComma => "unexpected chars after object after or comma"@,
        ScanError::CharsAfterObjectStartOrFieldValue => "unexpect chars after object start or field value"@,
    }
}

/// `r` is an error with the message of `e`.
pub open spec fn is_scan_error<T>(r: Result<T, &'static str>, e: ScanError) -> bool {
    r matches Err(m) && m@ == scan_error_msg(e)
}

pub open spec fn is_digit(b: u8) -> bool {
    48 <= b <= 57
}

pub open spec fn is_hex_digit(b: u8) -> bool {
    is_digit(b) || (65 <= b <= 70) || (97 <= b <= 102)
}

/// A byte that may follow a backslash on its own: `" \ / b f n r t`.
pub open spec fn is_simple_escape(b: u8) -> bool {
    b == 34 || b == 92 || b == 47 || b == 98 || b == 102 || b == 110 || b == 114 || b == 116
}

/// Scans the rest of a string from `p`: `Ok((true, q))` when its closing
/// quote ends right before `q`, `Ok((false, len))` when the text ends inside
/// it, `Err` on a control byte or a bad escape.
pub open spec fn spec_in_string(s: Seq<u8>, p: int) -> Result<(bool, int), ScanError>
    decreases s.len() - p,
{
    if p < 0 || p >= s.len() {
        Ok((false, p))
    } else {
        let b = s[p];
        if b == 34 {
            Ok((true, p + 1))
        } else if b == 92 {
            if p + 1 >= s.len() {
                Err(ScanError::EofInEscape)
            } else if is_simple_escape(s[p + 1]) {
                spec_in_string(s, p + 2)
            } else if s[p + 1] == 117 {
                if p + 6 > s.len() {
                    Err(ScanError::EofInUnicodeEscape)
                } else if is_hex_digit(s[p + 2]) && is_hex_digit(s[p + 3]) && is_hex_digit(s[p + 4])
                    && is_hex_digit(s[p + 5]) {
                    spec_in_string(s, p + 6)
                } else {
                    Err(ScanError::CharInUnicodeEscape)
                }
            } else {
                Err(ScanError::ByteInEscape)
            }
        } else if b <= 0x1f {
            Err(ScanError::ControlCharInString)
        } else {
            spec_in_string(s, p + 1)
        }
    }
}

/// The position after the digits that start at `p`.
pub open spec fn spec_skip_digits(s: Seq<u8>, p: int) -> int
    decreases s.len() - p,
{
    if 0 <= p < s.len() && is_digit(s[p]) {
        spec_skip_digits(s, p + 1)
    } else {
        p
    }
}

/// One or more digits from `p`: the position after them.
pub open spec fn spec_one_or_more_digits(s: Seq<u8>, p: int) -> Option<int> {
    if 0 <= p < s.len() && is_digit(s[p]) {
        Some(spec_skip_digits(s, p + 1))
    } else {
        None
    }
}

/// The exponent part of a number that may start at `q`.
pub open spec fn spec_number_exp(s: Seq<u8>, q: int) -> Result<int, ScanError> {
    if 0 <= q < s.len() && s[q] == 101 {
        let q1 = if q + 1 < s.len() && (s[q + 1] == 45 || s[q + 1] == 43) {
            q + 2
        } else {
            q + 1
        };
        match spec_one_or_more_digits(s, q1) {
            Some(q2) => Ok(q2),
            None => Err(ScanError::ExpectDigitsInExp),
        }
    } else {
        Ok(q)
    }
}

/// A number without its sign from `p`: `int [frac] [exp]`, the position after
/// it.
pub open spec fn spec_positive_number(s: Seq<u8>, p: int) -> Result<int, ScanError> {
    if p < 0 || p >= s.len() {
        Err(ScanError::UnexpectedInPositiveNumber)
    } else {
        let int_end = if s[p] == 48 {
            Some(p + 1)
        } else if 49 <= s[p] <= 57 {
            Some(spec_skip_digits(s, p + 1))
        } else {
            None
        };
        match int_end {
            None => Err(ScanError::UnexpectedInPositiveNumber),
            Some(q) => {
                if 0 <= q < s.len() && s[q] == 46 {
                    match spec_one_or_more_digits(s, q + 1) {
                        Some(q2) => spec_number_exp(s, q2),
                        None => Err(ScanError::ExpectDigitsAfterDot),
                    }
                } else {
                    spec_number_exp(s, q)
                }
            },
        }
    }
}

/// What starts at a place where a JSON value is expected.
#[derive(Debug, Clone, Copy, PartialEq, Eq, Structural)]
pub enum ParseJsonValueNoNestingOutput {
    /// A whole scalar value or string.
    JsonValue,
    /// A string that the text ends inside of.
    EofInString,
    ArrayStart,
    ObjectStart,
}

/// Whether the string closed or the text ended inside it.
#[derive(Debug, Clone, Copy, PartialEq, Eq, Structural)]
pub enum ParseInString {
    StringEnded,
    EofInString,
}

pub open spec fn bytes_at(s: Seq<u8>, p: int, lit: Seq<u8>) -> bool {
    p + lit.len() <= s.len() && s.subrange(p, p + lit.len()) == lit
}

/// A value without looking inside arrays and objects, from `p`.
pub open spec fn spec_value_no_nesting(s: Seq<u8>, p: int) -> Result<
    (ParseJsonValueNoNestingOutput, int),
    ScanError,
> {
    if p < 0 || p >= s.len() {
        Err(ScanError::UnexpectedEof)
    } else {
        let b = s[p];
        if b == 110 {
            if bytes_at(s, p + 1, seq![117u8, 108u8, 108u8]) {
                Ok((ParseJsonValueNoNestingOutput::JsonValue, p + 4))
            } else {
                Err(ScanError::IdentStartingWithN)
            }
        } else if b == 116 {
            if bytes_at(s, p + 1, seq![114u8, 117u8, 101u8]) {
                Ok((ParseJsonValueNoNestingOutput::JsonValue, p + 4))
            } else {
                Err(ScanError::IdentStartingWithT)
            }
        } else if b == 102 {
            if bytes_at(s, p + 1, seq![97u8, 108u8, 115u8, 101u8]) {
                Ok((ParseJsonValueNoNestingOutput::JsonValue, p + 5))
            } else {
                Err(ScanError::IdentStartingWithT)
            }
        } else if b == 45 {
            match spec_positive_number(s, p + 1) {
                Ok(q) => Ok((ParseJsonValueNoNestingOutput::JsonValue, q)),
                Err(e) => Err(e),
            }
        } else if is_digit(b) {
            match spec_positive_number(s, p) {
                Ok(q) => Ok((ParseJsonValueNoNestingOutput::JsonValue, q)),
                Err(e) => Err(e),
            }
        } else if b == 34 {
            match spec_in_string(s, p + 1) {
                Ok((true, q)) => Ok((ParseJsonValueNoNestingOutput::JsonValue, q)),
                Ok((false, q)) => Ok((ParseJsonValueNoNestingOutput::EofInString, q)),
                Err(e) => Err(e),
            }
        } else if b == 91 {
            Ok((ParseJsonValueNoNestingOutput::ArrayStart, p + 1))
        } else if b == 123 {
            Ok((ParseJsonValueNoNestingOutput::ObjectStart, p + 1))
        } else {
            Err(ScanError::ExpectJsonValue)
        }
    }
}

/// One step of the scan: go on from a new place, or stop with an outcome.
/// An outcome of `None` stands for nesting deeper than the stack holds.
pub enum Step {
    Continue(Seq<bool>, IntermediateState, int),
    Done(Option<Result<StateView, ScanError>>),
}

/// The whole text must end where a top-level value ends.
pub open spec fn done_at_eof(s: Seq<u8>, q: int, kind: ValueKind) -> Step {
    if q == s.len() {
        Step::Done(Some(Ok(StateView::Eof(kind))))
    } else {
        Step::Done(Some(Err(ScanError::ExpectEofAfterValue)))
    }
}

/// Ends the innermost container at `q`.
pub open spec fn step_end(s: Seq<u8>, stack: Seq<bool>, q: int, kind: ValueKind) -> Step {
    let rest = stack.drop_last();
    match after_value_in(rest) {
        Some(st) => Step::Continue(rest, st, q),
        None => done_at_eof(s, q, kind),
    }
}

/// A value where one is expected; `after` is the place once it has ended.
pub open spec fn step_value(s: Seq<u8>, p: int, stack: Seq<bool>, after: IntermediateState) -> Step {
    match spec_value_no_nesting(s, p) {
        Err(e) => Step::Done(Some(Err(e))),
        Ok((ParseJsonValueNoNestingOutput::JsonValue, q)) => Step::Continue(stack, after, q),
        Ok((ParseJsonValueNoNestingOutput::EofInString, _)) => Step::Done(
            Some(Ok(inter(stack, IntermediateState::InString))),
        ),
        Ok((ParseJsonValueNoNestingOutput::ArrayStart, q)) => if stack.len() < MAX_DEPTH {
            Step::Continue(stack.push(true), IntermediateState::AfterArrayStart, q)
        } else {
            Step::Done(None)
        },
        Ok((ParseJsonValueNoNestingOutput::ObjectStart, q)) => if stack.len() < MAX_DEPTH {
            Step::Continue(stack.push(false), IntermediateState::AfterObjectStart, q)
        } else {
            Step::Done(None)
        },
    }
}

/// One step of the scan from place `state` (inside `stack`) at `p`.
pub open spec fn spec_step(s: Seq<u8>, p: int, stack: Seq<bool>, state: IntermediateState) -> Step {
    let here = Step::Done(Some(Ok(inter(stack, state))));
    let at_end = p >= s.len();
    match state {
        IntermediateState::InString => match spec_in_string(s, p) {
            Err(e) => Step::Done(Some(Err(e))),
            Ok((true, q)) => match after_value_in(stack) {
                Some(st) => Step::Continue(stack, st, q),
                None => done_at_eof(s, q, ValueKind::String),
            },
            Ok((false, _)) => here,
        },
        IntermediateState::AfterArrayStart => if !at_end && s[p] == 93 {
            step_end(s, stack, p + 1, ValueKind::ArrayWithEmptyContent)
        } else {
            step_value(s, p, stack, IntermediateState::AfterArrayItem)
        },
        IntermediateState::AfterArrayItem => if at_end {
            here
        } else if s[p] == 44 {
            Step::Continue(stack, IntermediateState::AfterArrayComma, p + 1)
        } else if s[p] == 93 {
            step_end(s, stack, p + 1, ValueKind::ArrayWithNonEmptyContent)
        } else {
            Step::Done(Some(Err(ScanError::CharsAfterArrayItem)))
        },
        IntermediateState::AfterArrayStartOrItem => if at_end {
            here
        } else if s[p] == 93 {
            step_end(s, stack, p + 1, ValueKind::ArrayWithUnknownContent)
        } else {
            Step::Done(Some(Err(ScanError::ExpectRightBracket)))
        },
        IntermediateState::AfterArrayComma | IntermediateState::AfterArrayStartOrComma => if at_end {
            here
        } else {
            step_value(s, p, stack, IntermediateState::AfterArrayItem)
        },
        IntermediateState::AfterObjectStart => if at_end {
            here
        } else if s[p] == 125 {
            step_end(s, stack, p + 1, ValueKind::ObjectWithEmptyContent)
        } else if s[p] == 34 {
            Step::Continue(stack, IntermediateState::InObjectFieldName, p + 1)
        } else {
            Step::Done(Some(Err(ScanError::CharsAfterObjectStart)))
        },
        IntermediateState::InObjectFieldName => match spec_in_string(s, p) {
            Err(e) => Step::Done(Some(Err(e))),
            Ok((true, q)) => Step::Continue(stack, IntermediateState::AfterObjectFieldName, q),
            Ok((false, _)) => here,
        },
        IntermediateState::AfterObjectFieldName => if at_end {
            here
        } else if s[p] == 58 {
            Step::Continue(stack, IntermediateState::AfterObjectFieldColon, p + 1)
        } else {
            Step::Done(Some(Err(ScanError::CharsAfterObjectStart)))
        },
        IntermediateState::AfterObjectFieldColon => step_value(
            s,
            p,
            stack,
            IntermediateState::AfterObjectFieldValue,
        ),
        IntermediateState::AfterObjectFieldValue => if at_end {
            here
        } else if s[p] == 44 {
            Step::Continue(stack, IntermediateState::AfterObjectComma, p + 1)
        } else if s[p] == 125 {
            step_end(s, stack, p + 1, ValueKind::ObjectWithNonEmptyContent)
        } else {
            Step::Done(Some(Err(ScanError::CharsAfterObjectField)))
        },
        IntermediateState::AfterObjectComma => if at_end {
            here
        } else if s[p] == 34 {
            Step::Continue(stack, IntermediateState::InObjectFieldName, p + 1)
        } else {
            Step::Done(Some(Err(ScanError::CharsAfterCommaInObject)))
        },
        IntermediateState::AfterObjectStartOrComma => if at_end {
            here
        } else if s[p] == 34 {
            Step::Continue(stack, IntermediateState::InObjectFieldName, p + 1)
        } else {
            Step::Done(Some(Err(ScanError::CharsAfterObjectAfterOrComma)))
        },
        IntermediateState::AfterObjectStartOrFieldValue => if at_end {
            here
        } else if s[p] == 125 {
            step_end(s, stack, p + 1, ValueKind::ObjectWithUnknownContent)
        } else {
            Step::Done(Some(Err(ScanError::CharsAfterObjectStartOrFieldValue)))
        },
    }
}

/// Scans from place `state` (inside `stack`) at `p` to the end of the text.
pub open spec fn spec_run(s: Seq<u8>, p: int, stack: Seq<bool>, state: IntermediateState) -> Option<
    Result<StateView, ScanError>,
>
    decreases s.len() - p,
{
    match spec_step(s, p, stack, state) {
        Step::Continue(stack2, state2, q) => if p < q <= s.len() {
            spec_run(s, q, stack2, state2)
        } else {
            Some(Err(ScanError::UnexpectedEof))
        },
        Step::Done(r) => r,
    }
}

/// Scans all of `s` from the state `v`. `None` stands for nesting deeper
/// than the stack holds.
pub open spec fn spec_parse_till_eof(s: Seq<u8>, v: StateView) -> Option<Result<StateView, ScanError>> {
    match v {
        StateView::Init => match spec_value_no_nesting(s, 0) {
            Err(e) => Some(Err(e)),
            Ok((ParseJsonValueNoNestingOutput::JsonValue, q)) => if q == s.len() {
                Some(
                    Ok(
                        StateView::Eof(
                            if s[0] == 34 {
                                ValueKind::String
                            } else {
                                ValueKind::Unknown
                            },
                        ),
                    ),
                )
            } else {
                Some(Err(ScanError::ExpectEofAfterValue))
            },
            Ok((ParseJsonValueNoNestingOutput::EofInString, _)) => Some(
                Ok(inter(Seq::empty(), IntermediateState::InString)),
            ),
            Ok((ParseJsonValueNoNestingOutput::ArrayStart, q)) => spec_run(
                s,
                q,
                seq![true],
                IntermediateState::AfterArrayStart,
            ),
            Ok((ParseJsonValueNoNestingOutput::ObjectStart, q)) => spec_run(
                s,
                q,
                seq![false],
                IntermediateState::AfterObjectStart,
            ),
        },
        StateView::Inter { stack, state } => spec_run(s, 0, stack, state),
        StateView::Eof(k) => if s.len() == 0 {
            Some(Ok(v))
        } else {
            Some(Err(ScanError::ExpectEofAfterValue))
        },
    }
}

/// Reads JSON text from the front.
pub struct Deserializer<'a> {
    pub bytes: &'a [u8],
    pub pos: usize,
}

impl<'a> View for Deserializer<'a> {
    type V = Seq<u8>;

    /// The text not yet read.
    open spec fn view(&self) -> Seq<u8> {
        self.bytes@.skip(self.pos as int)
    }
}

impl<'a> Deserializer<'a> {
    pub open spec fn wf(self) -> bool {
        self.pos <= self.bytes@.len()
    }

    /// Starts reading the bytes of `s`.
    pub fn new(s: &'a [u8]) -> (r: Self)
        ensures
            r.wf(),
            r.bytes@ == s@,
            r.pos == 0,
    {
        Deserializer { bytes: s, pos: 0 }
    }

    /// The next byte, not read yet.
    pub fn peek(&self) -> (r: Option<u8>)
        requires
            self.wf(),
        ensures
            r == (if self.pos < self.bytes@.len() {
                Some(self.bytes@[self.pos as int])
            } else {
                None
            }),
    {
        if self.pos < self.bytes.len() {
            Some(self.bytes[self.pos])
        } else {
            None
        }
    }

    /// Reads the next byte, if any.
    pub fn next_byte(&mut self) -> (r: Option<u8>)
        requires
            old(self).wf(),
        ensures
            final(self).wf(),
            final(self).bytes == old(self).bytes,
            old(self).pos < old(self).bytes@.len() ==> r == Some(old(self).bytes@[old(self).pos as int])
                && final(self).pos == old(self).pos + 1,
            old(self).pos >= old(self).bytes@.len() ==> r is None && final(self).pos == old(self).pos,
    {
        if self.pos < self.bytes.len() {
            let b = self.bytes[self.pos];
            self.pos = self.pos + 1;
            Some(b)
        } else {
            None
        }
    }

    /// Reads a byte that is known to be there.
    pub fn eat_byte(&mut self)
        requires
            old(self).wf(),
            old(self).pos < old(self).bytes@.len(),
        ensures
            final(self).wf(),
            final(self).bytes == old(self).bytes,
            final(self).pos == old(self).pos + 1,
    {
        let _ = self.next_byte();
    }

    /// Reads `lit` if the text goes on with it; reads nothing otherwise.
    pub fn next_n(&mut self, lit: &[u8]) -> (r: bool)
        requires
            old(self).wf(),
        ensures
            final(self).wf(),
            final(self).bytes == old(self).bytes,
            r == bytes_at(old(self).bytes@, old(self).pos as int, lit@),
            r ==> final(self).pos == old(self).pos + lit@.len(),
            !r ==> final(self).pos == old(self).pos,
    {
        if lit.len() > self.bytes.len() - self.pos {
            return false;
        }
        let mut i: usize = 0;
        while i < lit.len()
            invariant
                self.wf(),
                i <= lit@.len(),
                self.pos + lit@.len() <= self.bytes@.len(),
                self.bytes@.len() == self.bytes.len(),
                forall|j: int| 0 <= j < i ==> self.bytes@[self.pos + j] == lit@[j],
            decreases lit@.len() - i,
        {
            if self.bytes[self.pos + i] != lit[i] {
                assert(self.bytes@.subrange(self.pos as int, self.pos + lit@.len())[i as int]
                    != lit@[i as int]);
                return false;
            }
            i = i + 1;
        }
        assert(self.bytes@.subrange(self.pos as int, self.pos + lit@.len()) =~= lit@);
        self.pos = self.pos + lit.len();
        true
    }

    /// Nothing is left to read.
    pub fn expect_eof_after_value(&self) -> (r: Result<(), &'static str>)
        requires
            self.wf(),
        ensures
            r is Ok <==> self.pos == self.bytes@.len(),
            r is Err ==> is_scan_error(r, ScanError::ExpectEofAfterValue),
    {
        if self.pos >= self.bytes.len() {
            Ok(())
        } else {
            Err("expect EOF after json value")
        }
    }

    /// Reads digits while there are any.
    fn skip_digits(&mut self)
        requires
            old(self).wf(),
        ensures
            final(self).wf(),
            final(self).bytes == old(self).bytes,
            final(self).pos == spec_skip_digits(old(self).bytes@, old(self).pos as int),
    {
        loop
            invariant
                self.wf(),
                self.bytes == old(self).bytes,
                spec_skip_digits(self.bytes@, self.pos as int) == spec_skip_digits(
                    old(self).bytes@,
                    old(self).pos as int,
                ),
            decreases self.bytes@.len() - self.pos,
        {
            match self.peek() {
                Some(b) => {
                    if 48 <= b && b <= 57 {
                        self.eat_byte();
                    } else {
                        return ;
                    }
                },
                None => {
                    return ;
                },
            }
        }
    }

    /// Reads one or more digits.
    pub fn parse_one_or_more_digits(&mut self) -> (r: Option<()>)
        requires
            old(self).wf(),
        ensures
            final(self).wf(),
            final(self).bytes == old(self).bytes,
            match spec_one_or_more_digits(old(self).bytes@, old(self).pos as int) {
                Some(q) => r is Some && final(self).pos == q,
                None => r is None && final(self).pos == old(self).pos,
            },
    {
        match self.peek() {
            Some(b) => {
                if !(48 <= b && b <= 57) {
                    return None;
                }
            },
            None => {
                return None;
            },
        }
        self.eat_byte();
        self.skip_digits();
        Some(())
    }

    /// Reads a number without its sign.
    pub fn parse_positive_number(&mut self) -> (r: Result<(), &'static str>)
        requires
            old(self).wf(),
        ensures
            final(self).wf(),
            final(self).bytes == old(self).bytes,
            match spec_positive_number(old(self).bytes@, old(self).pos as int) {
                Ok(q) => r is Ok && final(self).pos == q,
                Err(e) => is_scan_error(r, e),
            },
    {
        match self.next_byte() {
            Some(b) => {
                if b == 48 {
                } else if 49 <= b && b <= 57 {
                    self.skip_digits();
                } else {
                    return Err("unexpected when parsing positive number");
                }
            },
            None => {
                return Err("unexpected when parsing positive number");
            },
        }
        if self.peek() == Some(46u8) {
            self.eat_byte();
            if self.parse_one_or_more_digits().is_none() {
                return Err("expect digits after dot");
            }
        }
        if self.peek() == Some(101u8) {
            self.eat_byte();
            match self.peek() {
                Some(b) => {
                    if b == 45 || b == 43 {
                        self.eat_byte();
                    }
                },
                None => {},
            }
            if self.parse_one_or_more_digits().is_none() {
                return Err("expect digits in exp");
            }
        }
        Ok(())
    }

    /// Reads the rest of a string.
    pub fn parse_in_string(&mut self) -> (r: Result<ParseInString, &'static str>)
        requires
            old(self).wf(),
        ensures
            final(self).wf(),
            final(self).bytes == old(self).bytes,
            match spec_in_string(old(self).bytes@, old(self).pos as int) {
                Ok((true, q)) => r == Ok::<ParseInString, &'static str>(ParseInString::StringEnded)
                    && final(self).pos == q,
                Ok((false, q)) => r == Ok::<ParseInString, &'static str>(
                    ParseInString::EofInString,
                ) && final(self).pos == q,
                Err(e) => is_scan_error(r, e),
            },
    {
        loop
            invariant
                self.wf(),
                self.bytes == old(self).bytes,
                spec_in_string(self.bytes@, self.pos as int) == spec_in_string(
                    old(self).bytes@,
                    old(self).pos as int,
                ),
            decreases self.bytes@.len() - self.pos,
        {
            match self.next_byte() {
                None => {
                    return Ok(ParseInString::EofInString);
                },
                Some(b) => {
                    if b == 34 {
                        return Ok(ParseInString::StringEnded);
                    } else if b == 92 {
                        match self.next_byte() {
                            Some(c) => {
                                if c == 34 || c == 92 || c == 47 || c == 98 || c == 102 || c == 110
                                    || c == 114 || c == 116 {
                                } else if c == 117 {
                                    if self.bytes.len() - self.pos < 4 {
                                        return Err("unexpected EOF in string unicode escape");
                                    }
                                    let d0 = self.bytes[self.pos];
                                    let d1 = self.bytes[self.pos + 1];
                                    let d2 = self.bytes[self.pos + 2];
                                    let d3 = self.bytes[self.pos + 3];
                                    if is_hex(d0) && is_hex(d1) && is_hex(d2) && is_hex(d3) {
                                        self.pos = self.pos + 4;
                                    } else {
                                        return Err("unexpected char in string unicode escape");
                                    }
                                } else {
                                    return Err("unexpected byte in string escape");
                                }
                            },
                            None => {
                                return Err("unexpected EOF in string escape");
                            },
                        }
                    } else if b <= 0x1f {
                        return Err("unexpected ASCII control character in string");
                    }
                },
            }
        }
    }

    /// Reads a value where one is expected, without going inside arrays and
    /// objects.
    pub fn parse_json_value_no_nesting(&mut self) -> (r: Result<
        ParseJsonValueNoNestingOutput,
        &'static str,
    >)
        requires
            old(self).wf(),
        ensures
            final(self).wf(),
            final(self).bytes == old(self).bytes,
            match spec_value_no_nesting(old(self).bytes@, old(self).pos as int) {
                Ok((out, q)) => r == Ok::<ParseJsonValueNoNestingOutput, &'static str>(out)
                    && final(self).pos == q,
                Err(e) => is_scan_error(r, e),
            },
    {
        let peek = match self.peek() {
            Some(b) => b,
            None => {
                return Err("unexpected EOF");
            },
        };
        if peek == 110 {
            self.eat_byte();
            if !self.next_n(&[117u8, 108u8, 108u8]) {
                return Err("unexpect ident starting with n");
            }
            Ok(ParseJsonValueNoNestingOutput::JsonValue)
        } else if peek == 116 {
            self.eat_byte();
            if !self.next_n(&[114u8, 117u8, 101u8]) {
                return Err("unexpect ident starting with t");
            }
            Ok(ParseJsonValueNoNestingOutput::JsonValue)
        } else if peek == 102 {
            self.eat_byte();
            if !self.next_n(&[97u8, 108u8, 115u8, 101u8]) {
                return Err("unexpect ident starting with t");
            }
            Ok(ParseJsonValueNoNestingOutput::JsonValue)
        } else if peek == 45 {
            self.eat_byte();
            match self.parse_positive_number() {
                Ok(()) => Ok(ParseJsonValueNoNestingOutput::JsonValue),
                Err(e) => Err(e),
            }
        } else if 48 <= peek && peek <= 57 {
            match self.parse_positive_number() {
                Ok(()) => Ok(ParseJsonValueNoNestingOutput::JsonValue),
                Err(e) => Err(e),
            }
        } else if peek == 34 {
            self.eat_byte();
            match self.parse_in_string() {
                Ok(ParseInString::StringEnded) => Ok(ParseJsonValueNoNestingOutput::JsonValue),
                Ok(ParseInString::EofInString) => Ok(ParseJsonValueNoNestingOutput::EofInString),
                Err(e) => Err(e),
            }
        } else if peek == 91 {
            self.eat_byte();
            Ok(ParseJsonValueNoNestingOutput::ArrayStart)
        } else if peek == 123 {
            self.eat_byte();
            Ok(ParseJsonValueNoNestingOutput::ObjectStart)
        } else {
            Err("expect json value")
        }
    }

    /// Scans the rest of the text from the place `inter_state`.
    pub fn parse_till_eof_with_intermediate_state(self, inter_state: Intermediate) -> (r: Result<
        StateInner,
        &'static str,
    >)
        requires
            self.wf(),
            inter_state.wf(),
            spec_run(self.bytes@, self.pos as int, inter_state.stack@, inter_state.state) is Some,
        ensures
            match spec_run(self.bytes@, self.pos as int, inter_state.stack@, inter_state.state) {
                Some(Ok(v)) => r matches Ok(si) && si@ == v && si.wf(),
                Some(Err(e)) => is_scan_error(r, e),
                None => r is Err,
            },
    {
        let ghost target = spec_run(self.bytes@, self.pos as int, inter_state.stack@, inter_state.state);
        let ghost s = self.bytes@;
        let mut this = self;
        let mut cur = inter_state;
        loop
            invariant
                this.wf(),
                this.bytes@ == s,
                cur.wf(),
                spec_run(s, this.pos as int, cur.stack@, cur.state) == target,
                target is Some,
                target == spec_run(self.bytes@, self.pos as int, inter_state.stack@, inter_state.state),
            decreases s.len() - this.pos,
        {
            let ghost p = this.pos as int;
            let ghost stack0 = cur.stack@;
            let ghost state0 = cur.state;
            proof {
                lemma_step_progress(s, p, stack0, state0);
                cur.stack.lemma_view_len();
            }
            let at_end = this.pos >= this.bytes.len();
            let out: Option<Result<StateInner, &'static str>> = match cur.state {
                IntermediateState::InString => match this.parse_in_string() {
                    Err(e) => Some(Err(e)),
                    Ok(ParseInString::StringEnded) => match cur.stack.is_in_array_or_object() {
                        Some(true) => {
                            cur.state = IntermediateState::AfterArrayItem;
                            None
                        },
                        Some(false) => {
                            cur.state = IntermediateState::AfterObjectFieldValue;
                            None
                        },
                        None => Some(
                            match this.expect_eof_after_value() {
                                Ok(()) => Ok(StateInner::Eof(ValueKind::String)),
                                Err(e) => Err(e),
                            },
                        ),
                    },
                    Ok(ParseInString::EofInString) => Some(
                        Ok(
                            StateInner::Intermediate(
                                Intermediate {
                                    stack: cur.stack,
                                    state: IntermediateState::InString,
                                },
                            ),
                        ),
                    ),
                },
                IntermediateState::AfterArrayStart => {
                    if this.peek() == Some(93u8) {
                        this.eat_byte();
                        this.end_group(&mut cur, ValueKind::ArrayWithEmptyContent)
                    } else {
                        this.parse_value(&mut cur, IntermediateState::AfterArrayItem)
                    }
                },
                IntermediateState::AfterArrayItem => match this.next_byte() {
                    None => Some(Ok(StateInner::Intermediate(cur))),
                    Some(b) => {
                        if b == 44 {
                            cur.state = IntermediateState::AfterArrayComma;
                            None
                        } else if b == 93 {
                            this.end_group(&mut cur, ValueKind::ArrayWithNonEmptyContent)
                        } else {
                            Some(Err("unexpect chars after array item"))
                        }
                    },
                },
                IntermediateState::AfterArrayStartOrItem => match this.next_byte() {
                    None => Some(Ok(StateInner::Intermediate(cur))),
                    Some(b) => {
                        if b == 93 {
                            this.end_group(&mut cur, ValueKind::ArrayWithUnknownContent)
                        } else {
                            Some(Err("expect `]` after array start or item"))
                        }
                    },
                },
                IntermediateState::AfterArrayComma | IntermediateState::AfterArrayStartOrComma => {
                    if at_end {
                        Some(Ok(StateInner::Intermediate(cur)))
                    } else {
                        this.parse_value(&mut cur, IntermediateState::AfterArrayItem)
                    }
                },
                IntermediateState::AfterObjectStart => match this.next_byte() {
                    None => Some(Ok(StateInner::Intermediate(cur))),
                    Some(b) => {
                        if b == 125 {
                            this.end_group(&mut cur, ValueKind::ObjectWithEmptyContent)
                        } else if b == 34 {
                            cur.state = IntermediateState::InObjectFieldName;
                            None
                        } else {
                            Some(Err("unexpect chars after object start"))
                        }
                    },
                },
                IntermediateState::InObjectFieldName => match this.parse_in_string() {
                    Err(e) => Some(Err(e)),
                    Ok(ParseInString::StringEnded) => {
                        cur.state = IntermediateState::AfterObjectFieldName;
                        None
                    },
                    Ok(ParseInString::EofInString) => Some(
                        Ok(
                            StateInner::Intermediate(
                                Intermediate {
                                    stack: cur.stack,
                                    state: IntermediateState::InObjectFieldName,
                                },
                            ),
                        ),
                    ),
                },
                IntermediateState::AfterObjectFieldName => match this.next_byte() {
                    None => Some(Ok(StateInner::Intermediate(cur))),
                    Some(b) => {
                        if b == 58 {
                            cur.state = IntermediateState::AfterObjectFieldColon;
                            None
                        } else {
                            Some(Err("unexpect chars after object start"))
                        }
                    },
                },
                IntermediateState::AfterObjectFieldColon => {
                    this.parse_value(&mut cur, IntermediateState::AfterObjectFieldValue)
                },
                IntermediateState::AfterObjectFieldValue => match this.next_byte() {
                    None => Some(Ok(StateInner::Intermediate(cur))),
                    Some(b) => {
                        if b == 44 {
                            cur.state = IntermediateState::AfterObjectComma;
                            None
                        } else if b == 125 {
                            this.end_group(&mut cur, ValueKind::ObjectWithNonEmptyContent)
                        } else {
                            Some(Err("unexpect chars after object field"))
                        }
                    },
                },
                IntermediateState::AfterObjectComma => match this.next_byte() {
                    None => Some(Ok(StateInner::Intermediate(cur))),
                    Some(b) => {
                        if b == 34 {
                            cur.state = IntermediateState::InObjectFieldName;
                            None
                        } else {
                            Some(Err("unexpected chars after comma in object"))
                        }
                    },
                },
                IntermediateState::AfterObjectStartOrComma => match this.next_byte() {
                    None => Some(Ok(StateInner::Intermediate(cur))),
                    Some(b) => {
                        if b == 34 {
                            cur.state = IntermediateState::InObjectFieldName;
                            None
                        } else {
                            Some(Err("unexpected chars after object after or comma"))
                        }
                    },
                },
                IntermediateState::AfterObjectStartOrFieldValue => match this.next_byte() {
                    None => Some(Ok(StateInner::Intermediate(cur))),
                    Some(b) => {
                        if b == 125 {
                            this.end_group(&mut cur, ValueKind::ObjectWithUnknownContent)
                        } else {
                            Some(Err("unexpect chars after object start or field value"))
                        }
                    },
                },
            };
            proof {
                assert(step_agrees(spec_step(s, p, stack0, state0), out, cur, this.pos as int));
            }
            match out {
                Some(r) => {
                    proof {
                        assert(spec_step(s, p, stack0, state0) is Done);
                        assert(spec_run(s, p, stack0, state0) == spec_step(s, p, stack0, state0)->Done_0);
                    }
                    return r;
                },
                None => {},
            }
        }
    }

    /// Scans all of the text from `state`.
    pub fn parse_till_eof_with_state(self, state: StateInner) -> (r: Result<StateInner, &'static str>)
        requires
            self.wf(),
            self.pos == 0,
            state.wf(),
            spec_parse_till_eof(self.bytes@, state@) is Some,
        ensures
            match spec_parse_till_eof(self.bytes@, state@) {
                Some(Ok(v)) => r matches Ok(si) && si@ == v && si.wf(),
                Some(Err(e)) => is_scan_error(r, e),
                None => r is Err,
            },
    {
        let mut this = self;
        match state {
            StateInner::Init => {
                let starts_string = this.peek() == Some(34u8);
                match this.parse_json_value_no_nesting() {
                    Err(e) => Err(e),
                    Ok(ParseJsonValueNoNestingOutput::JsonValue) => {
                        match this.expect_eof_after_value() {
                            Err(e) => Err(e),
                            Ok(()) => Ok(
                                StateInner::Eof(
                                    if starts_string {
                                        ValueKind::String
                                    } else {
                                        ValueKind::Unknown
                                    },
                                ),
                            ),
                        }
                    },
                    Ok(ParseJsonValueNoNestingOutput::EofInString) => {
                        let stack = Stack::init();
                        Ok(
                            StateInner::Intermediate(
                                Intermediate { stack, state: IntermediateState::InString },
                            ),
                        )
                    },
                    Ok(ParseJsonValueNoNestingOutput::ArrayStart) => {
                        let stack = Stack::init().start_array();
                        proof {
                            assert(stack@ == seq![true]);
                        }
                        this.parse_till_eof_with_intermediate_state(
                            Intermediate { stack, state: IntermediateState::AfterArrayStart },
                        )
                    },
                    Ok(ParseJsonValueNoNestingOutput::ObjectStart) => {
                        let stack = Stack::init().start_object();
                        proof {
                            assert(stack@ == seq![false]);
                        }
                        this.parse_till_eof_with_intermediate_state(
                            Intermediate { stack, state: IntermediateState::AfterObjectStart },
                        )
                    },
                }
            },
            StateInner::Intermediate(inter) => this.parse_till_eof_with_intermediate_state(inter),
            StateInner::Eof(kind) => match this.expect_eof_after_value() {
                Ok(()) => Ok(StateInner::Eof(kind)),
                Err(e) => Err(e),
            },
        }
    }

    /// Ends the innermost container, with `kind` for a top-level value.
    fn end_group(&self, inter_state: &mut Intermediate, kind: ValueKind) -> (r: Option<
        Result<StateInner, &'static str>,
    >)
        requires
            self.wf(),
            old(inter_state).wf(),
            is_array_state(old(inter_state).state) || is_object_state(old(inter_state).state),
        ensures
            step_agrees(
                step_end(self.bytes@, old(inter_state).stack@, self.pos as int, kind),
                r,
                *final(inter_state),
                self.pos as int,
            ),
    {
        proof {
            inter_state.stack.lemma_view_len();
        }
        let after = if is_array_state_exec(inter_state.state) {
            inter_state.stack.end_array()
        } else {
            inter_state.stack.end_object()
        };
        match after {
            AfterEndArrayOrObject::Intermediate(new_state) => {
                *inter_state = new_state;
                None
            },
            AfterEndArrayOrObject::Eof => {
                Some(
                    match self.expect_eof_after_value() {
                        Ok(()) => Ok(StateInner::Eof(kind)),
                        Err(e) => Err(e),
                    },
                )
            },
        }
    }

    /// Reads a value where one is expected; `after` is the place once it has
    /// ended.
    fn parse_value(&mut self, inter_state: &mut Intermediate, after: IntermediateState) -> (r: Option<
        Result<StateInner, &'static str>,
    >)
        requires
            old(self).wf(),
            old(inter_state).wf(),
            inter_wf(old(inter_state).stack@, after),
            !(step_value(old(self).bytes@, old(self).pos as int, old(inter_state).stack@, after) is Done
                && step_value(old(self).bytes@, old(self).pos as int, old(inter_state).stack@, after)->Done_0
                is None),
        ensures
            final(self).wf(),
            final(self).bytes == old(self).bytes,
            step_agrees(
                step_value(old(self).bytes@, old(self).pos as int, old(inter_state).stack@, after),
                r,
                *final(inter_state),
                final(self).pos as int,
            ),
    {
        proof {
            inter_state.stack.lemma_view_len();
        }
        match self.parse_json_value_no_nesting() {
            Err(e) => Some(Err(e)),
            Ok(ParseJsonValueNoNestingOutput::JsonValue) => {
                inter_state.state = after;
                None
            },
            Ok(ParseJsonValueNoNestingOutput::EofInString) => {
                Some(
                    Ok(
                        StateInner::Intermediate(
                            Intermediate {
                                stack: inter_state.stack,
                                state: IntermediateState::InString,
                            },
                        ),
                    ),
                )
            },
            Ok(ParseJsonValueNoNestingOutput::ArrayStart) => {
                *inter_state = Intermediate {
                    stack: inter_state.stack.start_array(),
                    state: IntermediateState::AfterArrayStart,
                };
                None
            },
            Ok(ParseJsonValueNoNestingOutput::ObjectStart) => {
                *inter_state = Intermediate {
                    stack: inter_state.stack.start_object(),
                    state: IntermediateState::AfterObjectStart,
                };
                None
            },
        }
    }
}


/// The outcome `r` and the place `i` at `pos` agree with the step `st`: a
/// step that goes on leaves `r` empty, one that stops gives its outcome.
pub open spec fn step_agrees(
    st: Step,
    r: Option<Result<StateInner, &'static str>>,
    i: Intermediate,
    pos: int,
) -> bool {
    match st {
        Step::Continue(stack, state, q) => r is None && i.wf() && i.stack@ == stack && i.state
            == state && pos == q,
        Step::Done(Some(Ok(v))) => r matches Some(Ok(si)) && si@ == v && si.wf(),
        Step::Done(Some(Err(e))) => r matches Some(Err(m)) && m@ == scan_error_msg(e),
        Step::Done(None) => false,
    }
}

pub proof fn lemma_skip_digits_bounds(s: Seq<u8>, p: int)
    requires
        0 <= p <= s.len(),
    ensures
        p <= spec_skip_digits(s, p) <= s.len(),
    decreases s.len() - p,
{
    if 0 <= p < s.len() && is_digit(s[p]) {
        lemma_skip_digits_bounds(s, p + 1);
    }
}

pub proof fn lemma_in_string_bounds(s: Seq<u8>, p: int)
    requires
        0 <= p <= s.len(),
    ensures
        spec_in_string(s, p) matches Ok((ended, q)) ==> (ended ==> p < q <= s.len()) && (!ended
            ==> q == s.len()),
    decreases s.len() - p,
{
    if 0 <= p < s.len() {
        if s[p] == 92 {
            if p + 1 < s.len() {
                if is_simple_escape(s[p + 1]) {
                    lemma_in_string_bounds(s, p + 2);
                } else if s[p + 1] == 117 && p + 6 <= s.len() {
                    lemma_in_string_bounds(s, p + 6);
                }
            }
        } else if s[p] != 34 && s[p] > 0x1f {
            lemma_in_string_bounds(s, p + 1);
        }
    }
}

pub proof fn lemma_one_or_more_digits_bounds(s: Seq<u8>, p: int)
    requires
        0 <= p <= s.len(),
    ensures
        spec_one_or_more_digits(s, p) matches Some(q) ==> p < q <= s.len(),
{
    if 0 <= p < s.len() && is_digit(s[p]) {
        lemma_skip_digits_bounds(s, p + 1);
    }
}

pub proof fn lemma_number_exp_bounds(s: Seq<u8>, q: int)
    requires
        0 <= q <= s.len(),
    ensures
        spec_number_exp(s, q) matches Ok(r) ==> q <= r <= s.len(),
{
    if 0 <= q < s.len() && s[q] == 101 {
        lemma_one_or_more_digits_bounds(s, q + 1);
        if q + 1 < s.len() {
            lemma_one_or_more_digits_bounds(s, q + 2);
        }
    }
}

pub proof fn lemma_positive_number_bounds(s: Seq<u8>, p: int)
    requires
        0 <= p <= s.len(),
    ensures
        spec_positive_number(s, p) matches Ok(q) ==> p < q <= s.len(),
{
    if 0 <= p < s.len() {
        lemma_skip_digits_bounds(s, p + 1);
        let q = if s[p] == 48 {
            p + 1
        } else {
            spec_skip_digits(s, p + 1)
        };
        lemma_number_exp_bounds(s, q);
        if 0 <= q < s.len() && s[q] == 46 {
            lemma_one_or_more_digits_bounds(s, q + 1);
            match spec_one_or_more_digits(s, q + 1) {
                Some(q2) => {
                    lemma_number_exp_bounds(s, q2);
                },
                None => {},
            }
        }
    }
}

pub proof fn lemma_value_no_nesting_bounds(s: Seq<u8>, p: int)
    requires
        0 <= p <= s.len(),
    ensures
        spec_value_no_nesting(s, p) matches Ok((out, q)) ==> p < q <= s.len() && (out
            == ParseJsonValueNoNestingOutput::EofInString ==> q == s.len()),
{
    if 0 <= p < s.len() {
        lemma_positive_number_bounds(s, p);
        lemma_positive_number_bounds(s, p + 1);
        lemma_in_string_bounds(s, p + 1);
    }
}

/// Every step that goes on reads at least one byte.
pub proof fn lemma_step_progress(s: Seq<u8>, p: int, stack: Seq<bool>, state: IntermediateState)
    requires
        0 <= p <= s.len(),
    ensures
        spec_step(s, p, stack, state) matches Step::Continue(_, _, q) ==> p < q <= s.len(),
{
    lemma_in_string_bounds(s, p);
    lemma_value_no_nesting_bounds(s, p);
}

fn is_array_state_exec(s: IntermediateState) -> (r: bool)
    ensures
        r == is_array_state(s),
{
    match s {
        IntermediateState::AfterArrayStart
        | IntermediateState::AfterArrayStartOrComma
        | IntermediateState::AfterArrayStartOrItem
        | IntermediateState::AfterArrayItem
        | IntermediateState::AfterArrayComma => true,
        _ => false,
    }
}

fn is_hex(b: u8) -> (r: bool)
    ensures
        r == is_hex_digit(b),
{
    (48 <= b && b <= 57) || (65 <= b && b <= 70) || (97 <= b && b <= 102)
}

} // verus!
