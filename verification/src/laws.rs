//! Properties that relate several operations of the library.
use vstd::prelude::*;
use crate::state::{
    StateView, view_wf, spec_json_value, spec_double_quote, spec_json_string_fragment, spec_comma,
    spec_colon, spec_left_bracket, spec_left_brace, spec_right_bracket, spec_right_brace,
    spec_json_items_after_item, spec_json_items_after_array_start_before_item,
    spec_json_kvs_after_object_start_before_kv, spec_json_kvs_after_field_value,
    spec_json_items_between_brackets,
};
use crate::state::deserializer::{
    spec_parse_till_eof, spec_run, spec_step, spec_in_string, spec_value_no_nesting, bytes_at, ScanError,
    is_simple_escape, is_hex_digit, spec_positive_number, spec_skip_digits, is_digit,
    ParseJsonValueNoNestingOutput,
};
use crate::state::{StateInner, spec_pack, inter_state_code, IntermediateState};
use crate::syn_generic::{StreamState, generics_params, param_rest, comma_or_new, lemma_param_rest_len};
use crate::syn_generic::tokens::{TokenView, Punct, Spacing, Span, tts_view};
use crate::chunk::{surrounding_group, ungrouped_states, state_after_open, state_before_close};
use crate::syn_generic::{ErrorCollector, ParseErrorKind, MetaAfterPath, ConsumedTokens, errs};
use crate::syn_generic::tokens::{Ident, TokenTree, DeepToken};
use crate::syn_generic::parse_meta_utils::MetaPathSpanWith;
use crate::syn_generic::parse_meta::ParseMeta;
use crate::syn_generic::parse_meta_utils::FlagPresent;
use crate::item_attrs::IdentTree;
use crate::json_item::{slot_read, first_given, extra_mode_errors, repeated_mode_errors, TagMode};
use crate::utils::decimal_text;
use crate::json_item::Field;
use crate::props::{next_unskipped, lemma_next_unskipped};

verus! {

/// The state operation for a single punctuation byte: `,` `]` `}` `{` `"`.
pub open spec fn punct_op(b: u8, v: StateView) -> Option<StateView> {
    if b == 44 {
        spec_comma(v)
    } else if b == 93 {
        spec_right_bracket(v)
    } else if b == 125 {
        spec_right_brace(v)
    } else if b == 123 {
        spec_left_brace(v)
    } else if b == 34 {
        spec_double_quote(v)
    } else {
        None
    }
}

/// Every state operation keeps a well-formed state well-formed: the place
/// always agrees with the innermost open container and at most
/// `MAX_DEPTH` containers are open.
pub proof fn law_operations_keep_states_well_formed(v: StateView)
    requires
        view_wf(v),
    ensures
        spec_json_value(v) matches Some(w) ==> view_wf(w),
        spec_double_quote(v) matches Some(w) ==> view_wf(w),
        spec_json_string_fragment(v) matches Some(w) ==> view_wf(w),
        spec_comma(v) matches Some(w) ==> view_wf(w),
        spec_colon(v) matches Some(w) ==> view_wf(w),
        spec_left_bracket(v) matches Some(w) ==> view_wf(w),
        spec_left_brace(v) matches Some(w) ==> view_wf(w),
        spec_right_bracket(v) matches Some(w) ==> view_wf(w),
        spec_right_brace(v) matches Some(w) ==> view_wf(w),
        spec_json_items_after_item(v) matches Some(w) ==> view_wf(w),
        spec_json_items_after_array_start_before_item(v) matches Some(w) ==> view_wf(w),
        spec_json_kvs_after_object_start_before_kv(v) matches Some(w) ==> view_wf(w),
        spec_json_kvs_after_field_value(v) matches Some(w) ==> view_wf(w),
        spec_json_items_between_brackets(v) matches Some(w) ==> view_wf(w),
{
    match v {
        StateView::Inter { stack, state } => {
            if stack.len() > 0 {
                let rest = stack.drop_last();
                if rest.len() > 0 {
                    assert(rest.last() == stack[stack.len() - 2]);
                }
            }
        },
        _ => {},
    }
}

/// Scanning a single `,` `]` `}` `{` or `"` from a well-formed state ends in
/// the state that the matching state operation gives.
pub proof fn law_scan_punct_agrees_with_state(b: u8, v: StateView)
    requires
        view_wf(v),
        punct_op(b, v) is Some,
    ensures
        spec_parse_till_eof(seq![b], v) == Some(Ok::<StateView, ScanError>(punct_op(b, v).unwrap())),
{
    reveal_with_fuel(spec_run, 3);
    reveal_with_fuel(spec_in_string, 2);
    let s = seq![b];
    match v {
        StateView::Inter { stack, state } => {
            if stack.len() > 0 {
                let rest = stack.drop_last();
                if rest.len() > 0 {
                    assert(rest.last() == stack[stack.len() - 2]);
                }
            }
            assert(spec_parse_till_eof(s, v) == spec_run(s, 0, stack, state));
        },
        StateView::Init => {
            assert(seq![true].drop_last() =~= Seq::<bool>::empty());
            assert(seq![false].drop_last() =~= Seq::<bool>::empty());
        },
        _ => {},
    }
}


/// A byte that stands for itself inside a JSON string.
pub open spec fn is_plain_string_byte(b: u8) -> bool {
    b != 34 && b != 92 && b > 0x1f
}

/// A state inside a string or an object field name.
pub open spec fn in_string_state(v: StateView) -> bool {
    match v {
        StateView::Inter { state, .. } => state == IntermediateState::InString || state
            == IntermediateState::InObjectFieldName,
        _ => false,
    }
}

/// The state operation for one byte of JSON text: inside a string a byte
/// that stands for itself is a string fragment; otherwise the operation for
/// `[` `:` `,` `]` `}` `{` or `"`.
pub open spec fn byte_op(b: u8, v: StateView) -> Option<StateView> {
    if in_string_state(v) && is_plain_string_byte(b) {
        spec_json_string_fragment(v)
    } else if b == 91 {
        spec_left_bracket(v)
    } else if b == 58 {
        spec_colon(v)
    } else {
        punct_op(b, v)
    }
}

/// The length of the word `null`, `true` or `false` that `s` starts with,
/// else 0.
pub open spec fn literal_len(s: Seq<u8>) -> int {
    if s.len() > 0 && s[0] == 110 && bytes_at(s, 1, seq![117u8, 108u8, 108u8]) {
        4
    } else if s.len() > 0 && s[0] == 116 && bytes_at(s, 1, seq![114u8, 117u8, 101u8]) {
        4
    } else if s.len() > 0 && s[0] == 102 && bytes_at(s, 1, seq![97u8, 108u8, 115u8, 101u8]) {
        5
    } else {
        0
    }
}

/// The length of the escape `\x` or `\uXXXX` that `s` starts with, else 0.
pub open spec fn escape_len(s: Seq<u8>) -> int {
    if s.len() >= 2 && s[0] == 92 && is_simple_escape(s[1]) {
        2
    } else if s.len() >= 6 && s[0] == 92 && s[1] == 117 && is_hex_digit(s[2]) && is_hex_digit(s[3])
        && is_hex_digit(s[4]) && is_hex_digit(s[5]) {
        6
    } else {
        0
    }
}

/// The length of the number that `s` starts with, as the number grammar
/// reads it (an optional `-`, then `0` or a digit from 1 to 9 with more
/// digits, an optional `.` with digits, and an optional `e` with an optional
/// sign and digits, taking as many digits as stand there), else 0.
#[verifier::opaque]
pub open spec fn number_len(s: Seq<u8>) -> int {
    if s.len() > 0 && s[0] == 45 {
        match spec_positive_number(s, 1) {
            Ok(q) => q,
            Err(_) => 0,
        }
    } else if s.len() > 0 && is_digit(s[0]) {
        match spec_positive_number(s, 0) {
            Ok(q) => q,
            Err(_) => 0,
        }
    } else {
        0
    }
}

/// The length of the scalar value that `s` starts with: a word `null`,
/// `true` or `false`, or a number; else 0.
pub open spec fn scalar_len(s: Seq<u8>) -> int {
    if literal_len(s) > 0 {
        literal_len(s)
    } else {
        number_len(s)
    }
}

/// A scalar value fits in the text it starts.
pub proof fn lemma_scalar_len_bounds(s: Seq<u8>)
    ensures
        scalar_len(s) <= s.len(),
{
    reveal(number_len);
    if s.len() > 0 {
        crate::state::deserializer::lemma_positive_number_bounds(s, 0);
        crate::state::deserializer::lemma_positive_number_bounds(s, 1);
    }
}

/// Counting digits in the tokens from `p` on is counting them in the whole
/// text, moved by `p`.
proof fn lemma_skip_digits_shift(s: Seq<u8>, p: int, i: int)
    requires
        0 <= p <= s.len(),
        0 <= i,
    ensures
        spec_skip_digits(s.subrange(p, s.len() as int), i) + p == spec_skip_digits(s, p + i),
    decreases s.len() - p - i,
{
    let t = s.subrange(p, s.len() as int);
    if i < t.len() {
        assert(t[i] == s[p + i]);
        if is_digit(t[i]) {
            lemma_skip_digits_shift(s, p, i + 1);
        }
    }
}

/// Reading a number in the tokens from `p` on is reading it in the whole
/// text, moved by `p`.
proof fn lemma_positive_number_shift(s: Seq<u8>, p: int, i: int)
    requires
        0 <= p <= s.len(),
        0 <= i,
    ensures
        match spec_positive_number(s, p + i) {
            Ok(b) => spec_positive_number(s.subrange(p, s.len() as int), i) == Ok::<int, ScanError>(b - p),
            Err(e) => spec_positive_number(s.subrange(p, s.len() as int), i) == Err::<int, ScanError>(e),
        },
{
    let t = s.subrange(p, s.len() as int);
    if i < t.len() {
        assert(t[i] == s[p + i]);
        lemma_skip_digits_shift(s, p, i + 1);
        crate::state::deserializer::lemma_skip_digits_bounds(t, i + 1);
        let q = if t[i] == 48 {
            i + 1
        } else {
            spec_skip_digits(t, i + 1)
        };
        if 0 <= q < t.len() {
            assert(t[q] == s[p + q]);
        }
        if q + 1 < t.len() {
            assert(t[q + 1] == s[p + q + 1]);
        }
        lemma_skip_digits_shift(s, p, q + 2);
        crate::state::deserializer::lemma_skip_digits_bounds(t, if q + 2 <= t.len() { q + 2 } else { t.len() as int });
        let q2 = if 0 <= q < t.len() && t[q] == 46 && q + 1 < t.len() && is_digit(t[q + 1]) {
            spec_skip_digits(t, q + 2)
        } else {
            q
        };
        if 0 <= q2 < t.len() {
            assert(t[q2] == s[p + q2]);
        }
        if q2 + 1 < t.len() {
            assert(t[q2 + 1] == s[p + q2 + 1]);
        }
        if q2 + 2 < t.len() {
            assert(t[q2 + 2] == s[p + q2 + 2]);
        }
        lemma_skip_digits_shift(s, p, q2 + 2);
        lemma_skip_digits_shift(s, p, q2 + 3);
        lemma_skip_digits_shift(s, p, q + 2);
    }
}

/// A number at `p` of `s` is a whole value there.
proof fn lemma_number_at(s: Seq<u8>, p: int)
    requires
        0 <= p < s.len(),
        literal_len(s.subrange(p, s.len() as int)) == 0,
        number_len(s.subrange(p, s.len() as int)) > 0,
    ensures
        spec_value_no_nesting(s, p) == Ok::<(ParseJsonValueNoNestingOutput, int), ScanError>(
            (ParseJsonValueNoNestingOutput::JsonValue, p + number_len(s.subrange(p, s.len() as int))),
        ),
        p + number_len(s.subrange(p, s.len() as int)) <= s.len(),
        s[p] != 34,
{
    reveal(number_len);
    let t = s.subrange(p, s.len() as int);
    assert(t[0] == s[p]);
    lemma_positive_number_shift(s, p, 0);
    lemma_positive_number_shift(s, p, 1);
    crate::state::deserializer::lemma_positive_number_bounds(t, 0);
    crate::state::deserializer::lemma_positive_number_bounds(t, 1);
}

/// A scalar value at `p` of `s` is a whole value there.
proof fn lemma_scalar_at(s: Seq<u8>, p: int)
    requires
        0 <= p < s.len(),
        scalar_len(s.subrange(p, s.len() as int)) > 0,
    ensures
        spec_value_no_nesting(s, p) == Ok::<(ParseJsonValueNoNestingOutput, int), ScanError>(
            (ParseJsonValueNoNestingOutput::JsonValue, p + scalar_len(s.subrange(p, s.len() as int))),
        ),
        p + scalar_len(s.subrange(p, s.len() as int)) <= s.len(),
        s[p] != 34,
{
    assert(s.subrange(p, s.len() as int)[0] == s[p]);
    if literal_len(s.subrange(p, s.len() as int)) > 0 {
        lemma_literal_at(s, p);
    } else {
        lemma_number_at(s, p);
    }
}

/// A state in which a value may come next.
pub open spec fn value_expected(v: StateView) -> bool {
    match v {
        StateView::Init => true,
        StateView::Inter { state, .. } => crate::state::expects_value(state),
        StateView::Eof(_) => false,
    }
}

/// Applies the state operations for the tokens of `s` in turn, from `v`:
/// `json_value` for a word `null`, `true` or `false` or a number where a
/// value may come, a string fragment for an escape inside a string, and
/// `byte_op` for any other byte.
pub open spec fn token_fold(s: Seq<u8>, v: StateView) -> Option<StateView>
    decreases s.len(),
{
    if s.len() == 0 {
        Some(v)
    } else if value_expected(v) && scalar_len(s) > 0 {
        proof {
            lemma_scalar_len_bounds(s);
        }
        match spec_json_value(v) {
            Some(w) => token_fold(s.subrange(scalar_len(s), s.len() as int), w),
            None => None,
        }
    } else if in_string_state(v) && escape_len(s) > 0 {
        match spec_json_string_fragment(v) {
            Some(w) => token_fold(s.subrange(escape_len(s), s.len() as int), w),
            None => None,
        }
    } else {
        match byte_op(s[0], v) {
            Some(w) => token_fold(s.drop_first(), w),
            None => None,
        }
    }
}

/// A state in which the scanner wants a value before the text may end.
pub open spec fn needs_value(v: StateView) -> bool {
    match v {
        StateView::Init => true,
        StateView::Inter { state, .. } => state == IntermediateState::AfterArrayStart || state
            == IntermediateState::AfterObjectFieldColon,
        StateView::Eof(_) => false,
    }
}

proof fn lemma_token_fold_of_eof(s: Seq<u8>, k: crate::state::ValueKind)
    requires
        s.len() > 0,
    ensures
        token_fold(s, StateView::Eof(k)) is None,
{
}

/// A word `null`, `true` or `false` at `p` of `s` is a whole value there.
proof fn lemma_literal_at(s: Seq<u8>, p: int)
    requires
        0 <= p < s.len(),
        literal_len(s.subrange(p, s.len() as int)) > 0,
    ensures
        spec_value_no_nesting(s, p) == Ok::<(ParseJsonValueNoNestingOutput, int), ScanError>(
            (ParseJsonValueNoNestingOutput::JsonValue, p + literal_len(s.subrange(p, s.len() as int))),
        ),
        p + literal_len(s.subrange(p, s.len() as int)) <= s.len(),
{
    let t = s.subrange(p, s.len() as int);
    assert(t[0] == s[p]);
    if t[0] == 110 || t[0] == 116 {
        assert(t.subrange(1, 4) =~= s.subrange(p + 1, p + 4));
    } else {
        assert(t.subrange(1, 5) =~= s.subrange(p + 1, p + 5));
    }
}

/// Inside a string, a byte that stands for itself changes nothing the scan
/// gives.
proof fn lemma_run_string_byte(s: Seq<u8>, p: int, stack: Seq<bool>, state: IntermediateState)
    requires
        0 <= p < s.len(),
        state == IntermediateState::InString || state == IntermediateState::InObjectFieldName,
        is_plain_string_byte(s[p]),
    ensures
        spec_run(s, p, stack, state) == spec_run(s, p + 1, stack, state),
{
    crate::state::deserializer::lemma_in_string_bounds(s, p + 1);
    assert(spec_in_string(s, p) == spec_in_string(s, p + 1));
    assert(spec_step(s, p, stack, state) == spec_step(s, p + 1, stack, state));
}

/// Inside a string, an escape changes nothing the scan gives.
proof fn lemma_run_string_escape(s: Seq<u8>, p: int, stack: Seq<bool>, state: IntermediateState)
    requires
        0 <= p < s.len(),
        state == IntermediateState::InString || state == IntermediateState::InObjectFieldName,
        escape_len(s.subrange(p, s.len() as int)) > 0,
    ensures
        p + escape_len(s.subrange(p, s.len() as int)) <= s.len(),
        spec_run(s, p, stack, state) == spec_run(
            s,
            p + escape_len(s.subrange(p, s.len() as int)),
            stack,
            state,
        ),
{
    let t = s.subrange(p, s.len() as int);
    let k = escape_len(t);
    assert(t[0] == s[p] && t[1] == s[p + 1]);
    if k == 6 {
        assert(t[2] == s[p + 2] && t[3] == s[p + 3] && t[4] == s[p + 4] && t[5] == s[p + 5]);
    }
    crate::state::deserializer::lemma_in_string_bounds(s, p + k);
    assert(spec_in_string(s, p) == spec_in_string(s, p + k));
    assert(spec_step(s, p, stack, state) == spec_step(s, p + k, stack, state));
}

/// A `"` where a value is expected scans as the string that it opens.
proof fn lemma_run_value_quote(s: Seq<u8>, p: int, stack: Seq<bool>, state: IntermediateState)
    requires
        0 <= p < s.len(),
        s[p] == 34,
        state == IntermediateState::AfterArrayStart || state == IntermediateState::AfterArrayComma
            || state == IntermediateState::AfterArrayStartOrComma || state
            == IntermediateState::AfterObjectFieldColon,
        view_wf(crate::state::inter(stack, state)),
    ensures
        spec_run(s, p, stack, state) == spec_run(s, p + 1, stack, IntermediateState::InString),
{
    crate::state::deserializer::lemma_in_string_bounds(s, p + 1);
    if stack.len() > 0 {
        let rest = stack.drop_last();
        if rest.len() > 0 {
            assert(rest.last() == stack[stack.len() - 2]);
        }
    }
}

#[verifier::rlimit(100)]
#[verifier::spinoff_prover]
proof fn lemma_run_bytes(s: Seq<u8>, p: int, stack: Seq<bool>, state: IntermediateState)
    requires
        0 <= p <= s.len(),
        view_wf(crate::state::inter(stack, state)),
        token_fold(s.subrange(p, s.len() as int), crate::state::inter(stack, state)) is Some,
        !needs_value(token_fold(s.subrange(p, s.len() as int), crate::state::inter(stack, state)).unwrap()),
    ensures
        spec_run(s, p, stack, state) == Some(
            Ok::<StateView, ScanError>(
                token_fold(s.subrange(p, s.len() as int), crate::state::inter(stack, state)).unwrap(),
            ),
        ),
    decreases s.len() - p,
{
    let v = crate::state::inter(stack, state);
    let t = s.subrange(p, s.len() as int);
    reveal_with_fuel(spec_in_string, 2);
    if stack.len() > 0 {
        let rest = stack.drop_last();
        if rest.len() > 0 {
            assert(rest.last() == stack[stack.len() - 2]);
        }
    }
    if p == s.len() {
        assert(t.len() == 0);
        assert(spec_run(s, p, stack, state) == Some(Ok::<StateView, ScanError>(v)));
    } else {
        let b = s[p];
        assert(t[0] == b);
        law_operations_keep_states_well_formed(v);
        if value_expected(v) && scalar_len(t) > 0 {
            let k = scalar_len(t);
            lemma_scalar_at(s, p);
            let w = spec_json_value(v).unwrap();
            let tk = s.subrange(p + k, s.len() as int);
            assert(t.subrange(k, t.len() as int) =~= tk);
            assert(token_fold(t, v) == token_fold(tk, w));
            match w {
                StateView::Inter { stack: st2, state: state2 } => {
                    assert(st2 == stack);
                    assert(spec_run(s, p, stack, state) == spec_run(s, p + k, st2, state2));
                    lemma_run_bytes(s, p + k, st2, state2);
                },
                _ => {},
            }
        } else if in_string_state(v) && escape_len(t) > 0 {
            let k = escape_len(t);
            lemma_run_string_escape(s, p, stack, state);
            let tk = s.subrange(p + k, s.len() as int);
            assert(t.subrange(k, t.len() as int) =~= tk);
            assert(token_fold(t, v) == token_fold(tk, v));
            lemma_run_bytes(s, p + k, stack, state);
        } else {
            let t1 = s.subrange(p + 1, s.len() as int);
            assert(t.drop_first() =~= t1);
            let w = byte_op(b, v).unwrap();
            assert(token_fold(t, v) == token_fold(t1, w));
            let value_quote = b == 34 && (state == IntermediateState::AfterArrayStart || state
                == IntermediateState::AfterArrayComma || state
                == IntermediateState::AfterArrayStartOrComma || state
                == IntermediateState::AfterObjectFieldColon);
            if in_string_state(v) && is_plain_string_byte(b) {
                assert(w == v);
                lemma_run_string_byte(s, p, stack, state);
                lemma_run_bytes(s, p + 1, stack, state);
            } else if value_quote {
                assert(w == crate::state::inter(stack, IntermediateState::InString));
                lemma_run_value_quote(s, p, stack, state);
                lemma_run_bytes(s, p + 1, stack, IntermediateState::InString);
            } else {
                match w {
                    StateView::Inter { stack: st2, state: state2 } => {
                        lemma_run_bytes(s, p + 1, st2, state2);
                    },
                    StateView::Eof(k) => {
                        if p + 1 < s.len() {
                            lemma_token_fold_of_eof(t1, k);
                        }
                        assert(t1.len() == 0);
                    },
                    StateView::Init => {},
                }
            }
        }
    }
}

/// Scanning JSON text from a well-formed state ends in the state that
/// applying the state operation for each token in turn gives, whenever each
/// of those operations applies: `json_value` for a word `null`, `true` or
/// `false` or a number where a value may come, the operations for `[` `:` `,` `]` `}`
/// `{` and `"`, and inside a string a string fragment for every escape and
/// every byte that stands for itself. The one exception is a text that ends where a value
/// is still wanted (after `[` or `:`, or an empty text from the start),
/// which the scanner refuses.
pub proof fn law_scan_agrees_with_state_operations(s: Seq<u8>, v: StateView)
    requires
        view_wf(v),
        token_fold(s, v) is Some,
        !needs_value(token_fold(s, v).unwrap()),
    ensures
        spec_parse_till_eof(s, v) == Some(Ok::<StateView, ScanError>(token_fold(s, v).unwrap())),
{
    assert(s.subrange(0, s.len() as int) =~= s);
    match v {
        StateView::Inter { stack, state } => {
            assert(v == crate::state::inter(stack, state));
            lemma_run_bytes(s, 0, stack, state);
            assert(spec_parse_till_eof(s, v) == spec_run(s, 0, stack, state));
        },
        StateView::Eof(k) => {
            if s.len() > 0 {
                lemma_token_fold_of_eof(s, k);
            }
        },
        StateView::Init => {
            reveal_with_fuel(spec_in_string, 2);
            let b = s[0];
            if scalar_len(s) > 0 {
                let k = scalar_len(s);
                lemma_scalar_at(s, 0);
                let tk = s.subrange(k, s.len() as int);
                assert(token_fold(s, v) == token_fold(tk, StateView::Eof(crate::state::ValueKind::Unknown)));
                if k < s.len() {
                    lemma_token_fold_of_eof(tk, crate::state::ValueKind::Unknown);
                } else {
                    assert(tk.len() == 0);
                }
            } else {
                let t1 = s.subrange(1, s.len() as int);
                assert(s.drop_first() =~= t1);
                let w = byte_op(b, v).unwrap();
                assert(token_fold(s, v) == token_fold(t1, w));
                law_operations_keep_states_well_formed(v);
                if b == 123 {
                    assert(w == crate::state::inter(seq![false], IntermediateState::AfterObjectStart));
                    lemma_run_bytes(s, 1, seq![false], IntermediateState::AfterObjectStart);
                } else if b == 91 {
                    assert(w == crate::state::inter(seq![true], IntermediateState::AfterArrayStart));
                    lemma_run_bytes(s, 1, seq![true], IntermediateState::AfterArrayStart);
                } else {
                    assert(b == 34);
                    assert(w == crate::state::inter(Seq::<bool>::empty(), IntermediateState::InString));
                    crate::state::deserializer::lemma_in_string_bounds(s, 1);
                    assert(spec_parse_till_eof(s, v) == spec_run(s, 1, Seq::<bool>::empty(), IntermediateState::InString));
                    lemma_run_bytes(s, 1, Seq::<bool>::empty(), IntermediateState::InString);
                }
            }
        },
    }
}

/// A value at `p` of `s` that is not a string, an array or an object is a
/// word or a number, and as long as the scanner reads it.
proof fn lemma_value_is_scalar(s: Seq<u8>, p: int)
    requires
        0 <= p < s.len(),
        s[p] != 34,
        spec_value_no_nesting(s, p) matches Ok((ParseJsonValueNoNestingOutput::JsonValue, _)),
    ensures
        scalar_len(s.subrange(p, s.len() as int)) > 0,
{
    reveal(number_len);
    let t = s.subrange(p, s.len() as int);
    assert(t[0] == s[p]);
    let b = s[p];
    if b == 110 || b == 116 {
        assert(t.subrange(1, 4) =~= s.subrange(p + 1, p + 4));
    } else if b == 102 {
        assert(t.subrange(1, 5) =~= s.subrange(p + 1, p + 5));
    } else {
        lemma_positive_number_shift(s, p, 0);
        lemma_positive_number_shift(s, p, 1);
        crate::state::deserializer::lemma_positive_number_bounds(s, p);
        crate::state::deserializer::lemma_positive_number_bounds(s, p + 1);
    }
}

/// What the scan from `p` gives, when it succeeds, is what applying the
/// state operations to the tokens from `p` on gives, in a state that wants
/// no more value.
#[verifier::rlimit(100)]
#[verifier::spinoff_prover]
proof fn lemma_run_bytes_back(s: Seq<u8>, p: int, stack: Seq<bool>, state: IntermediateState)
    requires
        0 <= p <= s.len(),
        view_wf(crate::state::inter(stack, state)),
        spec_run(s, p, stack, state) matches Some(Ok(_)),
    ensures
        token_fold(s.subrange(p, s.len() as int), crate::state::inter(stack, state)) == Some(
            spec_run(s, p, stack, state)->Some_0->Ok_0,
        ),
        !needs_value(spec_run(s, p, stack, state)->Some_0->Ok_0),
    decreases s.len() - p,
{
    let v = crate::state::inter(stack, state);
    let t = s.subrange(p, s.len() as int);
    reveal_with_fuel(spec_in_string, 2);
    if stack.len() > 0 {
        let rest = stack.drop_last();
        if rest.len() > 0 {
            assert(rest.last() == stack[stack.len() - 2]);
        }
    }
    if p == s.len() {
        assert(t.len() == 0);
    } else {
        let b = s[p];
        assert(t[0] == b);
        law_operations_keep_states_well_formed(v);
        if value_expected(v) && scalar_len(t) > 0 {
            let k = scalar_len(t);
            lemma_scalar_at(s, p);
            let w = spec_json_value(v).unwrap();
            let tk = s.subrange(p + k, s.len() as int);
            assert(t.subrange(k, t.len() as int) =~= tk);
            assert(token_fold(t, v) == token_fold(tk, w));
            match w {
                StateView::Inter { stack: st2, state: state2 } => {
                    assert(st2 == stack);
                    assert(spec_run(s, p, stack, state) == spec_run(s, p + k, st2, state2));
                    lemma_run_bytes_back(s, p + k, st2, state2);
                },
                _ => {},
            }
        } else if in_string_state(v) && escape_len(t) > 0 {
            let k = escape_len(t);
            lemma_run_string_escape(s, p, stack, state);
            let tk = s.subrange(p + k, s.len() as int);
            assert(t.subrange(k, t.len() as int) =~= tk);
            assert(token_fold(t, v) == token_fold(tk, v));
            lemma_run_bytes_back(s, p + k, stack, state);
        } else {
            let t1 = s.subrange(p + 1, s.len() as int);
            assert(t.drop_first() =~= t1);
            let value_quote = b == 34 && (state == IntermediateState::AfterArrayStart || state
                == IntermediateState::AfterArrayComma || state
                == IntermediateState::AfterArrayStartOrComma || state
                == IntermediateState::AfterObjectFieldColon);
            if value_expected(v) && b != 34 && spec_value_no_nesting(s, p) matches Ok((ParseJsonValueNoNestingOutput::JsonValue, _)) {
                lemma_value_is_scalar(s, p);
            }
            if in_string_state(v) && is_plain_string_byte(b) {
                lemma_run_string_byte(s, p, stack, state);
                lemma_run_bytes_back(s, p + 1, stack, state);
            } else if value_quote {
                lemma_run_value_quote(s, p, stack, state);
                lemma_run_bytes_back(s, p + 1, stack, IntermediateState::InString);
            } else {
                assert(byte_op(b, v) is Some);
                let w = byte_op(b, v).unwrap();
                assert(token_fold(t, v) == token_fold(t1, w));
                match w {
                    StateView::Inter { stack: st2, state: state2 } => {
                        assert(spec_run(s, p, stack, state) == spec_run(s, p + 1, st2, state2));
                        lemma_run_bytes_back(s, p + 1, st2, state2);
                    },
                    StateView::Eof(k) => {},
                    StateView::Init => {},
                }
            }
        }
    }
}

/// Scanning JSON text from a well-formed state succeeds only where applying
/// the state operation for each token in turn succeeds, in the same state,
/// and only where that state wants no more value: whenever one of those
/// operations does not apply (a byte out of place, a bad escape or control
/// byte in a string, a malformed word or number, nesting too deep) or the
/// text ends where a value is still wanted, the scanner refuses the text.
pub proof fn law_scan_succeeds_only_as_state_operations(s: Seq<u8>, v: StateView)
    requires
        view_wf(v),
        spec_parse_till_eof(s, v) matches Some(Ok(_)),
    ensures
        token_fold(s, v) == Some(spec_parse_till_eof(s, v)->Some_0->Ok_0),
        !needs_value(spec_parse_till_eof(s, v)->Some_0->Ok_0),
{
    assert(s.subrange(0, s.len() as int) =~= s);
    match v {
        StateView::Inter { stack, state } => {
            assert(v == crate::state::inter(stack, state));
            lemma_run_bytes_back(s, 0, stack, state);
        },
        StateView::Eof(k) => {},
        StateView::Init => {
            reveal_with_fuel(spec_in_string, 2);
            let b = s[0];
            if b != 34 && spec_value_no_nesting(s, 0) matches Ok((ParseJsonValueNoNestingOutput::JsonValue, _)) {
                lemma_value_is_scalar(s, 0);
            }
            if scalar_len(s) > 0 {
                let k = scalar_len(s);
                lemma_scalar_at(s, 0);
                let tk = s.subrange(k, s.len() as int);
                assert(token_fold(s, v) == token_fold(tk, StateView::Eof(crate::state::ValueKind::Unknown)));
                assert(tk.len() == 0);
            } else {
                let t1 = s.subrange(1, s.len() as int);
                assert(s.drop_first() =~= t1);
                law_operations_keep_states_well_formed(v);
                if b == 123 {
                    lemma_run_bytes_back(s, 1, seq![false], IntermediateState::AfterObjectStart);
                } else if b == 91 {
                    lemma_run_bytes_back(s, 1, seq![true], IntermediateState::AfterArrayStart);
                } else {
                    assert(b == 34);
                    crate::state::deserializer::lemma_in_string_bounds(s, 1);
                    assert(spec_parse_till_eof(s, v) == spec_run(s, 1, Seq::<bool>::empty(), IntermediateState::InString));
                    lemma_run_bytes_back(s, 1, Seq::<bool>::empty(), IntermediateState::InString);
                }
            }
        },
    }
}

/// Inside a container, a group that opens and closes at once is one value:
/// `[` then `]`, `{` then `}`, and `"` then `"` each end in the state that a
/// single value ends in.
pub proof fn law_empty_group_is_one_value(v: StateView)
    requires
        view_wf(v),
        v is Inter,
    ensures
        spec_left_bracket(v) matches Some(w) ==> spec_right_bracket(w) == spec_json_value(v),
        spec_left_brace(v) matches Some(w) ==> spec_right_brace(w) == spec_json_value(v),
        spec_json_value(v) is Some ==> (spec_double_quote(v) matches Some(w) && spec_double_quote(w)
            == spec_json_value(v)),
{
    match v {
        StateView::Inter { stack, state } => {
            assert(stack.push(true).drop_last() =~= stack);
            assert(stack.push(false).drop_last() =~= stack);
        },
        _ => {},
    }
}

/// The number a state packs into tells the state apart from every other
/// state that has not ended: two well-formed states with the same number
/// are the same state.
pub proof fn law_packed_number_determines_state(a: StateInner, b: StateInner)
    requires
        a.wf(),
        b.wf(),
        !(a is Eof),
        spec_pack(a) == spec_pack(b),
    ensures
        a == b,
{
    match (a, b) {
        (StateInner::Intermediate(x), StateInner::Intermediate(y)) => {
            let k64: int = 0x1_0000_0000_0000_0000;
            let k56: int = 0x100_0000_0000_0000;
            let k48: int = 0x1_0000_0000_0000;
            let xi = x.stack.inner as int;
            let yi = y.stack.inner as int;
            let xl = (x.stack.len as u8) as int;
            let yl = (y.stack.len as u8) as int;
            let xc = inter_state_code(x.state) as int;
            let yc = inter_state_code(y.state) as int;
            assert(xl * k56 + xc * k48 + 0x80 < k64);
            assert(yl * k56 + yc * k48 + 0x80 < k64);
            assert(xi * k64 + xl * k56 + xc * k48 + 0x80 < 0x1_0000_0000_0000_0000_0000_0000_0000_0000) by (nonlinear_arith)
                requires
                    0 <= xi < k64,
                    0 <= xl * k56 + xc * k48 + 0x80 < k64,
                    k64 == 0x1_0000_0000_0000_0000,
            ;
            assert(yi * k64 + yl * k56 + yc * k48 + 0x80 < 0x1_0000_0000_0000_0000_0000_0000_0000_0000) by (nonlinear_arith)
                requires
                    0 <= yi < k64,
                    0 <= yl * k56 + yc * k48 + 0x80 < k64,
                    k64 == 0x1_0000_0000_0000_0000,
            ;
            assert(xi == yi) by (nonlinear_arith)
                requires
                    xi * k64 + (xl * k56 + xc * k48 + 0x80) == yi * k64 + (yl * k56 + yc * k48 + 0x80),
                    0 <= xl * k56 + xc * k48 + 0x80 < k64,
                    0 <= yl * k56 + yc * k48 + 0x80 < k64,
                    k64 > 0,
            ;
            assert(xl == yl) by (nonlinear_arith)
                requires
                    xl * k56 + (xc * k48 + 0x80) == yl * k56 + (yc * k48 + 0x80),
                    0 <= xc * k48 + 0x80 < k56,
                    0 <= yc * k48 + 0x80 < k56,
                    k56 > 0,
            ;
            assert(xc == yc);
            assert(x.stack.len == y.stack.len);
            assert(x.state == y.state);
        },
        _ => {},
    }
}

/// Each side of the generics output is empty or ends with `,`.
pub open spec fn empty_or_ends_with_comma(s: Seq<TokenView>) -> bool {
    s.len() == 0 || (s.last() matches TokenView::Punct(p) && p.ch == ',')
}

/// Read generics are written without `<` and `>`, and each side is empty
/// or ends with `,`.
pub proof fn law_generics_end_with_comma(st: StreamState, imp: Seq<TokenView>, ty: Seq<TokenView>)
    requires
        empty_or_ends_with_comma(imp),
        empty_or_ends_with_comma(ty),
    ensures
        generics_params(st, imp, ty).0 matches Ok((i, t)) ==> empty_or_ends_with_comma(i)
            && empty_or_ends_with_comma(t),
    decreases st.toks.len(),
{
    if st.toks.len() > 0 {
        let t = st.toks[0];
        let st1 = crate::syn_generic::take_n(st, 1);
        match t {
            crate::syn_generic::tokens::TokenTree::Punct(p) => {
                if p.ch != '>' && p.spacing == Spacing::Joint && p.ch == '\'' && st1.toks.len() > 0 {
                    let n = st1.toks[0];
                    let st2 = crate::syn_generic::take_n(st1, 1);
                    if n is Ident {
                        let lt = seq![crate::syn_generic::tokens::tt_view(t), crate::syn_generic::tokens::tt_view(n)];
                        lemma_param_rest_comma(st2, imp + lt, ty + lt);
                        lemma_param_rest_len(st2, imp + lt, ty + lt);
                        let rest = param_rest(st2, imp + lt, ty + lt);
                        law_generics_end_with_comma(rest.0, rest.1, rest.2);
                    }
                }
            },
            crate::syn_generic::tokens::TokenTree::Ident(i) => {
                if i.name@ == crate::syn_generic::tokens::kw_const() {
                    if st1.toks.len() > 0 {
                        let n = st1.toks[0];
                        let st2 = crate::syn_generic::take_n(st1, 1);
                        if n is Ident {
                            let a = imp + seq![crate::syn_generic::tokens::tt_view(t), crate::syn_generic::tokens::tt_view(n)];
                            let b = ty.push(crate::syn_generic::tokens::tt_view(n));
                            lemma_param_rest_comma(st2, a, b);
                            lemma_param_rest_len(st2, a, b);
                            let rest = param_rest(st2, a, b);
                            law_generics_end_with_comma(rest.0, rest.1, rest.2);
                        }
                    }
                } else {
                    let a = imp.push(crate::syn_generic::tokens::tt_view(t));
                    let b = ty.push(crate::syn_generic::tokens::tt_view(t));
                    lemma_param_rest_comma(st1, a, b);
                    lemma_param_rest_len(st1, a, b);
                    let rest = param_rest(st1, a, b);
                    law_generics_end_with_comma(rest.0, rest.1, rest.2);
                }
            },
            _ => {},
        }
    }
}

/// After a parameter, both sides end with `,`.
proof fn lemma_param_rest_comma(st: StreamState, imp: Seq<TokenView>, ty: Seq<TokenView>)
    ensures
        empty_or_ends_with_comma(param_rest(st, imp, ty).1),
        empty_or_ends_with_comma(param_rest(st, imp, ty).2),
{
}

/// Taking off both bytes around a whole array, object or string gives the
/// states that taking off its opening byte and then its closing byte gives.
pub proof fn law_ungroup_is_open_then_close(b: Seq<u8>)
    requires
        surrounding_group(b) is Some,
    ensures
        ({
            let after_open = state_after_open(b[0]);
            let inner = b.subrange(1, b.len() - 1);
            state_before_close(after_open, inner, b.last()) is Some && ungrouped_states(
                b[0],
                b.len() == 2,
            ) == (after_open, state_before_close(after_open, inner, b.last()).unwrap())
        }),
{
}
/// An argument given twice keeps the value it was first read as; the
/// second one is reported as `duplicated attribute` at its name, before
/// anything else it reports.
pub proof fn law_first_argument_stays<T: ParseMeta>(
    s0: Option<T>,
    s1: Option<T>,
    s2: Option<T>,
    e0: ErrorCollector,
    e1: ErrorCollector,
    e2: ErrorCollector,
    p1: Ident,
    a1: MetaAfterPath<ConsumedTokens>,
    c1: Seq<IdentTree>,
    p2: Ident,
    a2: MetaAfterPath<ConsumedTokens>,
    c2: Seq<IdentTree>,
)
    requires
        slot_read(s0, s1, e0, e1, p1, a1, c1),
        slot_read(s1, s2, e1, e2, p2, a2, c2),
        s1 is Some,
    ensures
        s2 == s1,
        errs(e2).len() > errs(e1).len(),
        errs(e2)[errs(e1).len() as int] == (ParseErrorKind::Custom {
            msg: "duplicated attribute",
            span: Some(p2.span),
        }),
{
    let dup = seq![ParseErrorKind::Custom { msg: "duplicated attribute", span: Some(p2.span) }];
    let rest = T::reported(p2, a2) + match T::refused(p2, a2) {
        Some(e) => e,
        None => Seq::empty(),
    };
    assert(errs(e2) == errs(e1) + dup + rest);
    assert((errs(e1) + dup + rest)[errs(e1).len() as int] == dup[0]);
}

/// The number of flags given from `i` on.
pub open spec fn flags_given(flags: Seq<(Option<FlagPresent>, TagMode)>, i: int) -> nat
    decreases flags.len() - i,
{
    if i < 0 || i >= flags.len() {
        0
    } else {
        (if flags[i].0 is Some {
            1nat
        } else {
            0nat
        }) + flags_given(flags, i + 1)
    }
}

proof fn lemma_repeated_count(flags: Seq<(Option<FlagPresent>, TagMode)>, i: int)
    requires
        0 <= i <= flags.len(),
    ensures
        repeated_mode_errors(flags, i).len() == flags_given(flags, i),
    decreases flags.len() - i,
{
    if i < flags.len() {
        lemma_repeated_count(flags, i + 1);
    }
}

/// A tag mode is specified at most once: a mode stands exactly when some
/// flag is given, and every flag given after the first one is reported,
/// one error each.
pub proof fn law_tag_mode_specified_once(flags: Seq<(Option<FlagPresent>, TagMode)>, i: int)
    requires
        0 <= i <= flags.len(),
    ensures
        (first_given(flags, i) is Some) == (flags_given(flags, i) > 0),
        flags_given(flags, i) > 0 ==> extra_mode_errors(flags, i).len() + 1 == flags_given(flags, i),
        flags_given(flags, i) == 0 ==> extra_mode_errors(flags, i).len() == 0,
    decreases flags.len() - i,
{
    if i < flags.len() {
        law_tag_mode_specified_once(flags, i + 1);
        if flags[i].0 is Some {
            lemma_repeated_count(flags, i + 1);
        }
    }
}

/// The number that decimal digits stand for.
pub open spec fn decimal_value(s: Seq<u8>) -> int
    decreases s.len(),
{
    if s.len() == 0 {
        0
    } else {
        decimal_value(s.drop_last()) * 10 + (s.last() - 48)
    }
}

proof fn lemma_decimal_len(m: nat)
    ensures
        decimal_text(m).len() >= 1,
        m >= 10 ==> decimal_text(m).len() >= 2,
        m < 10 ==> decimal_text(m).len() == 1,
    decreases m,
{
    if m >= 10 {
        lemma_decimal_len(m / 10);
    }
}

/// The position given to an unnamed field reads back as that position: its
/// text is decimal digits, with no leading zero but for `0` itself, that
/// stand for the number.
pub proof fn law_position_literal_reads_back(n: nat)
    ensures
        decimal_value(decimal_text(n)) == n,
        decimal_text(n).len() > 0,
        forall|k: int| 0 <= k < decimal_text(n).len() ==> 48 <= #[trigger] decimal_text(n)[k] <= 57,
        decimal_text(n).len() > 1 ==> decimal_text(n)[0] != 48,
    decreases n,
{
    lemma_decimal_len(n);
    if n < 10 {
        let d = (48 + n) as u8;
        assert(d as int == 48 + n);
        assert(decimal_text(n) == seq![d]);
        assert(decimal_text(n).drop_last() =~= Seq::<u8>::empty());
        assert(decimal_text(n).last() == d);
        assert(decimal_value(decimal_text(n)) == decimal_value(Seq::<u8>::empty()) * 10 + (d - 48));
    } else {
        law_position_literal_reads_back(n / 10);
        lemma_decimal_len(n / 10);
        let t = decimal_text(n / 10);
        let d = (48 + n % 10) as u8;
        assert(d as int == 48 + n % 10);
        assert(decimal_text(n) == t.push(d));
        assert(decimal_text(n).drop_last() =~= t);
        assert((n / 10) * 10 + n % 10 == n) by (nonlinear_arith);
        assert(decimal_text(n).last() == d);
        assert(decimal_value(decimal_text(n)) == decimal_value(t) * 10 + (d - 48));
        assert forall|k: int| 0 <= k < decimal_text(n).len() implies 48 <= #[trigger] decimal_text(n)[k] <= 57 by {
            if k < t.len() {
                assert(decimal_text(n)[k] == t[k]);
            }
        }
        assert(decimal_text(n)[0] == t[0]);
        if t.len() == 1 {
            assert(n / 10 < 10);
            assert(n / 10 >= 1) by (nonlinear_arith)
                requires
                    n >= 10,
            ;
            let d0 = (48 + n / 10) as u8;
            assert(d0 as int == 48 + n / 10);
            assert(t == seq![d0]);
        }
    }
}

/// The fields that `@[..]*` stands at when it starts at `i` and moves on
/// with `next` until the end.
pub open spec fn star_walk<F: Field>(fs: Seq<F>, i: int) -> Seq<int>
    decreases fs.len() - i,
{
    if 0 <= i < fs.len() {
        proof {
            lemma_next_unskipped(fs, i + 1);
        }
        seq![i] + star_walk(fs, next_unskipped(fs, i + 1))
    } else {
        Seq::empty()
    }
}

/// The indices of the fields from `i` on that are not skipped, in order.
pub open spec fn unskipped_from<F: Field>(fs: Seq<F>, i: int) -> Seq<int>
    decreases fs.len() - i,
{
    if 0 <= i < fs.len() {
        if fs[i].is_skipped() {
            unskipped_from(fs, i + 1)
        } else {
            seq![i] + unskipped_from(fs, i + 1)
        }
    } else {
        Seq::empty()
    }
}

/// `@[..]*`, started with `BracketStarCursor::new` and moved on with `next`,
/// stands at each field that is not skipped exactly once, in their order.
pub proof fn law_bracket_star_visits_unskipped_fields<F: Field>(fs: Seq<F>)
    ensures
        star_walk(fs, next_unskipped(fs, 0)) == unskipped_from(fs, 0),
{
    lemma_star_walk_from(fs, 0);
}

proof fn lemma_star_walk_from<F: Field>(fs: Seq<F>, i: int)
    requires
        0 <= i,
    ensures
        star_walk(fs, next_unskipped(fs, i)) == unskipped_from(fs, i),
    decreases fs.len() - i,
{
    lemma_next_unskipped(fs, i);
    if i < fs.len() {
        lemma_star_walk_from(fs, i + 1);
        if !fs[i].is_skipped() {
            assert(next_unskipped(fs, i) == i);
        } else {
            assert(next_unskipped(fs, i) == next_unskipped(fs, i + 1));
        }
    }
}

/// `[]` and `{}` are whole JSON values.
pub proof fn lemma_empty_group_is_json_value(s: Seq<u8>)
    requires
        s == seq![91u8, 93u8] || s == seq![123u8, 125u8],
    ensures
        crate::texts::is_json_value(s),
{
    let r = crate::state::deserializer::spec_value_no_nesting(s, 0);
    assert(s[0] == 91 || s[0] == 123);
    let (stack, st) = if s[0] == 91 {
        (seq![true], IntermediateState::AfterArrayStart)
    } else {
        (seq![false], IntermediateState::AfterObjectStart)
    };
    let step = crate::state::deserializer::spec_step(s, 1, stack, st);
    assert(spec_run(s, 1, stack, st) == match step {
        crate::state::deserializer::Step::Continue(stack2, state2, q) => if 1 < q <= s.len() {
            spec_run(s, q, stack2, state2)
        } else {
            Some(Err(ScanError::UnexpectedEof))
        },
        crate::state::deserializer::Step::Done(r) => r,
    });
}

/// `ChunkLen` counts exactly the bytes that `StrAsArrayVec` appends for the
/// same steps: after any steps, from text of `n` bytes and a count of `n`,
/// the text's length is the count.
pub proof fn law_chunk_len_counts_built_bytes(b: Seq<u8>, ops: Seq<crate::chunk::ChunkOp>)
    ensures
        crate::chunk::built_bytes(b, ops).len() == crate::chunk::counted_len(b.len(), ops),
    decreases ops.len(),
{
    if ops.len() > 0 {
        law_chunk_len_counts_built_bytes(b, ops.drop_last());
    }
}

/// Building in two runs of steps is building with all of them: the count
/// and the text after `ops1` and then `ops2` are those after `ops1 + ops2`.
/// With the `ChunkLen` and `StrAsArrayVec` methods each stated as one step,
/// any sequence of calls counts exactly the bytes it builds.
pub proof fn law_chunk_steps_compose(n: nat, b: Seq<u8>, ops1: Seq<crate::chunk::ChunkOp>, ops2: Seq<crate::chunk::ChunkOp>)
    ensures
        crate::chunk::counted_len(n, ops1 + ops2) == crate::chunk::counted_len(crate::chunk::counted_len(n, ops1), ops2),
        crate::chunk::built_bytes(b, ops1 + ops2) == crate::chunk::built_bytes(crate::chunk::built_bytes(b, ops1), ops2),
    decreases ops2.len(),
{
    if ops2.len() > 0 {
        law_chunk_steps_compose(n, b, ops1, ops2.drop_last());
        assert((ops1 + ops2).drop_last() =~= ops1 + ops2.drop_last());
        assert((ops1 + ops2).last() == ops2.last());
    } else {
        assert(ops1 + ops2 =~= ops1);
    }
}

/// Skipped fields take no part in the JSON form of a struct: its object
/// and its array, and their errors, are those of the fields not skipped.
pub proof fn law_skipped_fields_are_left_out(
    s: Span,
    cp: Seq<crate::syn_generic::tokens::TokenTree>,
    rf: Option<crate::syn_generic::parse_meta_utils::MetaPathSpanWith<crate::syn_generic::GroupParen>>,
    fs: Seq<crate::json_item::StructField>,
)
    ensures
        crate::struct_json::object_inner(s, cp, rf, fs) == crate::struct_json::object_inner(
            s,
            cp,
            rf,
            crate::struct_json::kept_fields(fs),
        ),
        crate::struct_json::object_errors(rf is Some, fs) == crate::struct_json::object_errors(
            rf is Some,
            crate::struct_json::kept_fields(fs),
        ),
        crate::struct_json::array_inner(s, fs) == crate::struct_json::array_inner(s, crate::struct_json::kept_fields(fs)),
        crate::struct_json::array_errors(fs) == crate::struct_json::array_errors(crate::struct_json::kept_fields(fs)),
    decreases fs.len(),
{
    if fs.len() > 0 {
        law_skipped_fields_are_left_out(s, cp, rf, fs.drop_last());
        let sub = crate::struct_json::kept_fields(fs.drop_last());
        if fs.last().skip is None {
            let g = sub.push(fs.last());
            assert(crate::struct_json::kept_fields(fs) =~= g);
            assert(g.drop_last() =~= sub);
            assert(g.last() == fs.last());
        } else {
            assert(crate::struct_json::kept_fields(fs) =~= sub);
        }
    }
}

/// A byte that RFC 8259 takes as a hexadecimal digit: `0`-`9`, `A`-`F`
/// or `a`-`f`.
pub open spec fn rfc_hexdig(b: u8) -> bool {
    (48 <= b && b <= 57) || (65 <= b && b <= 70) || (97 <= b && b <= 102)
}

/// A string holding one escape `\uXXXX` is a whole JSON value exactly when
/// its four digits are hexadecimal digits, in upper or lower case; else the
/// scanner refuses the escape.
pub proof fn law_unicode_escape_takes_hex_digits_of_either_case(h1: u8, h2: u8, h3: u8, h4: u8)
    ensures
        spec_parse_till_eof(seq![34u8, 92u8, 117u8, h1, h2, h3, h4, 34u8], StateView::Init) == if rfc_hexdig(h1)
            && rfc_hexdig(h2) && rfc_hexdig(h3) && rfc_hexdig(h4) {
            Some(Ok::<StateView, ScanError>(StateView::Eof(crate::state::ValueKind::String)))
        } else {
            Some(Err::<StateView, ScanError>(ScanError::CharInUnicodeEscape))
        },
{
    let s = seq![34u8, 92u8, 117u8, h1, h2, h3, h4, 34u8];
    reveal_with_fuel(spec_in_string, 3);
    assert(s[7] == 34u8);
    assert(spec_in_string(s, 7) == Ok::<(bool, int), ScanError>((true, 8)));
}

/// A field's own rename gives its key, whatever rename its struct gives
/// all its fields: the key is the field's rename applied to its name, at
/// the place of its name, and is the same as if the struct gave none.
pub proof fn law_own_field_rename_wins(
    cp: Seq<TokenTree>,
    rf: Option<MetaPathSpanWith<crate::syn_generic::GroupParen>>,
    f: crate::json_item::StructField,
)
    requires
        f.rename is Some,
    ensures
        crate::struct_json::field_key(cp, rf, f) == crate::json_item::rename_key(
            f.rename->Some_0.1,
            cp,
            f.rename->Some_0.0,
            crate::json_item::field_name_token(f.name),
        ).map_values(|t: DeepToken| crate::arg_props::deep_at(t, crate::struct_json::name_span_of(f.name))),
        crate::struct_json::field_key(cp, rf, f) == crate::struct_json::field_key(cp, None, f),
{
}

/// A field without a rename of its own takes the rename its struct gives
/// all its fields, applied to its name at the place of its name.
pub proof fn law_struct_field_rename_applies_to_plain_fields(
    cp: Seq<TokenTree>,
    m: MetaPathSpanWith<crate::syn_generic::GroupParen>,
    f: crate::json_item::StructField,
)
    requires
        f.rename is None,
    ensures
        crate::struct_json::field_key(cp, Some(m), f) == crate::json_item::rename_key(
            crate::json_item::Rename::Paren(m.1),
            cp,
            m.0,
            crate::json_item::field_name_token(f.name),
        ).map_values(|t: DeepToken| crate::arg_props::deep_at(t, crate::struct_json::name_span_of(f.name))),
{
}

/// A byte that ends every token before it: `[` `]` `{` `}`.
pub open spec fn is_bracket_byte(c: u8) -> bool {
    c == 91 || c == 93 || c == 123 || c == 125
}

proof fn lemma_skip_digits_snoc(t: Seq<u8>, c: u8, p: int)
    requires
        is_bracket_byte(c),
        0 <= p,
    ensures
        spec_skip_digits(t.push(c), p) == spec_skip_digits(t, p),
    decreases t.len() + 1 - p,
{
    let u = t.push(c);
    if p < t.len() {
        assert(u[p] == t[p]);
        if is_digit(t[p]) {
            lemma_skip_digits_snoc(t, c, p + 1);
        }
    } else if p == t.len() {
        assert(u[p] == c);
    }
}

proof fn lemma_positive_number_snoc(t: Seq<u8>, c: u8, p: int)
    requires
        is_bracket_byte(c),
        0 <= p <= t.len(),
    ensures
        spec_positive_number(t.push(c), p) == spec_positive_number(t, p),
{
    let u = t.push(c);
    assert forall|i: int| 0 <= i < t.len() implies u[i] == t[i] by {}
    assert(u[t.len() as int] == c);
    lemma_skip_digits_snoc(t, c, p + 1);
    if p < t.len() {
        crate::state::deserializer::lemma_skip_digits_bounds(t, p + 1);
        let q = if t[p] == 48 {
            p + 1
        } else {
            spec_skip_digits(t, p + 1)
        };
        lemma_skip_digits_snoc(t, c, q + 1);
        lemma_skip_digits_snoc(t, c, q + 2);
        lemma_skip_digits_snoc(t, c, q + 3);
        if q + 2 <= t.len() {
            crate::state::deserializer::lemma_skip_digits_bounds(t, q + 2);
        }
        let q2 = if 0 <= q < t.len() && t[q] == 46 && q + 1 < t.len() && is_digit(t[q + 1]) {
            spec_skip_digits(t, q + 2)
        } else {
            q
        };
        lemma_skip_digits_snoc(t, c, q2 + 2);
        lemma_skip_digits_snoc(t, c, q2 + 3);
    }
}

proof fn lemma_scalar_len_snoc(t: Seq<u8>, c: u8)
    requires
        is_bracket_byte(c),
        t.len() > 0,
    ensures
        scalar_len(t.push(c)) == scalar_len(t),
{
    reveal(number_len);
    let u = t.push(c);
    assert(u[0] == t[0]);
    assert(u[t.len() as int] == c);
    if t.len() >= 4 {
        assert(u.subrange(1, 4) =~= t.subrange(1, 4));
    }
    if t.len() >= 5 {
        assert(u.subrange(1, 5) =~= t.subrange(1, 5));
    }
    if t.len() == 3 {
        assert(u.subrange(1, 4)[2] == c);
    }
    if t.len() == 4 {
        assert(u.subrange(1, 5)[3] == c);
    }
    lemma_positive_number_snoc(t, c, 0);
    lemma_positive_number_snoc(t, c, 1);
}

proof fn lemma_escape_len_snoc(t: Seq<u8>, c: u8)
    requires
        is_bracket_byte(c),
        t.len() > 0,
    ensures
        escape_len(t.push(c)) == escape_len(t),
{
    let u = t.push(c);
    assert forall|i: int| 0 <= i < t.len() implies u[i] == t[i] by {}
    assert(u[t.len() as int] == c);
}

/// Applying the state operations to a text that a `[` `]` `{` or `}` ends
/// is applying them to the text before it, then the operation for it.
proof fn lemma_fold_snoc(t: Seq<u8>, c: u8, v: StateView)
    requires
        is_bracket_byte(c),
    ensures
        token_fold(t.push(c), v) == match token_fold(t, v) {
            Some(w) => byte_op(c, w),
            None => None,
        },
    decreases t.len(),
{
    let u = t.push(c);
    reveal(number_len);
    if t.len() == 0 {
        assert(u == seq![c]);
        assert(scalar_len(u) == 0);
        assert(escape_len(u) == 0);
        assert(u.drop_first().len() == 0);
        assert(u[0] == c);
        assert(token_fold(u, v) == match byte_op(c, v) {
            Some(w) => token_fold(u.drop_first(), w),
            None => None,
        });
    } else {
        lemma_scalar_len_snoc(t, c);
        lemma_escape_len_snoc(t, c);
        lemma_scalar_len_bounds(t);
        assert(u[0] == t[0]);
        if value_expected(v) && scalar_len(t) > 0 {
            let k = scalar_len(t);
            assert(u.subrange(k, u.len() as int) =~= t.subrange(k, t.len() as int).push(c));
            let tk = t.subrange(k, t.len() as int);
            assert(token_fold(u, v) == match spec_json_value(v) {
                Some(w) => token_fold(tk.push(c), w),
                None => None,
            });
            assert(token_fold(t, v) == match spec_json_value(v) {
                Some(w) => token_fold(tk, w),
                None => None,
            });
            match spec_json_value(v) {
                Some(w) => lemma_fold_snoc(tk, c, w),
                None => {},
            }
        } else if in_string_state(v) && escape_len(t) > 0 {
            let k = escape_len(t);
            assert(u.subrange(k, u.len() as int) =~= t.subrange(k, t.len() as int).push(c));
            let tk = t.subrange(k, t.len() as int);
            assert(token_fold(u, v) == match spec_json_string_fragment(v) {
                Some(w) => token_fold(tk.push(c), w),
                None => None,
            });
            match spec_json_string_fragment(v) {
                Some(w) => lemma_fold_snoc(tk, c, w),
                None => {},
            }
        } else {
            assert(u.drop_first() =~= t.drop_first().push(c));
            assert(token_fold(u, v) == match byte_op(t[0], v) {
                Some(w) => token_fold(t.drop_first().push(c), w),
                None => None,
            });
            match byte_op(t[0], v) {
                Some(w) => lemma_fold_snoc(t.drop_first(), c, w),
                None => {},
            }
        }
    }
}

/// A place right after `[` or `{`.
pub open spec fn is_start_state(st: IntermediateState) -> bool {
    st == IntermediateState::AfterArrayStart || st == IntermediateState::AfterObjectStart
}

/// A place that only a chunk's estimate gives, never a byte of text.
pub open spec fn is_either_state(st: IntermediateState) -> bool {
    st == IntermediateState::AfterArrayStartOrComma || st == IntermediateState::AfterArrayStartOrItem
        || st == IntermediateState::AfterObjectStartOrComma || st
        == IntermediateState::AfterObjectStartOrFieldValue
}

/// Applying the state operations to text from a well-formed place keeps
/// it well-formed; once any text is read it has left the initial state,
/// never stands at a place that only an estimate gives, and stands right
/// after `[` or `{` only where the text ends with one.
proof fn lemma_fold_reach(s: Seq<u8>, v: StateView)
    requires
        view_wf(v),
        token_fold(s, v) is Some,
    ensures
        view_wf(token_fold(s, v).unwrap()),
        s.len() > 0 ==> !(token_fold(s, v).unwrap() is Init),
        s.len() > 0 && token_fold(s, v).unwrap() is Inter ==> !is_either_state(token_fold(s, v).unwrap()->state),
        token_fold(s, v).unwrap() is Inter && is_start_state(token_fold(s, v).unwrap()->state) && s.len() > 0
            ==> s.last() == 91 || s.last() == 123,
    decreases s.len(),
{
    if s.len() > 0 {
        law_operations_keep_states_well_formed(v);
        lemma_scalar_len_bounds(s);
        if value_expected(v) && scalar_len(s) > 0 {
            let k = scalar_len(s);
            let tk = s.subrange(k, s.len() as int);
            let w = spec_json_value(v).unwrap();
            assert(token_fold(s, v) == token_fold(tk, w));
            if w is Inter {
                lemma_fold_reach(tk, w);
                if tk.len() > 0 {
                    assert(tk.last() == s.last());
                }
            } else if tk.len() > 0 {
                lemma_token_fold_of_eof(tk, w->Eof_0);
            }
        } else if in_string_state(v) && escape_len(s) > 0 {
            let k = escape_len(s);
            let tk = s.subrange(k, s.len() as int);
            assert(token_fold(s, v) == token_fold(tk, v));
            lemma_fold_reach(tk, v);
            if tk.len() > 0 {
                assert(tk.last() == s.last());
            }
        } else {
            let t1 = s.drop_first();
            let w = byte_op(s[0], v).unwrap();
            assert(token_fold(s, v) == token_fold(t1, w));
            if w is Inter {
                lemma_fold_reach(t1, w);
                if t1.len() > 0 {
                    assert(t1.last() == s.last());
                } else {
                    assert(s.len() == 1);
                }
            } else if t1.len() > 0 {
                lemma_token_fold_of_eof(t1, w->Eof_0);
            }
        }
    }
}

/// What stands between the first and the last byte of a text whose string
/// from `p + 1` on the last byte closes is the inside of a string that it
/// leaves open.
proof fn lemma_in_string_inside(s: Seq<u8>, p: int)
    requires
        0 <= p,
        s.len() >= 2,
        spec_in_string(s, p + 1) == Ok::<(bool, int), ScanError>((true, s.len() as int)),
    ensures
        spec_in_string(s.subrange(1, s.len() - 1), p) == Ok::<(bool, int), ScanError>((false, s.len() - 2)),
    decreases s.len() - p,
{
    let t = s.subrange(1, s.len() - 1);
    if p + 1 < s.len() {
        let b = s[p + 1];
        if p < t.len() {
            assert(t[p] == b);
        }
        if b == 92 {
            if p + 1 < t.len() {
                assert(t[p + 1] == s[p + 2]);
            }
            if is_simple_escape(s[p + 2]) {
                lemma_in_string_inside(s, p + 2);
            } else if p + 6 <= t.len() {
                assert(t[p + 2] == s[p + 3] && t[p + 3] == s[p + 4] && t[p + 4] == s[p + 5] && t[p + 5] == s[p + 6]);
                lemma_in_string_inside(s, p + 6);
            }
        } else if b != 34 && b > 0x1f {
            lemma_in_string_inside(s, p + 1);
        }
    }
}

/// Undoing the `[..]` `{..}` or `".."` around a whole JSON value gives its
/// inside the states that scanning that inside agrees with: scanning it from
/// the state `ungrouped_states` puts before it ends in the state that they
/// put after it. For an object with fields that is the place after a field
/// value, for an array with items the place after an item, and inside a
/// string the string itself. (An empty array is left out: the scanner wants
/// a value after `[` before text may end.)
pub proof fn law_ungrouped_states_agree_with_scan(b: Seq<u8>, k: crate::state::ValueKind)
    requires
        spec_parse_till_eof(b, StateView::Init) == Some(Ok::<StateView, ScanError>(StateView::Eof(k))),
        surrounding_group(b) is Some,
        !(b[0] == 91 && b.len() == 2),
    ensures
        spec_parse_till_eof(b.subrange(1, b.len() - 1), ungrouped_states(b[0], b.len() == 2).0) == Some(
            Ok::<StateView, ScanError>(ungrouped_states(b[0], b.len() == 2).1),
        ),
{
    let n = b.len() as int;
    let inner = b.subrange(1, n - 1);
    let first = b[0];
    if first == 34 {
        assert(b[n - 1] == 34);
        lemma_in_string_inside(b, 0);
        assert(spec_in_string(inner, 0) == Ok::<(bool, int), ScanError>((false, n - 2)));
        assert(spec_step(inner, 0, Seq::empty(), IntermediateState::InString) == crate::state::deserializer::Step::Done(
            Some(Ok::<StateView, ScanError>(crate::state::inter(Seq::empty(), IntermediateState::InString))),
        ));
    } else {
        reveal(number_len);
        let array = first == 91;
        let c = b[n - 1];
        assert(c == if array { 93u8 } else { 125u8 });
        let a = crate::state::inter(seq![array], if array {
            IntermediateState::AfterArrayStart
        } else {
            IntermediateState::AfterObjectStart
        });
        law_scan_succeeds_only_as_state_operations(b, StateView::Init);
        assert(scalar_len(b) == 0);
        assert(byte_op(first, StateView::Init) == Some(a));
        assert(b.drop_first() =~= inner.push(c));
        assert(token_fold(b, StateView::Init) == token_fold(b.drop_first(), a));
        lemma_fold_snoc(inner, c, a);
        assert(view_wf(a));
        lemma_fold_reach(inner, a);
        let w = token_fold(inner, a).unwrap();
        assert(byte_op(c, w) == Some(StateView::Eof(k)));
        assert(w is Inter);
        assert(!in_string_state(w));
        let ws = w->stack;
        assert(ws.len() == 1 && ws.last() == array);
        assert(ws =~= seq![array]);
        if inner.len() > 0 && is_start_state(w->state) {
            let i1 = inner.drop_last();
            let cc = inner.last();
            assert(inner =~= i1.push(cc));
            lemma_fold_snoc(i1, cc, a);
            lemma_fold_reach(i1, a);
            let u = token_fold(i1, a).unwrap();
            assert(byte_op(cc, u) == Some(w));
            assert(u is Inter);
            assert(false);
        }
        law_scan_agrees_with_state_operations(inner, a);
    }
}

/// The rest of a string that the last byte of the text closes, without that
/// byte, is the inside of a string that the text leaves open.
proof fn lemma_in_string_without_close(s: Seq<u8>, p: int)
    requires
        0 <= p,
        spec_in_string(s, p) == Ok::<(bool, int), ScanError>((true, s.len() as int)),
    ensures
        spec_in_string(s.drop_last(), p) == Ok::<(bool, int), ScanError>((false, s.len() - 1)),
    decreases s.len() - p,
{
    let t = s.drop_last();
    if p < s.len() {
        let b = s[p];
        if p < t.len() {
            assert(t[p] == b);
        }
        if b == 92 {
            if p + 1 < t.len() {
                assert(t[p + 1] == s[p + 1]);
            }
            if is_simple_escape(s[p + 1]) {
                lemma_in_string_without_close(s, p + 2);
            } else if p + 6 <= t.len() {
                assert(t[p + 2] == s[p + 2] && t[p + 3] == s[p + 3] && t[p + 4] == s[p + 4] && t[p + 5] == s[p + 5]);
                lemma_in_string_without_close(s, p + 6);
            }
        } else if b != 34 && b > 0x1f {
            lemma_in_string_without_close(s, p + 1);
        }
    }
}

/// Taking the closing `]` `}` or `"` off a chunk that ends a whole value
/// leaves a chunk whose text scans, from the same state, to the state that
/// `state_before_close` gives: the place after the last item or field
/// value of a container with content, right after `[` or `{` where the
/// chunk opened the container and nothing followed, the chunk's own start
/// state where nothing stays, and inside the string for a string. (A state
/// where a value is still wanted is left out, as the scanner refuses text
/// that ends there; for `"` the chunk starts in the initial state with the
/// string, or inside a top-level string.)
pub proof fn law_group_close_state_agrees_with_scan(prev: StateView, b: Seq<u8>, k: crate::state::ValueKind)
    requires
        view_wf(prev),
        spec_parse_till_eof(b, prev) == Some(Ok::<StateView, ScanError>(StateView::Eof(k))),
        b.len() >= 1,
        crate::chunk::is_group_close(b.last()),
        state_before_close(prev, b.drop_last(), b.last()) is Some,
        !needs_value(state_before_close(prev, b.drop_last(), b.last()).unwrap()),
        b.last() == 34 ==> (prev is Init && b[0] == 34) || prev == crate::state::spec_in_string(),
    ensures
        spec_parse_till_eof(b.drop_last(), prev) == Some(
            Ok::<StateView, ScanError>(state_before_close(prev, b.drop_last(), b.last()).unwrap()),
        ),
{
    let n = b.len() as int;
    let head = b.drop_last();
    let c = b.last();
    if c == 34 {
        if prev is Init {
            assert(spec_in_string(b, 1) == Ok::<(bool, int), ScanError>((true, n)));
            lemma_in_string_without_close(b, 1);
            assert(head[0] == 34);
        } else {
            assert(spec_in_string(b, 0) == Ok::<(bool, int), ScanError>((true, n)));
            lemma_in_string_without_close(b, 0);
            assert(spec_step(head, 0, Seq::empty(), IntermediateState::InString) == crate::state::deserializer::Step::Done(
                Some(Ok::<StateView, ScanError>(crate::state::inter(Seq::empty(), IntermediateState::InString))),
            ));
        }
    } else {
        let array = c == 93;
        assert(b =~= head.push(c));
        law_scan_succeeds_only_as_state_operations(b, prev);
        lemma_fold_snoc(head, c, prev);
        lemma_fold_reach(head, prev);
        let w = token_fold(head, prev).unwrap();
        assert(byte_op(c, w) == Some(StateView::Eof(k)));
        assert(w is Inter);
        assert(!in_string_state(w));
        let ws = w->stack;
        assert(ws.len() == 1 && ws.last() == array);
        assert(ws =~= seq![array]);
        if head.len() > 0 && is_start_state(w->state) && !(prev is Init && head.len() == 1) {
            let i1 = head.drop_last();
            let cc = head.last();
            assert(head =~= i1.push(cc));
            lemma_fold_snoc(i1, cc, prev);
            lemma_fold_reach(i1, prev);
            let u = token_fold(i1, prev).unwrap();
            assert(byte_op(cc, u) == Some(w));
            assert(u is Inter);
            assert(false);
        }
        if prev is Init && head.len() >= 1 {
            reveal(number_len);
            assert(scalar_len(head) == 0);
        }
        law_scan_agrees_with_state_operations(head, prev);
    }
}

} // verus!
