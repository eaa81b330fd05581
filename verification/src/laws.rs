use crate::actor::{CollectingVTActor, VTActor, VTEvent};
use crate::enums::State;
use crate::model::{
    lemma_run_single, lemma_run_take_step, replacement_character, ParserModel, MAX_INTERMEDIATES,
    MAX_PARAMS,
};
use crate::utf8::{
    lemma_outcome_of_beginning, lemma_outcome_of_encoding, utf8_partial, utf8_whole,
};
use vstd::utf8::encode_scalar;
use vstd::prelude::*;

verus! {

/// Parsing input in two pieces is parsing it whole: the state after `a` and then
/// `b` is the state after `a + b`, and the events are those of `a` followed by those
/// of `b`.
pub proof fn law_parse_in_pieces(m: ParserModel, a: Seq<u8>, b: Seq<u8>)
    ensures
        m.run(a + b) == (m.run(a).0.run(b).0, m.run(a).1 + m.run(a).0.run(b).1),
    decreases b.len(),
{
    if b.len() == 0 {
        assert(a + b =~= a);
        assert(m.run(a).1 + m.run(a).0.run(b).1 =~= m.run(a).1);
    } else {
        law_parse_in_pieces(m, a, b.drop_last());
        assert((a + b).drop_last() =~= a + b.drop_last());
        assert((a + b).last() == b.last());
        let mid = m.run(a).0;
        assert(m.run(a).1 + (mid.run(b.drop_last()).1 + mid.run(b.drop_last()).0.step(b.last()).1)
            =~= (m.run(a).1 + mid.run(b.drop_last()).1) + mid.run(b.drop_last()).0.step(
            b.last(),
        ).1);
    }
}

/// In the ground state a printable byte (0x20 to 0x7f) is printed as the character
/// with that code, and the state does not change.
pub proof fn law_ground_prints(m: ParserModel, b: u8)
    requires
        m.state == State::Ground,
        0x20 <= b <= 0x7f,
    ensures
        m.step(b) == (m, seq![VTEvent::Print(b as char)]),
{
    reveal(ParserModel::step);
}

/// In the ground state a C0 control other than CAN, SUB and ESC is executed, and the
/// state does not change.
pub proof fn law_ground_executes_c0(m: ParserModel, b: u8)
    requires
        m.state == State::Ground,
        b <= 0x1f,
        b != 0x18 && b != 0x1a && b != 0x1b,
    ensures
        m.step(b) == (m, seq![VTEvent::ExecuteC0orC1(b)]),
{
    reveal(ParserModel::step);
}

/// ESC, outside a UTF-8 sequence, always starts a new escape sequence: the parser
/// enters the escape state with no intermediates and no parameters.
pub proof fn law_esc_starts_sequence(m: ParserModel)
    requires
        m.state != State::Utf8Sequence,
        m.state != State::Escape,
    ensures
        m.step(0x1b).0.state == State::Escape,
        m.step(0x1b).0.intermediates.len() == 0,
        !m.step(0x1b).0.ignored_excess_intermediates,
        m.step(0x1b).0.params.len() == 0,
        m.step(0x1b).0.current_param is None,
        !m.step(0x1b).0.params_full,
{
    reveal(ParserModel::step);
}

/// CAN and SUB, outside a UTF-8 sequence, abort whatever sequence is in progress:
/// the control is executed and the parser returns to the ground state.
pub proof fn law_can_sub_abort(m: ParserModel, b: u8)
    requires
        m.state != State::Utf8Sequence,
        b == 0x18 || b == 0x1a,
    ensures
        m.step(b).0.state == State::Ground,
        m.step(b).1.len() >= 1,
        m.step(b).1.last() == VTEvent::ExecuteC0orC1(b),
{
    reveal(ParserModel::step);
}

/// BEL and ST end an OSC string: its parameters are dispatched and the parser
/// returns to the ground state.
pub proof fn law_osc_terminators(m: ParserModel, b: u8)
    requires
        m.state == State::OscString,
        b == 0x07 || b == 0x9c,
    ensures
        m.step(b).0.state == State::Ground,
        m.step(b).1 == seq![VTEvent::OscDispatch(m.osc.params())],
{
    reveal(ParserModel::step);
    assert(m.step(b).1 =~= seq![VTEvent::OscDispatch(m.osc.params())]);
}

/// CAN, SUB and ESC end an OSC string too: its parameters are dispatched first.
pub proof fn law_osc_interrupted(m: ParserModel, b: u8)
    requires
        m.state == State::OscString,
        b == 0x18 || b == 0x1a || b == 0x1b,
    ensures
        m.step(b).1.len() >= 1,
        m.step(b).1[0] == VTEvent::OscDispatch(m.osc.params()),
{
    reveal(ParserModel::step);
}

/// A device control string is ended by ST, CAN, SUB or ESC, and the handler is told
/// so first.
pub proof fn law_dcs_unhooked(m: ParserModel, b: u8)
    requires
        m.state == State::DcsPassthrough,
        b == 0x9c || b == 0x18 || b == 0x1a || b == 0x1b,
    ensures
        m.step(b).1.len() >= 1,
        m.step(b).1[0] == VTEvent::DcsUnhook,
        m.step(b).0.state != State::DcsPassthrough,
{
    reveal(ParserModel::step);
}

/// The data of a device control string, C0 controls included, is passed to the
/// handler byte by byte.
pub proof fn law_dcs_data_passed(m: ParserModel, b: u8)
    requires
        m.state == State::DcsPassthrough,
        b <= 0x7e,
        b != 0x18 && b != 0x1a && b != 0x1b,
    ensures
        m.step(b) == (m, seq![VTEvent::DcsPut(b)]),
{
    reveal(ParserModel::step);
}

/// Outside a UTF-8 sequence, and on a byte that does not start one, whatever is
/// printed is the 7-bit printable value of the byte taken.
pub proof fn law_print_is_printable(m: ParserModel, b: u8, i: int)
    requires
        m.state != State::Utf8Sequence,
        !(0xc2 <= b <= 0xf4),
        0 <= i < m.step(b).1.len(),
        m.step(b).1[i] is Print,
    ensures
        m.step(b).1[i] == VTEvent::Print(b as char),
        0x20 <= b <= 0x7f,
{
    reveal(ParserModel::step);
}

/// An omitted parameter is returned as a zero: a `;` with no digits before it adds
/// the parameter 0 (while there is room for it), and starts the next parameter at
/// zero, so that an omitted parameter after it is zero too.
pub proof fn law_omitted_param_is_zero(m: ParserModel)
    requires
        m.state == State::CsiEntry || m.state == State::CsiParam || m.state == State::DcsEntry
            || m.state == State::DcsParam,
        m.current_param is None,
        !m.params_full,
        m.params.len() < MAX_PARAMS,
    ensures
        m.step(0x3b).0.params == m.params.push(0),
        m.step(0x3b).0.current_param == Some(0i64),
{
    reveal(ParserModel::step);
}

/// Intermediates after the second set the flag and are discarded.
pub proof fn law_excess_intermediates_discarded(m: ParserModel, b: u8)
    requires
        m.state == State::EscapeIntermediate || m.state == State::CsiIntermediate || m.state
            == State::DcsIntermediate,
        m.intermediates.len() == MAX_INTERMEDIATES,
        0x20 <= b <= 0x2f,
    ensures
        m.step(b) == (ParserModel { ignored_excess_intermediates: true, ..m }, Seq::<VTEvent>::empty()),
{
    reveal(ParserModel::step);
}

/// Invalid UTF-8 is represented by the unicode REPLACEMENT_CHARACTER: inside a
/// UTF-8 sequence begun in the ground state, a byte that neither continues nor
/// completes the encoding of a character prints REPLACEMENT_CHARACTER, and the
/// parser returns to the ground state.
pub proof fn law_invalid_utf8_replaced(m: ParserModel, b: u8)
    requires
        m.wf(),
        m.state == State::Utf8Sequence,
        m.utf8_return_state == State::Ground,
        !utf8_partial(m.utf8_pending.push(b)),
        !utf8_whole(m.utf8_pending.push(b)),
    ensures
        m.step(b).0.state == State::Ground,
        m.step(b).0.utf8_pending.len() == 0,
        m.step(b).1 == seq![VTEvent::Print(replacement_character())],
{
    reveal(ParserModel::step);
}

/// A UTF-8 sequence begun in the ground state that a byte completes to the
/// encoding of a character prints that character, and the parser returns to the
/// ground state.
pub proof fn law_utf8_printed(m: ParserModel, b: u8, c: char)
    requires
        m.state == State::Utf8Sequence,
        m.utf8_return_state == State::Ground,
        m.utf8_pending.push(b) == encode_scalar(c as u32),
    ensures
        m.step(b).0.state == State::Ground,
        m.step(b).0.utf8_pending.len() == 0,
        m.step(b).1 == seq![VTEvent::Print(c)],
{
    reveal(ParserModel::step);
    lemma_outcome_of_encoding(c);
}

/// The encoding of a character outside ASCII has two to four bytes, and its first
/// byte is a lead byte (`0xc2` to `0xf4`).
proof fn lemma_encoding_shape(c: char)
    requires
        (c as u32) >= 0x80,
    ensures
        2 <= encode_scalar(c as u32).len() <= 4,
        0xc2 <= encode_scalar(c as u32)[0] <= 0xf4,
{
    let v = c as u32;
    vstd::utf8::char_is_scalar(c);
    if 0x80 <= v <= 0x7ff {
        assert(0xc2 <= (0xC0 | ((v >> 6) & 0x1F) as u8) <= 0xdf) by (bit_vector)
            requires
                0x80 <= v <= 0x7ff,
        ;
    } else if 0x800 <= v <= 0xffff {
        assert(0xe0 <= (0xE0 | ((v >> 12) & 0x0F) as u8) <= 0xef) by (bit_vector);
    } else {
        assert(0xf0 <= (0xF0 | ((v >> 18) & 0x7) as u8) <= 0xf4) by (bit_vector)
            requires
                0x10000 <= v <= 0x10ffff,
        ;
    }
}

/// The first `k` bytes of the encoding of `c` (a proper beginning of it), taken in
/// the ground state, are held as a UTF-8 sequence and nothing is dispatched yet.
proof fn lemma_utf8_beginning(m: ParserModel, c: char, k: int)
    requires
        m.wf(),
        m.state == State::Ground,
        (c as u32) >= 0x80,
        1 <= k < encode_scalar(c as u32).len(),
    ensures
        m.run(encode_scalar(c as u32).take(k)) == (
            ParserModel {
                state: State::Utf8Sequence,
                utf8_pending: encode_scalar(c as u32).take(k),
                utf8_return_state: State::Ground,
                ..m
            },
            Seq::<VTEvent>::empty(),
        ),
    decreases k,
{
    reveal(ParserModel::step);
    let e = encode_scalar(c as u32);
    lemma_encoding_shape(c);
    lemma_outcome_of_beginning(c, k);
    if k == 1 {
        assert(e.take(1) =~= seq![e[0]]);
        lemma_run_single(m, e[0]);
        assert(m.utf8_pending.push(e[0]) =~= e.take(1));
        assert(m.step(e[0]).1 =~= Seq::<VTEvent>::empty());
    } else {
        lemma_utf8_beginning(m, c, k - 1);
        lemma_run_take_step(m, e, k - 1);
        assert(e.take(k - 1).push(e[k - 1]) =~= e.take(k));
        assert(Seq::<VTEvent>::empty() + Seq::<VTEvent>::empty() =~= Seq::<VTEvent>::empty());
    }
}

/// If the input was UTF-8 then it is mapped to a unicode code point: in the ground
/// state the encoding of a character outside ASCII prints that character, once,
/// and the parser is back in the ground state with nothing else changed.
pub proof fn law_utf8_char_printed(m: ParserModel, c: char)
    requires
        m.wf(),
        m.state == State::Ground,
        (c as u32) >= 0x80,
    ensures
        m.run(encode_scalar(c as u32)) == (
            ParserModel { utf8_return_state: State::Ground, ..m },
            seq![VTEvent::Print(c)],
        ),
{
    reveal(ParserModel::step);
    let e = encode_scalar(c as u32);
    let n = e.len() as int;
    lemma_encoding_shape(c);
    lemma_utf8_beginning(m, c, n - 1);
    lemma_run_take_step(m, e, n - 1);
    assert(e.take(n) =~= e);
    assert(e.take(n - 1).push(e[n - 1]) =~= e);
    lemma_outcome_of_encoding(c);
    assert(m.utf8_pending =~= Seq::<u8>::empty());
    assert(Seq::<VTEvent>::empty() + seq![VTEvent::Print(c)] =~= seq![VTEvent::Print(c)]);
}

/// A UTF-8 sequence begun in an OSC string that a byte completes to the encoding
/// of a character adds that encoding to the current parameter, and the parser
/// returns to the OSC string.
pub proof fn law_utf8_in_osc(m: ParserModel, b: u8, c: char)
    requires
        m.wf(),
        m.state == State::Utf8Sequence,
        m.utf8_return_state == State::OscString,
        m.utf8_pending.push(b) == encode_scalar(c as u32),
        !m.osc.full,
    ensures
        m.step(b).0.state == State::OscString,
        m.step(b).0.osc.buffer == m.osc.buffer + encode_scalar(c as u32),
        m.step(b).1.len() == 0,
{
    reveal(ParserModel::step);
    assert(m.utf8_pending.len() > 0);
    lemma_outcome_of_encoding(c);
    assert(c != ';');
}

/// A `CollectingVTActor` records every call it receives: what the parser's
/// contracts say of `recorded` holds of the captured events.
pub proof fn law_collecting_actor_records(a: CollectingVTActor)
    ensures
        a.records_calls(),
        a.recorded() == a.events(),
{
}

} // verus!
