use crate::actor::VTEvent;
use crate::enums::State;
use crate::model::{OscModel, ParserModel};
use vstd::prelude::*;

verus! {

/// A C0 control other than CAN, SUB and ESC.
pub open spec fn plain_c0(b: u8) -> bool {
    b <= 0x17 || b == 0x19 || (0x1c <= b && b <= 0x1f)
}

/// Inside an escape or control sequence a C0 control (other than CAN, SUB and ESC)
/// is executed, and the sequence goes on as if it were not there.
pub proof fn law_c0_executed_in_sequences(m: ParserModel, b: u8)
    requires
        m.state == State::Escape || m.state == State::EscapeIntermediate || m.state
            == State::CsiEntry || m.state == State::CsiParam || m.state == State::CsiIntermediate
            || m.state == State::CsiIgnore,
        plain_c0(b),
    ensures
        m.step(b) == (m, seq![VTEvent::ExecuteC0orC1(b)]),
{
    reveal(ParserModel::step);
}

/// Inside a device control string before its data, an OSC string (but for BEL,
/// which ends it) and an SOS, PM or APC string, a C0 control (other than CAN, SUB
/// and ESC) is ignored.
pub proof fn law_c0_ignored_in_strings(m: ParserModel, b: u8)
    requires
        m.state == State::DcsEntry || m.state == State::DcsParam || m.state
            == State::DcsIntermediate || m.state == State::DcsIgnore || m.state
            == State::SosPmApcString || (m.state == State::OscString && b != 0x07),
        plain_c0(b),
    ensures
        m.step(b) == (m, Seq::<VTEvent>::empty()),
{
    reveal(ParserModel::step);
    assert(m.step(b).1 =~= Seq::<VTEvent>::empty());
}

/// DEL is ignored everywhere but in the ground state (where it is printed) and in
/// an OSC string (where it is part of the string).
pub proof fn law_del_ignored(m: ParserModel)
    requires
        m.state != State::Ground,
        m.state != State::OscString,
        m.state != State::Utf8Sequence,
    ensures
        m.step(0x7f) == (m, Seq::<VTEvent>::empty()),
{
    reveal(ParserModel::step);
    assert(m.step(0x7f).1 =~= Seq::<VTEvent>::empty());
}

/// Bytes from 0xa0 on that start no UTF-8 sequence are ignored: everywhere outside
/// a UTF-8 sequence, but for lead bytes (0xc2 to 0xf4) in the ground state and in
/// an OSC string.
pub proof fn law_high_bytes_ignored(m: ParserModel, b: u8)
    requires
        m.state != State::Utf8Sequence,
        0xa0 <= b,
        (m.state == State::Ground || m.state == State::OscString) ==> !(0xc2 <= b <= 0xf4),
    ensures
        m.step(b) == (m, Seq::<VTEvent>::empty()),
{
    reveal(ParserModel::step);
    assert(m.step(b).1 =~= Seq::<VTEvent>::empty());
}

/// ST (0x9c) ends whatever string or sequence is in progress: what it ends is
/// handed on, and the parser is in the ground state.
pub proof fn law_st_ends(m: ParserModel)
    requires
        m.state != State::Utf8Sequence,
    ensures
        m.step(0x9c).0.state == State::Ground,
        m.step(0x9c).1 == m.leaving_events(),
{
    reveal(ParserModel::step);
    if m.state != State::Ground {
        assert(m.step(0x9c).1 =~= m.leaving_events());
    } else {
        assert(m.step(0x9c).1 =~= Seq::<VTEvent>::empty());
    }
}

/// An OSC string starts afresh after `ESC ]` from every state outside a UTF-8
/// sequence, and after the C1 control OSC (0x9d) from every such state but an OSC
/// string: what it ends is handed on and the string is empty.
pub proof fn law_osc_starts(m: ParserModel, c1: bool)
    requires
        m.state != State::Utf8Sequence,
        c1 ==> m.state != State::OscString,
    ensures
        ({
            let bytes = if c1 {
                seq![0x9du8]
            } else {
                seq![0x1bu8, 0x5du8]
            };
            &&& m.run(bytes).0.state == State::OscString
            &&& m.run(bytes).0.osc == OscModel::initial()
            &&& m.run(bytes).1 == m.leaving_events()
        }),
{
    reveal(ParserModel::step);
    reveal_with_fuel(ParserModel::run, 3);
    if c1 {
        assert(seq![0x9du8].drop_last() =~= Seq::<u8>::empty());
        assert(m.step(0x9d).1 =~= m.leaving_events());
        assert(m.run(seq![0x9du8]).1 =~= m.leaving_events());
    } else {
        let b = seq![0x1bu8, 0x5du8];
        assert(b.drop_last() =~= seq![0x1bu8]);
        assert(seq![0x1bu8].drop_last() =~= Seq::<u8>::empty());
        let me = m.step(0x1b).0;
        if m.state != State::Escape {
            assert(m.step(0x1b).1 =~= m.leaving_events());
        }
        assert(me.state == State::Escape);
        assert(me.step(0x5d).1 =~= Seq::<VTEvent>::empty());
        assert(m.run(b).1 =~= m.leaving_events());
    }
}

/// The bytes that introduce an SOS, PM or APC string: `X`, `^` or `_` after ESC.
pub open spec fn sos_pm_apc_introducer(b: u8) -> bool {
    b == 0x58 || b == 0x5e || b == 0x5f
}

/// An SOS, PM or APC string starts after `ESC X`, `ESC ^` or `ESC _` from every
/// state outside a UTF-8 sequence, and after the C1 controls SOS, PM and APC (0x98,
/// 0x9e, 0x9f): what it ends is handed on.
pub proof fn law_sos_pm_apc_starts(m: ParserModel, b: u8)
    requires
        m.state != State::Utf8Sequence,
        sos_pm_apc_introducer(b) || b == 0x98 || b == 0x9e || b == 0x9f,
    ensures
        ({
            let bytes = if sos_pm_apc_introducer(b) {
                seq![0x1bu8, b]
            } else {
                seq![b]
            };
            &&& m.run(bytes).0.state == State::SosPmApcString
            &&& m.run(bytes).1 == m.leaving_events()
        }),
{
    reveal(ParserModel::step);
    reveal_with_fuel(ParserModel::run, 3);
    if sos_pm_apc_introducer(b) {
        let bs = seq![0x1bu8, b];
        assert(bs.drop_last() =~= seq![0x1bu8]);
        assert(seq![0x1bu8].drop_last() =~= Seq::<u8>::empty());
        if m.state != State::Escape {
            assert(m.step(0x1b).1 =~= m.leaving_events());
        }
        assert(m.step(0x1b).0.step(b).1 =~= Seq::<VTEvent>::empty());
        assert(m.run(bs).1 =~= m.leaving_events());
    } else {
        assert(seq![b].drop_last() =~= Seq::<u8>::empty());
        if m.state != State::SosPmApcString {
            assert(m.step(b).1 =~= m.leaving_events());
        } else {
            assert(m.step(b).1 =~= Seq::<VTEvent>::empty());
        }
        assert(m.run(seq![b]).1 =~= m.leaving_events());
    }
}

/// An SOS, PM or APC string ignores everything up to what ends it (ST, CAN, SUB,
/// ESC or another C1 control).
pub proof fn law_sos_pm_apc_ignored(m: ParserModel, b: u8)
    requires
        m.state == State::SosPmApcString,
        b != 0x18 && b != 0x1a && b != 0x1b,
        !(0x80 <= b <= 0x9f),
    ensures
        m.step(b) == (m, Seq::<VTEvent>::empty()),
{
    reveal(ParserModel::step);
    assert(m.step(b).1 =~= Seq::<VTEvent>::empty());
}

/// A control sequence with a byte that no valid sequence has in its place (a `:`
/// among the parameters, a private marker after a parameter, a parameter byte after
/// an intermediate) is ignored: nothing is dispatched and the parser skips to its
/// final byte.
pub proof fn law_csi_invalid_ignored(m: ParserModel, b: u8)
    requires
        ({
            ||| (m.state == State::CsiEntry || m.state == State::CsiParam) && b == 0x3a
            ||| m.state == State::CsiParam && 0x3c <= b <= 0x3f
            ||| m.state == State::CsiIntermediate && 0x30 <= b <= 0x3f
        }),
    ensures
        m.step(b).0.state == State::CsiIgnore,
        m.step(b).1 == Seq::<VTEvent>::empty(),
{
    reveal(ParserModel::step);
    assert(m.step(b).1 =~= Seq::<VTEvent>::empty());
}

/// An ignored control sequence takes its remaining parameter and intermediate bytes
/// and DEL without effect, and its final byte returns to the ground state with
/// nothing dispatched.
pub proof fn law_csi_ignore(m: ParserModel, b: u8)
    requires
        m.state == State::CsiIgnore,
        0x20 <= b <= 0x7f,
    ensures
        b <= 0x3f || b == 0x7f ==> m.step(b) == (m, Seq::<VTEvent>::empty()),
        0x40 <= b <= 0x7e ==> m.step(b).0.state == State::Ground && m.step(b).1
            == Seq::<VTEvent>::empty(),
{
    reveal(ParserModel::step);
    assert(m.step(b).1 =~= Seq::<VTEvent>::empty());
}

/// A device control string with a byte that no valid one has in its place is
/// ignored up to what ends it: nothing is hooked and no data is passed on.
pub proof fn law_dcs_invalid_ignored(m: ParserModel, b: u8, c: u8)
    requires
        ({
            ||| (m.state == State::DcsEntry || m.state == State::DcsParam) && b == 0x3a
            ||| m.state == State::DcsParam && 0x3c <= b <= 0x3f
            ||| m.state == State::DcsIntermediate && 0x30 <= b <= 0x3f
        }),
        c <= 0x7f,
        c != 0x18 && c != 0x1a && c != 0x1b,
    ensures
        m.step(b).0.state == State::DcsIgnore,
        m.step(b).1 == Seq::<VTEvent>::empty(),
        m.step(b).0.step(c) == (m.step(b).0, Seq::<VTEvent>::empty()),
{
    reveal(ParserModel::step);
    assert(m.step(b).1 =~= Seq::<VTEvent>::empty());
    assert(m.step(b).0.step(c).1 =~= Seq::<VTEvent>::empty());
}

} // verus!
