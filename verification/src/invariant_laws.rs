use crate::actor::VTEvent;
use crate::enums::{Action, State};
use crate::laws::law_parse_in_pieces;
use crate::model::{
    lemma_run_single, saturate, OscModel, ParserModel, MAX_INTERMEDIATES, MAX_OSC, MAX_PARAMS,
};
use crate::transitions::{entry_action, exit_action, lemma_transition_facts, transition};
use crate::utf8::{lemma_lead_byte_partial, utf8_outcome, Utf8Outcome};
use vstd::prelude::*;

verus! {

/// The OSC collector stays well formed whatever it takes.
proof fn lemma_osc_put_wf(o: OscModel, c: char)
    requires
        o.wf(),
    ensures
        o.put(c).wf(),
{
    let n = o.put(c);
    if c == ';' && o.num_params != 16 {
        assert forall|i: int, j: int| 0 <= i <= j < n.indices.len() implies n.indices[i]
            <= n.indices[j] by {
            if j == n.indices.len() - 1 && i < j {
                assert(n.indices[i] == o.indices[i]);
            }
        }
    }
}

/// Every action keeps the bounds of the fields and parameters at least zero.
proof fn lemma_perform_keeps(m: ParserModel, action: Action, b: u8)
    requires
        m.fields_wf(),
        m.params_nonneg(),
        action == Action::Param ==> (0x30 <= b <= 0x39 || b == 0x3b),
    ensures
        m.perform(action, b).0.fields_wf(),
        m.perform(action, b).0.params_nonneg(),
        m.perform(action, b).0.state == m.state,
        m.perform(action, b).0.utf8_return_state == m.utf8_return_state,
{
    let n = m.perform(action, b).0;
    match action {
        Action::Param => {
            let cur: i64 = match m.current_param {
                Some(v) => v,
                None => 0i64,
            };
            assert(cur >= 0);
            assert(saturate(cur * 10) >= 0);
            if !m.params_full && b == 0x3b && m.params.len() + 1 <= 16 {
                assert forall|i: int| 0 <= i < n.params.len() implies n.params[i] >= 0 by {
                    if i < m.params.len() {
                        assert(n.params[i] == m.params[i]);
                    }
                }
            }
        },
        Action::Hook | Action::EscDispatch | Action::CsiDispatch => {
            let f = m.finish_param();
            assert forall|i: int| 0 <= i < f.params.len() implies f.params[i] >= 0 by {
                if i < m.params.len() {
                    assert(f.params[i] == m.params[i]);
                }
            }
        },
        Action::OscPut => {
            lemma_osc_put_wf(m.osc, b as char);
        },
        _ => {},
    }
}

/// Taking one byte keeps the facts of `ParserModel::wf`.
proof fn lemma_feed_keeps_wf(m: ParserModel, b: u8)
    requires
        m.wf(),
        m.state == State::Utf8Sequence,
    ensures
        m.utf8_feed(b).0.wf(),
{
    let bytes = m.utf8_pending.push(b);
    match utf8_outcome(bytes) {
        Utf8Outcome::Incomplete => {},
        Utf8Outcome::Codepoint(c) => {
            if m.utf8_return_state == State::OscString {
                lemma_osc_put_wf(m.osc, c);
            }
        },
        Utf8Outcome::Invalid => {
            if m.utf8_return_state == State::OscString {
                lemma_osc_put_wf(m.osc, '\u{FFFD}');
            }
        },
    }
}

/// Every state that parsing reaches is well formed: the parser starts well formed
/// (`law_initial_wf`) and every byte keeps it so.  In particular the intermediates
/// and parameters stay within their bounds, every parameter is at least zero, an
/// escape sequence holds no parameters and only intermediates in 0x20 to 0x2f, and
/// inside a UTF-8 sequence the state to go back to is `Ground` or `OscString`, so
/// that a decoded character always has a state to take it, and the bytes held are
/// a proper beginning of the encoding of some character.
pub proof fn law_step_keeps_wf(m: ParserModel, b: u8)
    requires
        m.wf(),
    ensures
        m.step(b).0.wf(),
{
    reveal(ParserModel::step);
    lemma_transition_facts(m.state, b);
    if m.state == State::Utf8Sequence {
        lemma_feed_keeps_wf(m, b);
    } else {
        let (action, next) = transition(m.state, b);
        if next != m.state {
            let m1 = if next != State::Utf8Sequence {
                m.perform(exit_action(m.state), 0).0
            } else {
                m
            };
            if next != State::Utf8Sequence {
                lemma_perform_keeps(m, exit_action(m.state), 0);
            }
            let m2 = m1.perform(action, b).0;
            lemma_perform_keeps(m1, action, b);
            let m3 = m2.perform(entry_action(next), 0).0;
            lemma_perform_keeps(m2, entry_action(next), 0);
            if next == State::Utf8Sequence {
                lemma_lead_byte_partial(b);
                assert(m.utf8_pending.push(b) =~= seq![b]);
            }
            if next == State::EscapeIntermediate {
                assert(m.state == State::Escape);
                assert(m1 == m);
                assert(m2.intermediates =~= seq![b]);
            }
        } else {
            lemma_perform_keeps(m, action, b);
            if m.state == State::EscapeIntermediate && action == Action::Collect && m.intermediates.len()
                < MAX_INTERMEDIATES {
                let n = m.perform(action, b).0;
                assert forall|i: int| 0 <= i < n.intermediates.len() implies 0x20
                    <= #[trigger] n.intermediates[i] <= 0x2f by {
                    if i < m.intermediates.len() {
                        assert(n.intermediates[i] == m.intermediates[i]);
                    }
                }
            }
        }
    }
}

/// The parser starts well formed.
pub proof fn law_initial_wf()
    ensures
        ParserModel::initial().wf(),
{
}

/// What a dispatch carries: a CSI dispatch or DCS hook at most two intermediates
/// and at most sixteen parameters, each at least zero (a decimal field too large
/// for `i64` is handed on as `i64::MAX`); an ESC dispatch no parameters and at most
/// two intermediates, each in 0x20 to 0x2f; an OSC dispatch at most sixteen
/// parameters.
pub open spec fn well_formed_event(e: VTEvent) -> bool {
    match e {
        VTEvent::DcsHook { params, intermediates, .. } => params.len() <= MAX_PARAMS
            && intermediates.len() <= MAX_INTERMEDIATES && all_nonneg(params),
        VTEvent::EscDispatch { params, intermediates, .. } => params.len() == 0
            && intermediates.len() <= MAX_INTERMEDIATES && forall|i: int|
            0 <= i < intermediates.len() ==> 0x20 <= #[trigger] intermediates[i] <= 0x2f,
        VTEvent::CsiDispatch { params, intermediates, .. } => params.len() <= MAX_PARAMS
            && intermediates.len() <= MAX_INTERMEDIATES && all_nonneg(params),
        VTEvent::OscDispatch(params) => params.len() <= MAX_OSC,
        _ => true,
    }
}

/// Every value of `params` is at least zero.
pub open spec fn all_nonneg(params: Seq<i64>) -> bool {
    forall|i: int| 0 <= i < params.len() ==> #[trigger] params[i] >= 0
}

pub open spec fn all_well_formed(events: Seq<VTEvent>) -> bool {
    forall|i: int| 0 <= i < events.len() ==> well_formed_event(#[trigger] events[i])
}

proof fn lemma_concat_well_formed(a: Seq<VTEvent>, b: Seq<VTEvent>)
    requires
        all_well_formed(a),
        all_well_formed(b),
    ensures
        all_well_formed(a + b),
{
    assert forall|i: int| 0 <= i < (a + b).len() implies well_formed_event(#[trigger] (a + b)[i]) by {
        if i < a.len() {
            assert((a + b)[i] == a[i]);
        } else {
            assert((a + b)[i] == b[i - a.len()]);
        }
    }
}

/// What an action dispatches is well formed.
proof fn lemma_perform_well_formed(m: ParserModel, action: Action, b: u8)
    requires
        m.fields_wf(),
        m.params_nonneg(),
        action == Action::EscDispatch ==> m.escape_clean(),
    ensures
        all_well_formed(m.perform(action, b).1),
{
    let e = m.perform(action, b).1;
    let f = m.finish_param();
    assert forall|i: int| 0 <= i < f.params.len() implies #[trigger] f.params[i] >= 0 by {
        if i < m.params.len() {
            assert(f.params[i] == m.params[i]);
        }
    }
    assert forall|i: int| 0 <= i < e.len() implies well_formed_event(#[trigger] e[i]) by {
        assert(e.len() == 1);
        assert(i == 0);
    }
}

/// Every dispatch is well formed (`well_formed_event`), from every state that
/// parsing reaches: at most two intermediates and sixteen parameters, each at least
/// zero; ESC dispatches with no parameters and intermediates in 0x20 to 0x2f only;
/// OSC dispatches with at most sixteen parameters.
pub proof fn law_dispatch_well_formed(m: ParserModel, b: u8)
    requires
        m.wf(),
    ensures
        all_well_formed(m.step(b).1),
{
    reveal(ParserModel::step);
    lemma_transition_facts(m.state, b);
    if m.state == State::Utf8Sequence {
        let e = m.step(b).1;
        assert forall|i: int| 0 <= i < e.len() implies well_formed_event(#[trigger] e[i]) by {
            assert(e.len() == 1);
        }
    } else {
        let (action, next) = transition(m.state, b);
        if next != m.state {
            let (m1, e1) = if next != State::Utf8Sequence {
                m.perform(exit_action(m.state), 0)
            } else {
                (m, seq![])
            };
            if next != State::Utf8Sequence {
                lemma_perform_keeps(m, exit_action(m.state), 0);
                lemma_perform_well_formed(m, exit_action(m.state), 0);
            }
            if action == Action::EscDispatch {
                assert(m1 == m);
            }
            let (m2, e2) = m1.perform(action, b);
            lemma_perform_keeps(m1, action, b);
            lemma_perform_well_formed(m1, action, b);
            lemma_perform_well_formed(m2, entry_action(next), 0);
            let e3 = m2.perform(entry_action(next), 0).1;
            lemma_concat_well_formed(e1, e2);
            lemma_concat_well_formed(e1 + e2, e3);
        } else {
            lemma_perform_well_formed(m, action, b);
        }
    }
}

/// `Clear` forgets everything collected before it: a CSI or ESC dispatch or DCS
/// hook right after it carries no parameter (not even one partly read), no
/// intermediate and no excess flag.
pub proof fn law_clear_forgets(m: ParserModel, b: u8)
    ensures
        m.perform(Action::Clear, 0).0.perform(Action::CsiDispatch, b).1 == seq![
            VTEvent::CsiDispatch {
                params: seq![],
                intermediates: seq![],
                ignored_excess_intermediates: false,
                byte: b,
            },
        ],
        m.perform(Action::Clear, 0).0.perform(Action::EscDispatch, b).1 == seq![
            VTEvent::EscDispatch {
                params: seq![],
                intermediates: seq![],
                ignored_excess_intermediates: false,
                byte: b,
            },
        ],
        m.perform(Action::Clear, 0).0.perform(Action::Hook, b).1 == seq![
            VTEvent::DcsHook {
                params: seq![],
                intermediates: seq![],
                ignored_excess_intermediates: false,
            },
        ],
{
}

/// The intermediates that are kept of `all` collected: the first two.
pub open spec fn kept_intermediates(all: Seq<u8>) -> Seq<u8> {
    if all.len() <= MAX_INTERMEDIATES {
        all
    } else {
        all.take(MAX_INTERMEDIATES as int)
    }
}

/// Whether every byte of `xs` is an intermediate (0x20 to 0x2f).
pub open spec fn all_intermediates(xs: Seq<u8>) -> bool {
    forall|i: int| 0 <= i < xs.len() ==> 0x20 <= #[trigger] xs[i] <= 0x2f
}

/// The state in which an escape or control sequence collects its intermediates.
pub open spec fn collecting_state(s: State) -> State {
    if s == State::Escape || s == State::EscapeIntermediate {
        State::EscapeIntermediate
    } else if s == State::CsiEntry || s == State::CsiParam || s == State::CsiIntermediate {
        State::CsiIntermediate
    } else {
        State::DcsIntermediate
    }
}

/// The states that take intermediates.
pub open spec fn may_collect(s: State) -> bool {
    ||| s == State::Escape
    ||| s == State::EscapeIntermediate
    ||| s == State::CsiEntry
    ||| s == State::CsiParam
    ||| s == State::CsiIntermediate
    ||| s == State::DcsEntry
    ||| s == State::DcsParam
    ||| s == State::DcsIntermediate
}

/// One intermediate byte is collected and nothing else changes that a dispatch
/// would carry.
proof fn lemma_collect_step(m: ParserModel, x: u8)
    requires
        may_collect(m.state),
        m.intermediates.len() <= MAX_INTERMEDIATES,
        0x20 <= x <= 0x2f,
    ensures
        m.step(x).0.state == collecting_state(m.state),
        m.step(x).0.intermediates == kept_intermediates(m.intermediates.push(x)),
        m.step(x).0.ignored_excess_intermediates == (m.ignored_excess_intermediates
            || m.intermediates.len() >= MAX_INTERMEDIATES),
        m.step(x).0.params == m.params,
        m.step(x).0.current_param == m.current_param,
        m.step(x).0.params_full == m.params_full,
        m.step(x).1 == Seq::<VTEvent>::empty(),
{
    reveal(ParserModel::step);
    if m.intermediates.len() == MAX_INTERMEDIATES {
        assert(m.intermediates.push(x).take(2) =~= m.intermediates);
    }
    assert(m.step(x).1 =~= Seq::<VTEvent>::empty());
}

/// Intermediates `xs` are collected after those already held (at most two, with
/// the flag clear): of all of them the first two are kept, and the flag is set
/// when there are more.
pub(crate) proof fn lemma_collect(m: ParserModel, xs: Seq<u8>)
    requires
        may_collect(m.state),
        m.intermediates.len() <= MAX_INTERMEDIATES,
        !m.ignored_excess_intermediates,
        xs.len() >= 1,
        all_intermediates(xs),
    ensures
        m.run(xs).0.state == collecting_state(m.state),
        m.run(xs).0.intermediates == kept_intermediates(m.intermediates + xs),
        m.run(xs).0.ignored_excess_intermediates == (m.intermediates.len() + xs.len()
            > MAX_INTERMEDIATES),
        m.run(xs).0.params == m.params,
        m.run(xs).0.current_param == m.current_param,
        m.run(xs).0.params_full == m.params_full,
        m.run(xs).1 == Seq::<VTEvent>::empty(),
    decreases xs.len(),
{
    let t = xs.drop_last();
    let x = xs.last();
    let a = m.intermediates;
    assert(0x20 <= xs[xs.len() - 1] <= 0x2f);
    assert(a + xs =~= (a + t).push(x));
    if xs.len() == 1 {
        assert(m.run(t) == (m, Seq::<VTEvent>::empty()));
        assert(t =~= Seq::<u8>::empty());
        assert(a + t =~= a);
        lemma_collect_step(m, x);
        if a.len() == MAX_INTERMEDIATES {
            assert(kept_intermediates(a.push(x)) =~= a);
        }
    } else {
        assert(all_intermediates(t)) by {
            assert forall|i: int| 0 <= i < t.len() implies 0x20 <= #[trigger] t[i] <= 0x2f by {
                assert(t[i] == xs[i]);
            }
        }
        lemma_collect(m, t);
        let mt = m.run(t).0;
        lemma_collect_step(mt, x);
        if (a + t).len() < MAX_INTERMEDIATES {
            assert(kept_intermediates(a + t).push(x) =~= kept_intermediates(a + xs));
        } else {
            assert(kept_intermediates(kept_intermediates(a + t).push(x)) =~= kept_intermediates(
                a + xs,
            ));
        }
    }
    assert(m.run(xs).1 =~= Seq::<VTEvent>::empty());
}

/// ESC starts a new escape sequence from every state that parsing reaches, outside
/// a UTF-8 sequence: intermediates `xs` (at least one) and a final byte dispatch
/// that byte with no parameters, the first two intermediates, and the flag set
/// exactly when there were more than two; what ESC ended before it is dispatched
/// first, and the parser is back in the ground state.
pub proof fn law_esc_intermediates(m: ParserModel, xs: Seq<u8>, f: u8)
    requires
        m.wf(),
        m.state != State::Utf8Sequence,
        xs.len() >= 1,
        all_intermediates(xs),
        0x30 <= f <= 0x7e,
    ensures
        m.run(seq![0x1bu8] + xs + seq![f]).0.state == State::Ground,
        m.run(seq![0x1bu8] + xs + seq![f]).1 == m.leaving_events().push(
            VTEvent::EscDispatch {
                params: seq![],
                intermediates: kept_intermediates(xs),
                ignored_excess_intermediates: xs.len() > MAX_INTERMEDIATES,
                byte: f,
            },
        ),
{
    reveal(ParserModel::step);
    let esc = seq![0x1bu8];
    lemma_esc_step(m);
    lemma_run_single(m, 0x1b);
    let me = m.step(0x1b).0;
    lemma_collect(me, xs);
    assert(me.intermediates + xs =~= xs);
    let mx = me.run(xs).0;
    assert(me.escape_clean());
    assert(mx.params =~= Seq::<i64>::empty());
    assert(mx.state == State::EscapeIntermediate);
    assert(mx.finish_param() == mx);
    law_parse_in_pieces(m, esc, xs);
    law_parse_in_pieces(m, esc + xs, seq![f]);
    lemma_run_single(mx, f);
    assert(mx.step(f).1 =~= seq![
        VTEvent::EscDispatch {
            params: seq![],
            intermediates: kept_intermediates(xs),
            ignored_excess_intermediates: xs.len() > MAX_INTERMEDIATES,
            byte: f,
        },
    ]);
    assert(m.run(esc + xs + seq![f]).1 =~= m.leaving_events().push(
        VTEvent::EscDispatch {
            params: seq![],
            intermediates: kept_intermediates(xs),
            ignored_excess_intermediates: xs.len() > MAX_INTERMEDIATES,
            byte: f,
        },
    ));
}

/// ESC, from every state that parsing reaches outside a UTF-8 sequence, enters
/// the escape state with nothing collected; what it ends (an OSC string, a device
/// control string) is handed on first.
pub proof fn lemma_esc_step(m: ParserModel)
    requires
        m.wf(),
        m.state != State::Utf8Sequence,
    ensures
        m.step(0x1b).0.state == State::Escape,
        m.step(0x1b).0.wf(),
        m.step(0x1b).0.intermediates.len() == 0,
        !m.step(0x1b).0.ignored_excess_intermediates,
        m.step(0x1b).0.params.len() == 0,
        m.step(0x1b).0.current_param is None,
        m.step(0x1b).1 == m.leaving_events(),
{
    reveal(ParserModel::step);
    law_step_keeps_wf(m, 0x1b);
    if m.state != State::Escape {
        assert(m.step(0x1b).1 =~= m.leaving_events());
    }
}

/// The final bytes of an escape sequence without intermediates.
pub open spec fn esc_final_byte(f: u8) -> bool {
    ||| 0x30 <= f <= 0x4f
    ||| 0x51 <= f <= 0x57
    ||| f == 0x59
    ||| f == 0x5a
    ||| f == 0x5c
    ||| 0x60 <= f <= 0x7e
}

/// The final character of an escape sequence is dispatched as it arrives: from
/// every state that parsing reaches outside a UTF-8 sequence, ESC and a final byte
/// (0x30 to 0x7e, other than the introducers `P`, `X`, `[`, `]`, `^` and `_`)
/// dispatch that byte with no parameters and no intermediates, after what ESC
/// ended, and the parser is back in the ground state.
pub proof fn law_esc_final(m: ParserModel, f: u8)
    requires
        m.wf(),
        m.state != State::Utf8Sequence,
        esc_final_byte(f),
    ensures
        m.run(seq![0x1bu8, f]).0.state == State::Ground,
        m.run(seq![0x1bu8, f]).1 == m.leaving_events().push(
            VTEvent::EscDispatch {
                params: seq![],
                intermediates: seq![],
                ignored_excess_intermediates: false,
                byte: f,
            },
        ),
{
    reveal(ParserModel::step);
    lemma_esc_step(m);
    let me = m.step(0x1b).0;
    lemma_run_single(m, 0x1b);
    lemma_run_single(me, f);
    assert(seq![0x1bu8] + seq![f] =~= seq![0x1bu8, f]);
    law_parse_in_pieces(m, seq![0x1bu8], seq![f]);
    assert(me.finish_param() == me);
    assert(me.params =~= Seq::<i64>::empty());
    assert(me.intermediates =~= Seq::<u8>::empty());
    assert(me.step(f).1 =~= seq![
        VTEvent::EscDispatch {
            params: seq![],
            intermediates: seq![],
            ignored_excess_intermediates: false,
            byte: f,
        },
    ]);
}

/// The controls that are executed from every state: CAN, SUB, and the C1 controls
/// other than those that introduce or end a string or a sequence.
pub open spec fn executed_anywhere(b: u8) -> bool {
    ||| b == 0x18
    ||| b == 0x1a
    ||| 0x80 <= b <= 0x8f
    ||| 0x91 <= b <= 0x97
    ||| b == 0x99
    ||| b == 0x9a
}

/// C1 controls are executed, and CAN and SUB abort a sequence: from every state
/// outside a UTF-8 sequence such a control is handed to `execute_c0_or_c1`, after
/// what it ends, and the parser is in the ground state; in the ground state
/// nothing else changes.
pub proof fn law_controls_executed(m: ParserModel, b: u8)
    requires
        m.state != State::Utf8Sequence,
        executed_anywhere(b),
    ensures
        m.step(b).0.state == State::Ground,
        m.step(b).1 == m.leaving_events().push(VTEvent::ExecuteC0orC1(b)),
        m.state == State::Ground ==> m.step(b).0 == m,
{
    reveal(ParserModel::step);
    if m.state != State::Ground {
        assert(m.step(b).1 =~= m.leaving_events().push(VTEvent::ExecuteC0orC1(b)));
    } else {
        assert(m.step(b).1 =~= seq![VTEvent::ExecuteC0orC1(b)]);
    }
}

} // verus!
