use crate::enums::{Action, State};
use vstd::prelude::*;

verus! {

/// The transitions that the DEC state machine takes from any state; `state` is the
/// target of every other byte, with no action.
pub open spec fn anywhere_or(b: u8, state: State) -> (Action, State) {
    if b == 0x18 || b == 0x1a || (0x80 <= b && b <= 0x8f) || (0x91 <= b && b <= 0x97) || b == 0x99 || b == 0x9a {
        (Action::Execute, State::Ground)
    } else if b == 0x9c {
        (Action::Nothing, State::Ground)
    } else if b == 0x1b {
        (Action::Nothing, State::Escape)
    } else if b == 0x98 || b == 0x9e || b == 0x9f {
        (Action::Nothing, State::SosPmApcString)
    } else if b == 0x90 {
        (Action::Nothing, State::DcsEntry)
    } else if b == 0x9d {
        (Action::Nothing, State::OscString)
    } else if b == 0x9b {
        (Action::Nothing, State::CsiEntry)
    } else {
        (Action::Nothing, state)
    }
}

/// Transitions out of `Ground`; besides the DEC table, a UTF-8 lead byte starts a multi-byte sequence.
pub open spec fn ground(b: u8) -> (Action, State) {
    if b <= 0x17 || b == 0x19 || (0x1c <= b && b <= 0x1f) {
        (Action::Execute, State::Ground)
    } else if 0x20 <= b && b <= 0x7f {
        (Action::Print, State::Ground)
    } else if 0xc2 <= b && b <= 0xf4 {
        (Action::Utf8, State::Utf8Sequence)
    } else {
        anywhere_or(b, State::Ground)
    }
}

/// Transitions out of `Escape`.
pub open spec fn escape(b: u8) -> (Action, State) {
    if b <= 0x17 || b == 0x19 || (0x1c <= b && b <= 0x1f) {
        (Action::Execute, State::Escape)
    } else if b == 0x7f {
        (Action::Ignore, State::Escape)
    } else if 0x20 <= b && b <= 0x2f {
        (Action::Collect, State::EscapeIntermediate)
    } else if (0x30 <= b && b <= 0x4f) || (0x51 <= b && b <= 0x57) || b == 0x59 || b == 0x5a || b == 0x5c || (0x60 <= b && b <= 0x7e) {
        (Action::EscDispatch, State::Ground)
    } else if b == 0x5b {
        (Action::Nothing, State::CsiEntry)
    } else if b == 0x5d {
        (Action::Nothing, State::OscString)
    } else if b == 0x50 {
        (Action::Nothing, State::DcsEntry)
    } else if b == 0x58 || b == 0x5e || b == 0x5f {
        (Action::Nothing, State::SosPmApcString)
    } else {
        anywhere_or(b, State::Escape)
    }
}

/// Transitions out of `EscapeIntermediate`.
pub open spec fn escape_intermediate(b: u8) -> (Action, State) {
    if b <= 0x17 || b == 0x19 || (0x1c <= b && b <= 0x1f) {
        (Action::Execute, State::EscapeIntermediate)
    } else if 0x20 <= b && b <= 0x2f {
        (Action::Collect, State::EscapeIntermediate)
    } else if b == 0x7f {
        (Action::Ignore, State::EscapeIntermediate)
    } else if 0x30 <= b && b <= 0x7e {
        (Action::EscDispatch, State::Ground)
    } else {
        anywhere_or(b, State::EscapeIntermediate)
    }
}

/// Transitions out of `CsiEntry`.
pub open spec fn csi_entry(b: u8) -> (Action, State) {
    if b <= 0x17 || b == 0x19 || (0x1c <= b && b <= 0x1f) {
        (Action::Execute, State::CsiEntry)
    } else if b == 0x7f {
        (Action::Ignore, State::CsiEntry)
    } else if 0x20 <= b && b <= 0x2f {
        (Action::Collect, State::CsiIntermediate)
    } else if b == 0x3a {
        (Action::Nothing, State::CsiIgnore)
    } else if (0x30 <= b && b <= 0x39) || b == 0x3b {
        (Action::Param, State::CsiParam)
    } else if 0x3c <= b && b <= 0x3f {
        (Action::Collect, State::CsiParam)
    } else if 0x40 <= b && b <= 0x7e {
        (Action::CsiDispatch, State::Ground)
    } else {
        anywhere_or(b, State::CsiEntry)
    }
}

/// Transitions out of `CsiParam`.
pub open spec fn csi_param(b: u8) -> (Action, State) {
    if b <= 0x17 || b == 0x19 || (0x1c <= b && b <= 0x1f) {
        (Action::Execute, State::CsiParam)
    } else if (0x30 <= b && b <= 0x39) || b == 0x3b {
        (Action::Param, State::CsiParam)
    } else if b == 0x7f {
        (Action::Ignore, State::CsiParam)
    } else if b == 0x3a || (0x3c <= b && b <= 0x3f) {
        (Action::Nothing, State::CsiIgnore)
    } else if 0x20 <= b && b <= 0x2f {
        (Action::Collect, State::CsiIntermediate)
    } else if 0x40 <= b && b <= 0x7e {
        (Action::CsiDispatch, State::Ground)
    } else {
        anywhere_or(b, State::CsiParam)
    }
}

/// Transitions out of `CsiIntermediate`.
pub open spec fn csi_intermediate(b: u8) -> (Action, State) {
    if b <= 0x17 || b == 0x19 || (0x1c <= b && b <= 0x1f) {
        (Action::Execute, State::CsiIntermediate)
    } else if 0x20 <= b && b <= 0x2f {
        (Action::Collect, State::CsiIntermediate)
    } else if b == 0x7f {
        (Action::Ignore, State::CsiIntermediate)
    } else if 0x30 <= b && b <= 0x3f {
        (Action::Nothing, State::CsiIgnore)
    } else if 0x40 <= b && b <= 0x7e {
        (Action::CsiDispatch, State::Ground)
    } else {
        anywhere_or(b, State::CsiIntermediate)
    }
}

/// Transitions out of `CsiIgnore`.
pub open spec fn csi_ignore(b: u8) -> (Action, State) {
    if b <= 0x17 || b == 0x19 || (0x1c <= b && b <= 0x1f) {
        (Action::Execute, State::CsiIgnore)
    } else if (0x20 <= b && b <= 0x3f) || b == 0x7f {
        (Action::Ignore, State::CsiIgnore)
    } else if 0x40 <= b && b <= 0x7e {
        (Action::Nothing, State::Ground)
    } else {
        anywhere_or(b, State::CsiIgnore)
    }
}

/// Transitions out of `DcsEntry`.
pub open spec fn dcs_entry(b: u8) -> (Action, State) {
    if b <= 0x17 || b == 0x19 || (0x1c <= b && b <= 0x1f) || b == 0x7f {
        (Action::Ignore, State::DcsEntry)
    } else if 0x20 <= b && b <= 0x2f {
        (Action::Collect, State::DcsIntermediate)
    } else if b == 0x3a {
        (Action::Nothing, State::DcsIgnore)
    } else if (0x30 <= b && b <= 0x39) || b == 0x3b {
        (Action::Param, State::DcsParam)
    } else if 0x3c <= b && b <= 0x3f {
        (Action::Collect, State::DcsParam)
    } else if 0x40 <= b && b <= 0x7e {
        (Action::Nothing, State::DcsPassthrough)
    } else {
        anywhere_or(b, State::DcsEntry)
    }
}

/// Transitions out of `DcsParam`.
pub open spec fn dcs_param(b: u8) -> (Action, State) {
    if b <= 0x17 || b == 0x19 || (0x1c <= b && b <= 0x1f) || b == 0x7f {
        (Action::Ignore, State::DcsParam)
    } else if (0x30 <= b && b <= 0x39) || b == 0x3b {
        (Action::Param, State::DcsParam)
    } else if b == 0x3a || (0x3c <= b && b <= 0x3f) {
        (Action::Nothing, State::DcsIgnore)
    } else if 0x20 <= b && b <= 0x2f {
        (Action::Collect, State::DcsIntermediate)
    } else if 0x40 <= b && b <= 0x7e {
        (Action::Nothing, State::DcsPassthrough)
    } else {
        anywhere_or(b, State::DcsParam)
    }
}

/// Transitions out of `DcsIntermediate`.
pub open spec fn dcs_intermediate(b: u8) -> (Action, State) {
    if b <= 0x17 || b == 0x19 || (0x1c <= b && b <= 0x1f) || b == 0x7f {
        (Action::Ignore, State::DcsIntermediate)
    } else if 0x20 <= b && b <= 0x2f {
        (Action::Collect, State::DcsIntermediate)
    } else if 0x30 <= b && b <= 0x3f {
        (Action::Nothing, State::DcsIgnore)
    } else if 0x40 <= b && b <= 0x7e {
        (Action::Nothing, State::DcsPassthrough)
    } else {
        anywhere_or(b, State::DcsIntermediate)
    }
}

/// Transitions out of `DcsPassthrough`.
pub open spec fn dcs_passthrough(b: u8) -> (Action, State) {
    if b <= 0x17 || b == 0x19 || (0x1c <= b && b <= 0x1f) || (0x20 <= b && b <= 0x7e) {
        (Action::Put, State::DcsPassthrough)
    } else if b == 0x7f {
        (Action::Ignore, State::DcsPassthrough)
    } else {
        anywhere_or(b, State::DcsPassthrough)
    }
}

/// Transitions out of `DcsIgnore`.
pub open spec fn dcs_ignore(b: u8) -> (Action, State) {
    if b <= 0x17 || b == 0x19 || (0x1c <= b && b <= 0x1f) || (0x20 <= b && b <= 0x7f) {
        (Action::Ignore, State::DcsIgnore)
    } else {
        anywhere_or(b, State::DcsIgnore)
    }
}

/// Transitions out of `OscString`; BEL ends the string as ST does, and a UTF-8 lead byte starts a multi-byte sequence.
pub open spec fn osc_string(b: u8) -> (Action, State) {
    if b <= 0x06 || (0x08 <= b && b <= 0x17) || b == 0x19 || (0x1c <= b && b <= 0x1f) {
        (Action::Ignore, State::OscString)
    } else if b == 0x07 {
        (Action::Ignore, State::Ground)
    } else if 0x20 <= b && b <= 0x7f {
        (Action::OscPut, State::OscString)
    } else if 0xc2 <= b && b <= 0xf4 {
        (Action::Utf8, State::Utf8Sequence)
    } else {
        anywhere_or(b, State::OscString)
    }
}

/// Transitions out of `SosPmApcString`.
pub open spec fn sos_pm_apc_string(b: u8) -> (Action, State) {
    if b <= 0x17 || b == 0x19 || (0x1c <= b && b <= 0x1f) || (0x20 <= b && b <= 0x7f) {
        (Action::Ignore, State::SosPmApcString)
    } else {
        anywhere_or(b, State::SosPmApcString)
    }
}

/// The action and the next state for byte `b` in `state`.
pub open spec fn transition(state: State, b: u8) -> (Action, State) {
    match state {
        State::Ground => ground(b),
        State::Escape => escape(b),
        State::EscapeIntermediate => escape_intermediate(b),
        State::CsiEntry => csi_entry(b),
        State::CsiParam => csi_param(b),
        State::CsiIntermediate => csi_intermediate(b),
        State::CsiIgnore => csi_ignore(b),
        State::DcsEntry => dcs_entry(b),
        State::DcsParam => dcs_param(b),
        State::DcsIntermediate => dcs_intermediate(b),
        State::DcsPassthrough => dcs_passthrough(b),
        State::DcsIgnore => dcs_ignore(b),
        State::OscString => osc_string(b),
        State::SosPmApcString => sos_pm_apc_string(b),
        State::Anywhere => anywhere_or(b, State::Anywhere),
        State::Utf8Sequence => anywhere_or(b, State::Utf8Sequence),
    }
}

/// What the transition table gives: a UTF-8 sequence starts only from `Ground` or
/// `OscString`, on a lead byte; parameters are digits or `;`; intermediates are
/// 0x20 to 0x2f, or a private marker; and the escape states only execute, ignore,
/// collect an intermediate or dispatch, and are entered only from each other.
pub proof fn lemma_transition_facts(state: State, b: u8)
    ensures
        transition(state, b).0 == Action::Utf8 <==> (transition(state, b).1 == State::Utf8Sequence
            && state != State::Utf8Sequence),
        transition(state, b).0 == Action::Utf8 ==> (state == State::Ground || state
            == State::OscString) && 0xc2 <= b <= 0xf4,
        transition(state, b).0 == Action::Param ==> (0x30 <= b <= 0x39 || b == 0x3b),
        transition(state, b).0 == Action::Collect ==> (0x20 <= b <= 0x2f || 0x3c <= b <= 0x3f),
        transition(state, b).0 == Action::EscDispatch ==> (state == State::Escape || state
            == State::EscapeIntermediate) && 0x30 <= b <= 0x7e,
        transition(state, b).1 == State::EscapeIntermediate ==> (state == State::Escape || state
            == State::EscapeIntermediate),
        state == State::Escape || state == State::EscapeIntermediate ==> {
            let a = transition(state, b).0;
            &&& a == Action::Execute || a == Action::Ignore || a == Action::Nothing || a
                == Action::EscDispatch || (a == Action::Collect && 0x20 <= b <= 0x2f)
            &&& transition(state, b).1 == State::EscapeIntermediate ==> a == Action::Collect || state
                == State::EscapeIntermediate
            &&& transition(state, b).1 == state ==> a != Action::Collect || state
                == State::EscapeIntermediate
        },
        (state == State::CsiEntry || state == State::DcsEntry) && transition(state, b).1 == state
            ==> {
            let a = transition(state, b).0;
            a == Action::Execute || a == Action::Ignore || a == Action::Nothing
        },
{
}

/// The action taken on entering `state`.
pub open spec fn entry_action(state: State) -> Action {
    match state {
        State::Escape | State::CsiEntry | State::DcsEntry => Action::Clear,
        State::DcsPassthrough => Action::Hook,
        State::OscString => Action::OscStart,
        _ => Action::Nothing,
    }
}

/// The action taken on leaving `state`.
pub open spec fn exit_action(state: State) -> Action {
    match state {
        State::DcsPassthrough => Action::Unhook,
        State::OscString => Action::OscEnd,
        _ => Action::Nothing,
    }
}

fn exec_anywhere_or(b: u8, state: State) -> (r: (Action, State))
    ensures
        r == anywhere_or(b, state),
{
    if b == 0x18 || b == 0x1a || (0x80 <= b && b <= 0x8f) || (0x91 <= b && b <= 0x97) || b == 0x99 || b == 0x9a {
        (Action::Execute, State::Ground)
    } else if b == 0x9c {
        (Action::Nothing, State::Ground)
    } else if b == 0x1b {
        (Action::Nothing, State::Escape)
    } else if b == 0x98 || b == 0x9e || b == 0x9f {
        (Action::Nothing, State::SosPmApcString)
    } else if b == 0x90 {
        (Action::Nothing, State::DcsEntry)
    } else if b == 0x9d {
        (Action::Nothing, State::OscString)
    } else if b == 0x9b {
        (Action::Nothing, State::CsiEntry)
    } else {
        (Action::Nothing, state)
    }
}

fn exec_ground(b: u8) -> (r: (Action, State))
    ensures
        r == ground(b),
{
    if b <= 0x17 || b == 0x19 || (0x1c <= b && b <= 0x1f) {
        (Action::Execute, State::Ground)
    } else if 0x20 <= b && b <= 0x7f {
        (Action::Print, State::Ground)
    } else if 0xc2 <= b && b <= 0xf4 {
        (Action::Utf8, State::Utf8Sequence)
    } else {
        exec_anywhere_or(b, State::Ground)
    }
}

fn exec_escape(b: u8) -> (r: (Action, State))
    ensures
        r == escape(b),
{
    if b <= 0x17 || b == 0x19 || (0x1c <= b && b <= 0x1f) {
        (Action::Execute, State::Escape)
    } else if b == 0x7f {
        (Action::Ignore, State::Escape)
    } else if 0x20 <= b && b <= 0x2f {
        (Action::Collect, State::EscapeIntermediate)
    } else if (0x30 <= b && b <= 0x4f) || (0x51 <= b && b <= 0x57) || b == 0x59 || b == 0x5a || b == 0x5c || (0x60 <= b && b <= 0x7e) {
        (Action::EscDispatch, State::Ground)
    } else if b == 0x5b {
        (Action::Nothing, State::CsiEntry)
    } else if b == 0x5d {
        (Action::Nothing, State::OscString)
    } else if b == 0x50 {
        (Action::Nothing, State::DcsEntry)
    } else if b == 0x58 || b == 0x5e || b == 0x5f {
        (Action::Nothing, State::SosPmApcString)
    } else {
        exec_anywhere_or(b, State::Escape)
    }
}

fn exec_escape_intermediate(b: u8) -> (r: (Action, State))
    ensures
        r == escape_intermediate(b),
{
    if b <= 0x17 || b == 0x19 || (0x1c <= b && b <= 0x1f) {
        (Action::Execute, State::EscapeIntermediate)
    } else if 0x20 <= b && b <= 0x2f {
        (Action::Collect, State::EscapeIntermediate)
    } else if b == 0x7f {
        (Action::Ignore, State::EscapeIntermediate)
    } else if 0x30 <= b && b <= 0x7e {
        (Action::EscDispatch, State::Ground)
    } else {
        exec_anywhere_or(b, State::EscapeIntermediate)
    }
}

fn exec_csi_entry(b: u8) -> (r: (Action, State))
    ensures
        r == csi_entry(b),
{
    if b <= 0x17 || b == 0x19 || (0x1c <= b && b <= 0x1f) {
        (Action::Execute, State::CsiEntry)
    } else if b == 0x7f {
        (Action::Ignore, State::CsiEntry)
    } else if 0x20 <= b && b <= 0x2f {
        (Action::Collect, State::CsiIntermediate)
    } else if b == 0x3a {
        (Action::Nothing, State::CsiIgnore)
    } else if (0x30 <= b && b <= 0x39) || b == 0x3b {
        (Action::Param, State::CsiParam)
    } else if 0x3c <= b && b <= 0x3f {
        (Action::Collect, State::CsiParam)
    } else if 0x40 <= b && b <= 0x7e {
        (Action::CsiDispatch, State::Ground)
    } else {
        exec_anywhere_or(b, State::CsiEntry)
    }
}

fn exec_csi_param(b: u8) -> (r: (Action, State))
    ensures
        r == csi_param(b),
{
    if b <= 0x17 || b == 0x19 || (0x1c <= b && b <= 0x1f) {
        (Action::Execute, State::CsiParam)
    } else if (0x30 <= b && b <= 0x39) || b == 0x3b {
        (Action::Param, State::CsiParam)
    } else if b == 0x7f {
        (Action::Ignore, State::CsiParam)
    } else if b == 0x3a || (0x3c <= b && b <= 0x3f) {
        (Action::Nothing, State::CsiIgnore)
    } else if 0x20 <= b && b <= 0x2f {
        (Action::Collect, State::CsiIntermediate)
    } else if 0x40 <= b && b <= 0x7e {
        (Action::CsiDispatch, State::Ground)
    } else {
        exec_anywhere_or(b, State::CsiParam)
    }
}

fn exec_csi_intermediate(b: u8) -> (r: (Action, State))
    ensures
        r == csi_intermediate(b),
{
    if b <= 0x17 || b == 0x19 || (0x1c <= b && b <= 0x1f) {
        (Action::Execute, State::CsiIntermediate)
    } else if 0x20 <= b && b <= 0x2f {
        (Action::Collect, State::CsiIntermediate)
    } else if b == 0x7f {
        (Action::Ignore, State::CsiIntermediate)
    } else if 0x30 <= b && b <= 0x3f {
        (Action::Nothing, State::CsiIgnore)
    } else if 0x40 <= b && b <= 0x7e {
        (Action::CsiDispatch, State::Ground)
    } else {
        exec_anywhere_or(b, State::CsiIntermediate)
    }
}

fn exec_csi_ignore(b: u8) -> (r: (Action, State))
    ensures
        r == csi_ignore(b),
{
    if b <= 0x17 || b == 0x19 || (0x1c <= b && b <= 0x1f) {
        (Action::Execute, State::CsiIgnore)
    } else if (0x20 <= b && b <= 0x3f) || b == 0x7f {
        (Action::Ignore, State::CsiIgnore)
    } else if 0x40 <= b && b <= 0x7e {
        (Action::Nothing, State::Ground)
    } else {
        exec_anywhere_or(b, State::CsiIgnore)
    }
}

fn exec_dcs_entry(b: u8) -> (r: (Action, State))
    ensures
        r == dcs_entry(b),
{
    if b <= 0x17 || b == 0x19 || (0x1c <= b && b <= 0x1f) || b == 0x7f {
        (Action::Ignore, State::DcsEntry)
    } else if 0x20 <= b && b <= 0x2f {
        (Action::Collect, State::DcsIntermediate)
    } else if b == 0x3a {
        (Action::Nothing, State::DcsIgnore)
    } else if (0x30 <= b && b <= 0x39) || b == 0x3b {
        (Action::Param, State::DcsParam)
    } else if 0x3c <= b && b <= 0x3f {
        (Action::Collect, State::DcsParam)
    } else if 0x40 <= b && b <= 0x7e {
        (Action::Nothing, State::DcsPassthrough)
    } else {
        exec_anywhere_or(b, State::DcsEntry)
    }
}

fn exec_dcs_param(b: u8) -> (r: (Action, State))
    ensures
        r == dcs_param(b),
{
    if b <= 0x17 || b == 0x19 || (0x1c <= b && b <= 0x1f) || b == 0x7f {
        (Action::Ignore, State::DcsParam)
    } else if (0x30 <= b && b <= 0x39) || b == 0x3b {
        (Action::Param, State::DcsParam)
    } else if b == 0x3a || (0x3c <= b && b <= 0x3f) {
        (Action::Nothing, State::DcsIgnore)
    } else if 0x20 <= b && b <= 0x2f {
        (Action::Collect, State::DcsIntermediate)
    } else if 0x40 <= b && b <= 0x7e {
        (Action::Nothing, State::DcsPassthrough)
    } else {
        exec_anywhere_or(b, State::DcsParam)
    }
}

fn exec_dcs_intermediate(b: u8) -> (r: (Action, State))
    ensures
        r == dcs_intermediate(b),
{
    if b <= 0x17 || b == 0x19 || (0x1c <= b && b <= 0x1f) || b == 0x7f {
        (Action::Ignore, State::DcsIntermediate)
    } else if 0x20 <= b && b <= 0x2f {
        (Action::Collect, State::DcsIntermediate)
    } else if 0x30 <= b && b <= 0x3f {
        (Action::Nothing, State::DcsIgnore)
    } else if 0x40 <= b && b <= 0x7e {
        (Action::Nothing, State::DcsPassthrough)
    } else {
        exec_anywhere_or(b, State::DcsIntermediate)
    }
}

fn exec_dcs_passthrough(b: u8) -> (r: (Action, State))
    ensures
        r == dcs_passthrough(b),
{
    if b <= 0x17 || b == 0x19 || (0x1c <= b && b <= 0x1f) || (0x20 <= b && b <= 0x7e) {
        (Action::Put, State::DcsPassthrough)
    } else if b == 0x7f {
        (Action::Ignore, State::DcsPassthrough)
    } else {
        exec_anywhere_or(b, State::DcsPassthrough)
    }
}

fn exec_dcs_ignore(b: u8) -> (r: (Action, State))
    ensures
        r == dcs_ignore(b),
{
    if b <= 0x17 || b == 0x19 || (0x1c <= b && b <= 0x1f) || (0x20 <= b && b <= 0x7f) {
        (Action::Ignore, State::DcsIgnore)
    } else {
        exec_anywhere_or(b, State::DcsIgnore)
    }
}

fn exec_osc_string(b: u8) -> (r: (Action, State))
    ensures
        r == osc_string(b),
{
    if b <= 0x06 || (0x08 <= b && b <= 0x17) || b == 0x19 || (0x1c <= b && b <= 0x1f) {
        (Action::Ignore, State::OscString)
    } else if b == 0x07 {
        (Action::Ignore, State::Ground)
    } else if 0x20 <= b && b <= 0x7f {
        (Action::OscPut, State::OscString)
    } else if 0xc2 <= b && b <= 0xf4 {
        (Action::Utf8, State::Utf8Sequence)
    } else {
        exec_anywhere_or(b, State::OscString)
    }
}

fn exec_sos_pm_apc_string(b: u8) -> (r: (Action, State))
    ensures
        r == sos_pm_apc_string(b),
{
    if b <= 0x17 || b == 0x19 || (0x1c <= b && b <= 0x1f) || (0x20 <= b && b <= 0x7f) {
        (Action::Ignore, State::SosPmApcString)
    } else {
        exec_anywhere_or(b, State::SosPmApcString)
    }
}

/// Looks up the action and the next state for byte `b` in `state`.
pub fn lookup(state: State, b: u8) -> (r: (Action, State))
    ensures
        r == transition(state, b),
{
    match state {
        State::Ground => exec_ground(b),
        State::Escape => exec_escape(b),
        State::EscapeIntermediate => exec_escape_intermediate(b),
        State::CsiEntry => exec_csi_entry(b),
        State::CsiParam => exec_csi_param(b),
        State::CsiIntermediate => exec_csi_intermediate(b),
        State::CsiIgnore => exec_csi_ignore(b),
        State::DcsEntry => exec_dcs_entry(b),
        State::DcsParam => exec_dcs_param(b),
        State::DcsIntermediate => exec_dcs_intermediate(b),
        State::DcsPassthrough => exec_dcs_passthrough(b),
        State::DcsIgnore => exec_dcs_ignore(b),
        State::OscString => exec_osc_string(b),
        State::SosPmApcString => exec_sos_pm_apc_string(b),
        State::Anywhere => exec_anywhere_or(b, State::Anywhere),
        State::Utf8Sequence => exec_anywhere_or(b, State::Utf8Sequence),
    }
}

/// Looks up the action taken on entering `state`.
pub fn lookup_entry(state: State) -> (r: Action)
    ensures
        r == entry_action(state),
{
    match state {
        State::Escape | State::CsiEntry | State::DcsEntry => Action::Clear,
        State::DcsPassthrough => Action::Hook,
        State::OscString => Action::OscStart,
        _ => Action::Nothing,
    }
}

/// Looks up the action taken on leaving `state`.
pub fn lookup_exit(state: State) -> (r: Action)
    ensures
        r == exit_action(state),
{
    match state {
        State::DcsPassthrough => Action::Unhook,
        State::OscString => Action::OscEnd,
        _ => Action::Nothing,
    }
}

} // verus!
