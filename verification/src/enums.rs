use vstd::prelude::*;

verus! {

/// The actions of the DEC ANSI parser state machine, plus `Utf8`, which hands a
/// byte to the UTF-8 decoder.
#[derive(Debug, Clone, Copy, PartialEq, Eq, Structural)]
pub enum Action {
    Nothing,
    Ignore,
    Print,
    Execute,
    Clear,
    Collect,
    Param,
    EscDispatch,
    CsiDispatch,
    Hook,
    Put,
    Unhook,
    OscStart,
    OscPut,
    OscEnd,
    Utf8,
}

/// The states of the DEC ANSI parser state machine, plus `Utf8Sequence`, in which
/// the bytes of a multi-byte UTF-8 sequence are collected.
#[derive(Debug, Clone, Copy, PartialEq, Eq, Structural)]
pub enum State {
    Ground,
    Escape,
    EscapeIntermediate,
    CsiEntry,
    CsiParam,
    CsiIntermediate,
    CsiIgnore,
    DcsEntry,
    DcsParam,
    DcsIntermediate,
    DcsPassthrough,
    DcsIgnore,
    OscString,
    SosPmApcString,
    Anywhere,
    Utf8Sequence,
}

} // verus!
