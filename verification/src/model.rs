use crate::actor::VTEvent;
use crate::enums::{Action, State};
use crate::transitions::{entry_action, exit_action, transition};
use crate::utf8::{utf8_outcome, utf8_partial, Utf8Outcome};
use vstd::prelude::*;

verus! {

/// At most this many intermediates are kept; no standard defines more.
pub const MAX_INTERMEDIATES: usize = 2;

/// At most this many OSC parameters are kept.
pub const MAX_OSC: usize = 16;

/// At most this many CSI and DCS parameters are kept.
pub const MAX_PARAMS: usize = 16;

/// The character that stands for an invalid UTF-8 sequence.
pub open spec fn replacement_character() -> char {
    '\u{FFFD}'
}

/// `x` clamped to the range of `i64`, as the saturating operations of `i64` give it.
pub open spec fn saturate(x: int) -> i64 {
    if x > i64::MAX {
        i64::MAX
    } else if x < i64::MIN {
        i64::MIN
    } else {
        x as i64
    }
}

/// The OSC string collected so far: the bytes of all parameters, the positions in
/// `buffer` at which a `;` ended a parameter, and how many parameters were started.
pub struct OscModel {
    pub buffer: Seq<u8>,
    pub indices: Seq<nat>,
    pub num_params: nat,
    pub full: bool,
}

impl OscModel {
    pub open spec fn initial() -> OscModel {
        OscModel { buffer: seq![], indices: seq![], num_params: 0, full: false }
    }

    /// One index for each `;` taken, in increasing order and within the buffer; the
    /// string is full only once all parameters were started.
    pub open spec fn wf(self) -> bool {
        &&& self.num_params <= MAX_OSC
        &&& self.full ==> self.num_params == MAX_OSC
        &&& self.indices.len() == if self.num_params == 0 {
            0
        } else {
            self.num_params - 1
        }
        &&& forall|i: int, j: int|
            0 <= i <= j < self.indices.len() ==> self.indices[i] <= self.indices[j]
        &&& forall|i: int| 0 <= i < self.indices.len() ==> self.indices[i] <= self.buffer.len()
    }

    /// Takes one character of the OSC string: a `;` ends a parameter (the empty
    /// first one when none was started yet) and starts the next, or marks the
    /// string full when the last one was started; any other character is appended
    /// in UTF-8 unless the string is full.
    pub open spec fn put(self, c: char) -> OscModel {
        if c == ';' {
            if self.num_params == MAX_OSC {
                OscModel { full: true, ..self }
            } else {
                OscModel {
                    indices: self.indices.push(self.buffer.len()),
                    num_params: if self.num_params == 0 {
                        2
                    } else {
                        self.num_params + 1
                    },
                    ..self
                }
            }
        } else if !self.full {
            OscModel {
                buffer: self.buffer + vstd::utf8::encode_scalar(c as u32),
                num_params: if self.num_params == 0 {
                    1
                } else {
                    self.num_params
                },
                ..self
            }
        } else {
            self
        }
    }

    /// The bytes of parameter `i`: from the end of the previous one to the next
    /// index, or to the end of the buffer for the last one.
    pub open spec fn piece(self, i: int) -> Seq<u8> {
        let start = if i == 0 {
            0
        } else {
            self.indices[i - 1] as int
        };
        let end = if i == self.num_params - 1 {
            self.buffer.len() as int
        } else {
            self.indices[i] as int
        };
        self.buffer.subrange(start, end)
    }

    /// The parameters handed to `osc_dispatch`.
    pub open spec fn params(self) -> Seq<Seq<u8>> {
        Seq::new(self.num_params, |i: int| self.piece(i))
    }
}

/// The state of a `VTParser` as mathematical values.
pub struct ParserModel {
    pub state: State,
    pub intermediates: Seq<u8>,
    pub ignored_excess_intermediates: bool,
    pub osc: OscModel,
    pub params: Seq<i64>,
    pub current_param: Option<i64>,
    pub params_full: bool,
    /// The bytes of the UTF-8 sequence taken so far.
    pub utf8_pending: Seq<u8>,
    /// The state to go back to when the UTF-8 sequence ends.
    pub utf8_return_state: State,
}

impl ParserModel {
    pub open spec fn initial() -> ParserModel {
        ParserModel {
            state: State::Ground,
            intermediates: seq![],
            ignored_excess_intermediates: false,
            osc: OscModel::initial(),
            params: seq![],
            current_param: None,
            params_full: false,
            utf8_pending: seq![],
            utf8_return_state: State::Ground,
        }
    }

    /// What holds of every state that parsing reaches from `initial`
    /// (`law_initial_wf`, `law_step_keeps_wf`).
    pub open spec fn wf(self) -> bool {
        &&& self.intermediates.len() <= MAX_INTERMEDIATES
        &&& self.params.len() <= MAX_PARAMS
        &&& self.osc.wf()
        &&& self.state == State::Utf8Sequence ==> (self.utf8_return_state == State::Ground
            || self.utf8_return_state == State::OscString)
        &&& self.state == State::Utf8Sequence ==> utf8_partial(self.utf8_pending)
        &&& self.state != State::Utf8Sequence ==> self.utf8_pending.len() == 0
        &&& self.params_nonneg()
        &&& self.state == State::Escape ==> self.intermediates.len() == 0
            && !self.ignored_excess_intermediates
        &&& self.state == State::Escape || self.state == State::EscapeIntermediate
            ==> self.escape_clean()
        &&& self.state == State::CsiEntry || self.state == State::DcsEntry ==> self.entry_clean()
    }

    /// What a control sequence or device control string holds before its first
    /// parameter or intermediate: nothing.
    pub open spec fn entry_clean(self) -> bool {
        &&& self.params.len() == 0
        &&& self.current_param is None
        &&& !self.params_full
        &&& self.intermediates.len() == 0
        &&& !self.ignored_excess_intermediates
    }

    /// What leaving the state of `self` for another hands on: an OSC string is
    /// dispatched, and the handler of a device control string is told it ended.
    pub open spec fn leaving_events(self) -> Seq<VTEvent> {
        match self.state {
            State::OscString => seq![VTEvent::OscDispatch(self.osc.params())],
            State::DcsPassthrough => seq![VTEvent::DcsUnhook],
            _ => seq![],
        }
    }

    /// Every parameter, the one being read included, is at least zero.
    pub open spec fn params_nonneg(self) -> bool {
        &&& forall|i: int| 0 <= i < self.params.len() ==> self.params[i] >= 0
        &&& self.current_param matches Some(v) ==> v >= 0
    }

    /// What an escape sequence has collected: no parameters, and intermediates in
    /// 0x20 to 0x2f only.
    pub open spec fn escape_clean(self) -> bool {
        &&& self.params.len() == 0
        &&& self.current_param is None
        &&& forall|i: int| 0 <= i < self.intermediates.len() ==> 0x20 <= #[trigger] self.intermediates[i] <= 0x2f
    }

    /// The bounds on the fields that every action keeps.
    pub open spec fn fields_wf(self) -> bool {
        &&& self.intermediates.len() <= MAX_INTERMEDIATES
        &&& self.params.len() <= MAX_PARAMS
        &&& self.osc.wf()
    }

    /// Ends the parameter being read, keeping it if there is room.
    pub open spec fn finish_param(self) -> ParserModel {
        match self.current_param {
            Some(v) => if self.params.len() < MAX_PARAMS {
                ParserModel { params: self.params.push(v), current_param: None, ..self }
            } else {
                ParserModel { current_param: None, ..self }
            },
            None => self,
        }
    }

    /// Takes a digit or a `;` of a CSI or DCS parameter list.  A `;` ends the
    /// current parameter (zero when it was omitted) and starts the next one at zero,
    /// so that an omitted last parameter is handed on as zero too.
    pub open spec fn param(self, byte: u8) -> ParserModel {
        let current = match self.current_param {
            Some(v) => v,
            None => 0i64,
        };
        if self.params_full {
            self
        } else if byte == 0x3b {
            if self.params.len() + 1 > MAX_OSC {
                ParserModel { params_full: true, ..self }
            } else {
                ParserModel { params: self.params.push(current), current_param: Some(0), ..self }
            }
        } else {
            ParserModel {
                current_param: Some(saturate(saturate(current * 10) + (byte - 0x30))),
                ..self
            }
        }
    }

    /// Leaves the UTF-8 sequence with the decoded character `c`.
    pub open spec fn utf8_emit(self, c: char) -> (ParserModel, Seq<VTEvent>) {
        let m = ParserModel { utf8_pending: seq![], state: self.utf8_return_state, ..self };
        match self.utf8_return_state {
            State::Ground => (m, seq![VTEvent::Print(c)]),
            State::OscString => (ParserModel { osc: m.osc.put(c), ..m }, seq![]),
            _ => (m, seq![]),
        }
    }

    /// Hands `byte` to the UTF-8 decoder.
    pub open spec fn utf8_feed(self, byte: u8) -> (ParserModel, Seq<VTEvent>) {
        let bytes = self.utf8_pending.push(byte);
        match utf8_outcome(bytes) {
            Utf8Outcome::Incomplete => (ParserModel { utf8_pending: bytes, ..self }, seq![]),
            Utf8Outcome::Codepoint(c) => self.utf8_emit(c),
            Utf8Outcome::Invalid => self.utf8_emit(replacement_character()),
        }
    }

    /// Performs `action` for `byte`: the new state and the events handed to the actor.
    /// `Utf8` starts a UTF-8 sequence with its lead byte, on which the decoder
    /// signals nothing yet.
    pub open spec fn perform(self, action: Action, byte: u8) -> (ParserModel, Seq<VTEvent>) {
        match action {
            Action::Nothing | Action::Ignore => (self, seq![]),
            Action::Print => (self, seq![VTEvent::Print(byte as char)]),
            Action::Execute => (self, seq![VTEvent::ExecuteC0orC1(byte)]),
            Action::Clear => (
                ParserModel {
                    intermediates: seq![],
                    ignored_excess_intermediates: false,
                    osc: OscModel { indices: seq![], num_params: 0, full: false, ..self.osc },
                    params: seq![],
                    params_full: false,
                    current_param: None,
                    ..self
                },
                seq![],
            ),
            Action::Collect => if self.intermediates.len() < MAX_INTERMEDIATES {
                (ParserModel { intermediates: self.intermediates.push(byte), ..self }, seq![])
            } else {
                (ParserModel { ignored_excess_intermediates: true, ..self }, seq![])
            },
            Action::Param => (self.param(byte), seq![]),
            Action::Hook => {
                let m = self.finish_param();
                (
                    m,
                    seq![
                        VTEvent::DcsHook {
                            params: m.params,
                            intermediates: m.intermediates,
                            ignored_excess_intermediates: m.ignored_excess_intermediates,
                        },
                    ],
                )
            },
            Action::Put => (self, seq![VTEvent::DcsPut(byte)]),
            Action::EscDispatch => {
                let m = self.finish_param();
                (
                    m,
                    seq![
                        VTEvent::EscDispatch {
                            params: m.params,
                            intermediates: m.intermediates,
                            ignored_excess_intermediates: m.ignored_excess_intermediates,
                            byte,
                        },
                    ],
                )
            },
            Action::CsiDispatch => {
                let m = self.finish_param();
                (
                    m,
                    seq![
                        VTEvent::CsiDispatch {
                            params: m.params,
                            intermediates: m.intermediates,
                            ignored_excess_intermediates: m.ignored_excess_intermediates,
                            byte,
                        },
                    ],
                )
            },
            Action::Unhook => (self, seq![VTEvent::DcsUnhook]),
            Action::OscStart => (ParserModel { osc: OscModel::initial(), ..self }, seq![]),
            Action::OscPut => (ParserModel { osc: self.osc.put(byte as char), ..self }, seq![]),
            Action::OscEnd => (self, seq![VTEvent::OscDispatch(self.osc.params())]),
            Action::Utf8 => (ParserModel { utf8_pending: self.utf8_pending.push(byte), ..self }, seq![]),
        }
    }

    /// Takes one byte: the new state and the events handed to the actor, in order.
    /// On a change of state the exit action of the old state (unless a UTF-8
    /// sequence starts), the transition's action and the entry action of the new
    /// state are performed in turn.
    #[verifier::opaque]
    pub open spec fn step(self, byte: u8) -> (ParserModel, Seq<VTEvent>) {
        if self.state == State::Utf8Sequence {
            self.utf8_feed(byte)
        } else {
            let (action, next) = transition(self.state, byte);
            if next != self.state {
                let (m1, e1) = if next != State::Utf8Sequence {
                    self.perform(exit_action(self.state), 0)
                } else {
                    (self, seq![])
                };
                let (m2, e2) = m1.perform(action, byte);
                let (m3, e3) = m2.perform(entry_action(next), 0);
                (ParserModel { utf8_return_state: m3.state, state: next, ..m3 }, e1 + e2 + e3)
            } else {
                self.perform(action, byte)
            }
        }
    }

    /// Takes `bytes` in order: the final state and all events, in order.
    pub open spec fn run(self, bytes: Seq<u8>) -> (ParserModel, Seq<VTEvent>)
        decreases bytes.len(),
    {
        if bytes.len() == 0 {
            (self, seq![])
        } else {
            let (m, e) = self.run(bytes.drop_last());
            let (m2, e2) = m.step(bytes.last());
            (m2, e + e2)
        }
    }
}

/// Taking the bytes of `bytes` up to `i` and then `bytes[i]` is taking them up to `i + 1`.
pub proof fn lemma_run_take_step(m: ParserModel, bytes: Seq<u8>, i: int)
    requires
        0 <= i < bytes.len(),
    ensures
        m.run(bytes.take(i + 1)) == (
            m.run(bytes.take(i)).0.step(bytes[i]).0,
            m.run(bytes.take(i)).1 + m.run(bytes.take(i)).0.step(bytes[i]).1,
        ),
{
    assert(bytes.take(i + 1).drop_last() =~= bytes.take(i));
}

/// Taking a single byte is one step.
pub proof fn lemma_run_single(m: ParserModel, b: u8)
    ensures
        m.run(seq![b]) == m.step(b),
{
    assert(seq![b].drop_last() =~= Seq::<u8>::empty());
    assert(m.run(Seq::<u8>::empty()) == (m, Seq::<VTEvent>::empty()));
    assert(m.step(b).1 =~= Seq::<VTEvent>::empty() + m.step(b).1);
}

} // verus!
