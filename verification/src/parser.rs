use crate::actor::{VTActor, VTEvent};
use crate::enums::{Action, State};
use crate::invariant_laws::law_step_keeps_wf;
use crate::model::{
    lemma_run_take_step, saturate, OscModel, ParserModel, MAX_INTERMEDIATES, MAX_OSC, MAX_PARAMS,
};
use crate::transitions::{
    entry_action, exit_action, lemma_transition_facts, lookup, lookup_entry, lookup_exit,
    transition,
};
use crate::utf8::{
    lemma_outcome_of_lead_byte, push_utf8, utf8_decode, utf8_outcome, utf8_partial, Utf8Outcome,
};
use vstd::prelude::*;

verus! {

/// `x * y`, clamped to the range of `i64` (as `i64::saturating_mul`).
fn saturating_mul(x: i64, y: i64) -> (r: i64)
    ensures
        r == saturate(x * y),
{
    match x.checked_mul(y) {
        Some(v) => v,
        None => {
            if (x < 0) == (y < 0) {
                assert(x * y >= 0) by (nonlinear_arith)
                    requires
                        (x < 0) == (y < 0),
                ;
                i64::MAX
            } else {
                assert(x * y <= 0) by (nonlinear_arith)
                    requires
                        (x < 0) != (y < 0),
                ;
                i64::MIN
            }
        },
    }
}

/// `x + y`, clamped to the range of `i64` (as `i64::saturating_add`).
fn saturating_add(x: i64, y: i64) -> (r: i64)
    ensures
        r == saturate(x + y),
{
    match x.checked_add(y) {
        Some(v) => v,
        None => if y < 0 {
            i64::MIN
        } else {
            i64::MAX
        },
    }
}

/// The collector of an OSC string.
pub struct OscState {
    buffer: Vec<u8>,
    param_indices: Vec<usize>,
    num_params: usize,
    full: bool,
}

impl View for OscState {
    type V = OscModel;

    closed spec fn view(&self) -> OscModel {
        OscModel {
            buffer: self.buffer@,
            indices: self.param_indices@.map_values(|i: usize| i as nat),
            num_params: self.num_params as nat,
            full: self.full,
        }
    }
}

impl OscState {
    /// Every collector is well formed.
    #[verifier::type_invariant]
    spec fn well_formed(self) -> bool {
        self@.wf()
    }

    /// A collector that has taken nothing.
    pub fn new() -> (r: OscState)
        ensures
            r@ == OscModel::initial(),
    {
        let r = OscState {
            buffer: Vec::new(),
            param_indices: Vec::new(),
            num_params: 0,
            full: false,
        };
        assert(r@.indices =~= Seq::<nat>::empty());
        r
    }

    /// Takes one character of the OSC string: a `;` ends the current parameter (an
    /// empty one when it comes first), any other character is appended in UTF-8;
    /// after the sixteenth parameter the string is full and the rest is dropped.
    pub fn put(&mut self, param: char)
        ensures
            final(self)@ == old(self)@.put(param),
            final(self)@.wf(),
    {
        proof {
            use_type_invariant(&*self);
        }
        let ghost o = self@;
        let mut taken = OscState::new();
        std::mem::swap(&mut taken, self);
        let OscState { mut buffer, mut param_indices, mut num_params, mut full } = taken;
        if param == ';' {
            if num_params == MAX_OSC {
                full = true;
            } else {
                if num_params == 0 {
                    num_params = 1;
                }
                param_indices.push(buffer.len());
                num_params += 1;
            }
        } else if !full {
            if num_params == 0 {
                num_params = 1;
            }
            push_utf8(&mut buffer, param);
        }
        proof {
            let n = o.put(param);
            assert(param_indices@.map_values(|i: usize| i as nat) =~= n.indices);
            assert(n.wf()) by {
                if param == ';' && o.num_params != MAX_OSC {
                    assert forall|i: int, j: int| 0 <= i <= j < n.indices.len() implies n.indices[i]
                        <= n.indices[j] by {
                        if j == n.indices.len() - 1 && i < j {
                            assert(n.indices[i] == o.indices[i]);
                        }
                    }
                }
            }
        }
        *self = OscState { buffer, param_indices, num_params, full };
    }

    /// Forgets the parameters collected so far; the bytes stay.
    fn clear_params(&mut self)
        ensures
            final(self)@ == (OscModel { indices: seq![], num_params: 0, full: false, ..old(self)@ }),
    {
        let mut taken = OscState::new();
        std::mem::swap(&mut taken, self);
        let OscState { buffer, .. } = taken;
        let r = OscState { buffer, param_indices: Vec::new(), num_params: 0, full: false };
        assert(r@.indices =~= Seq::<nat>::empty());
        *self = r;
    }

    /// The parameters taken so far, each a slice of the buffer.
    fn split_params(&self) -> (v: Vec<&[u8]>)
        ensures
            v@.map_values(|p: &[u8]| p@) == self@.params(),
    {
        proof {
            use_type_invariant(self);
        }
        let mut params: Vec<&[u8]> = Vec::new();
        if self.num_params == 0 {
            assert(params@.map_values(|p: &[u8]| p@) =~= self@.params());
            return params;
        }
        let limit = if self.num_params < MAX_OSC {
            self.num_params
        } else {
            MAX_OSC
        };
        let mut offset: usize = 0;
        let mut slice = self.buffer.as_slice();
        let mut i: usize = 0;
        while i < limit - 1
            invariant
                self@.wf(),
                limit == self.num_params,
                limit >= 1,
                i <= limit - 1,
                offset == if i == 0 {
                    0
                } else {
                    self@.indices[i - 1] as int
                },
                offset <= self.buffer@.len(),
                slice@ == self.buffer@.subrange(offset as int, self.buffer@.len() as int),
                params@.len() == i,
                forall|k: int| 0 <= k < i ==> #[trigger] params@[k]@ == self@.piece(k),
            decreases limit - 1 - i,
        {
            let end = self.param_indices[i];
            assert(offset <= end) by {
                if i > 0 {
                    assert(self@.indices[i - 1] <= self@.indices[i as int]);
                }
            }
            let (a, b) = slice.split_at(end - offset);
            assert(a@ =~= self@.piece(i as int));
            params.push(a);
            slice = b;
            offset = end;
            i += 1;
        }
        assert(slice@ =~= self@.piece(i as int));
        params.push(slice);
        assert(params@.map_values(|p: &[u8]| p@) =~= self@.params());
        params
    }
}

/// The state of the parser and the steps that change it; `VTParser` holds one and
/// keeps it well formed.
struct ParserCore {
    state: State,
    intermediates: Vec<u8>,
    ignored_excess_intermediates: bool,
    osc: OscState,
    params: Vec<i64>,
    current_param: Option<i64>,
    params_full: bool,
    utf8_pending: Vec<u8>,
    utf8_return_state: State,
}

impl View for ParserCore {
    type V = ParserModel;

    closed spec fn view(&self) -> ParserModel {
        ParserModel {
            state: self.state,
            intermediates: self.intermediates@,
            ignored_excess_intermediates: self.ignored_excess_intermediates,
            osc: self.osc@,
            params: self.params@,
            current_param: self.current_param,
            params_full: self.params_full,
            utf8_pending: self.utf8_pending@,
            utf8_return_state: self.utf8_return_state,
        }
    }
}

/// The actor keeps its record of calls, and appends `events` to it.
pub open spec fn actor_appended<A: VTActor + ?Sized>(before: &A, after: &A, events: Seq<VTEvent>) -> bool {
    &&& after.records_calls() == before.records_calls()
    &&& before.records_calls() ==> after.recorded() == before.recorded() + events
}

impl ParserCore {
    /// A parser in the ground state that has taken nothing.
    fn new() -> (p: Self)
        ensures
            p@ == ParserModel::initial(),
            p@.wf(),
    {
        let p = ParserCore {
            state: State::Ground,
            utf8_return_state: State::Ground,
            intermediates: Vec::new(),
            ignored_excess_intermediates: false,
            osc: OscState::new(),
            params: Vec::new(),
            params_full: false,
            current_param: None,
            utf8_pending: Vec::new(),
        };
        assert(p@.osc =~= OscModel::initial());
        p
    }

    fn finish_param(&mut self)
        ensures
            final(self)@ == old(self)@.finish_param(),
    {
        if let Some(val) = self.current_param.take() {
            if self.params.len() < MAX_PARAMS {
                self.params.push(val);
            }
        }
    }

    fn action<A: VTActor + ?Sized>(&mut self, action: Action, param: u8, actor: &mut A)
        requires
            old(self)@.fields_wf(),
            action == Action::Param ==> (0x30 <= param <= 0x39 || param == 0x3b),
            action == Action::Utf8 ==> old(self)@.utf8_pending.len() == 0 && 0xc2 <= param <= 0xf4,
        ensures
            final(self)@ == old(self)@.perform(action, param).0,
            final(self)@.fields_wf(),
            actor_appended(old(actor), final(actor), old(self)@.perform(action, param).1),
    {
        match action {
            Action::Nothing | Action::Ignore => {},
            Action::Print => actor.print(param as char),
            Action::Execute => actor.execute_c0_or_c1(param),
            Action::Clear => {
                self.intermediates.clear();
                self.ignored_excess_intermediates = false;
                self.osc.clear_params();
                self.params.clear();
                self.params_full = false;
                self.current_param.take();
            },
            Action::Collect => {
                if self.intermediates.len() < MAX_INTERMEDIATES {
                    self.intermediates.push(param);
                } else {
                    self.ignored_excess_intermediates = true;
                }
            },
            Action::Param => {
                if self.params_full {
                    return ;
                }
                if param == 0x3b {
                    if self.params.len() + 1 > MAX_OSC {
                        self.params_full = true;
                    } else {
                        let v = self.current_param.take().unwrap_or(0);
                        self.params.push(v);
                        self.current_param = Some(0);
                    }
                } else {
                    let current = self.current_param.take().unwrap_or(0);
                    self.current_param = Some(
                        saturating_add(saturating_mul(current, 10), (param - 0x30) as i64),
                    );
                }
            },
            Action::Hook => {
                self.finish_param();
                actor.dcs_hook(
                    self.params.as_slice(),
                    self.intermediates.as_slice(),
                    self.ignored_excess_intermediates,
                );
            },
            Action::Put => actor.dcs_put(param),
            Action::EscDispatch => {
                self.finish_param();
                actor.esc_dispatch(
                    self.params.as_slice(),
                    self.intermediates.as_slice(),
                    self.ignored_excess_intermediates,
                    param,
                );
            },
            Action::CsiDispatch => {
                self.finish_param();
                actor.csi_dispatch(
                    self.params.as_slice(),
                    self.intermediates.as_slice(),
                    self.ignored_excess_intermediates,
                    param,
                );
            },
            Action::Unhook => actor.dcs_unhook(),
            Action::OscStart => {
                self.osc = OscState::new();
            },
            Action::OscPut => self.osc.put(param as char),
            Action::OscEnd => {
                let params = self.osc.split_params();
                actor.osc_dispatch(params.as_slice());
            },
            Action::Utf8 => self.next_utf8(actor, param),
        }
        assert(self@.osc =~= old(self)@.perform(action, param).0.osc);
        assert(self@ =~= old(self)@.perform(action, param).0);
        proof {
            if old(actor).records_calls() {
                assert(actor.recorded() =~= old(actor).recorded() + old(self)@.perform(
                    action,
                    param,
                ).1);
            }
        }
    }

    /// Leaves the UTF-8 sequence with the decoded character `c`: it is printed, or
    /// added to the OSC string, and the parser goes back to the state that it was
    /// in before the sequence.
    fn utf8_emit<A: VTActor + ?Sized>(&mut self, c: char, actor: &mut A)
        requires
            old(self)@.fields_wf(),
            old(self)@.utf8_return_state == State::Ground || old(self)@.utf8_return_state
                == State::OscString,
        ensures
            final(self)@ == old(self)@.utf8_emit(c).0,
            final(self)@.fields_wf(),
            actor_appended(old(actor), final(actor), old(self)@.utf8_emit(c).1),
    {
        let return_state = self.utf8_return_state;
        self.utf8_pending.clear();
        match return_state {
            State::Ground => actor.print(c),
            State::OscString => self.osc.put(c),
            _ => {},
        }
        self.state = return_state;
        assert(self@ =~= old(self)@.utf8_emit(c).0);
        proof {
            if old(actor).records_calls() {
                assert(actor.recorded() =~= old(actor).recorded() + old(self)@.utf8_emit(c).1);
            }
        }
    }

    // Process a utf-8 multi-byte sequence.
    // The state tables emit Action::Utf8 to initiate a multi-byte
    // sequence, and once we're in the utf-8 state we'll defer to
    // this method for each byte until the decoder signals
    // that we're done.
    // We use the REPLACEMENT_CHARACTER for invalid sequences.
    // We return to the state that preceded the sequence after each
    // codepoint, successful or otherwise.
    fn next_utf8<A: VTActor + ?Sized>(&mut self, actor: &mut A, byte: u8)
        requires
            old(self)@.fields_wf(),
            old(self)@.utf8_pending.len() == 0 || utf8_partial(old(self)@.utf8_pending),
            (old(self)@.utf8_pending.len() == 0 && 0xc2 <= byte <= 0xf4)
                || old(self)@.utf8_return_state == State::Ground || old(self)@.utf8_return_state
                == State::OscString,
        ensures
            final(self)@ == old(self)@.utf8_feed(byte).0,
            old(self)@.utf8_pending.len() == 0 && 0xc2 <= byte <= 0xf4 ==> utf8_outcome(
                old(self)@.utf8_pending.push(byte),
            ) == Utf8Outcome::Incomplete,
            final(self)@.fields_wf(),
            actor_appended(old(actor), final(actor), old(self)@.utf8_feed(byte).1),
    {
        self.utf8_pending.push(byte);
        assert(self.utf8_pending@ == old(self)@.utf8_pending.push(byte));
        assert(self.utf8_pending@.drop_last() =~= old(self)@.utf8_pending);
        let outcome = utf8_decode(self.utf8_pending.as_slice());
        proof {
            if old(self)@.utf8_pending.len() == 0 && 0xc2 <= byte <= 0xf4 {
                lemma_outcome_of_lead_byte(byte);
                assert(self.utf8_pending@ =~= seq![byte]);
            }
        }
        match outcome {
            Utf8Outcome::Incomplete => {},
            Utf8Outcome::Codepoint(c) => self.utf8_emit(c, actor),
            Utf8Outcome::Invalid => self.utf8_emit('\u{FFFD}', actor),
        }
    }

    /// Takes `byte` when it moves the parser from its state to `state`: the exit
    /// action of the old state (unless a UTF-8 sequence starts), the transition's
    /// `action` and the entry action of `state`, in turn.
    fn change_state<A: VTActor + ?Sized>(
        &mut self,
        action: Action,
        state: State,
        byte: u8,
        actor: &mut A,
    )
        requires
            old(self)@.wf(),
            old(self)@.state != State::Utf8Sequence,
            transition(old(self)@.state, byte) == (action, state),
            state != old(self)@.state,
        ensures
            final(self)@ == old(self)@.step(byte).0,
            actor_appended(old(actor), final(actor), old(self)@.step(byte).1),
    {
        let ghost m0 = self@;
        let ghost r0 = actor.recorded();
        proof {
            lemma_transition_facts(m0.state, byte);
            reveal(ParserModel::step);
        }
        if state != State::Utf8Sequence {
            self.action(lookup_exit(self.state), 0, actor);
        }
        let ghost m1 = self@;
        assert(m1 == (if state != State::Utf8Sequence {
            m0.perform(exit_action(m0.state), 0).0
        } else {
            m0
        }));
        self.action(action, byte, actor);
        let ghost m2 = self@;
        self.action(lookup_entry(state), 0, actor);
        let ghost m3 = self@;
        self.utf8_return_state = self.state;
        self.state = state;
        proof {
            let e1 = if state != State::Utf8Sequence {
                m0.perform(exit_action(m0.state), 0).1
            } else {
                seq![]
            };
            let e2 = m1.perform(action, byte).1;
            let e3 = m2.perform(entry_action(state), 0).1;
            assert(m0.step(byte) == (ParserModel { utf8_return_state: m3.state, state, ..m3 }, e1
                + e2 + e3));
            assert(self@ =~= m0.step(byte).0);
            if old(actor).records_calls() {
                assert(actor.recorded() =~= r0 + m0.step(byte).1);
            }
        }
    }

    /// Takes one byte: the step of the model.
    fn parse_byte<A: VTActor + ?Sized>(&mut self, byte: u8, actor: &mut A)
        requires
            old(self)@.wf(),
        ensures
            final(self)@ == old(self)@.step(byte).0,
            final(self)@.wf(),
            actor_appended(old(actor), final(actor), old(self)@.step(byte).1),
    {
        // While in utf-8 parsing mode, co-opt the vt state
        // table and instead use the utf-8 decoder.  It will drop us
        // back into the preceding state after each recognized (or
        // invalid) codepoint.
        let ghost m0 = self@;
        proof {
            reveal(ParserModel::step);
        }
        if self.state == State::Utf8Sequence {
            self.next_utf8(actor, byte);
            proof {
                law_step_keeps_wf(m0, byte);
            }
            return ;
        }
        let (action, state) = lookup(self.state, byte);
        proof {
            lemma_transition_facts(self.state, byte);
        }
        if state != self.state {
            self.change_state(action, state, byte, actor);
        } else {
            self.action(action, byte, actor);
        }
        proof {
            law_step_keeps_wf(m0, byte);
        }
    }

    /// Takes `bytes` in order: the run of the model.
    fn parse<A: VTActor + ?Sized>(&mut self, bytes: &[u8], actor: &mut A)
        requires
            old(self)@.wf(),
        ensures
            final(self)@ == old(self)@.run(bytes@).0,
            final(self)@.wf(),
            actor_appended(old(actor), final(actor), old(self)@.run(bytes@).1),
    {
        let ghost m0 = self@;
        let ghost r0 = actor.recorded();
        let mut i: usize = 0;
        assert(bytes@.take(0) =~= Seq::<u8>::empty());
        while i < bytes.len()
            invariant
                i <= bytes@.len(),
                self@ == m0.run(bytes@.take(i as int)).0,
                self@.wf(),
                actor.records_calls() == old(actor).records_calls(),
                old(actor).records_calls() ==> actor.recorded() == r0 + m0.run(
                    bytes@.take(i as int),
                ).1,
            decreases bytes@.len() - i,
        {
            proof {
                lemma_run_take_step(m0, bytes@, i as int);
            }
            self.parse_byte(bytes[i], actor);
            proof {
                if old(actor).records_calls() {
                    assert(actor.recorded() =~= r0 + m0.run(bytes@.take(i + 1)).1);
                }
            }
            i += 1;
        }
        assert(bytes@.take(bytes@.len() as int) =~= bytes@);
    }
}

/// The virtual terminal parser.  It works together with an implementation of `VTActor`.
pub struct VTParser {
    core: ParserCore,
}

impl View for VTParser {
    type V = ParserModel;

    closed spec fn view(&self) -> ParserModel {
        self.core@
    }
}

impl VTParser {
    /// Every parser is well formed: it starts so and every byte keeps it so.
    #[verifier::type_invariant]
    spec fn well_formed(self) -> bool {
        self.core@.wf()
    }

    /// A parser in the ground state that has taken nothing.
    pub fn new() -> (p: Self)
        ensures
            p@ == ParserModel::initial(),
            p@.wf(),
    {
        VTParser { core: ParserCore::new() }
    }

    /// Parse a single byte.  This may result in a call to one of the
    /// methods on the provided `actor`.
    pub fn parse_byte<A: VTActor + ?Sized>(&mut self, byte: u8, actor: &mut A)
        ensures
            final(self)@ == old(self)@.step(byte).0,
            final(self)@.wf(),
            actor_appended(old(actor), final(actor), old(self)@.step(byte).1),
    {
        proof {
            use_type_invariant(&*self);
        }
        let mut core = ParserCore::new();
        std::mem::swap(&mut core, &mut self.core);
        core.parse_byte(byte, actor);
        std::mem::swap(&mut core, &mut self.core);
    }

    /// Parse a sequence of bytes.  The sequence need not be complete.
    /// This may result in some number of calls to the methods on the
    /// provided `actor`.
    pub fn parse<A: VTActor + ?Sized>(&mut self, bytes: &[u8], actor: &mut A)
        ensures
            final(self)@ == old(self)@.run(bytes@).0,
            final(self)@.wf(),
            actor_appended(old(actor), final(actor), old(self)@.run(bytes@).1),
    {
        proof {
            use_type_invariant(&*self);
        }
        let mut core = ParserCore::new();
        std::mem::swap(&mut core, &mut self.core);
        core.parse(bytes, actor);
        std::mem::swap(&mut core, &mut self.core);
    }
}

} // verus!
