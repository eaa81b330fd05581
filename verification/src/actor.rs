use vstd::prelude::*;

verus! {

/// What the parser hands to a `VTActor`, as mathematical values: the view of a
/// `VTAction`.
pub enum VTEvent {
    Print(char),
    ExecuteC0orC1(u8),
    DcsHook { params: Seq<i64>, intermediates: Seq<u8>, ignored_excess_intermediates: bool },
    DcsPut(u8),
    DcsUnhook,
    EscDispatch {
        params: Seq<i64>,
        intermediates: Seq<u8>,
        ignored_excess_intermediates: bool,
        byte: u8,
    },
    CsiDispatch {
        params: Seq<i64>,
        intermediates: Seq<u8>,
        ignored_excess_intermediates: bool,
        byte: u8,
    },
    OscDispatch(Seq<Seq<u8>>),
}

/// The event of printing `c`.
pub open spec fn print_event(c: char) -> VTEvent {
    VTEvent::Print(c)
}

/// The event of dispatching an OSC string whose parameters are `params`.
pub open spec fn osc_event(params: Seq<&[u8]>) -> VTEvent {
    VTEvent::OscDispatch(params.map_values(|p: &[u8]| p@))
}

/// `VTActor` is a trait that allows the host application to process
/// the different kinds of sequence as they are parsed from the input
/// stream.
///
/// The functions defined by this trait correspond to the actions defined
/// in the [state machine](https://vt100.net/emu/dec_ansi_parser).
///
/// ## Terminology:
/// An intermediate is a character in the range 0x20-0x2f that
/// occurs before the final character in an escape sequence.
///
/// `ignored_excess_intermediates` is a boolean that is set in the case
/// where there were more than two intermediate characters; no standard
/// defines any codes with more than two.  Intermediates after
/// the second will set this flag and are discarded.
///
/// `params` in most of the functions of this trait are decimal integer parameters in escape
/// sequences.  They are separated by semicolon characters.  An omitted parameter is returned in
/// this interface as a zero, which represents the default value for that parameter.
///
/// ## Specification
/// An implementation may keep, for verification only, a record of the calls it has
/// received (`records_calls`, `recorded`): each method then appends its event to
/// `recorded`.  An implementation that does not define these keeps no record and
/// promises nothing.
pub trait VTActor {
    /// Whether `recorded` is a faithful record of the calls received.
    open spec fn records_calls(&self) -> bool {
        false
    }

    /// The calls received so far, as events.
    open spec fn recorded(&self) -> Seq<VTEvent> {
        Seq::empty()
    }

    /// The current code should be mapped to a glyph according to the character set mappings and
    /// shift states in effect, and that glyph should be displayed.
    ///
    /// If the input was UTF-8 then it will have been mapped to a unicode code point.  Invalid
    /// sequences are represented here using the unicode REPLACEMENT_CHARACTER.
    ///
    /// Otherwise the parameter will be a 7-bit printable value and may be subject to mapping
    /// depending on other state maintained by the embedding application.
    fn print(&mut self, b: char)
        ensures
            final(self).records_calls() == old(self).records_calls(),
            old(self).records_calls() ==> final(self).recorded() == old(self).recorded().push(
                print_event(b),
            ),
    ;

    /// The C0 or C1 control function should be executed, which may have any one of a variety of
    /// effects, including changing the cursor position, suspending or resuming communications or
    /// changing the shift states in effect.
    fn execute_c0_or_c1(&mut self, control: u8)
        ensures
            final(self).records_calls() == old(self).records_calls(),
            old(self).records_calls() ==> final(self).recorded() == old(self).recorded().push(
                VTEvent::ExecuteC0orC1(control),
            ),
    ;

    /// invoked when a final character arrives in the first part of a device control string. It
    /// determines the control function from the private marker, intermediate character(s) and
    /// final character, and executes it, passing in the parameter list. It also selects a handler
    /// function for the rest of the characters in the control string.
    fn dcs_hook(&mut self, params: &[i64], intermediates: &[u8], ignored_excess_intermediates: bool)
        ensures
            final(self).records_calls() == old(self).records_calls(),
            old(self).records_calls() ==> final(self).recorded() == old(self).recorded().push(
                VTEvent::DcsHook {
                    params: params@,
                    intermediates: intermediates@,
                    ignored_excess_intermediates,
                },
            ),
    ;

    /// This action passes characters from the data string part of a device control string to a
    /// handler that has previously been selected by the dcs_hook action. C0 controls are also
    /// passed to the handler.
    fn dcs_put(&mut self, byte: u8)
        ensures
            final(self).records_calls() == old(self).records_calls(),
            old(self).records_calls() ==> final(self).recorded() == old(self).recorded().push(
                VTEvent::DcsPut(byte),
            ),
    ;

    /// When a device control string is terminated by ST, CAN, SUB or ESC, this action calls the
    /// previously selected handler function with an “end of data” parameter. This allows the
    /// handler to finish neatly.
    fn dcs_unhook(&mut self)
        ensures
            final(self).records_calls() == old(self).records_calls(),
            old(self).records_calls() ==> final(self).recorded() == old(self).recorded().push(
                VTEvent::DcsUnhook,
            ),
    ;

    /// The final character of an escape sequence has arrived, so determine the control function
    /// to be executed from the intermediate character(s) and final character, and execute it.
    fn esc_dispatch(
        &mut self,
        params: &[i64],
        intermediates: &[u8],
        ignored_excess_intermediates: bool,
        byte: u8,
    )
        ensures
            final(self).records_calls() == old(self).records_calls(),
            old(self).records_calls() ==> final(self).recorded() == old(self).recorded().push(
                VTEvent::EscDispatch {
                    params: params@,
                    intermediates: intermediates@,
                    ignored_excess_intermediates,
                    byte,
                },
            ),
    ;

    /// A final character of a Control Sequence Initiator has arrived, so determine the control
    /// function to be executed from private marker, intermediate character(s) and final
    /// character, and execute it, passing in the parameter list.
    fn csi_dispatch(
        &mut self,
        params: &[i64],
        intermediates: &[u8],
        ignored_excess_intermediates: bool,
        byte: u8,
    )
        ensures
            final(self).records_calls() == old(self).records_calls(),
            old(self).records_calls() ==> final(self).recorded() == old(self).recorded().push(
                VTEvent::CsiDispatch {
                    params: params@,
                    intermediates: intermediates@,
                    ignored_excess_intermediates,
                    byte,
                },
            ),
    ;

    /// Called when an OSC string is terminated by ST, CAN, SUB or ESC.
    ///
    /// `params` is an array of byte strings (which may also be valid utf-8)
    /// that were passed as semicolon separated parameters to the operating
    /// system command.
    fn osc_dispatch(&mut self, params: &[&[u8]])
        ensures
            final(self).records_calls() == old(self).records_calls(),
            old(self).records_calls() ==> final(self).recorded() == old(self).recorded().push(
                osc_event(params@),
            ),
    ;
}

/// `VTAction` is an alternative way to work with the parser; rather
/// than implementing the VTActor trait you can use `CollectingVTActor`
/// to capture the sequence of events into a `Vec<VTAction>`.
#[derive(Debug, Clone, PartialEq, Eq)]
pub enum VTAction {
    Print(char),
    ExecuteC0orC1(u8),
    DcsHook { params: Vec<i64>, intermediates: Vec<u8>, ignored_excess_intermediates: bool },
    DcsPut(u8),
    DcsUnhook,
    EscDispatch {
        params: Vec<i64>,
        intermediates: Vec<u8>,
        ignored_excess_intermediates: bool,
        byte: u8,
    },
    CsiDispatch {
        params: Vec<i64>,
        intermediates: Vec<u8>,
        ignored_excess_intermediates: bool,
        byte: u8,
    },
    OscDispatch(Vec<Vec<u8>>),
}

impl View for VTAction {
    type V = VTEvent;

    open spec fn view(&self) -> VTEvent {
        match self {
            VTAction::Print(c) => VTEvent::Print(*c),
            VTAction::ExecuteC0orC1(b) => VTEvent::ExecuteC0orC1(*b),
            VTAction::DcsHook { params, intermediates, ignored_excess_intermediates } => {
                VTEvent::DcsHook {
                    params: params@,
                    intermediates: intermediates@,
                    ignored_excess_intermediates: *ignored_excess_intermediates,
                }
            },
            VTAction::DcsPut(b) => VTEvent::DcsPut(*b),
            VTAction::DcsUnhook => VTEvent::DcsUnhook,
            VTAction::EscDispatch { params, intermediates, ignored_excess_intermediates, byte } => {
                VTEvent::EscDispatch {
                    params: params@,
                    intermediates: intermediates@,
                    ignored_excess_intermediates: *ignored_excess_intermediates,
                    byte: *byte,
                }
            },
            VTAction::CsiDispatch { params, intermediates, ignored_excess_intermediates, byte } => {
                VTEvent::CsiDispatch {
                    params: params@,
                    intermediates: intermediates@,
                    ignored_excess_intermediates: *ignored_excess_intermediates,
                    byte: *byte,
                }
            },
            VTAction::OscDispatch(params) => VTEvent::OscDispatch(
                params@.map_values(|p: Vec<u8>| p@),
            ),
        }
    }
}

/// This is an implementation of `VTActor` that captures the events
/// into an internal vector.
/// It can be iterated via `into_iter` or have the internal
/// vector extracted via `into_vec`.
pub struct CollectingVTActor {
    actions: Vec<VTAction>,
}

impl Default for CollectingVTActor {
    fn default() -> (r: Self)
        ensures
            r.events() == Seq::<VTEvent>::empty(),
    {
        let r = CollectingVTActor { actions: Vec::new() };
        assert(r.events() =~= Seq::<VTEvent>::empty());
        r
    }
}

impl CollectingVTActor {
    /// The events captured so far, in order.
    pub closed spec fn events(&self) -> Seq<VTEvent> {
        self.actions@.map_values(|a: VTAction| a@)
    }

    /// The captured actions, in the order in which they were received.
    pub fn into_vec(self) -> (v: Vec<VTAction>)
        ensures
            v@.map_values(|a: VTAction| a@) == self.events(),
    {
        self.actions
    }

    fn record(&mut self, a: VTAction)
        ensures
            final(self).events() == old(self).events().push(a@),
    {
        self.actions.push(a);
        assert(self.actions@.map_values(|x: VTAction| x@) =~= old(self).actions@.map_values(
            |x: VTAction| x@,
        ).push(a@));
    }
}

impl IntoIterator for CollectingVTActor {
    type Item = VTAction;
    type IntoIter = std::vec::IntoIter<VTAction>;

    fn into_iter(self) -> (r: std::vec::IntoIter<VTAction>)
        ensures
            vstd::std_specs::iter::IteratorSpec::remaining(&r).map_values(|a: VTAction| a@)
                == self.events(),
    {
        self.actions.into_iter()
    }
}

/// Copies each of `params` into a vector of its own.
fn owned_params(params: &[&[u8]]) -> (v: Vec<Vec<u8>>)
    ensures
        v@.map_values(|p: Vec<u8>| p@) == params@.map_values(|p: &[u8]| p@),
{
    let mut v: Vec<Vec<u8>> = Vec::new();
    let mut i: usize = 0;
    while i < params.len()
        invariant
            i <= params@.len(),
            v@.map_values(|p: Vec<u8>| p@) =~= params@.subrange(0, i as int).map_values(
                |p: &[u8]| p@,
            ),
        decreases params@.len() - i,
    {
        let w = vstd::slice::slice_to_vec(params[i]);
        assert(w@ == params@[i as int]@);
        v.push(w);
        i = i + 1;
        assert(params@.subrange(0, i as int).map_values(|p: &[u8]| p@) =~= params@.subrange(
            0,
            i - 1,
        ).map_values(|p: &[u8]| p@).push(w@));
    }
    assert(params@.subrange(0, params@.len() as int) =~= params@);
    v
}

impl VTActor for CollectingVTActor {
    open spec fn records_calls(&self) -> bool {
        true
    }

    open spec fn recorded(&self) -> Seq<VTEvent> {
        self.events()
    }

    fn print(&mut self, b: char) {
        self.record(VTAction::Print(b));
    }

    fn execute_c0_or_c1(&mut self, control: u8) {
        self.record(VTAction::ExecuteC0orC1(control));
    }

    fn dcs_hook(&mut self, params: &[i64], intermediates: &[u8], ignored_excess_intermediates: bool) {
        self.record(
            VTAction::DcsHook {
                params: vstd::slice::slice_to_vec(params),
                intermediates: vstd::slice::slice_to_vec(intermediates),
                ignored_excess_intermediates,
            },
        );
    }

    fn dcs_put(&mut self, byte: u8) {
        self.record(VTAction::DcsPut(byte));
    }

    fn dcs_unhook(&mut self) {
        self.record(VTAction::DcsUnhook);
    }

    fn esc_dispatch(
        &mut self,
        params: &[i64],
        intermediates: &[u8],
        ignored_excess_intermediates: bool,
        byte: u8,
    ) {
        self.record(
            VTAction::EscDispatch {
                params: vstd::slice::slice_to_vec(params),
                intermediates: vstd::slice::slice_to_vec(intermediates),
                ignored_excess_intermediates,
                byte,
            },
        );
    }

    fn csi_dispatch(
        &mut self,
        params: &[i64],
        intermediates: &[u8],
        ignored_excess_intermediates: bool,
        byte: u8,
    ) {
        self.record(
            VTAction::CsiDispatch {
                params: vstd::slice::slice_to_vec(params),
                intermediates: vstd::slice::slice_to_vec(intermediates),
                ignored_excess_intermediates,
                byte,
            },
        );
    }

    fn osc_dispatch(&mut self, params: &[&[u8]]) {
        self.record(VTAction::OscDispatch(owned_params(params)));
    }
}

} // verus!
