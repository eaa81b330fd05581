# vtparse

A parser for the escape sequences used by terminal emulators: the state machine
of the [DEC ANSI parser](https://vt100.net/emu/dec_ansi_parser), extended to
decode UTF-8 in the ground state and inside OSC strings, and to end OSC strings
with BEL.  Its behaviour is specified and proved with Verus.

- `src/enums.rs`: the actions and states of the machine.
- `src/transitions.rs`: the transition, entry and exit tables, as spec functions
  and as the executable lookups proved equal to them.
- `src/model.rs`: `ParserModel`, the parser's state as mathematical values, with
  `step` (one byte: the next state and the events handed to the actor), `run`
  (a sequence of bytes) and `wf`, what holds of every state that parsing
  reaches.
- `src/parser.rs`: `VTParser` and `OscState`, each with its well-formedness as a
  type invariant; `parse_byte` and `parse` are proved to follow `step` and `run`.
- `src/actor.rs`: the `VTActor` trait, `VTAction`, its view `VTEvent`, and
  `CollectingVTActor`, which records exactly the events it receives.
- `src/utf8.rs`: the call into `utf8parse`, whose result on every input the
  parser hands to it is what well-formed UTF-8 says (`utf8_outcome`), and the
  UTF-8 encoder used for OSC strings.
- `src/invariant_laws.rs`: every reachable state is well formed, and what every
  dispatch carries from such a state (bounds, parameters at least zero, escape
  sequences without parameters, intermediates kept).
- `src/laws.rs`: what holds of every input (parsing in pieces, terminators,
  UTF-8 characters printed as their code points, UTF-8 replacement, ...).
- `src/param_laws.rs`: CSI parameters are the `;`-separated decimal numbers
  (an omitted one is zero, values are clamped to `i64::MAX`, at most sixteen
  are kept, as are the first two intermediates, a private marker included; a DCS
  hook carries them likewise), and OSC parameters are the `;`-separated parts of
  the string.
