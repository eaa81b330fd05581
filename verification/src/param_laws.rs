use crate::actor::VTEvent;
use crate::enums::State;
use crate::invariant_laws::{all_intermediates, collecting_state, kept_intermediates, lemma_collect};
use crate::laws::{law_osc_terminators, law_parse_in_pieces};
use crate::model::{
    lemma_run_single, saturate, OscModel, ParserModel, MAX_INTERMEDIATES, MAX_OSC, MAX_PARAMS,
};
use vstd::prelude::*;

verus! {

/// Whether every byte of `ds` is a decimal digit.
pub open spec fn all_digits(ds: Seq<u8>) -> bool {
    forall|i: int| 0 <= i < ds.len() ==> 0x30 <= #[trigger] ds[i] <= 0x39
}

/// The value of `v` followed by the decimal digits `ds`.
pub open spec fn decimal_from(v: int, ds: Seq<u8>) -> int
    decreases ds.len(),
{
    if ds.len() == 0 {
        v
    } else {
        decimal_from(v, ds.drop_last()) * 10 + (ds.last() - 0x30)
    }
}

proof fn lemma_decimal_nonneg(v: int, ds: Seq<u8>)
    requires
        v >= 0,
        all_digits(ds),
    ensures
        decimal_from(v, ds) >= 0,
    decreases ds.len(),
{
    if ds.len() > 0 {
        lemma_decimal_nonneg(v, ds.drop_last());
    }
}

/// Clamping after each digit is clamping at the end.
proof fn lemma_saturate_digit(x: int, d: int)
    requires
        x >= 0,
        0 <= d <= 9,
    ensures
        saturate(saturate(saturate(x) * 10) + d) == saturate(x * 10 + d),
{
    if x >= i64::MAX {
        assert(x * 10 >= i64::MAX);
    } else {
        assert(saturate(x) == x);
    }
}

/// Parameters are decimal integers: in a CSI parameter the digits `ds` accumulate
/// to the decimal value of the current parameter followed by `ds`, clamped to
/// `i64::MAX`, and nothing is dispatched.
pub proof fn law_param_digits(m: ParserModel, ds: Seq<u8>)
    requires
        m.state == State::CsiParam,
        !m.params_full,
        m.current_param matches Some(v) ==> v >= 0,
        ds.len() > 0,
        all_digits(ds),
    ensures
        m.run(ds) == (
            ParserModel {
                current_param: Some(
                    saturate(
                        decimal_from(
                            match m.current_param {
                                Some(v) => v as int,
                                None => 0,
                            },
                            ds,
                        ),
                    ),
                ),
                ..m
            },
            Seq::<VTEvent>::empty(),
        ),
    decreases ds.len(),
{
    reveal(ParserModel::step);
    let v0: int = match m.current_param {
        Some(v) => v as int,
        None => 0,
    };
    let last = ds.last();
    let rest = ds.drop_last();
    assert(0x30 <= ds[ds.len() - 1] <= 0x39);
    if rest.len() == 0 {
        assert(m.run(rest) == (m, Seq::<VTEvent>::empty()));
        assert(decimal_from(v0, rest) == v0);
        lemma_saturate_digit(v0, last - 0x30);
        assert(saturate(v0) == v0);
    } else {
        assert(all_digits(rest)) by {
            assert forall|i: int| 0 <= i < rest.len() implies 0x30 <= #[trigger] rest[i] <= 0x39 by {
                assert(rest[i] == ds[i]);
            }
        }
        law_param_digits(m, rest);
        lemma_decimal_nonneg(v0, rest);
        lemma_saturate_digit(decimal_from(v0, rest), last - 0x30);
    }
    assert(m.run(ds).1 =~= Seq::<VTEvent>::empty());
}

/// The number of `;` in `s`.
pub open spec fn count_semicolons(s: Seq<u8>) -> nat
    decreases s.len(),
{
    if s.len() == 0 {
        0
    } else {
        count_semicolons(s.drop_last()) + if s.last() == 0x3b {
            1nat
        } else {
            0nat
        }
    }
}

/// The parameters `p` separated by `;`.
pub open spec fn join_params(p: Seq<Seq<u8>>) -> Seq<u8>
    decreases p.len(),
{
    if p.len() <= 1 {
        if p.len() == 0 {
            seq![]
        } else {
            p[0]
        }
    } else {
        join_params(p.drop_last()) + seq![0x3bu8] + p.last()
    }
}

/// No parameter of `p` holds a `;`.
pub open spec fn no_semicolons(p: Seq<Seq<u8>>) -> bool {
    forall|i: int, j: int| 0 <= i < p.len() && 0 <= j < p[i].len() ==> #[trigger] p[i][j] != 0x3b
}

/// Every byte of `s` is printable (0x20 to 0x7f).
pub open spec fn all_printable(s: Seq<u8>) -> bool {
    forall|i: int| 0 <= i < s.len() ==> 0x20 <= #[trigger] s[i] <= 0x7f
}

/// The bytes of the parameters `p`, one after the other.
spec fn pieces_bytes(p: Seq<Seq<u8>>) -> Seq<u8>
    decreases p.len(),
{
    if p.len() == 0 {
        seq![]
    } else {
        pieces_bytes(p.drop_last()) + p.last()
    }
}

proof fn lemma_pieces_bytes_concat(a: Seq<Seq<u8>>, b: Seq<Seq<u8>>)
    ensures
        pieces_bytes(a + b) == pieces_bytes(a) + pieces_bytes(b),
    decreases b.len(),
{
    if b.len() == 0 {
        assert(a + b =~= a);
        assert(pieces_bytes(a) + pieces_bytes(b) =~= pieces_bytes(a));
    } else {
        assert((a + b).drop_last() =~= a + b.drop_last());
        lemma_pieces_bytes_concat(a, b.drop_last());
        assert(pieces_bytes(a + b) =~= pieces_bytes(a) + pieces_bytes(b));
    }
}

/// The OSC collector holds the parameters `p`: its buffer is their bytes, and each
/// index marks the end of one of them.
spec fn osc_holds(osc: OscModel, p: Seq<Seq<u8>>) -> bool {
    &&& osc.num_params == p.len()
    &&& osc.buffer == pieces_bytes(p)
    &&& osc.indices.len() == if p.len() == 0 {
        0
    } else {
        p.len() - 1
    }
    &&& forall|i: int|
        0 <= i < p.len() - 1 ==> #[trigger] osc.indices[i] == pieces_bytes(p.take(i + 1)).len()
}

/// A collector that holds `p` hands `p` to `osc_dispatch`.
proof fn lemma_osc_params(osc: OscModel, p: Seq<Seq<u8>>)
    requires
        osc_holds(osc, p),
    ensures
        osc.params() == p,
{
    assert forall|i: int| 0 <= i < p.len() implies #[trigger] osc.params()[i] == p[i] by {
        let a = p.take(i);
        let b = p.take(i + 1);
        assert(b.drop_last() =~= a);
        assert(b.last() == p[i]);
        assert(pieces_bytes(b) == pieces_bytes(a) + p[i]);
        assert(p =~= b + p.skip(i + 1));
        lemma_pieces_bytes_concat(b, p.skip(i + 1));
        if i > 0 {
            assert(osc.indices[i - 1] == pieces_bytes(p.take(i)).len());
        } else {
            assert(a =~= Seq::<Seq<u8>>::empty());
        }
        if i < p.len() - 1 {
            assert(osc.indices[i] == pieces_bytes(b).len());
        }
        assert(osc.piece(i) =~= p[i]);
    }
    assert(osc.params() =~= p);
}

/// The bytes of `p` with `c` added to its last parameter.
proof fn lemma_append_to_last(p: Seq<Seq<u8>>, c: u8)
    requires
        p.len() > 0,
    ensures
        pieces_bytes(p.update(p.len() - 1, p.last().push(c))) == pieces_bytes(p).push(c),
        join_params(p.update(p.len() - 1, p.last().push(c))) == join_params(p).push(c),
        forall|i: int|
            0 <= i < p.len() - 1 ==> #[trigger] p.update(p.len() - 1, p.last().push(c)).take(i + 1)
                == p.take(i + 1),
{
    let q = p.update(p.len() - 1, p.last().push(c));
    assert(q.drop_last() =~= p.drop_last());
    assert(pieces_bytes(q) =~= pieces_bytes(p).push(c));
    if p.len() == 1 {
        assert(join_params(q) =~= join_params(p).push(c));
    } else {
        assert(join_params(q) =~= join_params(p).push(c));
    }
    assert forall|i: int| 0 <= i < p.len() - 1 implies #[trigger] q.take(i + 1) == p.take(i + 1) by {
        assert(q.take(i + 1) =~= p.take(i + 1));
    }
}

/// The bytes of `p` with an empty parameter after it.
proof fn lemma_push_empty(p: Seq<Seq<u8>>)
    requires
        p.len() > 0,
    ensures
        pieces_bytes(p.push(seq![])) == pieces_bytes(p),
        join_params(p.push(seq![])) == join_params(p).push(0x3b),
        p.push(seq![]).take(p.len() as int) == p,
        forall|i: int| 0 <= i < p.len() - 1 ==> #[trigger] p.push(seq![]).take(i + 1) == p.take(i + 1),
{
    let q = p.push(seq![]);
    assert(q.drop_last() =~= p);
    assert(pieces_bytes(q) =~= pieces_bytes(p));
    assert(join_params(q) =~= join_params(p).push(0x3b));
    assert(q.take(p.len() as int) =~= p);
    assert forall|i: int| 0 <= i < p.len() - 1 implies #[trigger] q.take(i + 1) == p.take(i + 1) by {
        assert(q.take(i + 1) =~= p.take(i + 1));
    }
}

/// The parameters that the OSC collector makes of `s`.
spec fn osc_pieces(s: Seq<u8>) -> Seq<Seq<u8>>
    decreases s.len(),
{
    if s.len() == 0 {
        seq![]
    } else {
        let p = osc_pieces(s.drop_last());
        let c = s.last();
        if p.len() == 0 {
            if c == 0x3b {
                seq![seq![], seq![]]
            } else {
                seq![seq![c]]
            }
        } else if c == 0x3b {
            if p.len() == MAX_OSC {
                p
            } else {
                p.push(seq![])
            }
        } else if count_semicolons(s.drop_last()) >= MAX_OSC {
            p
        } else {
            p.update(p.len() - 1, p.last().push(c))
        }
    }
}

/// What holds of the OSC collector after it has taken `t`.
spec fn osc_collected(osc: OscModel, t: Seq<u8>) -> bool {
    let p = osc_pieces(t);
    &&& osc_holds(osc, p)
    &&& osc.wf()
    &&& no_semicolons(p)
    &&& p.len() >= 1
    &&& osc.buffer.len() <= t.len()
    &&& count_semicolons(t) < MAX_OSC ==> {
        &&& join_params(p) == t
        &&& p.len() == count_semicolons(t) + 1
        &&& !osc.full
    }
    &&& count_semicolons(t) >= MAX_OSC ==> {
        &&& p.len() == MAX_OSC
        &&& join_params(p).len() + 1 <= t.len()
        &&& join_params(p).push(0x3b) == t.take(join_params(p).len() as int + 1)
        &&& osc.full
    }
}

/// An ASCII byte as a character is encoded as that byte.
proof fn lemma_ascii_encoding(b: u8)
    requires
        b <= 0x7f,
    ensures
        vstd::utf8::encode_scalar((b as char) as u32) == seq![b],
{
    assert((b as char) as u32 == b as u32);
    assert((b as u32 & 0x7F) as u8 == b) by (bit_vector)
        requires
            b <= 0x7f,
    ;
}

/// The OSC collector takes a printable `s` and ends holding `osc_pieces(s)`.
proof fn lemma_osc_collect(m: ParserModel, s: Seq<u8>)
    requires
        m.state == State::OscString,
        m.osc == OscModel::initial(),
        s.len() > 0,
        all_printable(s),
    ensures
        m.run(s).0.state == State::OscString,
        m.run(s).1.len() == 0,
        osc_collected(m.run(s).0.osc, s),
    decreases s.len(),
{
    reveal(ParserModel::step);
    let t = s.drop_last();
    let c = s.last();
    assert(0x20 <= s[s.len() - 1] <= 0x7f);
    lemma_ascii_encoding(c);
    if t.len() == 0 {
        assert(m.run(t) == (m, Seq::<VTEvent>::empty()));
        let o = m.step(c).0.osc;
        let p = osc_pieces(s);
        assert(osc_pieces(t) =~= Seq::<Seq<u8>>::empty());
        assert(count_semicolons(t) == 0);
        assert(m.step(c).1 =~= Seq::<VTEvent>::empty());
        if c == 0x3b {
            let e = Seq::<u8>::empty();
            assert(p =~= seq![e, e]);
            assert(p.drop_last() =~= seq![e]);
            assert(seq![e].drop_last() =~= Seq::<Seq<u8>>::empty());
            assert(pieces_bytes(Seq::<Seq<u8>>::empty()) =~= e);
            assert(seq![e].last() == e);
            assert(pieces_bytes(seq![e]) =~= e);
            assert(pieces_bytes(p.drop_last()) =~= e);
            assert(pieces_bytes(p) =~= e);
            assert(p.take(1) =~= seq![e]);
            assert(o.buffer =~= pieces_bytes(p));
            assert(o.indices =~= seq![0nat]);
            assert(join_params(p.drop_last()) =~= e);
            assert(join_params(p) =~= s);
            assert(count_semicolons(s) == 1);
            lemma_run_take_last(m, s);
            return ;
        }
        assert(p =~= seq![seq![c]]);
        assert(p.drop_last() =~= Seq::<Seq<u8>>::empty());
        assert(pieces_bytes(p.drop_last()) =~= Seq::<u8>::empty());
        assert(o.buffer =~= pieces_bytes(p));
        assert(count_semicolons(t) == 0);
        assert(join_params(p) =~= s);
        assert(o.indices =~= Seq::<nat>::empty());
        assert(m.step(c).1 =~= Seq::<VTEvent>::empty());
    } else {
        assert(all_printable(t)) by {
            assert forall|i: int| 0 <= i < t.len() implies 0x20 <= #[trigger] t[i] <= 0x7f by {
                assert(t[i] == s[i]);
            }
        }
        lemma_osc_collect(m, t);
        let mt = m.run(t).0;
        let o = mt.osc;
        let p = osc_pieces(t);
        let o2 = mt.step(c).0.osc;
        assert(mt.step(c).1 =~= Seq::<VTEvent>::empty());
        assert(mt.step(c).0.state == State::OscString);
        if c == 0x3b {
            if p.len() == MAX_OSC {
                assert(osc_pieces(s) == p);
                if count_semicolons(t) < MAX_OSC {
                    assert(s =~= join_params(p).push(0x3b));
                    assert(s.take(join_params(p).len() as int + 1) =~= s);
                } else {
                    assert(t.take(join_params(p).len() as int + 1) =~= s.take(join_params(p).len() as int + 1));
                }
            } else {
                lemma_push_empty(p);
                let q = p.push(seq![]);
                assert(osc_pieces(s) == q);
                assert(count_semicolons(t) < MAX_OSC);
                assert(o2.indices =~= o.indices.push(o.buffer.len()));
                assert(no_semicolons(q)) by {
                    assert forall|i: int, j: int| 0 <= i < q.len() && 0 <= j < q[i].len() implies #[trigger] q[i][j] != 0x3b by {
                        assert(q[i] == p[i]);
                    }
                }
                assert forall|i: int| 0 <= i < q.len() - 1 implies #[trigger] o2.indices[i] == pieces_bytes(q.take(i + 1)).len() by {
                    if i < p.len() - 1 {
                        assert(o2.indices[i] == o.indices[i]);
                    } else {
                        assert(i == p.len() - 1);
                        assert(q.take(i + 1) == p);
                    }
                }
                assert(join_params(q) =~= s);
            }
        } else {
            if count_semicolons(t) >= MAX_OSC {
                assert(osc_pieces(s) == p);
                assert(t.take(join_params(p).len() as int + 1) =~= s.take(join_params(p).len() as int + 1));
            } else {
                lemma_append_to_last(p, c);
                let q = p.update(p.len() - 1, p.last().push(c));
                assert(osc_pieces(s) == q);
                assert(o2.buffer =~= o.buffer.push(c));
                assert(no_semicolons(q)) by {
                    assert forall|i: int, j: int| 0 <= i < q.len() && 0 <= j < q[i].len() implies #[trigger] q[i][j] != 0x3b by {
                        if i < p.len() - 1 {
                            assert(q[i] == p[i]);
                        } else if j < p[i].len() {
                            assert(q[i][j] == p[i][j]);
                        }
                    }
                }
                assert forall|i: int| 0 <= i < q.len() - 1 implies #[trigger] o2.indices[i] == pieces_bytes(q.take(i + 1)).len() by {
                    assert(q.take(i + 1) == p.take(i + 1));
                }
                assert(join_params(q) =~= s);
            }
        }
        lemma_run_take_last(m, s);
    }
}

/// Taking all of `s` is taking all but its last byte, then the last byte.
proof fn lemma_run_take_last(m: ParserModel, s: Seq<u8>)
    requires
        s.len() > 0,
    ensures
        m.run(s) == (
            m.run(s.drop_last()).0.step(s.last()).0,
            m.run(s.drop_last()).1 + m.run(s.drop_last()).0.step(s.last()).1,
        ),
{
}

/// `ESC ]` from the ground state starts a new, empty OSC string.
proof fn lemma_osc_introducer(m: ParserModel)
    requires
        m.state == State::Ground,
    ensures
        m.run(seq![0x1bu8, 0x5du8]).0.state == State::OscString,
        m.run(seq![0x1bu8, 0x5du8]).0.osc == OscModel::initial(),
        m.run(seq![0x1bu8, 0x5du8]).1.len() == 0,
{
    reveal(ParserModel::step);
    lemma_run_single(m, 0x1b);
    lemma_run_single(m.step(0x1b).0, 0x5d);
    assert(seq![0x1bu8] + seq![0x5du8] =~= seq![0x1bu8, 0x5du8]);
    law_parse_in_pieces(m, seq![0x1bu8], seq![0x5du8]);
}

/// The parameters of an OSC dispatch (none for any other event).
pub open spec fn osc_dispatched(e: VTEvent) -> Seq<Seq<u8>> {
    match e {
        VTEvent::OscDispatch(params) => params,
        _ => seq![],
    }
}

/// The parameters of an OSC string are its `;`-separated parts: from the ground
/// state, `ESC ]`, a printable string `s` and BEL
/// dispatch parameters that hold no `;` and, joined with `;`, give back `s`.  Only
/// sixteen parameters are kept: after the sixteenth `;` the rest of the string is
/// discarded.  The parser is back in the ground state.
pub proof fn law_osc_params(m: ParserModel, s: Seq<u8>)
    requires
        m.state == State::Ground,
        all_printable(s),
    ensures
        m.run(seq![0x1bu8, 0x5du8] + s + seq![0x07u8]).0.state == State::Ground,
        m.run(seq![0x1bu8, 0x5du8] + s + seq![0x07u8]).1.len() == 1,
        m.run(seq![0x1bu8, 0x5du8] + s + seq![0x07u8]).1[0] is OscDispatch,
        ({
            let params = osc_dispatched(m.run(seq![0x1bu8, 0x5du8] + s + seq![0x07u8]).1[0]);
            &&& no_semicolons(params)
            &&& s.len() == 0 ==> params.len() == 0
            &&& s.len() > 0 && count_semicolons(s) < MAX_OSC ==> {
                &&& join_params(params) == s
                &&& params.len() == count_semicolons(s) + 1
            }
            &&& count_semicolons(s) >= MAX_OSC ==> {
                &&& params.len() == MAX_OSC
                &&& join_params(params).len() + 1 <= s.len()
                &&& join_params(params).push(0x3b) == s.take(join_params(params).len() as int + 1)
            }
        }),
{
    let intro = seq![0x1bu8, 0x5du8];
    let bel = seq![0x07u8];
    lemma_osc_introducer(m);
    let m2 = m.run(intro).0;
    let m3 = m2.run(s).0;
    if s.len() > 0 {
        lemma_osc_collect(m2, s);
        lemma_osc_params(m3.osc, osc_pieces(s));
    } else {
        assert(m2.run(s) == (m2, Seq::<VTEvent>::empty()));
        assert(m3.osc.params() =~= Seq::<Seq<u8>>::empty());
        assert(count_semicolons(s) == 0);
    }
    law_parse_in_pieces(m, intro, s);
    law_osc_terminators(m3, 0x07);
    lemma_run_single(m3, 0x07);
    law_parse_in_pieces(m, intro + s, bel);
    assert(m.run(intro).1 + m2.run(s).1 =~= Seq::<VTEvent>::empty());
    assert(m.run(intro + s + bel).1 =~= seq![VTEvent::OscDispatch(m3.osc.params())]);
}

/// Whether every byte of `s` is a digit or `;`.
pub open spec fn all_param_bytes(s: Seq<u8>) -> bool {
    forall|i: int| 0 <= i < s.len() ==> (0x30 <= #[trigger] s[i] <= 0x39 || s[i] == 0x3b)
}

/// The parts of `s` between `;`s (one more than there are `;`s).
pub open spec fn split_at_semicolons(s: Seq<u8>) -> Seq<Seq<u8>>
    decreases s.len(),
{
    if s.len() == 0 {
        seq![seq![]]
    } else {
        let p = split_at_semicolons(s.drop_last());
        if s.last() == 0x3b {
            p.push(seq![])
        } else {
            p.update(p.len() - 1, p.last().push(s.last()))
        }
    }
}

/// The value of a parameter: its decimal value, clamped to `i64::MAX`; zero when
/// it is omitted.
pub open spec fn param_value(q: Seq<u8>) -> i64 {
    saturate(decimal_from(0, q))
}

/// The values of the parameters of `s` that a `;` ends.
pub open spec fn ended_param_values(s: Seq<u8>) -> Seq<i64> {
    let p = split_at_semicolons(s);
    Seq::new((p.len() - 1) as nat, |i: int| param_value(p[i]))
}

/// The values of all parts of `s` between `;`s, omitted ones as zero; none when `s`
/// is empty.
pub open spec fn param_values(s: Seq<u8>) -> Seq<i64> {
    let p = split_at_semicolons(s);
    if s.len() == 0 {
        seq![]
    } else {
        Seq::new(p.len(), |i: int| param_value(p[i]))
    }
}

/// The parameters of a control sequence whose parameter bytes are `s`: the value of
/// each `;`-separated part, an omitted one (the last one included) as zero, at most
/// sixteen of them; none when `s` is empty.
pub open spec fn csi_params(s: Seq<u8>) -> Seq<i64> {
    let all = param_values(s);
    if all.len() > MAX_PARAMS {
        all.take(MAX_PARAMS as int)
    } else {
        all
    }
}

proof fn lemma_split_len(s: Seq<u8>)
    ensures
        split_at_semicolons(s).len() >= 1,
    decreases s.len(),
{
    if s.len() > 0 {
        lemma_split_len(s.drop_last());
    }
}

/// The state in which a control sequence (`dcs` false) or a device control string
/// (`dcs` true) starts.
pub open spec fn entry_state(dcs: bool) -> State {
    if dcs {
        State::DcsEntry
    } else {
        State::CsiEntry
    }
}

/// The state in which a control sequence or device control string reads its
/// parameters.
pub open spec fn param_state(dcs: bool) -> State {
    if dcs {
        State::DcsParam
    } else {
        State::CsiParam
    }
}

/// The byte that follows ESC to introduce a control sequence (`[`) or a device
/// control string (`P`).
pub open spec fn introducer(dcs: bool) -> u8 {
    if dcs {
        0x50
    } else {
        0x5b
    }
}

/// Whether `pm` is a private marker (one byte from 0x3c to 0x3f) or none.
pub open spec fn private_marker(pm: Seq<u8>) -> bool {
    pm.len() == 0 || (pm.len() == 1 && 0x3c <= pm[0] <= 0x3f)
}

/// What the final byte `f` of a control sequence dispatches, or what the final
/// byte of the first part of a device control string hooks.
pub open spec fn sequence_event(
    dcs: bool,
    params: Seq<i64>,
    intermediates: Seq<u8>,
    ignored: bool,
    f: u8,
) -> VTEvent {
    if dcs {
        VTEvent::DcsHook { params, intermediates, ignored_excess_intermediates: ignored }
    } else {
        VTEvent::CsiDispatch { params, intermediates, ignored_excess_intermediates: ignored, byte: f }
    }
}

/// The state after the final byte: the ground state after a control sequence, the
/// data of the string after the first part of a device control string.
pub open spec fn final_state(dcs: bool) -> State {
    if dcs {
        State::DcsPassthrough
    } else {
        State::Ground
    }
}

/// What holds of a control sequence or device control string after its private
/// marker `pm` and its parameter bytes `t`.
spec fn csi_collected(m: ParserModel, dcs: bool, pm: Seq<u8>, t: Seq<u8>) -> bool {
    let p = split_at_semicolons(t);
    let e = ended_param_values(t);
    &&& m.state == if t.len() == 0 && pm.len() == 0 {
        entry_state(dcs)
    } else {
        param_state(dcs)
    }
    &&& m.intermediates == pm
    &&& pm.len() <= 1
    &&& !m.ignored_excess_intermediates
    &&& e.len() <= MAX_PARAMS ==> {
        &&& m.params == e
        &&& !m.params_full
        &&& m.current_param == if t.len() > 0 {
            Some(param_value(p.last()))
        } else {
            None
        }
    }
    &&& e.len() > MAX_PARAMS ==> {
        &&& m.params == e.take(MAX_PARAMS as int)
        &&& m.params_full
    }
}

/// The bytes that introduce a control sequence (`dcs` false) or a device control
/// string (`dcs` true): the C1 control (`c1`), or ESC and `[` or `P`.
pub open spec fn introduction(dcs: bool, c1: bool) -> Seq<u8> {
    if c1 {
        seq![if dcs {
            0x90u8
        } else {
            0x9bu8
        }]
    } else {
        seq![0x1bu8, introducer(dcs)]
    }
}

/// What the introduction of a control sequence or device control string leaves:
/// nothing collected.
spec fn introduced(m: ParserModel, dcs: bool) -> bool {
    &&& m.state == entry_state(dcs)
    &&& m.entry_clean()
}

/// The C1 introducer of a control sequence (`dcs` false) or device control string.
proof fn lemma_c1_introducer(m: ParserModel, dcs: bool)
    requires
        m.state != State::Utf8Sequence,
        m.wf(),
    ensures
        introduced(m.step(if dcs { 0x90u8 } else { 0x9bu8 }).0, dcs),
        m.step(if dcs { 0x90u8 } else { 0x9bu8 }).1 == m.leaving_events(),
{
    reveal(ParserModel::step);
    let b: u8 = if dcs { 0x90u8 } else { 0x9bu8 };
    if m.state != entry_state(dcs) {
        assert(m.step(b).1 =~= m.leaving_events());
    }
}

/// ESC and `[` or `P` introduce a control sequence or device control string.
proof fn lemma_esc_introducer(m: ParserModel, dcs: bool)
    requires
        m.state != State::Utf8Sequence,
    ensures
        introduced(m.step(0x1b).0.step(introducer(dcs)).0, dcs),
        m.step(0x1b).1 == m.leaving_events(),
        m.step(0x1b).0.step(introducer(dcs)).1 == Seq::<VTEvent>::empty(),
{
    reveal(ParserModel::step);
    if m.state != State::Escape {
        assert(m.step(0x1b).1 =~= m.leaving_events());
    }
    assert(m.step(0x1b).0.state == State::Escape);
    assert(m.step(0x1b).0.step(introducer(dcs)).1 =~= Seq::<VTEvent>::empty());
}

/// The introduction of a control sequence or device control string, from every
/// state outside a UTF-8 sequence, starts it with nothing collected (a C1
/// introducer from a state that parsing reaches); what it ends is handed on.
proof fn lemma_introducer(m: ParserModel, dcs: bool, c1: bool)
    requires
        m.state != State::Utf8Sequence,
        c1 ==> m.wf(),
    ensures
        csi_collected(m.run(introduction(dcs, c1)).0, dcs, seq![], seq![]),
        m.run(introduction(dcs, c1)).1 == m.leaving_events(),
{
    let intro = introduction(dcs, c1);
    if c1 {
        lemma_c1_introducer(m, dcs);
        lemma_run_single(m, intro[0]);
        assert(intro =~= seq![intro[0]]);
    } else {
        lemma_esc_introducer(m, dcs);
        lemma_run_single(m, 0x1b);
        lemma_run_single(m.step(0x1b).0, introducer(dcs));
        assert(seq![0x1bu8] + seq![introducer(dcs)] =~= intro);
        law_parse_in_pieces(m, seq![0x1bu8], seq![introducer(dcs)]);
        assert(m.run(intro).1 =~= m.leaving_events());
    }
    let m2 = m.run(intro).0;
    assert(split_at_semicolons(Seq::<u8>::empty()) == seq![Seq::<u8>::empty()]);
    assert(ended_param_values(Seq::<u8>::empty()) =~= Seq::<i64>::empty());
    assert(m2.params =~= Seq::<i64>::empty());
    assert(m2.intermediates =~= Seq::<u8>::empty());
}

/// A private marker right after the introducer is collected as the first
/// intermediate, and the parameters follow.
proof fn lemma_private_marker(m: ParserModel, dcs: bool, x: u8)
    requires
        csi_collected(m, dcs, seq![], seq![]),
        0x3c <= x <= 0x3f,
    ensures
        csi_collected(m.step(x).0, dcs, seq![x], seq![]),
        m.step(x).1.len() == 0,
{
    reveal(ParserModel::step);
    assert(m.intermediates.push(x) =~= seq![x]);
    assert(m.step(x).1 =~= Seq::<VTEvent>::empty());
}

/// Each digit or `;` of a control sequence is taken as the parameters say.
proof fn lemma_csi_param_byte(m: ParserModel, dcs: bool, pm: Seq<u8>, t: Seq<u8>, c: u8)
    requires
        csi_collected(m, dcs, pm, t),
        all_param_bytes(t),
        0x30 <= c <= 0x39 || c == 0x3b,
    ensures
        csi_collected(m.step(c).0, dcs, pm, t.push(c)),
        m.step(c).1.len() == 0,
{
    reveal(ParserModel::step);
    lemma_split_len(t);
    let s = t.push(c);
    assert(s.drop_last() =~= t);
    let p = split_at_semicolons(t);
    let e = ended_param_values(t);
    let p2 = split_at_semicolons(s);
    let e2 = ended_param_values(s);
    let q = p.last();
    assert(m.step(c).1 =~= Seq::<VTEvent>::empty());
    let cur: i64 = match m.current_param {
        Some(v) => v,
        None => 0i64,
    };
    lemma_split_parts_digits(t);
    assert(all_digits(split_at_semicolons(t)[p.len() - 1]));
    lemma_decimal_nonneg(0, q);
    assert(decimal_from(0, Seq::<u8>::empty()) == 0);
    assert(saturate(0) == 0);
    if c == 0x3b {
        assert(p2 == p.push(seq![]));
        assert(e2 =~= e.push(param_value(q)));
        if e.len() >= MAX_PARAMS {
            assert(e2.take(MAX_PARAMS as int) =~= e.take(MAX_PARAMS as int));
        }
        if e.len() < MAX_PARAMS {
            assert(cur == param_value(q));
        } else if e.len() == MAX_PARAMS {
            assert(e2.take(MAX_PARAMS as int) =~= e);
        }
    } else {
        assert(p2 == p.update(p.len() - 1, q.push(c)));
        assert(e2 =~= e);
        assert(p2.last() == q.push(c));
        assert(q.push(c).drop_last() =~= q);
        lemma_saturate_digit(decimal_from(0, q), c - 0x30);
        if e.len() <= MAX_PARAMS {
            assert(cur == saturate(decimal_from(0, q)));
        }
    }
}

/// The parts of a digit-and-`;` string hold digits only.
proof fn lemma_split_parts_digits(t: Seq<u8>)
    requires
        all_param_bytes(t),
    ensures
        forall|i: int| 0 <= i < split_at_semicolons(t).len() ==> all_digits(
            #[trigger] split_at_semicolons(t)[i],
        ),
    decreases t.len(),
{
    if t.len() > 0 {
        let r = t.drop_last();
        assert(all_param_bytes(r)) by {
            assert forall|i: int| 0 <= i < r.len() implies (0x30 <= #[trigger] r[i] <= 0x39 || r[i]
                == 0x3b) by {
                assert(r[i] == t[i]);
            }
        }
        lemma_split_parts_digits(r);
        lemma_split_len(r);
        let p = split_at_semicolons(r);
        let c = t.last();
        assert(0x30 <= t[t.len() - 1] <= 0x39 || t[t.len() - 1] == 0x3b);
        assert forall|i: int| 0 <= i < split_at_semicolons(t).len() implies all_digits(
            #[trigger] split_at_semicolons(t)[i],
        ) by {
            if c != 0x3b && i == p.len() - 1 {
                let q = p.last().push(c);
                assert(all_digits(p[i]));
                assert forall|j: int| 0 <= j < q.len() implies 0x30 <= #[trigger] q[j] <= 0x39 by {
                    if j < q.len() - 1 {
                        assert(q[j] == p[i][j]);
                    }
                }
            }
        }
    }
}

/// The parameter bytes `s` of a control sequence are taken without dispatching
/// anything.
proof fn lemma_csi_collect(m: ParserModel, dcs: bool, pm: Seq<u8>, s: Seq<u8>)
    requires
        csi_collected(m, dcs, pm, Seq::<u8>::empty()),
        all_param_bytes(s),
    ensures
        csi_collected(m.run(s).0, dcs, pm, s),
        m.run(s).1.len() == 0,
    decreases s.len(),
{
    if s.len() == 0 {
        assert(s =~= Seq::<u8>::empty());
        assert(m.run(s) == (m, Seq::<VTEvent>::empty()));
    } else {
        let t = s.drop_last();
        assert(all_param_bytes(t)) by {
            assert forall|i: int| 0 <= i < t.len() implies (0x30 <= #[trigger] t[i] <= 0x39 || t[i]
                == 0x3b) by {
                assert(t[i] == s[i]);
            }
        }
        assert(0x30 <= s[s.len() - 1] <= 0x39 || s[s.len() - 1] == 0x3b);
        lemma_csi_collect(m, dcs, pm, t);
        lemma_csi_param_byte(m.run(t).0, dcs, pm, t, s.last());
        assert(t.push(s.last()) =~= s);
        lemma_run_take_last(m, s);
    }
}

/// Ending the parameters of a control sequence gives `csi_params` of its parameter
/// bytes.
proof fn lemma_csi_finish(m: ParserModel, dcs: bool, pm: Seq<u8>, s: Seq<u8>)
    requires
        csi_collected(m, dcs, pm, s),
    ensures
        m.finish_param().params == csi_params(s),
{
    lemma_split_len(s);
    let p = split_at_semicolons(s);
    let e = ended_param_values(s);
    let q = p.last();
    let all = param_values(s);
    if s.len() == 0 {
        assert(p =~= seq![Seq::<u8>::empty()]);
        assert(e =~= Seq::<i64>::empty());
        assert(all =~= Seq::<i64>::empty());
    } else {
        assert(all =~= e.push(param_value(q)));
    }
    let fin = m.finish_param();
    if s.len() == 0 {
        assert(fin.params =~= all);
    } else if e.len() < MAX_PARAMS {
        assert(fin.params =~= all);
    } else if e.len() == MAX_PARAMS {
        assert(all.take(MAX_PARAMS as int) =~= e);
    } else {
        assert(all.take(MAX_PARAMS as int) =~= e.take(MAX_PARAMS as int));
    }
}

/// The final byte of a control sequence or of the first part of a device control
/// string hands on the parameters and the intermediates held.
proof fn lemma_final_byte(m: ParserModel, dcs: bool, f: u8)
    requires
        m.state == entry_state(dcs) || m.state == param_state(dcs) || m.state
            == collecting_state(entry_state(dcs)),
        0x40 <= f <= 0x7e,
    ensures
        m.step(f).0.state == final_state(dcs),
        m.step(f).1 == seq![
            sequence_event(
                dcs,
                m.finish_param().params,
                m.intermediates,
                m.ignored_excess_intermediates,
                f,
            ),
        ],
{
    reveal(ParserModel::step);
    assert(m.step(f).1 =~= seq![
        sequence_event(
            dcs,
            m.finish_param().params,
            m.intermediates,
            m.ignored_excess_intermediates,
            f,
        ),
    ]);
}

/// A control sequence (`dcs` false) or the first part of a device control string
/// (`dcs` true), from every state outside a UTF-8 sequence (one that parsing
/// reaches, for a C1 introducer), hands on what its introduction ends, then
/// `csi_params(s)`, the first two of its intermediates (private marker included)
/// and whether there were more.
proof fn lemma_sequence(
    m: ParserModel,
    dcs: bool,
    c1: bool,
    pm: Seq<u8>,
    s: Seq<u8>,
    xs: Seq<u8>,
    f: u8,
)
    requires
        m.state != State::Utf8Sequence,
        c1 ==> m.wf(),
        private_marker(pm),
        all_param_bytes(s),
        all_intermediates(xs),
        0x40 <= f <= 0x7e,
    ensures
        m.run(introduction(dcs, c1) + pm + s + xs + seq![f]).0.state == final_state(dcs),
        m.run(introduction(dcs, c1) + pm + s + xs + seq![f]).1 == m.leaving_events().push(
            sequence_event(
                dcs,
                csi_params(s),
                kept_intermediates(pm + xs),
                pm.len() + xs.len() > MAX_INTERMEDIATES,
                f,
            ),
        ),
{
    let intro = introduction(dcs, c1);
    lemma_introducer(m, dcs, c1);
    let m1 = m.run(intro).0;
    if pm.len() == 1 {
        lemma_private_marker(m1, dcs, pm[0]);
        lemma_run_single(m1, pm[0]);
        assert(pm =~= seq![pm[0]]);
    } else {
        assert(pm =~= Seq::<u8>::empty());
        assert(m1.run(pm) == (m1, Seq::<VTEvent>::empty()));
    }
    law_parse_in_pieces(m, intro, pm);
    let m2 = m1.run(pm).0;
    assert(csi_collected(m2, dcs, pm, Seq::<u8>::empty()));
    lemma_csi_collect(m2, dcs, pm, s);
    let m3 = m2.run(s).0;
    law_parse_in_pieces(m, intro + pm, s);
    lemma_csi_finish(m3, dcs, pm, s);
    let mx = m3.run(xs).0;
    if xs.len() == 0 {
        assert(xs =~= Seq::<u8>::empty());
        assert(m3.run(xs) == (m3, Seq::<VTEvent>::empty()));
        assert(pm + xs =~= pm);
    } else {
        lemma_collect(m3, xs);
    }
    law_parse_in_pieces(m, intro + pm + s, xs);
    assert(mx.finish_param().params == m3.finish_param().params);
    lemma_final_byte(mx, dcs, f);
    lemma_run_single(mx, f);
    law_parse_in_pieces(m, intro + pm + s + xs, seq![f]);
    assert(m1.run(pm).1 + m2.run(s).1 + m3.run(xs).1 =~= Seq::<VTEvent>::empty());
    assert(m.run(intro + pm + s + xs + seq![f]).1 =~= m.leaving_events() + mx.step(f).1);
}

/// Parameters are decimal integers separated by `;`, an omitted one (the last one
/// included) is zero, and at most sixteen are kept; of the intermediates, a private
/// marker included, the first two are kept and the flag is set when there are more:
/// from the ground state, `ESC [`, a private marker `pm` (0x3c to 0x3f, or none),
/// parameter bytes `s` (digits and `;`), intermediates `xs` (0x20 to 0x2f, possibly
/// none) and a final byte dispatch that final byte with `csi_params(s)` and
/// `kept_intermediates(pm + xs)`, and the parser is back in the ground state.
pub proof fn law_csi_params(m: ParserModel, pm: Seq<u8>, s: Seq<u8>, xs: Seq<u8>, f: u8)
    requires
        m.state == State::Ground,
        private_marker(pm),
        all_param_bytes(s),
        all_intermediates(xs),
        0x40 <= f <= 0x7e,
    ensures
        m.run(seq![0x1bu8, 0x5bu8] + pm + s + xs + seq![f]).0.state == State::Ground,
        m.run(seq![0x1bu8, 0x5bu8] + pm + s + xs + seq![f]).1 == seq![
            VTEvent::CsiDispatch {
                params: csi_params(s),
                intermediates: kept_intermediates(pm + xs),
                ignored_excess_intermediates: pm.len() + xs.len() > MAX_INTERMEDIATES,
                byte: f,
            },
        ],
{
    lemma_sequence(m, false, false, pm, s, xs, f);
    assert(m.leaving_events().push(
        VTEvent::CsiDispatch {
            params: csi_params(s),
            intermediates: kept_intermediates(pm + xs),
            ignored_excess_intermediates: pm.len() + xs.len() > MAX_INTERMEDIATES,
            byte: f,
        },
    ) =~= seq![
        VTEvent::CsiDispatch {
            params: csi_params(s),
            intermediates: kept_intermediates(pm + xs),
            ignored_excess_intermediates: pm.len() + xs.len() > MAX_INTERMEDIATES,
            byte: f,
        },
    ]);
}

/// The first part of a device control string hooks its handler as a control
/// sequence dispatches: from the ground state, `ESC P`, a private marker `pm`,
/// parameter bytes `s`, intermediates `xs` and a final byte hook the handler with
/// `csi_params(s)` and `kept_intermediates(pm + xs)`, and the parser passes on the
/// data of the string.
pub proof fn law_dcs_params(m: ParserModel, pm: Seq<u8>, s: Seq<u8>, xs: Seq<u8>, f: u8)
    requires
        m.state == State::Ground,
        private_marker(pm),
        all_param_bytes(s),
        all_intermediates(xs),
        0x40 <= f <= 0x7e,
    ensures
        m.run(seq![0x1bu8, 0x50u8] + pm + s + xs + seq![f]).0.state == State::DcsPassthrough,
        m.run(seq![0x1bu8, 0x50u8] + pm + s + xs + seq![f]).1 == seq![
            VTEvent::DcsHook {
                params: csi_params(s),
                intermediates: kept_intermediates(pm + xs),
                ignored_excess_intermediates: pm.len() + xs.len() > MAX_INTERMEDIATES,
            },
        ],
{
    lemma_sequence(m, true, false, pm, s, xs, f);
    assert(m.leaving_events().push(
        VTEvent::DcsHook {
            params: csi_params(s),
            intermediates: kept_intermediates(pm + xs),
            ignored_excess_intermediates: pm.len() + xs.len() > MAX_INTERMEDIATES,
        },
    ) =~= seq![
        VTEvent::DcsHook {
            params: csi_params(s),
            intermediates: kept_intermediates(pm + xs),
            ignored_excess_intermediates: pm.len() + xs.len() > MAX_INTERMEDIATES,
        },
    ]);
}

/// A control sequence starts afresh from every state that parsing reaches outside
/// a UTF-8 sequence, whatever was collected before: its introducer (`ESC [`, or the
/// C1 control CSI when `c1`), a private marker `pm`, parameter bytes `s`,
/// intermediates `xs` and a final byte hand on what the introducer ends, then
/// dispatch that final byte with `csi_params(s)` and `kept_intermediates(pm + xs)`,
/// and the parser is back in the ground state.
pub proof fn law_csi_from_any_state(
    m: ParserModel,
    c1: bool,
    pm: Seq<u8>,
    s: Seq<u8>,
    xs: Seq<u8>,
    f: u8,
)
    requires
        m.wf(),
        m.state != State::Utf8Sequence,
        private_marker(pm),
        all_param_bytes(s),
        all_intermediates(xs),
        0x40 <= f <= 0x7e,
    ensures
        ({
            let bytes = (if c1 {
                seq![0x9bu8]
            } else {
                seq![0x1bu8, 0x5bu8]
            }) + pm + s + xs + seq![f];
            &&& m.run(bytes).0.state == State::Ground
            &&& m.run(bytes).1 == m.leaving_events().push(
                VTEvent::CsiDispatch {
                    params: csi_params(s),
                    intermediates: kept_intermediates(pm + xs),
                    ignored_excess_intermediates: pm.len() + xs.len() > MAX_INTERMEDIATES,
                    byte: f,
                },
            )
        }),
{
    lemma_sequence(m, false, c1, pm, s, xs, f);
    assert(introduction(false, c1) =~= if c1 {
        seq![0x9bu8]
    } else {
        seq![0x1bu8, 0x5bu8]
    });
}

/// A device control string starts afresh from every state that parsing reaches
/// outside a UTF-8 sequence, whatever was collected before: its introducer
/// (`ESC P`, or the C1 control DCS when `c1`), a private marker `pm`, parameter
/// bytes `s`, intermediates `xs` and a final byte hand on what the introducer ends,
/// then hook the handler with `csi_params(s)` and `kept_intermediates(pm + xs)`,
/// and the parser passes on the data of the string.
pub proof fn law_dcs_from_any_state(
    m: ParserModel,
    c1: bool,
    pm: Seq<u8>,
    s: Seq<u8>,
    xs: Seq<u8>,
    f: u8,
)
    requires
        m.wf(),
        m.state != State::Utf8Sequence,
        private_marker(pm),
        all_param_bytes(s),
        all_intermediates(xs),
        0x40 <= f <= 0x7e,
    ensures
        ({
            let bytes = (if c1 {
                seq![0x90u8]
            } else {
                seq![0x1bu8, 0x50u8]
            }) + pm + s + xs + seq![f];
            &&& m.run(bytes).0.state == State::DcsPassthrough
            &&& m.run(bytes).1 == m.leaving_events().push(
                VTEvent::DcsHook {
                    params: csi_params(s),
                    intermediates: kept_intermediates(pm + xs),
                    ignored_excess_intermediates: pm.len() + xs.len() > MAX_INTERMEDIATES,
                },
            )
        }),
{
    lemma_sequence(m, true, c1, pm, s, xs, f);
    assert(introduction(true, c1) =~= if c1 {
        seq![0x90u8]
    } else {
        seq![0x1bu8, 0x50u8]
    });
}

} // verus!
