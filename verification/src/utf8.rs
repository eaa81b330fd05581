use vstd::prelude::*;

verus! {

/// What a UTF-8 decoder signals while it takes one byte.
#[derive(Debug, Clone, Copy, PartialEq, Eq, Structural)]
pub enum Utf8Outcome {
    /// The byte was taken as part of a sequence that is not complete yet.
    Incomplete,
    /// The byte completed the encoding of this character.
    Codepoint(char),
    /// The byte made the sequence invalid; the decoder starts afresh after it.
    Invalid,
}

/// Receives what a `utf8parse::Parser` signals for one byte.
struct Utf8Sink {
    outcome: Utf8Outcome,
}

impl View for Utf8Sink {
    type V = Utf8Outcome;

    /// The outcome recorded for the byte taken last.
    closed spec fn view(&self) -> Utf8Outcome {
        self.outcome
    }
}

impl utf8parse::Receiver for Utf8Sink {
    fn codepoint(&mut self, c: char)
        ensures
            final(self)@ == Utf8Outcome::Codepoint(c),
    {
        self.outcome = Utf8Outcome::Codepoint(c);
    }

    fn invalid_sequence(&mut self)
        ensures
            final(self)@ == Utf8Outcome::Invalid,
    {
        self.outcome = Utf8Outcome::Invalid;
    }
}

/// Whether `bytes` is a proper, non-empty beginning of the UTF-8 encoding of `c`.
pub open spec fn starts_encoding(bytes: Seq<u8>, c: char) -> bool {
    let e = vstd::utf8::encode_scalar(c as u32);
    &&& 0 < bytes.len() < e.len()
    &&& bytes == e.take(bytes.len() as int)
}

/// Whether `bytes` is a proper, non-empty beginning of the UTF-8 encoding of some
/// character.
pub open spec fn utf8_partial(bytes: Seq<u8>) -> bool {
    exists|c: char| #[trigger] starts_encoding(bytes, c)
}

/// Whether `bytes` is the whole UTF-8 encoding of some character.
pub open spec fn utf8_whole(bytes: Seq<u8>) -> bool {
    exists|c: char| bytes == #[trigger] vstd::utf8::encode_scalar(c as u32)
}

/// Every lead byte (`0xc2` to `0xf4`) begins the encoding of some character.
pub proof fn lemma_lead_byte_partial(b: u8)
    requires
        0xc2 <= b <= 0xf4,
    ensures
        utf8_partial(seq![b]),
{
    let v: u32 = if b <= 0xdf {
        (b as u32 & 0x1f) << 6
    } else if b == 0xe0 {
        0x800
    } else if b <= 0xef {
        (b as u32 & 0x0f) << 12
    } else if b == 0xf0 {
        0x10000
    } else {
        (b as u32 & 0x07) << 18
    };
    if b <= 0xdf {
        assert(0x80 <= v && v <= 0x7ff) by (bit_vector)
            requires
                0xc2 <= b <= 0xdf,
                v == (b as u32 & 0x1f) << 6,
        ;
        assert((0xC0 | ((v >> 6) & 0x1F) as u8) == b) by (bit_vector)
            requires
                0xc2 <= b <= 0xdf,
                v == (b as u32 & 0x1f) << 6,
        ;
    } else if b == 0xe0 {
        assert((0xE0 | ((v >> 12) & 0x0F) as u8) == b) by (bit_vector)
            requires
                b == 0xe0,
                v == 0x800,
        ;
    } else if b <= 0xef {
        assert(0x1000 <= v && v <= 0xf000 && (v <= 0xd7ff || 0xe000 <= v) && (0xE0 | ((v >> 12)
            & 0x0F) as u8) == b) by (bit_vector)
            requires
                0xe1 <= b <= 0xef,
                v == (b as u32 & 0x0f) << 12,
        ;
    } else if b == 0xf0 {
        assert((0xF0 | ((v >> 18) & 0x7) as u8) == b) by (bit_vector)
            requires
                b == 0xf0,
                v == 0x10000,
        ;
    } else {
        assert(0x40000 <= v <= 0x100000 && (0xF0 | ((v >> 18) & 0x7) as u8) == b) by (bit_vector)
            requires
                0xf1 <= b <= 0xf4,
                v == (b as u32 & 0x07) << 18,
        ;
    }
    assert(v <= 0xd7ff || (0xe000 <= v && v <= 0x10ffff));
    let c = v as char;
    assert(c as u32 == v);
    let e = vstd::utf8::encode_scalar(c as u32);
    assert(e.len() >= 2);
    assert(seq![b] =~= e.take(1));
    assert(starts_encoding(seq![b], c));
}

/// The number of bytes of an encoding that starts with the lead byte `b`.
pub open spec fn lead_width(b: u8) -> nat {
    if b < 0x80 {
        1
    } else if b < 0xe0 {
        2
    } else if b < 0xf0 {
        3
    } else {
        4
    }
}

/// The first byte of the encoding of `c` tells how long the encoding is.
pub proof fn lemma_encoding_width(c: char)
    ensures
        vstd::utf8::encode_scalar(c as u32).len() == lead_width(
            vstd::utf8::encode_scalar(c as u32)[0],
        ),
{
    let v = c as u32;
    vstd::utf8::char_is_scalar(c);
    if v <= 0x7f {
        assert(((v & 0x7F) as u8) < 0x80) by (bit_vector);
    } else if v <= 0x7ff {
        assert(0xc0 <= (0xC0 | ((v >> 6) & 0x1F) as u8) < 0xe0) by (bit_vector);
    } else if v <= 0xffff {
        assert(0xe0 <= (0xE0 | ((v >> 12) & 0x0F) as u8) < 0xf0) by (bit_vector);
    } else {
        assert(0xf0 <= (0xF0 | ((v >> 18) & 0x7) as u8)) by (bit_vector);
    }
}

/// Two characters with the same encoding are the same character.
pub proof fn lemma_encoding_injective(c1: char, c2: char)
    requires
        vstd::utf8::encode_scalar(c1 as u32) == vstd::utf8::encode_scalar(c2 as u32),
    ensures
        c1 == c2,
{
    let s1 = seq![c1];
    let s2 = seq![c2];
    assert(s1.drop_first() =~= Seq::<char>::empty());
    assert(s2.drop_first() =~= Seq::<char>::empty());
    assert(vstd::utf8::encode_utf8(Seq::<char>::empty()) =~= Seq::<u8>::empty());
    assert(s1[0] == c1 && s2[0] == c2);
    assert(vstd::utf8::encode_utf8(s1) =~= vstd::utf8::encode_scalar(c1 as u32));
    assert(vstd::utf8::encode_utf8(s2) =~= vstd::utf8::encode_scalar(c2 as u32));
    vstd::utf8::encode_utf8_first_scalar(s1);
    vstd::utf8::encode_utf8_first_scalar(s2);
    vstd::utf8::char_u32_cast(c1, c1 as u32);
    vstd::utf8::char_u32_cast(c2, c2 as u32);
}

/// The character whose whole encoding `bytes` is (there is at most one).
pub open spec fn decoded_char(bytes: Seq<u8>) -> char {
    choose|c: char| bytes == #[trigger] vstd::utf8::encode_scalar(c as u32)
}

/// What a UTF-8 decoder that starts afresh signals on the last of `bytes`, as
/// well-formed UTF-8 says: the whole encoding of a character gives that character,
/// a proper beginning of one gives nothing yet, and anything else is invalid.
pub open spec fn utf8_outcome(bytes: Seq<u8>) -> Utf8Outcome {
    if utf8_whole(bytes) {
        Utf8Outcome::Codepoint(decoded_char(bytes))
    } else if utf8_partial(bytes) {
        Utf8Outcome::Incomplete
    } else {
        Utf8Outcome::Invalid
    }
}

/// The inputs that the parser hands to the decoder: a single byte, or a proper
/// beginning of an encoding followed by one more byte.
pub open spec fn utf8_fed(bytes: Seq<u8>) -> bool {
    bytes.len() == 1 || (bytes.len() >= 2 && utf8_partial(bytes.drop_last()))
}

/// The whole encoding of `c` decodes to `c`.
pub proof fn lemma_outcome_of_encoding(c: char)
    ensures
        utf8_outcome(vstd::utf8::encode_scalar(c as u32)) == Utf8Outcome::Codepoint(c),
{
    let e = vstd::utf8::encode_scalar(c as u32);
    assert(utf8_whole(e));
    let d = decoded_char(e);
    lemma_encoding_injective(d, c);
}

/// A proper beginning of the encoding of `c` decodes to nothing yet: no encoding is
/// a proper beginning of another.
pub proof fn lemma_outcome_of_beginning(c: char, k: int)
    requires
        1 <= k < vstd::utf8::encode_scalar(c as u32).len(),
    ensures
        utf8_outcome(vstd::utf8::encode_scalar(c as u32).take(k)) == Utf8Outcome::Incomplete,
{
    let e = vstd::utf8::encode_scalar(c as u32);
    let p = e.take(k);
    assert(starts_encoding(p, c));
    if utf8_whole(p) {
        let d = choose|d: char| p == #[trigger] vstd::utf8::encode_scalar(d as u32);
        lemma_encoding_width(c);
        lemma_encoding_width(d);
        assert(p[0] == e[0]);
    }
}

/// A lone lead byte (`0xc2` to `0xf4`) decodes to nothing yet.
pub proof fn lemma_outcome_of_lead_byte(b: u8)
    requires
        0xc2 <= b <= 0xf4,
    ensures
        utf8_outcome(seq![b]) == Utf8Outcome::Incomplete,
{
    lemma_lead_byte_partial(b);
    if utf8_whole(seq![b]) {
        let d = choose|d: char| seq![b] == #[trigger] vstd::utf8::encode_scalar(d as u32);
        lemma_encoding_width(d);
    }
}

/// Feeds `bytes` in order to a new `utf8parse::Parser` (`Parser::new`, then
/// `Parser::advance` once per byte) and returns what the parser signalled to its
/// receiver while taking the last byte: `codepoint(c)`, `invalid_sequence()`, or
/// neither.
///
/// Trusted: on the inputs that the parser hands to it (`utf8_fed`: a single byte,
/// or a proper beginning of an encoding and one more byte) the result is as
/// well-formed UTF-8 says (`utf8_outcome`), because the parser's state table
/// (`State::advance`) accepts exactly the well-formed UTF-8 sequences: the code
/// point of a whole encoding (an ASCII byte is one), nothing for a proper beginning
/// of one, and an invalid sequence otherwise (the byte is consumed and the parser
/// starts afresh).
#[verifier::external_body]
pub(crate) fn utf8_decode(bytes: &[u8]) -> (r: Utf8Outcome)
    requires
        utf8_fed(bytes@),
    ensures
        r == utf8_outcome(bytes@),
{
    let mut parser = utf8parse::Parser::new();
    let mut sink = Utf8Sink { outcome: Utf8Outcome::Incomplete };
    for byte in bytes {
        sink.outcome = Utf8Outcome::Incomplete;
        parser.advance(&mut sink, *byte);
    }
    sink.outcome
}

/// Appends the UTF-8 encoding of `c` to `buf`.
pub fn push_utf8(buf: &mut Vec<u8>, c: char)
    ensures
        final(buf)@ == old(buf)@ + vstd::utf8::encode_scalar(c as u32),
{
    proof {
        vstd::utf8::char_is_scalar(c);
    }
    let v = c as u32;
    if v <= 0x7F {
        buf.push((v & 0x7F) as u8);
    } else if v <= 0x7FF {
        buf.push(0xC0 | ((v >> 6) & 0x1F) as u8);
        buf.push(0x80 | (v & 0x3F) as u8);
    } else if v <= 0xFFFF {
        buf.push(0xE0 | ((v >> 12) & 0x0F) as u8);
        buf.push(0x80 | ((v >> 6) & 0x3F) as u8);
        buf.push(0x80 | (v & 0x3F) as u8);
    } else {
        buf.push(0xF0 | ((v >> 18) & 0x7) as u8);
        buf.push(0x80 | ((v >> 12) & 0x3F) as u8);
        buf.push(0x80 | ((v >> 6) & 0x3F) as u8);
        buf.push(0x80 | (v & 0x3F) as u8);
    }
}

} // verus!
