//! One digit of a seven-segment display and the byte that lights it.
//!
//! The display hangs off the eight outputs of a shift register, one segment
//! per output. Which output drives which segment is a matter of wiring and is
//! fixed in [`Segment::to_index`].

use vstd::prelude::*;
use crate::bits::{
    bit_of,
    single_bit,
    lemma_bits_determine_byte,
    lemma_or_bits,
    lemma_single_bit,
    lemma_zero_has_no_bit,
};

verus! {

/// A segment of the display: the seven bars `A` to `G` and the decimal point.
#[derive(Clone, Copy, Debug, PartialEq, Eq, Structural)]
pub enum Segment {
    A,
    B,
    C,
    D,
    E,
    F,
    G,
    DP,
}

impl Segment {
    /// The output, and so the bit of a pattern, that this segment is wired to.
    pub open spec fn index(self) -> u8 {
        match self {
            Segment::A => 4,
            Segment::B => 3,
            Segment::C => 2,
            Segment::D => 1,
            Segment::E => 0,
            Segment::F => 6,
            Segment::G => 7,
            Segment::DP => 5,
        }
    }

    /// The pattern that lights this segment alone.
    pub open spec fn mask(self) -> u8 {
        single_bit(self.index())
    }

    /// Maps the segment to the index of its bit in a pattern.
    pub fn to_index(&self) -> (index: usize)
        ensures
            index == self.index(),
            index < 8,
    {
        match self {
            Segment::A => 4,
            Segment::B => 3,
            Segment::C => 2,
            Segment::D => 1,
            Segment::E => 0,
            Segment::F => 6,
            Segment::G => 7,
            Segment::DP => 5,
        }
    }
}

/// The segment that is wired to bit `index` of a pattern.
pub open spec fn segment_at(index: u8) -> Segment {
    if index == 0 {
        Segment::E
    } else if index == 1 {
        Segment::D
    } else if index == 2 {
        Segment::C
    } else if index == 3 {
        Segment::B
    } else if index == 4 {
        Segment::A
    } else if index == 5 {
        Segment::DP
    } else if index == 6 {
        Segment::F
    } else {
        Segment::G
    }
}

/// Whether `pattern` lights `segment`.
pub open spec fn is_lit(pattern: u8, segment: Segment) -> bool {
    bit_of(pattern, segment.index())
}

/// The bars that form the numeral `decimal`; none for a value that is no
/// decimal digit.
pub open spec fn glyph(decimal: u8) -> Seq<Segment> {
    if decimal == 0 {
        seq![Segment::A, Segment::B, Segment::C, Segment::D, Segment::E, Segment::F]
    } else if decimal == 1 {
        seq![Segment::B, Segment::C]
    } else if decimal == 2 {
        seq![Segment::A, Segment::B, Segment::D, Segment::E, Segment::G]
    } else if decimal == 3 {
        seq![Segment::A, Segment::B, Segment::C, Segment::D, Segment::G]
    } else if decimal == 4 {
        seq![Segment::B, Segment::C, Segment::F, Segment::G]
    } else if decimal == 5 {
        seq![Segment::A, Segment::C, Segment::D, Segment::F, Segment::G]
    } else if decimal == 6 {
        seq![Segment::A, Segment::C, Segment::D, Segment::E, Segment::F, Segment::G]
    } else if decimal == 7 {
        seq![Segment::A, Segment::B, Segment::C]
    } else if decimal == 8 {
        seq![Segment::A, Segment::B, Segment::C, Segment::D, Segment::E, Segment::F, Segment::G]
    } else if decimal == 9 {
        seq![Segment::A, Segment::B, Segment::C, Segment::D, Segment::F, Segment::G]
    } else {
        seq![]
    }
}

/// The pattern that lights the first `count` of `segments` and nothing else.
pub open spec fn pattern_of_first(segments: Seq<Segment>, count: int) -> u8
    decreases count,
{
    if count <= 0 {
        0
    } else {
        pattern_of_first(segments, count - 1) | segments[count - 1].mask()
    }
}

/// The pattern that lights exactly the given segments.
pub open spec fn pattern_of(segments: Seq<Segment>) -> u8 {
    pattern_of_first(segments, segments.len() as int)
}

/// The pattern of the decimal point where `dot` is set, else the empty one.
pub open spec fn dot_pattern(dot: bool) -> u8 {
    if dot {
        Segment::DP.mask()
    } else {
        0
    }
}

/// The byte that shows a digit: the bars of `decimal` while the digit is on,
/// and the decimal point whenever `dot` is set, be the digit on or off.
pub open spec fn encode(decimal: u8, dot: bool, on: bool) -> u8 {
    pattern_of(
        if on {
            glyph(decimal)
        } else {
            Seq::empty()
        },
    ) | dot_pattern(dot)
}

/// Whether a digit with these attributes shows `segment`.
pub open spec fn shows(decimal: u8, dot: bool, on: bool, segment: Segment) -> bool {
    if segment == Segment::DP {
        dot
    } else {
        on && glyph(decimal).contains(segment)
    }
}

/// A pattern built from segments lights a segment exactly when that segment
/// is among those it was built from.
pub proof fn lemma_pattern_lights(segments: Seq<Segment>, count: int, segment: Segment)
    requires
        0 <= count <= segments.len(),
    ensures
        is_lit(pattern_of_first(segments, count), segment) <==> exists|i: int|
            0 <= i < count && segments[i] == segment,
    decreases count,
{
    if count == 0 {
        lemma_zero_has_no_bit(segment.index());
    } else {
        let rest = pattern_of_first(segments, count - 1);
        let last = segments[count - 1];
        lemma_pattern_lights(segments, count - 1, segment);
        lemma_or_bits(rest, last.mask(), segment.index());
        lemma_single_bit(last.index(), segment.index());
        if is_lit(pattern_of_first(segments, count), segment) {
            if is_lit(rest, segment) {
                let i = choose|i: int| 0 <= i < count - 1 && segments[i] == segment;
                assert(0 <= i < count && segments[i] == segment);
            } else {
                assert(last == segment);
                assert(0 <= count - 1 < count && segments[count - 1] == segment);
            }
        }
        if exists|i: int| 0 <= i < count && segments[i] == segment {
            let i = choose|i: int| 0 <= i < count && segments[i] == segment;
            if i < count - 1 {
                assert(0 <= i < count - 1 && segments[i] == segment);
            }
        }
    }
}

/// No numeral is drawn with the decimal point.
pub proof fn lemma_glyph_has_no_dot(decimal: u8)
    ensures
        !glyph(decimal).contains(Segment::DP),
{
    let bars = glyph(decimal);
    assert forall|i: int| 0 <= i < bars.len() implies bars[i] != Segment::DP by {}
}

/// The wiring, bit for bit: an encoded digit lights the decimal point exactly
/// when `dot` is set, and a bar exactly when the digit is on and the bar
/// belongs to its numeral. The eight segments sit on eight distinct bits, so
/// this fixes the whole byte.
pub proof fn lemma_encode_shows(decimal: u8, dot: bool, on: bool, segment: Segment)
    ensures
        is_lit(encode(decimal, dot, on), segment) <==> shows(decimal, dot, on, segment),
{
    let bars = if on {
        glyph(decimal)
    } else {
        Seq::empty()
    };
    lemma_pattern_lights(bars, bars.len() as int, segment);
    lemma_or_bits(pattern_of(bars), dot_pattern(dot), segment.index());
    lemma_glyph_has_no_dot(decimal);
    if dot {
        lemma_single_bit(Segment::DP.index(), segment.index());
    } else {
        lemma_zero_has_no_bit(segment.index());
    }
    if bars.contains(segment) {
        let i = choose|i: int| 0 <= i < bars.len() && bars[i] == segment;
        assert(0 <= i < bars.len() && bars[i] == segment);
    }
}

/// The wiring leaves no choice: a byte that lights just the segments that a
/// digit shows is the digit's encoding.
pub proof fn lemma_encode_is_determined(decimal: u8, dot: bool, on: bool, pattern: u8)
    requires
        forall|segment: Segment| #[trigger]
            is_lit(pattern, segment) <==> shows(decimal, dot, on, segment),
    ensures
        pattern == encode(decimal, dot, on),
{
    let encoded = encode(decimal, dot, on);
    assert forall|index: u8| index < 8 implies bit_of(pattern, index) == bit_of(
        encoded,
        index,
    ) by {
        let segment = segment_at(index);
        assert(segment.index() == index);
        assert(is_lit(pattern, segment) <==> shows(decimal, dot, on, segment));
        lemma_encode_shows(decimal, dot, on, segment);
    }
    lemma_bits_determine_byte(pattern, encoded);
}

/// The ten numerals as bytes, bars only; zero for a value that is no decimal
/// digit.
pub open spec fn numeral_byte(decimal: u8) -> u8 {
    if decimal == 0 {
        0b0101_1111
    } else if decimal == 1 {
        0b0000_1100
    } else if decimal == 2 {
        0b1001_1011
    } else if decimal == 3 {
        0b1001_1110
    } else if decimal == 4 {
        0b1100_1100
    } else if decimal == 5 {
        0b1101_0110
    } else if decimal == 6 {
        0b1101_0111
    } else if decimal == 7 {
        0b0001_1100
    } else if decimal == 8 {
        0b1101_1111
    } else if decimal == 9 {
        0b1101_1110
    } else {
        0
    }
}

/// The bars of each numeral, put on their wires, give the byte that
/// [`numeral_byte`] lists for it.
pub proof fn lemma_numeral_bytes(decimal: u8)
    ensures
        pattern_of(glyph(decimal)) == numeral_byte(decimal),
{
    reveal_with_fuel(pattern_of_first, 8);
    let a: u8 = 1u8 << 4u8;
    let b: u8 = 1u8 << 3u8;
    let c: u8 = 1u8 << 2u8;
    let d: u8 = 1u8 << 1u8;
    let e: u8 = 1u8 << 0u8;
    let f: u8 = 1u8 << 6u8;
    let g: u8 = 1u8 << 7u8;
    assert(a == 16 && b == 8 && c == 4 && d == 2 && e == 1 && f == 64 && g == 128)
        by (bit_vector)
        requires
            a == 1u8 << 4u8,
            b == 1u8 << 3u8,
            c == 1u8 << 2u8,
            d == 1u8 << 1u8,
            e == 1u8 << 0u8,
            f == 1u8 << 6u8,
            g == 1u8 << 7u8,
    ;
    if decimal == 0 {
        assert((((((0u8 | 16) | 8) | 4) | 2) | 1) | 64 == 0b0101_1111) by (bit_vector);
    } else if decimal == 1 {
        assert((0u8 | 8) | 4 == 0b0000_1100) by (bit_vector);
    } else if decimal == 2 {
        assert(((((0u8 | 16) | 8) | 2) | 1) | 128 == 0b1001_1011) by (bit_vector);
    } else if decimal == 3 {
        assert(((((0u8 | 16) | 8) | 4) | 2) | 128 == 0b1001_1110) by (bit_vector);
    } else if decimal == 4 {
        assert((((0u8 | 8) | 4) | 64) | 128 == 0b1100_1100) by (bit_vector);
    } else if decimal == 5 {
        assert(((((0u8 | 16) | 4) | 2) | 64) | 128 == 0b1101_0110) by (bit_vector);
    } else if decimal == 6 {
        assert((((((0u8 | 16) | 4) | 2) | 1) | 64) | 128 == 0b1101_0111) by (bit_vector);
    } else if decimal == 7 {
        assert(((0u8 | 16) | 8) | 4 == 0b0001_1100) by (bit_vector);
    } else if decimal == 8 {
        assert(((((((0u8 | 16) | 8) | 4) | 2) | 1) | 64) | 128 == 0b1101_1111) by (bit_vector);
    } else if decimal == 9 {
        assert((((((0u8 | 16) | 8) | 4) | 2) | 64) | 128 == 0b1101_1110) by (bit_vector);
    }
}

/// An encoded digit in numbers: the byte of its numeral while the digit is
/// on, plus 32 for the decimal point.
pub proof fn lemma_encode_byte(decimal: u8, dot: bool, on: bool)
    ensures
        encode(decimal, dot, on) == (if on {
            numeral_byte(decimal)
        } else {
            0u8
        }) + (if dot {
            32int
        } else {
            0int
        }),
{
    lemma_numeral_bytes(decimal);
    lemma_dot_pattern(dot);
    let bars: u8 = if on {
        numeral_byte(decimal)
    } else {
        0u8
    };
    assert(bars & 32 == 0 ==> bars | 32 == bars + 32 && bars | 0 == bars) by (bit_vector);
    assert(bars & 32 == 0) by (bit_vector)
        requires
            bars == 0 || bars == 0b0101_1111 || bars == 0b0000_1100 || bars == 0b1001_1011 || bars
                == 0b1001_1110 || bars == 0b1100_1100 || bars == 0b1101_0110 || bars
                == 0b1101_0111 || bars == 0b0001_1100 || bars == 0b1101_1111 || bars
                == 0b1101_1110,
    ;
}

/// The byte of the decimal point alone, and of nothing at all.
pub proof fn lemma_dot_pattern(dot: bool)
    ensures
        dot_pattern(dot) == if dot {
            0b0010_0000u8
        } else {
            0u8
        },
{
    assert(1u8 << 5u8 == 0b0010_0000) by (bit_vector);
}

/// A digit that is off, or whose value is no decimal digit, shows no bar:
/// its byte is that of the decimal point alone.
pub proof fn lemma_blank(decimal: u8, dot: bool, on: bool)
    requires
        !on || decimal > 9,
    ensures
        encode(decimal, dot, on) == dot_pattern(dot),
        forall|segment: Segment|
            segment != Segment::DP ==> !#[trigger] is_lit(encode(decimal, dot, on), segment),
{
    let blank = dot_pattern(dot);
    assert(0u8 | blank == blank) by (bit_vector);
    assert forall|segment: Segment| segment != Segment::DP implies !#[trigger] is_lit(
        encode(decimal, dot, on),
        segment,
    ) by {
        lemma_encode_shows(decimal, dot, on, segment);
    }
}

/// Bit 5 of an encoded digit is the decimal point and nothing else: it equals
/// `dot` whatever the digit, and `dot` moves no other bit.
pub proof fn lemma_dot_bit(decimal: u8, dot: bool, on: bool)
    ensures
        bit_of(encode(decimal, dot, on), 5) == dot,
        forall|index: u8|
            index < 8 && index != 5 ==> #[trigger] bit_of(encode(decimal, dot, on), index)
                == bit_of(encode(decimal, !dot, on), index),
{
    lemma_encode_shows(decimal, dot, on, Segment::DP);
    assert forall|index: u8| index < 8 && index != 5 implies #[trigger] bit_of(
        encode(decimal, dot, on),
        index,
    ) == bit_of(encode(decimal, !dot, on), index) by {
        let segment = segment_at(index);
        lemma_encode_shows(decimal, dot, on, segment);
        lemma_encode_shows(decimal, !dot, on, segment);
    }
}

/// A digit on a seven-segment display.
pub struct Digit {
    decimal: u8,
    on: bool,
    dot: bool,
}

impl Digit {
    /// The numeral to show.
    pub closed spec fn decimal(self) -> u8 {
        self.decimal
    }

    /// Whether the decimal point is lit.
    pub closed spec fn dot(self) -> bool {
        self.dot
    }

    /// Whether the bars are lit at all.
    pub closed spec fn on(self) -> bool {
        self.on
    }

    /// The byte that shows this digit.
    pub open spec fn encoding(self) -> u8 {
        encode(self.decimal(), self.dot(), self.on())
    }

    /// A digit that shows the numeral `decimal` while `on` is set, with the
    /// decimal point lit where `dot` is set.
    pub fn new(decimal: u8, dot: bool, on: bool) -> (digit: Self)
        ensures
            digit.decimal() == decimal,
            digit.dot() == dot,
            digit.on() == on,
    {
        Self { decimal, dot, on }
    }

    /// The bars of this digit's numeral, whether the digit is on or not.
    pub fn digit_to_segments(&self) -> (segments: Vec<Segment>)
        ensures
            segments@ == glyph(self.decimal()),
    {
        match self.decimal {
            0 => vec![Segment::A, Segment::B, Segment::C, Segment::D, Segment::E, Segment::F],
            1 => vec![Segment::B, Segment::C],
            2 => vec![Segment::A, Segment::B, Segment::D, Segment::E, Segment::G],
            3 => vec![Segment::A, Segment::B, Segment::C, Segment::D, Segment::G],
            4 => vec![Segment::B, Segment::C, Segment::F, Segment::G],
            5 => vec![Segment::A, Segment::C, Segment::D, Segment::F, Segment::G],
            6 => vec![Segment::A, Segment::C, Segment::D, Segment::E, Segment::F, Segment::G],
            7 => vec![Segment::A, Segment::B, Segment::C],
            8 => vec![
                Segment::A,
                Segment::B,
                Segment::C,
                Segment::D,
                Segment::E,
                Segment::F,
                Segment::G,
            ],
            9 => vec![Segment::A, Segment::B, Segment::C, Segment::D, Segment::F, Segment::G],
            _ => Vec::new(),
        }
    }

    /// The pattern that lights the given segments, and the decimal point where
    /// this digit has it set.
    pub fn segments_to_binary(&self, segments: &[Segment]) -> (binary: u8)
        ensures
            binary == pattern_of(segments@) | dot_pattern(self.dot()),
    {
        let mut binary: u8 = 0;
        let mut i: usize = 0;
        while i < segments.len()
            invariant
                i <= segments.len(),
                binary == pattern_of_first(segments@, i as int),
            decreases segments.len() - i,
        {
            binary |= 1u8 << segments[i].to_index();
            i += 1;
        }
        if self.dot {
            binary |= 1u8 << Segment::DP.to_index();
        } else {
            assert(binary | 0 == binary) by (bit_vector);
        }
        binary
    }

    /// Converts the digit to the byte that shows it: the bars of its numeral
    /// while it is on, none while it is off or its value is no decimal digit,
    /// and the decimal point on bit 5 whenever `dot` is set.
    pub fn to_binary(&self) -> (binary: u8)
        ensures
            binary == self.encoding(),
            binary == (if self.on() {
                numeral_byte(self.decimal())
            } else {
                0u8
            }) + (if self.dot() {
                32int
            } else {
                0int
            }),
            forall|segment: Segment| #[trigger]
                is_lit(binary, segment) <==> shows(
                    self.decimal(),
                    self.dot(),
                    self.on(),
                    segment,
                ),
            bit_of(binary, 5) == self.dot(),
    {
        let binary = if !self.on {
            let none: Vec<Segment> = Vec::new();
            self.segments_to_binary(none.as_slice())
        } else {
            let segments = self.digit_to_segments();
            self.segments_to_binary(segments.as_slice())
        };
        proof {
            lemma_encode_byte(self.decimal(), self.dot(), self.on());
            lemma_dot_bit(self.decimal(), self.dot(), self.on());
            assert forall|segment: Segment| #[trigger]
                is_lit(binary, segment) <==> shows(
                    self.decimal(),
                    self.dot(),
                    self.on(),
                    segment,
                ) by {
                lemma_encode_shows(self.decimal(), self.dot(), self.on(), segment);
            }
        }
        binary
    }
}

} // verus!
