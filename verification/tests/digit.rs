use cloc::digit::{Digit, Segment};

/// The byte with exactly the bits of the given outputs set.
fn byte_with(outputs: &[u32]) -> u8 {
    let mut byte: u8 = 0;
    for &output in outputs {
        byte |= 1u8 << output;
    }
    byte
}

/// The outputs that the bars of a numeral hang on: A=4, B=3, C=2, D=1, E=0,
/// F=6, G=7.
fn outputs_of(decimal: u8) -> Vec<u32> {
    match decimal {
        0 => vec![4, 3, 2, 1, 0, 6],
        1 => vec![3, 2],
        2 => vec![4, 3, 1, 0, 7],
        3 => vec![4, 3, 2, 1, 7],
        4 => vec![3, 2, 6, 7],
        5 => vec![4, 2, 1, 6, 7],
        6 => vec![4, 2, 1, 0, 6, 7],
        7 => vec![4, 3, 2],
        8 => vec![4, 3, 2, 1, 0, 6, 7],
        9 => vec![4, 3, 2, 1, 6, 7],
        _ => vec![],
    }
}

#[test]
fn segments_sit_on_their_wires() {
    assert_eq!(Segment::A.to_index(), 4);
    assert_eq!(Segment::B.to_index(), 3);
    assert_eq!(Segment::C.to_index(), 2);
    assert_eq!(Segment::D.to_index(), 1);
    assert_eq!(Segment::E.to_index(), 0);
    assert_eq!(Segment::F.to_index(), 6);
    assert_eq!(Segment::G.to_index(), 7);
    assert_eq!(Segment::DP.to_index(), 5);
}

#[test]
fn numerals_have_their_bytes() {
    let expected: [u8; 10] = [
        0b0101_1111,
        0b0000_1100,
        0b1001_1011,
        0b1001_1110,
        0b1100_1100,
        0b1101_0110,
        0b1101_0111,
        0b0001_1100,
        0b1101_1111,
        0b1101_1110,
    ];
    for decimal in 0u8..=9 {
        let binary = Digit::new(decimal, false, true).to_binary();
        assert_eq!(binary, expected[decimal as usize], "numeral {}", decimal);
    }
}

#[test]
fn numerals_match_the_wiring_bit_for_bit() {
    for decimal in 0u8..=9 {
        let binary = Digit::new(decimal, false, true).to_binary();
        assert_eq!(binary, byte_with(&outputs_of(decimal)), "numeral {}", decimal);
    }
}

#[test]
fn a_digit_that_is_off_shows_no_bar() {
    for decimal in 0u8..=255 {
        assert_eq!(Digit::new(decimal, false, false).to_binary(), 0b0000_0000);
        assert_eq!(Digit::new(decimal, true, false).to_binary() & 0b1101_1111, 0);
    }
}

#[test]
fn the_dot_shows_even_when_the_digit_is_off() {
    assert_eq!(Digit::new(7, true, false).to_binary(), 0b0010_0000);
}

#[test]
fn bit_five_is_the_dot_and_nothing_else() {
    for decimal in 0u8..=255 {
        for on in [false, true] {
            let plain = Digit::new(decimal, false, on).to_binary();
            let dotted = Digit::new(decimal, true, on).to_binary();
            assert_eq!(plain & 0b0010_0000, 0);
            assert_eq!(dotted & 0b0010_0000, 0b0010_0000);
            assert_eq!(plain, dotted & 0b1101_1111);
        }
    }
}

#[test]
fn a_value_that_is_no_digit_shows_no_bar() {
    assert_eq!(Digit::new(10, false, true).to_binary(), 0);
    assert_eq!(Digit::new(255, false, true).to_binary(), 0);
    assert_eq!(Digit::new(10, true, true).to_binary(), 0b0010_0000);
    for decimal in 10u8..=255 {
        assert_eq!(Digit::new(decimal, false, true).to_binary(), 0);
    }
}

#[test]
fn three_with_a_dot() {
    assert_eq!(Digit::new(3, true, true).to_binary(), 0b1011_1110);
}

#[test]
fn bars_of_the_numerals() {
    assert_eq!(Digit::new(1, false, true).digit_to_segments(), vec![Segment::B, Segment::C]);
    assert_eq!(
        Digit::new(7, false, false).digit_to_segments(),
        vec![Segment::A, Segment::B, Segment::C]
    );
    assert_eq!(
        Digit::new(8, true, true).digit_to_segments(),
        vec![
            Segment::A,
            Segment::B,
            Segment::C,
            Segment::D,
            Segment::E,
            Segment::F,
            Segment::G
        ]
    );
    assert_eq!(Digit::new(10, false, true).digit_to_segments(), Vec::<Segment>::new());
    for decimal in 0u8..=9 {
        let wires: Vec<u32> = Digit::new(decimal, false, true)
            .digit_to_segments()
            .iter()
            .map(|segment| segment.to_index() as u32)
            .collect();
        assert_eq!(wires, outputs_of(decimal));
    }
}

#[test]
fn segments_become_bits() {
    let plain = Digit::new(0, false, true);
    let dotted = Digit::new(0, true, true);
    assert_eq!(plain.segments_to_binary(&[]), 0);
    assert_eq!(dotted.segments_to_binary(&[]), 0b0010_0000);
    assert_eq!(plain.segments_to_binary(&[Segment::E]), 0b0000_0001);
    assert_eq!(plain.segments_to_binary(&[Segment::G, Segment::A]), 0b1001_0000);
    assert_eq!(plain.segments_to_binary(&[Segment::A, Segment::A]), 0b0001_0000);
    assert_eq!(dotted.segments_to_binary(&[Segment::F, Segment::D]), 0b0110_0010);
    assert_eq!(plain.segments_to_binary(&[Segment::DP]), 0b0010_0000);
}
