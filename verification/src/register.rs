//! What the device does with the signals it is sent, and what the driver's
//! scripts therefore achieve.
//!
//! The model is the one the data sheet draws: a shift register that takes
//! the level of `SER IN` on each rising edge of `SRCK`, and a storage
//! register, wired to the outputs, that takes a copy of the shift register on
//! each rising edge of `RCK`. A chain of devices is one long shift register,
//! so the model puts no end to it: stage 0 is the one next to the
//! controller, and a chain of `n` devices shows stages 0 to `8 * n - 1`.

use vstd::prelude::*;
use crate::bits::bit_of;
use crate::digit::{Segment, encode, shows, lemma_encode_shows};
use crate::tpic6b595::{
    Line,
    Lines,
    Signal,
    bit_script,
    bits_script,
    byte_script,
    bytes_script,
    bytes_script_first,
    init_script,
    latch_script,
    release_script,
};

verus! {

/// The state of a device, or of a chain of them.
pub struct Register {
    /// The levels that the lines were last brought to.
    pub lines: Lines,
    /// The shift register: stage 0 holds the bit that came in last.
    pub shift: Seq<bool>,
    /// The storage register, whose stage `i` is what output `i` shows.
    pub storage: Seq<bool>,
}

impl Register {
    /// The state after one signal.
    pub open spec fn after(self, signal: Signal) -> Register {
        match signal {
            Signal::Wait(_) => self,
            Signal::Drive(Line::SerIn, level) => Register {
                lines: Lines { ser_in: level, ..self.lines },
                ..self
            },
            Signal::Drive(Line::Srck, level) => Register {
                lines: Lines { srck: level, ..self.lines },
                shift: if level && !self.lines.srck {
                    seq![self.lines.ser_in] + self.shift
                } else {
                    self.shift
                },
                ..self
            },
            Signal::Drive(Line::Rck, level) => Register {
                lines: Lines { rck: level, ..self.lines },
                storage: if level && !self.lines.rck {
                    self.shift
                } else {
                    self.storage
                },
                ..self
            },
        }
    }

    /// The state after the first `count` signals of `script`.
    pub open spec fn after_first(self, script: Seq<Signal>, count: int) -> Register
        decreases count,
    {
        if count <= 0 {
            self
        } else {
            self.after_first(script, count - 1).after(script[count - 1])
        }
    }

    /// The state after the whole of `script`.
    pub open spec fn after_all(self, script: Seq<Signal>) -> Register {
        self.after_first(script, script.len() as int)
    }

    /// Clock and latch are low, so that the next rise of either is an edge.
    pub open spec fn at_rest(self) -> bool {
        !self.lines.srck && !self.lines.rck
    }
}

/// The bits of a byte as stages of the register: bit `i` in stage `i`.
pub open spec fn byte_bits(data: u8) -> Seq<bool> {
    Seq::new(8, |i: int| bit_of(data, i as u8))
}

/// The `count` most significant bits of a byte, the lowest of them in
/// stage 0.
pub open spec fn top_bits(data: u8, count: int) -> Seq<bool> {
    Seq::new(count as nat, |i: int| bit_of(data, (8 - count + i) as u8))
}

/// The first `count` bytes of `data` as stages of a chain: the last of them
/// in stages 0 to 7, the one before it in stages 8 to 15, and so on.
pub open spec fn chain_bits_first(data: Seq<u8>, count: int) -> Seq<bool> {
    Seq::new((8 * count) as nat, |j: int| bit_of(data[count - 1 - j / 8], (j % 8) as u8))
}

/// The bytes of `data` as stages of a chain, the last byte next to the
/// controller.
pub open spec fn chain_bits(data: Seq<u8>) -> Seq<bool> {
    chain_bits_first(data, data.len() as int)
}

/// Whether `script` leaves the latch alone.
pub open spec fn spares_latch(script: Seq<Signal>) -> bool {
    forall|j: int| 0 <= j < script.len() ==> !(#[trigger] script[j]).drives(Line::Rck)
}

/// Running two scripts on end is running the second where the first left off.
pub proof fn lemma_after_concat(r: Register, a: Seq<Signal>, b: Seq<Signal>, count: int)
    requires
        0 <= count <= a.len() + b.len(),
    ensures
        r.after_first(a + b, count) == if count <= a.len() {
            r.after_first(a, count)
        } else {
            r.after_all(a).after_first(b, count - a.len())
        },
    decreases count,
{
    if count > 0 {
        lemma_after_concat(r, a, b, count - 1);
        let whole = r.after_first(a + b, count);
        assert(whole == r.after_first(a + b, count - 1).after((a + b)[count - 1]));
        if count <= a.len() {
            assert((a + b)[count - 1] == a[count - 1]);
            assert(whole == r.after_first(a, count));
        } else {
            let mid = r.after_all(a);
            let offset = count - a.len();
            assert((a + b)[count - 1] == b[offset - 1]);
            assert(r.after_first(a + b, count - 1) == mid.after_first(b, offset - 1)) by {
                if offset == 1 {
                    assert(mid.after_first(b, 0) == mid);
                }
            }
            assert(mid.after_first(b, offset) == mid.after_first(b, offset - 1).after(
                b[offset - 1],
            ));
        }
    }
}

/// The same for whole scripts.
pub proof fn lemma_after_all_concat(r: Register, a: Seq<Signal>, b: Seq<Signal>)
    ensures
        r.after_all(a + b) == r.after_all(a).after_all(b),
{
    lemma_after_concat(r, a, b, (a.len() + b.len()) as int);
    if b.len() == 0 {
        assert(a + b =~= a);
    }
}

/// While a script leaves the latch alone, the storage register, and with it
/// every output, stays as it was.
pub proof fn lemma_storage_kept(r: Register, script: Seq<Signal>, count: int)
    requires
        spares_latch(script),
        0 <= count <= script.len(),
    ensures
        r.after_first(script, count).storage == r.storage,
        r.after_first(script, count).lines.rck == r.lines.rck,
    decreases count,
{
    if count > 0 {
        lemma_storage_kept(r, script, count - 1);
        assert(!script[count - 1].drives(Line::Rck));
    }
}

/// Two scripts that leave the latch alone do so on end.
pub proof fn lemma_spares_latch_concat(a: Seq<Signal>, b: Seq<Signal>)
    requires
        spares_latch(a),
        spares_latch(b),
    ensures
        spares_latch(a + b),
{
    assert forall|j: int| 0 <= j < (a + b).len() implies !(#[trigger] (a + b)[j]).drives(
        Line::Rck,
    ) by {
        if j < a.len() {
            assert((a + b)[j] == a[j]);
        } else {
            assert((a + b)[j] == b[j - a.len()]);
        }
    }
}

/// Shifting bits in takes five signals a bit and leaves the latch alone.
pub proof fn lemma_bits_script_shape(data: u8, count: int)
    requires
        0 <= count <= 8,
    ensures
        bits_script(data, count).len() == 5 * count,
        spares_latch(bits_script(data, count)),
    decreases count,
{
    if count > 0 {
        lemma_bits_script_shape(data, count - 1);
        lemma_spares_latch_concat(
            bits_script(data, count - 1),
            bit_script(bit_of(data, (8 - count) as u8)),
        );
    }
}

/// A byte takes 41 signals, forty for its bits and one to bring the data
/// line low, and leaves the latch alone.
pub proof fn lemma_byte_script_shape(data: u8)
    ensures
        byte_script(data).len() == 41,
        byte_script(data)[40] == Signal::Drive(Line::SerIn, false),
        spares_latch(byte_script(data)),
{
    lemma_bits_script_shape(data, 8);
    lemma_spares_latch_concat(bits_script(data, 8), release_script());
}

/// Shifting bytes in takes 41 signals a byte and leaves the latch alone.
pub proof fn lemma_bytes_script_shape(data: Seq<u8>, count: int)
    requires
        0 <= count <= data.len(),
    ensures
        bytes_script_first(data, count).len() == 41 * count,
        spares_latch(bytes_script_first(data, count)),
    decreases count,
{
    if count > 0 {
        lemma_bytes_script_shape(data, count - 1);
        lemma_byte_script_shape(data[count - 1]);
        lemma_spares_latch_concat(
            bytes_script_first(data, count - 1),
            byte_script(data[count - 1]),
        );
    }
}

/// The bits of a byte go out most significant first: the signals of slot
/// `slot`, counted from 0, are those of bit `7 - slot`. After the eight
/// slots comes the one signal that brings the data line low.
pub proof fn lemma_bit_order(data: u8, slot: int)
    requires
        0 <= slot < 8,
    ensures
        byte_script(data).len() == 41,
        byte_script(data).subrange(5 * slot, 5 * slot + 5) == bit_script(
            bit_of(data, (7 - slot) as u8),
        ),
        byte_script(data)[40] == Signal::Drive(Line::SerIn, false),
{
    lemma_bits_prefix(data, slot + 1, 8);
    lemma_byte_script_shape(data);
    lemma_bits_script_shape(data, 8);
    lemma_bits_script_shape(data, slot + 1);
    lemma_bits_script_shape(data, slot);
    let whole = byte_script(data);
    let bits = bits_script(data, 8);
    let head = bits_script(data, slot + 1);
    let bit = bit_script(bit_of(data, (7 - slot) as u8));
    let part = whole.subrange(5 * slot, 5 * slot + 5);
    assert(head == bits_script(data, slot) + bit);
    assert(bit.len() == 5);
    assert forall|i: int| 0 <= i < 5 implies part[i] == bit[i] by {
        assert(part[i] == whole[5 * slot + i]);
        assert(whole[5 * slot + i] == bits[5 * slot + i]);
        assert(bits.subrange(0, 5 * (slot + 1))[5 * slot + i] == bits[5 * slot + i]);
        assert(head[5 * slot + i] == bit[i]);
    }
    assert(part =~= bit);
}

/// The script of fewer bits is the beginning of the script of more.
pub proof fn lemma_bits_prefix(data: u8, fewer: int, more: int)
    requires
        0 <= fewer <= more <= 8,
    ensures
        bits_script(data, more).len() == 5 * more,
        bits_script(data, more).subrange(0, 5 * fewer) == bits_script(data, fewer),
    decreases more,
{
    lemma_bits_script_shape(data, more);
    lemma_bits_script_shape(data, fewer);
    if fewer < more {
        lemma_bits_prefix(data, fewer, more - 1);
        lemma_bits_script_shape(data, more - 1);
        assert(bits_script(data, more).subrange(0, 5 * fewer) =~= bits_script(
            data,
            more - 1,
        ).subrange(0, 5 * fewer));
    } else {
        assert(bits_script(data, more).subrange(0, 5 * fewer) =~= bits_script(data, fewer));
    }
}

/// One bit: the bit enters stage 0 and every bit already there moves up one
/// stage. The clock ends low and the data line at the level of the bit. Had
/// the clock been high to begin with, its rise would have been no edge and
/// the bit would not have entered.
pub proof fn lemma_push_bit(r: Register, bit: bool)
    ensures
        r.after_all(bit_script(bit)) == (Register {
            lines: Lines { srck: false, rck: r.lines.rck, ser_in: bit },
            shift: if r.lines.srck {
                r.shift
            } else {
                seq![bit] + r.shift
            },
            storage: r.storage,
        }),
{
    reveal_with_fuel(Register::after_first, 6);
}

/// The `count` most significant bits of a byte, sent with the clock low to
/// begin with, stand in the first `count` stages, the lowest in stage 0.
pub proof fn lemma_push_bits(r: Register, data: u8, count: int)
    requires
        !r.lines.srck,
        0 < count <= 8,
    ensures
        r.after_all(bits_script(data, count)) == (Register {
            lines: Lines {
                srck: false,
                rck: r.lines.rck,
                ser_in: bit_of(data, (8 - count) as u8),
            },
            shift: top_bits(data, count) + r.shift,
            storage: r.storage,
        }),
    decreases count,
{
    let bit = bit_of(data, (8 - count) as u8);
    let before = bits_script(data, count - 1);
    lemma_after_all_concat(r, before, bit_script(bit));
    if count > 1 {
        lemma_push_bits(r, data, count - 1);
    } else {
        assert(before =~= Seq::<Signal>::empty());
    }
    let mid = r.after_all(before);
    lemma_push_bit(mid, bit);
    assert(mid.shift =~= top_bits(data, count - 1) + r.shift);
    assert(seq![bit] + mid.shift =~= top_bits(data, count) + r.shift);
}

/// Bringing the data line low moves nothing else: the clock does not stir,
/// so no bit is shifted, and both registers stay as they are.
pub proof fn lemma_release(r: Register)
    ensures
        r.after_all(release_script()) == (Register {
            lines: Lines { ser_in: false, ..r.lines },
            ..r
        }),
{
    reveal_with_fuel(Register::after_first, 2);
}

/// A byte, sent with the clock low to begin with, stands in stages 0 to 7,
/// bit `i` in stage `i`; what was there before has moved up eight stages.
/// Clock and data line are low at the end.
pub proof fn lemma_push_byte(r: Register, data: u8)
    requires
        !r.lines.srck,
    ensures
        r.after_all(byte_script(data)) == (Register {
            lines: Lines { srck: false, rck: r.lines.rck, ser_in: false },
            shift: byte_bits(data) + r.shift,
            storage: r.storage,
        }),
{
    let bits = bits_script(data, 8);
    lemma_push_bits(r, data, 8);
    assert(top_bits(data, 8) =~= byte_bits(data));
    lemma_after_all_concat(r, bits, release_script());
    lemma_release(r.after_all(bits));
}

/// Whatever the clock was at to begin with, a byte sent leaves clock and
/// data line low and the latch where it was: the levels that the driver
/// records.
pub proof fn lemma_push_byte_lines(r: Register, data: u8)
    ensures
        r.after_all(byte_script(data)).lines == (Lines {
            srck: false,
            rck: r.lines.rck,
            ser_in: false,
        }),
{
    let before = bits_script(data, 7);
    let bits = bits_script(data, 8);
    let bit = bit_of(data, 0);
    lemma_bits_script_shape(data, 7);
    lemma_storage_kept(r, before, before.len() as int);
    lemma_after_all_concat(r, before, bit_script(bit));
    lemma_push_bit(r.after_all(before), bit);
    lemma_after_all_concat(r, bits, release_script());
    lemma_release(r.after_all(bits));
}

/// Several bytes, sent with the clock low to begin with, stand in the chain
/// with the last byte next to the controller.
pub proof fn lemma_push_bytes_first(r: Register, data: Seq<u8>, count: int)
    requires
        !r.lines.srck,
        0 <= count <= data.len(),
    ensures
        r.after_all(bytes_script_first(data, count)).shift == chain_bits_first(data, count)
            + r.shift,
        r.after_all(bytes_script_first(data, count)).storage == r.storage,
        r.after_all(bytes_script_first(data, count)).lines == (if count == 0 {
            r.lines
        } else {
            Lines { srck: false, rck: r.lines.rck, ser_in: false }
        }),
    decreases count,
{
    if count == 0 {
        assert(chain_bits_first(data, 0) + r.shift =~= r.shift);
    } else {
        let before = bytes_script_first(data, count - 1);
        let byte = data[count - 1];
        lemma_push_bytes_first(r, data, count - 1);
        lemma_after_all_concat(r, before, byte_script(byte));
        let mid = r.after_all(before);
        lemma_push_byte(mid, byte);
        assert(byte_bits(byte) + (chain_bits_first(data, count - 1) + r.shift)
            =~= chain_bits_first(data, count) + r.shift);
    }
}

/// One pulse on the latch, which was low to begin with, copies the shift
/// register to the storage register on its first signal, the rising edge.
pub proof fn lemma_transfer(r: Register, count: int)
    requires
        !r.lines.rck,
        0 <= count <= 3,
    ensures
        latch_script().len() == 3,
        r.after_first(latch_script(), count).storage == (if count == 0 {
            r.storage
        } else {
            r.shift
        }),
        r.after_first(latch_script(), count).shift == r.shift,
        r.after_all(latch_script()).lines == (Lines { rck: false, ..r.lines }),
{
    reveal_with_fuel(Register::after_first, 4);
}

/// Shifting a byte in changes no output, at no point on the way and
/// whatever the lines were at before.
pub proof fn lemma_push_byte_keeps_outputs(r: Register, data: u8, count: int)
    requires
        0 <= count <= 41,
    ensures
        byte_script(data).len() == 41,
        r.after_first(byte_script(data), count).storage == r.storage,
{
    lemma_byte_script_shape(data);
    lemma_storage_kept(r, byte_script(data), count);
}

/// Shifting any number of bytes in changes no output, at no point on the way
/// and whatever the lines were at before.
pub proof fn lemma_push_bytes_keeps_outputs(r: Register, data: Seq<u8>, count: int)
    requires
        0 <= count <= 41 * data.len(),
    ensures
        bytes_script(data).len() == 41 * data.len(),
        r.after_first(bytes_script(data), count).storage == r.storage,
{
    lemma_bytes_script_shape(data, data.len() as int);
    lemma_storage_kept(r, bytes_script(data), count);
}

/// A byte shifted in and latched, on lines at rest, reaches the outputs in
/// one step. Of the 44 signals the first 41 shift the byte in, bring the data
/// line low and change no output; the next, the rising edge of the latch,
/// puts bit `i` of the byte on output `i` for all eight at once; the last
/// two change nothing more. At the end all three lines are low.
pub proof fn lemma_push_byte_and_transfer(r: Register, data: u8, count: int)
    requires
        r.at_rest(),
        0 <= count <= 44,
    ensures
        (byte_script(data) + latch_script()).len() == 44,
        (byte_script(data) + latch_script())[41] == Signal::Drive(Line::Rck, true),
        r.after_first(byte_script(data) + latch_script(), count).storage == (if count <= 41 {
            r.storage
        } else {
            byte_bits(data) + r.shift
        }),
        r.after_all(byte_script(data) + latch_script()).lines == (Lines {
            srck: false,
            rck: false,
            ser_in: false,
        }),
        forall|i: int|
            0 <= i < 8 ==> r.after_all(byte_script(data) + latch_script()).storage[i] == bit_of(
                data,
                i as u8,
            ),
{
    let push = byte_script(data);
    let script = push + latch_script();
    lemma_push_byte_keeps_outputs(r, data, if count <= 41 {
        count
    } else {
        41
    });
    lemma_push_byte(r, data);
    let shifted = r.after_all(push);
    lemma_after_concat(r, push, latch_script(), count);
    lemma_after_concat(r, push, latch_script(), 44);
    lemma_transfer(shifted, 3);
    if count > 41 {
        lemma_transfer(shifted, count - 41);
    }
    assert(script[41] == latch_script()[0]);
}

/// Several bytes shifted in and latched, on lines at rest, reach the outputs
/// of the chain in one step: no output changes before the rising edge of the
/// latch, and from then on the device next to the controller shows the last
/// byte, the one after it the byte before, and so on, bit `i` of each byte
/// on output `i` of its device. Clock and latch are low at the end, and so
/// is the data line where there was a byte to send.
pub proof fn lemma_push_bytes_and_transfer(r: Register, data: Seq<u8>, count: int)
    requires
        r.at_rest(),
        0 <= count <= 41 * data.len() + 3,
    ensures
        (bytes_script(data) + latch_script()).len() == 41 * data.len() + 3,
        r.after_first(bytes_script(data) + latch_script(), count).storage == (if count <= 41
            * data.len() {
            r.storage
        } else {
            chain_bits(data) + r.shift
        }),
        r.after_all(bytes_script(data) + latch_script()).lines == (Lines {
            srck: false,
            rck: false,
            ser_in: data.len() == 0 && r.lines.ser_in,
        }),
        forall|k: int, i: int|
            0 <= k < data.len() && 0 <= i < 8 ==> #[trigger] r.after_all(
                bytes_script(data) + latch_script(),
            ).storage[8 * k + i] == bit_of(data[data.len() - 1 - k], i as u8),
{
    let n = data.len() as int;
    let push = bytes_script(data);
    let script = push + latch_script();
    lemma_push_bytes_keeps_outputs(r, data, if count <= 41 * n {
        count
    } else {
        41 * n
    });
    lemma_push_bytes_first(r, data, n);
    let shifted = r.after_all(push);
    lemma_after_concat(r, push, latch_script(), count);
    lemma_after_concat(r, push, latch_script(), 41 * n + 3);
    lemma_transfer(shifted, 3);
    if count > 41 * n {
        lemma_transfer(shifted, count - 41 * n);
    }
    let shown = r.after_all(script).storage;
    assert(shown == chain_bits(data) + r.shift);
    assert forall|k: int, i: int| 0 <= k < n && 0 <= i < 8 implies #[trigger] shown[8 * k + i]
        == bit_of(data[n - 1 - k], i as u8) by {
        let j = 8 * k + i;
        assert(0 <= j < 8 * n);
        assert(j / 8 == k && j % 8 == i);
        assert(shown[j] == chain_bits(data)[j]);
    }
}

/// Bringing the lines low puts the device at rest and touches neither
/// register: what was shifted in but not latched is still there, and the
/// outputs show what they showed.
pub proof fn lemma_init(r: Register)
    ensures
        r.after_all(init_script()) == (Register {
            lines: Lines { srck: false, rck: false, ser_in: false },
            shift: r.shift,
            storage: r.storage,
        }),
        r.after_all(init_script()).at_rest(),
{
    reveal_with_fuel(Register::after_first, 5);
}

/// The bytes 0x00 and 0xFF, shifted in and latched on lines at rest, bring
/// all eight outputs low and high.
pub proof fn lemma_clear_and_set_all(r: Register, i: int)
    requires
        r.at_rest(),
        0 <= i < 8,
    ensures
        !r.after_all(byte_script(0x00) + latch_script()).storage[i],
        r.after_all(byte_script(0xFF) + latch_script()).storage[i],
{
    lemma_push_byte_and_transfer(r, 0x00, 44);
    lemma_push_byte_and_transfer(r, 0xFF, 44);
    let index = i as u8;
    assert(!bit_of(0x00, index) && bit_of(0xFF, index)) by (bit_vector)
        requires
            index < 8,
    ;
}

/// A digit, encoded, shifted in and latched on lines at rest, is what the
/// display shows: the output that a segment is wired to is on exactly when
/// the digit shows that segment.
pub proof fn lemma_digit_on_display(
    r: Register,
    decimal: u8,
    dot: bool,
    on: bool,
    segment: Segment,
)
    requires
        r.at_rest(),
    ensures
        ({
            let pattern = encode(decimal, dot, on);
            let shown = r.after_all(byte_script(pattern) + latch_script()).storage;
            shown[segment.index() as int] <==> shows(decimal, dot, on, segment)
        }),
{
    lemma_push_byte_and_transfer(r, encode(decimal, dot, on), 44);
    lemma_encode_shows(decimal, dot, on, segment);
}

} // verus!
