//! Serial numbers: a strictly increasing allocator over a configured byte
//! width, the minimal big-endian encoding, and parsing from hex text.

use vstd::prelude::*;
use vstd::string::*;
use crate::errors::CaError;

verus! {

/// Widest counter a serial allocator can be configured with, in bytes.
pub const MAX_SERIAL_WIDTH: u8 = 16;

/// The minimal big-endian byte representation of a value: empty for zero,
/// no leading zero byte otherwise.
pub open spec fn spec_be_bytes(v: nat) -> Seq<u8>
    decreases v,
{
    if v == 0 {
        Seq::empty()
    } else {
        spec_be_bytes(v / 256) + seq![(v % 256) as u8]
    }
}

/// The canonical encoding of a serial number value: one zero byte for
/// zero; otherwise the minimal big-endian bytes, preceded by a zero byte
/// when the top bit is set, so the value cannot read as negative.
pub open spec fn spec_serial_bytes(v: nat) -> Seq<u8> {
    if v == 0 {
        seq![0u8]
    } else if spec_be_bytes(v).first() >= 0x80 {
        seq![0u8] + spec_be_bytes(v)
    } else {
        spec_be_bytes(v)
    }
}

/// A unique, non-negative certificate serial number.
#[derive(Clone, Copy, PartialEq, Eq, Structural, Debug)]
pub struct SerialNumber {
    pub value: u128,
}

impl SerialNumber {
    /// The canonical byte encoding: minimal big-endian, with a zero pad
    /// byte only to keep the sign unambiguous.
    pub fn to_bytes(&self) -> (r: Vec<u8>)
        ensures
            r@ == spec_serial_bytes(self.value as nat),
            1 <= r@.len() <= 17,
    {
        let mut out: Vec<u8> = Vec::new();
        if self.value == 0 {
            out.push(0);
            proof {
                assert(out@ =~= spec_serial_bytes(0));
            }
            return out;
        }
        let mut v: u128 = self.value;
        proof {
            assert(spec_be_bytes(v as nat) + out@ =~= spec_be_bytes(self.value as nat));
        }
        while v > 0
            invariant
                spec_be_bytes(v as nat) + out@ == spec_be_bytes(self.value as nat),
            decreases v,
        {
            let b: u8 = (v % 256) as u8;
            let ghost pre = out@;
            out.insert(0, b);
            proof {
                assert(out@ =~= seq![b] + pre);
                assert(spec_be_bytes(v as nat) == spec_be_bytes((v as nat) / 256) + seq![b]);
                assert(spec_be_bytes((v / 256) as nat) + out@ =~= spec_be_bytes(
                    self.value as nat,
                ));
            }
            v = v / 256;
        }
        proof {
            assert(Seq::<u8>::empty() + out@ =~= out@);
            assert(out@ == spec_be_bytes(self.value as nat));
            lemma_pow256_16();
            lemma_be_bytes_len_le(self.value as nat, 16);
        }
        if out[0] >= 0x80 {
            let ghost pre = out@;
            out.insert(0, 0);
            proof {
                assert(out@ =~= seq![0u8] + pre);
            }
        }
        out
    }
}

/// A value below 256 to the `k` has at most `k` minimal big-endian bytes.
proof fn lemma_be_bytes_len_le(v: nat, k: nat)
    requires
        v < pow256(k),
    ensures
        spec_be_bytes(v).len() <= k,
    decreases k,
{
    if v == 0 {
    } else {
        assert(k > 0);
        assert(pow256(k) == 256 * pow256((k - 1) as nat));
        lemma_be_bytes_len_le(v / 256, (k - 1) as nat);
    }
}

/// 256 to the `n`.
pub open spec fn pow256(n: nat) -> nat
    decreases n,
{
    if n == 0 {
        1
    } else {
        256 * pow256((n - 1) as nat)
    }
}

/// Sixteen bytes hold every counter value.
proof fn lemma_pow256_16()
    ensures
        pow256(16) == 0x100000000000000000000000000000000,
{
    reveal_with_fuel(pow256, 17);
}

/// Produces unique, strictly increasing serial numbers from a counter,
/// bounded by a configured byte width.
#[derive(Clone, Copy)]
pub struct SerialAllocator {
    next_value: u128,
    width: u8,
}

impl SerialAllocator {
    /// The counter value the next successful allocation will return.
    pub closed spec fn spec_next_value(&self) -> u128 {
        self.next_value
    }

    /// The configured byte width serial values must fit in.
    pub closed spec fn spec_width(&self) -> u8 {
        self.width
    }

    /// Whether the next allocation will succeed: the counter still fits
    /// the configured width and can still advance.
    pub open spec fn spec_can_allocate(&self) -> bool {
        spec_be_bytes(self.spec_next_value() as nat).len() <= self.spec_width()
            && self.spec_next_value() < u128::MAX
    }

    /// An allocator that will hand out `start`, then each successor, and
    /// refuse values wider than `width` bytes.
    pub fn new(start: u128, width: u8) -> (r: SerialAllocator)
        requires
            1 <= width <= MAX_SERIAL_WIDTH,
        ensures
            r.spec_next_value() == start,
            r.spec_width() == width,
    {
        SerialAllocator { next_value: start, width }
    }

    /// The number of minimal big-endian bytes of a value.
    fn be_len(mut v: u128) -> (r: usize)
        ensures
            r == spec_be_bytes(v as nat).len(),
    {
        let ghost orig = v as nat;
        let mut n: usize = 0;
        proof {
            lemma_pow256_16();
            lemma_be_bytes_len_le(orig, 16);
        }
        while v > 0
            invariant
                n + spec_be_bytes(v as nat).len() == spec_be_bytes(orig).len(),
                spec_be_bytes(orig).len() <= 16,
            decreases v,
        {
            v = v / 256;
            n = n + 1;
        }
        n
    }

    /// Returns the next serial number and advances the counter by exactly
    /// one; fails with `ExhaustedSerialSpace`, leaving the counter
    /// unchanged, exactly when the counter no longer fits the configured
    /// width or cannot advance.
    pub fn next(&mut self) -> (r: Result<SerialNumber, CaError>)
        ensures
            final(self).spec_width() == old(self).spec_width(),
            r is Ok <==> old(self).spec_can_allocate(),
            r is Ok ==> (r->Ok_0).value == old(self).spec_next_value()
                && final(self).spec_next_value() == old(self).spec_next_value() + 1,
            r is Err ==> *final(self) == *old(self) && r == Err::<SerialNumber, CaError>(
                CaError::ExhaustedSerialSpace,
            ),
    {
        let len = Self::be_len(self.next_value);
        if len > self.width as usize || self.next_value == u128::MAX {
            return Err(CaError::ExhaustedSerialSpace);
        }
        let serial = SerialNumber { value: self.next_value };
        self.next_value = self.next_value + 1;
        Ok(serial)
    }
}

/// The numeric value of one hex digit character, if it is one.
pub open spec fn spec_hex_digit(c: char) -> Option<u8> {
    let u = c as u32;
    if 0x30 <= u && u <= 0x39 {
        Some((u - 0x30) as u8)
    } else if 0x61 <= u && u <= 0x66 {
        Some((u - 0x61 + 10) as u8)
    } else if 0x41 <= u && u <= 0x46 {
        Some((u - 0x41 + 10) as u8)
    } else {
        None
    }
}

/// The value of a string of hex digits, by positional weight.
pub open spec fn spec_hex_value(s: Seq<char>) -> nat
    decreases s.len(),
{
    if s.len() == 0 {
        0
    } else {
        16 * spec_hex_value(s.drop_last()) + (spec_hex_digit(s.last())->0 as nat)
    }
}

/// Whether a string is acceptable hex for a serial number: one to
/// thirty-two hex digits.
pub open spec fn spec_hex_ok(s: Seq<char>) -> bool {
    &&& 1 <= s.len() <= 32
    &&& forall|i: int| 0 <= i < s.len() ==> spec_hex_digit(#[trigger] s[i]) is Some
}

/// 16 to the `n`.
pub open spec fn pow16(n: nat) -> nat
    decreases n,
{
    if n == 0 {
        1
    } else {
        16 * pow16((n - 1) as nat)
    }
}

proof fn lemma_pow16_pos(n: nat)
    ensures
        pow16(n) >= 1,
    decreases n,
{
    if n > 0 {
        lemma_pow16_pos((n - 1) as nat);
    }
}

proof fn lemma_pow16_mono(a: nat, b: nat)
    requires
        a <= b,
    ensures
        pow16(a) <= pow16(b),
    decreases b,
{
    if a < b {
        lemma_pow16_mono(a, (b - 1) as nat);
        lemma_pow16_pos((b - 1) as nat);
    }
}

/// Thirty-two hex digits fill the counter range exactly.
proof fn lemma_pow16_32()
    ensures
        pow16(32) == 0x100000000000000000000000000000000,
{
    reveal_with_fuel(pow16, 33);
}

/// The numeric value of one hex digit character, if it is one.
fn hex_digit(c: char) -> (r: Option<u8>)
    ensures
        r == spec_hex_digit(c),
{
    let u = c as u32;
    if 0x30 <= u && u <= 0x39 {
        Some((u - 0x30) as u8)
    } else if 0x61 <= u && u <= 0x66 {
        Some((u - 0x61 + 10) as u8)
    } else if 0x41 <= u && u <= 0x46 {
        Some((u - 0x41 + 10) as u8)
    } else {
        None
    }
}

/// Builds a serial number from hex text: one to thirty-two hex digits,
/// upper or lower case. Rejects anything else with `MalformedInput`.
pub fn build_serial_number(serial: &str) -> (r: Result<SerialNumber, CaError>)
    ensures
        r is Ok <==> spec_hex_ok(serial@),
        r is Ok ==> ((r->Ok_0).value as nat) == spec_hex_value(serial@),
        r is Err ==> r == Err::<SerialNumber, CaError>(CaError::MalformedInput),
{
    let n = serial.unicode_len();
    if n < 1 || n > 32 {
        return Err(CaError::MalformedInput);
    }
    let mut value: u128 = 0;
    for i in 0..n
        invariant
            n == serial@.len(),
            1 <= n <= 32,
            value as nat == spec_hex_value(serial@.take(i as int)),
            value as nat <= pow16(i as nat) - 1,
            forall|j: int| 0 <= j < i ==> spec_hex_digit(#[trigger] serial@[j]) is Some,
    {
        let c = serial.get_char(i);
        let d = match hex_digit(c) {
            Some(d) => d,
            None => {
                return Err(CaError::MalformedInput);
            },
        };
        proof {
            lemma_pow16_32();
            lemma_pow16_mono((i + 1) as nat, 32);
            assert(pow16((i + 1) as nat) == 16 * pow16(i as nat));
            assert((value as nat) * 16 <= (pow16(i as nat) - 1) * 16);
        }
        value = value * 16 + (d as u128);
        proof {
            assert(serial@.take(i + 1).drop_last() =~= serial@.take(i as int));
            assert(serial@.take(i + 1).last() == serial@[i as int]);
        }
    }
    proof {
        assert(serial@.take(n as int) =~= serial@);
    }
    Ok(SerialNumber { value })
}

/// One successful allocation step: the allocator returned `s` and advanced
/// its counter by one.
pub open spec fn spec_alloc_step(pre: SerialAllocator, post: SerialAllocator, s: SerialNumber) -> bool {
    &&& s.value == pre.spec_next_value()
    &&& post.spec_next_value() == pre.spec_next_value() + 1
}

/// Serial allocation never repeats: two successful allocations, one
/// executed after the other as mutual exclusion orders concurrent calls,
/// return distinct, strictly increasing serial numbers.
pub proof fn lemma_serials_distinct(
    a0: SerialAllocator,
    a1: SerialAllocator,
    a2: SerialAllocator,
    s1: SerialNumber,
    s2: SerialNumber,
)
    requires
        spec_alloc_step(a0, a1, s1),
        spec_alloc_step(a1, a2, s2),
    ensures
        s1.value != s2.value,
        s1.value < s2.value,
{
}

} // verus!
