//! Bit-level reads and writes on unsigned integers, used to pack several
//! small flags and enumerations into one word.

use std::ops::Range;
use vstd::prelude::*;

verus! {

/// The bits `start..start + len` of `v`, shifted down to bit 0.
pub open spec fn field_of(v: u64, start: u64, len: u64) -> u64 {
    (v >> start) & low_mask(len)
}

/// A word whose `len` lowest bits are set.
pub open spec fn low_mask(len: u64) -> u64 {
    ((1u64 << len) - 1) as u64
}

/// Bit `n` of `v`.
pub open spec fn bit_of(v: u64, n: u64) -> bool {
    (v >> n) & 1 == 1
}

/// `v` with bit `n` set to `b`.
pub open spec fn with_bit(v: u64, n: u64, b: bool) -> u64 {
    if b {
        v | (1u64 << n)
    } else {
        v & !(1u64 << n)
    }
}

/// `v` with the bits `start..start + len` replaced by the low bits of `x`.
pub open spec fn with_field(v: u64, start: u64, len: u64, x: u64) -> u64 {
    (v & !(low_mask(len) << start)) | ((x & low_mask(len)) << start)
}

/// Writing a value that fits into a field and reading the field back gives that
/// value, and every bit outside the field keeps its old value.
pub proof fn lemma_field_round_trip(v: u64, start: u64, len: u64, x: u64, i: u64)
    requires
        start + len <= 64,
        x >> len == 0,
        i < 64,
    ensures
        field_of(with_field(v, start, len, x), start, len) == x,
        i < start || start + len <= i ==> bit_of(with_field(v, start, len, x), i) == bit_of(v, i),
{
    assert(((((v & !((((1u64 << len) - 1) as u64) << start)) | ((x & (((1u64 << len) - 1) as u64))
        << start)) >> start) & (((1u64 << len) - 1) as u64)) == x) by (bit_vector)
        requires
            start + len <= 64,
            x >> len == 0,
    ;
    assert(i < start || start + len <= i ==> ((((v & !((((1u64 << len) - 1) as u64) << start)) | ((
    x & (((1u64 << len) - 1) as u64)) << start)) >> i) & 1 == 1) == ((v >> i) & 1 == 1))
        by (bit_vector)
        requires
            start + len <= 64,
            i < 64,
    ;
}

/// Setting one bit and reading it back gives the value set; the other bits keep
/// their old values.
pub proof fn lemma_bit_round_trip(v: u64, n: u64, b: bool, i: u64)
    requires
        n < 64,
        i < 64,
    ensures
        bit_of(with_bit(v, n, b), n) == b,
        i != n ==> bit_of(with_bit(v, n, b), i) == bit_of(v, i),
{
    assert((((v | (1u64 << n)) >> n) & 1 == 1) && (((v & !(1u64 << n)) >> n) & 1 != 1))
        by (bit_vector)
        requires
            n < 64,
    ;
    assert(i != n ==> (((v | (1u64 << n)) >> i) & 1 == 1) == ((v >> i) & 1 == 1)
        && (((v & !(1u64 << n)) >> i) & 1 == 1) == ((v >> i) & 1 == 1)) by (bit_vector)
        requires
            n < 64,
            i < 64,
    ;
}

/// For a `u8`: setting the bits `start..end` to a value that fits and reading
/// them back gives that value, and bit `i` outside the range keeps its value;
/// likewise for a single bit `n`.
pub proof fn lemma_round_trip_u8(v: u8, start: u8, end: u8, x: u8, n: u8, b: bool, i: u64)
    requires
        start <= end <= 8,
        (x as u64) >> ((end - start) as u64) == 0,
        n < 8,
        i < 8,
    ensures
        field_of(
            with_field(v as u64, start as u64, (end - start) as u64, x as u64),
            start as u64,
            (end - start) as u64,
        ) == x as u64,
        i < start || end <= i ==> bit_of(
            with_field(v as u64, start as u64, (end - start) as u64, x as u64),
            i,
        ) == bit_of(v as u64, i),
        bit_of(with_bit(v as u64, n as u64, b), n as u64) == b,
        i != n ==> bit_of(with_bit(v as u64, n as u64, b), i) == bit_of(v as u64, i),
{
    lemma_field_round_trip(v as u64, start as u64, (end - start) as u64, x as u64, i);
    lemma_bit_round_trip(v as u64, n as u64, b, i);
}

/// For a `u16`: setting the bits `start..end` to a value that fits and reading
/// them back gives that value, and bit `i` outside the range keeps its value;
/// likewise for a single bit `n`.
pub proof fn lemma_round_trip_u16(v: u16, start: u8, end: u8, x: u16, n: u8, b: bool, i: u64)
    requires
        start <= end <= 16,
        (x as u64) >> ((end - start) as u64) == 0,
        n < 16,
        i < 16,
    ensures
        field_of(
            with_field(v as u64, start as u64, (end - start) as u64, x as u64),
            start as u64,
            (end - start) as u64,
        ) == x as u64,
        i < start || end <= i ==> bit_of(
            with_field(v as u64, start as u64, (end - start) as u64, x as u64),
            i,
        ) == bit_of(v as u64, i),
        bit_of(with_bit(v as u64, n as u64, b), n as u64) == b,
        i != n ==> bit_of(with_bit(v as u64, n as u64, b), i) == bit_of(v as u64, i),
{
    lemma_field_round_trip(v as u64, start as u64, (end - start) as u64, x as u64, i);
    lemma_bit_round_trip(v as u64, n as u64, b, i);
}

/// For every type with bit access: setting the bits `start..end` to a value
/// that fits and reading them back gives that value, and every bit `i` of the
/// type outside the range keeps its value.
pub proof fn lemma_set_bits_round_trip<T: BitField>(v: T, start: u8, end: u8, x: T, i: u64)
    requires
        start <= end,
        (end as u64) <= T::width(),
        x.wide() >> ((end - start) as u64) == 0,
        i < T::width(),
    ensures
        field_of(
            with_field(v.wide(), start as u64, (end - start) as u64, x.wide()),
            start as u64,
            (end - start) as u64,
        ) == x.wide(),
        i < start || end <= i ==> bit_of(
            with_field(v.wide(), start as u64, (end - start) as u64, x.wide()),
            i,
        ) == bit_of(v.wide(), i),
{
    T::lemma_width_fits();
    lemma_field_round_trip(v.wide(), start as u64, (end - start) as u64, x.wide(), i);
}

/// Bit access on a fixed-width unsigned integer. Setters return a new value and
/// leave the receiver alone.
pub trait BitField: Sized {
    /// The number of bits in the type.
    spec fn width() -> u64;

    /// The value widened to 64 bits.
    spec fn wide(&self) -> u64;

    /// The type fits in 64 bits.
    proof fn lemma_width_fits()
        ensures
            Self::width() <= 64,
    ;

    fn get_bit(&self, n: u8) -> (r: bool)
        requires
            (n as u64) < Self::width(),
        ensures
            r == bit_of(self.wide(), n as u64),
    ;

    fn get_bits(&self, range: Range<u8>) -> (r: Self)
        requires
            range.start <= range.end,
            (range.end as u64) <= Self::width(),
        ensures
            r.wide() == field_of(self.wide(), range.start as u64, (range.end - range.start) as u64),
    ;

    fn set_bit(&self, n: u8, value: bool) -> (r: Self)
        requires
            (n as u64) < Self::width(),
        ensures
            r.wide() == with_bit(self.wide(), n as u64, value),
    ;

    fn set_bits(&self, range: Range<u8>, value: Self) -> (r: Self)
        requires
            range.start <= range.end,
            (range.end as u64) <= Self::width(),
            value.wide() >> ((range.end - range.start) as u64) == 0,
        ensures
            r.wide() == with_field(
                self.wide(),
                range.start as u64,
                (range.end - range.start) as u64,
                value.wide(),
            ),
    ;
}

impl BitField for u8 {
    open spec fn width() -> u64 {
        8
    }

    proof fn lemma_width_fits() {
    }

    open spec fn wide(&self) -> u64 {
        *self as u64
    }

    fn get_bit(&self, n: u8) -> (r: bool) {
        let v = *self;
        proof {
            assert(((v >> n) & 1u8 == 1u8) == (((v as u64) >> (n as u64)) & 1u64 == 1u64))
                by (bit_vector)
                requires
                    n < 8u8,
            ;
        }
        (v >> n) & 1 == 1
    }

    fn get_bits(&self, range: Range<u8>) -> (r: u8) {
        let v = *self;
        let start = range.start;
        let len = range.end - range.start;
        if len == 0 {
            proof {
                assert(((v as u64) >> (start as u64)) & (((1u64 << 0u64) - 1) as u64) == 0u64)
                    by (bit_vector);
            }
            return 0;
        }
        let mask: u8 = if len == 8 {
            0xff
        } else {
            proof {
                assert(1u8 << len >= 1u8) by (bit_vector)
                    requires
                        len < 8u8,
                ;
            }
            (1u8 << len) - 1
        };
        proof {
            assert(mask as u64 == (((1u64 << (len as u64)) - 1) as u64)) by (bit_vector)
                requires
                    0u8 < len <= 8u8,
                    mask == (if len == 8 { 0xffu8 } else { ((1u8 << len) - 1) as u8 }),
            ;
            assert(((v >> start) & mask) as u64 == ((v as u64) >> (start as u64)) & (mask as u64))
                by (bit_vector)
                requires
                    start < 8u8,
            ;
        }
        (v >> start) & mask
    }

    fn set_bit(&self, n: u8, value: bool) -> (r: u8) {
        let v = *self;
        let one: u8 = 1u8 << n;
        proof {
            assert(one as u64 == 1u64 << (n as u64)) by (bit_vector)
                requires
                    n < 8u8,
                    one == 1u8 << n,
            ;
            assert((v | one) as u64 == (v as u64) | (one as u64)) by (bit_vector);
            assert((v & !one) as u64 == (v as u64) & !(one as u64)) by (bit_vector);
        }
        if value {
            v | one
        } else {
            v & !one
        }
    }

    fn set_bits(&self, range: Range<u8>, value: u8) -> (r: u8) {
        let v = *self;
        let start = range.start;
        let len = range.end - range.start;
        if len == 0 {
            proof {
                assert(((v as u64) & !((((1u64 << 0u64) - 1) as u64) << (start as u64))) | (((
                value as u64) & (((1u64 << 0u64) - 1) as u64)) << (start as u64)) == v as u64)
                    by (bit_vector);
            }
            return v;
        }
        let mask: u8 = if len == 8 {
            0xff
        } else {
            proof {
                assert(1u8 << len >= 1u8) by (bit_vector)
                    requires
                        len < 8u8,
                ;
            }
            (1u8 << len) - 1
        };
        let r = (v & !(mask << start)) | (value << start);
        proof {
            assert(r as u64 == ((v as u64) & !((((1u64 << (len as u64)) - 1) as u64) << (
            start as u64))) | (((value as u64) & (((1u64 << (len as u64)) - 1) as u64)) << (
            start as u64))) by (bit_vector)
                requires
                    0u8 < len,
                    start + len <= 8u8,
                    mask == (if len == 8 { 0xffu8 } else { ((1u8 << len) - 1) as u8 }),
                    (value as u64) >> (len as u64) == 0u64,
                    r == (v & !(mask << start)) | (value << start),
            ;
        }
        r
    }
}


impl BitField for u16 {
    open spec fn width() -> u64 {
        16
    }

    proof fn lemma_width_fits() {
    }

    open spec fn wide(&self) -> u64 {
        *self as u64
    }

    fn get_bit(&self, n: u8) -> (r: bool) {
        let v = *self;
        proof {
            assert(((v >> n) & 1u16 == 1u16) == (((v as u64) >> (n as u64)) & 1u64 == 1u64))
                by (bit_vector)
                requires
                    n < 16u8,
            ;
        }
        (v >> n) & 1 == 1
    }

    fn get_bits(&self, range: Range<u8>) -> (r: u16) {
        let v = *self;
        let start = range.start;
        let len = range.end - range.start;
        if len == 0 {
            proof {
                assert(((v as u64) >> (start as u64)) & (((1u64 << 0u64) - 1) as u64) == 0u64)
                    by (bit_vector);
            }
            return 0;
        }
        let mask: u16 = if len == 16 {
            0xffff
        } else {
            proof {
                assert(1u16 << len >= 1u16) by (bit_vector)
                    requires
                        len < 16u8,
                ;
            }
            (1u16 << len) - 1
        };
        proof {
            assert(mask as u64 == (((1u64 << (len as u64)) - 1) as u64)) by (bit_vector)
                requires
                    0u8 < len <= 16u8,
                    mask == (if len == 16 { 0xffffu16 } else { ((1u16 << len) - 1) as u16 }),
            ;
            assert(((v >> start) & mask) as u64 == ((v as u64) >> (start as u64)) & (mask as u64))
                by (bit_vector)
                requires
                    start < 16u8,
            ;
        }
        (v >> start) & mask
    }

    fn set_bit(&self, n: u8, value: bool) -> (r: u16) {
        let v = *self;
        let one: u16 = 1u16 << n;
        proof {
            assert(one as u64 == 1u64 << (n as u64)) by (bit_vector)
                requires
                    n < 16u8,
                    one == 1u16 << n,
            ;
            assert((v | one) as u64 == (v as u64) | (one as u64)) by (bit_vector);
            assert((v & !one) as u64 == (v as u64) & !(one as u64)) by (bit_vector);
        }
        if value {
            v | one
        } else {
            v & !one
        }
    }

    fn set_bits(&self, range: Range<u8>, value: u16) -> (r: u16) {
        let v = *self;
        let start = range.start;
        let len = range.end - range.start;
        if len == 0 {
            proof {
                assert(((v as u64) & !((((1u64 << 0u64) - 1) as u64) << (start as u64))) | (((
                value as u64) & (((1u64 << 0u64) - 1) as u64)) << (start as u64)) == v as u64)
                    by (bit_vector);
            }
            return v;
        }
        let mask: u16 = if len == 16 {
            0xffff
        } else {
            proof {
                assert(1u16 << len >= 1u16) by (bit_vector)
                    requires
                        len < 16u8,
                ;
            }
            (1u16 << len) - 1
        };
        let r = (v & !(mask << start)) | (value << start);
        proof {
            assert(r as u64 == ((v as u64) & !((((1u64 << (len as u64)) - 1) as u64) << (
            start as u64))) | (((value as u64) & (((1u64 << (len as u64)) - 1) as u64)) << (
            start as u64))) by (bit_vector)
                requires
                    0u8 < len,
                    start + len <= 16u8,
                    mask == (if len == 16 { 0xffffu16 } else { ((1u16 << len) - 1) as u16 }),
                    (value as u64) >> (len as u64) == 0u64,
                    r == (v & !(mask << start)) | (value << start),
            ;
        }
        r
    }
}

} // verus!
