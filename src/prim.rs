//! Fixed-width integers and their big- and little-endian byte encodings.

use vstd::prelude::*;

verus! {

/// `256` to the power `n`: the number of values that `n` bytes can hold.
pub open spec fn pow256(n: nat) -> nat
    decreases n,
{
    if n == 0 {
        1
    } else {
        256 * pow256((n - 1) as nat)
    }
}

/// The value of `s` read most significant byte first.
pub open spec fn be_value(s: Seq<u8>) -> nat
    decreases s.len(),
{
    if s.len() == 0 {
        0
    } else {
        be_value(s.drop_last()) * 256 + s.last() as nat
    }
}

/// The value of `s` read least significant byte first.
pub open spec fn le_value(s: Seq<u8>) -> nat
    decreases s.len(),
{
    if s.len() == 0 {
        0
    } else {
        s[0] as nat + 256 * le_value(s.drop_first())
    }
}

/// The `n` bytes of `v` (taken modulo `256^n`), most significant first.
pub open spec fn be_bytes(v: nat, n: nat) -> Seq<u8>
    decreases n,
{
    if n == 0 {
        Seq::empty()
    } else {
        be_bytes(v / 256, (n - 1) as nat).push((v % 256) as u8)
    }
}

/// The `n` bytes of `v` (taken modulo `256^n`), least significant first.
pub open spec fn le_bytes(v: nat, n: nat) -> Seq<u8>
    decreases n,
{
    if n == 0 {
        Seq::empty()
    } else {
        seq![(v % 256) as u8] + le_bytes(v / 256, (n - 1) as nat)
    }
}

pub proof fn lemma_pow256_positive(n: nat)
    ensures
        pow256(n) >= 1,
    decreases n,
{
    if n > 0 {
        lemma_pow256_positive((n - 1) as nat);
    }
}

pub proof fn lemma_pow256_mono(a: nat, b: nat)
    requires
        a <= b,
    ensures
        pow256(a) <= pow256(b),
    decreases b,
{
    if a < b {
        lemma_pow256_mono(a, (b - 1) as nat);
    }
}

pub proof fn lemma_pow256_values()
    ensures
        pow256(1) == 0x100,
        pow256(2) == 0x1_0000,
        pow256(4) == 0x1_0000_0000,
        pow256(8) == 0x1_0000_0000_0000_0000,
{
    reveal_with_fuel(pow256, 9);
}

pub proof fn lemma_be_bytes_len(v: nat, n: nat)
    ensures
        be_bytes(v, n).len() == n,
    decreases n,
{
    if n > 0 {
        lemma_be_bytes_len(v / 256, (n - 1) as nat);
    }
}

pub proof fn lemma_le_bytes_len(v: nat, n: nat)
    ensures
        le_bytes(v, n).len() == n,
    decreases n,
{
    if n > 0 {
        lemma_le_bytes_len(v / 256, (n - 1) as nat);
    }
}

pub proof fn lemma_be_value_bound(s: Seq<u8>)
    ensures
        be_value(s) < pow256(s.len()),
    decreases s.len(),
{
    if s.len() > 0 {
        lemma_be_value_bound(s.drop_last());
        let p = pow256((s.len() - 1) as nat);
        let x = be_value(s.drop_last());
        assert(x * 256 + 255 < p * 256) by (nonlinear_arith)
            requires
                x < p,
        ;
    }
}

pub proof fn lemma_le_value_bound(s: Seq<u8>)
    ensures
        le_value(s) < pow256(s.len()),
    decreases s.len(),
{
    if s.len() > 0 {
        lemma_le_value_bound(s.drop_first());
        let p = pow256((s.len() - 1) as nat);
        let x = le_value(s.drop_first());
        assert(255 + 256 * x < 256 * p) by (nonlinear_arith)
            requires
                x < p,
        ;
    }
}

/// Decoding the big-endian bytes of a value that fits gives the value back.
pub proof fn lemma_be_round_trip(v: nat, n: nat)
    requires
        v < pow256(n),
    ensures
        be_value(be_bytes(v, n)) == v,
    decreases n,
{
    if n > 0 {
        let p = pow256((n - 1) as nat);
        assert(v / 256 < p) by (nonlinear_arith)
            requires
                v < 256 * p,
        ;
        lemma_be_round_trip(v / 256, (n - 1) as nat);
        let s = be_bytes(v, n);
        assert(s.drop_last() == be_bytes(v / 256, (n - 1) as nat));
        assert(v == (v / 256) * 256 + v % 256) by (nonlinear_arith);
    } else {
        lemma_pow256_positive(n);
    }
}

/// Decoding the little-endian bytes of a value that fits gives the value back.
pub proof fn lemma_le_round_trip(v: nat, n: nat)
    requires
        v < pow256(n),
    ensures
        le_value(le_bytes(v, n)) == v,
    decreases n,
{
    if n > 0 {
        let p = pow256((n - 1) as nat);
        assert(v / 256 < p) by (nonlinear_arith)
            requires
                v < 256 * p,
        ;
        lemma_le_round_trip(v / 256, (n - 1) as nat);
        let s = le_bytes(v, n);
        assert(s.drop_first() == le_bytes(v / 256, (n - 1) as nat));
        assert(v == v % 256 + 256 * (v / 256)) by (nonlinear_arith);
    }
}

/// A fixed-width integer that the codec can read and write.
///
/// Each value has `width()` bytes and is known by its bit pattern `bits()`,
/// the unsigned number those bytes spell; `of_bits` turns a bit pattern back
/// into the value.
pub trait Prim: Sized + Copy {
    spec fn width() -> nat;

    spec fn bits(self) -> nat;

    spec fn of_bits(b: nat) -> Self;

    /// The width in bytes.
    fn size() -> (r: u32)
        ensures
            r as nat == Self::width(),
            1 <= r <= 8,
    ;

    fn to_bits(self) -> (r: u64)
        ensures
            r as nat == self.bits(),
    ;

    fn from_bits(b: u64) -> (r: Self)
        requires
            (b as nat) < pow256(Self::width()),
        ensures
            r == Self::of_bits(b as nat),
    ;

    /// The bit pattern fits the width and determines the value.
    proof fn lemma_bits(self)
        ensures
            self.bits() < pow256(Self::width()),
            Self::of_bits(self.bits()) == self,
    ;
}

impl Prim for u8 {
    open spec fn width() -> nat {
        1
    }

    open spec fn bits(self) -> nat {
        self as nat
    }

    open spec fn of_bits(b: nat) -> u8 {
        b as u8
    }

    fn size() -> (r: u32) {
        1
    }

    fn to_bits(self) -> (r: u64) {
        self as u64
    }

    fn from_bits(b: u64) -> (r: u8) {
        proof {
            lemma_pow256_values();
        }
        b as u8
    }

    proof fn lemma_bits(self) {
        lemma_pow256_values();
    }
}

impl Prim for u16 {
    open spec fn width() -> nat {
        2
    }

    open spec fn bits(self) -> nat {
        self as nat
    }

    open spec fn of_bits(b: nat) -> u16 {
        b as u16
    }

    fn size() -> (r: u32) {
        2
    }

    fn to_bits(self) -> (r: u64) {
        self as u64
    }

    fn from_bits(b: u64) -> (r: u16) {
        proof {
            lemma_pow256_values();
        }
        b as u16
    }

    proof fn lemma_bits(self) {
        lemma_pow256_values();
    }
}

impl Prim for u32 {
    open spec fn width() -> nat {
        4
    }

    open spec fn bits(self) -> nat {
        self as nat
    }

    open spec fn of_bits(b: nat) -> u32 {
        b as u32
    }

    fn size() -> (r: u32) {
        4
    }

    fn to_bits(self) -> (r: u64) {
        self as u64
    }

    fn from_bits(b: u64) -> (r: u32) {
        proof {
            lemma_pow256_values();
        }
        b as u32
    }

    proof fn lemma_bits(self) {
        lemma_pow256_values();
    }
}

impl Prim for u64 {
    open spec fn width() -> nat {
        8
    }

    open spec fn bits(self) -> nat {
        self as nat
    }

    open spec fn of_bits(b: nat) -> u64 {
        b as u64
    }

    fn size() -> (r: u32) {
        8
    }

    fn to_bits(self) -> (r: u64) {
        self as u64
    }

    fn from_bits(b: u64) -> (r: u64) {
        proof {
            lemma_pow256_values();
        }
        b as u64
    }

    proof fn lemma_bits(self) {
        lemma_pow256_values();
    }
}

impl Prim for i8 {
    open spec fn width() -> nat {
        1
    }

    open spec fn bits(self) -> nat {
        if self >= 0 {
            self as nat
        } else {
            (self + 0x100) as nat
        }
    }

    open spec fn of_bits(b: nat) -> i8 {
        if b < 0x80 {
            b as i8
        } else {
            (b - 0x100) as i8
        }
    }

    fn size() -> (r: u32) {
        1
    }

    fn to_bits(self) -> (r: u64) {
        if self >= 0 {
            self as u64
        } else {
            (self as i16 + 0x100) as u64
        }
    }

    fn from_bits(b: u64) -> (r: i8) {
        proof {
            lemma_pow256_values();
        }
        if b < 0x80 {
            b as i8
        } else {
            (b as i16 - 0x100) as i8
        }
    }

    proof fn lemma_bits(self) {
        lemma_pow256_values();
    }
}

impl Prim for i16 {
    open spec fn width() -> nat {
        2
    }

    open spec fn bits(self) -> nat {
        if self >= 0 {
            self as nat
        } else {
            (self + 0x1_0000) as nat
        }
    }

    open spec fn of_bits(b: nat) -> i16 {
        if b < 0x8000 {
            b as i16
        } else {
            (b - 0x1_0000) as i16
        }
    }

    fn size() -> (r: u32) {
        2
    }

    fn to_bits(self) -> (r: u64) {
        if self >= 0 {
            self as u64
        } else {
            (self as i32 + 0x1_0000) as u64
        }
    }

    fn from_bits(b: u64) -> (r: i16) {
        proof {
            lemma_pow256_values();
        }
        if b < 0x8000 {
            b as i16
        } else {
            (b as i32 - 0x1_0000) as i16
        }
    }

    proof fn lemma_bits(self) {
        lemma_pow256_values();
    }
}

impl Prim for i32 {
    open spec fn width() -> nat {
        4
    }

    open spec fn bits(self) -> nat {
        if self >= 0 {
            self as nat
        } else {
            (self + 0x1_0000_0000) as nat
        }
    }

    open spec fn of_bits(b: nat) -> i32 {
        if b < 0x8000_0000 {
            b as i32
        } else {
            (b - 0x1_0000_0000) as i32
        }
    }

    fn size() -> (r: u32) {
        4
    }

    fn to_bits(self) -> (r: u64) {
        if self >= 0 {
            self as u64
        } else {
            (self as i64 + 0x1_0000_0000) as u64
        }
    }

    fn from_bits(b: u64) -> (r: i32) {
        proof {
            lemma_pow256_values();
        }
        if b < 0x8000_0000 {
            b as i32
        } else {
            (b as i64 - 0x1_0000_0000) as i32
        }
    }

    proof fn lemma_bits(self) {
        lemma_pow256_values();
    }
}

impl Prim for i64 {
    open spec fn width() -> nat {
        8
    }

    open spec fn bits(self) -> nat {
        if self >= 0 {
            self as nat
        } else {
            (self + 0x1_0000_0000_0000_0000) as nat
        }
    }

    open spec fn of_bits(b: nat) -> i64 {
        if b < 0x8000_0000_0000_0000 {
            b as i64
        } else {
            (b - 0x1_0000_0000_0000_0000) as i64
        }
    }

    fn size() -> (r: u32) {
        8
    }

    fn to_bits(self) -> (r: u64) {
        if self >= 0 {
            self as u64
        } else {
            (self as i128 + 0x1_0000_0000_0000_0000) as u64
        }
    }

    fn from_bits(b: u64) -> (r: i64) {
        proof {
            lemma_pow256_values();
        }
        if b < 0x8000_0000_0000_0000 {
            b as i64
        } else {
            (b as i128 - 0x1_0000_0000_0000_0000) as i64
        }
    }

    proof fn lemma_bits(self) {
        lemma_pow256_values();
    }
}

} // verus!
