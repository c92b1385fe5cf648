//! Big-endian integers at the start of a byte slice.

use std::fmt::Error;
use vstd::prelude::*;

verus! {

/// `std::fmt::Error`, the error of a slice that is too short.
#[verifier::external_type_specification]
#[verifier::external_body]
pub struct ExFmtError(Error);

/// Makes a `std::fmt::Error`, a unit value of which nothing is to be said.
#[verifier::external_body]
fn fmt_error() -> Error {
    Error
}

/// The number of values that `n` bytes can take.
pub open spec fn pow256(n: nat) -> nat
    decreases n,
{
    if n == 0 {
        1
    } else {
        256 * pow256((n - 1) as nat)
    }
}

/// The number that `bytes` spell, most significant byte first.
pub open spec fn be_value(bytes: Seq<u8>) -> nat
    decreases bytes.len(),
{
    if bytes.len() == 0 {
        0
    } else {
        256 * be_value(bytes.drop_last()) + bytes.last() as nat
    }
}

/// `n` bytes spell a number below `pow256(n)`.
pub proof fn lemma_be_value_bound(bytes: Seq<u8>)
    ensures
        be_value(bytes) < pow256(bytes.len()),
    decreases bytes.len(),
{
    if bytes.len() > 0 {
        lemma_be_value_bound(bytes.drop_last());
    }
}

/// An unsigned integer type that can be read from bytes.
pub trait BigEndianValue: Sized {
    /// The number of bytes that a value takes.
    spec fn width() -> nat;

    /// The number that a value stands for.
    spec fn value(self) -> nat;

    /// The number of bytes that a value takes: sixteen at most.
    fn size() -> (n: usize)
        ensures
            n == Self::width(),
            n <= 16,
    ;

    /// The value that stands for `number`.
    fn from_number(number: u128) -> (v: Self)
        requires
            number < pow256(Self::width()),
        ensures
            v.value() == number,
    ;
}

impl BigEndianValue for u8 {
    open spec fn width() -> nat {
        1
    }

    open spec fn value(self) -> nat {
        self as nat
    }

    fn size() -> (n: usize) {
        1
    }

    fn from_number(number: u128) -> (v: Self) {
        proof {
            reveal_with_fuel(pow256, 2);
        }
        number as u8
    }
}

impl BigEndianValue for u16 {
    open spec fn width() -> nat {
        2
    }

    open spec fn value(self) -> nat {
        self as nat
    }

    fn size() -> (n: usize) {
        2
    }

    fn from_number(number: u128) -> (v: Self) {
        proof {
            reveal_with_fuel(pow256, 3);
        }
        number as u16
    }
}

impl BigEndianValue for u32 {
    open spec fn width() -> nat {
        4
    }

    open spec fn value(self) -> nat {
        self as nat
    }

    fn size() -> (n: usize) {
        4
    }

    fn from_number(number: u128) -> (v: Self) {
        proof {
            reveal_with_fuel(pow256, 5);
        }
        number as u32
    }
}

impl BigEndianValue for u64 {
    open spec fn width() -> nat {
        8
    }

    open spec fn value(self) -> nat {
        self as nat
    }

    fn size() -> (n: usize) {
        8
    }

    fn from_number(number: u128) -> (v: Self) {
        proof {
            reveal_with_fuel(pow256, 9);
        }
        number as u64
    }
}

impl BigEndianValue for u128 {
    open spec fn width() -> nat {
        16
    }

    open spec fn value(self) -> nat {
        self as nat
    }

    fn size() -> (n: usize) {
        16
    }

    fn from_number(number: u128) -> (v: Self) {
        number
    }
}

/// A byte slice that starts with a big-endian integer.
pub struct BigEndian<'a>(pub &'a [u8]);

impl<'a> BigEndian<'a> {
    /// Reads a `T` from the first bytes of the slice, most significant byte
    /// first. Fails if the slice is shorter than a `T`.
    pub fn get<T: BigEndianValue>(self) -> (r: Result<T, Error>)
        ensures
            r is Ok <==> self.0@.len() >= T::width(),
            r matches Ok(v) ==> v.value() == be_value(self.0@.take(T::width() as int)),
    {
        let s = T::size();
        if self.0.len() < s {
            return Err(fmt_error());
        }
        let mut r: u128 = 0;
        let mut i: usize = 0;
        while i < s
            invariant
                i <= s <= 16,
                s <= self.0@.len(),
                r == be_value(self.0@.take(i as int)),
            decreases s - i,
        {
            proof {
                let bytes = self.0@;
                lemma_be_value_bound(bytes.take(i as int));
                lemma_pow256_monotonic(i as nat, 15);
                reveal_with_fuel(pow256, 16);
                assert(bytes.take(i + 1).drop_last() =~= bytes.take(i as int));
            }
            r = r * 256 + self.0[i] as u128;
            i = i + 1;
        }
        proof {
            lemma_be_value_bound(self.0@.take(s as int));
        }
        Ok(T::from_number(r))
    }
}

/// More bytes can take more values.
pub proof fn lemma_pow256_monotonic(m: nat, n: nat)
    requires
        m <= n,
    ensures
        pow256(m) <= pow256(n),
    decreases n,
{
    if m < n {
        lemma_pow256_monotonic(m, (n - 1) as nat);
    }
}

} // verus!
