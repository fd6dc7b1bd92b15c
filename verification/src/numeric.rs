//! Plain-value carriers for the quantities that cross the storage boundary.
//!
//! Every id, size, and price is an arbitrary-precision number held as a
//! base-10 digit string, and every timestamp is a seconds/nanoseconds pair,
//! so that no value is ever rounded: a record is stored and returned
//! bit-for-bit as it was given. Floating point never appears on this path.

use crate::error::DbError;
use vstd::prelude::*;

verus! {

/// Well-formed digit string: base-10 digits, most significant first, with no
/// leading zero. The empty string denotes zero.
pub open spec fn wf_digits(s: Seq<u8>) -> bool {
    &&& forall|i: int| 0 <= i < s.len() ==> s[i] < 10
    &&& s.len() > 0 ==> s[0] != 0
}

/// The number a digit string denotes, most significant digit first.
pub open spec fn digits_value(s: Seq<u8>) -> nat
    decreases s.len(),
{
    if s.len() == 0 {
        0
    } else {
        digits_value(s.drop_last()) * 10 + s.last() as nat
    }
}

/// Ten to the given power.
pub open spec fn pow10(n: nat) -> nat
    decreases n,
{
    if n == 0 {
        1
    } else {
        10 * pow10((n - 1) as nat)
    }
}

proof fn lemma_pow10_positive(n: nat)
    ensures
        pow10(n) >= 1,
    decreases n,
{
    if n > 0 {
        lemma_pow10_positive((n - 1) as nat);
    }
}

proof fn lemma_pow10_increases(a: nat, b: nat)
    requires
        a <= b,
    ensures
        pow10(a) <= pow10(b),
    decreases b,
{
    if a < b {
        lemma_pow10_increases(a, (b - 1) as nat);
    }
}

proof fn lemma_digits_value_below_pow10(s: Seq<u8>)
    requires
        forall|i: int| 0 <= i < s.len() ==> s[i] < 10,
    ensures
        digits_value(s) < pow10(s.len() as nat),
    decreases s.len(),
{
    if s.len() > 0 {
        lemma_digits_value_below_pow10(s.drop_last());
    }
}

proof fn lemma_digits_value_at_least_pow10(s: Seq<u8>)
    requires
        wf_digits(s),
        s.len() > 0,
    ensures
        digits_value(s) >= pow10((s.len() - 1) as nat),
    decreases s.len(),
{
    if s.len() == 1 {
        assert(digits_value(s.drop_last()) == 0);
    } else {
        assert(wf_digits(s.drop_last())) by {
            assert(forall|i: int|
                0 <= i < s.len() - 1 ==> #[trigger] s.drop_last()[i] == s[i]);
        }
        lemma_digits_value_at_least_pow10(s.drop_last());
    }
}

/// Well-formed digit strings are a faithful key: two of them denote the
/// same number only when they are the same string. Holding an
/// arbitrary-precision id in canonical form and comparing it digit for
/// digit is therefore the same as comparing the numbers themselves.
pub proof fn lemma_digits_value_injective(a: Seq<u8>, b: Seq<u8>)
    requires
        wf_digits(a),
        wf_digits(b),
        digits_value(a) == digits_value(b),
    ensures
        a == b,
    decreases a.len(),
{
    if a.len() == 0 && b.len() == 0 {
        assert(a =~= b);
    } else if a.len() == 0 {
        lemma_digits_value_at_least_pow10(b);
        lemma_pow10_positive((b.len() - 1) as nat);
    } else if b.len() == 0 {
        lemma_digits_value_at_least_pow10(a);
        lemma_pow10_positive((a.len() - 1) as nat);
    } else if a.len() < b.len() {
        lemma_digits_value_below_pow10(a);
        lemma_digits_value_at_least_pow10(b);
        lemma_pow10_increases(a.len() as nat, (b.len() - 1) as nat);
    } else if b.len() < a.len() {
        lemma_digits_value_below_pow10(b);
        lemma_digits_value_at_least_pow10(a);
        lemma_pow10_increases(b.len() as nat, (a.len() - 1) as nat);
    } else {
        let va: nat = digits_value(a.drop_last());
        let vb: nat = digits_value(b.drop_last());
        let ra: u8 = a.last();
        let rb: u8 = b.last();
        assert(va * 10 + ra as nat == vb * 10 + rb as nat);
        assert(va == vb && ra == rb) by (nonlinear_arith)
            requires
                va * 10 + ra as nat == vb * 10 + rb as nat,
                ra < 10,
                rb < 10,
        ;
        assert(wf_digits(a.drop_last())) by {
            assert(forall|i: int|
                0 <= i < a.len() - 1 ==> #[trigger] a.drop_last()[i] == a[i]);
        }
        assert(wf_digits(b.drop_last())) by {
            assert(forall|i: int|
                0 <= i < b.len() - 1 ==> #[trigger] b.drop_last()[i] == b[i]);
        }
        lemma_digits_value_injective(a.drop_last(), b.drop_last());
        assert(a =~= b) by {
            assert(forall|i: int|
                0 <= i < a.len() - 1 ==> #[trigger] a[i] == a.drop_last()[i]);
            assert(forall|i: int|
                0 <= i < b.len() - 1 ==> #[trigger] b[i] == b.drop_last()[i]);
        }
    }
}

/// An arbitrary-precision non-negative integer, used for chain-assigned ids
/// (market ids, order ids, underwriter and custodian ids).
#[derive(Debug)]
pub struct BigUint {
    pub digits: Vec<u8>,
}

impl View for BigUint {
    type V = Seq<u8>;

    open spec fn view(&self) -> Seq<u8> {
        self.digits@
    }
}

impl BigUint {
    /// The digit string is well formed.
    pub open spec fn wf(&self) -> bool {
        wf_digits(self@)
    }

    /// Accepts a digit string as a number, rejecting a malformed one before
    /// it can reach any stored record.
    pub fn from_digits(digits: Vec<u8>) -> (r: Result<BigUint, DbError>)
        ensures
            match r {
                Ok(u) => u@ == digits@ && u.wf(),
                Err(e) => e == DbError::InvalidNumber && !wf_digits(digits@),
            },
    {
        if digits.len() > 0 && digits[0] == 0 {
            return Err(DbError::InvalidNumber);
        }
        let mut i: usize = 0;
        while i < digits.len()
            invariant
                i <= digits@.len(),
                forall|j: int| 0 <= j < i ==> digits@[j] < 10,
            decreases digits@.len() - i,
        {
            if digits[i] >= 10 {
                return Err(DbError::InvalidNumber);
            }
            i += 1;
        }
        Ok(BigUint { digits })
    }
}

impl Clone for BigUint {
    /// A clone carries the same digit string.
    fn clone(&self) -> (res: Self)
        ensures
            res@ == self@,
    {
        let digits = self.digits.clone();
        proof {
            assert(digits@ =~= self.digits@);
        }
        BigUint { digits }
    }
}

impl PartialEq for BigUint {
    fn eq(&self, other: &BigUint) -> (r: bool) {
        if self.digits.len() != other.digits.len() {
            return false;
        }
        let mut i: usize = 0;
        while i < self.digits.len()
            invariant
                i <= self.digits@.len(),
                self.digits@.len() == other.digits@.len(),
                forall|j: int| 0 <= j < i ==> self.digits@[j] == other.digits@[j],
            decreases self.digits@.len() - i,
        {
            if self.digits[i] != other.digits[i] {
                return false;
            }
            i += 1;
        }
        proof {
            assert(self.digits@ =~= other.digits@);
        }
        true
    }
}

impl vstd::std_specs::cmp::PartialEqSpecImpl for BigUint {
    open spec fn obeys_eq_spec() -> bool {
        true
    }

    open spec fn eq_spec(&self, other: &BigUint) -> bool {
        self@ == other@
    }
}

/// The mathematical shape of a [`Decimal`]: sign, digit string of the
/// unscaled magnitude, and the power of ten the magnitude is divided by.
pub struct DecimalView {
    pub negative: bool,
    pub digits: Seq<u8>,
    pub scale: int,
}

impl DecimalView {
    /// The digit string is well formed and zero carries no sign.
    pub open spec fn wf(self) -> bool {
        &&& wf_digits(self.digits)
        &&& self.digits.len() == 0 ==> !self.negative
    }
}

/// An arbitrary-precision decimal: `magnitude / 10^scale`, negated when
/// `negative` holds. Used for lot, tick, and minimum sizes and for order
/// sizes and prices.
#[derive(Debug)]
pub struct Decimal {
    pub negative: bool,
    pub magnitude: BigUint,
    pub scale: i64,
}

impl View for Decimal {
    type V = DecimalView;

    open spec fn view(&self) -> DecimalView {
        DecimalView { negative: self.negative, digits: self.magnitude@, scale: self.scale as int }
    }
}

impl Decimal {
    /// The representation is well formed.
    pub open spec fn wf(&self) -> bool {
        self@.wf()
    }

    /// Builds the decimal `magnitude / 10^scale` (negated when `negative`),
    /// rejecting a malformed digit string or a signed zero.
    pub fn new(negative: bool, digits: Vec<u8>, scale: i64) -> (r: Result<Decimal, DbError>)
        ensures
            match r {
                Ok(d) => ({
                    &&& d@ == (DecimalView { negative, digits: digits@, scale: scale as int })
                    &&& d.wf()
                }),
                Err(e) => ({
                    &&& e == DbError::InvalidNumber
                    &&& !(DecimalView { negative, digits: digits@, scale: scale as int }).wf()
                }),
            },
    {
        if negative && digits.len() == 0 {
            return Err(DbError::InvalidNumber);
        }
        match BigUint::from_digits(digits) {
            Ok(magnitude) => Ok(Decimal { negative, magnitude, scale }),
            Err(e) => Err(e),
        }
    }
}

impl Clone for Decimal {
    /// A clone carries the same sign, digits, and scale.
    fn clone(&self) -> (res: Self)
        ensures
            res@ == self@,
    {
        Decimal { negative: self.negative, magnitude: self.magnitude.clone(), scale: self.scale }
    }
}

impl PartialEq for Decimal {
    fn eq(&self, other: &Decimal) -> (r: bool) {
        self.negative == other.negative && self.scale == other.scale
            && self.magnitude == other.magnitude
    }
}

impl vstd::std_specs::cmp::PartialEqSpecImpl for Decimal {
    open spec fn obeys_eq_spec() -> bool {
        true
    }

    open spec fn eq_spec(&self, other: &Decimal) -> bool {
        self@ == other@
    }
}

/// A UTC instant: whole seconds since the Unix epoch and a nanosecond
/// remainder below one billion. Carries timezone-aware timestamps without
/// loss.
#[derive(Clone, Copy, PartialEq, Eq, Structural, Debug)]
pub struct Timestamp {
    pub seconds: i64,
    pub nanos: u32,
}

impl Timestamp {
    /// The nanosecond part stays below one billion.
    pub open spec fn wf(&self) -> bool {
        self.nanos < 1_000_000_000
    }

    /// Builds the instant `seconds` + `nanos` after the epoch, rejecting an
    /// out-of-range nanosecond part.
    pub fn new(seconds: i64, nanos: u32) -> (r: Result<Timestamp, DbError>)
        ensures
            match r {
                Ok(t) => t == (Timestamp { seconds, nanos }) && t.wf(),
                Err(e) => e == DbError::InvalidTimestamp && nanos >= 1_000_000_000,
            },
    {
        if nanos >= 1_000_000_000 {
            return Err(DbError::InvalidTimestamp);
        }
        Ok(Timestamp { seconds, nanos })
    }
}

} // verus!
