//! The size of a response body, in bytes.

use crate::decimal::{decimal, push_decimal, push_two_digits, two_digits};
use std::ops::Add;
use vstd::prelude::*;
use vstd::std_specs::ops::AddSpec;

verus! {

/// Bytes in a kilobyte.
pub const KILO: u64 = 1024;

/// Bytes in a megabyte.
pub const MEGS: u64 = 1024 * 1024;

/// Bytes in a gigabyte.
pub const GIGS: u64 = 1024 * 1024 * 1024;

/// The quotient `n / d` rounded to the nearest whole number; a quotient that
/// lies exactly half way between two whole numbers goes to the even one.
pub open spec fn round_half_even(n: nat, d: nat) -> nat {
    let q = n / d;
    let r = n % d;
    if 2 * r > d || (2 * r == d && q % 2 == 1) {
        q + 1
    } else {
        q
    }
}

/// `bytes / unit` in hundredths, rounded half to even.
pub open spec fn hundredths(bytes: nat, unit: nat) -> nat {
    round_half_even(100 * bytes, unit)
}

/// `bytes / unit` written with two decimals.
pub open spec fn scaled(bytes: nat, unit: nat) -> Seq<char> {
    let h = hundredths(bytes, unit);
    decimal(h / 100) + seq!['.'] + two_digits(h % 100)
}

/// The text for a length of `bytes` bytes. The unit is the largest of GB, MB
/// and KB that the length strictly exceeds, and the value then has two
/// decimals; a length of at most one kilobyte is written in whole bytes.
pub open spec fn rendered(bytes: nat) -> Seq<char> {
    if bytes > GIGS {
        scaled(bytes, GIGS as nat) + seq![' ', 'G', 'B']
    } else if bytes > MEGS {
        scaled(bytes, MEGS as nat) + seq![' ', 'M', 'B']
    } else if bytes > KILO {
        scaled(bytes, KILO as nat) + seq![' ', 'K', 'B']
    } else {
        decimal(bytes) + seq![' ', 'B']
    }
}

/// `bytes / unit` in hundredths, rounded half to even.
fn hundredths_of(bytes: u64, unit: u64) -> (h: u128)
    requires
        unit > 0,
    ensures
        h == hundredths(bytes as nat, unit as nat),
{
    let n: u128 = 100 * (bytes as u128);
    let d: u128 = unit as u128;
    let q: u128 = n / d;
    let r: u128 = n % d;
    if 2 * r > d || (2 * r == d && q % 2 == 1) {
        q + 1
    } else {
        q
    }
}

/// Appends `bytes / unit` with two decimals, then `suffix`, to `out`.
fn push_scaled(out: &mut String, bytes: u64, unit: u64, suffix: &str)
    requires
        unit > 0,
    ensures
        final(out)@ == old(out)@ + scaled(bytes as nat, unit as nat) + suffix@,
{
    let h: u128 = hundredths_of(bytes, unit);
    push_decimal(out, h / 100);
    out.append(".");
    push_two_digits(out, (h % 100) as u8);
    out.append(suffix);
    proof {
        reveal_strlit(".");
        assert("."@ =~= seq!['.']);
        assert(out@ =~= old(out)@ + scaled(bytes as nat, unit as nat) + suffix@);
    }
}

/// The number of bytes (octets) in the payload of a response, headers not
/// included.
#[derive(Debug, PartialEq, Eq, Structural, PartialOrd, Ord)]
pub struct ContentLength(u64);

impl View for ContentLength {
    type V = nat;

    /// The byte count.
    closed spec fn view(&self) -> nat {
        self.0 as nat
    }
}

impl ContentLength {
    /// The length of an empty payload.
    pub fn zero() -> (length: ContentLength)
        ensures
            length@ == 0,
    {
        ContentLength(0)
    }

    /// A content length of `bytes` bytes.
    pub fn new(bytes: u64) -> (length: ContentLength)
        ensures
            length@ == bytes,
    {
        ContentLength(bytes)
    }

    /// The number of bytes.
    pub fn bytes(&self) -> (bytes: u64)
        ensures
            bytes == self@,
    {
        self.0
    }

    /// The length as text for people to read: `"500 B"`, `"488.28 KB"`.
    pub fn render(&self) -> (text: String)
        ensures
            text@ == rendered(self@),
    {
        let mut text = String::new();
        proof {
            reveal_strlit(" GB");
            reveal_strlit(" MB");
            reveal_strlit(" KB");
            reveal_strlit(" B");
            assert(" GB"@ =~= seq![' ', 'G', 'B']);
            assert(" MB"@ =~= seq![' ', 'M', 'B']);
            assert(" KB"@ =~= seq![' ', 'K', 'B']);
            assert(" B"@ =~= seq![' ', 'B']);
        }
        if self.0 > GIGS {
            push_scaled(&mut text, self.0, GIGS, " GB");
        } else if self.0 > MEGS {
            push_scaled(&mut text, self.0, MEGS, " MB");
        } else if self.0 > KILO {
            push_scaled(&mut text, self.0, KILO, " KB");
        } else {
            push_decimal(&mut text, self.0 as u128);
            text.append(" B");
        }
        assert(text@ =~= rendered(self@));
        text
    }
}

impl vstd::std_specs::ops::AddSpecImpl for ContentLength {
    open spec fn obeys_add_spec() -> bool {
        true
    }

    open spec fn add_req(self, rhs: ContentLength) -> bool {
        self@ + rhs@ <= u64::MAX
    }

    closed spec fn add_spec(self, rhs: ContentLength) -> ContentLength {
        ContentLength((self.0 + rhs.0) as u64)
    }
}

impl Add for ContentLength {
    type Output = ContentLength;

    fn add(self, rhs: ContentLength) -> (sum: ContentLength)
        ensures
            sum@ == self@ + rhs@,
    {
        ContentLength(self.0 + rhs.0)
    }
}

impl<'a> vstd::std_specs::ops::AddSpecImpl for &'a ContentLength {
    open spec fn obeys_add_spec() -> bool {
        true
    }

    open spec fn add_req(self, rhs: &'a ContentLength) -> bool {
        self@ + rhs@ <= u64::MAX
    }

    closed spec fn add_spec(self, rhs: &'a ContentLength) -> ContentLength {
        ContentLength((self.0 + rhs.0) as u64)
    }
}

impl<'a> Add for &'a ContentLength {
    type Output = ContentLength;

    fn add(self, rhs: &ContentLength) -> (sum: ContentLength)
        ensures
            sum@ == self@ + rhs@,
    {
        ContentLength(self.0 + rhs.0)
    }
}

impl<'a> vstd::std_specs::ops::AddSpecImpl<&'a ContentLength> for ContentLength {
    open spec fn obeys_add_spec() -> bool {
        true
    }

    open spec fn add_req(self, rhs: &'a ContentLength) -> bool {
        self@ + rhs@ <= u64::MAX
    }

    closed spec fn add_spec(self, rhs: &'a ContentLength) -> ContentLength {
        ContentLength((self.0 + rhs.0) as u64)
    }
}

impl<'a> Add<&'a ContentLength> for ContentLength {
    type Output = ContentLength;

    fn add(self, rhs: &ContentLength) -> (sum: ContentLength)
        ensures
            sum@ == self@ + rhs@,
    {
        ContentLength(self.0 + rhs.0)
    }
}

impl<'a> vstd::std_specs::ops::AddSpecImpl<ContentLength> for &'a ContentLength {
    open spec fn obeys_add_spec() -> bool {
        true
    }

    open spec fn add_req(self, rhs: ContentLength) -> bool {
        self@ + rhs@ <= u64::MAX
    }

    closed spec fn add_spec(self, rhs: ContentLength) -> ContentLength {
        ContentLength((self.0 + rhs.0) as u64)
    }
}

impl<'a> Add<ContentLength> for &'a ContentLength {
    type Output = ContentLength;

    fn add(self, rhs: ContentLength) -> (sum: ContentLength)
        ensures
            sum@ == self@ + rhs@,
    {
        ContentLength(self.0 + rhs.0)
    }
}

/// A content length holds no more bytes than `u64` counts.
pub proof fn lemma_bytes_fit(a: ContentLength)
    ensures
        a@ <= u64::MAX,
{
}

/// What an addition returns holds the bytes of both sides.
pub proof fn lemma_add_sums_bytes(a: ContentLength, b: ContentLength)
    requires
        a@ + b@ <= u64::MAX,
    ensures
        a.add_spec(b)@ == a@ + b@,
{
}

/// Two content lengths of the same number of bytes are the same value.
pub proof fn lemma_equal_by_bytes(a: ContentLength, b: ContentLength)
    requires
        a@ == b@,
    ensures
        a == b,
{
}

/// Addition is commutative.
pub proof fn lemma_add_commutative(a: ContentLength, b: ContentLength)
    requires
        a@ + b@ <= u64::MAX,
    ensures
        a.add_spec(b) == b.add_spec(a),
{
}

/// Addition is associative.
pub proof fn lemma_add_associative(a: ContentLength, b: ContentLength, c: ContentLength)
    requires
        a@ + b@ + c@ <= u64::MAX,
    ensures
        a.add_spec(b).add_spec(c) == a.add_spec(b.add_spec(c)),
{
}

/// Zero is the neutral element of addition.
pub proof fn lemma_add_zero(a: ContentLength, zero: ContentLength)
    requires
        zero@ == 0,
    ensures
        a.add_spec(zero) == a,
        zero.add_spec(a) == a,
{
}

/// The sum is the same whether a side is handed over by value or by
/// reference.
pub proof fn lemma_add_forms_agree(a: ContentLength, b: ContentLength)
    requires
        a@ + b@ <= u64::MAX,
    ensures
        (&a).add_spec(&b) == a.add_spec(b),
        a.add_spec(&b) == a.add_spec(b),
        (&a).add_spec(b) == a.add_spec(b),
{
}

} // verus!
