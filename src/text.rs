//! Text renderings of values, and the outside functions that make them.
use vstd::prelude::*;

verus! {

/// The character of digit `d` (below 16), in lower case.
pub open spec fn digit_char(d: int) -> char {
    if d < 10 {
        (('0' as int) + d) as char
    } else {
        (('a' as int) + d - 10) as char
    }
}

/// The digits of `n` in base `base`, most significant first, with no leading
/// zeros (and "0" for zero).
pub open spec fn digits_of(n: nat, base: nat) -> Seq<char>
    recommends
        2 <= base <= 16,
    decreases n,
    via digits_of_decreases
{
    if base < 2 || n < base {
        seq![digit_char(n as int)]
    } else {
        digits_of(n / base, base).push(digit_char((n % base) as int))
    }
}

#[via_fn]
proof fn digits_of_decreases(n: nat, base: nat) {
    if !(base < 2 || n < base) {
        assert(n / base < n) by (nonlinear_arith)
            requires
                base >= 2,
                n >= base,
        ;
    }
}

/// The decimal text of `v`.
pub open spec fn decimal_of(v: int) -> Seq<char> {
    if v < 0 {
        seq!['-'] + digits_of((-v) as nat, 10)
    } else {
        digits_of(v as nat, 10)
    }
}

/// The lowest `k` hexadecimal digits of `n`, most significant first.
pub open spec fn hex_of(n: nat, k: nat) -> Seq<char>
    decreases k,
{
    if k == 0 {
        Seq::empty()
    } else {
        hex_of(n / 16, (k - 1) as nat).push(digit_char((n % 16) as int))
    }
}

/// The hyphenated lower-case text of the UUID whose 128-bit value is `u`.
pub open spec fn hyphenated_of(u: u128) -> Seq<char> {
    let h = hex_of(u as nat, 32);
    h.subrange(0, 8) + seq!['-'] + h.subrange(8, 12) + seq!['-'] + h.subrange(12, 16) + seq!['-']
        + h.subrange(16, 20) + seq!['-'] + h.subrange(20, 32)
}

/// The RFC 3339 text of the UTC time `ns` nanoseconds after the Unix epoch.
pub uninterp spec fn rfc3339_of(ns: i64) -> Seq<char>;

/// The name-based (version 5) UUID of the 16 big-endian bytes of `name`
/// within the namespace UUID `ns`.
pub uninterp spec fn v5_of(ns: u128, name: u128) -> u128;

/// Relies on `i64`'s `Display`, through `ToString::to_string`: the decimal text.
#[verifier::external_body]
pub(crate) fn int_text(v: i64) -> (r: String)
    ensures
        r@ == decimal_of(v as int),
{
    v.to_string()
}

/// Relies on `u64`'s `Display`, through `ToString::to_string`: the decimal text.
#[verifier::external_body]
pub(crate) fn nat_text(v: u64) -> (r: String)
    ensures
        r@ == decimal_of(v as int),
{
    v.to_string()
}

/// Relies on `u32`'s `Octal` formatting (`{:o}`): the base-8 digits.
#[verifier::external_body]
pub(crate) fn octal_text(v: u32) -> (r: String)
    ensures
        r@ == digits_of(v as nat, 8),
{
    format!("{:o}", v)
}

/// Relies on `uuid::Uuid::from_u128` and the `Hyphenated` formatter of
/// `uuid::Uuid::hyphenated`: the 8-4-4-4-12 lower-case hexadecimal text.
#[verifier::external_body]
pub(crate) fn uuid_text(u: u128) -> (r: String)
    ensures
        r@ == hyphenated_of(u),
{
    uuid::Uuid::from_u128(u).hyphenated().to_string()
}

/// Relies on `chrono::DateTime::<Utc>::from_timestamp_nanos` and
/// `DateTime::to_rfc3339`: the RFC 3339 text of the time.
#[verifier::external_body]
pub(crate) fn time_text(ns: i64) -> (r: String)
    ensures
        r@ == rfc3339_of(ns),
{
    chrono::DateTime::from_timestamp_nanos(ns).to_rfc3339()
}

/// Relies on `uuid::Uuid::new_v5`, with `Uuid::from_u128`, `Uuid::as_bytes`
/// and `Uuid::as_u128`: the version 5 UUID of `name`'s bytes within `ns`.
#[verifier::external_body]
pub(crate) fn uuid_v5(ns: u128, name: u128) -> (r: u128)
    ensures
        r == v5_of(ns, name),
{
    uuid::Uuid::new_v5(&uuid::Uuid::from_u128(ns), uuid::Uuid::from_u128(name).as_bytes()).as_u128()
}

} // verus!
