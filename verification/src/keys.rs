//! Key creation: opaque identity strings for envelopes and events,
//! derived from the system clock at the moment of the call.

use vstd::prelude::*;

verus! {

#[verifier::external_type_specification]
#[verifier::external_body]
pub struct ExSystemTime(std::time::SystemTime);

/// Relies on std::time::SystemTime::now: a reading of the system
/// clock, different from call to call, so nothing is promised of it.
pub assume_specification[ std::time::SystemTime::now ]() -> std::time::SystemTime;

/// Relies on core::time::Duration::as_nanos: the total span in whole
/// nanoseconds. The duration is opaque here, so nothing more is
/// promised of the number.
pub assume_specification[ core::time::Duration::as_nanos ](d: &core::time::Duration) -> u128;

/// Relies on std::time::SystemTime::duration_since: the span from the
/// epoch to this reading, or `None` when the clock stands before the
/// epoch.
#[verifier::external_body]
fn since_unix_epoch(t: &std::time::SystemTime) -> (r: Option<core::time::Duration>) {
    match t.duration_since(std::time::UNIX_EPOCH) {
        Ok(d) => Some(d),
        Err(_) => None,
    }
}

/// Relies on String::push: appends the given character to the end of
/// the string.
pub assume_specification[ String::push ](s: &mut String, ch: char)
    ensures
        final(s)@ == old(s)@.push(ch),
;

/// The decimal digit characters, indexed by value.
pub const DIGITS: [char; 10] = ['0', '1', '2', '3', '4', '5', '6', '7', '8', '9'];

/// The decimal rendering of a number: its digits, most significant
/// first, with no leading zero except for the number zero itself.
pub open spec fn spec_decimal(n: nat) -> Seq<char>
    decreases n,
{
    if n < 10 {
        seq![DIGITS@[n as int]]
    } else {
        spec_decimal(n / 10) + seq![DIGITS@[(n % 10) as int]]
    }
}

/// A decimal rendering is never empty.
pub proof fn lemma_spec_decimal_len(n: nat)
    ensures
        spec_decimal(n).len() >= 1,
    decreases n,
{
    if n >= 10 {
        lemma_spec_decimal_len(n / 10);
    }
}

/// Render a number as its decimal digits.
fn decimal_string(n: u128) -> (r: String)
    ensures
        r@ == spec_decimal(n as nat),
    decreases n,
{
    if n < 10 {
        let mut s = String::new();
        s.push(DIGITS[n as usize]);
        proof {
            assert(s@ =~= seq![DIGITS@[n as int]]);
        }
        s
    } else {
        let mut s = decimal_string(n / 10);
        s.push(DIGITS[(n % 10) as usize]);
        proof {
            assert((n / 10) as nat == (n as nat) / 10);
            assert((n % 10) as nat == (n as nat) % 10);
            assert(s@ =~= spec_decimal((n as nat) / 10) + seq![DIGITS@[(n % 10) as int]]);
        }
        s
    }
}

/// The nanoseconds from the epoch to now, or zero when the clock
/// stands before the epoch. A clock reading: callers learn nothing of
/// the value beyond what they test themselves.
fn nanos_now() -> u128 {
    let t = std::time::SystemTime::now();
    match since_unix_epoch(&t) {
        Some(d) => d.as_nanos(),
        None => 0,
    }
}

/// Creates the identity key an envelope is filed under.
pub struct RouteKey {}

impl RouteKey {
    /// A fresh opaque key: the decimal clock reading at the call.
    /// Distinct calls see distinct clock readings in practice, but
    /// only non-emptiness is promised.
    pub fn create() -> (r: String)
        ensures
            r@.len() >= 1,
    {
        let n = nanos_now();
        proof {
            lemma_spec_decimal_len(n as nat);
        }
        decimal_string(n)
    }
}

/// Creates message identifiers for broadcast events.
pub struct TimeStampKey {}

impl TimeStampKey {
    /// A fresh timestamp-derived identifier, as [`RouteKey::create`].
    pub fn create() -> (r: String)
        ensures
            r@.len() >= 1,
    {
        let n = nanos_now();
        proof {
            lemma_spec_decimal_len(n as nat);
        }
        decimal_string(n)
    }
}

} // verus!
