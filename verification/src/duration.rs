//! Non-negative time spans, duration units, and duration conversion options.

use vstd::arithmetic::div_mod::{lemma_fundamental_div_mod, lemma_fundamental_div_mod_converse};
use vstd::prelude::*;

use crate::data_type::DataType;
use crate::error::{DataConversionError, DataConversionErrorKind};
use crate::policy::NumericConversionPolicy;
use crate::text::{chars_equal, chars_of};

verus! {

/// Nanoseconds in one second.
pub const NANOS_PER_SECOND: u64 = 1_000_000_000;

/// The largest representable span, in nanoseconds.
pub open spec fn max_duration_nanos() -> nat {
    u64::MAX as nat * 1_000_000_000 + 999_999_999
}

/// A non-negative span of time with nanosecond precision, holding whole
/// seconds and the sub-second nanoseconds.
///
/// Its model is the total number of nanoseconds.
#[derive(Clone, Copy, Debug, PartialEq, Eq, Hash)]
pub struct Duration {
    /// Whole seconds.
    secs: u64,
    /// Sub-second nanoseconds, always below one second.
    nanos: u32,
}

impl View for Duration {
    type V = nat;

    closed spec fn view(&self) -> nat {
        self.secs as nat * 1_000_000_000 + self.nanos as nat
    }
}

impl Duration {
    /// The sub-second part stays below one second.
    #[verifier::type_invariant]
    closed spec fn nanos_below_one_second(self) -> bool {
        self.nanos < 1_000_000_000
    }

    /// Creates a span of whole seconds.
    pub fn from_secs(secs: u64) -> (duration: Self)
        ensures
            duration@ == secs as nat * 1_000_000_000,
    {
        Duration { secs, nanos: 0 }
    }

    /// Creates a span from a total count of nanoseconds, or `None` when it
    /// exceeds the largest representable span.
    pub fn from_total_nanos(total: u128) -> (duration: Option<Self>)
        ensures
            duration is Some <==> total <= max_duration_nanos(),
            duration matches Some(d) ==> d@ == total,
    {
        let secs = total / 1_000_000_000;
        let nanos = total % 1_000_000_000;
        proof {
            lemma_fundamental_div_mod(total as int, 1_000_000_000);
        }
        if secs > u64::MAX as u128 {
            None
        } else {
            Some(Duration { secs: secs as u64, nanos: nanos as u32 })
        }
    }

    /// Creates a span of nanoseconds.
    pub fn from_nanos(nanos: u64) -> (duration: Self)
        ensures
            duration@ == nanos,
    {
        match Self::from_total_nanos(nanos as u128) {
            Some(d) => d,
            None => Duration { secs: 0, nanos: 0 },
        }
    }

    /// Creates a span of microseconds.
    pub fn from_micros(micros: u64) -> (duration: Self)
        ensures
            duration@ == micros as nat * 1_000,
    {
        match Self::from_total_nanos(micros as u128 * 1_000) {
            Some(d) => d,
            None => Duration { secs: 0, nanos: 0 },
        }
    }

    /// Creates a span of milliseconds.
    pub fn from_millis(millis: u64) -> (duration: Self)
        ensures
            duration@ == millis as nat * 1_000_000,
    {
        match Self::from_total_nanos(millis as u128 * 1_000_000) {
            Some(d) => d,
            None => Duration { secs: 0, nanos: 0 },
        }
    }

    /// Returns the total number of nanoseconds.
    pub fn as_nanos(&self) -> (nanos: u128)
        ensures
            nanos == self@,
            nanos <= max_duration_nanos(),
    {
        proof {
            use_type_invariant(self);
        }
        self.secs as u128 * 1_000_000_000 + self.nanos as u128
    }

    /// Returns the number of whole seconds.
    pub fn as_secs(&self) -> (secs: u64)
        ensures
            secs == self@ / 1_000_000_000,
    {
        proof {
            use_type_invariant(self);
            lemma_fundamental_div_mod_converse(
                self@ as int,
                1_000_000_000,
                self.secs as int,
                self.nanos as int,
            );
        }
        self.secs
    }

    /// Returns the nanoseconds past the last whole second.
    pub fn subsec_nanos(&self) -> (nanos: u32)
        ensures
            nanos == self@ % 1_000_000_000,
    {
        proof {
            use_type_invariant(self);
            lemma_fundamental_div_mod_converse(
                self@ as int,
                1_000_000_000,
                self.secs as int,
                self.nanos as int,
            );
        }
        self.nanos
    }
}

/// Unit used when converting durations to and from scalar values.
#[derive(Clone, Copy, Debug, PartialEq, Eq, Structural, Hash)]
pub enum DurationUnit {
    /// Nanoseconds.
    Nanoseconds,
    /// Microseconds.
    Microseconds,
    /// Milliseconds.
    Milliseconds,
    /// Seconds.
    Seconds,
    /// Minutes.
    Minutes,
    /// Hours.
    Hours,
    /// Days.
    Days,
}

/// Nanoseconds in one unit.
pub open spec fn unit_nanos(unit: DurationUnit) -> nat {
    match unit {
        DurationUnit::Nanoseconds => 1,
        DurationUnit::Microseconds => 1_000,
        DurationUnit::Milliseconds => 1_000_000,
        DurationUnit::Seconds => 1_000_000_000,
        DurationUnit::Minutes => 60_000_000_000,
        DurationUnit::Hours => 3_600_000_000_000,
        DurationUnit::Days => 86_400_000_000_000,
    }
}

/// Seconds in one unit of at least a minute.
pub open spec fn unit_seconds(unit: DurationUnit) -> nat {
    match unit {
        DurationUnit::Minutes => 60,
        DurationUnit::Hours => 3_600,
        DurationUnit::Days => 86_400,
        _ => 0,
    }
}

/// Whether a unit is counted in whole seconds when building a duration.
pub open spec fn is_multi_second_unit(unit: DurationUnit) -> bool {
    unit_seconds(unit) > 0
}

/// The canonical suffix of a unit.
pub open spec fn unit_suffix(unit: DurationUnit) -> &'static str {
    match unit {
        DurationUnit::Nanoseconds => "ns",
        DurationUnit::Microseconds => "us",
        DurationUnit::Milliseconds => "ms",
        DurationUnit::Seconds => "s",
        DurationUnit::Minutes => "m",
        DurationUnit::Hours => "h",
        DurationUnit::Days => "d",
    }
}

/// The unit a suffix names: the canonical suffixes, and `µs` and `μs` for
/// microseconds.
pub open spec fn unit_for_suffix(suffix: Seq<char>) -> Option<DurationUnit> {
    if suffix == "ns"@ {
        Some(DurationUnit::Nanoseconds)
    } else if suffix == "us"@ || suffix == "µs"@ || suffix == "μs"@ {
        Some(DurationUnit::Microseconds)
    } else if suffix == "ms"@ {
        Some(DurationUnit::Milliseconds)
    } else if suffix == "s"@ {
        Some(DurationUnit::Seconds)
    } else if suffix == "m"@ {
        Some(DurationUnit::Minutes)
    } else if suffix == "h"@ {
        Some(DurationUnit::Hours)
    } else if suffix == "d"@ {
        Some(DurationUnit::Days)
    } else {
        None
    }
}

/// The plural name of a unit of at least a minute, used in overflow messages.
pub open spec fn unit_plural_name(unit: DurationUnit) -> &'static str {
    match unit {
        DurationUnit::Minutes => "minutes",
        DurationUnit::Hours => "hours",
        _ => "days",
    }
}

/// The message reported when a count of `unit` overflows `u64` seconds.
pub open spec fn overflow_message(unit: DurationUnit) -> Seq<char> {
    "duration "@ + unit_plural_name(unit)@ + " overflow u64 seconds"@
}

/// `n` nanoseconds in units of `u` nanoseconds, rounded half up.
pub open spec fn rounded_half_up(n: nat, u: nat) -> nat {
    ((2 * n + u) / (2 * u)) as nat
}

/// Converts a value multiplied by a second factor into a duration.
fn checked_secs(value: u64, seconds_per_unit: u64, unit_name: &str) -> (result: Result<
    Duration,
    String,
>)
    requires
        seconds_per_unit > 0,
    ensures
        result is Ok <==> value * seconds_per_unit <= u64::MAX,
        result matches Ok(d) ==> d@ == value as nat * seconds_per_unit as nat * 1_000_000_000,
        result matches Err(message) ==> message@ == "duration "@ + unit_name@
            + " overflow u64 seconds"@,
{
    match value.checked_mul(seconds_per_unit) {
        Some(secs) => Ok(Duration::from_secs(secs)),
        None => {
            let mut message = String::from_str("duration ");
            message.append(unit_name);
            message.append(" overflow u64 seconds");
            Err(message)
        },
    }
}

/// Half-up rounding through the quotient and remainder.
proof fn lemma_rounded_half_up(n: nat, u: nat)
    requires
        u > 0,
    ensures
        rounded_half_up(n, u) == (if n % u >= (u + 1) / 2 {
            n / u + 1
        } else {
            n / u
        }),
{
    let q = (n / u) as int;
    let r = (n % u) as int;
    lemma_fundamental_div_mod(n as int, u as int);
    assert(n == u * q + r);
    assert(0 <= r < u);
    let x = 2 * n + u;
    if r >= (u + 1) / 2 {
        assert(x == (q + 1) * (2 * u) + (2 * r - u)) by (nonlinear_arith)
            requires
                n == u * q + r,
                x == 2 * n + u,
        ;
        lemma_fundamental_div_mod_converse(x as int, (2 * u) as int, q + 1, 2 * r - u);
    } else {
        assert(x == q * (2 * u) + (2 * r + u)) by (nonlinear_arith)
            requires
                n == u * q + r,
                x == 2 * n + u,
        ;
        lemma_fundamental_div_mod_converse(x as int, (2 * u) as int, q, 2 * r + u);
    }
}

impl DurationUnit {
    /// Returns the canonical ASCII suffix of this unit.
    pub fn suffix(self) -> (suffix: &'static str)
        ensures
            suffix == unit_suffix(self),
    {
        match self {
            DurationUnit::Nanoseconds => "ns",
            DurationUnit::Microseconds => "us",
            DurationUnit::Milliseconds => "ms",
            DurationUnit::Seconds => "s",
            DurationUnit::Minutes => "m",
            DurationUnit::Hours => "h",
            DurationUnit::Days => "d",
        }
    }

    /// Parses a duration unit suffix, or `None` when it is unsupported.
    pub fn from_suffix(suffix: &str) -> (unit: Option<Self>)
        ensures
            unit == unit_for_suffix(suffix@),
    {
        let chars = chars_of(suffix);
        if chars_equal(&chars, &chars_of("ns")) {
            Some(DurationUnit::Nanoseconds)
        } else if chars_equal(&chars, &chars_of("us")) || chars_equal(&chars, &chars_of("µs"))
            || chars_equal(&chars, &chars_of("μs")) {
            Some(DurationUnit::Microseconds)
        } else if chars_equal(&chars, &chars_of("ms")) {
            Some(DurationUnit::Milliseconds)
        } else if chars_equal(&chars, &chars_of("s")) {
            Some(DurationUnit::Seconds)
        } else if chars_equal(&chars, &chars_of("m")) {
            Some(DurationUnit::Minutes)
        } else if chars_equal(&chars, &chars_of("h")) {
            Some(DurationUnit::Hours)
        } else if chars_equal(&chars, &chars_of("d")) {
            Some(DurationUnit::Days)
        } else {
            None
        }
    }

    /// Returns the number of nanoseconds in one unit.
    pub fn nanos_per_unit(self) -> (nanos: u128)
        ensures
            nanos == unit_nanos(self),
    {
        match self {
            DurationUnit::Nanoseconds => 1,
            DurationUnit::Microseconds => 1_000,
            DurationUnit::Milliseconds => 1_000_000,
            DurationUnit::Seconds => 1_000_000_000,
            DurationUnit::Minutes => 60 * 1_000_000_000,
            DurationUnit::Hours => 60 * 60 * 1_000_000_000,
            DurationUnit::Days => 24 * 60 * 60 * 1_000_000_000,
        }
    }

    /// Converts a count of this unit to a duration.
    ///
    /// Counts of nanoseconds up to seconds always fit. A count of minutes,
    /// hours or days is rejected with a message naming the unit when its
    /// number of seconds overflows `u64`.
    pub fn duration_from_u64(self, value: u64) -> (result: Result<Duration, String>)
        ensures
            result is Ok <==> (!is_multi_second_unit(self) || value * unit_seconds(self)
                <= u64::MAX),
            result matches Ok(d) ==> d@ == value as nat * unit_nanos(self),
            result matches Err(message) ==> message@ == overflow_message(self),
    {
        match self {
            DurationUnit::Nanoseconds => Ok(Duration::from_nanos(value)),
            DurationUnit::Microseconds => Ok(Duration::from_micros(value)),
            DurationUnit::Milliseconds => Ok(Duration::from_millis(value)),
            DurationUnit::Seconds => Ok(Duration::from_secs(value)),
            DurationUnit::Minutes => {
                let r = checked_secs(value, 60, "minutes");
                assert(value as nat * 60 * 1_000_000_000 == value as nat * 60_000_000_000);
                r
            },
            DurationUnit::Hours => {
                let r = checked_secs(value, 60 * 60, "hours");
                assert(value as nat * 3600 * 1_000_000_000 == value as nat * 3_600_000_000_000);
                r
            },
            DurationUnit::Days => {
                let r = checked_secs(value, 24 * 60 * 60, "days");
                assert(value as nat * 86400 * 1_000_000_000 == value as nat * 86_400_000_000_000);
                r
            },
        }
    }

    /// Converts a count of this unit given as a `u128` to a duration, or
    /// `None` when the span is not representable.
    pub fn duration_from_u128(self, value: u128) -> (result: Option<Duration>)
        ensures
            result is Some <==> value * unit_nanos(self) <= max_duration_nanos(),
            result matches Some(d) ==> d@ == value as nat * unit_nanos(self),
    {
        let unit = self.nanos_per_unit();
        match value.checked_mul(unit) {
            Some(total) => Duration::from_total_nanos(total),
            None => {
                assert(value * unit > max_duration_nanos());
                None
            },
        }
    }

    /// Converts a duration to this unit using half-up rounding.
    pub fn rounded_units(self, duration: Duration) -> (units: u128)
        ensures
            units == rounded_half_up(duration@, unit_nanos(self)),
    {
        let total_nanos = duration.as_nanos();
        let unit_nanos = self.nanos_per_unit();
        let quotient = total_nanos / unit_nanos;
        let remainder = total_nanos % unit_nanos;
        let rounding_threshold = (unit_nanos + 1) / 2;
        proof {
            lemma_rounded_half_up(total_nanos as nat, unit_nanos as nat);
        }
        if remainder >= rounding_threshold {
            quotient + 1
        } else {
            quotient
        }
    }
}

impl Default for DurationUnit {
    /// Milliseconds.
    fn default() -> (unit: Self)
        ensures
            unit == DurationUnit::Milliseconds,
    {
        DurationUnit::Milliseconds
    }
}

/// Options that control duration conversion.
#[derive(Clone, Copy, Debug, PartialEq, Eq, Structural)]
pub struct DurationConversionOptions {
    /// Unit used for suffixless strings and integer conversions.
    pub unit: DurationUnit,
    /// Whether formatted duration strings include the unit suffix.
    pub append_unit_suffix: bool,
}

impl DurationConversionOptions {
    /// The default options: milliseconds, formatted with their suffix.
    pub open spec fn default_value() -> Self {
        DurationConversionOptions { unit: DurationUnit::Milliseconds, append_unit_suffix: true }
    }

    /// Returns a copy with a different duration unit.
    pub fn with_unit(self, unit: DurationUnit) -> (options: Self)
        ensures
            options == (DurationConversionOptions { unit, ..self }),
    {
        DurationConversionOptions { unit, ..self }
    }

    /// Returns a copy with suffix formatting enabled or disabled.
    pub fn with_append_unit_suffix(self, append_unit_suffix: bool) -> (options: Self)
        ensures
            options == (DurationConversionOptions { append_unit_suffix, ..self }),
    {
        DurationConversionOptions { append_unit_suffix, ..self }
    }
}

impl Default for DurationConversionOptions {
    /// Milliseconds, formatted with their suffix.
    fn default() -> (options: Self)
        ensures
            options == Self::default_value(),
    {
        DurationConversionOptions { unit: DurationUnit::Milliseconds, append_unit_suffix: true }
    }
}

/// What expressing a duration in whole units yields: the exact count, or
/// under the lossy policy the half-up rounded count; the exact policy
/// rejects a sub-unit remainder.
pub open spec fn duration_units_result(
    nanos: nat,
    unit: DurationUnit,
    policy: NumericConversionPolicy,
    to: DataType,
) -> Result<u128, DataConversionError> {
    if policy == NumericConversionPolicy::Exact {
        if nanos % unit_nanos(unit) != 0 {
            Err(
                DataConversionError::InvalidValue {
                    from: DataType::Duration,
                    to,
                    reason: DataConversionErrorKind::PrecisionLoss,
                },
            )
        } else {
            Ok((nanos / unit_nanos(unit)) as u128)
        }
    } else {
        Ok(rounded_half_up(nanos, unit_nanos(unit)) as u128)
    }
}

/// Converts a duration to unsigned units under the numeric policy.
pub fn duration_to_u128(
    duration: Duration,
    unit: DurationUnit,
    policy: NumericConversionPolicy,
    to: DataType,
) -> (result: Result<u128, DataConversionError>)
    ensures
        result == duration_units_result(duration@, unit, policy, to),
{
    let unit_nanos = unit.nanos_per_unit();
    let total_nanos = duration.as_nanos();
    if policy == NumericConversionPolicy::Exact {
        if total_nanos % unit_nanos != 0 {
            return Err(DataConversionError::invalid(
                DataType::Duration,
                to,
                DataConversionErrorKind::PrecisionLoss,
            ));
        }
        Ok(total_nanos / unit_nanos)
    } else {
        Ok(unit.rounded_units(duration))
    }
}

/// Every unit's canonical suffix parses back to that unit.
pub proof fn lemma_suffix_round_trip(unit: DurationUnit)
    ensures
        unit_for_suffix(unit_suffix(unit)@) == Some(unit),
{
    reveal_strlit("ns");
    reveal_strlit("us");
    reveal_strlit("µs");
    reveal_strlit("μs");
    reveal_strlit("ms");
    reveal_strlit("s");
    reveal_strlit("m");
    reveal_strlit("h");
    reveal_strlit("d");
    let ns = "ns"@;
    let us = "us"@;
    let us_micro = "µs"@;
    let us_mu = "μs"@;
    let ms = "ms"@;
    let s = "s"@;
    let m = "m"@;
    let h = "h"@;
    let d = "d"@;
    assert(ns[0] != us[0] && ns[0] != us_micro[0] && ns[0] != us_mu[0] && ns[0] != ms[0]);
    assert(us[0] != us_micro[0] && us[0] != us_mu[0] && us[0] != ms[0]);
    assert(us_micro[0] != us_mu[0] && us_micro[0] != ms[0] && us_mu[0] != ms[0]);
    assert(s[0] != m[0] && s[0] != h[0] && s[0] != d[0] && m[0] != h[0] && m[0] != d[0] && h[0]
        != d[0]);
    assert(ns != us && ns != us_micro && ns != us_mu && ns != ms);
    assert(us != ms && us_micro != ms && us_mu != ms);
    assert(s != m && s != h && s != d && m != h && m != d && h != d);
    assert(s.len() != ns.len() && m.len() != ns.len() && h.len() != ns.len() && d.len() != ns.len());
}

} // verus!
