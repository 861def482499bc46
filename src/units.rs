//! Human-readable memory sizes: a kilobyte count shown in the largest binary
//! unit whose scaled value is at least one.
use vstd::prelude::*;
use vstd::string::StringExecFns;
use crate::text::{decimal_text, nat_text};
use byte_unit::{Byte, ByteUnit};

verus! {

/// Counts below this many kilobytes are shown as they are, in kilobytes.
pub const KB_PER_MB: u64 = 1024;

/// The binary units a count of at least one megabyte is shown in.
#[derive(Clone, Copy, Debug, PartialEq, Eq, Structural)]
pub enum Unit {
    Mb,
    Gb,
    Tb,
    Pb,
    Eb,
    Zb,
}

impl Unit {
    /// How many factors of 1024 bytes the unit holds (a megabyte is 1024 squared bytes).
    pub open spec fn byte_exponent(self) -> nat {
        match self {
            Unit::Mb => 2,
            Unit::Gb => 3,
            Unit::Tb => 4,
            Unit::Pb => 5,
            Unit::Eb => 6,
            Unit::Zb => 7,
        }
    }

    /// The suffix printed after a value in this unit.
    pub open spec fn label(self) -> Seq<char> {
        match self {
            Unit::Mb => seq!['M', 'B'],
            Unit::Gb => seq!['G', 'B'],
            Unit::Tb => seq!['T', 'B'],
            Unit::Pb => seq!['P', 'B'],
            Unit::Eb => seq!['E', 'B'],
            Unit::Zb => seq!['Z', 'B'],
        }
    }

    /// The suffix printed after a value in this unit.
    pub fn suffix(self) -> (r: &'static str)
        ensures
            r@ == self.label(),
    {
        proof {
            reveal_strlit("MB");
            reveal_strlit("GB");
            reveal_strlit("TB");
            reveal_strlit("PB");
            reveal_strlit("EB");
            reveal_strlit("ZB");
        }
        match self {
            Unit::Mb => "MB",
            Unit::Gb => "GB",
            Unit::Tb => "TB",
            Unit::Pb => "PB",
            Unit::Eb => "EB",
            Unit::Zb => "ZB",
        }
    }
}

/// How many times `n` can be divided by 1024 before it drops below 1024,
/// that is the largest `e` with `1024^e <= n` (zero for `n < 1024`).
pub open spec fn scale_exponent(n: nat) -> nat
    decreases n,
{
    if n < 1024 {
        0
    } else {
        1 + scale_exponent(n / 1024)
    }
}

/// The exponent never exceeds the count itself.
proof fn lemma_scale_exponent_bounded(n: nat)
    ensures
        scale_exponent(n) <= n,
    decreases n,
{
    if n >= 1024 {
        lemma_scale_exponent_bounded(n / 1024);
    }
}

proof fn lemma_scale_exponent_monotone(a: nat, b: nat)
    requires
        a <= b,
    ensures
        scale_exponent(a) <= scale_exponent(b),
    decreases b,
{
    if a >= 1024 {
        vstd::arithmetic::div_mod::lemma_div_is_ordered(a as int, b as int, 1024);
        lemma_scale_exponent_monotone(a / 1024, b / 1024);
    }
}

/// The unit a kilobyte count is shown in: one factor of 1024 above kilobytes is
/// a megabyte, and counts beyond the largest unit stay in that unit.
pub open spec fn unit_for(size_kb: nat) -> Unit {
    let e = scale_exponent(size_kb);
    if e <= 1 {
        Unit::Mb
    } else if e == 2 {
        Unit::Gb
    } else if e == 3 {
        Unit::Tb
    } else if e == 4 {
        Unit::Pb
    } else if e == 5 {
        Unit::Eb
    } else {
        Unit::Zb
    }
}

/// The rank of the unit a count is shown in: zero for plain kilobytes, then
/// one for megabytes up to six for the largest unit.
pub open spec fn unit_rank(size_kb: nat) -> nat {
    if size_kb < 1024 {
        0
    } else {
        (unit_for(size_kb).byte_exponent() - 1) as nat
    }
}

/// A larger count is never shown in a smaller unit than a smaller count: the
/// unit of [`humanize`] never rolls back as its input grows.
pub proof fn lemma_unit_never_rolls_back(a: nat, b: nat)
    requires
        a <= b,
    ensures
        unit_rank(a) <= unit_rank(b),
{
    lemma_scale_exponent_monotone(a, b);
}

/// The text that byte_unit prints, with two decimals, for `bytes` expressed in
/// the unit of `1024^exponent` bytes.
pub uninterp spec fn scaled_value_text(bytes: nat, exponent: nat) -> Seq<char>;

/// The human-readable form of a kilobyte count.
pub open spec fn humanized(size_kb: nat) -> Seq<char> {
    if size_kb < 1024 {
        nat_text(size_kb) + seq![' ', 'k', 'b']
    } else {
        let u = unit_for(size_kb);
        scaled_value_text(size_kb * 1024, u.byte_exponent()) + seq![' '] + u.label()
    }
}

/// Relies on byte_unit's `Byte::from_bytes`, `Byte::get_adjusted_unit` and
/// `AdjustedByte::get_value`: the byte count divided by the size of the given
/// binary unit, printed with two decimals.
#[verifier::external_body]
fn adjusted_value_text(bytes: u128, unit: Unit) -> (r: String)
    ensures
        r@ == scaled_value_text(bytes as nat, unit.byte_exponent()),
{
    let target = match unit {
        Unit::Mb => ByteUnit::MiB,
        Unit::Gb => ByteUnit::GiB,
        Unit::Tb => ByteUnit::TiB,
        Unit::Pb => ByteUnit::PiB,
        Unit::Eb => ByteUnit::EiB,
        Unit::Zb => ByteUnit::ZiB,
    };
    format!("{:.2}", Byte::from_bytes(bytes).get_adjusted_unit(target).get_value())
}

/// The unit a kilobyte count is shown in, or `None` when it is shown as plain
/// kilobytes (below 1024).
pub fn display_unit(size_kb: u64) -> (r: Option<Unit>)
    ensures
        r is None <==> size_kb < 1024,
        r is Some ==> r->0 == unit_for(size_kb as nat),
{
    if size_kb < KB_PER_MB {
        return None;
    }
    let mut rest: u64 = size_kb;
    let mut e: u64 = 0;
    while rest >= KB_PER_MB
        invariant
            scale_exponent(size_kb as nat) == e + scale_exponent(rest as nat),
        decreases rest,
    {
        proof {
            lemma_scale_exponent_bounded(size_kb as nat);
        }
        rest = rest / KB_PER_MB;
        e = e + 1;
    }
    let unit = if e <= 1 {
        Unit::Mb
    } else if e == 2 {
        Unit::Gb
    } else if e == 3 {
        Unit::Tb
    } else if e == 4 {
        Unit::Pb
    } else if e == 5 {
        Unit::Eb
    } else {
        Unit::Zb
    };
    Some(unit)
}

/// A value printed in `unit`: the value text, a space, and the unit's suffix.
pub fn with_unit_suffix(value: String, unit: Unit) -> (r: String)
    ensures
        r@ == value@ + seq![' '] + unit.label(),
{
    let mut s = value;
    s.append(" ");
    s.append(unit.suffix());
    proof {
        reveal_strlit(" ");
    }
    s
}

/// Converts a kilobyte count into human-readable text: counts below 1024 as
/// `"<n> kb"`, larger ones scaled to the largest binary unit whose value is at
/// least one, with two decimals.
pub fn humanize(size_kb: u64) -> (r: String)
    ensures
        r@ == humanized(size_kb as nat),
{
    match display_unit(size_kb) {
        None => {
            let mut s = decimal_text(size_kb);
            s.append(" kb");
            proof {
                reveal_strlit(" kb");
            }
            s
        },
        Some(unit) => {
            let bytes: u128 = size_kb as u128 * 1024;
            let value = adjusted_value_text(bytes, unit);
            with_unit_suffix(value, unit)
        },
    }
}

} // verus!
