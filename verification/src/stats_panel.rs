use vstd::prelude::*;
use crate::metrics::{pi_power_level_of, HealthLevel, HealthSnapshot, MemorySnapshot, PiPowerStatus, RuntimeSnapshot, StorageSnapshot};
use crate::text::{decimal, digit_char, lower_hex, push_char, push_decimal, push_lower_hex, digit};

verus! {

/// Rows of the stats panel.
pub const HEIGHT: u16 = 11;

// ---------------------------------------------------------------------------
// Byte counts
// ---------------------------------------------------------------------------

/// Smallest count of bytes with 54 significant bits.
pub open spec fn two_pow_53() -> nat {
    0x20_0000_0000_0000
}

/// The spacing of the doubles (`f64`) near `n`: one below 2^53, doubling with each
/// binary order of magnitude above.
pub open spec fn double_spacing(n: nat) -> nat
    decreases n,
{
    if n < two_pow_53() {
        1
    } else {
        2 * double_spacing(n / 2)
    }
}

/// `num / den` rounded to the nearest whole number, ties to the even one.
pub open spec fn round_half_even(num: nat, den: nat) -> nat {
    let q = num / den;
    let r = num % den;
    if 2 * r > den || (2 * r == den && q % 2 == 1) {
        q + 1
    } else {
        q
    }
}

/// The double nearest to `n` (ties to even): what `n as f64` holds.
pub open spec fn as_double(n: nat) -> nat {
    let u = double_spacing(n);
    round_half_even(n, u) * u
}

/// 1024 to the power `unit`.
pub open spec fn pow1024(unit: nat) -> nat
    decreases unit,
{
    if unit == 0 {
        1
    } else {
        1024 * pow1024((unit - 1) as nat)
    }
}

/// The unit (0 for bytes up to 4 for terabytes) from `unit` on: the largest one, up to
/// terabytes, in which `value` is still at least one.
pub open spec fn unit_from(value: nat, unit: nat) -> nat
    decreases 4 - unit,
{
    if unit < 4 && value >= pow1024(unit + 1) {
        unit_from(value, unit + 1)
    } else {
        unit
    }
}

/// The name of a unit.
pub open spec fn unit_name(unit: nat) -> Seq<char> {
    if unit == 0 {
        "B"@
    } else if unit == 1 {
        "KB"@
    } else if unit == 2 {
        "MB"@
    } else if unit == 3 {
        "GB"@
    } else {
        "TB"@
    }
}

/// A byte count for people: in the largest unit (up to TB) in which it is at least
/// one, whole bytes as they are, other amounts of ten or more rounded to a whole
/// number and smaller ones to one decimal; rounding is to the nearest, ties to even,
/// of the count as a double.
pub open spec fn byte_text(bytes: u64) -> Seq<char> {
    let value = as_double(bytes as nat);
    let unit = unit_from(value, 0);
    let scale = pow1024(unit);
    if unit == 0 {
        decimal(value) + " "@ + unit_name(unit)
    } else if value >= 10 * scale {
        decimal(round_half_even(value, scale)) + " "@ + unit_name(unit)
    } else {
        let tenths = round_half_even(10 * value, scale);
        decimal(tenths / 10) + "."@ + seq![digit_char(tenths % 10)] + " "@ + unit_name(unit)
    }
}

proof fn lemma_spacing_bounds(n: nat)
    ensures
        double_spacing(n) >= 1,
        n >= 1 ==> double_spacing(n) <= n,
    decreases n,
{
    if n >= two_pow_53() {
        lemma_spacing_bounds(n / 2);
    }
}

/// The name of the unit `unit`.
fn unit_label(unit: u64) -> (r: &'static str)
    requires
        unit <= 4,
    ensures
        r@ == unit_name(unit as nat),
{
    if unit == 0 {
        "B"
    } else if unit == 1 {
        "KB"
    } else if unit == 2 {
        "MB"
    } else if unit == 3 {
        "GB"
    } else {
        "TB"
    }
}

/// `num / den` rounded half to even.
fn round_even(num: u128, den: u128) -> (r: u128)
    requires
        1 <= den,
        num <= 0x1_0000_0000_0000_0000_0000_0000,
        den <= 0x1_0000_0000_0000_0000_0000_0000,
    ensures
        r == round_half_even(num as nat, den as nat),
        r <= num / den + 1,
{
    let q = num / den;
    let rem = num % den;
    if 2 * rem > den || (2 * rem == den && q % 2 == 1) {
        q + 1
    } else {
        q
    }
}

/// A byte count for people (see `byte_text`), such as `512 B` or `1.5 KB`.
pub fn format_bytes(bytes: u64) -> (r: String)
    ensures
        r@ == byte_text(bytes),
{
    let ghost n = bytes as nat;
    let mut spacing: u128 = 1;
    let mut rest: u64 = bytes;
    while rest >= 0x20_0000_0000_0000
        invariant
            double_spacing(n) == spacing * double_spacing(rest as nat),
            1 <= spacing <= 0x1_0000_0000_0000_0000,
            rest * spacing <= n,
            n == bytes,
        decreases rest,
    {
        assert(double_spacing(rest as nat) == 2 * double_spacing((rest / 2) as nat));
        assert(spacing * (2 * double_spacing((rest / 2) as nat)) == (2 * spacing) * double_spacing(
            (rest / 2) as nat,
        )) by (nonlinear_arith);
        assert((rest / 2) * (2 * spacing) <= rest * spacing) by (nonlinear_arith)
            requires
                spacing >= 1,
        ;
        assert(spacing * 2 <= 0x1_0000_0000_0000_0000) by (nonlinear_arith)
            requires
                rest * spacing <= n,
                rest >= 0x20_0000_0000_0000,
                n < 0x1_0000_0000_0000_0000,
        ;
        spacing = spacing * 2;
        rest = rest / 2;
    }
    assert(double_spacing(rest as nat) == 1);
    assert(spacing == double_spacing(n)) by (nonlinear_arith)
        requires
            double_spacing(n) == spacing * double_spacing(rest as nat),
            double_spacing(rest as nat) == 1,
    ;
    proof {
        lemma_spacing_bounds(n);
        vstd::arithmetic::div_mod::lemma_fundamental_div_mod(n as int, spacing as int);
    }
    let q = round_even(bytes as u128, spacing);
    assert(q * spacing <= 2 * n + 2) by (nonlinear_arith)
        requires
            q <= n / (spacing as nat) + 1,
            spacing >= 1,
            n >= 1 ==> spacing <= n,
            n == spacing * (n / (spacing as nat)) + n % (spacing as nat),
            n % (spacing as nat) >= 0,
            n == 0 ==> spacing == 1,
    ;
    let value: u128 = q * spacing;
    assert(value == as_double(n));
    let mut unit: u64 = 0;
    let mut scale: u128 = 1;
    while unit < 4 && value >= scale * 1024
        invariant
            unit <= 4,
            scale == pow1024(unit as nat),
            (unit == 0 && scale == 1) || (unit == 1 && scale == 0x400) || (unit == 2 && scale
                == 0x10_0000) || (unit == 3 && scale == 0x4000_0000) || (unit == 4 && scale
                == 0x100_0000_0000),
            unit_from(value as nat, 0) == unit_from(value as nat, unit as nat),
        decreases 4 - unit,
    {
        scale = scale * 1024;
        unit = unit + 1;
    }
    assert(unit_from(value as nat, unit as nat) == unit);
    let mut s = String::new();
    if unit == 0 {
        push_decimal(&mut s, value as u64);
    } else if value >= 10 * scale {
        let whole = round_even(value, scale);
        assert(value / scale <= value / 1024) by {
            vstd::arithmetic::div_mod::lemma_div_is_ordered_by_denominator(value as int, 1024, scale as int);
        }
        push_decimal(&mut s, whole as u64);
    } else {
        let tenths = round_even(10 * value, scale);
        assert((10 * value as int) / (scale as int) <= 100) by {
            vstd::arithmetic::div_mod::lemma_div_is_ordered(10 * value as int, 100 * scale as int, scale as int);
            vstd::arithmetic::div_mod::lemma_div_by_multiple(100, scale as int);
        }
        push_decimal(&mut s, (tenths / 10) as u64);
        s.append(".");
        push_char(&mut s, digit((tenths % 10) as u64));
    }
    s.append(" ");
    s.append(unit_label(unit));
    assert(s@ =~= byte_text(bytes));
    s
}

/// `<free> free / <total> total` in bytes for people.
pub open spec fn free_total_text(available: u64, total: u64) -> Seq<char> {
    byte_text(available) + " free / "@ + byte_text(total) + " total"@
}

/// The memory figures as the panel shows them: free and total.
pub fn format_memory(memory: MemorySnapshot) -> (r: String)
    ensures
        r@ == free_total_text(memory.available, memory.total),
{
    let mut s = format_bytes(memory.available);
    s.append(" free / ");
    s.append(format_bytes(memory.total).as_str());
    s.append(" total");
    s
}

/// The storage figures as the panel shows them: free and total.
pub fn format_storage(storage: StorageSnapshot) -> (r: String)
    ensures
        r@ == free_total_text(storage.available, storage.total),
{
    let mut s = format_bytes(storage.available);
    s.append(" free / ");
    s.append(format_bytes(storage.total).as_str());
    s.append(" total");
    s
}

// ---------------------------------------------------------------------------
// Durations and labels
// ---------------------------------------------------------------------------

/// An uptime of `seconds` for people, in whole minutes: `<d>d <h>h` from a day on,
/// `<h>h <m>m` from an hour on, else `<m>m`.
pub open spec fn duration_text(seconds: u64) -> Seq<char> {
    let total_minutes = seconds as nat / 60;
    let days = total_minutes / (24 * 60);
    let hours = (total_minutes / 60) % 24;
    let minutes = total_minutes % 60;
    if days > 0 {
        decimal(days) + "d "@ + decimal(hours) + "h"@
    } else if hours > 0 {
        decimal(hours) + "h "@ + decimal(minutes) + "m"@
    } else {
        decimal(minutes) + "m"@
    }
}

/// An uptime of `seconds` for people (see `duration_text`).
pub fn format_duration(seconds: u64) -> (r: String)
    ensures
        r@ == duration_text(seconds),
{
    let total_minutes = seconds / 60;
    let days = total_minutes / (24 * 60);
    let hours = (total_minutes / 60) % 24;
    let minutes = total_minutes % 60;
    let mut s = String::new();
    if days > 0 {
        push_decimal(&mut s, days);
        s.append("d ");
        push_decimal(&mut s, hours);
        s.append("h");
    } else if hours > 0 {
        push_decimal(&mut s, hours);
        s.append("h ");
        push_decimal(&mut s, minutes);
        s.append("m");
    } else {
        push_decimal(&mut s, minutes);
        s.append("m");
    }
    assert(s@ =~= duration_text(seconds));
    s
}

/// How the dashboard was started: `systemd` or `manual`.
pub fn runtime_label(runtime: RuntimeSnapshot) -> (r: &'static str)
    ensures
        r@ == (if runtime.launched_by_systemd { "systemd"@ } else { "manual"@ }),
{
    if runtime.launched_by_systemd {
        "systemd"
    } else {
        "manual"
    }
}

/// The health as the panel shows it: `ok`, or the level and its reason.
pub open spec fn health_text(health: HealthSnapshot) -> Seq<char> {
    match health.level {
        HealthLevel::Normal => "ok"@,
        HealthLevel::Warn => "warn: "@ + health.reason@,
        HealthLevel::Alert => "alert: "@ + health.reason@,
    }
}

/// The health as the panel shows it (see `health_text`).
pub fn health_label(health: HealthSnapshot) -> (r: String)
    ensures
        r@ == health_text(health),
{
    match health.level {
        HealthLevel::Normal => String::from_str("ok"),
        HealthLevel::Warn => {
            let mut s = String::from_str("warn: ");
            s.append(health.reason);
            s
        },
        HealthLevel::Alert => {
            let mut s = String::from_str("alert: ");
            s.append(health.reason);
            s
        },
    }
}

/// The mascot's mood line for the overall health.
pub fn clawd_reaction(health: HealthSnapshot) -> (r: &'static str)
    ensures
        r@ == match health.level {
            HealthLevel::Normal => "patrol ok"@,
            HealthLevel::Warn => "watching"@,
            HealthLevel::Alert => "on alert"@,
        },
{
    match health.level {
        HealthLevel::Normal => "patrol ok",
        HealthLevel::Warn => "watching",
        HealthLevel::Alert => "on alert",
    }
}

/// Width of the panel's label column.
pub const LABEL_WIDTH: usize = 7;

/// A label padded with spaces on the right to the label column's width (longer labels
/// stay as they are), as `format!("{label:<7}")` writes it.
pub open spec fn label_text(label: Seq<char>) -> Seq<char> {
    if label.len() >= LABEL_WIDTH {
        label
    } else {
        label + Seq::new((LABEL_WIDTH - label.len()) as nat, |i: int| ' ')
    }
}

/// A label as the panel's label column shows it (see `label_text`).
pub fn label_cell(label: &str) -> (r: String)
    ensures
        r@ == label_text(label@),
{
    let mut s = String::from_str(label);
    let n = label.unicode_len();
    let mut k = n;
    while k < LABEL_WIDTH
        invariant
            n == label@.len(),
            n <= k <= LABEL_WIDTH || (k == n && n >= LABEL_WIDTH),
            s@ == label@ + Seq::new((k - n) as nat, |i: int| ' '),
        decreases LABEL_WIDTH - k,
    {
        push_char(&mut s, ' ');
        assert(s@ =~= label@ + Seq::new((k + 1 - n) as nat, |i: int| ' '));
        k = k + 1;
    }
    assert(s@ =~= label_text(label@));
    s
}

/// The colour in which the panel shows a value of a given level.
#[derive(Clone, Copy, PartialEq, Eq, Structural, Debug)]
pub enum PanelColor {
    White,
    Yellow,
    Red,
}

/// Normal values are white, warnings yellow, alerts red.
pub fn level_color(level: HealthLevel) -> (c: PanelColor)
    ensures
        c == match level {
            HealthLevel::Normal => PanelColor::White,
            HealthLevel::Warn => PanelColor::Yellow,
            HealthLevel::Alert => PanelColor::Red,
        },
{
    match level {
        HealthLevel::Normal => PanelColor::White,
        HealthLevel::Warn => PanelColor::Yellow,
        HealthLevel::Alert => PanelColor::Red,
    }
}

/// The names of the conditions that power flags report, in order: the four current
/// ones, or, when none of them is set, `had events` for any of the conditions seen
/// since boot.
pub open spec fn power_condition_names(flags: u32) -> Seq<Seq<char>> {
    let a = if flags & 0x01 != 0 { seq!["undervoltage"@] } else { Seq::<Seq<char>>::empty() };
    let b = if flags & 0x02 != 0 { a.push("freq capped"@) } else { a };
    let c = if flags & 0x04 != 0 { b.push("throttled"@) } else { b };
    let d = if flags & 0x08 != 0 { c.push("soft temp"@) } else { c };
    if d.len() == 0 && flags & 0x0f0000 != 0 {
        seq!["had events"@]
    } else {
        d
    }
}

/// `names` joined by `, `.
pub open spec fn joined(names: Seq<Seq<char>>) -> Seq<char>
    decreases names.len(),
{
    if names.len() == 0 {
        Seq::empty()
    } else if names.len() == 1 {
        names[0]
    } else {
        joined(names.drop_last()) + ", "@ + names.last()
    }
}

/// The power report as the panel shows it: `n/a`, `ok`, the conditions that the flags
/// name, or the flags in hexadecimal when they name none.
pub open spec fn power_text(status: PiPowerStatus) -> Seq<char> {
    match status {
        PiPowerStatus::Unknown => "n/a"@,
        PiPowerStatus::Normal => "ok"@,
        PiPowerStatus::Flags(flags) => if power_condition_names(flags).len() == 0 {
            "flags 0x"@ + lower_hex(flags as nat)
        } else {
            joined(power_condition_names(flags))
        },
    }
}

/// Adds `name` to the list `s` holds of `names`.
fn push_name(s: &mut String, count: &mut usize, name: &str, Ghost(names): Ghost<Seq<Seq<char>>>)
    requires
        old(s)@ == joined(names),
        *old(count) == names.len(),
        names.len() < 8,
    ensures
        final(s)@ == joined(names.push(name@)),
        *final(count) == names.len() + 1,
{
    if *count > 0 {
        s.append(", ");
    }
    s.append(name);
    *count = *count + 1;
    proof {
        assert(names.push(name@).drop_last() == names);
        assert(s@ =~= joined(names.push(name@)));
    }
}

/// The power report as the panel shows it (see `power_text`).
pub fn pi_power_label(status: PiPowerStatus) -> (r: String)
    ensures
        r@ == power_text(status),
{
    match status {
        PiPowerStatus::Unknown => String::from_str("n/a"),
        PiPowerStatus::Normal => String::from_str("ok"),
        PiPowerStatus::Flags(flags) => {
            let ghost a = if flags & 0x01 != 0 { seq!["undervoltage"@] } else { Seq::<Seq<char>>::empty() };
            let ghost b = if flags & 0x02 != 0 { a.push("freq capped"@) } else { a };
            let ghost c = if flags & 0x04 != 0 { b.push("throttled"@) } else { b };
            let ghost d = if flags & 0x08 != 0 { c.push("soft temp"@) } else { c };
            let mut s = String::new();
            let mut count: usize = 0;
            assert(s@ =~= joined(Seq::<Seq<char>>::empty()));
            if flags & 0x01 != 0 {
                push_name(&mut s, &mut count, "undervoltage", Ghost(Seq::empty()));
                assert(Seq::<Seq<char>>::empty().push("undervoltage"@) =~= a);
            }
            if flags & 0x02 != 0 {
                push_name(&mut s, &mut count, "freq capped", Ghost(a));
            }
            if flags & 0x04 != 0 {
                push_name(&mut s, &mut count, "throttled", Ghost(b));
            }
            if flags & 0x08 != 0 {
                push_name(&mut s, &mut count, "soft temp", Ghost(c));
            }
            assert(s@ == joined(d) && count == d.len());
            if count == 0 && flags & 0x0f0000 != 0 {
                let r = String::from_str("had events");
                assert(r@ =~= joined(seq!["had events"@]));
                return r;
            }
            if count == 0 {
                let mut r = String::from_str("flags 0x");
                push_lower_hex(&mut r, flags as u64);
                r
            } else {
                s
            }
        },
    }
}

/// Byte counts below one kilobyte show as whole bytes.
pub proof fn lemma_small_counts_in_bytes(bytes: u64)
    requires
        bytes < 1024,
    ensures
        byte_text(bytes) == decimal(bytes as nat) + " B"@,
{
    reveal_strlit("B");
    reveal_strlit(" ");
    reveal_strlit(" B");
    assert(double_spacing(bytes as nat) == 1);
    assert(round_half_even(bytes as nat, 1) == bytes);
    assert(as_double(bytes as nat) == bytes);
    assert(pow1024(0) == 1);
    assert(pow1024(1) == 1024);
    assert(unit_from(bytes as nat, 0) == 0);
    assert(" "@ + "B"@ =~= " B"@);
    assert(decimal(bytes as nat) + " "@ + "B"@ =~= decimal(bytes as nat) + " B"@);
}

/// The power label names a current condition exactly when the power report is an
/// alert, and names no condition exactly when the flags carry none of the conditions
/// (current or seen since boot), where it shows the flags themselves.
pub proof fn lemma_power_label_matches_level(flags: u32)
    ensures
        (pi_power_level_of(PiPowerStatus::Flags(flags)) == HealthLevel::Alert) == (
        power_condition_names(flags).len() > 0 && power_condition_names(flags) != seq![
            "had events"@,
        ]),
        (power_condition_names(flags).len() == 0) == (flags & 0x0f == 0 && flags & 0x0f0000 == 0),
{
    reveal_strlit("had events");
    reveal_strlit("undervoltage");
    reveal_strlit("freq capped");
    reveal_strlit("throttled");
    reveal_strlit("soft temp");
    assert((flags & 0x0f != 0) == (flags & 0x01 != 0 || flags & 0x02 != 0 || flags & 0x04 != 0
        || flags & 0x08 != 0)) by (bit_vector);
    let names = power_condition_names(flags);
    if flags & 0x0f != 0 {
        assert(names.len() > 0);
        assert(names[0] != "had events"@) by {
            if flags & 0x01 != 0 {
                assert(names[0] == "undervoltage"@);
                assert(names[0].len() != "had events"@.len());
            } else if flags & 0x02 != 0 {
                assert(names[0] == "freq capped"@);
                assert(names[0][0] != "had events"@[0]);
            } else if flags & 0x04 != 0 {
                assert(names[0] == "throttled"@);
                assert(names[0].len() != "had events"@.len());
            } else {
                assert(names[0] == "soft temp"@);
                assert(names[0].len() != "had events"@.len());
            }
        }
    }
}

} // verus!
