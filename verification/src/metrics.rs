use vstd::prelude::*;
use crate::text::{is_blank, blank, chars_of, digit_char, lower_hex, begins_with, has_prefix};

verus! {

// ---------------------------------------------------------------------------
// The firmware's throttling report
// ---------------------------------------------------------------------------

/// Characters that separate the words of a throttling report such as `throttled=0x50005`.
pub open spec fn is_report_separator(c: char) -> bool {
    c == '=' || c == ' ' || c == '\n' || c == '\t'
}

/// Index of the first non-blank character of `s` at or after `i`, or `s.len()`.
pub open spec fn first_unblank(s: Seq<char>, i: nat) -> nat
    decreases s.len() - i,
{
    if i >= s.len() {
        i
    } else if is_blank(s[i as int]) {
        first_unblank(s, i + 1)
    } else {
        i
    }
}

/// End of `s[lo..j]` once blank characters are dropped from its end.
pub open spec fn unblank_end(s: Seq<char>, lo: nat, j: nat) -> nat
    decreases j,
{
    if j <= lo {
        lo
    } else if is_blank(s[j - 1]) {
        unblank_end(s, lo, (j - 1) as nat)
    } else {
        j
    }
}

/// End of `s[lo..j]` once separators are dropped from its end.
pub open spec fn separators_end(s: Seq<char>, lo: nat, j: nat) -> nat
    decreases j,
{
    if j <= lo {
        lo
    } else if is_report_separator(s[j - 1]) {
        separators_end(s, lo, (j - 1) as nat)
    } else {
        j
    }
}

/// Start of the run of non-separators of `s[lo..j]` that ends at `j`.
pub open spec fn word_start(s: Seq<char>, lo: nat, j: nat) -> nat
    decreases j,
{
    if j <= lo {
        lo
    } else if is_report_separator(s[j - 1]) {
        j
    } else {
        word_start(s, lo, (j - 1) as nat)
    }
}

/// The last non-empty word of `s` once blanks are trimmed from both of its ends
/// (`str::trim`) and it is split at the report's separators.
pub open spec fn last_word(s: Seq<char>) -> Option<Seq<char>> {
    let lo = first_unblank(s, 0);
    let hi = unblank_end(s, lo, s.len());
    let e = separators_end(s, lo, hi);
    if e == lo {
        None
    } else {
        Some(s.subrange(word_start(s, lo, e) as int, e as int))
    }
}

/// Value of the digit `c` in base 16 (`hex`) or base 10; `None` if `c` is no such digit.
pub open spec fn digit_value(c: char, hex: bool) -> Option<nat> {
    let u = c as u32;
    if 48 <= u <= 57 {
        Some((u - 48) as nat)
    } else if hex && 97 <= u <= 102 {
        Some((u - 87) as nat)
    } else if hex && 65 <= u <= 70 {
        Some((u - 55) as nat)
    } else {
        None
    }
}

/// The number that the digits `d` write in base 16 (`hex`) or 10; `None` if one of them
/// is no digit. The empty sequence writes zero.
pub open spec fn digits_value(d: Seq<char>, hex: bool) -> Option<nat>
    decreases d.len(),
{
    if d.len() == 0 {
        Some(0)
    } else {
        match (digits_value(d.drop_last(), hex), digit_value(d.last(), hex)) {
            (Some(v), Some(x)) => Some(v * (if hex { 16nat } else { 10nat }) + x),
            _ => None,
        }
    }
}

/// What `u32::from_str_radix(s, 16 or 10)` accepts: an optional `+`, then at least one
/// digit, for a value that fits in a `u32`.
pub open spec fn parse_unsigned(s: Seq<char>, hex: bool) -> Option<u32> {
    let d = if s.len() > 0 && s[0] == '+' { s.drop_first() } else { s };
    if d.len() == 0 {
        None
    } else {
        match digits_value(d, hex) {
            Some(v) => if v <= u32::MAX { Some(v as u32) } else { None },
            None => None,
        }
    }
}

/// A word of the report read as a number: hexadecimal after a `0x` prefix, else decimal.
pub open spec fn flags_value(w: Seq<char>) -> Option<u32> {
    if w.len() >= 2 && w[0] == '0' && w[1] == 'x' {
        parse_unsigned(w.skip(2), true)
    } else {
        parse_unsigned(w, false)
    }
}

/// The flags that a throttling report states: the number written by its last word.
pub open spec fn throttled_flags(raw: Seq<char>) -> Option<u32> {
    match last_word(raw) {
        Some(w) => flags_value(w),
        None => None,
    }
}

/// Reads the digits `v[start..end]` as `u32::from_str_radix` does.
fn parse_unsigned_at(v: &Vec<char>, start: usize, end: usize, hex: bool) -> (r: Option<u32>)
    requires
        start <= end <= v.len(),
    ensures
        r == parse_unsigned(v@.subrange(start as int, end as int), hex),
{
    let ghost s = v@.subrange(start as int, end as int);
    let mut ds = start;
    if start < end && v[start] == '+' {
        ds = start + 1;
    }
    let ghost d = v@.subrange(ds as int, end as int);
    assert(d == (if s.len() > 0 && s[0] == '+' { s.drop_first() } else { s }));
    if ds == end {
        return None;
    }
    let cap: u64 = 0x1_0000_0000;
    let mut acc: u64 = 0;
    let mut valid = true;
    let mut i = ds;
    while i < end
        invariant
            ds <= i <= end <= v.len(),
            cap == 0x1_0000_0000,
            valid == (digits_value(v@.subrange(ds as int, i as int), hex) is Some),
            valid ==> acc as nat == (if digits_value(v@.subrange(ds as int, i as int), hex)->0
                < cap { digits_value(v@.subrange(ds as int, i as int), hex)->0 } else { cap as nat }),
        decreases end - i,
    {
        let ghost prev = v@.subrange(ds as int, i as int);
        let ghost next = v@.subrange(ds as int, i + 1);
        assert(next.drop_last() == prev);
        assert(next.last() == v@[i as int]);
        let c = v[i];
        let u = c as u32;
        let dv: u64 = if 48 <= u && u <= 57 {
            (u - 48) as u64
        } else if hex && 97 <= u && u <= 102 {
            (u - 87) as u64
        } else if hex && 65 <= u && u <= 70 {
            (u - 55) as u64
        } else {
            valid = false;
            0
        };
        if valid {
            assert(digit_value(c, hex) == Some(dv as nat));
            let grown: u64 = if hex { acc * 16 + dv } else { acc * 10 + dv };
            acc = if grown < cap { grown } else { cap };
        }
        i = i + 1;
    }
    if valid && acc < cap {
        Some(acc as u32)
    } else {
        None
    }
}

/// The flags that a throttling report (`get_throttled`'s file or `vcgencmd get_throttled`)
/// states: its last word, read as hexadecimal after `0x`, else as decimal.
pub fn parse_throttled_flags(raw: &str) -> (r: Option<u32>)
    ensures
        r == throttled_flags(raw@),
{
    let v = chars_of(raw);
    let ghost s = v@;
    let n = v.len();
    let mut lo: usize = 0;
    while lo < n && blank(v[lo])
        invariant
            lo <= n == s.len(),
            v@ == s,
            first_unblank(s, 0) == first_unblank(s, lo as nat),
        decreases n - lo,
    {
        lo = lo + 1;
    }
    assert(first_unblank(s, 0) == lo);
    let mut hi: usize = n;
    while hi > lo && blank(v[hi - 1])
        invariant
            lo <= hi <= n == s.len(),
            v@ == s,
            unblank_end(s, lo as nat, n as nat) == unblank_end(s, lo as nat, hi as nat),
        decreases hi,
    {
        hi = hi - 1;
    }
    assert(unblank_end(s, lo as nat, n as nat) == hi);
    let mut e: usize = hi;
    while e > lo && (v[e - 1] == '=' || v[e - 1] == ' ' || v[e - 1] == '\n' || v[e - 1] == '\t')
        invariant
            lo <= e <= hi <= n == s.len(),
            v@ == s,
            separators_end(s, lo as nat, hi as nat) == separators_end(s, lo as nat, e as nat),
        decreases e,
    {
        e = e - 1;
    }
    assert(separators_end(s, lo as nat, hi as nat) == e);
    if e == lo {
        return None;
    }
    let mut b: usize = e;
    while b > lo && !(v[b - 1] == '=' || v[b - 1] == ' ' || v[b - 1] == '\n' || v[b - 1] == '\t')
        invariant
            lo <= b <= e <= n == s.len(),
            v@ == s,
            word_start(s, lo as nat, e as nat) == word_start(s, lo as nat, b as nat),
        decreases b,
    {
        b = b - 1;
    }
    assert(word_start(s, lo as nat, e as nat) == b);
    let ghost w = s.subrange(b as int, e as int);
    assert(last_word(s) == Some(w));
    if e - b >= 2 && v[b] == '0' && v[b + 1] == 'x' {
        assert(w.skip(2) == s.subrange(b + 2, e as int));
        parse_unsigned_at(&v, b + 2, e, true)
    } else {
        parse_unsigned_at(&v, b, e, false)
    }
}

/// A digit character reads back as its value.
proof fn lemma_digit_char_value(d: nat)
    requires
        d < 16,
    ensures
        digit_value(digit_char(d), true) == Some(d),
        (48 <= digit_char(d) as u32 <= 57 || 97 <= digit_char(d) as u32 <= 102),
{
    if d < 10 {
        assert(((48 + d) as char) as u32 == 48 + d);
    } else {
        assert(((87 + d) as char) as u32 == 87 + d);
    }
}

/// The lower-case hexadecimal notation of a number is a non-empty run of hexadecimal
/// digits that reads back as that number.
proof fn lemma_lower_hex_reads_back(n: nat)
    ensures
        lower_hex(n).len() >= 1,
        digits_value(lower_hex(n), true) == Some(n),
        forall|i: int|
            0 <= i < lower_hex(n).len() ==> {
                let u = #[trigger] lower_hex(n)[i] as u32;
                (48 <= u <= 57 || 97 <= u <= 102)
            },
    decreases n,
{
    if n >= 16 {
        lemma_lower_hex_reads_back(n / 16);
        let h = lower_hex(n);
        assert(h.drop_last() == lower_hex(n / 16));
        assert(h.last() == digit_char(n % 16));
        assert(n == (n / 16) * 16 + n % 16);
        lemma_digit_char_value(n % 16);
        assert(digits_value(h, true) == Some((n / 16) * 16 + n % 16));
    } else {
        lemma_digit_char_value(n);
        let h = lower_hex(n);
        assert(h.last() == digit_char(n));
        assert(digits_value(h.drop_last(), true) == Some(0nat));
        assert(digits_value(h, true) == Some(0nat * 16 + n));
        assert(lower_hex(n) == seq![digit_char(n)]);
        assert(lower_hex(n).drop_last() =~= Seq::<char>::empty());
    }
}

/// `word_start` walks back over non-separators to the separator at `k - 1`.
proof fn lemma_word_start_at(s: Seq<char>, lo: nat, k: nat, j: nat)
    requires
        lo < k <= j <= s.len(),
        is_report_separator(s[k - 1]),
        forall|i: int| k <= i < j ==> !is_report_separator(#[trigger] s[i]),
    ensures
        word_start(s, lo, j) == k,
    decreases j,
{
    if j > k {
        lemma_word_start_at(s, lo, k, (j - 1) as nat);
    }
}

/// Reading back what the firmware prints: a report `throttled=0x<flags>` ending in a
/// newline, as `vcgencmd get_throttled` writes it, states exactly `flags`.
pub proof fn lemma_report_roundtrip(flags: u32)
    ensures
        throttled_flags(("throttled=0x"@ + lower_hex(flags as nat)).push('\n')) == Some(flags),
{
    reveal_strlit("throttled=0x");
    let h = lower_hex(flags as nat);
    lemma_lower_hex_reads_back(flags as nat);
    let s = ("throttled=0x"@ + h).push('\n');
    let n = s.len();
    assert(n == 13 + h.len());
    assert(s[0] == 't');
    assert(!is_blank(s[0]));
    assert(first_unblank(s, 0) == 0);
    assert(s[n - 1] == '\n');
    assert(s[n - 2] == h[h.len() - 1]);
    assert(unblank_end(s, 0, (n - 1) as nat) == n - 1);
    assert(unblank_end(s, 0, n as nat) == n - 1);
    assert(separators_end(s, 0, (n - 1) as nat) == n - 1);
    assert forall|i: int| 10 <= i < n - 1 implies !is_report_separator(#[trigger] s[i]) by {
        if i >= 12 {
            assert(s[i] == h[i - 12]);
        }
    }
    assert(s[9] == '=');
    lemma_word_start_at(s, 0, 10, (n - 1) as nat);
    let w = s.subrange(10, n - 1);
    assert(last_word(s) == Some(w));
    assert(w[0] == '0' && w[1] == 'x');
    assert(w.skip(2) =~= h);
    assert(h[0] != '+');
}

// ---------------------------------------------------------------------------
// Snapshots and health
// ---------------------------------------------------------------------------

/// Free and total bytes of the storage that the dashboard runs from.
#[derive(Clone, Copy, PartialEq, Eq, Structural, Debug)]
pub struct StorageSnapshot {
    pub available: u64,
    pub total: u64,
}

/// Memory figures in bytes.
#[derive(Clone, Copy, PartialEq, Eq, Structural, Debug)]
pub struct MemorySnapshot {
    pub available: u64,
    pub used: u64,
    pub total: u64,
}

/// How the dashboard was started.
#[derive(Clone, Copy, PartialEq, Eq, Structural, Debug)]
pub struct RuntimeSnapshot {
    pub launched_by_systemd: bool,
}

/// What the Pi firmware reports about its power supply and throttling.
#[derive(Clone, Copy, PartialEq, Eq, Structural, Debug)]
pub enum PiPowerStatus {
    /// No report could be read.
    Unknown,
    /// The report states no flag.
    Normal,
    /// The report states these (non-zero) flags.
    Flags(u32),
}

/// How worrying a reading is.
#[derive(Clone, Copy, PartialEq, Eq, Structural, Debug, PartialOrd, Ord, Hash)]
pub enum HealthLevel {
    Normal,
    Warn,
    Alert,
}

/// The place of a level in the order `Normal < Warn < Alert`.
pub open spec fn severity(level: HealthLevel) -> nat {
    match level {
        HealthLevel::Normal => 0,
        HealthLevel::Warn => 1,
        HealthLevel::Alert => 2,
    }
}

impl HealthLevel {
    /// The place of this level in the order `Normal < Warn < Alert`.
    pub fn rank(self) -> (r: u8)
        ensures
            r == severity(self),
    {
        match self {
            HealthLevel::Normal => 0,
            HealthLevel::Warn => 1,
            HealthLevel::Alert => 2,
        }
    }
}

/// The overall health: the worst level found and the reason given for it.
#[derive(Clone, Copy, Debug)]
pub struct HealthSnapshot {
    pub level: HealthLevel,
    pub reason: &'static str,
}

/// The health before any reading is taken into account.
pub open spec fn all_clear_spec() -> HealthSnapshot {
    HealthSnapshot { level: HealthLevel::Normal, reason: "all clear" }
}

/// `health` once a reading of `level` is taken into account: a strictly worse level
/// replaces the current one, with `warn_reason` or `alert_reason` as its reason.
pub open spec fn raised(
    health: HealthSnapshot,
    level: HealthLevel,
    warn_reason: &'static str,
    alert_reason: &'static str,
) -> HealthSnapshot {
    if severity(level) > severity(health.level) {
        HealthSnapshot {
            level,
            reason: if level == HealthLevel::Warn { warn_reason } else { alert_reason },
        }
    } else {
        health
    }
}

/// Takes a reading of `level` into account (see `raised`).
pub fn raise_health(
    health: &mut HealthSnapshot,
    level: HealthLevel,
    warn_reason: &'static str,
    alert_reason: &'static str,
)
    ensures
        *final(health) == raised(*old(health), level, warn_reason, alert_reason),
{
    let reason = match level {
        HealthLevel::Normal => return,
        HealthLevel::Warn => warn_reason,
        HealthLevel::Alert => alert_reason,
    };
    if level.rank() > health.level.rank() {
        health.level = level;
        health.reason = reason;
    }
}

/// The level of free storage: alert at 10% free or less, warning at 20% or less,
/// no concern when the total is unknown (zero).
pub open spec fn disk_level_of(storage: StorageSnapshot) -> HealthLevel {
    if storage.total == 0 {
        HealthLevel::Normal
    } else if storage.available * 10 <= storage.total {
        HealthLevel::Alert
    } else if storage.available * 5 <= storage.total {
        HealthLevel::Warn
    } else {
        HealthLevel::Normal
    }
}

/// Less free space on the same disk is never less worrying.
pub proof fn lemma_disk_level_monotone(fuller: StorageSnapshot, emptier: StorageSnapshot)
    requires
        fuller.total == emptier.total,
        fuller.available <= emptier.available,
    ensures
        severity(disk_level_of(fuller)) >= severity(disk_level_of(emptier)),
{
}

/// The disk thresholds: with a known total, the level is an alert exactly when at most
/// a tenth of the disk is free, no concern exactly when more than a fifth is free, and
/// a warning in between; an unknown total (zero) is no concern.
pub proof fn lemma_disk_level_thresholds(storage: StorageSnapshot)
    ensures
        storage.total == 0 ==> disk_level_of(storage) == HealthLevel::Normal,
        storage.total > 0 ==> (disk_level_of(storage) == HealthLevel::Alert <==> 10 * storage.available <= storage.total),
        storage.total > 0 ==> (disk_level_of(storage) == HealthLevel::Normal <==> 5 * storage.available > storage.total),
{
}

/// The level of free storage (see `disk_level_of`).
pub fn disk_level(storage: StorageSnapshot) -> (level: HealthLevel)
    ensures
        level == disk_level_of(storage),
{
    if storage.total == 0 {
        return HealthLevel::Normal;
    }
    let available = storage.available as u128;
    let total = storage.total as u128;
    if available * 10 <= total {
        HealthLevel::Alert
    } else if available * 5 <= total {
        HealthLevel::Warn
    } else {
        HealthLevel::Normal
    }
}

/// The level of the power report: any of the four current-condition flags
/// (under-voltage, frequency capped, throttled, soft temperature limit) is an alert,
/// other flags (conditions seen earlier) a warning.
pub open spec fn pi_power_level_of(status: PiPowerStatus) -> HealthLevel {
    match status {
        PiPowerStatus::Unknown | PiPowerStatus::Normal => HealthLevel::Normal,
        PiPowerStatus::Flags(flags) => if flags & 0x0f != 0 {
            HealthLevel::Alert
        } else {
            HealthLevel::Warn
        },
    }
}

/// The level of the power report (see `pi_power_level_of`).
pub fn pi_power_level(status: PiPowerStatus) -> (level: HealthLevel)
    ensures
        level == pi_power_level_of(status),
{
    match status {
        PiPowerStatus::Unknown | PiPowerStatus::Normal => HealthLevel::Normal,
        PiPowerStatus::Flags(flags) => if flags & 0x0f != 0 {
            HealthLevel::Alert
        } else {
            HealthLevel::Warn
        },
    }
}

/// The status that a report's flags give: none read, none set, or the flags set.
pub open spec fn power_status_of(flags: Option<u32>) -> PiPowerStatus {
    match flags {
        Some(f) => if f == 0 { PiPowerStatus::Normal } else { PiPowerStatus::Flags(f) },
        None => PiPowerStatus::Unknown,
    }
}

/// The power status that a throttling report gives; `None` when no report could be read.
pub fn pi_power_status(report: Option<&str>) -> (status: PiPowerStatus)
    ensures
        status == power_status_of(
            match report {
                Some(r) => throttled_flags(r@),
                None => None,
            },
        ),
{
    let flags = match report {
        Some(r) => parse_throttled_flags(r),
        None => None,
    };
    match flags {
        Some(0) => PiPowerStatus::Normal,
        Some(f) => PiPowerStatus::Flags(f),
        None => PiPowerStatus::Unknown,
    }
}

/// Whether the process runs under systemd, given whether `INVOCATION_ID` and
/// `JOURNAL_STREAM` are set in its environment.
pub fn runtime_snapshot(invocation_id_set: bool, journal_stream_set: bool) -> (r: RuntimeSnapshot)
    ensures
        r.launched_by_systemd == (invocation_id_set || journal_stream_set),
{
    RuntimeSnapshot { launched_by_systemd: invocation_id_set || journal_stream_set }
}

/// The overall health from the levels of temperature, CPU use and memory use (when
/// known), the storage figures (when known) and the power report, taken into account
/// in that order, each with its two reasons.
pub open spec fn health_of(
    temperature: HealthLevel,
    cpu: HealthLevel,
    memory: Option<HealthLevel>,
    storage: Option<StorageSnapshot>,
    pi_power: PiPowerStatus,
) -> HealthSnapshot {
    let h1 = raised(all_clear_spec(), temperature, "heat", "hot");
    let h2 = raised(h1, cpu, "cpu busy", "cpu pegged");
    let h3 = match memory {
        Some(m) => raised(h2, m, "ram busy", "ram tight"),
        None => h2,
    };
    let h4 = match storage {
        Some(st) => raised(h3, disk_level_of(st), "disk low", "disk tight"),
        None => h3,
    };
    raised(h4, pi_power_level_of(pi_power), "pi power", "pi power")
}

/// The overall health (see `health_of`). The temperature, CPU and memory levels are
/// those of their readings against their thresholds.
pub fn health_snapshot(
    temperature: HealthLevel,
    cpu: HealthLevel,
    memory: Option<HealthLevel>,
    storage: Option<StorageSnapshot>,
    pi_power: PiPowerStatus,
) -> (health: HealthSnapshot)
    ensures
        health == health_of(temperature, cpu, memory, storage, pi_power),
{
    let mut health = HealthSnapshot { level: HealthLevel::Normal, reason: "all clear" };
    raise_health(&mut health, temperature, "heat", "hot");
    raise_health(&mut health, cpu, "cpu busy", "cpu pegged");
    if let Some(m) = memory {
        raise_health(&mut health, m, "ram busy", "ram tight");
    }
    if let Some(st) = storage {
        raise_health(&mut health, disk_level(st), "disk low", "disk tight");
    }
    match pi_power {
        PiPowerStatus::Flags(flags) if flags & 0x0f != 0 => {
            raise_health(&mut health, HealthLevel::Alert, "pi power", "pi power")
        },
        PiPowerStatus::Flags(_) => {
            raise_health(&mut health, HealthLevel::Warn, "pi power", "pi power")
        },
        PiPowerStatus::Unknown | PiPowerStatus::Normal => {},
    }
    health
}

/// The worse of two severities.
pub open spec fn worse(a: nat, b: nat) -> nat {
    if a >= b {
        a
    } else {
        b
    }
}

/// A reading never lowers the health: afterwards the level is the worse of the level
/// before and the reading's, and a reading no worse than the current level changes
/// nothing, its reason included.
pub proof fn lemma_raise_takes_worse(
    health: HealthSnapshot,
    level: HealthLevel,
    warn_reason: &'static str,
    alert_reason: &'static str,
)
    ensures
        severity(raised(health, level, warn_reason, alert_reason).level) == worse(
            severity(health.level),
            severity(level),
        ),
        severity(level) <= severity(health.level) ==> raised(
            health,
            level,
            warn_reason,
            alert_reason,
        ) == health,
{
}

/// The overall health is the worst of its signals (a missing memory or storage
/// reading counts as normal), and it is "all clear" exactly when every signal is
/// normal.
pub proof fn lemma_health_is_worst_signal(
    temperature: HealthLevel,
    cpu: HealthLevel,
    memory: Option<HealthLevel>,
    storage: Option<StorageSnapshot>,
    pi_power: PiPowerStatus,
)
    ensures
        ({
            let memory_sev = match memory {
                Some(m) => severity(m),
                None => 0,
            };
            let storage_sev = match storage {
                Some(st) => severity(disk_level_of(st)),
                None => 0,
            };
            severity(health_of(temperature, cpu, memory, storage, pi_power).level) == worse(
                worse(worse(worse(severity(temperature), severity(cpu)), memory_sev), storage_sev),
                severity(pi_power_level_of(pi_power)),
            )
        }),
        (health_of(temperature, cpu, memory, storage, pi_power).level == HealthLevel::Normal)
            == (health_of(temperature, cpu, memory, storage, pi_power) == all_clear_spec()),
{
}

/// The reason names the signal that set the level: the first signal, in the order
/// temperature, CPU, memory, storage, power, that is as bad as the overall level gives
/// its own reason for that level ("heat"/"hot", "cpu busy"/"cpu pegged",
/// "ram busy"/"ram tight", "disk low"/"disk tight", "pi power"); when every signal is
/// normal the reason is "all clear".
pub proof fn lemma_health_reason_names_its_signal(
    temperature: HealthLevel,
    cpu: HealthLevel,
    memory: Option<HealthLevel>,
    storage: Option<StorageSnapshot>,
    pi_power: PiPowerStatus,
)
    ensures
        ({
            let h = health_of(temperature, cpu, memory, storage, pi_power);
            let warn = h.level == HealthLevel::Warn;
            let by_temperature = temperature == h.level;
            let by_cpu = !by_temperature && cpu == h.level;
            let by_memory = !by_temperature && !by_cpu && memory == Some(h.level);
            let by_storage = !by_temperature && !by_cpu && !by_memory && match storage {
                Some(st) => disk_level_of(st) == h.level,
                None => false,
            };
            let by_power = !by_temperature && !by_cpu && !by_memory && !by_storage;
            &&& h.level == HealthLevel::Normal ==> h.reason@ == "all clear"@
            &&& h.level != HealthLevel::Normal && by_temperature ==> h.reason@ == if warn {
                "heat"@
            } else {
                "hot"@
            }
            &&& h.level != HealthLevel::Normal && by_cpu ==> h.reason@ == if warn {
                "cpu busy"@
            } else {
                "cpu pegged"@
            }
            &&& h.level != HealthLevel::Normal && by_memory ==> h.reason@ == if warn {
                "ram busy"@
            } else {
                "ram tight"@
            }
            &&& h.level != HealthLevel::Normal && by_storage ==> h.reason@ == if warn {
                "disk low"@
            } else {
                "disk tight"@
            }
            &&& h.level != HealthLevel::Normal && by_power ==> h.reason@ == "pi power"@
                && pi_power_level_of(pi_power) == h.level
        }),
{
}

// ---------------------------------------------------------------------------
// Network traffic
// ---------------------------------------------------------------------------

/// Bytes received and sent by one network interface since the last sample.
pub struct InterfaceTraffic {
    pub name: String,
    pub received: u64,
    pub transmitted: u64,
}

/// Loopback interfaces are those whose name begins with `lo`.
pub open spec fn is_loopback_name(name: Seq<char>) -> bool {
    begins_with(name, seq!['l', 'o'])
}

/// Received and sent bytes summed over `ifaces`, leaving out loopback interfaces when
/// `external_only` holds.
pub open spec fn traffic_sum(ifaces: Seq<InterfaceTraffic>, external_only: bool) -> (nat, nat)
    decreases ifaces.len(),
{
    if ifaces.len() == 0 {
        (0, 0)
    } else {
        let (r, t) = traffic_sum(ifaces.drop_last(), external_only);
        let last = ifaces.last();
        if external_only && is_loopback_name(last.name@) {
            (r, t)
        } else {
            (r + last.received as nat, t + last.transmitted as nat)
        }
    }
}

/// Whether some interface of `ifaces` is not a loopback interface.
pub open spec fn has_external(ifaces: Seq<InterfaceTraffic>) -> bool {
    exists|i: int| 0 <= i < ifaces.len() && !is_loopback_name(#[trigger] ifaces[i].name@)
}

/// The traffic the dashboard shows: that of the non-loopback interfaces when there is
/// one, else that of all interfaces.
pub open spec fn network_totals(ifaces: Seq<InterfaceTraffic>) -> (nat, nat) {
    traffic_sum(ifaces, has_external(ifaces))
}

/// Sums over a prefix never exceed sums over a longer prefix.
proof fn lemma_traffic_prefix(ifaces: Seq<InterfaceTraffic>, external_only: bool, i: int, j: int)
    requires
        0 <= i <= j <= ifaces.len(),
    ensures
        traffic_sum(ifaces.take(i), external_only).0 <= traffic_sum(ifaces.take(j), external_only).0,
        traffic_sum(ifaces.take(i), external_only).1 <= traffic_sum(ifaces.take(j), external_only).1,
    decreases j - i,
{
    if i < j {
        lemma_traffic_prefix(ifaces, external_only, i, j - 1);
        assert(ifaces.take(j).drop_last() == ifaces.take(j - 1));
    }
}

/// Whether an interface name denotes a loopback interface.
fn loopback_name(name: &String) -> (r: bool)
    ensures
        r == is_loopback_name(name@),
{
    proof {
        reveal_strlit("lo");
        assert("lo"@ =~= seq!['l', 'o']);
    }
    has_prefix(name.as_str(), "lo")
}

/// Whether the traffic totals fit in `u64` (see `network_totals`).
pub fn traffic_fits(interfaces: &[InterfaceTraffic]) -> (r: bool)
    ensures
        r == (network_totals(interfaces@).0 <= u64::MAX && network_totals(interfaces@).1 <= u64::MAX),
{
    proof {
        reveal_strlit("lo");
    }
    let ghost s = interfaces@;
    let external = has_external_interface(interfaces);
    let mut received: u128 = 0;
    let mut transmitted: u128 = 0;
    let mut i: usize = 0;
    while i < interfaces.len()
        invariant
            i <= interfaces.len(),
            s == interfaces@,
            external == has_external(s),
            received == traffic_sum(s.take(i as int), external).0,
            transmitted == traffic_sum(s.take(i as int), external).1,
            received <= i * 0xFFFF_FFFF_FFFF_FFFF,
            transmitted <= i * 0xFFFF_FFFF_FFFF_FFFF,
        decreases interfaces.len() - i,
    {
        assert(s.take(i + 1).drop_last() == s.take(i as int));
        assert(i < 0x1_0000_0000_0000_0000);
        assert((i + 1) * 0xFFFF_FFFF_FFFF_FFFF < 0x1_0000_0000_0000_0000_0000_0000_0000_0000) by (nonlinear_arith)
            requires
                i < 0x1_0000_0000_0000_0000,
        ;
        if !(external && loopback_name(&interfaces[i].name)) {
            received = received + interfaces[i].received as u128;
            transmitted = transmitted + interfaces[i].transmitted as u128;
        }
        i = i + 1;
    }
    assert(s.take(s.len() as int) == s);
    received <= 0xFFFF_FFFF_FFFF_FFFF && transmitted <= 0xFFFF_FFFF_FFFF_FFFF
}

/// Whether some interface is not a loopback interface.
fn has_external_interface(interfaces: &[InterfaceTraffic]) -> (r: bool)
    ensures
        r == has_external(interfaces@),
{
    let mut i: usize = 0;
    while i < interfaces.len()
        invariant
            i <= interfaces.len(),
            forall|j: int| 0 <= j < i ==> is_loopback_name(#[trigger] interfaces@[j].name@),
        decreases interfaces.len() - i,
    {
        if !loopback_name(&interfaces[i].name) {
            return true;
        }
        i = i + 1;
    }
    false
}

/// The bytes received and sent (see `network_totals`).
pub fn network_bytes(interfaces: &[InterfaceTraffic]) -> (r: (u64, u64))
    requires
        network_totals(interfaces@).0 <= u64::MAX,
        network_totals(interfaces@).1 <= u64::MAX,
    ensures
        r.0 == network_totals(interfaces@).0,
        r.1 == network_totals(interfaces@).1,
{
    proof {
        reveal_strlit("lo");
    }
    let ghost s = interfaces@;
    let mut received: u64 = 0;
    let mut transmitted: u64 = 0;
    let mut found_non_loopback = false;
    let mut i: usize = 0;
    while i < interfaces.len()
        invariant
            i <= interfaces.len(),
            s == interfaces@,
            has_external(s) ==> traffic_sum(s, true).0 <= u64::MAX,
            has_external(s) ==> traffic_sum(s, true).1 <= u64::MAX,
            received == traffic_sum(s.take(i as int), true).0,
            transmitted == traffic_sum(s.take(i as int), true).1,
            found_non_loopback == exists|j: int| 0 <= j < i && !is_loopback_name(#[trigger] s[j].name@),
        decreases interfaces.len() - i,
    {
        assert(s.take(i + 1).drop_last() == s.take(i as int));
        if !loopback_name(&interfaces[i].name) {
            assert(has_external(s));
            proof {
                lemma_traffic_prefix(s, true, i + 1, s.len() as int);
                assert(s.take(s.len() as int) == s);
            }
            found_non_loopback = true;
            received = received + interfaces[i].received;
            transmitted = transmitted + interfaces[i].transmitted;
        }
        i = i + 1;
    }
    assert(s.take(s.len() as int) == s);
    if found_non_loopback {
        return (received, transmitted);
    }
    let mut all_received: u64 = 0;
    let mut all_transmitted: u64 = 0;
    let mut k: usize = 0;
    while k < interfaces.len()
        invariant
            k <= interfaces.len(),
            s == interfaces@,
            !has_external(s),
            traffic_sum(s, false).0 <= u64::MAX,
            traffic_sum(s, false).1 <= u64::MAX,
            all_received == traffic_sum(s.take(k as int), false).0,
            all_transmitted == traffic_sum(s.take(k as int), false).1,
        decreases interfaces.len() - k,
    {
        assert(s.take(k + 1).drop_last() == s.take(k as int));
        proof {
            lemma_traffic_prefix(s, false, k + 1, s.len() as int);
            assert(s.take(s.len() as int) == s);
        }
        all_received = all_received + interfaces[k].received;
        all_transmitted = all_transmitted + interfaces[k].transmitted;
        k = k + 1;
    }
    (all_received, all_transmitted)
}

// ---------------------------------------------------------------------------
// Storage
// ---------------------------------------------------------------------------

/// One mounted file system: where it is mounted and its free and total bytes.
pub struct DiskSpace {
    pub mount_point: String,
    pub available: u64,
    pub total: u64,
}

/// Whether the path `path` lies under `base`, component by component, as
/// `std::path::Path::starts_with` decides.
pub uninterp spec fn path_starts_with(path: Seq<char>, base: Seq<char>) -> bool;

/// The number of components of `path`, as `std::path::Path::components` counts them.
pub uninterp spec fn path_component_count(path: Seq<char>) -> usize;

/// Whether the paths `a` and `b` are equal as `std::path::Path`'s `==` compares paths.
pub uninterp spec fn path_equal(a: Seq<char>, b: Seq<char>) -> bool;

/// `Path::new(path).starts_with(base)`: whether `base` is a leading run of the
/// components of `path`. The contract names the result; it states nothing of how
/// components are found.
#[verifier::external_body]
fn path_has_prefix(path: &str, base: &str) -> (r: bool)
    ensures
        r == path_starts_with(path@, base@),
{
    std::path::Path::new(path).starts_with(base)
}

/// `Path::new(path).components().count()`. The contract names the result.
#[verifier::external_body]
fn path_components(path: &str) -> (n: usize)
    ensures
        n == path_component_count(path@),
{
    std::path::Path::new(path).components().count()
}

/// `Path::new(a) == Path::new(b)`: whether the two paths have the same components.
/// The contract names the result; it states nothing of how components are compared.
#[verifier::external_body]
fn path_eq(a: &str, b: &str) -> (r: bool)
    ensures
        r == path_equal(a@, b@),
{
    std::path::Path::new(a) == std::path::Path::new(b)
}

/// How well a disk mounted at `mount` fits the working directory `current_dir`: the
/// depth of its mount point when it contains the directory, else one for the root
/// file system and zero for others.
pub open spec fn disk_fit(current_dir: Option<Seq<char>>, mount: Seq<char>) -> usize {
    match current_dir {
        Some(dir) => if path_starts_with(dir, mount) {
            path_component_count(mount)
        } else if path_equal(mount, "/"@) {
            1
        } else {
            0
        },
        None => if path_equal(mount, "/"@) {
            1
        } else {
            0
        },
    }
}

/// Whether `i` is the last position of a greatest value of `keys`, the element that
/// `Iterator::max_by_key` picks.
pub open spec fn is_last_max(keys: Seq<usize>, i: int) -> bool {
    &&& 0 <= i < keys.len()
    &&& forall|j: int| 0 <= j < keys.len() ==> keys[j] <= keys[i]
    &&& forall|j: int| i < j < keys.len() ==> keys[j] < keys[i]
}

/// The position of the last greatest key; `None` for no keys.
pub fn select_disk(keys: &[usize]) -> (r: Option<usize>)
    ensures
        r is None <==> keys@.len() == 0,
        r matches Some(i) ==> is_last_max(keys@, i as int),
{
    if keys.len() == 0 {
        return None;
    }
    let mut best: usize = 0;
    let mut i: usize = 1;
    while i < keys.len()
        invariant
            1 <= i <= keys.len(),
            best < i,
            forall|j: int| 0 <= j < i ==> keys@[j] <= keys@[best as int],
            forall|j: int| best < j < i ==> keys@[j] < keys@[best as int],
        decreases keys.len() - i,
    {
        if keys[i] >= keys[best] {
            best = i;
        }
        i = i + 1;
    }
    Some(best)
}

/// The characters of an optional text.
pub open spec fn text_view(t: Option<&str>) -> Option<Seq<char>> {
    match t {
        Some(x) => Some(x@),
        None => None,
    }
}

/// The fit of each disk to the working directory.
pub open spec fn disk_fits(current_dir: Option<Seq<char>>, disks: Seq<DiskSpace>) -> Seq<usize> {
    Seq::new(disks.len(), |i: int| disk_fit(current_dir, disks[i].mount_point@))
}

/// The figures of the disk that the working directory `current_dir` lies on: the last
/// disk of greatest fit (see `disk_fit`); `None` when there is no disk.
pub fn storage_snapshot(current_dir: Option<&str>, disks: &[DiskSpace]) -> (r: Option<StorageSnapshot>)
    ensures
        r is None <==> disks@.len() == 0,
        r matches Some(st) ==> exists|i: int|
            #![trigger disks@[i]]
            is_last_max(disk_fits(text_view(current_dir), disks@), i)
                && st == (StorageSnapshot { available: disks@[i].available, total: disks@[i].total }),
{
    let ghost dir = text_view(current_dir);
    let mut keys: Vec<usize> = Vec::new();
    let mut i: usize = 0;
    while i < disks.len()
        invariant
            i <= disks.len(),
            dir == text_view(current_dir),
            keys@ == disk_fits(dir, disks@).take(i as int),
        decreases disks.len() - i,
    {
        let mount = disks[i].mount_point.as_str();
        let fits_dir = match current_dir {
            Some(d) => path_has_prefix(d, mount),
            None => false,
        };
        let key = if fits_dir {
            path_components(mount)
        } else if path_eq(mount, "/") {
            1
        } else {
            0
        };
        keys.push(key);
        assert(keys@ =~= disk_fits(dir, disks@).take(i + 1));
        i = i + 1;
    }
    assert(keys@ =~= disk_fits(dir, disks@));
    match select_disk(keys.as_slice()) {
        Some(k) => {
            let st = StorageSnapshot { available: disks[k].available, total: disks[k].total };
            assert(st.available == disks@[k as int].available);
            Some(st)
        },
        None => None,
    }
}

} // verus!
