use vstd::prelude::*;
use crate::decimal::{dec, fixed1, div_round_even, push_decimal, push_fixed1, div_round_half_even};

verus! {

pub const KIB: u64 = 1024;
pub const MIB: u64 = 1048576;
pub const GIB: u64 = 1073741824;

/// Smallest integer the floating-point format cannot hold exactly
/// together with its successor (2^53).
pub const F64_EXACT_LIMIT: u64 = 9007199254740992;

/// The spacing of double-precision values around `b`: 1 below 2^53,
/// doubling with every further binary digit of `b`.
pub open spec fn f64_spacing(b: nat) -> nat
    decreases b,
{
    if b < F64_EXACT_LIMIT {
        1
    } else {
        2 * f64_spacing(b / 2)
    }
}

/// The value of `b` converted to a double: `b` rounded to a multiple of
/// its spacing, halves to even (exactly `b` below 2^53).
pub open spec fn f64_nearest(b: nat) -> nat {
    div_round_even(b, f64_spacing(b)) * f64_spacing(b)
}

/// Text of a byte count: whole bytes below 1 KiB, rounded whole KiB and
/// MiB below 1 MiB and 1 GiB, and GiB with one decimal place above.
/// The GiB figure is that of the count converted to a double, divided
/// by 2^30 and printed with one decimal (halves to even).
pub open spec fn spec_format_bytes(b: nat) -> Seq<char> {
    if b >= GIB {
        fixed1(div_round_even(f64_nearest(b) * 10, GIB as nat)) + " GB"@
    } else if b >= MIB {
        dec(div_round_even(b, MIB as nat)) + " MB"@
    } else if b >= KIB {
        dec(div_round_even(b, KIB as nat)) + " KB"@
    } else {
        dec(b) + " B"@
    }
}

/// Text of a byte rate: whole B/s below 1 KiB/s, rounded whole KiB/s
/// below 1 MiB/s, and MiB/s with one decimal place above (from the rate
/// converted to a double, halves to even).
pub open spec fn spec_format_throughput(b: nat) -> Seq<char> {
    if b >= MIB {
        fixed1(div_round_even(f64_nearest(b) * 10, MIB as nat)) + " MB/s"@
    } else if b >= KIB {
        dec(div_round_even(b, KIB as nat)) + " KB/s"@
    } else {
        dec(b) + " B/s"@
    }
}

/// Text of an uptime in seconds: days, hours and minutes, leading zero
/// units dropped (minutes always shown), seconds dropped.
pub open spec fn spec_format_uptime(s: nat) -> Seq<char> {
    let days = s / 86400;
    let hours = (s % 86400) / 3600;
    let mins = (s % 3600) / 60;
    if days > 0 {
        dec(days) + "d "@ + dec(hours) + "h "@ + dec(mins) + "m"@
    } else if hours > 0 {
        dec(hours) + "h "@ + dec(mins) + "m"@
    } else {
        dec(mins) + "m"@
    }
}

/// Below 2^53 a count converts to a double exactly; above, the spacing
/// of doubles is a power-of-two step such that `b` has 53 binary digits
/// of it (2^52 steps <= b < 2^53 steps). The converted value is a
/// multiple of the spacing within half a spacing of `b`.
pub proof fn lemma_f64_nearest(b: nat)
    ensures
        b < F64_EXACT_LIMIT ==> f64_spacing(b) == 1 && f64_nearest(b) == b,
        b >= F64_EXACT_LIMIT ==> f64_spacing(b) >= 2 && f64_spacing(b) % 2 == 0,
        b >= F64_EXACT_LIMIT ==> f64_spacing(b) * 4503599627370496 <= b < f64_spacing(b) * F64_EXACT_LIMIT,
        2 * f64_nearest(b) <= 2 * b + f64_spacing(b),
        2 * b <= 2 * f64_nearest(b) + f64_spacing(b),
        f64_nearest(b) % f64_spacing(b) == 0,
{
    lemma_f64_spacing_bounds(b);
    let sp = f64_spacing(b);
    let q = div_round_even(b, sp);
    crate::decimal::lemma_div_round_even_nearest(b, sp);
    assert(sp * (2 * q) == 2 * (q * sp)) by (nonlinear_arith);
    assert((q * sp) % sp == 0) by {
        vstd::arithmetic::div_mod::lemma_mod_multiples_basic(q as int, sp as int);
    }
    if b < F64_EXACT_LIMIT {
        assert(b / 1 == b);
        assert(b % 1 == 0);
    }
}

proof fn lemma_f64_spacing_bounds(b: nat)
    ensures
        f64_spacing(b) >= 1,
        b < F64_EXACT_LIMIT ==> f64_spacing(b) == 1,
        b >= F64_EXACT_LIMIT ==> f64_spacing(b) >= 2 && f64_spacing(b) % 2 == 0,
        b >= F64_EXACT_LIMIT ==> f64_spacing(b) * 4503599627370496 <= b < f64_spacing(b) * F64_EXACT_LIMIT,
    decreases b,
{
    if b >= F64_EXACT_LIMIT {
        let h = b / 2;
        lemma_f64_spacing_bounds(h);
        let s = f64_spacing(h);
        assert(f64_spacing(b) == 2 * s);
        assert(b == 2 * h || b == 2 * h + 1);
        if h < F64_EXACT_LIMIT {
            assert(s == 1);
        } else {
            assert(s * 4503599627370496 <= h < s * F64_EXACT_LIMIT);
            assert((2 * s) * 4503599627370496 <= b) by (nonlinear_arith)
                requires s * 4503599627370496 <= h, b >= 2 * h;
            assert(b < (2 * s) * F64_EXACT_LIMIT) by (nonlinear_arith)
                requires h < s * F64_EXACT_LIMIT, b <= 2 * h + 1;
        }
    }
}

/// Byte texts of exact unit multiples: `k` bytes, `k` KiB and `k` MiB
/// (for `k` below 1024) show `k` in their unit, and `k` GiB (below 2^53
/// bytes) shows `k` with one decimal place.
pub proof fn lemma_format_bytes_units(k: nat)
    ensures
        k < KIB ==> spec_format_bytes(k) == dec(k) + " B"@,
        1 <= k < 1024 ==> spec_format_bytes((KIB as nat) * k) == dec(k) + " KB"@,
        1 <= k < 1024 ==> spec_format_bytes((MIB as nat) * k) == dec(k) + " MB"@,
        1 <= k < 8388608 ==> spec_format_bytes((GIB as nat) * k) == fixed1(10 * k) + " GB"@,
{
    if 1 <= k < 1024 {
        lemma_exact_multiple(KIB as nat, k);
        lemma_exact_multiple(MIB as nat, k);
        assert((KIB as nat) * k < MIB) by (nonlinear_arith) requires k < 1024;
        assert((MIB as nat) * k < GIB) by (nonlinear_arith) requires k < 1024;
        assert((KIB as nat) * k >= KIB) by (nonlinear_arith) requires k >= 1;
        assert((MIB as nat) * k >= MIB) by (nonlinear_arith) requires k >= 1;
    }
    if 1 <= k < 8388608 {
        let b = (GIB as nat) * k;
        assert(b < F64_EXACT_LIMIT && b >= GIB) by (nonlinear_arith) requires b == (GIB as nat) * k, 1 <= k < 8388608;
        lemma_f64_nearest(b);
        assert(b * 10 == (GIB as nat) * (10 * k)) by (nonlinear_arith) requires b == (GIB as nat) * k;
        lemma_exact_multiple(GIB as nat, 10 * k);
    }
}

/// Rate texts of exact unit multiples: `k` B/s and `k` KiB/s (for `k`
/// below 1024) show `k` in their unit, and `k` MiB/s (below 2^53) shows
/// `k` with one decimal place.
pub proof fn lemma_format_throughput_units(k: nat)
    ensures
        k < KIB ==> spec_format_throughput(k) == dec(k) + " B/s"@,
        1 <= k < 1024 ==> spec_format_throughput((KIB as nat) * k) == dec(k) + " KB/s"@,
        1 <= k < 8589934592 ==> spec_format_throughput((MIB as nat) * k) == fixed1(10 * k) + " MB/s"@,
{
    if 1 <= k < 1024 {
        lemma_exact_multiple(KIB as nat, k);
        assert((KIB as nat) * k < MIB) by (nonlinear_arith) requires k < 1024;
        assert((KIB as nat) * k >= KIB) by (nonlinear_arith) requires k >= 1;
    }
    if 1 <= k < 8589934592 {
        let b = (MIB as nat) * k;
        assert(b < F64_EXACT_LIMIT && b >= MIB) by (nonlinear_arith) requires b == (MIB as nat) * k, 1 <= k < 8589934592;
        lemma_f64_nearest(b);
        assert(b * 10 == (MIB as nat) * (10 * k)) by (nonlinear_arith) requires b == (MIB as nat) * k;
        lemma_exact_multiple(MIB as nat, 10 * k);
    }
}

proof fn lemma_exact_multiple(d: nat, k: nat)
    requires
        d > 0,
    ensures
        div_round_even(d * k, d) == k,
{
    assert((k * d) as int == (d * k) as int) by (nonlinear_arith);
    vstd::arithmetic::div_mod::lemma_fundamental_div_mod_converse((d * k) as int, d as int, k as int, 0);
}

/// Uptime texts put each unit in its place: `d` days, `h` hours, `m`
/// minutes and `sec` seconds (hours below 24, minutes and seconds below
/// 60) show as "`d`d `h`h `m`m", dropping leading zero units and the
/// seconds.
pub proof fn lemma_format_uptime_units(d: nat, h: nat, m: nat, sec: nat)
    requires
        h < 24,
        m < 60,
        sec < 60,
    ensures
        d > 0 ==> spec_format_uptime(86400 * d + 3600 * h + 60 * m + sec)
            == dec(d) + "d "@ + dec(h) + "h "@ + dec(m) + "m"@,
        d == 0 && h > 0 ==> spec_format_uptime(3600 * h + 60 * m + sec) == dec(h) + "h "@ + dec(m) + "m"@,
        d == 0 && h == 0 ==> spec_format_uptime(60 * m + sec) == dec(m) + "m"@,
{
    let s = 86400 * d + 3600 * h + 60 * m + sec;
    let within_day = 3600 * h + 60 * m + sec;
    let within_hour = 60 * m + sec;
    vstd::arithmetic::div_mod::lemma_fundamental_div_mod_converse(within_hour as int, 60, m as int, sec as int);
    vstd::arithmetic::div_mod::lemma_fundamental_div_mod_converse(within_day as int, 3600, h as int, within_hour as int);
    vstd::arithmetic::div_mod::lemma_fundamental_div_mod_converse(s as int, 86400, d as int, within_day as int);
    vstd::arithmetic::div_mod::lemma_fundamental_div_mod_converse(s as int, 3600, (24 * d + h) as int, within_hour as int);
    vstd::arithmetic::div_mod::lemma_fundamental_div_mod_converse(within_day as int, 3600, h as int, within_hour as int);
    assert(s % 86400 == within_day);
    assert(s % 3600 == within_hour);
    assert(within_day % 3600 == within_hour);
}

/// The double nearest to `b`, as an exact integer.
fn f64_nearest_value(b: u64) -> (f: u128)
    ensures
        f == f64_nearest(b as nat),
        f <= 2 * (b as nat),
{
    let mut t: u64 = b;
    let mut p: u128 = 1;
    while t >= F64_EXACT_LIMIT
        invariant
            p >= 1,
            p == 1 || p <= b,
            t == b as nat / p as nat,
            f64_spacing(b as nat) == p * f64_spacing(t as nat),
        decreases t,
    {
        proof {
            vstd::arithmetic::div_mod::lemma_div_denominator(b as int, p as int, 2);
            assert(f64_spacing(t as nat) == 2 * f64_spacing((t / 2) as nat));
            assert(p * (2 * f64_spacing((t / 2) as nat)) == (2 * p) * f64_spacing((t / 2) as nat))
                by (nonlinear_arith);
            assert(t >= 2);
            assert(b as int / (p * 2) as int >= 1);
            assert((p * 2) <= b) by (nonlinear_arith)
                requires b as int / (p * 2) as int >= 1, p >= 1;
        }
        t = t / 2;
        p = p * 2;
    }
    assert(f64_spacing(t as nat) == 1);
    assert(f64_spacing(b as nat) == p) by {
        let sp = f64_spacing(t as nat);
        assert(sp == 1);
        assert(p * sp == p) by (nonlinear_arith) requires sp == 1;
    }
    let q = div_round_half_even(b as u128, p);
    proof {
        assert(q <= (b as nat / p as nat) + 1);
        assert((b as nat / p as nat) * p <= b) by (nonlinear_arith)
            requires p >= 1;
        assert(q * p <= (b as nat / p as nat) * p + p) by (nonlinear_arith)
            requires q <= (b as nat / p as nat) + 1, p >= 1;
        assert(p <= b || p == 1);
        assert(q * p <= 2 * (b as nat));
    }
    q * p
}

/// Human-readable byte count ("512 B", "3 KB", "40 MB", "1.5 GB").
pub fn format_bytes(bytes: u64) -> (r: String)
    ensures
        r@ == spec_format_bytes(bytes as nat),
{
    let mut s = String::new();
    if bytes >= GIB {
        let f = f64_nearest_value(bytes);
        let tenths = div_round_half_even(f * 10, GIB as u128);
        assert(tenths <= u64::MAX) by {
            assert(f * 10 <= 40 * (u64::MAX as nat));
        }
        push_fixed1(&mut s, tenths as u64);
        proof { reveal_strlit(" GB"); }
        s.append(" GB");
    } else if bytes >= MIB {
        let v = div_round_half_even(bytes as u128, MIB as u128);
        push_decimal(&mut s, v as u64);
        s.append(" MB");
    } else if bytes >= KIB {
        let v = div_round_half_even(bytes as u128, KIB as u128);
        push_decimal(&mut s, v as u64);
        s.append(" KB");
    } else {
        push_decimal(&mut s, bytes);
        s.append(" B");
    }
    s
}

/// Human-readable byte rate ("900 B/s", "12 KB/s", "3.4 MB/s").
pub fn format_throughput(bps: u64) -> (r: String)
    ensures
        r@ == spec_format_throughput(bps as nat),
{
    let mut s = String::new();
    if bps >= MIB {
        let f = f64_nearest_value(bps);
        let tenths = div_round_half_even(f * 10, MIB as u128);
        assert(tenths <= u64::MAX) by {
            assert(f * 10 <= 40 * (u64::MAX as nat));
        }
        push_fixed1(&mut s, tenths as u64);
        s.append(" MB/s");
    } else if bps >= KIB {
        let v = div_round_half_even(bps as u128, KIB as u128);
        push_decimal(&mut s, v as u64);
        s.append(" KB/s");
    } else {
        push_decimal(&mut s, bps);
        s.append(" B/s");
    }
    s
}

/// Compact uptime text ("3d 4h 5m", "4h 5m", "5m").
pub fn format_uptime(seconds: u64) -> (r: String)
    ensures
        r@ == spec_format_uptime(seconds as nat),
{
    let days = seconds / 86400;
    let hours = (seconds % 86400) / 3600;
    let mins = (seconds % 3600) / 60;
    let mut s = String::new();
    if days > 0 {
        push_decimal(&mut s, days);
        s.append("d ");
        push_decimal(&mut s, hours);
        s.append("h ");
        push_decimal(&mut s, mins);
        s.append("m");
    } else if hours > 0 {
        push_decimal(&mut s, hours);
        s.append("h ");
        push_decimal(&mut s, mins);
        s.append("m");
    } else {
        push_decimal(&mut s, mins);
        s.append("m");
    }
    s
}

} // verus!

verus! {

/// At most this many disks are listed one by one.
pub const MAX_LISTED_DISKS: usize = 8;

/// Length of the list of processes ranked by CPU usage.
pub const TOP_CPU_PROCESSES: usize = 20;

/// Length of the list of processes ranked by resident memory.
pub const TOP_MEM_PROCESSES: usize = 10;

/// Per-disk snapshot.
pub struct DiskMetric {
    pub name: String,
    pub mount_point: String,
    pub total_bytes: u64,
    pub used_bytes: u64,
}

/// One disk as the system reports it: capacity and free space.
pub struct DiskSample {
    pub name: String,
    pub mount_point: String,
    pub total_space: u64,
    pub available_space: u64,
}

/// Aggregate disk figures plus the listed disks.
pub struct DiskSummary {
    /// Sum of the capacities of all disks.
    pub total_bytes: u64,
    /// Sum of the used space of all disks.
    pub used_bytes: u64,
    /// The first `MAX_LISTED_DISKS` disks, in the order reported.
    pub disks: Vec<DiskMetric>,
}

/// Used space of a disk: capacity minus free space, never below zero.
pub open spec fn disk_used(s: DiskSample) -> nat {
    if s.available_space <= s.total_space {
        (s.total_space - s.available_space) as nat
    } else {
        0
    }
}

/// Sum of the capacities of `s`.
pub open spec fn total_space_sum(s: Seq<DiskSample>) -> nat
    decreases s.len(),
{
    if s.len() == 0 {
        0
    } else {
        total_space_sum(s.drop_last()) + s.last().total_space as nat
    }
}

/// Sum of the used space of `s`.
pub open spec fn used_space_sum(s: Seq<DiskSample>) -> nat
    decreases s.len(),
{
    if s.len() == 0 {
        0
    } else {
        used_space_sum(s.drop_last()) + disk_used(s.last())
    }
}

/// Sum of a sequence of counters.
pub open spec fn counter_sum(s: Seq<u64>) -> nat
    decreases s.len(),
{
    if s.len() == 0 {
        0
    } else {
        counter_sum(s.drop_last()) + s.last() as nat
    }
}

/// `m` is the metric of sample `s`: same name and mount point, the
/// capacity, and the used space.
pub open spec fn metric_of(m: DiskMetric, s: DiskSample) -> bool {
    &&& m.name@ == s.name@
    &&& m.mount_point@ == s.mount_point@
    &&& m.total_bytes == s.total_space
    &&& m.used_bytes == disk_used(s)
}

/// Sums over a prefix never exceed the sums over the whole sequence,
/// and the used space never exceeds the capacity.
pub proof fn lemma_disk_sums_prefix(s: Seq<DiskSample>, i: int)
    requires
        0 <= i <= s.len(),
    ensures
        total_space_sum(s.take(i)) <= total_space_sum(s),
        used_space_sum(s.take(i)) <= used_space_sum(s),
        used_space_sum(s) <= total_space_sum(s),
    decreases s.len(),
{
    if s.len() > 0 {
        if i == s.len() {
            assert(s.take(i) =~= s);
            lemma_disk_sums_prefix(s.drop_last(), i - 1);
        } else {
            assert(s.take(i) =~= s.drop_last().take(i));
            lemma_disk_sums_prefix(s.drop_last(), i);
        }
    }
}

/// Sums over a prefix of counters never exceed the whole sum.
pub proof fn lemma_counter_sum_prefix(s: Seq<u64>, i: int)
    requires
        0 <= i <= s.len(),
    ensures
        counter_sum(s.take(i)) <= counter_sum(s),
    decreases s.len(),
{
    if s.len() > 0 {
        if i == s.len() {
            assert(s.take(i) =~= s);
        } else {
            assert(s.take(i) =~= s.drop_last().take(i));
            lemma_counter_sum_prefix(s.drop_last(), i);
        }
    }
}

/// Aggregate the disks: capacities and used space summed over all
/// disks, and the first `MAX_LISTED_DISKS` disks listed in order.
pub fn summarize_disks(samples: &Vec<DiskSample>) -> (r: DiskSummary)
    requires
        total_space_sum(samples@) <= u64::MAX,
    ensures
        r.total_bytes == total_space_sum(samples@),
        r.used_bytes == used_space_sum(samples@),
        r.disks@.len() == if samples@.len() < MAX_LISTED_DISKS { samples@.len() } else { MAX_LISTED_DISKS as nat },
        forall|i: int| 0 <= i < r.disks@.len() ==> metric_of(#[trigger] r.disks@[i], samples@[i]),
        forall|i: int| 0 <= i < r.disks@.len() && samples@[i].available_space <= samples@[i].total_space
            ==> #[trigger] r.disks@[i].used_bytes + samples@[i].available_space == samples@[i].total_space,
        forall|i: int| 0 <= i < r.disks@.len() && samples@[i].available_space > samples@[i].total_space
            ==> #[trigger] r.disks@[i].used_bytes == 0,
        r.used_bytes <= r.total_bytes,
{
    proof {
        lemma_disk_sums_prefix(samples@, 0);
    }
    let mut total: u64 = 0;
    let mut used: u64 = 0;
    let mut disks: Vec<DiskMetric> = Vec::new();
    let n = samples.len();
    let mut i: usize = 0;
    while i < n
        invariant
            n == samples@.len(),
            0 <= i <= n,
            total_space_sum(samples@) <= u64::MAX,
            total == total_space_sum(samples@.take(i as int)),
            used == used_space_sum(samples@.take(i as int)),
            disks@.len() == if i < MAX_LISTED_DISKS { i as nat } else { MAX_LISTED_DISKS as nat },
            forall|k: int| 0 <= k < disks@.len() ==> metric_of(#[trigger] disks@[k], samples@[k]),
        decreases n - i,
    {
        let d = &samples[i];
        proof {
            assert(samples@.take(i + 1).drop_last() =~= samples@.take(i as int));
            lemma_disk_sums_prefix(samples@, i + 1);
            lemma_disk_sums_prefix(samples@.take(i + 1), i + 1);
        }
        let u = d.total_space.saturating_sub(d.available_space);
        total = total + d.total_space;
        used = used + u;
        if i < MAX_LISTED_DISKS {
            disks.push(DiskMetric {
                name: d.name.clone(),
                mount_point: d.mount_point.clone(),
                total_bytes: d.total_space,
                used_bytes: u,
            });
        }
        i = i + 1;
    }
    assert(samples@.take(n as int) =~= samples@);
    DiskSummary { total_bytes: total, used_bytes: used, disks }
}

/// Sum of counters (such as the bytes received on every interface).
pub fn sum_counters(values: &Vec<u64>) -> (total: u64)
    requires
        counter_sum(values@) <= u64::MAX,
    ensures
        total == counter_sum(values@),
{
    let mut total: u64 = 0;
    let n = values.len();
    let mut i: usize = 0;
    while i < n
        invariant
            n == values@.len(),
            0 <= i <= n,
            counter_sum(values@) <= u64::MAX,
            total == counter_sum(values@.take(i as int)),
        decreases n - i,
    {
        proof {
            assert(values@.take(i + 1).drop_last() =~= values@.take(i as int));
            lemma_counter_sum_prefix(values@, i + 1);
        }
        total = total + values[i];
        i = i + 1;
    }
    assert(values@.take(n as int) =~= values@);
    total
}

/// Whether the capacities of all disks add up within `u64`
/// (the precondition of `summarize_disks`).
pub fn disks_fit(samples: &Vec<DiskSample>) -> (r: bool)
    ensures
        r == (total_space_sum(samples@) <= u64::MAX),
{
    let mut total: u64 = 0;
    let n = samples.len();
    let mut i: usize = 0;
    while i < n
        invariant
            n == samples@.len(),
            0 <= i <= n,
            total == total_space_sum(samples@.take(i as int)),
        decreases n - i,
    {
        proof {
            assert(samples@.take(i + 1).drop_last() =~= samples@.take(i as int));
            lemma_disk_sums_prefix(samples@, i + 1);
        }
        match total.checked_add(samples[i].total_space) {
            Some(t) => {
                total = t;
            },
            None => {
                return false;
            },
        }
        i = i + 1;
    }
    assert(samples@.take(n as int) =~= samples@);
    true
}

/// Whether the counters add up within `u64` (the precondition of
/// `sum_counters`).
pub fn counter_fits(values: &Vec<u64>) -> (r: bool)
    ensures
        r == (counter_sum(values@) <= u64::MAX),
{
    let mut total: u64 = 0;
    let n = values.len();
    let mut i: usize = 0;
    while i < n
        invariant
            n == values@.len(),
            0 <= i <= n,
            total == counter_sum(values@.take(i as int)),
        decreases n - i,
    {
        proof {
            assert(values@.take(i + 1).drop_last() =~= values@.take(i as int));
            lemma_counter_sum_prefix(values@, i + 1);
        }
        match total.checked_add(values[i]) {
            Some(t) => {
                total = t;
            },
            None => {
                return false;
            },
        }
        i = i + 1;
    }
    assert(values@.take(n as int) =~= values@);
    true
}

impl DiskMetric {
    /// The name shown for the disk: its device name, or its mount point
    /// when the name is empty.
    pub fn display_name(&self) -> (r: String)
        ensures
            r@ == if self.name@.len() == 0 { self.mount_point@ } else { self.name@ },
    {
        if self.name.as_str().is_empty() {
            self.mount_point.clone()
        } else {
            self.name.clone()
        }
    }
}

/// The used space of a disk is its capacity minus its free space (a
/// full disk counts its whole capacity as used); free space above the
/// capacity counts as nothing used.
pub proof fn lemma_disk_used_is_capacity_minus_free(s: DiskSample)
    ensures
        s.available_space <= s.total_space ==> disk_used(s) + s.available_space == s.total_space,
        s.available_space > s.total_space ==> disk_used(s) == 0,
        disk_used(s) <= s.total_space,
{
}

/// Counter sums add every element: the empty sum is 0 and one more
/// counter adds its value, at any length.
pub proof fn lemma_counter_sum_additive(s: Seq<u64>, x: u64)
    ensures
        counter_sum(Seq::<u64>::empty()) == 0,
        counter_sum(s.push(x)) == counter_sum(s) + x,
        counter_sum(seq![x]) == x,
{
    assert(s.push(x).drop_last() =~= s);
    assert(seq![x].drop_last() =~= Seq::<u64>::empty());
    assert(counter_sum(seq![x].drop_last()) == 0);
    assert(seq![x].last() == x);
}

/// Sums over two joined sequences of counters are the sum of the sums.
pub proof fn lemma_counter_sum_concat(s: Seq<u64>, t: Seq<u64>)
    ensures
        counter_sum(s + t) == counter_sum(s) + counter_sum(t),
    decreases t.len(),
{
    if t.len() == 0 {
        assert(s + t =~= s);
    } else {
        assert((s + t).drop_last() =~= s + t.drop_last());
        lemma_counter_sum_concat(s, t.drop_last());
    }
}

/// Disk sums add every disk: the empty sums are 0 and one more disk adds
/// its capacity and its used space, at any length.
pub proof fn lemma_disk_sums_additive(s: Seq<DiskSample>, d: DiskSample)
    ensures
        total_space_sum(Seq::<DiskSample>::empty()) == 0,
        used_space_sum(Seq::<DiskSample>::empty()) == 0,
        total_space_sum(s.push(d)) == total_space_sum(s) + d.total_space,
        used_space_sum(s.push(d)) == used_space_sum(s) + disk_used(d),
{
    assert(s.push(d).drop_last() =~= s);
}

} // verus!
