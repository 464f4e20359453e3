//! Host metrics from `/proc`: the aggregate CPU counters and the memory
//! totals. What is read as floating point (load averages, uptime, the CPU
//! percentage) is left to the caller.

use vstd::prelude::*;

use crate::models::texts;
use crate::text::{
    chars_of, concat2, concat4, first_where, has_prefix, line_ranges, lines, number_error_text,
    parse_unsigned, parse_unsigned_range, range_starts_with, range_texts, ranges_within, word_ranges, words,
};

verus! {

/// The idle and total jiffies of the aggregate CPU line of `/proc/stat`.
#[derive(Debug, Clone, Copy, PartialEq, Eq, Structural)]
pub struct ProcStatSample {
    pub idle: u64,
    pub total: u64,
}

/// The fields of the aggregate CPU line, in order.
pub open spec fn stat_labels() -> Seq<Seq<char>> {
    seq!["user"@, "nice"@, "system"@, "idle"@, "iowait"@, "irq"@, "softirq"@, "steal"@]
}

/// `a + b`, no larger than `u64::MAX`.
pub open spec fn sat_add(a: int, b: int) -> int {
    if a + b > u64::MAX {
        u64::MAX as int
    } else {
        a + b
    }
}

/// The line of `/proc/stat` that starts with `cpu `.
pub open spec fn cpu_line() -> spec_fn(Seq<char>) -> bool {
    |line: Seq<char>| has_prefix(line, "cpu "@)
}

/// The first `k` counters of the aggregate CPU line, read in order: the
/// first missing or unreadable one is the error.
pub open spec fn stat_fields(ws: Seq<Seq<char>>, k: nat) -> Result<Seq<nat>, Seq<char>>
    decreases k,
{
    if k == 0 {
        Ok(Seq::empty())
    } else {
        match stat_fields(ws, (k - 1) as nat) {
            Err(e) => Err(e),
            Ok(vals) => {
                let label = stat_labels()[k - 1];
                if ws.len() <= k {
                    Err("missing proc stat field: "@ + label)
                } else {
                    match parse_unsigned(ws[k as int], u64::MAX as nat) {
                        Ok(v) => Ok(vals.push(v)),
                        Err(e) => Err(
                            "invalid proc stat field "@ + label + ": "@ + number_error_text(e),
                        ),
                    }
                }
            },
        }
    }
}

/// The sample that `/proc/stat` gives: idle is idle plus iowait, total the
/// sum of the eight counters, both saturating.
pub open spec fn proc_stat_of(content: Seq<char>) -> Result<(u64, u64), Seq<char>> {
    match first_where(lines(content), cpu_line(), 0) {
        None => Err("missing aggregate cpu line"@),
        Some(i) => match stat_fields(words(lines(content)[i]), 8) {
            Err(e) => Err(e),
            Ok(f) => Ok(
                (
                    sat_add(f[3] as int, f[4] as int) as u64,
                    sat_add(
                        sat_add(
                            sat_add(
                                sat_add(
                                    sat_add(
                                        sat_add(sat_add(f[0] as int, f[1] as int), f[2] as int),
                                        f[3] as int,
                                    ),
                                    f[4] as int,
                                ),
                                f[5] as int,
                            ),
                            f[6] as int,
                        ),
                        f[7] as int,
                    ) as u64,
                ),
            ),
        },
    }
}

/// Once reading the counters fails, reading more of them fails the same way.
proof fn lemma_stat_fields_err(ws: Seq<Seq<char>>, k: nat, m: nat)
    requires
        k <= m,
        stat_fields(ws, k) is Err,
    ensures
        stat_fields(ws, m) == stat_fields(ws, k),
    decreases m,
{
    if k < m {
        lemma_stat_fields_err(ws, k, (m - 1) as nat);
    }
}

fn stat_label(k: usize) -> (r: &'static str)
    requires
        k < 8,
    ensures
        r@ == stat_labels()[k as int],
{
    if k == 0 {
        "user"
    } else if k == 1 {
        "nice"
    } else if k == 2 {
        "system"
    } else if k == 3 {
        "idle"
    } else if k == 4 {
        "iowait"
    } else if k == 5 {
        "irq"
    } else if k == 6 {
        "softirq"
    } else {
        "steal"
    }
}

/// Reads the aggregate CPU counters from the contents of `/proc/stat`.
pub fn parse_proc_stat(content: &str) -> (r: Result<ProcStatSample, String>)
    ensures
        match r {
            Ok(s) => proc_stat_of(content@) == Ok::<(u64, u64), Seq<char>>((s.idle, s.total)),
            Err(e) => proc_stat_of(content@) == Err::<(u64, u64), Seq<char>>(e@),
        },
{
    let v = chars_of(content);
    let n = v.len();
    let ranges = line_ranges(&v, 0, n);
    assert(v@.subrange(0, n as int) =~= content@);
    let ghost all = lines(content@);
    assert(range_texts(v@, ranges@).len() == ranges@.len());
    let mut i: usize = 0;
    while i < ranges.len() && !range_starts_with(&v, ranges[i].0, ranges[i].1, "cpu ")
        invariant
            all == range_texts(v@, ranges@),
            all == lines(content@),
            all.len() == ranges@.len(),
            ranges_within(ranges@, 0, n as int),
            n == v@.len(),
            i <= ranges.len(),
            first_where(all, cpu_line(), 0) == first_where(all, cpu_line(), i as int),
        decreases ranges.len() - i,
    {
        assert(ranges@[i as int] == ranges[i as int]);
        i += 1;
    }
    if i == ranges.len() {
        return Err(crate::text::owned("missing aggregate cpu line"));
    }
    let (a, b) = ranges[i];
    assert(ranges@[i as int] == (a, b));
    let ws = word_ranges(&v, a, b);
    let ghost wt = words(all[i as int]);
    assert(all[i as int] == v@.subrange(a as int, b as int));
    assert(range_texts(v@, ws@).len() == ws@.len());
    let mut vals: Vec<u64> = Vec::new();
    let mut k: usize = 0;
    assert(vals@.map_values(|x: u64| x as nat) =~= Seq::<nat>::empty());
    while k < 8
        invariant
            k <= 8,
            wt == range_texts(v@, ws@),
            wt.len() == ws@.len(),
            ranges_within(ws@, a as int, b as int),
            b <= v@.len(),
            stat_fields(wt, k as nat) == Ok::<Seq<nat>, Seq<char>>(
                vals@.map_values(|x: u64| x as nat),
            ),
            vals@.len() == k,
            all == lines(content@),
            i < all.len(),
            first_where(all, cpu_line(), 0) == Some(i as int),
            wt == words(all[i as int]),
        decreases 8 - k,
    {
        let label = stat_label(k);
        if ws.len() <= k + 1 {
            proof {
                lemma_stat_fields_err(wt, (k + 1) as nat, 8);
            }
            return Err(concat2("missing proc stat field: ", label));
        }
        let (x, y) = ws[k + 1];
        assert(ws@[k + 1] == (x, y));
        match parse_unsigned_range(&v, x, y, u64::MAX) {
            Ok(val) => {
                let ghost before = vals@.map_values(|x: u64| x as nat);
                vals.push(val);
                assert(vals@.map_values(|x: u64| x as nat) =~= before.push(val as nat));
            },
            Err(e) => {
                proof {
                    lemma_stat_fields_err(wt, (k + 1) as nat, 8);
                }
                return Err(concat4("invalid proc stat field ", label, ": ", e.message()));
            },
        }
        k += 1;
    }
    let ghost f = vals@.map_values(|x: u64| x as nat);
    assert(f[3] == vals@[3] as nat);
    let idle = vals[3].saturating_add(vals[4]);
    let total = vals[0].saturating_add(vals[1]).saturating_add(vals[2]).saturating_add(
        vals[3],
    ).saturating_add(vals[4]).saturating_add(vals[5]).saturating_add(vals[6]).saturating_add(
        vals[7],
    );
    Ok(ProcStatSample { idle, total })
}

/// The busy and total jiffies between two samples, when time passed.
pub open spec fn cpu_deltas(first: ProcStatSample, second: ProcStatSample) -> Option<(u64, u64)> {
    let total = if second.total >= first.total {
        second.total - first.total
    } else {
        0
    };
    let idle = if second.idle >= first.idle {
        second.idle - first.idle
    } else {
        0
    };
    if total == 0 {
        None
    } else {
        Some(
            (
                (if total >= idle {
                    total - idle
                } else {
                    0
                }) as u64,
                total as u64,
            ),
        )
    }
}

/// The busy and total jiffies between two samples (the CPU usage is busy
/// over total), none when no time passed.
pub fn cpu_busy_and_total(first: ProcStatSample, second: ProcStatSample) -> (r: Option<(u64, u64)>)
    ensures
        r == cpu_deltas(first, second),
{
    let total_delta = second.total.saturating_sub(first.total);
    if total_delta == 0 {
        return None;
    }
    let idle_delta = second.idle.saturating_sub(first.idle);
    Some((total_delta.saturating_sub(idle_delta), total_delta))
}


// ---------------------------------------------------------------------------
// Memory
// ---------------------------------------------------------------------------

/// The predicate "the line starts with `key`".
pub open spec fn starts_with_key(key: Seq<char>) -> spec_fn(Seq<char>) -> bool {
    |line: Seq<char>| has_prefix(line, key)
}

/// The value, in KiB, that `/proc/meminfo` gives for `key`: the second word
/// of the first line that starts with the key.
pub open spec fn meminfo_value(content: Seq<char>, key: Seq<char>) -> Result<nat, Seq<char>> {
    match first_where(lines(content), starts_with_key(key), 0) {
        None => Err(key + " missing from /proc/meminfo"@),
        Some(i) => {
            let ws = words(lines(content)[i]);
            if ws.len() < 2 {
                Err(key + " missing numeric field"@)
            } else {
                match parse_unsigned(ws[1], u64::MAX as nat) {
                    Ok(v) => Ok(v),
                    Err(e) => Err("invalid meminfo value for "@ + key + ": "@ + number_error_text(e)),
                }
            }
        },
    }
}

/// Reads the value of `key` from the contents of `/proc/meminfo`.
pub fn extract_meminfo_value(content: &str, key: &str) -> (r: Result<u64, String>)
    ensures
        match r {
            Ok(x) => meminfo_value(content@, key@) == Ok::<nat, Seq<char>>(x as nat),
            Err(e) => meminfo_value(content@, key@) == Err::<nat, Seq<char>>(e@),
        },
{
    let v = chars_of(content);
    let n = v.len();
    let ranges = line_ranges(&v, 0, n);
    assert(v@.subrange(0, n as int) =~= content@);
    let ghost all = lines(content@);
    assert(range_texts(v@, ranges@).len() == ranges@.len());
    let mut i: usize = 0;
    while i < ranges.len() && !range_starts_with(&v, ranges[i].0, ranges[i].1, key)
        invariant
            all == range_texts(v@, ranges@),
            all == lines(content@),
            all.len() == ranges@.len(),
            ranges_within(ranges@, 0, n as int),
            n == v@.len(),
            i <= ranges.len(),
            first_where(all, starts_with_key(key@), 0) == first_where(
                all,
                starts_with_key(key@),
                i as int,
            ),
        decreases ranges.len() - i,
    {
        assert(ranges@[i as int] == ranges[i as int]);
        i += 1;
    }
    if i == ranges.len() {
        return Err(concat2(key, " missing from /proc/meminfo"));
    }
    let (a, b) = ranges[i];
    assert(ranges@[i as int] == (a, b));
    assert(all[i as int] == v@.subrange(a as int, b as int));
    let ws = word_ranges(&v, a, b);
    assert(range_texts(v@, ws@).len() == ws@.len());
    if ws.len() < 2 {
        return Err(concat2(key, " missing numeric field"));
    }
    let (x, y) = ws[1];
    assert(ws@[1] == (x, y));
    match parse_unsigned_range(&v, x, y, u64::MAX) {
        Ok(val) => Ok(val),
        Err(e) => Err(concat4("invalid meminfo value for ", key, ": ", e.message())),
    }
}

/// Memory sizes in bytes.
#[derive(Debug, Clone, Copy, PartialEq, Eq, Structural)]
pub struct MemoryBytes {
    pub total: u64,
    pub used: u64,
    pub available: u64,
}

/// `kib * 1024`, no larger than `u64::MAX`.
pub open spec fn kib_to_bytes(kib: nat) -> u64 {
    if kib * 1024 > u64::MAX {
        u64::MAX
    } else {
        (kib * 1024) as u64
    }
}

/// A meminfo value, 0 when it cannot be read.
pub open spec fn value_or_zero(r: Result<nat, Seq<char>>) -> nat {
    match r {
        Ok(v) => v,
        Err(_) => 0,
    }
}

/// The warning, with this prefix, for a meminfo value that cannot be read.
pub open spec fn memory_warning(prefix: Seq<char>, r: Result<nat, Seq<char>>) -> Seq<Seq<char>> {
    match r {
        Ok(_) => Seq::empty(),
        Err(e) => seq![prefix + e],
    }
}

fn kib_bytes(kib: u64) -> (r: u64)
    ensures
        r == kib_to_bytes(kib as nat),
{
    if kib > u64::MAX / 1024 {
        u64::MAX
    } else {
        kib * 1024
    }
}

/// Total, used and available memory from the contents of `/proc/meminfo`;
/// an unreadable value counts as 0 and adds a warning.
pub fn memory_from_meminfo(content: &str, warnings: &mut Vec<String>) -> (r: MemoryBytes)
    ensures
        r.total == kib_to_bytes(value_or_zero(meminfo_value(content@, "MemTotal"@))),
        r.available == kib_to_bytes(value_or_zero(meminfo_value(content@, "MemAvailable"@))),
        r.used <= r.total,
        r.used == (if r.total >= r.available {
            r.total - r.available
        } else {
            0
        }),
        texts(final(warnings)@) == texts(old(warnings)@) + memory_warning(
            "memory collector total: "@,
            meminfo_value(content@, "MemTotal"@),
        ) + memory_warning(
            "memory collector available: "@,
            meminfo_value(content@, "MemAvailable"@),
        ),
{
    let ghost w0 = texts(warnings@);
    let total_kib = match extract_meminfo_value(content, "MemTotal") {
        Ok(x) => {
            assert(w0 + Seq::<Seq<char>>::empty() =~= w0);
            x
        },
        Err(e) => {
            let w = concat2("memory collector total: ", e.as_str());
            warnings.push(w);
            assert(texts(warnings@) =~= w0 + seq![w@]);
            0
        },
    };
    let ghost w1 = texts(warnings@);
    let available_kib = match extract_meminfo_value(content, "MemAvailable") {
        Ok(x) => {
            assert(w1 + Seq::<Seq<char>>::empty() =~= w1);
            x
        },
        Err(e) => {
            let w = concat2("memory collector available: ", e.as_str());
            warnings.push(w);
            assert(texts(warnings@) =~= w1 + seq![w@]);
            0
        },
    };
    let total = kib_bytes(total_kib);
    let available = kib_bytes(available_kib);
    MemoryBytes { total, used: total.saturating_sub(available), available }
}

} // verus!
