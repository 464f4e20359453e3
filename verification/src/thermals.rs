//! Thermal zones from `/sys/class/thermal`: which entries count and what
//! they read. The caller turns millidegrees into degrees.

use vstd::prelude::*;

use crate::sort::{sorted_by_key, stable_permutation, stable_sort, KeyOrder};
use crate::text::{
    chars_le, chars_of, has_prefix, lemma_lex_total, lemma_lex_trans, lex_le, owned,
    parse_i64, parse_i64_range, str_starts_with, str_trim, trim, trim_bounds,
};

verus! {

/// The reading of one thermal zone.
#[derive(Debug, Clone)]
pub struct ZoneReading {
    pub label: String,
    pub millidegrees: i64,
}

/// The temperature, in millidegrees Celsius, that a zone's `temp` file
/// gives, when it lies in the plausible range of 0 to 150 degrees.
pub open spec fn zone_temperature(temp: Seq<char>) -> Option<int> {
    match parse_i64(trim(temp)) {
        Some(m) => if 0 <= m <= 150_000 {
            Some(m)
        } else {
            None
        },
        None => None,
    }
}

/// `r` is what a directory entry of `/sys/class/thermal` reads: a
/// `thermal_zone*` entry with a readable, plausible temperature, labelled by
/// its trimmed `type` file, or by its name when that cannot be read.
pub open spec fn zone_read(
    name: Seq<char>,
    type_file: Option<Seq<char>>,
    temp_file: Option<Seq<char>>,
    r: Option<ZoneReading>,
) -> bool {
    if !has_prefix(name, "thermal_zone"@) {
        r is None
    } else {
        match temp_file {
            None => r is None,
            Some(temp) => match zone_temperature(temp) {
                None => r is None,
                Some(m) => r matches Some(z) && z.millidegrees == m && z.label@ == match type_file {
                    Some(t) => trim(t),
                    None => name,
                },
            },
        }
    }
}

/// Reads one directory entry of `/sys/class/thermal`, given its name and the
/// contents of its `type` and `temp` files (absent when unreadable).
pub fn read_zone(name: &str, type_file: Option<&str>, temp_file: Option<&str>) -> (r: Option<
    ZoneReading,
>)
    ensures
        zone_read(
            name@,
            match type_file {
                Some(t) => Some(t@),
                None => None,
            },
            match temp_file {
                Some(t) => Some(t@),
                None => None,
            },
            r,
        ),
{
    if !str_starts_with(name, "thermal_zone") {
        return None;
    }
    let label = match type_file {
        Some(t) => str_trim(t),
        None => owned(name),
    };
    let temp = match temp_file {
        Some(t) => t,
        None => {
            return None;
        },
    };
    let v = chars_of(temp);
    let n = v.len();
    let (a, b) = trim_bounds(&v, 0, n);
    assert(v@.subrange(0, n as int) =~= temp@);
    let m = match parse_i64_range(&v, a, b) {
        Some(m) => m,
        None => {
            return None;
        },
    };
    if m < 0 || m > 150_000 {
        return None;
    }
    Some(ZoneReading { label, millidegrees: m })
}

impl KeyOrder for ZoneReading {
    /// By label.
    open spec fn key_le(self, other: Self) -> bool {
        lex_le(self.label@, other.label@)
    }

    fn le(&self, other: &Self) -> (r: bool) {
        let a = chars_of(self.label.as_str());
        let b = chars_of(other.label.as_str());
        chars_le(&a, &b)
    }

    proof fn lemma_key_total(a: Self, b: Self) {
        lemma_lex_total(a.label@, b.label@, 0);
    }

    proof fn lemma_key_trans(a: Self, b: Self, c: Self) {
        lemma_lex_trans(a.label@, b.label@, c.label@, 0);
    }
}

/// Orders zone readings by label; readings with the same label keep their order.
pub fn sort_zone_readings(readings: Vec<ZoneReading>) -> (r: Vec<ZoneReading>)
    ensures
        sorted_by_key(r@),
        stable_permutation(r@, readings@),
{
    stable_sort(readings)
}

} // verus!
