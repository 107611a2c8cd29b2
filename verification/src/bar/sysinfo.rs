//! System readings for the bar: the clock text, processor time counters,
//! memory totals, and battery presence and charging state.

use vstd::prelude::*;

use crate::text::{
    decimal,
    has_prefix,
    i64_to_string,
    parse_u64,
    parse_u64_spec,
    range_equals,
    signed_decimal,
    split_whitespace,
    split_ws,
    str_chars,
    trim,
    trim_bounds,
};

verus! {

/// `n` formatted with at least two digits, as `format!("{:02}", n)` gives it.
pub open spec fn pad2(n: int) -> Seq<char> {
    if 0 <= n < 10 {
        seq!['0'] + decimal(n as nat)
    } else {
        signed_decimal(n)
    }
}

/// The clock text `HH:MM:SS`.
pub open spec fn clock_text(hour: int, min: int, sec: int) -> Seq<char> {
    pad2(hour) + seq![':'] + pad2(min) + seq![':'] + pad2(sec)
}

fn push_pad2(s: &mut String, n: i32)
    ensures
        final(s)@ == old(s)@ + pad2(n as int),
{
    if 0 <= n && n < 10 {
        s.push('0');
    }
    let d = i64_to_string(n as i64);
    s.append(d.as_str());
    assert(final(s)@ =~= old(s)@ + pad2(n as int));
}

/// The clock text for a local time of day, as the bar shows it.
pub fn format_clock(hour: i32, min: i32, sec: i32) -> (s: String)
    ensures
        s@ == clock_text(hour as int, min as int, sec as int),
{
    let mut s = String::new();
    push_pad2(&mut s, hour);
    s.push(':');
    push_pad2(&mut s, min);
    s.push(':');
    push_pad2(&mut s, sec);
    assert(s@ =~= clock_text(hour as int, min as int, sec as int));
    s
}

/// The processor time counters of the first line of `/proc/stat`.
#[derive(Debug, Clone, Copy, PartialEq, Eq, Structural)]
pub struct CpuTimes {
    pub user: u64,
    pub nice: u64,
    pub system: u64,
    pub idle: u64,
}

/// A word parsed as a counter; a word that is not a number counts as zero.
pub open spec fn counter_value(w: Seq<char>) -> u64 {
    match parse_u64_spec(w) {
        Some(v) => v,
        None => 0,
    }
}

/// The counters of a `/proc/stat` line: words one to four, when the line
/// has at least five words.
pub open spec fn cpu_times_of(line: Seq<char>) -> Option<CpuTimes> {
    let w = split_ws(line);
    if w.len() >= 5 {
        Some(
            CpuTimes {
                user: counter_value(w[1]),
                nice: counter_value(w[2]),
                system: counter_value(w[3]),
                idle: counter_value(w[4]),
            },
        )
    } else {
        None
    }
}

fn counter(w: &Vec<char>) -> (v: u64)
    ensures
        v == counter_value(w@),
{
    assert(w@.subrange(0, w@.len() as int) =~= w@);
    match parse_u64(w, 0, w.len()) {
        Some(v) => v,
        None => 0,
    }
}

/// Reads the counters from the first line of `/proc/stat`.
pub fn parse_cpu_times(line: &str) -> (r: Option<CpuTimes>)
    ensures
        r == cpu_times_of(line@),
{
    let v = str_chars(line);
    let words = split_whitespace(&v, 0, v.len());
    assert(v@.subrange(0, v@.len() as int) =~= line@);
    if words.len() >= 5 {
        Some(
            CpuTimes {
                user: counter(&words[1]),
                nice: counter(&words[2]),
                system: counter(&words[3]),
                idle: counter(&words[4]),
            },
        )
    } else {
        None
    }
}

/// Idle and total processor time since the previous sample.
#[derive(Debug, Clone, Copy, PartialEq, Eq, Structural)]
pub struct CpuDelta {
    pub idle_delta: u64,
    pub total_delta: u64,
}

/// The counters of the previous sample, zero before the first.
#[derive(Debug, Clone, Copy, PartialEq, Eq, Structural)]
pub struct CpuCounters {
    pub prev_idle: u64,
    pub prev_total: u64,
}

/// `a - b`, or zero when `b` exceeds `a`.
pub open spec fn sat_sub(a: u64, b: u64) -> u64 {
    if a >= b {
        (a - b) as u64
    } else {
        0
    }
}

impl CpuCounters {
    /// Counters before any sample.
    pub fn new() -> (c: Self)
        ensures
            c == (CpuCounters { prev_idle: 0, prev_total: 0 }),
    {
        CpuCounters { prev_idle: 0, prev_total: 0 }
    }

    /// Takes a sample and returns the time passed since the previous one; the
    /// processor was busy for `total_delta - idle_delta` of `total_delta`.
    pub fn advance(&mut self, t: CpuTimes) -> (d: CpuDelta)
        requires
            t.user + t.nice + t.system + t.idle <= u64::MAX,
        ensures
            ({
                let total = (t.user + t.nice + t.system + t.idle) as u64;
                &&& d.idle_delta == sat_sub(t.idle, old(self).prev_idle)
                &&& d.total_delta == sat_sub(total, old(self).prev_total)
                &&& *final(self) == (CpuCounters { prev_idle: t.idle, prev_total: total })
            }),
    {
        let total = t.user + t.nice + t.system + t.idle;
        let d = CpuDelta {
            idle_delta: t.idle.saturating_sub(self.prev_idle),
            total_delta: total.saturating_sub(self.prev_total),
        };
        self.prev_idle = t.idle;
        self.prev_total = total;
        d
    }
}

/// The number in the second word of a `/proc/meminfo` line, zero when
/// there is none.
pub open spec fn meminfo_field(line: Seq<char>) -> u64 {
    let w = split_ws(line);
    if w.len() > 1 {
        counter_value(w[1])
    } else {
        0
    }
}

/// Total and available memory in kilobytes after reading `lines` of
/// `/proc/meminfo`; the last `MemTotal:` and `MemAvailable:` lines count.
pub open spec fn meminfo_totals(lines: Seq<Seq<char>>) -> (u64, u64)
    decreases lines.len(),
{
    if lines.len() == 0 {
        (0, 0)
    } else {
        let prev = meminfo_totals(lines.drop_last());
        let l = lines.last();
        if "MemTotal:"@.is_prefix_of(l) {
            (meminfo_field(l), prev.1)
        } else if "MemAvailable:"@.is_prefix_of(l) {
            (prev.0, meminfo_field(l))
        } else {
            prev
        }
    }
}

fn field_of(v: &Vec<char>) -> (x: u64)
    ensures
        x == meminfo_field(v@),
{
    let words = split_whitespace(v, 0, v.len());
    assert(v@.subrange(0, v@.len() as int) =~= v@);
    if words.len() > 1 {
        counter(&words[1])
    } else {
        0
    }
}

/// Reads total and available memory (kilobytes) from the lines of `/proc/meminfo`.
pub fn parse_meminfo(lines: &Vec<String>) -> (r: (u64, u64))
    ensures
        r == meminfo_totals(lines@.map_values(|l: String| l@)),
{
    let ghost ls = lines@.map_values(|l: String| l@);
    let total_key = str_chars("MemTotal:");
    let avail_key = str_chars("MemAvailable:");
    let mut total: u64 = 0;
    let mut avail: u64 = 0;
    for i in 0..lines.len()
        invariant
            ls == lines@.map_values(|l: String| l@),
            total_key@ == "MemTotal:"@,
            avail_key@ == "MemAvailable:"@,
            (total, avail) == meminfo_totals(ls.take(i as int)),
    {
        let v = str_chars(lines[i].as_str());
        assert(ls.take(i + 1).drop_last() =~= ls.take(i as int));
        assert(ls.take(i + 1).last() == v@);
        assert(v@.subrange(0, v@.len() as int) =~= v@);
        if has_prefix(&v, 0, v.len(), &total_key) {
            total = field_of(&v);
        } else if has_prefix(&v, 0, v.len(), &avail_key) {
            avail = field_of(&v);
        }
    }
    assert(ls.take(lines@.len() as int) =~= ls);
    (total, avail)
}

/// Whether the battery status text says it is charging.
pub fn is_charging(status: &str) -> (b: bool)
    ensures
        b == (trim(status@) == "Charging"@),
{
    let v = str_chars(status);
    let (a, e) = trim_bounds(&v, 0, v.len());
    assert(v@.subrange(0, v@.len() as int) =~= status@);
    let key = str_chars("Charging");
    range_equals(&v, a, e, &key)
}

/// The first power supply whose name starts with `BAT`, among the entries
/// of the power supply class directory.
pub fn battery_entry(names: &Vec<String>) -> (r: Option<usize>)
    ensures
        match r {
            Some(i) => i < names@.len() && "BAT"@.is_prefix_of(names@[i as int]@) && forall|
                j: int,
            |
                0 <= j < i ==> !"BAT"@.is_prefix_of(#[trigger] names@[j]@),
            None => forall|j: int|
                0 <= j < names@.len() ==> !"BAT"@.is_prefix_of(#[trigger] names@[j]@),
        },
{
    let key = str_chars("BAT");
    for i in 0..names.len()
        invariant
            key@ == "BAT"@,
            forall|j: int| 0 <= j < i ==> !"BAT"@.is_prefix_of(#[trigger] names@[j]@),
    {
        let v = str_chars(names[i].as_str());
        assert(v@.subrange(0, v@.len() as int) =~= v@);
        if has_prefix(&v, 0, v.len(), &key) {
            return Some(i);
        }
    }
    None
}

} // verus!
