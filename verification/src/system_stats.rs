//! Parsers for system-wide statistics read from the `/proc` filesystem:
//! the aggregated `cpu` line of `/proc/stat` and the key memory fields of
//! `/proc/meminfo`. The parsers are pure; reading the files is left to the
//! caller.

use vstd::prelude::*;
use vstd::string::StringSliceAdditionalSpecFns;

use crate::text::{
    is_u64_token, lines_of, parse_u64_token, split_lines, split_tokens, tokens_of, u64_token_value,
};

verus! {

/// A unified error type for all potential failures within the collector.
#[derive(Debug)]
pub enum PipaCollectorError {
    /// An I/O or syscall failure; holds the raw OS error code.
    Io(i32),
    /// A value could not be parsed as a number.
    Parse(String),
    /// A format mismatch in parsed file content.
    InvalidFormat(String),
    /// Expected data was missing.
    MissingData(String),
}

/// Aggregated CPU time statistics from `/proc/stat`, in jiffies.
#[derive(Debug, Default, PartialEq, Eq, Clone, Copy, Structural)]
pub struct CpuStats {
    /// Time spent in user mode.
    pub user: u64,
    /// Time spent in user mode with low priority (nice).
    pub nice: u64,
    /// Time spent in system mode.
    pub system: u64,
    /// Time spent in the idle task.
    pub idle: u64,
    /// Time waiting for I/O to complete.
    pub iowait: u64,
    /// Time servicing interrupts.
    pub irq: u64,
    /// Time servicing softirqs.
    pub softirq: u64,
    /// Time stolen by the hypervisor in a virtualized environment.
    pub steal: u64,
    /// Time spent running a virtual CPU for guest operating systems.
    pub guest: u64,
    /// Time spent running a niced guest.
    pub guest_nice: u64,
}

/// Whether the line starts with `cpu` followed by a space (bytes
/// `c`, `p`, `u`, ` `).
pub open spec fn has_cpu_prefix(bs: Seq<u8>) -> bool {
    bs.len() >= 4 && bs[0] == 99 && bs[1] == 112 && bs[2] == 117 && bs[3] == 32
}

/// The whitespace-separated fields after the `cpu ` prefix.
pub open spec fn cpu_fields(bs: Seq<u8>) -> Seq<Seq<u8>> {
    tokens_of(bs.skip(4))
}

/// The first ten fields are present and are decimal `u64` values.
pub open spec fn valid_cpu_fields(ts: Seq<Seq<u8>>) -> bool {
    ts.len() >= 10 && forall|i: int| 0 <= i < 10 ==> is_u64_token(ts[i])
}

/// Fewer than ten fields, all of those present being valid numbers.
pub open spec fn cpu_fields_missing(ts: Seq<Seq<u8>>) -> bool {
    ts.len() < 10 && forall|i: int| 0 <= i < ts.len() ==> is_u64_token(ts[i])
}

/// Some field among the first ten is present but not a valid number.
pub open spec fn cpu_fields_malformed(ts: Seq<Seq<u8>>) -> bool {
    exists|i: int| 0 <= i < ts.len() && i < 10 && !is_u64_token(ts[i])
}

/// The statistics described by ten valid fields, in the order of
/// `/proc/stat`.
pub open spec fn cpu_stats_of(ts: Seq<Seq<u8>>) -> CpuStats {
    CpuStats {
        user: u64_token_value(ts[0]),
        nice: u64_token_value(ts[1]),
        system: u64_token_value(ts[2]),
        idle: u64_token_value(ts[3]),
        iowait: u64_token_value(ts[4]),
        irq: u64_token_value(ts[5]),
        softirq: u64_token_value(ts[6]),
        steal: u64_token_value(ts[7]),
        guest: u64_token_value(ts[8]),
        guest_nice: u64_token_value(ts[9]),
    }
}

/// The missing-value message for the cpu field at a given position, each
/// naming its field in the order of `/proc/stat`.
pub open spec fn cpu_missing_message(i: int) -> Seq<char> {
    if i == 0 {
        "Missing value for user"@
    } else if i == 1 {
        "Missing value for nice"@
    } else if i == 2 {
        "Missing value for system"@
    } else if i == 3 {
        "Missing value for idle"@
    } else if i == 4 {
        "Missing value for iowait"@
    } else if i == 5 {
        "Missing value for irq"@
    } else if i == 6 {
        "Missing value for softirq"@
    } else if i == 7 {
        "Missing value for steal"@
    } else if i == 8 {
        "Missing value for guest"@
    } else {
        "Missing value for guest_nice"@
    }
}

/// The outcome of parsing one aggregated `cpu` line, over its bytes: the
/// result that comes back for every input, including which error variant
/// with which message. A missing field names itself: the first absent
/// position is the number of fields present.
pub open spec fn cpu_line_outcome(bs: Seq<u8>, r: Result<CpuStats, PipaCollectorError>) -> bool {
    match r {
        Ok(st) => has_cpu_prefix(bs) && valid_cpu_fields(cpu_fields(bs)) && st == cpu_stats_of(
            cpu_fields(bs),
        ),
        Err(PipaCollectorError::InvalidFormat(m)) => !has_cpu_prefix(bs) && m@
            == "Line does not start with 'cpu ' or 'cpu  '"@,
        Err(PipaCollectorError::MissingData(m)) => has_cpu_prefix(bs) && cpu_fields_missing(
            cpu_fields(bs),
        ) && m@ == cpu_missing_message(cpu_fields(bs).len() as int),
        Err(PipaCollectorError::Parse(m)) => has_cpu_prefix(bs) && cpu_fields_malformed(
            cpu_fields(bs),
        ) && m@ == "Invalid numeric value in cpu line"@,
        Err(_) => false,
    }
}

/// Parses a single line of `/proc/stat` (the aggregated `cpu` line) into a
/// `CpuStats`. The line must start with `cpu` and a space; the first ten
/// whitespace-separated fields after it are the jiffy counters in order.
pub fn parse_cpu_stats_from_line(line: &str) -> (r: Result<CpuStats, PipaCollectorError>)
    ensures
        cpu_line_outcome(line.spec_bytes(), r),
{
    parse_cpu_line(line.as_bytes())
}

/// Parses the whole content of `/proc/stat`: its first line must be the
/// aggregated `cpu` line. Content without a single line is rejected.
pub fn parse_cpu_stats_from_content(content: &str) -> (r: Result<CpuStats, PipaCollectorError>)
    ensures
        ({
            let ls = lines_of(content.spec_bytes());
            if ls.len() == 0 {
                r matches Err(PipaCollectorError::InvalidFormat(m)) && m@
                    == "Cannot read first line from /proc/stat"@
            } else {
                cpu_line_outcome(ls[0], r)
            }
        }),
{
    let lines = split_lines(content.as_bytes());
    if lines.len() == 0 {
        return Err(
            PipaCollectorError::InvalidFormat("Cannot read first line from /proc/stat".to_owned()),
        );
    }
    let first = &lines[0];
    parse_cpu_line(first.as_slice())
}

/// Parses one aggregated `cpu` line given as bytes.
fn parse_cpu_line(bs: &[u8]) -> (r: Result<CpuStats, PipaCollectorError>)
    ensures
        cpu_line_outcome(bs@, r),
{
    if !(bs.len() >= 4 && bs[0] == 99 && bs[1] == 112 && bs[2] == 117 && bs[3] == 32) {
        return Err(
            PipaCollectorError::InvalidFormat(
                "Line does not start with 'cpu ' or 'cpu  '".to_owned(),
            ),
        );
    }
    let ts = split_tokens(bs, 4);
    let ghost fields = cpu_fields(bs@);
    let mut vals: Vec<u64> = Vec::new();
    let mut k: usize = 0;
    while k < 10
        invariant
            k == vals@.len() <= 10,
            has_cpu_prefix(bs@),
            fields == cpu_fields(bs@),
            ts@.len() == fields.len(),
            forall|j: int| 0 <= j < ts@.len() ==> ts@[j]@ == fields[j],
            k > 0 ==> fields.len() >= k,
            forall|j: int| 0 <= j < k ==> is_u64_token(#[trigger] fields[j]),
            forall|j: int| 0 <= j < k ==> #[trigger] vals@[j] == u64_token_value(fields[j]),
        decreases 10 - k,
    {
        if k >= ts.len() {
            assert(cpu_fields_missing(fields) && fields.len() == k);
            let msg: &str = if k == 0 {
                "Missing value for user"
            } else if k == 1 {
                "Missing value for nice"
            } else if k == 2 {
                "Missing value for system"
            } else if k == 3 {
                "Missing value for idle"
            } else if k == 4 {
                "Missing value for iowait"
            } else if k == 5 {
                "Missing value for irq"
            } else if k == 6 {
                "Missing value for softirq"
            } else if k == 7 {
                "Missing value for steal"
            } else if k == 8 {
                "Missing value for guest"
            } else {
                "Missing value for guest_nice"
            };
            return Err(PipaCollectorError::MissingData(msg.to_owned()));
        }
        match parse_u64_token(ts[k].as_slice()) {
            Some(v) => {
                vals.push(v);
            },
            None => {
                assert(0 <= k < fields.len() && k < 10 && !is_u64_token(fields[k as int]));
                return Err(
                    PipaCollectorError::Parse("Invalid numeric value in cpu line".to_owned()),
                );
            },
        }
        k = k + 1;
    }
    Ok(
        CpuStats {
            user: vals[0],
            nice: vals[1],
            system: vals[2],
            idle: vals[3],
            iowait: vals[4],
            irq: vals[5],
            softirq: vals[6],
            steal: vals[7],
            guest: vals[8],
            guest_nice: vals[9],
        },
    )
}

/// Key memory statistics from `/proc/meminfo`, in kilobytes.
#[derive(Debug, Default, PartialEq, Eq, Clone, Copy, Structural)]
pub struct MemoryStats {
    /// Total usable RAM.
    pub total: u64,
    /// RAM left unused by the system.
    pub free: u64,
    /// An estimate of the memory available for starting new applications.
    pub available: u64,
    /// Memory used by block device buffers.
    pub buffers: u64,
    /// Memory used by the page cache.
    pub cached: u64,
}

/// The `MemTotal:` key.
pub open spec fn key_mem_total() -> Seq<u8> {
    seq![77u8, 101u8, 109u8, 84u8, 111u8, 116u8, 97u8, 108u8, 58u8]
}

/// The `MemFree:` key.
pub open spec fn key_mem_free() -> Seq<u8> {
    seq![77u8, 101u8, 109u8, 70u8, 114u8, 101u8, 101u8, 58u8]
}

/// The `MemAvailable:` key.
pub open spec fn key_mem_available() -> Seq<u8> {
    seq![77u8, 101u8, 109u8, 65u8, 118u8, 97u8, 105u8, 108u8, 97u8, 98u8, 108u8, 101u8, 58u8]
}

/// The `Buffers:` key.
pub open spec fn key_buffers() -> Seq<u8> {
    seq![66u8, 117u8, 102u8, 102u8, 101u8, 114u8, 115u8, 58u8]
}

/// The `Cached:` key.
pub open spec fn key_cached() -> Seq<u8> {
    seq![67u8, 97u8, 99u8, 104u8, 101u8, 100u8, 58u8]
}

/// How many key memory fields the parser looks for.
pub open spec fn mem_field_count() -> nat {
    5
}

/// The effect of one `/proc/meminfo` line on the scan state: once all five
/// fields were seen nothing changes; otherwise a line whose first field is
/// one of the known keys and whose second field is a decimal number stores
/// that number and counts the find, and every other line is skipped.
pub open spec fn mem_step(line: Seq<u8>, st: MemoryStats, cnt: nat) -> (MemoryStats, nat) {
    if cnt >= mem_field_count() {
        (st, cnt)
    } else {
        let ts = tokens_of(line);
        if ts.len() < 2 || !is_u64_token(ts[1]) {
            (st, cnt)
        } else {
            let v = u64_token_value(ts[1]);
            if ts[0] == key_mem_total() {
                (MemoryStats { total: v, ..st }, cnt + 1)
            } else if ts[0] == key_mem_free() {
                (MemoryStats { free: v, ..st }, cnt + 1)
            } else if ts[0] == key_mem_available() {
                (MemoryStats { available: v, ..st }, cnt + 1)
            } else if ts[0] == key_buffers() {
                (MemoryStats { buffers: v, ..st }, cnt + 1)
            } else if ts[0] == key_cached() {
                (MemoryStats { cached: v, ..st }, cnt + 1)
            } else {
                (st, cnt)
            }
        }
    }
}

/// The scan state after reading the given lines in order, starting from
/// all-zero statistics and no fields found.
pub open spec fn mem_scan(lines: Seq<Seq<u8>>) -> (MemoryStats, nat)
    decreases lines.len(),
{
    if lines.len() == 0 {
        (MemoryStats { total: 0, free: 0, available: 0, buffers: 0, cached: 0 }, 0)
    } else {
        let (st, cnt) = mem_scan(lines.drop_last());
        mem_step(lines.last(), st, cnt)
    }
}

/// Compares a token with an expected byte sequence.
fn token_eq(t: &Vec<u8>, pat: &[u8]) -> (r: bool)
    ensures
        r == (t@ == pat@),
{
    if t.len() != pat.len() {
        return false;
    }
    let mut i: usize = 0;
    while i < t.len()
        invariant
            0 <= i <= t@.len(),
            t@.len() == t.len() == pat@.len(),
            forall|j: int| 0 <= j < i ==> t@[j] == pat@[j],
        decreases t@.len() - i,
    {
        if t[i] != pat[i] {
            return false;
        }
        i = i + 1;
    }
    proof {
        assert(t@ =~= pat@);
    }
    true
}

/// Applies `mem_step` to one line.
fn mem_step_line(line: &Vec<u8>, st: MemoryStats, cnt: usize) -> (r: (MemoryStats, usize))
    requires
        cnt <= mem_field_count(),
    ensures
        (r.0, r.1 as nat) == mem_step(line@, st, cnt as nat),
        r.1 <= mem_field_count(),
{
    if cnt >= 5 {
        return (st, cnt);
    }
    let ts = split_tokens(line.as_slice(), 0);
    proof {
        assert(line@.skip(0) =~= line@);
    }
    if ts.len() < 2 {
        return (st, cnt);
    }
    let v = match parse_u64_token(ts[1].as_slice()) {
        Some(v) => v,
        None => {
            return (st, cnt);
        },
    };
    let key = &ts[0];
    if token_eq(key, &[77, 101, 109, 84, 111, 116, 97, 108, 58]) {
        (MemoryStats { total: v, ..st }, cnt + 1)
    } else if token_eq(key, &[77, 101, 109, 70, 114, 101, 101, 58]) {
        (MemoryStats { free: v, ..st }, cnt + 1)
    } else if token_eq(key, &[77, 101, 109, 65, 118, 97, 105, 108, 97, 98, 108, 101, 58]) {
        (MemoryStats { available: v, ..st }, cnt + 1)
    } else if token_eq(key, &[66, 117, 102, 102, 101, 114, 115, 58]) {
        (MemoryStats { buffers: v, ..st }, cnt + 1)
    } else if token_eq(key, &[67, 97, 99, 104, 101, 100, 58]) {
        (MemoryStats { cached: v, ..st }, cnt + 1)
    } else {
        (st, cnt)
    }
}

/// Parses the content of `/proc/meminfo`: scans the lines for the five key
/// memory fields and succeeds exactly when all five were found.
pub fn parse_memory_stats_from_content(content: &str) -> (r: Result<
    MemoryStats,
    PipaCollectorError,
>)
    ensures
        ({
            let scan = mem_scan(lines_of(content.spec_bytes()));
            match r {
                Ok(st) => scan.1 >= mem_field_count() && st == scan.0,
                Err(PipaCollectorError::MissingData(m)) => scan.1 < mem_field_count() && m@
                    == "Could not find all required memory fields in /proc/meminfo"@,
                Err(_) => false,
            }
        }),
{
    let bs = content.as_bytes();
    let lines = split_lines(bs);
    let ghost ls = lines_of(content.spec_bytes());
    let mut st = MemoryStats { total: 0, free: 0, available: 0, buffers: 0, cached: 0 };
    let mut cnt: usize = 0;
    let mut i: usize = 0;
    while i < lines.len()
        invariant
            0 <= i <= lines@.len(),
            ls == lines_of(content.spec_bytes()),
            lines@.len() == ls.len(),
            forall|j: int| 0 <= j < lines@.len() ==> lines@[j]@ == ls[j],
            (st, cnt as nat) == mem_scan(ls.take(i as int)),
            cnt <= mem_field_count(),
        decreases lines@.len() - i,
    {
        proof {
            assert(ls.take(i as int + 1).drop_last() =~= ls.take(i as int));
            assert(ls.take(i as int + 1).last() == ls[i as int]);
        }
        let next = mem_step_line(&lines[i], st, cnt);
        st = next.0;
        cnt = next.1;
        i = i + 1;
    }
    proof {
        assert(ls.take(ls.len() as int) =~= ls);
    }
    if cnt >= 5 {
        Ok(st)
    } else {
        Err(
            PipaCollectorError::MissingData(
                "Could not find all required memory fields in /proc/meminfo".to_owned(),
            ),
        )
    }
}

/// The jiffies a sample spent idle: the idle task plus I/O wait.
pub open spec fn idle_time(c: CpuStats) -> int {
    c.idle + c.iowait
}

/// The jiffies a sample spent busy: user, nice, system, interrupt, softirq
/// and stolen time.
pub open spec fn busy_time(c: CpuStats) -> int {
    c.user + c.nice + c.system + c.irq + c.softirq + c.steal
}

/// The idle and total jiffy deltas between two CPU samples, the integer
/// core of a CPU-usage percentage: usage is `1 - idle_delta / total_delta`.
/// The counters are monotonically non-decreasing, so the earlier sample
/// must not exceed the later one.
pub fn cpu_usage_deltas(prev: &CpuStats, current: &CpuStats) -> (r: (u64, u64))
    requires
        idle_time(*prev) <= idle_time(*current),
        busy_time(*prev) <= busy_time(*current),
        idle_time(*current) + busy_time(*current) <= u64::MAX,
    ensures
        r.0 == idle_time(*current) - idle_time(*prev),
        r.1 == (idle_time(*current) + busy_time(*current)) - (idle_time(*prev) + busy_time(*prev)),
        r.0 <= r.1,
{
    let prev_idle = prev.idle + prev.iowait;
    let current_idle = current.idle + current.iowait;
    let prev_busy = prev.user + prev.nice + prev.system + prev.irq + prev.softirq + prev.steal;
    let current_busy = current.user + current.nice + current.system + current.irq + current.softirq
        + current.steal;
    let idle_delta = current_idle - prev_idle;
    let total_delta = (current_idle + current_busy) - (prev_idle + prev_busy);
    (idle_delta, total_delta)
}

} // verus!
