//! The arithmetic and naming rules of the benchmark recorder: counter deltas
//! between samples, process names, report file names and argument checks.
use vstd::prelude::*;

use crate::text::{
    chars_of, decimal, decimal_chars, ends_with, has_suffix, lower_chars, lower_seq, one, owned,
    push_chars, push_str, slice, str_eq, string_of, trim, trim_chars,
};

verus! {

/// A process, told apart from a later one that reuses its id.
#[derive(Clone, Copy, Debug, PartialEq, Eq, Structural)]
pub struct ProcessKey {
    pub pid: u32,
    pub start_time: u64,
}

/// The cumulative counters of one process.
#[derive(Clone, Copy, Debug, PartialEq, Eq, Structural)]
pub struct Counters {
    pub cpu_ms: u64,
    pub read_bytes: u64,
    pub write_bytes: u64,
}

/// `a + b`, or the largest `u64` when that overflows.
pub open spec fn sat_add(a: u64, b: u64) -> u64 {
    if a + b > u64::MAX {
        u64::MAX
    } else {
        (a + b) as u64
    }
}

/// `a - b`, or zero when that would be negative.
pub open spec fn sat_sub(a: u64, b: u64) -> u64 {
    if a >= b {
        (a - b) as u64
    } else {
        0
    }
}

/// The counters recorded for `key` in a sample, the first entry that has it.
pub open spec fn counters_of(sample: Seq<(ProcessKey, Counters)>, key: ProcessKey) -> Option<Counters>
    decreases sample.len(),
{
    if sample.len() == 0 {
        None
    } else if sample[0].0 == key {
        Some(sample[0].1)
    } else {
        counters_of(sample.drop_first(), key)
    }
}

/// The growth of CPU time, bytes read and bytes written from `previous` to
/// `current`, summed over the processes present in both samples. A process
/// that started in between counts nothing; a counter that went down counts
/// zero; the sums stop at the largest `u64`.
pub open spec fn deltas(previous: Seq<(ProcessKey, Counters)>, current: Seq<(ProcessKey, Counters)>) -> (
    u64,
    u64,
    u64,
)
    decreases current.len(),
{
    if current.len() == 0 {
        (0, 0, 0)
    } else {
        let t = deltas(previous, current.drop_last());
        let (key, now) = current.last();
        match counters_of(previous, key) {
            None => t,
            Some(before) => (
                sat_add(t.0, sat_sub(now.cpu_ms, before.cpu_ms)),
                sat_add(t.1, sat_sub(now.read_bytes, before.read_bytes)),
                sat_add(t.2, sat_sub(now.write_bytes, before.write_bytes)),
            ),
        }
    }
}

fn lookup(sample: &Vec<(ProcessKey, Counters)>, key: ProcessKey) -> (r: Option<Counters>)
    ensures
        r == counters_of(sample@, key),
{
    let mut i: usize = 0;
    assert(sample@.skip(0) =~= sample@);
    while i < sample.len()
        invariant
            i <= sample.len(),
            counters_of(sample@, key) == counters_of(sample@.skip(i as int), key),
        decreases sample.len() - i,
    {
        assert(sample@.skip(i as int)[0] == sample@[i as int]);
        if sample[i].0 == key {
            return Some(sample[i].1);
        }
        assert(sample@.skip(i as int).drop_first() =~= sample@.skip(i as int + 1));
        i += 1;
    }
    None
}

/// Sums the counter growth of the processes present in both samples.
pub fn counter_deltas(previous: &Vec<(ProcessKey, Counters)>, current: &Vec<(ProcessKey, Counters)>) -> (r: (
    u64,
    u64,
    u64,
))
    ensures
        r == deltas(previous@, current@),
{
    let mut totals: (u64, u64, u64) = (0, 0, 0);
    let mut i: usize = 0;
    while i < current.len()
        invariant
            i <= current.len(),
            totals == deltas(previous@, current@.take(i as int)),
        decreases current.len() - i,
    {
        let (key, now) = current[i];
        proof {
            assert(current@.take(i as int + 1).drop_last() =~= current@.take(i as int));
        }
        match lookup(previous, key) {
            Some(before) => {
                totals = (
                    totals.0.saturating_add(now.cpu_ms.saturating_sub(before.cpu_ms)),
                    totals.1.saturating_add(now.read_bytes.saturating_sub(before.read_bytes)),
                    totals.2.saturating_add(now.write_bytes.saturating_sub(before.write_bytes)),
                );
            },
            None => {},
        }
        i += 1;
    }
    assert(current@.take(i as int) =~= current@);
    totals
}

/// A process name in the form it is matched by: trimmed, in ASCII lower case,
/// without a `.exe` ending.
pub open spec fn normalized_name(name: Seq<char>) -> Seq<char> {
    let l = lower_seq(trim(name));
    if has_suffix(l, ".exe"@) {
        l.take(l.len() - 4)
    } else {
        l
    }
}

/// Normalizes a process name for matching.
pub fn normalize_process_name(name: &str) -> (r: String)
    ensures
        r@ == normalized_name(name@),
{
    let lowered = lower_chars(&trim_chars(&chars_of(name)));
    let suffix = chars_of(".exe");
    proof {
        reveal_strlit(".exe");
    }
    if ends_with(&lowered, &suffix) {
        string_of(&slice(&lowered, 0, lowered.len() - 4))
    } else {
        string_of(&lowered)
    }
}

/// A duration in whole milliseconds, or the largest `u64` when it does not fit.
pub fn duration_ms(millis: u128) -> (r: u64)
    ensures
        r == (if millis <= u64::MAX {
            millis as u64
        } else {
            u64::MAX
        }),
{
    if millis <= 18446744073709551615u128 {
        millis as u64
    } else {
        18446744073709551615u64
    }
}

/// Seconds between scans for new processes unless the user says otherwise.
pub fn default_rediscovery_seconds() -> (r: u64)
    ensures
        r == 5,
{
    5
}

/// `s` if the count is not one: the ending of a plural noun.
pub fn plural_suffix(count: usize) -> (r: &'static str)
    ensures
        r@ == (if count == 1 {
            ""@
        } else {
            "s"@
        }),
{
    if count == 1 {
        ""
    } else {
        "s"
    }
}

/// The character a label keeps in a file name: ASCII letters, digits, `-` and
/// `_` stay, anything else becomes `-`.
pub open spec fn safe_char(c: char) -> char {
    if ('a' <= c && c <= 'z') || ('A' <= c && c <= 'Z') || ('0' <= c && c <= '9') || c == '-' || c
        == '_' {
        c
    } else {
        '-'
    }
}

/// `s` without leading and trailing `-`.
pub open spec fn trim_dashes(s: Seq<char>) -> Seq<char>
    decreases s.len(),
{
    if s.len() > 0 && s[0] == '-' {
        trim_dashes(s.drop_first())
    } else if s.len() > 0 && s.last() == '-' {
        trim_dashes(s.drop_last())
    } else {
        s
    }
}

/// The file name of a report: the label made safe and stripped of dashes at
/// both ends, then the start time in whole seconds.
pub open spec fn output_file_name(label: Seq<char>, started_unix_ms: nat) -> Seq<char> {
    trim_dashes(label.map_values(|c: char| safe_char(c))) + "-"@ + decimal(started_unix_ms / 1000)
        + ".json"@
}

proof fn lemma_trim_dashes_front(s: Seq<char>, lo: int, hi: int)
    requires
        0 <= lo <= hi <= s.len(),
        forall|i: int| 0 <= i < lo ==> s[i] == '-',
        forall|i: int| hi <= i < s.len() ==> s[i] == '-',
        lo < hi ==> s[lo] != '-' && s[hi - 1] != '-',
        lo == hi ==> hi == s.len(),
    ensures
        trim_dashes(s) == s.subrange(lo, hi),
    decreases s.len(),
{
    if s.len() > 0 && s[0] == '-' {
        assert(lo > 0) by {
            if lo == 0 && hi > 0 {
                assert(s[0] != '-');
            }
        }
        let t = s.drop_first();
        lemma_trim_dashes_front(t, lo - 1, hi - 1);
        assert(t.subrange(lo - 1, hi - 1) =~= s.subrange(lo, hi));
    } else if s.len() > 0 && s.last() == '-' {
        let t = s.drop_last();
        if hi == s.len() {
            if lo < hi {
                assert(s[hi - 1] != '-');
            }
        }
        lemma_trim_dashes_front(t, lo, hi);
        assert(t.subrange(lo, hi) =~= s.subrange(lo, hi));
    } else {
        if lo > 0 {
            assert(s[0] == '-');
        }
        if hi < s.len() {
            assert(s[s.len() - 1] == '-');
        }
        if lo == hi && s.len() > 0 {
            assert(s[0] == '-');
        }
        assert(s.subrange(lo, hi) =~= s);
    }
}

/// The file name of a report for `label` started at `started_unix_ms`.
pub fn default_output_file_name(label: &str, started_unix_ms: u128) -> (r: String)
    ensures
        r@ == output_file_name(label@, started_unix_ms as nat),
{
    let chars = chars_of(label);
    let mut safe: Vec<char> = Vec::new();
    let mut i: usize = 0;
    while i < chars.len()
        invariant
            i <= chars.len(),
            chars@ == label@,
            safe@ == chars@.take(i as int).map_values(|c: char| safe_char(c)),
        decreases chars.len() - i,
    {
        let c = chars[i];
        let k = if ('a' <= c && c <= 'z') || ('A' <= c && c <= 'Z') || ('0' <= c && c <= '9') || c
            == '-' || c == '_' {
            c
        } else {
            '-'
        };
        safe.push(k);
        assert(chars@.take(i as int + 1).map_values(|c: char| safe_char(c)) =~= chars@.take(
            i as int,
        ).map_values(|c: char| safe_char(c)).push(safe_char(c)));
        i += 1;
    }
    assert(chars@.take(i as int) =~= chars@);
    let mut lo: usize = 0;
    while lo < safe.len() && safe[lo] == '-'
        invariant
            lo <= safe.len(),
            forall|j: int| 0 <= j < lo ==> safe@[j] == '-',
        decreases safe.len() - lo,
    {
        lo += 1;
    }
    let mut hi: usize = safe.len();
    while hi > lo && safe[hi - 1] == '-'
        invariant
            lo <= hi <= safe.len(),
            forall|j: int| hi <= j < safe.len() ==> safe@[j] == '-',
        decreases hi,
    {
        hi -= 1;
    }
    proof {
        lemma_trim_dashes_front(safe@, lo as int, hi as int);
    }
    let kept = slice(&safe, lo, hi);
    let mut out = string_of(&kept);
    push_str(&mut out, "-");
    push_chars(&mut out, &decimal_chars(started_unix_ms / 1000));
    push_str(&mut out, ".json");
    out
}

/// The arguments of a recording.
#[derive(Clone, Debug, PartialEq, Eq)]
pub struct RecordArgs {
    pub label: String,
    pub processes: Vec<String>,
    pub warmup_seconds: u64,
    pub duration_seconds: u64,
    pub interval_ms: u64,
    pub rediscovery_seconds: u64,
    pub output: Option<String>,
}

/// What is wrong with the arguments of a recording, checked in order, given
/// the shortest interval at which the platform updates CPU counters.
pub open spec fn record_args_problem(args: RecordArgs, minimum_interval_ms: u64) -> Option<Seq<char>> {
    if trim(args.label@).len() == 0 {
        Some("--label cannot be empty"@)
    } else if args.duration_seconds == 0 {
        Some("--duration-seconds must be greater than zero"@)
    } else if args.interval_ms == 0 {
        Some("--interval-ms must be greater than zero"@)
    } else if args.rediscovery_seconds == 0 {
        Some("--rediscovery-seconds must be greater than zero"@)
    } else if args.interval_ms < minimum_interval_ms {
        Some("--interval-ms must be at least "@ + decimal(minimum_interval_ms as nat) + " ms on this platform"@)
    } else if args.interval_ms > args.duration_seconds * 1000 {
        Some("the sample interval cannot exceed the measurement duration"@)
    } else {
        None
    }
}

/// Checks the arguments of a recording.
pub fn validate_record_args(args: &RecordArgs, minimum_interval_ms: u64) -> (r: Result<(), String>)
    ensures
        match record_args_problem(*args, minimum_interval_ms) {
            Some(m) => r matches Err(e) && e@ == m,
            None => r is Ok,
        },
{
    if trim_chars(&chars_of(args.label.as_str())).len() == 0 {
        return Err(owned("--label cannot be empty"));
    }
    if args.duration_seconds == 0 {
        return Err(owned("--duration-seconds must be greater than zero"));
    }
    if args.interval_ms == 0 {
        return Err(owned("--interval-ms must be greater than zero"));
    }
    if args.rediscovery_seconds == 0 {
        return Err(owned("--rediscovery-seconds must be greater than zero"));
    }
    if args.interval_ms < minimum_interval_ms {
        let mut m = owned("--interval-ms must be at least ");
        push_chars(&mut m, &decimal_chars(minimum_interval_ms as u128));
        push_str(&mut m, " ms on this platform");
        return Err(m);
    }
    if args.interval_ms as u128 > args.duration_seconds as u128 * 1000 {
        return Err(owned("the sample interval cannot exceed the measurement duration"));
    }
    Ok(())
}

/// The label of a set of reports: their common label, or `mixed labels`.
pub open spec fn report_label(labels: Seq<Seq<char>>) -> Seq<char> {
    if labels.len() > 0 && forall|i: int| 0 <= i < labels.len() ==> #[trigger] labels[i] == labels[0] {
        labels[0]
    } else {
        "mixed labels"@
    }
}

/// The label of a set of reports with these labels.
pub fn report_set_label(labels: &Vec<String>) -> (r: String)
    ensures
        r@ == report_label(labels@.map_values(|s: String| s@)),
{
    let ghost views = labels@.map_values(|s: String| s@);
    if labels.len() == 0 {
        return owned("mixed labels");
    }
    let mut i: usize = 1;
    while i < labels.len()
        invariant
            1 <= i <= labels.len(),
            views == labels@.map_values(|s: String| s@),
            forall|j: int| 0 <= j < i ==> #[trigger] views[j] == views[0],
        decreases labels.len() - i,
    {
        if !str_eq(labels[i].as_str(), labels[0].as_str()) {
            assert(views[i as int] != views[0]);
            return owned("mixed labels");
        }
        i += 1;
    }
    owned(labels[0].as_str())
}

// ---------------------------------------------------------------------------
// Sampling schedule and process starts
// ---------------------------------------------------------------------------

/// The smaller of two times.
pub open spec fn earlier(a: nat, b: nat) -> nat {
    if a <= b {
        a
    } else {
        b
    }
}

/// When the sample after the one scheduled at `scheduled` is taken, the last
/// sample having been taken at `now`: one interval later, or one interval
/// after `now` when that moment has already passed; never after `end`.
/// Times are nanoseconds on a monotonic clock.
pub open spec fn next_sample_time(scheduled: nat, now: nat, interval: nat, end: nat) -> nat {
    let next = earlier(scheduled + interval, end);
    if next <= now {
        earlier(now + interval, end)
    } else {
        next
    }
}

/// Schedules the next sample of a measurement.
pub fn next_sample_at(scheduled: u64, now: u64, interval: u64, end: u64) -> (r: u64)
    requires
        scheduled + interval <= u64::MAX,
        earlier((scheduled + interval) as nat, end as nat) <= now ==> now + interval <= u64::MAX,
    ensures
        r == next_sample_time(scheduled as nat, now as nat, interval as nat, end as nat),
{
    let later = scheduled + interval;
    let next = if later <= end {
        later
    } else {
        end
    };
    if next <= now {
        let again = now + interval;
        if again <= end {
            again
        } else {
            end
        }
    } else {
        next
    }
}

/// The processes of a sample that start events count: those never seen
/// before in the measurement and not present when it started.
pub open spec fn started_processes(seen: Set<ProcessKey>, initial: Set<ProcessKey>, current: Seq<ProcessKey>) -> Set<
    ProcessKey,
> {
    current.to_set().difference(seen).difference(initial)
}

/// Takes the processes of a new sample: each one not seen before joins
/// `seen`, and the count of those that were not there at the start is
/// returned.
pub fn count_started_processes(
    seen: &mut Vec<ProcessKey>,
    initial: &Vec<ProcessKey>,
    current: &Vec<ProcessKey>,
) -> (r: usize)
    ensures
        final(seen)@.to_set() == old(seen)@.to_set().union(current@.to_set()),
        r == started_processes(old(seen)@.to_set(), initial@.to_set(), current@).len(),
{
    let ghost seen0 = seen@.to_set();
    let ghost init = initial@.to_set();
    let mut count: usize = 0;
    let mut i: usize = 0;
    proof {
        assert(current@.take(0).to_set() =~= Set::<ProcessKey>::empty());
        assert(seen0.union(Set::<ProcessKey>::empty()) =~= seen0);
        assert(started_processes(seen0, init, current@.take(0)) =~= Set::<ProcessKey>::empty());
    }
    while i < current.len()
        invariant
            i <= current.len(),
            seen@.to_set() == seen0.union(current@.take(i as int).to_set()),
            count == started_processes(seen0, init, current@.take(i as int)).len(),
            count <= i,
            init == initial@.to_set(),
        decreases current.len() - i,
    {
        let key = current[i];
        let ghost before = current@.take(i as int);
        let ghost after = current@.take(i as int + 1);
        proof {
            assert(after =~= before.push(key));
            before.lemma_push_to_set_commute(key);
            assert(after.to_set() =~= before.to_set().insert(key));
            vstd::seq_lib::seq_to_set_is_finite(before);
        }
        let mut known = false;
        let mut j: usize = 0;
        while j < seen.len()
            invariant
                j <= seen.len(),
                known == exists|k: int| 0 <= k < j && seen@[k] == key,
            decreases seen.len() - j,
        {
            if seen[j] == key {
                known = true;
            }
            j += 1;
        }
        let mut at_start = false;
        let mut k: usize = 0;
        while k < initial.len()
            invariant
                k <= initial.len(),
                at_start == exists|m: int| 0 <= m < k && initial@[m] == key,
            decreases initial.len() - k,
        {
            if initial[k] == key {
                at_start = true;
            }
            k += 1;
        }
        proof {
            assert(known == seen@.to_set().contains(key)) by {
                if known {
                    let w = choose|k: int| 0 <= k < seen@.len() && seen@[k] == key;
                    assert(seen@.contains(key));
                }
            }
            assert(at_start == init.contains(key)) by {
                if at_start {
                    let w = choose|m: int| 0 <= m < initial@.len() && initial@[m] == key;
                    assert(initial@.contains(key));
                }
            }
        }
        let ghost old_started = started_processes(seen0, init, before);
        if !known {
            let ghost seen_before = seen@;
            seen.push(key);
            proof {
                seen_before.lemma_push_to_set_commute(key);
                assert(seen@.to_set() =~= seen0.union(after.to_set()));
            }
            if !at_start {
                proof {
                    assert(started_processes(seen0, init, after) =~= old_started.insert(key));
                    assert(!old_started.contains(key));
                }
                count += 1;
            } else {
                proof {
                    assert(started_processes(seen0, init, after) =~= old_started);
                }
            }
        } else {
            proof {
                assert(seen0.union(after.to_set()) =~= seen0.union(before.to_set()));
                assert(started_processes(seen0, init, after) =~= old_started);
            }
        }
        i += 1;
    }
    proof {
        assert(current@.take(current.len() as int) =~= current@);
    }
    count
}

} // verus!
