//! The latency report shared by the cross-core benchmarks, and the
//! before/after difference of the per-cpu timer-interrupt counters.
use vstd::prelude::*;

use crate::text::{
    decimal, decimal_string, lemma_texts_push, pad_left, pad_right, push_decimal,
    push_padded_left, push_padded_right, texts,
};

verus! {

#[verifier::external_type_specification]
#[verifier::external_body]
pub struct ExClock(quanta::Clock);

/// Latency percentiles from one bench run (raw TSC cycles), with the
/// timer-interrupt delta per pinned cpu and the impl's caveats.
pub struct LatencyReport {
    /// Name of the impl (e.g. `"ours"`).
    pub impl_name: &'static str,
    /// Static caveats the adapter attached.
    pub warnings: &'static [&'static str],
    /// TSC cycles at the 50th percentile.
    pub p50: u64,
    /// TSC cycles at the 90th percentile.
    pub p90: u64,
    /// TSC cycles at the 99th percentile.
    pub p99: u64,
    /// TSC cycles at the 99.9th percentile.
    pub p999: u64,
    /// Largest single sample, in TSC cycles.
    pub max: u64,
    /// Per-cpu `(cpu, delta)` of the local timer interrupt counters; `None`
    /// when either reading was unavailable.
    pub loc_delta: Vec<(usize, Option<u64>)>,
}

/// The counter delta for one cpu: `after - before` (saturating at 0), or
/// `None` when either reading is missing.
pub open spec fn counter_delta(before: Option<u64>, after: Option<u64>) -> Option<u64> {
    match (before, after) {
        (Some(b), Some(a)) => Some(if a >= b {
            (a - b) as u64
        } else {
            0
        }),
        _ => None,
    }
}

/// Pairs each cpu with the change of its counter between two readings.
pub fn loc_delta(cpus: &[usize], before: &[Option<u64>], after: &[Option<u64>]) -> (r: Vec<
    (usize, Option<u64>),
>)
    requires
        before@.len() == cpus@.len(),
        after@.len() == cpus@.len(),
    ensures
        r@.len() == cpus@.len(),
        forall|i: int|
            0 <= i < cpus@.len() ==> #[trigger] r@[i] == (cpus@[i], counter_delta(before@[i], after@[i])),
{
    let mut out: Vec<(usize, Option<u64>)> = Vec::new();
    let mut i: usize = 0;
    while i < cpus.len()
        invariant
            0 <= i <= cpus@.len(),
            before@.len() == cpus@.len(),
            after@.len() == cpus@.len(),
            out@.len() == i,
            forall|k: int|
                0 <= k < i ==> #[trigger] out@[k] == (cpus@[k], counter_delta(before@[k], after@[k])),
        decreases cpus@.len() - i,
    {
        let d = match (before[i], after[i]) {
            (Some(b), Some(a)) => Some(a.saturating_sub(b)),
            _ => None,
        };
        out.push((cpus[i], d));
        i = i + 1;
    }
    out
}

/// The bookkeeping of a bench consumer: how many reads it has seen, and of
/// those past the first `warmup`, how many returned a value and how many
/// were lapped. Only reads past the warmup are recorded.
pub struct ReadCounts {
    /// Reads to discard before recording.
    pub warmup: u64,
    /// Reads seen so far that returned a value or were lapped.
    pub seen: u64,
    /// Recorded reads that returned a value.
    pub values: u64,
    /// Recorded reads that were lapped.
    pub lapped: u64,
}

/// `x + 1`, wrapping at `2^64` as a release build counts.
pub open spec fn next_count(x: u64) -> u64 {
    ((x + 1) % (u64::MAX + 1)) as u64
}

impl ReadCounts {
    /// Every recorded read is either a value or a lap, and every read past
    /// the warmup is recorded.
    pub open spec fn consistent(&self) -> bool {
        self.values + self.lapped == if self.seen >= self.warmup {
            self.seen - self.warmup
        } else {
            0
        }
    }

    /// Fresh counts that discard the first `warmup` reads.
    pub fn new(warmup: u64) -> (c: Self)
        ensures
            c.warmup == warmup,
            c.seen == 0,
            c.values == 0,
            c.lapped == 0,
            c.consistent(),
    {
        ReadCounts { warmup, seen: 0, values: 0, lapped: 0 }
    }

    /// Counts a read that returned a value; the result says whether its
    /// sample is to be recorded (the warmup is over).
    pub fn on_value(&mut self) -> (record: bool)
        ensures
            record == (old(self).seen >= old(self).warmup),
            final(self).seen == next_count(old(self).seen),
            final(self).values == (if record {
                next_count(old(self).values)
            } else {
                old(self).values
            }),
            final(self).lapped == old(self).lapped,
            final(self).warmup == old(self).warmup,
            old(self).consistent() && old(self).seen < u64::MAX ==> final(self).consistent(),
    {
        let record = self.seen >= self.warmup;
        if record {
            self.values = self.values.wrapping_add(1);
        }
        self.seen = self.seen.wrapping_add(1);
        record
    }

    /// Counts a lapped read; the result says whether it is to be recorded.
    pub fn on_lapped(&mut self) -> (record: bool)
        ensures
            record == (old(self).seen >= old(self).warmup),
            final(self).seen == next_count(old(self).seen),
            final(self).lapped == (if record {
                next_count(old(self).lapped)
            } else {
                old(self).lapped
            }),
            final(self).values == old(self).values,
            final(self).warmup == old(self).warmup,
            old(self).consistent() && old(self).seen < u64::MAX ==> final(self).consistent(),
    {
        let record = self.seen >= self.warmup;
        if record {
            self.lapped = self.lapped.wrapping_add(1);
        }
        self.seen = self.seen.wrapping_add(1);
        record
    }
}

/// `quanta::Clock::delta_as_nanos`: the nanoseconds between two raw counter
/// readings by the clock's calibration. Claimed: 0 when `end` is not after
/// `start`. How a positive delta scales depends on the calibration this
/// machine measured, and is left unsaid. Public so that the contract of
/// [`LatencyReport::lines`] can name the calls it makes.
#[verifier::external_body]
pub fn delta_as_nanos(clock: &quanta::Clock, start: u64, end: u64) -> (ns: u64)
    ensures
        end <= start ==> ns == 0,
{
    clock.delta_as_nanos(start, end)
}

/// `== {name} ==`
pub open spec fn title_line(name: Seq<char>) -> Seq<char> {
    "== "@ + name + " =="@
}

/// `  WARN: {w}`
pub open spec fn warning_line(w: Seq<char>) -> Seq<char> {
    "  WARN: "@ + w
}

/// `  {label:<6} {raw:>7} cycles ({ns:>5} ns)`
pub open spec fn row_line(label: Seq<char>, raw: u64, ns: u64) -> Seq<char> {
    "  "@ + pad_right(label, 6) + " "@ + pad_left(decimal(raw as nat), 7) + " cycles ("@ + pad_left(
        decimal(ns as nat),
        5,
    ) + " ns)"@
}

/// `    cpu{cpu:>2}: +{d}`, or `unreadable` in place of the delta.
pub open spec fn loc_line(cpu: usize, delta: Option<u64>) -> Seq<char> {
    "    cpu"@ + pad_left(decimal(cpu as nat), 2) + ": "@ + match delta {
        Some(d) => "+"@ + decimal(d as nat),
        None => "unreadable"@,
    }
}

/// The heading of the timer-interrupt section.
pub open spec fn loc_heading() -> Seq<char> {
    "  Local timer interrupts during run (per cpu, nohz_full should keep these near 0):"@
}

/// The lines of a latency report, given the nanoseconds `ns` that the clock
/// assigns to p50, p90, p99, p99.9 and max: the title, one line per caveat,
/// one row per percentile, a blank line, and one line per pinned cpu.
pub open spec fn report_lines(r: &LatencyReport, ns: Seq<u64>) -> Seq<Seq<char>> {
    seq![title_line(r.impl_name@)] + r.warnings@.map_values(|w: &str| warning_line(w@)) + seq![
        row_line("p50"@, r.p50, ns[0]),
        row_line("p90"@, r.p90, ns[1]),
        row_line("p99"@, r.p99, ns[2]),
        row_line("p99.9"@, r.p999, ns[3]),
        row_line("max"@, r.max, ns[4]),
        Seq::empty(),
        loc_heading(),
    ] + r.loc_delta@.map_values(|e: (usize, Option<u64>)| loc_line(e.0, e.1))
}

/// Appends `line` to `out`.
fn push_line(out: &mut Vec<String>, line: String)
    ensures
        texts(final(out)@) == texts(old(out)@).push(line@),
{
    proof {
        lemma_texts_push(out@, line);
    }
    out.push(line);
}

/// The percentile row for `label`.
fn row(label: &str, raw: u64, ns: u64) -> (s: String)
    ensures
        s@ == row_line(label@, raw, ns),
{
    let mut s = String::from_str("  ");
    push_padded_right(&mut s, label, 6);
    s.append(" ");
    let r = decimal_string(raw);
    push_padded_left(&mut s, r.as_str(), 7);
    s.append(" cycles (");
    let n = decimal_string(ns);
    push_padded_left(&mut s, n.as_str(), 5);
    s.append(" ns)");
    assert(s@ =~= row_line(label@, raw, ns));
    s
}

impl LatencyReport {
    /// The report's lines, with `ns` the nanoseconds of p50, p90, p99,
    /// p99.9 and max.
    pub fn lines_with_nanos(&self, ns: &[u64]) -> (r: Vec<String>)
        requires
            ns@.len() == 5,
        ensures
            texts(r@) == report_lines(self, ns@),
    {
        let mut out: Vec<String> = Vec::new();
        let mut title = String::from_str("== ");
        title.append(self.impl_name);
        title.append(" ==");
        push_line(&mut out, title);
        let ghost head = seq![title_line(self.impl_name@)];
        let ghost warns = self.warnings@.map_values(|w: &str| warning_line(w@));
        assert(texts(out@) =~= head);
        let mut i: usize = 0;
        while i < self.warnings.len()
            invariant
                i <= self.warnings@.len(),
                warns == self.warnings@.map_values(|w: &str| warning_line(w@)),
                texts(out@) == head + warns.take(i as int),
            decreases self.warnings@.len() - i,
        {
            let mut w = String::from_str("  WARN: ");
            w.append(self.warnings[i]);
            push_line(&mut out, w);
            i = i + 1;
            assert(texts(out@) =~= head + warns.take(i as int));
        }
        assert(warns.take(i as int) =~= warns);
        let ghost before_rows = texts(out@);
        push_line(&mut out, row("p50", self.p50, ns[0]));
        push_line(&mut out, row("p90", self.p90, ns[1]));
        push_line(&mut out, row("p99", self.p99, ns[2]));
        push_line(&mut out, row("p99.9", self.p999, ns[3]));
        push_line(&mut out, row("max", self.max, ns[4]));
        push_line(&mut out, String::new());
        push_line(
            &mut out,
            String::from_str(
                "  Local timer interrupts during run (per cpu, nohz_full should keep these near 0):",
            ),
        );
        let ghost rows = seq![
            row_line("p50"@, self.p50, ns@[0]),
            row_line("p90"@, self.p90, ns@[1]),
            row_line("p99"@, self.p99, ns@[2]),
            row_line("p99.9"@, self.p999, ns@[3]),
            row_line("max"@, self.max, ns@[4]),
            Seq::empty(),
            loc_heading(),
        ];
        assert(texts(out@) =~= head + warns + rows);
        let ghost prefix = head + warns + rows;
        let ghost locs = self.loc_delta@.map_values(
            |e: (usize, Option<u64>)| loc_line(e.0, e.1),
        );
        let mut k: usize = 0;
        while k < self.loc_delta.len()
            invariant
                k <= self.loc_delta@.len(),
                locs == self.loc_delta@.map_values(|e: (usize, Option<u64>)| loc_line(e.0, e.1)),
                texts(out@) == prefix + locs.take(k as int),
            decreases self.loc_delta@.len() - k,
        {
            let (cpu, delta) = self.loc_delta[k];
            let mut l = String::from_str("    cpu");
            let c = decimal_string(cpu as u64);
            push_padded_left(&mut l, c.as_str(), 2);
            l.append(": ");
            match delta {
                Some(d) => {
                    l.append("+");
                    push_decimal(&mut l, d);
                },
                None => l.append("unreadable"),
            }
            assert(l@ =~= loc_line(cpu, delta));
            push_line(&mut out, l);
            k = k + 1;
            assert(texts(out@) =~= prefix + locs.take(k as int));
        }
        assert(locs.take(k as int) =~= locs);
        out
    }

    /// The report's lines, with each percentile's cycle count turned into
    /// nanoseconds by `delta_as_nanos(clock, 0, cycles)`. A zero cycle count
    /// shows as zero nanoseconds; what the others show depends on the
    /// clock's calibration.
    pub fn lines(&self, clock: &quanta::Clock) -> (r: Vec<String>)
        ensures
            exists|ns: Seq<u64>|
                {
                    &&& ns.len() == 5
                    &&& call_ensures(delta_as_nanos, (clock, 0u64, self.p50), ns[0])
                    &&& call_ensures(delta_as_nanos, (clock, 0u64, self.p90), ns[1])
                    &&& call_ensures(delta_as_nanos, (clock, 0u64, self.p99), ns[2])
                    &&& call_ensures(delta_as_nanos, (clock, 0u64, self.p999), ns[3])
                    &&& call_ensures(delta_as_nanos, (clock, 0u64, self.max), ns[4])
                    &&& self.p50 == 0 ==> ns[0] == 0
                    &&& self.p90 == 0 ==> ns[1] == 0
                    &&& self.p99 == 0 ==> ns[2] == 0
                    &&& self.p999 == 0 ==> ns[3] == 0
                    &&& self.max == 0 ==> ns[4] == 0
                    &&& texts(r@) == report_lines(self, ns)
                },
    {
        let n0 = delta_as_nanos(clock, 0, self.p50);
        let n1 = delta_as_nanos(clock, 0, self.p90);
        let n2 = delta_as_nanos(clock, 0, self.p99);
        let n3 = delta_as_nanos(clock, 0, self.p999);
        let n4 = delta_as_nanos(clock, 0, self.max);
        let ns = [n0, n1, n2, n3, n4];
        let ghost w = seq![n0, n1, n2, n3, n4];
        assert(ns@ =~= w);
        let r = self.lines_with_nanos(ns.as_slice());
        assert({
            &&& w.len() == 5
            &&& call_ensures(delta_as_nanos, (clock, 0u64, self.p50), w[0])
            &&& call_ensures(delta_as_nanos, (clock, 0u64, self.p90), w[1])
            &&& call_ensures(delta_as_nanos, (clock, 0u64, self.p99), w[2])
            &&& call_ensures(delta_as_nanos, (clock, 0u64, self.p999), w[3])
            &&& call_ensures(delta_as_nanos, (clock, 0u64, self.max), w[4])
            &&& self.p50 == 0 ==> w[0] == 0
            &&& self.p90 == 0 ==> w[1] == 0
            &&& self.p99 == 0 ==> w[2] == 0
            &&& self.p999 == 0 ==> w[3] == 0
            &&& self.max == 0 ==> w[4] == 0
            &&& texts(r@) == report_lines(self, w)
        });
        r
    }
}

} // verus!
