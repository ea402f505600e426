//! Composable preflight checks for low-latency benchmarks.
//!
//! Each check pushes warnings or failures into a [`PreflightReport`]. A
//! warning means the result may still be meaningful but is degraded; a
//! failure means the result would be misleading. The checks here decide from
//! the (trimmed) contents of the kernel files they consult; reading those
//! files is left to the caller.
use vstd::prelude::*;

use crate::text::{
    chars_of, contains_chars, contains_text, cpu_list, debug_list, decimal, has_prefix_at,
    line_ranges, lines, list_contains, parse_cpu_list, parse_u64, parse_u64_spec, push_debug_list,
    push_decimal, ranges_spell, starts_with_at, str_eq, texts, word_ranges, words,
};
use crate::text::lemma_texts_push;

verus! {

/// Warnings and failures collected by the preflight checks.
pub struct PreflightReport {
    /// Degraded but still meaningful conditions.
    pub warnings: Vec<String>,
    /// Conditions that would make the results misleading.
    pub failures: Vec<String>,
}

impl PreflightReport {
    /// The warning texts, in the order recorded.
    pub open spec fn warning_texts(&self) -> Seq<Seq<char>> {
        texts(self.warnings@)
    }

    /// The failure texts, in the order recorded.
    pub open spec fn failure_texts(&self) -> Seq<Seq<char>> {
        texts(self.failures@)
    }

    /// Records a warning.
    pub fn warn(&mut self, msg: String)
        ensures
            final(self).warnings@ == old(self).warnings@.push(msg),
            final(self).failures@ == old(self).failures@,
    {
        self.warnings.push(msg);
    }

    /// Records a failure.
    pub fn fail(&mut self, msg: String)
        ensures
            final(self).failures@ == old(self).failures@.push(msg),
            final(self).warnings@ == old(self).warnings@,
    {
        self.failures.push(msg);
    }

    /// Whether any failure was recorded: the run must then be aborted.
    pub fn has_failures(&self) -> (r: bool)
        ensures
            r == (self.failures@.len() > 0),
    {
        self.failures.len() > 0
    }
}

impl Default for PreflightReport {
    fn default() -> (r: Self)
        ensures
            r.warnings@.len() == 0,
            r.failures@.len() == 0,
    {
        PreflightReport { warnings: Vec::new(), failures: Vec::new() }
    }
}

/// The cpus a cpu-list file names; an unreadable file names none.
pub open spec fn listed(content: Option<Seq<char>>) -> Seq<usize> {
    match content {
        Some(s) => cpu_list(s),
        None => Seq::empty(),
    }
}

/// The view of an optional string slice.
pub open spec fn opt_view(s: Option<&str>) -> Option<Seq<char>> {
    match s {
        Some(s) => Some(s@),
        None => None,
    }
}

/// The view of an optional string.
pub open spec fn opt_string_view(s: Option<String>) -> Option<Seq<char>> {
    match s {
        Some(s) => Some(s@),
        None => None,
    }
}

/// Parses an optional cpu-list file; an unreadable file names no cpu.
pub fn read_cpu_list(content: Option<&str>) -> (r: Vec<usize>)
    ensures
        r@ == listed(opt_view(content)),
{
    match content {
        Some(s) => parse_cpu_list(s),
        None => Vec::new(),
    }
}

/// The messages, one per core of `cores` missing from `list`, in order.
pub open spec fn missing_messages(
    cores: Seq<usize>,
    list: Seq<usize>,
    msg: spec_fn(usize) -> Seq<char>,
) -> Seq<Seq<char>>
    decreases cores.len(),
{
    if cores.len() == 0 {
        Seq::empty()
    } else {
        let rest = missing_messages(cores.drop_last(), list, msg);
        if list.contains(cores.last()) {
            rest
        } else {
            rest.push(msg(cores.last()))
        }
    }
}

/// `core {c} is offline`
pub open spec fn offline_message(c: usize) -> Seq<char> {
    "core "@ + decimal(c as nat) + " is offline"@
}

/// `core {c} not in isolcpus (got {isolated:?})`
pub open spec fn not_isolated_message(c: usize, isolated: Seq<usize>) -> Seq<char> {
    "core "@ + decimal(c as nat) + " not in isolcpus (got "@ + debug_list(isolated) + ")"@
}

/// `core {c} not in nohz_full`
pub open spec fn not_nohz_message(c: usize) -> Seq<char> {
    "core "@ + decimal(c as nat) + " not in nohz_full"@
}

/// Which of the cpu-list membership checks is being run.
enum Membership {
    Online,
    Isolated,
    NohzFull,
}

spec fn membership_message(kind: Membership, c: usize, list: Seq<usize>) -> Seq<char> {
    match kind {
        Membership::Online => offline_message(c),
        Membership::Isolated => not_isolated_message(c, list),
        Membership::NohzFull => not_nohz_message(c),
    }
}

fn membership_text(kind: &Membership, c: usize, list: &[usize]) -> (r: String)
    ensures
        r@ == membership_message(*kind, c, list@),
{
    let mut m = String::new();
    m.append("core ");
    push_decimal(&mut m, c as u64);
    match kind {
        Membership::Online => {
            m.append(" is offline");
        },
        Membership::Isolated => {
            m.append(" not in isolcpus (got ");
            push_debug_list(&mut m, list);
            m.append(")");
        },
        Membership::NohzFull => {
            m.append(" not in nohz_full");
        },
    }
    m
}

/// Collects into `out` one message per core of `cores` that `list` lacks.
fn push_missing(out: &mut Vec<String>, cores: &[usize], list: &[usize], kind: Membership)
    ensures
        texts(final(out)@) == texts(old(out)@) + missing_messages(
            cores@,
            list@,
            |c: usize| membership_message(kind, c, list@),
        ),
{
    let ghost msg = |c: usize| membership_message(kind, c, list@);
    let mut i: usize = 0;
    while i < cores.len()
        invariant
            0 <= i <= cores@.len(),
            msg == (|c: usize| membership_message(kind, c, list@)),
            texts(out@) == texts(old(out)@) + missing_messages(cores@.take(i as int), list@, msg),
        decreases cores@.len() - i,
    {
        let c = cores[i];
        assert(cores@.take(i + 1).drop_last() =~= cores@.take(i as int));
        if !list_contains(list, c) {
            let m = membership_text(&kind, c, list);
            proof {
                lemma_texts_push(out@, m);
            }
            out.push(m);
        }
        i = i + 1;
        assert(texts(out@) =~= texts(old(out)@) + missing_messages(cores@.take(i as int), list@, msg));
    }
    assert(cores@.take(i as int) =~= cores@);
}

/// `debug build, build with \`--release\` instead`
pub open spec fn debug_build_message() -> Seq<char> {
    "debug build, build with `--release` instead"@
}

/// Fails when the program was built without optimizations
/// (`debug_assertions` set): such builds give meaningless timings.
pub fn release_build(r: &mut PreflightReport, debug_assertions: bool)
    ensures
        final(r).warnings@ == old(r).warnings@,
        debug_assertions ==> texts(final(r).failures@) == texts(old(r).failures@).push(
            debug_build_message(),
        ),
        !debug_assertions ==> final(r).failures@ == old(r).failures@,
{
    if debug_assertions {
        let m = String::from_str("debug build, build with `--release` instead");
        proof {
            lemma_texts_push(r.failures@, m);
        }
        r.fail(m);
    }
}

/// Fails for every requested core that the `online` cpu list (the trimmed
/// contents of `/sys/devices/system/cpu/online`, `None` if unreadable) lacks.
pub fn cores_online(r: &mut PreflightReport, cores: &[usize], online: Option<&str>)
    ensures
        final(r).warnings@ == old(r).warnings@,
        texts(final(r).failures@) == texts(old(r).failures@) + missing_messages(
            cores@,
            listed(opt_view(online)),
            |c: usize| offline_message(c),
        ),
{
    let list = read_cpu_list(online);
    push_missing(&mut r.failures, cores, list.as_slice(), Membership::Online);
    assert((|c: usize| membership_message(Membership::Online, c, list@)) =~= (|c: usize|
        offline_message(c)));
}

/// Warns for every requested core that the `isolated` cpu list (contents of
/// `/sys/devices/system/cpu/isolated`) lacks: such cores receive scheduler
/// load from other tasks.
pub fn cores_isolated(r: &mut PreflightReport, cores: &[usize], isolated: Option<&str>)
    ensures
        final(r).failures@ == old(r).failures@,
        texts(final(r).warnings@) == texts(old(r).warnings@) + missing_messages(
            cores@,
            listed(opt_view(isolated)),
            |c: usize| not_isolated_message(c, listed(opt_view(isolated))),
        ),
{
    let list = read_cpu_list(isolated);
    push_missing(&mut r.warnings, cores, list.as_slice(), Membership::Isolated);
    assert((|c: usize| membership_message(Membership::Isolated, c, list@)) =~= (|c: usize|
        not_isolated_message(c, listed(opt_view(isolated)))));
}

/// Warns for every requested core that the `nohz_full` cpu list (contents of
/// `/sys/devices/system/cpu/nohz_full`) lacks: such cores take a periodic
/// timer interrupt.
pub fn cores_nohz_full(r: &mut PreflightReport, cores: &[usize], nohz: Option<&str>)
    ensures
        final(r).failures@ == old(r).failures@,
        texts(final(r).warnings@) == texts(old(r).warnings@) + missing_messages(
            cores@,
            listed(opt_view(nohz)),
            |c: usize| not_nohz_message(c),
        ),
{
    let list = read_cpu_list(nohz);
    push_missing(&mut r.warnings, cores, list.as_slice(), Membership::NohzFull);
    assert((|c: usize| membership_message(Membership::NohzFull, c, list@)) =~= (|c: usize|
        not_nohz_message(c)));
}

/// The cpus a thread-siblings list names besides `c` itself.
pub open spec fn siblings(c: usize, content: Option<Seq<char>>) -> Seq<usize> {
    listed(content).filter(other_than(c))
}

/// Holds of every cpu but `c`.
pub open spec fn other_than(c: usize) -> spec_fn(usize) -> bool {
    |s: usize| s != c
}

/// The SMT siblings of core `c` according to its thread-siblings list (the
/// trimmed contents of `.../cpu{c}/topology/thread_siblings_list`), `c`
/// itself excluded.
pub fn siblings_of(c: usize, content: Option<&str>) -> (r: Vec<usize>)
    ensures
        r@ == siblings(c, opt_view(content)),
{
    let all = read_cpu_list(content);
    let mut out: Vec<usize> = Vec::new();
    let mut i: usize = 0;
    proof {
        reveal(Seq::filter);
    }
    while i < all.len()
        invariant
            0 <= i <= all@.len(),
            all@ == listed(opt_view(content)),
            out@ == all@.take(i as int).filter(other_than(c)),
        decreases all@.len() - i,
    {
        proof {
            reveal(Seq::filter);
            assert(all@.take(i + 1).drop_last() =~= all@.take(i as int));
        }
        let s = all[i];
        if s != c {
            out.push(s);
        }
        i = i + 1;
    }
    assert(all@.take(i as int) =~= all@);
    out
}

/// Messages for an optional message.
pub open spec fn opt_messages(m: Option<Seq<char>>) -> Seq<Seq<char>> {
    match m {
        Some(m) => seq![m],
        None => Seq::empty(),
    }
}

/// Views of a list of optional strings.
pub open spec fn opt_views(v: Seq<Option<String>>) -> Seq<Option<Seq<char>>> {
    v.map_values(|o: Option<String>| opt_string_view(o))
}

/// `core {c} governor = {other}, want performance`
pub open spec fn governor_message(c: usize, governor: Seq<char>) -> Seq<char> {
    "core "@ + decimal(c as nat) + " governor = "@ + governor + ", want performance"@
}

/// `core {c} governor unreadable`
pub open spec fn governor_unreadable_message(c: usize) -> Seq<char> {
    "core "@ + decimal(c as nat) + " governor unreadable"@
}

/// The governor warnings for `cores`, given each core's governor.
pub open spec fn governor_messages(cores: Seq<usize>, governors: Seq<Option<Seq<char>>>) -> Seq<
    Seq<char>,
>
    decreases cores.len(),
{
    if cores.len() == 0 {
        Seq::empty()
    } else {
        let rest = governor_messages(cores.drop_last(), governors.drop_last());
        let c = cores.last();
        match governors.last() {
            Some(g) => if g == "performance"@ {
                rest
            } else {
                rest.push(governor_message(c, g))
            },
            None => rest.push(governor_unreadable_message(c)),
        }
    }
}

/// Warns for every requested core whose cpufreq governor (the trimmed
/// contents of `.../cpu{c}/cpufreq/scaling_governor`, `None` if unreadable;
/// `governors[i]` belongs to `cores[i]`) is not `performance`: other
/// governors rescale the frequency during the run.
pub fn cores_performance_governor(
    r: &mut PreflightReport,
    cores: &[usize],
    governors: &[Option<String>],
)
    requires
        cores@.len() == governors@.len(),
    ensures
        final(r).failures@ == old(r).failures@,
        texts(final(r).warnings@) == texts(old(r).warnings@) + governor_messages(
            cores@,
            opt_views(governors@),
        ),
{
    let mut i: usize = 0;
    while i < cores.len()
        invariant
            0 <= i <= cores@.len(),
            cores@.len() == governors@.len(),
            r.failures@ == old(r).failures@,
            texts(r.warnings@) == texts(old(r).warnings@) + governor_messages(
                cores@.take(i as int),
                opt_views(governors@).take(i as int),
            ),
        decreases cores@.len() - i,
    {
        let c = cores[i];
        assert(cores@.take(i + 1).drop_last() =~= cores@.take(i as int));
        assert(opt_views(governors@).take(i + 1).drop_last() =~= opt_views(governors@).take(
            i as int,
        ));
        match &governors[i] {
            Some(g) => {
                if !str_eq(g.as_str(), "performance") {
                    let mut m = String::new();
                    m.append("core ");
                    push_decimal(&mut m, c as u64);
                    m.append(" governor = ");
                    m.append(g.as_str());
                    m.append(", want performance");
                    proof {
                        lemma_texts_push(r.warnings@, m);
                    }
                    r.warn(m);
                }
            },
            None => {
                let mut m = String::new();
                m.append("core ");
                push_decimal(&mut m, c as u64);
                m.append(" governor unreadable");
                proof {
                    lemma_texts_push(r.warnings@, m);
                }
                r.warn(m);
            },
        }
        i = i + 1;
    }
    assert(cores@.take(i as int) =~= cores@);
    assert(opt_views(governors@).take(i as int) =~= opt_views(governors@));
}

/// `intel_pstate/no_turbo = {other}, want 1`
pub open spec fn no_turbo_message(other: Seq<char>) -> Seq<char> {
    "intel_pstate/no_turbo = "@ + other + ", want 1"@
}

/// `cpufreq/boost = {other}, want 0`
pub open spec fn boost_message(other: Seq<char>) -> Seq<char> {
    "cpufreq/boost = "@ + other + ", want 0"@
}

/// `turbo state unreadable (neither Intel pstate nor AMD boost)`
pub open spec fn turbo_unreadable_message() -> Seq<char> {
    "turbo state unreadable (neither Intel pstate nor AMD boost)"@
}

/// The turbo warnings: Intel's `no_turbo` decides when readable, AMD's
/// `boost` otherwise.
pub open spec fn turbo_messages(no_turbo: Option<Seq<char>>, boost: Option<Seq<char>>) -> Seq<
    Seq<char>,
> {
    match no_turbo {
        Some(s) => if s == "1"@ {
            Seq::empty()
        } else {
            seq![no_turbo_message(s)]
        },
        None => match boost {
            Some(b) => if b == "0"@ {
                Seq::empty()
            } else {
                seq![boost_message(b)]
            },
            None => seq![turbo_unreadable_message()],
        },
    }
}

/// Warns when turbo boost is enabled, judged from the trimmed contents of
/// `intel_pstate/no_turbo` or, failing that, `cpufreq/boost`: turbo makes
/// per-core frequencies vary.
pub fn turbo_disabled(r: &mut PreflightReport, no_turbo: Option<&str>, boost: Option<&str>)
    ensures
        final(r).failures@ == old(r).failures@,
        texts(final(r).warnings@) == texts(old(r).warnings@) + turbo_messages(
            opt_view(no_turbo),
            opt_view(boost),
        ),
{
    match no_turbo {
        Some(s) => {
            if str_eq(s, "1") {
                assert(texts(r.warnings@) =~= texts(old(r).warnings@) + turbo_messages(
                    opt_view(no_turbo),
                    opt_view(boost),
                ));
                return ;
            }
            let mut m = String::from_str("intel_pstate/no_turbo = ");
            m.append(s);
            m.append(", want 1");
            proof {
                lemma_texts_push(r.warnings@, m);
            }
            r.warn(m);
            assert(texts(r.warnings@) =~= texts(old(r).warnings@) + turbo_messages(
                opt_view(no_turbo),
                opt_view(boost),
            ));
            return ;
        },
        None => {},
    }
    match boost {
        Some(b) => {
            if !str_eq(b, "0") {
                let mut m = String::from_str("cpufreq/boost = ");
                m.append(b);
                m.append(", want 0");
                proof {
                    lemma_texts_push(r.warnings@, m);
                }
                r.warn(m);
            }
        },
        None => {
            let m = String::from_str("turbo state unreadable (neither Intel pstate nor AMD boost)");
            proof {
                lemma_texts_push(r.warnings@, m);
            }
            r.warn(m);
        },
    }
    assert(texts(r.warnings@) =~= texts(old(r).warnings@) + turbo_messages(
        opt_view(no_turbo),
        opt_view(boost),
    ));
}

/// Messages for the pairs `(i, j)` with `i < j < end`, in order of `j`.
pub open spec fn row_messages(i: int, end: int, msg: spec_fn(int, int) -> Option<Seq<char>>) -> Seq<
    Seq<char>,
>
    decreases end - i,
{
    if end <= i + 1 {
        Seq::empty()
    } else {
        row_messages(i, end - 1, msg) + opt_messages(msg(i, end - 1))
    }
}

/// Messages for every pair `(i, j)` with `i < rows` and `i < j < n`, row by
/// row: the order of two nested loops over the cores.
pub open spec fn pair_messages(rows: int, n: int, msg: spec_fn(int, int) -> Option<Seq<char>>) -> Seq<
    Seq<char>,
>
    decreases rows,
{
    if rows <= 0 {
        Seq::empty()
    } else {
        pair_messages(rows - 1, n, msg) + row_messages(rows - 1, n, msg)
    }
}

/// `cores {a} and {b} are SMT siblings of physical core {id}`
pub open spec fn smt_pair_message(a: usize, b: usize, id: Seq<char>) -> Seq<char> {
    "cores "@ + decimal(a as nat) + " and "@ + decimal(b as nat) + " are SMT siblings of physical core "@
        + id
}

/// The message for cores `i` and `j` when both sit on the same physical
/// core: the same package and, within it, the same core id, all readable.
pub open spec fn same_core_message(
    cores: Seq<usize>,
    ids: Seq<Option<Seq<char>>>,
    packages: Seq<Option<Seq<char>>>,
) -> spec_fn(int, int) -> Option<Seq<char>> {
    |i: int, j: int|
        match (ids[i], ids[j], packages[i], packages[j]) {
            (Some(x), Some(y), Some(pa), Some(pb)) => if x == y && pa == pb {
                Some(smt_pair_message(cores[i], cores[j], x))
            } else {
                None
            },
            _ => None,
        }
}

/// `cores {a} and {b} don't share L3 ({la} vs {lb})`
pub open spec fn l3_pair_message(a: usize, b: usize, la: Seq<char>, lb: Seq<char>) -> Seq<char> {
    "cores "@ + decimal(a as nat) + " and "@ + decimal(b as nat) + " don't share L3 ("@ + la + " vs "@
        + lb + ")"@
}

/// The message for cores `i` and `j` when both L3 lists are readable and differ.
pub open spec fn l3_message(cores: Seq<usize>, l3: Seq<Option<Seq<char>>>) -> spec_fn(int, int) -> Option<
    Seq<char>,
> {
    |i: int, j: int|
        match (l3[i], l3[j]) {
            (Some(x), Some(y)) => if x != y {
                Some(l3_pair_message(cores[i], cores[j], x, y))
            } else {
                None
            },
            _ => None,
        }
}

/// Which pairwise check is being run.
enum PairCheck {
    SamePhysicalCore,
    SharedL3,
}

spec fn pair_check_message(
    kind: PairCheck,
    cores: Seq<usize>,
    info: Seq<Option<Seq<char>>>,
    packages: Seq<Option<Seq<char>>>,
) -> spec_fn(int, int) -> Option<Seq<char>> {
    match kind {
        PairCheck::SamePhysicalCore => same_core_message(cores, info, packages),
        PairCheck::SharedL3 => l3_message(cores, info),
    }
}

/// Whether both entries are readable and equal.
fn both_equal(a: &Option<String>, b: &Option<String>) -> (r: bool)
    ensures
        r == (match (opt_string_view(*a), opt_string_view(*b)) {
            (Some(x), Some(y)) => x == y,
            _ => false,
        }),
{
    match (a, b) {
        (Some(x), Some(y)) => str_eq(x.as_str(), y.as_str()),
        _ => false,
    }
}

/// The message of check `kind` for cores `i` and `j`, if any; `packages`
/// matters to the physical-core check only.
fn pair_text(
    kind: &PairCheck,
    cores: &[usize],
    info: &[Option<String>],
    packages: &[Option<String>],
    i: usize,
    j: usize,
) -> (r: Option<String>)
    requires
        cores@.len() == info@.len(),
        cores@.len() == packages@.len(),
        i < j < cores@.len(),
    ensures
        opt_string_view(r) == pair_check_message(*kind, cores@, opt_views(info@), opt_views(packages@))(
            i as int,
            j as int,
        ),
{
    match (&info[i], &info[j]) {
        (Some(x), Some(y)) => {
            let same = str_eq(x.as_str(), y.as_str());
            let mut m = String::from_str("cores ");
            push_decimal(&mut m, cores[i] as u64);
            m.append(" and ");
            push_decimal(&mut m, cores[j] as u64);
            match kind {
                PairCheck::SamePhysicalCore => {
                    if !same || !both_equal(&packages[i], &packages[j]) {
                        return None;
                    }
                    m.append(" are SMT siblings of physical core ");
                    m.append(x.as_str());
                },
                PairCheck::SharedL3 => {
                    if same {
                        return None;
                    }
                    m.append(" don't share L3 (");
                    m.append(x.as_str());
                    m.append(" vs ");
                    m.append(y.as_str());
                    m.append(")");
                },
            }
            Some(m)
        },
        _ => None,
    }
}

/// Collects into `out` the messages of check `kind` over every pair of cores.
fn push_pair_messages(
    out: &mut Vec<String>,
    cores: &[usize],
    info: &[Option<String>],
    packages: &[Option<String>],
    kind: PairCheck,
)
    requires
        cores@.len() == info@.len(),
        cores@.len() == packages@.len(),
    ensures
        texts(final(out)@) == texts(old(out)@) + pair_messages(
            cores@.len() as int,
            cores@.len() as int,
            pair_check_message(kind, cores@, opt_views(info@), opt_views(packages@)),
        ),
{
    let ghost msg = pair_check_message(kind, cores@, opt_views(info@), opt_views(packages@));
    let n = cores.len();
    let mut i: usize = 0;
    while i < n
        invariant
            0 <= i <= n,
            n == cores@.len(),
            cores@.len() == info@.len(),
            cores@.len() == packages@.len(),
            msg == pair_check_message(kind, cores@, opt_views(info@), opt_views(packages@)),
            texts(out@) == texts(old(out)@) + pair_messages(i as int, n as int, msg),
        decreases n - i,
    {
        let ghost before = texts(out@);
        let mut j: usize = i + 1;
        while j < n
            invariant
                i < n,
                i + 1 <= j <= n,
                n == cores@.len(),
                cores@.len() == info@.len(),
                cores@.len() == packages@.len(),
                msg == pair_check_message(kind, cores@, opt_views(info@), opt_views(packages@)),
                texts(out@) == before + row_messages(i as int, j as int, msg),
            decreases n - j,
        {
            match pair_text(&kind, cores, info, packages, i, j) {
                Some(m) => {
                    proof {
                        lemma_texts_push(out@, m);
                    }
                    out.push(m);
                },
                None => {},
            }
            j = j + 1;
            assert(texts(out@) =~= before + row_messages(i as int, j as int, msg));
        }
        i = i + 1;
        assert(texts(out@) =~= texts(old(out)@) + pair_messages(i as int, n as int, msg));
    }
}

/// Fails for every pair of requested cores that sit on the same physical
/// core (they are SMT siblings and compete for execution units). A core id
/// is unique only within its package, so both must match: `core_ids[i]` is
/// the trimmed contents of `.../cpu{cores[i]}/topology/core_id` and
/// `package_ids[i]` that of `.../topology/physical_package_id`, `None` if
/// unreadable.
pub fn cores_distinct_physical(
    r: &mut PreflightReport,
    cores: &[usize],
    core_ids: &[Option<String>],
    package_ids: &[Option<String>],
)
    requires
        cores@.len() == core_ids@.len(),
        cores@.len() == package_ids@.len(),
    ensures
        final(r).warnings@ == old(r).warnings@,
        texts(final(r).failures@) == texts(old(r).failures@) + pair_messages(
            cores@.len() as int,
            cores@.len() as int,
            same_core_message(cores@, opt_views(core_ids@), opt_views(package_ids@)),
        ),
{
    push_pair_messages(&mut r.failures, cores, core_ids, package_ids, PairCheck::SamePhysicalCore);
}

/// Warns for every pair of requested cores whose L3 sharing lists differ
/// (cross-socket pairs behave entirely differently). `l3[i]` is the trimmed
/// contents of `.../cpu{cores[i]}/cache/index3/shared_cpu_list`, `None` if
/// unreadable.
pub fn cores_share_l3(r: &mut PreflightReport, cores: &[usize], l3: &[Option<String>])
    requires
        cores@.len() == l3@.len(),
    ensures
        final(r).failures@ == old(r).failures@,
        texts(final(r).warnings@) == texts(old(r).warnings@) + pair_messages(
            cores@.len() as int,
            cores@.len() as int,
            l3_message(cores@, opt_views(l3@)),
        ),
{
    push_pair_messages(&mut r.warnings, cores, l3, l3, PairCheck::SharedL3);
}

/// `SMT sibling of {c} is cpu {sib}, online and not isolated will steal execution units`
pub open spec fn busy_sibling_message(c: usize, sib: usize) -> Seq<char> {
    "SMT sibling of "@ + decimal(c as nat) + " is cpu "@ + decimal(sib as nat)
        + ", online and not isolated will steal execution units"@
}

/// A sibling is online unless its `online` file reads `0`.
pub open spec fn sibling_online(online: Option<Seq<char>>) -> bool {
    online != Some("0"@)
}

/// The views of one core's siblings with their `online` files.
pub open spec fn sibling_views(v: Seq<(usize, Option<String>)>) -> Seq<(usize, Option<Seq<char>>)> {
    v.map_values(|p: (usize, Option<String>)| (p.0, opt_string_view(p.1)))
}

/// Warnings for the first `k` siblings of core `c`.
pub open spec fn busy_sibling_row(
    c: usize,
    sibs: Seq<(usize, Option<Seq<char>>)>,
    isolated: Seq<usize>,
    k: int,
) -> Seq<Seq<char>>
    decreases k,
{
    if k <= 0 {
        Seq::empty()
    } else {
        let rest = busy_sibling_row(c, sibs, isolated, k - 1);
        let (sib, online) = sibs[k - 1];
        if sibling_online(online) && !isolated.contains(sib) {
            rest.push(busy_sibling_message(c, sib))
        } else {
            rest
        }
    }
}

/// Warnings for the siblings of the first `k` cores.
pub open spec fn busy_sibling_messages(
    cores: Seq<usize>,
    siblings: Seq<Seq<(usize, Option<Seq<char>>)>>,
    isolated: Seq<usize>,
    k: int,
) -> Seq<Seq<char>>
    decreases k,
{
    if k <= 0 {
        Seq::empty()
    } else {
        busy_sibling_messages(cores, siblings, isolated, k - 1) + busy_sibling_row(
            cores[k - 1],
            siblings[k - 1],
            isolated,
            siblings[k - 1].len() as int,
        )
    }
}

/// Quiet-sibling law: each further sibling of a core adds exactly one
/// warning when it is not isolated and its `online` file does not read
/// exactly `0` (an unreadable file counts as online), and none otherwise.
pub proof fn lemma_busy_sibling(
    c: usize,
    sibs: Seq<(usize, Option<Seq<char>>)>,
    sib: usize,
    online: Option<Seq<char>>,
    isolated: Seq<usize>,
)
    ensures
        busy_sibling_row(c, sibs.push((sib, online)), isolated, sibs.len() + 1int) == busy_sibling_row(
            c,
            sibs,
            isolated,
            sibs.len() as int,
        ) + if isolated.contains(sib) || online == Some(seq!['0']) {
            Seq::<Seq<char>>::empty()
        } else {
            seq![busy_sibling_message(c, sib)]
        },
        !isolated.contains(sib) ==> busy_sibling_messages(
            seq![c],
            seq![seq![(sib, None::<Seq<char>>)]],
            isolated,
            1,
        ) == seq![busy_sibling_message(c, sib)],
{
    reveal_strlit("0");
    assert("0"@ =~= seq!['0']);
    let s2 = sibs.push((sib, online));
    lemma_busy_sibling_row_prefix(c, sibs, s2, isolated, sibs.len() as int);
    let r = busy_sibling_row(c, sibs, isolated, sibs.len() as int);
    assert(s2[sibs.len() as int] == (sib, online));
    assert(sibling_online(online) == (online != Some(seq!['0'])));
    assert(r + Seq::<Seq<char>>::empty() =~= r);
    assert(r.push(busy_sibling_message(c, sib)) =~= r + seq![busy_sibling_message(c, sib)]);
    let one = seq![(sib, None::<Seq<char>>)];
    assert(busy_sibling_row(c, one, isolated, 0) =~= Seq::<Seq<char>>::empty());
    assert(busy_sibling_messages(seq![c], seq![one], isolated, 0) =~= Seq::<Seq<char>>::empty());
    assert(Seq::<Seq<char>>::empty() + seq![busy_sibling_message(c, sib)] =~= seq![busy_sibling_message(c, sib)]);
}

/// The row of the first `k` siblings depends on those siblings only.
proof fn lemma_busy_sibling_row_prefix(
    c: usize,
    a: Seq<(usize, Option<Seq<char>>)>,
    b: Seq<(usize, Option<Seq<char>>)>,
    isolated: Seq<usize>,
    k: int,
)
    requires
        0 <= k <= a.len(),
        k <= b.len(),
        forall|i: int| 0 <= i < k ==> a[i] == b[i],
    ensures
        busy_sibling_row(c, a, isolated, k) == busy_sibling_row(c, b, isolated, k),
    decreases k,
{
    if k > 0 {
        lemma_busy_sibling_row_prefix(c, a, b, isolated, k - 1);
    }
}

/// The views of every core's siblings.
pub open spec fn all_sibling_views(v: Seq<Vec<(usize, Option<String>)>>) -> Seq<
    Seq<(usize, Option<Seq<char>>)>,
> {
    v.map_values(|s: Vec<(usize, Option<String>)>| sibling_views(s@))
}

/// Warns for every SMT sibling of a requested core that is online but not
/// isolated: it steals shared execution units. `isolated` is the trimmed
/// contents of `/sys/devices/system/cpu/isolated`; `siblings[i]` lists the
/// siblings of `cores[i]` (see [`siblings_of`]) with the trimmed contents of
/// each sibling's `online` file (`None` if unreadable).
pub fn cores_smt_siblings_quiet(
    r: &mut PreflightReport,
    cores: &[usize],
    isolated: Option<&str>,
    siblings: &[Vec<(usize, Option<String>)>],
)
    requires
        cores@.len() == siblings@.len(),
    ensures
        final(r).failures@ == old(r).failures@,
        texts(final(r).warnings@) == texts(old(r).warnings@) + busy_sibling_messages(
            cores@,
            all_sibling_views(siblings@),
            listed(opt_view(isolated)),
            cores@.len() as int,
        ),
{
    let iso = read_cpu_list(isolated);
    let ghost sv = all_sibling_views(siblings@);
    let mut i: usize = 0;
    while i < cores.len()
        invariant
            0 <= i <= cores@.len(),
            cores@.len() == siblings@.len(),
            sv == all_sibling_views(siblings@),
            iso@ == listed(opt_view(isolated)),
            r.failures@ == old(r).failures@,
            texts(r.warnings@) == texts(old(r).warnings@) + busy_sibling_messages(
                cores@,
                sv,
                iso@,
                i as int,
            ),
        decreases cores@.len() - i,
    {
        let c = cores[i];
        let sibs = &siblings[i];
        let ghost before = texts(r.warnings@);
        assert(sv[i as int] == sibling_views(sibs@));
        let mut k: usize = 0;
        while k < sibs.len()
            invariant
                0 <= k <= sibs@.len(),
                sv[i as int] == sibling_views(sibs@),
                r.failures@ == old(r).failures@,
                texts(r.warnings@) == before + busy_sibling_row(c, sv[i as int], iso@, k as int),
            decreases sibs@.len() - k,
        {
            let (sib, online) = &sibs[k];
            let is_online = match online {
                Some(o) => !str_eq(o.as_str(), "0"),
                None => true,
            };
            proof {
                reveal_strlit("0");
            }
            if is_online && !list_contains(iso.as_slice(), *sib) {
                let mut m = String::from_str("SMT sibling of ");
                push_decimal(&mut m, c as u64);
                m.append(" is cpu ");
                push_decimal(&mut m, *sib as u64);
                m.append(", online and not isolated will steal execution units");
                proof {
                    lemma_texts_push(r.warnings@, m);
                }
                r.warn(m);
            }
            k = k + 1;
        }
        i = i + 1;
        assert(texts(r.warnings@) =~= texts(old(r).warnings@) + busy_sibling_messages(
            cores@,
            sv,
            iso@,
            i as int,
        ));
    }
}

/// The index of the first line of `ls` at or after `k` that begins with `p`.
pub open spec fn first_line_with_prefix(ls: Seq<Seq<char>>, p: Seq<char>, k: int) -> Option<int>
    decreases ls.len() - k,
{
    if k < 0 || k >= ls.len() {
        None
    } else if has_prefix_at(ls[k], 0, p) {
        Some(k)
    } else {
        first_line_with_prefix(ls, p, k + 1)
    }
}

/// The number of free hugepages that the contents of `/proc/meminfo` give:
/// the first word after `HugePages_Free:` on the first line beginning with
/// it, read as a `u64`.
pub open spec fn free_hugepages(meminfo: Seq<char>) -> Option<u64> {
    let ls = lines(meminfo);
    let tag = "HugePages_Free:"@;
    match first_line_with_prefix(ls, tag, 0) {
        Some(k) => {
            let ws = words(ls[k].skip(tag.len() as int));
            if ws.len() > 0 {
                parse_u64_spec(ws[0])
            } else {
                None
            }
        },
        None => None,
    }
}

/// `/proc/meminfo unreadable, cannot verify hugepage availability`
pub open spec fn meminfo_unreadable_message() -> Seq<char> {
    "/proc/meminfo unreadable, cannot verify hugepage availability"@
}

/// `could not parse HugePages_Free from /proc/meminfo`
pub open spec fn hugepages_unparsable_message() -> Seq<char> {
    "could not parse HugePages_Free from /proc/meminfo"@
}

/// `need >= {min} free 2MiB hugepages, have {free} (try \`just enable-hugepages\`)`
pub open spec fn hugepage_shortage_message(min: u64, free: u64) -> Seq<char> {
    "need >= "@ + decimal(min as nat) + " free 2MiB hugepages, have "@ + decimal(free as nat)
        + " (try `just enable-hugepages`)"@
}

/// The warnings of the hugepage check on `meminfo`.
pub open spec fn hugepage_warnings(meminfo: Option<Seq<char>>) -> Seq<Seq<char>> {
    match meminfo {
        None => seq![meminfo_unreadable_message()],
        Some(s) => match free_hugepages(s) {
            Some(_) => Seq::empty(),
            None => seq![hugepages_unparsable_message()],
        },
    }
}

/// The failures of the hugepage check for `min` pages on `meminfo`.
pub open spec fn hugepage_failures(min: u64, meminfo: Option<Seq<char>>) -> Seq<Seq<char>> {
    match meminfo {
        Some(s) => match free_hugepages(s) {
            Some(n) => if n >= min {
                Seq::empty()
            } else {
                seq![hugepage_shortage_message(min, n)]
            },
            None => Seq::empty(),
        },
        None => Seq::empty(),
    }
}

/// The free hugepage count in the contents of `/proc/meminfo`.
fn read_free_hugepages(meminfo: &str) -> (r: Option<u64>)
    ensures
        r == free_hugepages(meminfo@),
{
    let chars = chars_of(meminfo);
    let tag = chars_of("HugePages_Free:");
    let ls = line_ranges(chars.as_slice());
    let ghost lv = lines(chars@);
    let mut k: usize = 0;
    while k < ls.len()
        invariant
            ranges_spell(chars@, ls@, lv),
            lv == lines(chars@),
            chars@ == meminfo@,
            tag@ == "HugePages_Free:"@,
            k <= ls@.len(),
            first_line_with_prefix(lv, tag@, 0) == first_line_with_prefix(lv, tag@, k as int),
        decreases ls@.len() - k,
    {
        let (a, b) = ls[k];
        let line = vstd::slice::slice_subrange(chars.as_slice(), a, b);
        assert(line@ == lv[k as int]);
        if starts_with_at(line, 0, tag.as_slice()) {
            let rest = vstd::slice::slice_subrange(line, tag.len(), line.len());
            assert(rest@ =~= lv[k as int].skip(tag@.len() as int));
            let ws = word_ranges(rest);
            if ws.len() == 0 {
                return None;
            }
            let (wa, wb) = ws[0];
            return parse_u64(rest, wa, wb);
        }
        k = k + 1;
    }
    None
}

/// Checks that at least `min` 2 MiB hugepages are free, from the contents of
/// `/proc/meminfo` (`None` if unreadable): fails when fewer are, warns when
/// the count cannot be read. Benches that allocate up front need the kernel
/// pool populated; silently falling back to base pages would defeat the
/// comparison.
pub fn hugepages_at_least(r: &mut PreflightReport, min: u64, meminfo: Option<&str>)
    ensures
        texts(final(r).warnings@) == texts(old(r).warnings@) + hugepage_warnings(opt_view(meminfo)),
        texts(final(r).failures@) == texts(old(r).failures@) + hugepage_failures(
            min,
            opt_view(meminfo),
        ),
{
    let ghost w0 = texts(r.warnings@);
    let ghost f0 = texts(r.failures@);
    match meminfo {
        None => {
            let m = String::from_str("/proc/meminfo unreadable, cannot verify hugepage availability");
            proof {
                lemma_texts_push(r.warnings@, m);
            }
            r.warn(m);
        },
        Some(s) => match read_free_hugepages(s) {
            Some(n) => {
                if n < min {
                    let mut m = String::from_str("need >= ");
                    push_decimal(&mut m, min);
                    m.append(" free 2MiB hugepages, have ");
                    push_decimal(&mut m, n);
                    m.append(" (try `just enable-hugepages`)");
                    proof {
                        lemma_texts_push(r.failures@, m);
                    }
                    r.fail(m);
                }
            },
            None => {
                let m = String::from_str("could not parse HugePages_Free from /proc/meminfo");
                proof {
                    lemma_texts_push(r.warnings@, m);
                }
                r.warn(m);
            },
        },
    }
    assert(texts(r.warnings@) =~= w0 + hugepage_warnings(opt_view(meminfo)));
    assert(texts(r.failures@) =~= f0 + hugepage_failures(min, opt_view(meminfo)));
}

/// `CPU missing \`{flag}\`; TSC unsuitable`
pub open spec fn missing_flag_message(flag: Seq<char>) -> Seq<char> {
    "CPU missing `"@ + flag + "`; TSC unsuitable"@
}

/// `/proc/cpuinfo unreadable, cannot verify TSC quality`
pub open spec fn cpuinfo_unreadable_message() -> Seq<char> {
    "/proc/cpuinfo unreadable, cannot verify TSC quality"@
}

/// The failure for `flag` when `cpuinfo` does not mention it.
pub open spec fn flag_failures(cpuinfo: Seq<char>, flag: Seq<char>) -> Seq<Seq<char>> {
    if contains_text(cpuinfo, flag) {
        Seq::empty()
    } else {
        seq![missing_flag_message(flag)]
    }
}

/// The failures of the TSC check on `cpuinfo`: one per missing flag, in the
/// order `constant_tsc`, `nonstop_tsc`.
pub open spec fn tsc_failures(cpuinfo: Option<Seq<char>>) -> Seq<Seq<char>> {
    match cpuinfo {
        Some(s) => flag_failures(s, "constant_tsc"@) + flag_failures(s, "nonstop_tsc"@),
        None => Seq::empty(),
    }
}

/// The warnings of the TSC check on `cpuinfo`.
pub open spec fn tsc_warnings(cpuinfo: Option<Seq<char>>) -> Seq<Seq<char>> {
    match cpuinfo {
        Some(_) => Seq::empty(),
        None => seq![cpuinfo_unreadable_message()],
    }
}

/// Fails for `flag` when `cpuinfo` does not mention it.
fn require_flag(r: &mut PreflightReport, cpuinfo: &[char], flag: &str)
    ensures
        final(r).warnings@ == old(r).warnings@,
        texts(final(r).failures@) == texts(old(r).failures@) + flag_failures(cpuinfo@, flag@),
{
    let f = chars_of(flag);
    if !contains_chars(cpuinfo, f.as_slice()) {
        let mut m = String::from_str("CPU missing `");
        m.append(flag);
        m.append("`; TSC unsuitable");
        proof {
            lemma_texts_push(r.failures@, m);
        }
        r.fail(m);
    }
    assert(texts(r.failures@) =~= texts(old(r).failures@) + flag_failures(cpuinfo@, flag@));
}

/// Fails when the cpu flags in the contents of `/proc/cpuinfo` (`None` if
/// unreadable) lack `constant_tsc` or `nonstop_tsc`: without both the TSC
/// ticks at a varying rate or pauses in deep C-states, and TSC-based latency
/// figures mean nothing.
pub fn tsc_invariant_and_nonstop(r: &mut PreflightReport, cpuinfo: Option<&str>)
    ensures
        texts(final(r).warnings@) == texts(old(r).warnings@) + tsc_warnings(opt_view(cpuinfo)),
        texts(final(r).failures@) == texts(old(r).failures@) + tsc_failures(opt_view(cpuinfo)),
{
    let ghost w0 = texts(r.warnings@);
    let ghost f0 = texts(r.failures@);
    match cpuinfo {
        None => {
            let m = String::from_str("/proc/cpuinfo unreadable, cannot verify TSC quality");
            proof {
                lemma_texts_push(r.warnings@, m);
            }
            r.warn(m);
        },
        Some(s) => {
            let chars = chars_of(s);
            require_flag(r, chars.as_slice(), "constant_tsc");
            require_flag(r, chars.as_slice(), "nonstop_tsc");
        },
    }
    assert(texts(r.warnings@) =~= w0 + tsc_warnings(opt_view(cpuinfo)));
    assert(texts(r.failures@) =~= f0 + tsc_failures(opt_view(cpuinfo)));
}

} // verus!
