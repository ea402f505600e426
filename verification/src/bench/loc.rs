//! Per-cpu local timer interrupt counters, as `/proc/interrupts` lists them
//! on its `LOC:` row. With `nohz_full` configured correctly these stay near
//! zero during a run, so the difference before and after is a quick health
//! check.
//!
//! The columns of `/proc/interrupts` are positional and only cover online
//! cpus, so the header row (`CPU0 CPU1 ...`) maps cpu ids to columns.
use vstd::prelude::*;

use crate::text::{
    chars_of, decimal, first_non_space, has_prefix_at, line_ranges, lines, parse_u64, parse_u64_spec,
    parse_usize, parse_usize_spec, ranges_spell, skip_spaces, starts_with_at, word_ranges, words,
};

verus! {

/// `CPU`, the prefix of the header words.
pub open spec fn cpu_tag() -> Seq<char> {
    seq!['C', 'P', 'U']
}

/// `LOC:`, the tag of the local timer interrupt row.
pub open spec fn loc_tag() -> Seq<char> {
    seq!['L', 'O', 'C', ':']
}

/// The cpu id a header word names: `CPU` followed by a decimal number.
pub open spec fn cpu_column(t: Seq<char>) -> Seq<usize> {
    if has_prefix_at(t, 0, cpu_tag()) {
        match parse_usize_spec(t.skip(3)) {
            Some(n) => seq![n],
            None => Seq::empty(),
        }
    } else {
        Seq::empty()
    }
}

/// The cpu ids that the header words `ts` name, in column order; words that
/// name none are passed over.
pub open spec fn cpu_columns(ts: Seq<Seq<char>>) -> Seq<usize>
    decreases ts.len(),
{
    if ts.len() == 0 {
        Seq::empty()
    } else {
        cpu_columns(ts.drop_last()) + cpu_column(ts.last())
    }
}

/// The header word `CPU<n>` for cpu `n`.
pub open spec fn cpu_word(n: nat) -> Seq<char> {
    seq!['C', 'P', 'U'] + decimal(n)
}

/// Header law: the word `CPU<n>` names cpu `n`, read from all the digits of
/// `n`; so a header listing `CPU0 .. CPU(k-1)` in order gives cpu `i` the
/// column `i`.
pub proof fn lemma_cpu_columns_in_order(k: nat)
    requires
        k <= usize::MAX as nat + 1,
    ensures
        forall|n: usize| #[trigger] cpu_column(cpu_word(n as nat)) == seq![n],
        cpu_columns(Seq::new(k, |i: int| cpu_word(i as nat))) == Seq::new(k, |i: int| i as usize),
    decreases k,
{
    assert forall|n: usize| #[trigger] cpu_column(cpu_word(n as nat)) == seq![n] by {
        let t = cpu_word(n as nat);
        assert(t.subrange(0, 3) =~= cpu_tag());
        assert(t.skip(3) =~= decimal(n as nat));
        crate::text::lemma_parse_decimal(n);
    }
    let ws = Seq::new(k, |i: int| cpu_word(i as nat));
    if k > 0 {
        lemma_cpu_columns_in_order((k - 1) as nat);
        assert(ws.drop_last() =~= Seq::new((k - 1) as nat, |i: int| cpu_word(i as nat)));
        let last = (k - 1) as usize;
        assert(ws.last() == cpu_word(last as nat));
        assert(cpu_columns(ws) =~= Seq::new(k, |i: int| i as usize));
    } else {
        assert(cpu_columns(ws) =~= Seq::new(k, |i: int| i as usize));
    }
}

/// The counters among the words `ts`: those that are decimal `u64` values.
pub open spec fn counter_values(ts: Seq<Seq<char>>) -> Seq<u64>
    decreases ts.len(),
{
    if ts.len() == 0 {
        Seq::empty()
    } else {
        counter_values(ts.drop_last()) + match parse_u64_spec(ts.last()) {
            Some(v) => seq![v],
            None => Seq::empty(),
        }
    }
}

/// Where a `LOC:` tag begins in `l`: after its leading white space.
pub open spec fn tag_start(l: Seq<char>) -> int {
    skip_spaces(l, 0)
}

/// `l` is the `LOC:` row: its first non-blank text is `LOC:`.
pub open spec fn is_loc_line(l: Seq<char>) -> bool {
    has_prefix_at(l, tag_start(l), loc_tag())
}

/// The index in `l` after every `LOC:` repeated from `i` on, as
/// `trim_start_matches` strips them.
pub open spec fn after_tags(l: Seq<char>, i: int) -> int
    decreases l.len() - i,
{
    if 0 <= i && has_prefix_at(l, i, loc_tag()) {
        after_tags(l, i + 4)
    } else {
        i
    }
}

/// The counters on the `LOC:` row `l`.
pub open spec fn row_counters(l: Seq<char>) -> Seq<u64> {
    counter_values(words(l.skip(after_tags(l, tag_start(l)))))
}

/// The index of the first line of `ls` at or after `k` that is the `LOC:` row.
pub open spec fn loc_row_from(ls: Seq<Seq<char>>, k: int) -> Option<int>
    decreases ls.len() - k,
{
    if k < 0 || k >= ls.len() {
        None
    } else if is_loc_line(ls[k]) {
        Some(k)
    } else {
        loc_row_from(ls, k + 1)
    }
}

/// The index of the first `x` in `s` at or after `k`.
pub open spec fn position_from(s: Seq<usize>, x: usize, k: int) -> Option<int>
    decreases s.len() - k,
{
    if k < 0 || k >= s.len() {
        None
    } else if s[k] == x {
        Some(k)
    } else {
        position_from(s, x, k + 1)
    }
}

/// The counter of `cpu`: the one in the first column that the header gives
/// to `cpu`, if the row has that many counters.
pub open spec fn counter_of(columns: Seq<usize>, counters: Seq<u64>, cpu: usize) -> Option<u64> {
    match position_from(columns, cpu, 0) {
        Some(c) => if c < counters.len() {
            Some(counters[c])
        } else {
            None
        },
        None => None,
    }
}

/// No counter for any of `n` cpus.
pub open spec fn no_counters(n: nat) -> Seq<Option<u64>> {
    Seq::new(n, |i: int| None::<u64>)
}

/// The local timer interrupt counters of `cpus` according to the contents of
/// `/proc/interrupts` (`None` when unreadable): `None` for a cpu the header
/// does not list or the `LOC:` row has no counter for, and for every cpu when
/// the file is empty or has no `LOC:` row after the header.
pub open spec fn loc_counters(contents: Option<Seq<char>>, cpus: Seq<usize>) -> Seq<Option<u64>> {
    match contents {
        None => no_counters(cpus.len()),
        Some(s) => {
            let ls = lines(s);
            if ls.len() == 0 {
                no_counters(cpus.len())
            } else {
                match loc_row_from(ls, 1) {
                    None => no_counters(cpus.len()),
                    Some(k) => {
                        let columns = cpu_columns(words(ls[0]));
                        let counters = row_counters(ls[k]);
                        Seq::new(cpus.len(), |i: int| counter_of(columns, counters, cpus[i]))
                    },
                }
            }
        },
    }
}

/// `None` for each of `n` cpus.
fn none_for_each(n: usize) -> (r: Vec<Option<u64>>)
    ensures
        r@ == no_counters(n as nat),
{
    let mut out: Vec<Option<u64>> = Vec::new();
    let mut i: usize = 0;
    while i < n
        invariant
            i <= n,
            out@ == no_counters(i as nat),
        decreases n - i,
    {
        out.push(None);
        i = i + 1;
        assert(out@ =~= no_counters(i as nat));
    }
    out
}

/// The cpu ids named by the words of `line`, in column order.
fn header_columns(line: &[char]) -> (r: Vec<usize>)
    ensures
        r@ == cpu_columns(words(line@)),
{
    let cpu = vec!['C', 'P', 'U'];
    let ranges = word_ranges(line);
    let ghost ws = words(line@);
    let mut out: Vec<usize> = Vec::new();
    let mut k: usize = 0;
    while k < ranges.len()
        invariant
            cpu@ == cpu_tag(),
            ranges_spell(line@, ranges@, ws),
            ws == words(line@),
            k <= ranges@.len(),
            out@ == cpu_columns(ws.take(k as int)),
        decreases ranges@.len() - k,
    {
        let (a, b) = ranges[k];
        let ghost t = ws[k as int];
        assert(ws.take(k + 1).drop_last() =~= ws.take(k as int));
        assert(ws.take(k + 1).last() == t);
        assert(t == line@.subrange(a as int, b as int));
        let word = vstd::slice::slice_subrange(line, a, b);
        if starts_with_at(word, 0, cpu.as_slice()) {
            assert(t.skip(3) =~= word@.subrange(3, word@.len() as int));
            match parse_usize(word, 3, word.len()) {
                Some(n) => out.push(n),
                None => {},
            }
        }
        k = k + 1;
    }
    assert(ws.take(k as int) =~= ws);
    out
}

/// The counters on the words of `text`, in order.
fn counters_in(text: &[char]) -> (r: Vec<u64>)
    ensures
        r@ == counter_values(words(text@)),
{
    let ranges = word_ranges(text);
    let ghost ws = words(text@);
    let mut out: Vec<u64> = Vec::new();
    let mut k: usize = 0;
    while k < ranges.len()
        invariant
            ranges_spell(text@, ranges@, ws),
            ws == words(text@),
            k <= ranges@.len(),
            out@ == counter_values(ws.take(k as int)),
        decreases ranges@.len() - k,
    {
        let (a, b) = ranges[k];
        assert(ws.take(k + 1).drop_last() =~= ws.take(k as int));
        assert(ws.take(k + 1).last() == text@.subrange(a as int, b as int));
        match parse_u64(text, a, b) {
            Some(v) => out.push(v),
            None => {},
        }
        k = k + 1;
    }
    assert(ws.take(k as int) =~= ws);
    out
}

/// The index in `l` after every `LOC:` repeated from `i` on.
fn skip_tags(l: &[char], i: usize, tag: &[char]) -> (r: usize)
    requires
        tag@ == loc_tag(),
        i <= l@.len(),
    ensures
        r == after_tags(l@, i as int),
        i <= r <= l@.len(),
{
    let n = l.len();
    let mut j = i;
    while starts_with_at(l, j, tag)
        invariant
            n == l@.len(),
            tag@ == loc_tag(),
            i <= j <= l@.len(),
            after_tags(l@, i as int) == after_tags(l@, j as int),
        decreases l@.len() - j,
    {
        j = j + 4;
    }
    j
}

/// The first `x` in `s`.
fn position(s: &[usize], x: usize) -> (r: Option<usize>)
    ensures
        match r {
            Some(c) => position_from(s@, x, 0) == Some(c as int) && c < s@.len(),
            None => position_from(s@, x, 0) is None,
        },
{
    let n = s.len();
    let mut k: usize = 0;
    while k < n
        invariant
            n == s@.len(),
            k <= n,
            position_from(s@, x, 0) == position_from(s@, x, k as int),
        decreases s@.len() - k,
    {
        if s[k] == x {
            return Some(k);
        }
        k = k + 1;
    }
    None
}

/// Reads the local timer interrupt counters of `cpus` from the contents of
/// `/proc/interrupts` (`None` when the file could not be read): one entry
/// per cpu, `None` where no counter can be found.
pub fn read(contents: Option<&str>, cpus: &[usize]) -> (r: Vec<Option<u64>>)
    ensures
        r@ == loc_counters(
            match contents {
                Some(s) => Some(s@),
                None => None,
            },
            cpus@,
        ),
{
    let s = match contents {
        Some(s) => s,
        None => return none_for_each(cpus.len()),
    };
    let chars = chars_of(s);
    let ls = line_ranges(chars.as_slice());
    let ghost lv = lines(chars@);
    if ls.len() == 0 {
        return none_for_each(cpus.len());
    }
    let tag = vec!['L', 'O', 'C', ':'];
    let mut k: usize = 1;
    while k < ls.len()
        invariant
            ranges_spell(chars@, ls@, lv),
            lv == lines(chars@),
            chars@ == s@,
            contents == Some(s),
            1 <= k <= ls@.len(),
            loc_row_from(lv, 1) == loc_row_from(lv, k as int),
            tag@ == loc_tag(),
        decreases ls@.len() - k,
    {
        let (a, b) = ls[k];
        let line = vstd::slice::slice_subrange(chars.as_slice(), a, b);
        assert(line@ == lv[k as int]);
        let t = first_non_space(line, 0);
        if starts_with_at(line, t, tag.as_slice()) {
            let (ha, hb) = ls[0];
            let header = vstd::slice::slice_subrange(chars.as_slice(), ha, hb);
            assert(header@ == lv[0]);
            let columns = header_columns(header);
            let start = skip_tags(line, t, tag.as_slice());
            let rest = vstd::slice::slice_subrange(line, start, line.len());
            assert(rest@ =~= line@.skip(start as int));
            let counters = counters_in(rest);
            let mut out: Vec<Option<u64>> = Vec::new();
            let mut i: usize = 0;
            while i < cpus.len()
                invariant
                    i <= cpus@.len(),
                    out@.len() == i,
                    forall|j: int|
                        0 <= j < i ==> out@[j] == counter_of(columns@, counters@, cpus@[j]),
                decreases cpus@.len() - i,
            {
                let found = match position(columns.as_slice(), cpus[i]) {
                    Some(c) => if c < counters.len() {
                        Some(counters[c])
                    } else {
                        None
                    },
                    None => None,
                };
                assert(found == counter_of(columns@, counters@, cpus@[i as int]));
                out.push(found);
                i = i + 1;
            }
            let ghost expect = Seq::new(
                cpus@.len(),
                |j: int| counter_of(columns@, counters@, cpus@[j]),
            );
            assert(out@ =~= expect);
            assert(loc_row_from(lv, 1) == Some(k as int));
            assert(tag_start(lv[k as int]) == t);
            return out;
        }
        k = k + 1;
    }
    none_for_each(cpus.len())
}

} // verus!
