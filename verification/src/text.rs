//! Text helpers for the benchmark tooling: decimal rendering of counters,
//! `Debug`-style rendering of lists, and parsing of the decimal numbers and
//! cpu lists found in kernel files.
use vstd::prelude::*;
use vstd::std_specs::iter::IteratorSpec;

verus! {

/// The ASCII digit for `d` (`0 <= d < 10`).
pub open spec fn digit_char(d: int) -> char {
    (d + 48) as char
}

/// The decimal rendering of `n`, as `{}` formats an unsigned integer.
pub open spec fn decimal(n: nat) -> Seq<char>
    decreases n,
{
    if n < 10 {
        seq![digit_char(n as int)]
    } else {
        decimal(n / 10).push(digit_char((n % 10) as int))
    }
}

/// A string slice holding the single digit `d`.
pub fn digit_str(d: usize) -> (r: &'static str)
    requires
        d < 10,
    ensures
        r@ == seq![digit_char(d as int)],
{
    proof {
        reveal_strlit("0");
        reveal_strlit("1");
        reveal_strlit("2");
        reveal_strlit("3");
        reveal_strlit("4");
        reveal_strlit("5");
        reveal_strlit("6");
        reveal_strlit("7");
        reveal_strlit("8");
        reveal_strlit("9");
    }
    match d {
        0 => "0",
        1 => "1",
        2 => "2",
        3 => "3",
        4 => "4",
        5 => "5",
        6 => "6",
        7 => "7",
        8 => "8",
        _ => "9",
    }
}

/// Appends the decimal rendering of `n` to `s`.
pub fn push_decimal(s: &mut String, n: u64)
    ensures
        final(s)@ == old(s)@ + decimal(n as nat),
    decreases n,
{
    if n >= 10 {
        push_decimal(s, n / 10);
    }
    s.append(digit_str((n % 10) as usize));
}

/// The characters of `s`, in order.
pub fn chars_of(s: &str) -> (r: Vec<char>)
    ensures
        r@ == s@,
{
    broadcast use vstd::string::group_string_axioms;

    let mut out: Vec<char> = Vec::new();
    let mut it = s.chars();
    loop
        invariant
            out@ + it.remaining() == s@,
            it.obeys_prophetic_iter_laws(),
            it.decrease() is Some,
        ensures
            out@ == s@,
        decreases it.decrease()->0,
    {
        match it.next() {
            Some(c) => out.push(c),
            None => {
                assert(it.remaining().len() == 0);
                break;
            },
        }
    }
    out
}

/// `c` is an ASCII decimal digit.
pub open spec fn is_digit(c: char) -> bool {
    48 <= c as int <= 57
}

/// The value of the digit `c`.
pub open spec fn digit_value(c: char) -> int {
    c as int - 48
}

/// Every character of `d` is a decimal digit.
pub open spec fn all_digits(d: Seq<char>) -> bool {
    forall|i: int| 0 <= i < d.len() ==> is_digit(#[trigger] d[i])
}

/// The number that the digit string `d` denotes.
pub open spec fn digits_value(d: Seq<char>) -> int
    decreases d.len(),
{
    if d.len() == 0 {
        0
    } else {
        digits_value(d.drop_last()) * 10 + digit_value(d.last())
    }
}

/// What `str::parse` yields for `p` when reading an unsigned integer type
/// whose largest value is `max`: an optional leading `+`, then one or more
/// decimal digits whose value is at most `max`.
pub open spec fn parse_bounded_spec(p: Seq<char>, max: int) -> Option<int> {
    let d = if p.len() > 0 && p[0] == '+' {
        p.skip(1)
    } else {
        p
    };
    if d.len() > 0 && all_digits(d) && digits_value(d) <= max {
        Some(digits_value(d))
    } else {
        None
    }
}

/// What `str::parse::<usize>` yields for `p`.
pub open spec fn parse_usize_spec(p: Seq<char>) -> Option<usize> {
    match parse_bounded_spec(p, usize::MAX as int) {
        Some(v) => Some(v as usize),
        None => None,
    }
}

/// What `str::parse::<u64>` yields for `p`.
pub open spec fn parse_u64_spec(p: Seq<char>) -> Option<u64> {
    match parse_bounded_spec(p, u64::MAX as int) {
        Some(v) => Some(v as u64),
        None => None,
    }
}

/// A longer digit string denotes at least as large a number as its prefix.
pub proof fn lemma_digits_value_monotone(d: Seq<char>, k: int)
    requires
        all_digits(d),
        0 <= k <= d.len(),
    ensures
        0 <= digits_value(d.take(k)) <= digits_value(d),
    decreases d.len(),
{
    if d.len() == 0 {
        assert(d.take(k) =~= d);
    } else if k == d.len() {
        assert(d.take(k) =~= d);
        lemma_digits_value_nonneg(d);
    } else {
        assert(all_digits(d.drop_last()));
        lemma_digits_value_monotone(d.drop_last(), k);
        assert(d.drop_last().take(k) =~= d.take(k));
        assert(is_digit(d[d.len() - 1]));
        lemma_digits_value_nonneg(d.drop_last());
    }
}

/// Digit strings denote non-negative numbers.
pub proof fn lemma_digits_value_nonneg(d: Seq<char>)
    requires
        all_digits(d),
    ensures
        digits_value(d) >= 0,
    decreases d.len(),
{
    if d.len() > 0 {
        assert(all_digits(d.drop_last()));
        lemma_digits_value_nonneg(d.drop_last());
        assert(is_digit(d[d.len() - 1]));
    }
}

/// Parses `chars[from..to]` as `str::parse` reads an unsigned integer
/// type whose largest value is `max`.
pub fn parse_bounded(chars: &[char], from: usize, to: usize, max: u64) -> (r: Option<u64>)
    requires
        from <= to <= chars@.len(),
    ensures
        match parse_bounded_spec(chars@.subrange(from as int, to as int), max as int) {
            Some(v) => r == Some(v as u64),
            None => r is None,
        },
{
    let ghost p = chars@.subrange(from as int, to as int);
    let mut start = from;
    if start < to && chars[start] == '+' {
        start = start + 1;
    }
    let ghost d = chars@.subrange(start as int, to as int);
    assert(d =~= (if p.len() > 0 && p[0] == '+' { p.skip(1) } else { p }));
    if start == to {
        return None;
    }
    let mut v: u64 = 0;
    let mut i = start;
    while i < to
        invariant
            from <= start < to <= chars@.len(),
            start <= i <= to,
            d == chars@.subrange(start as int, to as int),
            p == chars@.subrange(from as int, to as int),
            d.len() > 0,
            parse_bounded_spec(p, max as int) == (if d.len() > 0 && all_digits(d) && digits_value(d)
                <= max {
                Some(digits_value(d))
            } else {
                None::<int>
            }),
            all_digits(d.take(i - start)),
            v == digits_value(d.take(i - start)),
            v <= max,
        decreases to - i,
    {
        let c = chars[i];
        let ghost k = (i - start) as int;
        assert(d.take(k + 1).drop_last() =~= d.take(k));
        assert(d[k] == c);
        if !('0' <= c && c <= '9') {
            assert(!is_digit(d[k]));
            assert(!all_digits(d));
            return None;
        }
        let digit = (c as u32 - 48) as u64;
        assert(digit as int == digit_value(c));
        assert(digits_value(d.take(k + 1)) == digits_value(d.take(k)) * 10 + digit_value(c));
        let next = match v.checked_mul(10) {
            Some(v10) => v10.checked_add(digit),
            None => None,
        };
        match next {
            Some(next) => {
                if next > max {
                    proof {
                        if all_digits(d) {
                            lemma_digits_value_monotone(d, k + 1);
                        }
                    }
                    return None;
                }
                v = next;
            },
            None => {
                proof {
                    if all_digits(d) {
                        lemma_digits_value_monotone(d, k + 1);
                        lemma_digits_value_nonneg(d.take(k));
                    }
                }
                return None;
            },
        }
        i = i + 1;
        assert(all_digits(d.take(i - start)));
    }
    assert(d.take(i - start) =~= d);
    Some(v)
}

/// Parses `chars[from..to]` as `str::parse::<usize>` would.
pub fn parse_usize(chars: &[char], from: usize, to: usize) -> (r: Option<usize>)
    requires
        from <= to <= chars@.len(),
    ensures
        r == parse_usize_spec(chars@.subrange(from as int, to as int)),
{
    let max = usize::MAX as u64;
    assert(max as int == usize::MAX as int) by {
        assert(usize::MAX <= u64::MAX);
    }
    let ghost p = chars@.subrange(from as int, to as int);
    match parse_bounded(chars, from, to, max) {
        Some(v) => {
            proof {
                let w = parse_bounded_spec(p, max as int)->0;
                let d = if p.len() > 0 && p[0] == '+' { p.skip(1) } else { p };
                lemma_digits_value_nonneg(d);
                assert(0 <= w <= max);
                assert(v as int == w);
            }
            Some(v as usize)
        },
        None => None,
    }
}

/// Parses `chars[from..to]` as `str::parse::<u64>` would.
pub fn parse_u64(chars: &[char], from: usize, to: usize) -> (r: Option<u64>)
    requires
        from <= to <= chars@.len(),
    ensures
        r == parse_u64_spec(chars@.subrange(from as int, to as int)),
{
    parse_bounded(chars, from, to, u64::MAX)
}

/// Index of the first `c` in `s`, or -1.
pub open spec fn first_index(s: Seq<char>, c: char) -> int
    decreases s.len(),
{
    if s.len() == 0 {
        -1
    } else if s[0] == c {
        0
    } else {
        let r = first_index(s.skip(1), c);
        if r < 0 {
            -1
        } else {
            r + 1
        }
    }
}

/// `first_index` finds the first occurrence, or reports that there is none.
pub proof fn lemma_first_index(s: Seq<char>, c: char)
    ensures
        -1 <= first_index(s, c) < s.len(),
        first_index(s, c) >= 0 ==> s[first_index(s, c)] == c,
        forall|j: int| 0 <= j < s.len() && (first_index(s, c) < 0 || j < first_index(s, c)) ==> s[j]
            != c,
    decreases s.len(),
{
    if s.len() > 0 && s[0] != c {
        lemma_first_index(s.skip(1), c);
        assert forall|j: int| 0 <= j < s.len() && (first_index(s, c) < 0 || j < first_index(s, c))
            implies s[j] != c by {
            if j > 0 {
                assert(s[j] == s.skip(1)[j - 1]);
            }
        }
    }
}

/// The first occurrence of `c` is at `k` when `k` holds `c` and nothing before it does.
pub proof fn lemma_first_index_at(s: Seq<char>, c: char, k: int)
    requires
        0 <= k <= s.len(),
        forall|j: int| 0 <= j < k ==> s[j] != c,
        k < s.len() ==> s[k] == c,
    ensures
        first_index(s, c) == (if k < s.len() {
            k
        } else {
            -1
        }),
{
    lemma_first_index(s, c);
}

/// The numbers `a..=b`, empty when `a > b`.
pub open spec fn range_incl(a: usize, b: usize) -> Seq<usize> {
    if a <= b {
        Seq::new((b - a + 1) as nat, |i: int| (a + i) as usize)
    } else {
        Seq::empty()
    }
}

/// The cpus one comma-separated part of a cpu list names: `n`, or `a-b` for
/// `a..=b`; nothing when the part is empty or does not parse.
pub open spec fn cpu_part(p: Seq<char>) -> Seq<usize> {
    let d = first_index(p, '-');
    if p.len() == 0 {
        Seq::empty()
    } else if d >= 0 {
        match (parse_usize_spec(p.take(d)), parse_usize_spec(p.skip(d + 1))) {
            (Some(a), Some(b)) => range_incl(a, b),
            _ => Seq::empty(),
        }
    } else {
        match parse_usize_spec(p) {
            Some(n) => seq![n],
            None => Seq::empty(),
        }
    }
}

/// The cpus a kernel cpu list such as `2-3,5,7-9` names, part by part.
pub open spec fn cpu_list(s: Seq<char>) -> Seq<usize>
    decreases s.len(),
{
    let k = first_index(s, ',');
    if k < 0 {
        cpu_part(s)
    } else {
        proof {
            lemma_first_index(s, ',');
        }
        cpu_part(s.take(k)) + cpu_list(s.skip(k + 1))
    }
}

/// A decimal rendering is a non-empty string of digits that denotes the
/// number rendered.
pub proof fn lemma_decimal_digits(n: nat)
    ensures
        decimal(n).len() > 0,
        all_digits(decimal(n)),
        digits_value(decimal(n)) == n,
    decreases n,
{
    if n >= 10 {
        lemma_decimal_digits(n / 10);
        let d = decimal(n);
        assert(d.drop_last() =~= decimal(n / 10));
        let r = (n % 10) as int;
        assert(digit_value(digit_char(r)) == r);
        assert(d.last() == digit_char(r));
        assert(n == (n / 10) * 10 + r);
        assert(digits_value(d) == digits_value(d.drop_last()) * 10 + digit_value(d.last()));
        assert forall|i: int| 0 <= i < d.len() implies is_digit(#[trigger] d[i]) by {
            if i < d.len() - 1 {
                assert(d[i] == decimal(n / 10)[i]);
            }
        }
    } else {
        assert(decimal(n).drop_last() =~= Seq::<char>::empty());
        assert(digit_value(digit_char(n as int)) == n);
        let d = decimal(n);
        assert(digits_value(Seq::<char>::empty()) == 0);
        assert(digits_value(d) == digits_value(d.drop_last()) * 10 + digit_value(d.last()));
    }
}

/// Reading back: `str::parse::<usize>` of the decimal rendering of `n`
/// is `n`, whatever its number of digits.
pub proof fn lemma_parse_decimal(n: usize)
    ensures
        parse_usize_spec(decimal(n as nat)) == Some(n),
{
    lemma_decimal_digits(n as nat);
    let d = decimal(n as nat);
    assert(is_digit(d[0]));
}

/// A decimal rendering holds neither `-` nor `,`.
proof fn lemma_decimal_no_separators(n: nat, k: int)
    requires
        0 <= k < decimal(n).len(),
    ensures
        decimal(n)[k] != '-',
        decimal(n)[k] != ',',
{
    lemma_decimal_digits(n);
    assert(is_digit(decimal(n)[k]));
}

/// Cpu-list law: a part `a-b`, both sides whole decimal numbers of any
/// length, names exactly the cpus `a, a + 1, ..., b` (none when `a > b`),
/// alone or as a whole list; a part `n` names cpu `n`.
pub proof fn lemma_cpu_part_decimal(a: usize, b: usize)
    ensures
        ({
            let p = decimal(a as nat) + seq!['-'] + decimal(b as nat);
            let expect = if a <= b {
                Seq::new((b - a + 1) as nat, |i: int| (a + i) as usize)
            } else {
                Seq::empty()
            };
            &&& cpu_part(p) == expect
            &&& cpu_list(p) == expect
            &&& cpu_part(decimal(a as nat)) == seq![a]
            &&& cpu_list(decimal(a as nat)) == seq![a]
        }),
{
    let da = decimal(a as nat);
    let db = decimal(b as nat);
    let p = da + seq!['-'] + db;
    lemma_decimal_digits(a as nat);
    lemma_decimal_digits(b as nat);
    let k = da.len() as int;
    assert forall|j: int| 0 <= j < k implies p[j] != '-' by {
        lemma_decimal_no_separators(a as nat, j);
    }
    lemma_first_index_at(p, '-', k);
    assert forall|j: int| 0 <= j < p.len() implies p[j] != ',' by {
        if j < k {
            lemma_decimal_no_separators(a as nat, j);
        } else if j > k {
            assert(p[j] == db[j - k - 1]);
            lemma_decimal_no_separators(b as nat, j - k - 1);
        }
    }
    lemma_first_index_at(p, ',', p.len() as int);
    assert(p.take(k) =~= da);
    assert(p.skip(k + 1) =~= db);
    lemma_parse_decimal(a);
    lemma_parse_decimal(b);
    assert forall|j: int| 0 <= j < da.len() implies da[j] != '-' && da[j] != ',' by {
        lemma_decimal_no_separators(a as nat, j);
    }
    lemma_first_index_at(da, '-', da.len() as int);
    lemma_first_index_at(da, ',', da.len() as int);
}

/// Appends the cpus named by the part `chars[from..to]` to `out`.
fn push_cpu_part(out: &mut Vec<usize>, chars: &[char], from: usize, to: usize)
    requires
        from <= to <= chars@.len(),
    ensures
        final(out)@ == old(out)@ + cpu_part(chars@.subrange(from as int, to as int)),
{
    let ghost p = chars@.subrange(from as int, to as int);
    if from == to {
        assert(final(out)@ =~= old(out)@ + cpu_part(p));
        return;
    }
    let mut dash = from;
    while dash < to && chars[dash] != '-'
        invariant
            from <= dash <= to <= chars@.len(),
            forall|j: int| from <= j < dash ==> chars@[j] != '-',
        decreases to - dash,
    {
        dash = dash + 1;
    }
    proof {
        lemma_first_index_at(p, '-', dash - from);
    }
    if dash < to {
        assert(p.take(dash - from) =~= chars@.subrange(from as int, dash as int));
        assert(p.skip(dash - from + 1) =~= chars@.subrange(dash + 1, to as int));
        let a = parse_usize(chars, from, dash);
        let b = parse_usize(chars, dash + 1, to);
        match (a, b) {
            (Some(a), Some(b)) => {
                if a <= b {
                    let ghost base = out@;
                    let mut x = a;
                    loop
                        invariant_except_break
                            a <= x <= b,
                            out@ == base + Seq::new((x - a) as nat, |i: int| (a + i) as usize),
                        invariant
                            base == old(out)@,
                        ensures
                            out@ == base + range_incl(a, b),
                        decreases b - x,
                    {
                        out.push(x);
                        assert(out@ =~= base + Seq::new((x + 1 - a) as nat, |i: int| (a + i) as usize));
                        if x == b {
                            assert(out@ =~= base + range_incl(a, b));
                            break;
                        }
                        x = x + 1;
                    }
                } else {
                    assert(final(out)@ =~= old(out)@ + cpu_part(p));
                }
            },
            _ => {
                assert(final(out)@ =~= old(out)@ + cpu_part(p));
            },
        }
    } else {
        match parse_usize(chars, from, to) {
            Some(n) => {
                out.push(n);
            },
            None => {
                assert(final(out)@ =~= old(out)@ + cpu_part(p));
            },
        }
    }
}

/// Parses a kernel cpu list such as `2-3,5,7-9` into `[2, 3, 5, 7, 8, 9]`.
/// Parts that are empty or do not parse are skipped.
#[verifier::rlimit(40)]
pub fn parse_cpu_list(s: &str) -> (r: Vec<usize>)
    ensures
        r@ == cpu_list(s@),
{
    let chars = chars_of(s);
    let n = chars.len();
    let mut out: Vec<usize> = Vec::new();
    let mut start: usize = 0;
    let mut i: usize = 0;
    assert(chars@.skip(0) =~= chars@);
    while i < n
        invariant
            start <= i <= n,
            n == chars@.len(),
            chars@ == s@,
            forall|j: int| start <= j < i ==> chars@[j] != ',',
            cpu_list(chars@) == out@ + cpu_list(chars@.skip(start as int)),
        decreases n - i,
    {
        if chars[i] == ',' {
            let ghost t = chars@.skip(start as int);
            proof {
                lemma_first_index_at(t, ',', i - start);
                assert(t.take(i - start) =~= chars@.subrange(start as int, i as int));
                assert(t.skip(i - start + 1) =~= chars@.skip(i + 1));
            }
            push_cpu_part(&mut out, chars.as_slice(), start, i);
            start = i + 1;
        }
        i = i + 1;
    }
    let ghost t = chars@.skip(start as int);
    proof {
        lemma_first_index_at(t, ',', t.len() as int);
        assert(t =~= chars@.subrange(start as int, n as int));
    }
    push_cpu_part(&mut out, chars.as_slice(), start, n);
    out
}

/// The items of `v` in decimal, separated by `", "`.
pub open spec fn joined_decimals(v: Seq<usize>) -> Seq<char>
    decreases v.len(),
{
    if v.len() == 0 {
        Seq::empty()
    } else if v.len() == 1 {
        decimal(v[0] as nat)
    } else {
        joined_decimals(v.drop_last()) + ", "@ + decimal(v.last() as nat)
    }
}

/// `v` as `{:?}` renders a list of unsigned integers: `[2, 3, 5]`.
pub open spec fn debug_list(v: Seq<usize>) -> Seq<char> {
    "["@ + joined_decimals(v) + "]"@
}

/// Appends `v` rendered as `{:?}` renders a list of unsigned integers.
pub fn push_debug_list(s: &mut String, v: &[usize])
    ensures
        final(s)@ == old(s)@ + debug_list(v@),
{
    s.append("[");
    let mut i: usize = 0;
    while i < v.len()
        invariant
            0 <= i <= v@.len(),
            s@ == old(s)@ + "["@ + joined_decimals(v@.take(i as int)),
        decreases v@.len() - i,
    {
        assert(v@.take(i + 1).drop_last() =~= v@.take(i as int));
        if i > 0 {
            s.append(", ");
        }
        push_decimal(s, v[i] as u64);
        i = i + 1;
        assert(s@ =~= old(s)@ + "["@ + joined_decimals(v@.take(i as int)));
    }
    assert(v@.take(i as int) =~= v@);
    s.append("]");
    assert(s@ =~= old(s)@ + debug_list(v@));
}

/// Whether `list` holds `x`.
pub fn list_contains(list: &[usize], x: usize) -> (r: bool)
    ensures
        r == list@.contains(x),
{
    let mut i: usize = 0;
    while i < list.len()
        invariant
            0 <= i <= list@.len(),
            forall|j: int| 0 <= j < i ==> list@[j] != x,
        decreases list@.len() - i,
    {
        if list[i] == x {
            return true;
        }
        i = i + 1;
    }
    false
}

/// Whether the strings `a` and `b` are equal.
pub fn str_eq(a: &str, b: &str) -> (r: bool)
    ensures
        r == (a@ == b@),
{
    let ca = chars_of(a);
    let cb = chars_of(b);
    if ca.len() != cb.len() {
        return false;
    }
    let mut i: usize = 0;
    while i < ca.len()
        invariant
            0 <= i <= ca@.len(),
            ca@.len() == cb@.len(),
            ca@ == a@,
            cb@ == b@,
            forall|j: int| 0 <= j < i ==> ca@[j] == cb@[j],
        decreases ca@.len() - i,
    {
        if ca[i] != cb[i] {
            return false;
        }
        i = i + 1;
    }
    assert(ca@ =~= cb@);
    true
}

/// `c` has the Unicode `White_Space` property, as `char::is_whitespace`
/// reports it.
pub open spec fn is_space(c: char) -> bool {
    let x = c as u32;
    ||| 9 <= x <= 13
    ||| x == 32 || x == 0x85 || x == 0xA0 || x == 0x1680
    ||| 0x2000 <= x <= 0x200A
    ||| x == 0x2028 || x == 0x2029 || x == 0x202F || x == 0x205F || x == 0x3000
}

/// Whether `c` is white space in the sense of [`is_space`].
pub fn is_white_space(c: char) -> (r: bool)
    ensures
        r == is_space(c),
{
    let x = c as u32;
    (9 <= x && x <= 13) || x == 32 || x == 0x85 || x == 0xA0 || x == 0x1680 || (0x2000 <= x && x
        <= 0x200A) || x == 0x2028 || x == 0x2029 || x == 0x202F || x == 0x205F || x == 0x3000
}

/// The white-space separated words of `s[i..]`, in the order that
/// `split_whitespace` yields them, given that the word being read began at
/// `w` (`w == i` when none is).
pub open spec fn words_from(s: Seq<char>, w: int, i: int) -> Seq<Seq<char>>
    decreases s.len() - i,
{
    if i >= s.len() {
        if w < s.len() {
            seq![s.subrange(w, s.len() as int)]
        } else {
            Seq::empty()
        }
    } else if is_space(s[i]) {
        if w < i {
            seq![s.subrange(w, i)] + words_from(s, i + 1, i + 1)
        } else {
            words_from(s, i + 1, i + 1)
        }
    } else {
        words_from(s, w, i + 1)
    }
}

/// The white-space separated words of `s`, as `split_whitespace` yields them.
pub open spec fn words(s: Seq<char>) -> Seq<Seq<char>> {
    words_from(s, 0, 0)
}

/// `r` lists ranges of `s` whose contents, in order, are `parts`.
pub open spec fn ranges_spell(s: Seq<char>, r: Seq<(usize, usize)>, parts: Seq<Seq<char>>) -> bool {
    &&& r.len() == parts.len()
    &&& forall|k: int|
        #![trigger parts[k]]
        #![trigger r[k]]
        0 <= k < r.len() ==> {
            &&& r[k].0 <= r[k].1 <= s.len()
            &&& parts[k] == s.subrange(r[k].0 as int, r[k].1 as int)
        }
}

/// Appending one more range and the part it spells keeps [`ranges_spell`].
proof fn lemma_ranges_spell_push(
    s: Seq<char>,
    r: Seq<(usize, usize)>,
    parts: Seq<Seq<char>>,
    a: usize,
    b: usize,
)
    requires
        ranges_spell(s, r, parts),
        a <= b <= s.len(),
    ensures
        ranges_spell(s, r.push((a, b)), parts.push(s.subrange(a as int, b as int))),
{
    let r2 = r.push((a, b));
    let p2 = parts.push(s.subrange(a as int, b as int));
    assert forall|k: int| 0 <= k < r2.len() implies {
        &&& r2[k].0 <= r2[k].1 <= s.len()
        &&& p2[k] == s.subrange(r2[k].0 as int, r2[k].1 as int)
    } by {
        if k < r.len() {
            assert(p2[k] == parts[k]);
            assert(r2[k] == r[k]);
        } else {
            assert(r2[k] == (a, b));
            assert(p2[k] == s.subrange(a as int, b as int));
        }
    }
}

/// The ranges of the white-space separated words of `s`, in order.
pub fn word_ranges(s: &[char]) -> (r: Vec<(usize, usize)>)
    ensures
        ranges_spell(s@, r@, words(s@)),
{
    let mut out: Vec<(usize, usize)> = Vec::new();
    let ghost mut done: Seq<Seq<char>> = Seq::empty();
    let mut w: usize = 0;
    let mut i: usize = 0;
    while i < s.len()
        invariant
            w <= i <= s@.len(),
            words(s@) == done + words_from(s@, w as int, i as int),
            ranges_spell(s@, out@, done),
        decreases s@.len() - i,
    {
        if is_white_space(s[i]) {
            if w < i {
                let ghost word = s@.subrange(w as int, i as int);
                proof {
                    lemma_ranges_spell_push(s@, out@, done, w, i);
                    assert(done + words_from(s@, w as int, i as int) =~= done.push(word)
                        + words_from(s@, i + 1, i + 1));
                    done = done.push(word);
                }
                out.push((w, i));
            } else {
                assert(words_from(s@, w as int, i as int) == words_from(s@, i + 1, i + 1));
            }
            i = i + 1;
            w = i;
        } else {
            assert(words_from(s@, w as int, i as int) == words_from(s@, w as int, i + 1));
            i = i + 1;
        }
    }
    if w < s.len() {
        let ghost word = s@.subrange(w as int, s@.len() as int);
        proof {
            lemma_ranges_spell_push(s@, out@, done, w, s@.len() as usize);
            assert(done + words_from(s@, w as int, i as int) =~= done.push(word));
            done = done.push(word);
        }
        out.push((w, s.len()));
    } else {
        assert(done + words_from(s@, w as int, i as int) =~= done);
    }
    out
}

/// `l` without one trailing carriage return.
pub open spec fn strip_cr(l: Seq<char>) -> Seq<char> {
    if l.len() > 0 && l.last() == '\r' {
        l.drop_last()
    } else {
        l
    }
}

/// The lines of `s[i..]`, as `str::lines` yields them, given that the line
/// being read began at `b`: lines end at `\n`, a `\r` right before it is
/// dropped, and text after the last `\n` forms a last line if non-empty.
pub open spec fn lines_from(s: Seq<char>, b: int, i: int) -> Seq<Seq<char>>
    decreases s.len() - i,
{
    if i >= s.len() {
        if b < s.len() {
            seq![s.subrange(b, s.len() as int)]
        } else {
            Seq::empty()
        }
    } else if s[i] == '\n' {
        seq![strip_cr(s.subrange(b, i))] + lines_from(s, i + 1, i + 1)
    } else {
        lines_from(s, b, i + 1)
    }
}

/// The lines of `s`, as `str::lines` yields them.
pub open spec fn lines(s: Seq<char>) -> Seq<Seq<char>> {
    lines_from(s, 0, 0)
}

/// The ranges of the lines of `s`, in order.
pub fn line_ranges(s: &[char]) -> (r: Vec<(usize, usize)>)
    ensures
        ranges_spell(s@, r@, lines(s@)),
{
    let mut out: Vec<(usize, usize)> = Vec::new();
    let ghost mut done: Seq<Seq<char>> = Seq::empty();
    let mut b: usize = 0;
    let mut i: usize = 0;
    while i < s.len()
        invariant
            b <= i <= s@.len(),
            lines(s@) == done + lines_from(s@, b as int, i as int),
            ranges_spell(s@, out@, done),
        decreases s@.len() - i,
    {
        if s[i] == '\n' {
            let end = if i > b && s[i - 1] == '\r' {
                i - 1
            } else {
                i
            };
            let ghost line = s@.subrange(b as int, end as int);
            proof {
                assert(line =~= strip_cr(s@.subrange(b as int, i as int)));
                lemma_ranges_spell_push(s@, out@, done, b, end);
                assert(done + lines_from(s@, b as int, i as int) =~= done.push(line) + lines_from(
                    s@,
                    i + 1,
                    i + 1,
                ));
                done = done.push(line);
            }
            out.push((b, end));
            i = i + 1;
            b = i;
        } else {
            assert(lines_from(s@, b as int, i as int) == lines_from(s@, b as int, i + 1));
            i = i + 1;
        }
    }
    if b < s.len() {
        let ghost line = s@.subrange(b as int, s@.len() as int);
        proof {
            lemma_ranges_spell_push(s@, out@, done, b, s@.len() as usize);
            assert(done + lines_from(s@, b as int, i as int) =~= done.push(line));
            done = done.push(line);
        }
        out.push((b, s.len()));
    } else {
        assert(done + lines_from(s@, b as int, i as int) =~= done);
    }
    out
}

/// The index of the first character of `s` at or after `i` that is not
/// white space (`s.len()` if there is none).
pub open spec fn skip_spaces(s: Seq<char>, i: int) -> int
    decreases s.len() - i,
{
    if 0 <= i < s.len() && is_space(s[i]) {
        skip_spaces(s, i + 1)
    } else {
        i
    }
}

/// `s` with its leading white space removed, as `trim_start` returns it.
pub open spec fn trim_start(s: Seq<char>) -> Seq<char> {
    s.skip(skip_spaces(s, 0))
}

/// The index of the first character of `s` at or after `from` that is not
/// white space.
pub fn first_non_space(s: &[char], from: usize) -> (r: usize)
    requires
        from <= s@.len(),
    ensures
        r == skip_spaces(s@, from as int),
        from <= r <= s@.len(),
{
    let mut i = from;
    while i < s.len() && is_white_space(s[i])
        invariant
            from <= i <= s@.len(),
            skip_spaces(s@, from as int) == skip_spaces(s@, i as int),
        decreases s@.len() - i,
    {
        i = i + 1;
    }
    i
}

/// `s` begins, at index `i`, with the characters of `p`.
pub open spec fn has_prefix_at(s: Seq<char>, i: int, p: Seq<char>) -> bool {
    0 <= i && i + p.len() <= s.len() && s.subrange(i, i + p.len()) == p
}

/// Whether `s` begins, at index `i`, with the characters of `p`.
pub fn starts_with_at(s: &[char], i: usize, p: &[char]) -> (r: bool)
    ensures
        r == has_prefix_at(s@, i as int, p@),
{
    if i > s.len() || p.len() > s.len() - i {
        return false;
    }
    let n = s.len();
    let mut k: usize = 0;
    while k < p.len()
        invariant
            n == s@.len(),
            i + p@.len() <= s@.len(),
            0 <= k <= p@.len(),
            forall|j: int| 0 <= j < k ==> s@[i + j] == p@[j],
        decreases p@.len() - k,
    {
        if s[i + k] != p[k] {
            assert(s@.subrange(i as int, i + p@.len())[k as int] != p@[k as int]);
            return false;
        }
        k = k + 1;
    }
    assert(s@.subrange(i as int, i + p@.len()) =~= p@);
    true
}

/// `p` occurs somewhere in `s`.
pub open spec fn contains_text(s: Seq<char>, p: Seq<char>) -> bool {
    exists|i: int| has_prefix_at(s, i, p)
}

/// Whether `p` occurs somewhere in `s`, as `str::contains` with a string
/// pattern reports it.
pub fn contains_chars(s: &[char], p: &[char]) -> (r: bool)
    ensures
        r == contains_text(s@, p@),
{
    let n = s.len();
    let mut i: usize = 0;
    loop
        invariant
            n == s@.len(),
            0 <= i <= n,
            forall|j: int| 0 <= j < i ==> !has_prefix_at(s@, j, p@),
        ensures
            forall|j: int| 0 <= j <= n ==> !has_prefix_at(s@, j, p@),
        decreases n - i,
    {
        if starts_with_at(s, i, p) {
            return true;
        }
        if i == n {
            break;
        }
        i = i + 1;
    }
    assert forall|j: int| !has_prefix_at(s@, j, p@) by {
        if 0 <= j && j + p@.len() <= s@.len() {
            assert(j <= n);
        }
    }
    false
}

/// The texts of a list of strings.
pub open spec fn texts(v: Seq<String>) -> Seq<Seq<char>> {
    v.map_values(|m: String| m@)
}

/// Pushing a string onto a list appends its text.
pub proof fn lemma_texts_push(v: Seq<String>, m: String)
    ensures
        texts(v.push(m)) == texts(v).push(m@),
{
    assert(texts(v.push(m)) =~= texts(v).push(m@));
}

/// `n` spaces.
pub open spec fn spaces(n: nat) -> Seq<char> {
    Seq::new(n, |i: int| ' ')
}

/// `s` right-aligned in a field of `w` characters, as `{:>w}` formats it.
pub open spec fn pad_left(s: Seq<char>, w: nat) -> Seq<char> {
    if s.len() < w {
        spaces((w - s.len()) as nat) + s
    } else {
        s
    }
}

/// `s` left-aligned in a field of `w` characters, as `{:<w}` formats it.
pub open spec fn pad_right(s: Seq<char>, w: nat) -> Seq<char> {
    if s.len() < w {
        s + spaces((w - s.len()) as nat)
    } else {
        s
    }
}

/// Appends `n` spaces to `s`.
pub fn push_spaces(s: &mut String, n: usize)
    ensures
        final(s)@ == old(s)@ + spaces(n as nat),
{
    let mut i: usize = 0;
    while i < n
        invariant
            i <= n,
            s@ == old(s)@ + spaces(i as nat),
        decreases n - i,
    {
        proof {
            reveal_strlit(" ");
        }
        s.append(" ");
        i = i + 1;
        assert(s@ =~= old(s)@ + spaces(i as nat));
    }
}

/// The decimal rendering of `n`.
pub fn decimal_string(n: u64) -> (r: String)
    ensures
        r@ == decimal(n as nat),
{
    let mut s = String::new();
    push_decimal(&mut s, n);
    assert(s@ =~= decimal(n as nat));
    s
}

/// Appends `t` right-aligned in a field of `w` characters.
pub fn push_padded_left(s: &mut String, t: &str, w: usize)
    ensures
        final(s)@ == old(s)@ + pad_left(t@, w as nat),
{
    let len = chars_of(t).len();
    if len < w {
        push_spaces(s, w - len);
    }
    s.append(t);
    assert(s@ =~= old(s)@ + pad_left(t@, w as nat));
}

/// Appends `t` left-aligned in a field of `w` characters.
pub fn push_padded_right(s: &mut String, t: &str, w: usize)
    ensures
        final(s)@ == old(s)@ + pad_right(t@, w as nat),
{
    let len = chars_of(t).len();
    s.append(t);
    if len < w {
        push_spaces(s, w - len);
    }
    assert(s@ =~= old(s)@ + pad_right(t@, w as nat));
}

} // verus!
