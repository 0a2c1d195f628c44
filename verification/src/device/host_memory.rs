//! Size of system memory from the kernel's memory report (the text of
//! `/proc/meminfo`): the `MemTotal:` line gives it in kibibytes.

use vstd::prelude::*;

verus! {

/// `c` has the Unicode `White_Space` property.
pub open spec fn is_white_space(c: char) -> bool {
    let u = c as u32;
    ||| 0x9 <= u <= 0xd
    ||| u == 0x20
    ||| u == 0x85
    ||| u == 0xa0
    ||| u == 0x1680
    ||| 0x2000 <= u <= 0x200a
    ||| u == 0x2028
    ||| u == 0x2029
    ||| u == 0x202f
    ||| u == 0x205f
    ||| u == 0x3000
}

/// Whether `c` has the Unicode `White_Space` property (as `char::is_whitespace`).
pub fn white_space(c: char) -> (r: bool)
    ensures
        r == is_white_space(c),
{
    let u = c as u32;
    (0x9 <= u && u <= 0xd) || u == 0x20 || u == 0x85 || u == 0xa0 || u == 0x1680 || (0x2000 <= u
        && u <= 0x200a) || u == 0x2028 || u == 0x2029 || u == 0x202f || u == 0x205f || u == 0x3000
}

/// End of the line that starts at `i`: the next `'\n'`, or the end.
pub open spec fn line_end(s: Seq<char>, i: int) -> int
    decreases s.len() - i,
{
    if i >= s.len() {
        s.len() as int
    } else if s[i] == '\n' {
        i
    } else {
        line_end(s, i + 1)
    }
}

/// First position in `i..end` that is not white space, or `end`.
pub open spec fn skip_white(s: Seq<char>, i: int, end: int) -> int
    decreases end - i,
{
    if i >= end {
        end
    } else if is_white_space(s[i]) {
        skip_white(s, i + 1, end)
    } else {
        i
    }
}

/// First position in `i..end` that is white space, or `end`.
pub open spec fn skip_word(s: Seq<char>, i: int, end: int) -> int
    decreases end - i,
{
    if i >= end {
        end
    } else if !is_white_space(s[i]) {
        skip_word(s, i + 1, end)
    } else {
        i
    }
}

/// Bounds of the second white-space separated word of `a..b`.
pub open spec fn second_word(s: Seq<char>, a: int, b: int) -> Option<(int, int)> {
    let start1 = skip_white(s, a, b);
    if start1 >= b {
        None
    } else {
        let start2 = skip_white(s, skip_word(s, start1, b), b);
        if start2 >= b {
            None
        } else {
            Some((start2, skip_word(s, start2, b)))
        }
    }
}

/// `c` is an ASCII decimal digit.
pub open spec fn is_digit(c: char) -> bool {
    48 <= c as u32 <= 57
}

/// Value of a string of decimal digits.
pub open spec fn decimal_value(d: Seq<char>) -> nat
    decreases d.len(),
{
    if d.len() == 0 {
        0
    } else {
        decimal_value(d.drop_last()) * 10 + (d.last() as u32 - 48) as nat
    }
}

/// `tok` without a leading `+`.
pub open spec fn unsigned_digits(tok: Seq<char>) -> Seq<char> {
    if tok.len() > 0 && tok[0] == '+' {
        tok.drop_first()
    } else {
        tok
    }
}

/// Every character of `d` is a decimal digit.
pub open spec fn all_digits(d: Seq<char>) -> bool {
    forall|i: int| 0 <= i < d.len() ==> is_digit(#[trigger] d[i])
}

/// The `usize` that `tok` denotes as `str::parse::<usize>` reads it: an
/// optional `+` and at least one decimal digit, with a value that fits.
pub open spec fn parse_unsigned(tok: Seq<char>) -> Option<nat> {
    let digits = unsigned_digits(tok);
    if digits.len() > 0 && all_digits(digits) && decimal_value(digits) <= usize::MAX {
        Some(decimal_value(digits))
    } else {
        None
    }
}

/// The size in kibibytes that line `a..b` reports, if it starts with
/// `MemTotal:` and its second word is a `usize`.
pub open spec fn line_total_kib(s: Seq<char>, a: int, b: int) -> Option<nat> {
    if b - a >= 9 && s.subrange(a, a + 9) == "MemTotal:"@ {
        match second_word(s, a, b) {
            Some((x, y)) => parse_unsigned(s.subrange(x, y)),
            None => None,
        }
    } else {
        None
    }
}

proof fn lemma_line_end_bounds(s: Seq<char>, i: int)
    requires
        0 <= i <= s.len(),
    ensures
        i <= line_end(s, i) <= s.len(),
        line_end(s, i) < s.len() ==> s[line_end(s, i)] == '\n',
    decreases s.len() - i,
{
    if i < s.len() && s[i] != '\n' {
        lemma_line_end_bounds(s, i + 1);
    }
}

/// The size that the first line from `i` on that reports one gives.
pub open spec fn total_kib_from(s: Seq<char>, i: int) -> Option<nat>
    decreases s.len() - i,
{
    if i < 0 || i > s.len() {
        None
    } else {
        let e = line_end(s, i);
        match line_total_kib(s, i, e) {
            Some(v) => Some(v),
            None => if i <= e < s.len() {
                total_kib_from(s, e + 1)
            } else {
                None
            },
        }
    }
}

/// The total memory, in kibibytes, that a memory report gives: the value
/// of the first line that starts with `MemTotal:` and whose second word
/// is a `usize`.
pub open spec fn mem_total_kib(report: Seq<char>) -> Option<nat> {
    total_kib_from(report, 0)
}

/// The estimate of system memory where no report gives it: 8 GiB.
pub open spec fn fallback_memory() -> nat {
    8 * 1024 * 1024 * 1024
}

/// What the host's operating system reports about its memory.
#[derive(Debug, Clone, PartialEq, Eq)]
pub enum MemoryReport {
    /// The text of `/proc/meminfo` (Linux).
    ProcMeminfo(String),
    /// The output of `sysctl -n hw.memsize` (macOS).
    Sysctl(String),
    /// The output of `wmic ComputerSystem get TotalPhysicalMemory` (Windows).
    Wmic(String),
    /// Nothing could be read.
    Unavailable,
}

/// System memory in bytes that a report gives, if it gives it.
pub open spec fn reported_memory(report: MemoryReport) -> Option<nat> {
    match report {
        MemoryReport::ProcMeminfo(text) => match mem_total_kib(text@) {
            Some(kib) => Some(kib * 1024),
            None => None,
        },
        MemoryReport::Sysctl(out) => sysctl_memory(out@),
        MemoryReport::Wmic(out) => wmic_memory(out@),
        MemoryReport::Unavailable => None,
    }
}

/// System memory in bytes: what the report gives, or 8 GiB.
pub open spec fn system_memory_bytes(report: MemoryReport) -> nat {
    match reported_memory(report) {
        Some(bytes) => bytes,
        None => fallback_memory(),
    }
}

fn chars_of(s: &str) -> (v: Vec<char>)
    ensures
        v@ == s@,
{
    let n = s.unicode_len();
    let mut v: Vec<char> = Vec::new();
    let mut i: usize = 0;
    while i < n
        invariant
            n == s@.len(),
            i <= n,
            v@ == s@.take(i as int),
        decreases n - i,
    {
        let c = s.get_char(i);
        assert(s@.take(i + 1) =~= s@.take(i as int).push(c));
        v.push(c);
        i = i + 1;
    }
    assert(s@.take(n as int) =~= s@);
    v
}

fn find_line_end(s: &Vec<char>, i: usize) -> (e: usize)
    requires
        i <= s@.len(),
    ensures
        e == line_end(s@, i as int),
{
    let mut j = i;
    while j < s.len() && s[j] != '\n'
        invariant
            i <= j <= s@.len(),
            line_end(s@, i as int) == line_end(s@, j as int),
        decreases s@.len() - j,
    {
        j = j + 1;
    }
    j
}

fn find_non_white(s: &Vec<char>, i: usize, end: usize) -> (r: usize)
    requires
        i <= end <= s@.len(),
    ensures
        r == skip_white(s@, i as int, end as int),
{
    let mut j = i;
    while j < end && white_space(s[j])
        invariant
            i <= j <= end <= s@.len(),
            skip_white(s@, i as int, end as int) == skip_white(s@, j as int, end as int),
        decreases end - j,
    {
        j = j + 1;
    }
    j
}

fn find_white(s: &Vec<char>, i: usize, end: usize) -> (r: usize)
    requires
        i <= end <= s@.len(),
    ensures
        r == skip_word(s@, i as int, end as int),
{
    let mut j = i;
    while j < end && !white_space(s[j])
        invariant
            i <= j <= end <= s@.len(),
            skip_word(s@, i as int, end as int) == skip_word(s@, j as int, end as int),
        decreases end - j,
    {
        j = j + 1;
    }
    j
}

proof fn lemma_skip_bounds(s: Seq<char>, i: int, end: int)
    requires
        i <= end,
    ensures
        i <= skip_white(s, i, end) <= end,
        i <= skip_word(s, i, end) <= end,
    decreases end - i,
{
    if i < end {
        lemma_skip_bounds(s, i + 1, end);
    }
}

proof fn lemma_decimal_prefix(d: Seq<char>, k: int)
    requires
        0 <= k <= d.len(),
    ensures
        decimal_value(d.take(k)) <= decimal_value(d),
    decreases d.len() - k,
{
    if k < d.len() {
        lemma_decimal_prefix(d, k + 1);
        assert(d.take(k + 1).drop_last() =~= d.take(k));
    } else {
        assert(d.take(k) =~= d);
    }
}

/// The `usize` that `s[x..y]` denotes, as `str::parse::<usize>` reads it.
fn parse_usize_at(s: &Vec<char>, x: usize, y: usize) -> (r: Option<usize>)
    requires
        x <= y <= s@.len(),
    ensures
        match r {
            Some(val) => parse_unsigned(s@.subrange(x as int, y as int)) == Some(val as nat),
            None => parse_unsigned(s@.subrange(x as int, y as int)) is None,
        },
{
    let ghost tok = s@.subrange(x as int, y as int);
    let start = if x < y && s[x] == '+' {
        x + 1
    } else {
        x
    };
    let ghost digits = s@.subrange(start as int, y as int);
    assert(digits =~= unsigned_digits(tok));
    if start == y {
        return None;
    }
    let mut value: usize = 0;
    let mut k = start;
    while k < y
        invariant
            start <= k <= y <= s@.len(),
            digits == s@.subrange(start as int, y as int),
            tok == s@.subrange(x as int, y as int),
            digits.len() > 0,
            digits == unsigned_digits(tok),
            forall|i: int| 0 <= i < k - start ==> is_digit(#[trigger] digits[i]),
            value == decimal_value(digits.take(k - start)),
        decreases y - k,
    {
        let c = s[k];
        let u = c as u32;
        assert(digits[k - start] == c);
        if !(48 <= u && u <= 57) {
            assert(!is_digit(digits[k - start]));
            return None;
        }
        assert(digits.take(k - start + 1).drop_last() =~= digits.take(k - start));
        assert(digits.take(k - start + 1).last() == c);
        let d = (u - 48) as usize;
        let next = match value.checked_mul(10) {
            Some(t) => t.checked_add(d),
            None => None,
        };
        match next {
            Some(v) => {
                value = v;
            },
            None => {
                proof {
                    lemma_decimal_prefix(digits, k - start + 1);
                }
                return None;
            },
        }
        k = k + 1;
    }
    assert(digits.take(y - start) =~= digits);
    Some(value)
}

/// The size in kibibytes that line `a..b` reports.
fn line_total(s: &Vec<char>, a: usize, b: usize) -> (r: Option<usize>)
    requires
        a <= b <= s@.len(),
    ensures
        match r {
            Some(val) => line_total_kib(s@, a as int, b as int) == Some(val as nat),
            None => line_total_kib(s@, a as int, b as int) is None,
        },
{
    let prefix = chars_of("MemTotal:");
    proof {
        reveal_strlit("MemTotal:");
    }
    if b - a < 9 {
        return None;
    }
    let mut k: usize = 0;
    while k < 9
        invariant
            a + 9 <= b <= s@.len(),
            prefix@ == "MemTotal:"@,
            prefix@.len() == 9,
            k <= 9,
            forall|j: int| 0 <= j < k ==> s@[a + j] == prefix@[j],
        decreases 9 - k,
    {
        if s[a + k] != prefix[k] {
            assert(s@.subrange(a as int, a + 9)[k as int] != "MemTotal:"@[k as int]);
            return None;
        }
        k = k + 1;
    }
    assert(s@.subrange(a as int, a + 9) =~= "MemTotal:"@);
    let start1 = find_non_white(s, a, b);
    if start1 >= b {
        return None;
    }
    proof {
        lemma_skip_bounds(s@, start1 as int, b as int);
    }
    let end1 = find_white(s, start1, b);
    proof {
        lemma_skip_bounds(s@, end1 as int, b as int);
    }
    let start2 = find_non_white(s, end1, b);
    if start2 >= b {
        return None;
    }
    proof {
        lemma_skip_bounds(s@, start2 as int, b as int);
    }
    let end2 = find_white(s, start2, b);
    parse_usize_at(s, start2, end2)
}

/// The total memory, in kibibytes, that a memory report gives, if any of
/// its lines gives it.
pub fn meminfo_total_kib(report: &str) -> (r: Option<usize>)
    ensures
        match r {
            Some(val) => mem_total_kib(report@) == Some(val as nat),
            None => mem_total_kib(report@) is None,
        },
{
    let s = chars_of(report);
    let n = s.len();
    let mut i: usize = 0;
    loop
        invariant
            s@ == report@,
            n == s@.len(),
            i <= n,
            total_kib_from(s@, 0) == total_kib_from(s@, i as int),
        decreases n - i,
    {
        let e = find_line_end(&s, i);
        proof {
            lemma_line_end_bounds(s@, i as int);
        }
        match line_total(&s, i, e) {
            Some(kib) => {
                return Some(kib);
            },
            None => {},
        }
        if e < n {
            i = e + 1;
        } else {
            return None;
        }
    }
}

/// System memory in bytes: what the host's report gives, or 8 GiB when
/// there is no report or it does not give the size. A size read from
/// `/proc/meminfo` is in kibibytes and its count of bytes must fit in a
/// `usize`, as must 8 GiB (a 64-bit target).
pub fn get_system_memory(report: &MemoryReport) -> (bytes: usize)
    requires
        fallback_memory() <= usize::MAX,
        report matches MemoryReport::ProcMeminfo(text) ==> (mem_total_kib(text@) matches Some(kib) ==> kib * 1024
            <= usize::MAX),
    ensures
        bytes == system_memory_bytes(*report),
{
    let found = match report {
        MemoryReport::ProcMeminfo(text) => match meminfo_total_kib(text.as_str()) {
            Some(kib) => Some(kib * 1024),
            None => None,
        },
        MemoryReport::Sysctl(out) => memory_from_sysctl(out.as_str()),
        MemoryReport::Wmic(out) => memory_from_wmic(out.as_str()),
        MemoryReport::Unavailable => None,
    };
    match found {
        Some(bytes) => bytes,
        None => 8 * 1024 * 1024 * 1024,
    }
}

/// Last position before `end`, down to `a`, that is not white space, plus
/// one; `a` when `a..end` is all white space.
pub open spec fn trim_end(s: Seq<char>, a: int, end: int) -> int
    decreases end - a,
{
    if end <= a {
        a
    } else if is_white_space(s[end - 1]) {
        trim_end(s, a, end - 1)
    } else {
        end
    }
}

/// The `usize` that `a..b` denotes once white space is trimmed from both
/// ends.
pub open spec fn trimmed_value(s: Seq<char>, a: int, b: int) -> Option<nat> {
    let start = skip_white(s, a, b);
    parse_unsigned(s.subrange(start, trim_end(s, start, b)))
}

/// The value of the first line from `i` on that is a `usize` once trimmed.
pub open spec fn first_value_from(s: Seq<char>, i: int) -> Option<nat>
    decreases s.len() - i,
{
    if i < 0 || i > s.len() {
        None
    } else {
        let e = line_end(s, i);
        match trimmed_value(s, i, e) {
            Some(v) => Some(v),
            None => if i <= e < s.len() {
                first_value_from(s, e + 1)
            } else {
                None
            },
        }
    }
}

/// Memory size, in bytes, that `sysctl -n hw.memsize` printed: its output
/// trimmed, as a `usize`.
pub open spec fn sysctl_memory(output: Seq<char>) -> Option<nat> {
    trimmed_value(output, 0, output.len() as int)
}

/// Memory size, in bytes, that `wmic ComputerSystem get
/// TotalPhysicalMemory` printed: the first line after the header that is a
/// `usize` once trimmed.
pub open spec fn wmic_memory(output: Seq<char>) -> Option<nat> {
    let e = line_end(output, 0);
    if e < output.len() {
        first_value_from(output, e + 1)
    } else {
        None
    }
}

proof fn lemma_trim_end_bounds(s: Seq<char>, a: int, end: int)
    requires
        a <= end,
    ensures
        a <= trim_end(s, a, end) <= end,
    decreases end - a,
{
    if a < end && is_white_space(s[end - 1]) {
        lemma_trim_end_bounds(s, a, end - 1);
    }
}

fn find_trim_end(s: &Vec<char>, a: usize, end: usize) -> (r: usize)
    requires
        a <= end <= s@.len(),
    ensures
        r == trim_end(s@, a as int, end as int),
{
    let mut j = end;
    while j > a && white_space(s[j - 1])
        invariant
            a <= j <= end <= s@.len(),
            trim_end(s@, a as int, end as int) == trim_end(s@, a as int, j as int),
        decreases j - a,
    {
        j = j - 1;
    }
    j
}

/// The `usize` that `s[a..b]` denotes once trimmed.
fn trimmed_usize(s: &Vec<char>, a: usize, b: usize) -> (r: Option<usize>)
    requires
        a <= b <= s@.len(),
    ensures
        match r {
            Some(val) => trimmed_value(s@, a as int, b as int) == Some(val as nat),
            None => trimmed_value(s@, a as int, b as int) is None,
        },
{
    let start = find_non_white(s, a, b);
    proof {
        lemma_skip_bounds(s@, a as int, b as int);
    }
    let end = find_trim_end(s, start, b);
    proof {
        lemma_trim_end_bounds(s@, start as int, b as int);
    }
    parse_usize_at(s, start, end)
}

/// Memory size, in bytes, that `sysctl -n hw.memsize` printed, if its
/// trimmed output is a `usize`.
pub fn memory_from_sysctl(output: &str) -> (r: Option<usize>)
    ensures
        match r {
            Some(val) => sysctl_memory(output@) == Some(val as nat),
            None => sysctl_memory(output@) is None,
        },
{
    let s = chars_of(output);
    trimmed_usize(&s, 0, s.len())
}

/// Memory size, in bytes, that `wmic ComputerSystem get
/// TotalPhysicalMemory` printed: the first line after the header that is a
/// `usize` once trimmed.
pub fn memory_from_wmic(output: &str) -> (r: Option<usize>)
    ensures
        match r {
            Some(val) => wmic_memory(output@) == Some(val as nat),
            None => wmic_memory(output@) is None,
        },
{
    let s = chars_of(output);
    let n = s.len();
    let header_end = find_line_end(&s, 0);
    proof {
        lemma_line_end_bounds(s@, 0);
    }
    if header_end >= n {
        return None;
    }
    let mut i: usize = header_end + 1;
    loop
        invariant
            s@ == output@,
            n == s@.len(),
            i <= n,
            wmic_memory(s@) == first_value_from(s@, i as int),
        decreases n - i,
    {
        let e = find_line_end(&s, i);
        proof {
            lemma_line_end_bounds(s@, i as int);
        }
        match trimmed_usize(&s, i, e) {
            Some(v) => {
                return Some(v);
            },
            None => {},
        }
        if e < n {
            i = e + 1;
        } else {
            return None;
        }
    }
}

} // verus!
