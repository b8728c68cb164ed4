//! Settings that the programs around the link take from their command lines.

use vstd::prelude::*;
use vstd::string::StringSliceAdditionalSpecFns;

verus! {

/// How much the programs report about the link.
#[derive(Debug, Clone, Copy, PartialEq, Eq, PartialOrd, Ord, Structural)]
pub enum Verbosity {
    /// No debug output.
    Quiet,
    /// Connection events and errors.
    Verbose,
    /// Every protocol message.
    Trace,
    /// Every UART byte.
    TraceUart,
}

/// The level as a number, from 0 for `Quiet` to 3 for `TraceUart`.
pub open spec fn level_of(v: Verbosity) -> u8 {
    match v {
        Verbosity::Quiet => 0u8,
        Verbosity::Verbose => 1u8,
        Verbosity::Trace => 2u8,
        Verbosity::TraceUart => 3u8,
    }
}

impl Verbosity {
    /// The level as a number, from 0 for `Quiet` to 3 for `TraceUart`.
    pub fn level(&self) -> (r: u8)
        ensures
            r == level_of(*self),
    {
        match self {
            Verbosity::Quiet => 0,
            Verbosity::Verbose => 1,
            Verbosity::Trace => 2,
            Verbosity::TraceUart => 3,
        }
    }

    /// Whether this level reports at least what `other` reports.
    pub fn at_least(&self, other: Verbosity) -> (r: bool)
        ensures
            r == (level_of(*self) >= level_of(other)),
    {
        self.level() >= other.level()
    }
}

impl Default for Verbosity {
    fn default() -> (r: Self)
        ensures
            r == Verbosity::Quiet,
    {
        Verbosity::Quiet
    }
}

/// One item of a frame selection.
#[derive(Debug, Clone, Copy, PartialEq, Eq, Structural)]
pub enum FrameSpecEntry {
    /// One frame number.
    Single(u64),
    /// An inclusive range of frame numbers.
    Range(u64, u64),
}

/// Which frames to dump: frame numbers and inclusive ranges
/// (`1,2,3,500,600..800`); no entries selects every frame.
#[derive(Debug, Clone)]
pub struct FrameSpec {
    pub entries: Vec<FrameSpecEntry>,
}

/// Whether an entry selects frame `n`.
pub open spec fn entry_includes(e: FrameSpecEntry, n: u64) -> bool {
    match e {
        FrameSpecEntry::Single(v) => v == n,
        FrameSpecEntry::Range(start, end) => start <= n <= end,
    }
}

/// ASCII white space, which is dropped around the parts of a frame selection.
pub open spec fn is_space(c: u8) -> bool {
    c == 0x20 || (0x09 <= c && c <= 0x0D)
}

/// The first index in `[i, hi)` that is not white space, or `hi`.
pub open spec fn skip_space(s: Seq<u8>, i: int, hi: int) -> int
    decreases hi - i,
{
    if i >= hi {
        hi
    } else if is_space(s[i]) {
        skip_space(s, i + 1, hi)
    } else {
        i
    }
}

/// The end of `[lo, j)` once white space at its end is dropped.
pub open spec fn trim_end(s: Seq<u8>, lo: int, j: int) -> int
    decreases j - lo,
{
    if j <= lo {
        lo
    } else if is_space(s[j - 1]) {
        trim_end(s, lo, j - 1)
    } else {
        j
    }
}

/// Whether `[lo, hi)` holds only decimal digits.
pub open spec fn all_digits(s: Seq<u8>, lo: int, hi: int) -> bool {
    forall|i: int| lo <= i < hi ==> 0x30 <= #[trigger] s[i] <= 0x39
}

/// The value of the decimal digits in `[lo, hi)`.
pub open spec fn digits_value(s: Seq<u8>, lo: int, hi: int) -> nat
    decreases hi - lo,
{
    if hi <= lo {
        0
    } else {
        digits_value(s, lo, hi - 1) * 10 + (s[hi - 1] - 0x30) as nat
    }
}

/// The unsigned 64-bit number written in `[lo, hi)`: an optional `+`, then
/// one or more digits, with a value that fits.
pub open spec fn number_in(s: Seq<u8>, lo: int, hi: int) -> Option<u64> {
    let start = if lo < hi && s[lo] == 0x2B {
        lo + 1
    } else {
        lo
    };
    if start < hi && all_digits(s, start, hi) && digits_value(s, start, hi) <= u64::MAX {
        Some(digits_value(s, start, hi) as u64)
    } else {
        None
    }
}

/// The number written in `[lo, hi)` once white space around it is dropped.
pub open spec fn trimmed_number(s: Seq<u8>, lo: int, hi: int) -> Option<u64> {
    let a = skip_space(s, lo, hi);
    number_in(s, a, trim_end(s, a, hi))
}

/// The first index of `..` inside `[lo, hi)`, if any.
pub open spec fn find_dots(s: Seq<u8>, lo: int, hi: int) -> Option<int>
    decreases hi - lo,
{
    if lo + 1 >= hi {
        None
    } else if s[lo] == 0x2E && s[lo + 1] == 0x2E {
        Some(lo)
    } else {
        find_dots(s, lo + 1, hi)
    }
}

/// The first index of a comma in `[lo, hi)`, or `hi`.
pub open spec fn find_comma(s: Seq<u8>, lo: int, hi: int) -> int
    decreases hi - lo,
{
    if lo >= hi {
        hi
    } else if s[lo] == 0x2C {
        lo
    } else {
        find_comma(s, lo + 1, hi)
    }
}

/// One comma-separated part: nothing when it is blank, a range `a..b` with
/// `a <= b`, or a single frame number; `None` when it is malformed.
pub open spec fn part_entry(s: Seq<u8>, lo: int, hi: int) -> Option<Option<FrameSpecEntry>> {
    let a = skip_space(s, lo, hi);
    let b = trim_end(s, a, hi);
    if a == b {
        Some(None)
    } else {
        match find_dots(s, a, b) {
            Some(k) => match (trimmed_number(s, a, k), trimmed_number(s, k + 2, b)) {
                (Some(x), Some(y)) => if x <= y {
                    Some(Some(FrameSpecEntry::Range(x, y)))
                } else {
                    None
                },
                _ => None,
            },
            None => match number_in(s, a, b) {
                Some(x) => Some(Some(FrameSpecEntry::Single(x))),
                None => None,
            },
        }
    }
}

/// The entries of the comma-separated parts in `[lo, hi)`, in order, or
/// `None` when a part is malformed.
pub open spec fn parts_entries(s: Seq<u8>, lo: int, hi: int) -> Option<Seq<FrameSpecEntry>>
    decreases hi - lo, 1int,
{
    let c = find_comma(s, lo, hi);
    let rest = if c < hi && lo <= c {
        parts_entries(s, c + 1, hi)
    } else {
        Some(Seq::empty())
    };
    match (part_entry(s, lo, c), rest) {
        (Some(Some(e)), Some(r)) => Some(seq![e] + r),
        (Some(None), Some(r)) => Some(r),
        _ => None,
    }
}

/// The entries of a whole frame selection, or `None` when it is malformed.
pub open spec fn frame_spec_entries(s: Seq<u8>) -> Option<Seq<FrameSpecEntry>> {
    let a = skip_space(s, 0, s.len() as int);
    let b = trim_end(s, a, s.len() as int);
    if a == b {
        Some(Seq::empty())
    } else {
        parts_entries(s, a, b)
    }
}

proof fn lemma_find_dots_bounds(s: Seq<u8>, lo: int, hi: int)
    ensures
        find_dots(s, lo, hi) matches Some(k) ==> lo <= k && k + 2 <= hi,
    decreases hi - lo,
{
    if lo + 1 < hi && !(s[lo] == 0x2E && s[lo + 1] == 0x2E) {
        lemma_find_dots_bounds(s, lo + 1, hi);
    }
}

/// Extending digits never lowers their value.
proof fn lemma_digits_grow(s: Seq<u8>, lo: int, i: int, hi: int)
    requires
        lo <= i <= hi,
    ensures
        digits_value(s, lo, i) <= digits_value(s, lo, hi),
    decreases hi - i,
{
    if i < hi {
        lemma_digits_grow(s, lo, i, hi - 1);
    }
}

fn skip_space_exec(b: &[u8], i: usize, hi: usize) -> (r: usize)
    requires
        i <= hi <= b@.len(),
    ensures
        r == skip_space(b@, i as int, hi as int),
        i <= r <= hi,
{
    let mut k = i;
    while k < hi && (b[k] == 0x20 || (0x09 <= b[k] && b[k] <= 0x0D))
        invariant
            i <= k <= hi <= b@.len(),
            skip_space(b@, k as int, hi as int) == skip_space(b@, i as int, hi as int),
        decreases hi - k,
    {
        k = k + 1;
    }
    k
}

fn trim_end_exec(b: &[u8], lo: usize, j: usize) -> (r: usize)
    requires
        lo <= j <= b@.len(),
    ensures
        r == trim_end(b@, lo as int, j as int),
        lo <= r <= j,
{
    let mut k = j;
    while k > lo && (b[k - 1] == 0x20 || (0x09 <= b[k - 1] && b[k - 1] <= 0x0D))
        invariant
            lo <= k <= j <= b@.len(),
            trim_end(b@, lo as int, k as int) == trim_end(b@, lo as int, j as int),
        decreases k - lo,
    {
        k = k - 1;
    }
    k
}

fn number_exec(b: &[u8], lo: usize, hi: usize) -> (r: Option<u64>)
    requires
        lo <= hi <= b@.len(),
    ensures
        r == number_in(b@, lo as int, hi as int),
{
    let start: usize = if lo < hi && b[lo] == 0x2B {
        lo + 1
    } else {
        lo
    };
    let ghost st = if lo < hi && b@[lo as int] == 0x2B {
        lo as int + 1
    } else {
        lo as int
    };
    if start >= hi {
        return None;
    }
    let mut k = start;
    while k < hi
        invariant
            start <= k <= hi <= b@.len(),
            st == start,
            st == (if lo < hi && b@[lo as int] == 0x2B {
                lo as int + 1
            } else {
                lo as int
            }),
            all_digits(b@, start as int, k as int),
        decreases hi - k,
    {
        if b[k] < 0x30 || b[k] > 0x39 {
            assert(!(0x30 <= b@[k as int] <= 0x39));
            assert(!all_digits(b@, start as int, hi as int));

            return None;
        }
        k = k + 1;
    }
    let mut v: u64 = 0;
    let mut k = start;
    while k < hi
        invariant
            start <= k <= hi <= b@.len(),
            st == start,
            st == (if lo < hi && b@[lo as int] == 0x2B {
                lo as int + 1
            } else {
                lo as int
            }),
            all_digits(b@, start as int, hi as int),
            v == digits_value(b@, start as int, k as int),
        decreases hi - k,
    {
        let d = (b[k] - 0x30) as u64;
        assert(digits_value(b@, start as int, k + 1) == v * 10 + d);
        if v > (u64::MAX - d) / 10 {
            proof {
                assert(digits_value(b@, start as int, k + 1) > u64::MAX) by (nonlinear_arith)
                    requires
                        digits_value(b@, start as int, k + 1) == v * 10 + d,
                        v > (u64::MAX - d) / 10,
                        d <= 9,
                ;
                lemma_digits_grow(b@, start as int, k + 1, hi as int);
            }
            return None;
        }
        assert(v * 10 + d <= u64::MAX) by (nonlinear_arith)
            requires
                v <= (u64::MAX - d) / 10,
                d <= 9,
        ;
        v = v * 10 + d;
        k = k + 1;
    }
    Some(v)
}

fn trimmed_number_exec(b: &[u8], lo: usize, hi: usize) -> (r: Option<u64>)
    requires
        lo <= hi <= b@.len(),
    ensures
        r == trimmed_number(b@, lo as int, hi as int),
{
    let a = skip_space_exec(b, lo, hi);
    let e = trim_end_exec(b, a, hi);
    number_exec(b, a, e)
}

fn find_dots_exec(b: &[u8], lo: usize, hi: usize) -> (r: Option<usize>)
    requires
        lo <= hi <= b@.len(),
    ensures
        match r {
            Some(k) => find_dots(b@, lo as int, hi as int) == Some(k as int),
            None => find_dots(b@, lo as int, hi as int) is None,
        },
{
    let mut k = lo;
    while hi - k >= 2
        invariant
            lo <= k <= hi <= b@.len(),
            find_dots(b@, k as int, hi as int) == find_dots(b@, lo as int, hi as int),
        decreases hi - k,
    {
        if b[k] == 0x2E && b[k + 1] == 0x2E {
            return Some(k);
        }
        k = k + 1;
    }
    None
}

fn find_comma_exec(b: &[u8], lo: usize, hi: usize) -> (r: usize)
    requires
        lo <= hi <= b@.len(),
    ensures
        r == find_comma(b@, lo as int, hi as int),
        lo <= r <= hi,
{
    let mut k = lo;
    while k < hi && b[k] != 0x2C
        invariant
            lo <= k <= hi <= b@.len(),
            find_comma(b@, k as int, hi as int) == find_comma(b@, lo as int, hi as int),
        decreases hi - k,
    {
        k = k + 1;
    }
    k
}

fn part_entry_exec(b: &[u8], lo: usize, hi: usize) -> (r: Result<Option<FrameSpecEntry>, String>)
    requires
        lo <= hi <= b@.len(),
    ensures
        match r {
            Ok(e) => part_entry(b@, lo as int, hi as int) == Some(e),
            Err(_) => part_entry(b@, lo as int, hi as int) is None,
        },
{
    let a = skip_space_exec(b, lo, hi);
    let e = trim_end_exec(b, a, hi);
    if a == e {
        return Ok(None);
    }
    proof {
        lemma_find_dots_bounds(b@, a as int, e as int);
    }
    match find_dots_exec(b, a, e) {
        Some(k) => {
            let start = match trimmed_number_exec(b, a, k) {
                Some(x) => x,
                None => {
                    return Err("Invalid range start".to_string());
                },
            };
            let end = match trimmed_number_exec(b, k + 2, e) {
                Some(y) => y,
                None => {
                    return Err("Invalid range end".to_string());
                },
            };
            if start > end {
                return Err("Invalid range: start is after end".to_string());
            }
            Ok(Some(FrameSpecEntry::Range(start, end)))
        },
        None => match number_exec(b, a, e) {
            Some(n) => Ok(Some(FrameSpecEntry::Single(n))),
            None => Err("Invalid frame number".to_string()),
        },
    }
}

impl FrameSpec {
    /// The selection of every frame.
    pub fn all() -> (r: Self)
        ensures
            r.entries@.len() == 0,
    {
        FrameSpec { entries: Vec::new() }
    }

    /// Parses a frame selection such as `1,2,3,500,600..800`: comma-separated
    /// frame numbers and inclusive ranges `a..b` with `a <= b`, white space
    /// around each allowed, blank parts skipped. A blank selection selects
    /// every frame.
    pub fn parse(spec: &str) -> (r: Result<FrameSpec, String>)
        ensures
            match r {
                Ok(f) => frame_spec_entries(spec.spec_bytes()) == Some(f.entries@),
                Err(_) => frame_spec_entries(spec.spec_bytes()) is None,
            },
    {
        let b = spec.as_bytes();
        let n = b.len();
        let a = skip_space_exec(b, 0, n);
        let e = trim_end_exec(b, a, n);
        if a == e {
            return Ok(Self::all());
        }
        let ghost s = b@;
        let mut entries: Vec<FrameSpecEntry> = Vec::new();
        let mut pos = a;
        loop
            invariant
                a <= pos <= e <= n == s.len(),
                a < e,
                s == b@,
                s == spec.spec_bytes(),
                a == skip_space(s, 0, n as int),
                e == trim_end(s, a as int, n as int),
                match parts_entries(s, pos as int, e as int) {
                    Some(rest) => parts_entries(s, a as int, e as int) == Some(entries@ + rest),
                    None => parts_entries(s, a as int, e as int) is None,
                },
            decreases e - pos,
        {
            let c = find_comma_exec(b, pos, e);
            let part = part_entry_exec(b, pos, c);
            let ghost rest = if c < e {
                parts_entries(s, c + 1, e as int)
            } else {
                Some(Seq::<FrameSpecEntry>::empty())
            };
            assert(parts_entries(s, pos as int, e as int) == match (part_entry(s, pos as int, c as int), rest) {
                (Some(Some(x)), Some(r)) => Some(seq![x] + r),
                (Some(None), Some(r)) => Some(r),
                _ => None,
            });
            match part {
                Ok(Some(entry)) => {
                    let ghost before = entries@;
                    entries.push(entry);
                    proof {
                        if let Some(r) = rest {
                            assert(before + (seq![entry] + r) =~= entries@ + r);
                        }
                    }
                },
                Ok(None) => {},
                Err(msg) => {
                    return Err(msg);
                },
            }
            if c >= e {
                assert(entries@ + Seq::<FrameSpecEntry>::empty() =~= entries@);
                return Ok(FrameSpec { entries });
            }
            pos = c + 1;
        }
    }

    /// Whether frame `n` is selected: always when there are no entries, else
    /// when some entry selects it.
    pub fn includes(&self, n: u64) -> (r: bool)
        ensures
            r == (self.entries@.len() == 0 || exists|i: int|
                0 <= i < self.entries@.len() && entry_includes(#[trigger] self.entries@[i], n)),
    {
        if self.entries.len() == 0 {
            return true;
        }
        let mut i: usize = 0;
        while i < self.entries.len()
            invariant
                i <= self.entries@.len(),
                forall|j: int| 0 <= j < i ==> !entry_includes(#[trigger] self.entries@[j], n),
            decreases self.entries@.len() - i,
        {
            let hit = match self.entries[i] {
                FrameSpecEntry::Single(v) => v == n,
                FrameSpecEntry::Range(start, end) => n >= start && n <= end,
            };
            if hit {
                assert(entry_includes(self.entries@[i as int], n));
                return true;
            }
            i = i + 1;
        }
        false
    }
}

} // verus!
