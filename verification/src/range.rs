//! Byte ranges: what a `Range` header asks for, and which bytes of an object it selects.
use vstd::prelude::*;
use vstd::string::*;
use crate::text::{chars_of, find, parse_signed, slice_of, trim};

verus! {

/// One end of a range: the number given, or -1 where none is.
pub open spec fn bound_of(s: Seq<char>) -> i64 {
    match crate::text::signed_value(s) {
        Some(v) => v,
        None => -1i64,
    }
}

/// The first and the last byte that range text asks for, each -1 where it is not given.
pub open spec fn range_bounds(rng: Seq<char>) -> (i64, i64) {
    match crate::text::find_from(rng, "bytes="@, 0) {
        None => (-1i64, -1i64),
        Some(p) => {
            let spec_text = crate::text::trimmed(rng.skip(p + 6));
            match crate::text::find_from(spec_text, "-"@, 0) {
                None => (-1i64, -1i64),
                Some(q) => (
                    bound_of(crate::text::trimmed(spec_text.take(q))),
                    bound_of(crate::text::trimmed(spec_text.skip(q + 1))),
                ),
            }
        },
    }
}

/// Reads one end of a range.
fn bound(s: &Vec<char>) -> (v: i64)
    ensures
        v == bound_of(crate::text::trimmed(s@)),
{
    match parse_signed(&trim(s)) {
        Some(v) => v,
        None => -1,
    }
}

/// Reads a `Range` header: `bytes=`, a number, a dash and a number. Either number may be missing.
pub fn parse_range(rng: &str) -> (bounds: (i64, i64))
    ensures
        bounds == range_bounds(rng@),
{
    proof {
        reveal_strlit("bytes=");
        reveal_strlit("-");
    }
    let chars: Vec<char> = chars_of(rng);
    match find(&chars, &chars_of("bytes=")) {
        None => (-1, -1),
        Some(p) => {
            let tail: Vec<char> = slice_of(&chars, p + 6, chars.len());
            assert(tail@ =~= rng@.skip(p + 6));
            let range: Vec<char> = trim(&tail);
            match find(&range, &chars_of("-")) {
                None => (-1, -1),
                Some(q) => {
                    let first: Vec<char> = slice_of(&range, 0, q);
                    let last: Vec<char> = slice_of(&range, q + 1, range.len());
                    assert(first@ =~= range@.take(q as int));
                    assert(last@ =~= range@.skip(q + 1));
                    (bound(&first), bound(&last))
                },
            }
        },
    }
}

/// One end of a range within an object of `size` bytes.
pub open spec fn clipped_end(v: i64, size: u64) -> i64 {
    if v >= size as i64 {
        (size - 1) as i64
    } else {
        v
    }
}

/// A range within an object of `size` bytes, each end -1 where there is none. A last byte alone asks
/// for so many bytes at the end. A range that asks for none of them, or whose last byte comes before
/// its first, counts as no range.
pub open spec fn clipped(rng: (i64, i64), size: u64) -> (i64, i64) {
    if rng.0 < 0 && rng.1 > 0 {
        (
            if rng.1 < size as i64 {
                (size as i64 - rng.1) as i64
            } else {
                0
            },
            (size - 1) as i64,
        )
    } else if rng.0 < 0 || 0 <= rng.1 < rng.0 {
        (-1i64, -1i64)
    } else if rng.1 < 0 {
        (clipped_end(rng.0, size), -1i64)
    } else {
        (clipped_end(rng.0, size), clipped_end(rng.1, size))
    }
}

/// Whether a range can be brought within an object of `size` bytes: no end of it is to be brought
/// within an empty one, and the last byte has a next.
pub open spec fn clippable(rng: (i64, i64), size: u64) -> bool {
    &&& size == 0 ==> rng.0 < 0 && rng.1 < 0
    &&& clipped(rng, size).1 < i64::MAX
}

/// Whether a range can be brought within an object of `size` bytes.
pub fn can_clip(rng: (i64, i64), size: u64) -> (yes: bool)
    ensures
        yes == clippable(rng, size),
{
    if size == 0 {
        return rng.0 < 0 && rng.1 < 0;
    }
    resolve(rng, size).1 < i64::MAX
}

/// Brings a range within an object that is not empty.
fn resolve(rng: (i64, i64), size: u64) -> (within: (i64, i64))
    requires
        size > 0 || (rng.0 < 0 && rng.1 < 0),
    ensures
        within == clipped(rng, size),
{
    let (first, last) = rng;
    let n: i64 = size as i64;
    if first < 0 && last > 0 {
        let start: i64 = if last < n {
            n - last
        } else {
            0
        };
        return (start, (size - 1) as i64);
    }
    if first < 0 || (0 <= last && last < first) {
        return (-1, -1);
    }
    let start: i64 = if first >= n {
        (size - 1) as i64
    } else {
        first
    };
    if last < 0 {
        return (start, -1);
    }
    let end: i64 = if last >= n {
        (size - 1) as i64
    } else {
        last
    };
    (start, end)
}

/// Brings a range within an object of `size` bytes.
pub fn clip_range(rng: (i64, i64), size: u64) -> (within: (i64, i64))
    requires
        clippable(rng, size),
    ensures
        within == clipped(rng, size),
{
    resolve(rng, size)
}

/// Where the part that a range asks for begins.
pub open spec fn part_start(rng: (i64, i64)) -> usize {
    if rng.0 < 0 {
        0
    } else {
        rng.0 as usize
    }
}

/// Where the part that a range asks for ends, in an object of `size` bytes.
pub open spec fn part_end(rng: (i64, i64), size: usize) -> usize {
    if rng.1 >= 0 {
        (rng.1 + 1) as usize
    } else {
        size
    }
}

/// The length of the part of an object of `size` bytes that a range asks for; nothing where the
/// whole is to be sent.
pub open spec fn part_length(rng: (i64, i64), size: usize) -> Option<usize> {
    if (rng.1 >= 0 || rng.0 > 0) && part_end(rng, size) > part_start(rng) {
        Some((part_end(rng, size) - part_start(rng)) as usize)
    } else {
        None
    }
}

/// The length of the part of an object of `size` bytes that a range asks for.
pub fn partial_length(rng: (i64, i64), size: usize) -> (len: Option<usize>)
    requires
        rng.1 < i64::MAX,
    ensures
        len == part_length(rng, size),
{
    if rng.1 >= 0 || rng.0 > 0 {
        let end: usize = if rng.1 >= 0 {
            (rng.1 + 1) as usize
        } else {
            size
        };
        let start: usize = if rng.0 < 0 {
            0
        } else {
            rng.0 as usize
        };
        if end > start {
            return Some(end - start);
        }
    }
    None
}

/// How a stored file is read: where to begin, and how many bytes to take at most.
#[derive(Clone, Copy, PartialEq, Eq, Structural, Debug)]
pub struct Window {
    /// Where reading begins, where it is not at the beginning.
    pub seek: Option<u64>,
    /// How many bytes are read at most.
    pub take: Option<u64>,
}

/// The first byte that a range asks for.
pub open spec fn first_byte(rng: (i64, i64)) -> int {
    if rng.0 < 0 {
        0
    } else {
        rng.0 as int
    }
}

/// How a file is read for a range.
pub open spec fn window_of(rng: (i64, i64)) -> Window {
    Window {
        seek: if rng.0 > 0 {
            Some(rng.0 as u64)
        } else {
            None
        },
        take: if rng.1 >= 0 && rng.1 >= rng.0 {
            Some((rng.1 - first_byte(rng) + 1) as u64)
        } else {
            None
        },
    }
}

/// How a file is read for a range.
pub fn window(rng: (i64, i64)) -> (w: Window)
    requires
        rng.1 - first_byte(rng) < i64::MAX,
    ensures
        w == window_of(rng),
{
    let seek: Option<u64> = if rng.0 > 0 {
        Some(rng.0 as u64)
    } else {
        None
    };
    let take: Option<u64> = if rng.1 >= 0 && rng.1 >= rng.0 {
        let start: i64 = if rng.0 < 0 {
            0
        } else {
            rng.0
        };
        Some((rng.1 - start + 1) as u64)
    } else {
        None
    };
    Window { seek, take }
}

impl Window {
    /// Where in a file of `size` bytes reading begins.
    pub open spec fn begin(self, size: nat) -> nat {
        match self.seek {
            Some(s) => if (s as nat) < size {
                s as nat
            } else {
                size
            },
            None => 0,
        }
    }

    /// How many bytes of a file of `size` bytes are read.
    pub open spec fn bytes_read(self, size: nat) -> nat {
        let left = (size - self.begin(size)) as nat;
        match self.take {
            Some(n) => if (n as nat) < left {
                n as nat
            } else {
                left
            },
            None => left,
        }
    }

    /// The bytes of a file that are read.
    pub open spec fn part_of(self, data: Seq<u8>) -> Seq<u8> {
        data.subrange(
            self.begin(data.len()) as int,
            (self.begin(data.len()) + self.bytes_read(data.len())) as int,
        )
    }
}

/// A range lies within the object once it is clipped, whatever was asked for, and is left as it is by
/// being clipped again.
pub proof fn law_clipped_within(rng: (i64, i64), size: u64)
    requires
        0 < size <= i64::MAX,
    ensures
        -1 <= clipped(rng, size).0 < size,
        -1 <= clipped(rng, size).1 < size,
        clipped(rng, size).1 >= 0 ==> 0 <= clipped(rng, size).0 <= clipped(rng, size).1,
        0 <= rng.0 < size && rng.0 <= rng.1 < size ==> clipped(rng, size) == rng,
        clipped(clipped(rng, size), size) == clipped(rng, size),
{
}

/// As many bytes are read for a range as the length that is announced for it; where none is
/// announced, the whole object is read.
pub proof fn law_announced_length_is_read(rng: (i64, i64), size: u64)
    requires
        0 < size <= i64::MAX,
        size <= usize::MAX,
        clippable(rng, size),
    ensures
        ({
            let within = clipped(rng, size);
            match part_length(within, size as usize) {
                Some(n) => window_of(within).bytes_read(size as nat) == n,
                None => window_of(within).bytes_read(size as nat) == size,
            }
        }),
{
    let within = clipped(rng, size);
    law_clipped_within(rng, size);
    assert(within.0 < size && within.1 < size);
}

/// A range that gives a first and a last byte selects the bytes from the first to the last, both
/// included, as far as there are any.
pub proof fn law_range_selects_bytes(data: Seq<u8>, first: i64, last: i64)
    requires
        data.len() <= i64::MAX,
        0 <= first <= last,
        first < data.len(),
    ensures
        window_of(clipped((first, last), data.len() as u64)).part_of(data) == data.subrange(
            first as int,
            if last < data.len() {
                last + 1
            } else {
                data.len() as int
            },
        ),
{
    let within = clipped((first, last), data.len() as u64);
    assert(within.0 == first);
    assert(within.1 == if last < data.len() {
        last as int
    } else {
        data.len() - 1
    });
}

/// A range that gives the first byte alone selects all bytes from it on.
pub proof fn law_range_selects_tail(data: Seq<u8>, first: i64)
    requires
        data.len() <= i64::MAX,
        0 <= first < data.len(),
    ensures
        window_of(clipped((first, -1i64), data.len() as u64)).part_of(data) == data.skip(
            first as int,
        ),
{
}

/// A range that gives the last number alone selects so many bytes at the end, or all where there are
/// no more.
pub proof fn law_range_selects_suffix(data: Seq<u8>, count: i64)
    requires
        0 < data.len() <= i64::MAX,
        0 < count,
    ensures
        window_of(clipped((-1i64, count), data.len() as u64)).part_of(data) == data.skip(
            if count < data.len() {
                data.len() - count
            } else {
                0
            },
        ),
{
    let within = clipped((-1i64, count), data.len() as u64);
    assert(within.1 == data.len() - 1);
    assert(data.skip(0) =~= data);
}

/// Without a range, or with one whose last byte comes before its first, the whole object is read and
/// no part is announced.
pub proof fn law_no_range_selects_all(data: Seq<u8>, rng: (i64, i64))
    requires
        data.len() <= i64::MAX,
        data.len() <= usize::MAX,
        rng == (-1i64, -1i64) || 0 <= rng.1 < rng.0,
    ensures
        window_of(clipped(rng, data.len() as u64)).part_of(data) == data,
        part_length(clipped(rng, data.len() as u64), data.len() as usize) is None,
{
    assert(data.subrange(0, data.len() as int) =~= data);
}

/// A range that begins beyond the end selects the last byte.
pub proof fn law_range_beyond_the_end(data: Seq<u8>, rng: (i64, i64))
    requires
        0 < data.len() <= i64::MAX,
        data.len() <= rng.0,
        rng.1 < 0 || rng.0 <= rng.1,
    ensures
        window_of(clipped(rng, data.len() as u64)).part_of(data) == seq![data.last()],
{
    assert(data.subrange(data.len() - 1, data.len() as int) =~= seq![data.last()]);
}

/// A range written as two numbers is read back as these two numbers.
pub proof fn law_range_roundtrip(first: nat, last: nat)
    requires
        first <= i64::MAX,
        last <= i64::MAX,
    ensures
        range_bounds(
            "bytes="@ + crate::text::decimal(first) + "-"@ + crate::text::decimal(last),
        ) == (first as i64, last as i64),
{
    reveal_strlit("bytes=");
    reveal_strlit("-");
    let a = crate::text::decimal(first);
    let b = crate::text::decimal(last);
    let rng = "bytes="@ + a + "-"@ + b;
    crate::text::lemma_decimal(first);
    crate::text::lemma_decimal(last);
    assert(rng.subrange(0, 6) =~= "bytes="@);
    let tail = rng.skip(6);
    assert(tail =~= a + "-"@ + b);
    crate::text::lemma_trimmed_solid(tail);
    crate::text::lemma_find_dash(a, b, 0);
    assert(tail.take(a.len() as int) =~= a);
    assert(tail.skip(a.len() as int + 1) =~= b);
    crate::text::lemma_trimmed_solid(a);
    crate::text::lemma_trimmed_solid(b);
    crate::text::lemma_signed_digits(a);
    crate::text::lemma_signed_digits(b);
}

/// Whether text has no white space at its ends.
pub open spec fn solid(s: Seq<char>) -> bool {
    s.len() > 0 ==> !crate::text::is_space(s[0]) && !crate::text::is_space(s.last())
}

proof fn lemma_find_behind(a: Seq<char>, pat: Seq<char>, b: Seq<char>, from: int)
    requires
        0 <= from <= a.len(),
        pat.len() > 0,
        !a.contains(pat[0]),
    ensures
        crate::text::find_from(a + pat + b, pat, from) == Some(a.len() as int),
    decreases a.len() - from,
{
    let s = a + pat + b;
    let here = s.subrange(from, from + pat.len());
    if from == a.len() {
        assert(here =~= pat);
    } else {
        assert(here[0] == a[from]);
        assert(a.contains(a[from]));
        assert(here != pat);
        lemma_find_behind(a, pat, b, from + 1);
    }
}

proof fn lemma_spaces_hold_no_dash(s: Seq<char>)
    requires
        crate::text::all_space(s),
    ensures
        !s.contains('-'),
{
    if s.contains('-') {
        let i = choose|i: int| 0 <= i < s.len() && s[i] == '-';
        assert(crate::text::is_space(s[i]));
    }
}

/// A range is read from what stands on the two sides of the first dash behind `bytes=`, with white space
/// around it or without: each side is the number that it is, and -1 where it is none.
pub proof fn law_range_is_read(
    front: Seq<char>,
    left: Seq<char>,
    right: Seq<char>,
    s1: Seq<char>,
    s2: Seq<char>,
    s3: Seq<char>,
    s4: Seq<char>,
)
    requires
        !front.contains('b'),
        !left.contains('-'),
        solid(left),
        solid(right),
        crate::text::all_space(s1),
        crate::text::all_space(s2),
        crate::text::all_space(s3),
        crate::text::all_space(s4),
    ensures
        ({
            let bounds = range_bounds(
                front + "bytes="@ + (s1 + left + s2 + "-"@ + s3 + right + s4),
            );
            &&& match crate::text::signed_value(left) {
                Some(v) => bounds.0 == v,
                None => bounds.0 == -1,
            }
            &&& match crate::text::signed_value(right) {
                Some(v) => bounds.1 == v,
                None => bounds.1 == -1,
            }
        }),
{
    reveal_strlit("bytes=");
    reveal_strlit("-");
    let tail = s1 + left + s2 + "-"@ + s3 + right + s4;
    let rng = front + "bytes="@ + tail;
    assert("bytes="@[0] == 'b');
    lemma_find_behind(front, "bytes="@, tail, 0);
    assert(rng.skip(front.len() as int + 6) =~= tail);
    let a = if left.len() > 0 {
        left + s2
    } else {
        Seq::empty()
    };
    let b = if right.len() > 0 {
        s3 + right
    } else {
        Seq::empty()
    };
    let before = if left.len() > 0 {
        s1
    } else {
        s1 + s2
    };
    let behind = if right.len() > 0 {
        s4
    } else {
        s3 + s4
    };
    let core = a + "-"@ + b;
    assert(tail =~= before + core + behind);
    assert forall|i: int| 0 <= i < before.len() implies crate::text::is_space(#[trigger] before[i]) by {
        if i < s1.len() {
            assert(before[i] == s1[i]);
        } else {
            assert(before[i] == s2[i - s1.len()]);
        }
    }
    assert forall|i: int| 0 <= i < behind.len() implies crate::text::is_space(#[trigger] behind[i]) by {
        if right.len() > 0 {
            assert(behind[i] == s4[i]);
        } else if i < s3.len() {
            assert(behind[i] == s3[i]);
        } else {
            assert(behind[i] == s4[i - s3.len()]);
        }
    }
    crate::text::law_what_is_space('-');
    assert(!crate::text::is_space(core[0])) by {
        if left.len() > 0 {
            assert(core[0] == left[0]);
        } else {
            assert(core[0] == '-');
        }
    }
    assert(!crate::text::is_space(core.last())) by {
        if right.len() > 0 {
            assert(core.last() == right.last());
        } else {
            assert(core.last() == '-');
        }
    }
    crate::text::law_space_is_trimmed(before, core, behind);
    lemma_spaces_hold_no_dash(s2);
    if a.contains('-') {
        let i = choose|i: int| 0 <= i < a.len() && a[i] == '-';
        if i < left.len() {
            assert(left[i] == '-');
            assert(left.contains('-'));
        } else {
            assert(s2[i - left.len()] == '-');
            assert(s2.contains('-'));
        }
    }
    assert("-"@[0] == '-');
    lemma_find_behind(a, "-"@, b, 0);
    assert(core.take(a.len() as int) =~= a);
    assert(core.skip(a.len() as int + 1) =~= b);
    let none = Seq::<char>::empty();
    if left.len() > 0 {
        assert(none + left + s2 =~= a);
        crate::text::law_space_is_trimmed(none, left, s2);
    } else {
        crate::text::lemma_trimmed_solid(a);
        assert(a =~= left);
    }
    if right.len() > 0 {
        assert(s3 + right + none =~= b);
        crate::text::law_space_is_trimmed(s3, right, none);
    } else {
        crate::text::lemma_trimmed_solid(b);
        assert(b =~= right);
    }
}

/// A range may give its first byte alone, or how many bytes at the end are asked for.
pub proof fn law_half_a_range_is_read(n: nat)
    requires
        n <= i64::MAX,
    ensures
        range_bounds("bytes="@ + crate::text::decimal(n) + "-"@) == (n as i64, -1i64),
        range_bounds("bytes=-"@ + crate::text::decimal(n)) == (-1i64, n as i64),
{
    reveal_strlit("bytes=");
    reveal_strlit("bytes=-");
    reveal_strlit("-");
    let none = Seq::<char>::empty();
    let d = crate::text::decimal(n);
    crate::text::lemma_decimal(n);
    crate::text::lemma_signed_digits(d);
    crate::text::law_signed_numbers_are_read(d, none);
    if d.contains('-') {
        let i = choose|i: int| 0 <= i < d.len() && d[i] == '-';
        assert(crate::text::is_digit(d[i]));
    }
    law_range_is_read(none, d, none, none, none, none, none);
    law_range_is_read(none, none, d, none, none, none, none);
    assert(none + "bytes="@ + (none + d + none + "-"@ + none + none + none) =~= "bytes="@ + d + "-"@);
    assert(none + "bytes="@ + (none + none + none + "-"@ + none + d + none) =~= "bytes=-"@ + d);
}

/// Text in which `bytes=` stands nowhere asks for no range, nor does text without a dash.
pub proof fn law_no_range_is_read(text: Seq<char>)
    ensures
        (forall|j: int| 0 <= j <= text.len() - 6 ==> #[trigger] text.subrange(j, j + 6) != "bytes="@)
            ==> range_bounds(text) == (-1i64, -1i64),
        !text.contains('-') ==> range_bounds(text) == (-1i64, -1i64),
{
    reveal_strlit("bytes=");
    reveal_strlit("-");
    crate::text::law_first_place_is_found(text, "bytes="@, 0);
    match crate::text::find_from(text, "bytes="@, 0) {
        Some(p) => {
            assert(text.subrange(p, p + 6) == "bytes="@);
            if !text.contains('-') {
                let rest = text.skip(p + 6);
                let spec_text = crate::text::trimmed(rest);
                lemma_trimmed_within(rest, '-');
                assert(!rest.contains('-')) by {
                    if rest.contains('-') {
                        let i = choose|i: int| 0 <= i < rest.len() && rest[i] == '-';
                        assert(text[p + 6 + i] == '-');
                    }
                }
                crate::text::law_first_place_is_found(spec_text, "-"@, 0);
                match crate::text::find_from(spec_text, "-"@, 0) {
                    Some(q) => {
                        assert(spec_text.subrange(q, q + 1)[0] == '-');
                        assert(spec_text[q] == '-');
                        assert(spec_text.contains('-'));
                    },
                    None => {},
                }
            }
        },
        None => {},
    }
}

proof fn lemma_trimmed_front_within(s: Seq<char>, c: char)
    ensures
        crate::text::trimmed_front(s).contains(c) ==> s.contains(c),
    decreases s.len(),
{
    if s.len() > 0 && crate::text::is_space(s[0]) {
        let t = s.drop_first();
        lemma_trimmed_front_within(t, c);
        if t.contains(c) {
            let i = choose|i: int| 0 <= i < t.len() && t[i] == c;
            assert(s[i + 1] == c);
        }
    }
}

proof fn lemma_trimmed_back_within(s: Seq<char>, c: char)
    ensures
        crate::text::trimmed_back(s).contains(c) ==> s.contains(c),
    decreases s.len(),
{
    if s.len() > 0 && crate::text::is_space(s.last()) {
        let t = s.drop_last();
        lemma_trimmed_back_within(t, c);
        if t.contains(c) {
            let i = choose|i: int| 0 <= i < t.len() && t[i] == c;
            assert(s[i] == c);
        }
    }
}

proof fn lemma_trimmed_within(s: Seq<char>, c: char)
    ensures
        crate::text::trimmed(s).contains(c) ==> s.contains(c),
{
    lemma_trimmed_front_within(s, c);
    lemma_trimmed_back_within(crate::text::trimmed_front(s), c);
}

/// The length that is announced is the number of bytes that are asked for, as far as there are any; the
/// whole is announced as no part where it is asked for without a last byte.
pub proof fn law_announced_length(size: u64, first: i64, last: i64)
    requires
        0 < size <= i64::MAX,
        size <= usize::MAX,
    ensures
        0 <= first <= last < size ==> part_length(clipped((first, last), size), size as usize) == Some(
            (last - first + 1) as usize,
        ),
        0 <= first < size <= last ==> part_length(clipped((first, last), size), size as usize)
            == Some((size - first) as usize),
        0 < first < size && last < 0 ==> part_length(clipped((first, last), size), size as usize)
            == Some((size - first) as usize),
        first == 0 && last < 0 ==> part_length(clipped((first, last), size), size as usize) is None,
        first < 0 && 0 < last <= size ==> part_length(clipped((first, last), size), size as usize)
            == Some(last as usize),
        first < 0 && last > size ==> part_length(clipped((first, last), size), size as usize)
            == Some(size as usize),
        first < 0 && last <= 0 ==> part_length(clipped((first, last), size), size as usize) is None,
        0 <= last < first ==> part_length(clipped((first, last), size), size as usize) is None,
{
}

/// The bytes that are read are those from where reading begins on, as many as are to be taken, as far as
/// there are any.
pub proof fn law_window_reads(w: Window, data: Seq<u8>)
    ensures
        w.seek is None && w.take is None ==> w.part_of(data) == data,
        w.seek matches Some(s) ==> w.take is None ==> w.part_of(data) == (if s <= data.len() {
            data.skip(s as int)
        } else {
            Seq::<u8>::empty()
        }),
        w.take matches Some(n) ==> w.part_of(data) == ({
            let rest = (Window { seek: w.seek, take: None }).part_of(data);
            if n <= rest.len() {
                rest.take(n as int)
            } else {
                rest
            }
        }),
{
    let rest = (Window { seek: w.seek, take: None }).part_of(data);
    assert(data.subrange(0, data.len() as int) =~= data);
    match w.take {
        Some(n) => {
            if n <= rest.len() {
                assert(w.part_of(data) =~= rest.take(n as int));
            } else {
                assert(w.part_of(data) =~= rest);
            }
        },
        None => {
            match w.seek {
                Some(s) => {
                    if s <= data.len() {
                        assert(w.part_of(data) =~= data.skip(s as int));
                    } else {
                        assert(w.part_of(data) =~= Seq::<u8>::empty());
                    }
                },
                None => {},
            }
        },
    }
}

/// Every range can be brought within an object that has bytes; within one that has none, only a range
/// that gives no end can.
pub proof fn law_range_can_be_clipped(rng: (i64, i64), size: u64)
    requires
        size < i64::MAX,
    ensures
        size > 0 ==> clippable(rng, size),
        clippable(rng, 0) <==> rng.0 < 0 && rng.1 < 0,
{
}

/// A range without a first byte asks for bytes at the end whatever stands in place of the first, and for
/// none in particular where no number of bytes is given.
pub proof fn law_range_without_first(data: Seq<u8>, first: i64, last: i64)
    requires
        0 < data.len() <= i64::MAX,
        first < 0,
    ensures
        last > 0 ==> window_of(clipped((first, last), data.len() as u64)).part_of(data) == data.skip(
            if last < data.len() {
                data.len() - last
            } else {
                0
            },
        ),
        last <= 0 ==> window_of(clipped((first, last), data.len() as u64)).part_of(data) == data,
{
    let within = clipped((first, last), data.len() as u64);
    if last > 0 {
        assert(within.1 == data.len() - 1);
    }
    assert(data.skip(0) =~= data);
    assert(data.subrange(0, data.len() as int) =~= data);
}

/// The length of a part is that from its first byte to its last, or to the end where no last byte is
/// given; a range from the beginning on is no part.
pub proof fn law_part_length(first: i64, last: i64, size: usize)
    requires
        last < i64::MAX,
        first <= usize::MAX,
        last < usize::MAX,
    ensures
        0 <= first <= last ==> part_length((first, last), size) == Some((last - first + 1) as usize),
        first < 0 <= last ==> part_length((first, last), size) == Some((last + 1) as usize),
        0 < first < size && last < 0 ==> part_length((first, last), size) == Some(
            (size - first) as usize,
        ),
        0 < first && size <= first && last < 0 ==> part_length((first, last), size) is None,
        first <= 0 && last < 0 ==> part_length((first, last), size) is None,
        0 <= last < first ==> part_length((first, last), size) is None,
{
}

/// A file is read for a range from its first byte on, to its last byte where one is given.
pub proof fn law_file_is_read_for_a_range(data: Seq<u8>, first: i64, last: i64)
    ensures
        0 <= first <= last < data.len() ==> window_of((first, last)).part_of(data) == data.subrange(
            first as int,
            last + 1,
        ),
        0 <= first <= data.len() && last < 0 ==> window_of((first, last)).part_of(data) == data.skip(
            first as int,
        ),
        first < 0 <= last < data.len() ==> window_of((first, last)).part_of(data) == data.take(
            last + 1,
        ),
        first < 0 && last < 0 ==> window_of((first, last)).part_of(data) == data,
{
    let part = window_of((first, last)).part_of(data);
    if 0 <= first <= last < data.len() {
        assert(part =~= data.subrange(first as int, last + 1));
    }
    if 0 <= first <= data.len() && last < 0 {
        assert(part =~= data.skip(first as int));
    }
    if first < 0 <= last < data.len() {
        assert(part =~= data.take(last + 1));
    }
    if first < 0 && last < 0 {
        assert(part =~= data);
    }
}

} // verus!
